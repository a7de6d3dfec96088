//! Fast approximate exponential.
//!
//! `exp(x)` is the limit of `(1 + x/n)^n`; with `n = 1024` the power needs
//! only ten squarings, so the approximation stays in plain fixed-point
//! arithmetic and never calls a transcendental function.

use vstd::prelude::*;

use crate::fixed::{fadd, fdiv, fmul, fx_one, Fx};

verus! {

/// A scalar that offers the fast approximate exponential.
pub trait FastExp: Sized + Copy {
    /// Model of [`Self::fastexp`].
    spec fn spec_fastexp(self) -> Self;

    /// Approximate `exp(self)`.
    fn fastexp(self) -> (r: Self)
        ensures
            r == self.spec_fastexp(),
    ;
}

/// `k` repeated squarings of `v`.
pub open spec fn sq_iter(v: Fx, k: nat) -> Fx
    decreases k,
{
    if k == 0 {
        v
    } else {
        let w = sq_iter(v, (k - 1) as nat);
        fmul(w, w)
    }
}

/// The approximation `(1 + x/1024)^1024`, computed by ten squarings.
pub open spec fn fx_fastexp(x: Fx) -> Fx {
    sq_iter(fadd(fx_one(), fdiv(x, Fx(1_024_000_000))), 10)
}

/// Squaring one any number of times leaves one.
pub proof fn lemma_sq_iter_one(k: nat)
    ensures
        sq_iter(fx_one(), k) == fx_one(),
    decreases k,
{
    if k > 0 {
        lemma_sq_iter_one((k - 1) as nat);
        crate::fixed::lemma_fmul_one(fx_one());
    }
}

impl FastExp for Fx {
    open spec fn spec_fastexp(self) -> Fx {
        fx_fastexp(self)
    }

    fn fastexp(self) -> (r: Fx) {
        let base = Fx(1_000_000).add(self.div(Fx(1_024_000_000)));
        let mut v = base;
        let mut k: usize = 0;
        while k < 10
            invariant
                0 <= k <= 10,
                v == sq_iter(base, k as nat),
            decreases 10 - k,
        {
            v = v.mul(v);
            k = k + 1;
        }
        v
    }
}

} // verus!
