//! Saturating fixed-point scalars with six decimal places.
//!
//! An [`Fx`] holds a signed value scaled by `SCALE = 1_000_000`, so `Fx(1_500_000)`
//! stands for one and a half.  Addition, subtraction, multiplication and
//! division saturate at the `i64` range instead of overflowing, and division
//! by zero saturates by the sign of the dividend; every operation is total
//! and its result is pinned exactly by a spec function.

use vstd::prelude::*;

verus! {

/// Number of raw units per whole unit: `Fx` values carry six decimal places.
pub const SCALE: i64 = 1_000_000;

/// A fixed-point scalar: the raw field is the value times [`SCALE`].
#[derive(Clone, Copy, Debug, PartialEq, Eq, Structural)]
pub struct Fx(pub i64);

/// Magnitude of a mathematical integer.
pub open spec fn iabs(x: int) -> int {
    if x < 0 {
        -x
    } else {
        x
    }
}

/// Clamp a mathematical integer into the `i64` range.
pub open spec fn sat64(x: int) -> int {
    if x > i64::MAX as int {
        i64::MAX as int
    } else if x < i64::MIN as int {
        i64::MIN as int
    } else {
        x
    }
}

/// Quotient of `x` by `d`, truncated toward zero; zero when `d` is zero.
pub open spec fn tdiv(x: int, d: int) -> int {
    if d == 0 {
        0
    } else {
        let q = iabs(x) / iabs(d);
        if (x < 0) != (d < 0) {
            -q
        } else {
            q
        }
    }
}

/// Pack a clamped integer back into a scalar.
pub open spec fn fx_clamp(x: int) -> Fx {
    Fx(sat64(x) as i64)
}

/// Saturating sum.
pub open spec fn fadd(a: Fx, b: Fx) -> Fx {
    fx_clamp(a.0 + b.0)
}

/// Saturating difference.
pub open spec fn fsub(a: Fx, b: Fx) -> Fx {
    fx_clamp(a.0 - b.0)
}

/// Saturating product: the double-width product is rescaled by [`SCALE`]
/// with truncation toward zero.
pub open spec fn fmul(a: Fx, b: Fx) -> Fx {
    fx_clamp(tdiv(a.0 * b.0, SCALE as int))
}

/// Saturating quotient; division by zero saturates by the dividend's sign.
pub open spec fn fdiv(a: Fx, b: Fx) -> Fx {
    if b.0 == 0 {
        if a.0 > 0 {
            Fx(i64::MAX)
        } else if a.0 < 0 {
            Fx(i64::MIN)
        } else {
            Fx(0)
        }
    } else {
        fx_clamp(tdiv(a.0 * SCALE, b.0 as int))
    }
}

/// Saturating negation.
pub open spec fn fneg(a: Fx) -> Fx {
    fx_clamp(-a.0)
}

/// Saturating magnitude.
pub open spec fn fabs(a: Fx) -> Fx {
    if a.0 < 0 {
        fneg(a)
    } else {
        a
    }
}

/// The scalar one.
pub open spec fn fx_one() -> Fx {
    Fx(1_000_000)
}

/// The scalar zero.
pub open spec fn fx_zero() -> Fx {
    Fx(0)
}

/// Multiplying by one changes nothing: rescaling by [`SCALE`] cancels the
/// raw factor exactly.
pub proof fn lemma_fmul_one(x: Fx)
    ensures
        fmul(x, fx_one()) == x,
{
    let p = x.0 as int * 1_000_000;
    if x.0 >= 0 {
        assert(iabs(p) == p);
        vstd::arithmetic::div_mod::lemma_div_multiples_vanish(x.0 as int, 1_000_000);
        assert(1_000_000 * (x.0 as int) / 1_000_000 == x.0 as int);
        assert(p / 1_000_000 == x.0 as int);
    } else {
        assert(iabs(p) == 1_000_000 * (-x.0 as int));
        vstd::arithmetic::div_mod::lemma_div_multiples_vanish(-x.0 as int, 1_000_000);
        assert(iabs(p) / 1_000_000 == -x.0 as int);
    }
}

/// Clamp a double-width intermediate into `i64`.
fn sat_i128(x: i128) -> (r: i64)
    ensures
        r as int == sat64(x as int),
{
    if x > i64::MAX as i128 {
        i64::MAX
    } else if x < i64::MIN as i128 {
        i64::MIN
    } else {
        x as i64
    }
}

/// Truncated division of a double-width value by a positive divisor.
fn div_trunc(x: i128, d: u128) -> (r: i128)
    requires
        d > 0,
        x > i128::MIN,
    ensures
        r as int == tdiv(x as int, d as int),
        iabs(r as int) <= iabs(x as int),
{
    if x >= 0 {
        let q: u128 = (x as u128) / d;
        assert(q <= x as u128) by {
            assert(x as u128 / d <= x as u128) by (nonlinear_arith)
                requires
                    d > 0,
            ;
        };
        q as i128
    } else {
        let m: i128 = -x;
        let q: u128 = (m as u128) / d;
        assert(q <= m as u128) by {
            assert(m as u128 / d <= m as u128) by (nonlinear_arith)
                requires
                    d > 0,
            ;
        };
        -(q as i128)
    }
}

impl Fx {
    /// Saturating addition.
    pub fn add(self, o: Fx) -> (r: Fx)
        ensures
            r == fadd(self, o),
    {
        Fx(sat_i128(self.0 as i128 + o.0 as i128))
    }

    /// Saturating subtraction.
    pub fn sub(self, o: Fx) -> (r: Fx)
        ensures
            r == fsub(self, o),
    {
        Fx(sat_i128(self.0 as i128 - o.0 as i128))
    }

    /// Saturating fixed-point multiplication.
    pub fn mul(self, o: Fx) -> (r: Fx)
        ensures
            r == fmul(self, o),
    {
        proof {
            assert((self.0 as int) * (o.0 as int) <= 0x4000_0000_0000_0000_0000_0000_0000_0000
                && (self.0 as int) * (o.0 as int) >= -0x4000_0000_0000_0000_0000_0000_0000_0000)
                by (nonlinear_arith)
                requires
                    -0x8000_0000_0000_0000 <= self.0 as int <= 0x7fff_ffff_ffff_ffff,
                    -0x8000_0000_0000_0000 <= o.0 as int <= 0x7fff_ffff_ffff_ffff,
            ;
        }
        let p: i128 = (self.0 as i128) * (o.0 as i128);
        Fx(sat_i128(div_trunc(p, 1_000_000u128)))
    }

    /// Saturating fixed-point division; division by zero saturates by the
    /// dividend's sign.
    pub fn div(self, o: Fx) -> (r: Fx)
        ensures
            r == fdiv(self, o),
    {
        if o.0 == 0 {
            if self.0 > 0 {
                Fx(i64::MAX)
            } else if self.0 < 0 {
                Fx(i64::MIN)
            } else {
                Fx(0)
            }
        } else {
            let p: i128 = (self.0 as i128) * 1_000_000i128;
            let dm: u128 = if o.0 < 0 {
                (-(o.0 as i128)) as u128
            } else {
                (o.0 as i128) as u128
            };
            let q: i128 = div_trunc(p, dm);
            let q2: i128 = if o.0 < 0 {
                -q
            } else {
                q
            };
            proof {
                assert(q2 as int == tdiv(self.0 as int * SCALE, o.0 as int));
            }
            Fx(sat_i128(q2))
        }
    }

    /// Saturating negation.
    pub fn neg(self) -> (r: Fx)
        ensures
            r == fneg(self),
    {
        if self.0 == i64::MIN {
            Fx(i64::MAX)
        } else {
            Fx(-self.0)
        }
    }

    /// Saturating magnitude.
    pub fn abs(self) -> (r: Fx)
        ensures
            r == fabs(self),
    {
        if self.0 < 0 {
            self.neg()
        } else {
            self
        }
    }
}

} // verus!
