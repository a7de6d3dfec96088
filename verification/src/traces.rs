//! Two decay laws behind the [`Trace`] contract.
//!
//! [`ExpTrace`] decays by the approximate exponential of the elapsed time
//! over its half-life; [`LinTrace`] is a cheaper linear approximation of the
//! same shape.  Both re-anchor themselves at every read.

use vstd::prelude::*;

use crate::fastexp::{fx_fastexp, lemma_sq_iter_one, FastExp};
use crate::fixed::{fadd, fdiv, fmul, fneg, fsub, fx_one, lemma_fmul_one, Fx};
use crate::trace::Trace;

verus! {

/// A trace that decays exponentially with its half-life.
#[derive(Clone, Copy, Debug, PartialEq, Eq, Structural)]
pub struct ExpTrace {
    pub value: Fx,
    pub last_time: Fx,
    pub half_life: Fx,
    pub continuous: bool,
}

/// State of an [`ExpTrace`] after a read at `now`.
pub open spec fn exp_read(t: ExpTrace, now: Fx) -> ExpTrace {
    if t.last_time.0 != 0 {
        let diff = fsub(now, t.last_time);
        let factor = fx_fastexp(fdiv(fmul(Fx(-1_000_000i64), diff), t.half_life));
        ExpTrace { value: fmul(t.value, factor), last_time: now, ..t }
    } else {
        ExpTrace { last_time: now, ..t }
    }
}

/// State of an [`ExpTrace`] after an update of `val` at `now`.
pub open spec fn exp_update(t: ExpTrace, val: Fx, now: Fx) -> ExpTrace {
    if t.continuous {
        let t2 = exp_read(t, now);
        ExpTrace { value: fadd(t2.value, val), ..t2 }
    } else {
        ExpTrace { value: val, last_time: now, ..t }
    }
}

impl Trace for ExpTrace {
    open spec fn spec_new(half_life: Fx, continuous: bool) -> Self {
        ExpTrace { value: Fx(0), last_time: Fx(0), half_life, continuous }
    }

    open spec fn spec_read(self, now: Fx) -> Self {
        exp_read(self, now)
    }

    open spec fn spec_read_val(self, now: Fx) -> Fx {
        exp_read(self, now).value
    }

    open spec fn spec_update(self, val: Fx, now: Fx) -> Self {
        exp_update(self, val, now)
    }

    fn new(half_life: Fx, continuous: bool) -> (t: Self) {
        ExpTrace { value: Fx(0), last_time: Fx(0), half_life, continuous }
    }

    fn read(&mut self, now: Fx) -> (v: Fx) {
        if self.last_time.0 != 0 {
            let diff = now.sub(self.last_time);
            let factor = Fx(-1_000_000i64).mul(diff).div(self.half_life).fastexp();
            self.value = self.value.mul(factor);
        }
        self.last_time = now;
        self.value
    }

    fn update(&mut self, val: Fx, now: Fx) {
        if self.continuous {
            let r = self.read(now);
            self.value = r.add(val);
        } else {
            self.value = val;
        }
        self.last_time = now;
    }
}

/// A trace that approximates the exponential decay linearly.
#[derive(Clone, Copy, Debug, PartialEq, Eq, Structural)]
pub struct LinTrace {
    pub value: Fx,
    pub last_time: Fx,
    pub half_life: Fx,
    pub continuous: bool,
}

/// State of a [`LinTrace`] after a read at `now`.  Zero elapsed time means
/// zero decay: the stored value comes back untouched; otherwise the linear
/// law recomputes the value from the elapsed time.
pub open spec fn lin_read(t: LinTrace, now: Fx) -> LinTrace {
    if t.last_time.0 != 0 {
        let diff = fsub(now, t.last_time);
        if diff.0 == 0 {
            LinTrace { last_time: now, ..t }
        } else {
            let v = if diff.0 > 0 {
                fadd(fdiv(fneg(diff), fmul(t.half_life, Fx(2_000_000))), fx_one())
            } else {
                fsub(fdiv(diff, fmul(t.half_life, Fx(2_000_000))), fx_one())
            };
            LinTrace { value: v, last_time: now, ..t }
        }
    } else {
        LinTrace { last_time: now, ..t }
    }
}

/// State of a [`LinTrace`] after an update of `val` at `now`.
pub open spec fn lin_update(t: LinTrace, val: Fx, now: Fx) -> LinTrace {
    if t.continuous {
        let t2 = lin_read(t, now);
        LinTrace { value: fadd(t2.value, val), ..t2 }
    } else {
        LinTrace { value: val, last_time: now, ..t }
    }
}

impl Trace for LinTrace {
    open spec fn spec_new(half_life: Fx, continuous: bool) -> Self {
        LinTrace { value: Fx(0), last_time: Fx(0), half_life, continuous }
    }

    open spec fn spec_read(self, now: Fx) -> Self {
        lin_read(self, now)
    }

    open spec fn spec_read_val(self, now: Fx) -> Fx {
        lin_read(self, now).value
    }

    open spec fn spec_update(self, val: Fx, now: Fx) -> Self {
        lin_update(self, val, now)
    }

    fn new(half_life: Fx, continuous: bool) -> (t: Self) {
        LinTrace { value: Fx(0), last_time: Fx(0), half_life, continuous }
    }

    fn read(&mut self, now: Fx) -> (v: Fx) {
        if self.last_time.0 != 0 {
            let diff = now.sub(self.last_time);
            if diff.0 > 0 {
                self.value = diff.neg().div(self.half_life.mul(Fx(2_000_000))).add(Fx(1_000_000));
            } else if diff.0 < 0 {
                self.value = diff.div(self.half_life.mul(Fx(2_000_000))).sub(Fx(1_000_000));
            }
        }
        self.last_time = now;
        self.value
    }

    fn update(&mut self, val: Fx, now: Fx) {
        if self.continuous {
            let r = self.read(now);
            self.value = r.add(val);
        } else {
            self.value = val;
        }
        self.last_time = now;
    }
}

/// Reading right after an update, at the same instant, decays nothing: the
/// stored value comes back untouched.  In nearest-neighbor mode that value
/// is exactly the amount just recorded; in all-to-all mode it is the
/// decayed history plus the amount, which thus arrives unattenuated.
pub proof fn lemma_exp_trace_zero_decay(t: ExpTrace, val: Fx, now: Fx)
    ensures
        exp_read(exp_update(t, val, now), now).value == exp_update(t, val, now).value,
        !t.continuous ==> exp_read(exp_update(t, val, now), now).value == val,
        t.continuous ==> exp_read(exp_update(t, val, now), now).value == fadd(
            exp_read(t, now).value,
            val,
        ),
{
    let t2 = exp_update(t, val, now);
    assert(t2.last_time == now);
    if now.0 != 0 {
        let diff = fsub(now, now);
        assert(diff == Fx(0));
        assert(fmul(Fx(-1_000_000i64), Fx(0i64)) == Fx(0));
        assert(fdiv(Fx(0), t2.half_life) == Fx(0));
        assert(fadd(fx_one(), fdiv(Fx(0), Fx(1_024_000_000))) == fx_one());
        lemma_sq_iter_one(10);
        assert(fx_fastexp(Fx(0)) == fx_one());
        lemma_fmul_one(t2.value);
    }
}

/// Reading right after an update, at the same instant, decays nothing: the
/// stored value comes back untouched.  In nearest-neighbor mode that value
/// is exactly the amount just recorded; in all-to-all mode it is the
/// decayed history plus the amount, which thus arrives unattenuated.
pub proof fn lemma_lin_trace_zero_decay(t: LinTrace, val: Fx, now: Fx)
    ensures
        lin_read(lin_update(t, val, now), now).value == lin_update(t, val, now).value,
        !t.continuous ==> lin_read(lin_update(t, val, now), now).value == val,
        t.continuous ==> lin_read(lin_update(t, val, now), now).value == fadd(
            lin_read(t, now).value,
            val,
        ),
{
    let t2 = lin_update(t, val, now);
    assert(t2.last_time == now);
    if now.0 != 0 {
        assert(fsub(now, now) == Fx(0));
    }
}

} // verus!
