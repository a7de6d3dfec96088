//! The capability contract of a decaying scalar.
//!
//! A trace records a value at some instant and hands back a decayed reading
//! at any later instant; plasticity rules use it to summarise recent spike
//! history.  Reading is lazy and side-effecting: it re-anchors the trace at
//! the instant of the read.

use vstd::prelude::*;

use crate::fixed::Fx;

verus! {

/// A decaying scalar sampled lazily at arbitrary instants.
pub trait Trace: Sized + Copy {
    /// Model of [`Self::new`].
    spec fn spec_new(half_life: Fx, continuous: bool) -> Self;

    /// Model of the state after [`Self::read`].
    spec fn spec_read(self, now: Fx) -> Self;

    /// Model of the value returned by [`Self::read`].
    spec fn spec_read_val(self, now: Fx) -> Fx;

    /// Model of the state after [`Self::update`].
    spec fn spec_update(self, val: Fx, now: Fx) -> Self;

    /// A fresh trace with the given half-life.  In continuous mode
    /// successive updates accumulate (all-to-all interactions); otherwise
    /// the latest update overwrites (nearest-neighbor).
    fn new(half_life: Fx, continuous: bool) -> (t: Self)
        ensures
            t == Self::spec_new(half_life, continuous),
    ;

    /// The decayed value as of `now`; re-anchors the trace at `now`.
    fn read(&mut self, now: Fx) -> (v: Fx)
        ensures
            *final(self) == old(self).spec_read(now),
            v == old(self).spec_read_val(now),
    ;

    /// Record `val` at `now`: in continuous mode the decayed value plus
    /// `val`, otherwise `val` alone.
    fn update(&mut self, val: Fx, now: Fx)
        ensures
            *final(self) == old(self).spec_update(val, now),
    ;
}

} // verus!
