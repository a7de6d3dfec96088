//! The capability contract of a plastic, delayed connection.
//!
//! A synapse carries a weight and a whole-tick transmission delay, and
//! adjusts the weight when either of its endpoints fires.  Which plasticity
//! rule applies is up to the implementation.

use vstd::prelude::*;

use crate::fixed::Fx;

verus! {

/// A weighted, delayed edge whose weight-update rule is implementation
/// specific.
pub trait Synapse: Sized + Copy {
    /// Model of the state after [`Self::pre_recv`].
    spec fn spec_pre(self, now: Fx) -> Self;

    /// Model of the weight change returned by [`Self::pre_recv`].
    spec fn spec_pre_delta(self, now: Fx) -> Fx;

    /// Model of the state after [`Self::post_recv`].
    spec fn spec_post(self, now: Fx) -> Self;

    /// Model of the weight change returned by [`Self::post_recv`].
    spec fn spec_post_delta(self, now: Fx) -> Fx;

    /// Model of [`Self::weight`].
    spec fn spec_weight(self) -> Fx;

    /// Model of [`Self::delay`].
    spec fn spec_delay(self) -> usize;

    /// The sending endpoint fired at `now`; apply the plasticity rule and
    /// return the weight change.
    fn pre_recv(&mut self, now: Fx) -> (d: Fx)
        ensures
            *final(self) == old(self).spec_pre(now),
            d == old(self).spec_pre_delta(now),
    ;

    /// The receiving endpoint fired at `now`; apply the plasticity rule and
    /// return the weight change.
    fn post_recv(&mut self, now: Fx) -> (d: Fx)
        ensures
            *final(self) == old(self).spec_post(now),
            d == old(self).spec_post_delta(now),
    ;

    /// The current weight.
    fn weight(&self) -> (w: Fx)
        ensures
            w == self.spec_weight(),
    ;

    /// The transmission delay in whole ticks.
    fn delay(&self) -> (d: usize)
        ensures
            d == self.spec_delay(),
    ;

    /// Plasticity never changes the transmission delay.
    proof fn delay_fixed(self, now: Fx)
        ensures
            self.spec_pre(now).spec_delay() == self.spec_delay(),
            self.spec_post(now).spec_delay() == self.spec_delay(),
    ;
}

} // verus!
