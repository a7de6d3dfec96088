//! The capability contract of an excitable unit.
//!
//! A neuron accumulates input, integrates once per tick, reports whether it
//! crossed its firing threshold, and is reset by the caller after each
//! detected spike.  It owns no edges and knows nothing of the network.

use vstd::prelude::*;

use crate::fixed::Fx;

verus! {

/// An excitable element: it decides which signals to pass on.
pub trait Neuron: Sized + Copy {
    /// Model of the state after [`Self::recv`].
    spec fn spec_recv(self, v: Fx) -> Self;

    /// Model of the accumulated input returned by [`Self::recv`].
    spec fn spec_recv_val(self, v: Fx) -> Fx;

    /// Model of the state after [`Self::tick`].
    spec fn spec_advance(self, tau: Fx) -> Self;

    /// Model of the amplitude reported by [`Self::threshold`].
    spec fn spec_threshold(self) -> Fx;

    /// Model of the state after [`Self::reset`].
    spec fn spec_reset(self) -> Self;

    /// Accumulate `v` into the pending input; successive calls before a
    /// tick add up.  Returns the new accumulated input.
    fn recv(&mut self, v: Fx) -> (r: Fx)
        ensures
            *final(self) == old(self).spec_recv(v),
            r == old(self).spec_recv_val(v),
    ;

    /// Integrate the membrane state across `tau` time units and clear the
    /// accumulated input.
    fn tick(&mut self, tau: Fx)
        ensures
            *final(self) == old(self).spec_advance(tau),
    ;

    /// The firing amplitude if the neuron is above threshold, zero
    /// otherwise.  Pure: the state is left untouched.
    fn threshold(&mut self) -> (r: Fx)
        ensures
            *final(self) == *old(self),
            r == old(self).spec_threshold(),
    ;

    /// After-spike reset; the caller invokes it exactly once per detected
    /// firing, between the threshold test and the next tick.
    fn reset(&mut self)
        ensures
            *final(self) == old(self).spec_reset(),
    ;
}

} // verus!
