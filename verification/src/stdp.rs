//! Spike-timing-dependent plasticity.
//!
//! The synapse keeps one trace per endpoint.  A pre-synaptic spike bumps the
//! pre-trace and depresses the weight in proportion to the decayed
//! post-trace; a post-synaptic spike does the mirror image.  In
//! weight-dependent scaling mode the learning rates soften as the weight
//! approaches its bounds.  Every update clamps the weight into
//! `[min, max]`.

use vstd::prelude::*;

use crate::fixed::{fadd, fmul, fsub, Fx};
use crate::synapse::Synapse;
use crate::trace::Trace;

verus! {

/// Parameters of an STDP synapse: initial weight and its bounds, learning
/// rates `n_pos`/`n_neg`, trace half-lives `tau_pos`/`tau_neg`, trace bump
/// amounts `a_pos`/`a_neg`, the all-to-all flag, the weight-dependent
/// scaling flag, and the transmission delay.
#[derive(Clone, Copy, Debug, PartialEq, Eq, Structural)]
pub struct STDPConfig {
    pub weight: Fx,
    pub min: Fx,
    pub max: Fx,
    pub n_pos: Fx,
    pub n_neg: Fx,
    pub tau_pos: Fx,
    pub tau_neg: Fx,
    pub a_pos: Fx,
    pub a_neg: Fx,
    pub continuous: bool,
    pub scale: bool,
    pub delay: usize,
}

impl Default for STDPConfig {
    fn default() -> (r: STDPConfig)
        ensures
            (r == STDPConfig {
                weight: Fx(6_000_000),
                min: Fx(0),
                max: Fx(10_000_000),
                n_pos: Fx(100_000),
                n_neg: Fx(-120_000i64),
                tau_pos: Fx(20_000_000),
                tau_neg: Fx(20_000_000),
                a_pos: Fx(1_000_000),
                a_neg: Fx(1_000_000),
                continuous: false,
                scale: false,
                delay: 1usize,
            }),
    {
        STDPConfig {
            weight: Fx(6_000_000),
            min: Fx(0),
            max: Fx(10_000_000),
            n_pos: Fx(100_000),
            n_neg: Fx(-120_000),
            tau_pos: Fx(20_000_000),
            tau_neg: Fx(20_000_000),
            a_pos: Fx(1_000_000),
            a_neg: Fx(1_000_000),
            continuous: false,
            scale: false,
            delay: 1,
        }
    }
}

/// An STDP synapse over any trace implementation.
#[derive(Clone, Copy, Debug, PartialEq, Eq)]
pub struct STDPSynapse<T: Trace> {
    pub weight: Fx,
    pub min: Fx,
    pub max: Fx,
    pub n_pos: Fx,
    pub n_neg: Fx,
    pub pre_trace: T,
    pub post_trace: T,
    pub a_pos: Fx,
    pub a_neg: Fx,
    pub delay: usize,
    pub scale: bool,
}

impl<T: Trace> STDPSynapse<T> {
    /// A synapse with the given parameters and fresh traces.
    pub fn new(config: STDPConfig) -> (r: STDPSynapse<T>)
        ensures
            (r == STDPSynapse {
                pre_trace: T::spec_new(config.tau_pos, config.continuous),
                post_trace: T::spec_new(config.tau_neg, config.continuous),
                weight: config.weight,
                n_pos: config.n_pos,
                n_neg: config.n_neg,
                a_pos: config.a_pos,
                a_neg: config.a_neg,
                delay: config.delay,
                scale: config.scale,
                min: config.min,
                max: config.max,
            }),
    {
        STDPSynapse {
            pre_trace: T::new(config.tau_pos, config.continuous),
            post_trace: T::new(config.tau_neg, config.continuous),
            weight: config.weight,
            n_pos: config.n_pos,
            n_neg: config.n_neg,
            a_pos: config.a_pos,
            a_neg: config.a_neg,
            delay: config.delay,
            scale: config.scale,
            min: config.min,
            max: config.max,
        }
    }

    /// Effective potentiation rate: fixed, or softened toward the ceiling.
    pub open spec fn spec_a_pos(self) -> Fx {
        if self.scale {
            fmul(self.n_pos, fsub(self.max, self.weight))
        } else {
            self.n_pos
        }
    }

    /// Effective depression rate: fixed, or softened toward the floor.
    pub open spec fn spec_a_neg(self) -> Fx {
        if self.scale {
            fmul(self.n_neg, fsub(self.min, self.weight))
        } else {
            self.n_neg
        }
    }

    /// Add `delta` to the weight and clamp into `[min, max]`.
    pub open spec fn spec_integrate(self, delta: Fx) -> Self {
        let w = fadd(self.weight, delta);
        let w2 = if w.0 > self.max.0 {
            self.max
        } else if w.0 < self.min.0 {
            self.min
        } else {
            w
        };
        STDPSynapse { weight: w2, ..self }
    }

    fn a_pos_eff(&self) -> (r: Fx)
        ensures
            r == self.spec_a_pos(),
    {
        if self.scale {
            self.n_pos.mul(self.max.sub(self.weight))
        } else {
            self.n_pos
        }
    }

    fn a_neg_eff(&self) -> (r: Fx)
        ensures
            r == self.spec_a_neg(),
    {
        if self.scale {
            self.n_neg.mul(self.min.sub(self.weight))
        } else {
            self.n_neg
        }
    }

    fn integrate(&mut self, delta: Fx)
        ensures
            *final(self) == old(self).spec_integrate(delta),
    {
        let w = self.weight.add(delta);
        if w.0 > self.max.0 {
            self.weight = self.max;
        } else if w.0 < self.min.0 {
            self.weight = self.min;
        } else {
            self.weight = w;
        }
    }
}

impl<T: Trace> Synapse for STDPSynapse<T> {
    open spec fn spec_pre(self, now: Fx) -> Self {
        let s1 = STDPSynapse { pre_trace: self.pre_trace.spec_update(self.a_pos, now), ..self };
        let delta = fmul(s1.spec_a_neg(), s1.post_trace.spec_read_val(now));
        let s2 = STDPSynapse { post_trace: s1.post_trace.spec_read(now), ..s1 };
        s2.spec_integrate(delta)
    }

    open spec fn spec_pre_delta(self, now: Fx) -> Fx {
        fmul(self.spec_a_neg(), self.post_trace.spec_read_val(now))
    }

    open spec fn spec_post(self, now: Fx) -> Self {
        let s1 = STDPSynapse { post_trace: self.post_trace.spec_update(self.a_neg, now), ..self };
        let delta = fmul(s1.spec_a_pos(), s1.pre_trace.spec_read_val(now));
        let s2 = STDPSynapse { pre_trace: s1.pre_trace.spec_read(now), ..s1 };
        s2.spec_integrate(delta)
    }

    open spec fn spec_post_delta(self, now: Fx) -> Fx {
        fmul(self.spec_a_pos(), self.pre_trace.spec_read_val(now))
    }

    open spec fn spec_weight(self) -> Fx {
        self.weight
    }

    open spec fn spec_delay(self) -> usize {
        self.delay
    }

    fn pre_recv(&mut self, now: Fx) -> (d: Fx) {
        // A pre-synaptic spike bumps the pre-trace, and depresses the
        // weight in proportion to the decayed post-trace.
        let a = self.a_pos;
        self.pre_trace.update(a, now);
        let rate = self.a_neg_eff();
        let pv = self.post_trace.read(now);
        let delta = rate.mul(pv);
        self.integrate(delta);
        delta
    }

    fn post_recv(&mut self, now: Fx) -> (d: Fx) {
        // A post-synaptic spike bumps the post-trace, and potentiates the
        // weight in proportion to the decayed pre-trace.
        let a = self.a_neg;
        self.post_trace.update(a, now);
        let rate = self.a_pos_eff();
        let pv = self.pre_trace.read(now);
        let delta = rate.mul(pv);
        self.integrate(delta);
        delta
    }

    fn weight(&self) -> (w: Fx) {
        self.weight
    }

    fn delay(&self) -> (d: usize) {
        self.delay
    }

    proof fn delay_fixed(self, now: Fx) {
    }
}

/// The clamp keeps every reachable weight inside well-formed bounds: after
/// either plasticity call the weight lies in `[min, max]`.
pub proof fn lemma_stdp_weight_bounds<T: Trace>(s: STDPSynapse<T>, now: Fx)
    requires
        s.min.0 <= s.max.0,
    ensures
        s.min.0 <= s.spec_pre(now).weight.0 <= s.max.0,
        s.min.0 <= s.spec_post(now).weight.0 <= s.max.0,
{
}

} // verus!
