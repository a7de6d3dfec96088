//! Symmetric (non-causal) plasticity.
//!
//! Instead of decaying traces, the synapse stores the last pre- and
//! post-synaptic firing times and recomputes, on every event, a kernel
//! `a_sym * (1 - (dt/tau_a)^2) * exp(-|dt|/tau_b)` of their difference:
//! co-activity matters, spike order does not.  Every update clamps the
//! weight into `[min, max]`.

use vstd::prelude::*;

use crate::fastexp::{fx_fastexp, FastExp};
use crate::fixed::{fabs, fadd, fdiv, fmul, fneg, fsub, fx_one, Fx};
use crate::synapse::Synapse;

verus! {

/// Parameters of a symmetric synapse: initial weight and its bounds, the
/// kernel amplitude `a_sym`, its widths `tau_a` and `tau_b`, and the
/// transmission delay.
#[derive(Clone, Copy, Debug, PartialEq, Eq, Structural)]
pub struct SymConfig {
    pub weight: Fx,
    pub a_sym: Fx,
    pub tau_a: Fx,
    pub tau_b: Fx,
    pub delay: usize,
    pub min: Fx,
    pub max: Fx,
}

impl Default for SymConfig {
    fn default() -> (r: SymConfig)
        ensures
            (r == SymConfig {
                weight: Fx(0),
                a_sym: Fx(50_000),
                tau_a: Fx(10_000_000),
                tau_b: Fx(10_000_000),
                delay: 1usize,
                min: Fx(-10_000_000i64),
                max: Fx(10_000_000),
            }),
    {
        SymConfig {
            weight: Fx(0),
            a_sym: Fx(50_000),
            tau_a: Fx(10_000_000),
            tau_b: Fx(10_000_000),
            delay: 1,
            min: Fx(-10_000_000),
            max: Fx(10_000_000),
        }
    }
}

/// A synapse with the symmetric co-activity kernel.
#[derive(Clone, Copy, Debug, PartialEq, Eq, Structural)]
pub struct SymSynapse {
    pub weight: Fx,
    pub min: Fx,
    pub max: Fx,
    pub a_sym: Fx,
    pub tau_a: Fx,
    pub tau_b: Fx,
    pub delay: usize,
    pub pre_time: Fx,
    pub post_time: Fx,
}

impl SymSynapse {
    /// A synapse with the given parameters and both timestamps at zero.
    pub fn new(config: SymConfig) -> (r: SymSynapse)
        ensures
            (r == SymSynapse {
                weight: config.weight,
                a_sym: config.a_sym,
                tau_a: config.tau_a,
                tau_b: config.tau_b,
                delay: config.delay,
                min: config.min,
                max: config.max,
                pre_time: Fx(0),
                post_time: Fx(0),
            }),
    {
        SymSynapse {
            weight: config.weight,
            a_sym: config.a_sym,
            tau_a: config.tau_a,
            tau_b: config.tau_b,
            delay: config.delay,
            min: config.min,
            max: config.max,
            pre_time: Fx(0),
            post_time: Fx(0),
        }
    }

    /// The kernel of the stored timestamp difference.
    pub open spec fn spec_delta(self) -> Fx {
        let dt = fsub(self.post_time, self.pre_time);
        let q = fdiv(dt, self.tau_a);
        fmul(
            fmul(self.a_sym, fsub(fx_one(), fmul(q, q))),
            fx_fastexp(fdiv(fneg(fabs(dt)), self.tau_b)),
        )
    }

    /// Add `delta` to the weight and clamp into `[min, max]`.
    pub open spec fn spec_integrate(self, delta: Fx) -> Self {
        let w = fadd(self.weight, delta);
        let w2 = if w.0 > self.max.0 {
            self.max
        } else if w.0 < self.min.0 {
            self.min
        } else {
            w
        };
        SymSynapse { weight: w2, ..self }
    }

    fn get_delta(&self) -> (r: Fx)
        ensures
            r == self.spec_delta(),
    {
        let dt = self.post_time.sub(self.pre_time);
        let q = dt.div(self.tau_a);
        let shape = self.a_sym.mul(Fx(1_000_000).sub(q.mul(q)));
        let decay = dt.abs().neg().div(self.tau_b).fastexp();
        shape.mul(decay)
    }

    fn integrate(&mut self, delta: Fx)
        ensures
            *final(self) == old(self).spec_integrate(delta),
    {
        let w = self.weight.add(delta);
        if w.0 > self.max.0 {
            self.weight = self.max;
        } else if w.0 < self.min.0 {
            self.weight = self.min;
        } else {
            self.weight = w;
        }
    }
}

impl Synapse for SymSynapse {
    open spec fn spec_pre(self, now: Fx) -> Self {
        let s1 = SymSynapse { pre_time: now, ..self };
        s1.spec_integrate(s1.spec_delta())
    }

    open spec fn spec_pre_delta(self, now: Fx) -> Fx {
        SymSynapse { pre_time: now, ..self }.spec_delta()
    }

    open spec fn spec_post(self, now: Fx) -> Self {
        let s1 = SymSynapse { post_time: now, ..self };
        s1.spec_integrate(s1.spec_delta())
    }

    open spec fn spec_post_delta(self, now: Fx) -> Fx {
        SymSynapse { post_time: now, ..self }.spec_delta()
    }

    open spec fn spec_weight(self) -> Fx {
        self.weight
    }

    open spec fn spec_delay(self) -> usize {
        self.delay
    }

    fn pre_recv(&mut self, now: Fx) -> (d: Fx) {
        self.pre_time = now;
        let delta = self.get_delta();
        self.integrate(delta);
        delta
    }

    fn post_recv(&mut self, now: Fx) -> (d: Fx) {
        self.post_time = now;
        let delta = self.get_delta();
        self.integrate(delta);
        delta
    }

    fn weight(&self) -> (w: Fx) {
        self.weight
    }

    fn delay(&self) -> (d: usize) {
        self.delay
    }

    proof fn delay_fixed(self, now: Fx) {
    }
}

/// The clamp keeps every reachable weight inside well-formed bounds: after
/// either plasticity call the weight lies in `[min, max]`.
pub proof fn lemma_sym_weight_bounds(s: SymSynapse, now: Fx)
    requires
        s.min.0 <= s.max.0,
    ensures
        s.min.0 <= s.spec_pre(now).weight.0 <= s.max.0,
        s.min.0 <= s.spec_post(now).weight.0 <= s.max.0,
{
}

} // verus!
