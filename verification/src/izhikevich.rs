//! The Izhikevich quadratic point-neuron model.
//!
//! The membrane potential `v` and the recovery variable `u` follow
//! `v' = 0.04 v^2 + e v + f - u + i` and `u' = a (b v - u)` (or the
//! accommodation variant `u' = a b (v + 65)`), integrated in sub-steps of
//! the neuron's own step size.  A spike is detected when `v` reaches the
//! peak of 30 units; the reset moves `v` to `c` and adds `d` to `u`.

use vstd::prelude::*;

use crate::fixed::{fadd, fdiv, fmul, fsub, Fx};
use crate::neuron::Neuron;

verus! {

/// Raw fixed-point value of the 30-unit firing peak.
pub const V_PEAK_RAW: i64 = 30_000_000;

/// Parameters and initial state of an Izhikevich neuron.
///
/// `a` scales the recovery speed, `b` couples recovery to the potential,
/// `c` and `d` are the after-spike resets of `v` and `u`, and `e`, `f` are
/// the linear and constant coefficients of the quadratic potential update.
#[derive(Clone, Copy, Debug, PartialEq, Eq, Structural)]
pub struct IzhikevichConfig {
    pub v: Fx,
    pub u: Fx,
    pub a: Fx,
    pub b: Fx,
    pub c: Fx,
    pub d: Fx,
    pub e: Fx,
    pub f: Fx,
    pub is_accomodation: bool,
}

impl Default for IzhikevichConfig {
    /// The classic regular-spiking cell with a low after-spike jump of `u`.
    fn default() -> (r: Self)
        ensures
            (r == IzhikevichConfig {
                v: Fx(-65_000_000i64),
                u: Fx(-13_000_000i64),
                a: Fx(20_000),
                b: Fx(200_000),
                c: Fx(-65_000_000i64),
                d: Fx(2_000_000),
                e: Fx(5_000_000),
                f: Fx(140_000_000),
                is_accomodation: false,
            }),
    {
        IzhikevichConfig {
            v: Fx(-65_000_000),
            u: Fx(-13_000_000),
            a: Fx(20_000),
            b: Fx(200_000),
            c: Fx(-65_000_000),
            d: Fx(2_000_000),
            e: Fx(5_000_000),
            f: Fx(140_000_000),
            is_accomodation: false,
        }
    }
}

impl IzhikevichConfig {
    pub fn regular_spiking() -> (r: IzhikevichConfig)
        ensures
            (r == IzhikevichConfig {
                d: Fx(8_000_000),
                ..Self::default_cfg()
            }),
    {
        IzhikevichConfig { d: Fx(8_000_000), ..Default::default() }
    }

    pub fn fast_spiking() -> (r: IzhikevichConfig)
        ensures
            (r == IzhikevichConfig {
                a: Fx(100_000),
                ..Self::default_cfg()
            }),
    {
        IzhikevichConfig { a: Fx(100_000), ..Default::default() }
    }

    pub fn tonic_spiking() -> (r: IzhikevichConfig)
        ensures
            (r == IzhikevichConfig {
                d: Fx(6_000_000),
                v: Fx(-70_000_000i64),
                u: Fx(-14_000_000i64),
                ..Self::default_cfg()
            }),
    {
        IzhikevichConfig {
            d: Fx(6_000_000),
            v: Fx(-70_000_000),
            u: Fx(-14_000_000),
            ..Default::default()
        }
    }

    pub fn phasic_spiking() -> (r: IzhikevichConfig)
        ensures
            (r == IzhikevichConfig {
                b: Fx(250_000),
                d: Fx(6_000_000),
                v: Fx(-64_000_000i64),
                u: Fx(-16_000_000i64),
                ..Self::default_cfg()
            }),
    {
        IzhikevichConfig {
            b: Fx(250_000),
            d: Fx(6_000_000),
            v: Fx(-64_000_000),
            u: Fx(-16_000_000),
            ..Default::default()
        }
    }

    pub fn tonic_bursting() -> (r: IzhikevichConfig)
        ensures
            (r == IzhikevichConfig {
                c: Fx(-50_000_000i64),
                v: Fx(-70_000_000i64),
                u: Fx(-14_000_000i64),
                ..Self::default_cfg()
            }),
    {
        IzhikevichConfig {
            c: Fx(-50_000_000),
            v: Fx(-70_000_000),
            u: Fx(-14_000_000),
            ..Default::default()
        }
    }

    pub fn phasic_bursting() -> (r: IzhikevichConfig)
        ensures
            (r == IzhikevichConfig {
                b: Fx(250_000),
                c: Fx(-55_000_000i64),
                d: Fx(50_000),
                v: Fx(-64_000_000i64),
                u: Fx(-16_000_000i64),
                ..Self::default_cfg()
            }),
    {
        IzhikevichConfig {
            b: Fx(250_000),
            c: Fx(-55_000_000),
            d: Fx(50_000),
            v: Fx(-64_000_000),
            u: Fx(-16_000_000),
            ..Default::default()
        }
    }

    pub fn mixed_mode() -> (r: IzhikevichConfig)
        ensures
            (r == IzhikevichConfig {
                c: Fx(-55_000_000i64),
                d: Fx(4_000_000),
                v: Fx(-70_000_000i64),
                u: Fx(-14_000_000i64),
                ..Self::default_cfg()
            }),
    {
        IzhikevichConfig {
            c: Fx(-55_000_000),
            d: Fx(4_000_000),
            v: Fx(-70_000_000),
            u: Fx(-14_000_000),
            ..Default::default()
        }
    }

    pub fn spike_frequency_adaptation() -> (r: IzhikevichConfig)
        ensures
            (r == IzhikevichConfig {
                a: Fx(10_000),
                d: Fx(8_000_000),
                v: Fx(-70_000_000i64),
                u: Fx(-14_000_000i64),
                ..Self::default_cfg()
            }),
    {
        IzhikevichConfig {
            a: Fx(10_000),
            d: Fx(8_000_000),
            v: Fx(-70_000_000),
            u: Fx(-14_000_000),
            ..Default::default()
        }
    }

    pub fn class1() -> (r: IzhikevichConfig)
        ensures
            (r == IzhikevichConfig {
                b: Fx(-100_000i64),
                c: Fx(-55_000_000i64),
                d: Fx(6_000_000),
                v: Fx(-60_000_000i64),
                u: Fx(6_000_000),
                e: Fx(4_100_000),
                f: Fx(108_000_000),
                ..Self::default_cfg()
            }),
    {
        IzhikevichConfig {
            b: Fx(-100_000),
            c: Fx(-55_000_000),
            d: Fx(6_000_000),
            v: Fx(-60_000_000),
            u: Fx(6_000_000),
            e: Fx(4_100_000),
            f: Fx(108_000_000),
            ..Default::default()
        }
    }

    pub fn class2() -> (r: IzhikevichConfig)
        ensures
            (r == IzhikevichConfig {
                a: Fx(200_000),
                b: Fx(260_000),
                d: Fx(0),
                v: Fx(-64_000_000i64),
                u: Fx(-16_640_000i64),
                ..Self::default_cfg()
            }),
    {
        IzhikevichConfig {
            a: Fx(200_000),
            b: Fx(260_000),
            d: Fx(0),
            v: Fx(-64_000_000),
            u: Fx(-16_640_000),
            ..Default::default()
        }
    }

    pub fn spike_latency() -> (r: IzhikevichConfig)
        ensures
            (r == IzhikevichConfig {
                d: Fx(6_000_000),
                v: Fx(-70_000_000i64),
                u: Fx(-14_000_000i64),
                ..Self::default_cfg()
            }),
    {
        IzhikevichConfig {
            d: Fx(6_000_000),
            v: Fx(-70_000_000),
            u: Fx(-14_000_000),
            ..Default::default()
        }
    }

    pub fn subthreshold_oscillation() -> (r: IzhikevichConfig)
        ensures
            (r == IzhikevichConfig {
                a: Fx(50_000),
                b: Fx(260_000),
                c: Fx(-60_000_000i64),
                d: Fx(0),
                v: Fx(-62_000_000i64),
                u: Fx(-16_120_000i64),
                ..Self::default_cfg()
            }),
    {
        IzhikevichConfig {
            a: Fx(50_000),
            b: Fx(260_000),
            c: Fx(-60_000_000),
            d: Fx(0),
            v: Fx(-62_000_000),
            u: Fx(-16_120_000),
            ..Default::default()
        }
    }

    pub fn resonator() -> (r: IzhikevichConfig)
        ensures
            (r == IzhikevichConfig {
                a: Fx(100_000),
                b: Fx(260_000),
                c: Fx(-60_000_000i64),
                d: Fx(-1_000_000i64),
                v: Fx(-62_000_000i64),
                u: Fx(-16_120_000i64),
                ..Self::default_cfg()
            }),
    {
        IzhikevichConfig {
            a: Fx(100_000),
            b: Fx(260_000),
            c: Fx(-60_000_000),
            d: Fx(-1_000_000),
            v: Fx(-62_000_000),
            u: Fx(-16_120_000),
            ..Default::default()
        }
    }

    pub fn integrator() -> (r: IzhikevichConfig)
        ensures
            (r == Self::class1_cfg()),
    {
        IzhikevichConfig {
            b: Fx(-100_000),
            c: Fx(-55_000_000),
            d: Fx(6_000_000),
            v: Fx(-60_000_000),
            u: Fx(6_000_000),
            e: Fx(4_100_000),
            f: Fx(108_000_000),
            ..Default::default()
        }
    }

    pub fn rebound_spike() -> (r: IzhikevichConfig)
        ensures
            (r == IzhikevichConfig {
                a: Fx(30_000),
                b: Fx(250_000),
                c: Fx(-60_000_000i64),
                d: Fx(4_000_000),
                v: Fx(-64_000_000i64),
                u: Fx(-16_000_000i64),
                ..Self::default_cfg()
            }),
    {
        IzhikevichConfig {
            a: Fx(30_000),
            b: Fx(250_000),
            c: Fx(-60_000_000),
            d: Fx(4_000_000),
            v: Fx(-64_000_000),
            u: Fx(-16_000_000),
            ..Default::default()
        }
    }

    pub fn rebound_burst() -> (r: IzhikevichConfig)
        ensures
            (r == IzhikevichConfig {
                a: Fx(30_000),
                b: Fx(250_000),
                c: Fx(-52_000_000i64),
                d: Fx(0),
                v: Fx(-64_000_000i64),
                u: Fx(-16_000_000i64),
                ..Self::default_cfg()
            }),
    {
        IzhikevichConfig {
            a: Fx(30_000),
            b: Fx(250_000),
            c: Fx(-52_000_000),
            d: Fx(0),
            v: Fx(-64_000_000),
            u: Fx(-16_000_000),
            ..Default::default()
        }
    }

    pub fn threshold_variability() -> (r: IzhikevichConfig)
        ensures
            (r == IzhikevichConfig {
                a: Fx(30_000),
                b: Fx(250_000),
                c: Fx(-60_000_000i64),
                d: Fx(4_000_000),
                v: Fx(-64_000_000i64),
                u: Fx(-16_000_000i64),
                ..Self::default_cfg()
            }),
    {
        IzhikevichConfig {
            a: Fx(30_000),
            b: Fx(250_000),
            c: Fx(-60_000_000),
            d: Fx(4_000_000),
            v: Fx(-64_000_000),
            u: Fx(-16_000_000),
            ..Default::default()
        }
    }

    pub fn bistability() -> (r: IzhikevichConfig)
        ensures
            (r == IzhikevichConfig {
                a: Fx(100_000),
                b: Fx(260_000),
                c: Fx(-60_000_000i64),
                d: Fx(0),
                v: Fx(-61_000_000i64),
                u: Fx(-15_860_000i64),
                ..Self::default_cfg()
            }),
    {
        IzhikevichConfig {
            a: Fx(100_000),
            b: Fx(260_000),
            c: Fx(-60_000_000),
            d: Fx(0),
            v: Fx(-61_000_000),
            u: Fx(-15_860_000),
            ..Default::default()
        }
    }

    pub fn depolarizing_after_potential() -> (r: IzhikevichConfig)
        ensures
            (r == IzhikevichConfig {
                a: Fx(1_000_000),
                c: Fx(-60_000_000i64),
                d: Fx(-21_000_000i64),
                v: Fx(-70_000_000i64),
                u: Fx(-14_000_000i64),
                ..Self::default_cfg()
            }),
    {
        IzhikevichConfig {
            a: Fx(1_000_000),
            c: Fx(-60_000_000),
            d: Fx(-21_000_000),
            v: Fx(-70_000_000),
            u: Fx(-14_000_000),
            ..Default::default()
        }
    }

    pub fn accomodation() -> (r: IzhikevichConfig)
        ensures
            (r == IzhikevichConfig {
                b: Fx(1_000_000),
                c: Fx(-55_000_000i64),
                d: Fx(4_000_000),
                u: Fx(-16_000_000i64),
                is_accomodation: true,
                ..Self::default_cfg()
            }),
    {
        IzhikevichConfig {
            b: Fx(1_000_000),
            c: Fx(-55_000_000),
            d: Fx(4_000_000),
            u: Fx(-16_000_000),
            is_accomodation: true,
            ..Default::default()
        }
    }

    pub fn inhibition_induced_spiking() -> (r: IzhikevichConfig)
        ensures
            (r == IzhikevichConfig {
                a: Fx(-20_000i64),
                b: Fx(-1_000_000i64),
                c: Fx(-60_000_000i64),
                d: Fx(8_000_000),
                v: Fx(-63_800_000i64),
                u: Fx(63_800_000),
                ..Self::default_cfg()
            }),
    {
        IzhikevichConfig {
            a: Fx(-20_000),
            b: Fx(-1_000_000),
            c: Fx(-60_000_000),
            d: Fx(8_000_000),
            v: Fx(-63_800_000),
            u: Fx(63_800_000),
            ..Default::default()
        }
    }

    pub fn inhibition_induced_bursting() -> (r: IzhikevichConfig)
        ensures
            (r == IzhikevichConfig {
                a: Fx(-26_000i64),
                b: Fx(-1_000_000i64),
                c: Fx(-45_000_000i64),
                d: Fx(-2_000_000i64),
                v: Fx(-63_800_000i64),
                u: Fx(63_800_000),
                ..Self::default_cfg()
            }),
    {
        IzhikevichConfig {
            a: Fx(-26_000),
            b: Fx(-1_000_000),
            c: Fx(-45_000_000),
            d: Fx(-2_000_000),
            v: Fx(-63_800_000),
            u: Fx(63_800_000),
            ..Default::default()
        }
    }

    /// The default parameter set, as a spec value.
    pub open spec fn default_cfg() -> IzhikevichConfig {
        IzhikevichConfig {
            v: Fx(-65_000_000i64),
            u: Fx(-13_000_000i64),
            a: Fx(20_000),
            b: Fx(200_000),
            c: Fx(-65_000_000i64),
            d: Fx(2_000_000),
            e: Fx(5_000_000),
            f: Fx(140_000_000),
            is_accomodation: false,
        }
    }

    /// The class-1 excitable parameter set, as a spec value.
    pub open spec fn class1_cfg() -> IzhikevichConfig {
        IzhikevichConfig {
            b: Fx(-100_000i64),
            c: Fx(-55_000_000i64),
            d: Fx(6_000_000),
            v: Fx(-60_000_000i64),
            u: Fx(6_000_000),
            e: Fx(4_100_000),
            f: Fx(108_000_000),
            ..Self::default_cfg()
        }
    }
}

/// An Izhikevich neuron: potential `v`, recovery `u`, pending input `i`,
/// the model coefficients, and the integration sub-step `tau`.
#[derive(Clone, Copy, Debug, PartialEq, Eq, Structural)]
pub struct IzhikevichNeuron {
    pub v: Fx,
    pub u: Fx,
    pub i: Fx,
    pub a: Fx,
    pub b: Fx,
    pub c: Fx,
    pub d: Fx,
    pub e: Fx,
    pub f: Fx,
    pub is_accomodation: bool,
    pub tau: Fx,
}

/// One integration sub-step: the quadratic potential update, then the
/// recovery update from the new potential.
pub open spec fn izh_substep(n: IzhikevichNeuron) -> IzhikevichNeuron {
    let sum = fadd(
        fsub(fadd(fadd(fmul(Fx(40_000), fmul(n.v, n.v)), fmul(n.e, n.v)), n.f), n.u),
        n.i,
    );
    let v2 = fadd(n.v, fmul(n.tau, sum));
    let du = if n.is_accomodation {
        fmul(fmul(n.tau, n.a), fmul(n.b, fadd(v2, Fx(65_000_000))))
    } else {
        fmul(fmul(n.tau, n.a), fsub(fmul(n.b, v2), n.u))
    };
    IzhikevichNeuron { v: v2, u: fadd(n.u, du), ..n }
}

/// `k` integration sub-steps in sequence.
pub open spec fn izh_substeps(n: IzhikevichNeuron, k: nat) -> IzhikevichNeuron
    decreases k,
{
    if k == 0 {
        n
    } else {
        izh_substep(izh_substeps(n, (k - 1) as nat))
    }
}

/// How many whole sub-steps of size `step` fit into `tau`; the fractional
/// remainder is dropped, and a non-positive ratio means no sub-step.
pub open spec fn izh_count(tau: Fx, step: Fx) -> nat {
    let q = fdiv(tau, step);
    if q.0 <= 0 {
        0
    } else {
        let q6 = q.0 as int / 1_000_000;
        if q6 > usize::MAX as int {
            usize::MAX as nat
        } else {
            q6 as nat
        }
    }
}

impl IzhikevichNeuron {
    /// A neuron integrating in sub-steps of `tau`, with the given
    /// parameters and initial state, and no pending input.
    pub fn new(tau: Fx, config: IzhikevichConfig) -> (r: IzhikevichNeuron)
        ensures
            (r == IzhikevichNeuron {
                v: config.v,
                u: config.u,
                i: Fx(0),
                a: config.a,
                b: config.b,
                c: config.c,
                d: config.d,
                e: config.e,
                f: config.f,
                is_accomodation: config.is_accomodation,
                tau,
            }),
    {
        IzhikevichNeuron {
            v: config.v,
            u: config.u,
            i: Fx(0),
            a: config.a,
            b: config.b,
            c: config.c,
            d: config.d,
            e: config.e,
            f: config.f,
            is_accomodation: config.is_accomodation,
            tau,
        }
    }
}

impl Default for IzhikevichNeuron {
    /// The default cell integrated in half-unit sub-steps.
    fn default() -> (r: Self)
        ensures
            (r == IzhikevichNeuron {
                v: IzhikevichConfig::default_cfg().v,
                u: IzhikevichConfig::default_cfg().u,
                i: Fx(0),
                a: IzhikevichConfig::default_cfg().a,
                b: IzhikevichConfig::default_cfg().b,
                c: IzhikevichConfig::default_cfg().c,
                d: IzhikevichConfig::default_cfg().d,
                e: IzhikevichConfig::default_cfg().e,
                f: IzhikevichConfig::default_cfg().f,
                is_accomodation: false,
                tau: Fx(500_000),
            }),
    {
        IzhikevichNeuron::new(Fx(500_000), Default::default())
    }
}

impl Neuron for IzhikevichNeuron {
    open spec fn spec_recv(self, v: Fx) -> Self {
        IzhikevichNeuron { i: fadd(self.i, v), ..self }
    }

    open spec fn spec_recv_val(self, v: Fx) -> Fx {
        fadd(self.i, v)
    }

    open spec fn spec_advance(self, tau: Fx) -> Self {
        IzhikevichNeuron { i: Fx(0), ..izh_substeps(self, izh_count(tau, self.tau)) }
    }

    open spec fn spec_threshold(self) -> Fx {
        if self.v.0 >= V_PEAK_RAW {
            Fx(V_PEAK_RAW)
        } else {
            Fx(0)
        }
    }

    open spec fn spec_reset(self) -> Self {
        IzhikevichNeuron { v: self.c, u: fadd(self.u, self.d), ..self }
    }

    fn recv(&mut self, v: Fx) -> (r: Fx) {
        self.i = self.i.add(v);
        self.i
    }

    fn tick(&mut self, tau: Fx) {
        let q = tau.div(self.tau);
        let count: usize = if q.0 <= 0 {
            0
        } else {
            let q6: u64 = (q.0 as u64) / 1_000_000u64;
            if q6 > (usize::MAX as u64) {
                usize::MAX
            } else {
                q6 as usize
            }
        };
        let ghost orig = *self;
        assert(count as nat == izh_count(tau, orig.tau));
        let mut k: usize = 0;
        while k < count
            invariant
                k <= count,
                *self == izh_substeps(orig, k as nat),
            decreases count - k,
        {
            let vv = self.v.mul(self.v);
            let sum = Fx(40_000).mul(vv).add(self.e.mul(self.v)).add(self.f).sub(self.u).add(
                self.i,
            );
            self.v = self.v.add(self.tau.mul(sum));
            let du = if self.is_accomodation {
                self.tau.mul(self.a).mul(self.b.mul(self.v.add(Fx(65_000_000))))
            } else {
                self.tau.mul(self.a).mul(self.b.mul(self.v).sub(self.u))
            };
            self.u = self.u.add(du);
            k = k + 1;
        }
        self.i = Fx(0);
    }

    fn threshold(&mut self) -> (r: Fx) {
        if self.v.0 >= V_PEAK_RAW {
            Fx(V_PEAK_RAW)
        } else {
            Fx(0)
        }
    }

    fn reset(&mut self) {
        self.v = self.c;
        self.u = self.u.add(self.d);
    }
}

} // verus!
