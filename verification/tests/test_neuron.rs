use neural::fixed::Fx;
use neural::izhikevich::{IzhikevichConfig, IzhikevichNeuron};
use neural::Neuron;

// All quantities are fixed-point raw values: one unit is 1_000_000.
const M: i64 = 1_000_000;

fn run(
    config: IzhikevichConfig,
    timespan: i64,
    tau: i64,
    expected: u64,
    input: &dyn Fn(i64) -> i64,
) {
    let mut neuron = IzhikevichNeuron::new(Fx(tau), config);
    let mut now: i64 = 0;
    let mut spikes: u64 = 0;

    while now < timespan {
        let ip = input(now);
        neuron.recv(Fx(ip));
        neuron.tick(Fx(tau));

        let spike = neuron.threshold();
        if spike.0 > 0 {
            neuron.reset();
            spikes += 1;
        }

        now += tau;
    }

    assert!(spikes == expected);
}

#[test]
fn test_neuron_default_neuron() {
    run(Default::default(), 100 * M, M / 2, 10, &|t| {
        if t > 10 * M {
            15 * M
        } else {
            0
        }
    });
}

#[test]
fn test_neuron_fast_spiking() {
    run(IzhikevichConfig::fast_spiking(), 100 * M, M / 2, 14, &|t| {
        if t > 10 * M {
            15 * M
        } else {
            0
        }
    });
}

#[test]
fn test_neuron_tonic_spiking() {
    run(IzhikevichConfig::tonic_spiking(), 100 * M, M / 4, 5, &|t| {
        if t > 10 * M {
            14 * M
        } else {
            0
        }
    });
}

#[test]
fn test_neuron_phasic_spiking() {
    run(IzhikevichConfig::phasic_spiking(), 200 * M, M / 4, 1, &|t| {
        if t > 20 * M {
            M / 2
        } else {
            0
        }
    });
}

#[test]
fn test_neuron_tonic_bursting() {
    run(IzhikevichConfig::tonic_bursting(), 220 * M, M / 4, 28, &|t| {
        if t > 22 * M {
            15 * M
        } else {
            0
        }
    });
}

#[test]
fn test_neuron_phasic_bursting() {
    run(IzhikevichConfig::phasic_bursting(), 200 * M, M / 5, 6, &|t| {
        if t > 20 * M {
            600_000
        } else {
            0
        }
    });
}

#[test]
fn test_neuron_mixed_mode() {
    run(IzhikevichConfig::mixed_mode(), 160 * M, M / 4, 6, &|t| {
        if t > 16 * M {
            10 * M
        } else {
            0
        }
    });
}

#[test]
fn test_neuron_spike_frequency_adaptation() {
    run(IzhikevichConfig::spike_frequency_adaptation(), 85 * M, M / 4, 6, &|t| {
        if t > 8 * M {
            30 * M
        } else {
            0
        }
    });
}

#[test]
fn test_neuron_class1() {
    run(IzhikevichConfig::class1(), 300 * M, M / 4, 10, &|t| {
        if t > 30 * M {
            75_000 * (t - 30 * M) / M
        } else {
            0
        }
    });
}

#[test]
fn test_neuron_class2() {
    run(IzhikevichConfig::class2(), 300 * M, M / 4, 14, &|t| {
        if t > 30 * M {
            -M / 2 + 15_000 * (t - 30 * M) / M
        } else {
            -M / 2
        }
    });
}

#[test]
fn test_neuron_spike_latency() {
    run(IzhikevichConfig::spike_latency(), 100 * M, M / 5, 1, &|t| {
        if t > 10 * M && t < 13 * M {
            7_040_000
        } else {
            0
        }
    });
}

#[test]
fn test_neuron_subthreshold_oscillation() {
    run(IzhikevichConfig::subthreshold_oscillation(), 200 * M, M / 4, 1, &|t| {
        if t > 20 * M && t < 25 * M {
            2 * M
        } else {
            0
        }
    });
}

#[test]
fn test_neuron_resonator() {
    run(IzhikevichConfig::resonator(), 400 * M, M / 4, 1, &|t| {
        if (t > 40 * M && t < 44 * M) || (t > 60 * M && t < 64 * M) || (t > 280 * M && t < 284 * M)
            || (t > 320 * M && t < 324 * M)
        {
            650_000
        } else {
            0
        }
    });
}

#[test]
fn test_neuron_integrator() {
    run(IzhikevichConfig::integrator(), 100 * M, M / 4, 1, &|t| {
        if (t > 9_090_000 && t < 11_090_000) || (t > 14_090_000 && t < 16_090_000)
            || (t > 70 * M && t < 72 * M) || (t > 80 * M && t < 82 * M)
        {
            9 * M
        } else {
            0
        }
    });
}

#[test]
fn test_neuron_rebound_spike() {
    run(IzhikevichConfig::rebound_spike(), 200 * M, M / 5, 1, &|t| {
        if t > 20 * M && t < 25 * M {
            -15 * M
        } else {
            0
        }
    });
}

#[test]
fn test_neuron_rebound_burst() {
    run(IzhikevichConfig::rebound_burst(), 200 * M, M / 5, 7, &|t| {
        if t > 20 * M && t < 25 * M {
            -15 * M
        } else {
            0
        }
    });
}

#[test]
fn test_neuron_threshold_variability() {
    run(IzhikevichConfig::threshold_variability(), 100 * M, M / 4, 1, &|t| {
        if (t > 10 * M && t < 15 * M) || (t > 80 * M && t < 85 * M) {
            M
        } else if t > 70 * M && t < 75 * M {
            -6 * M
        } else {
            0
        }
    });
}

#[test]
fn test_neuron_bistability() {
    run(IzhikevichConfig::bistability(), 300 * M, M / 4, 5, &|t| {
        if (t > 37_500_000 && t < 42_500_000) || (t > 216 * M && t < 221 * M) {
            1_240_000
        } else {
            240_000
        }
    });
}

#[test]
fn test_neuron_depolarizing_after_potential() {
    run(IzhikevichConfig::depolarizing_after_potential(), 50 * M, M / 10, 1, &|t| {
        if (t - 10 * M).abs() < M {
            20 * M
        } else {
            0
        }
    });
}

#[test]
fn test_neuron_accomodation() {
    run(IzhikevichConfig::accomodation(), 400 * M, M / 2, 1, &|t| {
        if t < 200 * M {
            t / 25
        } else if t < 300 * M {
            0
        } else if t < 312_500_000 {
            (t - 300 * M) * M / 12_500_000 * 4
        } else {
            0
        }
    });
}

#[test]
fn test_neuron_inhibition_induced_spiking() {
    run(IzhikevichConfig::inhibition_induced_spiking(), 350 * M, M / 2, 3, &|t| {
        if t < 50 * M || t > 250 * M {
            80 * M
        } else {
            75 * M
        }
    });
}

#[test]
fn test_neuron_inhibition_induced_bursting() {
    run(IzhikevichConfig::inhibition_induced_bursting(), 350 * M, M / 2, 12, &|t| {
        if t < 50 * M || t > 250 * M {
            80 * M
        } else {
            75 * M
        }
    });
}
