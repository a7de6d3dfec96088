use neural::fixed::Fx;
use neural::izhikevich::{IzhikevichConfig, IzhikevichNeuron};
use neural::network::NeuralError;
use neural::stdp::{STDPConfig, STDPSynapse};
use neural::sym::{SymConfig, SymSynapse};
use neural::traces::ExpTrace;
use neural::Network;

type Net = Network<IzhikevichNeuron, STDPSynapse<ExpTrace>>;

fn chain(delay: usize, max: Fx) -> Net {
    let mut network: Net = Network::new(20);
    let neuron = IzhikevichNeuron::new(Fx(1_000_000), IzhikevichConfig::default());
    let a = network.add_neuron(neuron);
    let b = network.add_neuron(neuron);
    let synapse = STDPSynapse::<ExpTrace>::new(STDPConfig {
        weight: Fx(180_000_000),
        max,
        delay,
        ..Default::default()
    });
    network.add_synapse(synapse, a, b).unwrap();
    network
}

fn run_one(network: &mut Net, first: bool) -> (Fx, Vec<Fx>) {
    let inp = if first {
        vec![Fx(1_000_000_000), Fx(0)]
    } else {
        vec![Fx(0), Fx(0)]
    };
    let mut oup = vec![Fx(0), Fx(0)];
    let now = network.tick(1, &inp, &mut oup);
    (now, oup)
}

#[test]
fn test_network() {
    let mut network: Net = Network::new(20);

    let neuron = IzhikevichNeuron::new(Fx(1_000_000), IzhikevichConfig::default());
    let a = network.add_neuron(neuron);
    let b = network.add_neuron(neuron);
    assert!(a == 0);
    assert!(b == 1);

    let synapse = STDPSynapse::<ExpTrace>::new(STDPConfig {
        weight: Fx(180_000_000),
        max: Fx(180_000_000),
        ..Default::default()
    });
    let s = network.add_synapse(synapse, a, b).unwrap();
    assert!(s == 0);

    {
        let inp = vec![Fx(1_000_000_000), Fx(0)];
        let mut oup = vec![Fx(0), Fx(0)];
        let now = network.tick(1, &inp, &mut oup);
        assert_eq!(now, Fx(1_000_000));
        assert_eq!(oup[0], Fx(30_000_000));
        assert_eq!(oup[1], Fx(0));
    }

    {
        let inp = vec![Fx(0), Fx(0)];
        let mut oup = vec![Fx(0), Fx(0)];
        let now = network.tick(1, &inp, &mut oup);
        assert_eq!(now, Fx(2_000_000));
        assert_eq!(oup[0], Fx(0));
        assert_eq!(oup[1], Fx(0));
    }

    {
        let inp = vec![Fx(0), Fx(0)];
        let mut oup = vec![Fx(0), Fx(0)];
        let now = network.tick(1, &inp, &mut oup);
        assert_eq!(now, Fx(3_000_000));
        assert_eq!(oup[0], Fx(0));
        assert_eq!(oup[1], Fx(30_000_000));
    }

    {
        let inp = vec![Fx(0), Fx(0)];
        let mut oup = vec![Fx(0), Fx(0)];
        let now = network.tick(1, &inp, &mut oup);
        assert_eq!(now, Fx(4_000_000));
        assert_eq!(oup[0], Fx(0));
        assert_eq!(oup[1], Fx(0));
    }
}

#[test]
fn test_delivery_after_exact_delay() {
    // Delay 3: the sender fires in the first step, the spike travels three
    // ticks, and the receiver integrates it — and fires — in the fifth
    // step, never before and never after.
    let mut network = chain(3, Fx(200_000_000));
    for step in 0..6usize {
        let (_, oup) = run_one(&mut network, step == 0);
        if step == 0 {
            assert_eq!(oup, vec![Fx(30_000_000), Fx(0)]);
        } else if step == 4 {
            assert_eq!(oup, vec![Fx(0), Fx(30_000_000)]);
        } else {
            assert_eq!(oup, vec![Fx(0), Fx(0)]);
        }
    }
}

#[test]
fn test_aggregated_steps() {
    // One call covering four steps: inputs are laid out row by row, and
    // both firings of the window accumulate into the single output block.
    let mut network = chain(1, Fx(200_000_000));
    let mut inp = vec![Fx(0); 8];
    inp[0] = Fx(1_000_000_000);
    let mut oup = vec![Fx(0), Fx(0)];
    let now = network.tick(4, &inp, &mut oup);
    assert_eq!(now, Fx(4_000_000));
    assert_eq!(oup, vec![Fx(30_000_000), Fx(30_000_000)]);
}

#[test]
fn test_missing_neuron() {
    let mut network: Net = Network::new(20);
    let neuron = IzhikevichNeuron::new(Fx(1_000_000), IzhikevichConfig::default());
    let a = network.add_neuron(neuron);
    let synapse = STDPSynapse::<ExpTrace>::new(Default::default());

    let r = network.add_synapse(synapse, a, 7);
    assert!(matches!(r, Err(NeuralError::MissingNeuron)));
    let r = network.add_synapse(synapse, 7, a);
    assert!(matches!(r, Err(NeuralError::MissingNeuron)));

    assert_eq!(network.get_neuron_count(), 1);
    assert_eq!(network.get_synapse_count(), 0);
}

#[test]
fn test_tick_zero_changes_nothing() {
    let mut network = chain(1, Fx(200_000_000));
    let (_, _) = run_one(&mut network, true);

    let mut before = vec![Fx(0)];
    network.dump_weights(&mut before);

    let inp: Vec<Fx> = vec![];
    let mut oup = vec![Fx(0), Fx(0)];
    let now = network.tick(0, &inp, &mut oup);
    assert_eq!(now, Fx(1_000_000));
    assert_eq!(oup, vec![Fx(0), Fx(0)]);

    let mut after = vec![Fx(0)];
    network.dump_weights(&mut after);
    assert_eq!(before, after);

    // The pending spike is neither delivered early nor lost.
    let (_, oup) = run_one(&mut network, false);
    assert_eq!(oup, vec![Fx(0), Fx(0)]);
    let (_, oup) = run_one(&mut network, false);
    assert_eq!(oup, vec![Fx(0), Fx(30_000_000)]);
}

fn toggle_case(transmission: bool, learning: bool) -> (bool, Fx) {
    let mut network = chain(1, Fx(200_000_000));
    network.toggle_transmission(transmission);
    network.toggle_learning(learning);
    let mut receiver_fired = false;
    for step in 0..4usize {
        let (_, oup) = run_one(&mut network, step == 0);
        if oup[1] != Fx(0) {
            receiver_fired = true;
        }
    }
    let mut weights = vec![Fx(0)];
    network.dump_weights(&mut weights);
    (receiver_fired, weights[0])
}

#[test]
fn test_toggle_matrix() {
    // Transmission alone decides whether the receiver ever fires; the
    // weight changes only when transmission made the receiver fire while
    // learning was on.  The two switches are independent.
    assert_eq!(toggle_case(true, true), (true, Fx(180_100_000)));
    assert_eq!(toggle_case(true, false), (true, Fx(180_000_000)));
    assert_eq!(toggle_case(false, true), (false, Fx(180_000_000)));
    assert_eq!(toggle_case(false, false), (false, Fx(180_000_000)));
}

#[test]
fn test_network_with_sym_synapse() {
    // The engine is generic over the plasticity rule: the same two-neuron
    // chain over a symmetric synapse delivers on the same schedule, and
    // the co-activity kernel has moved the weight at both firings.
    let mut network: Network<IzhikevichNeuron, SymSynapse> = Network::new(20);
    let neuron = IzhikevichNeuron::new(Fx(1_000_000), IzhikevichConfig::default());
    let a = network.add_neuron(neuron);
    let b = network.add_neuron(neuron);
    let synapse = SymSynapse::new(SymConfig {
        weight: Fx(180_000_000),
        min: Fx(-200_000_000),
        max: Fx(200_000_000),
        ..Default::default()
    });
    network.add_synapse(synapse, a, b).unwrap();

    let mut fired = Vec::new();
    for step in 0..4usize {
        let inp = if step == 0 {
            vec![Fx(1_000_000_000), Fx(0)]
        } else {
            vec![Fx(0), Fx(0)]
        };
        let mut oup = vec![Fx(0), Fx(0)];
        network.tick(1, &inp, &mut oup);
        fired.push(oup);
    }
    assert_eq!(fired[0], vec![Fx(30_000_000), Fx(0)]);
    assert_eq!(fired[1], vec![Fx(0), Fx(0)]);
    assert_eq!(fired[2], vec![Fx(0), Fx(30_000_000)]);
    assert_eq!(fired[3], vec![Fx(0), Fx(0)]);

    let mut weights = vec![Fx(0)];
    network.dump_weights(&mut weights);
    assert_eq!(weights[0], Fx(180_089_302));
}

#[test]
fn test_dump_weights_by_id() {
    let mut network: Net = Network::new(20);
    let neuron = IzhikevichNeuron::new(Fx(1_000_000), IzhikevichConfig::default());
    let a = network.add_neuron(neuron);
    let b = network.add_neuron(neuron);
    let s0 = network
        .add_synapse(
            STDPSynapse::<ExpTrace>::new(STDPConfig { weight: Fx(3_000_000), ..Default::default() }),
            a,
            b,
        )
        .unwrap();
    let s1 = network
        .add_synapse(
            STDPSynapse::<ExpTrace>::new(STDPConfig { weight: Fx(7_000_000), ..Default::default() }),
            b,
            a,
        )
        .unwrap();
    assert_eq!((s0, s1), (0, 1));
    let mut weights = vec![Fx(0), Fx(0), Fx(-1)];
    network.dump_weights(&mut weights);
    assert_eq!(weights, vec![Fx(3_000_000), Fx(7_000_000), Fx(-1)]);
}
