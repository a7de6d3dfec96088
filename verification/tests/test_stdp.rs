use neural::fixed::Fx;
use neural::stdp::{STDPConfig, STDPSynapse};
use neural::traces::ExpTrace;
use neural::Synapse;

#[test]
fn test_stdp_ltp() {
    // Pre-synaptic spike before the post-synaptic one: the pre-trace has
    // decayed for two time units over a half-life of twenty when the
    // potentiation fires, so the weight grows by a little under the full
    // rate of one tenth.
    let mut synapse = STDPSynapse::<ExpTrace>::new(Default::default());
    let d1 = synapse.pre_recv(Fx(1_000_000));
    assert_eq!(d1, Fx(0));
    let d2 = synapse.post_recv(Fx(3_000_000));
    assert_eq!(d2, Fx(90_534));
    assert!(d2.0 > 0);
    assert_eq!(synapse.weight(), Fx(6_090_534));
}

#[test]
fn test_stdp_ltd() {
    // Post-synaptic spike before the pre-synaptic one: depression, scaled
    // by the decayed post-trace, shrinks the weight.
    let mut synapse = STDPSynapse::<ExpTrace>::new(Default::default());
    let d1 = synapse.post_recv(Fx(1_000_000));
    assert_eq!(d1, Fx(0));
    let d2 = synapse.pre_recv(Fx(3_000_000));
    assert_eq!(d2, Fx(-108_641));
    assert!(d2.0 < 0);
    assert_eq!(synapse.weight(), Fx(5_891_359));
}

#[test]
fn test_stdp_weight_clamped_above() {
    // A potentiation rate far beyond the ceiling still leaves the weight
    // exactly at the ceiling.
    let mut synapse = STDPSynapse::<ExpTrace>::new(STDPConfig {
        n_pos: Fx(1_000_000_000),
        ..Default::default()
    });
    synapse.pre_recv(Fx(1_000_000));
    synapse.post_recv(Fx(1_000_000));
    assert_eq!(synapse.weight(), Fx(10_000_000));
}

#[test]
fn test_stdp_weight_clamped_below() {
    // A depression rate far beyond the floor still leaves the weight
    // exactly at the floor.
    let mut synapse = STDPSynapse::<ExpTrace>::new(STDPConfig {
        n_neg: Fx(-1_000_000_000),
        ..Default::default()
    });
    synapse.post_recv(Fx(1_000_000));
    synapse.pre_recv(Fx(1_000_000));
    assert_eq!(synapse.weight(), Fx(0));
}

#[test]
fn test_stdp_delay_untouched() {
    let mut synapse = STDPSynapse::<ExpTrace>::new(STDPConfig {
        delay: 7,
        ..Default::default()
    });
    assert_eq!(synapse.delay(), 7);
    synapse.pre_recv(Fx(1_000_000));
    synapse.post_recv(Fx(2_000_000));
    assert_eq!(synapse.delay(), 7);
}
