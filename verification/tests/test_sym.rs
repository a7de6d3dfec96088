use neural::fixed::Fx;
use neural::sym::{SymConfig, SymSynapse};
use neural::Synapse;

#[test]
fn test_sym_coincident_spikes() {
    // Pre and post at the same instant: the kernel is at its peak, the
    // full amplitude of one twentieth.
    let mut synapse = SymSynapse::new(Default::default());
    synapse.pre_recv(Fx(2_000_000));
    let d = synapse.post_recv(Fx(2_000_000));
    assert_eq!(d, Fx(50_000));
}

#[test]
fn test_sym_delta_is_symmetric() {
    // The kernel depends only on the distance of the two spike times, not
    // on their order.
    let mut a = SymSynapse::new(Default::default());
    a.post_recv(Fx(1_000_000));
    let da = a.pre_recv(Fx(3_000_000));

    let mut b = SymSynapse::new(Default::default());
    b.pre_recv(Fx(1_000_000));
    let db = b.post_recv(Fx(3_000_000));

    assert_eq!(da, db);
}

#[test]
fn test_sym_pre_alone() {
    // A lone pre-synaptic spike at two units against the initial post time
    // of zero: the kernel of distance two.
    let mut synapse = SymSynapse::new(Default::default());
    let d = synapse.pre_recv(Fx(2_000_000));
    assert_eq!(d, Fx(39_302));
    assert_eq!(synapse.weight(), Fx(39_302));
}

#[test]
fn test_sym_weight_clamped() {
    // An amplitude far past the bounds leaves the weight exactly at the
    // ceiling, and symmetric depression exactly at the floor.
    let mut synapse = SymSynapse::new(SymConfig {
        a_sym: Fx(1_000_000_000),
        ..Default::default()
    });
    synapse.pre_recv(Fx(2_000_000));
    let _ = synapse.post_recv(Fx(2_000_000));
    assert_eq!(synapse.weight(), Fx(10_000_000));

    let mut synapse = SymSynapse::new(SymConfig {
        a_sym: Fx(-1_000_000_000),
        ..Default::default()
    });
    synapse.pre_recv(Fx(2_000_000));
    let _ = synapse.post_recv(Fx(2_000_000));
    assert_eq!(synapse.weight(), Fx(-10_000_000));
}

#[test]
fn test_sym_delay_untouched() {
    let mut synapse = SymSynapse::new(SymConfig { delay: 4, ..Default::default() });
    assert_eq!(synapse.delay(), 4);
    synapse.pre_recv(Fx(1_000_000));
    synapse.post_recv(Fx(2_000_000));
    assert_eq!(synapse.delay(), 4);
}
