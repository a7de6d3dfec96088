use neural::fixed::Fx;
use neural::stdp::STDPSynapse;
use neural::traces::ExpTrace;
use neural::Synapse;

const M: i64 = 1_000_000;

#[test]
fn test_synapse_ltp() {
    // Two pre-before-post pairings, the spikes `tau` apart: the closer the
    // pairing, the stronger the potentiation, and it never vanishes.
    let mut last: Option<Fx> = None;
    for tau in 0..100i64 {
        let mut synapse = STDPSynapse::<ExpTrace>::new(Default::default());
        let mut now: i64 = 0;

        synapse.pre_recv(Fx(now));
        now = now + tau * M;
        synapse.post_recv(Fx(now));

        now = now + tau * M;

        synapse.pre_recv(Fx(now));
        now = now + tau * M;
        let delta = synapse.post_recv(Fx(now));

        assert!(delta.0 > 0);
        if tau >= 1 {
            if let Some(prev) = last {
                assert!(delta.0 <= prev.0);
            }
            last = Some(delta);
        }
    }
    // The closest pairing potentiates at the full rate of one tenth.
    let mut synapse = STDPSynapse::<ExpTrace>::new(Default::default());
    synapse.pre_recv(Fx(0));
    assert_eq!(synapse.post_recv(Fx(0)), Fx(100_000));
}

#[test]
fn test_synapse_ltd() {
    // Two post-before-pre pairings: depression, fading with the distance
    // of the spikes, and never reversing sign.
    let mut last: Option<Fx> = None;
    for tau in 0..100i64 {
        let mut synapse = STDPSynapse::<ExpTrace>::new(Default::default());
        let mut now: i64 = 0;

        synapse.post_recv(Fx(now));
        now = now + tau * M;
        synapse.pre_recv(Fx(now));

        now = now + tau * M;

        synapse.post_recv(Fx(now));
        now = now + tau * M;
        let delta = synapse.pre_recv(Fx(now));

        assert!(delta.0 < 0);
        if tau >= 1 {
            if let Some(prev) = last {
                assert!(delta.0 >= prev.0);
            }
            last = Some(delta);
        }
    }
    // The closest pairing depresses at the full rate.
    let mut synapse = STDPSynapse::<ExpTrace>::new(Default::default());
    synapse.post_recv(Fx(0));
    assert_eq!(synapse.pre_recv(Fx(0)), Fx(-120_000));
}
