use neural::fixed::Fx;
use neural::trace::Trace;
use neural::traces::{ExpTrace, LinTrace};

#[test]
fn test_lin_trace_nearest_neighbor() {
    let mut trace = LinTrace::new(Fx(1_000_000), false);

    trace.update(Fx(1_000_000), Fx(1_000_000));
    let val = trace.read(Fx(2_000_000));
    assert_eq!(val, Fx(500_000));

    trace.update(Fx(1_000_000), Fx(2_000_000));
    let val = trace.read(Fx(3_000_000));
    assert_eq!(val, Fx(500_000));

    trace.update(Fx(1_000_000), Fx(3_000_000));
    let val = trace.read(Fx(4_000_000));
    assert_eq!(val, Fx(500_000));
}

#[test]
fn test_lin_trace_all_to_all() {
    let mut trace = LinTrace::new(Fx(1_000_000), true);

    trace.update(Fx(1_000_000), Fx(1_000_000));
    let val = trace.read(Fx(2_000_000));
    assert_eq!(val, Fx(500_000));

    trace.update(Fx(1_000_000), Fx(2_000_000));
    let val = trace.read(Fx(3_000_000));
    assert_eq!(val, Fx(500_000));

    trace.update(Fx(1_000_000), Fx(3_000_000));
    let val = trace.read(Fx(4_000_000));
    assert_eq!(val, Fx(500_000));
}

#[test]
fn test_exp_trace_nearest_neighbor() {
    let mut trace = ExpTrace::new(Fx(1_000_000), false);

    trace.update(Fx(1_000_000), Fx(1_000_000));
    let val = trace.read(Fx(2_000_000));
    assert_eq!(val, Fx(367_610));

    trace.update(Fx(1_000_000), Fx(2_000_000));
    let val = trace.read(Fx(3_000_000));
    assert_eq!(val, Fx(367_610));

    trace.update(Fx(1_000_000), Fx(3_000_000));
    let val = trace.read(Fx(4_000_000));
    assert_eq!(val, Fx(367_610));
}

#[test]
fn test_exp_trace_all_to_all() {
    let mut trace = ExpTrace::new(Fx(1_000_000), true);

    trace.update(Fx(1_000_000), Fx(1_000_000));
    let val = trace.read(Fx(2_000_000));
    assert_eq!(val, Fx(367_610));

    trace.update(Fx(1_000_000), Fx(2_000_000));
    let val = trace.read(Fx(3_000_000));
    assert_eq!(val, Fx(502_747));

    trace.update(Fx(1_000_000), Fx(3_000_000));
    let val = trace.read(Fx(4_000_000));
    assert_eq!(val, Fx(552_424));
}

#[test]
fn test_exp_trace_zero_decay() {
    // Reading at the very instant of the update decays nothing.
    let mut trace = ExpTrace::new(Fx(20_000_000), false);
    trace.update(Fx(700_000), Fx(5_000_000));
    assert_eq!(trace.read(Fx(5_000_000)), Fx(700_000));

    let mut trace = ExpTrace::new(Fx(20_000_000), false);
    trace.update(Fx(-123_456), Fx(9_000_000));
    assert_eq!(trace.read(Fx(9_000_000)), Fx(-123_456));
}

#[test]
fn test_lin_trace_zero_decay() {
    // Reading at the very instant of the update decays nothing, whatever
    // amount was stored.
    let mut trace = LinTrace::new(Fx(20_000_000), false);
    trace.update(Fx(1_000_000), Fx(3_000_000));
    assert_eq!(trace.read(Fx(3_000_000)), Fx(1_000_000));

    let mut trace = LinTrace::new(Fx(20_000_000), false);
    trace.update(Fx(2_000_000), Fx(3_000_000));
    assert_eq!(trace.read(Fx(3_000_000)), Fx(2_000_000));

    let mut trace = LinTrace::new(Fx(20_000_000), false);
    trace.update(Fx(-123_456), Fx(9_000_000));
    assert_eq!(trace.read(Fx(9_000_000)), Fx(-123_456));
}
