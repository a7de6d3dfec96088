use neural::fastexp::FastExp;
use neural::fixed::Fx;

#[test]
fn test_fastexp_zero() {
    // (1 + 0/1024)^1024 is exactly one, even in fixed point.
    assert_eq!(Fx(0).fastexp(), Fx(1_000_000));
}

#[test]
fn test_fastexp_values() {
    // The approximation of e^-1 and e^-2, with the truncation the ten
    // fixed-point squarings introduce.
    assert_eq!(Fx(-1_000_000).fastexp(), Fx(367_610));
    assert_eq!(Fx(-2_000_000).fastexp(), Fx(134_996));
    // A tenth of a unit of decay.
    assert_eq!(Fx(-100_000).fastexp(), Fx(905_348));
}

#[test]
fn test_fastexp_monotone_sample() {
    let a = Fx(-2_000_000).fastexp();
    let b = Fx(-1_000_000).fastexp();
    let c = Fx(0).fastexp();
    assert!(a.0 < b.0 && b.0 < c.0);
}
