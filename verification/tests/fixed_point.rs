//! The fixed-point groundwork: truncating division, saturation, integer
//! square root, and the cooldown gate.

use spacesim::cooldown::Cooldown;
use spacesim::fixed::{div_q, isqrt_u, sat_narrow};

#[test]
fn truncating_division_rounds_toward_zero() {
    assert_eq!(div_q(7, 2), 3);
    assert_eq!(div_q(-7, 2), -3);
    assert_eq!(div_q(6, 3), 2);
    assert_eq!(div_q(-6, 3), -2);
    assert_eq!(div_q(0, 5), 0);
    assert_eq!(div_q(1, 1_000_000), 0);
    assert_eq!(div_q(-1, 1_000_000), 0);
}

#[test]
fn saturation_clips_to_i64() {
    assert_eq!(sat_narrow(5), 5);
    assert_eq!(sat_narrow(-5), -5);
    assert_eq!(sat_narrow(i64::MAX as i128), i64::MAX);
    assert_eq!(sat_narrow(i64::MAX as i128 + 1), i64::MAX);
    assert_eq!(sat_narrow(i64::MIN as i128), i64::MIN);
    assert_eq!(sat_narrow(i64::MIN as i128 - 1), i64::MIN);
    assert_eq!(sat_narrow(170141183460469231731687303715884105727), i64::MAX);
}

#[test]
fn integer_square_root() {
    assert_eq!(isqrt_u(0), 0);
    assert_eq!(isqrt_u(1), 1);
    assert_eq!(isqrt_u(3), 1);
    assert_eq!(isqrt_u(4), 2);
    assert_eq!(isqrt_u(99), 9);
    assert_eq!(isqrt_u(100), 10);
    // 111_111_111 squared exactly.
    assert_eq!(isqrt_u(12_345_678_987_654_321), 111_111_111);
    assert_eq!(isqrt_u(12_345_678_987_654_320), 111_111_110);
}

#[test]
fn cooldown_gate() {
    let c = Cooldown::create(1_000, 2_500);
    assert_eq!(c.until_time, 3_500);
    assert!(!c.over(3_500));
    assert!(c.over(3_501));
    let mut c2 = Cooldown { until_time: 0 };
    assert!(c2.over(1));
    assert!(!c2.over(0));
    c2.reset(10_000, 1_000);
    assert_eq!(c2.until_time, 11_000);
    assert!(!c2.over(10_500));
    let d = Cooldown::default();
    assert_eq!(d.until_time, 0);
}
