use smart_rockets::clock::SimulationClock;
use smart_rockets::trig::{cos_fp, norm_add, scale_trig, sin_fp};

#[test]
fn sine_quarter_turns_are_exact() {
    assert_eq!(sin_fp(0), 0);
    assert_eq!(sin_fp(90000), 10000);
    assert_eq!(sin_fp(180000), 0);
    assert_eq!(sin_fp(270000), -10000);
}

#[test]
fn cosine_quarter_turns_are_exact() {
    assert_eq!(cos_fp(0), 10000);
    assert_eq!(cos_fp(90000), 0);
    assert_eq!(cos_fp(180000), -10000);
    assert_eq!(cos_fp(270000), 0);
}

#[test]
fn sine_is_odd_around_the_half_turn() {
    for a in [10000u64, 45000, 77000, 135000] {
        assert_eq!(sin_fp(a + 180000), -sin_fp(a));
        assert!(sin_fp(a) > 0);
    }
}

#[test]
fn norm_add_wraps_both_ways() {
    assert_eq!(norm_add(0, -1), 359999);
    assert_eq!(norm_add(359999, 1), 0);
    assert_eq!(norm_add(270000, 10000), 280000);
    assert_eq!(norm_add(270000, -10000), 260000);
    assert_eq!(norm_add(0, 360000), 0);
    assert_eq!(norm_add(100, -360000), 100);
}

#[test]
fn scale_trig_truncates_toward_zero() {
    assert_eq!(scale_trig(3000, 10000), 3000);
    assert_eq!(scale_trig(3000, -10000), -3000);
    assert_eq!(scale_trig(3000, 5000), 1500);
    assert_eq!(scale_trig(1, 9999), 0);
    assert_eq!(scale_trig(1, -9999), 0);
    assert_eq!(scale_trig(0, 10000), 0);
}

#[test]
fn clock_counts_to_budget_and_resets() {
    let mut c = SimulationClock::new(3);
    assert!(!c.is_expired());
    assert!(!c.tick());
    assert!(!c.tick());
    assert!(c.tick());
    assert!(c.is_expired());
    assert_eq!(c.ticks, 3);
    c.reset();
    assert_eq!(c.ticks, 0);
    assert!(!c.is_expired());
}
