use loadgen::calibrate::{
    calibrate, rate_per_second, saturating_add, saturating_mul, GROWTH_FACTOR,
    INITIAL_WORK_COUNT, TARGET_INTERVAL_MS,
};

#[test]
fn growth_when_too_fast_to_measure() {
    // A quantum that rounded to under a millisecond grows the count tenfold.
    assert_eq!(calibrate(INITIAL_WORK_COUNT, 0, TARGET_INTERVAL_MS), 10_000_000);
    assert_eq!(GROWTH_FACTOR, 10);
}

#[test]
fn growth_saturates() {
    assert_eq!(calibrate(u64::MAX, 0, TARGET_INTERVAL_MS), u64::MAX);
    assert_eq!(calibrate(u64::MAX / 10 + 1, 0, TARGET_INTERVAL_MS), u64::MAX);
}

#[test]
fn overshoot_shrinks_count() {
    // Ran 1000 units in 2000 ms aiming at 1000 ms: halve the count.
    assert_eq!(calibrate(1000, 2000, 1000), 500);
    // The next count never exceeds the old one when the quantum overshot.
    assert!(calibrate(100, 2000, 1000) <= 100);
    assert_eq!(calibrate(100, 2000, 1000), 50);
}

#[test]
fn undershoot_grows_count() {
    // Ran 1000 units in 500 ms aiming at 1000 ms: double the count.
    assert_eq!(calibrate(1000, 500, 1000), 2000);
    assert!(calibrate(1000, 500, 1000) >= 1000);
}

#[test]
fn on_target_keeps_count() {
    assert_eq!(calibrate(7, 3, 3), 7);
    assert_eq!(calibrate(1_000_000, 1000, 1000), 1_000_000);
}

#[test]
fn ratio_rounds_to_nearest() {
    // 1 * 1500 / 1000 = 1.5, which rounds up.
    assert_eq!(calibrate(1, 1000, 1500), 2);
    // 1 * 1400 / 1000 = 1.4, which rounds down.
    assert_eq!(calibrate(1, 1000, 1400), 1);
}

#[test]
fn calibrate_saturates_at_max() {
    assert_eq!(calibrate(u64::MAX, 1, 1000), u64::MAX);
}

#[test]
fn rate_is_work_over_actual_time() {
    // One 512000-byte buffer in exactly a second.
    assert_eq!(rate_per_second(512_000, 1000), 512_000);
    // Finished in half a second: the reported rate doubles.
    assert_eq!(rate_per_second(1000, 500), 2000);
    assert_eq!(rate_per_second(0, 1000), 0);
}

#[test]
fn rate_saturates_at_max() {
    assert_eq!(rate_per_second(u64::MAX, 1), u64::MAX);
}

#[test]
fn saturating_helpers() {
    assert_eq!(saturating_mul(96, 1_000_000), 96_000_000);
    assert_eq!(saturating_mul(u64::MAX, 2), u64::MAX);
    assert_eq!(saturating_mul(u64::MAX, 0), 0);
    assert_eq!(saturating_add(1, 2), 3);
    assert_eq!(saturating_add(u64::MAX, 1), u64::MAX);
    assert_eq!(saturating_add(u64::MAX - 1, 1), u64::MAX);
}
