use everything::time::{DateTime, Duration};

#[test]
fn conversions() {
    assert_eq!(Duration::from_hours(1).as_secs(), 60 * 60);
}

#[test]
fn duration_unit_conversions_are_exact() {
    assert_eq!(Duration::from_micros(3).as_nanos(), 3_000);
    assert_eq!(Duration::from_millis(2).as_micros(), 2_000);
    assert_eq!(Duration::from_mins(2).as_secs(), 120);
    assert_eq!(Duration::from_days(1).as_hours(), 24);
    assert_eq!(Duration::from_weeks(1).as_days(), 7);
    assert_eq!(Duration::from_weeks(2).as_weeks(), 2);
}

#[test]
fn duration_division_truncates_toward_zero() {
    assert_eq!(Duration::from_nanos(-1_999).as_micros(), -1);
    assert_eq!(Duration::from_nanos(1_999).as_micros(), 1);
    assert_eq!(Duration::from_secs(-59).as_mins(), 0);
}

#[test]
fn duration_saturates_at_the_bounds() {
    let max = Duration::max_value().as_nanos();
    let min = Duration::min_value().as_nanos();
    assert_eq!(max, (1_i128 << 119) - 1);
    assert_eq!(min, -(1_i128 << 119));
    assert_eq!(Duration::from_nanos(i128::MAX).as_nanos(), max);
    assert_eq!(Duration::from_nanos(i128::MIN).as_nanos(), min);
    assert_eq!(Duration::max_value().const_add(Duration::from_nanos(1)).as_nanos(), max);
    assert_eq!(Duration::min_value().const_sub(Duration::from_nanos(1)).as_nanos(), min);
    assert_eq!(Duration::zero().as_nanos(), 0);
}

#[test]
fn duration_add_then_sub_restores() {
    let a = Duration::from_secs(17);
    let b = Duration::from_millis(-250);
    assert_eq!(a.const_add(b).const_sub(b).as_nanos(), a.as_nanos());
}

#[test]
fn datetime_add_then_diff() {
    let t = DateTime::y2k();
    let d = Duration::from_days(3);
    assert_eq!(t.const_add(d).diff(t).as_nanos(), d.as_nanos());
    assert_eq!(DateTime::y2k().diff(DateTime::unix()).as_secs(), 946_681_200);
}

#[test]
fn datetime_from_clock_reading() {
    assert_eq!(DateTime::from_clock_reading(true, 5).since_epoch().as_nanos(), 5);
    assert_eq!(DateTime::from_clock_reading(false, 5).since_epoch().as_nanos(), -5);
}

#[test]
fn now_is_after_y2k() {
    assert!(DateTime::now().diff(DateTime::y2k()).as_nanos() > 0);
}

#[test]
fn counts_of_units_saturate_at_the_boundaries() {
    assert_eq!(Duration::from_micros(i128::MAX), Duration::max_value());
    assert_eq!(Duration::from_micros(i128::MIN), Duration::min_value());
    assert_eq!(Duration::from_weeks(i128::MAX), Duration::max_value());
    assert_eq!(Duration::from_weeks(-2_000_000_000_000_000_000_000), Duration::min_value());
    assert_eq!(Duration::from_secs(-3).as_nanos(), -3_000_000_000);
}

#[test]
fn operators_saturate_like_the_named_functions() {
    let a = Duration::from_secs(5);
    let b = Duration::from_secs(7);
    assert_eq!((a + b).as_secs(), 12);
    assert_eq!((a - b).as_secs(), -2);
    assert_eq!(Duration::max_value() + b, Duration::max_value());
    assert_eq!(Duration::max_value() - Duration::min_value(), Duration::max_value());
    let t = DateTime::y2k();
    assert_eq!((t + b) - t, b);
    assert_eq!((t - b).diff(t), Duration::zero() - b);
}
