use squad_stats::amount::parse_amount;
use squad_stats::handlers::after_damage;
use squad_stats::player::{FULL_HEALTH, HEALTH_UNIT, REVIVED_HEALTH};

#[test]
fn amounts_are_read_in_millionths() {
    assert_eq!(parse_amount("25.0"), Some(25_000_000));
    assert_eq!(parse_amount("25.000000"), Some(25_000_000));
    assert_eq!(parse_amount("0.5"), Some(500_000));
    assert_eq!(parse_amount("0.000001"), Some(1));
    assert_eq!(parse_amount("0.0"), Some(0));
    assert_eq!(parse_amount("007.250"), Some(7_250_000));
    assert_eq!(parse_amount("12.345678"), Some(12_345_678));
}

#[test]
fn digits_after_the_sixth_are_left_out() {
    assert_eq!(parse_amount("1.2345678"), Some(1_234_567));
    assert_eq!(parse_amount("1.9999999999"), Some(1_999_999));
    assert_eq!(parse_amount("0.00000099"), Some(0));
}

#[test]
fn what_is_not_digits_point_digits_is_no_amount() {
    assert_eq!(parse_amount(""), None);
    assert_eq!(parse_amount("25"), None);
    assert_eq!(parse_amount("25."), None);
    assert_eq!(parse_amount(".5"), None);
    assert_eq!(parse_amount("."), None);
    assert_eq!(parse_amount("1.2.3"), None);
    assert_eq!(parse_amount("-1.0"), None);
    assert_eq!(parse_amount("1,5"), None);
    assert_eq!(parse_amount("1.5e3"), None);
    assert_eq!(parse_amount(" 1.5"), None);
    assert_eq!(parse_amount("1.5 "), None);
    assert_eq!(parse_amount("٢٥.٠"), None);
}

#[test]
fn an_amount_beyond_the_largest_is_the_largest() {
    assert_eq!(parse_amount("9223372036854.775807"), Some(i64::MAX));
    assert_eq!(parse_amount("9223372036854.775806"), Some(i64::MAX - 1));
    assert_eq!(parse_amount("9223372036854.775808"), Some(i64::MAX));
    assert_eq!(parse_amount("9223372036855.0"), Some(i64::MAX));
    assert_eq!(parse_amount("99999999999999999999999999999999999999.5"), Some(i64::MAX));
}

#[test]
fn damage_is_taken_off_without_a_floor() {
    assert_eq!(after_damage(FULL_HEALTH, 25 * HEALTH_UNIT), 75_000_000);
    assert_eq!(after_damage(FULL_HEALTH, 150 * HEALTH_UNIT), -50_000_000);
    assert_eq!(after_damage(REVIVED_HEALTH, 0), 5_000_000);
    assert_eq!(after_damage(0, -HEALTH_UNIT), 1_000_000);
}

#[test]
fn hit_points_stop_at_the_ends_of_their_range() {
    assert_eq!(after_damage(i64::MIN + 5, 10), i64::MIN);
    assert_eq!(after_damage(i64::MIN, i64::MAX), i64::MIN);
    assert_eq!(after_damage(i64::MAX, -1), i64::MAX);
    assert_eq!(after_damage(0, i64::MIN), i64::MAX);
}

#[test]
fn the_health_constants_are_whole_points() {
    assert_eq!(FULL_HEALTH as f64 / HEALTH_UNIT as f64, 100.0);
    assert_eq!(REVIVED_HEALTH as f64 / HEALTH_UNIT as f64, 5.0);
}
