use rpod::duration::{parse_duration, MAX_DURATION_NANOS};

#[test]
fn parses_seconds() {
    assert_eq!(parse_duration("3s"), Ok(3_000_000_000));
}

#[test]
fn parses_milliseconds() {
    assert_eq!(parse_duration("500ms"), Ok(500_000_000));
}

#[test]
fn parses_microseconds() {
    assert_eq!(parse_duration("250us"), Ok(250_000));
}

#[test]
fn parses_nanoseconds() {
    assert_eq!(parse_duration("7ns"), Ok(7));
}

#[test]
fn parses_minutes() {
    assert_eq!(parse_duration("2m"), Ok(120_000_000_000));
}

#[test]
fn parses_hours() {
    assert_eq!(parse_duration("1h"), Ok(3_600_000_000_000));
}

#[test]
fn parses_composite() {
    assert_eq!(parse_duration("1h30m"), Ok(5_400_000_000_000));
}

#[test]
fn parses_fraction() {
    assert_eq!(parse_duration("1.5s"), Ok(1_500_000_000));
}

#[test]
fn parses_fraction_of_an_hour() {
    assert_eq!(parse_duration("0.5h"), Ok(1_800_000_000_000));
}

#[test]
fn parses_fraction_without_integer_part() {
    assert_eq!(parse_duration(".5s"), Ok(500_000_000));
}

#[test]
fn parses_integer_with_trailing_dot() {
    assert_eq!(parse_duration("1.s"), Ok(1_000_000_000));
}

#[test]
fn parses_bare_zero() {
    assert_eq!(parse_duration("0"), Ok(0));
}

#[test]
fn parses_signed_zero() {
    assert_eq!(parse_duration("-0"), Ok(0));
    assert_eq!(parse_duration("+0"), Ok(0));
    assert_eq!(parse_duration("-0s"), Ok(0));
}

#[test]
fn parses_plus_sign() {
    assert_eq!(parse_duration("+2s"), Ok(2_000_000_000));
}

#[test]
fn parses_largest_duration() {
    assert_eq!(
        parse_duration("9223372036854775807ns"),
        Ok(MAX_DURATION_NANOS)
    );
}

#[test]
fn ignores_fraction_digits_below_resolution() {
    assert_eq!(parse_duration("0.0000000000000000001s"), Ok(0));
}

#[test]
fn rejects_empty_string() {
    assert!(parse_duration("").is_err());
}

#[test]
fn rejects_sign_alone() {
    assert!(parse_duration("-").is_err());
    assert!(parse_duration("+").is_err());
}

#[test]
fn rejects_missing_unit() {
    assert_eq!(
        parse_duration("3"),
        Err("invalid duration: a unit is missing".to_string())
    );
}

#[test]
fn rejects_unknown_unit() {
    assert_eq!(
        parse_duration("3x"),
        Err("invalid duration: unknown unit".to_string())
    );
}

#[test]
fn rejects_missing_number() {
    assert_eq!(
        parse_duration("s"),
        Err("invalid duration: a number is missing".to_string())
    );
    assert!(parse_duration(".s").is_err());
    assert!(parse_duration(".").is_err());
}

#[test]
fn rejects_negative_duration() {
    assert_eq!(
        parse_duration("-3s"),
        Err("negative durations are not accepted".to_string())
    );
}

#[test]
fn rejects_out_of_range() {
    assert_eq!(
        parse_duration("9223372036854775808ns"),
        Err("duration out of range".to_string())
    );
    assert!(parse_duration("9999999999999999999999h").is_err());
}
