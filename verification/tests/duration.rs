use std::collections::HashMap;
use std::time::Duration;

use compose_scaler::duration::{human_duration, parse_into_duration, DurationError};

fn parse_field(json: &str) -> Duration {
    let fields: HashMap<String, String> = serde_json::from_str(json).expect("Could not parse json");
    let ms = parse_into_duration(&fields["value"]).expect("Could not parse duration");
    Duration::from_millis(u64::try_from(ms).unwrap())
}

#[test]
fn duration_parse() {
    let test_str = r#"{ "value": "3m" }"#;
    assert_eq!(parse_field(test_str), Duration::from_secs(3 * 60));

    let test_str = r#"{ "value": "10s" }"#;
    assert_eq!(parse_field(test_str), Duration::from_secs(10));

    let test_str = r#"{ "value": "6h" }"#;
    assert_eq!(parse_field(test_str), Duration::from_secs(6 * 60 * 60));
}

#[test]
fn duration_units_either_case() {
    assert_eq!(parse_into_duration("2S"), Ok(2000));
    assert_eq!(parse_into_duration("2M"), Ok(120000));
    assert_eq!(parse_into_duration("2H"), Ok(7200000));
    assert_eq!(parse_into_duration("0s"), Ok(0));
}

#[test]
fn duration_number_forms() {
    assert_eq!(parse_into_duration("+5s"), Ok(5000));
    assert_eq!(parse_into_duration("007m"), Ok(420000));
    assert_eq!(parse_into_duration("+s"), Err(DurationError::InvalidNumber));
    assert_eq!(parse_into_duration("-5s"), Err(DurationError::InvalidNumber));
    assert_eq!(parse_into_duration("s"), Err(DurationError::InvalidNumber));
    assert_eq!(parse_into_duration(" 5s"), Err(DurationError::InvalidNumber));
    assert_eq!(parse_into_duration("5 s"), Err(DurationError::InvalidNumber));
    assert_eq!(parse_into_duration("1.5h"), Err(DurationError::InvalidNumber));
}

#[test]
fn duration_number_limits() {
    assert_eq!(
        parse_into_duration("18446744073709551615h"),
        Ok(18446744073709551615u128 * 3600000)
    );
    assert_eq!(
        parse_into_duration("18446744073709551616s"),
        Err(DurationError::InvalidNumber)
    );
    assert_eq!(
        parse_into_duration("99999999999999999999999s"),
        Err(DurationError::InvalidNumber)
    );
}

#[test]
fn duration_unit_errors() {
    assert_eq!(parse_into_duration("5x"), Err(DurationError::UnknownUnit));
    assert_eq!(parse_into_duration("5"), Err(DurationError::InvalidNumber));
    assert_eq!(parse_into_duration("5é"), Err(DurationError::UnknownUnit));
    // the number is read first
    assert_eq!(parse_into_duration("x5x"), Err(DurationError::InvalidNumber));
    assert_eq!(DurationError::InvalidNumber.message(), "Could not parse number");
    assert_eq!(DurationError::UnknownUnit.message(), "Unit does not exist");
}

#[test]
fn human_duration_bands() {
    assert_eq!(human_duration(0), "0s");
    assert_eq!(human_duration(999), "0s");
    assert_eq!(human_duration(59999), "59s");
    assert_eq!(human_duration(60000), "1m");
    assert_eq!(human_duration(3599999), "59m");
    assert_eq!(human_duration(3600000), "1h");
    assert_eq!(human_duration(21600000), "6h");
    assert_eq!(human_duration(u128::MAX), format!("{}h", u128::MAX / 3600000));
}

#[test]
fn human_duration_round_trip() {
    for text in ["0s", "59s", "1m", "5m", "59m", "1h", "6h", "1000h"] {
        let ms = parse_into_duration(text).unwrap();
        assert_eq!(human_duration(ms), text);
    }
    // outside its band a unit is shown in a larger one
    assert_eq!(human_duration(parse_into_duration("60s").unwrap()), "1m");
    assert_eq!(human_duration(parse_into_duration("90m").unwrap()), "1h");
}
