use sdr_gain_tool::frequency::{
    parse_frequency, validate_khz, FrequencyError, DEFAULT_KHZ, MAX_KHZ, MIN_KHZ,
};

#[test]
fn accepted_range_is_inclusive() {
    assert_eq!(validate_khz(MIN_KHZ), Ok(50_000));
    assert_eq!(validate_khz(MAX_KHZ), Ok(1_500_000));
    assert_eq!(validate_khz(145_000), Ok(145_000));
}

#[test]
fn frequencies_outside_range_are_rejected() {
    for khz in [0u32, 1, 49_999, 1_500_001, 2_000_000, u32::MAX] {
        assert_eq!(validate_khz(khz), Err(FrequencyError::OutOfRange));
    }
}

#[test]
fn default_frequency_is_two_metre_band() {
    assert_eq!(DEFAULT_KHZ, 145_000);
    assert_eq!(validate_khz(DEFAULT_KHZ), Ok(DEFAULT_KHZ));
}

#[test]
fn parses_decimal_request() {
    assert_eq!(parse_frequency("145000"), Ok(145_000));
    assert_eq!(parse_frequency("+433920"), Ok(433_920));
    assert_eq!(parse_frequency("0050000"), Ok(50_000));
}

#[test]
fn rejects_request_that_is_no_number() {
    for body in ["", "+", "abc", " 145000", "145000\n", "-145000", "14.5", "1e5"] {
        assert_eq!(parse_frequency(body), Err(FrequencyError::NotANumber), "{body:?}");
    }
}

#[test]
fn rejects_request_out_of_range() {
    assert_eq!(parse_frequency("2000000"), Err(FrequencyError::OutOfRange));
    assert_eq!(parse_frequency("49999"), Err(FrequencyError::OutOfRange));
    assert_eq!(parse_frequency("0"), Err(FrequencyError::OutOfRange));
    assert_eq!(
        parse_frequency("99999999999999999999999999"),
        Err(FrequencyError::OutOfRange)
    );
}
