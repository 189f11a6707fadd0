use sdr_gain_tool::decimal::{digits_to_u64, hundredths_text, signed_decimal_text};
use sdr_gain_tool::scan::{
    is_fatal_stderr_line, parse_field, parse_scan_line, scan_arguments, OutputEnd, ScanOutput,
    SCANNER_PROGRAM,
};

const HEAD: &str = "2025-03-01, 12:00:00, 144900000, 145100000, 1000.00, 12";

#[test]
fn sample_is_largest_trailing_field() {
    let line = format!("{HEAD}, -45.10, -30.25, -50.00");
    assert_eq!(parse_scan_line(&line), Some(-3_025));
    let line = format!("{HEAD},-1,-2,-3");
    assert_eq!(parse_scan_line(&line), Some(-100));
}

#[test]
fn unparsable_field_is_skipped() {
    let line = format!("{HEAD}, -45.10, nan?, -50.00");
    assert_eq!(parse_scan_line(&line), Some(-4_510));
    let line = format!("{HEAD}, x, -7.5, ");
    assert_eq!(parse_scan_line(&line), Some(-750));
}

#[test]
fn line_without_numbers_yields_nothing() {
    let line = format!("{HEAD}, a, b, ");
    assert_eq!(parse_scan_line(&line), None);
    assert_eq!(parse_scan_line(HEAD), None);
    assert_eq!(parse_scan_line(""), None);
    assert_eq!(parse_scan_line("1,2,3,4,5,6"), None);
}

#[test]
fn leading_fields_are_not_levels() {
    assert_eq!(parse_scan_line("1,2,3,4,5,6,-9"), Some(-900));
    assert_eq!(parse_scan_line("100,200,300,400,500,600,-9"), Some(-900));
}

#[test]
fn field_grammar() {
    let cases: [(&str, Option<i64>); 12] = [
        ("-45.23", Some(-4_523)),
        (" 7.5 ", Some(750)),
        ("+5", Some(500)),
        ("-1.239", Some(-123)),
        ("0.05", Some(5)),
        ("-0", Some(0)),
        ("", None),
        ("-", None),
        ("1.", None),
        (".5", None),
        ("1.2.3", None),
        ("1e3", None),
    ];
    for (text, want) in cases {
        assert_eq!(parse_field(text.as_bytes(), 0, text.len()), want, "{text:?}");
    }
    let huge = "99999999999999999999";
    assert_eq!(parse_field(huge.as_bytes(), 0, huge.len()), None);
}

#[test]
fn fatal_markers_are_recognised() {
    assert!(is_fatal_stderr_line("Error: device busy"));
    assert!(is_fatal_stderr_line("No supported devices found."));
    assert!(!is_fatal_stderr_line("Found 1 device(s):"));
    assert!(!is_fatal_stderr_line(" Error: indented"));
    assert!(!is_fatal_stderr_line(""));
}

#[test]
fn scanner_arguments() {
    assert_eq!(SCANNER_PROGRAM, "rtl_power");
    assert_eq!(
        scan_arguments(145_000, 20),
        vec!["-f", "144900K:145100K:1k", "-i", "1", "-g", "20"]
    );
    assert_eq!(scan_arguments(50_000, -5)[1], "49900K:50100K:1k");
    assert_eq!(scan_arguments(50_000, -5)[5], "-5");
}

#[test]
fn decimal_texts() {
    assert_eq!(signed_decimal_text(0), "0");
    assert_eq!(signed_decimal_text(-32768), "-32768");
    assert_eq!(signed_decimal_text(496), "496");
    assert_eq!(hundredths_text(-4_523), "-45.23");
    assert_eq!(hundredths_text(0), "0.00");
    assert_eq!(hundredths_text(-5), "-0.05");
    assert_eq!(hundredths_text(-12_000), "-120.00");
    assert_eq!(hundredths_text(1_207), "12.07");
}

#[test]
fn digit_strings_that_overflow() {
    let max = "18446744073709551615";
    assert_eq!(digits_to_u64(max.as_bytes(), 0, max.len()), Some(u64::MAX));
    let over = "18446744073709551616";
    assert_eq!(digits_to_u64(over.as_bytes(), 0, over.len()), None);
    assert_eq!(digits_to_u64(b"x0042", 1, 5), Some(42));
}

#[test]
fn output_end_tells_silence_from_crash() {
    let mut out = ScanOutput::new();
    assert_eq!(out.take_line("garbage"), None);
    assert_eq!(out.end(), OutputEnd::NeverProduced);
    let line = format!("{HEAD}, -20.00");
    assert_eq!(out.take_line(&line), Some(-2_000));
    assert_eq!(out.take_line(""), None);
    assert_eq!(out.end(), OutputEnd::ExitedMidRun);
}
