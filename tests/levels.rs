use candlelight::decimal::{decimal_bytes, parse_brightness, parse_unsigned};
use candlelight::input::{check_target, parse_absolute, percent_prefix, InputError};
use candlelight::level::{MAX_BRIGHTNESS, MIN_BRIGHTNESS};
use candlelight::report::query_line;

#[test]
fn reads_digits_up_to_newline() {
    assert_eq!(parse_brightness(b"4321\n"), 4321);
}

#[test]
fn reads_empty_file_as_zero() {
    assert_eq!(parse_brightness(b""), 0);
}

#[test]
fn reads_digits_up_to_other_byte() {
    assert_eq!(parse_brightness(b"12a34"), 12);
    assert_eq!(parse_brightness(b"x12"), 0);
    assert_eq!(parse_brightness(b"7500"), 7500);
}

#[test]
fn reading_a_long_run_wraps_at_sixteen_bits() {
    assert_eq!(parse_brightness(b"65536\n"), 0);
    assert_eq!(parse_brightness(b"65537"), 1);
}

#[test]
fn writes_digits_without_newline() {
    assert_eq!(decimal_bytes(4321), b"4321".to_vec());
    assert_eq!(decimal_bytes(0), b"0".to_vec());
    assert_eq!(decimal_bytes(1), b"1".to_vec());
    assert_eq!(decimal_bytes(65535), b"65535".to_vec());
}

#[test]
fn written_level_reads_back() {
    for v in 0..=u16::MAX {
        let mut bytes = decimal_bytes(v);
        assert_eq!(parse_brightness(&bytes), v);
        bytes.push(b'\n');
        assert_eq!(parse_brightness(&bytes), v);
    }
}

#[test]
fn unsigned_literals() {
    assert_eq!(parse_unsigned("42"), Some(42));
    assert_eq!(parse_unsigned("+42"), Some(42));
    assert_eq!(parse_unsigned("0042"), Some(42));
    assert_eq!(parse_unsigned("65535"), Some(65535));
    assert_eq!(parse_unsigned("65536"), Some(65536));
    assert_eq!(parse_unsigned("123456789012345678901234567890"), Some(65536));
    assert_eq!(parse_unsigned(""), None);
    assert_eq!(parse_unsigned("+"), None);
    assert_eq!(parse_unsigned("-1"), None);
    assert_eq!(parse_unsigned(" 1"), None);
    assert_eq!(parse_unsigned("1 "), None);
    assert_eq!(parse_unsigned("1_000"), None);
}

#[test]
fn every_level_parses_as_itself() {
    for v in MIN_BRIGHTNESS..=MAX_BRIGHTNESS {
        assert_eq!(parse_absolute(&v.to_string()), Ok(v));
    }
}

#[test]
fn zero_is_taken_as_lowest_level() {
    assert_eq!(parse_absolute("0"), Ok(1));
    assert_eq!(check_target(0), Ok(1));
}

#[test]
fn above_highest_level_is_too_high() {
    assert_eq!(parse_absolute("7501"), Err(InputError::TooHigh));
    assert_eq!(parse_absolute("65535"), Err(InputError::TooHigh));
    assert_eq!(parse_absolute("65536"), Err(InputError::TooHigh));
    assert_eq!(parse_absolute("70000"), Err(InputError::TooHigh));
    assert_eq!(parse_absolute("99999999999999999999"), Err(InputError::TooHigh));
    assert_eq!(check_target(7575), Err(InputError::TooHigh));
    assert_eq!(check_target(7500), Ok(7500));
}

#[test]
fn malformed_absolute_is_invalid() {
    assert_eq!(parse_absolute("-5"), Err(InputError::Invalid));
    assert_eq!(parse_absolute("abc"), Err(InputError::Invalid));
    assert_eq!(parse_absolute(""), Err(InputError::Invalid));
    assert_eq!(parse_absolute("12.5"), Err(InputError::Invalid));
    assert_eq!(parse_absolute("+"), Err(InputError::Invalid));
}

#[test]
fn percent_prefix_strips_trailing_signs() {
    assert_eq!(percent_prefix("50%"), Some("50"));
    assert_eq!(percent_prefix("50%%"), Some("50"));
    assert_eq!(percent_prefix("%"), Some(""));
    assert_eq!(percent_prefix("12.5%"), Some("12.5"));
    assert_eq!(percent_prefix("50"), None);
    assert_eq!(percent_prefix("5%0"), None);
    assert_eq!(percent_prefix(""), None);
}

fn percent_target(val: &str) -> Result<u16, InputError> {
    let prefix = percent_prefix(val).unwrap();
    match prefix.parse::<f64>() {
        Ok(p) if p.is_nan() || p < 0.0 => Err(InputError::Invalid),
        Ok(p) => check_target((p * MAX_BRIGHTNESS as f64 / 100.0) as u16),
        Err(_) => Err(InputError::Invalid),
    }
}

#[test]
fn percentages_come_close_to_their_level() {
    for v in 0..=MAX_BRIGHTNESS {
        let pct = 100.0 * v as f64 / MAX_BRIGHTNESS as f64;
        let got = percent_target(&format!("{}%", pct)).unwrap();
        let want = v.max(MIN_BRIGHTNESS);
        assert!(got.abs_diff(want) <= 1, "{} gave {}", v, got);
    }
}

#[test]
fn percentage_edges() {
    assert_eq!(percent_target("0%"), Ok(1));
    assert_eq!(percent_target("50%"), Ok(3750));
    assert_eq!(percent_target("100%"), Ok(7500));
    assert_eq!(percent_target("101%"), Err(InputError::TooHigh));
    assert_eq!(percent_target("abc%"), Err(InputError::Invalid));
    assert_eq!(percent_target("-5%"), Err(InputError::Invalid));
    assert_eq!(percent_target("NaN%"), Err(InputError::Invalid));
}

#[test]
fn query_line_for_half() {
    assert_eq!(query_line(3750), b"brightness:    3750\t  50.000%".to_vec());
}

#[test]
fn query_line_edges() {
    assert_eq!(query_line(1), b"brightness:       1\t   0.013%".to_vec());
    assert_eq!(query_line(2), b"brightness:       2\t   0.027%".to_vec());
    assert_eq!(query_line(7500), b"brightness:    7500\t 100.000%".to_vec());
    assert_eq!(query_line(0), b"brightness:       0\t   0.000%".to_vec());
    assert_eq!(query_line(65535), b"brightness:   65535\t 873.800%".to_vec());
}

#[test]
fn query_line_matches_float_formatting() {
    for v in 0..=u16::MAX {
        let want = format!(
            "brightness:{:8}\t{:8.*}%",
            v,
            3,
            100. * (v as f64 / MAX_BRIGHTNESS as f64)
        );
        assert_eq!(String::from_utf8(query_line(v)).unwrap(), want);
    }
}
