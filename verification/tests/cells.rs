//! Cell values: their display and raw text forms, dates, and CSV fields.

use xleak::cell::CellValue;
use xleak::dates::datetime_texts;
use xleak::number::{Number, Serial};

fn number(f: f64) -> Number {
    Number {
        bits: f.to_bits(),
        is_whole: f.fract() == 0.0,
        shortest: f.to_string(),
        fixed0: format!("{f:.0}"),
        fixed2: format!("{f:.2}"),
    }
}

fn serial(dt: f64) -> Serial {
    let floor = dt.floor();
    let days = floor as i64;
    let frac = dt - days as f64;
    Serial {
        bits: dt.to_bits(),
        days,
        negligible_time: frac < 0.000001,
        seconds: (frac * 86400.0).round() as u32,
        shortest: dt.to_string(),
    }
}

fn float(f: f64) -> CellValue {
    CellValue::Float(number(f))
}

fn date(dt: f64) -> CellValue {
    CellValue::DateTime(serial(dt))
}

fn field_number(text: &str) -> Option<Number> {
    text.trim().parse::<f64>().ok().map(number)
}

#[test]
fn test_cellvalue_display_integer() {
    let val = CellValue::Int(1234567);
    assert_eq!(val.to_string(), "1,234,567");
}

#[test]
fn test_cellvalue_display_negative_integer() {
    let val = CellValue::Int(-1234567);
    assert_eq!(val.to_string(), "-1,234,567");
}

#[test]
fn test_cellvalue_display_float() {
    let val = float(1234567.89);
    assert_eq!(val.to_string(), "1,234,567.89");
}

#[test]
fn test_cellvalue_display_float_whole_number() {
    let val = float(1000.0);
    assert_eq!(val.to_string(), "1,000");
}

#[test]
fn test_cellvalue_display_boolean() {
    assert_eq!(CellValue::Bool(true).to_string(), "true");
    assert_eq!(CellValue::Bool(false).to_string(), "false");
}

#[test]
fn test_cellvalue_display_string() {
    let val = CellValue::String("Hello, World!".to_string());
    assert_eq!(val.to_string(), "Hello, World!");
}

#[test]
fn test_cellvalue_display_empty() {
    let val = CellValue::Empty;
    assert_eq!(val.to_string(), "");
}

#[test]
fn test_cellvalue_display_error() {
    let val = CellValue::Error("DIV/0!".to_string());
    assert_eq!(val.to_string(), "ERROR: DIV/0!");
}

#[test]
fn test_cellvalue_to_raw_string_integer() {
    let val = CellValue::Int(1234567);
    assert_eq!(val.to_raw_string(), "1234567");
}

#[test]
fn test_cellvalue_to_raw_string_float() {
    let val = float(123.45);
    assert_eq!(val.to_raw_string(), "123.45");
}

#[test]
fn test_cellvalue_to_raw_string_large_float() {
    let val = float(18_441_600_422.0);
    assert_eq!(val.to_raw_string(), "18441600422");
    assert_eq!(val.to_string(), "18,441,600,422");
}

#[test]
fn test_cellvalue_to_raw_string_large_int() {
    let val = CellValue::Int(18_441_600_422);
    assert_eq!(val.to_raw_string(), "18441600422");
    assert_eq!(val.to_string(), "18,441,600,422");
}

#[test]
fn test_cellvalue_is_empty() {
    assert!(CellValue::Empty.is_empty());
    assert!(!CellValue::Int(0).is_empty());
    assert!(!CellValue::String("".to_string()).is_empty());
}

#[test]
fn test_cellvalue_is_numeric() {
    assert!(CellValue::Int(123).is_numeric());
    assert!(float(123.45).is_numeric());
    assert!(!CellValue::String("123".to_string()).is_numeric());
    assert!(!CellValue::Empty.is_numeric());
}

#[test]
fn test_datetime_display() {
    let val = date(1.0);
    let display = val.to_string();
    assert!(display.contains("1900") || display.contains("1899"));
}

#[test]
fn test_datetime_with_time() {
    let val = date(1.5);
    let display = val.to_string();
    assert!(display.contains(":"));
    assert!(display.len() > 10);
}

#[test]
fn test_datetime_just_before_midnight_rolls_to_next_day() {
    let val = date(1.999_999_9);
    assert_eq!(val.to_string(), "1900-01-02");
    assert_eq!(val.to_raw_string(), "1900-01-02");

    let val = date(1.0 + 86399.0 / 86400.0);
    assert_eq!(val.to_string(), "1900-01-01 23:59:59");
}

#[test]
fn datetime_exact_values() {
    assert_eq!(date(1.0).to_string(), "1900-01-01");
    assert_eq!(date(1.5).to_string(), "1900-01-01 12:00:00");
    // Serial 61 is 1900-03-01: day 60 is the nonexistent 1900-02-29.
    assert_eq!(date(61.0).to_string(), "1900-03-01");
    assert_eq!(date(45000.25).to_raw_string(), "2023-03-15 06:00:00");
}

#[test]
fn datetime_out_of_range_shows_day_count() {
    let val = date(1.0e15);
    assert_eq!(val.to_string(), "Date[1000000000000000]");
}

#[test]
fn float_display_rounds_to_two_decimals_and_groups() {
    assert_eq!(float(-1234.5).to_string(), "-1,234.50");
    assert_eq!(float(0.126).to_string(), "0.13");
    assert_eq!(float(0.125).to_string(), "0.12");
    assert_eq!(float(-0.0).to_raw_string(), "-0");
}

#[test]
fn error_raw_text_has_hash() {
    assert_eq!(CellValue::Error("N/A".to_string()).to_raw_string(), "#N/A");
}

#[test]
fn int_extremes_display() {
    assert_eq!(CellValue::Int(i64::MIN).to_string(), "-9,223,372,036,854,775,808");
    assert_eq!(CellValue::Int(999).to_string(), "999");
    assert_eq!(CellValue::Int(-1000).to_string(), "-1,000");
}

#[test]
fn csv_fields_are_typed() {
    let f = |t: &str| CellValue::from_csv_field(t.to_string(), field_number(t));
    assert!(f("  ").is_empty());
    assert_eq!(f("TRUE").to_raw_string(), "true");
    assert_eq!(f("False").to_raw_string(), "false");
    assert_eq!(f(" 42 ").to_raw_string(), "42");
    assert!(f("42").is_numeric());
    assert_eq!(f("007").to_raw_string(), "007");
    assert!(!f("007").is_numeric());
    assert_eq!(f("0.5").to_raw_string(), "0.5");
    assert!(f("0.5").is_numeric());
    assert_eq!(f("inf").to_raw_string(), "inf");
    assert!(!f("inf").is_numeric());
    assert_eq!(f(" hello ").to_raw_string(), " hello ");
    assert_eq!(f("-12").to_raw_string(), "-12");
}

#[test]
fn dates_past_year_9999_carry_a_sign() {
    assert_eq!(date(2958465.0).to_string(), "9999-12-31");
    assert_eq!(date(2958466.0).to_string(), "+10000-01-01");
}

#[test]
fn csv_fields_read_back_as_cells() {
    for i in [0i64, 7, -7, 10, 1234567, i64::MAX, i64::MIN] {
        let text = CellValue::Int(i).to_raw_string();
        assert!(matches!(CellValue::from_csv_field(text.clone(), field_number(&text)), CellValue::Int(v) if v == i));
    }
    for b in [true, false] {
        let text = CellValue::Bool(b).to_raw_string();
        assert!(matches!(CellValue::from_csv_field(text.clone(), field_number(&text)), CellValue::Bool(v) if v == b));
    }
    for s in ["007", " padded ", "hello", "1e400"] {
        if let CellValue::String(t) = CellValue::from_csv_field(s.to_string(), field_number(s)) {
            assert_eq!(t, s);
        }
    }
}

#[test]
fn datetime_texts_use_the_given_dates() {
    let noon = serial(2.5);
    assert_eq!(
        datetime_texts(&noon, Some((1900, 1, 2)), None),
        ("1900-01-02".to_string(), Some("12:00:00".to_string()))
    );
    let late = Serial { bits: 0, days: 1, negligible_time: false, seconds: 86400, shortest: String::new() };
    assert_eq!(datetime_texts(&late, Some((1900, 1, 1)), Some((1900, 1, 2))), ("1900-01-02".to_string(), None));
    assert_eq!(datetime_texts(&late, Some((1900, 1, 1)), None), ("Date[1]".to_string(), None));
    assert_eq!(datetime_texts(&noon, None, None), ("Date[2]".to_string(), None));
}
