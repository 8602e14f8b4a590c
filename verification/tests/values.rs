//! The value codec: decimals, dates, durations, and the wire tuple.

use spreadsheet_ods::datetime::parse_date;
use spreadsheet_ods::datetime::parse_datetime;
use spreadsheet_ods::decimal::Decimal;
use spreadsheet_ods::duration::parse_duration;
use spreadsheet_ods::error::OdsError;
use spreadsheet_ods::value::decode_value_type;
use spreadsheet_ods::value::parse_value;
use spreadsheet_ods::book::SCell;
use spreadsheet_ods::book::Sheet;
use spreadsheet_ods::book::WorkBook;
use spreadsheet_ods::value::Value;
use spreadsheet_ods::value::ValueType;

#[test]
fn decimal_round_trips_through_text() {
    let d = Decimal::parse("1234.50").unwrap();
    assert_eq!(d.to_text(), "1234.50");
    let n = Decimal::parse("-0.25").unwrap();
    assert_eq!(n.to_text(), "-0.25");
    let z = Decimal::parse("-0").unwrap();
    assert_eq!(z.to_text(), "0");
    let lz = Decimal::parse("0007").unwrap();
    assert_eq!(lz.to_text(), "7");
}

#[test]
fn decimal_rejects_malformed_literals() {
    assert!(Decimal::parse("").is_err());
    assert!(Decimal::parse("-").is_err());
    assert!(Decimal::parse("1.").is_err());
    assert!(Decimal::parse(".5").is_err());
    assert!(Decimal::parse("12a4").is_err());
    assert!(Decimal::parse("1.2.3").is_err());
}

#[test]
fn decimal_times_hundred_moves_the_point() {
    let d = Decimal::parse("0.455").unwrap();
    assert_eq!(d.times100().to_text(), "45.5");
    let e = Decimal::parse("1.5").unwrap();
    assert_eq!(e.times100().to_text(), "150");
}

#[test]
fn duration_decode_reads_hours_minutes_seconds_nanos() {
    let d = parse_duration("PT2H15M30.500000000S").unwrap();
    assert_eq!(d.secs, 2 * 3600 + 15 * 60 + 30);
    assert_eq!(d.nanos, 500_000_000);
}

#[test]
fn duration_decode_pads_short_fractions() {
    let d = parse_duration("PT0H0M1.5S").unwrap();
    assert_eq!(d.secs, 1);
    assert_eq!(d.nanos, 500_000_000);
}

#[test]
fn duration_encode_decodes_back() {
    let d = parse_duration("PT100H59M59.25S").unwrap();
    let text = d.to_wire_text();
    let again = parse_duration(text.as_str()).unwrap();
    assert_eq!(d, again);
}

#[test]
fn duration_rejects_overflowing_hours() {
    assert!(matches!(parse_duration("PT99999999999999999999H0M0S"), Err(OdsError::Duration(_))));
}

#[test]
fn date_dispatch_ten_characters_is_midnight() {
    let d = parse_date("2023-05-01").unwrap();
    assert_eq!((d.year, d.month, d.day), (2023, 5, 1));
    assert_eq!((d.hour, d.minute, d.second, d.nanos), (0, 0, 0, 0));
}

#[test]
fn date_dispatch_longer_form_keeps_the_clock() {
    let d = parse_datetime("2023-05-01T13:45:00.000").unwrap();
    assert_eq!((d.year, d.month, d.day), (2023, 5, 1));
    assert_eq!((d.hour, d.minute, d.second, d.nanos), (13, 45, 0, 0));
}

#[test]
fn date_rejects_bad_calendar_fields() {
    assert!(matches!(parse_date("2023-13-01"), Err(OdsError::Chrono(_))));
    assert!(matches!(parse_date("2023-02-30"), Err(OdsError::Chrono(_))));
    assert!(parse_date("2024-02-29").is_ok());
    assert!(matches!(parse_date("2023-02-29"), Err(OdsError::Chrono(_))));
}

#[test]
fn datetime_wire_text_parses_back() {
    let d = parse_datetime("1999-12-31T23:59:59.123456789").unwrap();
    let text = d.to_wire_text();
    let again = parse_datetime(text.as_str()).unwrap();
    assert_eq!(d, again);
}

#[test]
fn value_type_markers_decode() {
    assert_eq!(decode_value_type("float").unwrap(), ValueType::Number);
    assert_eq!(decode_value_type("string").unwrap(), ValueType::Text);
    assert_eq!(decode_value_type("percentage").unwrap(), ValueType::Percentage);
    assert_eq!(decode_value_type("date").unwrap(), ValueType::DateTime);
    assert_eq!(decode_value_type("time").unwrap(), ValueType::TimeDuration);
    assert_eq!(decode_value_type("boolean").unwrap(), ValueType::Boolean);
    assert_eq!(decode_value_type("currency").unwrap(), ValueType::Currency);
    assert!(matches!(decode_value_type("half-float"), Err(OdsError::Ods(_))));
}

#[test]
fn currency_without_code_is_a_format_error() {
    let r = parse_value(
        Some(ValueType::Currency),
        Some("1234.5".to_string()),
        None,
        None,
    );
    assert!(matches!(r, Err(OdsError::Ods(_))));
}

#[test]
fn currency_with_code_parses() {
    let r = parse_value(
        Some(ValueType::Currency),
        Some("1234.5".to_string()),
        None,
        Some("EUR".to_string()),
    )
    .unwrap();
    match r {
        Some(Value::Currency(code, amount)) => {
            assert_eq!(code, "EUR");
            assert_eq!(amount.to_text(), "1234.5");
        },
        _ => panic!("expected a currency value"),
    }
}

#[test]
fn missing_value_type_is_a_format_error() {
    let r = parse_value(None, Some("1".to_string()), None, None);
    assert!(matches!(r, Err(OdsError::Ods(_))));
}

#[test]
fn typed_cell_without_value_is_a_format_error() {
    let r = parse_value(Some(ValueType::Number), None, None, None);
    assert!(matches!(r, Err(OdsError::Ods(_))));
}

#[test]
fn boolean_parses_the_true_token_only() {
    let t = parse_value(Some(ValueType::Boolean), Some("true".to_string()), None, None).unwrap();
    assert!(matches!(t, Some(Value::Boolean(true))));
    let f = parse_value(Some(ValueType::Boolean), Some("yes".to_string()), None, None).unwrap();
    assert!(matches!(f, Some(Value::Boolean(false))));
}

#[test]
fn malformed_number_is_a_numeric_error() {
    let r = parse_value(Some(ValueType::Number), Some("1,5".to_string()), None, None);
    assert!(matches!(r, Err(OdsError::ParseFloat(_))));
}

#[test]
fn workbook_validator_accepts_what_the_builders_make() {
    let mut book = WorkBook::new();
    let mut sheet = Sheet::new();
    sheet.set_name("ok".to_string());
    sheet.add_cell(
        2,
        1,
        SCell {
            value: Some(Value::Number(Decimal::parse("3.5").unwrap())),
            style: None,
            formula: None,
        },
    );
    sheet.add_cell(0, 0, SCell { value: None, style: Some("ce1".to_string()), formula: None });
    book.push_sheet(sheet);
    assert!(book.check_wf());
}

#[test]
fn workbook_validator_rejects_malformed_numbers() {
    // A digit vector with an entry past nine violates the number invariant.
    let bad = Decimal { neg: false, int_digits: vec![12u8], frac_digits: vec![] };
    assert!(!bad.check_wf());
    let mut book = WorkBook::new();
    let mut sheet = Sheet::new();
    sheet.add_cell(
        0,
        0,
        SCell { value: Some(Value::Number(bad)), style: None, formula: None },
    );
    book.push_sheet(sheet);
    assert!(!book.check_wf());
}

#[test]
fn exponent_literals_are_outside_the_wire_grammar() {
    assert!(matches!(Decimal::parse("1e5"), Err(OdsError::ParseFloat(_))));
    assert!(matches!(
        parse_value(Some(ValueType::Number), Some("1e5".to_string()), None, None),
        Err(OdsError::ParseFloat(_))
    ));
}
