//! The format renderer and the locale registry.

use spreadsheet_ods::datetime::DateTime;
use spreadsheet_ods::decimal::Decimal;
use spreadsheet_ods::duration::Duration;
use spreadsheet_ods::format::FormatPart;
use spreadsheet_ods::format::FormatType;
use spreadsheet_ods::locale::LocaleDeAt;
use spreadsheet_ods::locale::LocaleEnUs;
use spreadsheet_ods::locale::LocalizedValueFormat;

#[test]
fn locale_currency_renders_grouped_two_decimals_behind_the_symbol() {
    let fmt = LocaleDeAt {}.currency_format();
    let amount = Decimal::parse("1234.5").unwrap();
    assert_eq!(fmt.format_float(&amount), "€ 1,234.50");
    let fmt_us = LocaleEnUs {}.currency_format();
    assert_eq!(fmt_us.format_float(&amount), "$ 1,234.50");
}

#[test]
fn number_format_rounds_half_up() {
    let fmt = LocaleEnUs {}.number_format();
    assert_eq!(fmt.format_float(&Decimal::parse("1.005").unwrap()), "1.01");
    assert_eq!(fmt.format_float(&Decimal::parse("2.994").unwrap()), "2.99");
    assert_eq!(fmt.format_float(&Decimal::parse("9.999").unwrap()), "10.00");
    assert_eq!(fmt.format_float(&Decimal::parse("-1.005").unwrap()), "-1.01");
}

#[test]
fn percentage_format_scales_and_appends_the_sign() {
    let fmt = LocaleEnUs {}.percentage_format();
    let v = Decimal::parse("0.455").unwrap();
    let scaled = v.times100();
    let rendered = fmt.format_float(&scaled);
    assert_eq!(rendered, "45.50%");
}

#[test]
fn date_format_orders_fields_by_locale() {
    let dt = DateTime::new(2023, 5, 1, 0, 0, 0, 0).unwrap();
    assert_eq!(LocaleEnUs {}.date_format().format_datetime(&dt), "05/01/2023");
    assert_eq!(LocaleDeAt {}.date_format().format_datetime(&dt), "01.05.2023");
}

#[test]
fn time_of_day_wraps_and_shows_the_half_of_day() {
    let dt = DateTime::new(2023, 5, 1, 13, 5, 9, 0).unwrap();
    assert_eq!(LocaleEnUs {}.time_of_day_format().format_datetime(&dt), "01:05:09 PM");
}

#[test]
fn interval_format_accumulates_hours_past_a_day() {
    let fmt = LocaleEnUs {}.time_interval_format();
    let d = Duration { secs: 26 * 3600 + 5 * 60 + 9, nanos: 0 };
    assert_eq!(fmt.format_time_duration(&d), "26:05:09");
}

#[test]
fn boolean_format_uses_canonical_tokens() {
    let fmt = LocaleEnUs {}.boolean_format();
    assert_eq!(fmt.format_boolean(true), "true");
    assert_eq!(fmt.format_boolean(false), "false");
}

#[test]
fn literal_parts_concatenate_in_order() {
    let mut fmt = LocaleEnUs {}.number_format();
    fmt.push_part(FormatPart::new_text(" units".to_string()));
    assert_eq!(fmt.format_float(&Decimal::parse("3.5").unwrap()), "3.50 units");
}

#[test]
fn text_format_passes_content_through() {
    let mut fmt = LocaleEnUs {}.boolean_format();
    fmt.push_part(FormatPart::new(FormatType::TextContent));
    assert_eq!(fmt.format_str("hello"), "hello");
}

#[test]
fn min_places_trims_trailing_zeros() {
    let mut fmt = spreadsheet_ods::format::ValueFormat::new_origin(
        spreadsheet_ods::style::Origin::Styles,
    );
    fmt.push_part(FormatPart::new_number(4, 1, false));
    assert_eq!(fmt.format_float(&Decimal::parse("2.5000").unwrap()), "2.5");
    assert_eq!(fmt.format_float(&Decimal::parse("2.0306").unwrap()), "2.0306");
}
