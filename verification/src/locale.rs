//! The locale format registry.
//!
//! Each supported locale supplies one default format per value kind, built
//! from format parts with the locale's literals: date separators, the
//! currency symbol and its position, and decimal-place counts.  Locales are
//! self-contained; nothing is inherited between them.

use vstd::prelude::*;

use crate::format::is_currency_part;
use crate::format::is_field_part;
use crate::format::is_number_part;
use crate::format::is_text_part;
use crate::format::FormatPart;
use crate::format::FormatType;
use crate::format::ValueFormat;
use crate::value::ValueType;

verus! {

/// The shape both locales give a date-like format: five parts alternating
/// zero-padded calendar fields with a literal separator.
pub open spec fn date_parts_shape(
    parts: Seq<crate::format::FormatPartModel>,
    first: FormatType,
    second: FormatType,
    sep: Seq<char>,
) -> bool {
    &&& parts.len() == 5
    &&& is_field_part(parts[0], first, true)
    &&& is_text_part(parts[1], sep)
    &&& is_field_part(parts[2], second, true)
    &&& is_text_part(parts[3], sep)
    &&& is_field_part(parts[4], FormatType::Year, true)
}

/// The shape of a clock rendering: zero-padded hours, minutes and seconds
/// behind colons, starting at index `at`.
pub open spec fn clock_parts_shape(parts: Seq<crate::format::FormatPartModel>, at: int) -> bool {
    &&& is_field_part(parts[at], FormatType::Hours, true)
    &&& is_text_part(parts[at + 1], ":"@)
    &&& is_field_part(parts[at + 2], FormatType::Minutes, true)
    &&& is_text_part(parts[at + 3], ":"@)
    &&& is_field_part(parts[at + 4], FormatType::Seconds, true)
}

/// The fixed seven-format contract a locale implements.
pub trait LocalizedValueFormat {
    /// The locale's tag.
    fn locale(&self) -> (r: String);

    /// The default truth-value format: the canonical token alone.
    fn boolean_format(&self) -> (r: ValueFormat)
        ensures
            r.wf(),
            r.v_type == ValueType::Boolean,
            r.parts_view().len() == 1,
            r.parts_view()[0].ftype == FormatType::Boolean,
    ;

    /// The default number format: two decimals, ungrouped.
    fn number_format(&self) -> (r: ValueFormat)
        ensures
            r.wf(),
            r.v_type == ValueType::Number,
            r.parts_view().len() == 1,
            is_number_part(r.parts_view()[0], 2, 2, false),
    ;

    /// The default percentage format: two decimals and the percent sign.
    fn percentage_format(&self) -> (r: ValueFormat)
        ensures
            r.wf(),
            r.v_type == ValueType::Percentage,
            r.parts_view().len() == 2,
            is_number_part(r.parts_view()[0], 2, 2, false),
            is_text_part(r.parts_view()[1], "%"@),
    ;

    /// The default currency format: the locale's symbol, a space, and a
    /// grouped two-decimal amount.
    fn currency_format(&self) -> (r: ValueFormat)
        ensures
            r.wf(),
            r.v_type == ValueType::Currency,
            r.parts_view().len() == 3,
            r.parts_view()[0].ftype == FormatType::CurrencySymbol,
            r.parts_view()[0].content is Some,
            is_text_part(r.parts_view()[1], " "@),
            is_number_part(r.parts_view()[2], 2, 2, true),
    ;

    /// The default date format: day, month and year in the locale's order
    /// with its separator.
    fn date_format(&self) -> (r: ValueFormat)
        ensures
            r.wf(),
            r.v_type == ValueType::DateTime,
            r.parts_view().len() == 5,
    ;

    /// The default timestamp format: the date, a space, and the clock.
    fn datetime_format(&self) -> (r: ValueFormat)
        ensures
            r.wf(),
            r.v_type == ValueType::DateTime,
            r.parts_view().len() == 11,
            is_text_part(r.parts_view()[5], " "@),
            clock_parts_shape(r.parts_view(), 6),
    ;

    /// The default time-of-day format.
    fn time_of_day_format(&self) -> (r: ValueFormat)
        ensures
            r.wf(),
            clock_parts_shape(r.parts_view(), 0),
    ;

    /// The default duration format: the clock shape, with hours
    /// accumulating past a day instead of wrapping.
    fn time_interval_format(&self) -> (r: ValueFormat)
        ensures
            r.wf(),
            r.v_type == ValueType::TimeDuration,
            r.truncate_on_overflow == false,
            r.parts_view().len() == 5,
            clock_parts_shape(r.parts_view(), 0),
    ;
}

/// The United States English locale.
pub struct LocaleEnUs {}

/// The Austrian German locale.
pub struct LocaleDeAt {}

impl LocalizedValueFormat for LocaleEnUs {
    fn locale(&self) -> (r: String) {
        "en_US".to_owned()
    }

    fn boolean_format(&self) -> (r: ValueFormat) {
        let mut v = ValueFormat::new_localized(
            "default-boolean".to_owned(),
            "en_US".to_owned(),
            ValueType::Boolean,
        );
        v.push_part(FormatPart::new(FormatType::Boolean));
        v
    }

    fn number_format(&self) -> (r: ValueFormat) {
        let mut v = ValueFormat::new_localized(
            "default-number".to_owned(),
            "en_US".to_owned(),
            ValueType::Number,
        );
        v.push_part(FormatPart::new_number(2, 2, false));
        v
    }

    fn percentage_format(&self) -> (r: ValueFormat) {
        let mut v = ValueFormat::new_localized(
            "default-percent".to_owned(),
            "en_US".to_owned(),
            ValueType::Percentage,
        );
        v.push_part(FormatPart::new_number(2, 2, false));
        v.push_part(FormatPart::new_text("%".to_owned()));
        v
    }

    fn currency_format(&self) -> (r: ValueFormat) {
        let mut v = ValueFormat::new_localized(
            "default-currency".to_owned(),
            "en_US".to_owned(),
            ValueType::Currency,
        );
        v.push_part(FormatPart::new_currency_symbol("$".to_owned()));
        v.push_part(FormatPart::new_text(" ".to_owned()));
        v.push_part(FormatPart::new_number(2, 2, true));
        v
    }

    fn date_format(&self) -> (r: ValueFormat)
        ensures
            date_parts_shape(r.parts_view(), FormatType::Month, FormatType::Day, "/"@),
    {
        let mut v = ValueFormat::new_localized(
            "default-date".to_owned(),
            "en_US".to_owned(),
            ValueType::DateTime,
        );
        v.push_part(FormatPart::new_field(FormatType::Month, true));
        v.push_part(FormatPart::new_text("/".to_owned()));
        v.push_part(FormatPart::new_field(FormatType::Day, true));
        v.push_part(FormatPart::new_text("/".to_owned()));
        v.push_part(FormatPart::new_field(FormatType::Year, true));
        v
    }

    fn datetime_format(&self) -> (r: ValueFormat)
        ensures
            date_parts_shape(
                r.parts_view().take(5),
                FormatType::Month,
                FormatType::Day,
                "/"@,
            ),
    {
        let mut v = ValueFormat::new_localized(
            "default-datetime".to_owned(),
            "en_US".to_owned(),
            ValueType::DateTime,
        );
        v.push_part(FormatPart::new_field(FormatType::Month, true));
        v.push_part(FormatPart::new_text("/".to_owned()));
        v.push_part(FormatPart::new_field(FormatType::Day, true));
        v.push_part(FormatPart::new_text("/".to_owned()));
        v.push_part(FormatPart::new_field(FormatType::Year, true));
        v.push_part(FormatPart::new_text(" ".to_owned()));
        v.push_part(FormatPart::new_field(FormatType::Hours, true));
        v.push_part(FormatPart::new_text(":".to_owned()));
        v.push_part(FormatPart::new_field(FormatType::Minutes, true));
        v.push_part(FormatPart::new_text(":".to_owned()));
        v.push_part(FormatPart::new_field(FormatType::Seconds, true));
        v
    }

    fn time_of_day_format(&self) -> (r: ValueFormat)
        ensures
            r.v_type == ValueType::DateTime,
            r.parts_view().len() == 7,
            is_text_part(r.parts_view()[5], " "@),
            r.parts_view()[6].ftype == FormatType::AmPm,
    {
        let mut v = ValueFormat::new_localized(
            "default-time-of-day".to_owned(),
            "en_US".to_owned(),
            ValueType::DateTime,
        );
        v.push_part(FormatPart::new_field(FormatType::Hours, true));
        v.push_part(FormatPart::new_text(":".to_owned()));
        v.push_part(FormatPart::new_field(FormatType::Minutes, true));
        v.push_part(FormatPart::new_text(":".to_owned()));
        v.push_part(FormatPart::new_field(FormatType::Seconds, true));
        v.push_part(FormatPart::new_text(" ".to_owned()));
        v.push_part(FormatPart::new(FormatType::AmPm));
        v
    }

    fn time_interval_format(&self) -> (r: ValueFormat) {
        let mut v = ValueFormat::new_localized(
            "default-time-interval".to_owned(),
            "en_US".to_owned(),
            ValueType::TimeDuration,
        );
        v.set_truncate_on_overflow(false);
        v.push_part(FormatPart::new_field(FormatType::Hours, true));
        v.push_part(FormatPart::new_text(":".to_owned()));
        v.push_part(FormatPart::new_field(FormatType::Minutes, true));
        v.push_part(FormatPart::new_text(":".to_owned()));
        v.push_part(FormatPart::new_field(FormatType::Seconds, true));
        v
    }
}

impl LocalizedValueFormat for LocaleDeAt {
    fn locale(&self) -> (r: String) {
        "de_AT".to_owned()
    }

    fn boolean_format(&self) -> (r: ValueFormat) {
        let mut v = ValueFormat::new_localized(
            "default-boolean".to_owned(),
            "de_AT".to_owned(),
            ValueType::Boolean,
        );
        v.push_part(FormatPart::new(FormatType::Boolean));
        v
    }

    fn number_format(&self) -> (r: ValueFormat) {
        let mut v = ValueFormat::new_localized(
            "default-number".to_owned(),
            "de_AT".to_owned(),
            ValueType::Number,
        );
        v.push_part(FormatPart::new_number(2, 2, false));
        v
    }

    fn percentage_format(&self) -> (r: ValueFormat) {
        let mut v = ValueFormat::new_localized(
            "default-percent".to_owned(),
            "de_AT".to_owned(),
            ValueType::Percentage,
        );
        v.push_part(FormatPart::new_number(2, 2, false));
        v.push_part(FormatPart::new_text("%".to_owned()));
        v
    }

    fn currency_format(&self) -> (r: ValueFormat)
        ensures
            is_currency_part(r.parts_view()[0], "€"@),
    {
        let mut v = ValueFormat::new_localized(
            "default-currency".to_owned(),
            "de_AT".to_owned(),
            ValueType::Currency,
        );
        v.push_part(FormatPart::new_currency_symbol("€".to_owned()));
        v.push_part(FormatPart::new_text(" ".to_owned()));
        v.push_part(FormatPart::new_number(2, 2, true));
        v
    }

    fn date_format(&self) -> (r: ValueFormat)
        ensures
            date_parts_shape(r.parts_view(), FormatType::Day, FormatType::Month, "."@),
    {
        let mut v = ValueFormat::new_localized(
            "default-date".to_owned(),
            "de_AT".to_owned(),
            ValueType::DateTime,
        );
        v.push_part(FormatPart::new_field(FormatType::Day, true));
        v.push_part(FormatPart::new_text(".".to_owned()));
        v.push_part(FormatPart::new_field(FormatType::Month, true));
        v.push_part(FormatPart::new_text(".".to_owned()));
        v.push_part(FormatPart::new_field(FormatType::Year, true));
        v
    }

    fn datetime_format(&self) -> (r: ValueFormat)
        ensures
            date_parts_shape(
                r.parts_view().take(5),
                FormatType::Day,
                FormatType::Month,
                "."@,
            ),
    {
        let mut v = ValueFormat::new_localized(
            "default-datetime".to_owned(),
            "de_AT".to_owned(),
            ValueType::DateTime,
        );
        v.push_part(FormatPart::new_field(FormatType::Day, true));
        v.push_part(FormatPart::new_text(".".to_owned()));
        v.push_part(FormatPart::new_field(FormatType::Month, true));
        v.push_part(FormatPart::new_text(".".to_owned()));
        v.push_part(FormatPart::new_field(FormatType::Year, true));
        v.push_part(FormatPart::new_text(" ".to_owned()));
        v.push_part(FormatPart::new_field(FormatType::Hours, true));
        v.push_part(FormatPart::new_text(":".to_owned()));
        v.push_part(FormatPart::new_field(FormatType::Minutes, true));
        v.push_part(FormatPart::new_text(":".to_owned()));
        v.push_part(FormatPart::new_field(FormatType::Seconds, true));
        v
    }

    fn time_of_day_format(&self) -> (r: ValueFormat)
        ensures
            r.v_type == ValueType::DateTime,
            r.parts_view().len() == 5,
    {
        let mut v = ValueFormat::new_localized(
            "default-time-of-day".to_owned(),
            "de_AT".to_owned(),
            ValueType::DateTime,
        );
        v.push_part(FormatPart::new_field(FormatType::Hours, true));
        v.push_part(FormatPart::new_text(":".to_owned()));
        v.push_part(FormatPart::new_field(FormatType::Minutes, true));
        v.push_part(FormatPart::new_text(":".to_owned()));
        v.push_part(FormatPart::new_field(FormatType::Seconds, true));
        v
    }

    fn time_interval_format(&self) -> (r: ValueFormat) {
        let mut v = ValueFormat::new_localized(
            "default-time-interval".to_owned(),
            "de_AT".to_owned(),
            ValueType::TimeDuration,
        );
        v.set_truncate_on_overflow(false);
        v.push_part(FormatPart::new_field(FormatType::Hours, true));
        v.push_part(FormatPart::new_text(":".to_owned()));
        v.push_part(FormatPart::new_field(FormatType::Minutes, true));
        v.push_part(FormatPart::new_text(":".to_owned()));
        v.push_part(FormatPart::new_field(FormatType::Seconds, true));
        v
    }
}

} // verus!
