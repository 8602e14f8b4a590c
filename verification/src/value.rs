//! The typed cell value model.
//!
//! A cell holds one of seven kinds of value, each with its own wire
//! encoding: an attribute marker names the kind, and a typed attribute (or
//! the element text, for plain text) carries the value itself.

use vstd::prelude::*;

use crate::datetime::date_d;
use crate::datetime::date_in_range;
use crate::datetime::date_m;
use crate::datetime::date_shape;
use crate::datetime::date_y;
use crate::datetime::datetime_chars;
use crate::datetime::datetime_shape;
use crate::datetime::dt_hour;
use crate::datetime::dt_in_range;
use crate::datetime::dt_minute;
use crate::datetime::dt_nanos;
use crate::datetime::dt_second;
use crate::datetime::parse_date;
use crate::datetime::parse_datetime;
use crate::datetime::DateTime;
use crate::decimal::digits_of_chars;
use crate::decimal::spec_frac_part;
use crate::decimal::spec_int_part;
use crate::decimal::spec_negative;
use crate::decimal::spec_zero_literal;
use crate::decimal::valid_dec;
use crate::decimal::DecModel;
use crate::decimal::Decimal;
use crate::digits::str_eq;
use crate::digits::strip_zeros;
use crate::duration::dur_chars;
use crate::duration::dur_fits;
use crate::duration::dur_scan;
use crate::duration::dur_total_nanos;
use crate::duration::dur_total_secs;
use crate::duration::parse_duration;
use crate::duration::Duration;
use crate::error::OdsError;

verus! {

/// The seven kinds of cell value the format distinguishes.
#[derive(Debug, Clone, Copy, PartialEq, Eq, Structural)]
pub enum ValueType {
    /// Plain text, carried in the element content.
    Text,
    /// A number, written as a decimal literal.
    Number,
    /// A fraction displayed scaled by one hundred.
    Percentage,
    /// An amount of money with its currency code.
    Currency,
    /// A truth value.
    Boolean,
    /// A calendar timestamp.
    DateTime,
    /// A time duration.
    TimeDuration,
}

/// The mathematical content of a [`Value`].
pub ghost enum ValModel {
    /// Plain text.
    Text(Seq<char>),
    /// A number.
    Number(DecModel),
    /// A fraction displayed scaled by one hundred.
    Percentage(DecModel),
    /// A currency code and an amount.
    Currency(Seq<char>, DecModel),
    /// A truth value.
    Boolean(bool),
    /// A calendar timestamp.
    DateTime(DateTime),
    /// A time duration.
    TimeDuration(Duration),
}

/// A typed cell value.
#[derive(Debug)]
pub enum Value {
    /// Plain text.
    Text(String),
    /// A number.
    Number(Decimal),
    /// A fraction displayed scaled by one hundred.
    Percentage(Decimal),
    /// A currency code and an amount.
    Currency(String, Decimal),
    /// A truth value.
    Boolean(bool),
    /// A calendar timestamp.
    DateTime(DateTime),
    /// A time duration.
    TimeDuration(Duration),
}

impl View for Value {
    type V = ValModel;

    open spec fn view(&self) -> ValModel {
        match self {
            Value::Text(s) => ValModel::Text(s@),
            Value::Number(d) => ValModel::Number(d@),
            Value::Percentage(d) => ValModel::Percentage(d@),
            Value::Currency(c, d) => ValModel::Currency(c@, d@),
            Value::Boolean(b) => ValModel::Boolean(*b),
            Value::DateTime(dt) => ValModel::DateTime(*dt),
            Value::TimeDuration(du) => ValModel::TimeDuration(*du),
        }
    }
}

impl Value {
    /// Well-formedness: each carried value within its own invariant.
    pub open spec fn wf(&self) -> bool {
        match self {
            Value::Text(_) => true,
            Value::Number(d) => d.wf(),
            Value::Percentage(d) => d.wf(),
            Value::Currency(_, d) => d.wf(),
            Value::Boolean(_) => true,
            Value::DateTime(dt) => dt.wf(),
            Value::TimeDuration(du) => du.wf(),
        }
    }

    /// The kind of this value.
    pub open spec fn value_type_spec(&self) -> ValueType {
        match self {
            Value::Text(_) => ValueType::Text,
            Value::Number(_) => ValueType::Number,
            Value::Percentage(_) => ValueType::Percentage,
            Value::Currency(_, _) => ValueType::Currency,
            Value::Boolean(_) => ValueType::Boolean,
            Value::DateTime(_) => ValueType::DateTime,
            Value::TimeDuration(_) => ValueType::TimeDuration,
        }
    }

    /// Decides well-formedness at run time, for callers that assemble
    /// values by hand.
    pub fn check_wf(&self) -> (r: bool)
        ensures
            r == self.wf(),
    {
        match self {
            Value::Text(_) => true,
            Value::Number(d) => d.check_wf(),
            Value::Percentage(d) => d.check_wf(),
            Value::Currency(_, d) => d.check_wf(),
            Value::Boolean(_) => true,
            Value::DateTime(dt) => dt.check_wf(),
            Value::TimeDuration(du) => du.check_wf(),
        }
    }

    /// Classifies the value.
    pub fn value_type(&self) -> (r: ValueType)
        ensures
            r == self.value_type_spec(),
    {
        match self {
            Value::Text(_) => ValueType::Text,
            Value::Number(_) => ValueType::Number,
            Value::Percentage(_) => ValueType::Percentage,
            Value::Currency(_, _) => ValueType::Currency,
            Value::Boolean(_) => ValueType::Boolean,
            Value::DateTime(_) => ValueType::DateTime,
            Value::TimeDuration(_) => ValueType::TimeDuration,
        }
    }
}

/// The wire marker of each value kind.
pub open spec fn wire_type_chars(vt: ValueType) -> Seq<char> {
    match vt {
        ValueType::Text => "string"@,
        ValueType::Number => "float"@,
        ValueType::Percentage => "percentage"@,
        ValueType::DateTime => "date"@,
        ValueType::TimeDuration => "time"@,
        ValueType::Boolean => "boolean"@,
        ValueType::Currency => "currency"@,
    }
}

/// The value kind a wire marker names, if it names one.
pub open spec fn decode_type_spec(s: Seq<char>) -> Option<ValueType> {
    if s == "string"@ {
        Some(ValueType::Text)
    } else if s == "float"@ {
        Some(ValueType::Number)
    } else if s == "percentage"@ {
        Some(ValueType::Percentage)
    } else if s == "date"@ {
        Some(ValueType::DateTime)
    } else if s == "time"@ {
        Some(ValueType::TimeDuration)
    } else if s == "boolean"@ {
        Some(ValueType::Boolean)
    } else if s == "currency"@ {
        Some(ValueType::Currency)
    } else {
        None
    }
}

/// Reads a wire marker back into a value kind; an unknown marker is a
/// format error.
pub fn decode_value_type(s: &str) -> (r: Result<ValueType, OdsError>)
    ensures
        r is Ok <==> decode_type_spec(s@) is Some,
        r is Ok ==> Some(r->Ok_0) == decode_type_spec(s@),
        r is Err ==> (r matches Err(OdsError::Ods(_))),
{
    if str_eq(s, "string") {
        proof {
            assert(wire_type_chars(ValueType::Text) == s@);
        }
        Ok(ValueType::Text)
    } else if str_eq(s, "float") {
        proof {
            assert(wire_type_chars(ValueType::Number) == s@);
        }
        Ok(ValueType::Number)
    } else if str_eq(s, "percentage") {
        proof {
            assert(wire_type_chars(ValueType::Percentage) == s@);
        }
        Ok(ValueType::Percentage)
    } else if str_eq(s, "date") {
        proof {
            assert(wire_type_chars(ValueType::DateTime) == s@);
        }
        Ok(ValueType::DateTime)
    } else if str_eq(s, "time") {
        proof {
            assert(wire_type_chars(ValueType::TimeDuration) == s@);
        }
        Ok(ValueType::TimeDuration)
    } else if str_eq(s, "boolean") {
        proof {
            assert(wire_type_chars(ValueType::Boolean) == s@);
        }
        Ok(ValueType::Boolean)
    } else if str_eq(s, "currency") {
        proof {
            assert(wire_type_chars(ValueType::Currency) == s@);
        }
        Ok(ValueType::Currency)
    } else {
        Err(OdsError::Ods("unknown cell value-type marker".to_owned()))
    }
}

/// The view of an optional string.
pub open spec fn opt_chars(o: Option<String>) -> Option<Seq<char>> {
    match o {
        Some(s) => Some(s@),
        None => None,
    }
}

/// The decimal a valid literal parses to.
pub open spec fn dec_of(s: Seq<char>) -> DecModel {
    DecModel {
        neg: spec_negative(s) && !spec_zero_literal(s),
        int_digits: digits_of_chars(strip_zeros(spec_int_part(s))),
        frac_digits: digits_of_chars(spec_frac_part(s)),
    }
}

/// The timestamp a valid date or timestamp literal parses to, by the
/// ten-character length dispatch.
pub open spec fn dt_of(s: Seq<char>) -> DateTime {
    if s.len() == 10 {
        DateTime {
            year: date_y(s) as u16,
            month: date_m(s) as u8,
            day: date_d(s) as u8,
            hour: 0,
            minute: 0,
            second: 0,
            nanos: 0,
        }
    } else {
        DateTime {
            year: date_y(s.subrange(0, 10)) as u16,
            month: date_m(s.subrange(0, 10)) as u8,
            day: date_d(s.subrange(0, 10)) as u8,
            hour: dt_hour(s) as u8,
            minute: dt_minute(s) as u8,
            second: dt_second(s) as u8,
            nanos: dt_nanos(s) as u32,
        }
    }
}

/// The duration a scannable literal parses to.
pub open spec fn dur_of(s: Seq<char>) -> Duration {
    Duration {
        secs: dur_total_secs(dur_scan(s)) as u64,
        nanos: dur_total_nanos(dur_scan(s)) as u32,
    }
}

/// Whether a timestamp literal is acceptable under the length dispatch.
pub open spec fn dt_accepts(s: Seq<char>) -> bool {
    if s.len() == 10 {
        date_shape(s) && date_in_range(s)
    } else {
        datetime_shape(s) && dt_in_range(s)
    }
}

/// On which inputs the value parse succeeds.
pub open spec fn parse_value_accepts(
    vt: Option<ValueType>,
    v: Option<Seq<char>>,
    cur: Option<Seq<char>>,
) -> bool {
    match vt {
        None => false,
        Some(ValueType::Text) => true,
        Some(ValueType::Number) => v is Some && valid_dec(v->0),
        Some(ValueType::Percentage) => v is Some && valid_dec(v->0),
        Some(ValueType::Currency) => v is Some && valid_dec(v->0) && cur is Some,
        Some(ValueType::Boolean) => v is Some,
        Some(ValueType::DateTime) => v is Some && dt_accepts(v->0),
        Some(ValueType::TimeDuration) => v is Some && dur_fits(v->0),
    }
}

/// What the value parse returns when it succeeds.
pub open spec fn parse_value_model(
    vt: Option<ValueType>,
    v: Option<Seq<char>>,
    content: Option<Seq<char>>,
    cur: Option<Seq<char>>,
) -> Option<ValModel> {
    match vt {
        None => None,
        Some(ValueType::Text) => match content {
            Some(t) => Some(ValModel::Text(t)),
            None => None,
        },
        Some(ValueType::Number) => Some(ValModel::Number(dec_of(v->0))),
        Some(ValueType::Percentage) => Some(ValModel::Percentage(dec_of(v->0))),
        Some(ValueType::Currency) => Some(ValModel::Currency(cur->0, dec_of(v->0))),
        Some(ValueType::Boolean) => Some(ValModel::Boolean(v->0 == "true"@)),
        Some(ValueType::DateTime) => Some(ValModel::DateTime(dt_of(v->0))),
        Some(ValueType::TimeDuration) => Some(ValModel::TimeDuration(dur_of(v->0))),
    }
}

/// The view of the parse result.
pub open spec fn opt_value_view(o: Option<Value>) -> Option<ValModel> {
    match o {
        Some(v) => Some(v@),
        None => None,
    }
}

/// The kind of a value model.
pub open spec fn model_type(v: ValModel) -> ValueType {
    match v {
        ValModel::Text(_) => ValueType::Text,
        ValModel::Number(_) => ValueType::Number,
        ValModel::Percentage(_) => ValueType::Percentage,
        ValModel::Currency(_, _) => ValueType::Currency,
        ValModel::Boolean(_) => ValueType::Boolean,
        ValModel::DateTime(_) => ValueType::DateTime,
        ValModel::TimeDuration(_) => ValueType::TimeDuration,
    }
}

/// Well-formedness of a value model.
pub open spec fn val_model_wf(v: ValModel) -> bool {
    match v {
        ValModel::Text(_) => true,
        ValModel::Number(d) => crate::decimal::dec_wf(d),
        ValModel::Percentage(d) => crate::decimal::dec_wf(d),
        ValModel::Currency(_, d) => crate::decimal::dec_wf(d),
        ValModel::Boolean(_) => true,
        ValModel::DateTime(dt) => dt.wf(),
        ValModel::TimeDuration(du) => du.wf(),
    }
}

/// The typed wire attribute a value writes; text writes none and travels in
/// the element content instead.
pub open spec fn wire_value_attr(v: ValModel) -> Option<Seq<char>> {
    match v {
        ValModel::Text(_) => None,
        ValModel::Number(d) => Some(crate::decimal::dec_chars_m(d)),
        ValModel::Percentage(d) => Some(crate::decimal::dec_chars_m(d)),
        ValModel::Currency(_, d) => Some(crate::decimal::dec_chars_m(d)),
        ValModel::Boolean(b) => Some(
            if b {
                "true"@
            } else {
                "false"@
            },
        ),
        ValModel::DateTime(dt) => Some(datetime_chars(dt)),
        ValModel::TimeDuration(du) => Some(dur_chars(du)),
    }
}

/// The currency-code attribute a value writes.
pub open spec fn wire_currency_attr(v: ValModel) -> Option<Seq<char>> {
    match v {
        ValModel::Currency(c, _) => Some(c),
        _ => None,
    }
}

/// The element content the value reader recovers a text value from.
pub open spec fn wire_text_content(v: ValModel) -> Option<Seq<char>> {
    match v {
        ValModel::Text(s) => Some(s),
        _ => None,
    }
}

/// Whether the value is small enough to travel the wire and back; only a
/// duration beyond some 4.9 billion hours is not.
pub open spec fn value_encodable(v: ValModel) -> bool {
    match v {
        ValModel::TimeDuration(du) => du.encodable(),
        _ => true,
    }
}

/// Round trip of the value codec: reading back the marker and attributes
/// that a well-formed value writes yields that value again.
pub proof fn lemma_value_roundtrip(v: ValModel)
    requires
        val_model_wf(v),
        value_encodable(v),
    ensures
        parse_value_accepts(Some(model_type(v)), wire_value_attr(v), wire_currency_attr(v)),
        parse_value_model(
            Some(model_type(v)),
            wire_value_attr(v),
            wire_text_content(v),
            wire_currency_attr(v),
        ) == Some(v),
{
    match v {
        ValModel::Text(_) => {
        },
        ValModel::Number(d) => {
            crate::decimal::lemma_dec_roundtrip(d);
        },
        ValModel::Percentage(d) => {
            crate::decimal::lemma_dec_roundtrip(d);
        },
        ValModel::Currency(_, d) => {
            crate::decimal::lemma_dec_roundtrip(d);
        },
        ValModel::Boolean(b) => {
            reveal_strlit("true");
            reveal_strlit("false");
            assert("true"@.len() == 4 && "false"@.len() == 5);
        },
        ValModel::DateTime(dt) => {
            crate::datetime::lemma_datetime_roundtrip(dt);
            let cs = datetime_chars(dt);
            assert(dt_of(cs).year == dt.year && dt_of(cs).month == dt.month && dt_of(cs).day
                == dt.day);
            assert(dt_of(cs).hour == dt.hour && dt_of(cs).minute == dt.minute && dt_of(cs).second
                == dt.second && dt_of(cs).nanos == dt.nanos);
        },
        ValModel::TimeDuration(du) => {
            crate::duration::lemma_dur_roundtrip(du);
        },
    }
}

/// Resolves the accumulated wire tuple of a cell into a typed value.
///
/// A declared type whose required attribute is missing is a format error;
/// a declared currency without its code is a format error, never a silently
/// defaulted currency.  A missing type marker is a format error too.
pub fn parse_value(
    value_type: Option<ValueType>,
    cell_value: Option<String>,
    cell_content: Option<String>,
    cell_currency: Option<String>,
) -> (r: Result<Option<Value>, OdsError>)
    ensures
        r is Ok <==> parse_value_accepts(value_type, opt_chars(cell_value), opt_chars(cell_currency)),
        r is Ok ==> opt_value_view(r->Ok_0) == parse_value_model(
            value_type,
            opt_chars(cell_value),
            opt_chars(cell_content),
            opt_chars(cell_currency),
        ),
        r is Ok ==> match r->Ok_0 {
            Some(v) => v.wf(),
            None => true,
        },
        value_type is None ==> (r matches Err(OdsError::Ods(_))),
        (value_type matches Some(vt) && !(vt == ValueType::Text) && cell_value is None) ==> (
        r matches Err(OdsError::Ods(_))),
        (value_type == Some(ValueType::Currency) && cell_value is Some && valid_dec(
            cell_value->0@,
        ) && cell_currency is None) ==> (r matches Err(OdsError::Ods(_))),
        ((value_type == Some(ValueType::Number) || value_type == Some(ValueType::Percentage)
            || value_type == Some(ValueType::Currency)) && (cell_value matches Some(v)
            && !valid_dec(v@))) ==> (r matches Err(OdsError::ParseFloat(_))),
{
    let vt = match value_type {
        Some(vt) => vt,
        None => {
            return Err(OdsError::Ods("cell without a value-type".to_owned()));
        },
    };
    match vt {
        ValueType::Text => match cell_content {
            Some(t) => Ok(Some(Value::Text(t))),
            None => Ok(None),
        },
        ValueType::Number => match cell_value {
            Some(v) => match Decimal::parse(v.as_str()) {
                Ok(d) => Ok(Some(Value::Number(d))),
                Err(e) => Err(e),
            },
            None => Err(OdsError::Ods("cell of type number without a value".to_owned())),
        },
        ValueType::Percentage => match cell_value {
            Some(v) => match Decimal::parse(v.as_str()) {
                Ok(d) => Ok(Some(Value::Percentage(d))),
                Err(e) => Err(e),
            },
            None => Err(OdsError::Ods("cell of type percentage without a value".to_owned())),
        },
        ValueType::Currency => match cell_value {
            Some(v) => {
                let d = match Decimal::parse(v.as_str()) {
                    Ok(d) => d,
                    Err(e) => {
                        return Err(e);
                    },
                };
                match cell_currency {
                    Some(c) => Ok(Some(Value::Currency(c, d))),
                    None => Err(
                        OdsError::Ods("cell of type currency without a currency code".to_owned()),
                    ),
                }
            },
            None => Err(OdsError::Ods("cell of type currency without a value".to_owned())),
        },
        ValueType::Boolean => match cell_value {
            Some(v) => Ok(Some(Value::Boolean(str_eq(v.as_str(), "true")))),
            None => Err(OdsError::Ods("cell of type boolean without a value".to_owned())),
        },
        ValueType::DateTime => match cell_value {
            Some(v) => {
                let dt = if v.as_str().unicode_len() == 10 {
                    parse_date(v.as_str())?
                } else {
                    parse_datetime(v.as_str())?
                };
                Ok(Some(Value::DateTime(dt)))
            },
            None => Err(OdsError::Ods("cell of type date without a value".to_owned())),
        },
        ValueType::TimeDuration => match cell_value {
            Some(v) => {
                let du = parse_duration(v.as_str())?;
                Ok(Some(Value::TimeDuration(du)))
            },
            None => Err(OdsError::Ods("cell of type time without a value".to_owned())),
        },
    }
}

} // verus!
