//! Calendar timestamps.
//!
//! A date-typed cell stores either a bare date (`2023-05-01`) or a full
//! timestamp (`2023-05-01T13:45:00.5`).  The ten-character form means
//! midnight; anything longer must carry the time of day, with an optional
//! fraction of a second kept to nanosecond precision.

use vstd::prelude::*;

use crate::digits::all_digits;
use crate::digits::digits_val;
use crate::digits::lemma_digits_val_bound;
use crate::digits::lemma_pow10_add;
use crate::digits::lemma_pow10_mono;
use crate::digits::num_at;
use crate::digits::padded_chars;
use crate::digits::pow10;
use crate::digits::push_char;
use crate::digits::push_padded;
use crate::error::OdsError;

verus! {

/// Whether `y` is a Gregorian leap year.
pub open spec fn is_leap_year(y: nat) -> bool {
    y % 4 == 0 && (y % 100 != 0 || y % 400 == 0)
}

/// How many days month `m` of year `y` has.
pub open spec fn days_in_month(y: nat, m: nat) -> nat {
    if m == 2 {
        if is_leap_year(y) {
            29
        } else {
            28
        }
    } else if m == 4 || m == 6 || m == 9 || m == 11 {
        30
    } else {
        31
    }
}

/// A calendar timestamp with nanosecond precision.
#[derive(Debug, Clone, Copy, PartialEq, Eq, Structural)]
pub struct DateTime {
    /// The four-digit year.
    pub year: u16,
    /// The month, `1 ..= 12`.
    pub month: u8,
    /// The day of the month, starting at one.
    pub day: u8,
    /// The hour, `0 ..= 23`.
    pub hour: u8,
    /// The minute, `0 ..= 59`.
    pub minute: u8,
    /// The second, `0 ..= 59`.
    pub second: u8,
    /// The fraction of a second, in nanoseconds.
    pub nanos: u32,
}

impl DateTime {
    /// Well-formedness: every field within its calendar range.
    pub open spec fn wf(&self) -> bool {
        &&& self.year <= 9999
        &&& 1 <= self.month <= 12
        &&& 1 <= self.day <= days_in_month(self.year as nat, self.month as nat)
        &&& self.hour <= 23
        &&& self.minute <= 59
        &&& self.second <= 59
        &&& self.nanos < 1000000000
    }

    /// Builds a timestamp, checking every range.
    pub fn new(
        year: u16,
        month: u8,
        day: u8,
        hour: u8,
        minute: u8,
        second: u8,
        nanos: u32,
    ) -> (r: Option<DateTime>)
        ensures
            r is Some <==> (DateTime { year, month, day, hour, minute, second, nanos }).wf(),
            r is Some ==> r->0 == (DateTime { year, month, day, hour, minute, second, nanos }),
    {
        let dt = DateTime { year, month, day, hour, minute, second, nanos };
        if year <= 9999 && 1 <= month && month <= 12 && 1 <= day && day <= days_in_month_x(
            year,
            month,
        ) && hour <= 23 && minute <= 59 && second <= 59 && nanos < 1000000000 {
            Some(dt)
        } else {
            None
        }
    }
}

impl DateTime {
    /// Decides well-formedness at run time, for callers that assemble
    /// timestamps by hand.
    pub fn check_wf(&self) -> (r: bool)
        ensures
            r == self.wf(),
    {
        self.year <= 9999 && 1 <= self.month && self.month <= 12 && 1 <= self.day && self.day
            <= days_in_month_x(self.year, self.month) && self.hour <= 23 && self.minute <= 59
            && self.second <= 59 && self.nanos < 1000000000
    }
}

/// How many days month `m` of year `y` has, decided at run time.
pub fn days_in_month_x(y: u16, m: u8) -> (r: u8)
    ensures
        r as nat == days_in_month(y as nat, m as nat),
{
    if m == 2 {
        if y % 4 == 0 && (y % 100 != 0 || y % 400 == 0) {
            29
        } else {
            28
        }
    } else if m == 4 || m == 6 || m == 9 || m == 11 {
        30
    } else {
        31
    }
}

/// The shape of a ten-character date literal: `YYYY-MM-DD`.
pub open spec fn date_shape(s: Seq<char>) -> bool {
    &&& s.len() == 10
    &&& all_digits(s.subrange(0, 4))
    &&& s[4] == '-'
    &&& all_digits(s.subrange(5, 7))
    &&& s[7] == '-'
    &&& all_digits(s.subrange(8, 10))
}

/// The year a date literal writes.
pub open spec fn date_y(s: Seq<char>) -> nat {
    digits_val(s.subrange(0, 4))
}

/// The month a date literal writes.
pub open spec fn date_m(s: Seq<char>) -> nat {
    digits_val(s.subrange(5, 7))
}

/// The day a date literal writes.
pub open spec fn date_d(s: Seq<char>) -> nat {
    digits_val(s.subrange(8, 10))
}

/// Whether the written fields are a real calendar date.
pub open spec fn date_in_range(s: Seq<char>) -> bool {
    &&& 1 <= date_m(s) <= 12
    &&& 1 <= date_d(s) <= days_in_month(date_y(s), date_m(s))
}

/// Reads a ten-character date literal; the time is midnight.
pub fn parse_date(s: &str) -> (r: Result<DateTime, OdsError>)
    ensures
        r is Ok <==> date_shape(s@) && date_in_range(s@),
        r is Ok ==> (r->Ok_0).wf(),
        r is Ok ==> (r->Ok_0).year as nat == date_y(s@) && (r->Ok_0).month as nat == date_m(s@)
            && (r->Ok_0).day as nat == date_d(s@),
        r is Ok ==> (r->Ok_0).hour == 0 && (r->Ok_0).minute == 0 && (r->Ok_0).second == 0 && (
        r->Ok_0).nanos == 0,
{
    let len = s.unicode_len();
    if len != 10 {
        return Err(OdsError::Chrono("date literal is not ten characters".to_owned()));
    }
    if s.get_char(4) != '-' || s.get_char(7) != '-' {
        return Err(OdsError::Chrono("date literal lacks its dashes".to_owned()));
    }
    let y = num_at(s, 0, 4);
    let m = num_at(s, 5, 2);
    let d = num_at(s, 8, 2);
    match (y, m, d) {
        (Some(y), Some(m), Some(d)) => {
            proof {
                lemma_digits_val_bound(s@.subrange(0, 4));
                lemma_digits_val_bound(s@.subrange(5, 7));
                lemma_digits_val_bound(s@.subrange(8, 10));
                assert(pow10(4) == 10000 && pow10(2) == 100) by {
                    reveal_with_fuel(pow10, 5);
                }
            }
            let yy = y as u16;
            let mm = m as u8;
            let dd = d as u8;
            if 1 <= mm && mm <= 12 && 1 <= dd && dd <= days_in_month_x(yy, mm) {
                Ok(DateTime { year: yy, month: mm, day: dd, hour: 0, minute: 0, second: 0, nanos: 0 })
            } else {
                Err(OdsError::Chrono("date fields out of range".to_owned()))
            }
        },
        _ => Err(OdsError::Chrono("date literal holds a non-digit".to_owned())),
    }
}

/// The shape of a timestamp literal: a date, `T`, a clock time, and
/// optionally a point with one to nine fraction digits.
pub open spec fn datetime_shape(s: Seq<char>) -> bool {
    &&& s.len() >= 19
    &&& date_shape(s.subrange(0, 10))
    &&& s[10] == 'T'
    &&& all_digits(s.subrange(11, 13))
    &&& s[13] == ':'
    &&& all_digits(s.subrange(14, 16))
    &&& s[16] == ':'
    &&& all_digits(s.subrange(17, 19))
    &&& (s.len() == 19 || (s.len() >= 21 && s.len() <= 29 && s[19] == '.' && all_digits(
        s.skip(20),
    )))
}

/// The hour a timestamp literal writes.
pub open spec fn dt_hour(s: Seq<char>) -> nat {
    digits_val(s.subrange(11, 13))
}

/// The minute a timestamp literal writes.
pub open spec fn dt_minute(s: Seq<char>) -> nat {
    digits_val(s.subrange(14, 16))
}

/// The second a timestamp literal writes.
pub open spec fn dt_second(s: Seq<char>) -> nat {
    digits_val(s.subrange(17, 19))
}

/// The nanoseconds a timestamp literal writes: the fraction digits padded
/// on the right to nine places.
pub open spec fn dt_nanos(s: Seq<char>) -> nat {
    if s.len() == 19 {
        0
    } else {
        digits_val(s.skip(20)) * pow10((29 - s.len()) as nat)
    }
}

/// Whether the written fields are a real date and clock time.
pub open spec fn dt_in_range(s: Seq<char>) -> bool {
    &&& date_in_range(s.subrange(0, 10))
    &&& dt_hour(s) <= 23
    &&& dt_minute(s) <= 59
    &&& dt_second(s) <= 59
}

/// Ten to the `e`, for small `e`, decided at run time.
pub fn pow10_u32(e: u8) -> (r: u32)
    requires
        e <= 9,
    ensures
        r as nat == pow10(e as nat),
{
    proof {
        reveal_with_fuel(pow10, 10);
    }
    if e == 0 {
        1
    } else if e == 1 {
        10
    } else if e == 2 {
        100
    } else if e == 3 {
        1000
    } else if e == 4 {
        10000
    } else if e == 5 {
        100000
    } else if e == 6 {
        1000000
    } else if e == 7 {
        10000000
    } else if e == 8 {
        100000000
    } else {
        1000000000
    }
}

/// Reads a timestamp literal of nineteen or more characters.
pub fn parse_datetime(s: &str) -> (r: Result<DateTime, OdsError>)
    ensures
        r is Ok <==> datetime_shape(s@) && dt_in_range(s@),
        r is Ok ==> (r->Ok_0).wf(),
        r is Ok ==> {
            let dt = r->Ok_0;
            &&& dt.year as nat == date_y(s@.subrange(0, 10))
            &&& dt.month as nat == date_m(s@.subrange(0, 10))
            &&& dt.day as nat == date_d(s@.subrange(0, 10))
            &&& dt.hour as nat == dt_hour(s@)
            &&& dt.minute as nat == dt_minute(s@)
            &&& dt.second as nat == dt_second(s@)
            &&& dt.nanos as nat == dt_nanos(s@)
        },
{
    let len = s.unicode_len();
    if len < 19 {
        return Err(OdsError::Chrono("timestamp literal is too short".to_owned()));
    }
    if s.get_char(4) != '-' || s.get_char(7) != '-' || s.get_char(10) != 'T' || s.get_char(13)
        != ':' || s.get_char(16) != ':' {
        return Err(OdsError::Chrono("timestamp literal lacks its separators".to_owned()));
    }
    proof {
        assert(s@.subrange(0, 10).subrange(0, 4) =~= s@.subrange(0, 4));
        assert(s@.subrange(0, 10).subrange(5, 7) =~= s@.subrange(5, 7));
        assert(s@.subrange(0, 10).subrange(8, 10) =~= s@.subrange(8, 10));
    }
    let y = num_at(s, 0, 4);
    let m = num_at(s, 5, 2);
    let d = num_at(s, 8, 2);
    let h = num_at(s, 11, 2);
    let mi = num_at(s, 14, 2);
    let sec = num_at(s, 17, 2);
    let (y, m, d, h, mi, sec) = match (y, m, d, h, mi, sec) {
        (Some(a), Some(b), Some(c), Some(e), Some(f), Some(g)) => (a, b, c, e, f, g),
        _ => {
            return Err(OdsError::Chrono("timestamp literal holds a non-digit".to_owned()));
        },
    };
    proof {
        lemma_digits_val_bound(s@.subrange(0, 4));
        lemma_digits_val_bound(s@.subrange(5, 7));
        lemma_digits_val_bound(s@.subrange(8, 10));
        assert(pow10(4) == 10000 && pow10(2) == 100) by {
            reveal_with_fuel(pow10, 5);
        }
    }
    // The fraction of a second, if one is written.
    let mut nanos: u32 = 0;
    if len > 19 {
        if s.get_char(19) != '.' {
            return Err(OdsError::Chrono("timestamp fraction lacks its point".to_owned()));
        }
        if len < 21 || len > 29 {
            return Err(OdsError::Chrono("timestamp fraction has a bad width".to_owned()));
        }
        let width = (len - 20) as u8;
        let f = match num_at(s, 20, width) {
            Some(f) => f,
            None => {
                proof {
                    assert(s@.skip(20) =~= s@.subrange(20, len as int));
                }
                return Err(OdsError::Chrono("timestamp fraction holds a non-digit".to_owned()));
            },
        };
        proof {
            assert(s@.skip(20) =~= s@.subrange(20, len as int));
        }
        let mult = pow10_u32(9 - width);
        proof {
            lemma_pow10_mono(0, (9 - width) as nat);
            assert(mult >= 1);
            assert(f * mult < pow10(width as nat) * pow10((9 - width) as nat)) by (
            nonlinear_arith)
                requires
                    f < pow10(width as nat),
                    mult == pow10((9 - width) as nat),
                    mult > 0,
            ;
            lemma_pow10_add(width as nat, (9 - width) as nat);
            assert(pow10(9) == 1000000000) by {
                reveal_with_fuel(pow10, 10);
            }
        }
        nanos = f * mult;
    }
    let yy = y as u16;
    let mm = m as u8;
    let dd = d as u8;
    if !(1 <= mm && mm <= 12 && 1 <= dd && dd <= days_in_month_x(yy, mm)) {
        proof {
            assert(!date_in_range(s@.subrange(0, 10)));
        }
        return Err(OdsError::Chrono("timestamp date fields out of range".to_owned()));
    }
    if h > 23 || mi > 59 || sec > 59 {
        return Err(OdsError::Chrono("timestamp clock fields out of range".to_owned()));
    }
    Ok(
        DateTime {
            year: yy,
            month: mm,
            day: dd,
            hour: h as u8,
            minute: mi as u8,
            second: sec as u8,
            nanos,
        },
    )
}

/// The fraction suffix a timestamp renders: nothing for zero, else a point
/// and the shortest of three, six or nine digits that writes the value
/// exactly.
pub open spec fn frac_chars(nanos: nat) -> Seq<char> {
    if nanos == 0 {
        Seq::empty()
    } else if nanos % 1000000 == 0 {
        seq!['.'] + padded_chars(nanos / 1000000, 3)
    } else if nanos % 1000 == 0 {
        seq!['.'] + padded_chars(nanos / 1000, 6)
    } else {
        seq!['.'] + padded_chars(nanos, 9)
    }
}

/// The wire rendering of a timestamp: `YYYY-MM-DDTHH:MM:SS` and the
/// fraction suffix.
pub open spec fn datetime_chars(dt: DateTime) -> Seq<char> {
    padded_chars(dt.year as nat, 4) + seq!['-'] + padded_chars(dt.month as nat, 2) + seq!['-']
        + padded_chars(dt.day as nat, 2) + seq!['T'] + padded_chars(dt.hour as nat, 2)
        + seq![':'] + padded_chars(dt.minute as nat, 2) + seq![':'] + padded_chars(
        dt.second as nat,
        2,
    ) + frac_chars(dt.nanos as nat)
}

/// Writing a well-formed timestamp and reading the literal back gives the
/// same fields; the literal is never ten characters, so the reader's length
/// dispatch always takes the timestamp branch.
#[verifier::rlimit(100)]
pub proof fn lemma_datetime_roundtrip(dt: DateTime)
    requires
        dt.wf(),
    ensures
        datetime_shape(datetime_chars(dt)),
        dt_in_range(datetime_chars(dt)),
        datetime_chars(dt).len() != 10,
        date_y(datetime_chars(dt).subrange(0, 10)) == dt.year as nat,
        date_m(datetime_chars(dt).subrange(0, 10)) == dt.month as nat,
        date_d(datetime_chars(dt).subrange(0, 10)) == dt.day as nat,
        dt_hour(datetime_chars(dt)) == dt.hour as nat,
        dt_minute(datetime_chars(dt)) == dt.minute as nat,
        dt_second(datetime_chars(dt)) == dt.second as nat,
        dt_nanos(datetime_chars(dt)) == dt.nanos as nat,
{
    let cs = datetime_chars(dt);
    assert(pow10(4) == 10000 && pow10(3) == 1000 && pow10(2) == 100) by {
        reveal_with_fuel(pow10, 5);
    }
    assert(pow10(9) == 1000000000 && pow10(6) == 1000000) by {
        reveal_with_fuel(pow10, 10);
    }
    crate::digits::lemma_padded_chars_props(dt.year as nat, 4);
    crate::digits::lemma_padded_chars_props(dt.month as nat, 2);
    crate::digits::lemma_padded_chars_props(dt.day as nat, 2);
    crate::digits::lemma_padded_chars_props(dt.hour as nat, 2);
    crate::digits::lemma_padded_chars_props(dt.minute as nat, 2);
    crate::digits::lemma_padded_chars_props(dt.second as nat, 2);
    let n = dt.nanos as nat;
    if n == 0 {
        assert(cs.len() == 19);
    } else if n % 1000000 == 0 {
        crate::digits::lemma_padded_chars_props(n / 1000000, 3);
        assert(cs.len() == 23);
    } else if n % 1000 == 0 {
        crate::digits::lemma_padded_chars_props(n / 1000, 6);
        assert(cs.len() == 26);
    } else {
        crate::digits::lemma_padded_chars_props(n, 9);
        assert(cs.len() == 29);
    }
    assert(cs.subrange(0, 4) =~= padded_chars(dt.year as nat, 4));
    assert(cs.subrange(5, 7) =~= padded_chars(dt.month as nat, 2));
    assert(cs.subrange(8, 10) =~= padded_chars(dt.day as nat, 2));
    assert(cs.subrange(11, 13) =~= padded_chars(dt.hour as nat, 2));
    assert(cs.subrange(14, 16) =~= padded_chars(dt.minute as nat, 2));
    assert(cs.subrange(17, 19) =~= padded_chars(dt.second as nat, 2));
    assert(cs[4] == '-' && cs[7] == '-' && cs[10] == 'T' && cs[13] == ':' && cs[16] == ':');
    assert(cs.subrange(0, 10).subrange(0, 4) =~= cs.subrange(0, 4));
    assert(cs.subrange(0, 10).subrange(5, 7) =~= cs.subrange(5, 7));
    assert(cs.subrange(0, 10).subrange(8, 10) =~= cs.subrange(8, 10));
    assert(cs.subrange(0, 10)[4] == '-' && cs.subrange(0, 10)[7] == '-');
    assert(pow10(0) == 1);
    if n == 0 {
        assert(dt_nanos(cs) == n);
    } else if n % 1000000 == 0 {
        assert(cs[19] == '.');
        assert(cs.skip(20) =~= padded_chars(n / 1000000, 3));
        assert(digits_val(cs.skip(20)) == n / 1000000);
        assert(dt_nanos(cs) == (n / 1000000) * pow10(6));
        assert((n / 1000000) * 1000000 == n);
        assert(dt_nanos(cs) == n);
    } else if n % 1000 == 0 {
        assert(cs[19] == '.');
        assert(cs.skip(20) =~= padded_chars(n / 1000, 6));
        assert(digits_val(cs.skip(20)) == n / 1000);
        assert(dt_nanos(cs) == (n / 1000) * pow10(3));
        assert((n / 1000) * 1000 == n);
        assert(dt_nanos(cs) == n);
    } else {
        assert(cs[19] == '.');
        assert(cs.skip(20) =~= padded_chars(n, 9));
        assert(digits_val(cs.skip(20)) == n);
        assert(dt_nanos(cs) == n * pow10(0));
        assert(dt_nanos(cs) == n);
    }
}

/// Appends the fraction suffix of `nanos` to `out`.
pub fn push_frac(out: &mut String, nanos: u32)
    requires
        nanos < 1000000000,
    ensures
        final(out)@ == old(out)@ + frac_chars(nanos as nat),
{
    if nanos == 0 {
        proof {
            assert(old(out)@ + frac_chars(nanos as nat) =~= old(out)@);
        }
        return ;
    }
    push_char(out, '.');
    if nanos % 1000000 == 0 {
        push_padded(out, (nanos / 1000000) as u64, 3);
    } else if nanos % 1000 == 0 {
        push_padded(out, (nanos / 1000) as u64, 6);
    } else {
        push_padded(out, nanos as u64, 9);
    }
    proof {
        assert(final(out)@ =~= old(out)@ + frac_chars(nanos as nat));
    }
}

impl DateTime {
    /// Renders the timestamp as its wire literal.
    pub fn to_wire_text(&self) -> (r: String)
        requires
            self.wf(),
        ensures
            r@ == datetime_chars(*self),
    {
        let mut out = String::new();
        push_padded(&mut out, self.year as u64, 4);
        push_char(&mut out, '-');
        push_padded(&mut out, self.month as u64, 2);
        push_char(&mut out, '-');
        push_padded(&mut out, self.day as u64, 2);
        push_char(&mut out, 'T');
        push_padded(&mut out, self.hour as u64, 2);
        push_char(&mut out, ':');
        push_padded(&mut out, self.minute as u64, 2);
        push_char(&mut out, ':');
        push_padded(&mut out, self.second as u64, 2);
        push_frac(&mut out, self.nanos);
        proof {
            assert(out@ =~= datetime_chars(*self));
        }
        out
    }

    /// Renders the built-in fallback display text: `DD.MM.YYYY`.
    pub fn display_text(&self) -> (r: String)
        requires
            self.wf(),
        ensures
            r@ == padded_chars(self.day as nat, 2) + seq!['.'] + padded_chars(
                self.month as nat,
                2,
            ) + seq!['.'] + padded_chars(self.year as nat, 4),
    {
        let mut out = String::new();
        push_padded(&mut out, self.day as u64, 2);
        push_char(&mut out, '.');
        push_padded(&mut out, self.month as u64, 2);
        push_char(&mut out, '.');
        push_padded(&mut out, self.year as u64, 4);
        proof {
            assert(out@ =~= padded_chars(self.day as nat, 2) + seq!['.'] + padded_chars(
                self.month as nat,
                2,
            ) + seq!['.'] + padded_chars(self.year as nat, 4));
        }
        out
    }
}

} // verus!
