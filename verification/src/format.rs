//! Value formats and their renderer.
//!
//! A value format is a named, ordered sequence of parts: literal text and
//! typed directives.  Rendering walks the parts left to right and
//! concatenates what each part produces for the given value.

use vstd::prelude::*;

use crate::attrmap::map_get;
use crate::attrmap::AttrMap2;
use crate::datetime::DateTime;
use crate::decimal::chars_of_digits;
use crate::decimal::digits_ok;
use crate::decimal::strip0u;
use crate::decimal::DecModel;
use crate::decimal::Decimal;
use crate::digits::all_digits;
use crate::digits::digits_val;
use crate::digits::padded_chars;
use crate::digits::push_char;
use crate::digits::push_padded;
use crate::digits::push_u64;
use crate::digits::strip_zeros;
use crate::duration::Duration;
use crate::style::Origin;
use crate::value::ValueType;

verus! {

/// The kinds of format part.
#[derive(Debug, Clone, Copy, PartialEq, Eq, Structural)]
pub enum FormatType {
    /// A canonical truth token.
    Boolean,
    /// A plain number.
    Number,
    /// A number in scientific notation.
    Scientific,
    /// The currency symbol, stored as content.
    CurrencySymbol,
    /// The day of the month.
    Day,
    /// The month.
    Month,
    /// The year.
    Year,
    /// The era.
    Era,
    /// The day of the week.
    DayOfWeek,
    /// The week of the year.
    WeekOfYear,
    /// The quarter.
    Quarter,
    /// The hours field.
    Hours,
    /// The minutes field.
    Minutes,
    /// The seconds field.
    Seconds,
    /// A vulgar fraction.
    Fraction,
    /// The 12-hour-cycle indicator.
    AmPm,
    /// Text embedded inside a number.
    EmbeddedText,
    /// Literal text, stored as content.
    Text,
    /// The value's own text content.
    TextContent,
    /// Literal styled text, stored as content.
    StyleText,
    /// A conditional style mapping, kept opaque.
    StyleMap,
}

/// The mathematical content of a format part.
pub ghost struct FormatPartModel {
    /// The part kind.
    pub ftype: FormatType,
    /// The part's attributes.
    pub prp: Seq<(Seq<char>, Seq<char>)>,
    /// The literal content of text and currency-symbol parts.
    pub content: Option<Seq<char>>,
}

/// One format part.
#[derive(Debug)]
pub struct FormatPart {
    /// The part kind.
    pub ftype: FormatType,
    /// The part's attributes.
    pub prp: AttrMap2,
    /// The literal content of text and currency-symbol parts.
    pub content: Option<String>,
}

impl View for FormatPart {
    type V = FormatPartModel;

    open spec fn view(&self) -> FormatPartModel {
        FormatPartModel {
            ftype: self.ftype,
            prp: self.prp@,
            content: match &self.content {
                Some(c) => Some(c@),
                None => None,
            },
        }
    }
}

impl FormatPart {
    /// A part of the given kind with no attributes yet.
    pub fn new(ftype: FormatType) -> (r: FormatPart)
        ensures
            r@.ftype == ftype,
            r@.prp.len() == 0,
            r@.content is None,
            r.prp.wf(),
    {
        FormatPart { ftype, prp: AttrMap2::new(), content: None }
    }

    /// Binds a part attribute.
    pub fn set_prp(&mut self, k: String, v: String)
        requires
            old(self).prp.wf(),
        ensures
            final(self).prp.wf(),
            final(self)@.prp == crate::attrmap::map_set(old(self)@.prp, k@, v@),
            map_get(final(self)@.prp, k@) == Some(v@),
            forall|k2: Seq<char>|
                k2 != k@ ==> #[trigger] map_get(final(self)@.prp, k2) == map_get(
                    old(self)@.prp,
                    k2,
                ),
            final(self).ftype == old(self).ftype,
            final(self).content == old(self).content,
    {
        self.prp.set(k, v);
    }
}

impl FormatPart {
    /// A number directive showing `places` decimals, optionally grouped in
    /// thousands and padded down to `min_places`.
    pub fn new_number(places: u8, min_places: u8, grouping: bool) -> (r: FormatPart)
        requires
            places <= 9,
            min_places <= 9,
        ensures
            r@.ftype == FormatType::Number,
            r.prp.wf(),
            part_places(r@) == places as nat,
            part_min_places(r@) == min_places as nat,
            prop_flag(r@.prp, "number:grouping"@) == grouping,
            r@.content is None,
    {
        proof {
            reveal_strlit("number:decimal-places");
            reveal_strlit("number:min-decimal-places");
            reveal_strlit("number:grouping");
            assert("number:decimal-places"@.len() == 21);
            assert("number:min-decimal-places"@.len() == 25);
            assert("number:grouping"@.len() == 15);
        }
        let mut p = FormatPart::new(FormatType::Number);
        let mut ds = String::new();
        push_char(&mut ds, (48 + places) as char);
        proof {
            lemma_single_digit_prop(places as nat);
            assert(ds@ =~= seq![crate::digits::digit_char(places as int)]);
        }
        p.set_prp("number:decimal-places".to_owned(), ds);
        let mut ms = String::new();
        push_char(&mut ms, (48 + min_places) as char);
        proof {
            lemma_single_digit_prop(min_places as nat);
            assert(ms@ =~= seq![crate::digits::digit_char(min_places as int)]);
        }
        p.set_prp("number:min-decimal-places".to_owned(), ms);
        if grouping {
            p.set_prp("number:grouping".to_owned(), "true".to_owned());
        }
        p
    }

    /// A literal text directive.
    pub fn new_text(content: String) -> (r: FormatPart)
        ensures
            r@.ftype == FormatType::Text,
            r.prp.wf(),
            r@.content == Some(content@),
    {
        let mut p = FormatPart::new(FormatType::Text);
        p.content = Some(content);
        p
    }

    /// A currency-symbol directive carrying the symbol itself.
    pub fn new_currency_symbol(content: String) -> (r: FormatPart)
        ensures
            r@.ftype == FormatType::CurrencySymbol,
            r.prp.wf(),
            r@.content == Some(content@),
    {
        let mut p = FormatPart::new(FormatType::CurrencySymbol);
        p.content = Some(content);
        p
    }

    /// A calendar or clock field directive, zero-padded when `long`.
    pub fn new_field(ftype: FormatType, long: bool) -> (r: FormatPart)
        ensures
            r@.ftype == ftype,
            r.prp.wf(),
            prop_long(r@.prp) == long,
            r@.content is None,
    {
        let mut p = FormatPart::new(ftype);
        if long {
            p.set_prp("number:style".to_owned(), "long".to_owned());
        }
        p
    }
}

/// A single digit string reads back as its digit.
proof fn lemma_single_digit_prop(d: nat)
    requires
        d <= 9,
    ensures
        all_digits(seq![crate::digits::digit_char(d as int)]),
        digits_val(seq![crate::digits::digit_char(d as int)]) == d,
        strip_zeros(seq![crate::digits::digit_char(d as int)]).len() <= 9,
{
    crate::digits::lemma_digit_char_val(d as int);
    let one = seq![crate::digits::digit_char(d as int)];
    assert(one.drop_last() =~= Seq::<char>::empty());
    assert(one.last() == crate::digits::digit_char(d as int));
    assert(digits_val(one) == digits_val(Seq::<char>::empty()) * 10 + (crate::digits::char_digit(
        one.last(),
    )) as nat);
}

/// A numeric attribute of a part: the written counter, or the default when
/// the attribute is absent or unreadable.
pub open spec fn prop_num(prp: Seq<(Seq<char>, Seq<char>)>, key: Seq<char>, default: nat) -> nat {
    match map_get(prp, key) {
        Some(s) => if s.len() > 0 && all_digits(s) && strip_zeros(s).len() <= 9 {
            digits_val(s)
        } else {
            default
        },
        None => default,
    }
}

/// Whether a flag attribute of a part is set to `true`.
pub open spec fn prop_flag(prp: Seq<(Seq<char>, Seq<char>)>, key: Seq<char>) -> bool {
    map_get(prp, key) == Some("true"@)
}

/// Whether a part renders its field zero-padded (`number:style` is `long`).
pub open spec fn prop_long(prp: Seq<(Seq<char>, Seq<char>)>) -> bool {
    map_get(prp, "number:style"@) == Some("long"@)
}

/// Reads a numeric part attribute at run time.
pub fn prop_num_x(prp: &AttrMap2, key: &str, default: u32) -> (r: u32)
    ensures
        r as nat == prop_num(prp@, key@, default as nat),
{
    match prp.get(key) {
        Some(s) => match crate::digits::parse_u32(s.as_str()) {
            Some(v) => v,
            None => default,
        },
        None => default,
    }
}

/// Reads a flag part attribute at run time.
pub fn prop_flag_x(prp: &AttrMap2, key: &str) -> (r: bool)
    ensures
        r == prop_flag(prp@, key@),
{
    match prp.get(key) {
        Some(s) => crate::digits::str_eq(s.as_str(), "true"),
        None => false,
    }
}

/// Reads the padding style of a part at run time.
pub fn prop_long_x(prp: &AttrMap2) -> (r: bool)
    ensures
        r == prop_long(prp@),
{
    match prp.get("number:style") {
        Some(s) => crate::digits::str_eq(s.as_str(), "long"),
        None => false,
    }
}

/// A run of `n` zero digits.
pub open spec fn zero_digits(n: nat) -> Seq<u8> {
    Seq::new(n, |i: int| 0u8)
}

/// The fraction digits cut or padded to exactly `p` places.
pub open spec fn frac_fit(f: Seq<u8>, p: nat) -> Seq<u8> {
    if f.len() >= p {
        f.take(p as int)
    } else {
        f + zero_digits((p - f.len()) as nat)
    }
}

/// A digit vector plus one.
pub open spec fn inc_digits_spec(v: Seq<u8>) -> Seq<u8>
    decreases v.len(),
{
    if v.len() == 0 {
        seq![1u8]
    } else if v.last() < 9 {
        v.update(v.len() - 1, (v.last() + 1) as u8)
    } else {
        inc_digits_spec(v.drop_last()).push(0)
    }
}

/// The combined digits of a number rounded half-up at `p` fraction places.
pub open spec fn rounded_digits(d: DecModel, p: nat) -> Seq<u8> {
    let comb = d.int_digits + frac_fit(d.frac_digits, p);
    if d.frac_digits.len() > p && d.frac_digits[p as int] >= 5 {
        inc_digits_spec(comb)
    } else {
        comb
    }
}

/// Trailing zeros of a fraction removed, but never below `keep` digits.
pub open spec fn trim_frac(f: Seq<u8>, keep: nat) -> Seq<u8>
    decreases f.len(),
{
    if f.len() > keep && f.len() > 0 && f.last() == 0 {
        trim_frac(f.drop_last(), keep)
    } else {
        f
    }
}

/// Digit characters grouped in threes from the right.
pub open spec fn grouped_chars(s: Seq<char>) -> Seq<char>
    decreases s.len(),
{
    if s.len() <= 3 {
        s
    } else {
        grouped_chars(s.take(s.len() - 3)) + seq![','] + s.skip(s.len() - 3)
    }
}

/// What a number directive renders: the sign, the grouped integer digits,
/// and the rounded, trimmed fraction behind a point.
pub open spec fn number_chars(d: DecModel, places: nat, min_places: nat, grouping: bool) -> Seq<
    char,
> {
    let all = rounded_digits(d, places);
    let front = strip0u(all.take(all.len() - places));
    let frac = trim_frac(all.skip(all.len() - places), min_places);
    let sign: Seq<char> = if d.neg {
        seq!['-']
    } else {
        Seq::empty()
    };
    let front_chars = if grouping {
        grouped_chars(chars_of_digits(front))
    } else {
        chars_of_digits(front)
    };
    if frac.len() == 0 {
        sign + front_chars
    } else {
        sign + front_chars + seq!['.'] + chars_of_digits(frac)
    }
}

/// A digit vector plus one, at run time.
pub fn inc_digits(v: Vec<u8>) -> (r: Vec<u8>)
    requires
        digits_ok(v@),
    ensures
        r@ == inc_digits_spec(v@),
        digits_ok(r@),
        r@.len() >= v@.len(),
    decreases v@.len(),
{
    let ghost orig = v@;
    let mut v = v;
    if v.len() == 0 {
        v.push(1);
        proof {
            assert(v@ =~= seq![1u8]);
        }
        v
    } else {
        let last = v[v.len() - 1];
        if last < 9 {
            let n = v.len() - 1;
            v.set(n, last + 1);
            proof {
                assert(v@ =~= inc_digits_spec(orig));
            }
            v
        } else {
            let ghost pre = v@;
            v.pop();
            proof {
                assert(v@ =~= pre.drop_last());
            }
            let mut r = inc_digits(v);
            r.push(0);
            proof {
                assert(r@ =~= inc_digits_spec(pre));
            }
            r
        }
    }
}

/// Appends digit characters grouped in threes to `out`.
pub fn push_grouped(out: &mut String, v: &Vec<u8>, upto: usize)
    requires
        digits_ok(v@),
        upto <= v@.len(),
    ensures
        final(out)@ == old(out)@ + grouped_chars(chars_of_digits(v@.take(upto as int))),
    decreases upto,
{
    if upto <= 3 {
        let mut i: usize = 0;
        while i < upto
            invariant
                digits_ok(v@),
                upto <= v@.len(),
                i <= upto,
                out@ == old(out)@ + chars_of_digits(v@.take(upto as int)).take(i as int),
            decreases upto - i,
        {
            let d = v[i];
            push_char(out, (48 + d) as char);
            proof {
                assert(chars_of_digits(v@.take(upto as int)).take((i + 1) as int)
                    =~= chars_of_digits(v@.take(upto as int)).take(i as int).push(
                    crate::digits::digit_char(v@[i as int] as int),
                ));
            }
            i += 1;
        }
        proof {
            let cs = chars_of_digits(v@.take(upto as int));
            assert(cs.take(upto as int) =~= cs);
            assert(grouped_chars(cs) == cs);
        }
    } else {
        push_grouped(out, v, upto - 3);
        push_char(out, ',');
        let mut i: usize = upto - 3;
        let ghost mid = out@;
        while i < upto
            invariant
                digits_ok(v@),
                3 < upto <= v@.len(),
                upto - 3 <= i <= upto,
                out@ == mid + chars_of_digits(v@.take(upto as int)).subrange(
                    upto - 3,
                    i as int,
                ),
            decreases upto - i,
        {
            let d = v[i];
            push_char(out, (48 + d) as char);
            proof {
                assert(chars_of_digits(v@.take(upto as int)).subrange(upto - 3, (i + 1) as int)
                    =~= chars_of_digits(v@.take(upto as int)).subrange(upto - 3, i as int).push(
                    crate::digits::digit_char(v@[i as int] as int),
                ));
            }
            i += 1;
        }
        proof {
            let cs = chars_of_digits(v@.take(upto as int));
            assert(cs.take(upto as int - 3) =~= chars_of_digits(v@.take(upto as int - 3)));
            assert(cs.skip(upto as int - 3) =~= cs.subrange(upto - 3, upto as int));
            assert(out@ =~= old(out)@ + grouped_chars(cs));
        }
    }
}

/// The combined rounded digits of a number at `p` fraction places.
fn build_rounded(d: &Decimal, p: usize) -> (r: Vec<u8>)
    requires
        d.wf(),
    ensures
        r@ == rounded_digits(d@, p as nat),
        digits_ok(r@),
        r@.len() >= p + 1,
{
    let mut frac = crate::decimal::copy_digits(&d.frac_digits);
    let round_up = d.frac_digits.len() > p && {
        let probe = d.frac_digits[p];
        probe >= 5
    };
    frac.truncate(p);
    proof {
        let full = frac_fit(d.frac_digits@, p as nat);
        if d.frac_digits@.len() >= p {
            assert(frac@ =~= full.take(frac@.len() as int));
        } else {
            assert(frac@ =~= d.frac_digits@);
            assert(frac@ =~= full.take(frac@.len() as int));
        }
    }
    while frac.len() < p
        invariant
            d.wf(),
            frac@.len() <= p,
            digits_ok(frac@),
            frac@.len() < p ==> frac@.len() >= d.frac_digits@.len(),
            frac@ == frac_fit(d.frac_digits@, p as nat).take(frac@.len() as int),
        decreases p - frac@.len(),
    {
        proof {
            let full = frac_fit(d.frac_digits@, p as nat);
            assert(full[frac@.len() as int] == 0);
            assert(full.take((frac@.len() + 1) as int) =~= full.take(frac@.len() as int).push(
                full[frac@.len() as int],
            ));
        }
        frac.push(0);
    }
    proof {
        let full = frac_fit(d.frac_digits@, p as nat);
        assert(full.len() == p);
        assert(full.take(full.len() as int) =~= full);
        assert(frac@ == full);
    }
    let mut all = crate::decimal::copy_digits(&d.int_digits);
    all.append(&mut frac);
    proof {
        assert(all@ =~= d.int_digits@ + frac_fit(d.frac_digits@, p as nat));
    }
    let all = if round_up {
        inc_digits(all)
    } else {
        all
    };
    proof {
        assert(all@ == rounded_digits(d@, p as nat));
        lemma_inc_len(d@, p as nat);
    }
    all
}

/// The digits of `all` before the last `p`, with leading zeros stripped.
fn split_front(all: &Vec<u8>, p: usize) -> (r: Vec<u8>)
    requires
        digits_ok(all@),
        p < all@.len(),
    ensures
        r@ == strip0u(all@.take(all@.len() - p)),
        digits_ok(r@),
{
    let split = all.len() - p;
    let mut front: Vec<u8> = Vec::new();
    let mut i: usize = 0;
    while i < split
        invariant
            i <= split <= all@.len(),
            front@ == all@.take(split as int).take(i as int),
            digits_ok(all@),
        decreases split - i,
    {
        proof {
            assert(all@.take(split as int).take((i + 1) as int) =~= all@.take(split as int).take(
                i as int,
            ).push(all@[i as int]));
        }
        front.push(all[i]);
        i += 1;
    }
    proof {
        assert(front@ =~= all@.take(split as int));
    }
    let ghost glued = front@;
    while front.len() > 1 && front[0] == 0
        invariant
            front@.len() >= 1,
            strip0u(front@) == strip0u(glued),
            digits_ok(front@),
        decreases front@.len(),
    {
        let ghost before = front@;
        front.remove(0);
        proof {
            assert(before.remove(0) =~= before.skip(1));
            assert(strip0u(before) == strip0u(before.skip(1)));
        }
    }
    proof {
        assert(strip0u(front@) == front@);
        crate::decimal::lemma_strip0u_val(glued);
        assert(digits_ok(strip0u(glued)));
    }
    front
}

/// The last `p` digits of `all`, trimmed of trailing zeros down to
/// `min_places`.
fn split_back(all: &Vec<u8>, p: usize, min_places: u32) -> (r: Vec<u8>)
    requires
        digits_ok(all@),
        p < all@.len(),
    ensures
        r@ == trim_frac(all@.skip(all@.len() - p), min_places as nat),
        digits_ok(r@),
{
    let split = all.len() - p;
    let mut back: Vec<u8> = Vec::new();
    let mut j: usize = split;
    while j < all.len()
        invariant
            split == all@.len() - p,
            split <= j <= all@.len(),
            back@ == all@.skip(split as int).take(j - split),
            digits_ok(all@),
            digits_ok(back@),
        decreases all@.len() - j,
    {
        proof {
            assert(all@.skip(split as int).take((j + 1 - split) as int) =~= all@.skip(
                split as int,
            ).take((j - split) as int).push(all@[j as int]));
        }
        back.push(all[j]);
        j += 1;
    }
    proof {
        assert(back@ =~= all@.skip(split as int));
    }
    let ghost whole = back@;
    while back.len() > min_places as usize && back.len() > 0 && back[back.len() - 1] == 0
        invariant
            trim_frac(back@, min_places as nat) == trim_frac(whole, min_places as nat),
            digits_ok(back@),
        decreases back@.len(),
    {
        let ghost before = back@;
        back.pop();
        proof {
            assert(before.drop_last() =~= back@);
        }
    }
    proof {
        assert(trim_frac(back@, min_places as nat) == back@);
    }
    back
}

/// Renders one number directive of a format.
pub fn push_number(out: &mut String, d: &Decimal, places: u32, min_places: u32, grouping: bool)
    requires
        d.wf(),
    ensures
        final(out)@ == old(out)@ + number_chars(d@, places as nat, min_places as nat, grouping),
{
    let p = places as usize;
    let all = build_rounded(d, p);
    let front = split_front(&all, p);
    let back = split_back(&all, p, min_places);
    if d.neg {
        push_char(out, '-');
    }
    if grouping {
        push_grouped(out, &front, front.len());
        proof {
            assert(front@.take(front@.len() as int) =~= front@);
        }
    } else {
        crate::decimal::push_digits(out, &front);
    }
    if back.len() > 0 {
        push_char(out, '.');
        crate::decimal::push_digits(out, &back);
    }
    proof {
        assert(final(out)@ =~= old(out)@ + number_chars(
            d@,
            places as nat,
            min_places as nat,
            grouping,
        ));
    }
}

/// The literal content of a part, or nothing.
pub open spec fn content_or_empty(p: FormatPartModel) -> Seq<char> {
    match p.content {
        Some(c) => c,
        None => Seq::empty(),
    }
}

/// The configured decimal places of a number part.
pub open spec fn part_places(p: FormatPartModel) -> nat {
    prop_num(p.prp, "number:decimal-places"@, 0)
}

/// The configured minimum decimal places of a number part; padding down to
/// the shown places when the attribute is absent.
pub open spec fn part_min_places(p: FormatPartModel) -> nat {
    prop_num(p.prp, "number:min-decimal-places"@, part_places(p))
}

/// What one part renders for a number.
pub open spec fn render_float_part(p: FormatPartModel, d: DecModel) -> Seq<char> {
    match p.ftype {
        FormatType::Number => number_chars(
            d,
            part_places(p),
            part_min_places(p),
            prop_flag(p.prp, "number:grouping"@),
        ),
        FormatType::Scientific => number_chars(
            d,
            part_places(p),
            part_min_places(p),
            prop_flag(p.prp, "number:grouping"@),
        ),
        FormatType::CurrencySymbol => content_or_empty(p),
        FormatType::Text => content_or_empty(p),
        FormatType::StyleText => content_or_empty(p),
        _ => Seq::empty(),
    }
}

/// What one part renders for a truth value.
pub open spec fn render_boolean_part(p: FormatPartModel, b: bool) -> Seq<char> {
    match p.ftype {
        FormatType::Boolean => if b {
            "true"@
        } else {
            "false"@
        },
        FormatType::CurrencySymbol => content_or_empty(p),
        FormatType::Text => content_or_empty(p),
        FormatType::StyleText => content_or_empty(p),
        _ => Seq::empty(),
    }
}

/// What one part renders for a text value.
pub open spec fn render_str_part(p: FormatPartModel, s: Seq<char>) -> Seq<char> {
    match p.ftype {
        FormatType::TextContent => s,
        FormatType::CurrencySymbol => content_or_empty(p),
        FormatType::Text => content_or_empty(p),
        FormatType::StyleText => content_or_empty(p),
        _ => Seq::empty(),
    }
}

/// A clock or calendar field, zero-padded to two digits when `long`; a
/// count of a hundred or more always shows all its digits.
pub open spec fn field_chars(n: nat, long: bool) -> Seq<char> {
    if long && n < 100 {
        padded_chars(n, 2)
    } else {
        crate::digits::dec_chars(n)
    }
}

/// What one part renders for a timestamp; `ampm` says whether the format
/// carries a 12-hour-cycle indicator, which turns the hours field into its
/// 12-hour form.
pub open spec fn render_datetime_part(p: FormatPartModel, dt: DateTime, ampm: bool) -> Seq<char> {
    match p.ftype {
        FormatType::Day => field_chars(dt.day as nat, prop_long(p.prp)),
        FormatType::Month => field_chars(dt.month as nat, prop_long(p.prp)),
        FormatType::Year => if prop_long(p.prp) {
            padded_chars(dt.year as nat, 4)
        } else {
            padded_chars((dt.year as nat) % 100, 2)
        },
        FormatType::Hours => {
            let h = if ampm {
                ((dt.hour as nat) + 11) % 12 + 1
            } else {
                dt.hour as nat
            };
            field_chars(h, prop_long(p.prp))
        },
        FormatType::Minutes => field_chars(dt.minute as nat, prop_long(p.prp)),
        FormatType::Seconds => field_chars(dt.second as nat, prop_long(p.prp)),
        FormatType::AmPm => if dt.hour >= 12 {
            "PM"@
        } else {
            "AM"@
        },
        FormatType::CurrencySymbol => content_or_empty(p),
        FormatType::Text => content_or_empty(p),
        FormatType::StyleText => content_or_empty(p),
        _ => Seq::empty(),
    }
}

/// What one part renders for a duration; `truncate` wraps the hours at a
/// day, as a time-of-day format does, while a duration format accumulates.
pub open spec fn render_duration_part(p: FormatPartModel, du: Duration, truncate: bool) -> Seq<
    char,
> {
    match p.ftype {
        FormatType::Hours => {
            let h = if truncate {
                (du.secs as nat / 3600) % 24
            } else {
                du.secs as nat / 3600
            };
            field_chars(h, prop_long(p.prp))
        },
        FormatType::Minutes => field_chars((du.secs as nat / 60) % 60, prop_long(p.prp)),
        FormatType::Seconds => field_chars(du.secs as nat % 60, prop_long(p.prp)),
        FormatType::CurrencySymbol => content_or_empty(p),
        FormatType::Text => content_or_empty(p),
        FormatType::StyleText => content_or_empty(p),
        _ => Seq::empty(),
    }
}

/// Whether a part is a number directive with the given places, padding
/// floor and grouping flag — everything its rendering depends on.
pub open spec fn is_number_part(
    p: FormatPartModel,
    places: nat,
    min_places: nat,
    grouping: bool,
) -> bool {
    &&& p.ftype == FormatType::Number
    &&& part_places(p) == places
    &&& part_min_places(p) == min_places
    &&& prop_flag(p.prp, "number:grouping"@) == grouping
}

/// Whether a part is a literal text directive with the given content.
pub open spec fn is_text_part(p: FormatPartModel, c: Seq<char>) -> bool {
    p.ftype == FormatType::Text && p.content == Some(c)
}

/// Whether a part is a currency-symbol directive with the given symbol.
pub open spec fn is_currency_part(p: FormatPartModel, c: Seq<char>) -> bool {
    p.ftype == FormatType::CurrencySymbol && p.content == Some(c)
}

/// Whether a part is a calendar or clock field with the given padding.
pub open spec fn is_field_part(p: FormatPartModel, ft: FormatType, long: bool) -> bool {
    p.ftype == ft && prop_long(p.prp) == long
}

/// Whether a part sequence carries a 12-hour-cycle indicator.
pub open spec fn parts_have_ampm(parts: Seq<FormatPartModel>) -> bool {
    exists|i: int| 0 <= i < parts.len() && (#[trigger] parts[i]).ftype == FormatType::AmPm
}

/// A named, ordered sequence of format parts for one value kind.
#[derive(Debug)]
pub struct ValueFormat {
    /// The format's name.
    pub name: String,
    /// The value kind the format renders.
    pub v_type: ValueType,
    /// Where the format came from.
    pub origin: Origin,
    /// The owning locale's tag, for a locale default.
    pub locale: Option<String>,
    /// Whether the hours field wraps at a day (time of day) instead of
    /// accumulating (duration).
    pub truncate_on_overflow: bool,
    /// The format element's own attributes.
    pub prp: Option<AttrMap2>,
    /// The parts, rendered left to right.
    pub parts: Vec<FormatPart>,
}

impl ValueFormat {
    /// The models of the parts, in order.
    pub open spec fn parts_view(&self) -> Seq<FormatPartModel> {
        self.parts@.map_values(|p: FormatPart| p@)
    }

    /// Well-formedness of every property bag.
    pub open spec fn wf(&self) -> bool {
        &&& crate::style::opt_map_wf(self.prp)
        &&& forall|i: int| 0 <= i < self.parts@.len() ==> (#[trigger] self.parts@[i]).prp.wf()
    }

    /// An unnamed format from the given origin.
    pub fn new_origin(origin: Origin) -> (r: ValueFormat)
        ensures
            r.wf(),
            r.origin == origin,
            r.v_type == ValueType::Text,
            r.name@ == Seq::<char>::empty(),
            r.locale is None,
            r.truncate_on_overflow == true,
            r.prp is None,
            r.parts_view().len() == 0,
    {
        ValueFormat {
            name: String::new(),
            v_type: ValueType::Text,
            origin,
            locale: None,
            truncate_on_overflow: true,
            prp: None,
            parts: Vec::new(),
        }
    }

    /// A named locale-default format.
    pub fn new_localized(name: String, locale: String, v_type: ValueType) -> (r: ValueFormat)
        ensures
            r.wf(),
            r.origin == Origin::Styles,
            r.v_type == v_type,
            r.name@ == name@,
            r.locale matches Some(l) && l@ == locale@,
            r.truncate_on_overflow == true,
            r.parts_view().len() == 0,
    {
        ValueFormat {
            name,
            v_type,
            origin: Origin::Styles,
            locale: Some(locale),
            truncate_on_overflow: true,
            prp: None,
            parts: Vec::new(),
        }
    }

    /// Names the format.
    pub fn set_name(&mut self, name: String)
        ensures
            final(self).name@ == name@,
            *final(self) == (ValueFormat { name: final(self).name, ..*old(self) }),
    {
        self.name = name;
    }

    /// Chooses between wrapping and accumulating hours.
    pub fn set_truncate_on_overflow(&mut self, t: bool)
        ensures
            final(self).truncate_on_overflow == t,
            *final(self) == (ValueFormat { truncate_on_overflow: t, ..*old(self) }),
    {
        self.truncate_on_overflow = t;
    }

    /// Binds a format attribute.
    pub fn set_prp(&mut self, k: String, v: String)
        requires
            old(self).wf(),
        ensures
            final(self).wf(),
            crate::style::opt_map_view(final(self).prp) == crate::attrmap::map_set(
                crate::style::opt_map_view(old(self).prp),
                k@,
                v@,
            ),
            final(self).prp matches Some(a) && map_get(a@, k@) == Some(v@),
            final(self).parts == old(self).parts,
            final(self).name == old(self).name,
            final(self).v_type == old(self).v_type,
            final(self).truncate_on_overflow == old(self).truncate_on_overflow,
            final(self).origin == old(self).origin,
            final(self).locale == old(self).locale,
    {
        crate::style::set_in_opt_map(&mut self.prp, k, v);
    }

    /// Appends a part.
    pub fn push_part(&mut self, part: FormatPart)
        requires
            old(self).wf(),
            part.prp.wf(),
        ensures
            final(self).wf(),
            final(self).parts_view() == old(self).parts_view().push(part@),
            final(self).name == old(self).name,
            final(self).v_type == old(self).v_type,
            final(self).truncate_on_overflow == old(self).truncate_on_overflow,
            final(self).origin == old(self).origin,
            final(self).locale == old(self).locale,
            final(self).prp == old(self).prp,
    {
        self.parts.push(part);
        proof {
            assert(self.parts_view() =~= old(self).parts_view().push(self.parts@.last()@));
        }
    }
}

/// The concatenated rendering of a part sequence for a number.
pub open spec fn render_float(parts: Seq<FormatPartModel>, d: DecModel) -> Seq<char>
    decreases parts.len(),
{
    if parts.len() == 0 {
        Seq::empty()
    } else {
        render_float(parts.drop_last(), d) + render_float_part(parts.last(), d)
    }
}

/// The concatenated rendering of a part sequence for a truth value.
pub open spec fn render_boolean(parts: Seq<FormatPartModel>, b: bool) -> Seq<char>
    decreases parts.len(),
{
    if parts.len() == 0 {
        Seq::empty()
    } else {
        render_boolean(parts.drop_last(), b) + render_boolean_part(parts.last(), b)
    }
}

/// The concatenated rendering of a part sequence for a text value.
pub open spec fn render_str(parts: Seq<FormatPartModel>, s: Seq<char>) -> Seq<char>
    decreases parts.len(),
{
    if parts.len() == 0 {
        Seq::empty()
    } else {
        render_str(parts.drop_last(), s) + render_str_part(parts.last(), s)
    }
}

/// The concatenated rendering of a part sequence for a timestamp.
pub open spec fn render_datetime(parts: Seq<FormatPartModel>, dt: DateTime, ampm: bool) -> Seq<
    char,
>
    decreases parts.len(),
{
    if parts.len() == 0 {
        Seq::empty()
    } else {
        render_datetime(parts.drop_last(), dt, ampm) + render_datetime_part(parts.last(), dt, ampm)
    }
}

/// The concatenated rendering of a part sequence for a duration.
pub open spec fn render_duration(
    parts: Seq<FormatPartModel>,
    du: Duration,
    truncate: bool,
) -> Seq<char>
    decreases parts.len(),
{
    if parts.len() == 0 {
        Seq::empty()
    } else {
        render_duration(parts.drop_last(), du, truncate) + render_duration_part(
            parts.last(),
            du,
            truncate,
        )
    }
}

/// Appends a part's literal content to `out`.
fn push_content(out: &mut String, p: &FormatPart)
    ensures
        final(out)@ == old(out)@ + content_or_empty(p@),
{
    match &p.content {
        Some(c) => {
            out.append(c.as_str());
        },
        None => {
            proof {
                assert(old(out)@ + content_or_empty(p@) =~= old(out)@);
            }
        },
    }
}

/// Appends a clock or calendar field to `out`.
fn push_field(out: &mut String, n: u64, long: bool)
    requires
        n < 100,
    ensures
        final(out)@ == old(out)@ + field_chars(n as nat, long),
{
    if long {
        push_padded(out, n, 2);
    } else {
        push_u64(out, n);
    }
}

impl ValueFormat {
    /// Renders a truth value through the format's parts.
    pub fn format_boolean(&self, b: bool) -> (r: String)
        ensures
            r@ == render_boolean(self.parts_view(), b),
    {
        let mut out = String::new();
        let mut i: usize = 0;
        while i < self.parts.len()
            invariant
                i <= self.parts@.len(),
                out@ == render_boolean(self.parts_view().take(i as int), b),
            decreases self.parts@.len() - i,
        {
            let p = &self.parts[i];
            match p.ftype {
                FormatType::Boolean => {
                    if b {
                        out.append("true");
                    } else {
                        out.append("false");
                    }
                },
                FormatType::CurrencySymbol => push_content(&mut out, p),
                FormatType::Text => push_content(&mut out, p),
                FormatType::StyleText => push_content(&mut out, p),
                _ => {
                    proof {
                        assert(render_boolean_part(p@, b) =~= Seq::<char>::empty());
                        assert(out@ + render_boolean_part(p@, b) =~= out@);
                    }
                },
            }
            proof {
                lemma_render_take_step_bool(self.parts_view(), i as int, b);
            }
            i += 1;
        }
        proof {
            assert(self.parts_view().take(self.parts@.len() as int) =~= self.parts_view());
        }
        out
    }

    /// Renders a number through the format's parts.
    pub fn format_float(&self, d: &Decimal) -> (r: String)
        requires
            d.wf(),
        ensures
            r@ == render_float(self.parts_view(), d@),
    {
        let mut out = String::new();
        let mut i: usize = 0;
        while i < self.parts.len()
            invariant
                i <= self.parts@.len(),
                d.wf(),
                out@ == render_float(self.parts_view().take(i as int), d@),
            decreases self.parts@.len() - i,
        {
            let p = &self.parts[i];
            match p.ftype {
                FormatType::Number | FormatType::Scientific => {
                    let places = prop_num_x(&p.prp, "number:decimal-places", 0);
                    let minp = prop_num_x(&p.prp, "number:min-decimal-places", places);
                    let grouping = prop_flag_x(&p.prp, "number:grouping");
                    proof {
                        assert(minp as nat == part_min_places(p@));
                    }
                    push_number(&mut out, d, places, minp, grouping);
                },
                FormatType::CurrencySymbol => push_content(&mut out, p),
                FormatType::Text => push_content(&mut out, p),
                FormatType::StyleText => push_content(&mut out, p),
                _ => {
                    proof {
                        assert(render_float_part(p@, d@) =~= Seq::<char>::empty());
                        assert(out@ + render_float_part(p@, d@) =~= out@);
                    }
                },
            }
            proof {
                lemma_render_take_step_float(self.parts_view(), i as int, d@);
            }
            i += 1;
        }
        proof {
            assert(self.parts_view().take(self.parts@.len() as int) =~= self.parts_view());
        }
        out
    }

    /// Renders a text value through the format's parts.
    pub fn format_str(&self, s: &str) -> (r: String)
        ensures
            r@ == render_str(self.parts_view(), s@),
    {
        let mut out = String::new();
        let mut i: usize = 0;
        while i < self.parts.len()
            invariant
                i <= self.parts@.len(),
                out@ == render_str(self.parts_view().take(i as int), s@),
            decreases self.parts@.len() - i,
        {
            let p = &self.parts[i];
            match p.ftype {
                FormatType::TextContent => {
                    out.append(s);
                },
                FormatType::CurrencySymbol => push_content(&mut out, p),
                FormatType::Text => push_content(&mut out, p),
                FormatType::StyleText => push_content(&mut out, p),
                _ => {
                    proof {
                        assert(render_str_part(p@, s@) =~= Seq::<char>::empty());
                        assert(out@ + render_str_part(p@, s@) =~= out@);
                    }
                },
            }
            proof {
                lemma_render_take_step_str(self.parts_view(), i as int, s@);
            }
            i += 1;
        }
        proof {
            assert(self.parts_view().take(self.parts@.len() as int) =~= self.parts_view());
        }
        out
    }

    /// Whether the format carries a 12-hour-cycle indicator.
    fn has_ampm(&self) -> (r: bool)
        ensures
            r == parts_have_ampm(self.parts_view()),
    {
        let mut i: usize = 0;
        while i < self.parts.len()
            invariant
                i <= self.parts@.len(),
                forall|j: int|
                    0 <= j < i ==> (#[trigger] self.parts_view()[j]).ftype != FormatType::AmPm,
            decreases self.parts@.len() - i,
        {
            if matches!(self.parts[i].ftype, FormatType::AmPm) {
                proof {
                    assert(self.parts_view()[i as int].ftype == FormatType::AmPm);
                }
                return true;
            }
            i += 1;
        }
        false
    }

    /// Renders a timestamp through the format's parts.
    pub fn format_datetime(&self, dt: &DateTime) -> (r: String)
        requires
            dt.wf(),
        ensures
            r@ == render_datetime(self.parts_view(), *dt, parts_have_ampm(self.parts_view())),
    {
        let ampm = self.has_ampm();
        let mut out = String::new();
        let mut i: usize = 0;
        while i < self.parts.len()
            invariant
                i <= self.parts@.len(),
                dt.wf(),
                ampm == parts_have_ampm(self.parts_view()),
                out@ == render_datetime(self.parts_view().take(i as int), *dt, ampm),
            decreases self.parts@.len() - i,
        {
            let p = &self.parts[i];
            match p.ftype {
                FormatType::Day => push_field(&mut out, dt.day as u64, prop_long_x(&p.prp)),
                FormatType::Month => push_field(&mut out, dt.month as u64, prop_long_x(&p.prp)),
                FormatType::Year => {
                    if prop_long_x(&p.prp) {
                        push_padded(&mut out, dt.year as u64, 4);
                    } else {
                        push_padded(&mut out, (dt.year % 100) as u64, 2);
                    }
                },
                FormatType::Hours => {
                    let h: u64 = if ampm {
                        ((dt.hour as u64) + 11) % 12 + 1
                    } else {
                        dt.hour as u64
                    };
                    push_field(&mut out, h, prop_long_x(&p.prp));
                },
                FormatType::Minutes => push_field(&mut out, dt.minute as u64, prop_long_x(&p.prp)),
                FormatType::Seconds => push_field(&mut out, dt.second as u64, prop_long_x(&p.prp)),
                FormatType::AmPm => {
                    if dt.hour >= 12 {
                        out.append("PM");
                    } else {
                        out.append("AM");
                    }
                },
                FormatType::CurrencySymbol => push_content(&mut out, p),
                FormatType::Text => push_content(&mut out, p),
                FormatType::StyleText => push_content(&mut out, p),
                _ => {
                    proof {
                        assert(render_datetime_part(p@, *dt, ampm) =~= Seq::<char>::empty());
                        assert(out@ + render_datetime_part(p@, *dt, ampm) =~= out@);
                    }
                },
            }
            proof {
                lemma_render_take_step_dt(self.parts_view(), i as int, *dt, ampm);
            }
            i += 1;
        }
        proof {
            assert(self.parts_view().take(self.parts@.len() as int) =~= self.parts_view());
        }
        out
    }

    /// Renders a duration through the format's parts; the format's overflow
    /// flag decides whether hours wrap at a day.
    pub fn format_time_duration(&self, du: &Duration) -> (r: String)
        requires
            du.wf(),
        ensures
            r@ == render_duration(self.parts_view(), *du, self.truncate_on_overflow),
    {
        let truncate = self.truncate_on_overflow;
        let mut out = String::new();
        let mut i: usize = 0;
        while i < self.parts.len()
            invariant
                i <= self.parts@.len(),
                du.wf(),
                truncate == self.truncate_on_overflow,
                out@ == render_duration(self.parts_view().take(i as int), *du, truncate),
            decreases self.parts@.len() - i,
        {
            let p = &self.parts[i];
            match p.ftype {
                FormatType::Hours => {
                    if truncate {
                        push_field(&mut out, (du.secs / 3600) % 24, prop_long_x(&p.prp));
                    } else {
                        let h = du.secs / 3600;
                        if prop_long_x(&p.prp) && h < 100 {
                            push_padded(&mut out, h, 2);
                        } else {
                            push_u64(&mut out, h);
                        }
                    }
                },
                FormatType::Minutes => push_field(
                    &mut out,
                    (du.secs / 60) % 60,
                    prop_long_x(&p.prp),
                ),
                FormatType::Seconds => push_field(&mut out, du.secs % 60, prop_long_x(&p.prp)),
                FormatType::CurrencySymbol => push_content(&mut out, p),
                FormatType::Text => push_content(&mut out, p),
                FormatType::StyleText => push_content(&mut out, p),
                _ => {
                    proof {
                        assert(render_duration_part(p@, *du, truncate) =~= Seq::<char>::empty());
                        assert(out@ + render_duration_part(p@, *du, truncate) =~= out@);
                    }
                },
            }
            proof {
                lemma_render_take_step_dur(self.parts_view(), i as int, *du, truncate);
            }
            i += 1;
        }
        proof {
            assert(self.parts_view().take(self.parts@.len() as int) =~= self.parts_view());
        }
        out
    }
}

/// One more rendered part extends the prefix concatenation.
proof fn lemma_render_take_step_bool(parts: Seq<FormatPartModel>, i: int, b: bool)
    requires
        0 <= i < parts.len(),
    ensures
        render_boolean(parts.take(i + 1), b) == render_boolean(parts.take(i), b)
            + render_boolean_part(parts[i], b),
{
    assert(parts.take(i + 1).drop_last() =~= parts.take(i));
    assert(parts.take(i + 1).last() == parts[i]);
}

/// One more rendered part extends the prefix concatenation.
proof fn lemma_render_take_step_float(parts: Seq<FormatPartModel>, i: int, d: DecModel)
    requires
        0 <= i < parts.len(),
    ensures
        render_float(parts.take(i + 1), d) == render_float(parts.take(i), d) + render_float_part(
            parts[i],
            d,
        ),
{
    assert(parts.take(i + 1).drop_last() =~= parts.take(i));
    assert(parts.take(i + 1).last() == parts[i]);
}

/// One more rendered part extends the prefix concatenation.
proof fn lemma_render_take_step_str(parts: Seq<FormatPartModel>, i: int, s: Seq<char>)
    requires
        0 <= i < parts.len(),
    ensures
        render_str(parts.take(i + 1), s) == render_str(parts.take(i), s) + render_str_part(
            parts[i],
            s,
        ),
{
    assert(parts.take(i + 1).drop_last() =~= parts.take(i));
    assert(parts.take(i + 1).last() == parts[i]);
}

/// One more rendered part extends the prefix concatenation.
proof fn lemma_render_take_step_dt(parts: Seq<FormatPartModel>, i: int, dt: DateTime, ampm: bool)
    requires
        0 <= i < parts.len(),
    ensures
        render_datetime(parts.take(i + 1), dt, ampm) == render_datetime(parts.take(i), dt, ampm)
            + render_datetime_part(parts[i], dt, ampm),
{
    assert(parts.take(i + 1).drop_last() =~= parts.take(i));
    assert(parts.take(i + 1).last() == parts[i]);
}

/// One more rendered part extends the prefix concatenation.
proof fn lemma_render_take_step_dur(
    parts: Seq<FormatPartModel>,
    i: int,
    du: Duration,
    truncate: bool,
)
    requires
        0 <= i < parts.len(),
    ensures
        render_duration(parts.take(i + 1), du, truncate) == render_duration(parts.take(i), du, truncate)
            + render_duration_part(parts[i], du, truncate),
{
    assert(parts.take(i + 1).drop_last() =~= parts.take(i));
    assert(parts.take(i + 1).last() == parts[i]);
}

/// The integer part of a rounded number always keeps at least one digit.
proof fn lemma_inc_len(d: DecModel, p: nat)
    requires
        d.int_digits.len() >= 1,
    ensures
        rounded_digits(d, p).len() >= p + 1,
{
    let comb = d.int_digits + frac_fit(d.frac_digits, p);
    assert(comb.len() >= p + 1);
    lemma_inc_digits_len(comb);
}

/// Incrementing never shortens a digit vector.
proof fn lemma_inc_digits_len(v: Seq<u8>)
    ensures
        inc_digits_spec(v).len() >= v.len(),
        inc_digits_spec(v).len() <= v.len() + 1,
    decreases v.len(),
{
    if v.len() > 0 && v.last() >= 9 {
        lemma_inc_digits_len(v.drop_last());
    }
}

} // verus!
