//! Exact decimal numbers.
//!
//! Cell values travel as decimal literals (`office:value="1234.5"`).  The
//! codec keeps them exactly as written: a sign and two digit runs, one before
//! and one after the decimal point.  Nothing is rounded on the way in or out,
//! so writing a value and reading it back gives the same number.

use vstd::prelude::*;

use crate::digits::all_digits;
use crate::digits::char_digit;
use crate::digits::digit_char;
use crate::digits::digits_val;
use crate::digits::is_dig;
use crate::digits::is_digit_char;
use crate::digits::lemma_digit_char_val;
use crate::digits::push_char;
use crate::digits::strip_zeros;
use crate::error::OdsError;

verus! {

/// Whether every entry of a digit vector is a single decimal digit.
pub open spec fn digits_ok(s: Seq<u8>) -> bool {
    forall|i: int| 0 <= i < s.len() ==> #[trigger] s[i] <= 9
}

/// The numeric value of a digit vector, most significant digit first.
pub open spec fn dvalu(s: Seq<u8>) -> nat
    decreases s.len(),
{
    if s.len() == 0 {
        0
    } else {
        dvalu(s.drop_last()) * 10 + s.last() as nat
    }
}

/// The characters that a digit vector renders to.
pub open spec fn chars_of_digits(s: Seq<u8>) -> Seq<char> {
    Seq::new(s.len(), |i: int| digit_char(s[i] as int))
}

/// The digit vector encoded by a digit string.
pub open spec fn digits_of_chars(s: Seq<char>) -> Seq<u8> {
    Seq::new(s.len(), |i: int| char_digit(s[i]) as u8)
}

/// The leading zeros of a digit vector removed, keeping at least one digit.
pub open spec fn strip0u(s: Seq<u8>) -> Seq<u8>
    decreases s.len(),
{
    if s.len() <= 1 {
        s
    } else if s[0] == 0 {
        strip0u(s.skip(1))
    } else {
        s
    }
}

/// The mathematical content of a [`Decimal`]: what the contracts speak of.
pub ghost struct DecModel {
    /// Whether the number is negative.
    pub neg: bool,
    /// The digits before the decimal point.
    pub int_digits: Seq<u8>,
    /// The digits after the decimal point.
    pub frac_digits: Seq<u8>,
}

/// An exact signed decimal number: sign, integer digits, fraction digits.
///
/// The fraction keeps its written length, so `1.50` and `1.5` stay distinct
/// values of this type, exactly as the wire format distinguishes them.
#[derive(Debug)]
pub struct Decimal {
    /// Whether the number is negative; never set on zero.
    pub neg: bool,
    /// The digits before the decimal point, most significant first,
    /// without leading zeros (a single zero stands alone).
    pub int_digits: Vec<u8>,
    /// The digits after the decimal point; empty when the literal has none.
    pub frac_digits: Vec<u8>,
}

impl View for Decimal {
    type V = DecModel;

    open spec fn view(&self) -> DecModel {
        DecModel {
            neg: self.neg,
            int_digits: self.int_digits@,
            frac_digits: self.frac_digits@,
        }
    }
}

/// Well-formedness of a decimal model: digit ranges, a normalized integer
/// part, and no negative zero.
pub open spec fn dec_wf(d: DecModel) -> bool {
    &&& digits_ok(d.int_digits)
    &&& digits_ok(d.frac_digits)
    &&& d.int_digits.len() >= 1
    &&& (d.int_digits.len() > 1 ==> d.int_digits[0] != 0)
    &&& (d.neg ==> dvalu(d.int_digits) != 0 || dvalu(d.frac_digits) != 0)
}

/// The characters of the wire literal a decimal model renders to.
pub open spec fn dec_chars_m(d: DecModel) -> Seq<char> {
    let sign: Seq<char> = if d.neg {
        seq!['-']
    } else {
        Seq::empty()
    };
    let ip = chars_of_digits(d.int_digits);
    if d.frac_digits.len() == 0 {
        sign + ip
    } else {
        sign + ip + seq!['.'] + chars_of_digits(d.frac_digits)
    }
}

impl Decimal {
    /// Well-formedness: digit ranges, a normalized integer part, and no
    /// negative zero.
    pub open spec fn wf(&self) -> bool {
        dec_wf(self@)
    }

    /// The characters of the wire literal this number renders to.
    pub open spec fn chars_spec(&self) -> Seq<char> {
        dec_chars_m(self@)
    }

    /// Decides well-formedness at run time, for callers that assemble
    /// numbers by hand.
    pub fn check_wf(&self) -> (r: bool)
        ensures
            r == self.wf(),
    {
        let mut i: usize = 0;
        let mut int_ok = true;
        while i < self.int_digits.len()
            invariant
                i <= self.int_digits@.len(),
                int_ok == (forall|j: int| 0 <= j < i ==> #[trigger] self.int_digits@[j] <= 9),
            decreases self.int_digits@.len() - i,
        {
            int_ok = int_ok && self.int_digits[i] <= 9;
            i += 1;
        }
        let mut k: usize = 0;
        let mut frac_ok = true;
        while k < self.frac_digits.len()
            invariant
                k <= self.frac_digits@.len(),
                frac_ok == (forall|j: int| 0 <= j < k ==> #[trigger] self.frac_digits@[j] <= 9),
            decreases self.frac_digits@.len() - k,
        {
            frac_ok = frac_ok && self.frac_digits[k] <= 9;
            k += 1;
        }
        let shape_ok = self.int_digits.len() >= 1 && (self.int_digits.len() == 1
            || self.int_digits[0] != 0);
        let neg_ok = if self.neg && int_ok && frac_ok {
            let int_zero = digits_all_zero(&self.int_digits);
            let frac_zero = digits_all_zero(&self.frac_digits);
            proof {
                lemma_dvalu_zero_iff(self.int_digits@);
                lemma_dvalu_zero_iff(self.frac_digits@);
            }
            !(int_zero && frac_zero)
        } else {
            true
        };
        int_ok && frac_ok && shape_ok && neg_ok
    }

    /// A copy of the number.
    pub fn duplicate(&self) -> (r: Decimal)
        ensures
            r@ == self@,
    {
        Decimal {
            neg: self.neg,
            int_digits: copy_digits(&self.int_digits),
            frac_digits: copy_digits(&self.frac_digits),
        }
    }

    /// Reads a decimal literal: an optional minus sign, integer digits, and
    /// optionally a point followed by fraction digits.
    ///
    /// This is deliberately the plain-decimal grammar the wire format
    /// writes; exponent forms are refused as malformed, since nothing here
    /// ever emits one and an exponent cannot be kept exactly in this
    /// representation.  Returns the parsed number exactly when the literal
    /// fits the grammar; leading zeros are dropped and a minus sign on zero
    /// is ignored, so the result is always well formed.
    #[verifier::rlimit(100)]
    pub fn parse(s: &str) -> (r: Result<Decimal, OdsError>)
        ensures
            r is Ok <==> valid_dec(s@),
            r is Ok ==> (r->Ok_0).wf(),
            r is Ok ==> (r->Ok_0).int_digits@ == digits_of_chars(strip_zeros(spec_int_part(s@))),
            r is Ok ==> (r->Ok_0).frac_digits@ == digits_of_chars(spec_frac_part(s@)),
            r is Ok ==> (r->Ok_0).neg == (spec_negative(s@) && !spec_zero_literal(s@)),
            r is Err ==> (r matches Err(OdsError::ParseFloat(_))),
    {
        let len = s.unicode_len();
        let negsign = len > 0 && s.get_char(0) == '-';
        let start: usize = if negsign {
            1
        } else {
            0
        };
        let ghost body = literal_body(s@);
        proof {
            assert(body =~= s@.subrange(start as int, len as int));
        }
        // Skip the leading zeros of the integer part, then collect the
        // remaining integer digits.
        let zskip = skip_zeros(s, start);
        let ghost zend = zskip as int;
        let (ip, k, nz_int) = scan_digits(s, zskip);
        proof {
            if ip@.len() > 0 {
                assert(ip@[0] == char_digit(s@[zend]) as u8);
                assert(is_digit_char(s@[zend])) by {
                    assert(s@.subrange(zend, k as int)[0] == s@[zend]);
                }
                assert(ip@[0] != 0);
            }
        }
        if k == start {
            // Not a single integer digit: the literal is malformed.
            proof {
                if start < len {
                    let c0 = body[0];
                    assert(c0 == s@[start as int]);
                    assert(!is_digit_char(c0));
                    if c0 == '.' {
                        assert(find_dot(body) == 0);
                        assert(spec_int_part(s@).len() == 0);
                    } else {
                        lemma_find_dot_ge(body, 1);
                        assert(spec_int_part(s@)[0] == c0);
                        assert(!all_digits(spec_int_part(s@)));
                    }
                } else {
                    assert(body.len() == 0);
                    lemma_find_dot_ge(body, 0);
                    assert(spec_int_part(s@).len() == 0);
                }
            }
            return Err(OdsError::ParseFloat("invalid decimal literal".to_owned()));
        }
        let int_digits: Vec<u8> = if ip.len() == 0 {
            let mut v: Vec<u8> = Vec::new();
            v.push(0);
            v
        } else {
            ip
        };
        if k == len {
            // No decimal point: the whole body is the integer part.
            proof {
                assert(forall|j: int| zend <= j < len ==> is_digit_char(#[trigger] s@[j])) by {
                    assert(forall|j: int|
                        zend <= j < len ==> s@[j] == s@.subrange(zend, len as int)[j - zend]);
                }
                assert(forall|j: int| 0 <= j < body.len() ==> body[j] == s@[start + j]);
                assert(forall|j: int| 0 <= j < body.len() ==> #[trigger] body[j] != '.');
                lemma_find_dot_at(body, body.len() as int);
                assert(!literal_has_dot(s@));
                assert(spec_int_part(s@) =~= body);
                assert(all_digits(body));
                assert(forall|j: int| 0 <= j < zend - start ==> body[j] == '0');
                assert(body.skip(zend - start) =~= s@.subrange(zend, len as int));
                lemma_int_part_fields(body, zend - start, ip@, int_digits@);
                assert(spec_int_part(s@) == body);
                assert(spec_frac_part(s@).len() == 0);
                assert(digits_of_chars(spec_frac_part(s@)) =~= Seq::<u8>::empty());
            }
            return Ok(
                Decimal { neg: negsign && nz_int, int_digits, frac_digits: Vec::new() },
            );
        }
        let cdot = s.get_char(k);
        if cdot != '.' {
            // A stray character where the point would stand.
            proof {
                assert(forall|j: int| zend <= j < k ==> is_digit_char(#[trigger] s@[j])) by {
                    assert(forall|j: int|
                        zend <= j < k ==> s@[j] == s@.subrange(zend, k as int)[j - zend]);
                }
                assert(forall|j: int| 0 <= j < body.len() ==> body[j] == s@[start + j]);
                assert(forall|j: int| 0 <= j < k - start ==> #[trigger] body[j] != '.');
                assert(body[k - start as int] == s@[k as int]);
                lemma_find_dot_ge(body, k - start as int + 1);
                assert(spec_int_part(s@)[k - start as int] == s@[k as int]);
                assert(!is_digit_char(s@[k as int]));
                assert(!all_digits(spec_int_part(s@)));
            }
            return Err(OdsError::ParseFloat("invalid decimal literal".to_owned()));
        }
        let ghost dpos = k as int;
        proof {
            assert(forall|j: int| zend <= j < dpos ==> is_digit_char(#[trigger] s@[j])) by {
                assert(forall|j: int|
                    zend <= j < dpos ==> s@[j] == s@.subrange(zend, dpos)[j - zend]);
            }
            assert(forall|j: int| 0 <= j < body.len() ==> body[j] == s@[start + j]);
            assert(forall|j: int| 0 <= j < dpos - start ==> #[trigger] body[j] != '.');
            assert(body[dpos - start] == '.');
            lemma_find_dot_at(body, dpos - start);
            assert(literal_has_dot(s@));
            assert(spec_int_part(s@) =~= s@.subrange(start as int, dpos));
            assert(spec_frac_part(s@) =~= s@.subrange(dpos + 1, len as int));
        }
        let ghost fstart = dpos + 1;
        let (fp, k, nz_frac) = scan_digits(s, k + 1);
        if k < len {
            // A stray character inside the fraction.
            proof {
                assert(spec_frac_part(s@)[k - fstart] == s@[k as int]);
                assert(!is_digit_char(s@[k as int]));
            }
            return Err(OdsError::ParseFloat("invalid decimal literal".to_owned()));
        }
        if fp.len() == 0 {
            // A point with nothing after it.
            proof {
                assert(spec_frac_part(s@).len() == 0);
            }
            return Err(OdsError::ParseFloat("invalid decimal literal".to_owned()));
        }
        proof {
            assert(spec_int_part(s@).len() > 0);
            assert(all_digits(spec_int_part(s@))) by {
                assert(forall|j: int|
                    start <= j < zend ==> s@[j] == '0' && is_digit_char(s@[j]));
                assert(forall|j: int|
                    zend <= j < dpos ==> is_digit_char(
                        #[trigger] s@.subrange(zend, dpos)[j - zend],
                    ));
                assert(forall|j: int|
                    0 <= j < spec_int_part(s@).len() ==> spec_int_part(s@)[j] == s@[start + j]);
            }
            assert(s@.subrange(zend, dpos) =~= spec_int_part(s@).skip(zend - start));
            assert(forall|j: int|
                0 <= j < zend - start ==> #[trigger] spec_int_part(s@)[j] == '0');
            assert(zend - start < spec_int_part(s@).len() ==> spec_int_part(s@)[zend - start]
                != '0');
            lemma_int_part_fields(spec_int_part(s@), zend - start, ip@, int_digits@);
            assert(spec_frac_part(s@) =~= s@.subrange(fstart, len as int));
            lemma_dvalu_of_chars(spec_frac_part(s@));
        }
        Ok(Decimal { neg: negsign && (nz_int || nz_frac), int_digits, frac_digits: fp })
    }

    /// The number with its decimal point moved two places right: the value
    /// times one hundred, exactly.  Percentages store the fraction on the
    /// wire but display the scaled value.
    pub fn times100(&self) -> (r: Decimal)
        requires
            self.wf(),
        ensures
            r.wf(),
            r.neg == self.neg,
            r.int_digits@ == strip0u(self.int_digits@ + pad2(self.frac_digits@).take(2)),
            r.frac_digits@ == pad2(self.frac_digits@).skip(2),
    {
        let mut f2 = copy_digits(&self.frac_digits);
        if f2.len() == 0 {
            f2.push(0);
        }
        if f2.len() == 1 {
            f2.push(0);
        }
        proof {
            assert(f2@ =~= pad2(self.frac_digits@));
        }
        let mut int2 = copy_digits(&self.int_digits);
        int2.push(f2[0]);
        int2.push(f2[1]);
        let ghost glued = int2@;
        proof {
            assert(glued =~= self.int_digits@ + pad2(self.frac_digits@).take(2));
        }
        let mut frac2: Vec<u8> = Vec::new();
        let mut i: usize = 2;
        while i < f2.len()
            invariant
                2 <= i <= f2@.len(),
                frac2@ == f2@.subrange(2, i as int),
            decreases f2@.len() - i,
        {
            frac2.push(f2[i]);
            proof {
                assert(f2@.subrange(2, (i + 1) as int) =~= f2@.subrange(2, i as int).push(
                    f2@[i as int],
                ));
            }
            i += 1;
        }
        proof {
            assert(frac2@ =~= pad2(self.frac_digits@).skip(2));
        }
        // Normalize the integer part.
        while int2.len() > 1 && int2[0] == 0
            invariant
                int2@.len() >= 1,
                strip0u(int2@) == strip0u(glued),
            decreases int2@.len(),
        {
            let ghost before = int2@;
            int2.remove(0);
            proof {
                assert(before.remove(0) =~= before.skip(1));
                assert(strip0u(before) == strip0u(before.skip(1)));
            }
        }
        proof {
            assert(strip0u(int2@) == int2@);
            lemma_times100_wf(*self, glued, frac2@);
        }
        Decimal { neg: self.neg, int_digits: int2, frac_digits: frac2 }
    }

    /// Renders the number as its wire literal.
    pub fn to_text(&self) -> (r: String)
        requires
            self.wf(),
        ensures
            r@ == self.chars_spec(),
    {
        let mut out = String::new();
        if self.neg {
            push_char(&mut out, '-');
        }
        push_digits(&mut out, &self.int_digits);
        if self.frac_digits.len() > 0 {
            push_char(&mut out, '.');
            push_digits(&mut out, &self.frac_digits);
        }
        proof {
            assert(out@ =~= self.chars_spec());
        }
        out
    }
}

/// Scans forward from `from` over a run of zero characters.
fn skip_zeros(s: &str, from: usize) -> (r: usize)
    requires
        from <= s@.len(),
    ensures
        from <= r <= s@.len(),
        forall|j: int| from <= j < r ==> s@[j] == '0',
        r < s@.len() ==> s@[r as int] != '0',
{
    let len = s.unicode_len();
    let mut k = from;
    while k < len && s.get_char(k) == '0'
        invariant
            len == s@.len(),
            from <= k <= len,
            forall|j: int| from <= j < k ==> s@[j] == '0',
        decreases len - k,
    {
        k += 1;
    }
    k
}

/// Collects the run of digits that starts at `from`: their values, the index
/// where the run ends, and whether any of them is non-zero.
fn scan_digits(s: &str, from: usize) -> (r: (Vec<u8>, usize, bool))
    requires
        from <= s@.len(),
    ensures
        from <= r.1 <= s@.len(),
        all_digits(s@.subrange(from as int, r.1 as int)),
        r.0@ == digits_of_chars(s@.subrange(from as int, r.1 as int)),
        r.0@.len() == r.1 - from,
        digits_ok(r.0@),
        r.2 == (dvalu(r.0@) != 0),
        r.1 < s@.len() ==> !is_digit_char(s@[r.1 as int]),
{
    let len = s.unicode_len();
    let mut v: Vec<u8> = Vec::new();
    let mut nz = false;
    let mut k = from;
    while k < len && is_dig(s.get_char(k))
        invariant
            len == s@.len(),
            from <= k <= len,
            all_digits(s@.subrange(from as int, k as int)),
            v@ == digits_of_chars(s@.subrange(from as int, k as int)),
            v@.len() == k - from,
            digits_ok(v@),
            nz == (dvalu(v@) != 0),
        decreases len - k,
    {
        let c = s.get_char(k);
        let d = (c as u32 - 48) as u8;
        proof {
            assert(s@.subrange(from as int, (k + 1) as int) =~= s@.subrange(
                from as int,
                k as int,
            ).push(s@[k as int]));
            assert(digits_of_chars(s@.subrange(from as int, k as int).push(s@[k as int]))
                =~= digits_of_chars(s@.subrange(from as int, k as int)).push(
                char_digit(s@[k as int]) as u8,
            ));
            assert(v@.push(d as u8).drop_last() =~= v@);
        }
        nz = nz || d != 0;
        v.push(d);
        k += 1;
    }
    (v, k, nz)
}

/// Whether every digit of a vector is zero.
fn digits_all_zero(v: &Vec<u8>) -> (r: bool)
    ensures
        r == (forall|j: int| 0 <= j < v@.len() ==> #[trigger] v@[j] == 0),
{
    let mut i: usize = 0;
    while i < v.len()
        invariant
            i <= v@.len(),
            forall|j: int| 0 <= j < i ==> #[trigger] v@[j] == 0,
        decreases v@.len() - i,
    {
        if v[i] != 0 {
            return false;
        }
        i += 1;
    }
    true
}

/// Copies a digit vector.
pub fn copy_digits(v: &Vec<u8>) -> (r: Vec<u8>)
    ensures
        r@ == v@,
{
    let mut r: Vec<u8> = Vec::new();
    let mut i: usize = 0;
    while i < v.len()
        invariant
            i <= v@.len(),
            r@ == v@.subrange(0, i as int),
        decreases v@.len() - i,
    {
        r.push(v[i]);
        proof {
            assert(v@.subrange(0, (i + 1) as int) =~= v@.subrange(0, i as int).push(v@[i as int]));
        }
        i += 1;
    }
    proof {
        assert(v@.subrange(0, v@.len() as int) =~= v@);
    }
    r
}

/// Appends the characters of a digit vector to `out`.
pub fn push_digits(out: &mut String, v: &Vec<u8>)
    requires
        digits_ok(v@),
    ensures
        final(out)@ == old(out)@ + chars_of_digits(v@),
{
    let mut i: usize = 0;
    while i < v.len()
        invariant
            digits_ok(v@),
            i <= v@.len(),
            out@ == old(out)@ + chars_of_digits(v@).subrange(0, i as int),
        decreases v@.len() - i,
    {
        let d = v[i];
        push_char(out, (48 + d) as char);
        proof {
            assert(chars_of_digits(v@).subrange(0, (i + 1) as int) =~= chars_of_digits(
                v@,
            ).subrange(0, i as int).push(digit_char(v@[i as int] as int)));
        }
        i += 1;
    }
    proof {
        assert(chars_of_digits(v@).subrange(0, v@.len() as int) =~= chars_of_digits(v@));
    }
}

/// The index of the first decimal point in `s`, or `s.len()` if none occurs.
pub open spec fn find_dot(s: Seq<char>) -> int
    decreases s.len(),
{
    if s.len() == 0 {
        0
    } else if s[0] == '.' {
        0
    } else {
        1 + find_dot(s.skip(1))
    }
}

/// The literal with its sign removed.
pub open spec fn literal_body(s: Seq<char>) -> Seq<char> {
    if s.len() > 0 && s[0] == '-' {
        s.skip(1)
    } else {
        s
    }
}

/// Whether the literal carries a leading minus sign.
pub open spec fn spec_negative(s: Seq<char>) -> bool {
    s.len() > 0 && s[0] == '-'
}

/// The characters before the first decimal point (sign removed).
pub open spec fn spec_int_part(s: Seq<char>) -> Seq<char> {
    literal_body(s).take(find_dot(literal_body(s)))
}

/// Whether the literal contains a decimal point.
pub open spec fn literal_has_dot(s: Seq<char>) -> bool {
    find_dot(literal_body(s)) < literal_body(s).len()
}

/// The characters after the first decimal point; empty without one.
pub open spec fn spec_frac_part(s: Seq<char>) -> Seq<char> {
    if literal_has_dot(s) {
        literal_body(s).skip(find_dot(literal_body(s)) + 1)
    } else {
        Seq::empty()
    }
}

/// The grammar of an accepted decimal literal: an optional sign, a non-empty
/// digit run, and optionally a point followed by a non-empty digit run.
pub open spec fn valid_dec(s: Seq<char>) -> bool {
    &&& spec_int_part(s).len() > 0
    &&& all_digits(spec_int_part(s))
    &&& (literal_has_dot(s) ==> spec_frac_part(s).len() > 0 && all_digits(spec_frac_part(s)))
}

/// Whether the literal denotes the number zero.
pub open spec fn spec_zero_literal(s: Seq<char>) -> bool {
    digits_val(spec_int_part(s)) == 0 && digits_val(spec_frac_part(s)) == 0
}

/// `find_dot` lands on the first point: before `m` there is none, and either
/// `m` is the end or holds one.
pub proof fn lemma_find_dot_at(s: Seq<char>, m: int)
    requires
        0 <= m <= s.len(),
        forall|j: int| 0 <= j < m ==> s[j] != '.',
        m == s.len() || s[m] == '.',
    ensures
        find_dot(s) == m,
    decreases m,
{
    if m == 0 {
    } else {
        assert(forall|j: int| 0 <= j < m - 1 ==> s.skip(1)[j] != '.');
        lemma_find_dot_at(s.skip(1), m - 1);
    }
}

/// Without any point among the first `m` characters, `find_dot` is at least
/// `m`; and it never passes the end.
pub proof fn lemma_find_dot_ge(s: Seq<char>, m: int)
    requires
        0 <= m <= s.len(),
        forall|j: int| 0 <= j < m ==> s[j] != '.',
    ensures
        find_dot(s) >= m,
        find_dot(s) <= s.len(),
    decreases s.len(),
{
    if s.len() > 0 && s[0] != '.' {
        assert(forall|j: int| 0 <= j < m - 1 ==> s.skip(1)[j] != '.');
        if m > 0 {
            lemma_find_dot_ge(s.skip(1), m - 1);
        } else {
            lemma_find_dot_ge(s.skip(1), 0);
        }
    }
}

/// How the stored integer digits arise from the written integer part: strip
/// the leading zeros, or keep a single zero when nothing else remains.
pub proof fn lemma_int_part_fields(part: Seq<char>, zcount: int, ip: Seq<u8>, chosen: Seq<u8>)
    requires
        0 <= zcount <= part.len(),
        part.len() > 0,
        all_digits(part),
        forall|j: int| 0 <= j < zcount ==> part[j] == '0',
        zcount < part.len() ==> part[zcount] != '0',
        ip == digits_of_chars(part.skip(zcount)),
        chosen == if ip.len() == 0 {
            seq![0u8]
        } else {
            ip
        },
    ensures
        chosen == digits_of_chars(strip_zeros(part)),
        digits_ok(chosen),
        chosen.len() >= 1,
        chosen.len() > 1 ==> chosen[0] != 0,
        dvalu(chosen) == digits_val(part),
        dvalu(ip) == digits_val(part),
{
    crate::digits::lemma_digits_val_zero_prefix(part, zcount);
    assert(all_digits(part.skip(zcount))) by {
        assert(forall|j: int|
            0 <= j < part.skip(zcount).len() ==> part.skip(zcount)[j] == part[j + zcount]);
    }
    lemma_dvalu_of_chars(part.skip(zcount));
    if ip.len() == 0 {
        assert(zcount == part.len());
        crate::digits::lemma_strip_all_zero_exact(part);
        assert(digits_of_chars(seq!['0']) =~= seq![0u8]);
        assert(dvalu(seq![0u8]) == 0) by {
            reveal_with_fuel(dvalu, 3);
            assert(seq![0u8].drop_last() =~= Seq::<u8>::empty());
            assert(dvalu(Seq::<u8>::empty()) == 0);
            assert(seq![0u8].last() == 0);
        }
        crate::digits::lemma_digits_val_all_zero(part);
    } else {
        assert(zcount < part.len());
        if zcount > 0 {
            crate::digits::lemma_strip_of_zero_prefix(part, zcount);
        } else {
            assert(part.skip(0) =~= part);
            assert(strip_zeros(part) == part) by {
                if part.len() > 1 {
                    assert(part[0] != '0');
                }
            }
        }
        assert(chosen == digits_of_chars(part.skip(zcount)));
        assert(chosen[0] == char_digit(part[zcount]) as u8);
        assert(part[zcount] != '0' && is_digit_char(part[zcount]));
        assert(chosen[0] != 0);
        assert(digits_ok(chosen));
    }
}

/// Digit vectors decoded from digit strings carry the same value.
pub proof fn lemma_dvalu_of_chars(t: Seq<char>)
    requires
        all_digits(t),
    ensures
        dvalu(digits_of_chars(t)) == digits_val(t),
        digits_ok(digits_of_chars(t)),
    decreases t.len(),
{
    if t.len() > 0 {
        assert(all_digits(t.drop_last())) by {
            assert(forall|j: int| 0 <= j < t.len() - 1 ==> t.drop_last()[j] == t[j]);
        }
        lemma_dvalu_of_chars(t.drop_last());
        assert(digits_of_chars(t).drop_last() =~= digits_of_chars(t.drop_last()));
        assert(digits_of_chars(t).last() == char_digit(t.last()) as u8);
    }
}

/// A fraction padded with zeros on the right to at least two digits.
pub open spec fn pad2(f: Seq<u8>) -> Seq<u8> {
    if f.len() >= 2 {
        f
    } else if f.len() == 1 {
        f + seq![0u8]
    } else {
        seq![0u8, 0u8]
    }
}

/// Shifting the decimal point two places right keeps the digits sound and
/// cannot turn a non-zero number into zero.
proof fn lemma_times100_wf(d: Decimal, glued: Seq<u8>, frac2: Seq<u8>)
    requires
        d.wf(),
        glued == d.int_digits@ + pad2(d.frac_digits@).take(2),
        frac2 == pad2(d.frac_digits@).skip(2),
    ensures
        digits_ok(strip0u(glued)),
        digits_ok(frac2),
        strip0u(glued).len() >= 1,
        strip0u(glued).len() > 1 ==> strip0u(glued)[0] != 0,
        d.neg ==> dvalu(strip0u(glued)) != 0 || dvalu(frac2) != 0,
{
    let f = d.frac_digits@;
    let p2 = pad2(f);
    let take2 = p2.take(2);
    assert(digits_ok(p2));
    assert(digits_ok(glued));
    assert(digits_ok(frac2));
    lemma_strip0u_val(glued);
    if d.neg {
        lemma_dvalu_concat(d.int_digits@, take2);
        assert(crate::digits::pow10(2) == 100) by {
            reveal_with_fuel(crate::digits::pow10, 3);
        }
        if dvalu(d.int_digits@) != 0 {
            assert(dvalu(d.int_digits@) * 100 + dvalu(take2) != 0) by (nonlinear_arith)
                requires
                    dvalu(d.int_digits@) != 0,
            ;
            assert(dvalu(glued) != 0);
        } else {
            assert(dvalu(f) != 0);
            // The padded fraction keeps the non-zero value.
            assert(dvalu(p2) != 0) by {
                if f.len() == 1 {
                    lemma_dvalu_concat(f, seq![0u8]);
                    assert(dvalu(seq![0u8]) == 0) by {
                        reveal_with_fuel(dvalu, 3);
                        assert(seq![0u8].drop_last() =~= Seq::<u8>::empty());
                    }
                    assert(crate::digits::pow10(1) == 10) by {
                        reveal_with_fuel(crate::digits::pow10, 2);
                    }
                    assert(dvalu(p2) == dvalu(f) * 10);
                }
            }
            assert(p2 =~= take2 + p2.skip(2));
            lemma_dvalu_concat(take2, p2.skip(2));
            if dvalu(p2.skip(2)) == 0 {
                assert(dvalu(take2) != 0) by {
                    assert(dvalu(p2) == dvalu(take2) * crate::digits::pow10(p2.skip(2).len()));
                    assert(forall|x: nat, p: nat|
                        x == 0 ==> #[trigger] (x * p) == 0) by (nonlinear_arith);
                }
                assert(dvalu(glued) != 0);
            }
        }
    }
}

/// Rendering digits to characters and reading them back is the identity.
pub proof fn lemma_chars_digits_inverse(v: Seq<u8>)
    requires
        digits_ok(v),
    ensures
        digits_of_chars(chars_of_digits(v)) == v,
        all_digits(chars_of_digits(v)),
        digits_val(chars_of_digits(v)) == dvalu(v),
        forall|j: int| 0 <= j < v.len() ==> #[trigger] chars_of_digits(v)[j] != '.',
        forall|j: int| 0 <= j < v.len() ==> #[trigger] chars_of_digits(v)[j] != '-',
{
    assert forall|j: int| 0 <= j < v.len() implies {
        &&& char_digit(#[trigger] chars_of_digits(v)[j]) == v[j]
        &&& is_digit_char(chars_of_digits(v)[j])
        &&& chars_of_digits(v)[j] != '.'
        &&& chars_of_digits(v)[j] != '-'
    } by {
        lemma_digit_char_val(v[j] as int);
    }
    assert(digits_of_chars(chars_of_digits(v)) =~= v);
    lemma_dvalu_of_chars(chars_of_digits(v));
}

/// Writing a well-formed number and parsing the text back reproduces it:
/// the rendered literal is valid, and the decomposition that [`Decimal::parse`]
/// promises yields the original sign and digits.
pub proof fn lemma_dec_roundtrip(d: DecModel)
    requires
        dec_wf(d),
    ensures
        valid_dec(dec_chars_m(d)),
        digits_of_chars(strip_zeros(spec_int_part(dec_chars_m(d)))) == d.int_digits,
        digits_of_chars(spec_frac_part(dec_chars_m(d))) == d.frac_digits,
        (spec_negative(dec_chars_m(d)) && !spec_zero_literal(dec_chars_m(d))) == d.neg,
{
    let cs = dec_chars_m(d);
    let ic = chars_of_digits(d.int_digits);
    let fc = chars_of_digits(d.frac_digits);
    lemma_chars_digits_inverse(d.int_digits);
    lemma_chars_digits_inverse(d.frac_digits);
    let body = literal_body(cs);
    if d.neg {
        assert(cs[0] == '-');
        assert(spec_negative(cs));
    } else {
        assert(cs[0] == ic[0]);
        assert(!spec_negative(cs));
    }
    if d.frac_digits.len() == 0 {
        assert(body =~= ic);
        lemma_find_dot_at(body, body.len() as int);
        assert(!literal_has_dot(cs));
        assert(spec_int_part(cs) =~= ic);
        assert(spec_frac_part(cs) =~= Seq::<char>::empty());
    } else {
        assert(body =~= ic + seq!['.'] + fc);
        assert(forall|j: int| 0 <= j < ic.len() ==> #[trigger] body[j] != '.') by {
            assert(forall|j: int| 0 <= j < ic.len() ==> body[j] == ic[j]);
        }
        assert(body[ic.len() as int] == '.');
        lemma_find_dot_at(body, ic.len() as int);
        assert(literal_has_dot(cs));
        assert(spec_int_part(cs) =~= ic);
        assert(spec_frac_part(cs) =~= fc);
    }
    // A normalized integer part is untouched by zero stripping.
    assert(strip_zeros(ic) == ic) by {
        if ic.len() > 1 {
            lemma_digit_char_val(d.int_digits[0] as int);
            assert(ic[0] != '0');
        }
    }
    assert(digits_of_chars(strip_zeros(spec_int_part(cs))) == d.int_digits);
    assert(digits_of_chars(spec_frac_part(cs)) == d.frac_digits) by {
        if d.frac_digits.len() == 0 {
            assert(digits_of_chars(Seq::<char>::empty()) =~= Seq::<u8>::empty());
        }
    }
    assert(spec_zero_literal(cs) == (dvalu(d.int_digits) == 0 && dvalu(d.frac_digits) == 0))
        by {
        if d.frac_digits.len() == 0 {
            assert(digits_val(spec_frac_part(cs)) == 0);
        }
    }
}

/// A digit vector's value is zero exactly when every digit is zero.
pub proof fn lemma_dvalu_zero_iff(s: Seq<u8>)
    requires
        digits_ok(s),
    ensures
        dvalu(s) == 0 <==> (forall|i: int| 0 <= i < s.len() ==> #[trigger] s[i] == 0),
    decreases s.len(),
{
    if s.len() > 0 {
        lemma_dvalu_zero_iff(s.drop_last());
        if dvalu(s) == 0 {
            assert(forall|i: int|
                0 <= i < s.len() - 1 ==> #[trigger] s[i] == s.drop_last()[i]);
        } else {
            if forall|i: int| 0 <= i < s.len() ==> #[trigger] s[i] == 0 {
                assert(forall|i: int|
                    0 <= i < s.len() - 1 ==> #[trigger] s.drop_last()[i] == s[i]);
                assert(dvalu(s.drop_last()) == 0);
                assert(s.last() == 0);
            }
        }
    }
}

/// Concatenation splits a digit vector's value positionally.
pub proof fn lemma_dvalu_concat(a: Seq<u8>, b: Seq<u8>)
    ensures
        dvalu(a + b) == dvalu(a) * crate::digits::pow10(b.len()) + dvalu(b),
    decreases b.len(),
{
    if b.len() == 0 {
        assert(a + b =~= a);
        assert(crate::digits::pow10(0) == 1);
        assert(dvalu(b) == 0);
        assert(dvalu(a) * 1 == dvalu(a));
    } else {
        lemma_dvalu_concat(a, b.drop_last());
        assert((a + b).drop_last() =~= a + b.drop_last());
        assert((a + b).last() == b.last());
        let x = dvalu(a);
        let y = dvalu(b.drop_last());
        let d = b.last() as nat;
        let p = crate::digits::pow10(b.drop_last().len());
        assert(dvalu(a + b) == (x * p + y) * 10 + d);
        assert(crate::digits::pow10(b.len()) == 10 * p) by {
            assert(b.len() == b.drop_last().len() + 1);
        }
        assert(dvalu(b) == y * 10 + d);
        assert((x * p + y) * 10 + d == x * (10 * p) + (y * 10 + d)) by (nonlinear_arith);
        assert(dvalu(a + b) == x * (10 * p) + dvalu(b));
        assert(x * crate::digits::pow10(b.len()) == x * (10 * p));
    }
}

/// Stripping leading zeros keeps a digit vector's value.
pub proof fn lemma_strip0u_val(s: Seq<u8>)
    ensures
        dvalu(strip0u(s)) == dvalu(s),
        strip0u(s).len() <= s.len(),
        s.len() >= 1 ==> strip0u(s).len() >= 1,
        digits_ok(s) ==> digits_ok(strip0u(s)),
        strip0u(s).len() > 1 ==> strip0u(s)[0] != 0,
    decreases s.len(),
{
    if s.len() > 1 && s[0] == 0 {
        lemma_strip0u_val(s.skip(1));
        assert(s =~= seq![s[0]] + s.skip(1));
        lemma_dvalu_concat(seq![s[0]], s.skip(1));
        assert(dvalu(seq![s[0]]) == 0) by {
            let one = seq![s[0]];
            assert(one.drop_last() =~= Seq::<u8>::empty());
            assert(dvalu(one) == dvalu(one.drop_last()) * 10 + one.last() as nat);
            assert(one.last() == s[0]);
        }
        assert(forall|i: int| 0 <= i < s.skip(1).len() ==> s.skip(1)[i] == s[i + 1]);
    } else if s.len() == 1 {
    } else if s.len() > 1 {
        assert(strip0u(s) == s);
    }
}

} // verus!
