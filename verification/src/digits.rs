//! Characters, digit sequences and small numeric literals.
//!
//! The wire format stores every number as decimal text.  This module holds
//! the character-level vocabulary shared by the value codec and the format
//! renderer: what a digit is, what sequence of characters a number renders
//! to, and how small counters (repeat counts) are read back.

use vstd::prelude::*;

verus! {

/// Whether `c` is a decimal digit.
pub open spec fn is_digit_char(c: char) -> bool {
    48 <= c as int <= 57
}

/// The digit character for a value `d` in `0 ..= 9`.
pub open spec fn digit_char(d: int) -> char {
    ((48 + d) as u8) as char
}

/// The numeric value of a digit character.
pub open spec fn char_digit(c: char) -> int {
    c as int - 48
}

/// Whether every character of `s` is a decimal digit.
pub open spec fn all_digits(s: Seq<char>) -> bool {
    forall|i: int| 0 <= i < s.len() ==> is_digit_char(#[trigger] s[i])
}

/// The numeric value of a digit string, most significant digit first.
pub open spec fn digits_val(s: Seq<char>) -> nat
    decreases s.len(),
{
    if s.len() == 0 {
        0
    } else {
        digits_val(s.drop_last()) * 10 + (char_digit(s.last())) as nat
    }
}

/// The decimal rendering of `n`, without leading zeros.
pub open spec fn dec_chars(n: nat) -> Seq<char>
    decreases n,
{
    if n < 10 {
        seq![digit_char(n as int)]
    } else {
        dec_chars(n / 10) + seq![digit_char((n % 10) as int)]
    }
}

/// The decimal rendering of `n` padded with leading zeros to `width` digits.
pub open spec fn padded_chars(n: nat, width: nat) -> Seq<char>
    decreases width,
{
    if width == 0 {
        Seq::empty()
    } else {
        padded_chars(n / 10, (width - 1) as nat) + seq![digit_char((n % 10) as int)]
    }
}

/// Ten to the `n`.
pub open spec fn pow10(n: nat) -> nat
    decreases n,
{
    if n == 0 {
        1
    } else {
        10 * pow10((n - 1) as nat)
    }
}

/// Larger exponents give larger powers.
pub proof fn lemma_pow10_mono(a: nat, b: nat)
    requires
        a <= b,
    ensures
        pow10(a) <= pow10(b),
    decreases b,
{
    if a < b {
        lemma_pow10_mono(a, (b - 1) as nat);
    }
}

/// Powers of ten multiply by adding exponents.
pub proof fn lemma_pow10_add(a: nat, b: nat)
    ensures
        pow10(a + b) == pow10(a) * pow10(b),
    decreases b,
{
    if b == 0 {
        assert(pow10(a) * 1 == pow10(a));
    } else {
        lemma_pow10_add(a, (b - 1) as nat);
        assert(pow10(a + b) == 10 * pow10((a + b - 1) as nat));
        assert(pow10(a) * (10 * pow10((b - 1) as nat)) == 10 * (pow10(a) * pow10(
            (b - 1) as nat,
        ))) by (nonlinear_arith);
    }
}

/// The leading zeros of a digit string removed; the last digit always stays,
/// so a run of zeros shrinks to a single zero.
pub open spec fn strip_zeros(s: Seq<char>) -> Seq<char>
    decreases s.len(),
{
    if s.len() <= 1 {
        s
    } else if s[0] == '0' {
        strip_zeros(s.skip(1))
    } else {
        s
    }
}

/// Whether `c` is one of the four blank characters trimmed from text runs.
pub open spec fn is_space_char(c: char) -> bool {
    c == ' ' || c == '\t' || c == '\n' || c == '\r'
}

/// The run with its leading blanks removed.
pub open spec fn trim_front(s: Seq<char>) -> Seq<char>
    decreases s.len(),
{
    if s.len() > 0 && is_space_char(s.first()) {
        trim_front(s.drop_first())
    } else {
        s
    }
}

/// The run with its trailing blanks removed.
pub open spec fn trim_back(s: Seq<char>) -> Seq<char>
    decreases s.len(),
{
    if s.len() > 0 && is_space_char(s.last()) {
        trim_back(s.drop_last())
    } else {
        s
    }
}

/// Removes blanks from both ends of a text run.
pub fn trim_both(s: &str) -> (r: String)
    ensures
        r@ == trim_back(trim_front(s@)),
{
    let len = s.unicode_len();
    let mut a: usize = 0;
    while a < len && is_space_x(s.get_char(a))
        invariant
            len == s@.len(),
            a <= len,
            forall|j: int| 0 <= j < a ==> is_space_char(#[trigger] s@[j]),
        decreases len - a,
    {
        a += 1;
    }
    proof {
        lemma_trim_front_skips(s@, a as int);
    }
    let mut b: usize = len;
    while b > a && is_space_x(s.get_char(b - 1))
        invariant
            len == s@.len(),
            a <= b <= len,
            forall|j: int| b <= j < len ==> is_space_char(#[trigger] s@[j]),
        decreases b,
    {
        b -= 1;
    }
    proof {
        lemma_trim_back_drops(s@.skip(a as int), (b - a) as int);
        assert(s@.skip(a as int).take((b - a) as int) =~= s@.subrange(a as int, b as int));
    }
    let piece = s.substring_char(a, b);
    piece.to_owned()
}

/// Whether `c` is a blank, decided at run time.
pub fn is_space_x(c: char) -> (r: bool)
    ensures
        r == is_space_char(c),
{
    c == ' ' || c == '\t' || c == '\n' || c == '\r'
}

/// Skipping exactly the leading blanks is what front trimming does.
proof fn lemma_trim_front_skips(s: Seq<char>, a: int)
    requires
        0 <= a <= s.len(),
        forall|j: int| 0 <= j < a ==> is_space_char(#[trigger] s[j]),
        a < s.len() ==> !is_space_char(s[a]),
    ensures
        trim_front(s) == s.skip(a),
    decreases a,
{
    if a == 0 {
        assert(s.skip(0) =~= s);
    } else {
        assert(is_space_char(s.first()));
        assert(forall|j: int| 0 <= j < a - 1 ==> is_space_char(#[trigger] s.drop_first()[j]));
        lemma_trim_front_skips(s.drop_first(), a - 1);
        assert(s.drop_first().skip(a - 1) =~= s.skip(a));
    }
}

/// Dropping exactly the trailing blanks is what back trimming does.
proof fn lemma_trim_back_drops(s: Seq<char>, b: int)
    requires
        0 <= b <= s.len(),
        forall|j: int| b <= j < s.len() ==> is_space_char(#[trigger] s[j]),
        b > 0 ==> !is_space_char(s[b - 1]),
    ensures
        trim_back(s) == s.take(b),
    decreases s.len(),
{
    if b == s.len() {
        if s.len() > 0 {
            assert(!is_space_char(s.last()));
        }
        assert(s.take(b) =~= s);
    } else {
        assert(is_space_char(s.last()));
        assert(forall|j: int|
            b <= j < s.drop_last().len() ==> is_space_char(#[trigger] s.drop_last()[j]));
        lemma_trim_back_drops(s.drop_last(), b);
        assert(s.drop_last().take(b) =~= s.take(b));
    }
}

/// Relies on `String::push`: appends the given character to the end of the
/// string.
#[verifier::external_body]
pub fn push_char(s: &mut String, c: char)
    ensures
        final(s)@ == old(s)@.push(c),
{
    s.push(c);
}

/// Whether `c` is a decimal digit, decided at run time.
pub fn is_dig(c: char) -> (r: bool)
    ensures
        r == is_digit_char(c),
{
    let v = c as u32;
    48 <= v && v <= 57
}

/// Character-wise string comparison.
pub fn str_eq(a: &str, b: &str) -> (r: bool)
    ensures
        r == (a@ == b@),
{
    let la = a.unicode_len();
    let lb = b.unicode_len();
    if la != lb {
        return false;
    }
    let mut i: usize = 0;
    while i < la
        invariant
            la == a@.len(),
            la == b@.len(),
            i <= la,
            forall|j: int| 0 <= j < i ==> a@[j] == b@[j],
        decreases la - i,
    {
        if a.get_char(i) != b.get_char(i) {
            return false;
        }
        i += 1;
    }
    proof {
        assert(a@ =~= b@);
    }
    true
}

/// Appends the decimal rendering of `n` to `out`.
pub fn push_u64(out: &mut String, n: u64)
    ensures
        final(out)@ == old(out)@ + dec_chars(n as nat),
    decreases n,
{
    if n >= 10 {
        push_u64(out, n / 10);
    }
    let d: u8 = (n % 10) as u8;
    push_char(out, (48 + d) as char);
}

/// Appends the decimal rendering of `n`, left-padded with zeros to `width`
/// digits.  Only the lowest `width` digits are written, so callers pass a
/// width that holds the whole value.
pub fn push_padded(out: &mut String, n: u64, width: u8)
    ensures
        final(out)@ == old(out)@ + padded_chars(n as nat, width as nat),
    decreases width,
{
    if width == 0 {
        return ;
    }
    push_padded(out, n / 10, width - 1);
    let d: u8 = (n % 10) as u8;
    push_char(out, (48 + d) as char);
}

/// Reads a small decimal counter, as repeat-count attributes carry one.
///
/// Accepts a non-empty run of digits whose value, after leading zeros are
/// stripped, has at most nine digits; everything else is refused, so the
/// result always fits comfortably in a `u32`.
pub fn parse_u32(s: &str) -> (r: Option<u32>)
    ensures
        r is Some <==> s@.len() > 0 && all_digits(s@) && strip_zeros(s@).len() <= 9,
        r is Some ==> r->0 as nat == digits_val(s@),
{
    let len = s.unicode_len();
    if len == 0 {
        return None;
    }
    // Skip the leading zeros first so that long zero-padded counters
    // are still accepted.
    let mut i: usize = 0;
    while i < len && s.get_char(i) == '0'
        invariant
            len == s@.len(),
            i <= len,
            forall|j: int| 0 <= j < i ==> s@[j] == '0',
        decreases len - i,
    {
        i += 1;
    }
    if len - i > 9 {
        proof {
            // The first unskipped character is not a zero, so stripping
            // removes exactly the skipped prefix.
            lemma_strip_of_zero_prefix(s@, i as int);
            if all_digits(s@) {
                assert(strip_zeros(s@).len() > 9);
            }
        }
        return None;
    }
    let mut acc: u32 = 0;
    let mut k: usize = i;
    while k < len
        invariant
            len == s@.len(),
            i <= k <= len,
            len - i <= 9,
            forall|j: int| 0 <= j < i ==> s@[j] == '0',
            all_digits(s@.subrange(i as int, k as int)),
            acc as nat == digits_val(s@.subrange(i as int, k as int)),
            acc < pow10((k - i) as nat),
        decreases len - k,
    {
        let c = s.get_char(k);
        let v = c as u32;
        if v < 48 || v > 57 {
            return None;
        }
        proof {
            assert(s@.subrange(i as int, (k + 1) as int).drop_last() =~= s@.subrange(
                i as int,
                k as int,
            ));
            lemma_pow10_mono((k - i) as nat, 8);
            assert(pow10(8) == 100000000) by {
                reveal_with_fuel(pow10, 9);
            }
        }
        acc = acc * 10 + (v - 48);
        k += 1;
    }
    proof {
        assert(s@.subrange(i as int, len as int) =~= s@.skip(i as int));
        lemma_digits_val_zero_prefix(s@, i as int);
        assert(all_digits(s@)) by {
            assert(forall|j: int|
                i <= j < s@.len() ==> is_digit_char(#[trigger] s@[j])) by {
                assert(forall|j: int|
                    i <= j < s@.len() ==> s@[j] == s@.subrange(i as int, len as int)[j - i]);
            }
        }
        if i < len {
            lemma_strip_of_zero_prefix(s@, i as int);
        } else {
            lemma_strip_all_zero(s@);
        }
    }
    Some(acc)
}

/// A digit string's value is bounded by ten to its length.
pub proof fn lemma_digits_val_bound(s: Seq<char>)
    requires
        all_digits(s),
    ensures
        digits_val(s) < pow10(s.len()),
    decreases s.len(),
{
    if s.len() > 0 {
        assert(all_digits(s.drop_last())) by {
            assert(forall|j: int| 0 <= j < s.len() - 1 ==> s.drop_last()[j] == s[j]);
        }
        lemma_digits_val_bound(s.drop_last());
        assert(char_digit(s.last()) <= 9);
        assert(digits_val(s.drop_last()) * 10 + 9 < pow10(s.drop_last().len()) * 10);
    }
}

/// A zero-padded rendering reads back to the value it was made from.
pub proof fn lemma_padded_chars_props(n: nat, width: nat)
    requires
        n < pow10(width),
    ensures
        padded_chars(n, width).len() == width,
        all_digits(padded_chars(n, width)),
        digits_val(padded_chars(n, width)) == n,
    decreases width,
{
    if width > 0 {
        lemma_padded_chars_props(n / 10, (width - 1) as nat);
        let head = padded_chars(n / 10, (width - 1) as nat);
        let tail = seq![digit_char((n % 10) as int)];
        assert(is_digit_char(digit_char((n % 10) as int)) && char_digit(
            digit_char((n % 10) as int),
        ) == n % 10) by {
            lemma_digit_char_val((n % 10) as int);
        }
        assert((head + tail).drop_last() =~= head);
        assert((head + tail).last() == digit_char((n % 10) as int));
        assert(digits_val(head + tail) == (n / 10) * 10 + n % 10);
    }
}

/// The unpadded rendering reads back to the value it was made from.
pub proof fn lemma_dec_chars_val(n: nat)
    ensures
        dec_chars(n).len() >= 1,
        all_digits(dec_chars(n)),
        digits_val(dec_chars(n)) == n,
    decreases n,
{
    if n < 10 {
        lemma_digit_char_val(n as int);
        assert(dec_chars(n) == seq![digit_char(n as int)]);
        assert(dec_chars(n).drop_last() =~= Seq::<char>::empty());
        assert(dec_chars(n).last() == digit_char(n as int));
        assert(digits_val(dec_chars(n)) == digits_val(Seq::<char>::empty()) * 10 + (char_digit(
            digit_char(n as int),
        )) as nat);
    } else {
        lemma_dec_chars_val(n / 10);
        lemma_digit_char_val((n % 10) as int);
        let head = dec_chars(n / 10);
        let tail = seq![digit_char((n % 10) as int)];
        assert((head + tail).drop_last() =~= head);
        assert((head + tail).last() == digit_char((n % 10) as int));
        assert(digits_val(head + tail) == (n / 10) * 10 + n % 10);
    }
}

/// A digit's character has that digit's value.
pub proof fn lemma_digit_char_val(d: int)
    requires
        0 <= d <= 9,
    ensures
        char_digit(digit_char(d)) == d,
        is_digit_char(digit_char(d)),
        digit_char(d) != '.',
        digit_char(d) != '-',
        d != 0 ==> digit_char(d) != '0',
{
    if d == 0 {
        assert(digit_char(0) == '0');
    } else if d == 1 {
        assert(digit_char(1) == '1');
    } else if d == 2 {
        assert(digit_char(2) == '2');
    } else if d == 3 {
        assert(digit_char(3) == '3');
    } else if d == 4 {
        assert(digit_char(4) == '4');
    } else if d == 5 {
        assert(digit_char(5) == '5');
    } else if d == 6 {
        assert(digit_char(6) == '6');
    } else if d == 7 {
        assert(digit_char(7) == '7');
    } else if d == 8 {
        assert(digit_char(8) == '8');
    } else {
        assert(digit_char(9) == '9');
    }
}

/// Reads the fixed-width decimal number written at `from`.
pub fn num_at(s: &str, from: usize, width: u8) -> (r: Option<u32>)
    requires
        from + width <= s@.len(),
        width <= 9,
    ensures
        r is Some <==> all_digits(s@.subrange(from as int, from + width)),
        r is Some ==> r->0 as nat == digits_val(s@.subrange(from as int, from + width)),
        r is Some ==> r->0 < pow10(width as nat),
{
    let slen = s.unicode_len();
    proof {
        assert(from + width <= slen);
    }
    let mut acc: u32 = 0;
    let mut i: usize = 0;
    while i < width as usize
        invariant
            from + width <= slen,
            slen == s@.len(),
            width <= 9,
            i <= width as usize,
            all_digits(s@.subrange(from as int, from + i)),
            acc as nat == digits_val(s@.subrange(from as int, from + i)),
            acc < pow10(i as nat),
        decreases width as usize - i,
    {
        let c = s.get_char(from + i);
        let v = c as u32;
        if v < 48 || v > 57 {
            proof {
                assert(s@.subrange(from as int, from + width)[i as int] == s@[from + i]);
            }
            return None;
        }
        proof {
            assert(s@.subrange(from as int, from + i + 1).drop_last() =~= s@.subrange(
                from as int,
                from + i,
            ));
            lemma_pow10_mono((i + 1) as nat, 9);
            assert(pow10(9) == 1000000000) by {
                reveal_with_fuel(pow10, 10);
            }
        }
        acc = acc * 10 + (v - 48);
        i += 1;
    }
    Some(acc)
}
pub proof fn lemma_strip_of_zero_prefix(s: Seq<char>, i: int)
    requires
        0 <= i < s.len(),
        forall|j: int| 0 <= j < i ==> s[j] == '0',
        s[i] != '0',
    ensures
        strip_zeros(s) == s.skip(i),
    decreases i,
{
    if i == 0 {
        assert(s.skip(0) =~= s);
    } else {
        assert(s.len() > 1);
        assert(s[0] == '0');
        assert(forall|j: int| 0 <= j < i - 1 ==> s.skip(1)[j] == '0');
        lemma_strip_of_zero_prefix(s.skip(1), i - 1);
        assert(s.skip(1).skip(i - 1) =~= s.skip(i));
    }
}

/// A non-empty string of zeros strips down to a single zero.
pub proof fn lemma_strip_all_zero_exact(s: Seq<char>)
    requires
        s.len() >= 1,
        forall|j: int| 0 <= j < s.len() ==> s[j] == '0',
    ensures
        strip_zeros(s) == seq!['0'],
    decreases s.len(),
{
    if s.len() == 1 {
        assert(s =~= seq!['0']);
    } else {
        lemma_strip_all_zero_exact(s.skip(1));
    }
}

/// A string of zeros strips down to at most one character.
proof fn lemma_strip_all_zero(s: Seq<char>)
    requires
        forall|j: int| 0 <= j < s.len() ==> s[j] == '0',
    ensures
        strip_zeros(s).len() <= 1,
    decreases s.len(),
{
    if s.len() > 1 {
        lemma_strip_all_zero(s.skip(1));
    }
}

/// Leading zeros do not change a digit string's value.
pub proof fn lemma_digits_val_zero_prefix(s: Seq<char>, i: int)
    requires
        0 <= i <= s.len(),
        forall|j: int| 0 <= j < i ==> s[j] == '0',
    ensures
        digits_val(s) == digits_val(s.skip(i)),
    decreases s.len(),
{
    if i > 0 {
        if s.len() == i {
            lemma_digits_val_all_zero(s);
            assert(s.skip(i).len() == 0);
        } else {
            assert(forall|j: int| 0 <= j < i ==> s.drop_last()[j] == '0');
            lemma_digits_val_zero_prefix(s.drop_last(), i);
            assert(s.skip(i).drop_last() =~= s.drop_last().skip(i));
            assert(s.skip(i).last() == s.last());
        }
    } else {
        assert(s.skip(0) =~= s);
    }
}

/// A string of zeros has value zero.
pub proof fn lemma_digits_val_all_zero(s: Seq<char>)
    requires
        forall|j: int| 0 <= j < s.len() ==> s[j] == '0',
    ensures
        digits_val(s) == 0,
    decreases s.len(),
{
    if s.len() > 0 {
        lemma_digits_val_all_zero(s.drop_last());
        assert(char_digit(s.last()) == 0);
    }
}

} // verus!
