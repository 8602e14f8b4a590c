//! Time durations.
//!
//! A duration-typed cell stores an ISO-8601-style literal such as
//! `PT2H15M30.500000000S`.  Decoding is a single left-to-right scan: digits
//! accumulate into hours until an `H`, into minutes until an `M`, into
//! seconds until a point, and into the fraction until the end; the fraction
//! is padded on the right to nine digits.  `P`, `T`, `S` and anything
//! unknown are skipped.

use vstd::prelude::*;

use crate::digits::all_digits;
use crate::digits::char_digit;
use crate::digits::dec_chars;
use crate::digits::digits_val;
use crate::digits::is_dig;
use crate::digits::is_digit_char;
use crate::digits::lemma_dec_chars_val;
use crate::digits::pow10;
use crate::digits::push_char;
use crate::digits::push_u64;
use crate::datetime::frac_chars;
use crate::error::OdsError;

verus! {

/// A non-negative duration with nanosecond precision.
///
/// The wire grammar carries no sign and the decoding scan skips one, so a
/// negative duration can neither arrive nor leave; the type stays unsigned
/// on purpose rather than holding a sign no reader could ever set.
#[derive(Debug, Clone, Copy, PartialEq, Eq, Structural)]
pub struct Duration {
    /// Whole seconds.
    pub secs: u64,
    /// The fraction of a second, in nanoseconds.
    pub nanos: u32,
}

impl Duration {
    /// Well-formedness: the fraction stays below one second.
    pub open spec fn wf(&self) -> bool {
        self.nanos < 1000000000
    }

    /// Whether the duration is small enough that its written hour count
    /// scans back without overflowing; false only beyond some 4.9 billion
    /// hours.
    pub open spec fn encodable(&self) -> bool {
        self.secs / 3600 <= 0xFFFFFFFF
    }

    /// Decides well-formedness at run time, for callers that assemble
    /// durations by hand.
    pub fn check_wf(&self) -> (r: bool)
        ensures
            r == self.wf(),
    {
        self.nanos < 1000000000
    }

    /// Builds a duration, carrying surplus nanoseconds into the seconds.
    pub fn new(secs: u64, nanos: u32) -> (r: Duration)
        requires
            secs + nanos as u64 / 1000000000 <= u64::MAX,
        ensures
            r.wf(),
            r.secs == secs + nanos / 1000000000,
            r.nanos == nanos % 1000000000,
    {
        Duration { secs: secs + (nanos / 1000000000) as u64, nanos: nanos % 1000000000 }
    }
}

/// The state of the duration scan after some prefix of the literal.
pub ghost struct DurScan {
    /// The hour accumulator.
    pub hour: nat,
    /// The minute accumulator.
    pub min: nat,
    /// The second accumulator.
    pub sec: nat,
    /// The fraction accumulator.
    pub frac: nat,
    /// How many fraction digits were seen.
    pub frac_digits: nat,
    /// Whether the `H` marker has passed.
    pub have_hour: bool,
    /// Whether the `M` marker has passed.
    pub have_min: bool,
    /// Whether the point has passed.
    pub have_sec: bool,
}

/// The scan before any character.
pub open spec fn dur_init() -> DurScan {
    DurScan {
        hour: 0,
        min: 0,
        sec: 0,
        frac: 0,
        frac_digits: 0,
        have_hour: false,
        have_min: false,
        have_sec: false,
    }
}

/// One character of the scan.
pub open spec fn dur_step(st: DurScan, c: char) -> DurScan {
    if is_digit_char(c) {
        let d = char_digit(c) as nat;
        if !st.have_hour {
            DurScan { hour: st.hour * 10 + d, ..st }
        } else if !st.have_min {
            DurScan { min: st.min * 10 + d, ..st }
        } else if !st.have_sec {
            DurScan { sec: st.sec * 10 + d, ..st }
        } else {
            DurScan { frac: st.frac * 10 + d, frac_digits: st.frac_digits + 1, ..st }
        }
    } else if c == 'H' {
        DurScan { have_hour: true, ..st }
    } else if c == 'M' {
        DurScan { have_min: true, ..st }
    } else if c == '.' {
        DurScan { have_sec: true, ..st }
    } else {
        st
    }
}

/// The scan over a whole literal.
pub open spec fn dur_scan(s: Seq<char>) -> DurScan
    decreases s.len(),
{
    if s.len() == 0 {
        dur_init()
    } else {
        dur_step(dur_scan(s.drop_last()), s.last())
    }
}

/// Whether every accumulator of the finished scan fits the machine word
/// the decoder uses.
pub open spec fn dur_fits(s: Seq<char>) -> bool {
    let st = dur_scan(s);
    st.hour <= 0xFFFFFFFF && st.min <= 0xFFFFFFFF && st.sec <= 0xFFFFFFFF && st.frac
        <= 0xFFFFFFFF
}

/// The fraction accumulator padded on the right to nine digits.
pub open spec fn dur_padded_frac(st: DurScan) -> nat {
    if st.frac_digits >= 9 {
        st.frac
    } else {
        st.frac * pow10((9 - st.frac_digits) as nat)
    }
}

/// The whole seconds a finished scan denotes.
pub open spec fn dur_total_secs(st: DurScan) -> nat {
    st.hour * 3600 + st.min * 60 + st.sec + dur_padded_frac(st) / 1000000000
}

/// The leftover nanoseconds a finished scan denotes.
pub open spec fn dur_total_nanos(st: DurScan) -> nat {
    dur_padded_frac(st) % 1000000000
}

/// Every accumulator only grows with each scanned character.
proof fn lemma_dur_step_mono(st: DurScan, c: char)
    ensures
        dur_step(st, c).hour >= st.hour,
        dur_step(st, c).min >= st.min,
        dur_step(st, c).sec >= st.sec,
        dur_step(st, c).frac >= st.frac,
{
}

/// Accumulators of a prefix never exceed those of the whole literal.
proof fn lemma_dur_scan_prefix(s: Seq<char>, i: int)
    requires
        0 <= i <= s.len(),
    ensures
        dur_scan(s.take(i)).hour <= dur_scan(s).hour,
        dur_scan(s.take(i)).min <= dur_scan(s).min,
        dur_scan(s.take(i)).sec <= dur_scan(s).sec,
        dur_scan(s.take(i)).frac <= dur_scan(s).frac,
    decreases s.len(),
{
    if i == s.len() {
        assert(s.take(i) =~= s);
    } else {
        assert(s.drop_last().take(i) =~= s.take(i));
        lemma_dur_scan_prefix(s.drop_last(), i);
        lemma_dur_step_mono(dur_scan(s.drop_last()), s.last());
    }
}

/// Decodes a duration literal with the single forward scan.
///
/// Succeeds exactly when no accumulator outgrows its machine word; surplus
/// fraction digits beyond a second carry into the seconds.
pub fn parse_duration(s: &str) -> (r: Result<Duration, OdsError>)
    ensures
        r is Ok <==> dur_fits(s@),
        r is Ok ==> (r->Ok_0).wf(),
        r is Ok ==> (r->Ok_0).secs as nat == dur_total_secs(dur_scan(s@)),
        r is Ok ==> (r->Ok_0).nanos as nat == dur_total_nanos(dur_scan(s@)),
{
    let len = s.unicode_len();
    let mut hour: u32 = 0;
    let mut min: u32 = 0;
    let mut sec: u32 = 0;
    let mut frac: u32 = 0;
    let mut frac_digits: u64 = 0;
    let mut have_hour = false;
    let mut have_min = false;
    let mut have_sec = false;
    let mut k: usize = 0;
    while k < len
        invariant
            len == s@.len(),
            k <= len,
            dur_scan(s@.take(k as int)) == (DurScan {
                hour: hour as nat,
                min: min as nat,
                sec: sec as nat,
                frac: frac as nat,
                frac_digits: frac_digits as nat,
                have_hour,
                have_min,
                have_sec,
            }),
            frac_digits <= k,
            frac_digits <= 9 ==> frac < pow10(frac_digits as nat),
        decreases len - k,
    {
        let ghost pre = dur_scan(s@.take(k as int));
        proof {
            assert(s@.take(k + 1).drop_last() =~= s@.take(k as int));
            assert(s@.take(k + 1).last() == s@[k as int]);
        }
        let c = s.get_char(k);
        if is_dig(c) {
            let d = (c as u32) - 48;
            if !have_hour {
                if hour > (u32::MAX - d) / 10 {
                    proof {
                        lemma_dur_scan_prefix(s@, k + 1);
                    }
                    return Err(OdsError::Duration("duration hours out of range".to_owned()));
                }
                hour = hour * 10 + d;
            } else if !have_min {
                if min > (u32::MAX - d) / 10 {
                    proof {
                        lemma_dur_scan_prefix(s@, k + 1);
                    }
                    return Err(OdsError::Duration("duration minutes out of range".to_owned()));
                }
                min = min * 10 + d;
            } else if !have_sec {
                if sec > (u32::MAX - d) / 10 {
                    proof {
                        lemma_dur_scan_prefix(s@, k + 1);
                    }
                    return Err(OdsError::Duration("duration seconds out of range".to_owned()));
                }
                sec = sec * 10 + d;
            } else {
                if frac > (u32::MAX - d) / 10 {
                    proof {
                        lemma_dur_scan_prefix(s@, k + 1);
                    }
                    return Err(OdsError::Duration("duration fraction out of range".to_owned()));
                }
                frac = frac * 10 + d;
                frac_digits = frac_digits + 1;
            }
        } else if c == 'H' {
            have_hour = true;
        } else if c == 'M' {
            have_min = true;
        } else if c == '.' {
            have_sec = true;
        }
        k += 1;
    }
    proof {
        assert(s@.take(len as int) =~= s@);
    }
    // Pad the fraction to nine digits, carrying whole seconds out of an
    // overlong fraction.
    let padded: u64 = if frac_digits >= 9 {
        frac as u64
    } else {
        proof {
            crate::digits::lemma_pow10_mono((9 - frac_digits) as nat, 9);
            crate::digits::lemma_pow10_mono(0, (9 - frac_digits) as nat);
            assert(pow10(0) == 1);
            assert(pow10(9) == 1000000000) by {
                reveal_with_fuel(pow10, 10);
            }
            assert((frac as nat) * pow10((9 - frac_digits) as nat) < pow10(
                frac_digits as nat,
            ) * pow10((9 - frac_digits) as nat)) by (nonlinear_arith)
                requires
                    (frac as nat) < pow10(frac_digits as nat),
                    pow10((9 - frac_digits) as nat) > 0,
            ;
            crate::digits::lemma_pow10_add(frac_digits as nat, (9 - frac_digits) as nat);
        }
        (frac as u64) * crate::datetime::pow10_u32((9 - frac_digits) as u8) as u64
    };
    let extra: u64 = padded / 1000000000;
    let nanos: u32 = (padded % 1000000000) as u32;
    let secs: u64 = (hour as u64) * 3600 + (min as u64) * 60 + (sec as u64) + extra;
    Ok(Duration { secs, nanos })
}

/// The scan continued from a given state over further characters.
pub open spec fn dur_scan_from(st: DurScan, s: Seq<char>) -> DurScan
    decreases s.len(),
{
    if s.len() == 0 {
        st
    } else {
        dur_step(dur_scan_from(st, s.drop_last()), s.last())
    }
}

/// Scanning a concatenation is scanning the second part from the state the
/// first part reaches.
proof fn lemma_dur_scan_concat(a: Seq<char>, b: Seq<char>)
    ensures
        dur_scan(a + b) == dur_scan_from(dur_scan(a), b),
    decreases b.len(),
{
    if b.len() == 0 {
        assert(a + b =~= a);
    } else {
        lemma_dur_scan_concat(a, b.drop_last());
        assert((a + b).drop_last() =~= a + b.drop_last());
        assert((a + b).last() == b.last());
    }
}

/// What a run of digits does to the scan, depending on which markers have
/// already passed.
proof fn lemma_dur_scan_digit_run(st: DurScan, t: Seq<char>)
    requires
        all_digits(t),
    ensures
        !st.have_hour ==> dur_scan_from(st, t) == (DurScan {
            hour: st.hour * pow10(t.len()) + digits_val(t),
            ..st
        }),
        st.have_hour && !st.have_min ==> dur_scan_from(st, t) == (DurScan {
            min: st.min * pow10(t.len()) + digits_val(t),
            ..st
        }),
        st.have_hour && st.have_min && !st.have_sec ==> dur_scan_from(st, t) == (DurScan {
            sec: st.sec * pow10(t.len()) + digits_val(t),
            ..st
        }),
        st.have_hour && st.have_min && st.have_sec ==> dur_scan_from(st, t) == (DurScan {
            frac: st.frac * pow10(t.len()) + digits_val(t),
            frac_digits: st.frac_digits + t.len(),
            ..st
        }),
    decreases t.len(),
{
    if t.len() == 0 {
        assert(pow10(0) == 1);
        assert(dur_scan_from(st, t) == st);
        assert(st.hour * 1 == st.hour && st.min * 1 == st.min && st.sec * 1 == st.sec
            && st.frac * 1 == st.frac);
    } else {
        assert(all_digits(t.drop_last())) by {
            assert(forall|j: int| 0 <= j < t.len() - 1 ==> t.drop_last()[j] == t[j]);
        }
        lemma_dur_scan_digit_run(st, t.drop_last());
        let inner = dur_scan_from(st, t.drop_last());
        let p = pow10(t.drop_last().len());
        assert(pow10(t.len()) == p * 10) by {
            assert(pow10(t.len()) == 10 * pow10((t.len() - 1) as nat));
        }
        let d = char_digit(t.last()) as nat;
        assert(is_digit_char(t.last()));
        assert(dur_scan_from(st, t) == dur_step(inner, t.last()));
        let x = digits_val(t.drop_last());
        assert(digits_val(t) == x * 10 + d);
        if !st.have_hour {
            assert(inner == DurScan { hour: st.hour * p + x, ..st });
            assert(dur_step(inner, t.last()) == DurScan { hour: (st.hour * p + x) * 10 + d, ..st });
            assert((st.hour * p + x) * 10 + d == st.hour * (p * 10) + (x * 10 + d))
                by (nonlinear_arith);
        } else if !st.have_min {
            assert(inner == DurScan { min: st.min * p + x, ..st });
            assert(dur_step(inner, t.last()) == DurScan { min: (st.min * p + x) * 10 + d, ..st });
            assert((st.min * p + x) * 10 + d == st.min * (p * 10) + (x * 10 + d))
                by (nonlinear_arith);
        } else if !st.have_sec {
            assert(inner == DurScan { sec: st.sec * p + x, ..st });
            assert(dur_step(inner, t.last()) == DurScan { sec: (st.sec * p + x) * 10 + d, ..st });
            assert((st.sec * p + x) * 10 + d == st.sec * (p * 10) + (x * 10 + d))
                by (nonlinear_arith);
        } else {
            assert(inner == DurScan {
                frac: st.frac * p + x,
                frac_digits: (st.frac_digits + t.len() - 1) as nat,
                ..st
            });
            assert(dur_step(inner, t.last()) == DurScan {
                frac: (st.frac * p + x) * 10 + d,
                frac_digits: st.frac_digits + t.len(),
                ..st
            });
            assert((st.frac * p + x) * 10 + d == st.frac * (p * 10) + (x * 10 + d))
                by (nonlinear_arith);
        }
    }
}

/// Writing a well-formed, encodable duration and scanning the literal back
/// gives the same seconds and nanoseconds.
#[verifier::rlimit(100)]
pub proof fn lemma_dur_roundtrip(d: Duration)
    requires
        d.wf(),
        d.encodable(),
    ensures
        dur_fits(dur_chars(d)),
        dur_total_secs(dur_scan(dur_chars(d))) == d.secs as nat,
        dur_total_nanos(dur_scan(dur_chars(d))) == d.nanos as nat,
{
    let secs = d.secs as nat;
    let n = d.nanos as nat;
    let h = secs / 3600;
    let m = (secs / 60) % 60;
    let s2 = secs % 60;
    let hc = dec_chars(h);
    let mc = dec_chars(m);
    let sc = dec_chars(s2);
    let fc = frac_chars(n);
    lemma_dec_chars_val(h);
    lemma_dec_chars_val(m);
    lemma_dec_chars_val(s2);
    let cs = dur_chars(d);
    let pt = seq!['P', 'T'];
    // The prefix markers leave the scan in its initial state.
    assert(dur_scan(pt) == dur_init()) by {
        reveal_with_fuel(dur_scan, 4);
        assert(pt.drop_last() =~= seq!['P']);
        assert(seq!['P'].drop_last() =~= Seq::<char>::empty());
        assert(!is_digit_char('P') && 'P' != 'H' && 'P' != 'M' && 'P' != '.');
        assert(!is_digit_char('T') && 'T' != 'H' && 'T' != 'M' && 'T' != '.');
    }
    reveal_with_fuel(dur_scan_from, 3);
    let st0 = dur_init();
    // The hour digits.
    let a1 = pt + hc;
    lemma_dur_scan_concat(pt, hc);
    lemma_dur_scan_digit_run(st0, hc);
    let st1 = DurScan { hour: h, ..st0 };
    assert(dur_scan(a1) == st1) by {
        assert(st0.hour * pow10(hc.len()) == 0) by (nonlinear_arith)
            requires
                st0.hour == 0,
        ;
    }
    // The hour marker.
    let a2 = a1 + seq!['H'];
    lemma_dur_scan_concat(a1, seq!['H']);
    assert(seq!['H'].drop_last() =~= Seq::<char>::empty());
    assert(!is_digit_char('H'));
    let st2 = DurScan { have_hour: true, ..st1 };
    assert(dur_scan(a2) == st2);
    // The minute digits and marker.
    let a3 = a2 + mc;
    lemma_dur_scan_concat(a2, mc);
    lemma_dur_scan_digit_run(st2, mc);
    let st3 = DurScan { min: m, ..st2 };
    assert(dur_scan(a3) == st3) by {
        assert(st2.min * pow10(mc.len()) == 0) by (nonlinear_arith)
            requires
                st2.min == 0,
        ;
    }
    let a4 = a3 + seq!['M'];
    lemma_dur_scan_concat(a3, seq!['M']);
    assert(seq!['M'].drop_last() =~= Seq::<char>::empty());
    assert(!is_digit_char('M'));
    let st4 = DurScan { have_min: true, ..st3 };
    assert(dur_scan(a4) == st4);
    // The second digits.
    let a5 = a4 + sc;
    lemma_dur_scan_concat(a4, sc);
    lemma_dur_scan_digit_run(st4, sc);
    let st5 = DurScan { sec: s2, ..st4 };
    assert(dur_scan(a5) == st5) by {
        assert(st4.sec * pow10(sc.len()) == 0) by (nonlinear_arith)
            requires
                st4.sec == 0,
        ;
    }
    // The fraction, in its four encodings.
    assert(pow10(2) == 100 && pow10(3) == 1000) by {
        reveal_with_fuel(pow10, 5);
    }
    assert(pow10(6) == 1000000 && pow10(9) == 1000000000) by {
        reveal_with_fuel(pow10, 10);
    }
    let a6 = a5 + fc;
    lemma_dur_scan_concat(a5, fc);
    let st6 = dur_scan(a6);
    if n == 0 {
        assert(fc =~= Seq::<char>::empty());
        assert(st6 == st5);
        assert(dur_padded_frac(st6) == 0) by {
            assert(st6.frac * pow10(9) == 0) by (nonlinear_arith)
                requires
                    st6.frac == 0,
            ;
        }
    } else {
        let (digits, width): (nat, nat) = if n % 1000000 == 0 {
            (n / 1000000, 3)
        } else if n % 1000 == 0 {
            (n / 1000, 6)
        } else {
            (n, 9)
        };
        let dc = crate::digits::padded_chars(digits, width);
        crate::digits::lemma_padded_chars_props(digits, width);
        assert(fc =~= seq!['.'] + dc);
        lemma_dur_scan_concat2(a5, seq!['.'], dc);
        assert(seq!['.'].drop_last() =~= Seq::<char>::empty());
        assert(!is_digit_char('.'));
        let stp = DurScan { have_sec: true, ..st5 };
        assert(dur_scan_from(st5, seq!['.']) == stp);
        lemma_dur_scan_digit_run(stp, dc);
        assert(st6 == (DurScan { frac: digits, frac_digits: width, ..stp })) by {
            assert(stp.frac * pow10(dc.len()) == 0) by (nonlinear_arith)
                requires
                    stp.frac == 0,
            ;
        }
        assert(dur_padded_frac(st6) == n) by {
            if width == 3 {
                assert(dur_padded_frac(st6) == digits * pow10(6));
                assert((n / 1000000) * 1000000 == n);
            } else if width == 6 {
                assert(dur_padded_frac(st6) == digits * pow10(3));
                assert((n / 1000) * 1000 == n);
            } else {
                assert(dur_padded_frac(st6) == digits);
            }
        }
    }
    // The closing marker.
    let a7 = a6 + seq!['S'];
    lemma_dur_scan_concat(a6, seq!['S']);
    assert(seq!['S'].drop_last() =~= Seq::<char>::empty());
    assert(!is_digit_char('S') && 'S' != 'H' && 'S' != 'M' && 'S' != '.');
    assert(dur_scan(a7) == st6);
    assert(cs =~= a7);
    // The accumulators fit, and the totals recompose the duration.
    assert(h <= 0xFFFFFFFF);
    assert(m <= 59 && s2 <= 59);
    assert(st6.frac <= 0xFFFFFFFF);
    vstd::arithmetic::div_mod::lemma_div_denominator(d.secs as int, 60, 60);
    assert(secs == 60 * (secs / 60) + secs % 60);
    assert(secs / 60 == 60 * ((secs / 60) / 60) + (secs / 60) % 60);
    assert(h * 3600 + m * 60 + s2 == secs);
    assert(dur_padded_frac(st6) / 1000000000 == 0);
    assert(dur_total_secs(st6) == secs);
    assert(dur_total_nanos(st6) == n);
}

/// Scanning `a + b + c` in two steps from the end of `a`.
proof fn lemma_dur_scan_concat2(a: Seq<char>, b: Seq<char>, c: Seq<char>)
    ensures
        dur_scan(a + (b + c)) == dur_scan_from(dur_scan_from(dur_scan(a), b), c),
{
    lemma_dur_scan_concat(a, b + c);
    lemma_dur_scan_from_concat(dur_scan(a), b, c);
}

/// Continuing a scan over a concatenation splits into two continuations.
proof fn lemma_dur_scan_from_concat(st: DurScan, b: Seq<char>, c: Seq<char>)
    ensures
        dur_scan_from(st, b + c) == dur_scan_from(dur_scan_from(st, b), c),
    decreases c.len(),
{
    if c.len() == 0 {
        assert(b + c =~= b);
    } else {
        lemma_dur_scan_from_concat(st, b, c.drop_last());
        assert((b + c).drop_last() =~= b + c.drop_last());
        assert((b + c).last() == c.last());
    }
}

/// The wire rendering of a duration: `PT{h}H{m}M{s}{fraction}S`.
pub open spec fn dur_chars(d: Duration) -> Seq<char> {
    seq!['P', 'T'] + dec_chars(d.secs as nat / 3600) + seq!['H'] + dec_chars(
        (d.secs as nat / 60) % 60,
    ) + seq!['M'] + dec_chars(d.secs as nat % 60) + frac_chars(d.nanos as nat) + seq!['S']
}

/// The fallback display text of a duration: `h:m:s` with the fraction.
pub open spec fn dur_display_chars(d: Duration) -> Seq<char> {
    dec_chars(d.secs as nat / 3600) + seq![':'] + dec_chars((d.secs as nat / 60) % 60)
        + seq![':'] + dec_chars(d.secs as nat % 60) + frac_chars(d.nanos as nat)
}

impl Duration {
    /// Renders the duration as its wire literal.
    pub fn to_wire_text(&self) -> (r: String)
        requires
            self.wf(),
        ensures
            r@ == dur_chars(*self),
    {
        let mut out = String::new();
        push_char(&mut out, 'P');
        push_char(&mut out, 'T');
        push_u64(&mut out, self.secs / 3600);
        push_char(&mut out, 'H');
        push_u64(&mut out, (self.secs / 60) % 60);
        push_char(&mut out, 'M');
        push_u64(&mut out, self.secs % 60);
        crate::datetime::push_frac(&mut out, self.nanos);
        push_char(&mut out, 'S');
        proof {
            assert(out@ =~= dur_chars(*self));
        }
        out
    }

    /// Renders the fallback display text.
    pub fn display_text(&self) -> (r: String)
        requires
            self.wf(),
        ensures
            r@ == dur_display_chars(*self),
    {
        let mut out = String::new();
        push_u64(&mut out, self.secs / 3600);
        push_char(&mut out, ':');
        push_u64(&mut out, (self.secs / 60) % 60);
        push_char(&mut out, ':');
        push_u64(&mut out, self.secs % 60);
        crate::datetime::push_frac(&mut out, self.nanos);
        proof {
            assert(out@ =~= dur_display_chars(*self));
        }
        out
    }
}

} // verus!
