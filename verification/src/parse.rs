//! The wire parser: reading one document back into a record.
//!
//! Each executable parser is proved equal to a specification-level parser;
//! the round-trip argument is then a statement about the specification
//! functions alone.

use vstd::prelude::*;
use crate::record::{
    Ipv4, HttpMethod, HttpVersion, HttpRequest, UpstreamAddr, Timestamp, Update, is_ascii_digit,
};
use crate::codec::{ascii_of, dec_u, dec_w};

verus! {

/// Powers of ten.
pub open spec fn pow10(k: nat) -> nat
    decreases k,
{
    if k == 0 {
        1
    } else {
        10 * pow10((k - 1) as nat)
    }
}

/// First position at or after `i` holding a non-digit (or the end).
pub open spec fn digit_run_end(s: Seq<u8>, i: int) -> int
    decreases s.len() - i,
{
    if 0 <= i < s.len() && is_ascii_digit(s[i]) {
        digit_run_end(s, i + 1)
    } else {
        i
    }
}

/// First position at or after `i` holding `stop` (or the end).
pub open spec fn scan_stop(s: Seq<u8>, i: int, stop: u8) -> int
    decreases s.len() - i,
{
    if 0 <= i < s.len() && s[i] != stop {
        scan_stop(s, i + 1, stop)
    } else {
        i
    }
}

/// The numeric value of a digit sequence.
pub open spec fn val_digits(s: Seq<u8>) -> nat
    decreases s.len(),
{
    if s.len() == 0 {
        0
    } else {
        val_digits(s.drop_last()) * 10 + ((s.last() - 48) as nat)
    }
}

pub open spec fn all_digits(s: Seq<u8>) -> bool {
    forall|k: int| 0 <= k < s.len() ==> is_ascii_digit(#[trigger] s[k])
}

/// Expect an exact byte sequence at `i`.
pub open spec fn p_lit(s: Seq<u8>, i: int, l: Seq<u8>) -> Option<int> {
    if 0 <= i && i + l.len() <= s.len() && s.subrange(i, i + l.len() as int) == l {
        Some(i + l.len() as int)
    } else {
        None
    }
}

/// An unsigned decimal: a nonempty digit run of at most 18 digits.
pub open spec fn p_u64(s: Seq<u8>, i: int) -> Option<(nat, int)> {
    let j = digit_run_end(s, i);
    if i < j && j - i <= 18 {
        Some((val_digits(s.subrange(i, j)), j))
    } else {
        None
    }
}

/// A signed decimal.
pub open spec fn p_i64(s: Seq<u8>, i: int) -> Option<(int, int)> {
    if 0 <= i < s.len() && s[i] == 45 {
        match p_u64(s, i + 1) {
            Some((v, j)) => Some((-(v as int), j)),
            None => None,
        }
    } else {
        match p_u64(s, i) {
            Some((v, j)) => Some((v as int, j)),
            None => None,
        }
    }
}

/// A fixed-point decimal with exactly six fractional digits, as micro-units.
pub open spec fn p_fixed(s: Seq<u8>, i: int) -> Option<(nat, int)> {
    match p_u64(s, i) {
        Some((ip, j)) => if j + 7 <= s.len() && s[j] == 46 && (forall|k: int|
            j + 1 <= k < j + 7 ==> is_ascii_digit(#[trigger] s[k])) {
            let f = val_digits(s.subrange(j + 1, j + 7));
            if ip * 1000000 + f <= u64::MAX {
                Some(((ip * 1000000 + f) as nat, j + 7))
            } else {
                None
            }
        } else {
            None
        },
        None => None,
    }
}

/// A signed fixed-point decimal, as micro-units.
pub open spec fn p_fixed_i(s: Seq<u8>, i: int) -> Option<(int, int)> {
    if 0 <= i < s.len() && s[i] == 45 {
        match p_fixed(s, i + 1) {
            Some((m, j)) => if m <= i64::MAX {
                Some((-(m as int), j))
            } else {
                None
            },
            None => None,
        }
    } else {
        match p_fixed(s, i) {
            Some((m, j)) => if m <= i64::MAX {
                Some((m as int, j))
            } else {
                None
            },
            None => None,
        }
    }
}

/// Everything up to (not including) the next `stop` byte.
pub open spec fn p_until(s: Seq<u8>, i: int, stop: u8) -> (Seq<u8>, int) {
    let j = scan_stop(s, i, stop);
    (s.subrange(i, j), j)
}

/// A dotted-quad address.
pub open spec fn p_ip(s: Seq<u8>, i: int) -> Option<(Ipv4, int)> {
    match p_u64(s, i) {
        None => None,
        Some((a, j1)) => if a < 256 && j1 < s.len() && s[j1] == 46 {
            match p_u64(s, j1 + 1) {
                None => None,
                Some((b, j2)) => if b < 256 && j2 < s.len() && s[j2] == 46 {
                    match p_u64(s, j2 + 1) {
                        None => None,
                        Some((c, j3)) => if c < 256 && j3 < s.len() && s[j3] == 46 {
                            match p_u64(s, j3 + 1) {
                                None => None,
                                Some((d, j4)) => if d < 256 {
                                    Some(
                                        (
                                            Ipv4 {
                                                a: a as u8,
                                                b: b as u8,
                                                c: c as u8,
                                                d: d as u8,
                                            },
                                            j4,
                                        ),
                                    )
                                } else {
                                    None
                                },
                            }
                        } else {
                            None
                        },
                    }
                } else {
                    None
                },
            }
        } else {
            None
        },
    }
}

// ---------------------------------------------------------------------------
// facts about digit sequences
// ---------------------------------------------------------------------------

pub proof fn lemma_pow10_vals()
    ensures
        pow10(6) == 1000000,
        pow10(17) == 0x16345785D8A0000,
        pow10(18) == 0xDE0B6B3A7640000,
{
    reveal_with_fuel(pow10, 20);
}

pub proof fn lemma_pow10_mono(a: nat, b: nat)
    requires
        a <= b,
    ensures
        pow10(a) <= pow10(b),
    decreases b,
{
    if a < b {
        lemma_pow10_mono(a, (b - 1) as nat);
        assert(pow10(b) == 10 * pow10((b - 1) as nat));
    }
}

/// A run that is all digits and stops ends exactly where it stops.
pub proof fn lemma_digit_run_end(s: Seq<u8>, i: int, j: int)
    requires
        0 <= i <= j <= s.len(),
        forall|k: int| i <= k < j ==> is_ascii_digit(#[trigger] s[k]),
        j == s.len() || !is_ascii_digit(s[j]),
    ensures
        digit_run_end(s, i) == j,
    decreases j - i,
{
    if i < j {
        lemma_digit_run_end(s, i + 1, j);
    }
}

/// Everything before the end of a digit run is a digit.
pub proof fn lemma_digit_run_props(s: Seq<u8>, i: int)
    requires
        0 <= i <= s.len(),
    ensures
        i <= digit_run_end(s, i) <= s.len(),
        forall|k: int| i <= k < digit_run_end(s, i) ==> is_ascii_digit(#[trigger] s[k]),
    decreases s.len() - i,
{
    if i < s.len() && is_ascii_digit(s[i]) {
        lemma_digit_run_props(s, i + 1);
    }
}

/// A parsed unsigned decimal is below `10^18`, which fits a signed word.
pub proof fn lemma_p_u64_bound(s: Seq<u8>, i: int)
    requires
        0 <= i <= s.len(),
        p_u64(s, i) is Some,
    ensures
        p_u64(s, i).unwrap().0 < pow10(18),
        pow10(18) < 0x8000000000000000,
{
    lemma_pow10_vals();
    lemma_digit_run_props(s, i);
    let j = digit_run_end(s, i);
    let t = s.subrange(i, j);
    assert forall|k: int| 0 <= k < t.len() implies is_ascii_digit(#[trigger] t[k]) by {
        assert(t[k] == s[i + k]);
    }
    lemma_val_digits_bound(t);
    lemma_pow10_mono((j - i) as nat, 18);
}

/// A scan that sees no stop byte ends exactly at the stop.
pub proof fn lemma_scan_stop(s: Seq<u8>, i: int, j: int, stop: u8)
    requires
        0 <= i <= j <= s.len(),
        forall|k: int| i <= k < j ==> #[trigger] s[k] != stop,
        j == s.len() || s[j] == stop,
    ensures
        scan_stop(s, i, stop) == j,
    decreases j - i,
{
    if i < j {
        lemma_scan_stop(s, i + 1, j, stop);
    }
}

/// The decimal rendering of `n` is all digits and evaluates back to `n`.
pub proof fn lemma_dec_u_props(n: nat)
    ensures
        all_digits(dec_u(n)),
        dec_u(n).len() >= 1,
        val_digits(dec_u(n)) == n,
    decreases n,
{
    if n < 10 {
        assert(dec_u(n) =~= seq![(48 + n) as u8]);
        assert(dec_u(n).drop_last() =~= Seq::<u8>::empty());
        assert(dec_u(n).last() == (48 + n) as u8);
        assert(val_digits(dec_u(n)) == val_digits(Seq::<u8>::empty()) * 10 + (((48 + n) as u8
            - 48) as nat));
        assert(is_ascii_digit((48 + n) as u8));
    } else {
        lemma_dec_u_props(n / 10);
        assert(dec_u(n) == dec_u(n / 10).push((48 + n % 10) as u8));
        assert(dec_u(n).drop_last() =~= dec_u(n / 10));
        assert(dec_u(n).last() == (48 + n % 10) as u8);
        assert(val_digits(dec_u(n)) == n / 10 * 10 + n % 10);
    }
}

/// Bound on the width of a decimal rendering.
pub proof fn lemma_dec_u_len(n: nat, k: nat)
    requires
        n < pow10(k),
        k >= 1,
    ensures
        dec_u(n).len() <= k,
    decreases n,
{
    if n < 10 {
    } else {
        assert(pow10(k) == 10 * pow10((k - 1) as nat));
        lemma_dec_u_len(n / 10, (k - 1) as nat);
    }
}

/// The zero-padded rendering is all digits, has exact width, and evaluates
/// back.
pub proof fn lemma_dec_w_props(n: nat, w: nat)
    requires
        n < pow10(w),
    ensures
        all_digits(dec_w(n, w)),
        dec_w(n, w).len() == w,
        val_digits(dec_w(n, w)) == n,
    decreases w,
{
    if w == 0 {
    } else {
        assert(pow10(w) == 10 * pow10((w - 1) as nat));
        lemma_dec_w_props(n / 10, (w - 1) as nat);
        assert(dec_w(n, w) == dec_w(n / 10, (w - 1) as nat).push((48 + n % 10) as u8));
        assert(dec_w(n, w).drop_last() =~= dec_w(n / 10, (w - 1) as nat));
        assert(val_digits(dec_w(n, w)) == n / 10 * 10 + n % 10);
    }
}

/// A digit sequence's value is bounded by the power of its width.
pub proof fn lemma_val_digits_bound(s: Seq<u8>)
    requires
        all_digits(s),
    ensures
        val_digits(s) < pow10(s.len() as nat),
    decreases s.len(),
{
    if s.len() == 0 {
    } else {
        assert(all_digits(s.drop_last())) by {
            assert(forall|k: int| 0 <= k < s.len() - 1 ==> s.drop_last()[k] == s[k]);
        }
        lemma_val_digits_bound(s.drop_last());
        assert(pow10(s.len() as nat) == 10 * pow10((s.len() - 1) as nat));
        assert(is_ascii_digit(s[s.len() - 1]));
    }
}

// ---------------------------------------------------------------------------
// executable parsers
// ---------------------------------------------------------------------------

/// Match an ASCII literal at `pos`.
fn expect_lit(s: &Vec<u8>, pos: usize, lit: &str) -> (r: Option<usize>)
    requires
        pos <= s@.len(),
        vstd::string::is_ascii(lit),
    ensures
        match r {
            Some(p) => p_lit(s@, pos as int, ascii_of(lit@)) == Some(p as int) && pos <= p
                <= s@.len(),
            None => p_lit(s@, pos as int, ascii_of(lit@)) is None,
        },
{
    proof {
        vstd::utf8::is_ascii_chars_encode_utf8(lit@);
    }
    let bs = lit.as_bytes();
    assert(bs@ =~= ascii_of(lit@));
    let n = bs.len();
    let sn = s.len();
    if n > sn - pos {
        return None;
    }
    let mut k: usize = 0;
    while k < n
        invariant
            k <= n,
            n == bs@.len(),
            bs@ == ascii_of(lit@),
            pos + n <= sn,
            sn == s@.len(),
            forall|m: int| 0 <= m < k ==> s@[pos + m] == bs@[m],
        decreases n - k,
    {
        if s[pos + k] != bs[k] {
            proof {
                assert(s@.subrange(pos as int, pos + n as int)[k as int] == s@[pos + k]);
                assert(s@.subrange(pos as int, pos + n as int) != bs@);
            }
            return None;
        }
        k = k + 1;
    }
    proof {
        assert(s@.subrange(pos as int, pos + n as int) =~= bs@);
    }
    Some(pos + n)
}

/// Read an unsigned decimal at `pos`.
fn parse_u64(s: &Vec<u8>, pos: usize) -> (r: Option<(u64, usize)>)
    requires
        pos <= s@.len(),
    ensures
        match r {
            Some(vp) => p_u64(s@, pos as int) == Some((vp.0 as nat, vp.1 as int)) && pos < vp.1
                <= s@.len(),
            None => p_u64(s@, pos as int) is None,
        },
{
    let n = s.len();
    let mut j = pos;
    while j < n && s[j] >= 48 && s[j] <= 57
        invariant
            pos <= j <= n,
            n == s@.len(),
            forall|k: int| pos <= k < j ==> is_ascii_digit(#[trigger] s@[k]),
        decreases n - j,
    {
        j = j + 1;
    }
    proof {
        lemma_digit_run_end(s@, pos as int, j as int);
    }
    if j == pos || j - pos > 18 {
        return None;
    }
    proof {
        lemma_pow10_vals();
    }
    let mut acc: u64 = 0;
    let mut k = pos;
    while k < j
        invariant
            pos <= k <= j <= n,
            n == s@.len(),
            j - pos <= 18,
            forall|m: int| pos <= m < j ==> is_ascii_digit(#[trigger] s@[m]),
            acc == val_digits(s@.subrange(pos as int, k as int)),
            acc < pow10((k - pos) as nat),
            pow10(17) == 0x16345785D8A0000,
            pow10(18) == 0xDE0B6B3A7640000,
        decreases j - k,
    {
        let d = s[k] - 48;
        proof {
            lemma_pow10_mono((k - pos) as nat, 17);
        }
        acc = acc * 10 + (d as u64);
        proof {
            assert(s@.subrange(pos as int, k + 1 as int).drop_last() =~= s@.subrange(
                pos as int,
                k as int,
            ));
            assert(s@.subrange(pos as int, k + 1 as int).last() == s@[k as int]);
            lemma_pow10_mono((k + 1 - pos) as nat, 18);
        }
        k = k + 1;
    }
    Some((acc, j))
}

/// Read everything up to the next `stop` byte.
fn take_until(s: &Vec<u8>, pos: usize, stop: u8) -> (r: (Vec<u8>, usize))
    requires
        pos <= s@.len(),
    ensures
        r.1 as int == scan_stop(s@, pos as int, stop),
        r.0@ == s@.subrange(pos as int, r.1 as int),
        pos <= r.1 <= s@.len(),
{
    let n = s.len();
    let mut j = pos;
    let mut v: Vec<u8> = Vec::new();
    while j < n && s[j] != stop
        invariant
            pos <= j <= n,
            n == s@.len(),
            forall|k: int| pos <= k < j ==> #[trigger] s@[k] != stop,
            v@ == s@.subrange(pos as int, j as int),
        decreases n - j,
    {
        v.push(s[j]);
        proof {
            assert(v@ =~= s@.subrange(pos as int, j + 1 as int));
        }
        j = j + 1;
    }
    proof {
        lemma_scan_stop(s@, pos as int, j as int, stop);
    }
    (v, j)
}

/// Read a signed decimal at `pos`.
fn parse_i64(s: &Vec<u8>, pos: usize) -> (r: Option<(i64, usize)>)
    requires
        pos <= s@.len(),
    ensures
        match r {
            Some(vp) => p_i64(s@, pos as int) == Some((vp.0 as int, vp.1 as int)) && pos < vp.1
                <= s@.len(),
            None => p_i64(s@, pos as int) is None,
        },
{
    proof {
        lemma_pow10_vals();
    }
    if pos < s.len() && s[pos] == 45 {
        match parse_u64(s, pos + 1) {
            Some((v, j)) => {
                proof {
                    lemma_p_u64_bound(s@, pos + 1 as int);
                }
                Some((-(v as i64), j))
            },
            None => None,
        }
    } else {
        match parse_u64(s, pos) {
            Some((v, j)) => {
                proof {
                    lemma_p_u64_bound(s@, pos as int);
                }
                Some((v as i64, j))
            },
            None => None,
        }
    }
}

/// Read a fixed-point decimal at `pos`, as micro-units.
fn parse_fixed(s: &Vec<u8>, pos: usize) -> (r: Option<(u64, usize)>)
    requires
        pos <= s@.len(),
    ensures
        match r {
            Some(vp) => p_fixed(s@, pos as int) == Some((vp.0 as nat, vp.1 as int)) && pos < vp.1
                <= s@.len(),
            None => p_fixed(s@, pos as int) is None,
        },
{
    let ipj = parse_u64(s, pos);
    match ipj {
        None => None,
        Some((ip, j)) => {
            let sn = s.len();
            if sn - j < 7 {
                return None;
            }
            if s[j] != 46 {
                return None;
            }
            let mut f: u64 = 0;
            let mut t: usize = 0;
            proof {
                lemma_pow10_vals();
            }
            while t < 6
                invariant
                    0 <= t <= 6,
                    sn == s@.len(),
                    j + 7 <= sn,
                    pos < j,
                    p_u64(s@, pos as int) == Some((ip as nat, j as int)),
                    s@[j as int] == 46u8,
                    f == val_digits(s@.subrange(j + 1 as int, j + 1 + t as int)),
                    f < pow10(t as nat),
                    pow10(6) == 1000000,
                    forall|k: int| j + 1 <= k < j + 1 + t ==> is_ascii_digit(#[trigger] s@[k]),
                decreases 6 - t,
            {
                let b = s[j + 1 + t];
                if b < 48 || b > 57 {
                    proof {
                        assert(!is_ascii_digit(s@[j + 1 + t]));
                    }
                    return None;
                }
                proof {
                    lemma_pow10_mono(t as nat, 5);
                    assert(pow10(5) * 10 == pow10(6));
                    assert(s@.subrange(j + 1 as int, j + 1 + (t + 1) as int).drop_last()
                        =~= s@.subrange(j + 1 as int, j + 1 + t as int));
                    assert(s@.subrange(j + 1 as int, j + 1 + (t + 1) as int).last() == s@[j + 1
                        + t]);
                }
                f = f * 10 + ((b - 48) as u64);
                t = t + 1;
            }
            match ip.checked_mul(1000000) {
                None => {
                    proof {
                        assert(ip * 1000000 + val_digits(s@.subrange(j + 1 as int, j + 7 as int))
                            > u64::MAX);
                    }
                    None
                },
                Some(scaled) => {
                    match scaled.checked_add(f) {
                        None => None,
                        Some(total) => Some((total, j + 7)),
                    }
                },
            }
        },
    }
}

/// Read a signed fixed-point decimal at `pos`, as micro-units.
fn parse_fixed_i(s: &Vec<u8>, pos: usize) -> (r: Option<(i64, usize)>)
    requires
        pos <= s@.len(),
    ensures
        match r {
            Some(vp) => p_fixed_i(s@, pos as int) == Some((vp.0 as int, vp.1 as int)) && pos
                < vp.1 <= s@.len(),
            None => p_fixed_i(s@, pos as int) is None,
        },
{
    if pos < s.len() && s[pos] == 45 {
        match parse_fixed(s, pos + 1) {
            Some((m, j)) => {
                if m <= 0x7FFF_FFFF_FFFF_FFFF {
                    assert(m as i64 >= 0);
                    Some((-(m as i64), j))
                } else {
                    None
                }
            },
            None => None,
        }
    } else {
        match parse_fixed(s, pos) {
            Some((m, j)) => {
                if m <= 0x7FFF_FFFF_FFFF_FFFF {
                    Some((m as i64, j))
                } else {
                    None
                }
            },
            None => None,
        }
    }
}

/// Read a dotted-quad address at `pos`.
fn parse_ip(s: &Vec<u8>, pos: usize) -> (r: Option<(Ipv4, usize)>)
    requires
        pos <= s@.len(),
    ensures
        match r {
            Some(vp) => p_ip(s@, pos as int) == Some((vp.0, vp.1 as int)) && pos < vp.1
                <= s@.len(),
            None => p_ip(s@, pos as int) is None,
        },
{
    match parse_u64(s, pos) {
        None => None,
        Some((a, j1)) => {
            if !(a < 256 && j1 < s.len()) {
                return None;
            }
            if s[j1] != 46 {
                return None;
            }
            match parse_u64(s, j1 + 1) {
                None => None,
                Some((b, j2)) => {
                    if !(b < 256 && j2 < s.len()) {
                        return None;
                    }
                    if s[j2] != 46 {
                        return None;
                    }
                    match parse_u64(s, j2 + 1) {
                        None => None,
                        Some((c, j3)) => {
                            if !(c < 256 && j3 < s.len()) {
                                return None;
                            }
                            if s[j3] != 46 {
                                return None;
                            }
                            match parse_u64(s, j3 + 1) {
                                None => None,
                                Some((d, j4)) => {
                                    if d < 256 {
                                        Some(
                                            (
                                                Ipv4 {
                                                    a: a as u8,
                                                    b: b as u8,
                                                    c: c as u8,
                                                    d: d as u8,
                                                },
                                                j4,
                                            ),
                                        )
                                    } else {
                                        None
                                    }
                                },
                            }
                        },
                    }
                },
            }
        },
    }
}

// ---------------------------------------------------------------------------
// composite parsers
// ---------------------------------------------------------------------------

/// The method token.
pub open spec fn p_method(s: Seq<u8>, i: int) -> Option<(HttpMethod, int)> {
    if p_lit(s, i, ascii_of("GET"@)) is Some {
        Some((HttpMethod::GET, p_lit(s, i, ascii_of("GET"@)).unwrap()))
    } else if p_lit(s, i, ascii_of("POST"@)) is Some {
        Some((HttpMethod::POST, p_lit(s, i, ascii_of("POST"@)).unwrap()))
    } else if p_lit(s, i, ascii_of("PUT"@)) is Some {
        Some((HttpMethod::PUT, p_lit(s, i, ascii_of("PUT"@)).unwrap()))
    } else if p_lit(s, i, ascii_of("DELETE"@)) is Some {
        Some((HttpMethod::DELETE, p_lit(s, i, ascii_of("DELETE"@)).unwrap()))
    } else if p_lit(s, i, ascii_of("HEAD"@)) is Some {
        Some((HttpMethod::HEAD, p_lit(s, i, ascii_of("HEAD"@)).unwrap()))
    } else if p_lit(s, i, ascii_of("OPTIONS"@)) is Some {
        Some((HttpMethod::OPTIONS, p_lit(s, i, ascii_of("OPTIONS"@)).unwrap()))
    } else {
        None
    }
}

/// The version token.
pub open spec fn p_version(s: Seq<u8>, i: int) -> Option<(HttpVersion, int)> {
    if p_lit(s, i, ascii_of("1.0"@)) is Some {
        Some((HttpVersion::Http10, p_lit(s, i, ascii_of("1.0"@)).unwrap()))
    } else if p_lit(s, i, ascii_of("1.1"@)) is Some {
        Some((HttpVersion::Http11, p_lit(s, i, ascii_of("1.1"@)).unwrap()))
    } else if p_lit(s, i, ascii_of("2.0"@)) is Some {
        Some((HttpVersion::Http20, p_lit(s, i, ascii_of("2.0"@)).unwrap()))
    } else {
        None
    }
}

/// The ghost shape of a parsed request line.
pub ghost struct ReqView {
    pub method: HttpMethod,
    pub path: Seq<u8>,
    pub version: HttpVersion,
}

/// The request line `method,path,version`.
pub open spec fn p_req(s: Seq<u8>, i: int) -> Option<(ReqView, int)> {
    match p_method(s, i) {
        None => None,
        Some((m, j)) => if j < s.len() && s[j] == 44 {
            let (pv, j2) = p_until(s, j + 1, 44);
            if j2 < s.len() {
                match p_version(s, j2 + 1) {
                    None => None,
                    Some((v, j3)) => Some((ReqView { method: m, path: pv, version: v }, j3)),
                }
            } else {
                None
            }
        } else {
            None
        },
    }
}

/// A timestamp `secs,offset`, held to the declared domain.
pub open spec fn p_ts(s: Seq<u8>, i: int) -> Option<(Timestamp, int)> {
    match p_i64(s, i) {
        None => None,
        Some((secs, j)) => if 0 <= secs < 0x8000_0000 && j < s.len() && s[j] == 44 {
            match p_i64(s, j + 1) {
                None => None,
                Some((off, j2)) => if -43200 <= off < 43200 {
                    Some((Timestamp { secs: secs as i64, offset_secs: off as i32 }, j2))
                } else {
                    None
                },
            }
        } else {
            None
        },
    }
}

/// An optional byte-string value: the absence marker or bytes up to `;`.
pub open spec fn p_opt_bytes(s: Seq<u8>, i: int) -> (Option<Seq<u8>>, int) {
    if 0 <= i < s.len() && s[i] == 126 {
        (None, i + 1)
    } else {
        let (v, j) = p_until(s, i, 59);
        (Some(v), j)
    }
}

/// An optional address value.
pub open spec fn p_opt_ip(s: Seq<u8>, i: int) -> Option<(Option<Ipv4>, int)> {
    if 0 <= i < s.len() && s[i] == 126 {
        Some((None, i + 1))
    } else {
        match p_ip(s, i) {
            Some((p, j)) => Some((Some(p), j)),
            None => None,
        }
    }
}

/// An optional micro-unit value, held to the response-time domain.
pub open spec fn p_opt_fixed(s: Seq<u8>, i: int) -> Option<(Option<u64>, int)> {
    if 0 <= i < s.len() && s[i] == 126 {
        Some((None, i + 1))
    } else {
        match p_fixed(s, i) {
            Some((m, j)) => if 1000 <= m < 30_000_000 {
                Some((Some(m as u64), j))
            } else {
                None
            },
            None => None,
        }
    }
}

/// An optional upstream peer `ip,port`.
pub open spec fn p_opt_upstream(s: Seq<u8>, i: int) -> Option<(Option<UpstreamAddr>, int)> {
    if 0 <= i < s.len() && s[i] == 126 {
        Some((None, i + 1))
    } else {
        match p_ip(s, i) {
            None => None,
            Some((p, j)) => if j < s.len() && s[j] == 44 {
                match p_u64(s, j + 1) {
                    None => None,
                    Some((port, j2)) => if port < 65536 {
                        Some((Some(UpstreamAddr { ip: p, port: port as u16 }), j2))
                    } else {
                        None
                    },
                }
            } else {
                None
            },
        }
    }
}

/// The ghost shape of a parsed record: structural content only.
pub ghost struct UpdateView {
    pub remote_addr: Ipv4,
    pub remote_user: Option<Seq<u8>>,
    pub time_local: Timestamp,
    pub request: ReqView,
    pub status: u16,
    pub body_bytes_sent: u64,
    pub http_referer: Option<Seq<u8>>,
    pub http_user_agent: Seq<u8>,
    pub http_x_forwarded_for: Option<Ipv4>,
    pub request_time: u64,
    pub upstream_response_time: Option<u64>,
    pub upstream_addr: Option<UpstreamAddr>,
    pub request_length: u64,
    pub connection: u64,
    pub connection_requests: u64,
    pub lat: i64,
    pub lng: i64,
}

pub open spec fn ovb(o: &Option<Vec<u8>>) -> Option<Seq<u8>> {
    match o {
        Some(v) => Some(v@),
        None => None,
    }
}

/// The structural content of a record.
pub open spec fn view_update(u: &Update) -> UpdateView {
    UpdateView {
        remote_addr: u.remote_addr,
        remote_user: ovb(&u.remote_user),
        time_local: u.time_local,
        request: ReqView {
            method: u.request.method,
            path: u.request.path@,
            version: u.request.version,
        },
        status: u.status,
        body_bytes_sent: u.body_bytes_sent,
        http_referer: ovb(&u.http_referer),
        http_user_agent: u.http_user_agent@,
        http_x_forwarded_for: u.http_x_forwarded_for,
        request_time: u.request_time,
        upstream_response_time: u.upstream_response_time,
        upstream_addr: u.upstream_addr,
        request_length: u.request_length,
        connection: u.connection,
        connection_requests: u.connection_requests,
        lat: u.lat,
        lng: u.lng,
    }
}

/// Fields 1 to 4.
pub open spec fn pchunk_a(s: Seq<u8>, i: int) -> Option<
    ((Ipv4, Option<Seq<u8>>, Timestamp, ReqView), int),
> {
    match p_lit(s, i, ascii_of("remote_addr="@)) {
        None => None,
        Some(i1) => match p_ip(s, i1) {
            None => None,
            Some((ip, i2)) => match p_lit(s, i2, ascii_of(";remote_user="@)) {
                None => None,
                Some(i3) => {
                    let (user, i4) = p_opt_bytes(s, i3);
                    match p_lit(s, i4, ascii_of(";time_local="@)) {
                        None => None,
                        Some(i5) => match p_ts(s, i5) {
                            None => None,
                            Some((ts, i6)) => match p_lit(s, i6, ascii_of(";request="@)) {
                                None => None,
                                Some(i7) => match p_req(s, i7) {
                                    None => None,
                                    Some((rq, i8)) => Some(((ip, user, ts, rq), i8)),
                                },
                            },
                        },
                    }
                },
            },
        },
    }
}

/// Fields 5 to 8.
pub open spec fn pchunk_b(s: Seq<u8>, i: int) -> Option<
    ((u16, u64, Option<Seq<u8>>, Seq<u8>), int),
> {
    match p_lit(s, i, ascii_of(";status="@)) {
        None => None,
        Some(i1) => match p_u64(s, i1) {
            None => None,
            Some((st, i2)) => if 100 <= st < 600 {
                match p_lit(s, i2, ascii_of(";body_bytes_sent="@)) {
                    None => None,
                    Some(i3) => match p_u64(s, i3) {
                        None => None,
                        Some((bb, i4)) => if bb < 1_000_000 {
                            match p_lit(s, i4, ascii_of(";http_referer="@)) {
                                None => None,
                                Some(i5) => {
                                    let (referer, i6) = p_opt_bytes(s, i5);
                                    match p_lit(s, i6, ascii_of(";http_user_agent="@)) {
                                        None => None,
                                        Some(i7) => {
                                            let (agent, i8) = p_until(s, i7, 59);
                                            Some(
                                                (
                                                    (st as u16, bb as u64, referer, agent),
                                                    i8,
                                                ),
                                            )
                                        },
                                    }
                                },
                            }
                        } else {
                            None
                        },
                    },
                }
            } else {
                None
            },
        },
    }
}

/// Fields 9 to 12.
pub open spec fn pchunk_c(s: Seq<u8>, i: int) -> Option<
    ((Option<Ipv4>, u64, Option<u64>, Option<UpstreamAddr>), int),
> {
    match p_lit(s, i, ascii_of(";http_x_forwarded_for="@)) {
        None => None,
        Some(i1) => match p_opt_ip(s, i1) {
            None => None,
            Some((fwd, i2)) => match p_lit(s, i2, ascii_of(";request_time="@)) {
                None => None,
                Some(i3) => match p_fixed(s, i3) {
                    None => None,
                    Some((rt, i4)) => if 1000 <= rt < 30_000_000 {
                        match p_lit(s, i4, ascii_of(";upstream_response_time="@)) {
                            None => None,
                            Some(i5) => match p_opt_fixed(s, i5) {
                                None => None,
                                Some((urt, i6)) => match p_lit(
                                    s,
                                    i6,
                                    ascii_of(";upstream_addr="@),
                                ) {
                                    None => None,
                                    Some(i7) => match p_opt_upstream(s, i7) {
                                        None => None,
                                        Some((ua, i8)) => Some(
                                            ((fwd, rt as u64, urt, ua), i8),
                                        ),
                                    },
                                },
                            },
                        }
                    } else {
                        None
                    },
                },
            },
        },
    }
}

/// Fields 13 to 17.
pub open spec fn pchunk_d(s: Seq<u8>, i: int) -> Option<((u64, u64, u64, i64, i64), int)> {
    match p_lit(s, i, ascii_of(";request_length="@)) {
        None => None,
        Some(i1) => match p_u64(s, i1) {
            None => None,
            Some((rl, i2)) => if 1 <= rl < 10_000 {
                match p_lit(s, i2, ascii_of(";connection="@)) {
                    None => None,
                    Some(i3) => match p_u64(s, i3) {
                        None => None,
                        Some((cn, i4)) => if 1 <= cn < 1_000_000 {
                            match p_lit(s, i4, ascii_of(";connection_requests="@)) {
                                None => None,
                                Some(i5) => match p_u64(s, i5) {
                                    None => None,
                                    Some((cr, i6)) => if 1 <= cr < 1_000 {
                                        match p_lit(s, i6, ascii_of(";lat="@)) {
                                            None => None,
                                            Some(i7) => match p_fixed_i(s, i7) {
                                                None => None,
                                                Some((la, i8)) => if -90_000_000 <= la
                                                    < 90_000_000 {
                                                    match p_lit(s, i8, ascii_of(";lng="@)) {
                                                        None => None,
                                                        Some(i9) => match p_fixed_i(s, i9) {
                                                            None => None,
                                                            Some((ln, i10)) => if -180_000_000
                                                                <= ln < 180_000_000 {
                                                                Some(
                                                                    (
                                                                        (
                                                                            rl as u64,
                                                                            cn as u64,
                                                                            cr as u64,
                                                                            la as i64,
                                                                            ln as i64,
                                                                        ),
                                                                        i10,
                                                                    ),
                                                                )
                                                            } else {
                                                                None
                                                            },
                                                        },
                                                    }
                                                } else {
                                                    None
                                                },
                                            },
                                        }
                                    } else {
                                        None
                                    },
                                },
                            }
                        } else {
                            None
                        },
                    },
                }
            } else {
                None
            },
        },
    }
}

/// The whole document: all four chunks, consuming every byte.
pub open spec fn spec_parse_update(s: Seq<u8>) -> Option<UpdateView> {
    match pchunk_a(s, 0) {
        None => None,
        Some((fa, i1)) => match pchunk_b(s, i1) {
            None => None,
            Some((fb, i2)) => match pchunk_c(s, i2) {
                None => None,
                Some((fc, i3)) => match pchunk_d(s, i3) {
                    None => None,
                    Some((fd, i4)) => if i4 == s.len() {
                        Some(
                            UpdateView {
                                remote_addr: fa.0,
                                remote_user: fa.1,
                                time_local: fa.2,
                                request: fa.3,
                                status: fb.0,
                                body_bytes_sent: fb.1,
                                http_referer: fb.2,
                                http_user_agent: fb.3,
                                http_x_forwarded_for: fc.0,
                                request_time: fc.1,
                                upstream_response_time: fc.2,
                                upstream_addr: fc.3,
                                request_length: fd.0,
                                connection: fd.1,
                                connection_requests: fd.2,
                                lat: fd.3,
                                lng: fd.4,
                            },
                        )
                    } else {
                        None
                    },
                },
            },
        },
    }
}

/// Read the method token at `pos`.
fn parse_method(s: &Vec<u8>, pos: usize) -> (r: Option<(HttpMethod, usize)>)
    requires
        pos <= s@.len(),
    ensures
        match r {
            Some(vp) => p_method(s@, pos as int) == Some((vp.0, vp.1 as int)) && pos <= vp.1
                <= s@.len(),
            None => p_method(s@, pos as int) is None,
        },
{
    proof {
        reveal_strlit("GET");
        reveal_strlit("POST");
        reveal_strlit("PUT");
        reveal_strlit("DELETE");
        reveal_strlit("HEAD");
        reveal_strlit("OPTIONS");
    }
    if let Some(j) = expect_lit(s, pos, "GET") {
        return Some((HttpMethod::GET, j));
    }
    if let Some(j) = expect_lit(s, pos, "POST") {
        return Some((HttpMethod::POST, j));
    }
    if let Some(j) = expect_lit(s, pos, "PUT") {
        return Some((HttpMethod::PUT, j));
    }
    if let Some(j) = expect_lit(s, pos, "DELETE") {
        return Some((HttpMethod::DELETE, j));
    }
    if let Some(j) = expect_lit(s, pos, "HEAD") {
        return Some((HttpMethod::HEAD, j));
    }
    if let Some(j) = expect_lit(s, pos, "OPTIONS") {
        return Some((HttpMethod::OPTIONS, j));
    }
    None
}

/// Read the version token at `pos`.
fn parse_version(s: &Vec<u8>, pos: usize) -> (r: Option<(HttpVersion, usize)>)
    requires
        pos <= s@.len(),
    ensures
        match r {
            Some(vp) => p_version(s@, pos as int) == Some((vp.0, vp.1 as int)) && pos <= vp.1
                <= s@.len(),
            None => p_version(s@, pos as int) is None,
        },
{
    proof {
        reveal_strlit("1.0");
        reveal_strlit("1.1");
        reveal_strlit("2.0");
    }
    if let Some(j) = expect_lit(s, pos, "1.0") {
        return Some((HttpVersion::Http10, j));
    }
    if let Some(j) = expect_lit(s, pos, "1.1") {
        return Some((HttpVersion::Http11, j));
    }
    if let Some(j) = expect_lit(s, pos, "2.0") {
        return Some((HttpVersion::Http20, j));
    }
    None
}

/// Read the request line at `pos`.
fn parse_req(s: &Vec<u8>, pos: usize) -> (r: Option<(HttpRequest, usize)>)
    requires
        pos <= s@.len(),
    ensures
        match r {
            Some(t) => p_req(s@, pos as int) == Some(
                (
                    ReqView { method: t.0.method, path: t.0.path@, version: t.0.version },
                    t.1 as int,
                ),
            ) && pos <= t.1 <= s@.len(),
            None => p_req(s@, pos as int) is None,
        },
{
    let mj = match parse_method(s, pos) {
        Some(t) => t,
        None => {
            return None;
        },
    };
    let m = mj.0;
    let j = mj.1;
    if !(j < s.len()) {
        return None;
    }
    if s[j] != 44 {
        return None;
    }
    let pvj = take_until(s, j + 1, 44);
    let j2 = pvj.1;
    if !(j2 < s.len()) {
        return None;
    }
    let vj = match parse_version(s, j2 + 1) {
        Some(t) => t,
        None => {
            return None;
        },
    };
    Some((HttpRequest { method: m, path: pvj.0, version: vj.0 }, vj.1))
}

/// Read a timestamp at `pos`, held to the declared domain.
fn parse_ts(s: &Vec<u8>, pos: usize) -> (r: Option<(Timestamp, usize)>)
    requires
        pos <= s@.len(),
    ensures
        match r {
            Some(t) => p_ts(s@, pos as int) == Some((t.0, t.1 as int)) && pos <= t.1 <= s@.len(),
            None => p_ts(s@, pos as int) is None,
        },
{
    let sj = match parse_i64(s, pos) {
        Some(t) => t,
        None => {
            return None;
        },
    };
    let secs = sj.0;
    let j = sj.1;
    if !(secs >= 0 && secs < 0x8000_0000) {
        return None;
    }
    if !(j < s.len()) {
        return None;
    }
    if s[j] != 44 {
        return None;
    }
    let oj = match parse_i64(s, j + 1) {
        Some(t) => t,
        None => {
            return None;
        },
    };
    let off = oj.0;
    if !(-43200 <= off && off < 43200) {
        return None;
    }
    Some((Timestamp { secs, offset_secs: off as i32 }, oj.1))
}

/// Read an optional byte-string value at `pos`.
fn parse_opt_bytes(s: &Vec<u8>, pos: usize) -> (r: (Option<Vec<u8>>, usize))
    requires
        pos <= s@.len(),
    ensures
        p_opt_bytes(s@, pos as int) == (ovb(&r.0), r.1 as int),
        pos <= r.1 <= s@.len(),
{
    if pos < s.len() && s[pos] == 126 {
        (None, pos + 1)
    } else {
        let vj = take_until(s, pos, 59);
        (Some(vj.0), vj.1)
    }
}

/// Read an optional address value at `pos`.
fn parse_opt_ip(s: &Vec<u8>, pos: usize) -> (r: Option<(Option<Ipv4>, usize)>)
    requires
        pos <= s@.len(),
    ensures
        match r {
            Some(t) => p_opt_ip(s@, pos as int) == Some((t.0, t.1 as int)) && pos <= t.1
                <= s@.len(),
            None => p_opt_ip(s@, pos as int) is None,
        },
{
    if pos < s.len() && s[pos] == 126 {
        return Some((None, pos + 1));
    }
    match parse_ip(s, pos) {
        Some(t) => Some((Some(t.0), t.1)),
        None => None,
    }
}

/// Read an optional micro-unit value at `pos`.
fn parse_opt_fixed(s: &Vec<u8>, pos: usize) -> (r: Option<(Option<u64>, usize)>)
    requires
        pos <= s@.len(),
    ensures
        match r {
            Some(t) => p_opt_fixed(s@, pos as int) == Some((t.0, t.1 as int)) && pos <= t.1
                <= s@.len(),
            None => p_opt_fixed(s@, pos as int) is None,
        },
{
    if pos < s.len() && s[pos] == 126 {
        return Some((None, pos + 1));
    }
    match parse_fixed(s, pos) {
        Some(t) => {
            if 1000 <= t.0 && t.0 < 30_000_000 {
                Some((Some(t.0), t.1))
            } else {
                None
            }
        },
        None => None,
    }
}

/// Read an optional upstream peer at `pos`.
fn parse_opt_upstream(s: &Vec<u8>, pos: usize) -> (r: Option<(Option<UpstreamAddr>, usize)>)
    requires
        pos <= s@.len(),
    ensures
        match r {
            Some(t) => p_opt_upstream(s@, pos as int) == Some((t.0, t.1 as int)) && pos <= t.1
                <= s@.len(),
            None => p_opt_upstream(s@, pos as int) is None,
        },
{
    if pos < s.len() && s[pos] == 126 {
        return Some((None, pos + 1));
    }
    let pj = match parse_ip(s, pos) {
        Some(t) => t,
        None => {
            return None;
        },
    };
    let j = pj.1;
    if !(j < s.len()) {
        return None;
    }
    if s[j] != 44 {
        return None;
    }
    let qj = match parse_u64(s, j + 1) {
        Some(t) => t,
        None => {
            return None;
        },
    };
    if qj.0 < 65536 {
        Some((Some(UpstreamAddr { ip: pj.0, port: qj.0 as u16 }), qj.1))
    } else {
        None
    }
}

#[verifier::rlimit(60)]
fn parse_chunk_a(s: &Vec<u8>, pos: usize) -> (r: Option<
    (Ipv4, Option<Vec<u8>>, Timestamp, HttpRequest, usize),
>)
    requires
        pos <= s@.len(),
    ensures
        match r {
            Some(t) => pchunk_a(s@, pos as int) == Some(
                (
                    (
                        t.0,
                        ovb(&t.1),
                        t.2,
                        ReqView { method: t.3.method, path: t.3.path@, version: t.3.version },
                    ),
                    t.4 as int,
                ),
            ) && pos <= t.4 <= s@.len(),
            None => pchunk_a(s@, pos as int) is None,
        },
{
    proof {
        reveal_strlit("remote_addr=");
        reveal_strlit(";remote_user=");
        reveal_strlit(";time_local=");
        reveal_strlit(";request=");
    }
    let i1 = match expect_lit(s, pos, "remote_addr=") {
        Some(j) => j,
        None => {
            return None;
        },
    };
    let ipj = match parse_ip(s, i1) {
        Some(t) => t,
        None => {
            return None;
        },
    };
    let i3 = match expect_lit(s, ipj.1, ";remote_user=") {
        Some(j) => j,
        None => {
            return None;
        },
    };
    let uj = parse_opt_bytes(s, i3);
    let i5 = match expect_lit(s, uj.1, ";time_local=") {
        Some(j) => j,
        None => {
            return None;
        },
    };
    let tj = match parse_ts(s, i5) {
        Some(t) => t,
        None => {
            return None;
        },
    };
    let i7 = match expect_lit(s, tj.1, ";request=") {
        Some(j) => j,
        None => {
            return None;
        },
    };
    let rj = match parse_req(s, i7) {
        Some(t) => t,
        None => {
            return None;
        },
    };
    Some((ipj.0, uj.0, tj.0, rj.0, rj.1))
}

#[verifier::rlimit(60)]
fn parse_chunk_b(s: &Vec<u8>, pos: usize) -> (r: Option<
    (u16, u64, Option<Vec<u8>>, Vec<u8>, usize),
>)
    requires
        pos <= s@.len(),
    ensures
        match r {
            Some(t) => pchunk_b(s@, pos as int) == Some(
                ((t.0, t.1, ovb(&t.2), t.3@), t.4 as int),
            ) && pos <= t.4 <= s@.len(),
            None => pchunk_b(s@, pos as int) is None,
        },
{
    proof {
        reveal_strlit(";status=");
        reveal_strlit(";body_bytes_sent=");
        reveal_strlit(";http_referer=");
        reveal_strlit(";http_user_agent=");
    }
    let i1 = match expect_lit(s, pos, ";status=") {
        Some(j) => j,
        None => {
            return None;
        },
    };
    let stj = match parse_u64(s, i1) {
        Some(t) => t,
        None => {
            return None;
        },
    };
    if !(100 <= stj.0 && stj.0 < 600) {
        return None;
    }
    let i3 = match expect_lit(s, stj.1, ";body_bytes_sent=") {
        Some(j) => j,
        None => {
            return None;
        },
    };
    let bbj = match parse_u64(s, i3) {
        Some(t) => t,
        None => {
            return None;
        },
    };
    if !(bbj.0 < 1_000_000) {
        return None;
    }
    let i5 = match expect_lit(s, bbj.1, ";http_referer=") {
        Some(j) => j,
        None => {
            return None;
        },
    };
    let rfj = parse_opt_bytes(s, i5);
    let i7 = match expect_lit(s, rfj.1, ";http_user_agent=") {
        Some(j) => j,
        None => {
            return None;
        },
    };
    let agj = take_until(s, i7, 59);
    Some((stj.0 as u16, bbj.0, rfj.0, agj.0, agj.1))
}

#[verifier::rlimit(60)]
fn parse_chunk_c(s: &Vec<u8>, pos: usize) -> (r: Option<
    (Option<Ipv4>, u64, Option<u64>, Option<UpstreamAddr>, usize),
>)
    requires
        pos <= s@.len(),
    ensures
        match r {
            Some(t) => pchunk_c(s@, pos as int) == Some(
                ((t.0, t.1, t.2, t.3), t.4 as int),
            ) && pos <= t.4 <= s@.len(),
            None => pchunk_c(s@, pos as int) is None,
        },
{
    proof {
        reveal_strlit(";http_x_forwarded_for=");
        reveal_strlit(";request_time=");
        reveal_strlit(";upstream_response_time=");
        reveal_strlit(";upstream_addr=");
    }
    let i1 = match expect_lit(s, pos, ";http_x_forwarded_for=") {
        Some(j) => j,
        None => {
            return None;
        },
    };
    let fwj = match parse_opt_ip(s, i1) {
        Some(t) => t,
        None => {
            return None;
        },
    };
    let i3 = match expect_lit(s, fwj.1, ";request_time=") {
        Some(j) => j,
        None => {
            return None;
        },
    };
    let rtj = match parse_fixed(s, i3) {
        Some(t) => t,
        None => {
            return None;
        },
    };
    if !(1000 <= rtj.0 && rtj.0 < 30_000_000) {
        return None;
    }
    let i5 = match expect_lit(s, rtj.1, ";upstream_response_time=") {
        Some(j) => j,
        None => {
            return None;
        },
    };
    let urj = match parse_opt_fixed(s, i5) {
        Some(t) => t,
        None => {
            return None;
        },
    };
    let i7 = match expect_lit(s, urj.1, ";upstream_addr=") {
        Some(j) => j,
        None => {
            return None;
        },
    };
    let uaj = match parse_opt_upstream(s, i7) {
        Some(t) => t,
        None => {
            return None;
        },
    };
    Some((fwj.0, rtj.0, urj.0, uaj.0, uaj.1))
}

#[verifier::rlimit(60)]
fn parse_chunk_d(s: &Vec<u8>, pos: usize) -> (r: Option<(u64, u64, u64, i64, i64, usize)>)
    requires
        pos <= s@.len(),
    ensures
        match r {
            Some(t) => pchunk_d(s@, pos as int) == Some(
                ((t.0, t.1, t.2, t.3, t.4), t.5 as int),
            ) && pos <= t.5 <= s@.len(),
            None => pchunk_d(s@, pos as int) is None,
        },
{
    proof {
        reveal_strlit(";request_length=");
        reveal_strlit(";connection=");
        reveal_strlit(";connection_requests=");
        reveal_strlit(";lat=");
        reveal_strlit(";lng=");
    }
    let i1 = match expect_lit(s, pos, ";request_length=") {
        Some(j) => j,
        None => {
            return None;
        },
    };
    let rlj = match parse_u64(s, i1) {
        Some(t) => t,
        None => {
            return None;
        },
    };
    if !(1 <= rlj.0 && rlj.0 < 10_000) {
        return None;
    }
    let i3 = match expect_lit(s, rlj.1, ";connection=") {
        Some(j) => j,
        None => {
            return None;
        },
    };
    let cnj = match parse_u64(s, i3) {
        Some(t) => t,
        None => {
            return None;
        },
    };
    if !(1 <= cnj.0 && cnj.0 < 1_000_000) {
        return None;
    }
    let i5 = match expect_lit(s, cnj.1, ";connection_requests=") {
        Some(j) => j,
        None => {
            return None;
        },
    };
    let crj = match parse_u64(s, i5) {
        Some(t) => t,
        None => {
            return None;
        },
    };
    if !(1 <= crj.0 && crj.0 < 1_000) {
        return None;
    }
    let i7 = match expect_lit(s, crj.1, ";lat=") {
        Some(j) => j,
        None => {
            return None;
        },
    };
    let laj = match parse_fixed_i(s, i7) {
        Some(t) => t,
        None => {
            return None;
        },
    };
    if !(-90_000_000 <= laj.0 && laj.0 < 90_000_000) {
        return None;
    }
    let i9 = match expect_lit(s, laj.1, ";lng=") {
        Some(j) => j,
        None => {
            return None;
        },
    };
    let lnj = match parse_fixed_i(s, i9) {
        Some(t) => t,
        None => {
            return None;
        },
    };
    if !(-180_000_000 <= lnj.0 && lnj.0 < 180_000_000) {
        return None;
    }
    Some((rlj.0, cnj.0, crj.0, laj.0, lnj.0, lnj.1))
}

/// Parse one wire document back into a record.
///
/// The result is exactly what the specification-level parser reads: the
/// document must carry all seventeen fields in schema order, every numeric
/// field inside its declared domain, and nothing may follow the last field.
#[verifier::rlimit(60)]
pub fn parse_update(s: &Vec<u8>) -> (r: Option<Update>)
    ensures
        match (r, spec_parse_update(s@)) {
            (Some(u), Some(pv)) => view_update(&u) == pv,
            (None, None) => true,
            _ => false,
        },
{
    let ta = match parse_chunk_a(s, 0) {
        Some(t) => t,
        None => {
            return None;
        },
    };
    let tb = match parse_chunk_b(s, ta.4) {
        Some(t) => t,
        None => {
            return None;
        },
    };
    let tc = match parse_chunk_c(s, tb.4) {
        Some(t) => t,
        None => {
            return None;
        },
    };
    let td = match parse_chunk_d(s, tc.4) {
        Some(t) => t,
        None => {
            return None;
        },
    };
    if td.5 != s.len() {
        return None;
    }
    Some(
        Update {
            remote_addr: ta.0,
            remote_user: ta.1,
            time_local: ta.2,
            request: ta.3,
            status: tb.0,
            body_bytes_sent: tb.1,
            http_referer: tb.2,
            http_user_agent: tb.3,
            http_x_forwarded_for: tc.0,
            request_time: tc.1,
            upstream_response_time: tc.2,
            upstream_addr: tc.3,
            request_length: td.0,
            connection: td.1,
            connection_requests: td.2,
            lat: td.3,
            lng: td.4,
        },
    )
}

} // verus!
