//! Round-trip fidelity: parsing a serialized record recovers it.
//!
//! Each lemma states that the specification-level parser, pointed at the
//! bytes a specification-level renderer produced, reads back exactly the
//! rendered value and stops exactly after it.

use vstd::prelude::*;
use crate::record::{
    Ipv4, HttpMethod, HttpVersion, HttpRequest, Timestamp, Update, is_ascii_digit,
    is_ident_byte, is_path_byte, is_agent_byte, is_domain_byte, all_domain, path_valid,
    url_valid, timestamp_valid, request_valid, update_valid, scheme_http, scheme_https,
};
use crate::codec::{
    ascii_of, dec_u, dec_w, dec_i, fixed6, fixed6_i, ip_bytes, ts_bytes, method_str, version_str,
    req_bytes, absent, upstream_bytes, ser_part_a, ser_part_b, ser_part_c, ser_part_d,
    ser_update,
};
use crate::parse::{
    pow10, val_digits, p_lit, p_u64, p_i64, p_fixed, p_fixed_i, p_until, p_ip, p_method,
    p_version, p_req, p_ts, p_opt_bytes, p_opt_ip, p_opt_fixed, p_opt_upstream, pchunk_a,
    pchunk_b, pchunk_c, pchunk_d, spec_parse_update, ReqView, view_update, lemma_pow10_vals,
    lemma_pow10_mono, lemma_digit_run_end, lemma_scan_stop, lemma_dec_u_props, lemma_dec_u_len,
    lemma_dec_w_props,
};

verus! {

/// An unsigned decimal embedded at `i` parses back to its value.
pub proof fn lemma_p_u64_at(s: Seq<u8>, i: int, n: nat)
    requires
        0 <= i,
        n < pow10(18),
        i + dec_u(n).len() <= s.len(),
        s.subrange(i, i + dec_u(n).len() as int) == dec_u(n),
        i + dec_u(n).len() == s.len() || !is_ascii_digit(s[i + dec_u(n).len()]),
    ensures
        p_u64(s, i) == Some((n, i + dec_u(n).len() as int)),
{
    lemma_dec_u_props(n);
    lemma_pow10_vals();
    lemma_dec_u_len(n, 18);
    let d = dec_u(n);
    let j = i + d.len() as int;
    assert forall|k: int| i <= k < j implies is_ascii_digit(#[trigger] s[k]) by {
        assert(s[k] == s.subrange(i, j)[k - i]);
    }
    lemma_digit_run_end(s, i, j);
}

/// A signed decimal embedded at `i` parses back to its value.
pub proof fn lemma_p_i64_at(s: Seq<u8>, i: int, v: int)
    requires
        0 <= i,
        -pow10(18) < v < pow10(18),
        i + dec_i(v).len() <= s.len(),
        s.subrange(i, i + dec_i(v).len() as int) == dec_i(v),
        i + dec_i(v).len() == s.len() || !is_ascii_digit(s[i + dec_i(v).len()]),
    ensures
        p_i64(s, i) == Some((v, i + dec_i(v).len() as int)),
{
    if v >= 0 {
        let n = v as nat;
        lemma_dec_u_props(n);
        assert(dec_i(v) == dec_u(n));
        assert(s[i] == s.subrange(i, i + dec_u(n).len() as int)[0]);
        assert(is_ascii_digit(s[i]));
        assert(s[i] != 45);
        lemma_p_u64_at(s, i, n);
    } else {
        let n = (-v) as nat;
        lemma_dec_u_props(n);
        assert(dec_i(v) == seq![45u8] + dec_u(n));
        assert(s[i] == s.subrange(i, i + dec_i(v).len() as int)[0]);
        assert(s[i] == 45);
        assert(s.subrange(i + 1, i + 1 + dec_u(n).len() as int) =~= dec_u(n)) by {
            assert forall|k: int| 0 <= k < dec_u(n).len() implies s.subrange(
                i + 1,
                i + 1 + dec_u(n).len() as int,
            )[k] == dec_u(n)[k] by {
                assert(s[i + 1 + k] == s.subrange(i, i + dec_i(v).len() as int)[1 + k]);
            }
        }
        lemma_p_u64_at(s, i + 1, n);
    }
}

/// A fixed-point decimal embedded at `i` parses back to its micro-units.
pub proof fn lemma_p_fixed_at(s: Seq<u8>, i: int, m: nat)
    requires
        0 <= i,
        m < pow10(18),
        i + fixed6(m).len() <= s.len(),
        s.subrange(i, i + fixed6(m).len() as int) == fixed6(m),
    ensures
        p_fixed(s, i) == Some((m, i + fixed6(m).len() as int)),
{
    lemma_pow10_vals();
    let ip = m / 1000000;
    let f = m % 1000000;
    lemma_dec_u_props(ip);
    lemma_dec_w_props(f, 6);
    let d = dec_u(ip);
    let w = dec_w(f, 6);
    let fx = fixed6(m);
    assert(fx == d + seq![46u8] + w);
    assert(fx.len() == d.len() + 7);
    let j = i + d.len() as int;
    assert(s.subrange(i, j) =~= d) by {
        assert forall|k: int| 0 <= k < d.len() implies s.subrange(i, j)[k] == d[k] by {
            assert(s[i + k] == s.subrange(i, i + fx.len() as int)[k]);
        }
    }
    assert(s[j] == s.subrange(i, i + fx.len() as int)[d.len() as int]);
    assert(s[j] == 46);
    assert(!is_ascii_digit(s[j]));
    lemma_p_u64_at(s, i, ip);
    assert forall|k: int| j + 1 <= k < j + 7 implies is_ascii_digit(#[trigger] s[k]) by {
        assert(s[k] == s.subrange(i, i + fx.len() as int)[k - i]);
        assert(s[k] == w[k - j - 1]);
    }
    assert(s.subrange(j + 1, j + 7) =~= w) by {
        assert forall|k: int| 0 <= k < 6 implies s.subrange(j + 1, j + 7)[k] == w[k] by {
            assert(s[j + 1 + k] == s.subrange(i, i + fx.len() as int)[d.len() + 1 + k]);
        }
    }
    assert(val_digits(s.subrange(j + 1, j + 7)) == f);
    assert(ip * 1000000 + f == m);
}

/// A signed fixed-point decimal embedded at `i` parses back.
pub proof fn lemma_p_fixed_i_at(s: Seq<u8>, i: int, v: int)
    requires
        0 <= i,
        -pow10(18) < v < pow10(18),
        i + fixed6_i(v).len() <= s.len(),
        s.subrange(i, i + fixed6_i(v).len() as int) == fixed6_i(v),
    ensures
        p_fixed_i(s, i) == Some((v, i + fixed6_i(v).len() as int)),
{
    lemma_pow10_vals();
    if v >= 0 {
        let m = v as nat;
        lemma_dec_u_props(m / 1000000);
        assert(fixed6_i(v) == fixed6(m));
        assert(fixed6(m) == dec_u(m / 1000000) + seq![46u8] + dec_w(m % 1000000, 6));
        assert(s[i] == s.subrange(i, i + fixed6(m).len() as int)[0]);
        assert(s[i] == dec_u(m / 1000000)[0]);
        assert(is_ascii_digit(s[i]));
        assert(s[i] != 45);
        lemma_p_fixed_at(s, i, m);
    } else {
        let m = (-v) as nat;
        assert(fixed6_i(v) == seq![45u8] + fixed6(m));
        assert(s[i] == s.subrange(i, i + fixed6_i(v).len() as int)[0]);
        assert(s[i] == 45);
        assert(s.subrange(i + 1, i + 1 + fixed6(m).len() as int) =~= fixed6(m)) by {
            assert forall|k: int| 0 <= k < fixed6(m).len() implies s.subrange(
                i + 1,
                i + 1 + fixed6(m).len() as int,
            )[k] == fixed6(m)[k] by {
                assert(s[i + 1 + k] == s.subrange(i, i + fixed6_i(v).len() as int)[1 + k]);
            }
        }
        lemma_p_fixed_at(s, i + 1, m);
    }
}

/// A dotted-quad address embedded at `i` parses back.
pub proof fn lemma_p_ip_at(s: Seq<u8>, i: int, p: Ipv4)
    requires
        0 <= i,
        i + ip_bytes(p).len() <= s.len(),
        s.subrange(i, i + ip_bytes(p).len() as int) == ip_bytes(p),
        i + ip_bytes(p).len() == s.len() || !is_ascii_digit(s[i + ip_bytes(p).len()]),
    ensures
        p_ip(s, i) == Some((p, i + ip_bytes(p).len() as int)),
{
    lemma_pow10_vals();
    lemma_pow10_mono(3, 18);
    let da = dec_u(p.a as nat);
    let db = dec_u(p.b as nat);
    let dc = dec_u(p.c as nat);
    let dd = dec_u(p.d as nat);
    lemma_dec_u_props(p.a as nat);
    lemma_dec_u_props(p.b as nat);
    lemma_dec_u_props(p.c as nat);
    lemma_dec_u_props(p.d as nat);
    let ib = ip_bytes(p);
    let l = ib.len() as int;
    assert(ib == da + seq![46u8] + db + seq![46u8] + dc + seq![46u8] + dd);
    let i1 = i + da.len() as int;
    let i2 = i1 + 1 + db.len() as int;
    let i3 = i2 + 1 + dc.len() as int;
    let i4 = i3 + 1 + dd.len() as int;
    assert(i4 == i + l);
    assert forall|k: int| i <= k < i + l implies s[k] == ib[k - i] by {
        assert(s[k] == s.subrange(i, i + l)[k - i]);
    }
    assert(s.subrange(i, i1) =~= da);
    assert(s[i1] == 46);
    lemma_p_u64_at(s, i, p.a as nat);
    assert(s.subrange(i1 + 1, i1 + 1 + db.len() as int) =~= db);
    assert(s[i2] == 46);
    lemma_p_u64_at(s, i1 + 1, p.b as nat);
    assert(s.subrange(i2 + 1, i2 + 1 + dc.len() as int) =~= dc);
    assert(s[i3] == 46);
    lemma_p_u64_at(s, i2 + 1, p.c as nat);
    assert(s.subrange(i3 + 1, i3 + 1 + dd.len() as int) =~= dd);
    lemma_p_u64_at(s, i3 + 1, p.d as nat);
    assert(p_ip(s, i) == Some(
        (Ipv4 { a: p.a as nat as u8, b: p.b as nat as u8, c: p.c as nat as u8, d: p.d as nat as u8 }, i4),
    ));
    assert(p.a as nat as u8 == p.a);
}

/// A stop-free byte string embedded at `i` scans back exactly.
pub proof fn lemma_p_until_at(s: Seq<u8>, i: int, v: Seq<u8>, stop: u8)
    requires
        0 <= i,
        i + v.len() <= s.len(),
        s.subrange(i, i + v.len() as int) == v,
        forall|k: int| 0 <= k < v.len() ==> #[trigger] v[k] != stop,
        i + v.len() == s.len() || s[i + v.len()] == stop,
    ensures
        p_until(s, i, stop) == (v, i + v.len() as int),
{
    let j = i + v.len() as int;
    assert forall|k: int| i <= k < j implies #[trigger] s[k] != stop by {
        assert(s[k] == s.subrange(i, j)[k - i]);
        assert(s[k] == v[k - i]);
    }
    lemma_scan_stop(s, i, j, stop);
    assert(s.subrange(i, j) == v);
}

/// A method token (with its trailing comma) parses back to its method.
pub proof fn lemma_p_method_at(s: Seq<u8>, i: int, m: HttpMethod)
    requires
        0 <= i,
        i + ascii_of(method_str(m)).len() + 1 <= s.len(),
        s.subrange(i, i + ascii_of(method_str(m)).len() + 1) == ascii_of(method_str(m)) + seq![
            44u8,
        ],
    ensures
        p_method(s, i) == Some((m, i + ascii_of(method_str(m)).len() as int)),
{
    reveal_strlit("GET");
    reveal_strlit("POST");
    reveal_strlit("PUT");
    reveal_strlit("DELETE");
    reveal_strlit("HEAD");
    reveal_strlit("OPTIONS");
    let tok = ascii_of(method_str(m));
    let l = tok.len() as int;
    assert forall|k: int| i <= k < i + l + 1 implies s[k] == (tok + seq![44u8])[k - i] by {
        assert(s[k] == s.subrange(i, i + l + 1)[k - i]);
    }
    assert(s.subrange(i, i + l) =~= tok);
    match m {
        HttpMethod::GET => {
            assert(p_lit(s, i, ascii_of("GET"@)) == Some(i + 3));
        },
        HttpMethod::POST => {
            assert(s[i] == 'P' as u8);
            if i + 3 <= s.len() {
                assert(s.subrange(i, i + 3)[0] == s[i]);
                assert(s.subrange(i, i + 3) != ascii_of("GET"@));
            }
            assert(p_lit(s, i, ascii_of("GET"@)) is None);
            assert(p_lit(s, i, ascii_of("POST"@)) == Some(i + 4));
        },
        HttpMethod::PUT => {
            assert(s[i] == 'P' as u8);
            assert(s[i + 1] == 'U' as u8);
            if i + 3 <= s.len() {
                assert(s.subrange(i, i + 3)[0] == s[i]);
                assert(s.subrange(i, i + 3) != ascii_of("GET"@));
            }
            assert(p_lit(s, i, ascii_of("GET"@)) is None);
            if i + 4 <= s.len() {
                assert(s.subrange(i, i + 4)[1] == s[i + 1]);
                assert(s.subrange(i, i + 4) != ascii_of("POST"@));
            }
            assert(p_lit(s, i, ascii_of("POST"@)) is None);
            assert(p_lit(s, i, ascii_of("PUT"@)) == Some(i + 3));
        },
        HttpMethod::DELETE => {
            assert(s[i] == 'D' as u8);
            if i + 3 <= s.len() {
                assert(s.subrange(i, i + 3)[0] == s[i]);
                assert(s.subrange(i, i + 3) != ascii_of("GET"@));
            }
            if i + 4 <= s.len() {
                assert(s.subrange(i, i + 4)[0] == s[i]);
                assert(s.subrange(i, i + 4) != ascii_of("POST"@));
            }
            if i + 3 <= s.len() {
                assert(s.subrange(i, i + 3) != ascii_of("PUT"@));
            }
            assert(p_lit(s, i, ascii_of("GET"@)) is None);
            assert(p_lit(s, i, ascii_of("POST"@)) is None);
            assert(p_lit(s, i, ascii_of("PUT"@)) is None);
            assert(p_lit(s, i, ascii_of("DELETE"@)) == Some(i + 6));
        },
        HttpMethod::HEAD => {
            assert(s[i] == 'H' as u8);
            if i + 3 <= s.len() {
                assert(s.subrange(i, i + 3)[0] == s[i]);
                assert(s.subrange(i, i + 3) != ascii_of("GET"@));
                assert(s.subrange(i, i + 3) != ascii_of("PUT"@));
            }
            if i + 4 <= s.len() {
                assert(s.subrange(i, i + 4)[0] == s[i]);
                assert(s.subrange(i, i + 4) != ascii_of("POST"@));
            }
            if i + 6 <= s.len() {
                assert(s.subrange(i, i + 6)[0] == s[i]);
                assert(s.subrange(i, i + 6) != ascii_of("DELETE"@));
            }
            assert(p_lit(s, i, ascii_of("GET"@)) is None);
            assert(p_lit(s, i, ascii_of("POST"@)) is None);
            assert(p_lit(s, i, ascii_of("PUT"@)) is None);
            assert(p_lit(s, i, ascii_of("DELETE"@)) is None);
            assert(p_lit(s, i, ascii_of("HEAD"@)) == Some(i + 4));
        },
        HttpMethod::OPTIONS => {
            assert(s[i] == 'O' as u8);
            if i + 3 <= s.len() {
                assert(s.subrange(i, i + 3)[0] == s[i]);
                assert(s.subrange(i, i + 3) != ascii_of("GET"@));
                assert(s.subrange(i, i + 3) != ascii_of("PUT"@));
            }
            if i + 4 <= s.len() {
                assert(s.subrange(i, i + 4)[0] == s[i]);
                assert(s.subrange(i, i + 4) != ascii_of("POST"@));
                assert(s.subrange(i, i + 4) != ascii_of("HEAD"@));
            }
            if i + 6 <= s.len() {
                assert(s.subrange(i, i + 6)[0] == s[i]);
                assert(s.subrange(i, i + 6) != ascii_of("DELETE"@));
            }
            assert(p_lit(s, i, ascii_of("GET"@)) is None);
            assert(p_lit(s, i, ascii_of("POST"@)) is None);
            assert(p_lit(s, i, ascii_of("PUT"@)) is None);
            assert(p_lit(s, i, ascii_of("DELETE"@)) is None);
            assert(p_lit(s, i, ascii_of("HEAD"@)) is None);
            assert(p_lit(s, i, ascii_of("OPTIONS"@)) == Some(i + 7));
        },
    }
}

/// A version token parses back to its version.
pub proof fn lemma_p_version_at(s: Seq<u8>, i: int, v: HttpVersion)
    requires
        0 <= i,
        i + 3 <= s.len(),
        ascii_of(version_str(v)).len() == 3,
        s.subrange(i, i + 3) == ascii_of(version_str(v)),
    ensures
        p_version(s, i) == Some((v, i + 3)),
{
    reveal_strlit("1.0");
    reveal_strlit("1.1");
    reveal_strlit("2.0");
    assert forall|k: int| i <= k < i + 3 implies s[k] == ascii_of(version_str(v))[k - i] by {
        assert(s[k] == s.subrange(i, i + 3)[k - i]);
    }
    match v {
        HttpVersion::Http10 => {
            assert(p_lit(s, i, ascii_of("1.0"@)) == Some(i + 3));
        },
        HttpVersion::Http11 => {
            assert(s[i + 2] == '1' as u8);
            assert(s.subrange(i, i + 3)[2] == s[i + 2]);
            assert(s.subrange(i, i + 3) != ascii_of("1.0"@));
            assert(p_lit(s, i, ascii_of("1.0"@)) is None);
            assert(p_lit(s, i, ascii_of("1.1"@)) == Some(i + 3));
        },
        HttpVersion::Http20 => {
            assert(s[i] == '2' as u8);
            assert(s.subrange(i, i + 3)[0] == s[i]);
            assert(s.subrange(i, i + 3) != ascii_of("1.0"@));
            assert(s.subrange(i, i + 3) != ascii_of("1.1"@));
            assert(p_lit(s, i, ascii_of("1.0"@)) is None);
            assert(p_lit(s, i, ascii_of("1.1"@)) is None);
            assert(p_lit(s, i, ascii_of("2.0"@)) == Some(i + 3));
        },
    }
}

/// A request line embedded at `i` parses back to its pieces.
pub proof fn lemma_p_req_at(s: Seq<u8>, i: int, r: &HttpRequest)
    requires
        0 <= i,
        request_valid(r),
        i + req_bytes(r).len() <= s.len(),
        s.subrange(i, i + req_bytes(r).len() as int) == req_bytes(r),
    ensures
        p_req(s, i) == Some(
            (
                ReqView { method: r.method, path: r.path@, version: r.version },
                i + req_bytes(r).len() as int,
            ),
        ),
{
    let tok = ascii_of(method_str(r.method));
    let rb = req_bytes(r);
    let l = rb.len() as int;
    assert(rb == tok + seq![44u8] + r.path@ + seq![44u8] + ascii_of(version_str(r.version)));
    assert forall|k: int| i <= k < i + l implies s[k] == rb[k - i] by {
        assert(s[k] == s.subrange(i, i + l)[k - i]);
    }
    let j = i + tok.len() as int;
    assert(s.subrange(i, j + 1) =~= tok + seq![44u8]);
    lemma_p_method_at(s, i, r.method);
    assert(s[j] == 44);
    let j1 = j + 1;
    let pl = r.path@.len() as int;
    assert(s.subrange(j1, j1 + pl) =~= r.path@);
    assert forall|k: int| 0 <= k < pl implies #[trigger] r.path@[k] != 44 by {
        assert(is_path_byte(r.path@[k]));
    }
    assert(s[j1 + pl] == 44);
    lemma_p_until_at(s, j1, r.path@, 44);
    let j2 = j1 + pl;
    reveal_strlit("1.0");
    reveal_strlit("1.1");
    reveal_strlit("2.0");
    assert(ascii_of(version_str(r.version)).len() == 3);
    assert(s.subrange(j2 + 1, j2 + 4) =~= ascii_of(version_str(r.version)));
    lemma_p_version_at(s, j2 + 1, r.version);
    assert(j2 + 4 == i + l);
}

/// A timestamp embedded at `i` parses back to its fields.
pub proof fn lemma_p_ts_at(s: Seq<u8>, i: int, t: Timestamp)
    requires
        0 <= i,
        timestamp_valid(t),
        i + ts_bytes(t).len() <= s.len(),
        s.subrange(i, i + ts_bytes(t).len() as int) == ts_bytes(t),
        i + ts_bytes(t).len() == s.len() || !is_ascii_digit(s[i + ts_bytes(t).len()]),
    ensures
        p_ts(s, i) == Some((t, i + ts_bytes(t).len() as int)),
{
    lemma_pow10_vals();
    let ds = dec_i(t.secs as int);
    let doff = dec_i(t.offset_secs as int);
    let tb = ts_bytes(t);
    let l = tb.len() as int;
    assert(tb == ds + seq![44u8] + doff);
    assert forall|k: int| i <= k < i + l implies s[k] == tb[k - i] by {
        assert(s[k] == s.subrange(i, i + l)[k - i]);
    }
    let j = i + ds.len() as int;
    assert(s.subrange(i, j) =~= ds);
    assert(s[j] == 44);
    assert(!is_ascii_digit(44u8));
    lemma_pow10_mono(10, 18);
    assert(t.secs < pow10(10)) by {
        lemma_pow10_vals_small();
    }
    lemma_p_i64_at(s, i, t.secs as int);
    let j1 = j + 1;
    assert(s.subrange(j1, j1 + doff.len() as int) =~= doff);
    assert(-pow10(18) < t.offset_secs as int && (t.offset_secs as int) < pow10(18)) by {
        lemma_pow10_vals_small();
        lemma_pow10_mono(5, 18);
    }
    lemma_p_i64_at(s, j1, t.offset_secs as int);
    assert(j1 + doff.len() == i + l);
}

/// Small powers of ten, spelled out.
pub proof fn lemma_pow10_vals_small()
    ensures
        pow10(5) == 100000,
        pow10(10) == 10000000000,
{
    reveal_with_fuel(pow10, 11);
}

/// A valid referer URL never holds the pair separator or the absence
/// marker, and begins with the scheme's first byte.
pub proof fn lemma_url_bytes(v: Seq<u8>)
    requires
        url_valid(v),
    ensures
        v.len() >= 8,
        v[0] == 104,
        forall|k: int| 0 <= k < v.len() ==> #[trigger] v[k] != 59 && v[k] != 126,
{
    let (dom, path) = choose|dom: Seq<u8>, path: Seq<u8>|
        {
            &&& (v == scheme_http() + dom + path || v == scheme_https() + dom + path)
            &&& dom.len() >= 1
            &&& all_domain(dom)
            &&& (path.len() == 0 || path_valid(path))
        };
    let sch = if v == scheme_http() + dom + path {
        scheme_http()
    } else {
        scheme_https()
    };
    assert(v == sch + dom + path);
    assert forall|k: int| 0 <= k < sch.len() implies #[trigger] sch[k] != 59 && sch[k] != 126 by {
        assert(sch == scheme_http() || sch == scheme_https());
    }
    assert forall|k: int| 0 <= k < v.len() implies #[trigger] v[k] != 59 && v[k] != 126 by {
        if k < sch.len() {
            assert(v[k] == sch[k]);
        } else if k < sch.len() + dom.len() {
            assert(v[k] == dom[k - sch.len()]);
            assert(is_domain_byte(v[k]));
        } else {
            assert(v[k] == path[k - sch.len() - dom.len()]);
            assert(is_path_byte(v[k]));
        }
    }
    assert(v[0] == sch[0]);
}

/// First half of chunk 1: address key, address, user key, optional user.
#[verifier::rlimit(100)]
proof fn lemma_chunk_a_head(s: Seq<u8>, u: &Update, i: int)
    requires
        update_valid(u),
        0 <= i,
        i + ser_part_a(u).len() <= s.len(),
        s.subrange(i, i + ser_part_a(u).len() as int) == ser_part_a(u),
    ensures
        ({
            let k1 = ascii_of("remote_addr="@);
            let k2 = ascii_of(";remote_user="@);
            let ub = match u.remote_user {
                Some(ref x) => x@,
                None => absent(),
            };
            let i1 = i + k1.len() as int;
            let i2 = i1 + ip_bytes(u.remote_addr).len() as int;
            let i3 = i2 + k2.len() as int;
            let i4 = i3 + ub.len() as int;
            &&& p_lit(s, i, k1) == Some(i1)
            &&& p_ip(s, i1) == Some((u.remote_addr, i2))
            &&& p_lit(s, i2, k2) == Some(i3)
            &&& p_opt_bytes(s, i3) == (
                match u.remote_user {
                    Some(ref x) => Some(x@),
                    None => None::<Seq<u8>>,
                },
                i4,
            )
        }),
{
    reveal_strlit("remote_addr=");
    reveal_strlit(";remote_user=");
    reveal_strlit(";time_local=");
    let k1 = ascii_of("remote_addr="@);
    let k2 = ascii_of(";remote_user="@);
    let k3 = ascii_of(";time_local="@);
    let k4 = ascii_of(";request="@);
    let ub = match u.remote_user {
        Some(ref x) => x@,
        None => absent(),
    };
    let pa = ser_part_a(u);
    let l = pa.len() as int;
    assert(pa == k1 + ip_bytes(u.remote_addr) + k2 + ub + k3 + ts_bytes(u.time_local) + k4
        + req_bytes(&u.request));
    assert forall|k: int| i <= k < i + l implies s[k] == pa[k - i] by {
        assert(s[k] == s.subrange(i, i + l)[k - i]);
    }
    let i1 = i + k1.len() as int;
    let i2 = i1 + ip_bytes(u.remote_addr).len() as int;
    let i3 = i2 + k2.len() as int;
    let i4 = i3 + ub.len() as int;
    assert(s.subrange(i, i1) =~= k1);
    assert(p_lit(s, i, k1) == Some(i1));
    assert(s.subrange(i1, i2) =~= ip_bytes(u.remote_addr));
    assert(s[i2] == k2[0]);
    assert(k2[0] == 59);
    lemma_p_ip_at(s, i1, u.remote_addr);
    assert(s.subrange(i2, i3) =~= k2);
    assert(p_lit(s, i2, k2) == Some(i3));
    match u.remote_user {
        Some(ref x) => {
            assert(s[i3] == ub[0]);
            assert(is_ident_byte(ub[0]));
            assert(s[i3] != 126);
            assert(s.subrange(i3, i4) =~= x@);
            assert forall|k: int| 0 <= k < x@.len() implies #[trigger] x@[k] != 59 by {
                assert(is_ident_byte(x@[k]));
            }
            assert(s[i4] == k3[0]);
            assert(k3[0] == 59);
            lemma_p_until_at(s, i3, x@, 59);
            assert(p_opt_bytes(s, i3) == (Some(x@), i4));
        },
        None => {
            assert(s[i3] == 126);
            assert(p_opt_bytes(s, i3) == (None::<Seq<u8>>, i4));
        },
    }
}

/// Second half of chunk 1: time key, timestamp, request key, request line.
#[verifier::rlimit(100)]
proof fn lemma_chunk_a_tail(s: Seq<u8>, u: &Update, i: int)
    requires
        update_valid(u),
        0 <= i,
        i + ser_part_a(u).len() <= s.len(),
        s.subrange(i, i + ser_part_a(u).len() as int) == ser_part_a(u),
    ensures
        ({
            let k3 = ascii_of(";time_local="@);
            let k4 = ascii_of(";request="@);
            let ub = match u.remote_user {
                Some(ref x) => x@,
                None => absent(),
            };
            let i4 = i + ascii_of("remote_addr="@).len() + ip_bytes(u.remote_addr).len()
                + ascii_of(";remote_user="@).len() + ub.len();
            let i5 = i4 + k3.len() as int;
            let i6 = i5 + ts_bytes(u.time_local).len() as int;
            let i7 = i6 + k4.len() as int;
            let i8 = i7 + req_bytes(&u.request).len() as int;
            &&& p_lit(s, i4, k3) == Some(i5)
            &&& p_ts(s, i5) == Some((u.time_local, i6))
            &&& p_lit(s, i6, k4) == Some(i7)
            &&& p_req(s, i7) == Some(
                (
                    ReqView {
                        method: u.request.method,
                        path: u.request.path@,
                        version: u.request.version,
                    },
                    i8,
                ),
            )
            &&& i8 == i + ser_part_a(u).len()
        }),
{
    reveal_strlit(";time_local=");
    reveal_strlit(";request=");
    let k1 = ascii_of("remote_addr="@);
    let k2 = ascii_of(";remote_user="@);
    let k3 = ascii_of(";time_local="@);
    let k4 = ascii_of(";request="@);
    let ub = match u.remote_user {
        Some(ref x) => x@,
        None => absent(),
    };
    let pa = ser_part_a(u);
    let l = pa.len() as int;
    assert(pa == k1 + ip_bytes(u.remote_addr) + k2 + ub + k3 + ts_bytes(u.time_local) + k4
        + req_bytes(&u.request));
    assert forall|k: int| i <= k < i + l implies s[k] == pa[k - i] by {
        assert(s[k] == s.subrange(i, i + l)[k - i]);
    }
    let i4 = i + k1.len() + ip_bytes(u.remote_addr).len() + k2.len() + ub.len();
    let i5 = i4 + k3.len() as int;
    let i6 = i5 + ts_bytes(u.time_local).len() as int;
    let i7 = i6 + k4.len() as int;
    let i8 = i7 + req_bytes(&u.request).len() as int;
    assert(i8 == i + l);
    assert(s.subrange(i4, i5) =~= k3);
    assert(p_lit(s, i4, k3) == Some(i5));
    assert(s.subrange(i5, i6) =~= ts_bytes(u.time_local));
    assert(s[i6] == k4[0]);
    assert(k4[0] == 59);
    lemma_p_ts_at(s, i5, u.time_local);
    assert(s.subrange(i6, i7) =~= k4);
    assert(p_lit(s, i6, k4) == Some(i7));
    assert(s.subrange(i7, i8) =~= req_bytes(&u.request));
    lemma_p_req_at(s, i7, &u.request);
}

/// Chunk 1 of the document parses back to fields 1 to 4.
pub proof fn lemma_chunk_a(s: Seq<u8>, u: &Update, i: int)
    requires
        update_valid(u),
        0 <= i,
        i + ser_part_a(u).len() <= s.len(),
        s.subrange(i, i + ser_part_a(u).len() as int) == ser_part_a(u),
    ensures
        pchunk_a(s, i) == Some(
            (
                (
                    u.remote_addr,
                    match u.remote_user {
                        Some(ref x) => Some(x@),
                        None => None,
                    },
                    u.time_local,
                    ReqView {
                        method: u.request.method,
                        path: u.request.path@,
                        version: u.request.version,
                    },
                ),
                i + ser_part_a(u).len() as int,
            ),
        ),
{
    lemma_chunk_a_head(s, u, i);
    lemma_chunk_a_tail(s, u, i);
}

/// Chunk 2 of the document parses back to fields 5 to 8.
#[verifier::rlimit(100)]
pub proof fn lemma_chunk_b(s: Seq<u8>, u: &Update, i: int)
    requires
        update_valid(u),
        0 <= i,
        i + ser_part_b(u).len() <= s.len(),
        s.subrange(i, i + ser_part_b(u).len() as int) == ser_part_b(u),
        i + ser_part_b(u).len() == s.len() || s[i + ser_part_b(u).len()] == 59,
    ensures
        pchunk_b(s, i) == Some(
            (
                (
                    u.status,
                    u.body_bytes_sent,
                    match u.http_referer {
                        Some(ref x) => Some(x@),
                        None => None,
                    },
                    u.http_user_agent@,
                ),
                i + ser_part_b(u).len() as int,
            ),
        ),
{
    reveal_strlit(";status=");
    reveal_strlit(";body_bytes_sent=");
    reveal_strlit(";http_referer=");
    reveal_strlit(";http_user_agent=");
    lemma_pow10_vals();
    lemma_pow10_mono(6, 18);
    let k1 = ascii_of(";status="@);
    let k2 = ascii_of(";body_bytes_sent="@);
    let k3 = ascii_of(";http_referer="@);
    let k4 = ascii_of(";http_user_agent="@);
    let rb = match u.http_referer {
        Some(ref x) => x@,
        None => absent(),
    };
    let pb = ser_part_b(u);
    let l = pb.len() as int;
    assert(pb == k1 + dec_u(u.status as nat) + k2 + dec_u(u.body_bytes_sent as nat) + k3 + rb
        + k4 + u.http_user_agent@);
    assert forall|k: int| i <= k < i + l implies s[k] == pb[k - i] by {
        assert(s[k] == s.subrange(i, i + l)[k - i]);
    }
    let i1 = i + k1.len() as int;
    let i2 = i1 + dec_u(u.status as nat).len() as int;
    let i3 = i2 + k2.len() as int;
    let i4 = i3 + dec_u(u.body_bytes_sent as nat).len() as int;
    let i5 = i4 + k3.len() as int;
    let i6 = i5 + rb.len() as int;
    let i7 = i6 + k4.len() as int;
    let i8 = i7 + u.http_user_agent@.len() as int;
    assert(i8 == i + l);
    assert(s.subrange(i, i1) =~= k1);
    assert(p_lit(s, i, k1) == Some(i1));
    assert(s.subrange(i1, i2) =~= dec_u(u.status as nat));
    assert(s[i2] == k2[0]);
    assert(k2[0] == 59);
    lemma_p_u64_at(s, i1, u.status as nat);
    assert(u.status as nat as u16 == u.status);
    assert(s.subrange(i2, i3) =~= k2);
    assert(p_lit(s, i2, k2) == Some(i3));
    assert(s.subrange(i3, i4) =~= dec_u(u.body_bytes_sent as nat));
    assert(s[i4] == k3[0]);
    assert(k3[0] == 59);
    lemma_p_u64_at(s, i3, u.body_bytes_sent as nat);
    assert(s.subrange(i4, i5) =~= k3);
    assert(p_lit(s, i4, k3) == Some(i5));
    match u.http_referer {
        Some(ref x) => {
            lemma_url_bytes(x@);
            assert(s[i5] == rb[0]);
            assert(s[i5] != 126);
            assert(s.subrange(i5, i6) =~= x@);
            assert(s[i6] == k4[0]);
            assert(k4[0] == 59);
            lemma_p_until_at(s, i5, x@, 59);
            assert(p_opt_bytes(s, i5) == (Some(x@), i6));
        },
        None => {
            assert(s[i5] == 126);
            assert(p_opt_bytes(s, i5) == (None::<Seq<u8>>, i6));
        },
    }
    assert(s.subrange(i6, i7) =~= k4);
    assert(p_lit(s, i6, k4) == Some(i7));
    assert(s.subrange(i7, i8) =~= u.http_user_agent@);
    assert forall|k: int| 0 <= k < u.http_user_agent@.len() implies #[trigger] u
        .http_user_agent@[k] != 59 by {
        assert(is_agent_byte(u.http_user_agent@[k]));
    }
    lemma_p_until_at(s, i7, u.http_user_agent@, 59);
}

/// A present upstream peer embedded at `i` parses back.
#[verifier::rlimit(100)]
proof fn lemma_p_upstream_at(s: Seq<u8>, i: int, a: crate::record::UpstreamAddr)
    requires
        0 <= i,
        i + upstream_bytes(a).len() <= s.len(),
        s.subrange(i, i + upstream_bytes(a).len() as int) == upstream_bytes(a),
        i + upstream_bytes(a).len() == s.len() || !is_ascii_digit(
            s[i + upstream_bytes(a).len()],
        ),
    ensures
        p_opt_upstream(s, i) == Some((Some(a), i + upstream_bytes(a).len() as int)),
{
    lemma_pow10_vals();
    lemma_pow10_mono(5, 18);
    let ab = upstream_bytes(a);
    let l = ab.len() as int;
    assert(ab == ip_bytes(a.ip) + seq![44u8] + dec_u(a.port as nat));
    assert forall|k: int| i <= k < i + l implies s[k] == ab[k - i] by {
        assert(s[k] == s.subrange(i, i + l)[k - i]);
    }
    lemma_dec_u_props(a.ip.a as nat);
    assert(ab[0] == dec_u(a.ip.a as nat)[0]);
    assert(s[i] == ab[0]);
    assert(s[i] != 126);
    let ja = i + ip_bytes(a.ip).len() as int;
    assert(s.subrange(i, ja) =~= ip_bytes(a.ip));
    assert(s[ja] == 44);
    lemma_p_ip_at(s, i, a.ip);
    assert(s.subrange(ja + 1, ja + 1 + dec_u(a.port as nat).len() as int) =~= dec_u(
        a.port as nat,
    ));
    assert(ja + 1 + dec_u(a.port as nat).len() as int == i + l);
    lemma_p_u64_at(s, ja + 1, a.port as nat);
    assert(a.port as nat as u16 == a.port);
}

/// First half of chunk 3: forwarded-for and request-time fields.
#[verifier::rlimit(100)]
proof fn lemma_chunk_c_head(s: Seq<u8>, u: &Update, i: int)
    requires
        update_valid(u),
        0 <= i,
        i + ser_part_c(u).len() <= s.len(),
        s.subrange(i, i + ser_part_c(u).len() as int) == ser_part_c(u),
    ensures
        ({
            let k1 = ascii_of(";http_x_forwarded_for="@);
            let k2 = ascii_of(";request_time="@);
            let fb = match u.http_x_forwarded_for {
                Some(p) => ip_bytes(p),
                None => absent(),
            };
            let i1 = i + k1.len() as int;
            let i2 = i1 + fb.len() as int;
            let i3 = i2 + k2.len() as int;
            let i4 = i3 + fixed6(u.request_time as nat).len() as int;
            &&& p_lit(s, i, k1) == Some(i1)
            &&& p_opt_ip(s, i1) == Some((u.http_x_forwarded_for, i2))
            &&& p_lit(s, i2, k2) == Some(i3)
            &&& p_fixed(s, i3) == Some((u.request_time as nat, i4))
        }),
{
    reveal_strlit(";http_x_forwarded_for=");
    reveal_strlit(";request_time=");
    reveal_strlit(";upstream_response_time=");
    lemma_pow10_vals();
    lemma_pow10_mono(8, 18);
    lemma_pow10_vals_med();
    let k1 = ascii_of(";http_x_forwarded_for="@);
    let k2 = ascii_of(";request_time="@);
    let k3 = ascii_of(";upstream_response_time="@);
    let k4 = ascii_of(";upstream_addr="@);
    let fb = match u.http_x_forwarded_for {
        Some(p) => ip_bytes(p),
        None => absent(),
    };
    let ub = match u.upstream_response_time {
        Some(t) => fixed6(t as nat),
        None => absent(),
    };
    let ab = match u.upstream_addr {
        Some(a) => upstream_bytes(a),
        None => absent(),
    };
    let pc = ser_part_c(u);
    let l = pc.len() as int;
    assert(pc == k1 + fb + k2 + fixed6(u.request_time as nat) + k3 + ub + k4 + ab);
    assert forall|k: int| i <= k < i + l implies s[k] == pc[k - i] by {
        assert(s[k] == s.subrange(i, i + l)[k - i]);
    }
    let i1 = i + k1.len() as int;
    let i2 = i1 + fb.len() as int;
    let i3 = i2 + k2.len() as int;
    let i4 = i3 + fixed6(u.request_time as nat).len() as int;
    assert(s.subrange(i, i1) =~= k1);
    assert(p_lit(s, i, k1) == Some(i1));
    match u.http_x_forwarded_for {
        Some(p) => {
            lemma_dec_u_props(p.a as nat);
            assert(fb[0] == dec_u(p.a as nat)[0]);
            assert(s[i1] == fb[0]);
            assert(s[i1] != 126);
            assert(s.subrange(i1, i2) =~= ip_bytes(p));
            assert(s[i2] == k2[0]);
            assert(k2[0] == 59);
            lemma_p_ip_at(s, i1, p);
            assert(p_opt_ip(s, i1) == Some((Some(p), i2)));
        },
        None => {
            assert(s[i1] == 126);
            assert(p_opt_ip(s, i1) == Some((None::<Ipv4>, i2)));
        },
    }
    assert(s.subrange(i2, i3) =~= k2);
    assert(p_lit(s, i2, k2) == Some(i3));
    assert(s.subrange(i3, i4) =~= fixed6(u.request_time as nat));
    lemma_p_fixed_at(s, i3, u.request_time as nat);
}

/// Second half of chunk 3: upstream response time and upstream peer.
#[verifier::rlimit(100)]
proof fn lemma_chunk_c_tail(s: Seq<u8>, u: &Update, i: int)
    requires
        update_valid(u),
        0 <= i,
        i + ser_part_c(u).len() <= s.len(),
        s.subrange(i, i + ser_part_c(u).len() as int) == ser_part_c(u),
        i + ser_part_c(u).len() == s.len() || !is_ascii_digit(s[i + ser_part_c(u).len()]),
    ensures
        ({
            let k3 = ascii_of(";upstream_response_time="@);
            let k4 = ascii_of(";upstream_addr="@);
            let fb = match u.http_x_forwarded_for {
                Some(p) => ip_bytes(p),
                None => absent(),
            };
            let ub = match u.upstream_response_time {
                Some(t) => fixed6(t as nat),
                None => absent(),
            };
            let ab = match u.upstream_addr {
                Some(a) => upstream_bytes(a),
                None => absent(),
            };
            let i4 = i + ascii_of(";http_x_forwarded_for="@).len() + fb.len() + ascii_of(
                ";request_time="@,
            ).len() + fixed6(u.request_time as nat).len();
            let i5 = i4 + k3.len() as int;
            let i6 = i5 + ub.len() as int;
            let i7 = i6 + k4.len() as int;
            let i8 = i7 + ab.len() as int;
            &&& p_lit(s, i4, k3) == Some(i5)
            &&& p_opt_fixed(s, i5) == Some((u.upstream_response_time, i6))
            &&& p_lit(s, i6, k4) == Some(i7)
            &&& p_opt_upstream(s, i7) == Some((u.upstream_addr, i8))
            &&& i8 == i + ser_part_c(u).len()
        }),
{
    reveal_strlit(";upstream_response_time=");
    reveal_strlit(";upstream_addr=");
    lemma_pow10_vals();
    lemma_pow10_mono(8, 18);
    lemma_pow10_vals_med();
    let k1 = ascii_of(";http_x_forwarded_for="@);
    let k2 = ascii_of(";request_time="@);
    let k3 = ascii_of(";upstream_response_time="@);
    let k4 = ascii_of(";upstream_addr="@);
    let fb = match u.http_x_forwarded_for {
        Some(p) => ip_bytes(p),
        None => absent(),
    };
    let ub = match u.upstream_response_time {
        Some(t) => fixed6(t as nat),
        None => absent(),
    };
    let ab = match u.upstream_addr {
        Some(a) => upstream_bytes(a),
        None => absent(),
    };
    let pc = ser_part_c(u);
    let l = pc.len() as int;
    assert(pc == k1 + fb + k2 + fixed6(u.request_time as nat) + k3 + ub + k4 + ab);
    assert forall|k: int| i <= k < i + l implies s[k] == pc[k - i] by {
        assert(s[k] == s.subrange(i, i + l)[k - i]);
    }
    let i4 = i + k1.len() + fb.len() + k2.len() + fixed6(u.request_time as nat).len();
    let i5 = i4 + k3.len() as int;
    let i6 = i5 + ub.len() as int;
    let i7 = i6 + k4.len() as int;
    let i8 = i7 + ab.len() as int;
    assert(i8 == i + l);
    assert(s.subrange(i4, i5) =~= k3);
    assert(p_lit(s, i4, k3) == Some(i5));
    match u.upstream_response_time {
        Some(t) => {
            lemma_dec_u_props((t as nat) / 1000000);
            assert(ub == fixed6(t as nat));
            assert(ub[0] == dec_u((t as nat) / 1000000)[0]);
            assert(s[i5] == ub[0]);
            assert(is_ascii_digit(s[i5]));
            assert(s[i5] != 126);
            assert(s.subrange(i5, i6) =~= fixed6(t as nat));
            lemma_p_fixed_at(s, i5, t as nat);
            assert(p_opt_fixed(s, i5) == Some((Some(t), i6)));
        },
        None => {
            assert(s[i5] == 126);
            assert(p_opt_fixed(s, i5) == Some((None::<u64>, i6)));
        },
    }
    assert(s.subrange(i6, i7) =~= k4);
    assert(p_lit(s, i6, k4) == Some(i7));
    match u.upstream_addr {
        Some(a) => {
            assert(s.subrange(i7, i8) =~= upstream_bytes(a));
            lemma_p_upstream_at(s, i7, a);
        },
        None => {
            assert(s[i7] == 126);
            assert(p_opt_upstream(s, i7) == Some((None::<crate::record::UpstreamAddr>, i8)));
        },
    }
}

/// Chunk 3 of the document parses back to fields 9 to 12.
pub proof fn lemma_chunk_c(s: Seq<u8>, u: &Update, i: int)
    requires
        update_valid(u),
        0 <= i,
        i + ser_part_c(u).len() <= s.len(),
        s.subrange(i, i + ser_part_c(u).len() as int) == ser_part_c(u),
        i + ser_part_c(u).len() == s.len() || !is_ascii_digit(s[i + ser_part_c(u).len()]),
    ensures
        pchunk_c(s, i) == Some(
            (
                (
                    u.http_x_forwarded_for,
                    u.request_time,
                    u.upstream_response_time,
                    u.upstream_addr,
                ),
                i + ser_part_c(u).len() as int,
            ),
        ),
{
    lemma_chunk_c_head(s, u, i);
    lemma_chunk_c_tail(s, u, i);
    assert(u.request_time as nat as u64 == u.request_time);
}

/// Chunk 4 of the document parses back to fields 13 to 17.
#[verifier::rlimit(100)]
pub proof fn lemma_chunk_d(s: Seq<u8>, u: &Update, i: int)
    requires
        update_valid(u),
        0 <= i,
        i + ser_part_d(u).len() <= s.len(),
        s.subrange(i, i + ser_part_d(u).len() as int) == ser_part_d(u),
    ensures
        pchunk_d(s, i) == Some(
            (
                (u.request_length, u.connection, u.connection_requests, u.lat, u.lng),
                i + ser_part_d(u).len() as int,
            ),
        ),
{
    reveal_strlit(";request_length=");
    reveal_strlit(";connection=");
    reveal_strlit(";connection_requests=");
    reveal_strlit(";lat=");
    reveal_strlit(";lng=");
    lemma_pow10_vals();
    lemma_pow10_mono(9, 18);
    lemma_pow10_vals_med();
    let k1 = ascii_of(";request_length="@);
    let k2 = ascii_of(";connection="@);
    let k3 = ascii_of(";connection_requests="@);
    let k4 = ascii_of(";lat="@);
    let k5 = ascii_of(";lng="@);
    let pd = ser_part_d(u);
    let l = pd.len() as int;
    assert(pd == k1 + dec_u(u.request_length as nat) + k2 + dec_u(u.connection as nat) + k3
        + dec_u(u.connection_requests as nat) + k4 + fixed6_i(u.lat as int) + k5 + fixed6_i(
        u.lng as int,
    ));
    assert forall|k: int| i <= k < i + l implies s[k] == pd[k - i] by {
        assert(s[k] == s.subrange(i, i + l)[k - i]);
    }
    let i1 = i + k1.len() as int;
    let i2 = i1 + dec_u(u.request_length as nat).len() as int;
    let i3 = i2 + k2.len() as int;
    let i4 = i3 + dec_u(u.connection as nat).len() as int;
    let i5 = i4 + k3.len() as int;
    let i6 = i5 + dec_u(u.connection_requests as nat).len() as int;
    let i7 = i6 + k4.len() as int;
    let i8 = i7 + fixed6_i(u.lat as int).len() as int;
    let i9 = i8 + k5.len() as int;
    let i10 = i9 + fixed6_i(u.lng as int).len() as int;
    assert(i10 == i + l);
    assert(s.subrange(i, i1) =~= k1);
    assert(p_lit(s, i, k1) == Some(i1));
    assert(s.subrange(i1, i2) =~= dec_u(u.request_length as nat));
    assert(s[i2] == k2[0]);
    assert(k2[0] == 59);
    lemma_p_u64_at(s, i1, u.request_length as nat);
    assert(s.subrange(i2, i3) =~= k2);
    assert(p_lit(s, i2, k2) == Some(i3));
    assert(s.subrange(i3, i4) =~= dec_u(u.connection as nat));
    assert(s[i4] == k3[0]);
    assert(k3[0] == 59);
    lemma_p_u64_at(s, i3, u.connection as nat);
    assert(s.subrange(i4, i5) =~= k3);
    assert(p_lit(s, i4, k3) == Some(i5));
    assert(s.subrange(i5, i6) =~= dec_u(u.connection_requests as nat));
    assert(s[i6] == k4[0]);
    assert(k4[0] == 59);
    lemma_p_u64_at(s, i5, u.connection_requests as nat);
    assert(s.subrange(i6, i7) =~= k4);
    assert(p_lit(s, i6, k4) == Some(i7));
    assert(s.subrange(i7, i8) =~= fixed6_i(u.lat as int));
    lemma_p_fixed_i_at(s, i7, u.lat as int);
    assert(s.subrange(i8, i9) =~= k5);
    assert(p_lit(s, i8, k5) == Some(i9));
    assert(s.subrange(i9, i10) =~= fixed6_i(u.lng as int));
    lemma_p_fixed_i_at(s, i9, u.lng as int);
}

/// Middle powers of ten, spelled out.
pub proof fn lemma_pow10_vals_med()
    ensures
        pow10(8) == 100000000,
        pow10(9) == 1000000000,
{
    reveal_with_fuel(pow10, 10);
}

/// The document splits into its four chunk images, each followed by a
/// separator.
#[verifier::rlimit(100)]
proof fn lemma_split_parts(u: &Update)
    requires
        update_valid(u),
    ensures
        ({
            let s = ser_update(u);
            let i1 = ser_part_a(u).len() as int;
            let i2 = i1 + ser_part_b(u).len() as int;
            let i3 = i2 + ser_part_c(u).len() as int;
            let i4 = i3 + ser_part_d(u).len() as int;
            &&& i4 == s.len()
            &&& s.subrange(0, i1) == ser_part_a(u)
            &&& s.subrange(i1, i2) == ser_part_b(u)
            &&& s.subrange(i2, i3) == ser_part_c(u)
            &&& s.subrange(i3, i4) == ser_part_d(u)
            &&& s[i1] == 59
            &&& s[i2] == 59
            &&& s[i3] == 59
        }),
{
    reveal_strlit(";status=");
    reveal_strlit(";http_x_forwarded_for=");
    reveal_strlit(";request_length=");
    let s = ser_update(u);
    let pa = ser_part_a(u);
    let pb = ser_part_b(u);
    let pc = ser_part_c(u);
    let pd = ser_part_d(u);
    assert(s == pa + pb + pc + pd);
    let i1 = pa.len() as int;
    let i2 = i1 + pb.len() as int;
    let i3 = i2 + pc.len() as int;
    let i4 = i3 + pd.len() as int;
    assert(s.subrange(0, i1) =~= pa);
    assert(s.subrange(i1, i2) =~= pb);
    assert(s.subrange(i2, i3) =~= pc);
    assert(s.subrange(i3, i4) =~= pd);
    assert(pb == ascii_of(";status="@) + dec_u(u.status as nat) + ascii_of(
        ";body_bytes_sent="@,
    ) + dec_u(u.body_bytes_sent as nat) + ascii_of(";http_referer="@) + (match u.http_referer {
        Some(ref x) => x@,
        None => absent(),
    }) + ascii_of(";http_user_agent="@) + u.http_user_agent@);
    assert(pb[0] == ascii_of(";status="@)[0]);
    assert(s[i1] == pb[0] && pb[0] == 59);
    assert(pc[0] == ascii_of(";http_x_forwarded_for="@)[0]);
    assert(s[i2] == pc[0] && pc[0] == 59);
    assert(pd[0] == ascii_of(";request_length="@)[0]);
    assert(s[i3] == pd[0] && pd[0] == 59);
}

/// Round-trip fidelity: the parser, pointed at a valid record's document,
/// reads back a record of exactly the same structural content.
#[verifier::rlimit(100)]
pub proof fn lemma_round_trip(u: &Update)
    requires
        update_valid(u),
    ensures
        spec_parse_update(ser_update(u)) == Some(view_update(u)),
{
    let s = ser_update(u);
    let i1 = ser_part_a(u).len() as int;
    let i2 = i1 + ser_part_b(u).len() as int;
    let i3 = i2 + ser_part_c(u).len() as int;
    let i4 = i3 + ser_part_d(u).len() as int;
    lemma_split_parts(u);
    lemma_chunk_a(s, u, 0);
    lemma_chunk_b(s, u, i1);
    lemma_chunk_c(s, u, i2);
    lemma_chunk_d(s, u, i3);
    assert(spec_parse_update(s) == Some(view_update(u)));
}

} // verus!
