//! The wire codec: one record to one self-describing ASCII document and
//! back.
//!
//! Shape: `key=value` pairs joined by `;`, field names fixed and in schema
//! order.  Absent optional fields carry the explicit marker `~`.  The
//! serializer is proved to emit exactly the specification-level document;
//! the parser is proved to read it back.

use vstd::prelude::*;
use crate::record::{
    Ipv4, HttpMethod, HttpVersion, HttpRequest, UpstreamAddr, Timestamp, Update, update_valid,
};

verus! {

/// The bytes of an ASCII character sequence, byte for byte.
pub open spec fn ascii_of(cs: Seq<char>) -> Seq<u8> {
    Seq::new(cs.len(), |i: int| cs[i] as u8)
}

/// Decimal digits of `n`, most significant first, no leading zeros.
pub open spec fn dec_u(n: nat) -> Seq<u8>
    decreases n,
{
    if n < 10 {
        seq![(48 + n) as u8]
    } else {
        dec_u(n / 10).push((48 + n % 10) as u8)
    }
}

/// Exactly `w` decimal digits of `n`, zero-padded on the left.
pub open spec fn dec_w(n: nat, w: nat) -> Seq<u8>
    decreases w,
{
    if w == 0 {
        Seq::<u8>::empty()
    } else {
        dec_w(n / 10, (w - 1) as nat).push((48 + n % 10) as u8)
    }
}

/// A signed decimal: a `-` sign exactly when negative.
pub open spec fn dec_i(v: int) -> Seq<u8> {
    if v < 0 {
        seq![45u8] + dec_u((-v) as nat)
    } else {
        dec_u(v as nat)
    }
}

/// A micro-unit quantity as a decimal with six fractional digits.
pub open spec fn fixed6(m: nat) -> Seq<u8> {
    dec_u(m / 1000000) + seq![46u8] + dec_w(m % 1000000, 6)
}

/// A signed micro-unit quantity.
pub open spec fn fixed6_i(v: int) -> Seq<u8> {
    if v < 0 {
        seq![45u8] + fixed6((-v) as nat)
    } else {
        fixed6(v as nat)
    }
}

/// Dotted-quad rendering of an address.
pub open spec fn ip_bytes(p: Ipv4) -> Seq<u8> {
    dec_u(p.a as nat) + seq![46u8] + dec_u(p.b as nat) + seq![46u8] + dec_u(p.c as nat)
        + seq![46u8] + dec_u(p.d as nat)
}

/// A timestamp as `secs,offset`.
pub open spec fn ts_bytes(t: Timestamp) -> Seq<u8> {
    dec_i(t.secs as int) + seq![44u8] + dec_i(t.offset_secs as int)
}

pub open spec fn method_str(m: HttpMethod) -> Seq<char> {
    match m {
        HttpMethod::GET => "GET"@,
        HttpMethod::POST => "POST"@,
        HttpMethod::PUT => "PUT"@,
        HttpMethod::DELETE => "DELETE"@,
        HttpMethod::HEAD => "HEAD"@,
        HttpMethod::OPTIONS => "OPTIONS"@,
    }
}

pub open spec fn version_str(v: HttpVersion) -> Seq<char> {
    match v {
        HttpVersion::Http10 => "1.0"@,
        HttpVersion::Http11 => "1.1"@,
        HttpVersion::Http20 => "2.0"@,
    }
}

/// The request line as `method,path,version`.
pub open spec fn req_bytes(r: &HttpRequest) -> Seq<u8> {
    ascii_of(method_str(r.method)) + seq![44u8] + r.path@ + seq![44u8] + ascii_of(
        version_str(r.version),
    )
}

/// The explicit marker of an absent optional field.
pub open spec fn absent() -> Seq<u8> {
    seq![126u8]
}

/// An upstream peer as `ip,port`.
pub open spec fn upstream_bytes(a: UpstreamAddr) -> Seq<u8> {
    ip_bytes(a.ip) + seq![44u8] + dec_u(a.port as nat)
}

/// Fields 1 to 4 of the document.
pub open spec fn ser_part_a(u: &Update) -> Seq<u8> {
    ascii_of("remote_addr="@) + ip_bytes(u.remote_addr) + ascii_of(";remote_user="@) + (match u
        .remote_user {
        Some(ref s) => s@,
        None => absent(),
    }) + ascii_of(";time_local="@) + ts_bytes(u.time_local) + ascii_of(";request="@) + req_bytes(
        &u.request,
    )
}

/// Fields 5 to 8 of the document.
pub open spec fn ser_part_b(u: &Update) -> Seq<u8> {
    ascii_of(";status="@) + dec_u(u.status as nat) + ascii_of(";body_bytes_sent="@) + dec_u(
        u.body_bytes_sent as nat,
    ) + ascii_of(";http_referer="@) + (match u.http_referer {
        Some(ref s) => s@,
        None => absent(),
    }) + ascii_of(";http_user_agent="@) + u.http_user_agent@
}

/// Fields 9 to 12 of the document.
pub open spec fn ser_part_c(u: &Update) -> Seq<u8> {
    ascii_of(";http_x_forwarded_for="@) + (match u.http_x_forwarded_for {
        Some(p) => ip_bytes(p),
        None => absent(),
    }) + ascii_of(";request_time="@) + fixed6(u.request_time as nat) + ascii_of(
        ";upstream_response_time="@,
    ) + (match u.upstream_response_time {
        Some(t) => fixed6(t as nat),
        None => absent(),
    }) + ascii_of(";upstream_addr="@) + (match u.upstream_addr {
        Some(a) => upstream_bytes(a),
        None => absent(),
    })
}

/// Fields 13 to 17 of the document.
pub open spec fn ser_part_d(u: &Update) -> Seq<u8> {
    ascii_of(";request_length="@) + dec_u(u.request_length as nat) + ascii_of(
        ";connection="@,
    ) + dec_u(u.connection as nat) + ascii_of(";connection_requests="@) + dec_u(
        u.connection_requests as nat,
    ) + ascii_of(";lat="@) + fixed6_i(u.lat as int) + ascii_of(";lng="@) + fixed6_i(u.lng as int)
}

/// The whole document of one record, in schema order.
pub open spec fn ser_update(u: &Update) -> Seq<u8> {
    ser_part_a(u) + ser_part_b(u) + ser_part_c(u) + ser_part_d(u)
}

/// Append an ASCII literal to the output.
fn emit_lit(out: &mut Vec<u8>, s: &str)
    requires
        vstd::string::is_ascii(s),
    ensures
        final(out)@ == old(out)@ + ascii_of(s@),
{
    proof {
        vstd::utf8::is_ascii_chars_encode_utf8(s@);
    }
    let bs = s.as_bytes();
    assert(bs@ =~= ascii_of(s@));
    let n = bs.len();
    let mut i: usize = 0;
    while i < n
        invariant
            i <= n,
            n == bs@.len(),
            bs@ == ascii_of(s@),
            out@ == old(out)@ + bs@.subrange(0, i as int),
        decreases n - i,
    {
        let b = *vstd::slice::slice_index_get(bs, i);
        out.push(b);
        assert(out@ =~= old(out)@ + bs@.subrange(0, i + 1));
        i = i + 1;
    }
    assert(out@ =~= old(out)@ + ascii_of(s@));
}

/// Append the contents of a byte vector.
fn emit_bytes(out: &mut Vec<u8>, v: &Vec<u8>)
    ensures
        final(out)@ == old(out)@ + v@,
{
    let n = v.len();
    let mut i: usize = 0;
    while i < n
        invariant
            i <= n,
            n == v@.len(),
            out@ == old(out)@ + v@.subrange(0, i as int),
        decreases n - i,
    {
        let b = v[i];
        out.push(b);
        assert(out@ =~= old(out)@ + v@.subrange(0, i + 1));
        i = i + 1;
    }
    assert(out@ =~= old(out)@ + v@);
}

/// Append an unsigned decimal.
fn emit_u64(out: &mut Vec<u8>, n: u64)
    ensures
        final(out)@ == old(out)@ + dec_u(n as nat),
    decreases n,
{
    if n < 10 {
        out.push(48 + (n as u8));
        assert(out@ =~= old(out)@ + dec_u(n as nat));
    } else {
        emit_u64(out, n / 10);
        out.push(48 + ((n % 10) as u8));
        assert(out@ =~= old(out)@ + dec_u(n as nat));
    }
}

/// Append exactly `w` zero-padded decimal digits.
fn emit_w(out: &mut Vec<u8>, n: u64, w: u64)
    ensures
        final(out)@ == old(out)@ + dec_w(n as nat, w as nat),
    decreases w,
{
    if w > 0 {
        emit_w(out, n / 10, w - 1);
        out.push(48 + ((n % 10) as u8));
        assert(out@ =~= old(out)@ + dec_w(n as nat, w as nat));
    } else {
        assert(out@ =~= old(out)@ + dec_w(n as nat, 0));
    }
}

/// Append a signed decimal.
fn emit_i64(out: &mut Vec<u8>, v: i64)
    requires
        v > i64::MIN,
    ensures
        final(out)@ == old(out)@ + dec_i(v as int),
{
    if v < 0 {
        out.push(45);
        emit_u64(out, (-v) as u64);
        assert(out@ =~= old(out)@ + dec_i(v as int));
    } else {
        emit_u64(out, v as u64);
    }
}

/// Append a micro-unit quantity as a six-digit fixed-point decimal.
fn emit_fixed(out: &mut Vec<u8>, m: u64)
    ensures
        final(out)@ == old(out)@ + fixed6(m as nat),
{
    emit_u64(out, m / 1000000);
    out.push(46);
    emit_w(out, m % 1000000, 6);
    assert(out@ =~= old(out)@ + fixed6(m as nat));
}

/// Append a signed micro-unit quantity.
fn emit_fixed_i(out: &mut Vec<u8>, v: i64)
    requires
        v > i64::MIN,
    ensures
        final(out)@ == old(out)@ + fixed6_i(v as int),
{
    if v < 0 {
        out.push(45);
        emit_fixed(out, (-v) as u64);
        assert(out@ =~= old(out)@ + fixed6_i(v as int));
    } else {
        emit_fixed(out, v as u64);
    }
}

/// Append a dotted-quad address.
fn emit_ip(out: &mut Vec<u8>, p: Ipv4)
    ensures
        final(out)@ == old(out)@ + ip_bytes(p),
{
    emit_u64(out, p.a as u64);
    out.push(46);
    emit_u64(out, p.b as u64);
    out.push(46);
    emit_u64(out, p.c as u64);
    out.push(46);
    emit_u64(out, p.d as u64);
    assert(out@ =~= old(out)@ + ip_bytes(p));
}

/// Append the method token.
fn emit_method(out: &mut Vec<u8>, m: HttpMethod)
    ensures
        final(out)@ == old(out)@ + ascii_of(method_str(m)),
{
    match m {
        HttpMethod::GET => {
            proof {
                reveal_strlit("GET");
            }
            emit_lit(out, "GET");
        },
        HttpMethod::POST => {
            proof {
                reveal_strlit("POST");
            }
            emit_lit(out, "POST");
        },
        HttpMethod::PUT => {
            proof {
                reveal_strlit("PUT");
            }
            emit_lit(out, "PUT");
        },
        HttpMethod::DELETE => {
            proof {
                reveal_strlit("DELETE");
            }
            emit_lit(out, "DELETE");
        },
        HttpMethod::HEAD => {
            proof {
                reveal_strlit("HEAD");
            }
            emit_lit(out, "HEAD");
        },
        HttpMethod::OPTIONS => {
            proof {
                reveal_strlit("OPTIONS");
            }
            emit_lit(out, "OPTIONS");
        },
    }
}

/// Append the version token.
fn emit_version(out: &mut Vec<u8>, v: HttpVersion)
    ensures
        final(out)@ == old(out)@ + ascii_of(version_str(v)),
{
    match v {
        HttpVersion::Http10 => {
            proof {
                reveal_strlit("1.0");
            }
            emit_lit(out, "1.0");
        },
        HttpVersion::Http11 => {
            proof {
                reveal_strlit("1.1");
            }
            emit_lit(out, "1.1");
        },
        HttpVersion::Http20 => {
            proof {
                reveal_strlit("2.0");
            }
            emit_lit(out, "2.0");
        },
    }
}

/// Append the request line.
fn emit_req(out: &mut Vec<u8>, r: &HttpRequest)
    ensures
        final(out)@ == old(out)@ + req_bytes(r),
{
    emit_method(out, r.method);
    out.push(44);
    emit_bytes(out, &r.path);
    out.push(44);
    emit_version(out, r.version);
    assert(out@ =~= old(out)@ + req_bytes(r));
}

/// Append a timestamp as `secs,offset`.
fn emit_ts(out: &mut Vec<u8>, t: Timestamp)
    requires
        t.secs > i64::MIN,
        t.offset_secs > i32::MIN,
    ensures
        final(out)@ == old(out)@ + ts_bytes(t),
{
    emit_i64(out, t.secs);
    out.push(44);
    emit_i64(out, t.offset_secs as i64);
    assert(out@ =~= old(out)@ + ts_bytes(t));
}

#[verifier::rlimit(60)]
fn emit_part_a(out: &mut Vec<u8>, u: &Update)
    requires
        update_valid(u),
    ensures
        final(out)@ == old(out)@ + ser_part_a(u),
{
    proof {
        reveal_strlit("remote_addr=");
        reveal_strlit(";remote_user=");
        reveal_strlit(";time_local=");
        reveal_strlit(";request=");
    }
    emit_lit(out, "remote_addr=");
    emit_ip(out, u.remote_addr);
    emit_lit(out, ";remote_user=");
    match &u.remote_user {
        Some(s) => emit_bytes(out, s),
        None => out.push(126),
    }
    emit_lit(out, ";time_local=");
    emit_ts(out, u.time_local);
    emit_lit(out, ";request=");
    emit_req(out, &u.request);
    assert(out@ =~= old(out)@ + ser_part_a(u));
}

#[verifier::rlimit(60)]
fn emit_part_b(out: &mut Vec<u8>, u: &Update)
    ensures
        final(out)@ == old(out)@ + ser_part_b(u),
{
    proof {
        reveal_strlit(";status=");
        reveal_strlit(";body_bytes_sent=");
        reveal_strlit(";http_referer=");
        reveal_strlit(";http_user_agent=");
    }
    emit_lit(out, ";status=");
    emit_u64(out, u.status as u64);
    emit_lit(out, ";body_bytes_sent=");
    emit_u64(out, u.body_bytes_sent);
    emit_lit(out, ";http_referer=");
    match &u.http_referer {
        Some(s) => emit_bytes(out, s),
        None => out.push(126),
    }
    emit_lit(out, ";http_user_agent=");
    emit_bytes(out, &u.http_user_agent);
    assert(out@ =~= old(out)@ + ser_part_b(u));
}

#[verifier::rlimit(60)]
fn emit_part_c(out: &mut Vec<u8>, u: &Update)
    ensures
        final(out)@ == old(out)@ + ser_part_c(u),
{
    proof {
        reveal_strlit(";http_x_forwarded_for=");
        reveal_strlit(";request_time=");
        reveal_strlit(";upstream_response_time=");
        reveal_strlit(";upstream_addr=");
    }
    emit_lit(out, ";http_x_forwarded_for=");
    match u.http_x_forwarded_for {
        Some(p) => emit_ip(out, p),
        None => out.push(126),
    }
    emit_lit(out, ";request_time=");
    emit_fixed(out, u.request_time);
    emit_lit(out, ";upstream_response_time=");
    match u.upstream_response_time {
        Some(t) => emit_fixed(out, t),
        None => out.push(126),
    }
    emit_lit(out, ";upstream_addr=");
    match u.upstream_addr {
        Some(a) => {
            emit_ip(out, a.ip);
            out.push(44);
            emit_u64(out, a.port as u64);
        },
        None => out.push(126),
    }
    assert(out@ =~= old(out)@ + ser_part_c(u));
}

#[verifier::rlimit(60)]
fn emit_part_d(out: &mut Vec<u8>, u: &Update)
    requires
        update_valid(u),
    ensures
        final(out)@ == old(out)@ + ser_part_d(u),
{
    proof {
        reveal_strlit(";request_length=");
        reveal_strlit(";connection=");
        reveal_strlit(";connection_requests=");
        reveal_strlit(";lat=");
        reveal_strlit(";lng=");
    }
    emit_lit(out, ";request_length=");
    emit_u64(out, u.request_length);
    emit_lit(out, ";connection=");
    emit_u64(out, u.connection);
    emit_lit(out, ";connection_requests=");
    emit_u64(out, u.connection_requests);
    emit_lit(out, ";lat=");
    emit_fixed_i(out, u.lat);
    emit_lit(out, ";lng=");
    emit_fixed_i(out, u.lng);
    assert(out@ =~= old(out)@ + ser_part_d(u));
}

/// Render one record as its wire document.
///
/// Total over the record domain: every valid record serializes, and the
/// output is exactly the specification-level document.
pub fn serialize_update(u: &Update) -> (r: Vec<u8>)
    requires
        update_valid(u),
    ensures
        r@ == ser_update(u),
{
    let mut out: Vec<u8> = Vec::new();
    emit_part_a(&mut out, u);
    emit_part_b(&mut out, u);
    emit_part_c(&mut out, u);
    emit_part_d(&mut out, u);
    proof {
        assert(out@ =~= ser_update(u));
    }
    out
}

} // verus!
