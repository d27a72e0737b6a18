//! The record schema and the domain of every field.
//!
//! String-like fields are ASCII byte vectors; fractional quantities are held
//! in fixed-point micro-units so that every constraint is an exact statement
//! over integers.

use vstd::prelude::*;

verus! {

/// One request method of the schema's fixed choice.
#[derive(Clone, Copy, PartialEq, Eq, Structural, Debug)]
pub enum HttpMethod {
    GET,
    POST,
    PUT,
    DELETE,
    HEAD,
    OPTIONS,
}

/// One protocol version of the schema's fixed choice.
#[derive(Clone, Copy, PartialEq, Eq, Structural, Debug)]
pub enum HttpVersion {
    Http10,
    Http11,
    Http20,
}

/// A 4-octet address; every combination of octets is in domain.
#[derive(Clone, Copy, PartialEq, Eq, Structural, Debug)]
pub struct Ipv4 {
    pub a: u8,
    pub b: u8,
    pub c: u8,
    pub d: u8,
}

/// The composite request line: method, path and version.
#[derive(Clone, PartialEq, Debug)]
pub struct HttpRequest {
    pub method: HttpMethod,
    /// ASCII path, starts with `/`, every byte from the path charset.
    pub path: Vec<u8>,
    pub version: HttpVersion,
}

/// An upstream peer: address and port.
#[derive(Clone, Copy, PartialEq, Eq, Structural, Debug)]
pub struct UpstreamAddr {
    pub ip: Ipv4,
    pub port: u16,
}

/// An instant with a fixed-offset zone, as plain seconds.
#[derive(Clone, Copy, PartialEq, Eq, Structural, Debug)]
pub struct Timestamp {
    /// Seconds since the epoch, in `[0, 2^31)`.
    pub secs: i64,
    /// Zone offset east of UTC in seconds, in `[-43200, 43200)`.
    pub offset_secs: i32,
}

/// One generated record of the fixed 16-field schema.
///
/// `request_time` and `upstream_response_time` are microseconds; `lat` and
/// `lng` are microdegrees.
#[derive(Clone, PartialEq, Debug)]
pub struct Update {
    pub remote_addr: Ipv4,
    pub remote_user: Option<Vec<u8>>,
    pub time_local: Timestamp,
    pub request: HttpRequest,
    pub status: u16,
    pub body_bytes_sent: u64,
    pub http_referer: Option<Vec<u8>>,
    pub http_user_agent: Vec<u8>,
    pub http_x_forwarded_for: Option<Ipv4>,
    pub request_time: u64,
    pub upstream_response_time: Option<u64>,
    pub upstream_addr: Option<UpstreamAddr>,
    pub request_length: u64,
    pub connection: u64,
    pub connection_requests: u64,
    pub lat: i64,
    pub lng: i64,
}

pub open spec fn is_alpha_lower(c: u8) -> bool {
    97u8 <= c <= 122u8
}

pub open spec fn is_alpha_upper(c: u8) -> bool {
    65u8 <= c <= 90u8
}

pub open spec fn is_ascii_digit(c: u8) -> bool {
    48u8 <= c <= 57u8
}

pub open spec fn is_alnum(c: u8) -> bool {
    is_alpha_lower(c) || is_alpha_upper(c) || is_ascii_digit(c)
}

/// Charset of short identifiers: `[a-zA-Z0-9_-]`.
pub open spec fn is_ident_byte(c: u8) -> bool {
    is_alnum(c) || c == 95u8 || c == 45u8
}

/// Charset of request paths: `[a-zA-Z0-9/_.-]`.
pub open spec fn is_path_byte(c: u8) -> bool {
    is_alnum(c) || c == 47u8 || c == 95u8 || c == 46u8 || c == 45u8
}

/// Charset of referer domains: `[a-zA-Z0-9.-]`.
pub open spec fn is_domain_byte(c: u8) -> bool {
    is_alnum(c) || c == 46u8 || c == 45u8
}

/// Charset of user agents: `[a-zA-Z0-9 /.()_-]`.
pub open spec fn is_agent_byte(c: u8) -> bool {
    is_alnum(c) || c == 32u8 || c == 47u8 || c == 46u8 || c == 40u8 || c == 41u8 || c == 95u8
        || c == 45u8
}

pub open spec fn all_ident(s: Seq<u8>) -> bool {
    forall|i: int| 0 <= i < s.len() ==> is_ident_byte(#[trigger] s[i])
}

pub open spec fn all_path(s: Seq<u8>) -> bool {
    forall|i: int| 0 <= i < s.len() ==> is_path_byte(#[trigger] s[i])
}

pub open spec fn all_domain(s: Seq<u8>) -> bool {
    forall|i: int| 0 <= i < s.len() ==> is_domain_byte(#[trigger] s[i])
}

pub open spec fn all_agent(s: Seq<u8>) -> bool {
    forall|i: int| 0 <= i < s.len() ==> is_agent_byte(#[trigger] s[i])
}

/// An optional short identifier: 1 to 20 bytes of the identifier charset.
pub open spec fn user_valid(s: Seq<u8>) -> bool {
    1 <= s.len() <= 20 && all_ident(s)
}

/// A path: nonempty, begins with `/`, all bytes from the path charset.
pub open spec fn path_valid(s: Seq<u8>) -> bool {
    s.len() >= 1 && s[0] == 47u8 && all_path(s)
}

/// A user agent: 10 to 100 bytes of the agent charset.
pub open spec fn agent_valid(s: Seq<u8>) -> bool {
    10 <= s.len() <= 100 && all_agent(s)
}

pub open spec fn scheme_http() -> Seq<u8> {
    seq![104u8, 116u8, 116u8, 112u8, 58u8, 47u8, 47u8]
}

pub open spec fn scheme_https() -> Seq<u8> {
    seq![104u8, 116u8, 116u8, 112u8, 115u8, 58u8, 47u8, 47u8]
}

/// A referer URL: an `http` or `https` scheme, a nonempty domain, and an
/// optional path segment.
pub open spec fn url_valid(s: Seq<u8>) -> bool {
    exists|dom: Seq<u8>, path: Seq<u8>|
        {
            &&& (s == scheme_http() + dom + path || s == scheme_https() + dom + path)
            &&& dom.len() >= 1
            &&& all_domain(dom)
            &&& (path.len() == 0 || path_valid(path))
        }
}

pub open spec fn timestamp_valid(t: Timestamp) -> bool {
    &&& 0 <= t.secs < 0x8000_0000
    &&& -43200 <= t.offset_secs < 43200
}

pub open spec fn request_valid(r: &HttpRequest) -> bool {
    path_valid(r.path@)
}

/// Every field of the record lies within its declared domain; ranges are
/// inclusive below and exclusive above.
pub open spec fn update_valid(u: &Update) -> bool {
    &&& (match u.remote_user {
        Some(ref s) => user_valid(s@),
        None => true,
    })
    &&& timestamp_valid(u.time_local)
    &&& request_valid(&u.request)
    &&& 100 <= u.status < 600
    &&& u.body_bytes_sent < 1_000_000
    &&& (match u.http_referer {
        Some(ref s) => url_valid(s@),
        None => true,
    })
    &&& agent_valid(u.http_user_agent@)
    &&& 1_000 <= u.request_time < 30_000_000
    &&& (match u.upstream_response_time {
        Some(t) => 1_000 <= t < 30_000_000,
        None => true,
    })
    &&& 1 <= u.request_length < 10_000
    &&& 1 <= u.connection < 1_000_000
    &&& 1 <= u.connection_requests < 1_000
    &&& -90_000_000 <= u.lat < 90_000_000
    &&& -180_000_000 <= u.lng < 180_000_000
}

} // verus!
