//! Field generators and the composite record generator.
//!
//! Each field generator draws from the session's random source and is proved
//! to land inside its field's declared domain; the composite generator calls
//! each one exactly once and so yields a valid record every time.

use vstd::prelude::*;
use crate::rng::Rng64;
use crate::record::{
    Ipv4, HttpMethod, HttpVersion, HttpRequest, UpstreamAddr, Timestamp, Update,
    is_ident_byte, is_domain_byte, is_path_byte, is_agent_byte,
    all_ident, all_domain, all_path, all_agent,
    user_valid, path_valid, agent_valid, url_valid, timestamp_valid, request_valid,
    update_valid, scheme_http, scheme_https,
};
use crate::timeutil::resolve_timestamp;

verus! {

/// Tunable knobs of generation: the weight of the presence coin for
/// optional fields, as `present_num` chances out of `present_den`.
pub struct GenConfig {
    pub present_num: u64,
    pub present_den: u64,
}

impl GenConfig {
    pub open spec fn wf(&self) -> bool {
        self.present_den > 0
    }

    /// The presence weight the original source observed: one in two.
    pub fn even_odds() -> (r: GenConfig)
        ensures
            r.wf(),
    {
        GenConfig { present_num: 1, present_den: 2 }
    }
}

/// One byte of the identifier charset `[a-zA-Z0-9_-]`.
fn gen_ident_byte(rng: &mut Rng64) -> (r: u8)
    ensures
        is_ident_byte(r),
{
    let i = rng.below(64);
    if i < 26 {
        97 + (i as u8)
    } else if i < 52 {
        65 + ((i - 26) as u8)
    } else if i < 62 {
        48 + ((i - 52) as u8)
    } else if i == 62 {
        95
    } else {
        45
    }
}

/// One byte of the domain charset `[a-zA-Z0-9.-]`.
fn gen_domain_byte(rng: &mut Rng64) -> (r: u8)
    ensures
        is_domain_byte(r),
{
    let i = rng.below(64);
    if i < 26 {
        97 + (i as u8)
    } else if i < 52 {
        65 + ((i - 26) as u8)
    } else if i < 62 {
        48 + ((i - 52) as u8)
    } else if i == 62 {
        46
    } else {
        45
    }
}

/// One byte of the path charset `[a-zA-Z0-9/_.-]`.
fn gen_path_byte(rng: &mut Rng64) -> (r: u8)
    ensures
        is_path_byte(r),
{
    let i = rng.below(66);
    if i < 26 {
        97 + (i as u8)
    } else if i < 52 {
        65 + ((i - 26) as u8)
    } else if i < 62 {
        48 + ((i - 52) as u8)
    } else if i == 62 {
        47
    } else if i == 63 {
        95
    } else if i == 64 {
        46
    } else {
        45
    }
}

/// One byte of the agent charset `[a-zA-Z0-9 /.()_-]`.
fn gen_agent_byte(rng: &mut Rng64) -> (r: u8)
    ensures
        is_agent_byte(r),
{
    let i = rng.below(69);
    if i < 26 {
        97 + (i as u8)
    } else if i < 52 {
        65 + ((i - 26) as u8)
    } else if i < 62 {
        48 + ((i - 52) as u8)
    } else if i == 62 {
        32
    } else if i == 63 {
        47
    } else if i == 64 {
        46
    } else if i == 65 {
        40
    } else if i == 66 {
        41
    } else if i == 67 {
        95
    } else {
        45
    }
}

/// A short identifier: 1 to 20 identifier bytes.
pub fn gen_user(rng: &mut Rng64) -> (r: Vec<u8>)
    ensures
        user_valid(r@),
{
    let n = rng.range_u64(1, 21);
    let mut v: Vec<u8> = Vec::new();
    let mut i: u64 = 0;
    while i < n
        invariant
            i <= n,
            1 <= n <= 20,
            v@.len() == i,
            all_ident(v@),
        decreases n - i,
    {
        let c = gen_ident_byte(rng);
        v.push(c);
        i = i + 1;
    }
    v
}

/// A request path: `/` followed by up to 30 path bytes.
pub fn gen_path(rng: &mut Rng64) -> (r: Vec<u8>)
    ensures
        path_valid(r@),
{
    let n = rng.below(31);
    let mut v: Vec<u8> = Vec::new();
    v.push(47);
    let mut i: u64 = 0;
    while i < n
        invariant
            i <= n,
            n <= 30,
            v@.len() == i + 1,
            v@[0] == 47u8,
            all_path(v@),
        decreases n - i,
    {
        let c = gen_path_byte(rng);
        v.push(c);
        i = i + 1;
    }
    v
}

/// A referer domain: 1 to 20 domain bytes.
fn gen_domain(rng: &mut Rng64) -> (r: Vec<u8>)
    ensures
        r@.len() >= 1,
        all_domain(r@),
{
    let n = rng.range_u64(1, 21);
    let mut v: Vec<u8> = Vec::new();
    let mut i: u64 = 0;
    while i < n
        invariant
            i <= n,
            1 <= n <= 20,
            v@.len() == i,
            all_domain(v@),
        decreases n - i,
    {
        let c = gen_domain_byte(rng);
        v.push(c);
        i = i + 1;
    }
    v
}

/// A user agent: 10 to 100 agent bytes.
pub fn gen_agent(rng: &mut Rng64) -> (r: Vec<u8>)
    ensures
        agent_valid(r@),
{
    let n = rng.range_u64(10, 101);
    let mut v: Vec<u8> = Vec::new();
    let mut i: u64 = 0;
    while i < n
        invariant
            i <= n,
            10 <= n <= 100,
            v@.len() == i,
            all_agent(v@),
        decreases n - i,
    {
        let c = gen_agent_byte(rng);
        v.push(c);
        i = i + 1;
    }
    v
}

/// A referer URL: scheme, nonempty domain, optional path segment.
pub fn gen_url(rng: &mut Rng64) -> (r: Vec<u8>)
    ensures
        url_valid(r@),
{
    let mut v: Vec<u8> = Vec::new();
    let https = rng.chance(1, 2);
    v.push(104);
    v.push(116);
    v.push(116);
    v.push(112);
    if https {
        v.push(115);
    }
    v.push(58);
    v.push(47);
    v.push(47);
    proof {
        if https {
            assert(v@ =~= scheme_https());
        } else {
            assert(v@ =~= scheme_http());
        }
    }
    let ghost sch = v@;
    let mut dom = gen_domain(rng);
    let ghost dom_v = dom@;
    v.append(&mut dom);
    let with_path = rng.chance(1, 2);
    let ghost path_v: Seq<u8>;
    if with_path {
        let mut p = gen_path(rng);
        proof {
            path_v = p@;
        }
        v.append(&mut p);
    } else {
        proof {
            path_v = Seq::<u8>::empty();
        }
        assert(v@ =~= sch + dom_v + path_v);
    }
    proof {
        assert(v@ =~= sch + dom_v + path_v);
        assert((sch == scheme_http() || sch == scheme_https()));
        assert(url_valid(v@)) by {
            assert(v@ == scheme_http() + dom_v + path_v || v@ == scheme_https() + dom_v
                + path_v);
        }
    }
    v
}

/// A 4-octet address: uniform over all `2^32` values.
pub fn gen_ipv4(rng: &mut Rng64) -> Ipv4 {
    let a = rng.below(256) as u8;
    let b = rng.below(256) as u8;
    let c = rng.below(256) as u8;
    let d = rng.below(256) as u8;
    Ipv4 { a, b, c, d }
}

/// One of the six methods of the schema's fixed choice.
pub fn gen_method(rng: &mut Rng64) -> HttpMethod {
    let i = rng.below(6);
    if i == 0 {
        HttpMethod::GET
    } else if i == 1 {
        HttpMethod::POST
    } else if i == 2 {
        HttpMethod::PUT
    } else if i == 3 {
        HttpMethod::DELETE
    } else if i == 4 {
        HttpMethod::HEAD
    } else {
        HttpMethod::OPTIONS
    }
}

/// One of the three versions of the schema's fixed choice.
pub fn gen_version(rng: &mut Rng64) -> HttpVersion {
    let i = rng.below(3);
    if i == 0 {
        HttpVersion::Http10
    } else if i == 1 {
        HttpVersion::Http11
    } else {
        HttpVersion::Http20
    }
}

/// The composite request line.
pub fn gen_request(rng: &mut Rng64) -> (r: HttpRequest)
    ensures
        request_valid(&r),
{
    let method = gen_method(rng);
    let path = gen_path(rng);
    let version = gen_version(rng);
    HttpRequest { method, path, version }
}

/// A timestamp drawn in `[0, 2^31)` with an offset in `[-43200, 43200)`,
/// resolved through the calendar with a deterministic fallback.
pub fn gen_timestamp(rng: &mut Rng64) -> (r: Timestamp)
    ensures
        timestamp_valid(r),
{
    let secs = rng.below(0x8000_0000) as i64;
    let off = (rng.below(86400) as i64 - 43200) as i32;
    let t = resolve_timestamp(secs, off);
    t
}

/// An upstream peer with any port.
pub fn gen_upstream(rng: &mut Rng64) -> UpstreamAddr {
    let ip = gen_ipv4(rng);
    let port = rng.below(65536) as u16;
    UpstreamAddr { ip, port }
}

/// Assemble one record by invoking each field generator exactly once.
/// Optional fields flip the configured presence coin and short-circuit on
/// absence.
pub fn generate_update(rng: &mut Rng64, cfg: &GenConfig) -> (r: Update)
    requires
        cfg.wf(),
    ensures
        update_valid(&r),
{
    let remote_addr = gen_ipv4(rng);
    let remote_user = if rng.chance(cfg.present_num, cfg.present_den) {
        Some(gen_user(rng))
    } else {
        None
    };
    let time_local = gen_timestamp(rng);
    let request = gen_request(rng);
    let status = rng.range_u64(100, 600) as u16;
    let body_bytes_sent = rng.below(1_000_000);
    let http_referer = if rng.chance(cfg.present_num, cfg.present_den) {
        Some(gen_url(rng))
    } else {
        None
    };
    let http_user_agent = gen_agent(rng);
    let http_x_forwarded_for = if rng.chance(cfg.present_num, cfg.present_den) {
        Some(gen_ipv4(rng))
    } else {
        None
    };
    let request_time = rng.range_u64(1_000, 30_000_000);
    let upstream_response_time = if rng.chance(cfg.present_num, cfg.present_den) {
        Some(rng.range_u64(1_000, 30_000_000))
    } else {
        None
    };
    let upstream_addr = if rng.chance(cfg.present_num, cfg.present_den) {
        Some(gen_upstream(rng))
    } else {
        None
    };
    let request_length = rng.range_u64(1, 10_000);
    let connection = rng.range_u64(1, 1_000_000);
    let connection_requests = rng.range_u64(1, 1_000);
    let lat = rng.below(180_000_000) as i64 - 90_000_000;
    let lng = rng.below(360_000_000) as i64 - 180_000_000;
    Update {
        remote_addr,
        remote_user,
        time_local,
        request,
        status,
        body_bytes_sent,
        http_referer,
        http_user_agent,
        http_x_forwarded_for,
        request_time,
        upstream_response_time,
        upstream_addr,
        request_length,
        connection,
        connection_requests,
        lat,
        lng,
    }
}

} // verus!
