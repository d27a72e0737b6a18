use logstream::generator::{generate_update, GenConfig};
use logstream::record::Update;
use logstream::rng::Rng64;
use logstream::timeutil::resolve_timestamp;

fn is_ident(c: u8) -> bool {
    c.is_ascii_alphanumeric() || c == b'_' || c == b'-'
}

fn is_path(c: u8) -> bool {
    c.is_ascii_alphanumeric() || c == b'/' || c == b'_' || c == b'.' || c == b'-'
}

fn is_domain(c: u8) -> bool {
    c.is_ascii_alphanumeric() || c == b'.' || c == b'-'
}

fn is_agent(c: u8) -> bool {
    c.is_ascii_alphanumeric()
        || c == b' '
        || c == b'/'
        || c == b'.'
        || c == b'('
        || c == b')'
        || c == b'_'
        || c == b'-'
}

fn url_ok(s: &[u8]) -> bool {
    let rest = if s.starts_with(b"https://") {
        &s[8..]
    } else if s.starts_with(b"http://") {
        &s[7..]
    } else {
        return false;
    };
    let slash = rest.iter().position(|&c| c == b'/');
    let (dom, path) = match slash {
        Some(k) => (&rest[..k], &rest[k..]),
        None => (rest, &rest[rest.len()..]),
    };
    if dom.is_empty() || !dom.iter().all(|&c| is_domain(c)) {
        return false;
    }
    path.is_empty() || (path[0] == b'/' && path.iter().all(|&c| is_path(c)))
}

pub fn check_domains(u: &Update) {
    if let Some(ref user) = u.remote_user {
        assert!(1 <= user.len() && user.len() <= 20);
        assert!(user.iter().all(|&c| is_ident(c)));
    }
    assert!(0 <= u.time_local.secs && u.time_local.secs < 0x8000_0000);
    assert!(-43200 <= u.time_local.offset_secs && u.time_local.offset_secs < 43200);
    assert!(!u.request.path.is_empty());
    assert_eq!(u.request.path[0], b'/');
    assert!(u.request.path.iter().all(|&c| is_path(c)));
    assert!(100 <= u.status && u.status < 600);
    assert!(u.body_bytes_sent < 1_000_000);
    if let Some(ref url) = u.http_referer {
        assert!(url_ok(url));
    }
    assert!(10 <= u.http_user_agent.len() && u.http_user_agent.len() <= 100);
    assert!(u.http_user_agent.iter().all(|&c| is_agent(c)));
    assert!(1_000 <= u.request_time && u.request_time < 30_000_000);
    if let Some(t) = u.upstream_response_time {
        assert!(1_000 <= t && t < 30_000_000);
    }
    assert!(1 <= u.request_length && u.request_length < 10_000);
    assert!(1 <= u.connection && u.connection < 1_000_000);
    assert!(1 <= u.connection_requests && u.connection_requests < 1_000);
    assert!(-90_000_000 <= u.lat && u.lat < 90_000_000);
    assert!(-180_000_000 <= u.lng && u.lng < 180_000_000);
}

#[test]
fn generated_records_lie_in_their_domains() {
    let cfg = GenConfig::even_odds();
    for seed in 0..200u64 {
        let mut rng = Rng64::new(seed.wrapping_mul(0x2545F4914F6CDD1D).wrapping_add(seed));
        let u = generate_update(&mut rng, &cfg);
        check_domains(&u);
    }
}

#[test]
fn generation_is_reproducible_from_the_seed() {
    let cfg = GenConfig::even_odds();
    let mut a = Rng64::new(42);
    let mut b = Rng64::new(42);
    let ua = generate_update(&mut a, &cfg);
    let ub = generate_update(&mut b, &cfg);
    assert_eq!(ua, ub);
}

#[test]
fn successive_records_are_independent_draws() {
    let cfg = GenConfig::even_odds();
    let mut rng = Rng64::new(7);
    let first = generate_update(&mut rng, &cfg);
    let second = generate_update(&mut rng, &cfg);
    // with 16 constrained fields a collision would be astronomically unlikely
    assert_ne!(first, second);
}

#[test]
fn rng_draws_respect_their_bounds() {
    let mut rng = Rng64::new(99);
    for _ in 0..1000 {
        let b = rng.below(7);
        assert!(b < 7);
        let r = rng.range_u64(100, 600);
        assert!((100..600).contains(&r));
    }
    assert!(!rng.chance(0, 1));
    assert!(rng.chance(2, 2));
}

#[test]
fn in_range_timestamp_resolves_to_itself() {
    let t = resolve_timestamp(1_700_000_000, -3600);
    assert_eq!(t.secs, 1_700_000_000);
    assert_eq!(t.offset_secs, -3600);
}

#[test]
fn out_of_range_offset_falls_back_to_zero() {
    let t = resolve_timestamp(5, 90_000);
    assert_eq!(t.secs, 5);
    assert_eq!(t.offset_secs, 0);
}

#[test]
fn unrepresentable_timestamp_falls_back_to_epoch() {
    let t = resolve_timestamp(i64::MAX, 0);
    assert_eq!(t.secs, 0);
    assert_eq!(t.offset_secs, 0);
}
