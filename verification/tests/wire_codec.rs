use logstream::codec::serialize_update;
use logstream::generator::{generate_update, GenConfig};
use logstream::parse::parse_update;
use logstream::record::{
    HttpMethod, HttpRequest, HttpVersion, Ipv4, Timestamp, Update, UpstreamAddr,
};
use logstream::rng::Rng64;

fn minimal_update() -> Update {
    Update {
        remote_addr: Ipv4 { a: 1, b: 2, c: 3, d: 4 },
        remote_user: None,
        time_local: Timestamp { secs: 0, offset_secs: 0 },
        request: HttpRequest {
            method: HttpMethod::GET,
            path: b"/".to_vec(),
            version: HttpVersion::Http10,
        },
        status: 200,
        body_bytes_sent: 0,
        http_referer: None,
        http_user_agent: b"abcdefghij".to_vec(),
        http_x_forwarded_for: None,
        request_time: 1_000,
        upstream_response_time: None,
        upstream_addr: None,
        request_length: 1,
        connection: 1,
        connection_requests: 1,
        lat: -1,
        lng: 0,
    }
}

fn full_update() -> Update {
    Update {
        remote_addr: Ipv4 { a: 255, b: 255, c: 255, d: 255 },
        remote_user: Some(b"ab".to_vec()),
        time_local: Timestamp { secs: 2_147_483_646, offset_secs: -43_200 },
        request: HttpRequest {
            method: HttpMethod::DELETE,
            path: b"/x_y.z".to_vec(),
            version: HttpVersion::Http20,
        },
        status: 599,
        body_bytes_sent: 999_999,
        http_referer: Some(b"https://ex.com/a".to_vec()),
        http_user_agent: b"Mozilla/5.0 (X11)".to_vec(),
        http_x_forwarded_for: Some(Ipv4 { a: 0, b: 0, c: 0, d: 0 }),
        request_time: 29_999_999,
        upstream_response_time: Some(1_000),
        upstream_addr: Some(UpstreamAddr { ip: Ipv4 { a: 10, b: 0, c: 0, d: 1 }, port: 65_535 }),
        request_length: 9_999,
        connection: 999_999,
        connection_requests: 999,
        lat: 89_999_999,
        lng: -179_999_999,
    }
}

#[test]
fn serializer_emits_the_exact_document_for_a_minimal_record() {
    let doc = serialize_update(&minimal_update());
    let expected = "remote_addr=1.2.3.4;remote_user=~;time_local=0,0;request=GET,/,1.0;\
status=200;body_bytes_sent=0;http_referer=~;http_user_agent=abcdefghij;\
http_x_forwarded_for=~;request_time=0.001000;upstream_response_time=~;upstream_addr=~;\
request_length=1;connection=1;connection_requests=1;lat=-0.000001;lng=0.000000";
    assert_eq!(String::from_utf8(doc).unwrap(), expected);
}

#[test]
fn serializer_emits_the_exact_document_for_a_full_record() {
    let doc = serialize_update(&full_update());
    let expected = "remote_addr=255.255.255.255;remote_user=ab;\
time_local=2147483646,-43200;request=DELETE,/x_y.z,2.0;status=599;\
body_bytes_sent=999999;http_referer=https://ex.com/a;\
http_user_agent=Mozilla/5.0 (X11);http_x_forwarded_for=0.0.0.0;\
request_time=29.999999;upstream_response_time=0.001000;upstream_addr=10.0.0.1,65535;\
request_length=9999;connection=999999;connection_requests=999;lat=89.999999;\
lng=-179.999999";
    assert_eq!(String::from_utf8(doc).unwrap(), expected);
}

#[test]
fn parser_reads_a_handwritten_document() {
    let doc = "remote_addr=1.2.3.4;remote_user=~;time_local=0,0;request=GET,/,1.0;\
status=200;body_bytes_sent=0;http_referer=~;http_user_agent=abcdefghij;\
http_x_forwarded_for=~;request_time=0.001000;upstream_response_time=~;upstream_addr=~;\
request_length=1;connection=1;connection_requests=1;lat=-0.000001;lng=0.000000";
    let parsed = parse_update(&doc.as_bytes().to_vec()).unwrap();
    assert_eq!(parsed, minimal_update());
}

#[test]
fn round_trip_recovers_generated_records() {
    let cfg = GenConfig::even_odds();
    for seed in 0..100u64 {
        let mut rng = Rng64::new(seed + 1);
        let u = generate_update(&mut rng, &cfg);
        let doc = serialize_update(&u);
        let parsed = parse_update(&doc).expect("a generated record's document must parse");
        assert_eq!(parsed, u);
    }
}

#[test]
fn absent_optional_fields_round_trip_as_absent() {
    let u = minimal_update();
    let parsed = parse_update(&serialize_update(&u)).unwrap();
    assert!(parsed.remote_user.is_none());
    assert!(parsed.http_referer.is_none());
    assert!(parsed.http_x_forwarded_for.is_none());
    assert!(parsed.upstream_response_time.is_none());
    assert!(parsed.upstream_addr.is_none());
}

#[test]
fn present_optional_fields_round_trip_as_present() {
    let u = full_update();
    let parsed = parse_update(&serialize_update(&u)).unwrap();
    assert_eq!(parsed, u);
    assert!(parsed.remote_user.is_some());
    assert!(parsed.upstream_addr.is_some());
}

#[test]
fn parser_rejects_an_empty_document() {
    assert!(parse_update(&Vec::new()).is_none());
}

#[test]
fn parser_rejects_an_out_of_domain_status() {
    let doc = String::from_utf8(serialize_update(&minimal_update()))
        .unwrap()
        .replace("status=200", "status=99");
    assert!(parse_update(&doc.as_bytes().to_vec()).is_none());
}

#[test]
fn parser_rejects_trailing_bytes() {
    let mut doc = serialize_update(&minimal_update());
    doc.push(b'x');
    assert!(parse_update(&doc).is_none());
}

#[test]
fn parser_rejects_a_truncated_document() {
    let mut doc = serialize_update(&minimal_update());
    doc.truncate(doc.len() - 10);
    assert!(parse_update(&doc).is_none());
}

#[test]
fn parser_rejects_a_misspelled_field_name() {
    let doc = String::from_utf8(serialize_update(&minimal_update()))
        .unwrap()
        .replace("connection=", "connexion=");
    assert!(parse_update(&doc.as_bytes().to_vec()).is_none());
}
