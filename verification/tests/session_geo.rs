use logstream::codec::serialize_update;
use logstream::generator::{generate_update, GenConfig};
use logstream::geo::{known_locations, pick_points};
use logstream::parse::parse_update;
use logstream::rng::Rng64;
use logstream::session::{Session, SessionAction, SessionEvent, SessionState};

#[test]
fn handshake_brings_the_session_to_streaming() {
    let mut s = Session::new(10);
    assert_eq!(s.state, SessionState::Connecting);
    assert!(!s.can_send());
    let act = s.on_event(SessionEvent::HandshakeOk);
    assert_eq!(act, SessionAction::Proceed);
    assert_eq!(s.state, SessionState::Streaming);
    assert!(s.can_send());
}

#[test]
fn handshake_failure_closes_without_a_session() {
    let mut s = Session::new(10);
    let act = s.on_event(SessionEvent::HandshakeFailed);
    assert_eq!(act, SessionAction::Release);
    assert_eq!(s.state, SessionState::Closed);
    assert!(!s.can_send());
}

#[test]
fn a_close_signal_stops_sending_at_once() {
    let mut s = Session::new(10);
    s.on_event(SessionEvent::HandshakeOk);
    s.on_event(SessionEvent::WriteOk);
    assert!(s.can_send());
    let act = s.on_event(SessionEvent::RecvClose);
    assert_eq!(act, SessionAction::StopBoth);
    assert_eq!(s.state, SessionState::Closing);
    assert!(!s.can_send());
    // no later event revives the send activity
    s.on_event(SessionEvent::WriteOk);
    assert!(!s.can_send());
    let act = s.on_event(SessionEvent::ActivitiesStopped);
    assert_eq!(act, SessionAction::Release);
    assert_eq!(s.state, SessionState::Closed);
}

#[test]
fn a_write_failure_stops_the_receive_activity_too() {
    let mut s = Session::new(10);
    s.on_event(SessionEvent::HandshakeOk);
    let act = s.on_event(SessionEvent::WriteFailed);
    assert_eq!(act, SessionAction::StopBoth);
    assert_eq!(s.state, SessionState::Closing);
    assert!(!s.can_send());
    let act = s.on_event(SessionEvent::ActivitiesStopped);
    assert_eq!(act, SessionAction::Release);
    assert_eq!(s.state, SessionState::Closed);
}

#[test]
fn a_read_error_also_stops_the_session() {
    let mut s = Session::new(10);
    s.on_event(SessionEvent::HandshakeOk);
    let act = s.on_event(SessionEvent::RecvError);
    assert_eq!(act, SessionAction::StopBoth);
    assert!(!s.can_send());
}

#[test]
fn ignored_payloads_keep_the_session_streaming() {
    let mut s = Session::new(10);
    s.on_event(SessionEvent::HandshakeOk);
    let act = s.on_event(SessionEvent::RecvData);
    assert_eq!(act, SessionAction::Proceed);
    assert!(s.can_send());
}

/// Ten interval ticks cover 100 ms at the 10 ms interval; every tick in
/// `Streaming` yields one frame, so a quiet client sees at least five
/// parseable frames.
#[test]
fn a_streaming_session_delivers_at_least_five_frames_in_ten_ticks() {
    let mut s = Session::new(10);
    s.on_event(SessionEvent::HandshakeOk);
    let cfg = GenConfig::even_odds();
    let mut rng = Rng64::new(2024);
    let mut frames: u32 = 0;
    for _ in 0..10 {
        if !s.can_send() {
            break;
        }
        let u = generate_update(&mut rng, &cfg);
        let doc = serialize_update(&u);
        let parsed = parse_update(&doc).expect("every frame must parse");
        assert_eq!(parsed, u);
        frames += 1;
        s.on_event(SessionEvent::WriteOk);
    }
    assert!(frames >= 5);
}

#[test]
fn the_fixed_list_is_nonempty_with_at_least_five_entries() {
    let locations = known_locations();
    assert!(!locations.is_empty());
    assert!(locations.len() >= 5);
}

#[test]
fn picked_points_are_five_distinct_members_of_the_fixed_list() {
    let locations = known_locations();
    for seed in 0..50u64 {
        let mut rng = Rng64::new(seed * 31 + 1);
        let picked = pick_points(&mut rng);
        assert_eq!(picked.len(), 5);
        for i in 0..picked.len() {
            assert!(locations.contains(&picked[i]));
            for j in 0..i {
                assert_ne!(picked[i], picked[j]);
            }
        }
    }
}

#[test]
fn different_seeds_can_pick_different_subsets() {
    let mut any_difference = false;
    let mut first_rng = Rng64::new(1);
    let baseline = pick_points(&mut first_rng);
    for seed in 2..20u64 {
        let mut rng = Rng64::new(seed);
        if pick_points(&mut rng) != baseline {
            any_difference = true;
        }
    }
    assert!(any_difference);
}
