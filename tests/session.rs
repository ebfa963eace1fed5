use fabric_tunnel::addr::{Cidr, Endpoint, Ipv4, KeyError};
use fabric_tunnel::monitor::{PollAction, Poller};
use fabric_tunnel::session::{parse_session, Controller, SessionError};
use fabric_tunnel::telemetry::{
    decimal_text, disconnected_statistics, handshake_age, peer_statistics, ping_event,
    statistics_events, HandshakeAge, PeerCounters, WgPing,
};

const KEY_A: &str = "AQIDBAUGBwgJCgsMDQ4PEBESExQVFhcYGRobHB0eHyA=";
const KEY_B: &str = "ICAgICAgICAgICAgICAgICAgICAgICAgICAgICAgICA=";

fn allowed() -> Vec<String> {
    vec!["0.0.0.0/0".to_string()]
}

#[test]
fn connect_then_disconnect_raises_stop_signal() {
    let mut ctl = Controller::new();
    let cfg = ctl
        .wg_connect(KEY_A, KEY_B, "10.8.0.2", "203.0.113.7:51820", "10.8.0.1:51820 srv", &allowed())
        .unwrap();
    assert!(!ctl.stop_requested);
    assert!(ctl.active);
    assert_eq!(cfg.internal_ip, Ipv4 { a: 10, b: 8, c: 0, d: 2 });
    assert_eq!(cfg.server_ip, Ipv4 { a: 10, b: 8, c: 0, d: 1 });
    assert_eq!(cfg.endpoint, Endpoint::V4 { ip: Ipv4 { a: 203, b: 0, c: 113, d: 7 }, port: 51820 });
    assert_eq!(cfg.private_key, (1u8..=32).collect::<Vec<u8>>());
    assert_eq!(cfg.peer_public_key, vec![32u8; 32]);
    assert_eq!(
        cfg.default_route(),
        Cidr::V4 { addr: Ipv4 { a: 10, b: 8, c: 0, d: 2 }, prefix: 24 }
    );
    let mut stats = Poller::new();
    assert_eq!(stats.next_action(ctl.stop_requested), PollAction::Sleep);
    ctl.wg_disconnect();
    assert!(ctl.stop_requested);
    assert_eq!(stats.next_action(ctl.stop_requested), PollAction::Halt);
}

#[test]
fn connect_accepts_ipv6_endpoint() {
    let mut ctl = Controller::new();
    let cfg = ctl
        .wg_connect(KEY_A, KEY_B, "10.8.0.2", "[2001:db8::7]:51820", "10.8.0.1", &allowed())
        .unwrap();
    let addr6: u128 = 0x2001_0db8_0000_0000_0000_0000_0000_0007;
    assert_eq!(cfg.endpoint, Endpoint::V6 { addr6, port: 51820 });
    assert!(!ctl.stop_requested);
}

#[test]
fn disconnect_twice_emits_zero_event_each_time() {
    let mut ctl = Controller::new();
    let first = ctl.wg_disconnect();
    let second = ctl.wg_disconnect();
    for ev in [first, second] {
        assert_eq!(ev.up, 0);
        assert_eq!(ev.down, 0);
        assert_eq!(ev.handshake_age, "N/A");
    }
    assert!(ctl.stop_requested);
}

#[test]
fn invalid_parameters_leave_controller_untouched() {
    let mut ctl = Controller::new();
    ctl.wg_disconnect();
    let r = ctl.wg_connect("bad", KEY_B, "10.8.0.2", "1.2.3.4:1", "10.8.0.1", &allowed());
    assert_eq!(r.unwrap_err(), SessionError::PrivateKey(KeyError::Encoding));
    assert!(ctl.stop_requested);
    assert!(!ctl.active);
}

#[test]
fn parse_session_reports_first_failure() {
    let ok = allowed();
    let e = |r: Result<_, SessionError>| r.map(|_: fabric_tunnel::session::SessionConfig| ()).unwrap_err();
    assert_eq!(
        e(parse_session(KEY_A, "AQID", "10.0.0.2", "1.2.3.4:1", "10.0.0.1", &ok)),
        SessionError::PeerPublicKey(KeyError::Length)
    );
    assert_eq!(
        e(parse_session(KEY_A, KEY_B, "10.0.0", "1.2.3.4:1", "10.0.0.1", &ok)),
        SessionError::InternalIp
    );
    assert_eq!(
        e(parse_session(KEY_A, KEY_B, "10.0.0.2", "1.2.3.4", "10.0.0.1", &ok)),
        SessionError::Endpoint
    );
    let bad = vec!["0.0.0.0/0".to_string(), "nope".to_string()];
    assert_eq!(
        e(parse_session(KEY_A, KEY_B, "10.0.0.2", "1.2.3.4:1", "10.0.0.1", &bad)),
        SessionError::AllowedIp(1)
    );
    assert_eq!(
        e(parse_session(KEY_A, KEY_B, "10.0.0.2", "1.2.3.4:1", "no address", &ok)),
        SessionError::ServerIp
    );
}

#[test]
fn fresh_handshake_reports_zero_age() {
    let age = handshake_age(1_700_000_000_000, Some(1_700_000_000_000));
    assert_eq!(age, HandshakeAge::Elapsed { millis: 0 });
    assert_eq!(age.text(), "0.0");
}

#[test]
fn missing_handshake_reports_unavailable() {
    let age = handshake_age(5_000, None);
    assert_eq!(age, HandshakeAge::Unavailable);
    assert_eq!(age.text(), "N/A");
}

#[test]
fn handshake_age_rounds_to_tenths() {
    assert_eq!(handshake_age(12_345, Some(0)).text(), "12.3");
    assert_eq!(handshake_age(12_350, Some(0)).text(), "12.4");
    assert_eq!(handshake_age(99_960, Some(0)).text(), "100.0");
    assert_eq!(handshake_age(1_000, Some(2_000)).text(), "0.0");
}

#[test]
fn decimal_text_has_no_leading_zeros() {
    assert_eq!(decimal_text(0), "0");
    assert_eq!(decimal_text(7), "7");
    assert_eq!(decimal_text(1_234_567), "1234567");
    assert_eq!(decimal_text(u64::MAX), u64::MAX.to_string());
}

#[test]
fn statistics_events_cover_each_peer() {
    let peers = vec![
        PeerCounters { tx_bytes: 10, rx_bytes: 20, last_handshake_ms: Some(4_000) },
        PeerCounters { tx_bytes: 0, rx_bytes: u64::MAX, last_handshake_ms: None },
    ];
    let evs = statistics_events(&peers, 6_500);
    assert_eq!(evs.len(), 2);
    assert_eq!((evs[0].up, evs[0].down), (10, 20));
    assert_eq!(evs[0].handshake_age, "2.5");
    assert_eq!((evs[1].up, evs[1].down), (0, u64::MAX));
    assert_eq!(evs[1].handshake_age, "N/A");
    let one = peer_statistics(&peers[0], 4_000);
    assert_eq!(one.handshake_age, "0.0");
    assert_eq!(disconnected_statistics().handshake_age, "N/A");
}

#[test]
fn failed_probe_reports_sentinel_and_loop_continues() {
    assert_eq!(ping_event(None), WgPing { latency: -1 });
    assert_eq!(ping_event(Some(23)), WgPing { latency: 23 });
    assert_eq!(ping_event(Some(u32::MAX)).latency, u32::MAX as i64);
    let mut p = Poller::new();
    for _ in 0..5 {
        assert_eq!(p.next_action(false), PollAction::Sleep);
    }
    assert_eq!(p.next_action(false), PollAction::Poll);
    let _ = ping_event(None);
    assert_eq!(p.next_action(false), PollAction::Sleep);
}

#[test]
fn poller_polls_once_per_interval_and_halts_for_good() {
    let mut p = Poller::new();
    let mut polls = 0;
    for _ in 0..12 {
        if p.next_action(false) == PollAction::Poll {
            polls += 1;
        }
    }
    assert_eq!(polls, 2);
    assert_eq!(p.next_action(true), PollAction::Halt);
    assert_eq!(p.next_action(false), PollAction::Halt);
    assert!(p.halted);
}
