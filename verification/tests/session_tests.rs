use mirage_host::config::Config;
use mirage_host::session::{MouseOwner, SessionManager};

const HOUR_MS: u64 = 3_600_000;

fn manager() -> SessionManager {
    SessionManager::new(Config::default(), String::from("host-a"))
}

#[test]
fn session_lifecycle_scenario() {
    let mut mgr = manager();
    let s = mgr.create_session(String::from("peerX"), String::from("Peer X"), 1_000);
    let got = mgr.get_session(s.session_id.as_str()).expect("session must exist");
    assert_eq!(got.mouse_owner, MouseOwner::Local);
    assert_eq!(got.peer_node_id, "peerX");
    assert_eq!(got.peer_name, "Peer X");
    assert_eq!(got.created_at, 1_000);
    assert_eq!(got.last_activity, 1_000);

    mgr.transfer_mouse(s.session_id.as_str(), MouseOwner::Remote);
    let got = mgr.get_session(s.session_id.as_str()).expect("session must exist");
    assert_eq!(got.mouse_owner, MouseOwner::Remote);

    mgr.close_session(s.session_id.as_str());
    assert!(mgr.get_session(s.session_id.as_str()).is_none());
}

#[test]
fn session_ids_are_fresh_uuids() {
    let mut mgr = manager();
    let a = mgr.create_session(String::from("p1"), String::from("P 1"), 0);
    let b = mgr.create_session(String::from("p2"), String::from("P 2"), 0);
    assert_eq!(a.session_id.len(), 36);
    assert_ne!(a.session_id, b.session_id);
    assert!(mgr.get_session(a.session_id.as_str()).is_some());
    assert!(mgr.get_session(b.session_id.as_str()).is_some());
}

#[test]
fn transfer_mouse_is_idempotent() {
    let mut mgr = manager();
    let s = mgr.create_session(String::from("peerX"), String::from("Peer X"), 0);
    mgr.transfer_mouse(s.session_id.as_str(), MouseOwner::Remote);
    let once = mgr.get_session(s.session_id.as_str()).expect("session must exist");
    mgr.transfer_mouse(s.session_id.as_str(), MouseOwner::Remote);
    let twice = mgr.get_session(s.session_id.as_str()).expect("session must exist");
    assert_eq!(once.mouse_owner, MouseOwner::Remote);
    assert_eq!(twice.mouse_owner, MouseOwner::Remote);
    assert_eq!(once.last_activity, twice.last_activity);
    assert_eq!(once.created_at, twice.created_at);
}

#[test]
fn transfer_mouse_unknown_session_is_a_no_op() {
    let mut mgr = manager();
    let s = mgr.create_session(String::from("peerX"), String::from("Peer X"), 0);
    mgr.transfer_mouse("no-such-session", MouseOwner::Remote);
    let got = mgr.get_session(s.session_id.as_str()).expect("session must exist");
    assert_eq!(got.mouse_owner, MouseOwner::Local);
}

#[test]
fn sweep_evicts_session_idle_beyond_timeout() {
    // Default timeout: 60 minutes.
    let mut mgr = manager();
    let s = mgr.create_session(String::from("peerX"), String::from("Peer X"), 0);
    // Exactly at the timeout the session survives; one millisecond past it
    // is evicted.
    let evicted = mgr.sweep_expired(60 * 60_000);
    assert_eq!(evicted, 0);
    assert!(mgr.get_session(s.session_id.as_str()).is_some());
    let evicted = mgr.sweep_expired(60 * 60_000 + 1);
    assert_eq!(evicted, 1);
    assert!(mgr.get_session(s.session_id.as_str()).is_none());
}

#[test]
fn update_activity_resets_the_eviction_clock() {
    let mut mgr = manager();
    let s = mgr.create_session(String::from("peerX"), String::from("Peer X"), 0);
    mgr.update_activity(s.session_id.as_str(), HOUR_MS);
    // Without the update this sweep would evict the session.
    let evicted = mgr.sweep_expired(HOUR_MS + 50);
    assert_eq!(evicted, 0);
    let got = mgr.get_session(s.session_id.as_str()).expect("session must exist");
    assert_eq!(got.last_activity, HOUR_MS);
    assert_eq!(got.created_at, 0);
}

#[test]
fn update_activity_unknown_session_is_a_no_op() {
    let mut mgr = manager();
    let s = mgr.create_session(String::from("peerX"), String::from("Peer X"), 7);
    mgr.update_activity("no-such-session", 1_000);
    let got = mgr.get_session(s.session_id.as_str()).expect("session must exist");
    assert_eq!(got.last_activity, 7);
}

#[test]
fn sweep_keeps_active_sessions_and_evicts_idle_ones() {
    let mut mgr = manager();
    let idle = mgr.create_session(String::from("p1"), String::from("P 1"), 0);
    let busy = mgr.create_session(String::from("p2"), String::from("P 2"), 0);
    mgr.update_activity(busy.session_id.as_str(), HOUR_MS);
    let evicted = mgr.sweep_expired(HOUR_MS + 1);
    assert_eq!(evicted, 1);
    assert!(mgr.get_session(idle.session_id.as_str()).is_none());
    assert!(mgr.get_session(busy.session_id.as_str()).is_some());
}

#[test]
fn close_session_unknown_id_is_a_no_op() {
    let mut mgr = manager();
    let s = mgr.create_session(String::from("peerX"), String::from("Peer X"), 0);
    mgr.close_session("no-such-session");
    assert!(mgr.get_session(s.session_id.as_str()).is_some());
}

#[test]
fn default_configuration_values() {
    let c = Config::default();
    assert_eq!(c.host.display_edge_threshold, 10);
    assert!(c.host.name.is_none());
    assert_eq!(c.network.discovery_port, 5353);
    assert_eq!(c.network.control_port, 8443);
    assert_eq!(c.network.allowed_subnets, vec!["192.168.0.0/16", "10.0.0.0/8"]);
    assert_eq!(c.streaming.max_fps, 60);
    assert_eq!(c.streaming.codec, "h264");
    assert_eq!(c.streaming.bitrate_mbps, 10);
    assert!(c.streaming.hardware_encode);
    assert!(c.security.require_pairing);
    assert_eq!(c.security.session_timeout_minutes, 60);
    assert!(c.security.cert_path.is_none());
    assert!(c.security.key_path.is_none());
    assert!(c.input.enable_smooth_scroll);
    assert_eq!(c.input.edge_activation_delay_ms, 100);
}

#[test]
fn current_time_is_available() {
    let t = mirage_host::timesource::current_time_millis();
    // The clock reads a real wall-clock time, well after the epoch.
    assert!(t > 0);
}
