use mirage_host::config::Config;
use mirage_host::discovery::{
    parse_service_info, service_type, DiscoveryEvent, DiscoveryService, PeerDevice, ServiceRecord,
};
use mirage_host::strutil::{service_base_name, split_string, str_contains, str_eq};

fn record(fullname: &str, node_id: &str) -> ServiceRecord {
    ServiceRecord {
        fullname: String::from(fullname),
        addresses: vec![String::from("192.168.1.5")],
        port: 8443,
        properties: vec![
            (String::from("node_id"), String::from(node_id)),
            (String::from("os_type"), String::from("linux")),
            (String::from("can_host_mouse"), String::from("true")),
            (String::from("can_capture_windows"), String::from("false")),
            (String::from("can_render_streams"), String::from("true")),
            (String::from("video_codecs"), String::from("h264,h265")),
        ],
    }
}

fn registry() -> DiscoveryService {
    DiscoveryService::new(
        Config::default(),
        String::from("host-a"),
        String::from("own-node-id"),
    )
}

fn parse(rec: &ServiceRecord) -> Option<PeerDevice> {
    parse_service_info(rec, "own-node-id", 100)
}

#[test]
fn parse_reads_all_advertised_fields() {
    let rec = record("Alice._mirage._tcp.local.", "id-alice");
    let peer = parse(&rec).expect("record must parse");
    assert_eq!(peer.node_id, "id-alice");
    assert_eq!(peer.node_name, "Alice");
    assert_eq!(peer.os_type, "linux");
    assert_eq!(peer.ip_address, "192.168.1.5");
    assert_eq!(peer.control_port, 8443);
    assert!(peer.capabilities.can_host_mouse);
    assert!(!peer.capabilities.can_capture_windows);
    assert!(peer.capabilities.can_render_streams);
    assert_eq!(peer.capabilities.video_codecs, vec!["h264", "h265"]);
    assert_eq!(peer.last_seen, 100);
}

#[test]
fn parse_trims_leading_underscores_from_the_name() {
    let rec = record("_Bob._mirage._tcp.local.", "id-bob");
    let peer = parse(&rec).expect("record must parse");
    assert_eq!(peer.node_name, "Bob");
}

#[test]
fn parse_rejects_record_without_node_id() {
    let mut rec = record("Alice._mirage._tcp.local.", "id-alice");
    rec.properties.retain(|(k, _)| k != "node_id");
    assert!(parse(&rec).is_none());
}

#[test]
fn parse_rejects_own_identity() {
    let rec = record("Alice._mirage._tcp.local.", "own-node-id");
    assert!(parse(&rec).is_none());
}

#[test]
fn parse_rejects_record_without_os_type() {
    let mut rec = record("Alice._mirage._tcp.local.", "id-alice");
    rec.properties.retain(|(k, _)| k != "os_type");
    assert!(parse(&rec).is_none());
}

#[test]
fn parse_rejects_record_without_addresses() {
    let mut rec = record("Alice._mirage._tcp.local.", "id-alice");
    rec.addresses.clear();
    assert!(parse(&rec).is_none());
}

#[test]
fn parse_defaults_for_missing_capability_properties() {
    let rec = ServiceRecord {
        fullname: String::from("Carol._mirage._tcp.local."),
        addresses: vec![String::from("10.0.0.9")],
        port: 9000,
        properties: vec![
            (String::from("node_id"), String::from("id-carol")),
            (String::from("os_type"), String::from("macos")),
        ],
    };
    let peer = parse_service_info(&rec, "own-node-id", 5).expect("record must parse");
    assert!(!peer.capabilities.can_host_mouse);
    assert!(!peer.capabilities.can_capture_windows);
    assert!(!peer.capabilities.can_render_streams);
    assert!(peer.capabilities.video_codecs.is_empty());
}

#[test]
fn capability_flag_must_be_exactly_true() {
    let mut rec = record("Alice._mirage._tcp.local.", "id-alice");
    for prop in rec.properties.iter_mut() {
        if prop.0 == "can_host_mouse" {
            prop.1 = String::from("TRUE");
        }
    }
    let peer = parse(&rec).expect("record must parse");
    assert!(!peer.capabilities.can_host_mouse);
}

#[test]
fn discovering_same_identity_twice_yields_discovered_then_updated() {
    let mut reg = registry();
    let first = parse(&record("Alice._mirage._tcp.local.", "id-alice")).unwrap();
    match reg.upsert_peer(first) {
        Some(DiscoveryEvent::PeerDiscovered(p)) => assert_eq!(p.node_id, "id-alice"),
        other => panic!("expected PeerDiscovered, got {:?}", other),
    }
    let second = parse_service_info(&record("Alice._mirage._tcp.local.", "id-alice"), "own-node-id", 200)
        .unwrap();
    match reg.upsert_peer(second) {
        Some(DiscoveryEvent::PeerUpdated(p)) => {
            assert_eq!(p.node_id, "id-alice");
            assert_eq!(p.last_seen, 200);
        },
        other => panic!("expected PeerUpdated, got {:?}", other),
    }
    // Still exactly one registry entry for the identity.
    assert_eq!(reg.get_peers().len(), 1);
    assert_eq!(reg.get_peer("id-alice").unwrap().last_seen, 200);
}

#[test]
fn own_identity_is_never_inserted() {
    let mut reg = registry();
    let own = PeerDevice {
        node_id: String::from("own-node-id"),
        node_name: String::from("host-a"),
        os_type: String::from("linux"),
        ip_address: String::from("127.0.0.1"),
        control_port: 8443,
        capabilities: mirage_host::discovery::PeerCapabilities {
            can_host_mouse: true,
            can_capture_windows: true,
            can_render_streams: true,
            video_codecs: Vec::new(),
        },
        last_seen: 0,
    };
    assert!(reg.upsert_peer(own).is_none());
    assert!(reg.get_peers().is_empty());
    assert!(reg.get_peer("own-node-id").is_none());
}

#[test]
fn removal_notice_correlates_by_name_containment() {
    let mut reg = registry();
    let alice = parse(&record("Alice._mirage._tcp.local.", "id-alice")).unwrap();
    let bob = parse(&record("Bob._mirage._tcp.local.", "id-bob")).unwrap();
    reg.upsert_peer(alice);
    reg.upsert_peer(bob);
    match reg.on_service_removed("Bob._mirage._tcp.local.") {
        Some(DiscoveryEvent::PeerLost(id)) => assert_eq!(id, "id-bob"),
        other => panic!("expected PeerLost, got {:?}", other),
    }
    assert!(reg.get_peer("id-bob").is_none());
    assert!(reg.get_peer("id-alice").is_some());
}

#[test]
fn removal_notice_without_match_is_ignored() {
    let mut reg = registry();
    let alice = parse(&record("Alice._mirage._tcp.local.", "id-alice")).unwrap();
    reg.upsert_peer(alice);
    assert!(reg.on_service_removed("Zed._mirage._tcp.local.").is_none());
    assert_eq!(reg.get_peers().len(), 1);
}

#[test]
fn liveness_sweep_evicts_only_stale_entries() {
    let mut reg = registry();
    let stale = parse_service_info(&record("Alice._mirage._tcp.local.", "id-alice"), "own-node-id", 0)
        .unwrap();
    let fresh = parse_service_info(&record("Bob._mirage._tcp.local.", "id-bob"), "own-node-id", 9_000)
        .unwrap();
    reg.upsert_peer(stale);
    reg.upsert_peer(fresh);
    // TTL 10 s at t = 10_000: the entry last seen at 0 is one past the TTL.
    let lost = reg.sweep_stale(10_001, 10_000);
    assert_eq!(lost, vec!["id-alice"]);
    assert!(reg.get_peer("id-alice").is_none());
    assert!(reg.get_peer("id-bob").is_some());
}

#[test]
fn liveness_sweep_keeps_entry_exactly_at_ttl() {
    let mut reg = registry();
    let peer = parse_service_info(&record("Alice._mirage._tcp.local.", "id-alice"), "own-node-id", 0)
        .unwrap();
    reg.upsert_peer(peer);
    let lost = reg.sweep_stale(10_000, 10_000);
    assert!(lost.is_empty());
    assert!(reg.get_peer("id-alice").is_some());
}

#[test]
fn advertisement_record_content() {
    let reg = registry();
    let props = reg.advertisement_properties();
    let expected = [
        ("node_id", "own-node-id"),
        ("os_type", "linux"),
        ("can_host_mouse", "true"),
        ("can_capture_windows", "true"),
        ("can_render_streams", "true"),
        ("video_codecs", "h264,h265"),
    ];
    assert_eq!(props.len(), expected.len());
    for (got, want) in props.iter().zip(expected.iter()) {
        assert_eq!(got.0, want.0);
        assert_eq!(got.1, want.1);
    }
    assert_eq!(reg.service_instance_name(), "host-a._mirage");
    assert_eq!(service_type(), "_mirage._tcp.local.");
}

#[test]
fn string_utilities() {
    assert!(str_eq("abc", "abc"));
    assert!(!str_eq("abc", "abd"));
    assert!(!str_eq("abc", "ab"));
    assert!(str_contains("Bob._mirage._tcp.local.", "Bob"));
    assert!(str_contains("Bob._mirage._tcp.local.", ""));
    assert!(!str_contains("Bob._mirage._tcp.local.", "Alice"));
    assert_eq!(service_base_name("Alice._mirage._tcp.local."), "Alice");
    assert_eq!(service_base_name("__x._tcp"), "x");
    assert_eq!(service_base_name("plain"), "plain");
    assert_eq!(split_string("h264,h265", ','), vec!["h264", "h265"]);
    assert_eq!(split_string("", ','), vec![""]);
    assert_eq!(split_string("a,,b", ','), vec!["a", "", "b"]);
    assert_eq!(split_string("solo", ','), vec!["solo"]);
}
