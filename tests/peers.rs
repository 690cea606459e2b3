use lanshare::discovery::{format_beacon, parse_beacon, Beacon, PeerTable};

fn beacon(ip: &str, host: &str, id: &str) -> Beacon {
    Beacon { ip: ip.to_string(), hostname: host.to_string(), instance_id: id.to_string() }
}

#[test]
fn beacon_text_round_trip() {
    let text = format_beacon("192.168.1.5", "laptop", "4242");
    assert_eq!(text, "DISCOVER:192.168.1.5:laptop:4242");
    let b = parse_beacon(&text).unwrap();
    assert_eq!((b.ip.as_str(), b.hostname.as_str(), b.instance_id.as_str()), ("192.168.1.5", "laptop", "4242"));
}

#[test]
fn beacon_parse_rejects_other_text() {
    assert!(parse_beacon("HELLO:1:2:3").is_none());
    assert!(parse_beacon("DISCOVER:1.2.3.4:host").is_none());
    assert!(parse_beacon("").is_none());
}

#[test]
fn beacon_parse_ignores_extra_fields() {
    let b = parse_beacon("DISCOVER:1.2.3.4:h:7:extra").unwrap();
    assert_eq!(b.instance_id, "7");
}

#[test]
fn own_beacons_never_added() {
    let mut t = PeerTable::new();
    assert!(!t.on_datagram("DISCOVER:10.0.0.1:me:111", "111", 100));
    assert!(!t.on_datagram("DISCOVER:127.0.0.1:me:111", "111", 101));
    assert!(t.snapshot().is_empty());
    assert!(t.on_datagram("DISCOVER:10.0.0.1:other:222", "111", 102));
    assert_eq!(t.snapshot().len(), 1);
}

#[test]
fn same_peer_is_refreshed_not_duplicated() {
    let mut t = PeerTable::new();
    assert!(t.observe(beacon("10.0.0.2", "a", "1"), "9", 10));
    assert!(t.observe(beacon("10.0.0.2", "a2", "1"), "9", 20));
    assert!(t.observe(beacon("10.0.0.2", "b", "2"), "9", 20));
    let snap = t.snapshot();
    assert_eq!(snap.len(), 2);
    assert_eq!(snap[0].hostname, "a2");
    assert_eq!(snap[0].last_seen, 20);
    assert_eq!(snap[1].instance_id, "2");
    assert_eq!(t.known_addresses(), vec!["10.0.0.2".to_string(), "10.0.0.2".to_string()]);
}

#[test]
fn stale_peer_evicted() {
    let mut t = PeerTable::new();
    t.observe(beacon("10.0.0.3", "old", "1"), "9", 100);
    t.observe(beacon("10.0.0.4", "edge", "2"), "9", 101);
    t.observe(beacon("10.0.0.5", "new", "3"), "9", 130);
    t.evict(131);
    let snap = t.snapshot();
    let names: Vec<&str> = snap.iter().map(|d| d.hostname.as_str()).collect();
    assert_eq!(names, vec!["edge", "new"]);
}

#[test]
fn peer_from_the_future_is_kept() {
    let mut t = PeerTable::new();
    t.observe(beacon("10.0.0.6", "skewed", "1"), "9", 500);
    t.evict(100);
    assert_eq!(t.snapshot().len(), 1);
}
