use lanshare::chat::ChatMessage;
use lanshare::clipboard::{compute_hash, hex_of, ClipboardMessage, ClipboardSync};
use lanshare::registry::Registry;
use lanshare::relay::{after_send, is_ordinary_disconnect, peer_key, relay_action, send_target, FrameKind, RelayAction, RelayError};
use std::hash::{Hash, Hasher};

#[test]
fn hex_formatting() {
    assert_eq!(hex_of(0), "0");
    assert_eq!(hex_of(15), "f");
    assert_eq!(hex_of(255), "ff");
    assert_eq!(hex_of(0x1a2b), "1a2b");
    assert_eq!(hex_of(u64::MAX), "ffffffffffffffff");
}

#[test]
fn hash_matches_default_hasher() {
    let mut h = std::collections::hash_map::DefaultHasher::new();
    "hello".hash(&mut h);
    assert_eq!(compute_hash("hello"), format!("{:x}", h.finish()));
    assert_ne!(compute_hash("hello"), compute_hash("hello!"));
    assert_ne!(compute_hash("hello"), "hello");
}

#[test]
fn received_clipboard_not_echoed() {
    let mut sync = ClipboardSync::new();
    let h = compute_hash("from peer");
    sync.on_remote(&h);
    for _ in 0..3 {
        assert_eq!(sync.poll("from peer"), None);
    }
    assert_eq!(sync.last_seen_hash, h);
}

#[test]
fn local_change_announced_once() {
    let mut sync = ClipboardSync::new();
    let h = sync.poll("mine").unwrap();
    assert_eq!(h, compute_hash("mine"));
    assert_eq!(sync.poll("mine"), None);
    assert_eq!(sync.poll(""), None);
    assert!(sync.poll("other").is_some());
}

#[test]
fn observe_hashed_rules() {
    let mut sync = ClipboardSync::new();
    assert!(!sync.observe_hashed("", "h1".to_string()));
    assert!(sync.observe_hashed("x", "h1".to_string()));
    assert!(!sync.observe_hashed("x", "h1".to_string()));
    sync.on_remote("h2");
    assert!(!sync.observe_hashed("y", "h2".to_string()));
    assert_eq!(sync.last_polled_hash, "h2");
    assert!(sync.observe_hashed("x", "h1".to_string()));
    assert!(!sync.observe_hashed("x", "h1".to_string()));
}

#[test]
fn earlier_value_copied_again_after_remote_is_announced() {
    let mut sync = ClipboardSync::new();
    let a = sync.poll("A").unwrap();
    let b = compute_hash("B");
    sync.on_remote(&b);
    assert_eq!(sync.poll("B"), None);
    assert_eq!(sync.poll("A"), Some(a));
}

#[test]
fn value_read_by_previous_tick_is_not_announced() {
    let mut sync = ClipboardSync::new();
    sync.on_remote(&compute_hash("A"));
    assert_eq!(sync.poll("A"), None);
    sync.on_remote(&compute_hash("B"));
    assert_eq!(sync.poll("A"), None);
}

#[test]
fn empty_tick_keeps_previous_read() {
    let mut sync = ClipboardSync::new();
    sync.on_remote(&compute_hash("A"));
    assert_eq!(sync.poll("A"), None);
    assert_eq!(sync.poll(""), None);
    sync.on_remote(&compute_hash("B"));
    assert_eq!(sync.poll("A"), None);
}

#[test]
fn share_now_requires_content() {
    let mut sync = ClipboardSync::new();
    match sync.share_now("") {
        Err(e) => assert_eq!(e.message(), "Clipboard is empty"),
        Ok(_) => panic!("empty clipboard shared"),
    }
    assert_eq!(sync.share_now("abc").ok().unwrap(), compute_hash("abc"));
    assert_eq!(sync.poll("abc"), None);
}

#[test]
fn local_write_suppresses_announcement() {
    let mut sync = ClipboardSync::new();
    sync.on_local_write("typed");
    assert_eq!(sync.poll("typed"), None);
}

#[test]
fn outgoing_messages() {
    let m = ChatMessage::outgoing("hi".to_string(), None, 5);
    assert_eq!(m.from_ip, "unknown");
    let c = ClipboardMessage::outgoing("t".to_string(), Some("10.0.0.1".to_string()), 6, "ab".to_string());
    assert_eq!((c.from_ip.as_str(), c.timestamp, c.hash.as_str()), ("10.0.0.1", 6, "ab"));
}

#[test]
fn loopback_key_rewritten() {
    assert_eq!(peer_key("127.0.0.1", Some("192.168.0.9".to_string())), "192.168.0.9");
    assert_eq!(peer_key("::1", Some("192.168.0.9".to_string())), "192.168.0.9");
    assert_eq!(peer_key("127.0.0.1", None), "127.0.0.1");
    assert_eq!(peer_key("10.1.1.1", Some("192.168.0.9".to_string())), "10.1.1.1");
}

#[test]
fn registry_register_replace_remove() {
    let mut r: Registry<u32> = Registry::new();
    assert!(!r.register("a".to_string(), 1));
    assert!(!r.register("b".to_string(), 2));
    assert!(r.register("a".to_string(), 3));
    assert_eq!(r.len(), 2);
    assert_eq!(r.get("a"), Some(&3));
    assert!(r.contains("b"));
    assert_eq!(r.keys(), vec!["a".to_string(), "b".to_string()]);
    assert_eq!(r.remove("a"), Some(3));
    assert_eq!(r.remove("a"), None);
    assert_eq!(r.get("a"), None);
    let drained = r.drain();
    assert_eq!(drained, vec![("b".to_string(), 2)]);
    assert_eq!(r.len(), 0);
}

#[test]
fn send_failure_drops_peer() {
    let mut r: Registry<u32> = Registry::new();
    r.register("p".to_string(), 1);
    match send_target(&r, "q") {
        Err(e) => assert_eq!(e.message(), "Not connected to q"),
        Ok(_) => panic!("unknown peer found"),
    }
    assert_eq!(*send_target(&r, "p").ok().unwrap(), 1);
    assert!(after_send(&mut r, "p", Ok(())).is_ok());
    assert!(r.contains("p"));
    match after_send(&mut r, "p", Err("reset".to_string())) {
        Err(RelayError::Disconnected { reason }) => assert_eq!(reason, "reset"),
        _ => panic!("expected a disconnect"),
    }
    assert!(!r.contains("p"));
}

#[test]
fn frame_dispatch() {
    assert!(matches!(relay_action(FrameKind::Text), RelayAction::Deliver));
    assert!(matches!(relay_action(FrameKind::Ping), RelayAction::ReplyPong));
    assert!(matches!(relay_action(FrameKind::Close), RelayAction::Stop));
    assert!(matches!(relay_action(FrameKind::Error), RelayAction::Stop));
    assert!(matches!(relay_action(FrameKind::Binary), RelayAction::Ignore));
    assert!(matches!(relay_action(FrameKind::Pong), RelayAction::Ignore));
}

#[test]
fn ordinary_disconnects() {
    assert!(is_ordinary_disconnect("IO error: Connection reset by peer (os error 104)"));
    assert!(is_ordinary_disconnect("Broken pipe"));
    assert!(!is_ordinary_disconnect("Protocol error"));
    assert!(!is_ordinary_disconnect(""));
}

#[test]
fn second_connection_to_a_peer_is_refused() {
    let mut r: Registry<u32> = Registry::new();
    assert_eq!(r.register_new("p".to_string(), 1), None);
    assert_eq!(r.register_new("p".to_string(), 2), Some(2));
    assert_eq!(r.get("p"), Some(&1));
    assert_eq!(r.len(), 1);
}
