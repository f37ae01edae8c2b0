use murmur::crypto::e2e::EncryptedEnvelope;
use murmur::crypto::store_forward::{PullRequest, StoreForward, StoredMessage};

fn env() -> EncryptedEnvelope {
    EncryptedEnvelope { ephemeral_pubkey: [1u8; 32], nonce: [2u8; 12], ciphertext: vec![3, 4, 5], sender_pubkey: [6u8; 32] }
}

fn msg(id: &str, target: &str, topic: &str, stored_at: i64, ttl: u64) -> StoredMessage {
    StoredMessage {
        id: id.to_string(),
        target_peer_id: target.to_string(),
        envelope: env(),
        topic: topic.to_string(),
        stored_at,
        ttl,
        relay_hops: 3,
    }
}

fn ids(v: &[StoredMessage]) -> Vec<String> {
    v.iter().map(|m| m.id.clone()).collect()
}

#[test]
fn store_then_pull_delivers_in_order() {
    let mut sf = StoreForward::new(Vec::new());
    assert!(sf.store_message_at(msg("a", "bob", "t1", 100, 86400), 100));
    assert!(sf.store_message_at(msg("b", "bob", "t2", 200, 86400), 200));
    assert!(sf.store_message_at(msg("c", "carol", "t1", 300, 86400), 300));
    assert_eq!(sf.count_for_peer("bob"), 2);
    assert_eq!(sf.count_for_peer("carol"), 1);
    assert_eq!(sf.count_for_peer("dave"), 0);
    let r = sf.pull_messages(&PullRequest { peer_id: "bob".into(), since: 0, topics: vec![] });
    assert_eq!(ids(&r.messages), vec!["a".to_string(), "b".to_string()]);
    assert_eq!(sf.count_for_peer("bob"), 0);
    assert_eq!(sf.count_for_peer("carol"), 1);
}

#[test]
fn duplicate_ids_are_held_once() {
    let mut sf = StoreForward::new(Vec::new());
    assert!(sf.store_message_at(msg("a", "bob", "t", 1, 100), 1));
    assert!(sf.store_message_at(msg("a", "bob", "t", 1, 100), 2));
    assert_eq!(sf.count_for_peer("bob"), 1);
}

#[test]
fn pull_filters_by_time_and_topic() {
    let mut sf = StoreForward::new(Vec::new());
    sf.store_message_at(msg("old", "bob", "t1", 10, 86400), 10);
    sf.store_message_at(msg("new1", "bob", "t1", 50, 86400), 50);
    sf.store_message_at(msg("new2", "bob", "t2", 60, 86400), 60);
    let r = sf.pull_messages(&PullRequest { peer_id: "bob".into(), since: 20, topics: vec!["t1".into()] });
    assert_eq!(ids(&r.messages), vec!["new1".to_string()]);
    let rest = sf.pull_messages(&PullRequest { peer_id: "bob".into(), since: 0, topics: vec![] });
    assert_eq!(ids(&rest.messages), vec!["old".to_string(), "new2".to_string()]);
}

#[test]
fn per_peer_limit_is_1000() {
    let mut sf = StoreForward::new(Vec::new());
    for i in 0..1000 {
        assert!(sf.store_message_at(msg(&format!("m{}", i), "bob", "t", 1, 86400), 1));
    }
    assert!(!sf.store_message_at(msg("one-too-many", "bob", "t", 1, 86400), 1));
    assert_eq!(sf.count_for_peer("bob"), 1000);
    assert!(sf.store_message_at(msg("x", "carol", "t", 1, 86400), 1));
}

#[test]
fn eviction_drops_exactly_the_expired() {
    let mut sf = StoreForward::new(Vec::new());
    sf.store_message_at(msg("short", "bob", "t", 100, 10), 100);
    sf.store_message_at(msg("long", "bob", "t", 100, 1000), 100);
    sf.store_message_at(msg("edge", "bob", "t", 100, 50), 100);
    sf.evict_expired_at(150);
    let r = sf.pull_messages(&PullRequest { peer_id: "bob".into(), since: 0, topics: vec![] });
    assert_eq!(ids(&r.messages), vec!["long".to_string()]);
}

#[test]
fn loaded_entries_are_held() {
    let loaded = vec![
        ("bob".to_string(), vec![msg("x", "bob", "t", 1, 10)]),
        ("bob".to_string(), vec![msg("y", "bob", "t", 1, 10), msg("z", "bob", "t", 1, 10)]),
    ];
    let sf = StoreForward::new(loaded);
    assert_eq!(sf.count_for_peer("bob"), 2);
    assert_eq!(sf.entries().len(), 1);
}

#[test]
fn relaying_uses_up_hops() {
    let m = msg("a", "bob", "t", 1, 10);
    assert!(StoreForward::should_relay(&m));
    let c1 = StoreForward::relay_copy(&m);
    let c2 = StoreForward::relay_copy(&c1);
    let c3 = StoreForward::relay_copy(&c2);
    let c4 = StoreForward::relay_copy(&c3);
    assert_eq!((c1.relay_hops, c2.relay_hops, c3.relay_hops, c4.relay_hops), (2, 1, 0, 0));
    assert!(StoreForward::should_relay(&c2));
    assert!(!StoreForward::should_relay(&c3));
    assert_eq!(c3.id, "a");
    assert_eq!(c3.envelope.ciphertext, vec![3, 4, 5]);
}

#[test]
fn store_twice_by_the_clock_keeps_one_copy() {
    let mut sf = StoreForward::new(Vec::new());
    let m = msg("m1", "p", "t", 0, 60);
    assert!(sf.store_message(msg("m1", "p", "t", 0, 60)));
    assert_eq!(sf.count_for_peer("p"), 1);
    assert!(sf.store_message(m));
    assert_eq!(sf.count_for_peer("p"), 1);
    assert_eq!(sf.count_for_peer("q"), 0);
}

#[test]
fn pull_after_two_stores() {
    let mut sf = StoreForward::new(Vec::new());
    assert!(sf.store_message(msg("1", "p", "a", 10, 86400)));
    assert!(sf.store_message(msg("2", "p", "b", 20, 86400)));
    let r = sf.pull_messages(&PullRequest { peer_id: "p".into(), since: 15, topics: vec![] });
    assert_eq!(ids(&r.messages), vec!["2".to_string()]);
    assert_eq!(sf.count_for_peer("p"), 1);
    let r = sf.pull_messages(&PullRequest { peer_id: "p".into(), since: 15, topics: vec![] });
    assert!(r.messages.is_empty());
}
