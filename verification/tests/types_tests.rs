use murmur::types::{ChatMessage, Server, ServerRole, UserStatus};
use murmur::types::short_peer_id_of;

#[test]
fn status_labels() {
    assert_eq!(UserStatus::Online.label(), "Online");
    assert_eq!(UserStatus::Away.label(), "Away");
    assert_eq!(UserStatus::DoNotDisturb.label(), "DND");
    assert_eq!(UserStatus::Offline.label(), "Offline");
}

#[test]
fn server_id_depends_only_on_name() {
    let a = Server::new("rust-dev".to_string());
    let b = Server::new("rust-dev".to_string());
    let c = Server::new("music-jam".to_string());
    assert_eq!(a.id, b.id);
    assert_ne!(a.id, c.id);
    assert_eq!(a.id.len(), 16);
    assert!(a.id.chars().all(|ch| ch.is_ascii_hexdigit() && !ch.is_ascii_uppercase()));
    assert_eq!(a.name, "rust-dev");
    assert_eq!(a.channels.len(), 1);
    assert_eq!(a.channels[0].id, "general");
    assert_eq!(a.channels[0].name, "general");
    assert!(a.peers.is_empty());
    assert_eq!(a.owner_peer_id, "");
}

#[test]
fn server_id_is_sha256_prefix() {
    // SHA-256("abc") = ba7816bf8f01cfea414140de5dae2223...
    let s = Server::new("abc".to_string());
    assert_eq!(s.id, "ba7816bf8f01cfea");
}

#[test]
fn owned_server_lists_its_owner() {
    let s = Server::new_owned("team".to_string(), "peer-owner".to_string());
    assert_eq!(s.owner_peer_id, "peer-owner");
    assert_eq!(s.peers.len(), 1);
    assert_eq!(s.peers[0].peer_id, "peer-owner");
    assert_eq!(s.peers[0].role, ServerRole::Owner);
    assert_eq!(s.role_of("peer-owner"), ServerRole::Owner);
    assert_eq!(s.role_of("stranger"), ServerRole::Member);
}

#[test]
fn topic_format() {
    let s = Server::new("abc".to_string());
    assert_eq!(s.topic_for_channel("general"), "murmur/server/ba7816bf8f01cfea/channel/general");
}

#[test]
fn add_peer_merges_addresses() {
    let mut s = Server::new("lan".to_string());
    s.add_peer("p1", vec!["/ip4/1.2.3.4/tcp/1".to_string()]);
    s.add_peer("p1", vec!["/ip4/1.2.3.4/tcp/1".to_string(), "/ip4/5.6.7.8/tcp/2".to_string()]);
    s.add_peer("p2", vec![]);
    assert_eq!(s.peers.len(), 2);
    assert_eq!(s.peers[0].addrs, vec!["/ip4/1.2.3.4/tcp/1".to_string(), "/ip4/5.6.7.8/tcp/2".to_string()]);
    assert_eq!(s.peers[0].role, ServerRole::Member);
    assert_eq!(s.peers[1].peer_id, "p2");
}

#[test]
fn invite_roundtrip_keeps_name_and_addresses() {
    let mut s = Server::new("my server".to_string());
    s.add_peer("p1", vec!["/ip4/10.0.0.1/tcp/4001".to_string()]);
    s.add_peer("p2", vec!["/ip4/10.0.0.2/tcp/4001".to_string(), "/ip6/::1/tcp/9".to_string()]);
    let code = s.invite_code();
    assert!(!code.contains('='));
    assert!(!code.contains('+') && !code.contains('/'));
    let (name, addrs) = Server::parse_invite(&code).expect("invite parses");
    assert_eq!(name, "my server");
    assert_eq!(addrs, vec![
        "/ip4/10.0.0.1/tcp/4001".to_string(),
        "/ip4/10.0.0.2/tcp/4001".to_string(),
        "/ip6/::1/tcp/9".to_string(),
    ]);
}

#[test]
fn invite_without_members() {
    let s = Server::new("solo".to_string());
    let code = s.invite_code();
    // base64url("solo|")
    assert_eq!(code, "c29sb3w");
    let (name, addrs) = Server::parse_invite(&code).unwrap();
    assert_eq!(name, "solo");
    assert!(addrs.is_empty());
}

#[test]
fn invite_refuses_bad_input() {
    assert!(Server::parse_invite("not base64 !!").is_none());
    // base64url of the bytes ff fe, which are not UTF-8
    assert!(Server::parse_invite("__4").is_none());
}

#[test]
fn invite_without_bar_is_just_a_name() {
    // base64url("plain")
    let (name, addrs) = Server::parse_invite("cGxhaW4").unwrap();
    assert_eq!(name, "plain");
    assert!(addrs.is_empty());
}

#[test]
fn new_message_fields() {
    let m = ChatMessage::new("s1".into(), "general".into(), "p1".into(), "Alice".into(), "hi".into());
    assert_eq!(m.id.len(), 36);
    let cs: Vec<char> = m.id.chars().collect();
    for (i, c) in cs.iter().enumerate() {
        if i == 8 || i == 13 || i == 18 || i == 23 {
            assert_eq!(*c, '-');
        } else {
            assert!(c.is_ascii_digit() || ('a'..='f').contains(c));
        }
    }
    assert_eq!(cs[14], '4');
    assert!(['8', '9', 'a', 'b'].contains(&cs[19]));
    assert_eq!(m.server_id, "s1");
    assert_eq!(m.channel_id, "general");
    assert_eq!(m.sender_peer_id, "p1");
    assert_eq!(m.sender_name, "Alice");
    assert_eq!(m.content, "hi");
    assert!(m.reply_to.is_none());
    assert!(!m.edited);
    assert!(m.reactions.is_empty());
    assert!(m.attachment.is_none());
    assert!(m.timestamp > 0);
    assert_eq!(m.topic(), "murmur/server/s1/channel/general");
    let m2 = ChatMessage::new("s1".into(), "general".into(), "p1".into(), "Alice".into(), "hi".into());
    assert_ne!(m.id, m2.id);
}

#[test]
fn short_peer_ids() {
    assert_eq!(short_peer_id_of("12D3KooWAbcdefgh"), "12D3KooW");
    assert_eq!(short_peer_id_of("short"), "short");
    assert_eq!(short_peer_id_of(""), "");
}
