use murmur::state::store::AppState;
use murmur::types::{Channel, ChatMessage, DirectMessage, Server, UserProfile, UserStatus};

fn state() -> AppState {
    AppState::new("me-peer-id".into(), "Me".into(), None, Vec::new())
}

fn chat(server: &str, channel: &str, sender: &str, ts: i64, content: &str) -> ChatMessage {
    let mut m = ChatMessage::new(server.into(), channel.into(), sender.into(), sender.into(), content.into());
    m.timestamp = ts;
    m
}

fn lobby_topic(s: &AppState) -> String {
    s.servers[0].topic_for_channel("general")
}

#[test]
fn fresh_state_has_the_lobby() {
    let s = state();
    assert_eq!(s.servers.len(), 1);
    assert_eq!(s.servers[0].name, "murmur-lobby");
    assert_eq!(s.servers[0].id, Server::new("murmur-lobby".into()).id);
    assert_eq!(s.active_server, Some(0));
    assert_eq!(s.active_channel, Some(0));
    assert_eq!(s.profile.peer_id, "me-peer-id");
    assert_eq!(s.profile.display_name, "Me");
    assert_eq!(s.profile.status, UserStatus::Online);
    assert_eq!(s.total_unread, 0);
    assert_eq!(s.current_topic(), Some(lobby_topic(&s)));
}

#[test]
fn saved_servers_and_cached_peers_are_loaded() {
    let saved = vec![Server::new("a".into()), Server::new("b".into())];
    let cached = vec![
        UserProfile { peer_id: "p1".into(), display_name: "Old".into(), status: UserStatus::Online },
        UserProfile { peer_id: "p1".into(), display_name: "New".into(), status: UserStatus::Away },
    ];
    let s = AppState::new("me".into(), "Me".into(), Some(saved), cached);
    assert_eq!(s.servers.len(), 2);
    assert_eq!(s.servers[1].name, "b");
    assert_eq!(s.peers.len(), 1);
    assert_eq!(s.peers[0].1.display_name, "New");
    assert_eq!(s.peers[0].1.status, UserStatus::Offline);
}

#[test]
fn unread_counts_other_channels_only() {
    let mut s = state();
    let sid = s.servers[0].id.clone();
    let other_topic = s.servers[0].topic_for_channel("random");
    // In the selected channel: not unread.
    s.add_message(chat(&sid, "general", "alice", 1, "hi"));
    assert_eq!(s.total_unread, 0);
    // Another channel: unread.
    s.add_message(chat(&sid, "random", "alice", 2, "psst"));
    s.add_message(chat(&sid, "random", "bob", 3, "psst"));
    // Our own message elsewhere: not unread.
    s.add_message(chat(&sid, "random", "me-peer-id", 4, "mine"));
    assert_eq!(s.total_unread, 2);
    let unread: u32 = s.unread.iter().map(|(_, c)| *c).sum();
    assert_eq!(unread, s.total_unread);
    s.mark_read(&other_topic);
    assert_eq!(s.total_unread, 0);
    assert!(s.unread.is_empty());
    assert!(s.has_messages_for(&other_topic));
    assert!(!s.has_messages_for("nothing"));
}

#[test]
fn direct_messages_filed_by_other_peer() {
    let mut s = state();
    let dm_in = DirectMessage { id: "1".into(), from_peer_id: "alice".into(), from_name: "A".into(), to_peer_id: "me-peer-id".into(), content: "hi".into(), timestamp: 1 };
    let dm_out = DirectMessage { id: "2".into(), from_peer_id: "me-peer-id".into(), from_name: "Me".into(), to_peer_id: "alice".into(), content: "yo".into(), timestamp: 2 };
    s.add_direct_message(dm_in);
    s.add_direct_message(dm_out);
    s.active_dm_peer = Some("alice".into());
    let shown: Vec<String> = s.current_dm_messages().iter().map(|m| m.id.clone()).collect();
    assert_eq!(shown, vec!["1".to_string(), "2".to_string()]);
}

#[test]
fn servers_and_channels_are_not_duplicated() {
    let mut s = state();
    assert!(s.add_server(Server::new("rust-dev".into())));
    assert!(!s.add_server(Server::new("rust-dev".into())));
    assert_eq!(s.servers.len(), 2);
    let sid = s.servers[1].id.clone();
    assert!(s.add_channel_to_server(&sid, Channel { id: "help".into(), name: "help".into() }));
    assert!(!s.add_channel_to_server(&sid, Channel { id: "help".into(), name: "Help!".into() }));
    assert!(!s.add_channel_to_server("no-such-server", Channel { id: "x".into(), name: "x".into() }));
    assert_eq!(s.servers[1].channels.len(), 2);
    assert_eq!(s.servers[1].channels[1].name, "help");
    let topics = s.all_channel_topics();
    assert_eq!(topics.len(), 3);
    assert_eq!(topics[2], s.servers[1].topic_for_channel("help"));
}

#[test]
fn peers_are_updated_and_marked_offline() {
    let mut s = state();
    s.add_peer_if_new("p1".into(), "First".into(), UserStatus::Online);
    s.add_peer_if_new("p1".into(), "Second".into(), UserStatus::Away);
    assert_eq!(s.peers.len(), 1);
    assert_eq!(s.peers[0].1.display_name, "First");
    s.update_peer("p1".into(), "Renamed".into(), UserStatus::DoNotDisturb);
    assert_eq!(s.peers[0].1.display_name, "Renamed");
    assert_eq!(s.peers[0].1.status, UserStatus::DoNotDisturb);
    s.mark_peer_offline("p1");
    assert_eq!(s.peers[0].1.status, UserStatus::Offline);
    s.mark_peer_offline("ghost");
    assert_eq!(s.peers.len(), 1);
}

#[test]
fn listen_addresses_are_unique() {
    let mut s = state();
    s.add_listen_addr("/ip4/1.2.3.4/tcp/1".into());
    s.add_listen_addr("/ip4/1.2.3.4/tcp/1".into());
    s.add_listen_addr("/ip4/5.6.7.8/tcp/1".into());
    assert_eq!(s.listen_addrs.len(), 2);
    s.set_display_name("Renamed".into());
    assert_eq!(s.profile.display_name, "Renamed");
}

#[test]
fn loaded_history_is_sorted_stably() {
    let mut s = state();
    let topic = lobby_topic(&s);
    let sid = s.servers[0].id.clone();
    // saved newest first
    let saved = vec![
        chat(&sid, "general", "a", 30, "third"),
        chat(&sid, "general", "b", 10, "first-b"),
        chat(&sid, "general", "c", 20, "second"),
        chat(&sid, "general", "d", 10, "first-d"),
    ];
    s.load_messages_for_topic(&topic, Some(saved));
    let shown: Vec<String> = s.current_messages().iter().map(|m| m.content.clone()).collect();
    assert_eq!(shown, vec!["first-b", "first-d", "second", "third"]);
    // already held: a second load changes nothing
    s.load_messages_for_topic(&topic, Some(vec![chat(&sid, "general", "e", 1, "late")]));
    assert_eq!(s.current_messages().len(), 4);
}

#[test]
fn messages_to_save_are_newest_first_and_capped() {
    let mut s = state();
    let topic = lobby_topic(&s);
    let sid = s.servers[0].id.clone();
    for i in 0..1005 {
        s.add_message(chat(&sid, "general", "me-peer-id", i, &format!("m{}", i)));
    }
    let save = s.messages_to_save(&topic);
    assert_eq!(save.len(), 1000);
    assert_eq!(save[0].content, "m1004");
    assert_eq!(save[999].content, "m5");
    assert!(s.messages_to_save("none").is_empty());
}

#[test]
fn current_topic_needs_a_valid_selection() {
    let mut s = state();
    s.active_channel = Some(5);
    assert!(s.current_topic().is_none());
    assert!(s.current_messages().is_empty());
    s.active_server = None;
    assert!(s.current_topic().is_none());
}
