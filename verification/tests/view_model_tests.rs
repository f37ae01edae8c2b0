use murmur::state::store::AppState;
use murmur::types::{UserProfile, UserStatus};
use murmur::ui::view_model::{continuations, typing_text, MainHeader};

#[test]
fn runs_of_senders() {
    let senders: Vec<String> = vec!["a", "a", "b", "a", "a", "a"].into_iter().map(String::from).collect();
    assert_eq!(continuations(&senders), vec![false, true, false, false, true, true]);
    assert!(continuations(&Vec::new()).is_empty());
}

#[test]
fn typing_lines() {
    assert_eq!(typing_text(&Vec::new(), 5), None);
    let one = vec!["Alice".to_string()];
    assert_eq!(typing_text(&one, 0).as_deref(), Some("Alice is typing"));
    assert_eq!(typing_text(&one, 8).as_deref(), Some("Alice is typing."));
    assert_eq!(typing_text(&one, 31).as_deref(), Some("Alice is typing..."));
    assert_eq!(typing_text(&one, 32).as_deref(), Some("Alice is typing"));
    let two = vec!["A".to_string(), "B".to_string()];
    assert_eq!(typing_text(&two, 16).as_deref(), Some("several people are typing.."));
}

#[test]
fn headers_and_input_hints() {
    let mut s = AppState::new("me".into(), "Me".into(), None, Vec::new());
    s.peers.push(("p1".into(), UserProfile { peer_id: "p1".into(), display_name: "Alice".into(), status: UserStatus::Online }));
    match s.main_header() {
        MainHeader::Channel { name, members } => {
            assert_eq!(name, "general");
            assert_eq!(members, 2);
        }
        other => panic!("unexpected header {:?}", other),
    }
    assert_eq!(s.input_hint(), "Message #general");
    s.active_dm_peer = Some("p1".into());
    assert!(matches!(s.main_header(), MainHeader::Direct(n) if n == "Alice"));
    assert_eq!(s.input_hint(), "Message");
    s.active_dm_peer = Some("12D3KooWunknownpeer".into());
    assert!(matches!(s.main_header(), MainHeader::Direct(n) if n == "12D3KooW"));
    s.active_dm_peer = None;
    s.active_channel = Some(7);
    assert!(matches!(s.main_header(), MainHeader::SelectChannel));
    assert_eq!(s.input_hint(), "Type a message...");
    s.active_server = Some(3);
    assert!(matches!(s.main_header(), MainHeader::SelectServer));
    s.active_server = None;
    assert!(matches!(s.main_header(), MainHeader::Welcome));
}

#[test]
fn member_counts_include_us() {
    let mut s = AppState::new("me".into(), "Me".into(), None, Vec::new());
    assert_eq!(s.member_counts(), (1, 0));
    s.update_peer("a".into(), "A".into(), UserStatus::Online);
    s.update_peer("b".into(), "B".into(), UserStatus::Offline);
    s.update_peer("c".into(), "C".into(), UserStatus::Away);
    assert_eq!(s.member_counts(), (3, 1));
}
