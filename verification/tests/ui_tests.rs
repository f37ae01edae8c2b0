use murmur::network::NetCommand;
use murmur::state::store::AppState;
use murmur::types::{Channel, ChatMessage, NetEvent, Server, UserStatus};
use murmur::ui::app::{ActiveModal, ContextMenuKind, Message, MurmurApp, UiEffect};

fn app() -> MurmurApp {
    let state = AppState::new("12D3KooWmypeerid".into(), "Me".into(), None, Vec::new());
    MurmurApp::new(state, None)
}

fn joins(effects: &[UiEffect]) -> Vec<String> {
    effects
        .iter()
        .filter_map(|e| match e {
            UiEffect::Send(NetCommand::JoinServer(t)) => Some(t.clone()),
            _ => None,
        })
        .collect()
}

#[test]
fn new_and_title() {
    let a = app();
    assert_eq!(a.modal, ActiveModal::Closed);
    assert!(!a.connected);
    assert_eq!(a.title(), "murmur - Me [12D3KooW]");
    let state = AppState::new("abc".into(), "X".into(), None, Vec::new());
    let b = MurmurApp::new(state, Some("settings".into()));
    assert_eq!(b.modal, ActiveModal::Settings);
    assert!(b.connected);
    assert_eq!(b.title(), "murmur - X [abc]");
    let state = AppState::new("abc".into(), "X".into(), None, Vec::new());
    let c = MurmurApp::new(state, Some("create-server".into()));
    assert_eq!(c.modal, ActiveModal::CreateServer);
    let state = AppState::new("abc".into(), "X".into(), None, Vec::new());
    let d = MurmurApp::new(state, Some("voice".into()));
    assert_eq!(d.modal, ActiveModal::Closed);
}

#[test]
fn sending_to_a_channel() {
    let mut a = app();
    let topic = a.state.current_topic().unwrap();
    a.update(Message::InputChanged("  hello world  ".into()));
    let effects = a.update(Message::SendMessage);
    assert_eq!(effects.len(), 2);
    assert!(matches!(&effects[0], UiEffect::SaveMessages(t) if *t == topic));
    match &effects[1] {
        UiEffect::Send(NetCommand::SendMessage(m)) => {
            assert_eq!(m.content, "hello world");
            assert_eq!(m.sender_peer_id, "12D3KooWmypeerid");
            assert_eq!(m.sender_name, "Me");
            assert_eq!(m.topic(), topic);
        }
        other => panic!("unexpected effect {:?}", other),
    }
    assert_eq!(a.state.input_buffer, "");
    assert_eq!(a.state.current_messages().len(), 1);
    assert_eq!(a.state.total_unread, 0);
}

#[test]
fn blank_input_does_nothing() {
    let mut a = app();
    a.update(Message::InputChanged("   ".into()));
    let effects = a.update(Message::SendMessage);
    assert!(effects.is_empty());
    assert_eq!(a.state.input_buffer, "   ");
}

#[test]
fn sending_a_direct_message() {
    let mut a = app();
    a.update(Message::SelectDM("alice".into()));
    a.update(Message::InputChanged("psst".into()));
    let effects = a.update(Message::SendMessage);
    match &effects[0] {
        UiEffect::Send(NetCommand::SendDirectMessage(dm)) => {
            assert_eq!(dm.to_peer_id, "alice");
            assert_eq!(dm.from_peer_id, "12D3KooWmypeerid");
            assert_eq!(dm.content, "psst");
            assert_eq!(dm.id.len(), 36);
        }
        other => panic!("unexpected effect {:?}", other),
    }
    assert_eq!(a.state.current_dm_messages().len(), 1);
}

#[test]
fn name_and_status_commands() {
    let mut a = app();
    a.update(Message::InputChanged("/name New Name".into()));
    let effects = a.update(Message::SendMessage);
    assert_eq!(a.state.profile.display_name, "New Name");
    assert!(matches!(
        effects.as_slice(),
        [UiEffect::SaveDisplayName, UiEffect::Send(NetCommand::UpdatePresence(UserStatus::Online))]
    ));
    assert_eq!(a.state.input_buffer, "");

    a.update(Message::InputChanged("/status AWAY".into()));
    let effects = a.update(Message::SendMessage);
    assert_eq!(a.state.profile.status, UserStatus::Away);
    assert!(matches!(effects.as_slice(), [UiEffect::Send(NetCommand::UpdatePresence(UserStatus::Away))]));

    a.handle_command("/status dnd");
    assert_eq!(a.state.profile.status, UserStatus::DoNotDisturb);
    a.handle_command("/status whatever");
    assert_eq!(a.state.profile.status, UserStatus::Online);
}

#[test]
fn unknown_or_incomplete_commands_only_clear() {
    let mut a = app();
    a.state.input_buffer = "typed".into();
    let effects = a.handle_command("/name");
    assert!(effects.is_empty());
    assert_eq!(a.state.profile.display_name, "Me");
    assert_eq!(a.state.input_buffer, "");
    assert!(a.handle_command("/frobnicate now").is_empty());
    assert!(a.handle_command("/connect not-an-address").is_empty());
    let effects = a.handle_command("/connect /ip4/127.0.0.1/tcp/4001");
    match effects.as_slice() {
        [UiEffect::Send(NetCommand::Dial(addr))] => assert_eq!(addr.to_string(), "/ip4/127.0.0.1/tcp/4001"),
        _ => panic!("/connect dials the address given"),
    }
}

#[test]
fn create_and_join_server_dialogs() {
    let mut a = app();
    a.update(Message::CreateServer);
    assert_eq!(a.modal, ActiveModal::CreateServer);
    a.update(Message::ServerNameInput("  rust-dev ".into()));
    let effects = a.update(Message::ConfirmModal);
    assert_eq!(a.modal, ActiveModal::Closed);
    assert_eq!(a.state.servers.len(), 2);
    let server = &a.state.servers[1];
    assert_eq!(server.name, "rust-dev");
    assert_eq!(joins(&effects), vec![server.topic_for_channel("general")]);
    assert!(matches!(effects[0], UiEffect::SaveServers));
    // joining the same server again adds nothing but still joins
    a.update(Message::JoinServer);
    a.update(Message::ServerNameInput("rust-dev".into()));
    let effects = a.update(Message::ConfirmModal);
    assert_eq!(a.state.servers.len(), 2);
    assert_eq!(effects.len(), 1);
}

#[test]
fn blank_dialog_input_just_closes() {
    let mut a = app();
    a.update(Message::CreateServer);
    a.update(Message::ServerNameInput("   ".into()));
    let effects = a.update(Message::ConfirmModal);
    assert!(effects.is_empty());
    assert_eq!(a.modal, ActiveModal::Closed);
    assert_eq!(a.state.servers.len(), 1);
}

#[test]
fn create_channel_dialog() {
    let mut a = app();
    a.update(Message::CreateChannel);
    a.update(Message::ChannelNameInput("Off Topic Chat".into()));
    let effects = a.update(Message::ConfirmModal);
    let sid = a.state.servers[0].id.clone();
    assert_eq!(a.state.servers[0].channels.len(), 2);
    assert_eq!(a.state.servers[0].channels[1].id, "off-topic-chat");
    assert_eq!(a.state.servers[0].channels[1].name, "Off Topic Chat");
    assert!(matches!(effects[0], UiEffect::SaveServers));
    match &effects[1] {
        UiEffect::Send(NetCommand::CreateChannel { server_id, channel }) => {
            assert_eq!(server_id, &sid);
            assert_eq!(channel.id, "off-topic-chat");
        }
        other => panic!("unexpected effect {:?}", other),
    }
}

#[test]
fn display_name_dialog() {
    let mut a = app();
    a.update(Message::ChangeDisplayName);
    assert_eq!(a.modal, ActiveModal::ChangeDisplayName);
    assert_eq!(a.modal_input, "Me");
    a.update(Message::DisplayNameInput(" Zed ".into()));
    let effects = a.update(Message::ConfirmModal);
    assert_eq!(a.state.profile.display_name, "Zed");
    assert!(matches!(
        effects.as_slice(),
        [UiEffect::SaveDisplayName, UiEffect::Send(NetCommand::UpdatePresence(UserStatus::Online))]
    ));
}

#[test]
fn connect_dialog() {
    let mut a = app();
    a.update(Message::ConnectToPeer);
    a.update(Message::ConnectAddrInput("/ip4/10.0.0.1/tcp/4001".into()));
    let effects = a.update(Message::ConfirmModal);
    match effects.as_slice() {
        [UiEffect::Send(NetCommand::Dial(addr))] => assert_eq!(addr.to_string(), "/ip4/10.0.0.1/tcp/4001"),
        _ => panic!("the dialog dials the address typed"),
    }
    a.update(Message::ConnectToPeer);
    a.update(Message::ConnectAddrInput("garbage".into()));
    assert!(a.update(Message::ConfirmModal).is_empty());
}

#[test]
fn voice_toggles() {
    let mut a = app();
    let topic = a.state.current_topic().unwrap();
    let effects = a.update(Message::ToggleVoice);
    assert!(a.state.voice_active);
    assert_eq!(a.state.voice_channel_name.as_deref(), Some("general"));
    assert!(matches!(effects.as_slice(), [UiEffect::Send(NetCommand::StartVoice(t))] if *t == topic));
    a.update(Message::ToggleDeafen);
    assert!(a.state.voice_deafened && a.state.voice_muted);
    a.update(Message::ToggleDeafen);
    assert!(!a.state.voice_deafened && a.state.voice_muted);
    a.update(Message::ToggleMute);
    assert!(!a.state.voice_muted);
    let effects = a.update(Message::ToggleScreenShare);
    assert!(a.state.screen_sharing);
    assert!(matches!(effects.as_slice(), [UiEffect::Send(NetCommand::StartScreenShare(_))]));
    let effects = a.update(Message::ToggleVoice);
    assert!(!a.state.voice_active && !a.state.screen_sharing && !a.state.voice_muted);
    assert!(a.state.voice_channel_name.is_none());
    assert!(matches!(effects.as_slice(), [UiEffect::Send(NetCommand::StopVoice)]));
}

#[test]
fn context_menu_is_dismissed_by_other_actions() {
    let mut a = app();
    a.update(Message::OpenContextMenu(ContextMenuKind::Server(0)));
    assert!(a.context_menu.is_some());
    a.update(Message::Noop);
    assert!(a.context_menu.is_none());
    a.update(Message::OpenContextMenu(ContextMenuKind::Member("p".into())));
    a.update(Message::CloseContextMenu);
    assert!(a.context_menu.is_none());
}

#[test]
fn selecting_joins_the_channel() {
    let mut a = app();
    a.state.add_server(Server::new("second".into()));
    let effects = a.update(Message::SelectServer(1));
    assert_eq!(a.state.active_server, Some(1));
    assert_eq!(a.state.active_channel, Some(0));
    assert_eq!(joins(&effects), vec![a.state.servers[1].topic_for_channel("general")]);
    let effects = a.update(Message::SelectChannel(3));
    assert!(effects.is_empty());
    let effects = a.update(Message::SelectServer(9));
    assert!(effects.is_empty());
}

#[test]
fn leaving_and_deleting_servers() {
    let mut a = app();
    a.state.add_server(Server::new("second".into()));
    let sid = a.state.servers[1].id.clone();
    a.state.add_channel_to_server(&sid, Channel { id: "x".into(), name: "x".into() });
    a.update(Message::SelectServer(1));
    let effects = a.update(Message::LeaveServer(1));
    let left: Vec<String> = effects
        .iter()
        .filter_map(|e| match e {
            UiEffect::Send(NetCommand::LeaveServer(t)) => Some(t.clone()),
            _ => None,
        })
        .collect();
    assert_eq!(left.len(), 2);
    assert!(left[1].ends_with("/channel/x"));
    assert_eq!(a.state.servers.len(), 1);
    assert_eq!(a.state.active_server, Some(0));
    a.update(Message::DeleteServer(5));
    assert_eq!(a.state.servers.len(), 1);
    a.update(Message::DeleteServer(0));
    assert!(a.state.servers.is_empty());
    assert_eq!(a.state.active_server, None);
    assert_eq!(a.state.active_channel, Some(0));
}

#[test]
fn network_events_update_the_state() {
    let mut a = app();
    let sid = a.state.servers[0].id.clone();
    let effects = a.update(Message::NetEvent(NetEvent::Connected));
    assert!(a.connected);
    assert_eq!(joins(&effects), vec![a.state.servers[0].topic_for_channel("general")]);
    a.update(Message::NetEvent(NetEvent::PeerDiscovered { peer_id: "p1".into(), name: "p1short".into() }));
    let effects = a.update(Message::NetEvent(NetEvent::PresenceUpdate { peer_id: "p1".into(), name: "Alice".into(), status: UserStatus::Away }));
    assert!(matches!(effects.as_slice(), [UiEffect::SavePeers]));
    assert_eq!(a.state.peers[0].1.display_name, "Alice");
    a.update(Message::NetEvent(NetEvent::PeerLeft("p1".into())));
    assert_eq!(a.state.peers[0].1.status, UserStatus::Offline);
    let effects = a.update(Message::NetEvent(NetEvent::ChannelCreated { server_id: sid.clone(), channel: Channel { id: "new".into(), name: "new".into() } }));
    assert_eq!(a.state.servers[0].channels.len(), 2);
    assert!(matches!(effects.as_slice(), [UiEffect::SaveServers]));
    let effects = a.update(Message::NetEvent(NetEvent::ChannelCreated { server_id: sid.clone(), channel: Channel { id: "new".into(), name: "again".into() } }));
    assert!(effects.is_empty());
    a.update(Message::NetEvent(NetEvent::ListeningOn("/ip4/1.2.3.4/tcp/1/p2p/x".into())));
    assert_eq!(a.state.listen_addrs.len(), 1);
    let mut m = ChatMessage::new(sid.clone(), "new".into(), "p1".into(), "Alice".into(), "hey".into());
    m.timestamp = 5;
    let effects = a.update(Message::NetEvent(NetEvent::MessageReceived(m)));
    assert_eq!(a.state.total_unread, 1);
    assert!(matches!(effects.as_slice(), [UiEffect::SaveMessages(t)] if t.ends_with("/channel/new")));
    let effects = a.update(Message::NetEvent(NetEvent::Error("boom".into())));
    assert!(matches!(effects.as_slice(), [UiEffect::ReportError(e)] if e == "boom"));
    let effects = a.update(Message::NetEvent(NetEvent::PeerTyping { peer_id: "p1".into(), name: "A".into() }));
    assert!(effects.is_empty());
}

#[test]
fn ticks_and_clipboard() {
    let mut a = app();
    let effects = a.update(Message::Tick);
    assert!(matches!(effects.as_slice(), [UiEffect::Send(NetCommand::UpdatePresence(UserStatus::Online))]));
    a.update(Message::SetStatus(UserStatus::Away));
    assert_eq!(a.state.profile.status, UserStatus::Away);
    a.anim_tick = u64::MAX;
    a.update(Message::AnimTick);
    assert_eq!(a.anim_tick, 0);
    let effects = a.update(Message::CopyToClipboard("addr".into()));
    assert!(matches!(effects.as_slice(), [UiEffect::CopyToClipboard(t)] if t == "addr"));
    let effects = a.update(Message::OpenSettings);
    assert_eq!(a.modal, ActiveModal::Settings);
    assert!(matches!(effects.as_slice(), [UiEffect::ListAudioDevices]));
    a.update(Message::CloseModal);
    assert_eq!(a.modal, ActiveModal::Closed);
}
