use murmur::crypto::e2e::{E2ECrypto, EncryptedEnvelope};
use murmur::crypto::store_forward::{StoreForward, StoredMessage};
use murmur::media::sync::ClockProbeResponse;
use murmur::network::node::{bootstrap_addrs, event_for_message, ChannelPayload, CommandPlan, NetworkCore, VoiceAction};
use murmur::network::identity::Identity;
use murmur::network::NetCommand;
use murmur::types::{Channel, ChatMessage, DirectMessage, NetEvent, NetworkMessage, UserStatus, VoiceSignal, VoiceSignalType};

const ME: &str = "12D3KooWLocalPeer";
const BOB: &str = "12D3KooWBobPeerId";

fn crypto() -> E2ECrypto {
    E2ECrypto::new(None, Vec::new()).unwrap().0
}

fn node() -> NetworkCore {
    NetworkCore::new(ME.into(), "Me".into(), crypto(), StoreForward::new(Vec::new()))
}

fn stored_for(target: &str, env: EncryptedEnvelope) -> StoredMessage {
    StoredMessage { id: "m1".into(), target_peer_id: target.into(), envelope: env, topic: "t".into(), stored_at: 10, ttl: 86400, relay_hops: 3 }
}

fn signal(t: VoiceSignalType) -> VoiceSignal {
    VoiceSignal { signal_type: t, from_peer_id: BOB.into(), channel_topic: "topic".into() }
}

#[test]
fn plain_payloads_pass_through() {
    let mut n = node();
    let r = n.gossip_payload("any", b"{\"x\":1}".to_vec(), None, None);
    assert_eq!(r, Some(b"{\"x\":1}".to_vec()));
}

#[test]
fn group_payloads_are_opened_or_passed_on() {
    let mut n = node();
    let sender = crypto();
    let env = sender.encrypt_for_group("chan", b"secret").unwrap();
    let r = n.gossip_payload("chan", b"raw".to_vec(), Some(env.clone()), None);
    assert_eq!(r, Some(b"secret".to_vec()));
    // under another topic's key it does not open: the raw bytes go on
    let r = n.gossip_payload("other", b"raw".to_vec(), Some(env), None);
    assert_eq!(r, Some(b"raw".to_vec()));
}

#[test]
fn relay_for_us_is_opened_with_our_key() {
    let mut n = node();
    let mut sender = crypto();
    sender.register_peer_key(ME, n.e2e.public_key_bytes()).unwrap();
    let env = sender.encrypt_for_peer(ME, b"for me").unwrap();
    let outer = sender.encrypt_for_group("x", b"outer").unwrap();
    let r = n.gossip_payload("murmur/relay", b"raw".to_vec(), Some(outer.clone()), Some(stored_for(ME, env)));
    assert_eq!(r, Some(b"for me".to_vec()));
    // not readable by us: dropped
    let r = n.gossip_payload("murmur/relay", b"raw".to_vec(), Some(outer.clone()), Some(stored_for(ME, outer.clone())));
    assert_eq!(r, None);
    // not a relayed message at all: dropped
    let r = n.gossip_payload("murmur/relay", b"raw".to_vec(), Some(outer), None);
    assert_eq!(r, None);
}

#[test]
fn relay_for_others_is_stored_and_delivered_on_discovery() {
    let mut n = node();
    let sender = crypto();
    let env = sender.encrypt_for_group("x", b"y").unwrap();
    let r = n.gossip_payload("murmur/relay", b"raw".to_vec(), Some(env.clone()), Some(stored_for(BOB, env)));
    assert_eq!(r, None);
    assert_eq!(n.store_forward.count_for_peer(BOB), 1);
    let d = n.peer_discovered(BOB);
    assert_eq!(d.deliveries.len(), 1);
    assert_eq!(d.deliveries[0].id, "m1");
    assert_eq!(n.store_forward.count_for_peer(BOB), 0);
    match d.event {
        NetEvent::PeerDiscovered { peer_id, name } => {
            assert_eq!(peer_id, BOB);
            assert_eq!(name, "12D3KooW");
        }
        other => panic!("unexpected event {:?}", other),
    }
    assert_eq!(n.known_peers, vec![BOB.to_string()]);
    // a second discovery hands over nothing and does not list the peer twice
    let d = n.peer_discovered(BOB);
    assert!(d.deliveries.is_empty());
    n.connection_established(BOB);
    assert_eq!(n.known_peers.len(), 1);
}

#[test]
fn protocol_messages_map_to_events() {
    let m = ChatMessage::new("s".into(), "c".into(), "p".into(), "P".into(), "hi".into());
    assert!(matches!(event_for_message(NetworkMessage::Chat(m)), Some(NetEvent::MessageReceived(_))));
    assert!(matches!(
        event_for_message(NetworkMessage::Presence { peer_id: "p".into(), name: "n".into(), status: UserStatus::Away }),
        Some(NetEvent::PresenceUpdate { status: UserStatus::Away, .. })
    ));
    assert!(matches!(
        event_for_message(NetworkMessage::ServerJoin { peer_id: "p".into(), name: "n".into(), server_id: "s".into() }),
        Some(NetEvent::ServerJoined { .. })
    ));
    assert!(matches!(
        event_for_message(NetworkMessage::ChannelCreate { server_id: "s".into(), channel: Channel { id: "c".into(), name: "c".into() } }),
        Some(NetEvent::ChannelCreated { .. })
    ));
    assert!(event_for_message(NetworkMessage::Typing { peer_id: "p".into(), name: "n".into(), channel_topic: "t".into() }).is_none());
}

#[test]
fn commands_are_planned() {
    let mut n = node();
    let m = ChatMessage::new("srv".into(), "gen".into(), ME.into(), "Me".into(), "hi".into());
    match n.plan_command(NetCommand::SendMessage(m)) {
        CommandPlan::PublishToChannel { topic, message: NetworkMessage::Chat(c) } => {
            assert_eq!(topic, "murmur/server/srv/channel/gen");
            assert_eq!(c.content, "hi");
        }
        _ => panic!("a chat message is published on its channel"),
    }
    match n.plan_command(NetCommand::JoinServer("topic-1".into())) {
        CommandPlan::Subscribe { topic, announcement: NetworkMessage::ServerJoin { peer_id, name, server_id } } => {
            assert_eq!(topic, "topic-1");
            assert_eq!(peer_id, ME);
            assert_eq!(name, "Me");
            assert_eq!(server_id, "topic-1");
        }
        _ => panic!("joining subscribes and announces"),
    }
    assert!(matches!(n.plan_command(NetCommand::LeaveServer("t".into())), CommandPlan::Unsubscribe(t) if t == "t"));
    assert!(matches!(
        n.plan_command(NetCommand::UpdatePresence(UserStatus::DoNotDisturb)),
        CommandPlan::PublishPresence(NetworkMessage::Presence { status: UserStatus::DoNotDisturb, .. })
    ));
    assert!(matches!(n.plan_command(NetCommand::StartVoice("chan".into())), CommandPlan::StartVoice { voice_topic } if voice_topic == "chan/voice"));
    assert!(matches!(n.plan_command(NetCommand::StartScreenShare("chan".into())), CommandPlan::StartScreenShare));
    assert!(n.screen_share.is_active());
    assert!(matches!(n.plan_command(NetCommand::StopVoice), CommandPlan::StopVoice));
    assert!(!n.screen_share.is_active());
}

#[test]
fn channel_payloads_are_sealed() {
    let n = node();
    match n.seal_for_channel("chan", b"data".to_vec()) {
        ChannelPayload::Sealed(env) => assert_eq!(crypto().decrypt_group("chan", &env).unwrap(), b"data".to_vec()),
        ChannelPayload::Plain(_) => panic!("a short message is sealed"),
    }
}

#[test]
fn voice_signals_without_session_are_ignored() {
    let mut n = node();
    assert!(matches!(n.voice_signal(false, BOB, signal(VoiceSignalType::Join)), VoiceAction::Ignore));
}

#[test]
fn voice_signals_are_dispatched() {
    let mut n = node();
    assert!(matches!(
        n.voice_signal(true, BOB, signal(VoiceSignalType::Offer { sdp_like: b"v=0".to_vec() })),
        VoiceAction::Offer { sdp, channel_topic } if sdp == "v=0" && channel_topic == "topic"
    ));
    assert!(matches!(
        n.voice_signal(true, BOB, signal(VoiceSignalType::Offer { sdp_like: vec![0xff, 0xfe] })),
        VoiceAction::Ignore
    ));
    assert!(matches!(n.voice_signal(true, BOB, signal(VoiceSignalType::Answer { sdp_like: b"a".to_vec() })), VoiceAction::Answer { sdp } if sdp == "a"));
    assert!(matches!(n.voice_signal(true, BOB, signal(VoiceSignalType::Join)), VoiceAction::Connect { channel_topic } if channel_topic == "topic"));
    assert!(matches!(
        n.voice_signal(true, BOB, signal(VoiceSignalType::Speaking { is_speaking: true })),
        VoiceAction::Report(NetEvent::PeerSpeaking { is_speaking: true, .. })
    ));
    match n.voice_signal(true, BOB, signal(VoiceSignalType::ClockProbe { seq: 4, t1_us: 99 })) {
        VoiceAction::Reply(VoiceSignal { signal_type: VoiceSignalType::ClockProbeResponse { seq, t1_us, t2_us, t3_us }, from_peer_id, .. }) => {
            assert_eq!((seq, t1_us), (4, 99));
            assert_eq!(t2_us, t3_us);
            assert_eq!(from_peer_id, ME);
        }
        _ => panic!("a clock probe is answered"),
    }
    assert!(matches!(
        n.voice_signal(true, BOB, signal(VoiceSignalType::ClockProbeResponse { seq: 1, t1_us: 2, t2_us: 3, t3_us: 4 })),
        VoiceAction::ClockAnswer(ClockProbeResponse { seq: 1, t1_us: 2, t2_us: 3, t3_us: 4 })
    ));
    n.audio_sync.add_peer(BOB);
    assert!(matches!(n.voice_signal(true, BOB, signal(VoiceSignalType::Leave)), VoiceAction::Disconnect));
    assert!(n.audio_sync.peer_estimates(BOB).is_none());
    assert!(matches!(n.voice_signal(true, BOB, signal(VoiceSignalType::ScreenShareStart)), VoiceAction::Ignore));
}

#[test]
fn answers_and_offers_carry_the_description() {
    let n = node();
    let a = n.answer_signal("sdp-answer", "t".into());
    assert!(matches!(a.signal_type, VoiceSignalType::Answer { ref sdp_like } if sdp_like == b"sdp-answer"));
    assert_eq!(a.from_peer_id, ME);
    let o = n.offer_signal("sdp-offer", "t".into());
    assert!(matches!(o.signal_type, VoiceSignalType::Offer { ref sdp_like } if sdp_like == b"sdp-offer"));
}

#[test]
fn probes_and_speaking_go_to_every_known_peer() {
    let mut n = node();
    n.connection_established(BOB);
    n.connection_established("12D3KooWCarolPeer");
    assert!(n.clock_probes(false).is_empty());
    let probes = n.clock_probes(true);
    assert_eq!(probes.len(), 2);
    assert_eq!(probes[0].peer_id, BOB);
    assert!(matches!(probes[0].signal.signal_type, VoiceSignalType::ClockProbe { seq: 0, .. }));
    assert!(matches!(probes[1].signal.signal_type, VoiceSignalType::ClockProbe { seq: 1, .. }));
    assert_eq!(n.audio_sync.peer_estimates(BOB), Some((0, 0, 0)));
    let speaking = n.speaking_signals(true);
    assert_eq!(speaking.len(), 2);
    assert!(matches!(speaking[1].signal.signal_type, VoiceSignalType::Speaking { is_speaking: true }));
    assert_eq!(speaking[1].signal.channel_topic, "");
}

#[test]
fn listen_and_dial_events() {
    let mut n = node();
    assert!(matches!(n.listen_event("/ip4/1.2.3.4/tcp/5"), NetEvent::ListeningOn(a) if a == format!("/ip4/1.2.3.4/tcp/5/p2p/{}", ME)));
    assert!(n.dial_started(None).is_none());
    assert!(matches!(n.dial_started(Some(BOB)), Some(NetEvent::PeerDiscovered { .. })));
    let ack = n.dm_ack(BOB);
    assert_eq!(ack.id, "ack");
    assert_eq!(ack.to_peer_id, BOB);
    assert_eq!(ack.from_peer_id, ME);
    assert_eq!(ack.content, "");
}

#[test]
fn bootstrap_list_parsing() {
    let content = "# bootstrap nodes\n\n  /ip4/1.2.3.4/tcp/4001  \r\nnot an address\n/ip4/5.6.7.8/udp/9/quic-v1\n   # /ip4/9.9.9.9/tcp/1";
    let addrs = bootstrap_addrs(content);
    let texts: Vec<String> = addrs.iter().map(|a| a.to_string()).collect();
    assert_eq!(texts, vec!["/ip4/1.2.3.4/tcp/4001".to_string(), "/ip4/5.6.7.8/udp/9/quic-v1".to_string()]);
    assert!(bootstrap_addrs("").is_empty());
}

#[test]
fn identity_is_kept_or_made() {
    let (fresh, bytes) = Identity::load_or_create(None);
    let bytes = bytes.expect("a fresh identity is to be saved");
    let (loaded, again) = Identity::load_or_create(Some(bytes));
    assert!(again.is_none());
    assert_eq!(fresh.peer_id_text(), loaded.peer_id_text());
    assert_eq!(fresh.public_key_bytes(), loaded.public_key_bytes());
    assert_ne!(fresh.public_key_bytes(), [0u8; 32]);
    assert!(fresh.peer_id_text().starts_with("12D3KooW"));
    let (other, saved) = Identity::load_or_create(Some(vec![1, 2, 3]));
    assert!(saved.is_some());
    assert_ne!(other.peer_id_text(), fresh.peer_id_text());
    assert_ne!(other.public_key_bytes(), fresh.public_key_bytes());
}

#[test]
fn relay_store_request_without_envelope_is_stored() {
    let mut n = node();
    let sender = crypto();
    let env = sender.encrypt_for_group("x", b"y").unwrap();
    // a relayed message does not read as a bare envelope: it is stored all the same
    let r = n.gossip_payload("murmur/relay", b"{}".to_vec(), None, Some(stored_for(BOB, env)));
    assert_eq!(r, None);
    assert_eq!(n.store_forward.count_for_peer(BOB), 1);
    // plain data on the relay topic is passed on
    let r = n.gossip_payload("murmur/relay", b"plain".to_vec(), None, None);
    assert_eq!(r, Some(b"plain".to_vec()));
}

fn direct(to: &str, content: &str) -> DirectMessage {
    DirectMessage {
        id: "d1".into(),
        from_peer_id: ME.into(),
        from_name: "Me".into(),
        to_peer_id: to.into(),
        content: content.into(),
        timestamp: 5,
    }
}

#[test]
fn direct_messages_are_sealed_for_known_peers() {
    let mut n = node();
    let bob = NetworkCore::new(BOB.into(), "Bob".into(), crypto(), StoreForward::new(Vec::new()));
    // no key known for Bob: the message goes as it is
    match n.plan_command(NetCommand::SendDirectMessage(direct(BOB, "hello"))) {
        CommandPlan::SendDirect { to, message, sealed } => {
            // not a real libp2p peer id
            assert!(to.is_none());
            assert!(sealed.is_none());
            assert_eq!(message.content, "hello");
        }
        _ => panic!("a direct message is sent directly"),
    }
    n.e2e.register_peer_key(BOB, bob.e2e.public_key_bytes()).unwrap();
    let (message, env) = match n.plan_command(NetCommand::SendDirectMessage(direct(BOB, "hello"))) {
        CommandPlan::SendDirect { message, sealed: Some(env), .. } => (message, env),
        _ => panic!("a direct message to a known peer is sealed"),
    };
    assert_eq!(message.content, "");
    assert_eq!(message.id, "d1");
    assert_eq!(env.ciphertext.len(), "hello".len() + 16);
    assert_eq!(env.sender_pubkey, n.e2e.public_key_bytes());
    let opened = bob.open_direct(message.clone(), Some(env.clone())).expect("Bob opens it");
    assert_eq!(opened.content, "hello");
    assert_eq!(opened.id, "d1");
    // nobody else opens it
    assert!(n.open_direct(message.clone(), Some(env)).is_none());
    // a message with no envelope is taken as it is
    let plain = bob.open_direct(direct(BOB, "hi"), None).unwrap();
    assert_eq!(plain.content, "hi");
}

#[test]
fn direct_messages_go_to_the_parsed_peer_id() {
    let mut n = node();
    let (other, _) = Identity::load_or_create(None);
    let id = other.peer_id_text();
    match n.plan_command(NetCommand::SendDirectMessage(direct(&id, "x"))) {
        CommandPlan::SendDirect { to: Some(p), .. } => assert_eq!(p.to_string(), id),
        _ => panic!("a valid peer id is read"),
    }
}
