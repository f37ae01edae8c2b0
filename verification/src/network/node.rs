//! The decisions of a node of the network: what an incoming gossip payload
//! holds, which relayed messages a newly found peer is handed, how voice
//! signals are answered, and what each command of the interface publishes.
//! The transport (libp2p), the voice engine and the encoding of messages
//! are driven by the caller, which hands the results in.
use vstd::prelude::*;
use vstd::utf8::{encode_utf8, decode_utf8, valid_utf8, is_char_boundary};
use crate::types::{
    ChatMessage, DirectMessage, NetworkMessage, NetEvent, VoiceSignal, VoiceSignalType, UserStatus,
    short_peer_id, short_peer_id_of, topic_of, split_on, lemma_split_on_len,
};
use crate::network::{NetCommand, parse_multiaddr, multiaddr_parses, multiaddr_of, parse_peer_id, peer_id_parses};
use crate::media::sync::{ClockProbe, ClockProbeResponse, alignment_for};
use crate::codec::now_unix_micros;
use crate::crypto::e2e::{E2ECrypto, EncryptedEnvelope, open_envelope, group_open, is_peer_envelope};
use crate::crypto::primitives::aes_gcm_max_plaintext;
use crate::crypto::store_forward::{StoreForward, StoredMessage, PullRequest, store_post, select, has_id, lemma_store_then_pull};
use crate::media::sync::AudioSync;
use crate::media::screen::ScreenShare;
use crate::text::{views, str_eq, contains_str, chars_of, string_from_chars, string_from_utf8, trim, trim_spec};

verus! {

/// The gossip topic on which messages for offline peers are relayed.
pub open spec fn relay_topic() -> Seq<char> {
    seq!['m', 'u', 'r', 'm', 'u', 'r', '/', 'r', 'e', 'l', 'a', 'y']
}

/// The state behind a node's decisions.
pub struct NetworkCore {
    /// Our peer id, in its text form.
    pub local_peer_id: String,
    pub display_name: String,
    pub e2e: E2ECrypto,
    /// Messages held for offline peers.
    pub store_forward: StoreForward,
    pub audio_sync: AudioSync,
    pub screen_share: ScreenShare,
    /// Peers found or connected to, each once.
    pub known_peers: Vec<String>,
}

/// A newly found peer: the relayed messages to hand it, and the event for
/// the interface.
pub struct Discovery {
    pub deliveries: Vec<StoredMessage>,
    pub event: NetEvent,
}

/// `b` is `a` with `peer` among the known peers (appended when new), and
/// nothing else changed.
pub open spec fn peer_known(a: NetworkCore, peer: Seq<char>, b: NetworkCore) -> bool {
    &&& views(b.known_peers@) == if views(a.known_peers@).contains(peer) {
        views(a.known_peers@)
    } else {
        views(a.known_peers@).push(peer)
    }
    &&& b == (NetworkCore { known_peers: b.known_peers, ..a })
}

/// `e` reports that the peer `peer` was found, under its short id.
pub open spec fn is_discovery_event(e: NetEvent, peer: Seq<char>) -> bool {
    match e {
        NetEvent::PeerDiscovered { peer_id, name } => peer_id@ == peer && name@ == short_peer_id(peer),
        _ => false,
    }
}

/// What a gossip payload on `topic` holds, given what the caller could read
/// of its bytes `data` as an envelope and as a relayed message. On the relay
/// topic a relayed message for us is opened with our key (and dropped if it
/// does not open), and one for another peer is stored for it and dropped;
/// other data there is passed on when it is no envelope, and dropped when it
/// is one. On other topics an envelope is opened with the topic's group key,
/// the raw data being passed on if it does not open, and plain data is
/// passed on.
pub open spec fn gossip_done(
    a: NetworkCore,
    topic: Seq<char>,
    data: Seq<u8>,
    envelope: Option<EncryptedEnvelope>,
    stored: Option<StoredMessage>,
    b: NetworkCore,
    r: Option<Vec<u8>>,
) -> bool {
    if topic == relay_topic() {
        match stored {
            None => {
                &&& b == a
                &&& match envelope {
                    None => r matches Some(v) && v@ == data,
                    Some(_) => r is None,
                }
            },
            Some(st) => if st.target_peer_id@ == a.local_peer_id@ {
                &&& b == a
                &&& match open_envelope(a.e2e.secret(), st.envelope) {
                    Some(p) => r matches Some(v) && v@ == p,
                    None => r is None,
                }
            } else {
                &&& r is None
                &&& b == (NetworkCore { store_forward: b.store_forward, ..a })
                &&& exists|now: i64, held: bool| store_post(a.store_forward, b.store_forward, st, now, held)
            },
        }
    } else {
        &&& b == a
        &&& match envelope {
            None => r matches Some(v) && v@ == data,
            Some(env) => match group_open(topic, env) {
                Some(p) => r matches Some(v) && v@ == p,
                None => r matches Some(v) && v@ == data,
            },
        }
    }
}

/// The event a protocol message reports to the interface, if any.
pub open spec fn message_event(msg: NetworkMessage) -> Option<NetEvent> {
    match msg {
        NetworkMessage::Chat(m) => Some(NetEvent::MessageReceived(m)),
        NetworkMessage::Presence { peer_id, name, status } => Some(NetEvent::PresenceUpdate { peer_id, name, status }),
        NetworkMessage::ServerJoin { peer_id, name, server_id } => Some(NetEvent::ServerJoined { peer_id, name, server_id }),
        NetworkMessage::ChannelCreate { server_id, channel } => Some(NetEvent::ChannelCreated { server_id, channel }),
        _ => None,
    }
}

/// A presence announcement is reported with the announcing peer's own id,
/// name and status: the event's peer id is the message's peer id, its name
/// the message's name, and its status the message's status.
pub proof fn lemma_presence_event(peer_id: String, name: String, status: UserStatus)
    ensures
        message_event(NetworkMessage::Presence { peer_id, name, status }) matches Some(e)
            && e is PresenceUpdate,
        message_event(NetworkMessage::Presence { peer_id, name, status })->0->PresenceUpdate_peer_id == peer_id,
        message_event(NetworkMessage::Presence { peer_id, name, status })->0->PresenceUpdate_name == name,
        message_event(NetworkMessage::Presence { peer_id, name, status })->0->PresenceUpdate_status == status,
{
}

/// A join announcement is reported with the joining peer's own id and name
/// and the server joined; a chat message is reported as it is; a channel
/// announcement with its server and channel. No other protocol message is
/// reported.
pub proof fn lemma_message_events(msg: NetworkMessage)
    ensures
        msg is Chat ==> message_event(msg) == Some(NetEvent::MessageReceived(msg->Chat_0)),
        msg is ServerJoin ==> message_event(msg) == Some(NetEvent::ServerJoined {
            peer_id: msg->ServerJoin_peer_id,
            name: msg->ServerJoin_name,
            server_id: msg->ServerJoin_server_id,
        }),
        msg is ChannelCreate ==> message_event(msg) == Some(NetEvent::ChannelCreated {
            server_id: msg->ChannelCreate_server_id,
            channel: msg->ChannelCreate_channel,
        }),
        !(msg is Chat || msg is Presence || msg is ServerJoin || msg is ChannelCreate) ==> message_event(msg) is None,
{
}

/// The event for a protocol message read from a gossip payload (see
/// `message_event`).
pub fn event_for_message(msg: NetworkMessage) -> (r: Option<NetEvent>)
    ensures
        r == message_event(msg),
        msg is Chat ==> r == Some(NetEvent::MessageReceived(msg->Chat_0)),
        msg is Presence ==> r == Some(NetEvent::PresenceUpdate {
            peer_id: msg->Presence_peer_id,
            name: msg->Presence_name,
            status: msg->Presence_status,
        }),
        msg is ServerJoin ==> r == Some(NetEvent::ServerJoined {
            peer_id: msg->ServerJoin_peer_id,
            name: msg->ServerJoin_name,
            server_id: msg->ServerJoin_server_id,
        }),
        msg is ChannelCreate ==> r == Some(NetEvent::ChannelCreated {
            server_id: msg->ChannelCreate_server_id,
            channel: msg->ChannelCreate_channel,
        }),
        !(msg is Chat || msg is Presence || msg is ServerJoin || msg is ChannelCreate) ==> r is None,
{
    match msg {
        NetworkMessage::Chat(m) => Some(NetEvent::MessageReceived(m)),
        NetworkMessage::Presence { peer_id, name, status } => Some(NetEvent::PresenceUpdate { peer_id, name, status }),
        NetworkMessage::ServerJoin { peer_id, name, server_id } => Some(NetEvent::ServerJoined { peer_id, name, server_id }),
        NetworkMessage::ChannelCreate { server_id, channel } => Some(NetEvent::ChannelCreated { server_id, channel }),
        _ => None,
    }
}

impl NetworkCore {
    /// Whether the known peers are listed once each.
    pub open spec fn wf(self) -> bool {
        views(self.known_peers@).no_duplicates()
    }

    /// A node with our peer id and name, its encryption state and relay
    /// store; no peers known yet, no clock state and no screen share.
    pub fn new(local_peer_id: String, display_name: String, e2e: E2ECrypto, store_forward: StoreForward) -> (r: Self)
        ensures
            r.wf(),
            r.local_peer_id == local_peer_id,
            r.display_name == display_name,
            r.e2e == e2e,
            r.store_forward == store_forward,
            r.known_peers@.len() == 0,
            !r.screen_share.active_spec(),
    {
        NetworkCore {
            local_peer_id,
            display_name,
            e2e,
            store_forward,
            audio_sync: AudioSync::new(),
            screen_share: ScreenShare::new(),
            known_peers: Vec::new(),
        }
    }

    /// Adds a peer to the known peers unless listed.
    fn remember_peer(&mut self, peer: &str)
        requires
            old(self).wf(),
        ensures
            final(self).wf(),
            peer_known(*old(self), peer@, *final(self)),
    {
        if !contains_str(&self.known_peers, peer) {
            let ghost before = views(self.known_peers@);
            self.known_peers.push(peer.to_owned());
            proof {
                assert(views(self.known_peers@) =~= before.push(peer@));
                assert forall|i: int, j: int| 0 <= i < j < views(self.known_peers@).len()
                    implies views(self.known_peers@)[i] != views(self.known_peers@)[j] by {
                    if j == before.len() {
                        assert(before[i] == views(self.known_peers@)[i]);
                    }
                }
            }
        }
    }

    /// What a gossip payload on `topic` holds (see `gossip_done`); `None`
    /// when it is dropped.
    pub fn gossip_payload(
        &mut self,
        topic: &str,
        data: Vec<u8>,
        envelope: Option<EncryptedEnvelope>,
        stored: Option<StoredMessage>,
    ) -> (r: Option<Vec<u8>>)
        ensures
            gossip_done(*old(self), topic@, data@, envelope, stored, *final(self), r),
    {
        proof {
            reveal_strlit("murmur/relay");
            assert("murmur/relay"@ =~= relay_topic());
        }
        if str_eq(topic, "murmur/relay") {
            match stored {
                None => match envelope {
                    None => Some(data),
                    Some(_) => None,
                },
                Some(st) => {
                    if str_eq(st.target_peer_id.as_str(), self.local_peer_id.as_str()) {
                        match self.e2e.decrypt_envelope(&st.envelope) {
                            Ok(plaintext) => Some(plaintext),
                            Err(_) => None,
                        }
                    } else {
                        let held = self.store_forward.store_message(st);
                        None
                    }
                },
            }
        } else {
            match envelope {
                None => Some(data),
                Some(env) => match self.e2e.decrypt_group(topic, &env) {
                    Ok(plaintext) => Some(plaintext),
                    Err(_) => Some(data),
                },
            }
        }
    }

    /// A peer found on the local network: it becomes known, and the messages
    /// held for it that were stored at or after time 0 are handed over (and
    /// dropped from the store) when any are held for it.
    pub fn peer_discovered(&mut self, peer_id: &str) -> (r: Discovery)
        requires
            old(self).wf(),
            encode_utf8(peer_id@).len() <= usize::MAX,
            encode_utf8(peer_id@).len() >= 8,
            is_char_boundary(encode_utf8(peer_id@), 8),
        ensures
            final(self).wf(),
            is_discovery_event(r.event, peer_id@),
            ({
                let mid = NetworkCore { store_forward: old(self).store_forward, ..*final(self) };
                &&& peer_known(*old(self), peer_id@, mid)
                &&& r.deliveries@ == select(old(self).store_forward.messages_for(peer_id@), 0, Seq::empty(), true)
                &&& final(self).store_forward.messages_for(peer_id@) == select(
                    old(self).store_forward.messages_for(peer_id@),
                    0,
                    Seq::empty(),
                    false,
                )
                &&& forall|k: Seq<char>| k != peer_id@ ==> #[trigger] final(self).store_forward.messages_for(k)
                    == old(self).store_forward.messages_for(k)
            }),
    {
        self.remember_peer(peer_id);
        let deliveries = if self.store_forward.count_for_peer(peer_id) > 0 {
            let request = PullRequest { peer_id: peer_id.to_owned(), since: 0, topics: Vec::new() };
            assert(views(request.topics@) =~= Seq::<Seq<char>>::empty());
            self.store_forward.pull_messages(&request).messages
        } else {
            assert(select(Seq::<StoredMessage>::empty(), 0, Seq::empty(), true) =~= Seq::<StoredMessage>::empty());
            assert(select(Seq::<StoredMessage>::empty(), 0, Seq::empty(), false) =~= Seq::<StoredMessage>::empty());
            assert(self.store_forward.messages_for(peer_id@) =~= Seq::<StoredMessage>::empty());
            Vec::new()
        };
        let event = NetEvent::PeerDiscovered { peer_id: peer_id.to_owned(), name: short_peer_id_of(peer_id) };
        Discovery { deliveries, event }
    }

    /// A connection established with a peer: it becomes known, and is
    /// reported as found.
    pub fn connection_established(&mut self, peer_id: &str) -> (r: NetEvent)
        requires
            old(self).wf(),
            encode_utf8(peer_id@).len() <= usize::MAX,
            encode_utf8(peer_id@).len() >= 8,
            is_char_boundary(encode_utf8(peer_id@), 8),
        ensures
            final(self).wf(),
            peer_known(*old(self), peer_id@, *final(self)),
            is_discovery_event(r, peer_id@),
    {
        self.remember_peer(peer_id);
        NetEvent::PeerDiscovered { peer_id: peer_id.to_owned(), name: short_peer_id_of(peer_id) }
    }
}

/// What the caller does for a command of the interface.
pub enum CommandPlan {
    /// Publish `message` on the channel topic `topic`, sealed with the
    /// topic's group key when that succeeds (see `NetworkCore::seal_for_channel`).
    PublishToChannel { topic: String, message: NetworkMessage },
    /// Send a direct message to the peer it is addressed to, `to`, read from
    /// its text; nothing is sent when that does not read as a peer id. When
    /// `sealed` holds an envelope, it is the message's content encrypted for
    /// the peer, and the caller sends it in place of the content, which is
    /// left empty (see `direct_planned`).
    SendDirect { to: Option<libp2p::PeerId>, message: DirectMessage, sealed: Option<EncryptedEnvelope> },
    /// Subscribe to `topic`, then publish `announcement` on the presence topic.
    Subscribe { topic: String, announcement: NetworkMessage },
    /// Unsubscribe from a topic.
    Unsubscribe(String),
    /// Publish a message on the presence topic.
    PublishPresence(NetworkMessage),
    /// Dial an address.
    Dial(libp2p::Multiaddr),
    /// Subscribe to the channel's voice topic and start the voice engine.
    StartVoice { voice_topic: String },
    /// Stop the voice engine.
    StopVoice,
    /// Start capturing the screen.
    StartScreenShare,
    /// Stop capturing the screen.
    StopScreenShare,
}

/// What a channel message is published as.
pub enum ChannelPayload {
    /// Sealed with the channel's group key.
    Sealed(EncryptedEnvelope),
    /// As it is, when sealing failed.
    Plain(Vec<u8>),
}

/// What the caller does for a voice signal from a peer.
pub enum VoiceAction {
    /// Nothing.
    Ignore,
    /// Hand the peer's offer to the voice engine, and answer with
    /// `NetworkCore::answer_signal` for the description it returns.
    Offer { sdp: String, channel_topic: String },
    /// Hand the peer's answer to the voice engine.
    Answer { sdp: String },
    /// Hand the peer's ICE candidate to the voice engine.
    IceCandidate { candidate: String },
    /// Connect the voice engine to the peer, and send it
    /// `NetworkCore::offer_signal` for the description it returns.
    Connect { channel_topic: String },
    /// Disconnect the peer from the voice engine.
    Disconnect,
    /// Report an event to the interface.
    Report(NetEvent),
    /// Send this signal back to the peer.
    Reply(VoiceSignal),
    /// Take in the peer's answer to our clock probe
    /// (`AudioSync::handle_probe_response_at`).
    ClockAnswer(ClockProbeResponse),
}

/// A signal to send to a peer.
pub struct Outgoing {
    pub peer_id: String,
    pub signal: VoiceSignal,
}

/// The voice topic of a channel topic.
pub open spec fn voice_topic_of(topic: Seq<char>) -> Seq<char> {
    topic + seq!['/', 'v', 'o', 'i', 'c', 'e']
}

/// How a direct message is sent: to the peer id read from its addressee's
/// text, if it reads as one. When a key is known for the peer it is
/// addressed to, its content (as UTF-8) is sealed for that peer with a fresh
/// ephemeral key, bound to our long-term key, and the message goes with its
/// content emptied; when no key is known, or the content is too long for
/// AES-GCM, it goes as it is.
pub open spec fn direct_planned(a: NetworkCore, m: DirectMessage, r: CommandPlan) -> bool {
    match r {
        CommandPlan::SendDirect { to, message, sealed } => (to is Some <==> peer_id_parses(m.to_peer_id@)) && match a.e2e.peer_key(m.to_peer_id@) {
            Some(k) => if encode_utf8(m.content@).len() <= aes_gcm_max_plaintext() {
                &&& sealed matches Some(env)
                &&& is_peer_envelope(sealed->0, a.e2e.secret(), k, encode_utf8(m.content@))
                &&& message == DirectMessage { content: message.content, ..m }
                &&& message.content@.len() == 0
            } else {
                sealed is None && message == m
            },
            None => sealed is None && message == m,
        },
        _ => false,
    }
}

/// What the caller does for a command, and what it does to the node: the
/// screen share is recorded as started or stopped (stopping voice stops it
/// too); nothing else changes.
pub open spec fn command_planned(a: NetworkCore, cmd: NetCommand, b: NetworkCore, r: CommandPlan) -> bool {
    match cmd {
        NetCommand::SendMessage(m) => {
            &&& b == a
            &&& r matches CommandPlan::PublishToChannel { topic, message }
            &&& topic@ == topic_of(m.server_id@, m.channel_id@)
            &&& message == NetworkMessage::Chat(m)
        },
        NetCommand::SendDirectMessage(m) => b == a && direct_planned(a, m, r),
        NetCommand::JoinServer(t) => {
            &&& b == a
            &&& r == CommandPlan::Subscribe {
                topic: t,
                announcement: NetworkMessage::ServerJoin {
                    peer_id: a.local_peer_id,
                    name: a.display_name,
                    server_id: t,
                },
            }
        },
        NetCommand::LeaveServer(t) => b == a && r == CommandPlan::Unsubscribe(t),
        NetCommand::CreateChannel { server_id, channel } => {
            &&& b == a
            &&& r == CommandPlan::PublishPresence(NetworkMessage::ChannelCreate { server_id, channel })
        },
        NetCommand::UpdatePresence(status) => {
            &&& b == a
            &&& r == CommandPlan::PublishPresence(
                NetworkMessage::Presence { peer_id: a.local_peer_id, name: a.display_name, status },
            )
        },
        NetCommand::Dial(addr) => b == a && r == CommandPlan::Dial(addr),
        NetCommand::StartVoice(t) => {
            &&& b == a
            &&& r matches CommandPlan::StartVoice { voice_topic }
            &&& voice_topic@ == voice_topic_of(t@)
        },
        NetCommand::StopVoice => {
            &&& b == (NetworkCore { screen_share: b.screen_share, ..a })
            &&& !b.screen_share.active_spec()
            &&& b.screen_share.dimensions_spec() == a.screen_share.dimensions_spec()
            &&& r is StopVoice
        },
        NetCommand::StartScreenShare(t) => {
            &&& b == (NetworkCore { screen_share: b.screen_share, ..a })
            &&& b.screen_share.active_spec()
            &&& b.screen_share.dimensions_spec() == (1920u32, 1080u32)
            &&& r is StartScreenShare
        },
        NetCommand::StopScreenShare => {
            &&& b == (NetworkCore { screen_share: b.screen_share, ..a })
            &&& !b.screen_share.active_spec()
            &&& b.screen_share.dimensions_spec() == a.screen_share.dimensions_spec()
            &&& r is StopScreenShare
        },
    }
}

/// A description carried as bytes, if they are UTF-8.
pub open spec fn sdp_text(bytes: Seq<u8>) -> Option<Seq<char>> {
    if valid_utf8(bytes) { Some(decode_utf8(bytes)) } else { None }
}

/// What each voice signal calls for: nothing without a running session; a
/// peer's ICE candidate is handed to the voice engine as it came; a joining
/// peer is connected to in the signal's channel; an offer or answer is
/// handed over as the text of its description, when that is UTF-8; a
/// speaking flag is reported for the peer it came from; a leaving peer is
/// disconnected and its clock state dropped. Only a leave changes the node.
pub proof fn lemma_voice_actions(a: NetworkCore, running: bool, peer: Seq<char>, signal: VoiceSignal, b: NetworkCore, r: VoiceAction)
    requires
        voice_decided(a, running, peer, signal, b, r),
    ensures
        !running ==> r is Ignore && b == a,
        running && signal.signal_type is IceCandidate ==> b == a
            && r == (VoiceAction::IceCandidate { candidate: signal.signal_type->IceCandidate_candidate }),
        running && signal.signal_type is Join ==> b == a
            && r == (VoiceAction::Connect { channel_topic: signal.channel_topic }),
        running && signal.signal_type is Offer && valid_utf8(signal.signal_type->Offer_sdp_like@) ==> b == a
            && r is Offer && r->Offer_sdp@ == decode_utf8(signal.signal_type->Offer_sdp_like@)
            && r->Offer_channel_topic == signal.channel_topic,
        running && signal.signal_type is Answer && valid_utf8(signal.signal_type->Answer_sdp_like@) ==> b == a
            && r is Answer && r->Answer_sdp@ == decode_utf8(signal.signal_type->Answer_sdp_like@),
        running && signal.signal_type is Speaking ==> b == a
            && r is Report && r->Report_0 is PeerSpeaking
            && r->Report_0->PeerSpeaking_peer_id@ == peer
            && r->Report_0->PeerSpeaking_is_speaking == signal.signal_type->Speaking_is_speaking,
        running && signal.signal_type is Leave ==> r is Disconnect && b.audio_sync.clock_of(peer) is None,
        running && signal.signal_type is ClockProbe ==> b == a && r is Reply
            && r->Reply_0.from_peer_id == a.local_peer_id
            && r->Reply_0.channel_topic == signal.channel_topic
            && r->Reply_0.signal_type is ClockProbeResponse
            && r->Reply_0.signal_type->ClockProbeResponse_seq == signal.signal_type->ClockProbe_seq
            && r->Reply_0.signal_type->ClockProbeResponse_t1_us == signal.signal_type->ClockProbe_t1_us,
        running && signal.signal_type is ClockProbeResponse ==> b == a && r == VoiceAction::ClockAnswer(ClockProbeResponse {
            seq: signal.signal_type->ClockProbeResponse_seq,
            t1_us: signal.signal_type->ClockProbeResponse_t1_us,
            t2_us: signal.signal_type->ClockProbeResponse_t2_us,
            t3_us: signal.signal_type->ClockProbeResponse_t3_us,
        }),
        running && (signal.signal_type is ScreenShareStart || signal.signal_type is ScreenShareStop) ==> b == a && r is Ignore,
{
}

/// What a voice signal from `peer` calls for, and what it does to the node.
/// Without a running voice session every signal is ignored. A leaving peer's
/// clock state is dropped; every other signal leaves the node as it is.
pub open spec fn voice_decided(a: NetworkCore, running: bool, peer: Seq<char>, signal: VoiceSignal, b: NetworkCore, r: VoiceAction) -> bool {
    if !running {
        b == a && r is Ignore
    } else {
        match signal.signal_type {
            VoiceSignalType::Offer { sdp_like } => {
                &&& b == a
                &&& match sdp_text(sdp_like@) {
                    Some(t) => r matches VoiceAction::Offer { sdp, channel_topic } && sdp@ == t
                        && channel_topic == signal.channel_topic,
                    None => r is Ignore,
                }
            },
            VoiceSignalType::Answer { sdp_like } => {
                &&& b == a
                &&& match sdp_text(sdp_like@) {
                    Some(t) => r matches VoiceAction::Answer { sdp } && sdp@ == t,
                    None => r is Ignore,
                }
            },
            VoiceSignalType::IceCandidate { candidate } => b == a && r == VoiceAction::IceCandidate { candidate },
            VoiceSignalType::Join => b == a && r == (VoiceAction::Connect { channel_topic: signal.channel_topic }),
            VoiceSignalType::Leave => {
                &&& r is Disconnect
                &&& b == (NetworkCore { audio_sync: b.audio_sync, ..a })
                &&& b.audio_sync.clock_of(peer) is None
                &&& forall|k: Seq<char>| k != peer ==> #[trigger] b.audio_sync.clock_of(k) == a.audio_sync.clock_of(k)
                &&& b.audio_sync.alignment() == alignment_for(b.audio_sync.clocks())
                &&& b.audio_sync.next_seq_spec() == a.audio_sync.next_seq_spec()
            },
            VoiceSignalType::Speaking { is_speaking } => {
                &&& b == a
                &&& r matches VoiceAction::Report(NetEvent::PeerSpeaking { peer_id, is_speaking: s })
                &&& peer_id@ == peer
                &&& s == is_speaking
            },
            VoiceSignalType::ClockProbe { seq, t1_us } => {
                &&& b == a
                &&& r matches VoiceAction::Reply(reply)
                &&& reply.from_peer_id == a.local_peer_id
                &&& reply.channel_topic == signal.channel_topic
                &&& reply.signal_type matches VoiceSignalType::ClockProbeResponse { seq: s, t1_us: t1, t2_us, t3_us }
                &&& s == seq
                &&& t1 == t1_us
                &&& t2_us == t3_us
            },
            VoiceSignalType::ClockProbeResponse { seq, t1_us, t2_us, t3_us } => {
                &&& b == a
                &&& r == VoiceAction::ClockAnswer(ClockProbeResponse { seq, t1_us, t2_us, t3_us })
            },
            _ => b == a && r is Ignore,
        }
    }
}

/// Whether a line of a bootstrap list names an address: trimmed, it is not
/// blank, does not start with `#`, and parses as a multiaddress.
pub open spec fn names_address(line: Seq<char>) -> bool {
    let l = trim_spec(line);
    l.len() > 0 && l[0] != '#' && multiaddr_parses(l)
}

/// The addresses named by the lines of `lines`, in order: for each line
/// that names one, the multiaddress read from the trimmed line.
pub open spec fn bootstrap_list(lines: Seq<Seq<char>>) -> Seq<libp2p::Multiaddr>
    decreases lines.len(),
{
    if lines.len() == 0 {
        Seq::empty()
    } else if names_address(lines.last()) {
        bootstrap_list(lines.drop_last()).push(multiaddr_of(trim_spec(lines.last())))
    } else {
        bootstrap_list(lines.drop_last())
    }
}

/// The address on one line of a bootstrap list, if it names one.
fn bootstrap_line(line: &Vec<char>) -> (r: Option<libp2p::Multiaddr>)
    ensures
        r is Some <==> names_address(line@),
        r matches Some(a) ==> a == multiaddr_of(trim_spec(line@)),
{
    let text = string_from_chars(line.as_slice());
    let trimmed = trim(text.as_str());
    let cs = chars_of(trimmed);
    if cs.len() > 0 && cs[0] != '#' {
        parse_multiaddr(trimmed)
    } else {
        None
    }
}

/// The bootstrap addresses of a bootstrap list, one per line, in order:
/// each line is trimmed; blank lines, lines starting with `#` and lines that
/// do not parse are skipped (see `names_address`).
pub fn bootstrap_addrs(content: &str) -> (r: Vec<libp2p::Multiaddr>)
    ensures
        r@ == bootstrap_list(split_on(content@, '\n')),
{
    let cs = chars_of(content);
    let mut out: Vec<libp2p::Multiaddr> = Vec::new();
    let mut cur: Vec<char> = Vec::new();
    let mut k: usize = 0;
    proof {
        assert(cs@.take(0) =~= Seq::<char>::empty());
    }
    while k < cs.len()
        invariant
            k <= cs@.len(),
            cs@ == content@,
            split_on(cs@.take(k as int), '\n').last() == cur@,
            bootstrap_list(split_on(cs@.take(k as int), '\n').drop_last()) == out@,
        decreases cs@.len() - k,
    {
        let ghost pre = cs@.take(k as int);
        let ghost next = cs@.take(k as int + 1);
        proof {
            assert(next.drop_last() =~= pre);
            lemma_split_on_len(pre, '\n');
        }
        let ch = cs[k];
        if ch == '\n' {
            let found = bootstrap_line(&cur);
            if let Some(addr) = found {
                out.push(addr);
            }
            proof {
                assert(split_on(next, '\n').drop_last() =~= split_on(pre, '\n'));
                assert(split_on(pre, '\n').drop_last().push(split_on(pre, '\n').last()) =~= split_on(pre, '\n'));
            }
            cur = Vec::new();
            proof {
                assert(split_on(next, '\n').last() =~= cur@);
            }
        } else {
            cur.push(ch);
            proof {
                assert(split_on(next, '\n').drop_last() =~= split_on(pre, '\n').drop_last());
            }
        }
        k = k + 1;
    }
    proof {
        assert(cs@.take(k as int) =~= content@);
        lemma_split_on_len(content@, '\n');
        assert(split_on(content@, '\n').drop_last().push(split_on(content@, '\n').last()) =~= split_on(content@, '\n'));
    }
    let found = bootstrap_line(&cur);
    if let Some(addr) = found {
        out.push(addr);
    }
    out
}

impl NetworkCore {
    /// The event for an address we listen on: the address with our peer id
    /// appended as `/p2p/<peer id>`.
    pub fn listen_event(&self, addr: &str) -> (r: NetEvent)
        ensures
            r matches NetEvent::ListeningOn(full) && full@ == addr@ + seq!['/', 'p', '2', 'p', '/'] + self.local_peer_id@,
    {
        proof {
            reveal_strlit("/p2p/");
            assert("/p2p/"@ =~= seq!['/', 'p', '2', 'p', '/']);
        }
        let mut full = addr.to_owned();
        full.append("/p2p/");
        full.append(self.local_peer_id.as_str());
        NetEvent::ListeningOn(full)
    }

    /// A dial that started: a peer named in the address becomes known and
    /// is reported as found.
    pub fn dial_started(&mut self, peer_id: Option<&str>) -> (r: Option<NetEvent>)
        requires
            old(self).wf(),
            peer_id matches Some(p) ==> encode_utf8(p@).len() <= usize::MAX && encode_utf8(p@).len() >= 8
                && is_char_boundary(encode_utf8(p@), 8),
        ensures
            final(self).wf(),
            match peer_id {
                Some(p) => {
                    &&& peer_known(*old(self), p@, *final(self))
                    &&& r matches Some(e) && is_discovery_event(e, p@)
                },
                None => *final(self) == *old(self) && r is None,
            },
    {
        match peer_id {
            Some(p) => Some(self.connection_established(p)),
            None => None,
        }
    }

    /// A direct message received, given what the caller could read of its
    /// content as an envelope: a message with no envelope is taken as it is;
    /// one whose envelope opens with our key to UTF-8 text gets that text as
    /// its content; any other is dropped.
    pub fn open_direct(&self, msg: DirectMessage, envelope: Option<EncryptedEnvelope>) -> (r: Option<DirectMessage>)
        ensures
            match envelope {
                None => r == Some(msg),
                Some(env) => match open_envelope(self.e2e.secret(), env) {
                    Some(p) => if valid_utf8(p) {
                        &&& r matches Some(out)
                        &&& r->0 == DirectMessage { content: r->0.content, ..msg }
                        &&& r->0.content@ == decode_utf8(p)
                    } else {
                        r is None
                    },
                    None => r is None,
                },
            },
    {
        match envelope {
            None => Some(msg),
            Some(env) => match self.e2e.decrypt_envelope(&env) {
                Ok(p) => match string_from_utf8(p) {
                    Some(text) => Some(DirectMessage { content: text, ..msg }),
                    None => None,
                },
                Err(_) => None,
            },
        }
    }

    /// The acknowledgement of a direct message from `peer`: a message with
    /// id `ack` and no content, from us to the peer, stamped now.
    pub fn dm_ack(&self, peer: &str) -> (r: DirectMessage)
        ensures
            r.id@ == seq!['a', 'c', 'k'],
            r.from_peer_id == self.local_peer_id,
            r.from_name == self.display_name,
            r.to_peer_id@ == peer@,
            r.content@.len() == 0,
    {
        proof {
            reveal_strlit("ack");
            assert("ack"@ =~= seq!['a', 'c', 'k']);
        }
        DirectMessage {
            id: "ack".to_owned(),
            from_peer_id: self.local_peer_id.clone(),
            from_name: self.display_name.clone(),
            to_peer_id: peer.to_owned(),
            content: String::new(),
            timestamp: now_unix_micros(),
        }
    }

    /// What to do for a command of the interface (see `command_planned`).
    pub fn plan_command(&mut self, cmd: NetCommand) -> (r: CommandPlan)
        ensures
            command_planned(*old(self), cmd, *final(self), r),
    {
        proof {
            reveal_strlit("/voice");
            assert("/voice"@ =~= seq!['/', 'v', 'o', 'i', 'c', 'e']);
        }
        match cmd {
            NetCommand::SendMessage(m) => CommandPlan::PublishToChannel { topic: m.topic(), message: NetworkMessage::Chat(m) },
            NetCommand::SendDirectMessage(m) => {
                let to = parse_peer_id(m.to_peer_id.as_str());
                let sealed = self.e2e.encrypt_for_peer(m.to_peer_id.as_str(), m.content.as_str().as_bytes());
                match sealed {
                    Ok(env) => CommandPlan::SendDirect {
                        to,
                        message: DirectMessage { content: String::new(), ..m },
                        sealed: Some(env),
                    },
                    Err(_) => CommandPlan::SendDirect { to, message: m, sealed: None },
                }
            },
            NetCommand::JoinServer(t) => {
                let announcement = NetworkMessage::ServerJoin {
                    peer_id: self.local_peer_id.clone(),
                    name: self.display_name.clone(),
                    server_id: t.clone(),
                };
                CommandPlan::Subscribe { topic: t, announcement }
            },
            NetCommand::LeaveServer(t) => CommandPlan::Unsubscribe(t),
            NetCommand::CreateChannel { server_id, channel } => CommandPlan::PublishPresence(
                NetworkMessage::ChannelCreate { server_id, channel },
            ),
            NetCommand::UpdatePresence(status) => CommandPlan::PublishPresence(NetworkMessage::Presence {
                peer_id: self.local_peer_id.clone(),
                name: self.display_name.clone(),
                status,
            }),
            NetCommand::Dial(addr) => CommandPlan::Dial(addr),
            NetCommand::StartVoice(t) => {
                let mut voice_topic = t;
                voice_topic.append("/voice");
                CommandPlan::StartVoice { voice_topic }
            },
            NetCommand::StopVoice => {
                self.screen_share.stop();
                CommandPlan::StopVoice
            },
            NetCommand::StartScreenShare(_) => {
                self.screen_share.start();
                CommandPlan::StartScreenShare
            },
            NetCommand::StopScreenShare => {
                self.screen_share.stop();
                CommandPlan::StopScreenShare
            },
        }
    }

    /// A channel message's serialised form, sealed with the topic's group
    /// key, or as it is when sealing fails.
    pub fn seal_for_channel(&self, topic: &str, plaintext: Vec<u8>) -> (r: ChannelPayload)
        ensures
            plaintext@.len() > crate::crypto::primitives::aes_gcm_max_plaintext() ==> r == ChannelPayload::Plain(plaintext),
            r matches ChannelPayload::Sealed(env) ==> crate::crypto::e2e::is_group_envelope(
                env,
                self.e2e.public(),
                topic@,
                plaintext@,
            ),
            plaintext@.len() <= crate::crypto::primitives::aes_gcm_max_plaintext() ==> r is Sealed,
    {
        match self.e2e.encrypt_for_group(topic, plaintext.as_slice()) {
            Ok(env) => ChannelPayload::Sealed(env),
            Err(_) => ChannelPayload::Plain(plaintext),
        }
    }

    /// What a voice signal from `peer` calls for (see `voice_decided`).
    pub fn voice_signal(&mut self, running: bool, peer: &str, signal: VoiceSignal) -> (r: VoiceAction)
        ensures
            voice_decided(*old(self), running, peer@, signal, *final(self), r),
            !running ==> r is Ignore && *final(self) == *old(self),
            running && signal.signal_type is IceCandidate ==> *final(self) == *old(self)
                && r == (VoiceAction::IceCandidate { candidate: signal.signal_type->IceCandidate_candidate }),
            running && signal.signal_type is Join ==> *final(self) == *old(self)
                && r == (VoiceAction::Connect { channel_topic: signal.channel_topic }),
            running && signal.signal_type is Offer && valid_utf8(signal.signal_type->Offer_sdp_like@) ==> *final(self) == *old(self)
                && r is Offer && r->Offer_sdp@ == decode_utf8(signal.signal_type->Offer_sdp_like@)
                && r->Offer_channel_topic == signal.channel_topic,
            running && signal.signal_type is Answer && valid_utf8(signal.signal_type->Answer_sdp_like@) ==> *final(self) == *old(self)
                && r is Answer && r->Answer_sdp@ == decode_utf8(signal.signal_type->Answer_sdp_like@),
            running && signal.signal_type is Speaking ==> *final(self) == *old(self)
                && r is Report && r->Report_0 is PeerSpeaking
                && r->Report_0->PeerSpeaking_peer_id@ == peer@
                && r->Report_0->PeerSpeaking_is_speaking == signal.signal_type->Speaking_is_speaking,
            running && signal.signal_type is Leave ==> r is Disconnect && final(self).audio_sync.clock_of(peer@) is None,
            running && signal.signal_type is ClockProbe ==> *final(self) == *old(self) && r is Reply
                && r->Reply_0.from_peer_id == old(self).local_peer_id
                && r->Reply_0.channel_topic == signal.channel_topic
                && r->Reply_0.signal_type is ClockProbeResponse
                && r->Reply_0.signal_type->ClockProbeResponse_seq == signal.signal_type->ClockProbe_seq
                && r->Reply_0.signal_type->ClockProbeResponse_t1_us == signal.signal_type->ClockProbe_t1_us,
            running && signal.signal_type is ClockProbeResponse ==> *final(self) == *old(self) && r == VoiceAction::ClockAnswer(ClockProbeResponse {
                seq: signal.signal_type->ClockProbeResponse_seq,
                t1_us: signal.signal_type->ClockProbeResponse_t1_us,
                t2_us: signal.signal_type->ClockProbeResponse_t2_us,
                t3_us: signal.signal_type->ClockProbeResponse_t3_us,
            }),
            running && (signal.signal_type is ScreenShareStart || signal.signal_type is ScreenShareStop) ==> *final(self) == *old(self) && r is Ignore,
    {
        if !running {
            return VoiceAction::Ignore;
        }
        match signal.signal_type {
            VoiceSignalType::Offer { sdp_like } => match string_from_utf8(sdp_like) {
                Some(sdp) => VoiceAction::Offer { sdp, channel_topic: signal.channel_topic },
                None => VoiceAction::Ignore,
            },
            VoiceSignalType::Answer { sdp_like } => match string_from_utf8(sdp_like) {
                Some(sdp) => VoiceAction::Answer { sdp },
                None => VoiceAction::Ignore,
            },
            VoiceSignalType::IceCandidate { candidate } => VoiceAction::IceCandidate { candidate },
            VoiceSignalType::Join => VoiceAction::Connect { channel_topic: signal.channel_topic },
            VoiceSignalType::Leave => {
                self.audio_sync.remove_peer(peer);
                VoiceAction::Disconnect
            },
            VoiceSignalType::Speaking { is_speaking } => VoiceAction::Report(
                NetEvent::PeerSpeaking { peer_id: peer.to_owned(), is_speaking },
            ),
            VoiceSignalType::ClockProbe { seq, t1_us } => {
                let resp = self.audio_sync.handle_probe(&ClockProbe { seq, t1_us });
                VoiceAction::Reply(VoiceSignal {
                    signal_type: VoiceSignalType::ClockProbeResponse {
                        seq: resp.seq,
                        t1_us: resp.t1_us,
                        t2_us: resp.t2_us,
                        t3_us: resp.t3_us,
                    },
                    from_peer_id: self.local_peer_id.clone(),
                    channel_topic: signal.channel_topic,
                })
            },
            VoiceSignalType::ClockProbeResponse { seq, t1_us, t2_us, t3_us } => VoiceAction::ClockAnswer(
                ClockProbeResponse { seq, t1_us, t2_us, t3_us },
            ),
            _ => VoiceAction::Ignore,
        }
    }

    /// Our answer to a peer's voice offer, carrying the description the
    /// voice engine returned.
    pub fn answer_signal(&self, sdp: &str, channel_topic: String) -> (r: VoiceSignal)
        ensures
            r.signal_type matches VoiceSignalType::Answer { sdp_like } && sdp_like@ == encode_utf8(sdp@),
            r.from_peer_id == self.local_peer_id,
            r.channel_topic == channel_topic,
    {
        VoiceSignal {
            signal_type: VoiceSignalType::Answer { sdp_like: sdp.as_bytes_vec() },
            from_peer_id: self.local_peer_id.clone(),
            channel_topic,
        }
    }

    /// Our offer to a peer that joined voice, carrying the description the
    /// voice engine returned.
    pub fn offer_signal(&self, sdp: &str, channel_topic: String) -> (r: VoiceSignal)
        ensures
            r.signal_type matches VoiceSignalType::Offer { sdp_like } && sdp_like@ == encode_utf8(sdp@),
            r.from_peer_id == self.local_peer_id,
            r.channel_topic == channel_topic,
    {
        VoiceSignal {
            signal_type: VoiceSignalType::Offer { sdp_like: sdp.as_bytes_vec() },
            from_peer_id: self.local_peer_id.clone(),
            channel_topic,
        }
    }

    /// Our speaking state, to send to every known peer, in order.
    pub fn speaking_signals(&self, is_speaking: bool) -> (r: Vec<Outgoing>)
        ensures
            r@.len() == self.known_peers@.len(),
            forall|i: int| 0 <= i < r@.len() ==> {
                &&& (#[trigger] r@[i]).peer_id == self.known_peers@[i]
                &&& r@[i].signal.signal_type == (VoiceSignalType::Speaking { is_speaking })
                &&& r@[i].signal.from_peer_id == self.local_peer_id
                &&& r@[i].signal.channel_topic@.len() == 0
            },
    {
        let mut r: Vec<Outgoing> = Vec::new();
        let mut i: usize = 0;
        while i < self.known_peers.len()
            invariant
                i <= self.known_peers@.len(),
                r@.len() == i,
                forall|j: int| 0 <= j < i ==> {
                    &&& (#[trigger] r@[j]).peer_id == self.known_peers@[j]
                    &&& r@[j].signal.signal_type == (VoiceSignalType::Speaking { is_speaking })
                    &&& r@[j].signal.from_peer_id == self.local_peer_id
                    &&& r@[j].signal.channel_topic@.len() == 0
                },
            decreases self.known_peers@.len() - i,
        {
            r.push(Outgoing {
                peer_id: self.known_peers[i].clone(),
                signal: VoiceSignal {
                    signal_type: VoiceSignalType::Speaking { is_speaking },
                    from_peer_id: self.local_peer_id.clone(),
                    channel_topic: String::new(),
                },
            });
            i = i + 1;
        }
        r
    }

    /// The periodic clock probes of a voice session: each known peer, in
    /// order, is registered for clock synchronisation and sent a probe with
    /// the next sequence number. Without a voice session, none.
    pub fn clock_probes(&mut self, running: bool) -> (r: Vec<Outgoing>)
        requires
            running ==> old(self).audio_sync.next_seq_spec() + old(self).known_peers@.len() < u64::MAX,
        ensures
            *final(self) == (NetworkCore { audio_sync: final(self).audio_sync, ..*old(self) }),
            r@.len() == if running { old(self).known_peers@.len() } else { 0 },
            !running ==> final(self).audio_sync == old(self).audio_sync,
            running ==> final(self).audio_sync.next_seq_spec() == old(self).audio_sync.next_seq_spec() + r@.len(),
            running ==> forall|i: int| 0 <= i < r@.len() ==> #[trigger] final(self).audio_sync.clock_of(
                old(self).known_peers@[i]@,
            ) is Some,
            forall|k: Seq<char>| !views(old(self).known_peers@).contains(k) ==> #[trigger] final(self).audio_sync.clock_of(k)
                == old(self).audio_sync.clock_of(k),
            forall|i: int| 0 <= i < r@.len() ==> {
                &&& (#[trigger] r@[i]).peer_id == old(self).known_peers@[i]
                &&& r@[i].signal.signal_type matches VoiceSignalType::ClockProbe { seq, t1_us }
                &&& seq == old(self).audio_sync.next_seq_spec() + i
                &&& r@[i].signal.from_peer_id == old(self).local_peer_id
                &&& r@[i].signal.channel_topic@.len() == 0
            },
    {
        let mut r: Vec<Outgoing> = Vec::new();
        if !running {
            return r;
        }
        let ghost start = self.audio_sync.next_seq_spec();
        let ghost before = self.audio_sync;
        let mut i: usize = 0;
        while i < self.known_peers.len()
            invariant
                i <= self.known_peers@.len(),
                r@.len() == i,
                self.known_peers == old(self).known_peers,
                *self == (NetworkCore { audio_sync: self.audio_sync, ..*old(self) }),
                start == old(self).audio_sync.next_seq_spec(),
                before == old(self).audio_sync,
                start + self.known_peers@.len() < u64::MAX,
                self.audio_sync.next_seq_spec() == start + i,
                forall|j: int| 0 <= j < i ==> #[trigger] self.audio_sync.clock_of(self.known_peers@[j]@) is Some,
                forall|k: Seq<char>| !views(self.known_peers@.take(i as int)).contains(k) ==> #[trigger] self.audio_sync.clock_of(k)
                    == before.clock_of(k),
                forall|j: int| 0 <= j < i ==> {
                    &&& (#[trigger] r@[j]).peer_id == self.known_peers@[j]
                    &&& r@[j].signal.signal_type matches VoiceSignalType::ClockProbe { seq, t1_us }
                    &&& seq == start + j
                    &&& r@[j].signal.from_peer_id == self.local_peer_id
                    &&& r@[j].signal.channel_topic@.len() == 0
                },
            decreases self.known_peers@.len() - i,
        {
            let peer = self.known_peers[i].clone();
            let ghost prev = self.audio_sync;
            self.audio_sync.add_peer(peer.as_str());
            let probe = self.audio_sync.create_probe(peer.as_str());
            proof {
                let seen = views(self.known_peers@.take(i as int));
                assert(views(self.known_peers@.take(i as int + 1)) =~= seen.push(peer@));
                assert forall|k: Seq<char>| !views(self.known_peers@.take(i as int + 1)).contains(k)
                    implies #[trigger] self.audio_sync.clock_of(k) == before.clock_of(k) by {
                    assert(seen.push(peer@)[seen.len() as int] == peer@);
                    if seen.contains(k) {
                        let w = choose|w: int| 0 <= w < seen.len() && seen[w] == k;
                        assert(seen.push(peer@)[w] == k);
                    }
                    assert(prev.clock_of(k) == before.clock_of(k));
                }
            }
            r.push(Outgoing {
                peer_id: peer,
                signal: VoiceSignal {
                    signal_type: VoiceSignalType::ClockProbe { seq: probe.seq, t1_us: probe.t1_us },
                    from_peer_id: self.local_peer_id.clone(),
                    channel_topic: String::new(),
                },
            });
            i = i + 1;
        }
        proof {
            assert(self.known_peers@.take(i as int) =~= self.known_peers@);
        }
        r
    }
}

/// A message relayed for another peer that the store takes in as new is
/// handed to that peer when it is next found, provided it was stored at or
/// after time 0: `relay` is the store after `gossip_payload` kept `msg`, and
/// `deliveries` what `peer_discovered` then hands over.
pub proof fn lemma_relay_then_discover(
    before: StoreForward,
    msg: StoredMessage,
    relay: StoreForward,
    now: i64,
    deliveries: Seq<StoredMessage>,
)
    requires
        store_post(before, relay, msg, now, true),
        !has_id(before.held_before_store(msg.target_peer_id@, now), msg.id@),
        0 <= msg.stored_at,
        deliveries == select(relay.messages_for(msg.target_peer_id@), 0, Seq::empty(), true),
    ensures
        deliveries.contains(msg),
{
    lemma_store_then_pull(before, msg, relay, now, 0, Seq::empty());
}

} // verus!
