//! The interface's state machine: what each user action or network event
//! does to the application state, and what the caller must then do (send a
//! network command, save, copy to the clipboard). Drawing the state is the
//! caller's.
use vstd::prelude::*;
use vstd::utf8::{encode_utf8, is_char_boundary};
use crate::types::{
    UserStatus, UserProfile, Server, Channel, ChatMessage, DirectMessage, NetEvent, topic_of, general,
    same_message, reactions_view, server_id_for, short_peer_id, short_peer_id_of, first_index_of, find_char, string_of_range,
};
use crate::state::store::{
    AppState, counts_as_unread, topic_at, server_index, has_channel, channel_topics, message_added, dm_added,
    server_added, channel_added, peer_updated, peer_added_if_new, peer_marked_offline,
    listen_addr_added, is_fresh_server,
};
use crate::network::{NetCommand, parse_multiaddr, multiaddr_parses, multiaddr_of};
use crate::keyed::{lookup, key_index};
use crate::text::{views, str_eq, trim, trim_spec, to_lowercase, lowercase_of_str, chars_of, string_from_chars};
use crate::codec::{new_uuid_v4, now_unix_micros, is_uuid_v4_text};

verus! {

/// What a context menu was opened on.
#[derive(Debug, Clone)]
pub enum ContextMenuKind {
    Server(usize),
    Channel(usize),
    Member(String),
    /// A message, by id.
    Message(String),
}

/// The dialog shown over the interface.
#[derive(Debug, Clone, Copy, PartialEq, Eq, Structural)]
pub enum ActiveModal {
    Closed,
    CreateServer,
    JoinServer,
    CreateChannel,
    ChangeDisplayName,
    Settings,
    ConnectPeer,
}

/// The actions of the interface, other than audio settings.
#[derive(Debug)]
pub enum Message {
    InputChanged(String),
    SendMessage,
    SelectServer(usize),
    SelectChannel(usize),
    SelectDM(String),
    CreateServer,
    JoinServer,
    CreateChannel,
    ServerNameInput(String),
    ChannelNameInput(String),
    ToggleVoice,
    ToggleMute,
    ToggleDeafen,
    ToggleScreenShare,
    NetEvent(NetEvent),
    SetStatus(UserStatus),
    ChangeDisplayName,
    DisplayNameInput(String),
    OpenSettings,
    ConnectToPeer,
    ConnectAddrInput(String),
    CloseModal,
    ConfirmModal,
    OpenContextMenu(ContextMenuKind),
    CloseContextMenu,
    CopyMessageContent(String),
    DeleteServer(usize),
    LeaveServer(usize),
    CopyPeerId(String),
    MuteChannel(usize),
    /// Periodic presence announcement.
    Tick,
    /// Animation tick.
    AnimTick,
    CopyToClipboard(String),
    Noop,
}

/// What the caller must do after an update.
#[derive(Debug)]
pub enum UiEffect {
    /// Send a command to the network layer.
    Send(NetCommand),
    CopyToClipboard(String),
    /// Refresh the lists of audio devices.
    ListAudioDevices,
    /// Save the server list.
    SaveServers,
    /// Save the messages of a topic.
    SaveMessages(String),
    /// Save our display name.
    SaveDisplayName,
    /// Save the known peers' profiles.
    SavePeers,
    /// Report a network error.
    ReportError(String),
}

/// The interface's state.
#[derive(Debug)]
pub struct MurmurApp {
    pub state: AppState,
    pub modal: ActiveModal,
    /// The text typed into the dialog.
    pub modal_input: String,
    pub connected: bool,
    pub context_menu: Option<ContextMenuKind>,
    pub anim_tick: u64,
    /// Names of peers typing in the selected channel.
    pub typing_names: Vec<String>,
}

/// `e` asks to subscribe to `topic`.
pub open spec fn is_join(e: UiEffect, topic: Seq<char>) -> bool {
    match e {
        UiEffect::Send(NetCommand::JoinServer(t)) => t@ == topic,
        _ => false,
    }
}

/// `e` asks to save the messages of `topic`.
pub open spec fn is_save_messages(e: UiEffect, topic: Seq<char>) -> bool {
    match e {
        UiEffect::SaveMessages(t) => t@ == topic,
        _ => false,
    }
}

/// Whether adding `channel` to the server with id `server_id` adds it: the
/// server is listed and has no channel with that id.
pub open spec fn channel_is_new(s: AppState, server_id: Seq<char>, channel: Channel) -> bool {
    server_index(s.servers@, server_id) matches Some(i) && !has_channel(s.servers@[i].channels@, channel.id@)
}

/// `e` announces our presence with the given status.
pub open spec fn is_presence(e: UiEffect, status: UserStatus) -> bool {
    match e {
        UiEffect::Send(NetCommand::UpdatePresence(s)) => s == status,
        _ => false,
    }
}

/// `effects` asks to join each of `topics`, in order.
pub open spec fn joins_all(effects: Seq<UiEffect>, topics: Seq<Seq<char>>) -> bool {
    &&& effects.len() == topics.len()
    &&& forall|i: int| 0 <= i < effects.len() ==> is_join(#[trigger] effects[i], topics[i])
}

/// `effects` is one command to join `topic`, or nothing when there is no
/// topic.
pub open spec fn joins_current(effects: Seq<UiEffect>, topic: Option<Seq<char>>) -> bool {
    match topic {
        Some(t) => effects.len() == 1 && is_join(effects[0], t),
        None => effects.len() == 0,
    }
}

/// `effects` is exactly one presence announcement with the given status.
pub open spec fn announces(effects: Seq<UiEffect>, status: UserStatus) -> bool {
    effects.len() == 1 && is_presence(effects[0], status)
}

/// The status that `/status` sets for its argument (already lower-cased):
/// `online`, `away` and `dnd` name theirs, anything else means online.
pub open spec fn status_named(arg: Seq<char>) -> UserStatus {
    if arg == seq!['a', 'w', 'a', 'y'] {
        UserStatus::Away
    } else if arg == seq!['d', 'n', 'd'] {
        UserStatus::DoNotDisturb
    } else {
        UserStatus::Online
    }
}

/// The id of a channel created with the given name: lower-cased, with spaces
/// turned into `-`.
pub open spec fn channel_id_for(name: Seq<char>) -> Seq<char> {
    lowercase_of_str(name).map_values(|c: char| if c == ' ' { '-' } else { c })
}

impl MurmurApp {
    /// The interface's invariant: that of the application state.
    pub open spec fn wf(self) -> bool {
        self.state.wf()
    }

    /// The interface over a loaded state. A test scene shows the settings
    /// (`settings`) or the create-server dialog (`create-server`) at once,
    /// and shows the network as connected.
    pub fn new(state: AppState, test_scene: Option<String>) -> (r: Self)
        requires
            state.wf(),
        ensures
            r.wf(),
            r.state == state,
            r.modal == match test_scene {
                Some(s) => if s@ == seq!['s', 'e', 't', 't', 'i', 'n', 'g', 's'] {
                    ActiveModal::Settings
                } else if s@ == seq!['c', 'r', 'e', 'a', 't', 'e', '-', 's', 'e', 'r', 'v', 'e', 'r'] {
                    ActiveModal::CreateServer
                } else {
                    ActiveModal::Closed
                },
                None => ActiveModal::Closed,
            },
            r.modal_input@.len() == 0,
            r.connected == test_scene is Some,
            r.context_menu is None,
            r.anim_tick == 0,
            r.typing_names@.len() == 0,
    {
        proof {
            reveal_strlit("settings");
            reveal_strlit("create-server");
            assert("settings"@ =~= seq!['s', 'e', 't', 't', 'i', 'n', 'g', 's']);
            assert("create-server"@ =~= seq!['c', 'r', 'e', 'a', 't', 'e', '-', 's', 'e', 'r', 'v', 'e', 'r']);
        }
        let (modal, connected) = match &test_scene {
            Some(s) => {
                let m = if str_eq(s.as_str(), "settings") {
                    ActiveModal::Settings
                } else if str_eq(s.as_str(), "create-server") {
                    ActiveModal::CreateServer
                } else {
                    ActiveModal::Closed
                };
                (m, true)
            },
            None => (ActiveModal::Closed, false),
        };
        MurmurApp {
            state,
            modal,
            modal_input: String::new(),
            connected,
            context_menu: None,
            anim_tick: 0,
            typing_names: Vec::new(),
        }
    }

    /// The window title: `murmur - ` with our display name and the start of
    /// our peer id in brackets.
    pub fn title(&self) -> (r: String)
        requires
            encode_utf8(self.state.profile.peer_id@).len() <= usize::MAX,
            encode_utf8(self.state.profile.peer_id@).len() >= 8 ==> is_char_boundary(encode_utf8(self.state.profile.peer_id@), 8),
        ensures
            r@ == "murmur - "@ + self.state.profile.display_name@ + " ["@ + short_peer_id(self.state.profile.peer_id@) + "]"@,
    {
        let short = short_peer_id_of(self.state.profile.peer_id.as_str());
        let mut t = String::new();
        assert(t@ + "murmur - "@ =~= "murmur - "@);
        t.append("murmur - ");
        t.append(self.state.profile.display_name.as_str());
        t.append(" [");
        t.append(short.as_str());
        t.append("]");
        t
    }
}

/// What a network event does: the state takes in what the event reports,
/// `Connected` marks the interface connected and asks to join every
/// channel's topic, an error is handed back to be reported, and the other
/// events change nothing.
pub open spec fn net_event_done(a: MurmurApp, event: NetEvent, b: MurmurApp, effects: Seq<UiEffect>) -> bool {
    match event {
        NetEvent::MessageReceived(m) => {
            &&& effects.len() == 1
            &&& is_save_messages(effects[0], topic_of(m.server_id@, m.channel_id@))
            &&& message_added(a.state, m, b.state)
            &&& b == (MurmurApp { state: b.state, ..a })
        },
        NetEvent::DirectMessageReceived(m) => effects.len() == 0 && dm_added(a.state, m, b.state)
            && b == (MurmurApp { state: b.state, ..a }),
        NetEvent::PeerDiscovered { peer_id, name } => effects.len() == 0
            && peer_added_if_new(a.state, peer_id, name, UserStatus::Online, b.state)
            && b == (MurmurApp { state: b.state, ..a }),
        NetEvent::PeerLeft(peer_id) => effects.len() == 0 && peer_marked_offline(a.state, peer_id@, b.state)
            && b == (MurmurApp { state: b.state, ..a }),
        NetEvent::PresenceUpdate { peer_id, name, status } => effects == seq![UiEffect::SavePeers]
            && peer_updated(a.state, peer_id@, name, status, b.state)
            && b == (MurmurApp { state: b.state, ..a }),
        NetEvent::ServerJoined { peer_id, name, server_id } => effects.len() == 0
            && peer_added_if_new(a.state, peer_id, name, UserStatus::Online, b.state)
            && b == (MurmurApp { state: b.state, ..a }),
        NetEvent::ChannelCreated { server_id, channel } => {
            &&& effects == if channel_is_new(a.state, server_id@, channel) {
                seq![UiEffect::SaveServers]
            } else {
                Seq::empty()
            }
            &&& channel_added(a.state, server_id@, channel, b.state)
            &&& b == (MurmurApp { state: b.state, ..a })
        },
        NetEvent::Connected => joins_all(effects, channel_topics(a.state.servers@))
            && b == (MurmurApp { connected: true, ..a }),
        NetEvent::ListeningOn(addr) => effects.len() == 0 && listen_addr_added(a.state, addr, b.state)
            && b == (MurmurApp { state: b.state, ..a }),
        NetEvent::Error(e) => effects == seq![UiEffect::ReportError(e)] && b == a,
        _ => effects.len() == 0 && b == a,
    }
}

/// Commands to join each of `topics`, in order.
fn join_commands(topics: Vec<String>) -> (r: Vec<UiEffect>)
    ensures
        joins_all(r@, views(topics@)),
{
    let mut r: Vec<UiEffect> = Vec::new();
    let mut i: usize = 0;
    while i < topics.len()
        invariant
            i <= topics@.len(),
            r@.len() == i,
            forall|j: int| 0 <= j < i ==> is_join(#[trigger] r@[j], topics@[j]@),
        decreases topics@.len() - i,
    {
        r.push(UiEffect::Send(NetCommand::JoinServer(topics[i].clone())));
        i = i + 1;
    }
    r
}

impl MurmurApp {
    /// Takes in one event of the network layer.
    pub fn handle_net_event(&mut self, event: NetEvent) -> (effects: Vec<UiEffect>)
        requires
            old(self).wf(),
            event matches NetEvent::MessageReceived(m) ==> (counts_as_unread(old(self).state, m) ==> old(self).state.total_unread < u32::MAX),
        ensures
            final(self).wf(),
            net_event_done(*old(self), event, *final(self), effects@),
    {
        let mut effects: Vec<UiEffect> = Vec::new();
        match event {
            NetEvent::MessageReceived(msg) => {
                let topic = msg.topic();
                self.state.add_message(msg);
                effects.push(UiEffect::SaveMessages(topic));
            },
            NetEvent::DirectMessageReceived(msg) => {
                self.state.add_direct_message(msg);
            },
            NetEvent::PeerDiscovered { peer_id, name } => {
                self.state.add_peer_if_new(peer_id, name, UserStatus::Online);
            },
            NetEvent::PeerLeft(peer_id) => {
                self.state.mark_peer_offline(peer_id.as_str());
            },
            NetEvent::PresenceUpdate { peer_id, name, status } => {
                self.state.update_peer(peer_id, name, status);
                effects.push(UiEffect::SavePeers);
            },
            NetEvent::ServerJoined { peer_id, name, server_id: _ } => {
                self.state.add_peer_if_new(peer_id, name, UserStatus::Online);
            },
            NetEvent::ChannelCreated { server_id, channel } => {
                if self.state.add_channel_to_server(server_id.as_str(), channel) {
                    effects.push(UiEffect::SaveServers);
                }
            },
            NetEvent::Connected => {
                self.connected = true;
                let topics = self.state.all_channel_topics();
                effects = join_commands(topics);
            },
            NetEvent::ListeningOn(addr) => {
                self.state.add_listen_addr(addr);
            },
            NetEvent::Error(e) => {
                effects.push(UiEffect::ReportError(e));
            },
            _ => {},
        }
        effects
    }
}

/// The word of a command and its argument: the text before the first
/// space, and the text after that space (none when there is no space).
pub open spec fn command_parts(cmd: Seq<char>) -> (Seq<char>, Option<Seq<char>>) {
    match first_index_of(cmd, ' ') {
        Some(i) => (cmd.take(i), Some(cmd.skip(i + 1))),
        None => (cmd, None),
    }
}

/// What a slash command does. `/name <name>` sets our display name and
/// `/status <status>` our status, each announcing our presence;
/// `/connect <address>` dials the address when it parses; anything else is
/// ignored. The input line is cleared in every case.
pub open spec fn command_done(a: MurmurApp, cmd: Seq<char>, b: MurmurApp, effects: Seq<UiEffect>) -> bool {
    let word = command_parts(cmd).0;
    let arg = command_parts(cmd).1;
    &&& b.state.input_buffer@.len() == 0
    &&& if arg is Some && word == seq!['/', 'n', 'a', 'm', 'e'] {
        &&& b == (MurmurApp {
            state: AppState {
                profile: UserProfile { display_name: b.state.profile.display_name, ..a.state.profile },
                input_buffer: b.state.input_buffer,
                ..a.state
            },
            ..a
        })
        &&& b.state.profile.display_name@ == arg->0
        &&& effects.len() == 2
        &&& effects[0] is SaveDisplayName
        &&& is_presence(effects[1], a.state.profile.status)
    } else if arg is Some && word == seq!['/', 's', 't', 'a', 't', 'u', 's'] {
        let status = status_named(lowercase_of_str(arg->0));
        &&& b == (MurmurApp {
            state: AppState {
                profile: UserProfile { status: status, ..a.state.profile },
                input_buffer: b.state.input_buffer,
                ..a.state
            },
            ..a
        })
        &&& announces(effects, status)
    } else {
        &&& b == (MurmurApp { state: AppState { input_buffer: b.state.input_buffer, ..a.state }, ..a })
        &&& if arg is Some && word == seq!['/', 'c', 'o', 'n', 'n', 'e', 'c', 't'] {
            if multiaddr_parses(arg->0) {
                effects.len() == 1 && effects[0] == UiEffect::Send(NetCommand::Dial(multiaddr_of(arg->0)))
            } else {
                effects.len() == 0
            }
        } else {
            effects.len() == 0
        }
    }
}

impl MurmurApp {
    /// Carries out a slash command typed into the input line.
    pub fn handle_command(&mut self, cmd: &str) -> (effects: Vec<UiEffect>)
        ensures
            command_done(*old(self), cmd@, *final(self), effects@),
    {
        proof {
            reveal_strlit("/name");
            reveal_strlit("/status");
            reveal_strlit("/connect");
            reveal_strlit("away");
            reveal_strlit("dnd");
            assert("/name"@ =~= seq!['/', 'n', 'a', 'm', 'e']);
            assert("/status"@ =~= seq!['/', 's', 't', 'a', 't', 'u', 's']);
            assert("/connect"@ =~= seq!['/', 'c', 'o', 'n', 'n', 'e', 'c', 't']);
            assert("away"@ =~= seq!['a', 'w', 'a', 'y']);
            assert("dnd"@ =~= seq!['d', 'n', 'd']);
        }
        let cs = chars_of(cmd);
        let (word, arg) = match find_char(&cs, ' ') {
            Some(i) => {
                assert(i < cs.len());
                let w = string_of_range(&cs, 0, i);
                let x = string_of_range(&cs, i + 1, cs.len());
                assert(w@ =~= cmd@.take(i as int));
                assert(x@ =~= cmd@.skip(i + 1));
                (w, Some(x))
            },
            None => {
                let w = string_of_range(&cs, 0, cs.len());
                assert(w@ =~= cmd@);
                (w, None)
            },
        };
        assert(word@ == command_parts(cmd@).0);
        let mut effects: Vec<UiEffect> = Vec::new();
        if let Some(x) = arg {
            if str_eq(word.as_str(), "/name") {
                self.state.set_display_name(x);
                effects.push(UiEffect::SaveDisplayName);
                effects.push(UiEffect::Send(NetCommand::UpdatePresence(self.state.profile.status)));
            } else if str_eq(word.as_str(), "/status") {
                let lower = to_lowercase(x.as_str());
                let status = if str_eq(lower.as_str(), "away") {
                    UserStatus::Away
                } else if str_eq(lower.as_str(), "dnd") {
                    UserStatus::DoNotDisturb
                } else {
                    UserStatus::Online
                };
                self.state.profile.status = status;
                effects.push(UiEffect::Send(NetCommand::UpdatePresence(status)));
            } else if str_eq(word.as_str(), "/connect") {
                if let Some(addr) = parse_multiaddr(x.as_str()) {
                    effects.push(UiEffect::Send(NetCommand::Dial(addr)));
                }
            }
        }
        self.state.input_buffer = String::new();
        effects
    }
}

/// The chat message an effect sends, if it sends one.
pub open spec fn chat_sent(e: UiEffect) -> Option<ChatMessage> {
    match e {
        UiEffect::Send(NetCommand::SendMessage(m)) => Some(m),
        _ => None,
    }
}

/// The direct message an effect sends, if it sends one.
pub open spec fn dm_sent(e: UiEffect) -> Option<DirectMessage> {
    match e {
        UiEffect::Send(NetCommand::SendDirectMessage(m)) => Some(m),
        _ => None,
    }
}

/// The channel an effect announces as created, if it does.
pub open spec fn channel_announced(e: UiEffect) -> Option<Channel> {
    match e {
        UiEffect::Send(NetCommand::CreateChannel { server_id, channel }) => Some(channel),
        _ => None,
    }
}

/// The id of the server to which an effect announces a new channel, if it
/// does.
pub open spec fn channel_announced_in(e: UiEffect) -> Option<String> {
    match e {
        UiEffect::Send(NetCommand::CreateChannel { server_id, channel }) => Some(server_id),
        _ => None,
    }
}

/// What sending the input line does. Blank input does nothing. A line
/// starting with `/` is a command. Otherwise the trimmed text goes, with a
/// fresh id, as a direct message to the selected peer when one is
/// selected, or else as a message to the selected channel when one is
/// selected; it is filed in the state and sent. The input line is then
/// cleared.
pub open spec fn send_done(a: MurmurApp, b: MurmurApp, effects: Seq<UiEffect>) -> bool {
    let content = trim_spec(a.state.input_buffer@);
    if content.len() == 0 {
        b == a && effects.len() == 0
    } else if content[0] == '/' {
        command_done(a, content, b, effects)
    } else {
        let t = AppState { input_buffer: a.state.input_buffer, ..b.state };
        &&& b.state.input_buffer@.len() == 0
        &&& b == (MurmurApp { state: b.state, ..a })
        &&& match a.state.active_dm_peer {
            Some(peer) => {
                &&& effects.len() == 1
                &&& dm_sent(effects[0]) is Some
                &&& is_uuid_v4_text(dm_sent(effects[0])->0.id@)
                &&& dm_sent(effects[0])->0.from_peer_id == a.state.profile.peer_id
                &&& dm_sent(effects[0])->0.from_name == a.state.profile.display_name
                &&& dm_sent(effects[0])->0.to_peer_id == peer
                &&& dm_sent(effects[0])->0.content@ == content
                &&& dm_added(a.state, dm_sent(effects[0])->0, t)
            },
            None => match a.state.current_topic_spec() {
                Some(topic) => {
                    let server = a.state.servers@[a.state.active_server->0 as int];
                    let channel = server.channels@[a.state.active_channel->0 as int];
                    let stored = t.messages_of(topic).last();
                    let m = chat_sent(effects[1])->0;
                    &&& effects.len() == 2
                    &&& is_save_messages(effects[0], topic)
                    &&& chat_sent(effects[1]) is Some
                    &&& same_message(stored, m)
                    &&& is_uuid_v4_text(m.id@)
                    &&& m.server_id == server.id
                    &&& m.channel_id == channel.id
                    &&& m.sender_peer_id == a.state.profile.peer_id
                    &&& m.sender_name == a.state.profile.display_name
                    &&& m.content@ == content
                    &&& m.reply_to is None
                    &&& !m.edited
                    &&& m.reactions@.len() == 0
                    &&& m.attachment is None
                    &&& message_added(a.state, stored, t)
                },
                None => effects.len() == 0 && t == a.state,
            },
        }
    }
}

/// What confirming the open dialog does with its trimmed input; blank input
/// only closes it. Creating or joining a server adds the server of that
/// name (unless listed) and joins its `general` channel; creating a channel
/// adds it to the selected server and announces it; changing the display
/// name announces our presence; connecting dials the address when it
/// parses. The dialog is closed in every case.
pub open spec fn confirm_done(a: MurmurApp, b: MurmurApp, effects: Seq<UiEffect>) -> bool {
    let input = trim_spec(a.modal_input@);
    if input.len() == 0 {
        b == (MurmurApp { modal: ActiveModal::Closed, ..a }) && effects.len() == 0
    } else {
        &&& b == (MurmurApp { modal: ActiveModal::Closed, state: b.state, ..a })
        &&& match a.modal {
            ActiveModal::CreateServer | ActiveModal::JoinServer => {
                &&& b.state == (AppState { servers: b.state.servers, ..a.state })
                &&& if server_index(a.state.servers@, server_id_for(input)) is None {
                    &&& b.state.servers@.len() == a.state.servers@.len() + 1
                    &&& b.state.servers@.drop_last() == a.state.servers@
                    &&& is_fresh_server(b.state.servers@.last(), input)
                    &&& effects.len() == 2
                    &&& effects[0] is SaveServers
                    &&& is_join(effects[1], topic_of(server_id_for(input), general()))
                } else {
                    &&& b.state.servers@ == a.state.servers@
                    &&& effects.len() == 1
                    &&& is_join(effects[0], topic_of(server_id_for(input), general()))
                }
            },
            ActiveModal::CreateChannel => {
                if a.state.active_server is Some && a.state.active_server->0 < a.state.servers@.len() {
                    let sid = a.state.servers@[a.state.active_server->0 as int].id@;
                    let n = if channel_is_new(a.state, sid, channel_announced(effects[effects.len() - 1])->0) { 2int } else { 1int };
                    let c = channel_announced(effects[n - 1])->0;
                    &&& effects.len() == n
                    &&& n == 2 ==> effects[0] is SaveServers
                    &&& channel_announced(effects[n - 1]) is Some
                    &&& channel_announced_in(effects[n - 1])->0@ == sid
                    &&& c.id@ == channel_id_for(input)
                    &&& c.name@ == input
                    &&& channel_added(a.state, sid, c, b.state)
                } else {
                    b.state == a.state && effects.len() == 0
                }
            },
            ActiveModal::ChangeDisplayName => {
                &&& b.state == (AppState {
                    profile: UserProfile { display_name: b.state.profile.display_name, ..a.state.profile },
                    ..a.state
                })
                &&& b.state.profile.display_name@ == input
                &&& effects.len() == 2
                &&& effects[0] is SaveDisplayName
                &&& is_presence(effects[1], a.state.profile.status)
            },
            ActiveModal::ConnectPeer => {
                &&& b.state == a.state
                &&& if multiaddr_parses(input) {
                    effects.len() == 1 && effects[0] == UiEffect::Send(NetCommand::Dial(multiaddr_of(input)))
                } else {
                    effects.len() == 0
                }
            },
            _ => b.state == a.state && effects.len() == 0,
        }
    }
}

/// `name` lower-cased, with each space turned into `-`.
fn channel_id_from_name(name: &str) -> (r: String)
    ensures
        r@ == channel_id_for(name@),
{
    let lower = to_lowercase(name);
    let cs = chars_of(lower.as_str());
    let mut out: Vec<char> = Vec::new();
    let mut i: usize = 0;
    while i < cs.len()
        invariant
            i <= cs@.len(),
            cs@ == lowercase_of_str(name@),
            out@ =~= cs@.take(i as int).map_values(|c: char| if c == ' ' { '-' } else { c }),
        decreases cs@.len() - i,
    {
        let c = cs[i];
        out.push(if c == ' ' { '-' } else { c });
        proof {
            assert(cs@.take(i as int + 1) =~= cs@.take(i as int).push(c));
        }
        i = i + 1;
    }
    assert(cs@.take(i as int) =~= cs@);
    string_from_chars(out.as_slice())
}

impl MurmurApp {
    /// Sends the input line (see `send_done`).
    pub fn send_message(&mut self) -> (effects: Vec<UiEffect>)
        requires
            old(self).wf(),
        ensures
            final(self).wf(),
            send_done(*old(self), *final(self), effects@),
    {
        let content = trim(self.state.input_buffer.as_str()).to_owned();
        let cs = chars_of(content.as_str());
        if cs.len() == 0 {
            return Vec::new();
        }
        if cs[0] == '/' {
            return self.handle_command(content.as_str());
        }
        let mut effects: Vec<UiEffect> = Vec::new();
        let dm_peer = match &self.state.active_dm_peer {
            Some(p) => Some(p.clone()),
            None => None,
        };
        if let Some(peer) = dm_peer {
            let dm = DirectMessage {
                id: new_uuid_v4(),
                from_peer_id: self.state.profile.peer_id.clone(),
                from_name: self.state.profile.display_name.clone(),
                to_peer_id: peer,
                content,
                timestamp: now_unix_micros(),
            };
            self.state.add_direct_message(dm.clone());
            effects.push(UiEffect::Send(NetCommand::SendDirectMessage(dm)));
        } else {
            let target = match (self.state.active_server, self.state.active_channel) {
                (Some(si), Some(ci)) => if si < self.state.servers.len() && ci < self.state.servers[si].channels.len() {
                    Some((si, ci))
                } else {
                    None
                },
                _ => None,
            };
            if let Some((si, ci)) = target {
                let msg = ChatMessage::new(
                    self.state.servers[si].id.clone(),
                    self.state.servers[si].channels[ci].id.clone(),
                    self.state.profile.peer_id.clone(),
                    self.state.profile.display_name.clone(),
                    content,
                );
                let copy = msg.clone();
                let ghost topic = topic_of(msg.server_id@, msg.channel_id@);
                let topic_text = msg.topic();
                self.state.add_message(msg);
                effects.push(UiEffect::SaveMessages(topic_text));
                effects.push(UiEffect::Send(NetCommand::SendMessage(copy)));
                assert(self.state.messages_of(topic).last() == msg);
                assert(reactions_view(copy.reactions@).len() == copy.reactions@.len());
                assert(reactions_view(msg.reactions@).len() == msg.reactions@.len());
            }
        }
        self.state.input_buffer = String::new();
        effects
    }

    /// Confirms the open dialog (see `confirm_done`).
    pub fn confirm_modal(&mut self) -> (effects: Vec<UiEffect>)
        requires
            old(self).wf(),
        ensures
            final(self).wf(),
            confirm_done(*old(self), *final(self), effects@),
    {
        let input = trim(self.modal_input.as_str()).to_owned();
        let mut effects: Vec<UiEffect> = Vec::new();
        if chars_of(input.as_str()).len() == 0 {
            self.modal = ActiveModal::Closed;
            return effects;
        }
        proof {
            reveal_strlit("general");
            assert("general"@ =~= general());
        }
        match self.modal {
            ActiveModal::CreateServer | ActiveModal::JoinServer => {
                let server = Server::new(input);
                let topic = server.topic_for_channel("general");
                let ghost before = self.state.servers@;
                if self.state.add_server(server) {
                    assert(self.state.servers@.drop_last() =~= before);
                    effects.push(UiEffect::SaveServers);
                }
                effects.push(UiEffect::Send(NetCommand::JoinServer(topic)));
            },
            ActiveModal::CreateChannel => {
                if let Some(si) = self.state.active_server {
                    if si < self.state.servers.len() {
                        let channel = Channel { id: channel_id_from_name(input.as_str()), name: input };
                        let server_id = self.state.servers[si].id.clone();
                        if self.state.add_channel_to_server(server_id.as_str(), channel.clone()) {
                            effects.push(UiEffect::SaveServers);
                        }
                        effects.push(UiEffect::Send(NetCommand::CreateChannel { server_id, channel }));
                    }
                }
            },
            ActiveModal::ChangeDisplayName => {
                self.state.set_display_name(input);
                effects.push(UiEffect::SaveDisplayName);
                effects.push(UiEffect::Send(NetCommand::UpdatePresence(self.state.profile.status)));
            },
            ActiveModal::ConnectPeer => {
                if let Some(addr) = parse_multiaddr(input.as_str()) {
                    effects.push(UiEffect::Send(NetCommand::Dial(addr)));
                }
            },
            _ => {},
        }
        self.modal = ActiveModal::Closed;
        effects
    }
}

/// `e` starts voice in `topic`.
pub open spec fn is_start_voice(e: UiEffect, topic: Seq<char>) -> bool {
    match e {
        UiEffect::Send(NetCommand::StartVoice(t)) => t@ == topic,
        _ => false,
    }
}

/// `e` starts sharing the screen in `topic`.
pub open spec fn is_start_share(e: UiEffect, topic: Seq<char>) -> bool {
    match e {
        UiEffect::Send(NetCommand::StartScreenShare(t)) => t@ == topic,
        _ => false,
    }
}

/// `e` leaves `topic`.
pub open spec fn is_leave(e: UiEffect, topic: Seq<char>) -> bool {
    match e {
        UiEffect::Send(NetCommand::LeaveServer(t)) => t@ == topic,
        _ => false,
    }
}

/// The topics of the channels of a server, in order.
pub open spec fn server_topics(s: Server) -> Seq<Seq<char>> {
    s.channels@.map_values(|c: Channel| topic_of(s.id@, c.id@))
}

/// What toggling voice does. Joining remembers the selected channel's name
/// and starts voice in its topic; leaving stops voice, screen sharing,
/// muting and deafening, and forgets the voice peers and channel.
pub open spec fn voice_toggled(a: MurmurApp, b: MurmurApp, effects: Seq<UiEffect>) -> bool {
    if !a.state.voice_active {
        &&& b == (MurmurApp {
            state: AppState { voice_active: true, voice_channel_name: b.state.voice_channel_name, ..a.state },
            ..a
        })
        &&& match a.state.current_topic_spec() {
            Some(t) => {
                &&& b.state.voice_channel_name == Some(
                    a.state.servers@[a.state.active_server->0 as int].channels@[a.state.active_channel->0 as int].name,
                )
                &&& effects.len() == 1
                &&& is_start_voice(effects[0], t)
            },
            None => b.state.voice_channel_name == a.state.voice_channel_name && effects.len() == 0,
        }
    } else {
        &&& b == (MurmurApp {
            state: AppState {
                voice_active: false,
                screen_sharing: false,
                voice_muted: false,
                voice_deafened: false,
                voice_peers: b.state.voice_peers,
                voice_channel_name: None,
                ..a.state
            },
            ..a
        })
        &&& b.state.voice_peers@.len() == 0
        &&& effects == seq![UiEffect::Send(NetCommand::StopVoice)]
    }
}

/// What toggling screen sharing does: starting shares in the selected
/// channel's topic, if any; stopping announces the stop.
pub open spec fn share_toggled(a: MurmurApp, b: MurmurApp, effects: Seq<UiEffect>) -> bool {
    &&& b == (MurmurApp { state: AppState { screen_sharing: !a.state.screen_sharing, ..a.state }, ..a })
    &&& if !a.state.screen_sharing {
        match a.state.current_topic_spec() {
            Some(t) => effects.len() == 1 && is_start_share(effects[0], t),
            None => effects.len() == 0,
        }
    } else {
        effects == seq![UiEffect::Send(NetCommand::StopScreenShare)]
    }
}

/// What removing the server at `idx` does: nothing when there is none;
/// otherwise the server goes, and if it was selected the first server (if
/// any) is selected instead, with its first channel when `reset_channel`.
pub open spec fn server_removed(a: MurmurApp, idx: usize, reset_channel: bool, b: MurmurApp) -> bool {
    if idx < a.state.servers@.len() {
        &&& b == (MurmurApp {
            state: AppState {
                servers: b.state.servers,
                active_server: b.state.active_server,
                active_channel: b.state.active_channel,
                ..a.state
            },
            ..a
        })
        &&& b.state.servers@ == a.state.servers@.remove(idx as int)
        &&& if a.state.active_server == Some(idx) {
            &&& b.state.active_server == if b.state.servers@.len() == 0 { None } else { Some(0usize) }
            &&& b.state.active_channel == if reset_channel { Some(0usize) } else { a.state.active_channel }
        } else {
            b.state.active_server == a.state.active_server && b.state.active_channel == a.state.active_channel
        }
    } else {
        b == a
    }
}

/// Leaving the server at `idx`: leave the topics of all its channels, in
/// order, then remove it.
pub open spec fn server_left(a: MurmurApp, idx: usize, b: MurmurApp, effects: Seq<UiEffect>) -> bool {
    &&& server_removed(a, idx, false, b)
    &&& effects.len() == if idx < a.state.servers@.len() { server_topics(a.state.servers@[idx as int]).len() } else { 0 }
    &&& forall|i: int| 0 <= i < effects.len() ==> is_leave(#[trigger] effects[i], server_topics(a.state.servers@[idx as int])[i])
}

/// Selecting server `idx` selects its first channel, leaves the direct
/// messages and joins the selected channel's topic.
pub open spec fn server_selected(a: MurmurApp, idx: usize, b: MurmurApp, effects: Seq<UiEffect>) -> bool {
    &&& b == (MurmurApp {
        state: AppState { active_server: Some(idx), active_channel: Some(0usize), active_dm_peer: None, ..a.state },
        ..a
    })
    &&& joins_current(effects, b.state.current_topic_spec())
}

/// Selecting channel `idx` leaves the direct messages and joins the
/// selected channel's topic.
pub open spec fn channel_selected(a: MurmurApp, idx: usize, b: MurmurApp, effects: Seq<UiEffect>) -> bool {
    &&& b == (MurmurApp { state: AppState { active_channel: Some(idx), active_dm_peer: None, ..a.state }, ..a })
    &&& joins_current(effects, b.state.current_topic_spec())
}

impl MurmurApp {
    /// A command to join the selected channel's topic, if one is selected.
    fn join_current(&self) -> (r: Vec<UiEffect>)
        ensures
            joins_current(r@, self.state.current_topic_spec()),
    {
        let mut r: Vec<UiEffect> = Vec::new();
        if let Some(topic) = self.state.current_topic() {
            r.push(UiEffect::Send(NetCommand::JoinServer(topic)));
        }
        r
    }

    /// Selects a server (see `server_selected`).
    pub fn select_server(&mut self, idx: usize) -> (effects: Vec<UiEffect>)
        ensures
            server_selected(*old(self), idx, *final(self), effects@),
    {
        self.state.active_server = Some(idx);
        self.state.active_channel = Some(0);
        self.state.active_dm_peer = None;
        self.join_current()
    }

    /// Selects a channel of the selected server (see `channel_selected`).
    pub fn select_channel(&mut self, idx: usize) -> (effects: Vec<UiEffect>)
        ensures
            channel_selected(*old(self), idx, *final(self), effects@),
    {
        self.state.active_channel = Some(idx);
        self.state.active_dm_peer = None;
        self.join_current()
    }

    /// Joins or leaves voice (see `voice_toggled`).
    pub fn toggle_voice(&mut self) -> (effects: Vec<UiEffect>)
        requires
            old(self).wf(),
        ensures
            final(self).wf(),
            voice_toggled(*old(self), *final(self), effects@),
    {
        let mut effects: Vec<UiEffect> = Vec::new();
        self.state.voice_active = !self.state.voice_active;
        if self.state.voice_active {
            if let (Some(si), Some(ci)) = (self.state.active_server, self.state.active_channel) {
                if si < self.state.servers.len() && ci < self.state.servers[si].channels.len() {
                    self.state.voice_channel_name = Some(self.state.servers[si].channels[ci].name.clone());
                }
            }
            if let Some(topic) = self.state.current_topic() {
                effects.push(UiEffect::Send(NetCommand::StartVoice(topic)));
            }
        } else {
            effects.push(UiEffect::Send(NetCommand::StopVoice));
            self.state.screen_sharing = false;
            self.state.voice_muted = false;
            self.state.voice_deafened = false;
            self.state.voice_peers = Vec::new();
            self.state.voice_channel_name = None;
        }
        effects
    }

    /// Starts or stops sharing the screen (see `share_toggled`).
    pub fn toggle_screen_share(&mut self) -> (effects: Vec<UiEffect>)
        ensures
            share_toggled(*old(self), *final(self), effects@),
    {
        let mut effects: Vec<UiEffect> = Vec::new();
        self.state.screen_sharing = !self.state.screen_sharing;
        if self.state.screen_sharing {
            if let Some(topic) = self.state.current_topic() {
                effects.push(UiEffect::Send(NetCommand::StartScreenShare(topic)));
            }
        } else {
            effects.push(UiEffect::Send(NetCommand::StopScreenShare));
        }
        effects
    }

    /// Removes the server at `idx`, if any (see `server_removed`).
    fn remove_server(&mut self, idx: usize, reset_channel: bool)
        ensures
            server_removed(*old(self), idx, reset_channel, *final(self)),
    {
        if idx < self.state.servers.len() {
            self.state.servers.remove(idx);
            if self.state.active_server == Some(idx) {
                self.state.active_server = if self.state.servers.len() == 0 { None } else { Some(0) };
                if reset_channel {
                    self.state.active_channel = Some(0);
                }
            }
        }
    }

    /// Deletes the server at `idx`: as `server_removed`, selecting the
    /// first channel when the deleted server was selected.
    pub fn delete_server(&mut self, idx: usize)
        ensures
            server_removed(*old(self), idx, true, *final(self)),
    {
        self.remove_server(idx, true);
    }

    /// Leaves the server at `idx` (see `server_left`).
    pub fn leave_server(&mut self, idx: usize) -> (effects: Vec<UiEffect>)
        ensures
            server_left(*old(self), idx, *final(self), effects@),
    {
        let mut effects: Vec<UiEffect> = Vec::new();
        if idx < self.state.servers.len() {
            let server = &self.state.servers[idx];
            let mut i: usize = 0;
            while i < server.channels.len()
                invariant
                    *server == self.state.servers@[idx as int],
                    i <= server.channels@.len(),
                    effects@.len() == i,
                    forall|j: int| 0 <= j < i ==> is_leave(#[trigger] effects@[j], server_topics(*server)[j]),
                decreases server.channels@.len() - i,
            {
                let topic = server.topic_for_channel(server.channels[i].id.as_str());
                effects.push(UiEffect::Send(NetCommand::LeaveServer(topic)));
                i = i + 1;
            }
        }
        self.remove_server(idx, false);
        effects
    }
}

/// The interface once the context menu is dismissed, as every action but
/// opening or closing that menu dismisses it.
pub open spec fn menu_dismissed(a: MurmurApp, message: Message) -> MurmurApp {
    match message {
        Message::OpenContextMenu(_) | Message::CloseContextMenu => a,
        _ => MurmurApp { context_menu: None, ..a },
    }
}

/// `b` is `a` with the dialog `modal` open on an empty input.
pub open spec fn dialog_opened(a: MurmurApp, modal: ActiveModal, b: MurmurApp) -> bool {
    b == (MurmurApp { modal: modal, modal_input: b.modal_input, ..a }) && b.modal_input@.len() == 0
}

/// What one action of the interface does, after the context menu is
/// dismissed (see `menu_dismissed`).
pub open spec fn update_done(a0: MurmurApp, message: Message, b: MurmurApp, effects: Seq<UiEffect>) -> bool {
    let a = menu_dismissed(a0, message);
    match message {
        Message::InputChanged(v) => b == (MurmurApp { state: AppState { input_buffer: v, ..a.state }, ..a })
            && effects.len() == 0,
        Message::SendMessage => send_done(a, b, effects),
        Message::SelectServer(i) => server_selected(a, i, b, effects),
        Message::SelectChannel(i) => channel_selected(a, i, b, effects),
        Message::SelectDM(p) => b == (MurmurApp { state: AppState { active_dm_peer: Some(p), ..a.state }, ..a })
            && effects.len() == 0,
        Message::CreateServer => dialog_opened(a, ActiveModal::CreateServer, b) && effects.len() == 0,
        Message::JoinServer => dialog_opened(a, ActiveModal::JoinServer, b) && effects.len() == 0,
        Message::CreateChannel => dialog_opened(a, ActiveModal::CreateChannel, b) && effects.len() == 0,
        Message::ConnectToPeer => dialog_opened(a, ActiveModal::ConnectPeer, b) && effects.len() == 0,
        Message::ChangeDisplayName => b == (MurmurApp {
            modal: ActiveModal::ChangeDisplayName,
            modal_input: a.state.profile.display_name,
            ..a
        }) && effects.len() == 0,
        Message::ServerNameInput(v) => b == (MurmurApp { modal_input: v, ..a }) && effects.len() == 0,
        Message::ChannelNameInput(v) => b == (MurmurApp { modal_input: v, ..a }) && effects.len() == 0,
        Message::DisplayNameInput(v) => b == (MurmurApp { modal_input: v, ..a }) && effects.len() == 0,
        Message::ConnectAddrInput(v) => b == (MurmurApp { modal_input: v, ..a }) && effects.len() == 0,
        Message::ToggleVoice => voice_toggled(a, b, effects),
        Message::ToggleMute => b == (MurmurApp {
            state: AppState { voice_muted: !a.state.voice_muted, ..a.state },
            ..a
        }) && effects.len() == 0,
        Message::ToggleDeafen => b == (MurmurApp {
            state: AppState {
                voice_deafened: !a.state.voice_deafened,
                voice_muted: if !a.state.voice_deafened { true } else { a.state.voice_muted },
                ..a.state
            },
            ..a
        }) && effects.len() == 0,
        Message::ToggleScreenShare => share_toggled(a, b, effects),
        Message::NetEvent(e) => net_event_done(a, e, b, effects),
        Message::SetStatus(st) => b == (MurmurApp {
            state: AppState { profile: UserProfile { status: st, ..a.state.profile }, ..a.state },
            ..a
        }) && announces(effects, st),
        Message::OpenSettings => b == (MurmurApp { modal: ActiveModal::Settings, ..a })
            && effects == seq![UiEffect::ListAudioDevices],
        Message::CloseModal => b == (MurmurApp { modal: ActiveModal::Closed, ..a }) && effects.len() == 0,
        Message::ConfirmModal => confirm_done(a, b, effects),
        Message::OpenContextMenu(k) => b == (MurmurApp { context_menu: Some(k), ..a }) && effects.len() == 0,
        Message::CloseContextMenu => b == (MurmurApp { context_menu: None, ..a }) && effects.len() == 0,
        Message::DeleteServer(i) => server_removed(a, i, true, b) && effects.len() == 0,
        Message::LeaveServer(i) => server_left(a, i, b, effects),
        Message::Tick => b == a && announces(effects, a.state.profile.status),
        Message::AnimTick => b == (MurmurApp {
            anim_tick: if a.anim_tick == u64::MAX { 0 } else { (a.anim_tick + 1) as u64 },
            ..a
        }) && effects.len() == 0,
        Message::CopyToClipboard(t) => b == a && effects == seq![UiEffect::CopyToClipboard(t)],
        _ => b == a && effects.len() == 0,
    }
}

impl MurmurApp {
    /// Carries out one action of the interface (see `update_done`) and
    /// returns what the caller must then do.
    pub fn update(&mut self, message: Message) -> (effects: Vec<UiEffect>)
        requires
            old(self).wf(),
            message matches Message::NetEvent(NetEvent::MessageReceived(m))
                ==> (counts_as_unread(old(self).state, m) ==> old(self).state.total_unread < u32::MAX),
        ensures
            final(self).wf(),
            update_done(*old(self), message, *final(self), effects@),
    {
        match &message {
            Message::OpenContextMenu(_) | Message::CloseContextMenu => {},
            _ => {
                self.context_menu = None;
            },
        }
        let mut effects: Vec<UiEffect> = Vec::new();
        match message {
            Message::InputChanged(v) => {
                self.state.input_buffer = v;
            },
            Message::SendMessage => {
                effects = self.send_message();
            },
            Message::SelectServer(i) => {
                effects = self.select_server(i);
            },
            Message::SelectChannel(i) => {
                effects = self.select_channel(i);
            },
            Message::SelectDM(p) => {
                self.state.active_dm_peer = Some(p);
            },
            Message::CreateServer => {
                self.modal = ActiveModal::CreateServer;
                self.modal_input = String::new();
            },
            Message::JoinServer => {
                self.modal = ActiveModal::JoinServer;
                self.modal_input = String::new();
            },
            Message::CreateChannel => {
                self.modal = ActiveModal::CreateChannel;
                self.modal_input = String::new();
            },
            Message::ConnectToPeer => {
                self.modal = ActiveModal::ConnectPeer;
                self.modal_input = String::new();
            },
            Message::ChangeDisplayName => {
                self.modal = ActiveModal::ChangeDisplayName;
                self.modal_input = self.state.profile.display_name.clone();
            },
            Message::ServerNameInput(v) => {
                self.modal_input = v;
            },
            Message::ChannelNameInput(v) => {
                self.modal_input = v;
            },
            Message::DisplayNameInput(v) => {
                self.modal_input = v;
            },
            Message::ConnectAddrInput(v) => {
                self.modal_input = v;
            },
            Message::ToggleVoice => {
                effects = self.toggle_voice();
            },
            Message::ToggleMute => {
                self.state.voice_muted = !self.state.voice_muted;
            },
            Message::ToggleDeafen => {
                self.state.voice_deafened = !self.state.voice_deafened;
                if self.state.voice_deafened {
                    self.state.voice_muted = true;
                }
            },
            Message::ToggleScreenShare => {
                effects = self.toggle_screen_share();
            },
            Message::NetEvent(e) => {
                effects = self.handle_net_event(e);
            },
            Message::SetStatus(st) => {
                self.state.profile.status = st;
                effects.push(UiEffect::Send(NetCommand::UpdatePresence(st)));
            },
            Message::OpenSettings => {
                self.modal = ActiveModal::Settings;
                effects.push(UiEffect::ListAudioDevices);
            },
            Message::CloseModal => {
                self.modal = ActiveModal::Closed;
            },
            Message::ConfirmModal => {
                effects = self.confirm_modal();
            },
            Message::OpenContextMenu(k) => {
                self.context_menu = Some(k);
            },
            Message::CloseContextMenu => {
                self.context_menu = None;
            },
            Message::DeleteServer(i) => {
                self.delete_server(i);
            },
            Message::LeaveServer(i) => {
                effects = self.leave_server(i);
            },
            Message::Tick => {
                effects.push(UiEffect::Send(NetCommand::UpdatePresence(self.state.profile.status)));
            },
            Message::AnimTick => {
                self.anim_tick = self.anim_tick.wrapping_add(1);
            },
            Message::CopyToClipboard(t) => {
                effects.push(UiEffect::CopyToClipboard(t));
            },
            Message::CopyMessageContent(_) | Message::CopyPeerId(_) | Message::MuteChannel(_) | Message::Noop => {},
        }
        effects
    }
}

} // verus!
