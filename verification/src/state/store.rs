//! The application's state: profile, servers, messages, peers, voice and
//! unread counts. Saving and loading it is the caller's; this module decides
//! what the state becomes.
use vstd::prelude::*;
use crate::types::{UserProfile, UserStatus, Server, Channel, ChatMessage, DirectMessage, topic_of, server_id_for, general};
use crate::keyed::{
    key_index, lookup, unique_keys, find_key, upsert, lemma_key_index, lemma_update_value,
    values_in, push_value, count_sum, count_of, lemma_count_sum_update, lemma_count_sum_remove,
    lemma_count_le_sum, lemma_count_sum_nonneg, lemma_push_new_key,
};
use crate::text::str_eq;

verus! {

/// A peer's state in the voice channel.
#[derive(Debug, Clone)]
pub struct VoicePeerState {
    pub peer_id: String,
    pub display_name: String,
    pub speaking: bool,
    pub muted: bool,
    pub deafened: bool,
}

/// The application's state.
#[derive(Debug)]
pub struct AppState {
    /// Our own profile.
    pub profile: UserProfile,
    pub servers: Vec<Server>,
    /// Messages by channel topic, oldest first.
    pub messages: Vec<(String, Vec<ChatMessage>)>,
    /// Direct messages by the other peer's id.
    pub direct_messages: Vec<(String, Vec<DirectMessage>)>,
    /// Known peers by peer id.
    pub peers: Vec<(String, UserProfile)>,
    pub active_server: Option<usize>,
    pub active_channel: Option<usize>,
    /// The peer whose direct messages are shown, if any.
    pub active_dm_peer: Option<String>,
    pub input_buffer: String,
    pub voice_active: bool,
    pub voice_muted: bool,
    pub voice_deafened: bool,
    pub screen_sharing: bool,
    /// Peers in voice with us, by peer id.
    pub voice_peers: Vec<(String, VoicePeerState)>,
    /// The voice channel we are connected to.
    pub voice_channel_name: Option<String>,
    /// Our listening addresses, to share with friends.
    pub listen_addrs: Vec<String>,
    /// Unread messages per topic.
    pub unread: Vec<(String, u32)>,
    /// All unread messages, for the window title.
    pub total_unread: u32,
}

/// The name of the server a fresh installation starts with.
pub open spec fn lobby_name() -> Seq<char> {
    seq!['m', 'u', 'r', 'm', 'u', 'r', '-', 'l', 'o', 'b', 'b', 'y']
}

/// The topic of the selected channel of `servers`, if one is selected and
/// exists.
pub open spec fn topic_at(servers: Seq<Server>, si: Option<usize>, ci: Option<usize>) -> Option<Seq<char>> {
    match (si, ci) {
        (Some(s), Some(c)) => if s < servers.len() && c < servers[s as int].channels@.len() {
            Some(topic_of(servers[s as int].id@, servers[s as int].channels@[c as int].id@))
        } else {
            None
        },
        _ => None,
    }
}

/// The index of the first server with the given id.
pub open spec fn server_index(servers: Seq<Server>, id: Seq<char>) -> Option<int>
    decreases servers.len(),
{
    if servers.len() == 0 {
        None
    } else {
        match server_index(servers.drop_last(), id) {
            Some(i) => Some(i),
            None => if servers.last().id@ == id { Some(servers.len() - 1) } else { None },
        }
    }
}

/// Whether a channel with the given id is in the list.
pub open spec fn has_channel(channels: Seq<Channel>, id: Seq<char>) -> bool {
    exists|i: int| 0 <= i < channels.len() && (#[trigger] channels[i]).id@ == id
}

/// The peer a direct message is filed under: the other side of it.
pub open spec fn dm_key(own_peer_id: Seq<char>, m: DirectMessage) -> Seq<char> {
    if m.from_peer_id@ == own_peer_id { m.to_peer_id@ } else { m.from_peer_id@ }
}


/// Removing the entry at `i` of a count list drops its key's count and
/// keeps the others.
proof fn lemma_lookup_remove_count(s: Seq<(String, u32)>, i: int, k: Seq<char>)
    requires
        unique_keys(s),
        0 <= i < s.len(),
    ensures
        count_of(s.remove(i), k) == if k == s[i].0@ { 0 } else { count_of(s, k) },
        k == s[i].0@ ==> key_index(s.remove(i), k) is None,
{
    let t = s.remove(i);
    crate::keyed::lemma_remove_unique(s, i);
    lemma_key_index(t, k);
    lemma_key_index(s, k);
    match key_index(t, k) {
        Some(j) => {
            let j2 = if j < i { j } else { j + 1 };
            assert(t[j] == s[j2]);
            crate::keyed::lemma_key_index_unique(s, j2);
            if k == s[i].0@ {
                assert(s[j2].0@ == s[i].0@);
            }
        },
        None => {
            match key_index(s, k) {
                Some(j) => {
                    if j != i {
                        let j2 = if j < i { j } else { j - 1 };
                        assert(t[j2] == s[j]);
                    }
                },
                None => {},
            }
        },
    }
}

/// The index of the first server with the given id.
fn find_server(servers: &Vec<Server>, id: &str) -> (r: Option<usize>)
    ensures
        match r {
            Some(i) => i < servers@.len() && server_index(servers@, id@) == Some(i as int),
            None => server_index(servers@, id@) is None,
        },
{
    let mut i: usize = 0;
    while i < servers.len()
        invariant
            i <= servers@.len(),
            server_index(servers@.take(i as int), id@) is None,
        decreases servers@.len() - i,
    {
        assert(servers@.take(i as int + 1).drop_last() =~= servers@.take(i as int));
        if str_eq(servers[i].id.as_str(), id) {
            proof { lemma_server_index_prefix(servers@, id@, i as int); }
            return Some(i);
        }
        i = i + 1;
    }
    assert(servers@.take(i as int) =~= servers@);
    None
}

/// A match in a prefix is the first match of the whole list.
proof fn lemma_server_index_prefix(servers: Seq<Server>, id: Seq<char>, i: int)
    requires
        0 <= i < servers.len(),
        server_index(servers.take(i), id) is None,
        servers[i].id@ == id,
    ensures
        server_index(servers, id) == Some(i),
    decreases servers.len(),
{
    if i == servers.len() - 1 {
        assert(servers.drop_last() =~= servers.take(i));
    } else {
        assert(servers.drop_last().take(i) =~= servers.take(i));
        lemma_server_index_prefix(servers.drop_last(), id, i);
    }
}

/// Whether a channel with the given id is listed.
fn channel_listed(channels: &Vec<Channel>, id: &str) -> (r: bool)
    ensures
        r == has_channel(channels@, id@),
{
    let mut i: usize = 0;
    while i < channels.len()
        invariant
            i <= channels@.len(),
            forall|j: int| 0 <= j < i ==> channels@[j].id@ != id@,
        decreases channels@.len() - i,
    {
        if str_eq(channels[i].id.as_str(), id) {
            assert(channels@[i as int].id@ == id@);
            return true;
        }
        i = i + 1;
    }
    false
}

/// Whether a message adds to the unread count: we did not send it and its
/// channel is not the selected one.
pub open spec fn counts_as_unread(s: AppState, msg: ChatMessage) -> bool {
    msg.sender_peer_id@ != s.profile.peer_id@
        && s.current_topic_spec() != Some(topic_of(msg.server_id@, msg.channel_id@))
}


/// The index at which `m` goes into `sorted` so that it follows every
/// message not later than it: the first index with a later timestamp.
pub open spec fn insert_position(sorted: Seq<ChatMessage>, m: ChatMessage) -> int
    decreases sorted.len(),
{
    if sorted.len() == 0 {
        0
    } else if sorted.last().timestamp > m.timestamp {
        insert_position(sorted.drop_last(), m)
    } else {
        sorted.len() as int
    }
}

/// `msgs` sorted by timestamp, oldest first, keeping the order of messages
/// with equal timestamps (a stable sort).
pub open spec fn sorted_by_time(msgs: Seq<ChatMessage>) -> Seq<ChatMessage>
    decreases msgs.len(),
{
    if msgs.len() == 0 {
        Seq::empty()
    } else {
        let s = sorted_by_time(msgs.drop_last());
        s.insert(insert_position(s, msgs.last()), msgs.last())
    }
}

/// Whether the timestamps never decrease.
pub open spec fn is_time_ordered(msgs: Seq<ChatMessage>) -> bool {
    forall|i: int, j: int| 0 <= i <= j < msgs.len() ==> msgs[i].timestamp <= msgs[j].timestamp
}

/// The topics of all channels of all servers, server by server.
pub open spec fn channel_topics(servers: Seq<Server>) -> Seq<Seq<char>>
    decreases servers.len(),
{
    if servers.len() == 0 {
        Seq::empty()
    } else {
        let s = servers.last();
        channel_topics(servers.drop_last()) + s.channels@.map_values(|c: Channel| topic_of(s.id@, c.id@))
    }
}


/// `msgs` sorted by timestamp, keeping the order of equal timestamps.
pub fn sort_by_time(msgs: Vec<ChatMessage>) -> (r: Vec<ChatMessage>)
    ensures
        r@ == sorted_by_time(msgs@),
{
    let ghost all = msgs@;
    let mut msgs = msgs;
    let count = msgs.len();
    assert(all.len() == count);
    let mut out: Vec<ChatMessage> = Vec::new();
    let mut n: usize = 0;
    while msgs.len() > 0
        invariant
            n <= all.len(),
            all.len() <= usize::MAX,
            msgs@ == all.skip(n as int),
            out@ == sorted_by_time(all.take(n as int)),
            is_time_ordered(out@),
        decreases msgs.len(),
    {
        let m = msgs.remove(0);
        assert(all[n as int] == m);
        assert(msgs@ =~= all.skip(n as int + 1));
        assert(all.take(n as int + 1).drop_last() =~= all.take(n as int));
        let p = position_for(&out, m.timestamp);
        proof { lemma_position_for(out@, m, p as int); }
        let ghost before = out@;
        out.insert(p, m);
        proof {
            assert forall|i: int, j: int| 0 <= i <= j < out@.len() implies out@[i].timestamp <= out@[j].timestamp by {
                if i < p && j > p {
                    assert(out@[i] == before[i]);
                    assert(out@[j] == before[j - 1]);
                } else if i < p && j == p {
                    assert(out@[i] == before[i]);
                } else if i == p && j > p {
                    assert(out@[j] == before[j - 1]);
                    assert(before[p as int].timestamp > m.timestamp);
                    assert(before[p as int].timestamp <= before[j - 1].timestamp);
                } else if i < p {
                    assert(out@[i] == before[i]);
                    assert(out@[j] == before[j]);
                } else if i > p {
                    assert(out@[i] == before[i - 1]);
                    assert(out@[j] == before[j - 1]);
                }
            }
        }
        n = n + 1;
    }
    assert(all.take(n as int) =~= all);
    out
}

/// The first index of `sorted` with a timestamp later than `t`, or its
/// length.
fn position_for(sorted: &Vec<ChatMessage>, t: i64) -> (r: usize)
    ensures
        r <= sorted@.len(),
        r == sorted@.len() || sorted@[r as int].timestamp > t,
        forall|i: int| 0 <= i < r ==> sorted@[i].timestamp <= t,
{
    let mut i: usize = 0;
    while i < sorted.len()
        invariant
            i <= sorted@.len(),
            forall|j: int| 0 <= j < i ==> sorted@[j].timestamp <= t,
        decreases sorted@.len() - i,
    {
        if sorted[i].timestamp > t {
            return i;
        }
        i = i + 1;
    }
    i
}

/// `position_for` finds `insert_position` on a time-ordered list; and
/// `insert_position` on a list that need not be ordered is the position
/// after the last message not later than `m`, scanning from the end.
proof fn lemma_position_for(sorted: Seq<ChatMessage>, m: ChatMessage, p: int)
    requires
        0 <= p <= sorted.len(),
        p == sorted.len() || sorted[p].timestamp > m.timestamp,
        forall|i: int| 0 <= i < p ==> sorted[i].timestamp <= m.timestamp,
        forall|i: int, j: int| 0 <= i <= j < sorted.len() ==> sorted[i].timestamp <= sorted[j].timestamp,
    ensures
        insert_position(sorted, m) == p,
    decreases sorted.len(),
{
    if sorted.len() > 0 {
        if p < sorted.len() {
            let rest = sorted.drop_last();
            assert(sorted.last().timestamp > m.timestamp) by {
                assert(sorted[p].timestamp <= sorted[sorted.len() - 1].timestamp);
            }
            if p < rest.len() {
                assert(rest[p] == sorted[p]);
            }
            lemma_position_for(rest, m, p);
        } else {
            assert(sorted.last() == sorted[p - 1]);
        }
    }
}

/// The last profile in `cached` with peer id `k`.
pub open spec fn last_cached(cached: Seq<UserProfile>, k: Seq<char>) -> Option<UserProfile>
    decreases cached.len(),
{
    if cached.len() == 0 {
        None
    } else if cached.last().peer_id@ == k {
        Some(cached.last())
    } else {
        last_cached(cached.drop_last(), k)
    }
}

/// A cached profile as it is loaded: marked offline.
pub open spec fn loaded_profile(p: Option<UserProfile>) -> Option<UserProfile> {
    match p {
        Some(c) => Some(UserProfile { status: UserStatus::Offline, ..c }),
        None => None,
    }
}

/// A server as `Server::new` makes it for `name`.
pub open spec fn is_fresh_server(s: Server, name: Seq<char>) -> bool {
    &&& s.id@ == server_id_for(name)
    &&& s.name@ == name
    &&& s.channels@.len() == 1
    &&& s.channels@[0].id@ == general()
    &&& s.channels@[0].name@ == general()
    &&& s.peers@.len() == 0
    &&& s.owner_peer_id@.len() == 0
}

/// `t` is `s` with `msg` filed under its topic, counted as unread when
/// `counts_as_unread` says so, and nothing else changed.
pub open spec fn message_added(s: AppState, msg: ChatMessage, t: AppState) -> bool {
    let topic = topic_of(msg.server_id@, msg.channel_id@);
    let extra: int = if counts_as_unread(s, msg) { 1 } else { 0 };
    &&& t.messages_of(topic) == s.messages_of(topic).push(msg)
    &&& forall|k: Seq<char>| k != topic ==> #[trigger] t.messages_of(k) == s.messages_of(k)
    &&& t.unread_of(topic) == s.unread_of(topic) + extra
    &&& forall|k: Seq<char>| k != topic ==> #[trigger] t.unread_of(k) == s.unread_of(k)
    &&& t.total_unread == s.total_unread + extra
    &&& t == (AppState { messages: t.messages, unread: t.unread, total_unread: t.total_unread, ..s })
}

/// A channel message is filed at the end of the history of its own topic,
/// the one built from its server id and channel id; every other history,
/// the selection, the servers and the profile stay as they were.
pub proof fn lemma_message_filed(s: AppState, msg: ChatMessage, t: AppState)
    requires
        message_added(s, msg, t),
    ensures
        t.messages_of(topic_of(msg.server_id@, msg.channel_id@)).len()
            == s.messages_of(topic_of(msg.server_id@, msg.channel_id@)).len() + 1,
        t.messages_of(topic_of(msg.server_id@, msg.channel_id@)).last() == msg,
        t.messages_of(topic_of(msg.server_id@, msg.channel_id@)).drop_last()
            == s.messages_of(topic_of(msg.server_id@, msg.channel_id@)),
        forall|k: Seq<char>| k != topic_of(msg.server_id@, msg.channel_id@) ==> #[trigger] t.messages_of(k) == s.messages_of(k),
        t.servers == s.servers,
        t.active_server == s.active_server,
        t.active_channel == s.active_channel,
        t.profile == s.profile,
        t.direct_messages == s.direct_messages,
        t.peers == s.peers,
{
    assert(s.messages_of(topic_of(msg.server_id@, msg.channel_id@)).push(msg).drop_last()
        =~= s.messages_of(topic_of(msg.server_id@, msg.channel_id@)));
}

/// How a channel message is counted: one from another peer is unread, and
/// adds one to its topic's count and to the total, exactly when its topic
/// (server id and channel id) is not that of the selected channel, which is
/// the selected server's id with the selected channel's id; with no valid
/// selection every such message is unread. Our own messages never are.
pub proof fn lemma_unread_counting(s: AppState, msg: ChatMessage, t: AppState)
    requires
        message_added(s, msg, t),
    ensures
        ({
            let topic = topic_of(msg.server_id@, msg.channel_id@);
            let selected = match (s.active_server, s.active_channel) {
                (Some(si), Some(ci)) => if si < s.servers@.len() && ci < s.servers@[si as int].channels@.len() {
                    Some(topic_of(s.servers@[si as int].id@, s.servers@[si as int].channels@[ci as int].id@))
                } else {
                    None
                },
                _ => None,
            };
            &&& msg.sender_peer_id@ == s.profile.peer_id@ ==> t.total_unread == s.total_unread
                && t.unread_of(topic) == s.unread_of(topic)
            &&& msg.sender_peer_id@ != s.profile.peer_id@ ==> (
                (selected != Some(topic) <==> t.total_unread == s.total_unread + 1)
                && (selected != Some(topic) ==> t.unread_of(topic) == s.unread_of(topic) + 1)
                && (selected == Some(topic) ==> t.total_unread == s.total_unread
                    && t.unread_of(topic) == s.unread_of(topic)))
            &&& forall|k: Seq<char>| k != topic ==> #[trigger] t.unread_of(k) == s.unread_of(k)
        }),
{
}

/// `t` is `s` with the direct message `msg` filed under the other peer, and
/// nothing else changed.
pub open spec fn dm_added(s: AppState, msg: DirectMessage, t: AppState) -> bool {
    let k = dm_key(s.profile.peer_id@, msg);
    &&& t.dms_with(k) == s.dms_with(k).push(msg)
    &&& forall|j: Seq<char>| j != k ==> #[trigger] t.dms_with(j) == s.dms_with(j)
    &&& t == (AppState { direct_messages: t.direct_messages, ..s })
}

/// `t` is `s` with `server` appended unless a server with its id is listed,
/// and nothing else changed.
pub open spec fn server_added(s: AppState, server: Server, t: AppState) -> bool {
    &&& server_index(s.servers@, server.id@) is Some ==> t.servers@ == s.servers@
    &&& server_index(s.servers@, server.id@) is None ==> t.servers@ == s.servers@.push(server)
    &&& t == (AppState { servers: t.servers, ..s })
}

/// `t` is `s` with `channel` appended to the first server with id
/// `server_id`, unless that server has a channel with the channel's id, and
/// nothing else changed.
pub open spec fn channel_added(s: AppState, server_id: Seq<char>, channel: Channel, t: AppState) -> bool {
    &&& t.servers@.len() == s.servers@.len()
    &&& match server_index(s.servers@, server_id) {
        Some(i) => {
            &&& forall|j: int| 0 <= j < s.servers@.len() && j != i ==> t.servers@[j] == s.servers@[j]
            &&& t.servers@[i].id == s.servers@[i].id
            &&& t.servers@[i].name == s.servers@[i].name
            &&& t.servers@[i].owner_peer_id == s.servers@[i].owner_peer_id
            &&& t.servers@[i].peers@ == s.servers@[i].peers@
            &&& if has_channel(s.servers@[i].channels@, channel.id@) {
                t.servers@[i].channels@ == s.servers@[i].channels@
            } else {
                t.servers@[i].channels@ == s.servers@[i].channels@.push(channel)
            }
        },
        None => t.servers@ == s.servers@,
    }
    &&& t == (AppState { servers: t.servers, ..s })
}

/// `t` is `s` with the peer `peer_id` known under the given name and status
/// (keeping the peer id its profile had, if it was known), and nothing else
/// changed.
pub open spec fn peer_updated(s: AppState, peer_id: Seq<char>, name: String, status: UserStatus, t: AppState) -> bool {
    &&& lookup(t.peers@, peer_id) matches Some(p) && p.peer_id@ == (match lookup(s.peers@, peer_id) {
        Some(q) => q.peer_id@,
        None => peer_id,
    }) && p.display_name == name && p.status == status
    &&& forall|k: Seq<char>| k != peer_id ==> #[trigger] lookup(t.peers@, k) == lookup(s.peers@, k)
    &&& t == (AppState { peers: t.peers, ..s })
}

/// `t` is `s` with the peer `peer_id` added under the given name and status
/// unless it is known, and nothing else changed.
pub open spec fn peer_added_if_new(s: AppState, peer_id: String, name: String, status: UserStatus, t: AppState) -> bool {
    &&& match lookup(s.peers@, peer_id@) {
        Some(p) => lookup(t.peers@, peer_id@) == Some(p),
        None => lookup(t.peers@, peer_id@) matches Some(p) && p.peer_id == peer_id
            && p.display_name == name && p.status == status,
    }
    &&& forall|k: Seq<char>| k != peer_id@ ==> #[trigger] lookup(t.peers@, k) == lookup(s.peers@, k)
    &&& t == (AppState { peers: t.peers, ..s })
}

/// `t` is `s` with the peer `peer_id`, if known, marked offline, and nothing
/// else changed.
pub open spec fn peer_marked_offline(s: AppState, peer_id: Seq<char>, t: AppState) -> bool {
    &&& match lookup(s.peers@, peer_id) {
        Some(p) => lookup(t.peers@, peer_id) matches Some(q) && q.peer_id == p.peer_id
            && q.display_name == p.display_name && q.status == UserStatus::Offline,
        None => lookup(t.peers@, peer_id) is None,
    }
    &&& forall|k: Seq<char>| k != peer_id ==> #[trigger] lookup(t.peers@, k) == lookup(s.peers@, k)
    &&& t == (AppState { peers: t.peers, ..s })
}

/// `t` is `s` with `addr` appended to the listening addresses unless listed,
/// and nothing else changed.
pub open spec fn listen_addr_added(s: AppState, addr: String, t: AppState) -> bool {
    &&& crate::text::views(s.listen_addrs@).contains(addr@) ==> t.listen_addrs@ == s.listen_addrs@
    &&& !crate::text::views(s.listen_addrs@).contains(addr@) ==> t.listen_addrs@ == s.listen_addrs@.push(addr)
    &&& t == (AppState { listen_addrs: t.listen_addrs, ..s })
}

impl AppState {
    /// The state's maps have no repeated keys, and the total unread count is
    /// the sum of the per-topic counts.
    pub open spec fn wf(self) -> bool {
        &&& unique_keys(self.messages@)
        &&& unique_keys(self.direct_messages@)
        &&& unique_keys(self.peers@)
        &&& unique_keys(self.voice_peers@)
        &&& unique_keys(self.unread@)
        &&& self.total_unread == count_sum(self.unread@)
    }

    /// The topic of the selected channel.
    pub open spec fn current_topic_spec(self) -> Option<Seq<char>> {
        topic_at(self.servers@, self.active_server, self.active_channel)
    }

    /// The messages of a topic.
    pub open spec fn messages_of(self, topic: Seq<char>) -> Seq<ChatMessage> {
        values_in(self.messages@, topic)
    }

    /// The direct messages exchanged with a peer.
    pub open spec fn dms_with(self, peer: Seq<char>) -> Seq<DirectMessage> {
        values_in(self.direct_messages@, peer)
    }

    /// The unread count of a topic.
    pub open spec fn unread_of(self, topic: Seq<char>) -> int {
        count_of(self.unread@, topic)
    }

    /// The state at start-up, for our peer id and display name: the saved
    /// servers, or else the single server `murmur-lobby`; the cached peer
    /// profiles, all marked offline (a peer cached twice keeps the later
    /// profile); the first channel of the first server selected; nothing
    /// else yet.
    pub fn new(
        peer_id: String,
        display_name: String,
        saved_servers: Option<Vec<Server>>,
        cached_peers: Vec<UserProfile>,
    ) -> (r: Self)
        ensures
            r.wf(),
            r.profile.peer_id == peer_id,
            r.profile.display_name == display_name,
            r.profile.status == UserStatus::Online,
            match saved_servers {
                Some(v) => r.servers@ == v@,
                None => r.servers@.len() == 1 && is_fresh_server(r.servers@[0], lobby_name()),
            },
            forall|k: Seq<char>| #[trigger] lookup(r.peers@, k) == loaded_profile(last_cached(cached_peers@, k)),
            r.peers@.len() <= cached_peers@.len(),
            r.active_server == Some(0usize),
            r.active_channel == Some(0usize),
            r.active_dm_peer is None,
            r.messages@.len() == 0,
            r.direct_messages@.len() == 0,
            r.voice_peers@.len() == 0,
            r.unread@.len() == 0,
            r.total_unread == 0,
            !r.voice_active && !r.voice_muted && !r.voice_deafened && !r.screen_sharing,
            r.input_buffer@.len() == 0,
            r.voice_channel_name is None,
            r.listen_addrs@.len() == 0,
    {
        let mut peers: Vec<(String, UserProfile)> = Vec::new();
        let mut cached = cached_peers;
        let ghost all = cached@;
        let count = cached.len();
        assert(all.len() == count);
        let mut n: usize = 0;
        while cached.len() > 0
            invariant
                n <= all.len(),
                all.len() <= usize::MAX,
                cached@ == all.skip(n as int),
                unique_keys(peers@),
                peers@.len() <= n,
                forall|k: Seq<char>| #[trigger] lookup(peers@, k) == loaded_profile(last_cached(all.take(n as int), k)),
            decreases cached.len(),
        {
            let mut p = cached.remove(0);
            assert(all[n as int] == p);
            assert(cached@ =~= all.skip(n as int + 1));
            p.status = UserStatus::Offline;
            let key = p.peer_id.clone();
            let ghost before = peers@;
            proof { lemma_key_index(before, key@); }
            upsert(&mut peers, &key, p);
            proof {
                let prefix = all.take(n as int + 1);
                assert(prefix.drop_last() =~= all.take(n as int));
                assert(prefix.last() == all[n as int]);
                assert forall|k: Seq<char>| #[trigger] lookup(peers@, k) == loaded_profile(last_cached(prefix, k)) by {
                    if k != key@ {
                        assert(lookup(peers@, k) == lookup(before, k));
                    }
                }
            }
            n = n + 1;
        }
        assert(all.skip(n as int).len() == 0);
        assert(all.take(n as int) =~= all);
        let servers = match saved_servers {
            Some(v) => v,
            None => {
                let mut v: Vec<Server> = Vec::new();
                proof {
                    reveal_strlit("murmur-lobby");
                    assert("murmur-lobby"@ =~= lobby_name());
                }
                v.push(Server::new("murmur-lobby".to_owned()));
                v
            },
        };
        AppState {
            profile: UserProfile { peer_id, display_name, status: UserStatus::Online },
            servers,
            messages: Vec::new(),
            direct_messages: Vec::new(),
            peers,
            active_server: Some(0),
            active_channel: Some(0),
            active_dm_peer: None,
            input_buffer: String::new(),
            voice_active: false,
            voice_muted: false,
            voice_deafened: false,
            screen_sharing: false,
            voice_peers: Vec::new(),
            voice_channel_name: None,
            listen_addrs: Vec::new(),
            unread: Vec::new(),
            total_unread: 0,
        }
    }

    /// Files a channel message under its topic. It counts as unread unless
    /// we sent it or its channel is the selected one.
    pub fn add_message(&mut self, msg: ChatMessage)
        requires
            old(self).wf(),
            counts_as_unread(*old(self), msg) ==> old(self).total_unread < u32::MAX,
        ensures
            final(self).wf(),
            message_added(*old(self), msg, *final(self)),
            ({
                let topic = topic_of(msg.server_id@, msg.channel_id@);
                if msg.sender_peer_id@ != old(self).profile.peer_id@ && old(self).current_topic_spec() != Some(topic) {
                    &&& final(self).unread_of(topic) == old(self).unread_of(topic) + 1
                    &&& final(self).total_unread == old(self).total_unread + 1
                } else {
                    &&& final(self).unread_of(topic) == old(self).unread_of(topic)
                    &&& final(self).total_unread == old(self).total_unread
                }
            }),
    {
        let topic = msg.topic();
        let is_from_us = str_eq(msg.sender_peer_id.as_str(), self.profile.peer_id.as_str());
        let is_active = match self.current_topic() {
            Some(t) => str_eq(t.as_str(), topic.as_str()),
            None => false,
        };
        if !is_from_us && !is_active {
            self.increment_unread(&topic);
        }
        let ghost mid = *self;
        assert forall|k: Seq<char>| k != topic@ implies #[trigger] mid.unread_of(k) == old(self).unread_of(k) by {}
        push_value(&mut self.messages, &topic, msg);
        assert(self.unread == mid.unread);
        assert forall|k: Seq<char>| k != topic@ implies #[trigger] self.unread_of(k) == old(self).unread_of(k) by {
            assert(mid.unread_of(k) == old(self).unread_of(k));
        }
        proof {
            assert forall|k: Seq<char>| k != topic@ implies #[trigger] values_in(self.messages@, k) == values_in(old(self).messages@, k) by {}
        }
    }

    /// Adds one to the unread count of a topic, and to the total.
    fn increment_unread(&mut self, topic: &String)
        requires
            old(self).wf(),
            old(self).total_unread < u32::MAX,
        ensures
            final(self).wf(),
            final(self).unread_of(topic@) == old(self).unread_of(topic@) + 1,
            forall|k: Seq<char>| k != topic@ ==> #[trigger] final(self).unread_of(k) == old(self).unread_of(k),
            final(self).total_unread == old(self).total_unread + 1,
            *final(self) == (AppState { unread: final(self).unread, total_unread: final(self).total_unread, ..*old(self) }),
    {
        let ghost before = self.unread@;
        proof { lemma_key_index(before, topic@); lemma_count_sum_nonneg(before); }
        let current: u32 = match find_key(&self.unread, topic.as_str()) {
            Some(i) => {
                proof { lemma_count_le_sum(before, i as int); }
                self.unread[i].1
            },
            None => 0,
        };
        upsert(&mut self.unread, topic, current + 1);
        proof {
            match key_index(before, topic@) {
                Some(i) => {
                    assert(self.unread@ == before.update(i, (*topic, (current + 1) as u32)));
                    lemma_count_sum_update(before, i, (*topic, (current + 1) as u32));
                },
                None => {
                    assert(self.unread@.drop_last() == before);
                    assert(self.unread@.last().1 == current + 1);
                },
            }
        }
        self.total_unread = self.total_unread + 1;
    }

    /// Clears the unread count of a topic (when switching to it), and takes
    /// it off the total.
    pub fn mark_read(&mut self, topic: &str)
        requires
            old(self).wf(),
        ensures
            final(self).wf(),
            final(self).unread_of(topic@) == 0,
            key_index(final(self).unread@, topic@) is None,
            forall|k: Seq<char>| k != topic@ ==> #[trigger] final(self).unread_of(k) == old(self).unread_of(k),
            final(self).total_unread == old(self).total_unread - old(self).unread_of(topic@),
            *final(self) == (AppState { unread: final(self).unread, total_unread: final(self).total_unread, ..*old(self) }),
    {
        let ghost before = self.unread@;
        proof { lemma_key_index(before, topic@); }
        if let Some(i) = find_key(&self.unread, topic) {
            let (_, count) = self.unread.remove(i);
            proof {
                lemma_count_sum_remove(before, i as int);
                lemma_count_le_sum(before, i as int);
                crate::keyed::lemma_remove_unique(before, i as int);
                assert forall|k: Seq<char>| k != topic@ implies #[trigger] count_of(self.unread@, k) == count_of(before, k) by {
                    lemma_lookup_remove_count(before, i as int, k);
                }
                lemma_lookup_remove_count(before, i as int, topic@);
                lemma_key_index(self.unread@, topic@);
            }
            self.total_unread = self.total_unread.saturating_sub(count);
        }
    }

    /// Files a direct message under the other peer.
    pub fn add_direct_message(&mut self, msg: DirectMessage)
        requires
            old(self).wf(),
        ensures
            final(self).wf(),
            dm_added(*old(self), msg, *final(self)),
    {
        let key = if str_eq(msg.from_peer_id.as_str(), self.profile.peer_id.as_str()) {
            msg.to_peer_id.clone()
        } else {
            msg.from_peer_id.clone()
        };
        push_value(&mut self.direct_messages, &key, msg);
        proof {
            assert forall|j: Seq<char>| j != key@ implies #[trigger] values_in(self.direct_messages@, j) == values_in(old(self).direct_messages@, j) by {}
        }
    }

    /// Adds a server unless one with its id is already listed.
    pub fn add_server(&mut self, server: Server) -> (added: bool)
        requires
            old(self).wf(),
        ensures
            final(self).wf(),
            added == (server_index(old(self).servers@, server.id@) is None),
            server_added(*old(self), server, *final(self)),
    {
        if find_server(&self.servers, server.id.as_str()).is_none() {
            self.servers.push(server);
            true
        } else {
            false
        }
    }

    /// Adds a channel to the first server with the given id, unless that
    /// server has a channel with the channel's id. Nothing happens when no
    /// server has the id.
    pub fn add_channel_to_server(&mut self, server_id: &str, channel: Channel) -> (added: bool)
        requires
            old(self).wf(),
        ensures
            final(self).wf(),
            added == (server_index(old(self).servers@, server_id@) matches Some(i)
                && !has_channel(old(self).servers@[i].channels@, channel.id@)),
            channel_added(*old(self), server_id@, channel, *final(self)),
    {
        if let Some(i) = find_server(&self.servers, server_id) {
            if !channel_listed(&self.servers[i].channels, channel.id.as_str()) {
                let mut server = self.servers.remove(i);
                let ghost s0 = server;
                server.channels.push(channel);
                self.servers.insert(i, server);
                proof {
                    assert(self.servers@ =~= old(self).servers@.update(i as int, server));
                }
                return true;
            }
        }
        false
    }

    /// Records a peer's name and status, adding the peer if it is new.
    pub fn update_peer(&mut self, peer_id: String, name: String, status: UserStatus)
        requires
            old(self).wf(),
        ensures
            final(self).wf(),
            peer_updated(*old(self), peer_id@, name, status, *final(self)),
    {
        let ghost before = self.peers@;
        proof { lemma_key_index(before, peer_id@); }
        let kept_id = match find_key(&self.peers, peer_id.as_str()) {
            Some(i) => self.peers[i].1.peer_id.clone(),
            None => peer_id.clone(),
        };
        let profile = UserProfile { peer_id: kept_id, display_name: name, status };
        upsert(&mut self.peers, &peer_id, profile);
    }

    /// Adds a peer with the given name and status unless it is known.
    pub fn add_peer_if_new(&mut self, peer_id: String, name: String, status: UserStatus)
        requires
            old(self).wf(),
        ensures
            final(self).wf(),
            peer_added_if_new(*old(self), peer_id, name, status, *final(self)),
    {
        proof { lemma_key_index(self.peers@, peer_id@); }
        if find_key(&self.peers, peer_id.as_str()).is_none() {
            let key = peer_id.clone();
            upsert(&mut self.peers, &key, UserProfile { peer_id, display_name: name, status });
        }
    }

    /// Marks a known peer offline.
    pub fn mark_peer_offline(&mut self, peer_id: &str)
        requires
            old(self).wf(),
        ensures
            final(self).wf(),
            peer_marked_offline(*old(self), peer_id@, *final(self)),
    {
        proof { lemma_key_index(self.peers@, peer_id@); }
        if let Some(i) = find_key(&self.peers, peer_id) {
            let (key, p) = self.peers.remove(i);
            let q = UserProfile { peer_id: p.peer_id, display_name: p.display_name, status: UserStatus::Offline };
            let ghost before = old(self).peers@;
            self.peers.insert(i, (key, q));
            proof {
                assert(self.peers@ =~= before.update(i as int, (key, q)));
                lemma_update_value(before, i as int, (key, q));
                lemma_key_index(self.peers@, peer_id@);
                assert forall|k: Seq<char>| k != peer_id@ implies #[trigger] lookup(self.peers@, k) == lookup(before, k) by {
                    lemma_key_index(before, k);
                }
            }
        }
    }

    /// Adds a listening address unless it is listed.
    pub fn add_listen_addr(&mut self, addr: String)
        ensures
            listen_addr_added(*old(self), addr, *final(self)),
    {
        if !crate::text::contains_str(&self.listen_addrs, addr.as_str()) {
            self.listen_addrs.push(addr);
        }
    }

    /// Sets our display name.
    pub fn set_display_name(&mut self, name: String)
        ensures
            final(self).profile.display_name == name,
            final(self).profile.peer_id == old(self).profile.peer_id,
            final(self).profile.status == old(self).profile.status,
            *final(self) == (AppState { profile: final(self).profile, ..*old(self) }),
    {
        self.profile.display_name = name;
    }

    /// Whether messages of a topic are held.
    pub fn has_messages_for(&self, topic: &str) -> (r: bool)
        ensures
            r == (key_index(self.messages@, topic@) is Some),
    {
        find_key(&self.messages, topic).is_some()
    }

    /// Takes in the saved messages of a topic, sorted by timestamp (they are
    /// saved newest first), unless messages of that topic are already held
    /// or none were saved.
    pub fn load_messages_for_topic(&mut self, topic: &str, saved: Option<Vec<ChatMessage>>)
        requires
            old(self).wf(),
        ensures
            final(self).wf(),
            match saved {
                Some(v) => key_index(old(self).messages@, topic@) is None ==> final(self).messages_of(topic@) == sorted_by_time(v@),
                None => final(self).messages@ == old(self).messages@,
            },
            key_index(old(self).messages@, topic@) is Some ==> final(self).messages@ == old(self).messages@,
            forall|k: Seq<char>| k != topic@ ==> #[trigger] final(self).messages_of(k) == old(self).messages_of(k),
            *final(self) == (AppState { messages: final(self).messages, ..*old(self) }),
    {
        if find_key(&self.messages, topic).is_some() {
            return;
        }
        if let Some(msgs) = saved {
            let sorted = sort_by_time(msgs);
            let key = topic.to_owned();
            upsert(&mut self.messages, &key, sorted);
            proof {
                assert forall|k: Seq<char>| k != topic@ implies #[trigger] values_in(self.messages@, k) == values_in(old(self).messages@, k) by {}
            }
        }
    }

    /// The topics of all channels of all servers, server by server.
    pub fn all_channel_topics(&self) -> (r: Vec<String>)
        ensures
            crate::text::views(r@) == channel_topics(self.servers@),
    {
        let mut out: Vec<String> = Vec::new();
        let mut i: usize = 0;
        while i < self.servers.len()
            invariant
                i <= self.servers@.len(),
                crate::text::views(out@) == channel_topics(self.servers@.take(i as int)),
            decreases self.servers@.len() - i,
        {
            let server = &self.servers[i];
            let ghost before = crate::text::views(out@);
            let mut j: usize = 0;
            while j < server.channels.len()
                invariant
                    i < self.servers@.len(),
                    *server == self.servers@[i as int],
                    j <= server.channels@.len(),
                    crate::text::views(out@) == before + server.channels@.take(j as int).map_values(
                        |c: Channel| topic_of(server.id@, c.id@),
                    ),
                decreases server.channels@.len() - j,
            {
                let t = server.topic_for_channel(server.channels[j].id.as_str());
                out.push(t);
                proof {
                    assert(server.channels@.take(j as int + 1).map_values(|c: Channel| topic_of(server.id@, c.id@))
                        =~= server.channels@.take(j as int).map_values(|c: Channel| topic_of(server.id@, c.id@)).push(t@));
                    assert(crate::text::views(out@) =~= crate::text::views(out@.drop_last()).push(t@));
                    assert((before + server.channels@.take(j as int).map_values(|c: Channel| topic_of(server.id@, c.id@))).push(t@)
                        =~= before + server.channels@.take(j as int).map_values(|c: Channel| topic_of(server.id@, c.id@)).push(t@));
                }
                j = j + 1;
            }
            proof {
                assert(server.channels@.take(j as int) =~= server.channels@);
                assert(self.servers@.take(i as int + 1).drop_last() =~= self.servers@.take(i as int));
            }
            i = i + 1;
        }
        assert(self.servers@.take(i as int) =~= self.servers@);
        out
    }

    /// The messages of a topic to save: the newest 1000, newest first.
    pub fn messages_to_save(&self, topic: &str) -> (r: Vec<&ChatMessage>)
        ensures
            r@.len() == if self.messages_of(topic@).len() < 1000 { self.messages_of(topic@).len() as int } else { 1000 },
            forall|i: int| 0 <= i < r@.len() ==> *r@[i] == self.messages_of(topic@)[self.messages_of(topic@).len() - 1 - i],
    {
        let mut out: Vec<&ChatMessage> = Vec::new();
        if let Some(i) = find_key(&self.messages, topic) {
            let msgs = &self.messages[i].1;
            let n = msgs.len();
            let mut j: usize = 0;
            while j < n && j < 1000
                invariant
                    n == msgs@.len(),
                    j <= n,
                    j <= 1000,
                    out@.len() == j,
                    forall|k: int| 0 <= k < j ==> *out@[k] == msgs@[n - 1 - k],
                decreases n - j,
            {
                out.push(&msgs[n - 1 - j]);
                j = j + 1;
            }
        }
        out
    }

    /// The topic of the selected channel, if a server and one of its
    /// channels are selected.
    pub fn current_topic(&self) -> (r: Option<String>)
        ensures
            match self.current_topic_spec() {
                Some(t) => r matches Some(s) && s@ == t,
                None => r is None,
            },
    {
        let si = match self.active_server {
            Some(i) => i,
            None => return None,
        };
        let ci = match self.active_channel {
            Some(i) => i,
            None => return None,
        };
        if si >= self.servers.len() {
            return None;
        }
        let server = &self.servers[si];
        if ci >= server.channels.len() {
            return None;
        }
        Some(server.topic_for_channel(server.channels[ci].id.as_str()))
    }

    /// The messages of the selected channel, oldest first.
    pub fn current_messages(&self) -> (r: Vec<&ChatMessage>)
        ensures
            match self.current_topic_spec() {
                Some(t) => r@.len() == self.messages_of(t).len()
                    && forall|i: int| 0 <= i < r@.len() ==> *r@[i] == self.messages_of(t)[i],
                None => r@.len() == 0,
            },
    {
        let mut out: Vec<&ChatMessage> = Vec::new();
        if let Some(topic) = self.current_topic() {
            if let Some(i) = find_key(&self.messages, topic.as_str()) {
                let msgs = &self.messages[i].1;
                let mut j: usize = 0;
                while j < msgs.len()
                    invariant
                        j <= msgs@.len(),
                        out@.len() == j,
                        forall|k: int| 0 <= k < j ==> *out@[k] == msgs@[k],
                    decreases msgs@.len() - j,
                {
                    out.push(&msgs[j]);
                    j = j + 1;
                }
            }
        }
        out
    }

    /// The direct messages with the selected peer, oldest first.
    pub fn current_dm_messages(&self) -> (r: Vec<&DirectMessage>)
        ensures
            match self.active_dm_peer {
                Some(p) => r@.len() == self.dms_with(p@).len()
                    && forall|i: int| 0 <= i < r@.len() ==> *r@[i] == self.dms_with(p@)[i],
                None => r@.len() == 0,
            },
    {
        let mut out: Vec<&DirectMessage> = Vec::new();
        if let Some(peer) = &self.active_dm_peer {
            if let Some(i) = find_key(&self.direct_messages, peer.as_str()) {
                let msgs = &self.direct_messages[i].1;
                let mut j: usize = 0;
                while j < msgs.len()
                    invariant
                        j <= msgs@.len(),
                        out@.len() == j,
                        forall|k: int| 0 <= k < j ==> *out@[k] == msgs@[k],
                    decreases msgs@.len() - j,
                {
                    out.push(&msgs[j]);
                    j = j + 1;
                }
            }
        }
        out
    }
}

} // verus!

verus! {

/// On a time-ordered list, the insert position splits the messages not
/// later than `m` from the later ones.
proof fn lemma_insert_position_splits(sorted: Seq<ChatMessage>, m: ChatMessage)
    requires
        is_time_ordered(sorted),
    ensures
        0 <= insert_position(sorted, m) <= sorted.len(),
        forall|i: int| 0 <= i < insert_position(sorted, m) ==> sorted[i].timestamp <= m.timestamp,
        forall|i: int| insert_position(sorted, m) <= i < sorted.len() ==> sorted[i].timestamp > m.timestamp,
    decreases sorted.len(),
{
    if sorted.len() > 0 {
        let rest = sorted.drop_last();
        assert(is_time_ordered(rest)) by {
            assert forall|i: int, j: int| 0 <= i <= j < rest.len() implies rest[i].timestamp <= rest[j].timestamp by {
                assert(rest[i] == sorted[i]);
                assert(rest[j] == sorted[j]);
            }
        }
        lemma_insert_position_splits(rest, m);
        if sorted.last().timestamp > m.timestamp {
            assert forall|i: int| 0 <= i < insert_position(sorted, m) implies sorted[i].timestamp <= m.timestamp by {
                assert(rest[i] == sorted[i]);
            }
            assert forall|i: int| insert_position(sorted, m) <= i < sorted.len() implies sorted[i].timestamp > m.timestamp by {
                if i < rest.len() {
                    assert(rest[i] == sorted[i]);
                }
            }
        } else {
            assert forall|i: int| 0 <= i < sorted.len() implies sorted[i].timestamp <= m.timestamp by {
                assert(sorted[i].timestamp <= sorted[sorted.len() - 1].timestamp);
            }
        }
    }
}

/// Loaded history is in chronological order, and holds exactly the saved
/// messages: sorting by timestamp orders the messages without losing or
/// adding any.
pub proof fn lemma_sorted_by_time(msgs: Seq<ChatMessage>)
    ensures
        is_time_ordered(sorted_by_time(msgs)),
        sorted_by_time(msgs).to_multiset() == msgs.to_multiset(),
    decreases msgs.len(),
{
    broadcast use vstd::seq_lib::group_to_multiset_ensures;
    if msgs.len() > 0 {
        let rest = msgs.drop_last();
        let m = msgs.last();
        lemma_sorted_by_time(rest);
        let s = sorted_by_time(rest);
        lemma_insert_position_splits(s, m);
        let p = insert_position(s, m);
        let t = s.insert(p, m);
        assert forall|i: int, j: int| 0 <= i <= j < t.len() implies t[i].timestamp <= t[j].timestamp by {
            if i < p && j > p {
                assert(t[i] == s[i]);
                assert(t[j] == s[j - 1]);
            } else if i < p && j == p {
                assert(t[i] == s[i]);
            } else if i == p && j > p {
                assert(t[j] == s[j - 1]);
            } else if i < p {
                assert(t[i] == s[i]);
                assert(t[j] == s[j]);
            } else if i > p {
                assert(t[i] == s[i - 1]);
                assert(t[j] == s[j - 1]);
            }
        }
        assert(msgs =~= rest.push(m));
        vstd::seq_lib::lemma_seq_union_to_multiset_commutative(s.take(p), s.skip(p));
        assert(s =~= s.take(p) + s.skip(p));
        assert(t =~= s.take(p).push(m) + s.skip(p));
        vstd::seq_lib::lemma_multiset_commutative(s.take(p).push(m), s.skip(p));
        vstd::seq_lib::lemma_multiset_commutative(s.take(p), s.skip(p));
    }
}

/// Adding servers never lists two servers with one id: if the ids were
/// distinct before `add_server`, they are after.
pub proof fn lemma_add_server_keeps_ids_distinct(before: Seq<Server>, server: Server, after: Seq<Server>)
    requires
        forall|i: int, j: int| 0 <= i < j < before.len() ==> before[i].id@ != before[j].id@,
        server_index(before, server.id@) is Some ==> after == before,
        server_index(before, server.id@) is None ==> after == before.push(server),
    ensures
        forall|i: int, j: int| 0 <= i < j < after.len() ==> after[i].id@ != after[j].id@,
{
    if server_index(before, server.id@) is None {
        lemma_server_index_none(before, server.id@);
        assert forall|i: int, j: int| 0 <= i < j < after.len() implies after[i].id@ != after[j].id@ by {
            assert(after[i] == before[i]);
            if j < before.len() {
                assert(after[j] == before[j]);
            }
        }
    }
}

/// When no server has the id, none of them has it.
proof fn lemma_server_index_none(servers: Seq<Server>, id: Seq<char>)
    requires
        server_index(servers, id) is None,
    ensures
        forall|i: int| 0 <= i < servers.len() ==> servers[i].id@ != id,
    decreases servers.len(),
{
    if servers.len() > 0 {
        let rest = servers.drop_last();
        lemma_server_index_none(rest, id);
        assert forall|i: int| 0 <= i < servers.len() implies servers[i].id@ != id by {
            if i < rest.len() {
                assert(rest[i] == servers[i]);
            }
        }
    }
}

} // verus!
