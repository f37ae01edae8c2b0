//! The data exchanged between peers and shown in the interface: users,
//! servers with their channels and members, messages and signals.
use vstd::prelude::*;
use vstd::utf8::{encode_utf8, decode_utf8, valid_utf8, is_char_boundary, encode_utf8_valid_utf8, encode_utf8_decode_utf8};
use crate::text::{views, str_eq, clone_strings, contains_str, string_from_chars, string_from_utf8, chars_of};
use crate::codec::{sha256_digest, base64_url_decode, sha256, new_uuid_v4, now_unix_micros, is_uuid_v4_text};

verus! {

broadcast use vstd::seq_lib::group_seq_properties;

/// Presence status of a user.
#[derive(Debug, Clone, Copy, PartialEq, Eq, Structural)]
pub enum UserStatus {
    Online,
    Away,
    DoNotDisturb,
    Offline,
}

/// The text shown for a status.
pub open spec fn status_label(s: UserStatus) -> Seq<char> {
    match s {
        UserStatus::Online => seq!['O', 'n', 'l', 'i', 'n', 'e'],
        UserStatus::Away => seq!['A', 'w', 'a', 'y'],
        UserStatus::DoNotDisturb => seq!['D', 'N', 'D'],
        UserStatus::Offline => seq!['O', 'f', 'f', 'l', 'i', 'n', 'e'],
    }
}

impl UserStatus {
    /// The display text of this status.
    pub fn label(&self) -> (r: String)
        ensures
            r@ == status_label(*self),
    {
        let s = match self {
            UserStatus::Online => "Online",
            UserStatus::Away => "Away",
            UserStatus::DoNotDisturb => "DND",
            UserStatus::Offline => "Offline",
        };
        proof {
            reveal_strlit("Online");
            reveal_strlit("Away");
            reveal_strlit("DND");
            reveal_strlit("Offline");
        }
        s.to_owned()
    }
}

/// A user identity, named by the peer id of its network keypair.
#[derive(Debug)]
pub struct UserProfile {
    pub peer_id: String,
    pub display_name: String,
    pub status: UserStatus,
}

impl Clone for UserProfile {
    fn clone(&self) -> (r: Self)
        ensures
            r == *self,
    {
        UserProfile {
            peer_id: self.peer_id.clone(),
            display_name: self.display_name.clone(),
            status: self.status,
        }
    }
}

/// The role a peer holds in a server.
#[derive(Debug, Clone, Copy, PartialEq, Eq, Structural)]
pub enum ServerRole {
    Owner,
    Admin,
    Member,
}

/// A known member of a server with the addresses it was seen at.
#[derive(Debug, Clone)]
pub struct ServerMember {
    pub peer_id: String,
    pub role: ServerRole,
    pub addrs: Vec<String>,
}

/// A text channel of a server.
#[derive(Debug)]
pub struct Channel {
    pub id: String,
    pub name: String,
}

impl Clone for Channel {
    fn clone(&self) -> (r: Self)
        ensures
            r == *self,
    {
        Channel { id: self.id.clone(), name: self.name.clone() }
    }
}

/// A server (community). Its id is derived from its name, so anyone who knows
/// the name reaches the same server.
#[derive(Debug, Clone)]
pub struct Server {
    pub id: String,
    pub name: String,
    pub channels: Vec<Channel>,
    /// Known members, with their addresses for reconnecting.
    pub peers: Vec<ServerMember>,
    /// The peer id of the server's creator.
    pub owner_peer_id: String,
}


/// Metadata of a file attached to a message.
#[derive(Debug)]
pub struct FileAttachment {
    pub file_name: String,
    pub file_size: u64,
    pub mime_type: String,
    /// Whether the file's data is held locally.
    pub downloaded: bool,
}

impl Clone for FileAttachment {
    fn clone(&self) -> (r: Self)
        ensures
            r == *self,
    {
        FileAttachment {
            file_name: self.file_name.clone(),
            file_size: self.file_size,
            mime_type: self.mime_type.clone(),
            downloaded: self.downloaded,
        }
    }
}

/// A chat message sent to a channel.
#[derive(Debug)]
pub struct ChatMessage {
    pub id: String,
    pub server_id: String,
    pub channel_id: String,
    pub sender_peer_id: String,
    pub sender_name: String,
    pub content: String,
    /// When it was written, in microseconds since the Unix epoch (UTC).
    pub timestamp: i64,
    /// The id of the message this one replies to.
    pub reply_to: Option<String>,
    /// Whether the message has been edited.
    pub edited: bool,
    /// Reactions: each emoji with the peers who reacted with it.
    pub reactions: Vec<(String, Vec<String>)>,
    pub attachment: Option<FileAttachment>,
}


/// The view of a message's reactions: each emoji with the peers who
/// reacted with it.
pub open spec fn reactions_view(r: Seq<(String, Vec<String>)>) -> Seq<(Seq<char>, Seq<Seq<char>>)> {
    r.map_values(|e: (String, Vec<String>)| (e.0@, views(e.1@)))
}

/// Two messages hold the same data.
pub open spec fn same_message(a: ChatMessage, b: ChatMessage) -> bool {
    &&& a.id == b.id
    &&& a.server_id == b.server_id
    &&& a.channel_id == b.channel_id
    &&& a.sender_peer_id == b.sender_peer_id
    &&& a.sender_name == b.sender_name
    &&& a.content == b.content
    &&& a.timestamp == b.timestamp
    &&& a.reply_to == b.reply_to
    &&& a.edited == b.edited
    &&& reactions_view(a.reactions@) == reactions_view(b.reactions@)
    &&& a.attachment == b.attachment
}

impl Clone for ChatMessage {
    fn clone(&self) -> (r: Self)
        ensures
            same_message(r, *self),
    {
        let mut reactions: Vec<(String, Vec<String>)> = Vec::new();
        let mut i: usize = 0;
        while i < self.reactions.len()
            invariant
                i <= self.reactions@.len(),
                reactions_view(reactions@) == reactions_view(self.reactions@.take(i as int)),
            decreases self.reactions@.len() - i,
        {
            let e = (self.reactions[i].0.clone(), clone_strings(&self.reactions[i].1));
            let ghost before = reactions@;
            reactions.push(e);
            proof {
                assert(reactions@ =~= before.push(e));
                assert(reactions_view(before.push(e)) =~= reactions_view(before).push((e.0@, views(e.1@))));
                assert(self.reactions@.take(i as int + 1) =~= self.reactions@.take(i as int).push(self.reactions@[i as int]));
                assert(reactions_view(self.reactions@.take(i as int).push(self.reactions@[i as int]))
                    =~= reactions_view(self.reactions@.take(i as int)).push((self.reactions@[i as int].0@, views(self.reactions@[i as int].1@))));
            }
            i = i + 1;
        }
        assert(self.reactions@.take(i as int) =~= self.reactions@);
        let attachment = match &self.attachment {
            Some(a) => Some(a.clone()),
            None => None,
        };
        ChatMessage {
            id: self.id.clone(),
            server_id: self.server_id.clone(),
            channel_id: self.channel_id.clone(),
            sender_peer_id: self.sender_peer_id.clone(),
            sender_name: self.sender_name.clone(),
            content: self.content.clone(),
            timestamp: self.timestamp,
            reply_to: match &self.reply_to {
                Some(s) => Some(s.clone()),
                None => None,
            },
            edited: self.edited,
            reactions,
            attachment,
        }
    }
}

impl ChatMessage {
    /// A new message with a fresh random id, stamped with the current time,
    /// not a reply, not edited, without reactions or attachment.
    pub fn new(
        server_id: String,
        channel_id: String,
        sender_peer_id: String,
        sender_name: String,
        content: String,
    ) -> (m: Self)
        ensures
            is_uuid_v4_text(m.id@),
            m.server_id == server_id,
            m.channel_id == channel_id,
            m.sender_peer_id == sender_peer_id,
            m.sender_name == sender_name,
            m.content == content,
            m.reply_to is None,
            !m.edited,
            m.reactions@.len() == 0,
            m.attachment is None,
    {
        ChatMessage {
            id: new_uuid_v4(),
            server_id,
            channel_id,
            sender_peer_id,
            sender_name,
            content,
            timestamp: now_unix_micros(),
            reply_to: None,
            edited: false,
            reactions: Vec::new(),
            attachment: None,
        }
    }

    /// The gossip topic of the channel this message belongs to.
    pub fn topic(&self) -> (r: String)
        ensures
            r@ == topic_of(self.server_id@, self.channel_id@),
    {
        let mut t = String::new();
        t.append("murmur/server/");
        t.append(self.server_id.as_str());
        t.append("/channel/");
        t.append(self.channel_id.as_str());
        t
    }
}

/// A direct message between two peers.
#[derive(Debug)]
pub struct DirectMessage {
    pub id: String,
    pub from_peer_id: String,
    pub from_name: String,
    pub to_peer_id: String,
    pub content: String,
    /// When it was written, in microseconds since the Unix epoch (UTC).
    pub timestamp: i64,
}

impl Clone for DirectMessage {
    fn clone(&self) -> (r: Self)
        ensures
            r == *self,
    {
        DirectMessage {
            id: self.id.clone(),
            from_peer_id: self.from_peer_id.clone(),
            from_name: self.from_name.clone(),
            to_peer_id: self.to_peer_id.clone(),
            content: self.content.clone(),
            timestamp: self.timestamp,
        }
    }
}

/// Voice and screen-share signalling between peers.
#[derive(Debug, Clone)]
pub struct VoiceSignal {
    pub signal_type: VoiceSignalType,
    pub from_peer_id: String,
    pub channel_topic: String,
}

/// The kinds of voice signals.
#[derive(Debug, Clone)]
pub enum VoiceSignalType {
    /// Offer to start a voice or video stream.
    Offer { sdp_like: Vec<u8> },
    /// Answer accepting the stream.
    Answer { sdp_like: Vec<u8> },
    /// ICE candidate for NAT traversal.
    IceCandidate { candidate: String },
    /// The peer joined the voice channel.
    Join,
    /// The peer left the voice channel.
    Leave,
    ScreenShareStart,
    ScreenShareStop,
    /// Speaking state, driven by voice activity detection.
    Speaking { is_speaking: bool },
    /// Clock synchronisation probe.
    ClockProbe { seq: u64, t1_us: u64 },
    /// Answer to a clock synchronisation probe.
    ClockProbeResponse { seq: u64, t1_us: u64, t2_us: u64, t3_us: u64 },
}

/// Protocol messages published on gossip topics.
#[derive(Debug, Clone)]
pub enum NetworkMessage {
    Chat(ChatMessage),
    Direct(DirectMessage),
    Presence { peer_id: String, name: String, status: UserStatus },
    ServerJoin { peer_id: String, name: String, server_id: String },
    ServerLeave { peer_id: String, server_id: String },
    ChannelCreate { server_id: String, channel: Channel },
    Typing { peer_id: String, name: String, channel_topic: String },
    MessageEdit { message_id: String, new_content: String, peer_id: String },
    MessageDelete { message_id: String, peer_id: String },
    MessageReaction { message_id: String, emoji: String, peer_id: String },
    /// Metadata of a shared file; the data travels separately.
    FileShare {
        message_id: String,
        file_name: String,
        file_size: u64,
        mime_type: String,
        peer_id: String,
    },
}

/// Events from the network layer to the interface. Peer ids are in their
/// text form.
#[derive(Debug, Clone)]
pub enum NetEvent {
    MessageReceived(ChatMessage),
    DirectMessageReceived(DirectMessage),
    PeerDiscovered { peer_id: String, name: String },
    PeerLeft(String),
    PresenceUpdate { peer_id: String, name: String, status: UserStatus },
    ServerJoined { peer_id: String, name: String, server_id: String },
    ChannelCreated { server_id: String, channel: Channel },
    PeerSpeaking { peer_id: String, is_speaking: bool },
    PeerTyping { peer_id: String, name: String },
    MessageEdited { message_id: String, new_content: String, peer_id: String },
    MessageDeleted { message_id: String, peer_id: String },
    MessageReaction { message_id: String, emoji: String, peer_id: String },
    PeerVoiceJoined { peer_id: String, name: String },
    PeerVoiceLeft { peer_id: String },
    Connected,
    /// A full address (with `/p2p/` peer id) this node listens on.
    ListeningOn(String),
    Error(String),
}

/// The short form of a peer id shown to users: its first 8 bytes, or all of
/// it when shorter.
pub open spec fn short_peer_id(peer_id: Seq<char>) -> Seq<char> {
    if encode_utf8(peer_id).len() >= 8 {
        decode_utf8(encode_utf8(peer_id).take(8))
    } else {
        peer_id
    }
}

/// The short form of a peer id (see `short_peer_id`).
pub fn short_peer_id_of(peer_id: &str) -> (r: String)
    requires
        encode_utf8(peer_id@).len() <= usize::MAX,
        encode_utf8(peer_id@).len() >= 8 ==> is_char_boundary(encode_utf8(peer_id@), 8),
    ensures
        r@ == short_peer_id(peer_id@),
{
    if peer_id.len() >= 8 {
        let (head, _) = peer_id.split_at(8);
        proof {
            assert(encode_utf8(head@) =~= encode_utf8(peer_id@).take(8));
            encode_utf8_decode_utf8(head@);
        }
        head.to_owned()
    } else {
        peer_id.to_owned()
    }
}

/// The lower-case hexadecimal digit for `n < 16`.
pub open spec fn hex_digit(n: int) -> char {
    if n < 10 {
        (48 + n) as char
    } else {
        (87 + n) as char
    }
}

/// The first 16 characters of the lower-case hexadecimal rendering of `bytes`.
pub open spec fn hex16(bytes: Seq<u8>) -> Seq<char> {
    Seq::new(
        16,
        |i: int|
            if i % 2 == 0 {
                hex_digit(bytes[i / 2] as int / 16)
            } else {
                hex_digit(bytes[i / 2] as int % 16)
            },
    )
}

/// The id of the server with the given name: the first 16 hexadecimal digits
/// of the SHA-256 digest of the name's UTF-8 bytes.
pub open spec fn server_id_for(name: Seq<char>) -> Seq<char> {
    hex16(sha256_digest(encode_utf8(name)))
}

/// The id and name of the channel every new server starts with.
pub open spec fn general() -> Seq<char> {
    seq!['g', 'e', 'n', 'e', 'r', 'a', 'l']
}

/// The gossip topic of a channel of a server.
pub open spec fn topic_of(server_id: Seq<char>, channel_id: Seq<char>) -> Seq<char> {
    "murmur/server/"@ + server_id + "/channel/"@ + channel_id
}

/// The index of the first member of `peers` with the given peer id.
pub open spec fn member_index(peers: Seq<ServerMember>, peer_id: Seq<char>) -> Option<int>
    decreases peers.len(),
{
    if peers.len() == 0 {
        None
    } else {
        match member_index(peers.drop_last(), peer_id) {
            Some(i) => Some(i),
            None => if peers.last().peer_id@ == peer_id {
                Some(peers.len() - 1)
            } else {
                None
            },
        }
    }
}

/// `addrs` with each address of `new` appended, in order, unless it is
/// already there.
pub open spec fn merge_addrs(addrs: Seq<Seq<char>>, new: Seq<Seq<char>>) -> Seq<Seq<char>>
    decreases new.len(),
{
    if new.len() == 0 {
        addrs
    } else {
        let acc = merge_addrs(addrs, new.drop_last());
        if acc.contains(new.last()) {
            acc
        } else {
            acc.push(new.last())
        }
    }
}

/// The role of a peer in a member list: that of its first entry, or `Member`
/// for a peer that is not listed.
pub open spec fn role_in(peers: Seq<ServerMember>, peer_id: Seq<char>) -> ServerRole {
    match member_index(peers, peer_id) {
        Some(i) => peers[i].role,
        None => ServerRole::Member,
    }
}

/// All addresses of all members, in member order.
pub open spec fn all_addrs(peers: Seq<ServerMember>) -> Seq<Seq<char>>
    decreases peers.len(),
{
    if peers.len() == 0 {
        Seq::empty()
    } else {
        all_addrs(peers.drop_last()) + views(peers.last().addrs@)
    }
}

/// The items of `items` joined with `sep` between them.
pub open spec fn join(items: Seq<Seq<char>>, sep: char) -> Seq<char>
    decreases items.len(),
{
    if items.len() == 0 {
        Seq::empty()
    } else if items.len() == 1 {
        items[0]
    } else {
        join(items.drop_last(), sep).push(sep) + items.last()
    }
}

/// The text that an invite encodes: the server name, `|`, and the members'
/// addresses separated by `,`.
pub open spec fn invite_text(name: Seq<char>, peers: Seq<ServerMember>) -> Seq<char> {
    name.push('|') + join(all_addrs(peers), ',')
}

/// The parts of `s` between occurrences of `sep`.
pub open spec fn split_on(s: Seq<char>, sep: char) -> Seq<Seq<char>>
    decreases s.len(),
{
    if s.len() == 0 {
        seq![Seq::empty()]
    } else {
        let rest = split_on(s.drop_last(), sep);
        if s.last() == sep {
            rest.push(Seq::empty())
        } else {
            rest.update(rest.len() - 1, rest.last().push(s.last()))
        }
    }
}

/// The non-empty items of `items`, in order.
pub open spec fn non_empty(items: Seq<Seq<char>>) -> Seq<Seq<char>>
    decreases items.len(),
{
    if items.len() == 0 {
        Seq::empty()
    } else if items.last().len() > 0 {
        non_empty(items.drop_last()).push(items.last())
    } else {
        non_empty(items.drop_last())
    }
}

/// The index of the first `c` in `s`.
pub open spec fn first_index_of(s: Seq<char>, c: char) -> Option<int>
    decreases s.len(),
{
    if s.len() == 0 {
        None
    } else {
        match first_index_of(s.drop_last(), c) {
            Some(i) => Some(i),
            None => if s.last() == c {
                Some(s.len() - 1)
            } else {
                None
            },
        }
    }
}

/// The name and addresses that an invite text holds: the text before the first
/// `|`, and the non-empty parts between `,` of the text after it (none when
/// there is no `|`).
pub open spec fn parse_invite_text(s: Seq<char>) -> (Seq<char>, Seq<Seq<char>>) {
    match first_index_of(s, '|') {
        Some(i) => (s.take(i), non_empty(split_on(s.skip(i + 1), ','))),
        None => (s, Seq::empty()),
    }
}

/// What parsing an invite code gives: `None` where the code is not base64 or
/// does not decode to UTF-8 text, else the name and addresses of that text.
pub open spec fn parse_invite_spec(code: Seq<char>) -> Option<(Seq<char>, Seq<Seq<char>>)> {
    match base64_url_decode(encode_utf8(code)) {
        None => None,
        Some(bytes) => if valid_utf8(bytes) {
            Some(parse_invite_text(decode_utf8(bytes)))
        } else {
            None
        },
    }
}


/// A text without `sep` is one part.
proof fn lemma_split_no_sep(b: Seq<char>, sep: char)
    requires
        !b.contains(sep),
    ensures
        split_on(b, sep) == seq![b],
    decreases b.len(),
{
    if b.len() > 0 {
        assert(!b.drop_last().contains(sep)) by {
            if b.drop_last().contains(sep) {
                let k = choose|k: int| 0 <= k < b.drop_last().len() && b.drop_last()[k] == sep;
                assert(b[k] == sep);
            }
        }
        lemma_split_no_sep(b.drop_last(), sep);
        assert(b.drop_last().push(b.last()) =~= b);
        assert(seq![b.drop_last()].update(0, b.drop_last().push(b.last())) =~= seq![b]);
    } else {
        assert(b =~= Seq::<char>::empty());
    }
}

/// Appending text without `sep` extends the last part.
proof fn lemma_split_append_no_sep(p: Seq<char>, b: Seq<char>, sep: char)
    requires
        !b.contains(sep),
    ensures
        split_on(p + b, sep) == split_on(p, sep).update(
            split_on(p, sep).len() - 1,
            split_on(p, sep).last() + b,
        ),
    decreases b.len(),
{
    lemma_split_on_len(p, sep);
    let sp = split_on(p, sep);
    if b.len() == 0 {
        assert(p + b =~= p);
        assert(sp.last() + b =~= sp.last());
        assert(sp.update(sp.len() - 1, sp.last() + b) =~= sp);
    } else {
        let b1 = b.drop_last();
        assert(!b1.contains(sep)) by {
            if b1.contains(sep) {
                let k = choose|k: int| 0 <= k < b1.len() && b1[k] == sep;
                assert(b[k] == sep);
            }
        }
        assert(b.last() != sep) by {
            assert(b[b.len() - 1] == b.last());
        }
        lemma_split_append_no_sep(p, b1, sep);
        assert((p + b).drop_last() =~= p + b1);
        assert((p + b).last() == b.last());
        let s1 = split_on(p + b1, sep);
        assert(s1.len() == sp.len());
        assert(s1.last() == sp.last() + b1);
        assert((sp.last() + b1).push(b.last()) =~= sp.last() + b);
        assert(s1.update(s1.len() - 1, s1.last().push(b.last())) =~= sp.update(
            sp.len() - 1,
            sp.last() + b,
        ));
    }
}

/// Splitting a joined list of items without `sep` gives the items back.
proof fn lemma_split_join(xs: Seq<Seq<char>>, sep: char)
    requires
        xs.len() >= 1,
        forall|j: int| 0 <= j < xs.len() ==> !xs[j].contains(sep),
    ensures
        split_on(join(xs, sep), sep) == xs,
    decreases xs.len(),
{
    if xs.len() == 1 {
        lemma_split_no_sep(xs[0], sep);
        assert(seq![xs[0]] =~= xs);
    } else {
        let xs1 = xs.drop_last();
        lemma_split_join(xs1, sep);
        let pre = join(xs1, sep).push(sep);
        assert(pre.drop_last() =~= join(xs1, sep));
        assert(split_on(pre, sep) == xs1.push(Seq::<char>::empty()));
        lemma_split_append_no_sep(pre, xs.last(), sep);
        assert(Seq::<char>::empty() + xs.last() =~= xs.last());
        assert(xs1.push(Seq::<char>::empty()).update(xs1.len() as int, xs.last()) =~= xs);
    }
}

/// A text without `c` has no first `c`.
proof fn lemma_first_index_absent(s: Seq<char>, c: char)
    requires
        !s.contains(c),
    ensures
        first_index_of(s, c) is None,
    decreases s.len(),
{
    if s.len() > 0 {
        assert(!s.drop_last().contains(c)) by {
            if s.drop_last().contains(c) {
                let k = choose|k: int| 0 <= k < s.drop_last().len() && s.drop_last()[k] == c;
                assert(s[k] == c);
            }
        }
        lemma_first_index_absent(s.drop_last(), c);
        assert(s[s.len() - 1] == s.last());
    }
}

/// The items of `all_addrs` are the members' addresses.
proof fn lemma_all_addrs_items(peers: Seq<ServerMember>, x: Seq<char>)
    requires
        all_addrs(peers).contains(x),
    ensures
        exists|i: int, k: int|
            0 <= i < peers.len() && 0 <= k < peers[i].addrs@.len() && #[trigger] peers[i].addrs@[k]@ == x,
    decreases peers.len(),
{
    if peers.len() > 0 {
        let rest = peers.drop_last();
        let j = choose|j: int| 0 <= j < all_addrs(peers).len() && all_addrs(peers)[j] == x;
        if j < all_addrs(rest).len() {
            assert(all_addrs(rest)[j] == x);
            lemma_all_addrs_items(rest, x);
            let (i, k) = choose|i: int, k: int|
                0 <= i < rest.len() && 0 <= k < rest[i].addrs@.len() && #[trigger] rest[i].addrs@[k]@ == x;
            assert(peers[i] == rest[i]);
        } else {
            let k = j - all_addrs(rest).len();
            assert(views(peers.last().addrs@)[k] == x);
            assert(peers[peers.len() - 1].addrs@[k]@ == x);
        }
    }
}

/// An invite code read back gives the server's name and all its members'
/// non-empty addresses in member order, provided the name holds no `|` and
/// no address holds `,`. `code` is any text whose base64 decoding is the
/// invite's UTF-8 bytes, as `Server::invite_code` ensures of its result.
pub proof fn lemma_invite_roundtrip(server: Server, code: Seq<char>)
    requires
        !server.name@.contains('|'),
        forall|i: int, k: int|
            0 <= i < server.peers@.len() && 0 <= k < server.peers@[i].addrs@.len()
                ==> !(#[trigger] server.peers@[i].addrs@[k])@.contains(','),
        base64_url_decode(encode_utf8(code)) == Some(
            encode_utf8(invite_text(server.name@, server.peers@)),
        ),
    ensures
        parse_invite_spec(code) == Some((server.name@, non_empty(all_addrs(server.peers@)))),
{
    let name = server.name@;
    let xs = all_addrs(server.peers@);
    let text = invite_text(name, server.peers@);
    encode_utf8_valid_utf8(text);
    encode_utf8_decode_utf8(text);
    assert(text.take(name.len() as int) =~= name);
    assert(text[name.len() as int] == '|');
    lemma_first_index_absent(name, '|');
    lemma_first_index_prefix(text, '|', name.len() as int);
    assert(text.skip(name.len() as int + 1) =~= join(xs, ','));
    assert forall|j: int| 0 <= j < xs.len() implies !xs[j].contains(',') by {
        assert(xs.contains(xs[j]));
        lemma_all_addrs_items(server.peers@, xs[j]);
    }
    if xs.len() >= 1 {
        lemma_split_join(xs, ',');
    } else {
        assert(join(xs, ',') =~= Seq::<char>::empty());
        assert(non_empty(seq![Seq::<char>::empty()]) =~= Seq::<Seq<char>>::empty());
        assert(non_empty(xs) =~= Seq::<Seq<char>>::empty());
    }
}

/// The lower-case hexadecimal digit for `n < 16`.
fn hex_char(n: u8) -> (c: char)
    requires
        n < 16,
    ensures
        c == hex_digit(n as int),
{
    if n < 10 {
        (48u8 + n) as char
    } else {
        (87u8 + n) as char
    }
}

/// Searches `peers` for the first member with the given peer id.
fn find_member(peers: &Vec<ServerMember>, peer_id: &str) -> (r: Option<usize>)
    ensures
        match r {
            Some(i) => i < peers@.len() && member_index(peers@, peer_id@) == Some(i as int),
            None => member_index(peers@, peer_id@) is None,
        },
{
    let mut i: usize = 0;
    while i < peers.len()
        invariant
            i <= peers.len(),
            member_index(peers@.take(i as int), peer_id@) is None,
        decreases peers.len() - i,
    {
        assert(peers@.take(i as int + 1).drop_last() =~= peers@.take(i as int));
        if str_eq(peers[i].peer_id.as_str(), peer_id) {
            proof { lemma_member_index_prefix(peers@, peer_id@, i as int); }
            return Some(i);
        }
        i = i + 1;
    }
    assert(peers@.take(i as int) =~= peers@);
    None
}

/// A match in a prefix is the first match of the whole list.
proof fn lemma_member_index_prefix(peers: Seq<ServerMember>, peer_id: Seq<char>, i: int)
    requires
        0 <= i < peers.len(),
        member_index(peers.take(i), peer_id) is None,
        peers[i].peer_id@ == peer_id,
    ensures
        member_index(peers, peer_id) == Some(i),
    decreases peers.len(),
{
    if i == peers.len() - 1 {
        assert(peers.drop_last() =~= peers.take(i));
    } else {
        assert(peers.drop_last().take(i) =~= peers.take(i));
        lemma_member_index_prefix(peers.drop_last(), peer_id, i);
    }
}



/// `split_on` always yields at least one part.
pub(crate) proof fn lemma_split_on_len(s: Seq<char>, sep: char)
    ensures
        split_on(s, sep).len() >= 1,
    decreases s.len(),
{
    if s.len() > 0 {
        lemma_split_on_len(s.drop_last(), sep);
    }
}

/// A match in a prefix is the first match of the whole text.
proof fn lemma_first_index_prefix(s: Seq<char>, c: char, i: int)
    requires
        0 <= i < s.len(),
        first_index_of(s.take(i), c) is None,
        s[i] == c,
    ensures
        first_index_of(s, c) == Some(i),
    decreases s.len(),
{
    if i == s.len() - 1 {
        assert(s.drop_last() =~= s.take(i));
    } else {
        assert(s.drop_last().take(i) =~= s.take(i));
        lemma_first_index_prefix(s.drop_last(), c, i);
    }
}

/// Searches `s` for the first `c`.
pub(crate) fn find_char(s: &Vec<char>, c: char) -> (r: Option<usize>)
    ensures
        match r {
            Some(i) => i < s@.len() && first_index_of(s@, c) == Some(i as int),
            None => first_index_of(s@, c) is None,
        },
{
    let mut i: usize = 0;
    while i < s.len()
        invariant
            i <= s.len(),
            first_index_of(s@.take(i as int), c) is None,
        decreases s.len() - i,
    {
        assert(s@.take(i as int + 1).drop_last() =~= s@.take(i as int));
        if s[i] == c {
            proof { lemma_first_index_prefix(s@, c, i as int); }
            return Some(i);
        }
        i = i + 1;
    }
    assert(s@.take(i as int) =~= s@);
    None
}

/// The string made of `s[from..to]`.
pub(crate) fn string_of_range(s: &Vec<char>, from: usize, to: usize) -> (r: String)
    requires
        from <= to <= s@.len(),
    ensures
        r@ == s@.subrange(from as int, to as int),
{
    let mut part: Vec<char> = Vec::new();
    let mut k = from;
    while k < to
        invariant
            from <= k <= to <= s@.len(),
            part@ =~= s@.subrange(from as int, k as int),
        decreases to - k,
    {
        part.push(s[k]);
        k = k + 1;
    }
    string_from_chars(part.as_slice())
}

/// The non-empty parts of `s[from..]` between occurrences of `sep`.
fn split_non_empty(s: &Vec<char>, from: usize, sep: char) -> (r: Vec<String>)
    requires
        from <= s@.len(),
    ensures
        views(r@) == non_empty(split_on(s@.skip(from as int), sep)),
{
    let ghost rest = s@.skip(from as int);
    let mut parts: Vec<String> = Vec::new();
    let mut cur: Vec<char> = Vec::new();
    let mut k = from;
    proof {
        assert(rest.take(0) =~= Seq::<char>::empty());
    }
    while k < s.len()
        invariant
            from <= k <= s@.len(),
            rest == s@.skip(from as int),
            split_on(rest.take(k - from), sep).last() == cur@,
            non_empty(split_on(rest.take(k - from), sep).drop_last()) == views(parts@),
        decreases s.len() - k,
    {
        let ghost pre = rest.take(k - from);
        let ghost next = rest.take(k - from + 1);
        proof {
            assert(next.drop_last() =~= pre);
            assert(next.last() == s@[k as int]);
            lemma_split_on_len(pre, sep);
        }
        let ch = s[k];
        if ch == sep {
            if cur.len() > 0 {
                let piece = string_from_chars(cur.as_slice());
                parts.push(piece);
                proof {
                    assert(split_on(pre, sep).drop_last().push(split_on(pre, sep).last()) =~= split_on(pre, sep));
                    assert(views(parts@) =~= views(parts@.drop_last()).push(cur@));
                    assert(split_on(next, sep).drop_last() =~= split_on(pre, sep));
                }
            } else {
                proof {
                    assert(split_on(pre, sep).drop_last().push(split_on(pre, sep).last()) =~= split_on(pre, sep));
                    assert(split_on(next, sep).drop_last() =~= split_on(pre, sep));
                }
            }
            cur = Vec::new();
        } else {
            cur.push(ch);
            proof {
                assert(split_on(next, sep).drop_last() =~= split_on(pre, sep).drop_last());
            }
        }
        k = k + 1;
    }
    proof {
        assert(rest.take(k - from) =~= rest);
        lemma_split_on_len(rest, sep);
        assert(split_on(rest, sep).drop_last().push(split_on(rest, sep).last()) =~= split_on(rest, sep));
    }
    if cur.len() > 0 {
        let piece = string_from_chars(cur.as_slice());
        parts.push(piece);
        proof {
            assert(views(parts@) =~= views(parts@.drop_last()).push(cur@));
        }
    }
    parts
}

/// `join` of one more item.
proof fn lemma_join_push(items: Seq<Seq<char>>, x: Seq<char>, sep: char)
    ensures
        join(items.push(x), sep) == if items.len() == 0 { x } else { join(items, sep).push(sep) + x },
{
    assert(items.push(x).drop_last() =~= items);
    if items.len() == 0 {
        assert(items.push(x)[0] == x);
    }
}

/// `all_addrs` of a member list extended by one member.
proof fn lemma_all_addrs_push(peers: Seq<ServerMember>, m: ServerMember)
    ensures
        all_addrs(peers.push(m)) == all_addrs(peers) + views(m.addrs@),
{
    assert(peers.push(m).drop_last() =~= peers);
}

/// `new` is the member list `old` after `add_peer(peer_id, addrs)`: a listed
/// peer keeps its place, id and role and gets `addrs` merged into its
/// addresses, the others being unchanged; a new peer is appended as a
/// `Member` with `addrs`.
pub open spec fn peer_added(
    old: Seq<ServerMember>,
    peer_id: Seq<char>,
    addrs: Seq<String>,
    new: Seq<ServerMember>,
) -> bool {
    match member_index(old, peer_id) {
        Some(i) => {
            &&& new.len() == old.len()
            &&& forall|j: int| 0 <= j < old.len() && j != i ==> new[j] == old[j]
            &&& new[i].peer_id == old[i].peer_id
            &&& new[i].role == old[i].role
            &&& views(new[i].addrs@) == merge_addrs(views(old[i].addrs@), views(addrs))
        },
        None => {
            &&& new.len() == old.len() + 1
            &&& new.take(old.len() as int) == old
            &&& new.last().peer_id@ == peer_id
            &&& new.last().role == ServerRole::Member
            &&& new.last().addrs@ == addrs
        },
    }
}

/// The members of a list have distinct peer ids.
pub open spec fn distinct_member_ids(peers: Seq<ServerMember>) -> bool {
    forall|i: int, j: int| 0 <= i < j < peers.len() ==> #[trigger] peers[i].peer_id@ != #[trigger] peers[j].peer_id@
}

/// Where `member_index` finds a peer, it is listed there; where it finds
/// none, the peer is not listed.
proof fn lemma_member_index(peers: Seq<ServerMember>, peer_id: Seq<char>)
    ensures
        match member_index(peers, peer_id) {
            Some(i) => 0 <= i < peers.len() && peers[i].peer_id@ == peer_id,
            None => forall|j: int| 0 <= j < peers.len() ==> peers[j].peer_id@ != peer_id,
        },
    decreases peers.len(),
{
    if peers.len() > 0 {
        let init = peers.drop_last();
        lemma_member_index(init, peer_id);
        assert forall|j: int| 0 <= j < peers.len() - 1 implies peers[j] == #[trigger] init[j] by {}
        match member_index(init, peer_id) {
            Some(i) => {
                assert(peers[i] == init[i]);
            },
            None => {
                if member_index(peers, peer_id) is None {
                    assert forall|j: int| 0 <= j < peers.len() implies peers[j].peer_id@ != peer_id by {
                        if j < peers.len() - 1 {
                            assert(peers[j] == init[j]);
                        }
                    }
                }
            },
        }
    }
}

/// `member_index` reads the peer ids alone.
proof fn lemma_member_index_ids(p: Seq<ServerMember>, q: Seq<ServerMember>, peer_id: Seq<char>)
    requires
        p.len() == q.len(),
        forall|j: int| 0 <= j < p.len() ==> #[trigger] p[j].peer_id@ == q[j].peer_id@,
    ensures
        member_index(p, peer_id) == member_index(q, peer_id),
    decreases p.len(),
{
    if p.len() > 0 {
        assert forall|j: int| 0 <= j < p.len() - 1 implies #[trigger] p.drop_last()[j].peer_id@ == q.drop_last()[j].peer_id@ by {
            assert(p.drop_last()[j] == p[j]);
            assert(q.drop_last()[j] == q[j]);
        }
        lemma_member_index_ids(p.drop_last(), q.drop_last(), peer_id);
        assert(p.last().peer_id@ == q.last().peer_id@) by {
            assert(p[p.len() - 1].peer_id@ == q[p.len() - 1].peer_id@);
        }
    }
}

/// Merging keeps the old addresses as a prefix, and the result holds every
/// address merged in.
proof fn lemma_merge_addrs(addrs: Seq<Seq<char>>, new: Seq<Seq<char>>)
    ensures
        addrs.is_prefix_of(merge_addrs(addrs, new)),
        forall|k: int| 0 <= k < new.len() ==> merge_addrs(addrs, new).contains(#[trigger] new[k]),
        forall|x: Seq<char>| addrs.contains(x) ==> merge_addrs(addrs, new).contains(x),
    decreases new.len(),
{
    if new.len() > 0 {
        lemma_merge_addrs(addrs, new.drop_last());
        let acc = merge_addrs(addrs, new.drop_last());
        assert forall|k: int| 0 <= k < new.len() implies merge_addrs(addrs, new).contains(#[trigger] new[k]) by {
            if k < new.len() - 1 {
                assert(new[k] == new.drop_last()[k]);
                assert(acc.contains(new[k]));
                if !acc.contains(new.last()) {
                    let j = choose|j: int| 0 <= j < acc.len() && acc[j] == new[k];
                    assert(acc.push(new.last())[j] == new[k]);
                }
            } else {
                if !acc.contains(new.last()) {
                    assert(acc.push(new.last())[acc.len() as int] == new.last());
                }
            }
        }
        assert forall|x: Seq<char>| addrs.contains(x) implies merge_addrs(addrs, new).contains(x) by {
            if !acc.contains(new.last()) {
                let j = choose|j: int| 0 <= j < acc.len() && acc[j] == x;
                assert(acc.push(new.last())[j] == x);
            }
        }
    }
}

/// Merging addresses that are all present already changes nothing.
proof fn lemma_merge_present(addrs: Seq<Seq<char>>, new: Seq<Seq<char>>)
    requires
        forall|k: int| 0 <= k < new.len() ==> addrs.contains(#[trigger] new[k]),
    ensures
        merge_addrs(addrs, new) == addrs,
    decreases new.len(),
{
    if new.len() > 0 {
        assert forall|k: int| 0 <= k < new.len() - 1 implies addrs.contains(#[trigger] new.drop_last()[k]) by {
            assert(new.drop_last()[k] == new[k]);
        }
        lemma_merge_present(addrs, new.drop_last());
        assert(addrs.contains(new[new.len() - 1]));
    }
}

/// Adding a peer twice with the same addresses is adding it once: the second
/// call leaves the members, their order, ids, roles and addresses as the
/// first left them.
pub proof fn lemma_add_peer_idempotent(
    p0: Seq<ServerMember>,
    peer_id: Seq<char>,
    addrs: Seq<String>,
    p1: Seq<ServerMember>,
    p2: Seq<ServerMember>,
)
    requires
        peer_added(p0, peer_id, addrs, p1),
        peer_added(p1, peer_id, addrs, p2),
    ensures
        p2.len() == p1.len(),
        forall|j: int| 0 <= j < p1.len() ==> {
            &&& #[trigger] p2[j].peer_id == p1[j].peer_id
            &&& p2[j].role == p1[j].role
            &&& views(p2[j].addrs@) == views(p1[j].addrs@)
        },
{
    lemma_member_index(p0, peer_id);
    match member_index(p0, peer_id) {
        Some(i) => {
            assert forall|j: int| 0 <= j < p0.len() implies #[trigger] p0[j].peer_id@ == p1[j].peer_id@ by {
                if j != i {
                    assert(p1[j] == p0[j]);
                }
            }
            lemma_member_index_ids(p0, p1, peer_id);
            lemma_merge_addrs(views(p0[i].addrs@), views(addrs));
            let m = merge_addrs(views(p0[i].addrs@), views(addrs));
            assert forall|k: int| 0 <= k < views(addrs).len() implies m.contains(#[trigger] views(addrs)[k]) by {}
            lemma_merge_present(m, views(addrs));
            assert forall|j: int| 0 <= j < p1.len() implies {
                &&& #[trigger] p2[j].peer_id == p1[j].peer_id
                &&& p2[j].role == p1[j].role
                &&& views(p2[j].addrs@) == views(p1[j].addrs@)
            } by {
                if j != i {
                    assert(p2[j] == p1[j]);
                }
            }
        },
        None => {
            assert(p1.drop_last() =~= p0) by {
                assert(p1.take(p0.len() as int) == p0);
            }
            assert(member_index(p1, peer_id) == Some(p1.len() - 1));
            let i = p1.len() - 1;
            let v = views(addrs);
            assert(views(p1[i].addrs@) == v);
            assert forall|k: int| 0 <= k < v.len() implies v.contains(#[trigger] v[k]) by {}
            lemma_merge_present(v, v);
            assert forall|j: int| 0 <= j < p1.len() implies {
                &&& #[trigger] p2[j].peer_id == p1[j].peer_id
                &&& p2[j].role == p1[j].role
                &&& views(p2[j].addrs@) == views(p1[j].addrs@)
            } by {
                if j != i {
                    assert(p2[j] == p1[j]);
                }
            }
        },
    }
}

/// Adding a peer keeps member ids distinct: the peer is then listed exactly
/// once, and every member listed before keeps its place, id and role, with
/// its old addresses a prefix of its new ones.
pub proof fn lemma_add_peer_keeps_ids_distinct(
    p0: Seq<ServerMember>,
    peer_id: Seq<char>,
    addrs: Seq<String>,
    p1: Seq<ServerMember>,
)
    requires
        distinct_member_ids(p0),
        peer_added(p0, peer_id, addrs, p1),
    ensures
        distinct_member_ids(p1),
        exists|i: int| 0 <= i < p1.len() && p1[i].peer_id@ == peer_id
            && forall|j: int| 0 <= j < p1.len() && j != i ==> #[trigger] p1[j].peer_id@ != peer_id,
        p0.len() <= p1.len(),
        forall|j: int| 0 <= j < p0.len() ==> {
            &&& #[trigger] p1[j].peer_id == p0[j].peer_id
            &&& p1[j].role == p0[j].role
            &&& views(p0[j].addrs@).is_prefix_of(views(p1[j].addrs@))
        },
{
    lemma_member_index(p0, peer_id);
    match member_index(p0, peer_id) {
        Some(i) => {
            lemma_merge_addrs(views(p0[i].addrs@), views(addrs));
            assert forall|a: int, b: int| 0 <= a < b < p1.len() implies #[trigger] p1[a].peer_id@ != #[trigger] p1[b].peer_id@ by {
                assert(p1[a].peer_id == p0[a].peer_id);
                assert(p1[b].peer_id == p0[b].peer_id);
            }
            assert forall|j: int| 0 <= j < p1.len() && j != i implies #[trigger] p1[j].peer_id@ != peer_id by {
                assert(p1[j].peer_id == p0[j].peer_id);
                assert(p0[i].peer_id@ == peer_id);
            }
            assert forall|j: int| 0 <= j < p0.len() implies {
                &&& #[trigger] p1[j].peer_id == p0[j].peer_id
                &&& p1[j].role == p0[j].role
                &&& views(p0[j].addrs@).is_prefix_of(views(p1[j].addrs@))
            } by {
                if j != i {
                    assert(views(p0[j].addrs@).is_prefix_of(views(p0[j].addrs@)));
                }
            }
        },
        None => {
            assert forall|j: int| 0 <= j < p0.len() implies p1[j] == p0[j] by {
                assert(p1.take(p0.len() as int)[j] == p1[j]);
            }
            assert forall|a: int, b: int| 0 <= a < b < p1.len() implies #[trigger] p1[a].peer_id@ != #[trigger] p1[b].peer_id@ by {
                if b == p0.len() {
                    assert(p1[a] == p0[a]);
                } else {
                    assert(p1[a] == p0[a]);
                    assert(p1[b] == p0[b]);
                }
            }
            let i = p0.len() as int;
            assert(p1[i].peer_id@ == peer_id);
            assert forall|j: int| 0 <= j < p1.len() && j != i implies #[trigger] p1[j].peer_id@ != peer_id by {
                assert(p1[j] == p0[j]);
            }
            assert forall|j: int| 0 <= j < p0.len() implies {
                &&& #[trigger] p1[j].peer_id == p0[j].peer_id
                &&& p1[j].role == p0[j].role
                &&& views(p0[j].addrs@).is_prefix_of(views(p1[j].addrs@))
            } by {
                assert(p1[j] == p0[j]);
                assert(views(p0[j].addrs@).is_prefix_of(views(p0[j].addrs@)));
            }
        },
    }
}

impl Server {
    /// A new server with the given name and its `general` channel. Its id is
    /// derived from the name (see `server_id_for`).
    pub fn new(name: String) -> (s: Self)
        ensures
            s.id@ == server_id_for(name@),
            s.name@ == name@,
            s.channels@.len() == 1,
            s.channels@[0].id@ == general(),
            s.channels@[0].name@ == general(),
            s.peers@.len() == 0,
            s.owner_peer_id@.len() == 0,
    {
        let digest = sha256(name.as_str().as_bytes());
        let mut id_chars: Vec<char> = Vec::new();
        let mut i: usize = 0;
        while i < 8
            invariant
                i <= 8,
                digest@.len() == 32,
                id_chars@ =~= hex16(digest@).take(2 * i as int),
            decreases 8 - i,
        {
            let b = digest[i];
            id_chars.push(hex_char(b / 16));
            id_chars.push(hex_char(b % 16));
            i = i + 1;
        }
        let id = string_from_chars(id_chars.as_slice());
        proof {
            reveal_strlit("general");
        }
        let mut channels: Vec<Channel> = Vec::new();
        channels.push(Channel { id: "general".to_owned(), name: "general".to_owned() });
        Server { id, name, channels, peers: Vec::new(), owner_peer_id: String::new() }
    }

    /// A new server created by `owner_peer_id`, who is its first member, with
    /// the role `Owner`.
    pub fn new_owned(name: String, owner_peer_id: String) -> (s: Self)
        ensures
            s.id@ == server_id_for(name@),
            s.name@ == name@,
            s.channels@.len() == 1,
            s.channels@[0].id@ == general(),
            s.channels@[0].name@ == general(),
            s.owner_peer_id@ == owner_peer_id@,
            s.peers@.len() == 1,
            s.peers@[0].peer_id@ == owner_peer_id@,
            s.peers@[0].role == ServerRole::Owner,
            s.peers@[0].addrs@.len() == 0,
    {
        let mut server = Self::new(name);
        server.owner_peer_id = owner_peer_id.clone();
        server.peers.push(ServerMember {
            peer_id: owner_peer_id,
            role: ServerRole::Owner,
            addrs: Vec::new(),
        });
        server
    }

    /// The gossip topic of one of this server's channels.
    pub fn topic_for_channel(&self, channel_id: &str) -> (r: String)
        ensures
            r@ == topic_of(self.id@, channel_id@),
    {
        let mut t = String::new();
        t.append("murmur/server/");
        t.append(self.id.as_str());
        t.append("/channel/");
        t.append(channel_id);
        t
    }

    /// Adds a peer to the member list, or, if it is listed, merges `addrs`
    /// into its addresses: each new address is appended unless present.
    /// A new member gets the role `Member` and `addrs` as they are.
    pub fn add_peer(&mut self, peer_id: &str, addrs: Vec<String>)
        ensures
            final(self).id == old(self).id,
            final(self).name == old(self).name,
            final(self).channels == old(self).channels,
            final(self).owner_peer_id == old(self).owner_peer_id,
            peer_added(old(self).peers@, peer_id@, addrs@, final(self).peers@),
    {
        match find_member(&self.peers, peer_id) {
            Some(i) => {
                let mut merged = clone_strings(&self.peers[i].addrs);
                let mut k: usize = 0;
                while k < addrs.len()
                    invariant
                        k <= addrs.len(),
                        views(merged@) == merge_addrs(
                            views(old(self).peers@[i as int].addrs@),
                            views(addrs@.take(k as int)),
                        ),
                        self.peers@ == old(self).peers@,
                        i < self.peers@.len(),
                    decreases addrs.len() - k,
                {
                    assert(views(addrs@.take(k as int + 1)).drop_last() =~= views(addrs@.take(k as int)));
                    if !contains_str(&merged, addrs[k].as_str()) {
                        merged.push(addrs[k].clone());
                        assert(views(merged@) =~= views(merged@.drop_last()).push(addrs@[k as int]@));
                    }
                    k = k + 1;
                }
                assert(addrs@.take(addrs.len() as int) =~= addrs@);
                let member = ServerMember {
                    peer_id: self.peers[i].peer_id.clone(),
                    role: self.peers[i].role,
                    addrs: merged,
                };
                self.peers.set(i, member);
            },
            None => {
                self.peers.push(ServerMember {
                    peer_id: peer_id.to_owned(),
                    role: ServerRole::Member,
                    addrs,
                });
                assert(self.peers@.take(old(self).peers@.len() as int) =~= old(self).peers@);
            },
        }
    }

    /// The role of a peer in this server: that of its entry, or `Member` if
    /// it is not listed.
    pub fn role_of(&self, peer_id: &str) -> (r: ServerRole)
        ensures
            r == role_in(self.peers@, peer_id@),
    {
        match find_member(&self.peers, peer_id) {
            Some(i) => self.peers[i].role,
            None => ServerRole::Member,
        }
    }

    /// An invite code for this server: the URL-safe, unpadded base64 encoding
    /// of the UTF-8 bytes of the name, `|`, and all members' addresses joined
    /// with `,`.
    pub fn invite_code(&self) -> (r: String)
        ensures
            r@ == crate::codec::base64_url_encode(encode_utf8(invite_text(self.name@, self.peers@))),
            base64_url_decode(encode_utf8(r@)) == Some(encode_utf8(invite_text(self.name@, self.peers@))),
    {
        let mut t = String::new();
        t.append(self.name.as_str());
        t.append("|");
        proof {
            reveal_strlit("|");
            reveal_strlit(",");
        }
        let ghost head = self.name@.push('|');
        assert(t@ =~= head);
        let mut any = false;
        let mut i: usize = 0;
        assert(self.peers@.take(0) =~= Seq::<ServerMember>::empty());
        while i < self.peers.len()
            invariant
                i <= self.peers@.len(),
                head == self.name@.push('|'),
                t@ == head + join(all_addrs(self.peers@.take(i as int)), ','),
                any == (all_addrs(self.peers@.take(i as int)).len() > 0),
            decreases self.peers@.len() - i,
        {
            let ghost before = all_addrs(self.peers@.take(i as int));
            let mut k: usize = 0;
            assert(self.peers@[i as int].addrs@.take(0) =~= Seq::<String>::empty());
            assert(before + views(self.peers@[i as int].addrs@.take(0)) =~= before);
            while k < self.peers[i].addrs.len()
                invariant
                    i < self.peers@.len(),
                    k <= self.peers@[i as int].addrs@.len(),
                    head == self.name@.push('|'),
                    t@ == head + join(before + views(self.peers@[i as int].addrs@.take(k as int)), ','),
                    any == ((before + views(self.peers@[i as int].addrs@.take(k as int))).len() > 0),
                decreases self.peers@[i as int].addrs@.len() - k,
            {
                let ghost acc = before + views(self.peers@[i as int].addrs@.take(k as int));
                let ghost x = self.peers@[i as int].addrs@[k as int]@;
                assert(before + views(self.peers@[i as int].addrs@.take(k as int + 1)) =~= acc.push(x));
                proof { lemma_join_push(acc, x, ','); }
                let ghost t0 = t@;
                proof { reveal_strlit(","); }
                if any {
                    t.append(",");
                    t.append(self.peers[i].addrs[k].as_str());
                    assert(t@ =~= t0.push(',') + x);
                    assert(head + join(acc, ',').push(',') + x =~= (head + join(acc, ',')).push(',') + x);
                } else {
                    t.append(self.peers[i].addrs[k].as_str());
                    assert(join(acc, ',') =~= Seq::<char>::empty());
                    assert(t@ =~= head + x);
                }
                assert(t@ =~= head + join(acc.push(x), ','));
                any = true;
                k = k + 1;
            }
            proof {
                assert(self.peers@[i as int].addrs@.take(k as int) =~= self.peers@[i as int].addrs@);
                assert(self.peers@.take(i as int + 1) =~= self.peers@.take(i as int).push(self.peers@[i as int]));
                lemma_all_addrs_push(self.peers@.take(i as int), self.peers@[i as int]);
            }
            i = i + 1;
        }
        assert(self.peers@.take(i as int) =~= self.peers@);
        crate::codec::base64_encode(t.as_str().as_bytes())
    }

    /// Reads an invite code back into the server name and peer addresses.
    /// `None` when the code is not base64 or its bytes are not UTF-8.
    pub fn parse_invite(code: &str) -> (r: Option<(String, Vec<String>)>)
        ensures
            match parse_invite_spec(code@) {
                None => r is None,
                Some((name, addrs)) => r matches Some((n, a)) && n@ == name && views(a@) == addrs,
            },
    {
        let bytes = match crate::codec::base64_decode(code) {
            Some(b) => b,
            None => return None,
        };
        let s = match string_from_utf8(bytes) {
            Some(s) => s,
            None => return None,
        };
        let chars = chars_of(s.as_str());
        match find_char(&chars, '|') {
            Some(i) => {
                let name = string_of_range(&chars, 0, i);
                let addrs = split_non_empty(&chars, i + 1, ',');
                assert(chars@.subrange(0, i as int) =~= chars@.take(i as int));
                Some((name, addrs))
            },
            None => {
                let name = string_of_range(&chars, 0, chars.len());
                assert(chars@.subrange(0, chars@.len() as int) =~= chars@);
                let none: Vec<String> = Vec::new();
                assert(views(none@) =~= Seq::<Seq<char>>::empty());
                Some((name, none))
            },
        }
    }
}

} // verus!
