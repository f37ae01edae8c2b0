//! What the interface shows, as plain values: the header of the main area,
//! the input line's hint, which messages continue their sender's
//! run, and the typing indicator. Drawing them is the caller's.
use vstd::prelude::*;
use vstd::utf8::{encode_utf8, is_char_boundary};
use crate::types::{UserProfile, UserStatus, short_peer_id, short_peer_id_of};
use crate::state::store::AppState;
use crate::keyed::{lookup, find_key, lemma_key_index};
use crate::text::str_eq;

verus! {

/// The header of the main area.
#[derive(Debug)]
pub enum MainHeader {
    /// A direct conversation, with the name shown for the peer.
    Direct(String),
    /// A channel, with the number of members shown: the known peers and us.
    Channel { name: String, members: usize },
    /// A server is selected but not one of its channels.
    SelectChannel,
    /// The selected server does not exist.
    SelectServer,
    /// Nothing is selected.
    Welcome,
}

/// The name shown for a peer: its display name when known, else its short
/// id.
pub open spec fn peer_label(s: AppState, peer: Seq<char>) -> Seq<char> {
    match lookup(s.peers@, peer) {
        Some(p) => p.display_name@,
        None => short_peer_id(peer),
    }
}

/// Whether the message at `i` continues the run of its sender: the one
/// before it has the same sender.
pub open spec fn continues(senders: Seq<Seq<char>>, i: int) -> bool {
    i > 0 && senders[i] == senders[i - 1]
}

/// The number of known peers that are not offline.
pub open spec fn online_peers(peers: Seq<(String, UserProfile)>) -> nat
    decreases peers.len(),
{
    if peers.len() == 0 {
        0
    } else {
        online_peers(peers.drop_last()) + if peers.last().1.status != UserStatus::Offline { 1nat } else { 0nat }
    }
}

/// The dots of the typing indicator: one to three, changing every eight
/// animation ticks (none on every fourth step).
pub open spec fn typing_dots(tick: u64) -> Seq<char> {
    Seq::new(((tick / 8) % 4) as nat, |i: int| '.')
}

/// The typing indicator for the peers typing: none when nobody is, the
/// name of a single typist, or `several people` for more.
pub open spec fn typing_line(names: Seq<Seq<char>>, tick: u64) -> Option<Seq<char>> {
    if names.len() == 0 {
        None
    } else if names.len() == 1 {
        Some(names[0] + " is typing"@ + typing_dots(tick))
    } else {
        Some("several people are typing"@ + typing_dots(tick))
    }
}

/// Which of the messages, given by their senders, continue their sender's
/// run (see `continues`).
pub fn continuations(senders: &Vec<String>) -> (r: Vec<bool>)
    ensures
        r@.len() == senders@.len(),
        forall|i: int| 0 <= i < r@.len() ==> r@[i] == continues(crate::text::views(senders@), i),
{
    let mut r: Vec<bool> = Vec::new();
    let mut i: usize = 0;
    while i < senders.len()
        invariant
            i <= senders@.len(),
            r@.len() == i,
            forall|j: int| 0 <= j < i ==> r@[j] == continues(crate::text::views(senders@), j),
        decreases senders@.len() - i,
    {
        let flag = i > 0 && str_eq(senders[i].as_str(), senders[i - 1].as_str());
        r.push(flag);
        i = i + 1;
    }
    r
}

/// The typing indicator's text (see `typing_line`).
pub fn typing_text(names: &Vec<String>, tick: u64) -> (r: Option<String>)
    ensures
        match typing_line(crate::text::views(names@), tick) {
            Some(t) => r matches Some(s) && s@ == t,
            None => r is None,
        },
{
    if names.len() == 0 {
        return None;
    }
    let n: u64 = (tick / 8) % 4;
    let mut dots = String::new();
    let mut k: u64 = 0;
    proof {
        reveal_strlit(".");
        reveal_strlit(" is typing");
        reveal_strlit("several people are typing");
    }
    while k < n
        invariant
            k <= n,
            n == (tick / 8) % 4,
            dots@ =~= Seq::new(k as nat, |i: int| '.'),
        decreases n - k,
    {
        proof { reveal_strlit("."); }
        dots.append(".");
        k = k + 1;
    }
    let mut line = if names.len() == 1 {
        let mut l = names[0].clone();
        l.append(" is typing");
        l
    } else {
        "several people are typing".to_owned()
    };
    line.append(dots.as_str());
    Some(line)
}

impl AppState {
    /// The counts of the member list: the peers online with us counted in,
    /// and the peers offline.
    pub fn member_counts(&self) -> (r: (usize, usize))
        requires
            self.peers@.len() < usize::MAX,
        ensures
            r.0 == online_peers(self.peers@) + 1,
            r.0 + r.1 == self.peers@.len() + 1,
    {
        let mut online: usize = 0;
        let mut i: usize = 0;
        while i < self.peers.len()
            invariant
                i <= self.peers@.len(),
                self.peers@.len() < usize::MAX,
                online == online_peers(self.peers@.take(i as int)),
                online <= i,
            decreases self.peers@.len() - i,
        {
            assert(self.peers@.take(i as int + 1).drop_last() =~= self.peers@.take(i as int));
            if self.peers[i].1.status != UserStatus::Offline {
                online = online + 1;
            }
            i = i + 1;
        }
        assert(self.peers@.take(i as int) =~= self.peers@);
        (online + 1, self.peers.len() - online)
    }

    /// The header of the main area: the selected direct conversation, else
    /// the selected channel with the member count, else what is missing.
    pub fn main_header(&self) -> (r: MainHeader)
        requires
            self.wf(),
            self.peers@.len() < usize::MAX,
            self.active_dm_peer matches Some(p) ==> {
                &&& encode_utf8(p@).len() <= usize::MAX
                &&& encode_utf8(p@).len() >= 8 ==> is_char_boundary(encode_utf8(p@), 8)
            },
        ensures
            match self.active_dm_peer {
                Some(p) => r matches MainHeader::Direct(n) && n@ == peer_label(*self, p@),
                None => match (self.active_server, self.active_channel) {
                    (Some(si), Some(ci)) => if si < self.servers@.len() {
                        if ci < self.servers@[si as int].channels@.len() {
                            r matches MainHeader::Channel { name, members }
                                && name == self.servers@[si as int].channels@[ci as int].name
                                && members == self.peers@.len() + 1
                        } else {
                            r is SelectChannel
                        }
                    } else {
                        r is SelectServer
                    },
                    _ => r is Welcome,
                },
            },
    {
        if let Some(p) = &self.active_dm_peer {
            proof { lemma_key_index(self.peers@, p@); }
            let name = match find_key(&self.peers, p.as_str()) {
                Some(i) => self.peers[i].1.display_name.clone(),
                None => short_peer_id_of(p.as_str()),
            };
            return MainHeader::Direct(name);
        }
        match (self.active_server, self.active_channel) {
            (Some(si), Some(ci)) => {
                if si < self.servers.len() {
                    if ci < self.servers[si].channels.len() {
                        MainHeader::Channel {
                            name: self.servers[si].channels[ci].name.clone(),
                            members: self.peers.len() + 1,
                        }
                    } else {
                        MainHeader::SelectChannel
                    }
                } else {
                    MainHeader::SelectServer
                }
            },
            _ => MainHeader::Welcome,
        }
    }

    /// The hint shown in the empty input line: `Message` in a direct
    /// conversation, `Message #<channel>` in a selected channel, else
    /// `Type a message...`.
    pub fn input_hint(&self) -> (r: String)
        ensures
            r@ == match self.active_dm_peer {
                Some(_) => "Message"@,
                None => match (self.active_server, self.active_channel) {
                    (Some(si), Some(ci)) => if si < self.servers@.len() && ci < self.servers@[si as int].channels@.len() {
                        "Message #"@ + self.servers@[si as int].channels@[ci as int].name@
                    } else {
                        "Type a message..."@
                    },
                    _ => "Type a message..."@,
                },
            },
    {
        if self.active_dm_peer.is_some() {
            return "Message".to_owned();
        }
        if let (Some(si), Some(ci)) = (self.active_server, self.active_channel) {
            if si < self.servers.len() && ci < self.servers[si].channels.len() {
                let mut t = "Message #".to_owned();
                t.append(self.servers[si].channels[ci].name.as_str());
                return t;
            }
        }
        "Type a message...".to_owned()
    }
}

} // verus!
