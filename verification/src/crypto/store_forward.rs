//! Store-and-forward relaying: peers hold encrypted messages for peers that
//! are offline and hand them over when those peers ask. Relays cannot read
//! the messages; a time-to-live bounds how long they are held and a hop
//! limit bounds how far they travel.
use vstd::prelude::*;
use crate::crypto::e2e::EncryptedEnvelope;
use crate::keyed::{key_index, lookup, unique_keys, find_key, upsert, lemma_key_index, lemma_key_index_unique};
use crate::text::{views, str_eq};
use crate::codec::now_unix_seconds;

verus! {

/// A message held for a peer that is offline.
#[derive(Debug)]
pub struct StoredMessage {
    /// Unique message id.
    pub id: String,
    /// The peer the message is for.
    pub target_peer_id: String,
    /// The encrypted message; relays cannot read it.
    pub envelope: EncryptedEnvelope,
    /// The topic the message belongs to.
    pub topic: String,
    /// When it was stored, in seconds since the Unix epoch.
    pub stored_at: i64,
    /// How long relays hold it, in seconds.
    pub ttl: u64,
    /// How many more relays may pass it on.
    pub relay_hops: u8,
}

/// A peer's request for the messages held for it.
#[derive(Debug)]
pub struct PullRequest {
    /// The peer asking.
    pub peer_id: String,
    /// Only messages stored at or after this time are wanted.
    pub since: i64,
    /// Only messages of these topics are wanted; none means all topics.
    pub topics: Vec<String>,
}

/// The messages handed over for a pull request.
#[derive(Debug)]
pub struct PullResponse {
    pub messages: Vec<StoredMessage>,
}

/// Whether a message has outlived its time-to-live at `now`.
pub open spec fn is_expired(m: StoredMessage, now: i64) -> bool {
    now as int - m.stored_at as int >= (m.ttl as i64) as int
}

/// The messages of `msgs` that have not expired at `now`, in order.
pub open spec fn unexpired(msgs: Seq<StoredMessage>, now: i64) -> Seq<StoredMessage>
    decreases msgs.len(),
{
    if msgs.len() == 0 {
        Seq::empty()
    } else if is_expired(msgs.last(), now) {
        unexpired(msgs.drop_last(), now)
    } else {
        unexpired(msgs.drop_last(), now).push(msgs.last())
    }
}

/// Whether a pull request asks for a message: stored no earlier than
/// `since`, and of one of the topics asked for, if any are named.
pub open spec fn is_requested(m: StoredMessage, since: i64, topics: Seq<Seq<char>>) -> bool {
    m.stored_at >= since && (topics.len() == 0 || topics.contains(m.topic@))
}

/// The messages of `msgs` that a request asks for (`wanted`) or does not
/// (`!wanted`), in order.
pub open spec fn select(msgs: Seq<StoredMessage>, since: i64, topics: Seq<Seq<char>>, wanted: bool) -> Seq<StoredMessage>
    decreases msgs.len(),
{
    if msgs.len() == 0 {
        Seq::empty()
    } else if is_requested(msgs.last(), since, topics) == wanted {
        select(msgs.drop_last(), since, topics, wanted).push(msgs.last())
    } else {
        select(msgs.drop_last(), since, topics, wanted)
    }
}

/// The number of messages over all entries.
pub open spec fn total_of(s: Seq<(String, Vec<StoredMessage>)>) -> int
    decreases s.len(),
{
    if s.len() == 0 {
        0
    } else {
        total_of(s.drop_last()) + s.last().1@.len()
    }
}

/// Whether some message of `msgs` has the id `id`.
pub open spec fn has_id(msgs: Seq<StoredMessage>, id: Seq<char>) -> bool {
    exists|i: int| 0 <= i < msgs.len() && (#[trigger] msgs[i]).id@ == id
}

/// No two messages of `msgs` share an id.
pub open spec fn ids_unique(msgs: Seq<StoredMessage>) -> bool {
    forall|i: int, j: int| 0 <= i < j < msgs.len() ==> msgs[i].id@ != msgs[j].id@
}

/// The hop count of a relayed copy: one less, but not below zero.
pub open spec fn relayed_hops(hops: u8) -> u8 {
    if hops > 0 { (hops - 1) as u8 } else { 0 }
}

/// The hop count after `n` relays.
pub open spec fn hops_after(hops: u8, n: nat) -> u8
    decreases n,
{
    if n == 0 { hops } else { relayed_hops(hops_after(hops, (n - 1) as nat)) }
}


/// The number of messages over all entries once expired ones are dropped.
pub open spec fn evicted_total(s: Seq<(String, Vec<StoredMessage>)>, now: i64) -> int
    decreases s.len(),
{
    if s.len() == 0 {
        0
    } else {
        evicted_total(s.drop_last(), now) + unexpired(s.last().1@, now).len()
    }
}

/// Whether storing `msg` next to the messages `msgs` already held for its
/// target is accepted, and what is then held: refused when 1000 are held,
/// accepted without change when a message with its id is held, else accepted
/// and appended.
pub open spec fn accept(msgs: Seq<StoredMessage>, msg: StoredMessage) -> (bool, Seq<StoredMessage>) {
    if msgs.len() >= 1000 {
        (false, msgs)
    } else if has_id(msgs, msg.id@) {
        (true, msgs)
    } else {
        (true, msgs.push(msg))
    }
}

/// The messages held for the peers that are offline.
pub struct StoreForward {
    stored: Vec<(String, Vec<StoredMessage>)>,
    max_per_peer: usize,
    max_total: usize,
    default_ttl: u64,
}


/// What storing `msg` at time `now` does: `before` and `after` are the relay
/// before and after, `r` the answer. See `StoreForward::store_message_at`.
pub open spec fn store_post(before: StoreForward, after: StoreForward, msg: StoredMessage, now: i64, r: bool) -> bool {
    if before.full_at(now) {
        &&& !r
        &&& forall|k: Seq<char>| #[trigger] after.messages_for(k) == before.held_before_store(k, now)
        &&& after.total() == before.total_before_store(now)
    } else {
        let t = msg.target_peer_id@;
        let held = before.held_before_store(t, now);
        &&& r == accept(held, msg).0
        &&& after.messages_for(t) == accept(held, msg).1
        &&& forall|k: Seq<char>| k != t ==> #[trigger] after.messages_for(k) == before.held_before_store(k, now)
        &&& after.total() == before.total_before_store(now) - held.len() + accept(held, msg).1.len()
    }
}

/// The messages held for `peer` in `s` (none when it has no entry).
pub open spec fn messages_in(s: Seq<(String, Vec<StoredMessage>)>, peer: Seq<char>) -> Seq<StoredMessage> {
    match lookup(s, peer) {
        Some(v) => v@,
        None => Seq::empty(),
    }
}

impl StoreForward {
    #[verifier::type_invariant]
    spec fn inv(self) -> bool {
        &&& unique_keys(self.stored@)
        &&& self.max_per_peer == 1000
        &&& self.max_total == 10000
        &&& self.default_ttl == 86400
    }

    /// The entries: each peer with the messages held for it.
    pub closed spec fn entries_spec(self) -> Seq<(String, Vec<StoredMessage>)> {
        self.stored@
    }

    /// The messages held for a peer.
    pub open spec fn messages_for(self, peer: Seq<char>) -> Seq<StoredMessage> {
        messages_in(self.entries_spec(), peer)
    }

    /// The number of messages held over all peers.
    pub open spec fn total(self) -> int {
        total_of(self.entries_spec())
    }

    /// A relay holding the given entries (as loaded from storage). For a peer
    /// listed twice the later list counts. It holds at most 1000 messages per
    /// peer and 10000 in all, and keeps messages for 24 hours by default.
    pub fn new(loaded: Vec<(String, Vec<StoredMessage>)>) -> (r: Self)
        ensures
            forall|k: Seq<char>| #[trigger] lookup(r.entries_spec(), k) == last_entry_for(loaded@, k),
            unique_keys(r.entries_spec()),
            r.entries_spec().len() <= loaded@.len(),
            loaded@.len() == 0 ==> r.total() == 0,
    {
        let mut stored: Vec<(String, Vec<StoredMessage>)> = Vec::new();
        let mut loaded = loaded;
        let ghost all = loaded@;
        let count = loaded.len();
        assert(all.len() == count);
        let mut n: usize = 0;
        while loaded.len() > 0
            invariant
                n <= all.len(),
                all.len() <= usize::MAX,
                loaded@ == all.skip(n as int),
                unique_keys(stored@),
                stored@.len() <= n,
                forall|k: Seq<char>| #[trigger] lookup(stored@, k) == last_entry_for(all.take(n as int), k),
            decreases loaded.len(),
        {
            let e = loaded.remove(0);
            assert(e == all[n as int]);
            assert(all.take(n as int + 1).drop_last() =~= all.take(n as int));
            assert(loaded@ =~= all.skip(n as int + 1));
            proof { lemma_key_index(stored@, e.0@); }
            upsert(&mut stored, &e.0, e.1);
            n = n + 1;
        }
        assert(all.take(n as int) =~= all);
        proof {
            if all.len() == 0 {
                assert(stored@ =~= Seq::<(String, Vec<StoredMessage>)>::empty());
            }
        }
        StoreForward { stored, max_per_peer: 1000, max_total: 10000, default_ttl: 86400 }
    }

    /// The messages held for `k` when a message is stored at `now`: when the
    /// relay is full (10000 messages), expired messages are dropped first.
    pub open spec fn held_before_store(self, k: Seq<char>, now: i64) -> Seq<StoredMessage> {
        if self.total() >= 10000 {
            unexpired(self.messages_for(k), now)
        } else {
            self.messages_for(k)
        }
    }

    /// The number of messages held when a message is stored at `now`, once
    /// expired ones are dropped from a full relay.
    pub open spec fn total_before_store(self, now: i64) -> int {
        if self.total() >= 10000 {
            evicted_total(self.entries_spec(), now)
        } else {
            self.total()
        }
    }

    /// Whether a store at `now` finds the relay full even after dropping the
    /// expired messages.
    pub open spec fn full_at(self, now: i64) -> bool {
        self.total() >= 10000 && evicted_total(self.entries_spec(), now) >= 10000
    }

    /// The entries: each peer with the messages held for it.
    pub fn entries(&self) -> (r: &Vec<(String, Vec<StoredMessage>)>)
        ensures
            r@ == self.entries_spec(),
    {
        &self.stored
    }

    /// The number of messages held for a peer.
    pub fn count_for_peer(&self, peer_id: &str) -> (r: usize)
        ensures
            r == self.messages_for(peer_id@).len(),
    {
        match find_key(&self.stored, peer_id) {
            Some(i) => self.stored[i].1.len(),
            None => 0,
        }
    }

    /// The number of messages held in all, or `usize::MAX` if larger.
    fn total_count(&self) -> (r: usize)
        ensures
            r as int == if self.total() < usize::MAX { self.total() } else { usize::MAX as int },
    {
        let mut sum: usize = 0;
        let mut i: usize = 0;
        while i < self.stored.len()
            invariant
                i <= self.stored@.len(),
                sum as int == if total_of(self.stored@.take(i as int)) < usize::MAX {
                    total_of(self.stored@.take(i as int))
                } else {
                    usize::MAX as int
                },
            decreases self.stored@.len() - i,
        {
            assert(self.stored@.take(i as int + 1).drop_last() =~= self.stored@.take(i as int));
            proof { lemma_total_nonneg(self.stored@.take(i as int)); }
            sum = sum.saturating_add(self.stored[i].1.len());
            i = i + 1;
        }
        assert(self.stored@.take(i as int) =~= self.stored@);
        sum
    }

    /// Drops the messages that have expired at `now`, and the peers left with
    /// none.
    pub fn evict_expired_at(&mut self, now: i64)
        ensures
            forall|k: Seq<char>| #[trigger] final(self).messages_for(k) == unexpired(old(self).messages_for(k), now),
            final(self).total() == evicted_total(old(self).entries_spec(), now),
            forall|i: int| 0 <= i < final(self).entries_spec().len() ==> (#[trigger] final(self).entries_spec()[i]).1@.len() > 0,
    {
        proof { use_type_invariant(&*self); }
        let mut old_stored: Vec<(String, Vec<StoredMessage>)> = Vec::new();
        std::mem::swap(&mut old_stored, &mut self.stored);
        let ghost all = old_stored@;
        let count = old_stored.len();
        assert(all.len() == count);
        let mut kept: Vec<(String, Vec<StoredMessage>)> = Vec::new();
        let mut n: usize = 0;
        while old_stored.len() > 0
            invariant
                n <= all.len(),
                all.len() <= usize::MAX,
                unique_keys(all),
                old_stored@ == all.skip(n as int),
                unique_keys(kept@),
                forall|k: Seq<char>| #[trigger] key_index(kept@, k) is Some ==> key_index(all.take(n as int), k) is Some,
                forall|k: Seq<char>| #[trigger] messages_in(kept@, k) == unexpired(messages_in(all.take(n as int), k), now),
                total_of(kept@) == evicted_total(all.take(n as int), now),
                forall|i: int| 0 <= i < kept@.len() ==> (#[trigger] kept@[i]).1@.len() > 0,
            decreases old_stored.len(),
        {
            let (peer, msgs) = old_stored.remove(0);
            assert(all[n as int] == (peer, msgs));
            assert(old_stored@ =~= all.skip(n as int + 1));
            let ghost pre = all.take(n as int);
            assert(all.take(n as int + 1).drop_last() =~= pre);
            proof {
                assert forall|k: Seq<char>| #[trigger] messages_in(all.take(n as int + 1), k) == if peer@ == k { msgs@ } else { messages_in(pre, k) } by {
                    crate::keyed::lemma_lookup_take_succ(all, n as int, k);
                }
                crate::keyed::lemma_lookup_take_succ(all, n as int, peer@);
            }
            let remaining = unexpired_of(msgs, now);
            if remaining.len() > 0 {
                let ghost before = kept@;
                let e = (peer, remaining);
                proof {
                    lemma_key_index(pre, e.0@);
                    if key_index(before, e.0@) is Some {
                        assert(key_index(pre, e.0@) is Some);
                    }
                    crate::keyed::lemma_push_new_key(before, e);
                }
                kept.push(e);
                proof {
                    assert(kept@.drop_last() =~= before);
                    assert forall|k: Seq<char>| #[trigger] key_index(kept@, k) is Some implies key_index(all.take(n as int + 1), k) is Some by {
                        crate::keyed::lemma_lookup_take_succ(all, n as int, k);
                    }
                    assert forall|k: Seq<char>| #[trigger] messages_in(kept@, k) == unexpired(messages_in(all.take(n as int + 1), k), now) by {
                        crate::keyed::lemma_lookup_take_succ(all, n as int, k);
                        assert(messages_in(before, k) == unexpired(messages_in(pre, k), now));
                    }
                    assert forall|i: int| 0 <= i < kept@.len() implies (#[trigger] kept@[i]).1@.len() > 0 by {
                        if i < before.len() {
                            assert(kept@[i] == before[i]);
                        }
                    }
                }
            } else {
                proof {
                    assert forall|k: Seq<char>| #[trigger] key_index(kept@, k) is Some implies key_index(all.take(n as int + 1), k) is Some by {
                        crate::keyed::lemma_lookup_take_succ(all, n as int, k);
                    }
                    assert forall|k: Seq<char>| #[trigger] messages_in(kept@, k) == unexpired(messages_in(all.take(n as int + 1), k), now) by {
                        crate::keyed::lemma_lookup_take_succ(all, n as int, k);
                        if k == peer@ {
                            lemma_key_index(pre, k);
                            if key_index(kept@, k) is Some {
                                assert(key_index(pre, k) is Some);
                            }
                            assert(unexpired(Seq::<StoredMessage>::empty(), now) =~= Seq::<StoredMessage>::empty());
                        }
                    }
                }
            }
            n = n + 1;
        }
        assert(all.take(n as int) =~= all);
        self.stored = kept;
    }

    /// Drops the messages that have expired now, by the system clock.
    pub fn evict_expired(&mut self)
        ensures
            exists|now: i64| {
                &&& forall|k: Seq<char>| #[trigger] final(self).messages_for(k) == unexpired(old(self).messages_for(k), now)
                &&& final(self).total() == evicted_total(old(self).entries_spec(), now)
            },
    {
        let now = now_unix_seconds();
        self.evict_expired_at(now);
    }

    /// Stores a message for an offline peer at time `now` (see `accept`).
    /// When 10000 messages are held, expired ones are dropped first, and if
    /// 10000 remain the message is refused. Returns whether the message is
    /// held afterwards.
    pub fn store_message_at(&mut self, msg: StoredMessage, now: i64) -> (r: bool)
        ensures
            store_post(*old(self), *final(self), msg, now, r),
    {
        proof { use_type_invariant(&*self); }
        let total = self.total_count();
        if total >= self.max_total {
            self.evict_expired_at(now);
            proof { use_type_invariant(&*self); }
            let total = self.total_count();
            if total >= self.max_total {
                return false;
            }
        }
        self.insert_message(msg)
    }

    /// Stores a message for an offline peer, at the current time by the
    /// system clock (see `store_message_at`). Returns whether the message is
    /// held afterwards: `false` when the relay or the peer's share is full.
    pub fn store_message(&mut self, msg: StoredMessage) -> (r: bool)
        ensures
            exists|now: i64| store_post(*old(self), *final(self), msg, now, r),
    {
        let now = now_unix_seconds();
        self.store_message_at(msg, now)
    }

    /// Hands over and drops the messages held for the requesting peer that
    /// the request asks for (see `is_requested`), in the order they were
    /// stored. The others stay, in order.
    pub fn pull_messages(&mut self, request: &PullRequest) -> (r: PullResponse)
        ensures
            r.messages@ == select(old(self).messages_for(request.peer_id@), request.since, views(request.topics@), true),
            final(self).messages_for(request.peer_id@) == select(
                old(self).messages_for(request.peer_id@),
                request.since,
                views(request.topics@),
                false,
            ),
            forall|k: Seq<char>| k != request.peer_id@ ==> #[trigger] final(self).messages_for(k) == old(self).messages_for(k),
    {
        proof { use_type_invariant(&*self); }
        let ghost mid = self.stored@;
        let ghost topics = views(request.topics@);
        match find_key(&self.stored, request.peer_id.as_str()) {
            None => {
                proof { lemma_key_index(mid, request.peer_id@); }
                assert(select(Seq::<StoredMessage>::empty(), request.since, topics, true) =~= Seq::<StoredMessage>::empty());
                assert(select(Seq::<StoredMessage>::empty(), request.since, topics, false) =~= Seq::<StoredMessage>::empty());
                PullResponse { messages: Vec::new() }
            },
            Some(i) => {
                let mut stored: Vec<(String, Vec<StoredMessage>)> = Vec::new();
                std::mem::swap(&mut stored, &mut self.stored);
                let (k, msgs) = stored.remove(i);
                let empty: Vec<StoredMessage> = Vec::new();
                stored.insert(i, (k, empty));
                proof {
                    lemma_key_index(mid, request.peer_id@);
                    assert(stored@ =~= mid.update(i as int, (k, empty)));
                    crate::keyed::lemma_update_value(mid, i as int, (k, empty));
                    assert forall|j: Seq<char>| j != request.peer_id@ implies #[trigger] lookup(stored@, j) == lookup(mid, j) by {
                        lemma_key_index(mid, j);
                    }
                }
                let ghost all = msgs@;
                let mut msgs = msgs;
                let count = msgs.len();
                assert(all.len() == count);
                let mut deliver: Vec<StoredMessage> = Vec::new();
                let mut keep: Vec<StoredMessage> = Vec::new();
                let mut n: usize = 0;
                while msgs.len() > 0
                    invariant
                        n <= all.len(),
                        all.len() <= usize::MAX,
                        msgs@ == all.skip(n as int),
                        topics == views(request.topics@),
                        deliver@ == select(all.take(n as int), request.since, topics, true),
                        keep@ == select(all.take(n as int), request.since, topics, false),
                    decreases msgs.len(),
                {
                    let m = msgs.remove(0);
                    assert(all[n as int] == m);
                    assert(msgs@ =~= all.skip(n as int + 1));
                    assert(all.take(n as int + 1).drop_last() =~= all.take(n as int));
                    let wanted = m.stored_at >= request.since && (request.topics.len() == 0
                        || crate::text::contains_str(&request.topics, m.topic.as_str()));
                    if wanted {
                        deliver.push(m);
                    } else {
                        keep.push(m);
                    }
                    n = n + 1;
                }
                assert(all.take(n as int) =~= all);
                upsert(&mut stored, &request.peer_id, keep);
                self.stored = stored;
                PullResponse { messages: deliver }
            },
        }
    }

    /// Whether a message may be relayed further: it has hops left.
    pub fn should_relay(msg: &StoredMessage) -> (r: bool)
        ensures
            r == (msg.relay_hops > 0),
    {
        msg.relay_hops > 0
    }

    /// A copy of a message for relaying, with one hop less (never below 0).
    pub fn relay_copy(msg: &StoredMessage) -> (r: StoredMessage)
        ensures
            r.relay_hops == relayed_hops(msg.relay_hops),
            r.id == msg.id,
            r.target_peer_id == msg.target_peer_id,
            r.topic == msg.topic,
            r.stored_at == msg.stored_at,
            r.ttl == msg.ttl,
            r.envelope.ephemeral_pubkey == msg.envelope.ephemeral_pubkey,
            r.envelope.nonce == msg.envelope.nonce,
            r.envelope.ciphertext@ == msg.envelope.ciphertext@,
            r.envelope.sender_pubkey == msg.envelope.sender_pubkey,
    {
        StoredMessage {
            id: msg.id.clone(),
            target_peer_id: msg.target_peer_id.clone(),
            envelope: msg.envelope.clone(),
            topic: msg.topic.clone(),
            stored_at: msg.stored_at,
            ttl: msg.ttl,
            relay_hops: msg.relay_hops.saturating_sub(1),
        }
    }

    /// Holds `msg` for its target as `accept` says, without regard to the
    /// total.
    fn insert_message(&mut self, msg: StoredMessage) -> (r: bool)
        ensures
            r == accept(old(self).messages_for(msg.target_peer_id@), msg).0,
            final(self).messages_for(msg.target_peer_id@) == accept(old(self).messages_for(msg.target_peer_id@), msg).1,
            forall|k: Seq<char>| k != msg.target_peer_id@ ==> #[trigger] final(self).messages_for(k) == old(self).messages_for(k),
            final(self).total() == old(self).total() - old(self).messages_for(msg.target_peer_id@).len()
                + accept(old(self).messages_for(msg.target_peer_id@), msg).1.len(),
    {
        proof { use_type_invariant(&*self); }
        let ghost mid = self.stored@;
        let ghost m = msg;
        let mut stored: Vec<(String, Vec<StoredMessage>)> = Vec::new();
        std::mem::swap(&mut stored, &mut self.stored);
        let target = msg.target_peer_id.clone();
        let mut peer_msgs = match find_key(&stored, target.as_str()) {
            Some(i) => {
                let (k, v) = stored.remove(i);
                let empty: Vec<StoredMessage> = Vec::new();
                stored.insert(i, (k, empty));
                proof {
                    lemma_key_index(mid, target@);
                    assert(stored@ =~= mid.update(i as int, (k, empty)));
                    crate::keyed::lemma_update_value(mid, i as int, (k, empty));
                    assert forall|j: Seq<char>| j != target@ implies #[trigger] lookup(stored@, j) == lookup(mid, j) by {
                        lemma_key_index(mid, j);
                    }
                    lemma_total_update(mid, i as int, (k, empty));
                    assert(key_index(stored@, target@) == Some(i as int));
                }
                v
            },
            None => {
                proof { lemma_key_index(mid, target@); }
                Vec::new()
            },
        };
        let ghost cleared = stored@;
        assert(total_of(cleared) == total_of(mid) - messages_in(mid, m.target_peer_id@).len());
        assert(peer_msgs@ == messages_in(mid, m.target_peer_id@));
        let accepted = if peer_msgs.len() >= self.max_per_peer {
            false
        } else if has_message_id(&peer_msgs, msg.id.as_str()) {
            true
        } else {
            peer_msgs.push(msg);
            true
        };
        let ghost kept = peer_msgs;
        upsert(&mut stored, &target, peer_msgs);
        proof {
            match key_index(cleared, target@) {
                Some(i) => {
                    lemma_total_update(cleared, i, (target, kept));
                },
                None => {
                    assert(stored@.drop_last() =~= cleared);
                    assert(total_of(stored@) == total_of(cleared) + kept@.len());
                },
            }
        }
        self.stored = stored;
        accepted
    }
}


/// Storing a message whose id is already held for its target, in a relay
/// that is not full, is reported as stored and keeps a single copy: what is
/// held, and the total, are as before the store.
pub proof fn lemma_store_duplicate(before: StoreForward, after: StoreForward, msg: StoredMessage, now: i64, r: bool)
    requires
        store_post(before, after, msg, now, r),
        !before.full_at(now),
        has_id(before.held_before_store(msg.target_peer_id@, now), msg.id@),
        before.held_before_store(msg.target_peer_id@, now).len() < 1000,
    ensures
        r,
        after.messages_for(msg.target_peer_id@) == before.held_before_store(msg.target_peer_id@, now),
        after.total() == before.total_before_store(now),
{
}

/// Replacing one entry changes the total by the difference of the two lists'
/// lengths.
proof fn lemma_total_update(s: Seq<(String, Vec<StoredMessage>)>, i: int, e: (String, Vec<StoredMessage>))
    requires
        0 <= i < s.len(),
    ensures
        total_of(s.update(i, e)) == total_of(s) - s[i].1@.len() + e.1@.len(),
    decreases s.len(),
{
    let t = s.update(i, e);
    if i == s.len() - 1 {
        assert(t.drop_last() =~= s.drop_last());
    } else {
        assert(t.drop_last() =~= s.drop_last().update(i, e));
        lemma_total_update(s.drop_last(), i, e);
    }
}

/// `total_of` is not negative.
proof fn lemma_total_nonneg(s: Seq<(String, Vec<StoredMessage>)>)
    ensures
        total_of(s) >= 0,
    decreases s.len(),
{
    if s.len() > 0 {
        lemma_total_nonneg(s.drop_last());
    }
}

/// The messages of `msgs` that have not expired at `now`.
fn unexpired_of(msgs: Vec<StoredMessage>, now: i64) -> (r: Vec<StoredMessage>)
    ensures
        r@ == unexpired(msgs@, now),
{
    let ghost all = msgs@;
    let mut msgs = msgs;
    let count = msgs.len();
    assert(all.len() == count);
    let mut kept: Vec<StoredMessage> = Vec::new();
    let mut n: usize = 0;
    while msgs.len() > 0
        invariant
            n <= all.len(),
            all.len() <= usize::MAX,
            msgs@ == all.skip(n as int),
            kept@ == unexpired(all.take(n as int), now),
        decreases msgs.len(),
    {
        let m = msgs.remove(0);
        assert(all[n as int] == m);
        assert(msgs@ =~= all.skip(n as int + 1));
        assert(all.take(n as int + 1).drop_last() =~= all.take(n as int));
        let age: i128 = now as i128 - m.stored_at as i128;
        let ttl = m.ttl as i64;
        if age < ttl as i128 {
            kept.push(m);
        }
        n = n + 1;
    }
    assert(all.take(n as int) =~= all);
    kept
}

/// Whether some message of `msgs` has the id `id`.
fn has_message_id(msgs: &Vec<StoredMessage>, id: &str) -> (r: bool)
    ensures
        r == has_id(msgs@, id@),
{
    let mut i: usize = 0;
    while i < msgs.len()
        invariant
            i <= msgs@.len(),
            forall|j: int| 0 <= j < i ==> msgs@[j].id@ != id@,
        decreases msgs@.len() - i,
    {
        if str_eq(msgs[i].id.as_str(), id) {
            assert(msgs@[i as int].id@ == id@);
            return true;
        }
        i = i + 1;
    }
    false
}

/// The list of the last entry for `k` in `s`.
pub open spec fn last_entry_for(s: Seq<(String, Vec<StoredMessage>)>, k: Seq<char>) -> Option<Vec<StoredMessage>>
    decreases s.len(),
{
    if s.len() == 0 {
        None
    } else if s.last().0@ == k {
        Some(s.last().1)
    } else {
        last_entry_for(s.drop_last(), k)
    }
}

} // verus!

verus! {

/// `select` keeps what it is asked to keep: an item of `msgs` is in the
/// selection exactly when its being requested matches `wanted`.
pub proof fn lemma_select_members(msgs: Seq<StoredMessage>, since: i64, topics: Seq<Seq<char>>, wanted: bool, m: StoredMessage)
    ensures
        select(msgs, since, topics, wanted).contains(m) <==> (msgs.contains(m) && is_requested(m, since, topics) == wanted),
    decreases msgs.len(),
{
    broadcast use vstd::seq_lib::group_seq_properties;
    if msgs.len() > 0 {
        let rest = msgs.drop_last();
        lemma_select_members(rest, since, topics, wanted, m);
        assert(msgs =~= rest.push(msgs.last()));
        if msgs.contains(m) && m != msgs.last() {
            let i = choose|i: int| 0 <= i < msgs.len() && msgs[i] == m;
            assert(rest[i] == m);
        }
        if rest.contains(m) {
            let i = choose|i: int| 0 <= i < rest.len() && rest[i] == m;
            assert(msgs[i] == m);
        }
    }
}

/// A pull that names no topics and asks from a time no later than any held
/// message hands over every held message, in order, and leaves none.
pub proof fn lemma_pull_everything(msgs: Seq<StoredMessage>, since: i64)
    requires
        forall|i: int| 0 <= i < msgs.len() ==> since <= (#[trigger] msgs[i]).stored_at,
    ensures
        select(msgs, since, Seq::empty(), true) == msgs,
        select(msgs, since, Seq::empty(), false) == Seq::<StoredMessage>::empty(),
    decreases msgs.len(),
{
    if msgs.len() > 0 {
        let rest = msgs.drop_last();
        assert forall|i: int| 0 <= i < rest.len() implies since <= (#[trigger] rest[i]).stored_at by {
            assert(rest[i] == msgs[i]);
        }
        lemma_pull_everything(rest, since);
        assert(msgs.last() == msgs[msgs.len() - 1]);
        assert(rest.push(msgs.last()) =~= msgs);
    }
}

/// After a store that answers `true`, a message with the stored message's id
/// is held for its target.
pub proof fn lemma_store_then_held(before: StoreForward, after: StoreForward, msg: StoredMessage, now: i64)
    requires
        store_post(before, after, msg, now, true),
    ensures
        has_id(after.messages_for(msg.target_peer_id@), msg.id@),
{
    let held = before.held_before_store(msg.target_peer_id@, now);
    if !has_id(held, msg.id@) {
        let a = held.push(msg);
        assert(a[held.len() as int] == msg);
    }
}

/// A new message that a store accepts is handed over, to its target, by a
/// later pull that names no topics or names its topic, and asks from a time
/// no later than the message's.
pub proof fn lemma_store_then_pull(
    before: StoreForward,
    msg: StoredMessage,
    relay: StoreForward,
    now: i64,
    since: i64,
    topics: Seq<Seq<char>>,
)
    requires
        store_post(before, relay, msg, now, true),
        !has_id(before.held_before_store(msg.target_peer_id@, now), msg.id@),
        since <= msg.stored_at,
        topics.len() == 0 || topics.contains(msg.topic@),
    ensures
        select(relay.messages_for(msg.target_peer_id@), since, topics, true).contains(msg),
{
    let held = before.held_before_store(msg.target_peer_id@, now);
    let a = held.push(msg);
    assert(a[held.len() as int] == msg);
    lemma_select_members(a, since, topics, true, msg);
}

/// A store never takes a peer's share beyond 1000 messages, and never holds
/// two messages with one id for a peer that had none.
pub proof fn lemma_store_bounds(before: StoreForward, after: StoreForward, msg: StoredMessage, now: i64, r: bool)
    requires
        store_post(before, after, msg, now, r),
        before.held_before_store(msg.target_peer_id@, now).len() <= 1000,
        ids_unique(before.held_before_store(msg.target_peer_id@, now)),
    ensures
        after.messages_for(msg.target_peer_id@).len() <= 1000,
        ids_unique(after.messages_for(msg.target_peer_id@)),
{
    let held = before.held_before_store(msg.target_peer_id@, now);
    if !before.full_at(now) && held.len() < 1000 && !has_id(held, msg.id@) {
        let a = held.push(msg);
        assert forall|i: int, j: int| 0 <= i < j < a.len() implies a[i].id@ != a[j].id@ by {
            if j == held.len() {
                assert(a[i] == held[i]);
                assert(a[j] == msg);
            } else {
                assert(a[i] == held[i]);
                assert(a[j] == held[j]);
            }
        }
    }
}

/// Eviction keeps exactly the messages that have not expired, in order:
/// whatever it keeps has not expired, and it keeps everything that has not.
pub proof fn lemma_unexpired_members(msgs: Seq<StoredMessage>, now: i64, m: StoredMessage)
    ensures
        unexpired(msgs, now).contains(m) <==> (msgs.contains(m) && !is_expired(m, now)),
    decreases msgs.len(),
{
    broadcast use vstd::seq_lib::group_seq_properties;
    if msgs.len() > 0 {
        let rest = msgs.drop_last();
        lemma_unexpired_members(rest, now, m);
        assert(msgs =~= rest.push(msgs.last()));
        if msgs.contains(m) && m != msgs.last() {
            let i = choose|i: int| 0 <= i < msgs.len() && msgs[i] == m;
            assert(rest[i] == m);
        }
        if rest.contains(m) {
            let i = choose|i: int| 0 <= i < rest.len() && rest[i] == m;
            assert(msgs[i] == m);
        }
    }
}

/// A message may be relayed as many times as it had hops, and no more: after
/// `n` relays it has hops left exactly when `n` is below its starting count.
pub proof fn lemma_relay_chain_ends(hops: u8, n: nat)
    ensures
        hops_after(hops, n) > 0 <==> n < hops,
        hops_after(hops, n) as int == if n < hops { hops - n } else { 0 },
    decreases n,
{
    if n > 0 {
        lemma_relay_chain_ends(hops, (n - 1) as nat);
    }
}

} // verus!
