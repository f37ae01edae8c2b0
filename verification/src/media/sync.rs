//! Clock synchronisation for aligning audio streams across peers.
//!
//! NTP-style round trips estimate each peer's clock offset and one-way
//! latency. Received audio is delayed so that every stream plays at the same
//! alignment delay after it was sent, whatever its network latency.
use vstd::prelude::*;
use crate::keyed::{key_index, lookup, unique_keys, find_key, upsert, lemma_key_index, lemma_update_value};

verus! {

/// A clock synchronisation probe sent to a peer.
#[derive(Debug, Clone, Copy)]
pub struct ClockProbe {
    /// Sequence number, for matching responses to probes.
    pub seq: u64,
    /// The sender's clock, in microseconds, when the probe was sent.
    pub t1_us: u64,
}

/// The answer to a clock probe.
#[derive(Debug, Clone, Copy)]
pub struct ClockProbeResponse {
    pub seq: u64,
    /// The probe's send time, echoed back.
    pub t1_us: u64,
    /// The responder's clock when the probe arrived.
    pub t2_us: u64,
    /// The responder's clock when the response was sent.
    pub t3_us: u64,
}

#[verifier::external_type_specification]
#[verifier::external_body]
pub struct ExInstant(std::time::Instant);

/// `std::time::Instant::now`. Nothing is promised of the value.
#[verifier::external_body]
fn instant_now() -> (r: std::time::Instant)
{
    std::time::Instant::now()
}

/// `Instant::elapsed` in whole microseconds, cut to `u64` as `as` does.
/// Nothing is promised of the value: it is the clock's.
#[verifier::external_body]
fn micros_since(epoch: &std::time::Instant) -> (r: u64)
{
    epoch.elapsed().as_micros() as u64
}

/// The clock state kept for one peer.
#[derive(Debug)]
pub struct PeerClock {
    /// Estimated one-way latency to the peer, in microseconds.
    pub latency_us: i64,
    /// Estimated clock offset (peer time minus local time), in microseconds.
    pub offset_us: i64,
    /// Number of completed measurements.
    pub sync_count: u64,
    /// Sequence numbers of probes sent and not yet answered.
    pub pending: Vec<u64>,
}

/// The largest latency among the peers measured at least once.
pub open spec fn max_synced_latency(peers: Seq<(String, PeerClock)>) -> Option<int>
    decreases peers.len(),
{
    if peers.len() == 0 {
        None
    } else {
        let rest = max_synced_latency(peers.drop_last());
        let p = peers.last().1;
        if p.sync_count > 0 {
            match rest {
                Some(m) => Some(if p.latency_us > m { p.latency_us as int } else { m }),
                None => Some(p.latency_us as int),
            }
        } else {
            rest
        }
    }
}

/// The alignment delay for a set of peers: the largest latency among the
/// peers measured at least once (zero when there is none), plus a 20 ms
/// margin, and at least 50 ms.
pub open spec fn alignment_for(peers: Seq<(String, PeerClock)>) -> int {
    let m = match max_synced_latency(peers) {
        Some(m) => m,
        None => 0,
    };
    if m + 20_000 >= 50_000 { m + 20_000 } else { 50_000 }
}

/// The additional delay for a peer's audio so that it plays at the alignment
/// delay after it was sent: the alignment delay less the peer's latency, but
/// not negative; the whole alignment delay for a peer without estimates.
pub open spec fn playback_delay(alignment: i64, clock: Option<PeerClock>) -> int {
    match clock {
        Some(c) => if alignment - c.latency_us >= 0 { alignment - c.latency_us } else { 0 },
        None => alignment as int,
    }
}

/// The latency bound below which the alignment delay cannot overflow.
pub open spec fn latency_limit() -> int {
    i64::MAX - 20_000
}

/// Clock synchronisation with all voice peers.
pub struct AudioSync {
    epoch: std::time::Instant,
    peers: Vec<(String, PeerClock)>,
    next_seq: u64,
    alignment_delay_us: i64,
    min_delay_us: i64,
    margin_us: i64,
}

impl AudioSync {
    #[verifier::type_invariant]
    spec fn inv(self) -> bool {
        &&& unique_keys(self.peers@)
        &&& self.min_delay_us == 50_000
        &&& self.margin_us == 20_000
        &&& self.alignment_delay_us >= 50_000
        &&& forall|i: int| 0 <= i < self.peers@.len() ==> (#[trigger] self.peers@[i]).1.latency_us <= latency_limit()
    }

    /// The clock state of each peer.
    pub closed spec fn clocks(self) -> Seq<(String, PeerClock)> {
        self.peers@
    }

    /// The clock state of a peer.
    pub open spec fn clock_of(self, peer: Seq<char>) -> Option<PeerClock> {
        lookup(self.clocks(), peer)
    }

    /// The sequence number of the next probe.
    pub closed spec fn next_seq_spec(self) -> u64 {
        self.next_seq
    }

    /// The current alignment delay, in microseconds.
    pub closed spec fn alignment(self) -> i64 {
        self.alignment_delay_us
    }

    /// A fresh state: no peers, sequence numbers from zero, and an alignment
    /// delay of 100 ms.
    pub fn new() -> (r: Self)
        ensures
            r.clocks().len() == 0,
            r.next_seq_spec() == 0,
            r.alignment() == 100_000,
    {
        AudioSync {
            epoch: instant_now(),
            peers: Vec::new(),
            next_seq: 0,
            alignment_delay_us: 100_000,
            min_delay_us: 50_000,
            margin_us: 20_000,
        }
    }

    /// Microseconds since this state was made. Nothing is promised of the
    /// value: it is the clock's.
    pub fn now_us(&self) -> (r: u64)
    {
        micros_since(&self.epoch)
    }

    /// The current alignment delay, in microseconds.
    pub fn alignment_delay_us(&self) -> (r: i64)
        ensures
            r == self.alignment(),
            r >= 50_000,
    {
        proof { use_type_invariant(self); }
        self.alignment_delay_us
    }

    /// The sequence number the next probe will get.
    pub fn next_probe_seq(&self) -> (r: u64)
        ensures
            r == self.next_seq_spec(),
    {
        self.next_seq
    }

    /// A peer's latency and offset estimates and its number of completed
    /// measurements, if it is registered.
    pub fn peer_estimates(&self, peer_id: &str) -> (r: Option<(i64, i64, u64)>)
        ensures
            match self.clock_of(peer_id@) {
                Some(c) => r == Some((c.latency_us, c.offset_us, c.sync_count)),
                None => r is None,
            },
    {
        match find_key(&self.peers, peer_id) {
            Some(i) => Some((self.peers[i].1.latency_us, self.peers[i].1.offset_us, self.peers[i].1.sync_count)),
            None => None,
        }
    }

    /// Sets the alignment delay from the peers' latencies (`alignment_for`).
    fn recalculate_alignment_delay(&mut self)
        ensures
            final(self).alignment() == alignment_for(old(self).clocks()),
            final(self).clocks() == old(self).clocks(),
            final(self).next_seq_spec() == old(self).next_seq_spec(),
    {
        proof { use_type_invariant(&*self); }
        let mut best: Option<i64> = None;
        let mut i: usize = 0;
        while i < self.peers.len()
            invariant
                i <= self.peers@.len(),
                forall|j: int| 0 <= j < self.peers@.len() ==> (#[trigger] self.peers@[j]).1.latency_us <= latency_limit(),
                match max_synced_latency(self.peers@.take(i as int)) {
                    Some(m) => best matches Some(b) && b as int == m,
                    None => best is None,
                },
                best matches Some(b) ==> b <= latency_limit(),
            decreases self.peers@.len() - i,
        {
            assert(self.peers@.take(i as int + 1).drop_last() =~= self.peers@.take(i as int));
            assert(self.peers@.take(i as int + 1).last() == self.peers@[i as int]);
            if self.peers[i].1.sync_count > 0 {
                let l = self.peers[i].1.latency_us;
                best = match best {
                    Some(m) => Some(if l > m { l } else { m }),
                    None => Some(l),
                };
            }
            i = i + 1;
        }
        assert(self.peers@.take(i as int) =~= self.peers@);
        let max_latency = match best {
            Some(m) => m,
            None => 0,
        };
        let target = max_latency + self.margin_us;
        self.alignment_delay_us = if target >= self.min_delay_us { target } else { self.min_delay_us };
    }

    /// Stops synchronising with a peer, and sets the alignment delay from the
    /// remaining peers.
    pub fn remove_peer(&mut self, peer_id: &str)
        ensures
            final(self).clock_of(peer_id@) is None,
            forall|k: Seq<char>| k != peer_id@ ==> #[trigger] final(self).clock_of(k) == old(self).clock_of(k),
            final(self).alignment() == alignment_for(final(self).clocks()),
            final(self).next_seq_spec() == old(self).next_seq_spec(),
    {
        proof { use_type_invariant(&*self); }
        if let Some(i) = find_key(&self.peers, peer_id) {
            let mut peers: Vec<(String, PeerClock)> = Vec::new();
            std::mem::swap(&mut peers, &mut self.peers);
            let ghost before = peers@;
            let _ = peers.remove(i);
            proof {
                lemma_key_index(before, peer_id@);
                crate::keyed::lemma_remove_unique(before, i as int);
                assert forall|k: Seq<char>| #[trigger] lookup(peers@, k) == if k == peer_id@ { None } else { lookup(before, k) } by {
                    lemma_lookup_remove(before, i as int, k);
                }
                assert forall|j: int| 0 <= j < peers@.len() implies (#[trigger] peers@[j]).1.latency_us <= latency_limit() by {
                    if j < i { assert(peers@[j] == before[j]); } else { assert(peers@[j] == before[j + 1]); }
                }
            }
            self.peers = peers;
        } else {
            proof { lemma_key_index(self.peers@, peer_id@); }
        }
        self.recalculate_alignment_delay();
    }

    /// A clock probe for a peer: it takes the next sequence number and the
    /// current time, and a registered peer records the probe as pending.
    pub fn create_probe(&mut self, peer_id: &str) -> (r: ClockProbe)
        requires
            old(self).next_seq_spec() < u64::MAX,
        ensures
            r.seq == old(self).next_seq_spec(),
            final(self).next_seq_spec() == old(self).next_seq_spec() + 1,
            final(self).alignment() == old(self).alignment(),
            match old(self).clock_of(peer_id@) {
                Some(c) => final(self).clock_of(peer_id@) matches Some(d) && d.latency_us == c.latency_us
                    && d.offset_us == c.offset_us && d.sync_count == c.sync_count
                    && d.pending@.to_set() == c.pending@.to_set().insert(r.seq),
                None => final(self).clock_of(peer_id@) is None,
            },
            forall|k: Seq<char>| k != peer_id@ ==> #[trigger] final(self).clock_of(k) == old(self).clock_of(k),
    {
        proof { use_type_invariant(&*self); }
        let seq = self.next_seq;
        self.next_seq = self.next_seq + 1;
        let t1_us = self.now_us();
        if let Some(i) = find_key(&self.peers, peer_id) {
            let mut peers: Vec<(String, PeerClock)> = Vec::new();
            std::mem::swap(&mut peers, &mut self.peers);
            let ghost before = peers@;
            let (k, mut clock) = peers.remove(i);
            let ghost old_pending = clock.pending@;
            if !contains_u64(&clock.pending, seq) {
                clock.pending.push(seq);
            }
            proof {
                lemma_key_index(before, peer_id@);
                assert(clock.pending@.to_set() =~= old_pending.to_set().insert(seq)) by {
                    broadcast use vstd::seq_lib::group_to_multiset_ensures;
                    broadcast use vstd::seq_lib::group_seq_properties;
                    assert forall|x: u64| clock.pending@.to_set().contains(x) <==> old_pending.to_set().insert(seq).contains(x) by {
                        if clock.pending@.contains(x) && x != seq {
                            let j = choose|j: int| 0 <= j < clock.pending@.len() && clock.pending@[j] == x;
                            assert(old_pending[j] == x);
                        }
                    }
                }
            }
            let e = (k, clock);
            peers.insert(i, e);
            proof {
                assert(peers@ =~= before.update(i as int, e));
                lemma_update_value(before, i as int, e);
                assert forall|j: Seq<char>| j != peer_id@ implies #[trigger] lookup(peers@, j) == lookup(before, j) by {
                    lemma_key_index(before, j);
                }
                lemma_key_index(peers@, peer_id@);
                assert forall|j: int| 0 <= j < peers@.len() implies (#[trigger] peers@[j]).1.latency_us <= latency_limit() by {
                    if j != i { assert(peers@[j] == before[j]); }
                }
            }
            self.peers = peers;
        }
        ClockProbe { seq, t1_us }
    }

    /// The response to a peer's clock probe: the probe's sequence number and
    /// send time echoed, with the current time as both receive and send time.
    pub fn handle_probe(&self, probe: &ClockProbe) -> (r: ClockProbeResponse)
        ensures
            r.seq == probe.seq,
            r.t1_us == probe.t1_us,
            r.t2_us == r.t3_us,
    {
        let now = self.now_us();
        ClockProbeResponse { seq: probe.seq, t1_us: probe.t1_us, t2_us: now, t3_us: now }
    }

    /// Applies a peer's answer to a clock probe, received at local time
    /// `t4_us`. For a registered peer the probe stops being pending and the
    /// estimates are updated: the first measurement is taken as it is
    /// (`ntp_estimate`); later ones are blended into the estimates, the
    /// blends `smoothed_latency_us` and `smoothed_offset_us` being computed by
    /// the caller (an exponential moving average in floating point). Then
    /// the alignment delay is set from all peers.
    pub fn handle_probe_response_at(
        &mut self,
        peer_id: &str,
        response: &ClockProbeResponse,
        t4_us: u64,
        smoothed_latency_us: i64,
        smoothed_offset_us: i64,
    )
        requires
            ntp_in_range(response.t1_us, response.t2_us, response.t3_us, t4_us),
            ntp_one_way(response.t1_us, response.t2_us, response.t3_us, t4_us) <= latency_limit(),
            smoothed_latency_us <= latency_limit(),
            old(self).clock_of(peer_id@) matches Some(c) ==> c.sync_count < u64::MAX,
        ensures
            match old(self).clock_of(peer_id@) {
                Some(c) => final(self).clock_of(peer_id@) matches Some(d) && {
                    let first = c.sync_count == 0;
                    &&& d.latency_us == if first {
                        ntp_one_way(response.t1_us, response.t2_us, response.t3_us, t4_us)
                    } else {
                        smoothed_latency_us as int
                    }
                    &&& d.offset_us == if first {
                        ntp_offset(response.t1_us, response.t2_us, response.t3_us, t4_us)
                    } else {
                        smoothed_offset_us as int
                    }
                    &&& d.sync_count == c.sync_count + 1
                    &&& d.pending@.to_set() == c.pending@.to_set().remove(response.seq)
                },
                None => final(self).clock_of(peer_id@) is None,
            },
            forall|k: Seq<char>| k != peer_id@ ==> #[trigger] final(self).clock_of(k) == old(self).clock_of(k),
            final(self).alignment() == alignment_for(final(self).clocks()),
            final(self).next_seq_spec() == old(self).next_seq_spec(),
    {
        proof { use_type_invariant(&*self); }
        if let Some(i) = find_key(&self.peers, peer_id) {
            let mut peers: Vec<(String, PeerClock)> = Vec::new();
            std::mem::swap(&mut peers, &mut self.peers);
            let ghost before = peers@;
            let (k, clock) = peers.remove(i);
            proof { lemma_key_index(before, peer_id@); }
            let pending = without_u64(&clock.pending, response.seq);
            let (one_way, offset) = ntp_estimate(response.t1_us, response.t2_us, response.t3_us, t4_us);
            let updated = if clock.sync_count == 0 {
                PeerClock { latency_us: one_way, offset_us: offset, sync_count: 1, pending }
            } else {
                PeerClock {
                    latency_us: smoothed_latency_us,
                    offset_us: smoothed_offset_us,
                    sync_count: clock.sync_count + 1,
                    pending,
                }
            };
            let e = (k, updated);
            peers.insert(i, e);
            proof {
                assert(peers@ =~= before.update(i as int, e));
                lemma_update_value(before, i as int, e);
                assert forall|j: Seq<char>| j != peer_id@ implies #[trigger] lookup(peers@, j) == lookup(before, j) by {
                    lemma_key_index(before, j);
                }
                lemma_key_index(peers@, peer_id@);
                assert forall|j: int| 0 <= j < peers@.len() implies (#[trigger] peers@[j]).1.latency_us <= latency_limit() by {
                    if j != i { assert(peers@[j] == before[j]); }
                }
            }
            self.peers = peers;
        } else {
            proof { lemma_key_index(self.peers@, peer_id@); }
        }
        self.recalculate_alignment_delay();
    }

    /// How long to hold a peer's received audio so that it plays at the
    /// alignment delay after it was sent, in microseconds (`playback_delay`).
    pub fn playback_delay_for_peer(&self, peer_id: &str) -> (r: i64)
        requires
            self.clock_of(peer_id@) matches Some(c) ==> i64::MIN <= self.alignment() - c.latency_us <= i64::MAX,
        ensures
            r == playback_delay(self.alignment(), self.clock_of(peer_id@)),
    {
        proof { use_type_invariant(self); }
        match find_key(&self.peers, peer_id) {
            Some(i) => {
                let additional = self.alignment_delay_us - self.peers[i].1.latency_us;
                if additional >= 0 { additional } else { 0 }
            },
            None => self.alignment_delay_us,
        }
    }

    /// A peer's timestamp in local time: the remote time less the peer's
    /// clock offset (unchanged for an unregistered peer), taken as `u64` as
    /// `as` does.
    pub fn remote_to_local_us(&self, peer_id: &str, remote_us: u64) -> (r: u64)
        requires
            self.clock_of(peer_id@) matches Some(c) ==> i64::MIN <= (remote_us as i64) - c.offset_us <= i64::MAX,
        ensures
            r == match self.clock_of(peer_id@) {
                Some(c) => ((remote_us as i64) - c.offset_us) as i64 as u64,
                None => remote_us,
            },
    {
        match find_key(&self.peers, peer_id) {
            Some(i) => {
                let local = remote_us as i64 - self.peers[i].1.offset_us;
                local as u64
            },
            None => remote_us,
        }
    }

    /// Whether a peer has completed at least 3 measurements, enough for its
    /// estimates to be relied on.
    pub fn peer_is_synced(&self, peer_id: &str) -> (r: bool)
        ensures
            r == (self.clock_of(peer_id@) matches Some(c) && c.sync_count >= 3),
    {
        match find_key(&self.peers, peer_id) {
            Some(i) => self.peers[i].1.sync_count >= 3,
            None => false,
        }
    }

    /// Registers a peer for clock synchronisation; a registered peer keeps
    /// its state.
    pub fn add_peer(&mut self, peer_id: &str)
        ensures
            match old(self).clock_of(peer_id@) {
                Some(c) => final(self).clock_of(peer_id@) == Some(c),
                None => final(self).clock_of(peer_id@) matches Some(c) && c.latency_us == 0
                    && c.offset_us == 0 && c.sync_count == 0 && c.pending@.len() == 0,
            },
            forall|k: Seq<char>| k != peer_id@ ==> #[trigger] final(self).clock_of(k) == old(self).clock_of(k),
            final(self).next_seq_spec() == old(self).next_seq_spec(),
            final(self).alignment() == old(self).alignment(),
    {
        proof { use_type_invariant(&*self); }
        if find_key(&self.peers, peer_id).is_none() {
            let mut peers: Vec<(String, PeerClock)> = Vec::new();
            std::mem::swap(&mut peers, &mut self.peers);
            let clock = PeerClock { latency_us: 0, offset_us: 0, sync_count: 0, pending: Vec::new() };
            let ghost before = peers@;
            upsert(&mut peers, &peer_id.to_owned(), clock);
            proof {
                assert forall|i: int| 0 <= i < peers@.len() implies (#[trigger] peers@[i]).1.latency_us <= latency_limit() by {
                    if i < before.len() {
                        assert(peers@[i] == before[i]);
                    }
                }
            }
            self.peers = peers;
        }
    }
}



/// `v` without any occurrence of `x`.
fn without_u64(v: &Vec<u64>, x: u64) -> (r: Vec<u64>)
    ensures
        r@.to_set() == v@.to_set().remove(x),
{
    let mut out: Vec<u64> = Vec::new();
    let mut i: usize = 0;
    while i < v.len()
        invariant
            i <= v@.len(),
            forall|y: u64| #[trigger] out@.contains(y) <==> (v@.take(i as int).contains(y) && y != x),
        decreases v@.len() - i,
    {
        proof {
            broadcast use vstd::seq_lib::group_seq_properties;
            assert(v@.take(i as int + 1) =~= v@.take(i as int).push(v@[i as int]));
        }
        if v[i] != x {
            out.push(v[i]);
        }
        i = i + 1;
    }
    proof {
        assert(v@.take(i as int) =~= v@);
        assert(out@.to_set() =~= v@.to_set().remove(x)) by {
            broadcast use vstd::seq_lib::group_to_multiset_ensures;
            broadcast use vstd::seq_lib::group_seq_properties;
        }
    }
    out
}

/// Whether `v` holds `x`.
fn contains_u64(v: &Vec<u64>, x: u64) -> (r: bool)
    ensures
        r == v@.contains(x),
{
    let mut i: usize = 0;
    while i < v.len()
        invariant
            i <= v@.len(),
            forall|j: int| 0 <= j < i ==> v@[j] != x,
        decreases v@.len() - i,
    {
        if v[i] == x {
            assert(v@[i as int] == x);
            return true;
        }
        i = i + 1;
    }
    false
}

/// With unique keys, removing the entry at `i` removes its key and keeps
/// the other lookups.
proof fn lemma_lookup_remove(s: Seq<(String, PeerClock)>, i: int, k: Seq<char>)
    requires
        unique_keys(s),
        0 <= i < s.len(),
    ensures
        lookup(s.remove(i), k) == if k == s[i].0@ { None } else { lookup(s, k) },
{
    let t = s.remove(i);
    crate::keyed::lemma_remove_unique(s, i);
    lemma_key_index(t, k);
    lemma_key_index(s, k);
    match key_index(t, k) {
        Some(j) => {
            let j2 = if j < i { j } else { j + 1 };
            assert(t[j] == s[j2]);
            crate::keyed::lemma_key_index_unique(s, j2);
            if k == s[i].0@ {
                assert(s[j2].0@ == s[i].0@);
            }
        },
        None => {
            match key_index(s, k) {
                Some(j) => {
                    if j != i {
                        let j2 = if j < i { j } else { j - 1 };
                        assert(t[j2] == s[j]);
                    }
                },
                None => {},
            }
        },
    }
}

/// Integer division by two, rounding toward zero, as Rust's `/` on `i64`.
pub open spec fn half_toward_zero(x: int) -> int {
    if x >= 0 { x / 2 } else { -((-x) / 2) }
}

/// The round-trip delay of a measurement: time on the wire in both directions.
pub open spec fn ntp_rtt(t1: u64, t2: u64, t3: u64, t4: u64) -> int {
    ((t4 as i64) - (t1 as i64)) - ((t3 as i64) - (t2 as i64))
}

/// The clock offset of a measurement: how far the peer's clock is ahead.
pub open spec fn ntp_offset(t1: u64, t2: u64, t3: u64, t4: u64) -> int {
    half_toward_zero(((t2 as i64) - (t1 as i64)) + ((t3 as i64) - (t4 as i64)))
}

/// The one-way latency of a measurement: half the round trip.
pub open spec fn ntp_one_way(t1: u64, t2: u64, t3: u64, t4: u64) -> int {
    half_toward_zero(ntp_rtt(t1, t2, t3, t4))
}

/// Whether a measurement's arithmetic stays within `i64` (the timestamps are
/// taken as `i64`, wrapping as `as` does).
pub open spec fn ntp_in_range(t1: u64, t2: u64, t3: u64, t4: u64) -> bool {
    let (a, b, c, d) = (t1 as i64 as int, t2 as i64 as int, t3 as i64 as int, t4 as i64 as int);
    &&& i64::MIN <= d - a <= i64::MAX
    &&& i64::MIN <= c - b <= i64::MAX
    &&& i64::MIN <= (d - a) - (c - b) <= i64::MAX
    &&& i64::MIN <= b - a <= i64::MAX
    &&& i64::MIN <= c - d <= i64::MAX
    &&& i64::MIN <= (b - a) + (c - d) <= i64::MAX
}

/// The one-way latency and clock offset of an NTP-style measurement: `t1` is
/// the local send time, `t2` the remote receive time, `t3` the remote send
/// time and `t4` the local receive time.
pub fn ntp_estimate(t1_us: u64, t2_us: u64, t3_us: u64, t4_us: u64) -> (r: (i64, i64))
    requires
        ntp_in_range(t1_us, t2_us, t3_us, t4_us),
    ensures
        r.0 == ntp_one_way(t1_us, t2_us, t3_us, t4_us),
        r.1 == ntp_offset(t1_us, t2_us, t3_us, t4_us),
{
    let (a, b, c, d) = (t1_us as i64, t2_us as i64, t3_us as i64, t4_us as i64);
    let rtt = (d - a) - (c - b);
    let sum = (b - a) + (c - d);
    (half(rtt), half(sum))
}

/// `x / 2` on `i64`, rounding toward zero.
fn half(x: i64) -> (r: i64)
    ensures
        r == half_toward_zero(x as int),
{
    if x >= 0 {
        x / 2
    } else {
        let y: i128 = -(x as i128);
        (-(y / 2)) as i64
    }
}

} // verus!

verus! {

/// The largest synced latency bounds every synced peer's latency.
proof fn lemma_max_synced_bounds(peers: Seq<(String, PeerClock)>, i: int)
    requires
        0 <= i < peers.len(),
        peers[i].1.sync_count > 0,
    ensures
        max_synced_latency(peers) matches Some(m) && peers[i].1.latency_us <= m,
    decreases peers.len(),
{
    let rest = peers.drop_last();
    if i < peers.len() - 1 {
        assert(rest[i] == peers[i]);
        lemma_max_synced_bounds(rest, i);
    } else {
        assert(peers.last() == peers[i]);
    }
}

/// The alignment delay is at least 50 ms, and at least 20 ms more than the
/// latency of every peer measured at least once.
pub proof fn lemma_alignment_bounds(peers: Seq<(String, PeerClock)>)
    ensures
        alignment_for(peers) >= 50_000,
        forall|i: int|
            0 <= i < peers.len() && (#[trigger] peers[i]).1.sync_count > 0
                ==> alignment_for(peers) >= peers[i].1.latency_us + 20_000,
{
    assert forall|i: int|
        0 <= i < peers.len() && (#[trigger] peers[i]).1.sync_count > 0
            implies alignment_for(peers) >= peers[i].1.latency_us + 20_000 by {
        lemma_max_synced_bounds(peers, i);
    }
}

/// Streams line up: once the alignment delay has been set from the peers
/// (as every response and removal does), every measured peer's audio, held
/// for its playback delay, plays exactly the alignment delay after it was
/// sent, whatever that peer's latency.
pub proof fn lemma_streams_align(sync: AudioSync, peer: Seq<char>)
    requires
        sync.alignment() == alignment_for(sync.clocks()),
        sync.clock_of(peer) matches Some(c) && c.sync_count > 0,
    ensures
        sync.clock_of(peer)->0.latency_us + playback_delay(sync.alignment(), sync.clock_of(peer)) == sync.alignment(),
        playback_delay(sync.alignment(), sync.clock_of(peer)) >= 20_000,
{
    let peers = sync.clocks();
    lemma_key_index(peers, peer);
    let i = key_index(peers, peer)->0;
    lemma_max_synced_bounds(peers, i);
}

} // verus!
