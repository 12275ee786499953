//! The session table of one forwarder: which downstream peers it has heard
//! from, and when each was last seen.
//!
//! Times are readings of one monotonic clock and durations are differences of
//! such readings; the table does not care about the unit.

use crate::address::SocketAddress;
use vstd::prelude::*;

verus! {

/// What a forwarder remembers of one downstream peer.
#[derive(Clone, Copy, Debug, PartialEq, Eq, Structural)]
pub struct Session {
    /// The address that the peer sends from, and that replies go back to.
    pub peer_address: SocketAddress,
    /// When a datagram from or to this peer was last relayed.
    pub last_seen: u64,
}

/// Whether a session last seen at `last_seen` has, at `now`, gone untouched for
/// longer than `older_than`.
pub open spec fn is_idle(last_seen: u64, now: u64, older_than: u64) -> bool {
    now - last_seen > older_than
}

/// The peers of `table` whose sessions are idle at `now`.
pub open spec fn idle_peers(table: Map<SocketAddress, u64>, now: u64, older_than: u64) -> Set<
    SocketAddress,
> {
    Set::new(|peer: SocketAddress| table.contains_key(peer) && is_idle(table[peer], now, older_than))
}

/// `table` without the sessions that are idle at `now`.
pub open spec fn evicted(table: Map<SocketAddress, u64>, now: u64, older_than: u64) -> Map<
    SocketAddress,
    u64,
> {
    table.remove_keys(idle_peers(table, now, older_than))
}

/// Whether one of `sessions` is that of `peer`.
spec fn holds(sessions: Seq<Session>, peer: SocketAddress) -> bool {
    exists|i: int| 0 <= i < sessions.len() && (#[trigger] sessions[i]).peer_address == peer
}

/// Where in `sessions` the session of `peer` stands, if it has one.
spec fn position(sessions: Seq<Session>, peer: SocketAddress) -> int {
    choose|i: int| 0 <= i < sessions.len() && (#[trigger] sessions[i]).peer_address == peer
}

/// No two of `sessions` are of one peer.
spec fn distinct_peers(sessions: Seq<Session>) -> bool {
    forall|i: int, j: int|
        0 <= i < j < sessions.len() ==> (#[trigger] sessions[i]).peer_address != (
        #[trigger] sessions[j]).peer_address
}

/// The table that `sessions` stand for: each peer with the time it was last seen.
spec fn table_of(sessions: Seq<Session>) -> Map<SocketAddress, u64> {
    Map::new(
        |peer: SocketAddress| holds(sessions, peer),
        |peer: SocketAddress| sessions[position(sessions, peer)].last_seen,
    )
}

/// Each session is in the table, with its own time.
proof fn lemma_entry(sessions: Seq<Session>, i: int)
    requires
        distinct_peers(sessions),
        0 <= i < sessions.len(),
    ensures
        table_of(sessions).contains_key(sessions[i].peer_address),
        table_of(sessions)[sessions[i].peer_address] == sessions[i].last_seen,
{
    let peer = sessions[i].peer_address;
    assert(holds(sessions, peer));
    let k = position(sessions, peer);
    assert(k == i) by {
        if k < i {
            assert(sessions[k].peer_address != sessions[i].peer_address);
        } else if i < k {
            assert(sessions[i].peer_address != sessions[k].peer_address);
        }
    }
}

/// The table has as many peers as there are sessions.
proof fn lemma_table_len(sessions: Seq<Session>)
    requires
        distinct_peers(sessions),
    ensures
        table_of(sessions).dom().finite(),
        table_of(sessions).dom().len() == sessions.len(),
{
    let peers = sessions.map_values(|s: Session| s.peer_address);
    assert(peers.no_duplicates()) by {
        assert forall|i: int, j: int|
            0 <= i < peers.len() && 0 <= j < peers.len() && i != j implies peers[i] != peers[j] by {
            if i < j {
                assert(sessions[i].peer_address != sessions[j].peer_address);
            } else {
                assert(sessions[j].peer_address != sessions[i].peer_address);
            }
        }
    }
    peers.unique_seq_to_set();
    vstd::seq_lib::seq_to_set_is_finite(peers);
    assert(table_of(sessions).dom() =~= peers.to_set()) by {
        assert forall|peer: SocketAddress| table_of(sessions).dom().contains(peer) implies peers.to_set().contains(
            peer,
        ) by {
            let k = position(sessions, peer);
            assert(peers[k] == peer);
        }
        assert forall|peer: SocketAddress| peers.to_set().contains(peer) implies table_of(
            sessions,
        ).dom().contains(peer) by {
            let k = choose|k: int| 0 <= k < peers.len() && peers[k] == peer;
            assert(sessions[k].peer_address == peer);
        }
    }
}

/// Putting `session` at `at`, in place of the session of the same peer or at the
/// end where the peer has none, is `insert` on the table.
proof fn lemma_put(before: Seq<Session>, after: Seq<Session>, at: int, session: Session)
    requires
        distinct_peers(before),
        0 <= at <= before.len(),
        at < before.len() ==> before[at].peer_address == session.peer_address && after
            == before.update(at, session),
        at == before.len() ==> !holds(before, session.peer_address) && after == before.push(session),
    ensures
        distinct_peers(after),
        table_of(after) == table_of(before).insert(session.peer_address, session.last_seen),
{
    assert forall|i: int, j: int| 0 <= i < j < after.len() implies (#[trigger] after[i]).peer_address != (
    #[trigger] after[j]).peer_address by {
        if i != at && j != at {
            assert(before[i].peer_address != before[j].peer_address);
        } else if at < before.len() {
            assert(before[i].peer_address != before[j].peer_address);
        } else {
            assert(before[i].peer_address != session.peer_address);
        }
    }
    assert forall|peer: SocketAddress| table_of(after).contains_key(peer) implies table_of(before).insert(
        session.peer_address,
        session.last_seen,
    ).contains_key(peer) && table_of(after)[peer] == table_of(before).insert(
        session.peer_address,
        session.last_seen,
    )[peer] by {
        let k = position(after, peer);
        lemma_entry(after, k);
        if k != at {
            lemma_entry(before, k);
        }
    }
    assert forall|peer: SocketAddress|
        table_of(before).insert(session.peer_address, session.last_seen).contains_key(
            peer,
        ) implies table_of(after).contains_key(peer) by {
        if peer == session.peer_address {
            assert(after[at].peer_address == peer);
        } else {
            assert(after[position(before, peer)].peer_address == peer);
        }
    }
    assert(table_of(after) =~= table_of(before).insert(session.peer_address, session.last_seen));
}

/// `kept` holds the sessions among the first `upto` of `sessions` that are not
/// idle at `now`, and nothing else.
spec fn keeps(sessions: Seq<Session>, upto: int, kept: Seq<Session>, now: u64, older_than: u64) -> bool {
    &&& forall|k: int|
        0 <= k < kept.len() ==> !is_idle((#[trigger] kept[k]).last_seen, now, older_than) && exists|j: int|
            0 <= j < upto && #[trigger] sessions[j] == kept[k]
    &&& forall|j: int|
        0 <= j < upto && !is_idle((#[trigger] sessions[j]).last_seen, now, older_than) ==> exists|k: int|
            0 <= k < kept.len() && #[trigger] kept[k] == sessions[j]
}

/// Going one session further: it joins `kept` unless it is idle.
proof fn lemma_keep_next(sessions: Seq<Session>, upto: int, kept: Seq<Session>, now: u64, older_than: u64)
    requires
        0 <= upto < sessions.len(),
        distinct_peers(sessions),
        distinct_peers(kept),
        keeps(sessions, upto, kept, now, older_than),
    ensures
        is_idle(sessions[upto].last_seen, now, older_than) ==> keeps(sessions, upto + 1, kept, now, older_than),
        !is_idle(sessions[upto].last_seen, now, older_than) ==> keeps(
            sessions,
            upto + 1,
            kept.push(sessions[upto]),
            now,
            older_than,
        ) && distinct_peers(kept.push(sessions[upto])),
{
    let next = sessions[upto];
    if is_idle(next.last_seen, now, older_than) {
        assert forall|k: int| 0 <= k < kept.len() implies !is_idle(
            (#[trigger] kept[k]).last_seen,
            now,
            older_than,
        ) && exists|j: int| 0 <= j < upto + 1 && #[trigger] sessions[j] == kept[k] by {
            let j = choose|j: int| 0 <= j < upto && #[trigger] sessions[j] == kept[k];
            assert(sessions[j] == kept[k]);
        }
    } else {
        let more = kept.push(next);
        let last = kept.len() as int;
        assert(more[last] == sessions[upto]);
        assert forall|k: int| 0 <= k < more.len() implies !is_idle(
            (#[trigger] more[k]).last_seen,
            now,
            older_than,
        ) && exists|j: int| 0 <= j < upto + 1 && #[trigger] sessions[j] == more[k] by {
            if k < last {
                assert(more[k] == kept[k]);
                let j = choose|j: int| 0 <= j < upto && #[trigger] sessions[j] == kept[k];
                assert(sessions[j] == more[k]);
            }
        }
        assert forall|j: int|
            0 <= j < upto + 1 && !is_idle((#[trigger] sessions[j]).last_seen, now, older_than) implies exists|
            k: int,
        | 0 <= k < more.len() && #[trigger] more[k] == sessions[j] by {
            if j < upto {
                let k = choose|k: int| 0 <= k < kept.len() && #[trigger] kept[k] == sessions[j];
                assert(more[k] == sessions[j]);
            }
        }
        assert forall|a: int, b: int| 0 <= a < b < more.len() implies (#[trigger] more[a]).peer_address != (
        #[trigger] more[b]).peer_address by {
            if b == last {
                assert(more[a] == kept[a]);
                let j = choose|j: int| 0 <= j < upto && #[trigger] sessions[j] == kept[a];
                assert(sessions[j].peer_address != sessions[upto].peer_address);
            } else {
                assert(kept[a].peer_address != kept[b].peer_address);
            }
        }
    }
}

/// Keeping the sessions that are not idle is eviction on the table, and as
/// many sessions leave as there are idle peers.
proof fn lemma_kept(sessions: Seq<Session>, kept: Seq<Session>, now: u64, older_than: u64)
    requires
        distinct_peers(sessions),
        distinct_peers(kept),
        keeps(sessions, sessions.len() as int, kept, now, older_than),
    ensures
        table_of(kept) == evicted(table_of(sessions), now, older_than),
        idle_peers(table_of(sessions), now, older_than).finite(),
        idle_peers(table_of(sessions), now, older_than).len() == sessions.len() - kept.len(),
{
    let table = table_of(sessions);
    let idle = idle_peers(table, now, older_than);
    assert forall|peer: SocketAddress| table_of(kept).contains_key(peer) implies evicted(
        table,
        now,
        older_than,
    ).contains_key(peer) && table_of(kept)[peer] == evicted(table, now, older_than)[peer] by {
        let k = position(kept, peer);
        lemma_entry(kept, k);
        let j = choose|j: int| 0 <= j < sessions.len() && #[trigger] sessions[j] == kept[k];
        lemma_entry(sessions, j);
    }
    assert forall|peer: SocketAddress| evicted(table, now, older_than).contains_key(peer) implies table_of(
        kept,
    ).contains_key(peer) by {
        let j = position(sessions, peer);
        lemma_entry(sessions, j);
        let k = choose|k: int| 0 <= k < kept.len() && #[trigger] kept[k] == sessions[j];
        assert(kept[k].peer_address == peer);
    }
    assert(table_of(kept) =~= evicted(table, now, older_than));
    lemma_table_len(sessions);
    lemma_table_len(kept);
    assert(idle.subset_of(table.dom()));
    vstd::set_lib::lemma_len_subset(idle, table.dom());
    table.lemma_remove_keys_len(idle);
}

/// The sessions of one forwarder, at most one for each peer address.
///
/// Its view maps each peer that has a session to the time it was last seen.
#[derive(Debug)]
pub struct SessionTable {
    sessions: Vec<Session>,
}

impl View for SessionTable {
    type V = Map<SocketAddress, u64>;

    closed spec fn view(&self) -> Map<SocketAddress, u64> {
        table_of(self.sessions@)
    }
}

impl SessionTable {
    #[verifier::type_invariant]
    spec fn well_formed(self) -> bool {
        distinct_peers(self.sessions@)
    }

    /// A table without sessions.
    pub fn new() -> (table: SessionTable)
        ensures
            table@ == Map::<SocketAddress, u64>::empty(),
    {
        let table = SessionTable { sessions: Vec::new() };
        assert(table@ =~= Map::<SocketAddress, u64>::empty());
        table
    }

    fn find(&self, peer_address: SocketAddress) -> (found: Option<usize>)
        ensures
            match found {
                Some(i) => i < self.sessions@.len() && self.sessions@[i as int].peer_address
                    == peer_address,
                None => !holds(self.sessions@, peer_address),
            },
    {
        let mut i: usize = 0;
        while i < self.sessions.len()
            invariant
                0 <= i <= self.sessions@.len(),
                forall|k: int| 0 <= k < i ==> (#[trigger] self.sessions@[k]).peer_address != peer_address,
            decreases self.sessions@.len() - i,
        {
            if self.sessions[i].peer_address == peer_address {
                return Some(i);
            }
            i += 1;
        }
        None
    }

    /// The number of sessions.
    pub fn len(&self) -> (count: usize)
        ensures
            self@.dom().finite(),
            count == self@.len(),
    {
        proof {
            use_type_invariant(self);
            lemma_table_len(self.sessions@);
        }
        self.sessions.len()
    }

    /// Whether `peer_address` has a session. Only the exact address matches.
    pub fn contains(&self, peer_address: SocketAddress) -> (found: bool)
        ensures
            found == self@.contains_key(peer_address),
    {
        self.find(peer_address).is_some()
    }

    /// When `peer_address` was last seen, if it has a session.
    pub fn last_seen(&self, peer_address: SocketAddress) -> (seen: Option<u64>)
        ensures
            seen == (if self@.contains_key(peer_address) {
                Some(self@[peer_address])
            } else {
                None
            }),
    {
        proof {
            use_type_invariant(self);
        }
        match self.find(peer_address) {
            Some(i) => {
                proof {
                    lemma_entry(self.sessions@, i as int);
                }
                Some(self.sessions[i].last_seen)
            },
            None => None,
        }
    }

    /// Records that `peer_address` was seen at `now`: its session is made if it
    /// has none, and marked as seen at `now` if it has one. No other session
    /// changes.
    pub fn touch(&mut self, peer_address: SocketAddress, now: u64)
        ensures
            final(self)@ == old(self)@.insert(peer_address, now),
    {
        proof {
            use_type_invariant(&*self);
        }
        let session = Session { peer_address, last_seen: now };
        let found = self.find(peer_address);
        // The sessions leave the table while they change, so that the table is
        // well formed at every step.
        let mut sessions: Vec<Session> = Vec::new();
        std::mem::swap(&mut sessions, &mut self.sessions);
        let ghost before = sessions@;
        match found {
            Some(i) => {
                sessions.set(i, session);
                proof {
                    lemma_put(before, sessions@, i as int, session);
                }
            },
            None => {
                sessions.push(session);
                proof {
                    lemma_put(before, sessions@, before.len() as int, session);
                }
            },
        }
        self.sessions = sessions;
    }

    /// Removes every session that, at `now`, has not been touched for longer
    /// than `older_than`, and returns how many were removed. The sessions that
    /// stay are unchanged.
    pub fn evict_idle(&mut self, now: u64, older_than: u64) -> (count: usize)
        ensures
            final(self)@ == evicted(old(self)@, now, older_than),
            idle_peers(old(self)@, now, older_than).finite(),
            count == idle_peers(old(self)@, now, older_than).len(),
    {
        proof {
            use_type_invariant(&*self);
        }
        let mut kept: Vec<Session> = Vec::new();
        let mut count: usize = 0;
        let mut i: usize = 0;
        while i < self.sessions.len()
            invariant
                0 <= i <= self.sessions@.len(),
                distinct_peers(self.sessions@),
                distinct_peers(kept@),
                keeps(self.sessions@, i as int, kept@, now, older_than),
                count + kept@.len() == i,
            decreases self.sessions@.len() - i,
        {
            let session = self.sessions[i];
            proof {
                lemma_keep_next(self.sessions@, i as int, kept@, now, older_than);
            }
            if now > session.last_seen && now - session.last_seen > older_than {
                count += 1;
            } else {
                kept.push(session);
            }
            i += 1;
        }
        proof {
            lemma_kept(self.sessions@, kept@, now, older_than);
        }
        self.sessions = kept;
        count
    }
}

} // verus!
