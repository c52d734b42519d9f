//! The delegation ledger: the last reported position of each minion, the
//! subscribers that a mission counts on, and how many of them completed.
use vstd::prelude::*;
use crate::geometry::Coordinate;
use crate::peer::{peer_ids, find_peer, lemma_push_distinct, lemma_peer_ids_push};

verus! {

/// What a ledger records, as mathematical values.
pub struct LedgerView {
    /// Last reported position of each peer that ever sent a heartbeat.
    pub minions: Map<Seq<u8>, Coordinate>,
    /// Peers that acknowledged the mission, in order of acknowledgment.
    pub subscribers: Seq<Seq<u8>>,
    /// Subscribers that reported a point of interest, in order of report.
    pub completed: Seq<Seq<u8>>,
    pub total: nat,
    pub complete: nat,
}

/// The map from keys to values that two parallel sequences describe; a
/// later key overrides an earlier one.
pub open spec fn pairs_map(ks: Seq<Seq<u8>>, vs: Seq<Coordinate>) -> Map<Seq<u8>, Coordinate>
    decreases ks.len(),
{
    if ks.len() == 0 || vs.len() == 0 {
        Map::empty()
    } else {
        pairs_map(ks.drop_last(), vs.drop_last()).insert(ks.last(), vs.last())
    }
}

/// A ledger that is consistent: distinct subscribers and completions, counts
/// that match them, and at most as many completions as subscribers.
pub open spec fn ledger_valid(l: LedgerView) -> bool {
    &&& l.subscribers.no_duplicates()
    &&& l.completed.no_duplicates()
    &&& l.total == l.subscribers.len()
    &&& l.complete == l.completed.len()
    &&& l.complete <= l.total
    &&& l.total <= u32::MAX
}

/// The ledger after `p` acknowledges the mission: a new subscriber is counted,
/// unless the count is at its largest value.
pub open spec fn ledger_after_ack(l: LedgerView, p: Seq<u8>) -> LedgerView {
    if l.subscribers.contains(p) || l.total >= u32::MAX {
        l
    } else {
        LedgerView { subscribers: l.subscribers.push(p), total: l.total + 1, ..l }
    }
}

/// Whether a heartbeat from `p` counts as a new completion: it reports a point
/// of interest, `p` is a subscriber, and `p` has not completed before.
pub open spec fn counts_completion(l: LedgerView, p: Seq<u8>, poi: bool) -> bool {
    poi && l.subscribers.contains(p) && !l.completed.contains(p) && l.complete < l.total
}

/// The ledger after a heartbeat from `p` at `position`: the position is
/// recorded, and a completion is counted at most once per peer.
pub open spec fn ledger_after_heartbeat(
    l: LedgerView,
    p: Seq<u8>,
    position: Coordinate,
    poi: bool,
) -> LedgerView {
    if counts_completion(l, p, poi) {
        LedgerView {
            minions: l.minions.insert(p, position),
            completed: l.completed.push(p),
            complete: l.complete + 1,
            ..l
        }
    } else {
        LedgerView { minions: l.minions.insert(p, position), ..l }
    }
}

/// Ledger of delegated work, kept by the mothership.
#[derive(Debug)]
pub struct DelegateTasks {
    /// Identities of the peers whose position is known ...
    pub peers: Vec<Vec<u8>>,
    /// ... and their last reported positions, index by index.
    pub positions: Vec<Coordinate>,
    pub subscribers: Vec<Vec<u8>>,
    pub completed: Vec<Vec<u8>>,
    /// The number of subscribers.
    pub total: u32,
    /// The number of subscribers that completed.
    pub complete: u32,
}

impl View for DelegateTasks {
    type V = LedgerView;

    open spec fn view(&self) -> LedgerView {
        LedgerView {
            minions: pairs_map(peer_ids(self.peers@), self.positions@),
            subscribers: peer_ids(self.subscribers@),
            completed: peer_ids(self.completed@),
            total: self.total as nat,
            complete: self.complete as nat,
        }
    }
}

/// Setting the value of a key that occurs once updates the map at that key.
proof fn lemma_pairs_map_update(ks: Seq<Seq<u8>>, vs: Seq<Coordinate>, i: int, c: Coordinate)
    requires
        ks.len() == vs.len(),
        ks.no_duplicates(),
        0 <= i < ks.len(),
    ensures
        pairs_map(ks, vs.update(i, c)) == pairs_map(ks, vs).insert(ks[i], c),
    decreases ks.len(),
{
    let vs2 = vs.update(i, c);
    if i == ks.len() - 1 {
        assert(vs2.drop_last() =~= vs.drop_last());
        assert(pairs_map(ks, vs2) =~= pairs_map(ks, vs).insert(ks[i], c));
    } else {
        assert(vs2.drop_last() =~= vs.drop_last().update(i, c));
        assert(ks.drop_last()[i] == ks[i]);
        assert(ks[i] != ks.last());
        lemma_pairs_map_update(ks.drop_last(), vs.drop_last(), i, c);
        assert(pairs_map(ks, vs2) =~= pairs_map(ks, vs).insert(ks[i], c));
    }
}

/// Appending a key and value inserts them into the map.
proof fn lemma_pairs_map_push(ks: Seq<Seq<u8>>, vs: Seq<Coordinate>, k: Seq<u8>, c: Coordinate)
    ensures
        pairs_map(ks.push(k), vs.push(c)) == pairs_map(ks, vs).insert(k, c),
{
    assert(ks.push(k).drop_last() =~= ks);
    assert(vs.push(c).drop_last() =~= vs);
}

impl DelegateTasks {
    /// The parallel lists of peers and positions agree, and the ledger is valid.
    pub open spec fn wf(&self) -> bool {
        &&& self.peers@.len() == self.positions@.len()
        &&& peer_ids(self.peers@).no_duplicates()
        &&& ledger_valid(self@)
    }

    /// An empty ledger: no minion known, no subscriber, nothing complete.
    pub fn new() -> (r: DelegateTasks)
        ensures
            r.wf(),
            r@.minions == Map::<Seq<u8>, Coordinate>::empty(),
            r@.subscribers == Seq::<Seq<u8>>::empty(),
            r@.completed == Seq::<Seq<u8>>::empty(),
            r@.total == 0,
            r@.complete == 0,
    {
        let r = DelegateTasks {
            peers: Vec::new(),
            positions: Vec::new(),
            subscribers: Vec::new(),
            completed: Vec::new(),
            total: 0,
            complete: 0,
        };
        assert(peer_ids(r.peers@) =~= Seq::<Seq<u8>>::empty());
        assert(peer_ids(r.subscribers@) =~= Seq::<Seq<u8>>::empty());
        assert(peer_ids(r.completed@) =~= Seq::<Seq<u8>>::empty());
        r
    }

    /// Counts `peer` as a subscriber of the mission, once.
    pub fn add_subscriber(&mut self, peer: &Vec<u8>)
        requires
            old(self).wf(),
        ensures
            final(self).wf(),
            final(self)@ == ledger_after_ack(old(self)@, peer@),
    {
        if self.total == u32::MAX {
            return;
        }
        match find_peer(&self.subscribers, peer) {
            Some(i) => {
                assert(peer_ids(self.subscribers@)[i as int] == peer@);
            },
            None => {
                proof {
                    lemma_push_distinct(peer_ids(self.subscribers@), peer@);
                    lemma_peer_ids_push(self.subscribers@, *peer);
                }
                self.subscribers.push(peer.clone());
                self.total = self.total + 1;
                proof {
                    assert(peer_ids(self.subscribers@) =~= peer_ids(old(self).subscribers@).push(
                        peer@,
                    ));
                }
            },
        }
    }

    /// Records a heartbeat from `peer`: its position becomes `position`, and a
    /// point of interest from a subscriber that has not completed yet counts
    /// as one more completion.
    pub fn record_heartbeat(&mut self, peer: &Vec<u8>, position: Coordinate, poi: bool)
        requires
            old(self).wf(),
        ensures
            final(self).wf(),
            final(self)@ == ledger_after_heartbeat(old(self)@, peer@, position, poi),
            final(self).complete >= old(self).complete,
            final(self).complete <= final(self).total,
            final(self).total == old(self).total,
    {
        match find_peer(&self.peers, peer) {
            Some(i) => {
                proof {
                    assert(peer_ids(self.peers@)[i as int] == peer@);
                    lemma_pairs_map_update(peer_ids(self.peers@), self.positions@, i as int, position);
                }
                self.positions.set(i, position);
            },
            None => {
                proof {
                    lemma_push_distinct(peer_ids(self.peers@), peer@);
                    lemma_peer_ids_push(self.peers@, *peer);
                    lemma_pairs_map_push(peer_ids(self.peers@), self.positions@, peer@, position);
                }
                self.peers.push(peer.clone());
                self.positions.push(position);
                proof {
                    assert(peer_ids(self.peers@) =~= peer_ids(old(self).peers@).push(peer@));
                }
            },
        }
        assert(self@.minions == old(self)@.minions.insert(peer@, position));
        if poi && self.complete < self.total {
            let is_subscriber = find_peer(&self.subscribers, peer);
            let done_before = find_peer(&self.completed, peer);
            if is_subscriber.is_some() && done_before.is_none() {
                proof {
                    let i = is_subscriber.unwrap() as int;
                    assert(peer_ids(self.subscribers@)[i] == peer@);
                    lemma_push_distinct(peer_ids(self.completed@), peer@);
                    lemma_peer_ids_push(self.completed@, *peer);
                }
                self.completed.push(peer.clone());
                self.complete = self.complete + 1;
                proof {
                    assert(peer_ids(self.completed@) =~= peer_ids(old(self).completed@).push(
                        peer@,
                    ));
                }
            } else {
                proof {
                    if is_subscriber.is_some() {
                        let i = is_subscriber.unwrap() as int;
                        assert(peer_ids(self.subscribers@)[i] == peer@);
                    }
                    if done_before.is_some() {
                        let i = done_before.unwrap() as int;
                        assert(peer_ids(self.completed@)[i] == peer@);
                    }
                }
            }
        }
    }
}

} // verus!
