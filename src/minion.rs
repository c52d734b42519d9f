//! The minion's shared control state and the two sides that meet on it: the
//! physical control loop, which publishes ticks, and the event bridge, which
//! a cooperative event loop polls for heartbeats.
use vstd::prelude::*;
use crate::geometry::{Coordinate, MissionArea};

verus! {

/// The resumption handle of a suspended poll. Relies on std's
/// `std::task::Waker`, which is only stored here and handed back; the
/// library never calls it.
#[verifier::external_type_specification]
#[verifier::external_body]
pub struct ExWaker(std::task::Waker);

/// The snapshot that one heartbeat carries.
#[derive(Debug, Clone, Copy, PartialEq, Eq, Structural)]
pub struct MinionHeartbeat {
    pub position: Coordinate,
    pub poi: bool,
}

/// The state that the control loop and the event bridge share, each acting
/// on it only under one lock.
#[derive(Debug)]
pub struct MinionState {
    /// A heartbeat is waiting to be taken.
    pub heartbeat: bool,
    /// The minion is ready; before that no heartbeat is handed out.
    pub ready: bool,
    pub position: Coordinate,
    pub poi: bool,
    pub mission_area: Option<MissionArea>,
    /// The poll to resume when the next heartbeat is published.
    pub waker: Option<std::task::Waker>,
}

/// The part of the shared state that the bridge protocol reads and writes.
pub struct BridgeView {
    pub heartbeat: bool,
    pub ready: bool,
    pub position: Coordinate,
    pub poi: bool,
    pub waker: Option<std::task::Waker>,
}

impl View for MinionState {
    type V = BridgeView;

    open spec fn view(&self) -> BridgeView {
        BridgeView {
            heartbeat: self.heartbeat,
            ready: self.ready,
            position: self.position,
            poi: self.poi,
            waker: self.waker,
        }
    }
}

/// Whether a heartbeat can be handed out now.
pub open spec fn available(s: BridgeView) -> bool {
    s.ready && s.heartbeat
}

/// What one poll hands out: the current snapshot when a heartbeat is
/// available, else nothing.
pub open spec fn poll_result(s: BridgeView) -> Option<MinionHeartbeat> {
    if available(s) {
        Some(MinionHeartbeat { position: s.position, poi: s.poi })
    } else {
        None
    }
}

/// The state after one poll with resumption handle `w`: an available
/// heartbeat is taken; otherwise `w` replaces any handle registered before.
pub open spec fn after_poll(s: BridgeView, w: std::task::Waker) -> BridgeView {
    if available(s) {
        BridgeView { heartbeat: false, ..s }
    } else {
        BridgeView { waker: Some(w), ..s }
    }
}

/// The state after the control loop publishes a tick: the new snapshot is
/// stored, a heartbeat is marked waiting, and the registered handle is taken
/// out to be resumed.
pub open spec fn after_tick(s: BridgeView, position: Coordinate, poi: bool) -> BridgeView {
    BridgeView { heartbeat: true, position, poi, waker: None, ..s }
}

/// The point-of-interest predicate of the simulated sensor: an even x.
pub open spec fn poi_at(c: Coordinate) -> bool {
    c.x % 2 == 0
}

/// Evaluates the point-of-interest predicate at `c`.
pub fn point_of_interest(c: Coordinate) -> (r: bool)
    ensures
        r == poi_at(c),
{
    c.x % 2 == 0
}

impl MinionState {
    /// Fresh state at `position`: not ready, no heartbeat, no mission area,
    /// no suspended poll.
    pub fn new(position: Coordinate) -> (r: MinionState)
        ensures
            r@.position == position,
            !r@.ready,
            !r@.heartbeat,
            !r@.poi,
            r@.waker.is_none(),
            r.mission_area.is_none(),
    {
        MinionState {
            heartbeat: false,
            ready: false,
            position,
            poi: false,
            mission_area: None,
            waker: None,
        }
    }

    /// Marks the minion ready, with the mission area it received.
    pub fn set_ready(&mut self, mission_area: Option<MissionArea>)
        ensures
            final(self)@ == (BridgeView { ready: true, ..old(self)@ }),
            final(self).mission_area == mission_area,
    {
        self.ready = true;
        self.mission_area = mission_area;
    }

    /// One poll of the event bridge. When the minion is ready and a heartbeat
    /// is waiting, takes it and returns its snapshot. Otherwise registers
    /// `waker` as the single pending resumption handle, replacing any earlier
    /// one, and returns `None`: the caller suspends until resumed. Never
    /// loops or blocks.
    pub fn poll_heartbeat(&mut self, waker: std::task::Waker) -> (r: Option<MinionHeartbeat>)
        ensures
            r == poll_result(old(self)@),
            final(self)@ == after_poll(old(self)@, waker),
            final(self).mission_area == old(self).mission_area,
    {
        if self.ready && self.heartbeat {
            self.heartbeat = false;
            Some(MinionHeartbeat { position: self.position, poi: self.poi })
        } else {
            self.waker = Some(waker);
            None
        }
    }

    /// Publishes a tick of the control loop: stores the snapshot, marks a
    /// heartbeat waiting, and returns the suspended poll's handle, if any, for
    /// the caller to resume once the lock is released.
    pub fn publish_tick(&mut self, position: Coordinate, poi: bool) -> (r: Option<std::task::Waker>)
        ensures
            r == old(self)@.waker,
            final(self)@ == after_tick(old(self)@, position, poi),
            final(self).mission_area == old(self).mission_area,
    {
        self.position = position;
        self.poi = poi;
        self.heartbeat = true;
        self.waker.take()
    }

    /// One tick of the simulated control loop: advances one cell along x,
    /// evaluates the point-of-interest predicate there, and publishes.
    pub fn tick(&mut self) -> (r: Option<std::task::Waker>)
        requires
            old(self).position.x < i32::MAX,
        ensures
            r == old(self)@.waker,
            final(self)@ == after_tick(
                old(self)@,
                Coordinate { x: (old(self).position.x + 1) as i32, y: old(self).position.y },
                poi_at(final(self).position),
            ),
            final(self).position.x == old(self).position.x + 1,
            final(self).mission_area == old(self).mission_area,
    {
        let mut position = self.position;
        position.inc_x();
        let poi = point_of_interest(position);
        self.publish_tick(position, poi)
    }
}

/// Never zero: once the minion is ready, the first poll after a tick hands
/// out exactly that tick's snapshot.
pub proof fn law_tick_then_poll(s: BridgeView, position: Coordinate, poi: bool, w: std::task::Waker)
    requires
        s.ready,
    ensures
        poll_result(after_tick(s, position, poi)) == Some(
            MinionHeartbeat { position, poi },
        ),
        !after_poll(after_tick(s, position, poi), w).heartbeat,
{
}

/// Never twice: after a poll hands out a heartbeat, every further poll with no
/// tick in between hands out nothing and registers its handle.
pub proof fn law_no_duplicate(s: BridgeView, w1: std::task::Waker, w2: std::task::Waker)
    requires
        poll_result(s).is_some(),
    ensures
        poll_result(after_poll(s, w1)).is_none(),
        after_poll(after_poll(s, w1), w2).waker == Some(w2),
{
}

/// No busy-wait: a poll that finds nothing registers its handle and changes
/// nothing else, so any number of such polls leave the state as one does,
/// with the latest handle registered.
pub proof fn law_idle_polls(s: BridgeView, w1: std::task::Waker, w2: std::task::Waker)
    requires
        !available(s),
    ensures
        poll_result(s).is_none(),
        after_poll(s, w1) == (BridgeView { waker: Some(w1), ..s }),
        poll_result(after_poll(s, w1)).is_none(),
        after_poll(after_poll(s, w1), w2) == after_poll(s, w2),
{
}

/// One call on the shared state: a poll of the bridge, or a tick of the
/// control loop.
pub enum BridgeOp {
    Poll { waker: std::task::Waker },
    Tick { position: Coordinate, poi: bool },
}

/// The state after a sequence of calls, taken in order.
pub open spec fn bridge_run(s: BridgeView, ops: Seq<BridgeOp>) -> BridgeView
    decreases ops.len(),
{
    if ops.len() == 0 {
        s
    } else {
        let before = bridge_run(s, ops.drop_last());
        match ops.last() {
            BridgeOp::Poll { waker } => after_poll(before, waker),
            BridgeOp::Tick { position, poi } => after_tick(before, position, poi),
        }
    }
}

/// How many polls of a sequence hand out a heartbeat.
pub open spec fn deliveries(s: BridgeView, ops: Seq<BridgeOp>) -> nat
    decreases ops.len(),
{
    if ops.len() == 0 {
        0
    } else {
        let before = bridge_run(s, ops.drop_last());
        deliveries(s, ops.drop_last()) + match ops.last() {
            BridgeOp::Poll { .. } => if available(before) { 1nat } else { 0nat },
            BridgeOp::Tick { .. } => 0nat,
        }
    }
}

/// How many ticks a sequence holds.
pub open spec fn ticks(ops: Seq<BridgeOp>) -> nat
    decreases ops.len(),
{
    if ops.len() == 0 {
        0
    } else {
        ticks(ops.drop_last()) + match ops.last() {
            BridgeOp::Poll { .. } => 0nat,
            BridgeOp::Tick { .. } => 1nat,
        }
    }
}

/// 1 for a heartbeat waiting, else 0.
pub open spec fn waiting(s: BridgeView) -> nat {
    if s.heartbeat { 1 } else { 0 }
}

/// Single delivery: over any sequence of polls and ticks, the heartbeats
/// handed out, plus the one still waiting, are at most the ticks published
/// plus the one waiting at the start. No tick is handed out twice.
pub proof fn law_single_delivery(s: BridgeView, ops: Seq<BridgeOp>)
    ensures
        deliveries(s, ops) + waiting(bridge_run(s, ops)) <= ticks(ops) + waiting(s),
    decreases ops.len(),
{
    if ops.len() > 0 {
        law_single_delivery(s, ops.drop_last());
    }
}

/// Neither polls nor ticks change whether the minion is ready.
proof fn lemma_run_keeps_ready(s: BridgeView, ops: Seq<BridgeOp>)
    ensures
        bridge_run(s, ops).ready == s.ready,
    decreases ops.len(),
{
    if ops.len() > 0 {
        lemma_run_keeps_ready(s, ops.drop_last());
    }
}

/// Never zero: on a ready minion, after any sequence of polls and ticks that
/// ends in a tick, the next poll hands out that tick's snapshot.
pub proof fn law_resume_delivers(s: BridgeView, ops: Seq<BridgeOp>)
    requires
        s.ready,
        ops.len() > 0,
        ops.last() is Tick,
    ensures
        poll_result(bridge_run(s, ops)) == Some(
            MinionHeartbeat {
                position: ops.last()->Tick_position,
                poi: ops.last()->Tick_poi,
            },
        ),
{
    lemma_run_keeps_ready(s, ops.drop_last());
}

} // verus!
