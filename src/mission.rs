//! The mission lifecycle, Pending → InProgress → Complete, driven by
//! subscriber acknowledgments and minion heartbeats.
use vstd::prelude::*;
use crate::geometry::{Coordinate, MissionArea};
use crate::ledger::{
    DelegateTasks,
    LedgerView,
    ledger_valid,
    ledger_after_ack,
    ledger_after_heartbeat,
};

verus! {

/// Where a mission stands.
#[derive(Debug, Clone, Copy, PartialEq, Eq, Structural)]
pub enum MissionStatus {
    Pending,
    InProgress,
    Complete,
}

/// The order of the lifecycle: 0, 1, 2.
pub open spec fn status_rank(s: MissionStatus) -> nat {
    match s {
        MissionStatus::Pending => 0,
        MissionStatus::InProgress => 1,
        MissionStatus::Complete => 2,
    }
}

/// What the mothership hears from the overlay network.
#[derive(Debug)]
pub enum MissionEvent {
    /// A peer subscribed to the mission topic.
    Acknowledged { peer: Vec<u8> },
    /// A minion reported where it is and whether it sees a point of interest.
    Heartbeat { peer: Vec<u8>, position: Coordinate, poi: bool },
}

/// The mothership's mission state, as mathematical values.
pub struct MothershipView {
    pub status: MissionStatus,
    pub ledger: LedgerView,
}

/// The state after one event. An acknowledgment starts a pending mission and
/// counts the subscriber; a heartbeat updates the ledger and completes a
/// mission in progress once every subscriber has completed. A complete
/// mission ignores every event.
pub open spec fn after_event(s: MothershipView, e: MissionEvent) -> MothershipView {
    if s.status == MissionStatus::Complete {
        s
    } else {
        match e {
            MissionEvent::Acknowledged { peer } => MothershipView {
                status: MissionStatus::InProgress,
                ledger: ledger_after_ack(s.ledger, peer@),
            },
            MissionEvent::Heartbeat { peer, position, poi } => {
                let l = ledger_after_heartbeat(s.ledger, peer@, position, poi);
                MothershipView {
                    status: if s.status == MissionStatus::InProgress && l.complete == l.total {
                        MissionStatus::Complete
                    } else {
                        s.status
                    },
                    ledger: l,
                }
            },
        }
    }
}

/// Whether an event makes the mothership send out the mission area: the first
/// acknowledgment of a pending mission.
pub open spec fn disseminates(s: MothershipView, e: MissionEvent) -> bool {
    s.status == MissionStatus::Pending && e is Acknowledged
}

/// The state after a sequence of events, taken in order.
pub open spec fn run(s: MothershipView, events: Seq<MissionEvent>) -> MothershipView
    decreases events.len(),
{
    if events.len() == 0 {
        s
    } else {
        after_event(run(s, events.drop_last()), events.last())
    }
}

/// The statuses seen along a sequence of events: the initial one, then one
/// after each event.
pub open spec fn statuses(s: MothershipView, events: Seq<MissionEvent>) -> Seq<MissionStatus> {
    Seq::new(events.len() + 1, |i: int| run(s, events.take(i)).status)
}

/// A consistent mothership state: a valid ledger, and no subscriber nor
/// completion counted before the mission started.
pub open spec fn mission_valid(s: MothershipView) -> bool {
    &&& ledger_valid(s.ledger)
    &&& s.status == MissionStatus::Pending ==> s.ledger.total == 0 && s.ledger.complete == 0
}

/// A minion as the mothership tracks it.
#[derive(Debug, Clone)]
pub struct Minion {
    pub peer_id: Vec<u8>,
    pub position: Coordinate,
}

/// A mission area delegated to one minion.
#[derive(Debug, Clone)]
pub struct DelegateTaskMessage {
    pub peer_id: Vec<u8>,
    pub area: MissionArea,
}

/// State of the mothership.
#[derive(Debug)]
pub struct MothershipState {
    pub position: Coordinate,
    pub mission_status: MissionStatus,
    pub mission_area: Option<MissionArea>,
    pub delegate_tasks: DelegateTasks,
}

impl View for MothershipState {
    type V = MothershipView;

    open spec fn view(&self) -> MothershipView {
        MothershipView { status: self.mission_status, ledger: self.delegate_tasks@ }
    }
}

impl MothershipState {
    pub open spec fn wf(&self) -> bool {
        &&& self.delegate_tasks.wf()
        &&& mission_valid(self@)
    }

    /// A pending mission over `mission_area`, with an empty ledger.
    pub fn new(position: Coordinate, mission_area: Option<MissionArea>) -> (r: MothershipState)
        ensures
            r.wf(),
            r.position == position,
            r.mission_area == mission_area,
            r.mission_status == MissionStatus::Pending,
            r@.ledger.total == 0,
            r@.ledger.complete == 0,
            r@.ledger.minions == Map::<Seq<u8>, Coordinate>::empty(),
    {
        MothershipState {
            position,
            mission_status: MissionStatus::Pending,
            mission_area,
            delegate_tasks: DelegateTasks::new(),
        }
    }

    /// Handles one event; returns whether the mission area is to be sent out
    /// to the subscribers now.
    pub fn handle(&mut self, event: &MissionEvent) -> (disseminate: bool)
        requires
            old(self).wf(),
        ensures
            final(self).wf(),
            final(self)@ == after_event(old(self)@, *event),
            disseminate == disseminates(old(self)@, *event),
            final(self).position == old(self).position,
            final(self).mission_area == old(self).mission_area,
    {
        proof {
            lemma_after_event(self@, *event);
        }
        if self.mission_status == MissionStatus::Complete {
            return false;
        }
        match event {
            MissionEvent::Acknowledged { peer } => {
                self.delegate_tasks.add_subscriber(peer);
                let start = self.mission_status == MissionStatus::Pending;
                self.mission_status = MissionStatus::InProgress;
                start
            },
            MissionEvent::Heartbeat { peer, position, poi } => {
                self.delegate_tasks.record_heartbeat(peer, *position, *poi);
                if self.mission_status == MissionStatus::InProgress
                    && self.delegate_tasks.complete == self.delegate_tasks.total {
                    self.mission_status = MissionStatus::Complete;
                }
                false
            },
        }
    }

    /// A subscriber acknowledged the mission topic.
    pub fn acknowledge(&mut self, peer: Vec<u8>) -> (disseminate: bool)
        requires
            old(self).wf(),
        ensures
            final(self).wf(),
            final(self)@ == after_event(old(self)@, MissionEvent::Acknowledged { peer }),
            disseminate == (old(self).mission_status == MissionStatus::Pending),
    {
        self.handle(&MissionEvent::Acknowledged { peer })
    }

    /// A minion's heartbeat arrived.
    pub fn heartbeat(&mut self, peer: Vec<u8>, position: Coordinate, poi: bool)
        requires
            old(self).wf(),
        ensures
            final(self).wf(),
            final(self)@ == after_event(
                old(self)@,
                MissionEvent::Heartbeat { peer, position, poi },
            ),
    {
        self.handle(&MissionEvent::Heartbeat { peer, position, poi });
    }
}

/// One event keeps a state consistent, never lowers the completion count,
/// never moves the lifecycle backwards, and keeps a complete mission as it is.
pub proof fn lemma_after_event(s: MothershipView, e: MissionEvent)
    requires
        mission_valid(s),
    ensures
        mission_valid(after_event(s, e)),
        s.ledger.complete <= after_event(s, e).ledger.complete,
        status_rank(s.status) <= status_rank(after_event(s, e).status),
        s.status == MissionStatus::Complete ==> after_event(s, e) == s,
{
    match e {
        MissionEvent::Acknowledged { peer } => {
            if !(s.ledger.subscribers.contains(peer@) || s.ledger.total >= u32::MAX) {
                let l = ledger_after_ack(s.ledger, peer@);
                assert forall|i: int, j: int|
                    0 <= i < l.subscribers.len() && 0 <= j < l.subscribers.len() && i != j
                    implies l.subscribers[i] != l.subscribers[j] by {
                    if i == s.ledger.subscribers.len() as int {
                        assert(s.ledger.subscribers[j] == l.subscribers[j]);
                    } else if j == s.ledger.subscribers.len() as int {
                        assert(s.ledger.subscribers[i] == l.subscribers[i]);
                    } else {
                        assert(s.ledger.subscribers[i] == l.subscribers[i]);
                        assert(s.ledger.subscribers[j] == l.subscribers[j]);
                    }
                }
            }
        },
        MissionEvent::Heartbeat { peer, position, poi } => {
            let l = ledger_after_heartbeat(s.ledger, peer@, position, poi);
            if l.completed.len() > s.ledger.completed.len() {
                assert forall|i: int, j: int|
                    0 <= i < l.completed.len() && 0 <= j < l.completed.len() && i != j
                    implies l.completed[i] != l.completed[j] by {
                    if i == s.ledger.completed.len() as int {
                        assert(s.ledger.completed[j] == l.completed[j]);
                    } else if j == s.ledger.completed.len() as int {
                        assert(s.ledger.completed[i] == l.completed[i]);
                    } else {
                        assert(s.ledger.completed[i] == l.completed[i]);
                        assert(s.ledger.completed[j] == l.completed[j]);
                    }
                }
            }
        },
    }
}

/// Taking one more event of a sequence is one more step.
proof fn lemma_run_take(s: MothershipView, events: Seq<MissionEvent>, i: int)
    requires
        0 <= i < events.len(),
    ensures
        run(s, events.take(i + 1)) == after_event(run(s, events.take(i)), events[i]),
{
    assert(events.take(i + 1).drop_last() =~= events.take(i));
}

/// Every prefix of a run from a consistent state ends in a consistent state.
proof fn lemma_run_valid(s: MothershipView, events: Seq<MissionEvent>)
    requires
        mission_valid(s),
    ensures
        mission_valid(run(s, events)),
    decreases events.len(),
{
    if events.len() > 0 {
        lemma_run_valid(s, events.drop_last());
        lemma_after_event(run(s, events.drop_last()), events.last());
    }
}

/// Ledger monotonicity: along any sequence of events, the completion count
/// never decreases and never exceeds the subscriber count.
pub proof fn law_completion_monotone(s: MothershipView, events: Seq<MissionEvent>)
    requires
        mission_valid(s),
    ensures
        forall|i: int|
            0 <= i <= events.len() ==> #[trigger] run(s, events.take(i)).ledger.complete
                <= run(s, events.take(i)).ledger.total,
        forall|i: int, j: int|
            0 <= i <= j <= events.len() ==> #[trigger] run(s, events.take(i)).ledger.complete
                <= #[trigger] run(s, events.take(j)).ledger.complete,
{
    assert forall|i: int| 0 <= i <= events.len() implies #[trigger] run(
        s,
        events.take(i),
    ).ledger.complete <= run(s, events.take(i)).ledger.total by {
        lemma_run_valid(s, events.take(i));
    }
    assert forall|i: int, j: int| 0 <= i <= j <= events.len() implies #[trigger] run(
        s,
        events.take(i),
    ).ledger.complete <= #[trigger] run(s, events.take(j)).ledger.complete by {
        lemma_complete_between(s, events, i, j);
    }
}

proof fn lemma_complete_between(s: MothershipView, events: Seq<MissionEvent>, i: int, j: int)
    requires
        mission_valid(s),
        0 <= i <= j <= events.len(),
    ensures
        run(s, events.take(i)).ledger.complete <= run(s, events.take(j)).ledger.complete,
        status_rank(run(s, events.take(i)).status) <= status_rank(run(s, events.take(j)).status),
    decreases j - i,
{
    if i < j {
        lemma_complete_between(s, events, i, j - 1);
        lemma_run_take(s, events, j - 1);
        lemma_run_valid(s, events.take(j - 1));
        lemma_after_event(run(s, events.take(j - 1)), events[j - 1]);
    }
}

/// Mission transition determinism: the statuses produced by a sequence of
/// events depend on the starting state and the events alone, each one is the
/// step of the state machine from the one before, and the lifecycle never
/// moves backwards nor leaves Complete.
pub proof fn law_status_sequence(s: MothershipView, events: Seq<MissionEvent>)
    requires
        mission_valid(s),
    ensures
        statuses(s, events).len() == events.len() + 1,
        statuses(s, events)[0] == s.status,
        forall|i: int|
            0 <= i < events.len() ==> #[trigger] statuses(s, events)[i + 1] == after_event(
                run(s, events.take(i)),
                events[i],
            ).status,
        forall|i: int, j: int|
            0 <= i <= j <= events.len() ==> status_rank(#[trigger] statuses(s, events)[i])
                <= status_rank(#[trigger] statuses(s, events)[j]),
        forall|i: int, j: int|
            0 <= i <= j <= events.len() && #[trigger] statuses(s, events)[i]
                == MissionStatus::Complete ==> #[trigger] statuses(s, events)[j]
                == MissionStatus::Complete,
{
    assert(events.take(0) =~= Seq::<MissionEvent>::empty());
    assert forall|i: int| 0 <= i < events.len() implies #[trigger] statuses(s, events)[i + 1]
        == after_event(run(s, events.take(i)), events[i]).status by {
        lemma_run_take(s, events, i);
    }
    assert forall|i: int, j: int| 0 <= i <= j <= events.len() implies status_rank(
        #[trigger] statuses(s, events)[i],
    ) <= status_rank(#[trigger] statuses(s, events)[j]) by {
        lemma_complete_between(s, events, i, j);
    }
}

} // verus!
