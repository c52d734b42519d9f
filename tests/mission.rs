use libd2d::{Coordinate, DelegateTasks, MissionEvent, MissionStatus, MothershipState};

fn origin() -> Coordinate {
    Coordinate { x: 0, y: 0 }
}

fn peer(n: u8) -> Vec<u8> {
    vec![0x12, 0x20, n]
}

#[test]
fn three_subscribers_complete_the_mission() {
    let mut m = MothershipState::new(origin(), None);
    assert_eq!(m.delegate_tasks.total, 0);
    assert_eq!(m.mission_status, MissionStatus::Pending);

    assert!(m.acknowledge(peer(1)));
    assert!(!m.acknowledge(peer(2)));
    assert!(!m.acknowledge(peer(3)));
    assert_eq!(m.delegate_tasks.total, 3);
    assert_eq!(m.mission_status, MissionStatus::InProgress);

    m.heartbeat(peer(1), Coordinate { x: 2, y: 0 }, true);
    m.heartbeat(peer(2), Coordinate { x: 4, y: 1 }, true);
    assert_eq!(m.delegate_tasks.complete, 2);
    assert_eq!(m.mission_status, MissionStatus::InProgress);

    m.heartbeat(peer(3), Coordinate { x: 6, y: 2 }, true);
    assert_eq!(m.delegate_tasks.complete, 3);
    assert_eq!(m.mission_status, MissionStatus::Complete);
}

#[test]
fn repeated_point_of_interest_counts_once() {
    let mut m = MothershipState::new(origin(), None);
    m.acknowledge(peer(1));
    m.acknowledge(peer(2));
    m.heartbeat(peer(1), Coordinate { x: 2, y: 0 }, true);
    m.heartbeat(peer(1), Coordinate { x: 4, y: 0 }, true);
    assert_eq!(m.delegate_tasks.complete, 1);
    assert_eq!(m.mission_status, MissionStatus::InProgress);
}

#[test]
fn repeated_acknowledgment_counts_once() {
    let mut m = MothershipState::new(origin(), None);
    assert!(m.acknowledge(peer(7)));
    assert!(!m.acknowledge(peer(7)));
    assert_eq!(m.delegate_tasks.total, 1);
}

#[test]
fn heartbeat_from_unknown_peer_records_position_only() {
    let mut m = MothershipState::new(origin(), None);
    m.acknowledge(peer(1));
    m.heartbeat(peer(9), Coordinate { x: 5, y: 5 }, true);
    assert_eq!(m.delegate_tasks.complete, 0);
    assert_eq!(m.delegate_tasks.peers, vec![peer(9)]);
    assert_eq!(m.delegate_tasks.positions, vec![Coordinate { x: 5, y: 5 }]);
}

#[test]
fn heartbeat_updates_last_position() {
    let mut l = DelegateTasks::new();
    l.record_heartbeat(&peer(1), Coordinate { x: 1, y: 0 }, false);
    l.record_heartbeat(&peer(2), Coordinate { x: 0, y: 3 }, false);
    l.record_heartbeat(&peer(1), Coordinate { x: 2, y: 0 }, false);
    assert_eq!(l.peers, vec![peer(1), peer(2)]);
    assert_eq!(l.positions, vec![Coordinate { x: 2, y: 0 }, Coordinate { x: 0, y: 3 }]);
    assert_eq!(l.complete, 0);
}

#[test]
fn heartbeats_before_start_count_nothing() {
    let mut m = MothershipState::new(origin(), None);
    m.heartbeat(peer(1), Coordinate { x: 2, y: 0 }, true);
    assert_eq!(m.mission_status, MissionStatus::Pending);
    assert_eq!(m.delegate_tasks.complete, 0);
    assert_eq!(m.delegate_tasks.total, 0);
}

#[test]
fn complete_mission_ignores_events() {
    let mut m = MothershipState::new(origin(), None);
    m.acknowledge(peer(1));
    m.heartbeat(peer(1), Coordinate { x: 2, y: 0 }, true);
    assert_eq!(m.mission_status, MissionStatus::Complete);
    assert!(!m.acknowledge(peer(2)));
    m.heartbeat(peer(2), Coordinate { x: 8, y: 8 }, true);
    assert_eq!(m.mission_status, MissionStatus::Complete);
    assert_eq!(m.delegate_tasks.total, 1);
    assert_eq!(m.delegate_tasks.complete, 1);
    assert_eq!(m.delegate_tasks.peers, vec![peer(1)]);
}

#[test]
fn same_events_give_same_statuses() {
    let events = vec![
        MissionEvent::Acknowledged { peer: peer(1) },
        MissionEvent::Heartbeat { peer: peer(1), position: Coordinate { x: 1, y: 0 }, poi: false },
        MissionEvent::Acknowledged { peer: peer(2) },
        MissionEvent::Heartbeat { peer: peer(2), position: Coordinate { x: 2, y: 0 }, poi: true },
        MissionEvent::Heartbeat { peer: peer(1), position: Coordinate { x: 2, y: 0 }, poi: true },
    ];
    let run = |events: &Vec<MissionEvent>| {
        let mut m = MothershipState::new(origin(), None);
        let mut seen = vec![m.mission_status];
        let mut completes = vec![m.delegate_tasks.complete];
        for e in events {
            m.handle(e);
            seen.push(m.mission_status);
            completes.push(m.delegate_tasks.complete);
        }
        (seen, completes)
    };
    let (a, ca) = run(&events);
    let (b, cb) = run(&events);
    assert_eq!(a, b);
    assert_eq!(ca, cb);
    assert_eq!(
        a,
        vec![
            MissionStatus::Pending,
            MissionStatus::InProgress,
            MissionStatus::InProgress,
            MissionStatus::InProgress,
            MissionStatus::InProgress,
            MissionStatus::Complete,
        ]
    );
    assert_eq!(ca, vec![0, 0, 0, 0, 1, 2]);
    assert!(ca.windows(2).all(|w| w[0] <= w[1]));
}
