use pinginfo::board::{StartAction, StatusBoard};
use pinginfo::models::{ProbeResult, ProbeType, TargetState};
use pinginfo::status::TargetStatus;
use pinginfo::time::Timestamp;

fn outcome(target_id: i64, success: bool) -> ProbeResult {
    let t = Timestamp { secs: 1_700_000_000, nanos: 0 };
    ProbeResult {
        target_id,
        started_at: t,
        finished_at: t,
        probe_type: ProbeType::Icmp,
        resolved_ip: None,
        success,
        latency_ns: if success { Some(5) } else { None },
        ttl: None,
        error_kind: None,
        error_message: None,
    }
}

#[test]
fn starting_targets_files_their_statuses() {
    let mut board = StatusBoard::new();
    assert_eq!(board.start_target(1, false), StartAction::Idle(TargetStatus::disabled(1)));
    assert_eq!(board.get(1).unwrap().state, TargetState::Disabled);
    assert_eq!(board.start_target(2, true), StartAction::Run);
    assert_eq!(board.get(2), Some(TargetStatus::new(2)));
    assert_eq!(board.len(), 2);
}

#[test]
fn restarting_an_enabled_target_keeps_its_statistics() {
    let mut board = StatusBoard::new();
    board.start_target(3, true);
    board.record(3, &outcome(3, false));
    board.start_target(3, true);
    assert_eq!(board.get(3).unwrap().failure_count, 1);
}

#[test]
fn recording_touches_only_its_target() {
    let mut board = StatusBoard::new();
    board.start_target(1, true);
    board.start_target(2, true);
    let s = board.record(1, &outcome(1, false));
    assert_eq!(s.state, TargetState::Warning);
    assert_eq!(board.get(1), Some(s));
    assert_eq!(board.get(2), Some(TargetStatus::new(2)));
    // A target without a status starts from a fresh one.
    let s = board.record(9, &outcome(9, true));
    assert_eq!(s.success_count, 1);
    assert!(board.can_record(9, &outcome(9, true)));
}

#[test]
fn clearing_and_removing() {
    let mut board = StatusBoard::new();
    board.record(4, &outcome(4, false));
    assert_eq!(board.reset(4, true), TargetStatus::new(4));
    assert_eq!(board.reset(4, false), TargetStatus::disabled(4));
    board.remove(4);
    assert_eq!(board.get(4), None);
    board.remove(4);
    assert_eq!(board.len(), 0);
}

#[test]
fn listing_gives_every_status_once() {
    let mut board = StatusBoard::new();
    for id in 0..5 {
        board.start_target(id, id % 2 == 0);
    }
    let mut ids: Vec<i64> = board.statuses().iter().map(|s| s.target_id).collect();
    ids.sort();
    assert_eq!(ids, vec![0, 1, 2, 3, 4]);
}
