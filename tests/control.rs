use rshuffle::activity::ActivityStatus;
use rshuffle::control::{after_failure, on_event, should_retry, switch_target, DaemonEvent, LoopStep, MAX_ATTEMPTS};

#[test]
fn queue_and_player_changes_wake_the_loop() {
    assert_eq!(on_event(DaemonEvent::QueueChanged), LoopStep::Recheck);
    assert_eq!(on_event(DaemonEvent::PlayerChanged), LoopStep::Recheck);
}

#[test]
fn other_changes_are_ignored() {
    assert_eq!(on_event(DaemonEvent::OtherChanged), LoopStep::KeepWaiting);
}

#[test]
fn end_of_connection_fails() {
    assert_eq!(on_event(DaemonEvent::ConnectionClosed), LoopStep::Fail);
    assert_eq!(on_event(DaemonEvent::StreamEnded), LoopStep::Fail);
}

#[test]
fn only_first_track_of_playing_batch_switches() {
    let d = ActivityStatus::Active(3, true);
    assert_eq!(switch_target(d, 0, 7), Some(7));
    assert_eq!(switch_target(d, 1, 8), None);
    assert_eq!(switch_target(ActivityStatus::Active(3, false), 0, 7), None);
    assert_eq!(switch_target(ActivityStatus::NotActive, 0, 7), None);
}

#[test]
fn failure_count() {
    assert_eq!(after_failure(2, 30_001), 0);
    assert_eq!(after_failure(2, 30_000), 3);
    assert_eq!(after_failure(0, 5), 1);
    assert_eq!(after_failure(u32::MAX, 0), u32::MAX);
    assert!(should_retry(0));
    assert!(should_retry(MAX_ATTEMPTS - 1));
    assert!(!should_retry(MAX_ATTEMPTS));
}
