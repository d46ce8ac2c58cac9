use vstd::prelude::*;

use crate::activity::ActivityStatus;

verus! {

/// Consecutive quick failures after which the loop gives up.
pub const MAX_ATTEMPTS: u32 = 3;

/// A run of the loop that lasted longer than this, in milliseconds, is taken as
/// a success: the failure count starts over.
pub const ATTEMPT_INTERVAL_MS: u64 = 30000;

/// A notification from the daemon, as the loop sees it.
#[derive(Debug, Clone, Copy, PartialEq, Eq, Structural)]
pub enum DaemonEvent {
    /// The queue changed.
    QueueChanged,
    /// The player started, stopped or moved on.
    PlayerChanged,
    /// Some other part of the daemon changed.
    OtherChanged,
    /// The daemon closed the connection.
    ConnectionClosed,
    /// The notification stream ended.
    StreamEnded,
}

/// What the loop does after a notification.
#[derive(Debug, Clone, Copy, PartialEq, Eq, Structural)]
pub enum LoopStep {
    /// Query the status again and decide anew.
    Recheck,
    /// Ignore the notification and wait for the next one.
    KeepWaiting,
    /// End this connection with an error.
    Fail,
}

/// Reacts to a notification: queue and player changes wake the loop, other
/// changes are ignored, and the end of the connection is an error.
pub fn on_event(event: DaemonEvent) -> (r: LoopStep)
    ensures
        r == match event {
            DaemonEvent::QueueChanged | DaemonEvent::PlayerChanged => LoopStep::Recheck,
            DaemonEvent::OtherChanged => LoopStep::KeepWaiting,
            DaemonEvent::ConnectionClosed | DaemonEvent::StreamEnded => LoopStep::Fail,
        },
{
    match event {
        DaemonEvent::QueueChanged | DaemonEvent::PlayerChanged => LoopStep::Recheck,
        DaemonEvent::OtherChanged => LoopStep::KeepWaiting,
        DaemonEvent::ConnectionClosed | DaemonEvent::StreamEnded => LoopStep::Fail,
    }
}

/// The queue position to start playing after the `index`-th track of a batch
/// was appended to a queue of `queue_len` entries: the new entry, for the first
/// track of a batch that is to play at once; none otherwise.
pub fn switch_target(decision: ActivityStatus, index: u64, queue_len: usize) -> (r: Option<usize>)
    ensures
        r == (match decision {
            ActivityStatus::Active(_, true) => if index == 0 {
                Some(queue_len)
            } else {
                None
            },
            _ => None,
        }),
{
    match decision {
        ActivityStatus::Active(_, true) => if index == 0 {
            Some(queue_len)
        } else {
            None
        },
        _ => None,
    }
}

/// The failure count after a run of the loop that lasted `elapsed_ms` ended
/// with an error: reset by a long run, one more otherwise.
pub fn after_failure(attempts: u32, elapsed_ms: u64) -> (r: u32)
    ensures
        r == if elapsed_ms > ATTEMPT_INTERVAL_MS {
            0
        } else if attempts < u32::MAX {
            (attempts + 1) as u32
        } else {
            attempts
        },
{
    if elapsed_ms > ATTEMPT_INTERVAL_MS {
        0
    } else if attempts < u32::MAX {
        attempts + 1
    } else {
        attempts
    }
}

/// Whether the loop is started again after `attempts` quick failures.
pub fn should_retry(attempts: u32) -> (r: bool)
    ensures
        r == (attempts < MAX_ATTEMPTS),
{
    attempts < MAX_ATTEMPTS
}

} // verus!
