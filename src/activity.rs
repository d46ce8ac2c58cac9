use vstd::prelude::*;

verus! {

/// What the daemon reports about its playback queue.
#[derive(Debug, Clone, Copy, PartialEq, Eq)]
pub struct PlaybackStatus {
    /// Zero-based position of the current track in the queue, if there is one.
    pub current_position: Option<usize>,
    /// Whether a track is queued after the current one.
    pub has_next: bool,
    /// Total number of entries in the queue.
    pub queue_len: usize,
}

/// Whether tracks must be added to the queue.
#[derive(Debug, Clone, Copy, PartialEq, Eq, Structural)]
pub enum ActivityStatus {
    /// Nothing needs to be added.
    NotActive,
    /// Add this many tracks; when the flag is set, start playing the first one.
    Active(u64, bool),
}

/// Tracks queued after the current one; a position past the end counts as none left.
pub open spec fn remaining_after(status: PlaybackStatus, pos: usize) -> int {
    if pos as int + 1 <= status.queue_len as int {
        status.queue_len as int - pos as int - 1
    } else {
        0
    }
}

/// The decision for a buffer of `buffer` look-ahead tracks.
pub open spec fn decision(buffer: u32, status: PlaybackStatus) -> ActivityStatus {
    match status.current_position {
        None => if !status.has_next || buffer != 0 {
            ActivityStatus::Active((1 + buffer) as u64, true)
        } else {
            ActivityStatus::NotActive
        },
        Some(pos) => if buffer == 0 {
            ActivityStatus::NotActive
        } else if remaining_after(status, pos) == 0 {
            ActivityStatus::Active(buffer as u64, false)
        } else if remaining_after(status, pos) < buffer {
            ActivityStatus::Active((buffer - remaining_after(status, pos)) as u64, false)
        } else {
            ActivityStatus::NotActive
        },
    }
}

/// Decides how many tracks to enqueue so that `buffer` tracks stay queued after
/// the current one, and whether the first of them must start playing.
pub fn is_active(buffer: u32, status: &PlaybackStatus) -> (r: ActivityStatus)
    ensures
        r == decision(buffer, *status),
{
    if !status.has_next && status.current_position.is_none() {
        return ActivityStatus::Active(1 + buffer as u64, true);
    }
    if buffer == 0 {
        return ActivityStatus::NotActive;
    }
    let pos = match status.current_position {
        Some(p) => p,
        None => {
            // a next track without a current one: seed the queue as if it were empty
            return ActivityStatus::Active(1 + buffer as u64, true);
        },
    };
    let remaining: usize = if pos < status.queue_len {
        status.queue_len - pos - 1
    } else {
        0
    };
    if remaining == 0 {
        ActivityStatus::Active(buffer as u64, false)
    } else if remaining < buffer as usize {
        ActivityStatus::Active((buffer as usize - remaining) as u64, false)
    } else {
        ActivityStatus::NotActive
    }
}

/// A decision to act always asks for at least one track.
pub proof fn lemma_active_count_positive(buffer: u32, status: PlaybackStatus)
    ensures
        decision(buffer, status) is Active ==> decision(buffer, status)->Active_0 > 0,
{
}

/// With neither a current nor a next track, one track is seeded to play at once
/// together with the whole look-ahead buffer, whatever the buffer size.
pub proof fn lemma_empty_queue_seeds(buffer: u32, status: PlaybackStatus)
    requires
        status.current_position is None,
        !status.has_next,
    ensures
        decision(buffer, status) == ActivityStatus::Active((1 + buffer) as u64, true),
{
}

/// For a fixed queue, a larger buffer never asks for fewer tracks: once the
/// decision is to act, it stays so, with a count that does not shrink.
pub proof fn lemma_buffer_monotone(small: u32, large: u32, status: PlaybackStatus)
    requires
        small <= large,
    ensures
        decision(small, status) is Active ==> decision(large, status) is Active
            && decision(small, status)->Active_0 <= decision(large, status)->Active_0,
{
}

} // verus!
