//! The window-focus cache: the last window that was seen in the foreground.
//!
//! Asking the window system is slow and can fail. The cache says when it is
//! time to ask again, takes the answer, and keeps what it had when the
//! question fails.

use crate::window::WindowInfo;
use vstd::prelude::*;

verus! {

/// How long an answer of the window system is used before it is asked again,
/// in milliseconds.
pub const REFRESH_INTERVAL_MS: u64 = 1000;

/// The focused window as it was at one moment.
#[derive(Clone, Debug, PartialEq, Eq)]
pub struct FocusSnapshot {
    pub title: String,
    pub window_class: String,
    /// When the window system gave this answer, in milliseconds.
    pub captured_at: u64,
}

/// What the cache holds after the window system was asked at `now`: the new
/// answer, or what it held before where the question failed.
pub open spec fn recorded(
    held: Option<FocusSnapshot>,
    now: u64,
    outcome: Option<WindowInfo>,
) -> Option<FocusSnapshot> {
    match outcome {
        Some(info) => Some(
            FocusSnapshot { title: info.title, window_class: info.class, captured_at: now },
        ),
        None => held,
    }
}

/// What the cache holds after a series of questions, each with the time it
/// was asked at.
pub open spec fn recorded_all(
    held: Option<FocusSnapshot>,
    outcomes: Seq<(u64, Option<WindowInfo>)>,
) -> Option<FocusSnapshot>
    decreases outcomes.len(),
{
    if outcomes.len() == 0 {
        held
    } else {
        recorded(recorded_all(held, outcomes.drop_last()), outcomes.last().0, outcomes.last().1)
    }
}

/// Whether the window system is to be asked again at `now`.
pub open spec fn due(refreshed_at: u64, now: u64) -> bool {
    now - refreshed_at >= REFRESH_INTERVAL_MS
}

/// The last answer of the window system, and when it was last asked.
#[derive(Clone, Debug)]
pub struct FocusCache {
    snapshot: Option<FocusSnapshot>,
    refreshed_at: u64,
}

impl FocusCache {
    /// The snapshot that the cache holds.
    pub closed spec fn snapshot(self) -> Option<FocusSnapshot> {
        self.snapshot
    }

    /// When the window system was last asked.
    pub closed spec fn refreshed_at(self) -> u64 {
        self.refreshed_at
    }

    /// An empty cache, made at `now`: the first question is due one interval
    /// later.
    pub fn new(now: u64) -> (cache: FocusCache)
        ensures
            cache.snapshot() is None,
            cache.refreshed_at() == now,
    {
        FocusCache { snapshot: None, refreshed_at: now }
    }

    /// Whether it is time to ask the window system again: a full interval has
    /// passed since it was last asked.
    pub fn refresh_due(&self, now: u64) -> (r: bool)
        ensures
            r == due(self.refreshed_at(), now),
    {
        now >= self.refreshed_at && now - self.refreshed_at >= REFRESH_INTERVAL_MS
    }

    /// Takes the outcome of a question that was asked at `now`. An answer
    /// replaces the snapshot; a failure leaves the cache with what it had.
    pub fn record(&mut self, now: u64, outcome: Option<WindowInfo>)
        ensures
            final(self).refreshed_at() == now,
            final(self).snapshot() == recorded(old(self).snapshot(), now, outcome),
    {
        self.refreshed_at = now;
        match outcome {
            Some(info) => {
                self.snapshot = Some(
                    FocusSnapshot { title: info.title, window_class: info.class, captured_at: now },
                );
            },
            None => {},
        }
    }

    /// The snapshot that the cache holds, which may be as old as one
    /// interval; `None` until the window system has answered once.
    pub fn current_focus(&self) -> (focus: Option<&FocusSnapshot>)
        ensures
            focus matches Some(snapshot) ==> self.snapshot() == Some(*snapshot),
            focus is None <==> self.snapshot() is None,
    {
        self.snapshot.as_ref()
    }
}

} // verus!
