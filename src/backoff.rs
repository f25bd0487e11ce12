//! Consecutive-failure counting with a fixed cooldown for the update phase.
use vstd::prelude::*;

verus! {

/// Number of consecutive failed updates after which updates are suspended.
pub const FAILURE_THRESHOLD: u32 = 10;

/// Length of a suspension, in milliseconds.
pub const COOLDOWN_MS: u64 = 1000;

/// A suspension of updates: when it began and how long it lasts (milliseconds).
#[derive(Clone, Copy, Debug, PartialEq, Eq, Structural)]
pub struct BackoffWindow {
    pub start_ms: u64,
    pub duration_ms: u64,
}

/// State of the update fault controller.
///
/// In the normal state (`window` is `None`) the update runs every frame; a
/// run of `FAILURE_THRESHOLD` failures opens a window of `COOLDOWN_MS` during
/// which updates are skipped.
#[derive(Clone, Copy, Debug, PartialEq, Eq, Structural)]
pub struct Backoff {
    pub consecutive_failures: u32,
    pub window: Option<BackoffWindow>,
}

/// Milliseconds between `start` and `now`; zero for a clock that went back.
pub open spec fn elapsed_ms(start: u64, now: u64) -> int {
    if now >= start { now - start } else { 0 }
}

/// Whether a window that began at `w.start_ms` is over at `now`.
pub open spec fn window_elapsed(w: BackoffWindow, now: u64) -> bool {
    elapsed_ms(w.start_ms, now) > w.duration_ms
}

/// The controller after the start-of-frame check at `now`.
pub open spec fn spec_begin_frame(b: Backoff, now: u64) -> Backoff {
    match b.window {
        Some(w) => if window_elapsed(w, now) { Backoff { window: None, ..b } } else { b },
        None => b,
    }
}

/// The controller after an update attempt at `now` that succeeded or failed.
pub open spec fn spec_record(b: Backoff, succeeded: bool, now: u64) -> Backoff {
    if succeeded {
        Backoff { consecutive_failures: 0, ..b }
    } else if b.consecutive_failures + 1 >= FAILURE_THRESHOLD {
        Backoff {
            consecutive_failures: 0,
            window: Some(BackoffWindow { start_ms: now, duration_ms: COOLDOWN_MS }),
        }
    } else {
        Backoff { consecutive_failures: (b.consecutive_failures + 1) as u32, ..b }
    }
}

impl Backoff {
    /// The counter stays below the threshold, and a window is open only with a
    /// zeroed counter.
    pub open spec fn wf(&self) -> bool {
        &&& self.consecutive_failures < FAILURE_THRESHOLD
        &&& self.window is Some ==> self.consecutive_failures == 0
    }

    /// Whether updates are suspended.
    pub open spec fn in_backoff(&self) -> bool {
        self.window is Some
    }

    /// Normal state with no failures recorded.
    pub fn new() -> (r: Self)
        ensures
            r.wf(),
            r.consecutive_failures == 0,
            r.window is None,
    {
        Backoff { consecutive_failures: 0, window: None }
    }

    /// Start-of-frame check: closes an elapsed window and says whether the
    /// update phase runs in this frame.
    pub fn begin_frame(&mut self, now_ms: u64) -> (run_update: bool)
        requires
            old(self).wf(),
        ensures
            *final(self) == spec_begin_frame(*old(self), now_ms),
            final(self).wf(),
            run_update == final(self).window is None,
    {
        match self.window {
            Some(w) => {
                let elapsed: u64 = if now_ms >= w.start_ms { now_ms - w.start_ms } else { 0 };
                if elapsed > w.duration_ms {
                    self.window = None;
                    true
                } else {
                    false
                }
            },
            None => true,
        }
    }

    /// Records the outcome of an update attempt made at `now_ms`; returns
    /// whether this failure opened a suspension window.
    pub fn record(&mut self, succeeded: bool, now_ms: u64) -> (opened: bool)
        requires
            old(self).wf(),
            old(self).window is None,
        ensures
            *final(self) == spec_record(*old(self), succeeded, now_ms),
            final(self).wf(),
            opened == (!succeeded && old(self).consecutive_failures + 1 == FAILURE_THRESHOLD),
    {
        if succeeded {
            self.consecutive_failures = 0;
            false
        } else if self.consecutive_failures + 1 >= FAILURE_THRESHOLD {
            self.consecutive_failures = 0;
            self.window = Some(BackoffWindow { start_ms: now_ms, duration_ms: COOLDOWN_MS });
            true
        } else {
            self.consecutive_failures = self.consecutive_failures + 1;
            false
        }
    }
}

} // verus!
