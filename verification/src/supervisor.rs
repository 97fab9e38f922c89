//! When a hub's monitor is started again.

use vstd::prelude::*;

verus! {

/// What happened to one attempt at monitoring a hub.
#[derive(Clone, Copy, Debug, PartialEq, Eq, Structural)]
pub enum Attempt {
    /// The hub's settings could not be read.
    LookupFailed,
    /// The hub is no longer among the settings.
    HubMissing,
    /// The monitor returned without error.
    Completed,
    /// The monitor returned an error.
    Failed,
    /// The monitor's task panicked.
    Panicked,
}

/// What the supervisor does after an attempt.
#[derive(Clone, Copy, Debug, PartialEq, Eq, Structural)]
pub enum Restart {
    /// Wait so many seconds, read the hub's settings afresh, and try again.
    After { seconds: u64 },
    /// Leave the hub alone.
    Never,
}

/// Seconds to wait after a failure.
pub const ERROR_BACKOFF_SECS: u64 = 5;

/// Seconds to wait while a hub is missing.
pub const MISSING_HUB_BACKOFF_SECS: u64 = 10;

/// The supervisor's rule: a monitor that ended cleanly is not started
/// again; a missing hub is looked for again after the longer pause, and
/// everything else is tried again after the shorter one.
pub open spec fn restart_rule(attempt: Attempt) -> Restart {
    match attempt {
        Attempt::Completed => Restart::Never,
        Attempt::HubMissing => Restart::After { seconds: MISSING_HUB_BACKOFF_SECS },
        _ => Restart::After { seconds: ERROR_BACKOFF_SECS },
    }
}

/// Decides whether and when a hub is monitored again.
pub fn restart_after(attempt: Attempt) -> (restart: Restart)
    ensures
        restart == restart_rule(attempt),
{
    match attempt {
        Attempt::Completed => Restart::Never,
        Attempt::HubMissing => Restart::After { seconds: MISSING_HUB_BACKOFF_SECS },
        _ => Restart::After { seconds: ERROR_BACKOFF_SECS },
    }
}

} // verus!
