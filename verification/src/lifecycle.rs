//! Stopping a running game: graceful first, force as the fallback.
use vstd::prelude::*;

verus! {

/// Seconds the game gets to exit after the graceful signal.
pub const GRACE_SECS: u64 = 20;

/// How a game process was stopped.
#[derive(Debug, Clone, PartialEq)]
pub struct StopOutcome {
    pub pid: u32,
    /// Whether the graceful signal alone was enough.
    pub graceful: bool,
}

/// What the stop procedure does next.
#[derive(Debug, Clone, Copy, PartialEq, Eq, Structural)]
pub enum StopStep {
    /// The process exited after the graceful signal.
    Done,
    /// Keep waiting for the process to exit.
    Wait,
    /// Kill the process.
    Kill,
}

/// One decision of the stop procedure: under `force`, or when no graceful
/// signal could be sent, kill at once; otherwise wait within the grace
/// window for the process to exit, and kill once it has passed.
pub fn stop_step(force: bool, signalled: bool, alive: bool, elapsed_secs: u64) -> (s: StopStep)
    ensures
        s == if force || !signalled {
            StopStep::Kill
        } else if !alive {
            StopStep::Done
        } else if elapsed_secs < GRACE_SECS {
            StopStep::Wait
        } else {
            StopStep::Kill
        },
{
    if force || !signalled {
        StopStep::Kill
    } else if !alive {
        StopStep::Done
    } else if elapsed_secs < GRACE_SECS {
        StopStep::Wait
    } else {
        StopStep::Kill
    }
}

} // verus!
