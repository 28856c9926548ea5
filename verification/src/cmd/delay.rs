//! The decisions of the delay countdown: a window counts down to a
//! deadline and lets the user abort. Only the timer arithmetic lives here;
//! showing the window is the caller's business.
use vstd::prelude::*;

verus! {

/// What the countdown does on a timer event.
#[derive(Debug, PartialEq, Eq, Structural)]
pub enum CountdownStep {
    /// Keep waiting and show this many whole seconds until the deadline.
    Continue { countdown: u64 },
    /// The deadline has passed; the delay is over.
    Elapsed,
}

/// The timer decision: with the deadline still ahead, keep counting and
/// show the remaining whole seconds; otherwise the delay has elapsed.
/// Instants are in milliseconds of a monotonic clock.
pub fn countdown_step(now_ms: u64, deadline_ms: u64) -> (s: CountdownStep)
    ensures
        now_ms < deadline_ms ==> s == (CountdownStep::Continue {
            countdown: ((deadline_ms - now_ms) / 1000) as u64,
        }),
        now_ms >= deadline_ms ==> s == CountdownStep::Elapsed,
{
    if now_ms < deadline_ms {
        CountdownStep::Continue { countdown: (deadline_ms - now_ms) / 1000 }
    } else {
        CountdownStep::Elapsed
    }
}

/// The process exit code of the delay: `0` when the countdown elapsed,
/// `1` when the user aborted it.
pub fn delay_exit_code(aborted: bool) -> (code: u8)
    ensures
        code == (if aborted {
            1int
        } else {
            0int
        }),
{
    if aborted {
        1
    } else {
        0
    }
}

} // verus!
