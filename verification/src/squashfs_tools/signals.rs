use vstd::prelude::*;
use crate::error::SquashError;
use crate::text::concat;

verus! {

/// How one wait for a signal ended.
#[derive(Debug)]
pub enum WaitOutcome {
    /// The signal with this number arrived.
    Signal(i32),
    /// The wait timed out.
    TimedOut,
    /// The wait was interrupted.
    Interrupted,
    /// The wait failed, for the reason given.
    Failed(String),
}

/// What waiting for a signal does after one wait: give the signal, wait
/// again (a time-out also ends the second of waiting that a report
/// started), or fail.
pub fn after_wait(waiting: &mut bool, outcome: WaitOutcome) -> (r: Option<Result<i32, SquashError>>)
    ensures
        match outcome {
            WaitOutcome::Signal(s) => r == Some(Ok::<i32, SquashError>(s)) && *final(waiting) == *old(
                waiting,
            ),
            WaitOutcome::TimedOut => r is None && !*final(waiting),
            WaitOutcome::Interrupted => r is None && *final(waiting) == *old(waiting),
            WaitOutcome::Failed(m) => (r matches Some(Err(SquashError::Other(e))) && e@
                == "sigtimedwait/sigwaitinfo failed: "@ + m@) && *final(waiting) == *old(waiting),
        },
{
    match outcome {
        WaitOutcome::Signal(s) => Some(Ok(s)),
        WaitOutcome::TimedOut => {
            *waiting = false;
            None
        },
        WaitOutcome::Interrupted => None,
        WaitOutcome::Failed(m) => Some(Err(SquashError::Other(concat("sigtimedwait/sigwaitinfo failed: ", m.as_str())))),
    }
}

} // verus!
