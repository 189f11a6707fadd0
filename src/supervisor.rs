//! Graceful-then-forced termination of a child process.
//!
//! The owner interrupts the child, then reports after each interval whether it
//! is still alive; after a bounded number of re-checks it is killed.
use vstd::prelude::*;

verus! {

/// Number of liveness re-checks after the interrupt before the child is killed.
pub const MAX_LIVENESS_CHECKS: u32 = 20;

/// Milliseconds between two liveness checks.
pub const CHECK_INTERVAL_MS: u64 = 100;

/// What the owner of a terminating child must do next.
#[derive(Debug, Clone, Copy, PartialEq, Eq, Structural)]
pub enum TerminationAction {
    /// Send the child an interrupt signal, then report whether it is alive.
    Interrupt,
    /// Sleep one check interval, then report whether it is alive.
    CheckAgain,
    /// Kill the child and reap it.
    Kill,
    /// The child has exited; nothing is left to do.
    Done,
}

/// Progress of the termination of one child.
#[derive(Debug, Clone, Copy, PartialEq, Eq, Structural)]
pub struct Termination {
    /// Liveness re-checks made so far.
    pub checks: u32,
    /// The child has exited or was killed.
    pub finished: bool,
}

impl Termination {
    /// The progress agrees with the bound.
    pub open spec fn wf(self) -> bool {
        self.checks <= MAX_LIVENESS_CHECKS
    }

    /// The progress after the owner reports `alive`, and what to do next.
    pub open spec fn next(self, alive: bool) -> (Termination, TerminationAction) {
        if !alive {
            (Termination { finished: true, ..self }, TerminationAction::Done)
        } else if self.checks < MAX_LIVENESS_CHECKS {
            (Termination { checks: (self.checks + 1) as u32, ..self }, TerminationAction::CheckAgain)
        } else {
            (Termination { finished: true, ..self }, TerminationAction::Kill)
        }
    }

    /// Starts terminating a child: it is to be interrupted first.
    pub fn begin() -> (r: (Termination, TerminationAction))
        ensures
            r.0.wf(),
            r.0.checks == 0,
            !r.0.finished,
            r.1 == TerminationAction::Interrupt,
    {
        (Termination { checks: 0, finished: false }, TerminationAction::Interrupt)
    }

    /// Takes the owner's report on whether the child is alive and returns what
    /// to do next.
    pub fn observe(&mut self, alive: bool) -> (a: TerminationAction)
        requires
            old(self).wf(),
            !old(self).finished,
        ensures
            (*final(self), a) == old(self).next(alive),
            final(self).wf(),
    {
        if !alive {
            self.finished = true;
            TerminationAction::Done
        } else if self.checks < MAX_LIVENESS_CHECKS {
            self.checks = self.checks + 1;
            TerminationAction::CheckAgain
        } else {
            self.finished = true;
            TerminationAction::Kill
        }
    }
}

/// The progress after the child was reported alive `n` times in a row.
pub open spec fn after_alive_reports(t: Termination, n: nat) -> (Termination, TerminationAction)
    decreases n,
{
    if n <= 1 {
        t.next(true)
    } else {
        after_alive_reports(t.next(true).0, (n - 1) as nat)
    }
}

/// A child that never exits is killed at the latest when it has been reported
/// alive once more than the number of allowed re-checks.
pub proof fn termination_is_bounded(t: Termination)
    requires
        t.wf(),
    ensures
        after_alive_reports(t, (MAX_LIVENESS_CHECKS - t.checks + 1) as nat).1
            == TerminationAction::Kill,
        after_alive_reports(t, (MAX_LIVENESS_CHECKS - t.checks + 1) as nat).0.finished,
    decreases MAX_LIVENESS_CHECKS - t.checks,
{
    if t.checks < MAX_LIVENESS_CHECKS {
        termination_is_bounded(t.next(true).0);
    }
}

} // verus!
