use sdr_gain_tool::supervisor::{Termination, TerminationAction, MAX_LIVENESS_CHECKS};

#[test]
fn child_that_exits_is_done() {
    let (mut t, a) = Termination::begin();
    assert_eq!(a, TerminationAction::Interrupt);
    assert_eq!(t.observe(true), TerminationAction::CheckAgain);
    assert_eq!(t.observe(false), TerminationAction::Done);
    assert!(t.finished);
}

#[test]
fn child_that_lingers_is_killed() {
    let (mut t, _) = Termination::begin();
    for _ in 0..MAX_LIVENESS_CHECKS {
        assert_eq!(t.observe(true), TerminationAction::CheckAgain);
    }
    assert_eq!(t.observe(true), TerminationAction::Kill);
    assert!(t.finished);
    assert_eq!(t.checks, MAX_LIVENESS_CHECKS);
}
