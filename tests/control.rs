use sdr_gain_tool::control::{Action, ControlLoop, Event, LoopState};
use sdr_gain_tool::dsp::INITIAL_LEVEL;
use sdr_gain_tool::frequency::{validate_khz, DEFAULT_KHZ};

fn running_at(khz: u32) -> ControlLoop {
    let mut c = ControlLoop::new();
    assert_eq!(c.step(Event::Start { khz }), Action::Open { khz });
    assert_eq!(c.step(Event::Opened), Action::Wait);
    assert_eq!(c.state, LoopState::Running);
    c
}

#[test]
fn start_opens_session_at_register_frequency() {
    assert_eq!(INITIAL_LEVEL, 0);
    let mut c = ControlLoop::new();
    assert_eq!(c.state, LoopState::Stopped);
    assert_eq!(c.tuned_khz(), None);
    assert_eq!(c.step(Event::Start { khz: DEFAULT_KHZ }), Action::Open { khz: 145_000 });
    assert_eq!(c.state, LoopState::Starting);
    assert_eq!(c.step(Event::Opened), Action::Wait);
    assert_eq!(c.tuned_khz(), Some(145_000));
}

#[test]
fn unchanged_frequency_keeps_polling() {
    let mut c = running_at(145_000);
    for _ in 0..5 {
        assert_eq!(c.step(Event::Poll { khz: 145_000 }), Action::Wait);
    }
    assert_eq!(c.tuned_khz(), Some(145_000));
}

#[test]
fn same_frequency_twice_retunes_once() {
    let mut c = running_at(145_000);
    assert_eq!(c.step(Event::Poll { khz: 433_000 }), Action::Close);
    assert_eq!(c.state, LoopState::Retuning);
    assert_eq!(c.step(Event::Closed), Action::Open { khz: 433_000 });
    assert_eq!(c.tuned_khz(), None);
    assert_eq!(c.step(Event::Opened), Action::Wait);
    assert_eq!(c.tuned_khz(), Some(433_000));
    assert_eq!(c.step(Event::Poll { khz: 433_000 }), Action::Wait);
    assert_eq!(c.state, LoopState::Running);
}

#[test]
fn rejected_frequency_leaves_session_tuned() {
    let mut c = running_at(145_000);
    let mut register = 145_000u32;
    if let Ok(khz) = validate_khz(2_000_000) {
        register = khz;
    }
    assert_eq!(register, 145_000);
    assert_eq!(c.step(Event::Poll { khz: register }), Action::Wait);
    assert_eq!(c.tuned_khz(), Some(145_000));
}

#[test]
fn stop_closes_session() {
    let mut c = running_at(145_000);
    assert_eq!(c.step(Event::Stop), Action::Close);
    assert_eq!(c.state, LoopState::Stopping);
    assert_eq!(c.step(Event::Closed), Action::Idle);
    assert_eq!(c.state, LoopState::Stopped);
    assert_eq!(c.tuned_khz(), None);
    assert_eq!(c.step(Event::Stop), Action::Idle);
    assert_eq!(c.state, LoopState::Stopped);
}

#[test]
fn stop_while_starting_closes_once_open() {
    let mut c = ControlLoop::new();
    c.step(Event::Start { khz: 145_000 });
    assert_eq!(c.step(Event::Stop), Action::Idle);
    assert_eq!(c.step(Event::Opened), Action::Close);
    assert_eq!(c.step(Event::Closed), Action::Idle);
    assert_eq!(c.state, LoopState::Stopped);
}

#[test]
fn stop_while_retuning_opens_nothing() {
    let mut c = running_at(145_000);
    assert_eq!(c.step(Event::Poll { khz: 146_000 }), Action::Close);
    assert_eq!(c.step(Event::Stop), Action::Idle);
    assert_eq!(c.step(Event::Closed), Action::Idle);
    assert_eq!(c.state, LoopState::Stopped);
    assert_eq!(c.tuned_khz(), None);
}

#[test]
fn failure_to_open_aborts() {
    let mut c = ControlLoop::new();
    c.step(Event::Start { khz: 145_000 });
    assert_eq!(c.step(Event::OpenFailed), Action::Abort);
    assert_eq!(c.state, LoopState::Stopped);
    let mut r = running_at(145_000);
    r.step(Event::Poll { khz: 146_000 });
    r.step(Event::Closed);
    assert_eq!(r.step(Event::OpenFailed), Action::Abort);
    assert_eq!(r.state, LoopState::Stopped);
}

#[test]
fn restart_after_stop() {
    let mut c = running_at(145_000);
    c.step(Event::Stop);
    c.step(Event::Closed);
    assert_eq!(c.step(Event::Start { khz: 146_000 }), Action::Open { khz: 146_000 });
    assert!(!c.stop_requested);
    assert_eq!(c.step(Event::Opened), Action::Wait);
    assert_eq!(c.tuned_khz(), Some(146_000));
}
