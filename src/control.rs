//! The control loop that supervises one acquisition session at a time.
//!
//! The loop is a state machine: its owner performs each [`Action`] that a step
//! returns (opening or closing a session, waiting one poll interval) and feeds
//! back what happened as the next [`Event`]. A new session is opened only once
//! the previous one has fully closed.
use vstd::prelude::*;

verus! {

/// Where the control loop stands.
#[derive(Debug, Clone, Copy, PartialEq, Eq, Structural)]
pub enum LoopState {
    /// No session exists.
    Stopped,
    /// The first session is being opened.
    Starting,
    /// One session is open and the frequency register is polled.
    Running,
    /// The session is being replaced by one at a new frequency.
    Retuning,
    /// The last session is being closed.
    Stopping,
}

/// What the owner of the loop observed.
#[derive(Debug, Clone, Copy, PartialEq, Eq, Structural)]
pub enum Event {
    /// `start()` was called; the frequency register holds `khz`.
    Start { khz: u32 },
    /// The session asked for by the last `Open` is open.
    Opened,
    /// The session asked for by the last `Open` could not be opened.
    OpenFailed,
    /// One poll interval passed; the frequency register holds `khz`.
    Poll { khz: u32 },
    /// The session asked for by the last `Close` has closed and all its
    /// workers have ended.
    Closed,
    /// `stop()` was called.
    Stop,
}

/// What the owner of the loop must do next.
#[derive(Debug, Clone, Copy, PartialEq, Eq, Structural)]
pub enum Action {
    /// Open a session tuned to `khz`, then report `Opened` or `OpenFailed`.
    Open { khz: u32 },
    /// Close the session, wait for its teardown, then report `Closed`.
    Close,
    /// Sleep one poll interval, then report `Poll` (or `Stop`).
    Wait,
    /// Report that no session could be opened; the loop has stopped.
    Abort,
    /// Nothing; wait for the next call.
    Idle,
}

/// The state of the control loop.
#[derive(Debug, Clone, Copy, PartialEq, Eq, Structural)]
pub struct ControlLoop {
    /// Where the loop stands.
    pub state: LoopState,
    /// Frequency, in kHz, of the session that exists (open, or closing).
    pub session: Option<u32>,
    /// Frequency, in kHz, of the session that is to be opened next.
    pub pending: Option<u32>,
    /// `stop()` was called since the last `start()`.
    pub stop_requested: bool,
}

impl ControlLoop {
    /// The fields agree with the state.
    pub open spec fn wf(self) -> bool {
        match self.state {
            LoopState::Stopped => self.session is None && self.pending is None,
            LoopState::Starting => self.session is None && self.pending is Some,
            LoopState::Running => self.session is Some && self.pending is None
                && !self.stop_requested,
            LoopState::Retuning => self.pending is Some,
            LoopState::Stopping => self.session is Some && self.pending is None
                && self.stop_requested,
        }
    }

    /// The loop after a session at `khz` opened, and what to do next.
    pub open spec fn after_open(self, khz: u32) -> (ControlLoop, Action) {
        if self.stop_requested {
            (
                ControlLoop {
                    state: LoopState::Stopping,
                    session: Some(khz),
                    pending: None,
                    ..self
                },
                Action::Close,
            )
        } else {
            (
                ControlLoop {
                    state: LoopState::Running,
                    session: Some(khz),
                    pending: None,
                    ..self
                },
                Action::Wait,
            )
        }
    }

    /// The loop after a failure to open a session.
    pub open spec fn after_failure(self) -> (ControlLoop, Action) {
        (
            ControlLoop { state: LoopState::Stopped, session: None, pending: None, ..self },
            Action::Abort,
        )
    }

    /// One step of the loop: its state after event `e`, and the action to take.
    pub open spec fn next(self, e: Event) -> (ControlLoop, Action) {
        match (self.state, e) {
            (LoopState::Stopped, Event::Start { khz }) => (
                ControlLoop {
                    state: LoopState::Starting,
                    session: None,
                    pending: Some(khz),
                    stop_requested: false,
                },
                Action::Open { khz },
            ),
            (LoopState::Starting, Event::Opened) => self.after_open(self.pending->0),
            (LoopState::Starting, Event::OpenFailed) => self.after_failure(),
            (LoopState::Running, Event::Poll { khz }) => {
                if self.session == Some(khz) {
                    (self, Action::Wait)
                } else {
                    (
                        ControlLoop { state: LoopState::Retuning, pending: Some(khz), ..self },
                        Action::Close,
                    )
                }
            },
            (LoopState::Running, Event::Stop) => (
                ControlLoop { state: LoopState::Stopping, stop_requested: true, ..self },
                Action::Close,
            ),
            (LoopState::Retuning, Event::Closed) => {
                if self.session is None {
                    (self, Action::Idle)
                } else if self.stop_requested {
                    (
                        ControlLoop {
                            state: LoopState::Stopped,
                            session: None,
                            pending: None,
                            ..self
                        },
                        Action::Idle,
                    )
                } else {
                    (
                        ControlLoop { session: None, ..self },
                        Action::Open { khz: self.pending->0 },
                    )
                }
            },
            (LoopState::Retuning, Event::Opened) => {
                if self.session is None {
                    self.after_open(self.pending->0)
                } else {
                    (self, Action::Idle)
                }
            },
            (LoopState::Retuning, Event::OpenFailed) => {
                if self.session is None {
                    self.after_failure()
                } else {
                    (self, Action::Idle)
                }
            },
            (LoopState::Stopping, Event::Closed) => (
                ControlLoop { state: LoopState::Stopped, session: None, ..self },
                Action::Idle,
            ),
            (_, Event::Stop) => (ControlLoop { stop_requested: true, ..self }, Action::Idle),
            _ => (self, Action::Idle),
        }
    }

    /// A stopped loop with no session.
    pub fn new() -> (r: ControlLoop)
        ensures
            r.wf(),
            r.state == LoopState::Stopped,
            !r.stop_requested,
    {
        ControlLoop {
            state: LoopState::Stopped,
            session: None,
            pending: None,
            stop_requested: false,
        }
    }

    /// Frequency, in kHz, of the session that exists, if any.
    pub fn tuned_khz(&self) -> (r: Option<u32>)
        ensures
            r == self.session,
    {
        self.session
    }

    /// Takes one step: moves to the next state for `e` and returns the action
    /// that its owner must take. A session is opened only where none exists,
    /// and closed only where one does.
    pub fn step(&mut self, e: Event) -> (a: Action)
        requires
            old(self).wf(),
        ensures
            (*final(self), a) == old(self).next(e),
            final(self).wf(),
            a is Open ==> final(self).session is None && final(self).pending == Some(
                a->Open_khz,
            ),
            a is Open ==> old(self).session is None || e == Event::Closed,
            a is Close ==> final(self).session is Some,
    {
        let s = *self;
        let (n, a) = match (s.state, e) {
            (LoopState::Stopped, Event::Start { khz }) => (
                ControlLoop {
                    state: LoopState::Starting,
                    session: None,
                    pending: Some(khz),
                    stop_requested: false,
                },
                Action::Open { khz },
            ),
            (LoopState::Starting, Event::Opened) => s.open_done(),
            (LoopState::Starting, Event::OpenFailed) => s.open_failed(),
            (LoopState::Running, Event::Poll { khz }) => {
                if s.session == Some(khz) {
                    (s, Action::Wait)
                } else {
                    (
                        ControlLoop { state: LoopState::Retuning, pending: Some(khz), ..s },
                        Action::Close,
                    )
                }
            },
            (LoopState::Running, Event::Stop) => (
                ControlLoop { state: LoopState::Stopping, stop_requested: true, ..s },
                Action::Close,
            ),
            (LoopState::Retuning, Event::Closed) => {
                if s.session.is_none() {
                    (s, Action::Idle)
                } else if s.stop_requested {
                    (
                        ControlLoop {
                            state: LoopState::Stopped,
                            session: None,
                            pending: None,
                            ..s
                        },
                        Action::Idle,
                    )
                } else {
                    let khz = s.pending.unwrap();
                    (ControlLoop { session: None, ..s }, Action::Open { khz })
                }
            },
            (LoopState::Retuning, Event::Opened) => {
                if s.session.is_none() {
                    s.open_done()
                } else {
                    (s, Action::Idle)
                }
            },
            (LoopState::Retuning, Event::OpenFailed) => {
                if s.session.is_none() {
                    s.open_failed()
                } else {
                    (s, Action::Idle)
                }
            },
            (LoopState::Stopping, Event::Closed) => (
                ControlLoop { state: LoopState::Stopped, session: None, ..s },
                Action::Idle,
            ),
            (_, Event::Stop) => (ControlLoop { stop_requested: true, ..s }, Action::Idle),
            _ => (s, Action::Idle),
        };
        *self = n;
        a
    }

    fn open_done(self) -> (r: (ControlLoop, Action))
        requires
            self.pending is Some,
        ensures
            r == self.after_open(self.pending->0),
    {
        let khz = self.pending.unwrap();
        if self.stop_requested {
            (
                ControlLoop {
                    state: LoopState::Stopping,
                    session: Some(khz),
                    pending: None,
                    ..self
                },
                Action::Close,
            )
        } else {
            (
                ControlLoop {
                    state: LoopState::Running,
                    session: Some(khz),
                    pending: None,
                    ..self
                },
                Action::Wait,
            )
        }
    }

    fn open_failed(self) -> (r: (ControlLoop, Action))
        ensures
            r == self.after_failure(),
    {
        (
            ControlLoop { state: LoopState::Stopped, session: None, pending: None, ..self },
            Action::Abort,
        )
    }
}

/// Polling the same frequency twice retunes at most once: a poll of the
/// frequency that the session is tuned to changes nothing, and a poll of
/// another one, once its retune completes, leaves a session tuned to it that
/// the next poll of that frequency leaves alone.
pub proof fn repeated_frequency_retunes_at_most_once(s: ControlLoop, khz: u32)
    requires
        s.wf(),
        s.state == LoopState::Running,
    ensures
        ({
            let (s1, a1) = s.next(Event::Poll { khz });
            if s.session == Some(khz) {
                s1 == s && a1 == Action::Wait
            } else {
                let (s2, a2) = s1.next(Event::Closed);
                let (s3, a3) = s2.next(Event::Opened);
                &&& a1 == Action::Close
                &&& a2 == (Action::Open { khz })
                &&& a3 == Action::Wait
                &&& s3.state == LoopState::Running
                &&& s3.session == Some(khz)
                &&& s3.next(Event::Poll { khz }) == (s3, Action::Wait)
            }
        }),
{
}

/// Once `stop()` was called, no step opens a session until the next `start()`.
pub proof fn no_session_opens_after_stop(s: ControlLoop, e: Event)
    requires
        s.wf(),
        s.stop_requested,
        !(e is Start),
    ensures
        !(s.next(e).1 is Open),
        s.next(e).0.stop_requested,
{
}

/// Stopping a running loop closes its session and leaves the loop stopped
/// with no session.
pub proof fn stop_leaves_no_session(s: ControlLoop)
    requires
        s.wf(),
        s.state == LoopState::Running,
    ensures
        ({
            let (s1, a1) = s.next(Event::Stop);
            let (s2, a2) = s1.next(Event::Closed);
            &&& a1 == Action::Close
            &&& a2 == Action::Idle
            &&& s2.state == LoopState::Stopped
            &&& s2.session is None
            &&& s2.pending is None
        }),
{
}

} // verus!
