use vstd::prelude::*;

use super::state::{spec_default_duration, SessionType, TimerState};

verus! {

/// What a timer is, as a value: its state, the kind of session it counts,
/// the seconds left and the seconds the session lasts.
pub struct TimerView {
    pub state: TimerState,
    pub session_type: SessionType,
    pub remaining: nat,
    pub total: nat,
}

impl TimerView {
    /// The seconds left never exceed the length of the session, which fits
    /// in a `u32`.
    pub open spec fn wf(self) -> bool {
        self.remaining <= self.total <= u32::MAX
    }

    /// An idle timer at the start of a session of `total` seconds.
    pub open spec fn fresh(session_type: SessionType, total: nat) -> TimerView {
        TimerView { state: TimerState::Idle, session_type, remaining: total, total }
    }

    /// The seconds of the session that have gone by.
    pub open spec fn elapsed(self) -> int {
        self.total - self.remaining
    }

    /// `start`: an idle timer begins to count; any other is left as it is.
    pub open spec fn started(self) -> TimerView {
        if self.state == TimerState::Idle {
            TimerView { state: TimerState::Running, ..self }
        } else {
            self
        }
    }

    /// `pause`: a running timer is held; any other is left as it is.
    pub open spec fn paused(self) -> TimerView {
        if self.state == TimerState::Running {
            TimerView { state: TimerState::Paused, ..self }
        } else {
            self
        }
    }

    /// `resume`: a held timer counts again; any other is left as it is.
    pub open spec fn resumed(self) -> TimerView {
        if self.state == TimerState::Paused {
            TimerView { state: TimerState::Running, ..self }
        } else {
            self
        }
    }

    /// `stop`: a running or held timer goes back to idle with the whole
    /// session ahead of it; an idle one is left as it is.
    pub open spec fn stopped(self) -> TimerView {
        if self.state != TimerState::Idle {
            self.rewound()
        } else {
            self
        }
    }

    /// `reset`: idle, with the whole session ahead.
    pub open spec fn rewound(self) -> TimerView {
        TimerView { state: TimerState::Idle, remaining: self.total, ..self }
    }

    /// One second of a running timer: one second fewer is left (never
    /// below zero), and a timer with nothing left is idle. A timer that is
    /// not running is left as it is.
    pub open spec fn ticked(self) -> TimerView {
        if self.state == TimerState::Running {
            let left: nat = if self.remaining > 0 {
                (self.remaining - 1) as nat
            } else {
                0
            };
            TimerView {
                state: if left == 0 {
                    TimerState::Idle
                } else {
                    TimerState::Running
                },
                remaining: left,
                ..self
            }
        } else {
            self
        }
    }

    /// The timer after `n` seconds.
    pub open spec fn ticked_n(self, n: nat) -> TimerView
        decreases n,
    {
        if n == 0 {
            self
        } else {
            self.ticked().ticked_n((n - 1) as nat)
        }
    }
}

/// A countdown over one session. The seconds left never exceed the length
/// of the session.
#[derive(Debug)]
pub struct Timer {
    state: TimerState,
    session_type: SessionType,
    remaining_secs: u32,
    total_secs: u32,
}

impl View for Timer {
    type V = TimerView;

    closed spec fn view(&self) -> TimerView {
        TimerView {
            state: self.state,
            session_type: self.session_type,
            remaining: self.remaining_secs as nat,
            total: self.total_secs as nat,
        }
    }
}

impl Timer {
    #[verifier::type_invariant]
    spec fn remaining_within_total(self) -> bool {
        self.remaining_secs <= self.total_secs
    }

    /// An idle timer for a session of the standard length of its kind.
    pub fn new(session_type: SessionType) -> (timer: Self)
        ensures
            timer@ == TimerView::fresh(session_type, spec_default_duration(session_type)),
    {
        let duration_in_secs = session_type.default_duration_in_secs();
        Self {
            state: TimerState::Idle,
            session_type,
            remaining_secs: duration_in_secs,
            total_secs: duration_in_secs,
        }
    }

    /// An idle timer for a session of the given length.
    pub fn with_duration(session_type: SessionType, duration_in_secs: u32) -> (timer: Self)
        ensures
            timer@ == TimerView::fresh(session_type, duration_in_secs as nat),
    {
        Self {
            state: TimerState::Idle,
            session_type,
            remaining_secs: duration_in_secs,
            total_secs: duration_in_secs,
        }
    }

    pub fn state(&self) -> (state: TimerState)
        ensures
            state == self@.state,
    {
        self.state
    }

    pub fn session_type(&self) -> (session_type: SessionType)
        ensures
            session_type == self@.session_type,
    {
        self.session_type
    }

    pub fn remaining_secs(&self) -> (secs: u32)
        ensures
            secs == self@.remaining,
            self@.wf(),
    {
        proof {
            use_type_invariant(self);
        }
        self.remaining_secs
    }

    pub fn total_secs(&self) -> (secs: u32)
        ensures
            secs == self@.total,
    {
        self.total_secs
    }

    /// The seconds of the session that have gone by.
    pub fn elapsed_secs(&self) -> (secs: u32)
        ensures
            secs == self@.elapsed(),
    {
        proof {
            use_type_invariant(self);
        }
        self.total_secs.saturating_sub(self.remaining_secs)
    }

    /// Whether no second of the session is left.
    pub fn is_finished(&self) -> (finished: bool)
        ensures
            finished == (self@.remaining == 0),
    {
        self.remaining_secs == 0
    }

    /// Begins to count down an idle timer; reports whether it did.
    pub fn start(&mut self) -> (changed: bool)
        ensures
            changed == (old(self)@.state == TimerState::Idle),
            final(self)@ == old(self)@.started(),
    {
        proof {
            use_type_invariant(&*self);
        }
        match self.state {
            TimerState::Idle => {
                self.state = TimerState::Running;
                true
            },
            TimerState::Running | TimerState::Paused => false,
        }
    }

    /// Holds a running timer; reports whether it did.
    pub fn pause(&mut self) -> (changed: bool)
        ensures
            changed == (old(self)@.state == TimerState::Running),
            final(self)@ == old(self)@.paused(),
    {
        proof {
            use_type_invariant(&*self);
        }
        match self.state {
            TimerState::Running => {
                self.state = TimerState::Paused;
                true
            },
            TimerState::Idle | TimerState::Paused => false,
        }
    }

    /// Lets a held timer count again; reports whether it did.
    pub fn resume(&mut self) -> (changed: bool)
        ensures
            changed == (old(self)@.state == TimerState::Paused),
            final(self)@ == old(self)@.resumed(),
    {
        proof {
            use_type_invariant(&*self);
        }
        match self.state {
            TimerState::Paused => {
                self.state = TimerState::Running;
                true
            },
            TimerState::Idle | TimerState::Running => false,
        }
    }

    /// Abandons a running or held session, putting the whole session back
    /// ahead; reports whether there was one to abandon.
    pub fn stop(&mut self) -> (changed: bool)
        ensures
            changed == (old(self)@.state != TimerState::Idle),
            final(self)@ == old(self)@.stopped(),
    {
        proof {
            use_type_invariant(&*self);
        }
        match self.state {
            TimerState::Running | TimerState::Paused => {
                self.state = TimerState::Idle;
                self.remaining_secs = self.total_secs;
                true
            },
            TimerState::Idle => false,
        }
    }

    /// Idle, with the whole session ahead, whatever the timer was doing.
    pub fn reset(&mut self)
        ensures
            final(self)@ == old(self)@.rewound(),
    {
        proof {
            use_type_invariant(&*self);
        }
        self.state = TimerState::Idle;
        self.remaining_secs = self.total_secs;
    }

    /// One second passes: a running timer counts down one second and goes
    /// idle when nothing is left. Reports whether the timer was running.
    pub fn tick(&mut self) -> (counted: bool)
        ensures
            counted == (old(self)@.state == TimerState::Running),
            final(self)@ == old(self)@.ticked(),
    {
        proof {
            use_type_invariant(&*self);
        }
        if self.state != TimerState::Running {
            return false;
        }
        if self.remaining_secs > 0 {
            self.remaining_secs = self.remaining_secs - 1;
        }
        if self.remaining_secs == 0 {
            self.state = TimerState::Idle;
        }
        true
    }

    /// Switches to a session of the given kind at its standard length, idle.
    pub fn set_session_type(&mut self, session_type: SessionType)
        ensures
            final(self)@ == TimerView::fresh(session_type, spec_default_duration(session_type)),
    {
        let duration_in_secs = session_type.default_duration_in_secs();
        *self = Self {
            state: TimerState::Idle,
            session_type,
            remaining_secs: duration_in_secs,
            total_secs: duration_in_secs,
        };
    }

    /// Sets the length of the session, idle with all of it ahead; the kind
    /// of session is kept.
    pub fn set_duration(&mut self, duration_in_secs: u32)
        ensures
            final(self)@ == TimerView::fresh(old(self)@.session_type, duration_in_secs as nat),
    {
        *self = Self {
            state: TimerState::Idle,
            session_type: self.session_type,
            remaining_secs: duration_in_secs,
            total_secs: duration_in_secs,
        };
    }
}

impl Clone for Timer {
    fn clone(&self) -> (copy: Self)
        ensures
            copy@ == self@,
    {
        proof {
            use_type_invariant(self);
        }
        Timer {
            state: self.state,
            session_type: self.session_type,
            remaining_secs: self.remaining_secs,
            total_secs: self.total_secs,
        }
    }
}

impl Default for Timer {
    /// An idle timer for a standard work session.
    fn default() -> (timer: Self)
        ensures
            timer@ == TimerView::fresh(SessionType::Work, spec_default_duration(SessionType::Work)),
    {
        Self::new(SessionType::Work)
    }
}

} // verus!
