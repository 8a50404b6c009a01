use vstd::prelude::*;

verus! {

/// Where a timer stands: not counting, counting down, or held.
#[derive(Debug, Clone, Copy, Default, PartialEq, Eq, Structural)]
pub enum TimerState {
    #[default]
    Idle,
    Running,
    Paused,
}

/// The three kinds of Pomodoro session.
#[derive(Debug, Clone, Copy, Default, PartialEq, Eq, Structural)]
pub enum SessionType {
    #[default]
    Work,
    ShortBreak,
    LongBreak,
}

/// The standard length of a session of the given kind, in seconds.
pub open spec fn spec_default_duration(session_type: SessionType) -> nat {
    match session_type {
        SessionType::Work => 1500,
        SessionType::ShortBreak => 300,
        SessionType::LongBreak => 900,
    }
}

impl SessionType {
    pub const WORK_DURATION_IN_SECS: u32 = 25 * 60;

    pub const SHORT_BREAK_DURATION_IN_SECS: u32 = 5 * 60;

    pub const LONG_BREAK_DURATION_IN_SECS: u32 = 15 * 60;

    /// The standard length of a session of this kind: 25 minutes of work,
    /// a 5 minute short break or a 15 minute long break.
    pub fn default_duration_in_secs(self) -> (secs: u32)
        ensures
            secs == spec_default_duration(self),
    {
        match self {
            Self::Work => Self::WORK_DURATION_IN_SECS,
            Self::ShortBreak => Self::SHORT_BREAK_DURATION_IN_SECS,
            Self::LongBreak => Self::LONG_BREAK_DURATION_IN_SECS,
        }
    }
}

} // verus!
