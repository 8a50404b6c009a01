//! The user's preferences.
use vstd::prelude::*;

verus! {

pub const DEFAULT_WORK_DURATION_IN_SECS: u32 = 25 * 60;

pub const DEFAULT_SHORT_BREAK_DURATION_IN_SECS: u32 = 5 * 60;

pub const DEFAULT_LONG_BREAK_DURATION_IN_SECS: u32 = 15 * 60;

pub const DEFAULT_SESSIONS_UNTIL_LONG_BREAK: u32 = 4;

/// Session lengths, how many work sessions come before a long break, what
/// starts by itself, and whether sounds and notifications are on.
#[derive(Debug, Clone, PartialEq, Eq, Structural)]
pub struct Settings {
    pub work_duration_in_secs: u32,
    pub short_break_duration_in_secs: u32,
    pub long_break_duration_in_secs: u32,
    pub sessions_until_long_break: u32,
    pub auto_start_breaks: bool,
    pub auto_start_work: bool,
    pub sound_enabled: bool,
    pub notifications_enabled: bool,
}

/// The preferences of a fresh install: 25 minutes of work, 5 minute short
/// breaks, 15 minute long breaks after every 4 work sessions, nothing
/// starting by itself, sounds and notifications on.
pub open spec fn default_settings() -> Settings {
    Settings {
        work_duration_in_secs: 1500,
        short_break_duration_in_secs: 300,
        long_break_duration_in_secs: 900,
        sessions_until_long_break: 4,
        auto_start_breaks: false,
        auto_start_work: false,
        sound_enabled: true,
        notifications_enabled: true,
    }
}

impl Default for Settings {
    fn default() -> (settings: Self)
        ensures
            settings == default_settings(),
    {
        Self {
            work_duration_in_secs: DEFAULT_WORK_DURATION_IN_SECS,
            short_break_duration_in_secs: DEFAULT_SHORT_BREAK_DURATION_IN_SECS,
            long_break_duration_in_secs: DEFAULT_LONG_BREAK_DURATION_IN_SECS,
            sessions_until_long_break: DEFAULT_SESSIONS_UNTIL_LONG_BREAK,
            auto_start_breaks: false,
            auto_start_work: false,
            sound_enabled: true,
            notifications_enabled: true,
        }
    }
}

impl Settings {
    /// The saved preferences, or the defaults when none could be read.
    pub fn from_stored(stored: Option<Settings>) -> (settings: Settings)
        ensures
            settings == match stored {
                Some(s) => s,
                None => default_settings(),
            },
    {
        match stored {
            Some(s) => s,
            None => Settings::default(),
        }
    }
}

} // verus!
