//! The decisions behind the timer commands: what one second of the tick
//! loop does, and what the user is told when a session ends.
use vstd::prelude::*;

use crate::settings::Settings;
use crate::timer::{SessionType, Timer, TimerState};

verus! {

/// What one pass of the tick loop came to.
#[derive(Debug, Clone, Copy, PartialEq, Eq, Structural)]
pub enum TickOutcome {
    /// The timer was not running: the loop ends without counting.
    Halted,
    /// A second was counted and some of the session is left.
    Ticked,
    /// A second was counted and the session is over: the loop ends.
    Finished,
}

/// One second of the tick loop: a running timer counts down one second;
/// a timer that is not running stops the loop untouched.
pub fn tick_loop_step(timer: &mut Timer) -> (outcome: TickOutcome)
    ensures
        old(timer)@.state != TimerState::Running ==> outcome == TickOutcome::Halted
            && final(timer)@ == old(timer)@,
        old(timer)@.state == TimerState::Running ==> {
            &&& final(timer)@ == old(timer)@.ticked()
            &&& outcome == if final(timer)@.remaining == 0 {
                TickOutcome::Finished
            } else {
                TickOutcome::Ticked
            }
        },
{
    if timer.state() != TimerState::Running {
        return TickOutcome::Halted;
    }
    timer.tick();
    if timer.is_finished() {
        TickOutcome::Finished
    } else {
        TickOutcome::Ticked
    }
}

/// The title and body of the notice that a session of the given kind is
/// over.
pub open spec fn notice_text(session_type: SessionType) -> (Seq<char>, Seq<char>) {
    match session_type {
        SessionType::Work => ("Work Session Complete"@, "Great job! Time to take a break."@),
        SessionType::ShortBreak => ("Break Over"@, "Ready to focus? Start your next session."@),
        SessionType::LongBreak => (
            "Long Break Over"@,
            "Feeling refreshed? Let's get back to work."@,
        ),
    }
}

/// The notice to show when a session of the given kind ends: none when
/// notifications are off, otherwise its title and body.
pub fn completion_notice(settings: &Settings, session_type: SessionType) -> (notice: Option<
    (String, String),
>)
    ensures
        notice is None <==> !settings.notifications_enabled,
        notice matches Some((title, body)) ==> title@ == notice_text(session_type).0 && body@
            == notice_text(session_type).1,
{
    if !settings.notifications_enabled {
        return None;
    }
    let (title, body) = match session_type {
        SessionType::Work => ("Work Session Complete", "Great job! Time to take a break."),
        SessionType::ShortBreak => ("Break Over", "Ready to focus? Start your next session."),
        SessionType::LongBreak => (
            "Long Break Over",
            "Feeling refreshed? Let's get back to work.",
        ),
    };
    Some((title.to_owned(), body.to_owned()))
}

} // verus!
