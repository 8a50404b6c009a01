use vstd::prelude::*;

use super::machine::TimerView;
use super::state::{SessionType, TimerState};

verus! {

/// Every transition keeps the seconds left within the length of the
/// session, and a fresh timer starts within it.
pub proof fn lemma_transitions_keep_wf(v: TimerView, session_type: SessionType, total: nat)
    requires
        v.wf(),
        total <= u32::MAX,
    ensures
        TimerView::fresh(session_type, total).wf(),
        v.started().wf(),
        v.paused().wf(),
        v.resumed().wf(),
        v.stopped().wf(),
        v.rewound().wf(),
        v.ticked().wf(),
{
}

/// No transition changes the kind or the length of the session. Start,
/// pause and resume leave the seconds left alone; stop (of a running or
/// held timer) and reset leave the timer idle with the whole session
/// ahead. A fresh timer is idle with the given kind and all of its length
/// ahead.
pub proof fn lemma_transitions_keep_session(v: TimerView, session_type: SessionType, total: nat)
    ensures
        v.started().session_type == v.session_type && v.started().total == v.total,
        v.paused().session_type == v.session_type && v.paused().total == v.total,
        v.resumed().session_type == v.session_type && v.resumed().total == v.total,
        v.stopped().session_type == v.session_type && v.stopped().total == v.total,
        v.rewound().session_type == v.session_type && v.rewound().total == v.total,
        v.ticked().session_type == v.session_type && v.ticked().total == v.total,
        v.started().remaining == v.remaining,
        v.paused().remaining == v.remaining,
        v.resumed().remaining == v.remaining,
        v.rewound().state == TimerState::Idle && v.rewound().remaining == v.total,
        v.state != TimerState::Idle ==> v.stopped().state == TimerState::Idle
            && v.stopped().remaining == v.total,
        v.state == TimerState::Idle ==> v.stopped() == v,
        ({
            let f = TimerView::fresh(session_type, total);
            &&& f.state == TimerState::Idle
            &&& f.session_type == session_type
            &&& f.remaining == total
            &&& f.total == total
        }),
{
}

/// `start`, `pause`, `resume` and `stop` each report `true` exactly when
/// they change the timer's state.
pub proof fn lemma_report_iff_state_changes(v: TimerView)
    ensures
        (v.state == TimerState::Idle) == (v.started().state != v.state),
        (v.state == TimerState::Running) == (v.paused().state != v.state),
        (v.state == TimerState::Paused) == (v.resumed().state != v.state),
        (v.state != TimerState::Idle) == (v.stopped().state != v.state),
{
}

/// A running timer with `r > 0` seconds left counts down one second per
/// tick, and after exactly `r` ticks it is finished and idle; further ticks
/// change nothing.
pub proof fn lemma_countdown(v: TimerView, n: nat)
    requires
        v.state == TimerState::Running,
        v.remaining > 0,
    ensures
        v.ticked_n(n) == (if n < v.remaining {
            TimerView { remaining: (v.remaining - n) as nat, ..v }
        } else {
            TimerView { state: TimerState::Idle, remaining: 0, ..v }
        }),
    decreases n,
{
    if n > 0 {
        let w = v.ticked();
        if v.remaining > 1 {
            lemma_countdown(w, (n - 1) as nat);
        } else {
            lemma_idle_ignores_ticks(w, (n - 1) as nat);
        }
    }
}

/// A timer that is not running does not count.
pub proof fn lemma_idle_ignores_ticks(v: TimerView, n: nat)
    requires
        v.state != TimerState::Running,
    ensures
        v.ticked_n(n) == v,
    decreases n,
{
    if n > 0 {
        lemma_idle_ignores_ticks(v.ticked(), (n - 1) as nat);
    }
}

/// Pausing a running timer, letting any number of seconds pass and then
/// resuming it gives back the timer as it was: held time does not count.
pub proof fn lemma_pause_resume_round_trip(v: TimerView, n: nat)
    requires
        v.state == TimerState::Running,
    ensures
        v.paused().ticked_n(n).resumed() == v,
{
    lemma_idle_ignores_ticks(v.paused(), n);
}

/// Starting an idle timer and stopping it again is the same as resetting
/// it; stopping or resetting twice is the same as doing it once.
pub proof fn lemma_stop_undoes_start(v: TimerView)
    ensures
        v.state == TimerState::Idle ==> v.started().stopped() == v.rewound(),
        v.stopped().stopped() == v.stopped(),
        v.rewound().rewound() == v.rewound(),
        v.state != TimerState::Idle ==> v.stopped().remaining == v.total,
{
}

} // verus!
