//! What the items of the tray menu do.
use vstd::prelude::*;

use crate::text::text_eq;
use crate::timer::{TimerState, TimerView};

verus! {

/// An event the tray sends to the window, which then drives the timer.
#[derive(Debug, Clone, Copy, PartialEq, Eq, Structural)]
pub enum TrayEvent {
    Start,
    Resume,
    Pause,
    Stop,
}

/// What choosing a tray menu item leads to.
#[derive(Debug, Clone, Copy, PartialEq, Eq, Structural)]
pub enum TrayAction {
    ShowWindow,
    HideWindow,
    Emit(TrayEvent),
    Quit,
    Ignore,
}

/// The name under which the event is sent.
pub open spec fn spec_event_name(event: TrayEvent) -> Seq<char> {
    match event {
        TrayEvent::Start => "tray-start"@,
        TrayEvent::Resume => "tray-resume"@,
        TrayEvent::Pause => "tray-pause"@,
        TrayEvent::Stop => "tray-stop"@,
    }
}

impl TrayEvent {
    /// The name under which the event is sent.
    pub fn name(self) -> (name: &'static str)
        ensures
            name@ == spec_event_name(self),
    {
        match self {
            TrayEvent::Start => "tray-start",
            TrayEvent::Resume => "tray-resume",
            TrayEvent::Pause => "tray-pause",
            TrayEvent::Stop => "tray-stop",
        }
    }
}

/// An item of the tray menu.
#[derive(Debug, Clone, Copy, PartialEq, Eq, Structural)]
pub enum TrayItem {
    Show,
    Hide,
    Start,
    Pause,
    Stop,
    Quit,
}

/// The id under which the item is registered.
pub open spec fn spec_item_id(item: TrayItem) -> Seq<char> {
    match item {
        TrayItem::Show => "show"@,
        TrayItem::Hide => "hide"@,
        TrayItem::Start => "start"@,
        TrayItem::Pause => "pause"@,
        TrayItem::Stop => "stop"@,
        TrayItem::Quit => "quit"@,
    }
}

impl TrayItem {
    /// The id under which the item is registered.
    pub fn id(self) -> (id: &'static str)
        ensures
            id@ == spec_item_id(self),
    {
        match self {
            TrayItem::Show => "show",
            TrayItem::Hide => "hide",
            TrayItem::Start => "start",
            TrayItem::Pause => "pause",
            TrayItem::Stop => "stop",
            TrayItem::Quit => "quit",
        }
    }
}

/// The action of the menu item with the given id, given the timer's state:
/// "Start" starts an idle timer, resumes a held one and does nothing to a
/// running one; unknown ids do nothing.
pub open spec fn spec_tray_action(id: Seq<char>, state: TimerState) -> TrayAction {
    if id == spec_item_id(TrayItem::Show) {
        TrayAction::ShowWindow
    } else if id == spec_item_id(TrayItem::Hide) {
        TrayAction::HideWindow
    } else if id == spec_item_id(TrayItem::Start) {
        match state {
            TimerState::Idle => TrayAction::Emit(TrayEvent::Start),
            TimerState::Paused => TrayAction::Emit(TrayEvent::Resume),
            TimerState::Running => TrayAction::Ignore,
        }
    } else if id == spec_item_id(TrayItem::Pause) {
        TrayAction::Emit(TrayEvent::Pause)
    } else if id == spec_item_id(TrayItem::Stop) {
        TrayAction::Emit(TrayEvent::Stop)
    } else if id == spec_item_id(TrayItem::Quit) {
        TrayAction::Quit
    } else {
        TrayAction::Ignore
    }
}

/// Choosing "Start" in the tray leaves the timer running, whatever state it
/// was in: an idle timer is started, a held one resumed, and a running one
/// left alone.
pub proof fn lemma_tray_start_runs_timer(v: TimerView)
    ensures
        match spec_tray_action("start"@, v.state) {
            TrayAction::Emit(TrayEvent::Start) => v.started().state == TimerState::Running,
            TrayAction::Emit(TrayEvent::Resume) => v.resumed().state == TimerState::Running,
            TrayAction::Ignore => v.state == TimerState::Running,
            _ => false,
        },
{
    reveal_strlit("start");
    reveal_strlit("show");
    reveal_strlit("hide");
    assert("start"@[1] != "show"@[1]);
    assert("start"@[0] != "hide"@[0]);
}

/// Whatever the timer's state, "show" and "hide" show and hide the window,
/// "pause" and "stop" send the pause and stop events, and "quit" quits.
pub proof fn lemma_tray_items_act_in_every_state(state: TimerState)
    ensures
        spec_tray_action("show"@, state) == TrayAction::ShowWindow,
        spec_tray_action("hide"@, state) == TrayAction::HideWindow,
        spec_tray_action("pause"@, state) == TrayAction::Emit(TrayEvent::Pause),
        spec_tray_action("stop"@, state) == TrayAction::Emit(TrayEvent::Stop),
        spec_tray_action("quit"@, state) == TrayAction::Quit,
        spec_event_name(TrayEvent::Start) == "tray-start"@,
        spec_event_name(TrayEvent::Resume) == "tray-resume"@,
        spec_event_name(TrayEvent::Pause) == "tray-pause"@,
        spec_event_name(TrayEvent::Stop) == "tray-stop"@,
{
    reveal_strlit("show");
    reveal_strlit("hide");
    reveal_strlit("start");
    reveal_strlit("pause");
    reveal_strlit("stop");
    reveal_strlit("quit");
    assert("hide"@[0] != "show"@[0]);
    assert("pause"@[0] != "show"@[0]);
    assert("pause"@[0] != "hide"@[0]);
    assert("pause"@[0] != "start"@[0]);
    assert("stop"@[1] != "show"@[1]);
    assert("stop"@[0] != "hide"@[0]);
    assert("stop"@[2] != "start"@[2]);
    assert("stop"@[0] != "pause"@[0]);
    assert("quit"@[0] != "show"@[0]);
    assert("quit"@[0] != "hide"@[0]);
    assert("quit"@[0] != "start"@[0]);
    assert("quit"@[0] != "pause"@[0]);
    assert("quit"@[0] != "stop"@[0]);
}

/// What choosing the tray menu item `id` does while the timer is in
/// `state`.
pub fn tray_menu_action(id: &str, state: TimerState) -> (action: TrayAction)
    ensures
        action == spec_tray_action(id@, state),
{
    if text_eq(id, TrayItem::Show.id()) {
        TrayAction::ShowWindow
    } else if text_eq(id, TrayItem::Hide.id()) {
        TrayAction::HideWindow
    } else if text_eq(id, TrayItem::Start.id()) {
        match state {
            TimerState::Idle => TrayAction::Emit(TrayEvent::Start),
            TimerState::Paused => TrayAction::Emit(TrayEvent::Resume),
            TimerState::Running => TrayAction::Ignore,
        }
    } else if text_eq(id, TrayItem::Pause.id()) {
        TrayAction::Emit(TrayEvent::Pause)
    } else if text_eq(id, TrayItem::Stop.id()) {
        TrayAction::Emit(TrayEvent::Stop)
    } else if text_eq(id, TrayItem::Quit.id()) {
        TrayAction::Quit
    } else {
        TrayAction::Ignore
    }
}

} // verus!
