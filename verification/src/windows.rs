//! The auxiliary windows and the main window's context menu.
use vstd::prelude::*;

use crate::text::text_eq;

verus! {

/// A window besides the main one.
#[derive(Debug, Clone, Copy, PartialEq, Eq, Structural)]
pub enum AuxWindow {
    Settings,
    Stats,
}

impl AuxWindow {
    /// The label under which the window is registered.
    pub fn label(self) -> (label: &'static str)
        ensures
            label@ == match self {
                AuxWindow::Settings => "settings"@,
                AuxWindow::Stats => "stats"@,
            },
    {
        match self {
            AuxWindow::Settings => "settings",
            AuxWindow::Stats => "stats",
        }
    }

    /// The window's title.
    pub fn title(self) -> (title: &'static str)
        ensures
            title@ == match self {
                AuxWindow::Settings => "Settings"@,
                AuxWindow::Stats => "Statistics"@,
            },
    {
        match self {
            AuxWindow::Settings => "Settings",
            AuxWindow::Stats => "Statistics",
        }
    }

    /// The page the window shows.
    pub fn url(self) -> (url: &'static str)
        ensures
            url@ == match self {
                AuxWindow::Settings => "settings-window.html"@,
                AuxWindow::Stats => "stats-window.html"@,
            },
    {
        match self {
            AuxWindow::Settings => "settings-window.html",
            AuxWindow::Stats => "stats-window.html",
        }
    }

    /// The id of the context menu item that opens the window.
    pub fn menu_id(self) -> (id: &'static str)
        ensures
            id@ == spec_menu_id(self),
    {
        match self {
            AuxWindow::Settings => "open-settings",
            AuxWindow::Stats => "open-stats",
        }
    }
}

/// The id of the context menu item that opens the window.
pub open spec fn spec_menu_id(window: AuxWindow) -> Seq<char> {
    match window {
        AuxWindow::Settings => "open-settings"@,
        AuxWindow::Stats => "open-stats"@,
    }
}

/// The window that the context menu item `id` opens, if any.
pub open spec fn spec_context_menu_target(id: Seq<char>) -> Option<AuxWindow> {
    if id == spec_menu_id(AuxWindow::Settings) {
        Some(AuxWindow::Settings)
    } else if id == spec_menu_id(AuxWindow::Stats) {
        Some(AuxWindow::Stats)
    } else {
        None
    }
}

/// The context menu item of each window opens that window.
pub proof fn lemma_menu_item_opens_its_window(window: AuxWindow)
    ensures
        spec_context_menu_target(spec_menu_id(window)) == Some(window),
{
    reveal_strlit("open-settings");
    reveal_strlit("open-stats");
    assert("open-settings"@[6] != "open-stats"@[6]);
}

/// The window that the context menu item `id` opens, if any.
pub fn context_menu_target(id: &str) -> (target: Option<AuxWindow>)
    ensures
        target == spec_context_menu_target(id@),
{
    if text_eq(id, "open-settings") {
        Some(AuxWindow::Settings)
    } else if text_eq(id, "open-stats") {
        Some(AuxWindow::Stats)
    } else {
        None
    }
}

} // verus!
