//! A Pomodoro timer: its state machine, its settings, and the log of the
//! sessions that it has run.

pub mod commands;
pub mod database;
pub mod settings;
pub mod text;
pub mod timer;
pub mod tray;
pub mod windows;

pub use timer::{SessionType, Timer, TimerState, TimerView};
pub use settings::Settings;
