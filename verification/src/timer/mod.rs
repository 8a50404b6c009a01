pub mod laws;
pub mod machine;
pub mod state;

pub use machine::{Timer, TimerView};
pub use state::{SessionType, TimerState};
