//! The display and the buttons as the runtime sees them.

pub mod display;
pub mod input;
