//! Event-driven user-interface runtime for a small monochrome panel with
//! push-button input.
//!
//! - [`system::events`]: events, their first-in first-out queue, and the
//!   debounced button source and the tick and timer sources that fill it.
//! - [`system::scheduler`]: one-shot and recurring callbacks, run when due.
//! - [`drivers::display`]: the drawing primitives and the manager that
//!   records them for the panel.
//! - [`drivers::input`]: the states of the registered buttons.
//! - [`ui::framework`]: label, button and progress bar, the default screen
//!   and the screen manager.
//! - [`ui::screens`]: the boot splash, the home screen and a menu.
//! - [`ui::animations`]: animations that advance with time.
//! - [`runtime`]: one round of the cooperative loop.
//!
//! Nothing here reads a clock, a pin or a bus: the caller hands in the time
//! and the levels, and carries out the primitives that come back. Every
//! function states what it does in its contract.

pub mod drivers;
pub mod runtime;
pub mod system;
pub mod text;
pub mod ui;
