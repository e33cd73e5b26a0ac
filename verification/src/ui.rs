//! Widgets, screens, the screen manager and animations.

pub mod animations;
pub mod framework;
pub mod screens;
