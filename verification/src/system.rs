//! Events, their queue and sources, and the timer scheduler.

pub mod events;
pub mod scheduler;
