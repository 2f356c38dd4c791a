//! The state logic of the demo services: a counter with events, a status
//! line that follows it, and a wrapping counter for a retained-mode UI.

pub mod counter;
pub mod retained;
pub mod status;
