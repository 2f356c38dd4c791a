//! Grove: the verified core of a macro-based actor framework.
//!
//! - `metrics`: per-command queue counters, depth sampling and windowed
//!   statistics over a ring of samples.
//! - `cancellation`: a cancellation token shared by clones, whose state keeps
//!   every waiting task's waker until cancellation hands it back.
//! - `naming` and `handlers`: the rules by which service methods and events
//!   are named and sorted for generated code, and the main loop's steps.
//! - `syntax` and `service_input`: the macros' front ends, which parse their
//!   input with `syn`, read it into plain values and apply the grammar of
//!   the `#[grove(...)]` words.
//! - `runtime`, `event`: errors of waiting for tasks, and the event marker
//!   trait.
//! - `demo`: the state logic of the demo services.

pub mod cancellation;
pub mod clock;
pub mod demo;
pub mod event;
pub mod handlers;
pub mod metrics;
pub mod naming;
pub mod runtime;
pub mod service_input;
pub mod syntax;
pub mod text;
