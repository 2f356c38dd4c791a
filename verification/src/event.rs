//! Event types.

use vstd::prelude::*;

verus! {

/// Marker trait for event types.
///
/// Events are cloned once per subscriber, so they must be `Clone`, and they
/// cross task boundaries, so they must be `Send + 'static`.
pub trait Event: Clone + Send + 'static {}

} // verus!
