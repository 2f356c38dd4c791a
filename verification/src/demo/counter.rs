//! An event-driven counter service.

use crate::event::Event;
use vstd::prelude::*;

verus! {

/// Emitted whenever the counter's value changes.
#[derive(Clone, Copy, Debug)]
pub struct CounterIncremented {
    pub new_value: usize,
}

impl Event for CounterIncremented {}

/// The value after a decrement: one less, stopping at zero.
pub open spec fn decremented(value: usize) -> usize {
    if value > 0 {
        (value - 1) as usize
    } else {
        0
    }
}

/// A counter; each change emits a `CounterIncremented` with the new value.
pub struct Counter {
    value: usize,
}

impl Counter {
    /// The current value.
    pub closed spec fn spec_value(&self) -> usize {
        self.value
    }

    /// A counter at zero.
    pub fn new() -> (counter: Self)
        ensures
            counter.spec_value() == 0,
    {
        Counter { value: 0 }
    }

    /// The current value.
    pub fn value(&self) -> (value: usize)
        ensures
            value == self.spec_value(),
    {
        self.value
    }

    /// Adds one and returns the event to emit, which carries the new value.
    pub fn increment(&mut self) -> (event: CounterIncremented)
        requires
            old(self).spec_value() < usize::MAX,
        ensures
            final(self).spec_value() == old(self).spec_value() + 1,
            event.new_value == final(self).spec_value(),
    {
        self.value = self.value + 1;
        CounterIncremented { new_value: self.value }
    }

    /// Subtracts one, stopping at zero, and returns the event to emit, which
    /// carries the new value.
    pub fn decrement(&mut self) -> (event: CounterIncremented)
        ensures
            final(self).spec_value() == decremented(old(self).spec_value()),
            event.new_value == final(self).spec_value(),
    {
        self.value = if self.value > 0 {
            self.value - 1
        } else {
            0
        };
        CounterIncremented { new_value: self.value }
    }
}

/// Decrementing undoes incrementing, and decrementing at zero keeps zero.
pub proof fn law_decrement_undoes_increment(value: usize)
    requires
        value < usize::MAX,
    ensures
        decremented((value + 1) as usize) == value,
        decremented(0) == 0,
{
}

} // verus!
