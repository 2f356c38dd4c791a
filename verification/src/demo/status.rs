//! A status line that follows the counter's events.

use crate::demo::counter::CounterIncremented;
use crate::text::decimal;
use crate::text::push_decimal;
use vstd::prelude::*;
use vstd::string::StringExecFns;

verus! {

/// The message shown for a counter at `value`.
pub open spec fn counter_message(value: usize) -> Seq<char> {
    "Counter changed to "@ + decimal(value as nat)
}

/// A status line.
pub struct Status {
    message: String,
}

impl Status {
    /// A status line showing `message`.
    pub fn new(message: String) -> (status: Self)
        ensures
            status.spec_message() == message@,
    {
        Status { message }
    }

    /// The text shown.
    pub closed spec fn spec_message(&self) -> Seq<char> {
        self.message@
    }

    /// The text shown.
    pub fn message(&self) -> (message: String)
        ensures
            message@ == self.spec_message(),
    {
        self.message.clone()
    }

    /// Shows the counter's new value.
    pub fn on_counter_incremented(&mut self, event: CounterIncremented)
        ensures
            final(self).spec_message() == counter_message(event.new_value),
    {
        let mut message = String::from_str("Counter changed to ");
        push_decimal(&mut message, event.new_value);
        self.message = message;
    }
}

} // verus!
