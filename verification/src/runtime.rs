//! Errors of waiting for a service's tasks to complete.

use crate::text::push_decimal;
use vstd::prelude::*;
use vstd::string::StringExecFns;

verus! {

/// Error returned when one or more tasks panicked.
pub struct TaskPanicked {
    /// Panic messages from failed tasks.
    pub panics: Vec<String>,
}

impl TaskPanicked {
    /// What the error says: how many tasks panicked.
    pub fn message(&self) -> (text: String)
        ensures
            text@ == crate::text::decimal(self.panics.len() as nat) + " task(s) panicked"@,
    {
        let mut text = String::new();
        push_decimal(&mut text, self.panics.len());
        text.append(" task(s) panicked");
        text
    }
}

/// Error returned from `wait_timeout`.
pub enum WaitError {
    /// The timeout expired before all tasks completed.
    Timeout,
    /// One or more tasks panicked.
    Panicked(TaskPanicked),
}

impl WaitError {
    /// What the error says.
    pub fn message(&self) -> (text: String)
        ensures
            text@ == match self {
                WaitError::Timeout => "timeout waiting for tasks"@,
                WaitError::Panicked(p) => crate::text::decimal(p.panics.len() as nat)
                    + " task(s) panicked"@,
            },
    {
        match self {
            WaitError::Timeout => String::from_str("timeout waiting for tasks"),
            WaitError::Panicked(p) => p.message(),
        }
    }
}

} // verus!
