//! A counter for a retained-mode UI: it counts up to a maximum and wraps
//! back to zero, and each change asks for a render.

use vstd::prelude::*;

verus! {

/// The count after one increment: one more, wrapping to zero past
/// `max_count`.
pub open spec fn next_count(count: u32, max_count: u32) -> u32 {
    ((count + 1) % (max_count + 1)) as u32
}

/// The count after `times` increments from `count`.
pub open spec fn count_after(count: u32, max_count: u32, times: nat) -> u32
    decreases times,
{
    if times == 0 {
        count
    } else {
        next_count(count_after(count, max_count, (times - 1) as nat), max_count)
    }
}

/// Default maximum count.
pub const DEFAULT_MAX_COUNT: u32 = 20;

/// A wrapping counter. Every command changes what is shown, so each one
/// queues a render, which the UI's next poll runs.
pub struct CounterService {
    count: u32,
    max_count: u32,
    pending_renders: u64,
}

impl CounterService {
    /// The current count.
    pub closed spec fn spec_count(&self) -> u32 {
        self.count
    }

    /// The largest count before wrapping.
    pub closed spec fn spec_max_count(&self) -> u32 {
        self.max_count
    }

    /// The renders queued and not yet run.
    pub closed spec fn spec_pending_renders(&self) -> u64 {
        self.pending_renders
    }

    /// A counter at zero that wraps past the default maximum, with no render
    /// queued.
    pub fn new() -> (service: Self)
        ensures
            service.spec_count() == 0,
            service.spec_max_count() == DEFAULT_MAX_COUNT,
            service.spec_pending_renders() == 0,
    {
        CounterService { count: 0, max_count: DEFAULT_MAX_COUNT, pending_renders: 0 }
    }

    /// The renders queued and not yet run.
    pub fn pending_renders(&self) -> (pending: u64)
        ensures
            pending == self.spec_pending_renders(),
    {
        self.pending_renders
    }

    /// Hands the queued renders to the UI's poll, which runs them: returns how
    /// many there are and leaves none queued.
    pub fn take_pending_renders(&mut self) -> (pending: u64)
        ensures
            pending == old(self).spec_pending_renders(),
            final(self).spec_pending_renders() == 0,
            final(self).spec_count() == old(self).spec_count(),
            final(self).spec_max_count() == old(self).spec_max_count(),
    {
        let pending = self.pending_renders;
        self.pending_renders = 0;
        pending
    }

    /// The current count.
    pub fn count(&self) -> (count: u32)
        ensures
            count == self.spec_count(),
    {
        self.count
    }

    /// The largest count before wrapping.
    pub fn max_count(&self) -> (max_count: u32)
        ensures
            max_count == self.spec_max_count(),
    {
        self.max_count
    }

    /// Counts one up, wrapping to zero past the maximum, and queues a render.
    pub fn increment(&mut self)
        requires
            old(self).spec_count() < u32::MAX,
            old(self).spec_max_count() < u32::MAX,
            old(self).spec_pending_renders() < u64::MAX,
        ensures
            final(self).spec_count() == next_count(old(self).spec_count(), old(self).spec_max_count()),
            final(self).spec_max_count() == old(self).spec_max_count(),
            final(self).spec_pending_renders() == old(self).spec_pending_renders() + 1,
    {
        self.count = (self.count + 1) % (self.max_count + 1);
        self.pending_renders = self.pending_renders + 1;
    }

    /// Resets the count to zero and queues a render.
    pub fn reset(&mut self)
        requires
            old(self).spec_pending_renders() < u64::MAX,
        ensures
            final(self).spec_count() == 0,
            final(self).spec_max_count() == old(self).spec_max_count(),
            final(self).spec_pending_renders() == old(self).spec_pending_renders() + 1,
    {
        self.count = 0;
        self.pending_renders = self.pending_renders + 1;
    }
}

/// Counting from a count within range stays within range, and after
/// `max_count + 1` increments the count is back where it started.
pub proof fn law_increments_cycle(count: u32, max_count: u32, times: nat)
    requires
        count <= max_count,
        max_count < u32::MAX,
    ensures
        count_after(count, max_count, times) <= max_count,
        count_after(count, max_count, times) == (count + times) % (max_count + 1),
        count_after(count, max_count, (max_count + 1) as nat) == count,
{
    lemma_count_after(count, max_count, times);
    lemma_count_after(count, max_count, (max_count + 1) as nat);
    vstd::arithmetic::div_mod::lemma_mod_self_0(max_count + 1);
    vstd::arithmetic::div_mod::lemma_add_mod_noop(count as int, max_count + 1, max_count + 1);
    vstd::arithmetic::div_mod::lemma_small_mod(count as nat, (max_count + 1) as nat);
}

proof fn lemma_count_after(count: u32, max_count: u32, times: nat)
    requires
        count <= max_count,
        max_count < u32::MAX,
    ensures
        count_after(count, max_count, times) == (count + times) % (max_count + 1),
        count_after(count, max_count, times) <= max_count,
    decreases times,
{
    let m = max_count + 1;
    if times == 0 {
        vstd::arithmetic::div_mod::lemma_small_mod(count as nat, m as nat);
    } else {
        lemma_count_after(count, max_count, (times - 1) as nat);
        let prev = count_after(count, max_count, (times - 1) as nat);
        vstd::arithmetic::div_mod::lemma_add_mod_noop(count + times - 1, 1, m);
        vstd::arithmetic::div_mod::lemma_mod_bound(prev + 1, m);
        if m > 1 {
            vstd::arithmetic::div_mod::lemma_small_mod(1, m as nat);
        } else {
            vstd::arithmetic::div_mod::lemma_mod_self_0(1);
            vstd::arithmetic::div_mod::lemma_mod_bound(count + times, 1);
        }
        vstd::arithmetic::div_mod::lemma_small_mod(prev as nat, m as nat);
        vstd::arithmetic::div_mod::lemma_mod_bound(count + times, m);
    }
}

} // verus!
