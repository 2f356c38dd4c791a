//! Channel metrics for Grove actors.
//!
//! Per-command counters of enqueued and processed commands, the queue depth
//! derived from them, and a fixed-size ring of depth samples from which
//! time-windowed statistics are computed.
//!
//! Sample times are kept as nanoseconds since the ring was created, read from
//! the monotonic clock when a sample is pushed.

use crate::clock::{duration_nanos, instant_elapsed, instant_now, instant_since};
use std::time::Instant;
use vstd::prelude::*;

verus! {

/// Default sample interval in milliseconds.
pub const DEFAULT_SAMPLE_INTERVAL_MS: u64 = 100;

/// Nanoseconds in one millisecond.
pub const NANOS_PER_MILLI: u128 = 1_000_000;

/// Default number of commands between samples.
pub const DEFAULT_SAMPLE_COMMAND_INTERVAL: u64 = 100;

/// Default sample buffer size (600 samples, about one minute at 100ms intervals).
pub const DEFAULT_SAMPLE_BUFFER_SIZE: usize = 600;

// ============================================================================
// Sample ring
// ============================================================================

/// The buffer slot that holds the `i`-th newest sample of a ring whose next
/// write goes to slot `head`, in a buffer of `cap` slots.
pub open spec fn ring_slot(head: int, cap: int, i: int) -> int {
    if i < head {
        head - 1 - i
    } else {
        cap - 1 - (i - head)
    }
}

/// The samples of a ring after `sample` is pushed onto `samples` (newest
/// first) in a buffer of `cap` slots: the oldest one is dropped when the ring
/// is full.
pub open spec fn pushed_samples<T>(samples: Seq<T>, sample: T, cap: nat) -> Seq<T> {
    if samples.len() < cap {
        seq![sample] + samples
    } else {
        seq![sample] + samples.take(cap - 1)
    }
}

/// The number of samples at the front of `samples` (newest first) taken no
/// earlier than `since`: counting stops at the first older one.
pub open spec fn recent_count(samples: Seq<(u128, u64)>, since: u128) -> nat
    decreases samples.len(),
{
    if samples.len() == 0 || samples[0].0 < since {
        0
    } else {
        1 + recent_count(samples.drop_first(), since)
    }
}

/// The sum of the depths of `samples`.
pub open spec fn depth_sum(samples: Seq<(u128, u64)>) -> int
    decreases samples.len(),
{
    if samples.len() == 0 {
        0
    } else {
        depth_sum(samples.drop_last()) + samples.last().1
    }
}

/// The largest depth of `samples`, 0 for none.
pub open spec fn depth_max(samples: Seq<(u128, u64)>) -> u64
    decreases samples.len(),
{
    if samples.len() == 0 {
        0
    } else {
        let rest = depth_max(samples.drop_last());
        if samples.last().1 > rest {
            samples.last().1
        } else {
            rest
        }
    }
}

/// The (sum, max, count) of the depths of the recent samples of `samples`
/// taken no earlier than `since`.
pub open spec fn window_stats(samples: Seq<(u128, u64)>, since: u128) -> (int, u64, nat) {
    let recent = samples.take(recent_count(samples, since) as int);
    (depth_sum(recent), depth_max(recent), recent.len())
}

/// Fixed-size ring buffer for depth samples.
pub struct SampleRing {
    origin: Instant,
    buffer: Vec<(u128, u64)>,
    head: usize,
    len: usize,
}

impl SampleRing {
    /// The ring's own invariant: the next write slot lies in the buffer and no
    /// more samples are held than it has slots.
    pub closed spec fn wf(&self) -> bool {
        &&& self.len <= self.buffer.len()
        &&& (self.buffer.len() > 0 ==> self.head < self.buffer.len())
        &&& (self.buffer.len() == 0 ==> self.head == 0)
    }

    /// The number of slots.
    pub closed spec fn capacity(&self) -> nat {
        self.buffer.len() as nat
    }

    /// The samples held, newest first: each is (nanoseconds since the ring
    /// was created, depth).
    pub closed spec fn samples(&self) -> Seq<(u128, u64)> {
        Seq::new(
            self.len as nat,
            |i: int| self.buffer@[ring_slot(self.head as int, self.buffer.len() as int, i)],
        )
    }

    /// The depths of the samples held, newest first.
    pub open spec fn depths(&self) -> Seq<u64> {
        self.samples().map_values(|s: (u128, u64)| s.1)
    }

    /// Creates a new sample ring with default capacity.
    pub fn new() -> (ring: Self)
        ensures
            ring.wf(),
            ring.capacity() == DEFAULT_SAMPLE_BUFFER_SIZE,
            ring.samples() == Seq::<(u128, u64)>::empty(),
    {
        Self::with_capacity(DEFAULT_SAMPLE_BUFFER_SIZE)
    }

    /// Creates a new sample ring with specified capacity.
    pub fn with_capacity(capacity: usize) -> (ring: Self)
        ensures
            ring.wf(),
            ring.capacity() == capacity,
            ring.samples() == Seq::<(u128, u64)>::empty(),
    {
        let mut buffer: Vec<(u128, u64)> = Vec::new();
        let mut i: usize = 0;
        while i < capacity
            invariant
                i <= capacity,
                buffer.len() == i,
            decreases capacity - i,
        {
            buffer.push((0, 0));
            i = i + 1;
        }
        let ring = SampleRing { origin: instant_now(), buffer, head: 0, len: 0 };
        assert(ring.samples() =~= Seq::<(u128, u64)>::empty());
        ring
    }

    /// The buffer slot of the `i`-th newest sample.
    fn slot_of(&self, i: usize) -> (slot: usize)
        requires
            self.wf(),
            i < self.len,
        ensures
            slot == ring_slot(self.head as int, self.buffer.len() as int, i as int),
            slot < self.buffer.len(),
    {
        if i < self.head {
            self.head - 1 - i
        } else {
            self.buffer.len() - 1 - (i - self.head)
        }
    }

    /// Pushes a sample taken `at` nanoseconds after the ring was created,
    /// overwriting the oldest if full.
    pub fn push_at(&mut self, at: u128, depth: u64)
        requires
            old(self).wf(),
            old(self).capacity() > 0,
        ensures
            final(self).wf(),
            final(self).capacity() == old(self).capacity(),
            final(self).samples() == pushed_samples(
                old(self).samples(),
                (at, depth),
                old(self).capacity(),
            ),
    {
        let ghost old_samples = self.samples();
        let cap = self.buffer.len();
        let h = self.head;
        self.buffer.set(h, (at, depth));
        self.head = if h + 1 == cap {
            0
        } else {
            h + 1
        };
        if self.len < cap {
            self.len = self.len + 1;
        }
        let ghost expected = pushed_samples(old_samples, (at, depth), cap as nat);
        assert forall|i: int| 0 <= i < self.len implies #[trigger] self.samples()[i] == expected[i] by {
            if i > 0 {
                assert(ring_slot(self.head as int, cap as int, i) == ring_slot(
                    h as int,
                    cap as int,
                    i - 1,
                ));
                assert(old_samples[i - 1] == self.buffer@[ring_slot(h as int, cap as int, i - 1)]);
            }
        }
        assert(self.samples() =~= expected);
    }

    /// Pushes a new sample, overwriting oldest if full.
    ///
    /// The sample's time is read from the clock, so it is not stated; its depth
    /// and the samples kept are.
    pub fn push(&mut self, depth: u64)
        requires
            old(self).wf(),
            old(self).capacity() > 0,
        ensures
            final(self).wf(),
            final(self).capacity() == old(self).capacity(),
            exists|at: u128|
                final(self).samples() == pushed_samples(
                    old(self).samples(),
                    (at, depth),
                    old(self).capacity(),
                ),
            final(self).depths() == pushed_samples(old(self).depths(), depth, old(self).capacity()),
    {
        let elapsed = instant_elapsed(&self.origin);
        let at = duration_nanos(&elapsed);
        let ghost old_samples = self.samples();
        self.push_at(at, depth);
        proof {
            let cap = old(self).capacity();
            assert(self.depths() =~= pushed_samples(old_samples.map_values(|s: (u128, u64)| s.1), depth, cap));
        }
    }

    /// Returns (sum, max, count) of the depths of the newest samples taken no
    /// earlier than `since` nanoseconds after the ring was created; the walk
    /// from the newest stops at the first older sample.
    pub fn stats_since_nanos(&self, since: u128) -> (stats: (u128, u64, usize))
        requires
            self.wf(),
        ensures
            (stats.0 as int, stats.1, stats.2 as nat) == window_stats(self.samples(), since),
    {
        let ghost samples = self.samples();
        let mut sum: u128 = 0;
        let mut max: u64 = 0;
        let mut count: usize = 0;
        let mut i: usize = 0;
        while i < self.len
            invariant_except_break
                self.wf(),
                samples == self.samples(),
                i <= self.len,
                count == i,
                forall|j: int| 0 <= j < i ==> (#[trigger] samples[j]).0 >= since,
                sum == depth_sum(samples.take(i as int)),
                sum <= i * 0xFFFF_FFFF_FFFF_FFFFu128,
                max == depth_max(samples.take(i as int)),
            ensures
                count <= self.len,
                forall|j: int| 0 <= j < count ==> (#[trigger] samples[j]).0 >= since,
                count == self.len || samples[count as int].0 < since,
                sum == depth_sum(samples.take(count as int)),
                max == depth_max(samples.take(count as int)),
            decreases self.len - i,
        {
            let slot = self.slot_of(i);
            let (ts, depth) = self.buffer[slot];
            if ts < since {
                break;
            }
            assert(samples.take(i + 1).drop_last() =~= samples.take(i as int));
            sum = sum + depth as u128;
            if depth > max {
                max = depth;
            }
            count = count + 1;
            i = i + 1;
        }
        proof {
            lemma_recent_count(samples, since, count as nat);
        }
        (sum, max, count)
    }

    /// Returns (sum, max, count) of the depths of the newest samples taken no
    /// earlier than `since`.
    ///
    /// `since` is turned into nanoseconds after the ring's creation by the
    /// clock, so which offset that is is not stated.
    pub fn stats_since(&self, since: Instant) -> (stats: (u128, u64, usize))
        requires
            self.wf(),
        ensures
            exists|since_nanos: u128|
                (stats.0 as int, stats.1, stats.2 as nat) == window_stats(
                    self.samples(),
                    since_nanos,
                ),
    {
        let span = instant_since(&since, &self.origin);
        let since_nanos = duration_nanos(&span);
        self.stats_since_nanos(since_nanos)
    }

    /// Returns the samples from newest to oldest, each as (nanoseconds since
    /// the ring was created, depth).
    pub fn iter(&self) -> (samples: Vec<(u128, u64)>)
        requires
            self.wf(),
        ensures
            samples@ == self.samples(),
    {
        let mut out: Vec<(u128, u64)> = Vec::new();
        let mut i: usize = 0;
        while i < self.len
            invariant
                self.wf(),
                i <= self.len,
                out@ =~= self.samples().take(i as int),
            decreases self.len - i,
        {
            let slot = self.slot_of(i);
            out.push(self.buffer[slot]);
            i = i + 1;
        }
        assert(self.samples().take(self.len as int) =~= self.samples());
        out
    }
}

/// The recent count of `samples` is `k` when the first `k` samples are recent
/// and the next one, if any, is older.
proof fn lemma_recent_count(samples: Seq<(u128, u64)>, since: u128, k: nat)
    requires
        k <= samples.len(),
        forall|j: int| 0 <= j < k ==> (#[trigger] samples[j]).0 >= since,
        k == samples.len() || samples[k as int].0 < since,
    ensures
        recent_count(samples, since) == k,
    decreases k,
{
    if k > 0 {
        let rest = samples.drop_first();
        assert forall|j: int| 0 <= j < k - 1 implies (#[trigger] rest[j]).0 >= since by {
            assert(rest[j] == samples[j + 1]);
        }
        if k < samples.len() {
            assert(rest[k - 1] == samples[k as int]);
        }
        lemma_recent_count(rest, since, (k - 1) as nat);
    }
}

impl Default for SampleRing {
    fn default() -> (ring: Self)
        ensures
            ring.wf(),
            ring.capacity() == DEFAULT_SAMPLE_BUFFER_SIZE,
            ring.samples() == Seq::<(u128, u64)>::empty(),
    {
        Self::new()
    }
}

// ============================================================================
// Command counters
// ============================================================================

/// `count` plus one, wrapping to zero past `u64::MAX`.
pub open spec fn wrapping_inc(count: u64) -> u64 {
    if count == u64::MAX {
        0
    } else {
        (count + 1) as u64
    }
}

/// `a - b`, or zero where `b` is larger.
pub open spec fn saturating_diff(a: u64, b: u64) -> u64 {
    if a >= b {
        (a - b) as u64
    } else {
        0
    }
}

/// The sum of `counts`.
pub open spec fn count_sum(counts: Seq<u64>) -> int
    decreases counts.len(),
{
    if counts.len() == 0 {
        0
    } else {
        count_sum(counts.drop_last()) + counts.last()
    }
}

/// The sum of `counts`, wrapped to 64 bits.
pub open spec fn wrapped_total(counts: Seq<u64>) -> u64 {
    (count_sum(counts) % 0x1_0000_0000_0000_0000) as u64
}

/// Per-command metrics for `N` command variants: how many commands of each
/// variant were enqueued and processed, and the history of aggregate depth
/// samples.
pub struct CommandMetrics<const N: usize> {
    /// Per-command enqueued counters.
    enqueued: Vec<u64>,
    /// Per-command processed counters.
    processed: Vec<u64>,
    /// Aggregate sample history.
    samples: SampleRing,
}

impl<const N: usize> CommandMetrics<N> {
    /// One counter of each kind per command variant, and a sample ring of the
    /// default size.
    pub closed spec fn wf(&self) -> bool {
        &&& self.enqueued.len() == N
        &&& self.processed.len() == N
        &&& self.samples.wf()
        &&& self.samples.capacity() == DEFAULT_SAMPLE_BUFFER_SIZE
    }

    /// The enqueued counter of each command variant.
    pub closed spec fn enqueued_counts(&self) -> Seq<u64> {
        self.enqueued@
    }

    /// The processed counter of each command variant.
    pub closed spec fn processed_counts(&self) -> Seq<u64> {
        self.processed@
    }

    /// The depth samples held, newest first, as (nanoseconds since the
    /// metrics were created, depth).
    pub closed spec fn samples(&self) -> Seq<(u128, u64)> {
        self.samples.samples()
    }

    /// The depths of the samples held, newest first.
    pub open spec fn sample_depths(&self) -> Seq<u64> {
        self.samples().map_values(|s: (u128, u64)| s.1)
    }

    /// The aggregate depth: total enqueued less total processed, each total
    /// wrapped to 64 bits, or zero where more were processed.
    pub open spec fn spec_total_depth(&self) -> u64 {
        saturating_diff(
            wrapped_total(self.enqueued_counts()),
            wrapped_total(self.processed_counts()),
        )
    }

    /// Creates new metrics with zeroed counters and empty sample buffer.
    pub fn new() -> (metrics: Self)
        ensures
            metrics.wf(),
            metrics.enqueued_counts() == Seq::new(N as nat, |i: int| 0u64),
            metrics.processed_counts() == Seq::new(N as nat, |i: int| 0u64),
            metrics.samples() == Seq::<(u128, u64)>::empty(),
    {
        let enqueued = zeroed_counters(N);
        let processed = zeroed_counters(N);
        CommandMetrics { enqueued, processed, samples: SampleRing::new() }
    }

    /// Increments the enqueued counter for a command (wrapping past
    /// `u64::MAX`).
    pub fn inc_enqueued(&mut self, cmd_index: usize)
        requires
            old(self).wf(),
            cmd_index < N,
        ensures
            final(self).wf(),
            final(self).enqueued_counts() == old(self).enqueued_counts().update(
                cmd_index as int,
                wrapping_inc(old(self).enqueued_counts()[cmd_index as int]),
            ),
            final(self).processed_counts() == old(self).processed_counts(),
            final(self).samples() == old(self).samples(),
    {
        let count = self.enqueued[cmd_index];
        let next = if count == u64::MAX {
            0
        } else {
            count + 1
        };
        self.enqueued.set(cmd_index, next);
    }

    /// Increments the processed counter for a command (wrapping past
    /// `u64::MAX`).
    pub fn inc_processed(&mut self, cmd_index: usize)
        requires
            old(self).wf(),
            cmd_index < N,
        ensures
            final(self).wf(),
            final(self).processed_counts() == old(self).processed_counts().update(
                cmd_index as int,
                wrapping_inc(old(self).processed_counts()[cmd_index as int]),
            ),
            final(self).enqueued_counts() == old(self).enqueued_counts(),
            final(self).samples() == old(self).samples(),
    {
        let count = self.processed[cmd_index];
        let next = if count == u64::MAX {
            0
        } else {
            count + 1
        };
        self.processed.set(cmd_index, next);
    }

    /// Returns current depth for a specific command: enqueued less processed,
    /// or zero where more were processed.
    pub fn command_depth(&self, cmd_index: usize) -> (depth: u64)
        requires
            self.wf(),
            cmd_index < N,
        ensures
            depth == saturating_diff(
                self.enqueued_counts()[cmd_index as int],
                self.processed_counts()[cmd_index as int],
            ),
    {
        let enqueued = self.enqueued[cmd_index];
        let processed = self.processed[cmd_index];
        if enqueued >= processed {
            enqueued - processed
        } else {
            0
        }
    }

    /// Returns total enqueued count for a specific command.
    pub fn command_enqueued(&self, cmd_index: usize) -> (count: u64)
        requires
            self.wf(),
            cmd_index < N,
        ensures
            count == self.enqueued_counts()[cmd_index as int],
    {
        self.enqueued[cmd_index]
    }

    /// Returns total processed count for a specific command.
    pub fn command_processed(&self, cmd_index: usize) -> (count: u64)
        requires
            self.wf(),
            cmd_index < N,
        ensures
            count == self.processed_counts()[cmd_index as int],
    {
        self.processed[cmd_index]
    }

    /// Returns aggregate depth across all commands.
    pub fn total_depth(&self) -> (depth: u64)
        requires
            self.wf(),
        ensures
            depth == self.spec_total_depth(),
    {
        let total_enqueued = wrapping_sum(&self.enqueued);
        let total_processed = wrapping_sum(&self.processed);
        if total_enqueued >= total_processed {
            total_enqueued - total_processed
        } else {
            0
        }
    }

    /// Returns aggregate enqueued count, wrapped to 64 bits.
    pub fn total_enqueued(&self) -> (total: u64)
        requires
            self.wf(),
        ensures
            total == wrapped_total(self.enqueued_counts()),
    {
        wrapping_sum(&self.enqueued)
    }

    /// Returns aggregate processed count, wrapped to 64 bits.
    pub fn total_processed(&self) -> (total: u64)
        requires
            self.wf(),
        ensures
            total == wrapped_total(self.processed_counts()),
    {
        wrapping_sum(&self.processed)
    }

    /// Records a sample of the current aggregate depth.
    pub fn record_sample(&mut self)
        requires
            old(self).wf(),
        ensures
            final(self).wf(),
            final(self).enqueued_counts() == old(self).enqueued_counts(),
            final(self).processed_counts() == old(self).processed_counts(),
            final(self).sample_depths() == pushed_samples(
                old(self).sample_depths(),
                old(self).spec_total_depth(),
                DEFAULT_SAMPLE_BUFFER_SIZE as nat,
            ),
    {
        let depth = self.total_depth();
        self.samples.push(depth);
    }

    /// Accounts for one processed command of variant `cmd_index`, as a
    /// service's command loop does after running it: counts it as processed
    /// and as one more command since the last sample, and when a sample is
    /// due records the aggregate depth and restarts the sampling interval.
    /// Returns whether a sample was recorded.
    ///
    /// Whether the time interval has passed is read from the clock, so only
    /// what holds either way is stated; the command count alone makes a
    /// sample due.
    pub fn account_processed(&mut self, sampling: &mut SamplingState, cmd_index: usize) -> (sampled:
        bool)
        requires
            old(self).wf(),
            cmd_index < N,
            old(sampling).commands_since_sample < u64::MAX,
        ensures
            final(self).wf(),
            final(self).enqueued_counts() == old(self).enqueued_counts(),
            final(self).processed_counts() == old(self).processed_counts().update(
                cmd_index as int,
                wrapping_inc(old(self).processed_counts()[cmd_index as int]),
            ),
            old(sampling).commands_since_sample + 1 >= old(sampling).command_interval ==> sampled,
            sampled ==> final(self).sample_depths() == pushed_samples(
                old(self).sample_depths(),
                final(self).spec_total_depth(),
                DEFAULT_SAMPLE_BUFFER_SIZE as nat,
            ),
            sampled ==> final(sampling).commands_since_sample == 0,
            !sampled ==> final(self).samples() == old(self).samples(),
            !sampled ==> final(sampling).commands_since_sample == old(
                sampling,
            ).commands_since_sample + 1,
            final(sampling).command_interval == old(sampling).command_interval,
            final(sampling).time_interval == old(sampling).time_interval,
    {
        self.inc_processed(cmd_index);
        sampling.inc_command();
        if sampling.should_sample() {
            self.record_sample();
            sampling.reset();
            true
        } else {
            false
        }
    }

    /// The sample ring, from which time-windowed statistics are computed.
    pub fn sample_ring(&self) -> (ring: &SampleRing)
        requires
            self.wf(),
        ensures
            ring.wf(),
            ring.samples() == self.samples(),
    {
        &self.samples
    }
}

/// Statistics for a single command type.
#[derive(Debug, Clone, Copy)]
pub struct CommandStats {
    /// Command name (e.g., "send_message").
    pub name: &'static str,
    /// Current queue depth for this command.
    pub depth: u64,
    /// Total commands enqueued.
    pub total_enqueued: u64,
    /// Total commands processed.
    pub total_processed: u64,
}

impl<const N: usize> Default for CommandMetrics<N> {
    fn default() -> (metrics: Self)
        ensures
            metrics.wf(),
            metrics.enqueued_counts() == Seq::new(N as nat, |i: int| 0u64),
            metrics.processed_counts() == Seq::new(N as nat, |i: int| 0u64),
            metrics.samples() == Seq::<(u128, u64)>::empty(),
    {
        Self::new()
    }
}

/// `n` counters, all zero.
fn zeroed_counters(n: usize) -> (counters: Vec<u64>)
    ensures
        counters@ == Seq::new(n as nat, |i: int| 0u64),
{
    let mut counters: Vec<u64> = Vec::new();
    let mut i: usize = 0;
    while i < n
        invariant
            i <= n,
            counters@ =~= Seq::new(i as nat, |j: int| 0u64),
        decreases n - i,
    {
        counters.push(0);
        i = i + 1;
    }
    counters
}

/// The sum of `counts`, wrapped to 64 bits.
fn wrapping_sum(counts: &Vec<u64>) -> (total: u64)
    ensures
        total == wrapped_total(counts@),
{
    let mut sum: u128 = 0;
    let mut i: usize = 0;
    while i < counts.len()
        invariant
            i <= counts.len(),
            sum == count_sum(counts@.take(i as int)),
            sum <= i * 0xFFFF_FFFF_FFFF_FFFFu128,
        decreases counts.len() - i,
    {
        assert(counts@.take(i + 1).drop_last() =~= counts@.take(i as int));
        sum = sum + counts[i] as u128;
        i = i + 1;
    }
    assert(counts@.take(counts.len() as int) =~= counts@);
    (sum % 0x1_0000_0000_0000_0000u128) as u64
}

// ============================================================================
// Sampling state
// ============================================================================

/// Whether a sample is due: `commands` commands were processed since the last
/// sample and at least `command_interval` are asked for, or `elapsed_nanos`
/// have passed and at least `interval_nanos` are asked for.
pub open spec fn spec_sample_due(
    commands: u64,
    command_interval: u64,
    elapsed_nanos: u128,
    interval_nanos: u128,
) -> bool {
    commands >= command_interval || elapsed_nanos >= interval_nanos
}

/// Decides whether a sample is due, from the commands processed since the
/// last sample and the time since it (both intervals in the same unit as the
/// readings).
pub fn sample_due(
    commands: u64,
    command_interval: u64,
    elapsed_nanos: u128,
    interval_nanos: u128,
) -> (due: bool)
    ensures
        due == spec_sample_due(commands, command_interval, elapsed_nanos, interval_nanos),
{
    commands >= command_interval || elapsed_nanos >= interval_nanos
}

/// Sampling state tracked per-actor (not shared, lives in service struct).
pub struct SamplingState {
    /// Last time a sample was recorded.
    pub last_sample_time: Instant,
    /// Commands processed since last sample.
    pub commands_since_sample: u64,
    /// Sample after this many commands.
    pub command_interval: u64,
    /// Sample after this much time, in nanoseconds.
    pub time_interval: u128,
}

impl SamplingState {
    /// Creates new sampling state with default intervals (100 commands or
    /// 100 milliseconds).
    pub fn new() -> (state: Self)
        ensures
            state.commands_since_sample == 0,
            state.command_interval == DEFAULT_SAMPLE_COMMAND_INTERVAL,
            state.time_interval == DEFAULT_SAMPLE_INTERVAL_MS * NANOS_PER_MILLI,
    {
        SamplingState {
            last_sample_time: instant_now(),
            commands_since_sample: 0,
            command_interval: DEFAULT_SAMPLE_COMMAND_INTERVAL,
            time_interval: DEFAULT_SAMPLE_INTERVAL_MS as u128 * NANOS_PER_MILLI,
        }
    }

    /// Checks if a sample should be taken (N commands OR M time elapsed).
    ///
    /// The time since the last sample is read from the clock, so only what
    /// holds whatever it reads is stated: the count alone makes a sample due.
    /// Without it, the answer is `sample_due` of the count and the time read.
    pub fn should_sample(&self) -> (due: bool)
        ensures
            self.commands_since_sample >= self.command_interval ==> due,
            self.time_interval == 0 ==> due,
    {
        if self.commands_since_sample >= self.command_interval {
            return true;
        }
        let elapsed = instant_elapsed(&self.last_sample_time);
        let elapsed_nanos = duration_nanos(&elapsed);
        sample_due(
            self.commands_since_sample,
            self.command_interval,
            elapsed_nanos,
            self.time_interval,
        )
    }

    /// Resets state after taking a sample: no commands since it, and the
    /// sample time is now.
    pub fn reset(&mut self)
        ensures
            final(self).commands_since_sample == 0,
            final(self).command_interval == old(self).command_interval,
            final(self).time_interval == old(self).time_interval,
    {
        self.commands_since_sample = 0;
        self.last_sample_time = instant_now();
    }

    /// Increments command count.
    pub fn inc_command(&mut self)
        requires
            old(self).commands_since_sample < u64::MAX,
        ensures
            final(self).commands_since_sample == old(self).commands_since_sample + 1,
            final(self).command_interval == old(self).command_interval,
            final(self).time_interval == old(self).time_interval,
            final(self).last_sample_time == old(self).last_sample_time,
    {
        self.commands_since_sample = self.commands_since_sample + 1;
    }
}

impl Default for SamplingState {
    fn default() -> (state: Self)
        ensures
            state.commands_since_sample == 0,
            state.command_interval == DEFAULT_SAMPLE_COMMAND_INTERVAL,
            state.time_interval == DEFAULT_SAMPLE_INTERVAL_MS * NANOS_PER_MILLI,
    {
        Self::new()
    }
}

// ============================================================================
// Laws
// ============================================================================

/// The per-command depths of counters `enqueued` and `processed`.
pub open spec fn command_depths(enqueued: Seq<u64>, processed: Seq<u64>) -> Seq<u64> {
    Seq::new(enqueued.len(), |i: int| saturating_diff(enqueued[i], processed[i]))
}

/// A command's depth counts its pending commands: enqueuing one raises it by
/// one, and processing a pending one lowers it by one (while neither counter
/// has reached `u64::MAX`).
pub proof fn law_depth_counts_pending(enqueued: u64, processed: u64)
    requires
        enqueued < u64::MAX,
        processed < u64::MAX,
        processed <= enqueued,
    ensures
        saturating_diff(wrapping_inc(enqueued), processed) == saturating_diff(enqueued, processed)
            + 1,
        processed < enqueued ==> saturating_diff(enqueued, wrapping_inc(processed))
            == saturating_diff(enqueued, processed) - 1,
{
}

/// Enqueuing a command and then processing it leaves its depth as it was
/// (while neither counter has reached `u64::MAX`).
pub proof fn law_enqueue_then_process_keeps_depth(enqueued: u64, processed: u64)
    requires
        enqueued < u64::MAX,
        processed < u64::MAX,
    ensures
        saturating_diff(wrapping_inc(enqueued), wrapping_inc(processed)) == saturating_diff(
            enqueued,
            processed,
        ),
{
}

/// The aggregate depth is the sum of the per-command depths, where no command
/// was processed more often than it was enqueued and the enqueued total fits
/// in 64 bits.
pub proof fn law_total_depth_is_sum_of_command_depths<const N: usize>(metrics: CommandMetrics<N>)
    requires
        metrics.wf(),
        forall|i: int|
            0 <= i < N ==> #[trigger] metrics.processed_counts()[i]
                <= metrics.enqueued_counts()[i],
        count_sum(metrics.enqueued_counts()) <= u64::MAX,
    ensures
        metrics.spec_total_depth() == count_sum(
            command_depths(metrics.enqueued_counts(), metrics.processed_counts()),
        ),
{
    let e = metrics.enqueued_counts();
    let p = metrics.processed_counts();
    lemma_sum_of_differences(e, p);
    lemma_count_sum_nonneg(command_depths(e, p));
    assert(count_sum(p) <= count_sum(e));
    lemma_count_sum_nonneg(p);
}

/// Sums are never negative.
proof fn lemma_count_sum_nonneg(counts: Seq<u64>)
    ensures
        count_sum(counts) >= 0,
    decreases counts.len(),
{
    if counts.len() > 0 {
        lemma_count_sum_nonneg(counts.drop_last());
    }
}

/// Where `b` is pointwise no larger than `a`, the sum of the differences is
/// the difference of the sums.
proof fn lemma_sum_of_differences(a: Seq<u64>, b: Seq<u64>)
    requires
        a.len() == b.len(),
        forall|i: int| 0 <= i < a.len() ==> #[trigger] b[i] <= a[i],
    ensures
        count_sum(command_depths(a, b)) == count_sum(a) - count_sum(b),
    decreases a.len(),
{
    if a.len() > 0 {
        let a0 = a.drop_last();
        let b0 = b.drop_last();
        assert forall|i: int| 0 <= i < a0.len() implies #[trigger] b0[i] <= a0[i] by {
            assert(b0[i] == b[i] && a0[i] == a[i]);
        }
        lemma_sum_of_differences(a0, b0);
        assert(command_depths(a, b).drop_last() =~= command_depths(a0, b0));
        assert(b[a.len() - 1] <= a[a.len() - 1]);
    }
}

/// The ring keeps the newest samples, newest first, up to its capacity: a
/// push puts the new sample in front, shifts the others back by one, and
/// drops the oldest only when the ring was full.
pub proof fn law_ring_keeps_newest<T>(samples: Seq<T>, sample: T, cap: nat)
    requires
        0 < cap,
        samples.len() <= cap,
    ensures
        pushed_samples(samples, sample, cap).len() == if samples.len() < cap {
            samples.len() + 1
        } else {
            cap
        },
        pushed_samples(samples, sample, cap)[0] == sample,
        forall|i: int|
            1 <= i < pushed_samples(samples, sample, cap).len() ==> #[trigger] pushed_samples(
                samples,
                sample,
                cap,
            )[i] == samples[i - 1],
{
}

/// A window that starts when the ring was created covers every sample held,
/// and no window covers more.
pub proof fn law_window_from_start_covers_all(samples: Seq<(u128, u64)>, since: u128)
    ensures
        window_stats(samples, 0).2 == samples.len(),
        window_stats(samples, since).2 <= samples.len(),
    decreases samples.len(),
{
    lemma_recent_count_bound(samples, since);
    lemma_recent_count_all(samples);
}

proof fn lemma_recent_count_bound(samples: Seq<(u128, u64)>, since: u128)
    ensures
        recent_count(samples, since) <= samples.len(),
    decreases samples.len(),
{
    if samples.len() > 0 {
        lemma_recent_count_bound(samples.drop_first(), since);
    }
}

proof fn lemma_recent_count_all(samples: Seq<(u128, u64)>)
    ensures
        recent_count(samples, 0) == samples.len(),
    decreases samples.len(),
{
    if samples.len() > 0 {
        lemma_recent_count_all(samples.drop_first());
    }
}

/// Counted commands alone decide whether a sample is due while the time
/// interval has not passed: a sample is due exactly once `command_interval`
/// commands were processed since the last one.
pub proof fn law_sample_due_by_count(
    commands: u64,
    command_interval: u64,
    elapsed_nanos: u128,
    interval_nanos: u128,
)
    requires
        elapsed_nanos < interval_nanos,
    ensures
        spec_sample_due(commands, command_interval, elapsed_nanos, interval_nanos) == (commands
            >= command_interval),
{
}

/// A counter after `times` wrapping increments.
pub open spec fn counter_after(count: u64, times: nat) -> u64
    decreases times,
{
    if times == 0 {
        count
    } else {
        wrapping_inc(counter_after(count, (times - 1) as nat))
    }
}

/// `times` increments of a counter add `times`, while the total stays within
/// `u64::MAX`: no increment is lost.
pub proof fn law_increments_add_up(count: u64, times: nat)
    requires
        count + times <= u64::MAX,
    ensures
        counter_after(count, times) == count + times,
    decreases times,
{
    if times > 0 {
        law_increments_add_up(count, (times - 1) as nat);
    }
}

/// The samples of a ring of `cap` slots after the samples of `pushed` are
/// pushed, oldest first, onto `samples`.
pub open spec fn pushed_all<T>(samples: Seq<T>, pushed: Seq<T>, cap: nat) -> Seq<T>
    decreases pushed.len(),
{
    if pushed.len() == 0 {
        samples
    } else {
        pushed_samples(pushed_all(samples, pushed.drop_last(), cap), pushed.last(), cap)
    }
}

/// Pushing `n` samples onto an empty ring of `cap` slots leaves the newest
/// `min(n, cap)` of them, newest first: the ring never grows past its slots.
pub proof fn law_ring_keeps_last_pushes<T>(pushed: Seq<T>, cap: nat)
    requires
        0 < cap,
    ensures
        pushed_all(Seq::<T>::empty(), pushed, cap).len() == if pushed.len() < cap {
            pushed.len()
        } else {
            cap
        },
        forall|i: int|
            0 <= i < pushed_all(Seq::<T>::empty(), pushed, cap).len() ==> #[trigger] pushed_all(
                Seq::<T>::empty(),
                pushed,
                cap,
            )[i] == pushed[pushed.len() - 1 - i],
    decreases pushed.len(),
{
    if pushed.len() > 0 {
        let before = pushed.drop_last();
        law_ring_keeps_last_pushes(before, cap);
        let prev = pushed_all(Seq::<T>::empty(), before, cap);
        law_ring_keeps_newest(prev, pushed.last(), cap);
        let now = pushed_all(Seq::<T>::empty(), pushed, cap);
        assert forall|i: int| 0 <= i < now.len() implies #[trigger] now[i] == pushed[pushed.len() - 1 - i] by {
            if i > 0 {
                assert(now[i] == prev[i - 1]);
                assert(prev[i - 1] == before[before.len() - 1 - (i - 1)]);
            }
        }
    }
}

/// The largest depth of a prefix never exceeds that of a longer prefix.
proof fn lemma_depth_max_prefix(samples: Seq<(u128, u64)>, k1: int, k2: int)
    requires
        0 <= k2 <= k1 <= samples.len(),
    ensures
        depth_max(samples.take(k2)) <= depth_max(samples.take(k1)),
    decreases k1 - k2,
{
    if k2 < k1 {
        lemma_depth_max_prefix(samples, k1 - 1, k2);
        assert(samples.take(k1).drop_last() =~= samples.take(k1 - 1));
    }
}

/// The recent count never grows with a later cutoff.
proof fn lemma_recent_count_antitone(samples: Seq<(u128, u64)>, early: u128, late: u128)
    requires
        early <= late,
    ensures
        recent_count(samples, late) <= recent_count(samples, early),
    decreases samples.len(),
{
    if samples.len() > 0 {
        lemma_recent_count_antitone(samples.drop_first(), early, late);
    }
}

/// An earlier cutoff never sees fewer samples or a lower largest depth.
pub proof fn law_window_grows_with_earlier_cutoff(samples: Seq<(u128, u64)>, early: u128, late: u128)
    requires
        early <= late,
    ensures
        window_stats(samples, early).2 >= window_stats(samples, late).2,
        window_stats(samples, early).1 >= window_stats(samples, late).1,
{
    lemma_recent_count_antitone(samples, early, late);
    lemma_recent_count_bound(samples, early);
    lemma_depth_max_prefix(
        samples,
        recent_count(samples, early) as int,
        recent_count(samples, late) as int,
    );
}

/// A window whose cutoff is no later than the newest sample's time sees that
/// sample: its count is at least one and its largest depth at least that
/// sample's depth.
pub proof fn law_window_sees_newest_sample(samples: Seq<(u128, u64)>, since: u128)
    requires
        samples.len() > 0,
        samples[0].0 >= since,
    ensures
        window_stats(samples, since).2 >= 1,
        window_stats(samples, since).1 >= samples[0].1,
{
    lemma_recent_count_bound(samples, since);
    let k = recent_count(samples, since) as int;
    lemma_depth_max_prefix(samples, k, 1);
    assert(samples.take(1).drop_last() =~= samples.take(0));
}

/// Whether `samples` run from newest to oldest: no sample is taken later than
/// one held before it.
pub open spec fn newest_first(samples: Seq<(u128, u64)>) -> bool {
    forall|i: int, j: int| 0 <= i < j < samples.len() ==> #[trigger] samples[i].0 >= #[trigger] samples[j].0
}

/// Pushing a sample taken no earlier than the newest one held keeps the
/// samples newest first.
pub proof fn law_push_in_time_order_keeps_newest_first(
    samples: Seq<(u128, u64)>,
    at: u128,
    depth: u64,
    cap: nat,
)
    requires
        cap > 0,
        newest_first(samples),
        samples.len() > 0 ==> at >= samples[0].0,
    ensures
        newest_first(pushed_samples(samples, (at, depth), cap)),
{
    let pushed = pushed_samples(samples, (at, depth), cap);
    assert forall|i: int, j: int| 0 <= i < j < pushed.len() implies #[trigger] pushed[i].0 >= #[trigger] pushed[j].0 by {
        assert(pushed[j] == samples[j - 1]);
        if i > 0 {
            assert(pushed[i] == samples[i - 1]);
        } else {
            assert(samples[0].0 >= samples[j - 1].0 || j - 1 == 0);
        }
    }
}

/// On samples held newest first, the window at a cutoff is every sample taken
/// no earlier than the cutoff: a sample is counted exactly when its time is at
/// or after `since`.
pub proof fn law_window_is_every_sample_since_cutoff(samples: Seq<(u128, u64)>, since: u128)
    requires
        newest_first(samples),
    ensures
        forall|j: int| 0 <= j < samples.len() ==>
            (#[trigger] samples[j].0 >= since <==> j < recent_count(samples, since)),
    decreases samples.len(),
{
    if samples.len() > 0 {
        let rest = samples.drop_first();
        assert(newest_first(rest)) by {
            assert forall|i: int, j: int| 0 <= i < j < rest.len() implies #[trigger] rest[i].0 >= #[trigger] rest[j].0 by {
                assert(rest[i] == samples[i + 1]);
                assert(rest[j] == samples[j + 1]);
            }
        }
        law_window_is_every_sample_since_cutoff(rest, since);
        assert forall|j: int| 0 <= j < samples.len() implies
            (#[trigger] samples[j].0 >= since <==> j < recent_count(samples, since)) by {
            if j > 0 {
                assert(samples[j] == rest[j - 1]);
                assert(samples[0].0 >= samples[j].0);
            }
        }
    }
}

/// Counting each of a command's pending commands as processed, as the main
/// loop does for every command it drains, leaves its depth at zero: after
/// `enqueued - processed` counted commands, nothing is pending.
pub proof fn law_drained_commands_leave_no_depth(enqueued: u64, processed: u64)
    requires
        processed <= enqueued,
    ensures
        counter_after(processed, (enqueued - processed) as nat) == enqueued,
        saturating_diff(enqueued, counter_after(processed, (enqueued - processed) as nat)) == 0,
{
    law_increments_add_up(processed, (enqueued - processed) as nat);
}

} // verus!
