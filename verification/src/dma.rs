//! Model of the timer/DMA scan engine.
//!
//! A free-running 16-bit counter counts up to `compare_max` and reloads. Two
//! compare channels fire inside each period: at `compare_write` the next
//! column bit pattern is asserted on the column port, at `compare_read` the
//! row-input port is latched. One period drives one column, so a full matrix
//! pass takes one period per column, and the per-column rate is the scan
//! frequency times the column count.
//!
//! [`column_write_masks`] computes the ring of port words the write channel
//! cycles through: each word sets exactly one column line and resets all the
//! others (reset mask in the high half, set mask in the low half, the port's
//! set/reset-register convention). The ring holds the column sequence twice,
//! so the engine can ping-pong between the two halves.

use vstd::prelude::*;

verus! {

/// Number of buffer halves the ping-pong rings alternate between.
pub const LINKED_LIST_LENGTH: usize = 2;

/// Largest value a compare register can hold: the counter is 16 bits wide.
pub const MAX_COMPARE_VALUE: u32 = 65535;

/// Why a timer configuration was refused.
#[derive(Debug, Clone, Copy, PartialEq, Eq, Structural)]
pub enum TimerConfigError {
    /// `compare_max` does not fit the 16-bit counter.
    CompareMaxTooLarge,
    /// `compare_read` lies past the end of the counter period.
    CompareReadAfterMax,
    /// The column pattern would be asserted only after the rows are read.
    CompareWriteAfterRead,
    /// A zero frequency would never fire a compare event.
    ZeroFrequency,
}

/// A configuration is sound when the compare points are ordered inside the
/// counter period: write first, read second, reload last, all within the
/// 16-bit counter domain, at a non-zero rate.
pub open spec fn timer_config_ok(
    frequency: u32,
    compare_write: u32,
    compare_read: u32,
    compare_max: u32,
) -> bool {
    frequency >= 1 && compare_write <= compare_read && compare_read <= compare_max && compare_max
        <= MAX_COMPARE_VALUE
}

/// The scan timer, modelled by the configuration it was programmed with.
/// Driving the hardware counter itself is left to the platform layer, which
/// refuses to start before a configuration has been accepted.
pub struct DmaTimer {
    frequency: u32,
    compare_write: u32,
    compare_read: u32,
    compare_max: u32,
    configured: bool,
    running: bool,
}

impl DmaTimer {
    /// Whether a configuration has been accepted.
    pub closed spec fn is_configured(self) -> bool {
        self.configured
    }

    /// Whether the counter has been started.
    pub closed spec fn is_running(self) -> bool {
        self.running
    }

    /// The accepted configuration as `(frequency, write, read, max)`.
    pub closed spec fn config(self) -> (u32, u32, u32, u32) {
        (self.frequency, self.compare_write, self.compare_read, self.compare_max)
    }

    /// A fresh, unconfigured, stopped timer.
    pub fn new() -> (t: Self)
        ensures
            !t.is_configured(),
            !t.is_running(),
    {
        DmaTimer {
            frequency: 0,
            compare_write: 0,
            compare_read: 0,
            compare_max: 0,
            configured: false,
            running: false,
        }
    }

    /// Upper bound of the compare registers: the counter counts 16 bits.
    pub fn max_compare_value(&self) -> (max: u32)
        ensures
            max == MAX_COMPARE_VALUE,
    {
        MAX_COMPARE_VALUE
    }

    /// Programs the counter period and the two compare channels. A
    /// configuration that violates `write <= read <= max <= 65535` (or a
    /// zero frequency) is refused before anything is programmed, so a
    /// misconfigured timer can never start.
    pub fn configure(
        &mut self,
        frequency: u32,
        compare_write: u32,
        compare_read: u32,
        compare_max: u32,
    ) -> (r: Result<(), TimerConfigError>)
        ensures
            final(self).is_running() == old(self).is_running(),
            timer_config_ok(frequency, compare_write, compare_read, compare_max) ==> r is Ok
                && final(self).is_configured() && final(self).config() == (
                frequency,
                compare_write,
                compare_read,
                compare_max,
            ),
            !timer_config_ok(frequency, compare_write, compare_read, compare_max) ==> *final(self)
                == *old(self),
            r == (if compare_max > MAX_COMPARE_VALUE {
                Err::<(), TimerConfigError>(TimerConfigError::CompareMaxTooLarge)
            } else if compare_read > compare_max {
                Err::<(), TimerConfigError>(TimerConfigError::CompareReadAfterMax)
            } else if compare_write > compare_read {
                Err::<(), TimerConfigError>(TimerConfigError::CompareWriteAfterRead)
            } else if frequency == 0 {
                Err::<(), TimerConfigError>(TimerConfigError::ZeroFrequency)
            } else {
                Ok::<(), TimerConfigError>(())
            }),
    {
        if compare_max > MAX_COMPARE_VALUE {
            Err(TimerConfigError::CompareMaxTooLarge)
        } else if compare_read > compare_max {
            Err(TimerConfigError::CompareReadAfterMax)
        } else if compare_write > compare_read {
            Err(TimerConfigError::CompareWriteAfterRead)
        } else if frequency == 0 {
            Err(TimerConfigError::ZeroFrequency)
        } else {
            self.frequency = frequency;
            self.compare_write = compare_write;
            self.compare_read = compare_read;
            self.compare_max = compare_max;
            self.configured = true;
            Ok(())
        }
    }

    /// Starts the free-running counter; only an accepted configuration can
    /// be started.
    pub fn start(&mut self)
        requires
            old(self).is_configured(),
        ensures
            final(self).is_running(),
            final(self).is_configured(),
            final(self).config() == old(self).config(),
    {
        self.running = true;
    }

    /// The rate at which single columns are driven: one counter period per
    /// column means `frequency` full passes per second need `frequency *
    /// columns` periods per second.
    pub fn column_rate(&self, columns: u32) -> (rate: u64)
        ensures
            rate == self.config().0 * columns,
    {
        let f = self.frequency as u64;
        let c = columns as u64;
        proof {
            assert(f * c <= 0xFFFF_FFFFu64 * 0xFFFF_FFFFu64) by (nonlinear_arith)
                requires
                    f <= 0xFFFF_FFFFu64,
                    c <= 0xFFFF_FFFFu64,
            ;
        }
        f * c
    }
}

/// The port word that drives column `c` alone, out of `cols` columns: the
/// low half sets line `c`, the high half resets every other column line.
pub open spec fn column_mask(cols: u32, c: u32) -> u32
    recommends
        1 <= cols <= 16,
        c < cols,
{
    (((all_columns_mask(cols) ^ (1u32 << c)) << 16) | (1u32 << c)) as u32
}

/// The mask with one bit per column line.
pub open spec fn all_columns_mask(cols: u32) -> u32
    recommends
        1 <= cols <= 16,
{
    ((1u32 << cols) - 1) as u32
}

/// Builds the write-channel ring: `2 * cols` port words, cycling twice
/// through the columns in order, so entry `i` drives column `i % cols`.
pub fn column_write_masks(cols: u32) -> (masks: Vec<u32>)
    requires
        1 <= cols <= 16,
    ensures
        masks@.len() == 2 * cols,
        forall|i: int| 0 <= i < 2 * cols ==> masks@[i] == column_mask(cols, (i % (cols as int)) as u32),
{
    proof {
        assert(1u32 << cols >= 1) by (bit_vector)
            requires
                cols <= 16,
        ;
    }
    let reset_mask = (1u32 << cols) - 1;
    let mut masks: Vec<u32> = Vec::new();
    let mut i: u32 = 0;
    while i < 2 * cols
        invariant
            1 <= cols <= 16,
            i <= 2 * cols,
            reset_mask == all_columns_mask(cols),
            masks@.len() == i,
            forall|j: int|
                0 <= j < i ==> masks@[j] == column_mask(cols, (j % (cols as int)) as u32),
        decreases 2 * cols - i,
    {
        let pos = 1u32 << (i % cols);
        masks.push(((reset_mask ^ pos) << 16) | pos);
        i = i + 1;
    }
    masks
}

/// Each ring entry drives exactly its own column: in the word for column
/// `c`, the set half carries line `j` exactly when `j == c`, and the reset
/// half carries line `j` exactly when `j != c`.
pub proof fn lemma_mask_drives_one_column(cols: u32, c: u32, j: u32)
    by (bit_vector)
    requires
        1 <= cols <= 16,
        c < cols,
        j < cols,
    ensures
        (column_mask(cols, c) & (1u32 << j)) != 0 <==> j == c,
        ((column_mask(cols, c) >> 16) & (1u32 << j)) != 0 <==> j != c,
{
}

/// What the scan loop should do after one attempted buffer read.
#[derive(Debug, Clone, Copy, PartialEq, Eq, Structural)]
pub enum ReadDirective {
    /// The pass arrived: process it.
    Process,
    /// The read failed transiently: retry, a dropped pass is harmless.
    Retry,
    /// Failures persisted past the bounded retry budget: surface a fatal
    /// diagnostic instead of looping forever.
    Fail,
}

/// The bounded retry policy for the awaited buffer read: a dropped scan
/// pass is retried, but failures are counted, and once they persist past
/// the configured limit the loop is told to give up loudly. A successful
/// read clears the count.
#[derive(Debug, Clone, Copy, PartialEq, Eq, Structural)]
pub struct ReadRetryPolicy {
    failures: u32,
    limit: u32,
}

impl ReadRetryPolicy {
    /// Consecutive failures seen so far.
    pub closed spec fn failure_count(self) -> u32 {
        self.failures
    }

    /// How many consecutive failures are tolerated.
    pub closed spec fn retry_limit(self) -> u32 {
        self.limit
    }

    /// A fresh policy tolerating `limit` consecutive failures.
    pub fn new(limit: u32) -> (p: Self)
        ensures
            p.failure_count() == 0,
            p.retry_limit() == limit,
    {
        ReadRetryPolicy { failures: 0, limit }
    }

    /// Accounts for one read attempt and decides how the loop goes on:
    /// delivery processes the pass and clears the count; a failure within
    /// the budget asks for a retry; a failure at the budget gives up.
    pub fn on_read(&mut self, delivered: bool) -> (directive: ReadDirective)
        ensures
            final(self).retry_limit() == old(self).retry_limit(),
            delivered ==> directive == ReadDirective::Process && final(self).failure_count()
                == 0,
            !delivered && old(self).failure_count() < old(self).retry_limit() ==> directive
                == ReadDirective::Retry && final(self).failure_count() == old(
                self,
            ).failure_count() + 1,
            !delivered && old(self).failure_count() >= old(self).retry_limit() ==> directive
                == ReadDirective::Fail && final(self).failure_count() == old(
                self,
            ).failure_count(),
    {
        if delivered {
            self.failures = 0;
            ReadDirective::Process
        } else if self.failures < self.limit {
            self.failures = self.failures + 1;
            ReadDirective::Retry
        } else {
            ReadDirective::Fail
        }
    }
}

/// Which buffer half pass number `pass` lands in.
pub fn ping_pong_half(pass: u64) -> (half: usize)
    ensures
        half == pass % 2,
        half < LINKED_LIST_LENGTH,
{
    (pass % 2) as usize
}

/// The ping-pong discipline keeps producer and consumer apart: while the
/// engine fills the half of pass `pass + 1`, the consumer reads the half of
/// pass `pass`, and the two are never the same.
pub proof fn lemma_ping_pong_disjoint(pass: u64)
    requires
        pass < u64::MAX,
    ensures
        (pass + 1) % 2 != pass % 2,
{
}

} // verus!
