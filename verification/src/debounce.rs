//! Per-contact debouncing.
//!
//! A [`Debouncer`] turns the raw electrical level of one matrix point into a
//! settled logical level. A raw sample equal to the settled level clears any
//! pending transition; a differing raw sample opens (or continues) a pending
//! window, and only once the level has stayed different for at least the
//! debounce interval does the settled level flip. A reversal before the
//! interval elapses restarts the window, so chatter never produces a
//! transition.

use vstd::prelude::*;

verus! {

/// What one raw sample does to a debouncer: from a settled level and a
/// pending window, it yields the new settled level, the new pending window,
/// and whether the settled level flipped.
///
/// Timestamps are ticks of a monotonic clock; a sample that claims a time
/// before the pending window opened restarts the window at that time.
pub open spec fn debounce_step(
    settled: bool,
    pending: Option<u64>,
    raw: bool,
    now: u64,
    interval: u64,
) -> (bool, Option<u64>, bool) {
    if raw == settled {
        (settled, None::<u64>, false)
    } else {
        match pending {
            None => (settled, Some(now), false),
            Some(since) => if now >= since && now - since >= interval {
                (raw, None::<u64>, true)
            } else if now < since {
                (settled, Some(now), false)
            } else {
                (settled, Some(since), false)
            },
        }
    }
}

/// Folds [`debounce_step`] over a sequence of `(time, raw)` samples,
/// counting how many times the settled level flipped.
pub open spec fn debounce_run(
    settled: bool,
    pending: Option<u64>,
    samples: Seq<(u64, bool)>,
    interval: u64,
) -> (bool, Option<u64>, nat)
    decreases samples.len(),
{
    if samples.len() == 0 {
        (settled, pending, 0)
    } else {
        let (s1, p1, flipped) = debounce_step(
            settled,
            pending,
            samples[0].1,
            samples[0].0,
            interval,
        );
        let (s2, p2, flips) = debounce_run(s1, p1, samples.drop_first(), interval);
        (s2, p2, flips + if flipped {
            1nat
        } else {
            0nat
        })
    }
}

/// Debounce state of one matrix point.
#[derive(Debug, Clone, Copy, PartialEq, Eq, Structural)]
pub struct Debouncer {
    settled: bool,
    pending: Option<u64>,
}

impl Debouncer {
    /// The level the debouncer has settled on.
    pub closed spec fn settled_level(self) -> bool {
        self.settled
    }

    /// The opening time of the pending transition window, if one is open.
    pub closed spec fn pending_since(self) -> Option<u64> {
        self.pending
    }

    /// A fresh debouncer settled on `level` with no pending transition.
    pub fn new(level: bool) -> (d: Self)
        ensures
            d.settled_level() == level,
            d.pending_since() is None,
    {
        Debouncer { settled: level, pending: None }
    }

    /// The settled level as seen by the scan loop.
    pub fn level(&self) -> (level: bool)
        ensures
            level == self.settled_level(),
    {
        self.settled
    }

    /// Feeds one raw sample taken at time `now`; yields whether the settled
    /// level flipped on this sample.
    pub fn sample(&mut self, raw: bool, now: u64, interval: u64) -> (flipped: bool)
        ensures
            (final(self).settled_level(), final(self).pending_since(), flipped) == debounce_step(
                old(self).settled_level(),
                old(self).pending_since(),
                raw,
                now,
                interval,
            ),
    {
        if raw == self.settled {
            self.pending = None;
            false
        } else {
            match self.pending {
                None => {
                    self.pending = Some(now);
                    false
                },
                Some(since) => {
                    if now >= since && now - since >= interval {
                        self.settled = raw;
                        self.pending = None;
                        true
                    } else {
                        if now < since {
                            self.pending = Some(now);
                        }
                        false
                    }
                },
            }
        }
    }
}

/// Bounce rejection: as long as every sample falls inside one window shorter
/// than the debounce interval (and any already-pending transition opened no
/// earlier than that window), the settled level never flips.
pub proof fn lemma_bounce_rejected(
    settled: bool,
    pending: Option<u64>,
    samples: Seq<(u64, bool)>,
    interval: u64,
    lo: u64,
)
    requires
        pending matches Some(since) ==> since >= lo,
        forall|i: int| 0 <= i < samples.len() ==> lo <= (#[trigger] samples[i]).0,
        forall|i: int| 0 <= i < samples.len() ==> (#[trigger] samples[i]).0 - lo < interval,
    ensures
        debounce_run(settled, pending, samples, interval).0 == settled,
        debounce_run(settled, pending, samples, interval).2 == 0,
        debounce_run(settled, pending, samples, interval).1 matches Some(since) ==> since >= lo,
    decreases samples.len(),
{
    if samples.len() > 0 {
        let (s1, p1, flipped) = debounce_step(settled, pending, samples[0].1, samples[0].0, interval);
        lemma_bounce_rejected(s1, p1, samples.drop_first(), interval, lo);
    }
}

/// A stable differing level settles exactly once: starting with no pending
/// window, a signal that stays at the complement of the settled level over
/// non-decreasing sample times flips the settled level exactly once as soon
/// as a sample arrives at least one interval after the first one.
pub proof fn lemma_stable_level_settles(
    settled: bool,
    samples: Seq<(u64, bool)>,
    interval: u64,
)
    requires
        interval >= 1,
        samples.len() > 0,
        forall|i: int| 0 <= i < samples.len() ==> (#[trigger] samples[i]).1 == !settled,
        forall|i: int, j: int|
            0 <= i <= j < samples.len() ==> (#[trigger] samples[i]).0 <= (#[trigger] samples[j]).0,
        samples.last().0 - samples.first().0 >= interval,
    ensures
        debounce_run(settled, None::<u64>, samples, interval).0 == !settled,
        debounce_run(settled, None::<u64>, samples, interval).2 == 1,
{
    let first = samples.first();
    let (s1, p1, flipped) = debounce_step(settled, None::<u64>, first.1, first.0, interval);
    assert(s1 == settled && p1 == Some(first.0) && !flipped);
    assert(samples.len() >= 2);
    lemma_pending_settles_once(settled, first.0, samples.drop_first(), interval);
}

/// From an open pending window, a stable differing level over non-decreasing
/// times flips exactly once by the time a sample arrives at least one
/// interval after the window opened.
proof fn lemma_pending_settles_once(
    settled: bool,
    since: u64,
    samples: Seq<(u64, bool)>,
    interval: u64,
)
    requires
        samples.len() > 0,
        forall|i: int| 0 <= i < samples.len() ==> (#[trigger] samples[i]).1 == !settled,
        forall|i: int, j: int|
            0 <= i <= j < samples.len() ==> (#[trigger] samples[i]).0 <= (#[trigger] samples[j]).0,
        forall|i: int| 0 <= i < samples.len() ==> (#[trigger] samples[i]).0 >= since,
        samples.last().0 - since >= interval,
    ensures
        debounce_run(settled, Some(since), samples, interval).0 == !settled,
        debounce_run(settled, Some(since), samples, interval).2 == 1,
    decreases samples.len(),
{
    let first = samples.first();
    let (s1, p1, flipped) = debounce_step(settled, Some(since), first.1, first.0, interval);
    if flipped {
        assert(s1 == !settled);
        lemma_settled_level_holds(s1, p1, samples.drop_first(), interval);
    } else {
        assert(first.0 - since < interval);
        assert(samples.len() >= 2);
        lemma_pending_settles_once(settled, since, samples.drop_first(), interval);
    }
}

/// A raw level equal to the settled level never flips it, whatever the
/// sample times are.
proof fn lemma_settled_level_holds(
    settled: bool,
    pending: Option<u64>,
    samples: Seq<(u64, bool)>,
    interval: u64,
)
    requires
        forall|i: int| 0 <= i < samples.len() ==> (#[trigger] samples[i]).1 == settled,
    ensures
        debounce_run(settled, pending, samples, interval).0 == settled,
        debounce_run(settled, pending, samples, interval).2 == 0,
    decreases samples.len(),
{
    if samples.len() > 0 {
        let (s1, p1, flipped) = debounce_step(settled, pending, samples[0].1, samples[0].0, interval);
        lemma_settled_level_holds(s1, p1, samples.drop_first(), interval);
    }
}

} // verus!
