//! The byte-traffic accountant: one owner of a 64-bit counter fed by
//! samples from the relay's copy tasks, published to a snapshot every
//! minute, and reset to zero by the daily tick.

use vstd::prelude::*;

verus! {

/// The traffic counter and its published snapshot.
pub struct TrafficAccountant {
    bytes_transferred: u64,
    snapshot: u64,
}

impl TrafficAccountant {
    /// The running counter.
    pub closed spec fn spec_counter(&self) -> u64 {
        self.bytes_transferred
    }

    /// The last published snapshot.
    pub closed spec fn spec_snapshot(&self) -> u64 {
        self.snapshot
    }

    /// A zeroed accountant.
    pub fn new() -> (r: TrafficAccountant)
        ensures
            r.spec_counter() == 0,
            r.spec_snapshot() == 0,
    {
        TrafficAccountant { bytes_transferred: 0, snapshot: 0 }
    }

    /// Adds one byte-count sample.  The counter never decreases
    /// between daily resets; at the top of its range it saturates.
    pub fn on_sample(&mut self, n: u64)
        ensures
            final(self).spec_counter() == spec_add_sample(old(self).spec_counter(), n),
            final(self).spec_counter() >= old(self).spec_counter(),
            final(self).spec_snapshot() == old(self).spec_snapshot(),
    {
        if n <= u64::MAX - self.bytes_transferred {
            self.bytes_transferred = self.bytes_transferred + n;
        } else {
            self.bytes_transferred = u64::MAX;
        }
    }

    /// The minute tick: publishes the counter's current value.
    pub fn on_snapshot_tick(&mut self)
        ensures
            final(self).spec_snapshot() == old(self).spec_counter(),
            final(self).spec_counter() == old(self).spec_counter(),
    {
        self.snapshot = self.bytes_transferred;
    }

    /// The daily tick: the counter starts over at zero.
    pub fn on_daily_tick(&mut self)
        ensures
            final(self).spec_counter() == 0,
            final(self).spec_snapshot() == old(self).spec_snapshot(),
    {
        self.bytes_transferred = 0;
    }

    /// The last published snapshot.
    pub fn snapshot(&self) -> (r: u64)
        ensures
            r == self.spec_snapshot(),
    {
        self.snapshot
    }
}

/// One sample added to the counter, saturating at the top.
pub open spec fn spec_add_sample(c: u64, n: u64) -> u64 {
    if c + n <= u64::MAX {
        (c + n) as u64
    } else {
        u64::MAX
    }
}

/// The counter after a run of samples.
pub open spec fn spec_apply_samples(c: u64, samples: Seq<u64>) -> u64
    decreases samples.len(),
{
    if samples.len() == 0 {
        c
    } else {
        spec_apply_samples(spec_add_sample(c, samples[0]), samples.drop_first())
    }
}

/// Between daily resets the counter is monotonically non-decreasing:
/// any run of samples leaves it at least where it started.  After the
/// daily tick it is zero, which [`TrafficAccountant::on_daily_tick`]
/// states directly.
pub proof fn lemma_counter_monotone(c: u64, samples: Seq<u64>)
    ensures
        spec_apply_samples(c, samples) >= c,
    decreases samples.len(),
{
    if samples.len() > 0 {
        lemma_counter_monotone(spec_add_sample(c, samples[0]), samples.drop_first());
    }
}

} // verus!
