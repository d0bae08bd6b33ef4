//! The timing side channel: how long a CPU identification query takes.
//!
//! A hypervisor that intercepts the query makes it slower by orders of
//! magnitude. The query is timed repeatedly, the fastest and the slowest
//! runs are set aside as noise, and the mean of the rest is held against a
//! threshold.

use vstd::prelude::*;
use crate::sorting::{ascending, lemma_ascending, lemma_ascending_unique, sort_ascending};

verus! {

/// Number of fastest runs set aside in the reference calibration.
pub const LOW_OUTLIERS: usize = 5;

/// Number of runs averaged in the reference calibration.
pub const KEPT_SAMPLES: usize = 100;

/// Number of slowest runs set aside in the reference calibration.
pub const HIGH_OUTLIERS: usize = 5;

/// Mean latency, in cycles, above which the query is taken to be
/// intercepted. Calibrated on one reference platform; another clock source
/// calls for another value.
pub const CYCLE_THRESHOLD: u64 = 1000;

/// Sum of the samples of `s`.
pub open spec fn sum(s: Seq<u64>) -> int
    decreases s.len(),
{
    if s.len() == 0 {
        0
    } else {
        sum(s.drop_last()) + s.last()
    }
}

/// The samples that remain of `cycles` once the `low` smallest are dropped
/// and the next `samples` are kept.
pub open spec fn kept(cycles: Seq<u64>, low: int, samples: int) -> Seq<u64> {
    ascending(cycles).subrange(low, low + samples)
}

/// The number the sum of the kept samples is divided by: their count, or 1
/// where none is kept.
pub open spec fn divisor(samples: int) -> int {
    if samples >= 1 {
        samples
    } else {
        1
    }
}

/// Mean of the kept samples, rounded down.
pub open spec fn trimmed_mean(cycles: Seq<u64>, low: int, samples: int) -> int {
    sum(kept(cycles, low, samples)) / divisor(samples)
}

/// Cycles that passed between two readings of the time-stamp counter. The
/// counter only grows, so the second reading is the larger one; should it
/// have wrapped round in between, the difference is taken modulo 2^64.
pub open spec fn elapsed(before: u64, after: u64) -> u64 {
    if after >= before {
        (after - before) as u64
    } else {
        (after - before + 0x1_0000_0000_0000_0000) as u64
    }
}

/// A sum of `n` samples is at most `n` times the largest sample there is.
proof fn lemma_sum_bound(s: Seq<u64>)
    ensures
        0 <= sum(s) <= s.len() * u64::MAX,
    decreases s.len(),
{
    if s.len() > 0 {
        lemma_sum_bound(s.drop_last());
    }
}

/// Trimmed mean of one measurement run: sorts the samples, drops the `low`
/// smallest and the `high` largest, and returns the mean of the `samples`
/// that remain, rounded down. Where no sample is kept the result is 0.
pub fn cpuid_cycle_count_avg(cycles: Vec<u64>, low: usize, samples: usize, high: usize) -> (avg:
    u64)
    requires
        cycles@.len() == low + samples + high,
    ensures
        avg == trimmed_mean(cycles@, low as int, samples as int),
        samples == 0 ==> avg == 0,
{
    let sorted = sort_ascending(&cycles);
    proof {
        lemma_ascending(cycles@);
    }
    let ghost middle = kept(cycles@, low as int, samples as int);
    let end: usize = cycles.len() - high;
    let mut total: u128 = 0;
    let mut i: usize = low;
    while i < end
        invariant
            low <= i <= end <= sorted@.len(),
            end == low + samples,
            middle == sorted@.subrange(low as int, end as int),
            total == sum(middle.take(i - low)),
        decreases end - i,
    {
        proof {
            let next = middle.take(i + 1 - low);
            assert(next.drop_last() =~= middle.take(i - low));
            lemma_sum_bound(next);
            assert(next.len() * u64::MAX <= usize::MAX * u64::MAX) by (nonlinear_arith)
                requires
                    next.len() <= usize::MAX,
            ;
        }
        total = total + sorted[i] as u128;
        i += 1;
    }
    proof {
        assert(middle.take(samples as int) =~= middle);
        lemma_sum_bound(middle);
    }
    let count: u128 = if samples == 0 {
        1
    } else {
        samples as u128
    };
    let avg: u128 = total / count;
    assert(avg <= u64::MAX) by (nonlinear_arith)
        requires
            avg == total / count,
            0 <= total <= samples * u64::MAX,
            count == divisor(samples as int),
    ;
    avg as u64
}

/// The trimmed mean depends on which samples were measured and how often
/// each, not on the order in which they came.
pub proof fn lemma_trimmed_mean_ignores_order(a: Seq<u64>, b: Seq<u64>, low: int, samples: int)
    requires
        a.to_multiset() == b.to_multiset(),
    ensures
        trimmed_mean(a, low, samples) == trimmed_mean(b, low, samples),
{
    lemma_ascending(a);
    lemma_ascending_unique(b, ascending(a));
}

/// The sum of `n` samples that all equal `c` is `n * c`.
proof fn lemma_sum_of_constant(s: Seq<u64>, c: u64)
    requires
        forall|i: int| 0 <= i < s.len() ==> s[i] == c,
    ensures
        sum(s) == s.len() * c,
    decreases s.len(),
{
    if s.len() > 0 {
        lemma_sum_of_constant(s.drop_last(), c);
        assert((s.len() - 1) * c + c == s.len() * c) by (nonlinear_arith);
    }
}

/// If every run took the same number of cycles, that number is the trimmed
/// mean, however many runs are dropped, as long as one is kept.
pub proof fn lemma_trimmed_mean_of_constant(cycles: Seq<u64>, c: u64, low: int, samples: int)
    requires
        0 <= low,
        1 <= samples,
        low + samples <= cycles.len(),
        forall|i: int| 0 <= i < cycles.len() ==> cycles[i] == c,
    ensures
        trimmed_mean(cycles, low, samples) == c,
{
    lemma_ascending(cycles);
    let sorted = ascending(cycles);
    let middle = kept(cycles, low, samples);
    assert forall|i: int| 0 <= i < middle.len() implies middle[i] == c by {
        let x = sorted[low + i];
        sorted.to_multiset_ensures();
        cycles.to_multiset_ensures();
        assert(sorted.to_multiset().count(x) > 0);
    }
    lemma_sum_of_constant(middle, c);
    assert((samples * c) / samples == c) by (nonlinear_arith)
        requires
            samples >= 1,
    ;
}

/// Where no sample is kept, the mean is that of an empty sum over the
/// divisor 1: it is 0, whatever was measured.
pub proof fn lemma_trimmed_mean_of_none(cycles: Seq<u64>, low: int)
    requires
        0 <= low <= cycles.len(),
    ensures
        divisor(0) == 1,
        trimmed_mean(cycles, low, 0) == 0,
{
    lemma_ascending(cycles);
}

/// Judges a mean latency: the query is taken to be intercepted exactly when
/// the mean lies above the threshold.
pub fn timing_verdict(avg_cycles: u64, threshold: u64) -> (virtualized: bool)
    ensures
        virtualized == (avg_cycles > threshold),
{
    avg_cycles > threshold
}

/// Cycles that passed between two readings of the time-stamp counter.
pub fn elapsed_cycles(before: u64, after: u64) -> (cycles: u64)
    ensures
        cycles == elapsed(before, after),
{
    after.wrapping_sub(before)
}

/// How many of the fastest runs are dropped, how many runs are kept, and
/// how many of the slowest are dropped.
#[derive(Clone, Copy, Debug, PartialEq, Eq, Structural)]
pub struct TrimConfig {
    pub low: usize,
    pub samples: usize,
    pub high: usize,
}

impl TrimConfig {
    /// Number of runs one measurement takes.
    pub open spec fn total(self) -> int {
        self.low + self.samples + self.high
    }

    /// The reference calibration.
    pub fn reference() -> (config: TrimConfig)
        ensures
            config == (TrimConfig {
                low: LOW_OUTLIERS,
                samples: KEPT_SAMPLES,
                high: HIGH_OUTLIERS,
            }),
    {
        TrimConfig { low: LOW_OUTLIERS, samples: KEPT_SAMPLES, high: HIGH_OUTLIERS }
    }

    /// Number of runs one measurement takes, unless it exceeds what a
    /// `usize` can count.
    pub fn iterations(&self) -> (n: Option<usize>)
        ensures
            n == (if self.total() <= usize::MAX {
                Some(self.total() as usize)
            } else {
                None
            }),
    {
        match self.low.checked_add(self.samples) {
            Some(kept_and_low) => kept_and_low.checked_add(self.high),
            None => None,
        }
    }
}

/// One measurement run in progress: the samples recorded so far, and the
/// trimming they will undergo.
///
/// The sampler decides; its user measures. While `remaining()` is not zero
/// the user reads the time-stamp counter, issues the query, reads the
/// counter again and hands both readings to `record`. Once it is zero,
/// `average` gives the trimmed mean.
pub struct TimingSampler {
    config: TrimConfig,
    cycles: Vec<u64>,
}

impl View for TimingSampler {
    type V = Seq<u64>;

    /// The samples recorded so far, oldest first.
    closed spec fn view(&self) -> Seq<u64> {
        self.cycles@
    }
}

impl TimingSampler {
    #[verifier::type_invariant]
    spec fn well_formed(self) -> bool {
        self.cycles@.len() <= self.config.total() <= usize::MAX
    }

    /// The trimming this run was set up with.
    pub closed spec fn config(self) -> TrimConfig {
        self.config
    }

    /// The run has all the samples it was set up to take.
    pub open spec fn complete(self) -> bool {
        self@.len() == self.config().total()
    }

    /// Starts a run with no sample recorded. There is no run for a
    /// configuration whose total exceeds what a `usize` can count.
    pub fn new(config: TrimConfig) -> (sampler: Option<TimingSampler>)
        ensures
            sampler is Some <==> config.total() <= usize::MAX,
            sampler matches Some(s) ==> s.config() == config && s@ == Seq::<u64>::empty(),
    {
        match config.iterations() {
            Some(_) => Some(TimingSampler { config, cycles: Vec::new() }),
            None => None,
        }
    }

    /// Number of samples still to be taken.
    pub fn remaining(&self) -> (n: usize)
        ensures
            n == self.config().total() - self@.len(),
            n == 0 <==> self.complete(),
    {
        proof {
            use_type_invariant(self);
        }
        self.config.low + self.config.samples + self.config.high - self.cycles.len()
    }

    /// Records the run that took place between the two readings of the
    /// time-stamp counter. A complete run takes no further sample.
    pub fn record(&mut self, before: u64, after: u64)
        ensures
            final(self).config() == old(self).config(),
            final(self)@ == (if old(self).complete() {
                old(self)@
            } else {
                old(self)@.push(elapsed(before, after))
            }),
    {
        proof {
            use_type_invariant(&*self);
        }
        if self.remaining() > 0 {
            // The samples are taken out, extended and put back, so that the
            // sampler is well formed whenever it is looked at.
            let mut cycles: Vec<u64> = Vec::new();
            std::mem::swap(&mut self.cycles, &mut cycles);
            cycles.push(elapsed_cycles(before, after));
            self.cycles = cycles;
        }
    }

    /// Ends the run: the trimmed mean of its samples, if it is complete.
    pub fn average(self) -> (avg: Option<u64>)
        ensures
            avg is Some <==> self.complete(),
            avg matches Some(mean) ==> mean == trimmed_mean(
                self@,
                self.config().low as int,
                self.config().samples as int,
            ),
    {
        if self.remaining() > 0 {
            return None;
        }
        let TrimConfig { low, samples, high } = self.config;
        Some(cpuid_cycle_count_avg(self.cycles, low, samples, high))
    }
}

} // verus!
