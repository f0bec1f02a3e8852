//! Rolling record of request latencies and the adaptive wait bound.
//!
//! Each completed request appends one sample: a positive duration in
//! milliseconds for a qualifying success, or zero — the sentinel — for a
//! disqualified observation (failure, timeout, degenerate audio).  The
//! mean of the qualifying samples, once enough of them have been seen,
//! drives the per-request timeout.

use vstd::arithmetic::div_mod::{lemma_div_is_ordered, lemma_div_multiples_vanish, lemma_fundamental_div_mod, lemma_hoist_over_denominator, lemma_remainder_lower};
use vstd::arithmetic::mul::{lemma_mul_inequality, lemma_mul_is_distributive_add_other_way};
use vstd::prelude::*;

verus! {

/// Qualifying samples observed before the adaptive timeout replaces the
/// static default.
pub const WARMUP_MIN_SAMPLES: usize = 15;

/// Sum of the qualifying (non-sentinel) samples.
pub open spec fn qsum(s: Seq<u64>) -> int
    decreases s.len(),
{
    if s.len() == 0 {
        0
    } else {
        qsum(s.drop_last()) + if s.last() != 0 {
            s.last() as int
        } else {
            0
        }
    }
}

/// Number of qualifying (non-sentinel) samples.
pub open spec fn qcount(s: Seq<u64>) -> nat
    decreases s.len(),
{
    if s.len() == 0 {
        0
    } else {
        qcount(s.drop_last()) + if s.last() != 0 {
            1nat
        } else {
            0nat
        }
    }
}

/// Number of sentinel samples.
pub open spec fn scount(s: Seq<u64>) -> nat
    decreases s.len(),
{
    if s.len() == 0 {
        0
    } else {
        scount(s.drop_last()) + if s.last() == 0 {
            1nat
        } else {
            0nat
        }
    }
}

/// Mean of the qualifying samples; meaningful only when `qcount(s) > 0`.
pub open spec fn mean_of(s: Seq<u64>) -> int {
    qsum(s) / qcount(s) as int
}

/// Every sample is either qualifying or a sentinel, and the qualifying sum
/// is bounded by the qualifying count times the largest sample value.
pub proof fn lemma_sample_bounds(s: Seq<u64>)
    ensures
        qcount(s) + scount(s) == s.len(),
        0 <= qsum(s) <= qcount(s) * (u64::MAX as int),
    decreases s.len(),
{
    if s.len() > 0 {
        lemma_sample_bounds(s.drop_last());
        lemma_mul_is_distributive_add_other_way(u64::MAX as int, qcount(s.drop_last()) as int, 1);
    }
}

/// Mean, qualifying count and sentinel count of `nums`, where a zero entry
/// is the sentinel; the mean is `None` when no entry qualifies.
pub fn vec_stats(nums: &Vec<u64>) -> (r: (Option<u64>, usize, usize))
    ensures
        r.1 == qcount(nums@),
        r.2 == scount(nums@),
        qcount(nums@) == 0 ==> r.0 is None,
        qcount(nums@) > 0 ==> (r.0 matches Some(m) && m as int == mean_of(nums@)),
{
    let mut i: usize = 0;
    let mut acc: u128 = 0;
    let mut q: usize = 0;
    let mut sc: usize = 0;
    while i < nums.len()
        invariant
            i <= nums@.len(),
            acc == qsum(nums@.take(i as int)),
            q == qcount(nums@.take(i as int)),
            sc == scount(nums@.take(i as int)),
            q + sc == i,
        decreases nums@.len() - i,
    {
        proof {
            assert(nums@.take(i as int + 1).drop_last() =~= nums@.take(i as int));
            lemma_sample_bounds(nums@.take(i as int));
            lemma_mul_inequality(qcount(nums@.take(i as int)) as int, usize::MAX as int, u64::MAX as int);
        }
        let x: u64 = nums[i];
        if x != 0 {
            acc = acc + x as u128;
            q = q + 1;
        } else {
            sc = sc + 1;
        }
        i = i + 1;
    }
    proof {
        assert(nums@.take(i as int) =~= nums@);
    }
    if q > 0 {
        let m: u128 = acc / (q as u128);
        proof {
            lemma_sample_bounds(nums@);
            lemma_div_is_ordered(acc as int, qcount(nums@) * (u64::MAX as int), q as int);
            lemma_div_multiples_vanish(u64::MAX as int, q as int);
        }
        (Some(m as u64), q, sc)
    } else {
        (None, q, sc)
    }
}

/// Append-only record of per-request latency samples, successes only
/// qualifying; created at startup, mutated by completed requests, never
/// reset.
pub struct LatencyTracker {
    samples: Vec<u64>,
}

impl View for LatencyTracker {
    type V = Seq<u64>;

    /// The recorded samples, oldest first; zero entries are sentinels.
    closed spec fn view(&self) -> Seq<u64> {
        self.samples@
    }
}

impl LatencyTracker {
    pub fn new() -> (t: LatencyTracker)
        ensures
            t@ == Seq::<u64>::empty(),
    {
        LatencyTracker { samples: Vec::new() }
    }

    /// Record a qualifying success that took `duration_ms` milliseconds.
    pub fn record(&mut self, duration_ms: u64)
        requires
            duration_ms >= 1,
        ensures
            final(self)@ == old(self)@.push(duration_ms),
    {
        self.samples.push(duration_ms);
    }

    /// Record a disqualified observation: it counts toward diagnostics but
    /// never enters the mean.
    pub fn record_sentinel(&mut self)
        ensures
            final(self)@ == old(self)@.push(0),
    {
        self.samples.push(0);
    }

    /// Mean of the qualifying samples (`None` before any success),
    /// qualifying count, and sentinel count.
    pub fn stats(&self) -> (r: (Option<u64>, usize, usize))
        ensures
            r.1 == qcount(self@),
            r.2 == scount(self@),
            qcount(self@) == 0 ==> r.0 is None,
            qcount(self@) > 0 ==> (r.0 matches Some(m) && m as int == mean_of(self@)),
    {
        vec_stats(&self.samples)
    }
}

/// Mean scaled by the safety factor 11/4 (2.75), saturating at `u64::MAX`.
pub open spec fn spec_scaled_timeout(mean: int) -> int {
    if mean * 11 / 4 > u64::MAX as int {
        u64::MAX as int
    } else {
        mean * 11 / 4
    }
}

/// The wait bound derived from the samples `s`: the scaled mean of the
/// qualifying samples once more than `WARMUP_MIN_SAMPLES` of them have
/// been observed, the static default before that.
pub open spec fn spec_adaptive_timeout(s: Seq<u64>, default_ms: u64) -> int {
    if qcount(s) > WARMUP_MIN_SAMPLES {
        spec_scaled_timeout(mean_of(s))
    } else {
        default_ms as int
    }
}

impl LatencyTracker {
    /// Current wait bound in milliseconds, per `spec_adaptive_timeout`.
    pub fn adaptive_timeout(&self, default_ms: u64) -> (t: u64)
        ensures
            t as int == spec_adaptive_timeout(self@, default_ms),
    {
        let (mean, q, _) = self.stats();
        if q > WARMUP_MIN_SAMPLES {
            match mean {
                Some(m) => {
                    let scaled: u128 = (m as u128) * 11 / 4;
                    if scaled > u64::MAX as u128 {
                        u64::MAX
                    } else {
                        scaled as u64
                    }
                },
                None => {
                    proof {
                        assert(false);
                    }
                    default_ms
                },
            }
        } else {
            default_ms
        }
    }
}

/// A qualifying sample at least as large as the current mean does not
/// lower the mean.
pub proof fn lemma_mean_monotone(s: Seq<u64>, d: u64)
    requires
        qcount(s) > 0,
        d >= 1,
        d as int >= mean_of(s),
    ensures
        qcount(s.push(d)) == qcount(s) + 1,
        mean_of(s.push(d)) >= mean_of(s),
{
    assert(s.push(d).drop_last() =~= s);
    let n: int = qcount(s) as int;
    let m: int = mean_of(s);
    lemma_sample_bounds(s);
    lemma_fundamental_div_mod(qsum(s), n);
    lemma_remainder_lower(qsum(s), n);
    assert(qsum(s) >= n * m);
    assert((n + 1) * m == n * m + m) by {
        lemma_mul_is_distributive_add_other_way(m, n, 1);
    }
    assert(qsum(s.push(d)) >= (n + 1) * m);
    lemma_div_is_ordered((n + 1) * m, qsum(s.push(d)), n + 1);
    lemma_div_multiples_vanish(m, n + 1);
}

/// Law: monotone adaptive response — past the warm-up threshold, feeding
/// a qualifying sample no smaller than the running mean never lowers the
/// derived timeout.  Integer division makes the response monotone rather
/// than strictly increasing.
pub proof fn lemma_timeout_monotone(s: Seq<u64>, d: u64, default_ms: u64)
    requires
        qcount(s) > WARMUP_MIN_SAMPLES,
        d >= 1,
        d as int >= mean_of(s),
    ensures
        spec_adaptive_timeout(s.push(d), default_ms) >= spec_adaptive_timeout(s, default_ms),
{
    lemma_mean_monotone(s, d);
    let m1: int = mean_of(s);
    let m2: int = mean_of(s.push(d));
    lemma_div_is_ordered(m1 * 11, m2 * 11, 4);
}

/// A qualifying sample exceeding the current mean by at least the
/// qualifying count raises the mean by at least one: integer division
/// absorbs smaller excesses.
pub proof fn lemma_mean_strict(s: Seq<u64>, d: u64)
    requires
        qcount(s) > 0,
        d >= 1,
        d as int >= mean_of(s) + qcount(s) + 1,
    ensures
        qcount(s.push(d)) == qcount(s) + 1,
        mean_of(s.push(d)) >= mean_of(s) + 1,
{
    assert(s.push(d).drop_last() =~= s);
    let n: int = qcount(s) as int;
    let m: int = mean_of(s);
    lemma_sample_bounds(s);
    lemma_fundamental_div_mod(qsum(s), n);
    lemma_remainder_lower(qsum(s), n);
    assert(qsum(s) >= n * m);
    assert((n + 1) * (m + 1) == n * m + m + n + 1) by (nonlinear_arith);
    assert(qsum(s.push(d)) >= (n + 1) * (m + 1));
    lemma_div_is_ordered((n + 1) * (m + 1), qsum(s.push(d)), n + 1);
    lemma_div_multiples_vanish(m + 1, n + 1);
}

/// Law: strict adaptive response — past the warm-up threshold, a sample
/// that exceeds the running mean by at least the qualifying count
/// strictly raises the derived timeout, as long as the bound has not
/// saturated.
pub proof fn lemma_timeout_strict(s: Seq<u64>, d: u64, default_ms: u64)
    requires
        qcount(s) > WARMUP_MIN_SAMPLES,
        d >= 1,
        d as int >= mean_of(s) + qcount(s) + 1,
        mean_of(s.push(d)) * 11 / 4 <= u64::MAX as int,
    ensures
        spec_adaptive_timeout(s.push(d), default_ms) > spec_adaptive_timeout(s, default_ms),
{
    lemma_mean_strict(s, d);
    let m1: int = mean_of(s);
    let m2: int = mean_of(s.push(d));
    lemma_hoist_over_denominator(m1 * 11, 2, 4);
    assert(m1 * 11 / 4 + 2 == (m1 * 11 + 8) / 4);
    lemma_div_is_ordered(m1 * 11 + 8, (m1 + 1) * 11, 4);
    lemma_div_is_ordered((m1 + 1) * 11, m2 * 11, 4);
}

/// Law: a sentinel sample is never averaged in — recording it leaves the
/// derived timeout exactly as it was.
pub proof fn lemma_sentinel_keeps_timeout(s: Seq<u64>, default_ms: u64)
    ensures
        qcount(s.push(0)) == qcount(s),
        qsum(s.push(0)) == qsum(s),
        spec_adaptive_timeout(s.push(0), default_ms) == spec_adaptive_timeout(s, default_ms),
{
    assert(s.push(0).drop_last() =~= s);
}

/// All-sentinel samples leave no qualifying observation.
pub proof fn lemma_all_sentinels_no_mean(s: Seq<u64>)
    requires
        forall|i: int| 0 <= i < s.len() ==> s[i] == 0,
    ensures
        qcount(s) == 0,
    decreases s.len(),
{
    if s.len() > 0 {
        assert(s.last() == s[s.len() - 1]);
        lemma_all_sentinels_no_mean(s.drop_last());
    }
}

/// Law: feeding nothing but sentinels leaves the timeout at its default —
/// the undefined-mean case never disturbs it.
pub proof fn lemma_all_sentinels_default(s: Seq<u64>, default_ms: u64)
    requires
        forall|i: int| 0 <= i < s.len() ==> s[i] == 0,
    ensures
        spec_adaptive_timeout(s, default_ms) == default_ms,
{
    lemma_all_sentinels_no_mean(s);
}

} // verus!
