//! Request-facing dispatch: acquire a session, classify the outcome,
//! feed the latency tracker, and shed suspect sessions on timeout.
//!
//! The remote exchange itself happens outside the library; these
//! functions make every decision around it: which session serves the
//! request, what wait bound applies, what the outcome means for the
//! rolling statistics, and what the pool sheds afterwards.

use crate::pool::{SessionPool, Session};
use crate::tracker::{LatencyTracker, spec_adaptive_timeout, qcount, scount, mean_of};
use vstd::arithmetic::div_mod::{lemma_mod_self_0, lemma_small_mod};
use vstd::prelude::*;

verus! {

/// Why one request attempt failed.  Every variant is local to the
/// attempt: it is reported upward for retry or fallback, never fatal.
#[derive(Clone, Copy, PartialEq, Eq, Structural, Debug)]
pub enum DispatchError {
    /// Opening a duplex channel failed; the next warm-up tick retries.
    Connect,
    /// Malformed or unexpected frame sequence; the session is discarded.
    Protocol,
    /// The bounded wait expired; the session is lost and the pool sheds
    /// its oldest member.
    Timeout,
    /// No pooled session was available; immediate failure, no wait.
    PoolExhausted,
}

/// Wait bound, in milliseconds, applied until the tracker has seen
/// enough qualifying samples.
pub const DEFAULT_TIMEOUT_MS: u64 = 3000;

/// Length of the known degenerate "silence" response.
pub const SILENCE_AUDIO_LEN: usize = 7488;

/// Smallest audio length accepted as a plausible response.
pub const MIN_AUDIO_LEN: usize = 2048;

/// A response of this length is disqualified: too short to be real
/// audio, or exactly the known silence response.
pub open spec fn spec_degenerate(len: nat) -> bool {
    len < MIN_AUDIO_LEN || len == SILENCE_AUDIO_LEN
}

/// The sample a completed request contributes: the sentinel for a
/// degenerate response, else the elapsed time, floored at one so that a
/// qualifying sample is never mistaken for the sentinel.
pub open spec fn spec_outcome_sample(audio_len: nat, elapsed_ms: u64) -> u64 {
    if spec_degenerate(audio_len) {
        0u64
    } else if elapsed_ms == 0 {
        1u64
    } else {
        elapsed_ms
    }
}

/// Whether a returned audio length is degenerate.
pub fn is_degenerate_len(len: usize) -> (b: bool)
    ensures
        b == spec_degenerate(len as nat),
{
    len < MIN_AUDIO_LEN || len == SILENCE_AUDIO_LEN
}

/// Whether the caller must substitute the pre-cached fallback sample
/// rather than return this payload.
pub fn needs_fallback(len: usize) -> (b: bool)
    ensures
        b == (len < MIN_AUDIO_LEN),
{
    len < MIN_AUDIO_LEN
}

/// The request-facing façade of one pool instance: owns the latency
/// tracker and the timeout policy; the pool itself is handed in by the
/// caller, which guards it against concurrent mutation.
pub struct Dispatcher {
    tracker: LatencyTracker,
    default_timeout_ms: u64,
}

impl Dispatcher {
    /// The recorded samples.
    pub closed spec fn samples(self) -> Seq<u64> {
        self.tracker@
    }

    /// The static wait bound applied before warm-up.
    pub closed spec fn default_ms(self) -> u64 {
        self.default_timeout_ms
    }

    pub fn new(default_timeout_ms: u64) -> (d: Dispatcher)
        ensures
            d.samples() == Seq::<u64>::empty(),
            d.default_ms() == default_timeout_ms,
    {
        Dispatcher { tracker: LatencyTracker::new(), default_timeout_ms }
    }

    /// The wait bound for the next request: adaptive once warmed up,
    /// the static default before.
    pub fn current_timeout(&self) -> (t: u64)
        ensures
            t as int == spec_adaptive_timeout(self.samples(), self.default_ms()),
    {
        self.tracker.adaptive_timeout(self.default_timeout_ms)
    }

    /// Mean qualifying latency (`None` before any success), qualifying
    /// count and sentinel count, for logging and diagnostics.
    pub fn stats(&self) -> (r: (Option<u64>, usize, usize))
        ensures
            r.1 == qcount(self.samples()),
            r.2 == scount(self.samples()),
            qcount(self.samples()) == 0 ==> r.0 is None,
            qcount(self.samples()) > 0 ==> (r.0 matches Some(m) && m as int == mean_of(self.samples())),
    {
        self.tracker.stats()
    }

    /// Take the freshest pooled session for a request.  An empty pool is
    /// an immediate `PoolExhausted` failure — no wait, no busy retry.
    pub fn acquire(&self, pool: &mut SessionPool) -> (r: Result<Session, DispatchError>)
        requires
            old(pool).wf(),
        ensures
            final(pool).wf(),
            final(pool).cap() == old(pool).cap(),
            final(pool).spec_next_stamp() == old(pool).spec_next_stamp(),
            old(pool)@.len() == 0 ==> r == Err::<Session, DispatchError>(DispatchError::PoolExhausted)
                && final(pool)@ == old(pool)@,
            old(pool)@.len() > 0 ==> r == Ok::<Session, DispatchError>(old(pool)@[0])
                && final(pool)@ == old(pool)@.subrange(1, old(pool)@.len() as int),
            crate::pool::ids_distinct(old(pool)@) ==> crate::pool::ids_distinct(final(pool)@),
    {
        match pool.try_acquire() {
            Some(s) => Ok(s),
            None => Err(DispatchError::PoolExhausted),
        }
    }

    /// Record the outcome of a request that ran to completion: the
    /// elapsed time qualifies unless the returned audio was degenerate,
    /// in which case the sentinel is recorded instead.
    pub fn complete(&mut self, audio_len: usize, elapsed_ms: u64)
        ensures
            final(self).samples() == old(self).samples().push(
                spec_outcome_sample(audio_len as nat, elapsed_ms),
            ),
            final(self).default_ms() == old(self).default_ms(),
    {
        if is_degenerate_len(audio_len) {
            self.tracker.record_sentinel();
        } else if elapsed_ms == 0 {
            self.tracker.record(1);
        } else {
            self.tracker.record(elapsed_ms);
        }
    }

    /// Record a timed-out request: the sentinel enters the record, and
    /// the pool sheds its oldest session as a load-shedding heuristic —
    /// a slow response correlates with a stale pool.  Returns the shed
    /// session, if any, so the caller can close its channel.
    pub fn on_timeout(&mut self, pool: &mut SessionPool) -> (evicted: Option<Session>)
        requires
            old(pool).wf(),
        ensures
            final(self).samples() == old(self).samples().push(0),
            final(self).default_ms() == old(self).default_ms(),
            final(pool).wf(),
            final(pool).cap() == old(pool).cap(),
            final(pool).spec_next_stamp() == old(pool).spec_next_stamp(),
            old(pool)@.len() == 0 ==> evicted is None && final(pool)@ == old(pool)@,
            old(pool)@.len() > 0 ==> evicted == Some(old(pool)@.last())
                && final(pool)@ == old(pool)@.take(old(pool)@.len() - 1),
            crate::pool::ids_distinct(old(pool)@) ==> crate::pool::ids_distinct(final(pool)@),
    {
        self.tracker.record_sentinel();
        pool.evict_oldest()
    }

    /// Record a failed attempt (no session available, or a protocol
    /// error): the sentinel is recorded so the failure never counts as a
    /// fast success.
    pub fn on_failure(&mut self)
        ensures
            final(self).samples() == old(self).samples().push(0),
            final(self).default_ms() == old(self).default_ms(),
    {
        self.tracker.record_sentinel();
    }
}

/// Round-robin selector over several independent pool instances; a
/// failed attempt retries once against the next instance.
pub struct PoolRouter {
    next: usize,
    count: usize,
}

impl PoolRouter {
    /// Index the next request is routed to.
    pub closed spec fn next_spec(self) -> int {
        self.next as int
    }

    /// Number of pool instances routed over.
    pub closed spec fn count_spec(self) -> int {
        self.count as int
    }

    /// Router invariant: at least one instance, cursor in range.
    pub open spec fn wf(self) -> bool {
        1 <= self.count_spec() && 0 <= self.next_spec() < self.count_spec()
    }

    pub fn new(count: usize) -> (r: PoolRouter)
        requires
            count >= 1,
        ensures
            r.wf(),
            r.count_spec() == count,
            r.next_spec() == 0,
    {
        PoolRouter { next: 0, count }
    }

    /// The instance serving the next request; the cursor then moves one
    /// step round-robin.
    pub fn pick(&mut self) -> (idx: usize)
        requires
            old(self).wf(),
        ensures
            final(self).wf(),
            final(self).count_spec() == old(self).count_spec(),
            idx == old(self).next_spec(),
            idx < old(self).count_spec(),
            final(self).next_spec() == (old(self).next_spec() + 1) % old(self).count_spec(),
    {
        let idx: usize = self.next;
        self.next = (self.next + 1) % self.count;
        idx
    }
}

/// Law: with more than one pool instance, the retry pick lands on a
/// different instance than the failed one.
pub proof fn lemma_retry_distinct(n: int, c: int)
    requires
        c >= 2,
        0 <= n < c,
    ensures
        (n + 1) % c != n,
{
    if n + 1 < c {
        lemma_small_mod((n + 1) as nat, c as nat);
    } else {
        lemma_mod_self_0(c);
    }
}

} // verus!
