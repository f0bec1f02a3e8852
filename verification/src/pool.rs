//! Bounded, ordered supply of ready sessions.
//!
//! A `Session` stands for one opened duplex channel to the remote service.
//! The pool keeps them most-recently-offered first: requests take from the
//! front (freshest-first), eviction takes from the back (oldest-first), and
//! the length never exceeds the configured capacity.

use std::collections::VecDeque;
use vstd::prelude::*;

verus! {

/// Handle to one opened duplex channel, usable exactly once.
///
/// The channel itself lives outside the library; the handle carries the
/// plain values the pool's policy reads: a tag identifying the channel,
/// the time it was opened, and the order in which it entered the pool.
#[derive(PartialEq, Eq, Structural, Debug)]
pub struct Session {
    /// Tag identifying the underlying channel; distinct per opened channel.
    pub id: u64,
    /// Clock reading (milliseconds) taken when the channel was opened.
    pub opened_at_ms: u64,
    /// Position in the pool's offer order; set by `offer`.
    pub offered_at: u64,
}

/// `s` with its offer stamp set to `t`.
pub open spec fn stamped(s: Session, t: u64) -> Session {
    Session { id: s.id, opened_at_ms: s.opened_at_ms, offered_at: t }
}

/// No two sessions in `s` carry the same tag.
pub open spec fn ids_distinct(s: Seq<Session>) -> bool {
    forall|i: int, j: int| 0 <= i < s.len() && 0 <= j < s.len() && i != j ==> s[i].id != s[j].id
}

/// Offer stamps strictly decrease from front to back: the front is the
/// most recently offered session, the back the least recently offered.
pub open spec fn stamps_descending(s: Seq<Session>) -> bool {
    forall|i: int, j: int| 0 <= i < j < s.len() ==> s[i].offered_at > s[j].offered_at
}

/// The sequence that remains after offering `x` to a pool holding `s`:
/// `x` enters at the front; if that exceeds `cap`, the back is dropped.
pub open spec fn offer_model(s: Seq<Session>, x: Session, cap: nat) -> Seq<Session> {
    if s.len() < cap {
        seq![x] + s
    } else {
        (seq![x] + s).take(cap as int)
    }
}

/// Bounded double-ended supply of ready sessions, freshest at the front.
pub struct SessionPool {
    sessions: VecDeque<Session>,
    capacity: usize,
    next_stamp: u64,
}

impl View for SessionPool {
    type V = Seq<Session>;

    /// The pooled sessions, front (freshest) first.
    closed spec fn view(&self) -> Seq<Session> {
        self.sessions@
    }
}

impl SessionPool {
    /// Configured capacity.
    pub closed spec fn cap(self) -> nat {
        self.capacity as nat
    }

    /// The stamp the next offered session will receive.
    pub closed spec fn spec_next_stamp(self) -> u64 {
        self.next_stamp
    }

    /// Pool invariant: positive capacity, length bounded by it, and the
    /// stored order agreeing with the offer order.
    pub closed spec fn wf(self) -> bool {
        &&& self.capacity >= 1
        &&& self.sessions@.len() <= self.capacity
        &&& stamps_descending(self.sessions@)
        &&& forall|i: int| 0 <= i < self.sessions@.len() ==> self.sessions@[i].offered_at < self.next_stamp
    }

    /// An empty pool of capacity `capacity`.
    pub fn new(capacity: usize) -> (p: SessionPool)
        requires
            capacity >= 1,
        ensures
            p.wf(),
            p@ == Seq::<Session>::empty(),
            p.cap() == capacity,
            p.spec_next_stamp() == 0,
    {
        SessionPool { sessions: VecDeque::new(), capacity, next_stamp: 0 }
    }

    /// Number of pooled sessions.
    pub fn len(&self) -> (n: usize)
        ensures
            n == self@.len(),
    {
        self.sessions.len()
    }

    /// Configured capacity.
    pub fn capacity(&self) -> (c: usize)
        ensures
            c == self.cap(),
    {
        self.capacity
    }

    /// The stamp the next offered session will receive; lets a caller
    /// check that the stamp counter is not exhausted before an offer.
    pub fn next_stamp(&self) -> (t: u64)
        ensures
            t == self.spec_next_stamp(),
    {
        self.next_stamp
    }

    /// Push a fresh session to the front; if the pool would then exceed its
    /// capacity, the oldest (back) session leaves and is returned so the
    /// caller can close its channel.
    pub fn offer(&mut self, s: Session) -> (evicted: Option<Session>)
        requires
            old(self).wf(),
            old(self).spec_next_stamp() < u64::MAX,
        ensures
            final(self).wf(),
            final(self).cap() == old(self).cap(),
            final(self).spec_next_stamp() == old(self).spec_next_stamp() + 1,
            final(self)@ == offer_model(old(self)@, stamped(s, old(self).spec_next_stamp()), old(self).cap()),
            old(self)@.len() < old(self).cap() ==> evicted is None,
            old(self)@.len() == old(self).cap() ==> evicted == Some(old(self)@.last()),
            ids_distinct(old(self)@) && (forall|i: int| 0 <= i < old(self)@.len() ==> old(self)@[i].id != s.id)
                ==> ids_distinct(final(self)@),
    {
        let entering = Session { id: s.id, opened_at_ms: s.opened_at_ms, offered_at: self.next_stamp };
        self.next_stamp = self.next_stamp + 1;
        self.sessions.push_front(entering);
        if self.sessions.len() > self.capacity {
            let evicted = self.sessions.pop_back();
            proof {
                assert(self.sessions@ =~= (seq![stamped(s, old(self).next_stamp)] + old(self).sessions@).take(
                    old(self).capacity as int,
                ));
            }
            evicted
        } else {
            None
        }
    }

    /// Take the freshest session, if any; an empty pool yields `None` and
    /// is a valid, expected state, not an error.
    pub fn try_acquire(&mut self) -> (r: Option<Session>)
        requires
            old(self).wf(),
        ensures
            final(self).wf(),
            final(self).cap() == old(self).cap(),
            final(self).spec_next_stamp() == old(self).spec_next_stamp(),
            old(self)@.len() == 0 ==> r is None && final(self)@ == old(self)@,
            old(self)@.len() > 0 ==> r == Some(old(self)@[0])
                && final(self)@ == old(self)@.subrange(1, old(self)@.len() as int),
            ids_distinct(old(self)@) ==> ids_distinct(final(self)@),
    {
        self.sessions.pop_front()
    }

    /// Drop the oldest session, if any, and hand it back so the caller can
    /// close its channel; used reactively to shed a suspect connection.
    pub fn evict_oldest(&mut self) -> (r: Option<Session>)
        requires
            old(self).wf(),
        ensures
            final(self).wf(),
            final(self).cap() == old(self).cap(),
            final(self).spec_next_stamp() == old(self).spec_next_stamp(),
            old(self)@.len() == 0 ==> r is None && final(self)@ == old(self)@,
            old(self)@.len() > 0 ==> r == Some(old(self)@.last())
                && final(self)@ == old(self)@.take(old(self)@.len() - 1),
            ids_distinct(old(self)@) ==> ids_distinct(final(self)@),
    {
        self.sessions.pop_back()
    }
}

/// Every tag in `s` lies below `bound`; fresh tags are then new to the pool.
pub open spec fn ids_below(s: Seq<Session>, bound: u64) -> bool {
    forall|i: int| 0 <= i < s.len() ==> s[i].id < bound
}

/// Law: the pool is bounded — whatever is offered to a pool within its
/// capacity, at most `cap` sessions remain.
pub proof fn lemma_pool_bounded(s: Seq<Session>, x: Session, cap: nat)
    requires
        cap >= 1,
        s.len() <= cap,
    ensures
        offer_model(s, x, cap).len() <= cap,
{
}

/// Law: single use — with distinct tags, the front session the pool hands
/// out does not appear among the remaining pooled sessions, and those keep
/// distinct tags, so no later acquisition can deliver the same handle.
pub proof fn lemma_single_use(s: Seq<Session>)
    requires
        s.len() > 0,
        ids_distinct(s),
    ensures
        forall|i: int| 1 <= i < s.len() ==> (#[trigger] s[i].id) != s[0].id,
        ids_distinct(s.subrange(1, s.len() as int)),
{
}

/// Law: oldest-first eviction — in a pool ordered by offer stamp, the back
/// session is the least recently offered of all pooled sessions.
pub proof fn lemma_evict_oldest_min(s: Seq<Session>)
    requires
        s.len() > 0,
        stamps_descending(s),
    ensures
        forall|i: int| 0 <= i < s.len() - 1 ==> s[i].offered_at > s.last().offered_at,
{
}

/// Law: an offer followed immediately by an acquisition, with no offer in
/// between, returns the just-offered session (freshest-first, depth one).
pub proof fn lemma_offer_then_acquire(s: Seq<Session>, x: Session, cap: nat)
    requires
        cap >= 1,
        s.len() <= cap,
    ensures
        offer_model(s, x, cap).len() > 0,
        offer_model(s, x, cap)[0] == x,
{
}

/// Periodic warm-up tick; a timer outside the library delivers one per
/// warm-up interval.
pub struct WSSMessage {}

/// Background supplier of fresh sessions: tags each newly opened channel
/// with an identifier no earlier session carried.
pub struct SessionWarmer {
    next_id: u64,
}

impl SessionWarmer {
    /// The tag the next opened session will receive.
    pub closed spec fn spec_next_id(self) -> u64 {
        self.next_id
    }

    pub fn new() -> (w: SessionWarmer)
        ensures
            w.spec_next_id() == 0,
    {
        SessionWarmer { next_id: 0 }
    }

    /// The tag the next opened session will receive; lets a caller check
    /// that the tag counter is not exhausted before a tick.
    pub fn next_id(&self) -> (t: u64)
        ensures
            t == self.spec_next_id(),
    {
        self.next_id
    }

    /// Handle for a channel just opened at `opened_at_ms`, under a tag that
    /// no session made by this warmer has carried before.
    pub fn make_session(&mut self, opened_at_ms: u64) -> (s: Session)
        requires
            old(self).spec_next_id() < u64::MAX,
        ensures
            s == (Session { id: old(self).spec_next_id(), opened_at_ms, offered_at: 0 }),
            final(self).spec_next_id() == old(self).spec_next_id() + 1,
    {
        let s = Session { id: self.next_id, opened_at_ms, offered_at: 0 };
        self.next_id = self.next_id + 1;
        s
    }

    /// One warm-up tick.  `opened_at_ms` reports the outcome of the attempt
    /// to open a channel against the remote service: `Some` with the open
    /// time on success, `None` on failure.  On success a fresh session is
    /// offered to the pool; on failure the pool is left unchanged — the
    /// next tick tries again.  Returns the session the offer displaced, if
    /// any, so the caller can close its channel.
    pub fn on_tick(
        &mut self,
        _tick: WSSMessage,
        pool: &mut SessionPool,
        opened_at_ms: Option<u64>,
    ) -> (evicted: Option<Session>)
        requires
            old(pool).wf(),
            old(pool).spec_next_stamp() < u64::MAX,
            old(self).spec_next_id() < u64::MAX,
            ids_distinct(old(pool)@),
            ids_below(old(pool)@, old(self).spec_next_id()),
        ensures
            final(pool).wf(),
            final(pool).cap() == old(pool).cap(),
            ids_distinct(final(pool)@),
            ids_below(final(pool)@, final(self).spec_next_id()),
            opened_at_ms is None ==> final(pool)@ == old(pool)@ && evicted is None
                && final(self).spec_next_id() == old(self).spec_next_id(),
            opened_at_ms matches Some(t) ==> {
                &&& final(self).spec_next_id() == old(self).spec_next_id() + 1
                &&& final(pool)@ == offer_model(
                    old(pool)@,
                    Session { id: old(self).spec_next_id(), opened_at_ms: t, offered_at: old(pool).spec_next_stamp() },
                    old(pool).cap(),
                )
                &&& (old(pool)@.len() < old(pool).cap() ==> evicted is None)
                &&& (old(pool)@.len() == old(pool).cap() ==> evicted == Some(old(pool)@.last()))
            },
    {
        match opened_at_ms {
            Some(t) => {
                let s = self.make_session(t);
                pool.offer(s)
            },
            None => None,
        }
    }
}

} // verus!
