use tts_pool::pool::{Session, SessionPool, SessionWarmer, WSSMessage};

fn session(id: u64) -> Session {
    Session { id, opened_at_ms: 0, offered_at: 0 }
}

#[test]
fn empty_pool_try_acquire_none() {
    let mut p = SessionPool::new(4);
    assert!(p.try_acquire().is_none());
    assert_eq!(p.len(), 0);
}

#[test]
fn empty_pool_evict_none() {
    let mut p = SessionPool::new(4);
    assert!(p.evict_oldest().is_none());
}

#[test]
fn capacity_is_never_exceeded() {
    let mut p = SessionPool::new(3);
    for i in 0..10u64 {
        p.offer(session(i));
        assert!(p.len() <= 3);
        assert_eq!(p.capacity(), 3);
    }
    assert_eq!(p.len(), 3);
}

#[test]
fn no_tag_repeats_across_acquisitions() {
    let mut p = SessionPool::new(8);
    for i in 0..8u64 {
        p.offer(session(i));
    }
    let mut seen: Vec<u64> = Vec::new();
    while let Some(s) = p.try_acquire() {
        assert!(!seen.contains(&s.id));
        seen.push(s.id);
    }
    assert_eq!(seen.len(), 8);
}

#[test]
fn evict_oldest_removes_earliest_offered() {
    let mut p = SessionPool::new(5);
    p.offer(session(10));
    p.offer(session(11));
    p.offer(session(12));
    let evicted = p.evict_oldest().expect("pool holds sessions");
    assert_eq!(evicted.id, 10);
    assert_eq!(evicted.offered_at, 0);
    let next = p.evict_oldest().expect("pool holds sessions");
    assert_eq!(next.id, 11);
    assert_eq!(next.offered_at, 1);
}

#[test]
fn offer_then_acquire_returns_just_offered() {
    let mut p = SessionPool::new(2);
    p.offer(session(1));
    p.offer(session(2));
    p.offer(session(7));
    let got = p.try_acquire().expect("pool holds sessions");
    assert_eq!(got.id, 7);
}

#[test]
fn scenario_capacity_two_third_offer_evicts_first() {
    let mut p = SessionPool::new(2);
    p.offer(session(1));
    p.offer(session(2));
    let evicted = p.offer(session(3));
    let evicted = evicted.expect("third offer overflows capacity two");
    assert_eq!(evicted.id, 1);
    assert_eq!(p.len(), 2);
    let front = p.try_acquire().expect("front remains");
    assert_eq!(front.id, 3);
    let back = p.try_acquire().expect("back remains");
    assert_eq!(back.id, 2);
    assert!(p.try_acquire().is_none());
}

#[test]
fn offer_stamps_follow_offer_order() {
    let mut p = SessionPool::new(3);
    p.offer(session(5));
    p.offer(session(6));
    p.offer(session(7));
    let a = p.try_acquire().expect("freshest");
    let b = p.try_acquire().expect("middle");
    let c = p.try_acquire().expect("oldest");
    assert_eq!((a.id, a.offered_at), (7, 2));
    assert_eq!((b.id, b.offered_at), (6, 1));
    assert_eq!((c.id, c.offered_at), (5, 0));
}

#[test]
fn warmer_tags_are_fresh() {
    let mut w = SessionWarmer::new();
    let a = w.make_session(100);
    let b = w.make_session(200);
    assert_ne!(a.id, b.id);
    assert_eq!(a.opened_at_ms, 100);
    assert_eq!(b.opened_at_ms, 200);
}

#[test]
fn warmer_tick_success_offers_failure_leaves_unchanged() {
    let mut w = SessionWarmer::new();
    let mut p = SessionPool::new(2);
    let evicted = w.on_tick(WSSMessage {}, &mut p, Some(50));
    assert!(evicted.is_none());
    assert_eq!(p.len(), 1);
    let evicted = w.on_tick(WSSMessage {}, &mut p, None);
    assert!(evicted.is_none());
    assert_eq!(p.len(), 1);
    let _ = w.on_tick(WSSMessage {}, &mut p, Some(60));
    let evicted = w.on_tick(WSSMessage {}, &mut p, Some(70));
    assert!(evicted.is_some());
    assert_eq!(p.len(), 2);
}
