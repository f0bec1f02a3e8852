use tts_pool::dispatch::{
    is_degenerate_len, needs_fallback, DispatchError, Dispatcher, PoolRouter, DEFAULT_TIMEOUT_MS,
    MIN_AUDIO_LEN, SILENCE_AUDIO_LEN,
};
use std::time::Duration;

use tts_pool::pool::{Session, SessionPool};

fn session(id: u64) -> Session {
    Session { id, opened_at_ms: 0, offered_at: 0 }
}

#[test]
fn empty_pool_reports_pool_exhausted() {
    let mut p = SessionPool::new(2);
    let d = Dispatcher::new(DEFAULT_TIMEOUT_MS);
    assert_eq!(d.acquire(&mut p), Err(DispatchError::PoolExhausted));
}

#[test]
fn acquire_takes_the_freshest_session() {
    let mut p = SessionPool::new(3);
    p.offer(session(1));
    p.offer(session(2));
    let d = Dispatcher::new(DEFAULT_TIMEOUT_MS);
    let s = d.acquire(&mut p).expect("pool holds sessions");
    assert_eq!(s.id, 2);
    assert_eq!(p.len(), 1);
}

#[test]
fn timeout_evicts_oldest_and_records_sentinel() {
    let mut p = SessionPool::new(3);
    p.offer(session(1));
    p.offer(session(2));
    p.offer(session(3));
    let mut d = Dispatcher::new(DEFAULT_TIMEOUT_MS);
    let evicted = d.on_timeout(&mut p).expect("pool holds sessions");
    assert_eq!(evicted.id, 1);
    assert_eq!(p.len(), 2);
    let (mean, qual, sent) = d.stats();
    assert_eq!(mean, None);
    assert_eq!(qual, 0);
    assert_eq!(sent, 1);
}

#[test]
fn timeout_on_empty_pool_still_records_sentinel() {
    let mut p = SessionPool::new(3);
    let mut d = Dispatcher::new(DEFAULT_TIMEOUT_MS);
    assert!(d.on_timeout(&mut p).is_none());
    let (_, _, sent) = d.stats();
    assert_eq!(sent, 1);
}

#[test]
fn silence_sized_response_is_a_sentinel() {
    let mut d = Dispatcher::new(DEFAULT_TIMEOUT_MS);
    d.complete(SILENCE_AUDIO_LEN, 123);
    let (mean, qual, sent) = d.stats();
    assert_eq!(mean, None);
    assert_eq!(qual, 0);
    assert_eq!(sent, 1);
}

#[test]
fn undersized_response_is_a_sentinel() {
    let mut d = Dispatcher::new(DEFAULT_TIMEOUT_MS);
    d.complete(MIN_AUDIO_LEN - 1, 50);
    let (_, qual, sent) = d.stats();
    assert_eq!(qual, 0);
    assert_eq!(sent, 1);
}

#[test]
fn plausible_response_records_its_duration() {
    let mut d = Dispatcher::new(DEFAULT_TIMEOUT_MS);
    d.complete(4000, 123);
    let (mean, qual, sent) = d.stats();
    assert_eq!(mean, Some(123));
    assert_eq!(qual, 1);
    assert_eq!(sent, 0);
}

#[test]
fn zero_elapsed_success_still_qualifies() {
    let mut d = Dispatcher::new(DEFAULT_TIMEOUT_MS);
    d.complete(4000, 0);
    let (mean, qual, _) = d.stats();
    assert_eq!(mean, Some(1));
    assert_eq!(qual, 1);
}

#[test]
fn failure_records_sentinel_not_fast_success() {
    let mut d = Dispatcher::new(DEFAULT_TIMEOUT_MS);
    d.on_failure();
    let (mean, qual, sent) = d.stats();
    assert_eq!(mean, None);
    assert_eq!(qual, 0);
    assert_eq!(sent, 1);
}

#[test]
fn dispatcher_timeout_warms_up_then_adapts() {
    let mut d = Dispatcher::new(DEFAULT_TIMEOUT_MS);
    for _ in 0..15 {
        d.complete(4000, 400);
        assert_eq!(d.current_timeout(), DEFAULT_TIMEOUT_MS);
    }
    d.complete(4000, 400);
    assert_eq!(d.current_timeout(), 1100);
}

#[test]
fn degenerate_length_checks() {
    assert!(is_degenerate_len(0));
    assert!(is_degenerate_len(MIN_AUDIO_LEN - 1));
    assert!(!is_degenerate_len(MIN_AUDIO_LEN));
    assert!(is_degenerate_len(SILENCE_AUDIO_LEN));
    assert!(!is_degenerate_len(SILENCE_AUDIO_LEN + 1));
    assert!(needs_fallback(MIN_AUDIO_LEN - 1));
    assert!(!needs_fallback(MIN_AUDIO_LEN));
    assert!(!needs_fallback(SILENCE_AUDIO_LEN));
}

#[test]
fn scenario_short_wait_expires_and_oldest_is_evicted() {
    // a remote service that never responds, under a 10ms bounded wait
    let rt = tokio::runtime::Builder::new_current_thread()
        .enable_time()
        .build()
        .expect("runtime");
    let started = std::time::Instant::now();
    let waited = rt.block_on(async {
        tokio::time::timeout(Duration::from_millis(10), std::future::pending::<Vec<u8>>()).await
    });
    assert!(waited.is_err());
    assert!(started.elapsed() < Duration::from_secs(2));
    // the expired wait sheds the pool's oldest entry and records a sentinel
    let mut p = SessionPool::new(3);
    p.offer(session(1));
    p.offer(session(2));
    let mut d = Dispatcher::new(10);
    let evicted = d.on_timeout(&mut p).expect("pool holds sessions");
    assert_eq!(evicted.id, 1);
    let (_, _, sent) = d.stats();
    assert_eq!(sent, 1);
}

#[test]
fn router_rotates_round_robin() {
    let mut r = PoolRouter::new(3);
    assert_eq!(r.pick(), 0);
    assert_eq!(r.pick(), 1);
    assert_eq!(r.pick(), 2);
    assert_eq!(r.pick(), 0);
}

#[test]
fn router_retry_hits_a_different_instance() {
    let mut r = PoolRouter::new(2);
    let first = r.pick();
    let retry = r.pick();
    assert_ne!(first, retry);
}

#[test]
fn single_instance_router_always_picks_it() {
    let mut r = PoolRouter::new(1);
    assert_eq!(r.pick(), 0);
    assert_eq!(r.pick(), 0);
}
