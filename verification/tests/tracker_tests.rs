use tts_pool::tracker::{vec_stats, LatencyTracker, WARMUP_MIN_SAMPLES};

#[test]
fn empty_tracker_has_no_mean() {
    let t = LatencyTracker::new();
    let (mean, qual, sent) = t.stats();
    assert_eq!(mean, None);
    assert_eq!(qual, 0);
    assert_eq!(sent, 0);
}

#[test]
fn mean_over_qualifying_samples_only() {
    let mut t = LatencyTracker::new();
    t.record(100);
    t.record_sentinel();
    t.record(200);
    let (mean, qual, sent) = t.stats();
    assert_eq!(mean, Some(150));
    assert_eq!(qual, 2);
    assert_eq!(sent, 1);
}

#[test]
fn only_sentinels_leaves_mean_undefined() {
    let mut t = LatencyTracker::new();
    for _ in 0..5 {
        t.record_sentinel();
    }
    let (mean, qual, sent) = t.stats();
    assert_eq!(mean, None);
    assert_eq!(qual, 0);
    assert_eq!(sent, 5);
}

#[test]
fn vec_stats_counts_zero_entries_as_sentinels() {
    let nums: Vec<u64> = vec![0, 300, 0, 500];
    let (mean, qual, sent) = vec_stats(&nums);
    assert_eq!(mean, Some(400));
    assert_eq!(qual, 2);
    assert_eq!(sent, 2);
}

#[test]
fn vec_stats_mean_truncates() {
    let nums: Vec<u64> = vec![1, 2];
    let (mean, qual, sent) = vec_stats(&nums);
    assert_eq!(mean, Some(1));
    assert_eq!(qual, 2);
    assert_eq!(sent, 0);
}

#[test]
fn timeout_stays_default_before_warmup() {
    let mut t = LatencyTracker::new();
    for _ in 0..WARMUP_MIN_SAMPLES {
        t.record(100);
    }
    assert_eq!(t.adaptive_timeout(3000), 3000);
}

#[test]
fn timeout_scales_mean_after_warmup() {
    let mut t = LatencyTracker::new();
    for _ in 0..(WARMUP_MIN_SAMPLES + 1) {
        t.record(400);
    }
    // mean 400, scaled by 11/4
    assert_eq!(t.adaptive_timeout(3000), 1100);
}

#[test]
fn increasing_samples_raise_the_timeout() {
    let mut t = LatencyTracker::new();
    for _ in 0..(WARMUP_MIN_SAMPLES + 1) {
        t.record(100);
    }
    let t0 = t.adaptive_timeout(3000);
    t.record(1800);
    let t1 = t.adaptive_timeout(3000);
    t.record(1900);
    let t2 = t.adaptive_timeout(3000);
    assert!(t0 < t1 && t1 < t2);
    assert_eq!(t0, 275);
}

#[test]
fn all_sentinels_leave_timeout_at_default() {
    let mut t = LatencyTracker::new();
    for _ in 0..40 {
        t.record_sentinel();
    }
    assert_eq!(t.adaptive_timeout(3000), 3000);
}

#[test]
fn sentinels_never_move_the_timeout() {
    let mut t = LatencyTracker::new();
    for _ in 0..(WARMUP_MIN_SAMPLES + 1) {
        t.record(400);
    }
    let before = t.adaptive_timeout(3000);
    t.record_sentinel();
    t.record_sentinel();
    assert_eq!(t.adaptive_timeout(3000), before);
}
