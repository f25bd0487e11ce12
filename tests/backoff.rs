use controller::{Backoff, BackoffWindow, COOLDOWN_MS, FAILURE_THRESHOLD};

#[test]
fn nine_failures_do_not_suspend() {
    let mut b = Backoff::new();
    for t in 0..9u64 {
        assert!(b.begin_frame(t));
        assert!(!b.record(false, t));
    }
    assert_eq!(b.consecutive_failures, 9);
    assert_eq!(b.window, None);
}

#[test]
fn tenth_failure_opens_window() {
    let mut b = Backoff::new();
    for t in 0..9u64 {
        b.begin_frame(t);
        b.record(false, t);
    }
    assert!(b.begin_frame(50));
    assert!(b.record(false, 50));
    assert_eq!(FAILURE_THRESHOLD, 10);
    assert_eq!(b.consecutive_failures, 0);
    assert_eq!(b.window, Some(BackoffWindow { start_ms: 50, duration_ms: COOLDOWN_MS }));
}

#[test]
fn window_suppresses_until_elapsed() {
    let mut b = Backoff { consecutive_failures: 0, window: Some(BackoffWindow { start_ms: 100, duration_ms: 1000 }) };
    assert!(!b.begin_frame(100));
    assert!(!b.begin_frame(1100));
    assert!(b.window.is_some());
    assert!(b.begin_frame(1101));
    assert_eq!(b.window, None);
}

#[test]
fn clock_going_back_keeps_window() {
    let mut b = Backoff { consecutive_failures: 0, window: Some(BackoffWindow { start_ms: 5000, duration_ms: 1000 }) };
    assert!(!b.begin_frame(10));
}

#[test]
fn success_resets_counter() {
    let mut b = Backoff::new();
    for t in 0..5u64 {
        b.record(false, t);
    }
    assert_eq!(b.consecutive_failures, 5);
    assert!(!b.record(true, 6));
    assert_eq!(b.consecutive_failures, 0);
}
