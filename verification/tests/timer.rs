use liveness::timer::Timer;

#[test]
fn fresh_timer_times_out_after_one_interval() {
    // interval 1 s, constructed at 0 ms: no timeout strictly before 1000 ms,
    // timeout from 1000 ms on
    let mut t = Timer::new(1, 0);
    assert!(!t.is_timeout(0));
    assert!(!t.is_timeout(999));
    assert!(t.is_timeout(1000));
    assert!(t.is_timeout(5000));
}

#[test]
fn refresh_restarts_the_window() {
    // interval 10 s; refresh at I/2, check just before I: no timeout;
    // check a full interval after the refresh: timeout
    let mut t = Timer::new(10, 0);
    t.refresh(5_000);
    assert!(!t.is_timeout(9_999));
    assert!(!t.is_timeout(14_999));
    assert!(t.is_timeout(15_000));
    assert!(t.is_timeout(5_000 + 10_000 + 1));
}

#[test]
fn freeze_suppresses_timeout_indefinitely() {
    let mut t = Timer::new(1, 0);
    t.freeze();
    assert!(!t.is_timeout(1_000));
    assert!(!t.is_timeout(1_000_000_000));
    assert!(!t.is_timeout(u64::MAX));
}

#[test]
fn nested_freezes_need_matching_unfreezes() {
    let mut t = Timer::new(1, 0);
    t.freeze();
    t.freeze();
    t.unfreeze(10_000);
    // one of two freezes undone: still no timeout however late
    assert!(!t.is_timeout(1_000_000));
    t.unfreeze(20_000);
    // detection resumed with a clean window starting at 20000 ms
    assert!(!t.is_timeout(20_999));
    assert!(t.is_timeout(21_000));
}

#[test]
fn unfreeze_starts_a_clean_window() {
    // the whole interval passed while frozen, yet no timeout fires at the
    // moment of the final unfreeze
    let mut t = Timer::new(1, 0);
    t.freeze();
    t.unfreeze(5_000);
    assert!(!t.is_timeout(5_000));
    assert!(!t.is_timeout(5_999));
    assert!(t.is_timeout(6_000));
}

#[test]
fn frozen_check_refreshes_instead() {
    // evaluating the timeout while frozen refreshes, so no stale elapsed
    // time is left over once unfrozen
    let mut t = Timer::new(1, 0);
    t.freeze();
    assert!(!t.is_timeout(50_000));
    assert_eq!(t.last_time(), 50_000);
}

#[test]
fn check_and_refresh_scenario() {
    // interval 1 s; constructed at 0; refresh at 500 ms; a fused check at
    // 1200 ms sees only 700 ms elapsed and reports no timeout
    let mut t = Timer::new(1, 0);
    t.refresh(500);
    assert!(!t.is_timeout_refresh(1_200));
    // the fused check registered its own refresh
    assert_eq!(t.last_time(), 1_200);
}

#[test]
fn check_and_refresh_on_timeout_leaves_state_alone() {
    let mut t = Timer::new(1, 0);
    assert!(t.is_timeout_refresh(1_000));
    assert_eq!(t.last_time(), 0);
    // and it keeps reporting the timeout until someone refreshes
    assert!(t.is_timeout_refresh(2_000));
}

#[test]
fn check_and_refresh_visibility_between_calls() {
    // a refresh recorded by one fused check is what the next call measures
    // against
    let mut t = Timer::new(1, 0);
    assert!(!t.is_timeout_refresh(800));
    assert!(!t.is_timeout_refresh(1_700));
    assert!(t.is_timeout_refresh(2_700));
}

#[test]
fn deadline_is_last_refresh_plus_interval() {
    let mut t = Timer::new(3, 0);
    assert_eq!(t.may_timeout_at(), 3_000);
    t.refresh(1_500);
    assert_eq!(t.may_timeout_at(), 4_500);
}

#[test]
fn deadline_saturates_instead_of_overflowing() {
    let t = Timer::new(u64::MAX / 500, 10);
    assert_eq!(t.may_timeout_at(), u64::MAX);
}

#[test]
fn freeze_count_tracks_nesting() {
    let mut t = Timer::new(1, 0);
    assert_eq!(t.freeze_count(), 0);
    t.freeze();
    t.freeze();
    assert_eq!(t.freeze_count(), 2);
    t.unfreeze(0);
    assert_eq!(t.freeze_count(), 1);
}

#[test]
fn clock_going_backwards_counts_as_no_elapsed_time() {
    let mut t = Timer::new(1, 10_000);
    assert!(!t.is_timeout(500));
    assert!(!t.is_timeout(10_999));
    assert!(t.is_timeout(11_000));
}
