use duck_control::model::IMU_BLOCK_LEN;
use duck_control::stale::{stale_warning_due, ImuStale, StaleImuTracker, STALE_RUN_WARN};

fn block(n: u8) -> [u8; IMU_BLOCK_LEN] {
    [n; IMU_BLOCK_LEN]
}

/// The first block has no predecessor, so it cannot be a repeat of one, even when it is all
/// zeros.
#[test]
fn the_first_block_is_never_stale() {
    let mut t = StaleImuTracker::default();
    assert_eq!(t.observe(&block(0)), 0);
    assert_eq!(t.stale.total, 0);
}

/// Fresh blocks leave both counters alone.
#[test]
fn fresh_blocks_count_for_nothing() {
    let mut t = StaleImuTracker::default();
    for n in 0..10 {
        assert_eq!(t.observe(&block(n)), 0);
    }
    assert_eq!(t.stale, ImuStale { total: 0, run: 0 });
}

/// A hiccup is remembered in the total while the run goes back to zero.
#[test]
fn a_hiccup_is_remembered_in_the_total_but_not_the_run() {
    let mut t = StaleImuTracker::default();
    t.observe(&block(1));
    assert_eq!(t.observe(&block(1)), 1, "the repeat is the first of a run");
    assert_eq!(t.observe(&block(2)), 0, "a fresh block ends the run");
    assert_eq!(t.stale, ImuStale { total: 1, run: 0 });
}

/// A board that has stopped refreshing runs past the threshold.
#[test]
fn a_dead_board_runs_past_the_warning_threshold() {
    let mut t = StaleImuTracker::default();
    t.observe(&block(7));
    for _ in 0..STALE_RUN_WARN {
        t.observe(&block(7));
    }
    assert_eq!(t.stale.run, STALE_RUN_WARN);
    assert_eq!(t.stale.total, STALE_RUN_WARN);
}

/// Runs accumulate into the same total across separate episodes.
#[test]
fn separate_episodes_add_up() {
    let mut t = StaleImuTracker::default();
    for n in 0..3u8 {
        t.observe(&block(n));
        t.observe(&block(n));
        t.observe(&block(n));
    }
    assert_eq!(t.stale.total, 6, "two repeats in each of three episodes");
    assert_eq!(t.stale.run, 2, "the last episode was still going");
}

#[test]
fn blocks_that_differ_in_one_byte_are_fresh() {
    let mut t = StaleImuTracker::default();
    let a = block(3);
    let mut b = block(3);
    b[IMU_BLOCK_LEN - 1] = 4;
    t.observe(&a);
    assert_eq!(t.observe(&b), 0);
    assert_eq!(t.observe(&b), 1);
    assert_eq!(t.last, Some(b));
}

#[test]
fn the_run_never_exceeds_the_total() {
    let mut t = StaleImuTracker::default();
    let pattern = [1u8, 1, 1, 2, 2, 3, 3, 3, 3, 1];
    for n in pattern {
        t.observe(&block(n));
        assert!(t.stale.run <= t.stale.total);
    }
    assert_eq!(t.stale, ImuStale { total: 6, run: 0 });
}

#[test]
fn counters_hold_at_the_top_of_the_range() {
    let mut t = StaleImuTracker::default();
    t.observe(&block(9));
    t.stale = ImuStale { total: u64::MAX, run: u64::MAX };
    assert_eq!(t.observe(&block(9)), u64::MAX);
    assert_eq!(t.stale, ImuStale { total: u64::MAX, run: u64::MAX });
}

#[test]
fn a_frozen_board_is_reported_at_the_threshold_then_every_five_hundred_reads() {
    assert!(!stale_warning_due(0));
    assert!(!stale_warning_due(24));
    assert!(stale_warning_due(25));
    assert!(!stale_warning_due(26));
    assert!(!stale_warning_due(499));
    assert!(stale_warning_due(500));
    assert!(!stale_warning_due(501));
    assert!(stale_warning_due(1000));
}

#[test]
fn the_run_is_the_length_of_the_trailing_episode() {
    let mut t = StaleImuTracker::default();
    for n in [4u8, 4, 4, 5, 6, 6, 6, 6] {
        t.observe(&block(n));
    }
    assert_eq!(t.stale, ImuStale { total: 5, run: 3 });
}
