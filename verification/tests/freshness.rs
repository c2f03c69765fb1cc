use prune::system::freshness::{Reading, DISK_TTL_MS, PROCESS_COUNT_TTL_MS, USERS_TTL_MS};

#[test]
fn nothing_is_fresh_before_the_first_reading() {
    let r = Reading::new();
    assert!(!r.fresh(0, DISK_TTL_MS));
    assert!(!r.fresh(1_000_000, USERS_TTL_MS));
}

#[test]
fn a_disk_reading_is_reused_for_ten_seconds() {
    let mut r = Reading::new();
    r.mark(5_000);
    assert!(r.fresh(5_000, DISK_TTL_MS));
    assert!(r.fresh(14_999, DISK_TTL_MS));
    assert!(!r.fresh(15_000, DISK_TTL_MS));
}

#[test]
fn a_cleanup_does_not_leave_a_stale_free_space_figure_behind() {
    let mut r = Reading::new();
    r.mark(100);
    assert!(r.fresh(200, DISK_TTL_MS));
    r.invalidate();
    assert_eq!(r.at, None);
    assert!(!r.fresh(200, DISK_TTL_MS));
    r.mark(300);
    assert_eq!(r.at, Some(300));
}

#[test]
fn a_process_listing_satisfies_the_next_count() {
    let mut r = Reading::new();
    r.mark(1_000);
    assert!(r.fresh(4_999, PROCESS_COUNT_TTL_MS));
    assert!(!r.fresh(5_000, PROCESS_COUNT_TTL_MS));
    // A clock that seems to go back counts as no time at all.
    assert!(r.fresh(0, PROCESS_COUNT_TTL_MS));
}
