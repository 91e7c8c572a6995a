use rolling_logger::archivers::{
    archive_step, shutdown_archivers, ArchiveStep, ArchiverPool, MAX_CONCURRENT_ARCHIVERS,
};
use rolling_logger::naming::{
    archive_file_name, is_leftover_temp, log_file_matches, log_file_name, temp_archive_name,
};
use rolling_logger::rolling::{RollingState, Rotation};

fn reopened(r: Rotation) -> String {
    match r {
        Rotation::Reopen(name) => name,
        Rotation::Keep => panic!("expected a new file"),
    }
}

#[test]
fn file_names() {
    assert_eq!(log_file_name("app", "2026-08-20", 0), "app.2026-08-20.log");
    assert_eq!(log_file_name("app", "2026-08-20", 3), "app.2026-08-20.3.log");
    assert_eq!(log_file_name("app", "2026-08-20", 4294967295), "app.2026-08-20.4294967295.log");
    assert_eq!(archive_file_name("app.2026-08-20.log"), "app.2026-08-20.log.gz");
    assert_eq!(
        temp_archive_name("app.2026-08-20.log.gz", 123, 0),
        "app.2026-08-20.log.gz.tmp.123.0"
    );
    assert!(is_leftover_temp(&temp_archive_name("app.x.log.gz", 7, 18446744073709551615), "app"));
    assert!(!is_leftover_temp("app.x.log.gz", "app"));
    assert!(log_file_matches("app.2026-08-20.3.log", "app"));
    assert!(!log_file_matches("apps.2026-08-20.log", "app"));
}

#[test]
fn first_write_opens_todays_file() {
    let mut s = RollingState::new("app", 10);
    assert_eq!(s.max_file_size(), 10 * 1024 * 1024);
    assert!(!s.file_is_open());
    let name = reopened(s.rotate_if_needed(Some("2026-08-20")));
    assert_eq!(name, "app.2026-08-20.log");
    s.file_opened(0);
    assert!(s.file_is_open());
    assert!(matches!(s.rotate_if_needed(None), Rotation::Keep));
    assert!(matches!(s.rotate_if_needed(Some("2026-08-20")), Rotation::Keep));
}

#[test]
fn size_limit_advances_sequence() {
    let mut s = RollingState::new("app", 1);
    reopened(s.rotate_if_needed(Some("2026-08-20")));
    s.file_opened(1024 * 1024 - 10);
    s.record_written(9);
    assert!(matches!(s.rotate_if_needed(None), Rotation::Keep));
    s.record_written(1);
    assert_eq!(s.current_size(), 1024 * 1024);
    assert_eq!(reopened(s.rotate_if_needed(None)), "app.2026-08-20.1.log");
    s.file_opened(0);
    s.record_written(2 * 1024 * 1024);
    assert_eq!(reopened(s.rotate_if_needed(None)), "app.2026-08-20.2.log");
    assert_eq!(s.current_seq(), 2);
}

#[test]
fn new_date_restarts_sequence() {
    let mut s = RollingState::new("app", 1);
    reopened(s.rotate_if_needed(Some("2026-08-20")));
    s.file_opened(5 * 1024 * 1024);
    // Date change wins over the size limit: sequence back to 0.
    assert_eq!(reopened(s.rotate_if_needed(Some("2026-08-21"))), "app.2026-08-21.log");
    assert_eq!(s.current_seq(), 0);
}

#[test]
fn unlimited_size_never_rotates_by_size() {
    let mut s = RollingState::new("app", 0);
    reopened(s.rotate_if_needed(Some("2026-08-20")));
    s.file_opened(u64::MAX - 1);
    assert!(matches!(s.rotate_if_needed(None), Rotation::Keep));
}

#[test]
fn closed_file_is_reopened() {
    let mut s = RollingState::new("app", 0);
    assert_eq!(reopened(s.rotate_if_needed(Some("2026-08-20"))), "app.2026-08-20.log");
    // Opening failed: the next write tries the same file again.
    assert_eq!(reopened(s.rotate_if_needed(None)), "app.2026-08-20.log");
}

#[test]
fn archiver_pool_limits_concurrency() {
    let mut pool: ArchiverPool<u32> = ArchiverPool::new();
    assert!(!pool.try_start(0));
    assert!(pool.try_start(3));
    pool.register(1);
    assert!(pool.try_start(1));
    pool.register(2);
    assert_eq!(pool.active_count(), MAX_CONCURRENT_ARCHIVERS);
    assert!(!pool.try_start(5));
    pool.finish();
    assert!(pool.try_start(5));
    pool.register(3);
    let handles = shutdown_archivers(&mut pool);
    assert_eq!(handles, vec![1, 2, 3]);
    assert!(shutdown_archivers(&mut pool).is_empty());
}

#[test]
fn archive_steps() {
    assert_eq!(archive_step(false, false), ArchiveStep::Skip);
    assert_eq!(archive_step(false, true), ArchiveStep::Skip);
    assert_eq!(archive_step(true, true), ArchiveStep::RemoveSource);
    assert_eq!(archive_step(true, false), ArchiveStep::Compress);
}
