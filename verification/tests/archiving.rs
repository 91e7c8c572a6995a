use chrono::{Datelike, Duration, NaiveDate, Utc};
use rolling_logger::naming::{archive_file_name, extract_date, should_archive};
use rolling_logger::selection::{cleanup_archive_files, collect_archive_targets};

fn today() -> NaiveDate {
    Utc::now().date_naive()
}

/// A log file name dated `days_ago` days before today (UTC).
fn dated_filename(prefix: &str, days_ago: i64) -> String {
    let date = today() - Duration::days(days_ago);
    format!("{}.{}.log", prefix, date.format("%Y-%m-%d"))
}

fn day(d: NaiveDate) -> i32 {
    d.num_days_from_ce()
}

#[test]
fn archives_history_logs() {
    let old1 = dated_filename("ZeroDistance", 1);
    let old2 = dated_filename("ZeroDistance", 2);
    let names = vec![old1.clone(), old2.clone()];
    let files = collect_archive_targets(&names, "ZeroDistance", day(today()), 0, 100)
        .expect("should collect archive targets");
    // Oldest first.
    assert_eq!(files, vec![old2.clone(), old1.clone()]);
    assert_eq!(archive_file_name(&old1), format!("{}.gz", old1));
    assert_eq!(archive_file_name(&old2), format!("{}.gz", old2));
}

#[test]
fn archive_ignores_unrelated_files() {
    let old = dated_filename("ZeroDistance", 1);
    let names = vec![old.clone(), "other.log".to_string(), "notes.txt".to_string()];
    let files = collect_archive_targets(&names, "ZeroDistance", day(today()), 0, 100)
        .expect("should collect archive targets");
    assert_eq!(files.len(), 1);
    assert_eq!(files[0], old);
    assert!(!files.contains(&"other.log".to_string()));
    assert!(!files.contains(&"notes.txt".to_string()));
}

#[test]
fn archive_delay_keeps_recent_logs() {
    let today_name = dated_filename("ZeroDistance", 0);
    let yesterday = dated_filename("ZeroDistance", 1);
    let two_days_ago = dated_filename("ZeroDistance", 2);
    let names = vec![today_name.clone(), yesterday.clone(), two_days_ago.clone()];
    let files = collect_archive_targets(&names, "ZeroDistance", day(today()), 1, 100)
        .expect("should collect archive targets");
    assert!(files.contains(&two_days_ago));
    assert!(!files.contains(&today_name));
    assert!(!files.contains(&yesterday));
    assert_eq!(files.len(), 1);
}

#[test]
fn archive_limits_batch_size() {
    let batch = 100usize;
    let total = batch + 10;
    let names: Vec<String> =
        (0..total).map(|i| dated_filename("ZeroDistance", i as i64 + 1)).collect();
    let files = collect_archive_targets(&names, "ZeroDistance", day(today()), 0, batch)
        .expect("should collect archive targets");
    assert_eq!(files.len(), batch);
    // The batch is the oldest part: the file 110 days old comes first.
    assert_eq!(files[0], dated_filename("ZeroDistance", total as i64));
}

#[test]
fn cleanup_removes_crash_tmp_files() {
    let tmp1 = "ZeroDistance.2026-08-20.log.gz.tmp.123.0".to_string();
    let tmp2 = "ZeroDistance.2026-08-19.log.gz.tmp.123.1".to_string();
    let gz = "ZeroDistance.2026-08-18.log.gz".to_string();
    let other = "other.gz.tmp.999.0".to_string();
    let names = vec![tmp1.clone(), tmp2.clone(), gz.clone(), other.clone()];
    let plan = cleanup_archive_files(&names, "ZeroDistance", 10);
    assert!(plan.leftover_temps.contains(&tmp1));
    assert!(plan.leftover_temps.contains(&tmp2));
    assert!(!plan.leftover_temps.contains(&gz) && !plan.expired.contains(&gz));
    assert!(!plan.leftover_temps.contains(&other) && !plan.expired.contains(&other));
}

#[test]
fn date_parsing_and_archive_decision() {
    let today = today();
    assert_eq!(
        extract_date("ZeroDistance.2026-08-20.log", "ZeroDistance"),
        NaiveDate::from_ymd_opt(2026, 8, 20).map(day)
    );
    assert_eq!(
        extract_date("ZeroDistance.2026-08-20.3.log", "ZeroDistance"),
        NaiveDate::from_ymd_opt(2026, 8, 20).map(day)
    );

    let yesterday = today - Duration::days(1);
    assert!(should_archive(
        &format!("ZeroDistance.{}.log", yesterday.format("%Y-%m-%d")),
        "ZeroDistance",
        day(today),
        0
    ));
    assert!(!should_archive(
        &format!("ZeroDistance.{}.log", today.format("%Y-%m-%d")),
        "ZeroDistance",
        day(today),
        0
    ));

    assert!(!should_archive(
        &format!("ZeroDistance.{}.log", yesterday.format("%Y-%m-%d")),
        "ZeroDistance",
        day(today),
        1
    ));
    let two_days_ago = today - Duration::days(2);
    assert!(should_archive(
        &format!("ZeroDistance.{}.log", two_days_ago.format("%Y-%m-%d")),
        "ZeroDistance",
        day(today),
        1
    ));

    assert!(should_archive(
        &format!("ZeroDistance.{}.log", today.format("%Y-%m-%d")),
        "ZeroDistance",
        day(today),
        -1
    ));
}

#[test]
fn extract_date_rejects_other_names() {
    assert_eq!(extract_date("Other.2026-08-20.log", "ZeroDistance"), None);
    assert_eq!(extract_date("ZeroDistance.2026-08-20.gz", "ZeroDistance"), None);
    assert_eq!(extract_date("ZeroDistance.2026-08.log", "ZeroDistance"), None);
    assert_eq!(extract_date("ZeroDistance.2026-13-40.log", "ZeroDistance"), None);
    // Ten characters that are no date.
    assert_eq!(extract_date("ZeroDistance.2026-08-2\u{e9}.log", "ZeroDistance"), None);
    assert_eq!(extract_date("ZeroDistance..log", "ZeroDistance"), None);
}

#[test]
fn unreadable_dates_are_archived() {
    assert!(should_archive("ZeroDistance.garbage-name.log", "ZeroDistance", 739000, 5));
}

#[test]
fn no_candidates_gives_none() {
    let names = vec!["notes.txt".to_string(), dated_filename("ZeroDistance", 0)];
    assert_eq!(collect_archive_targets(&names, "ZeroDistance", day(today()), 0, 100), None);
    let empty: Vec<String> = Vec::new();
    assert_eq!(collect_archive_targets(&empty, "ZeroDistance", day(today()), -1, 100), None);
}

#[test]
fn zero_batch_gives_none() {
    let names = vec![dated_filename("ZeroDistance", 3)];
    assert_eq!(collect_archive_targets(&names, "ZeroDistance", day(today()), 0, 0), None);
}

#[test]
fn date_is_read_from_ten_characters() {
    // Ten characters, eleven bytes: chrono skips the leading space.
    assert_eq!(
        extract_date("app.\u{3000}2026-8-20.log", "app"),
        NaiveDate::from_ymd_opt(2026, 8, 20).map(day)
    );
    assert_eq!(extract_date("app.2026-08-2.log", "app"), None);
}

#[test]
fn zero_max_files_keeps_everything() {
    let names: Vec<String> = vec![
        "app.2026-01-01.log.gz".into(),
        "app.2026-01-02.log.gz".into(),
        "app.2026-01-02.log.gz.tmp.7.0".into(),
    ];
    let plan = cleanup_archive_files(&names, "app", 0);
    assert!(plan.expired.is_empty());
    assert!(plan.leftover_temps.is_empty());
}

#[test]
fn second_cleanup_removes_nothing() {
    let names: Vec<String> = vec![
        "app.2026-01-03.log.gz".into(),
        "app.2026-01-01.log.gz".into(),
        "app.2026-01-02.log.gz".into(),
        "app.2026-01-02.log.gz.tmp.7.0".into(),
        "notes.txt".into(),
    ];
    let plan = cleanup_archive_files(&names, "app", 1);
    assert_eq!(plan.expired.len(), 2);
    assert_eq!(plan.leftover_temps.len(), 1);
    let left: Vec<String> = names
        .iter()
        .filter(|n| !plan.expired.contains(n) && !plan.leftover_temps.contains(n))
        .cloned()
        .collect();
    assert_eq!(left, vec!["app.2026-01-03.log.gz".to_string(), "notes.txt".to_string()]);
    let again = cleanup_archive_files(&left, "app", 1);
    assert!(again.expired.is_empty() && again.leftover_temps.is_empty());
}

#[test]
fn cleanup_removes_oldest_beyond_limit() {
    let names: Vec<String> = vec![
        "app.2026-01-03.log.gz".into(),
        "app.2026-01-01.log.gz".into(),
        "app.2026-01-02.1.log.gz".into(),
        "app.2026-01-02.log.gz".into(),
        "app.2026-01-04.log".into(),
        "other.2026-01-01.log.gz".into(),
    ];
    let plan = cleanup_archive_files(&names, "app", 2);
    assert_eq!(
        plan.expired,
        vec!["app.2026-01-01.log.gz".to_string(), "app.2026-01-02.1.log.gz".to_string()]
    );
    assert!(plan.leftover_temps.is_empty());
    let plan = cleanup_archive_files(&names, "app", 10);
    assert!(plan.expired.is_empty());
}
