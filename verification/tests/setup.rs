use rolling_logger::config::{default_archive_batch_size, default_timezone, LogConfig};
use rolling_logger::log_facade::LevelFilter;
use rolling_logger::setup::{init_log_logger, init_slog_logger, writer_setup};
use rolling_logger::slog_facade::SlogLevel;
use rolling_logger::timezone::parse_timezone;

fn config(level: &str, tz: &str) -> LogConfig {
    LogConfig {
        dir: "./logs".into(),
        level: level.into(),
        file_prefix: "app".into(),
        max_file_size_mb: 10,
        max_files: 30,
        archive_delay_days: 0,
        archive_batch_size: 100,
        fsync_on_flush: false,
        timezone: tz.into(),
    }
}

#[test]
fn defaults() {
    assert_eq!(default_archive_batch_size(), 100);
    assert_eq!(default_timezone(), "UTC");
}

#[test]
fn timezones() {
    assert_eq!(parse_timezone("Asia/Shanghai").name, "Asia/Shanghai");
    assert_eq!(parse_timezone("UTC").name, "UTC");
    assert_eq!(parse_timezone("Not/AZone").name, "UTC");
    assert_eq!(parse_timezone("asia/shanghai").name, "UTC");
    assert_eq!(parse_timezone("").name, "UTC");
}

#[test]
fn log_logger_setup() {
    let s = init_log_logger(&config("debug,hyper=warn", "Europe/Paris"));
    assert_eq!(s.level, LevelFilter::Debug);
    assert_eq!(s.writer.timezone.name, "Europe/Paris");
    assert_eq!(s.writer.rolling.max_file_size(), 10 * 1024 * 1024);
    assert!(!s.writer.rolling.file_is_open());
    let s = init_log_logger(&config("nonsense", "Mars/Base"));
    assert_eq!(s.level, LevelFilter::Info);
    assert_eq!(s.writer.timezone.name, "UTC");
}

#[test]
fn slog_logger_setup() {
    let s = init_slog_logger(&config("warn", "UTC"));
    assert_eq!(s.level, SlogLevel::Warning);
    let w = writer_setup(&config("x", "UTC"));
    assert_eq!(w.rolling.current_size(), 0);
    assert_eq!(w.rolling.current_seq(), 0);
}
