use rolling_logger::log_facade::{
    self, console_line, file_line, is_enabled, level_color, padded_level_name, Level, LevelFilter,
};
use rolling_logger::slog_facade::{self, emit_arguments, emit_str, SlogLevel};

#[test]
fn log_level_rule_first_item_is_read() {
    assert_eq!(log_facade::parse_level("info"), LevelFilter::Info);
    assert_eq!(log_facade::parse_level("info,zero_distance=debug"), LevelFilter::Info);
    assert_eq!(log_facade::parse_level("  DeBuG ,x=trace"), LevelFilter::Debug);
    assert_eq!(log_facade::parse_level("\u{3000}warn\t"), LevelFilter::Warn);
    assert_eq!(log_facade::parse_level("off"), LevelFilter::Off);
    assert_eq!(log_facade::parse_level("TRACE"), LevelFilter::Trace);
    assert_eq!(log_facade::parse_level("error"), LevelFilter::Error);
}

#[test]
fn log_level_rule_falls_back_to_info() {
    assert_eq!(log_facade::parse_level(""), LevelFilter::Info);
    assert_eq!(log_facade::parse_level("zero_distance=debug,info"), LevelFilter::Info);
    assert_eq!(log_facade::parse_level("verbose"), LevelFilter::Info);
    assert_eq!(log_facade::parse_level("warning"), LevelFilter::Info);
    assert_eq!(log_facade::parse_level("d\u{e9}bug"), LevelFilter::Info);
}

#[test]
fn log_levels_and_filters() {
    assert!(is_enabled(Level::Error, LevelFilter::Error));
    assert!(is_enabled(Level::Info, LevelFilter::Debug));
    assert!(!is_enabled(Level::Debug, LevelFilter::Info));
    assert!(!is_enabled(Level::Error, LevelFilter::Off));
    assert!(is_enabled(Level::Trace, LevelFilter::Trace));
}

#[test]
fn log_colors_and_names() {
    assert_eq!(level_color(Level::Error), "\x1b[31m");
    assert_eq!(level_color(Level::Warn), "\x1b[33m");
    assert_eq!(level_color(Level::Info), "\x1b[32m");
    assert_eq!(level_color(Level::Debug), "\x1b[34m");
    assert_eq!(level_color(Level::Trace), "\x1b[35m");
    assert_eq!(padded_level_name(Level::Warn), "WARN ");
    assert_eq!(padded_level_name(Level::Error), "ERROR");
    // The same padding as the `log` crate's Display with `{:5}`.
    assert_eq!(format!("{:5}", log::Level::Info), padded_level_name(Level::Info));
}

#[test]
fn log_line_layout() {
    assert_eq!(
        file_line("2026-01-02 03:04:05.678", Level::Info, "app::db", "connected"),
        "2026-01-02 03:04:05.678 [INFO ] app::db - connected"
    );
    assert_eq!(
        console_line("T", Level::Error, "m", "boom"),
        "T \x1b[31mERROR\x1b[0m m - boom"
    );
}

#[test]
fn slog_level_rule() {
    assert_eq!(slog_facade::parse_level("warning"), SlogLevel::Warning);
    assert_eq!(slog_facade::parse_level("warn"), SlogLevel::Warning);
    assert_eq!(slog_facade::parse_level("Crit,foo=debug"), SlogLevel::Critical);
    assert_eq!(slog_facade::parse_level(" erro "), SlogLevel::Error);
    assert_eq!(slog_facade::parse_level("debg"), SlogLevel::Debug);
    assert_eq!(slog_facade::parse_level("t"), SlogLevel::Trace);
    assert_eq!(slog_facade::parse_level("off"), SlogLevel::Info);
    assert_eq!(slog_facade::parse_level(""), SlogLevel::Info);
    assert_eq!(slog_facade::parse_level("infos"), SlogLevel::Info);
    assert_eq!(slog_facade::parse_level("trace"), SlogLevel::Trace);
}

#[test]
fn slog_levels_and_lines() {
    assert!(slog_facade::is_enabled(SlogLevel::Error, SlogLevel::Info));
    assert!(!slog_facade::is_enabled(SlogLevel::Debug, SlogLevel::Info));
    assert_eq!(slog_facade::level_color(SlogLevel::Critical), "\x1b[31m");
    assert_eq!(slog_facade::level_short_name(SlogLevel::Debug), "DEBG");
    assert_eq!(
        slog_facade::level_short_name(SlogLevel::Warning),
        slog::Level::Warning.as_short_str()
    );
    let mut kv = String::new();
    emit_str(&mut kv, "action", "log in");
    emit_arguments(&mut kv, "user_id", "42");
    assert_eq!(kv, " action=\"log in\" user_id=42");
    assert_eq!(
        slog_facade::file_line("T", SlogLevel::Info, "app", "hello", &kv),
        "T [INFO] app - hello action=\"log in\" user_id=42"
    );
    assert_eq!(
        slog_facade::console_line("T", SlogLevel::Warning, "app", "hi", ""),
        "T \x1b[33mWARN\x1b[0m app - hi"
    );
}
