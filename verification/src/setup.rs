//! What initialization resolves from the configuration before it opens the
//! first log file and registers the logger with its facade.

use vstd::prelude::*;

use crate::config::{size_limit_bytes, LogConfig};
use crate::log_facade::{self, LevelFilter};
use crate::rolling::{RollingState, RollingView};
use crate::slog_facade::{self, SlogLevel};
use crate::timezone::{parse_timezone, spec_parse_timezone, TimeZone};

verus! {

/// The writer's initial rolling state for a configuration.
pub open spec fn initial_rolling(config: LogConfig) -> RollingView {
    RollingView {
        prefix: config.file_prefix@,
        max_file_size: size_limit_bytes(config.max_file_size_mb as nat),
        date: Seq::empty(),
        seq: 0,
        size: 0,
        file_open: false,
    }
}

/// The timezone and the initial rolling state of a rolling file writer.
pub struct WriterSetup {
    /// Timezone of timestamps and dates.
    pub timezone: TimeZone,
    /// Rolling state before the first file is opened.
    pub rolling: RollingState,
}

/// Resolves the writer part of a configuration: the timezone (UTC where the
/// configured name is unknown) and the initial rolling state.
pub fn writer_setup(config: &LogConfig) -> (r: WriterSetup)
    requires
        size_limit_bytes(config.max_file_size_mb as nat) <= u64::MAX,
    ensures
        r.timezone.name@ == spec_parse_timezone(config.timezone@),
        r.rolling@ == initial_rolling(*config),
{
    WriterSetup {
        timezone: parse_timezone(config.timezone.as_str()),
        rolling: RollingState::new(config.file_prefix.as_str(), config.max_file_size_mb),
    }
}

/// The settings of the `log` facade logger.
pub struct LogLoggerSetup {
    /// The rolling file writer's setup.
    pub writer: WriterSetup,
    /// The logger's level filter.
    pub level: LevelFilter,
}

/// Resolves a configuration for the `log` facade: the writer setup and the
/// single global level filter read from the level rule. The caller then
/// opens the writer and registers the logger (once per process).
pub fn init_log_logger(config: &LogConfig) -> (r: LogLoggerSetup)
    requires
        size_limit_bytes(config.max_file_size_mb as nat) <= u64::MAX,
    ensures
        r.writer.timezone.name@ == spec_parse_timezone(config.timezone@),
        r.writer.rolling@ == initial_rolling(*config),
        r.level == log_facade::spec_parse_level(config.level@),
{
    LogLoggerSetup {
        writer: writer_setup(config),
        level: log_facade::parse_level(config.level.as_str()),
    }
}

/// The settings of the slog facade logger.
pub struct SlogLoggerSetup {
    /// The rolling file writer's setup.
    pub writer: WriterSetup,
    /// The drain's level.
    pub level: SlogLevel,
}

/// Resolves a configuration for the slog facade: the writer setup and the
/// drain's level read from the level rule. The caller then opens the writer
/// and builds the root logger.
pub fn init_slog_logger(config: &LogConfig) -> (r: SlogLoggerSetup)
    requires
        size_limit_bytes(config.max_file_size_mb as nat) <= u64::MAX,
    ensures
        r.writer.timezone.name@ == spec_parse_timezone(config.timezone@),
        r.writer.rolling@ == initial_rolling(*config),
        r.level == slog_facade::spec_parse_level(config.level@),
{
    SlogLoggerSetup {
        writer: writer_setup(config),
        level: slog_facade::parse_level(config.level.as_str()),
    }
}

} // verus!
