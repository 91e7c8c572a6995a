//! A rolling file logger's core: file naming, rotation decisions, archive
//! selection, retention, level handling and line formatting, with contracts.

pub mod dates;
pub mod naming;
pub mod text;
pub mod selection;
pub mod log_facade;
pub mod slog_facade;
pub mod config;
pub mod timezone;
pub mod rolling;
pub mod archivers;
pub mod setup;
