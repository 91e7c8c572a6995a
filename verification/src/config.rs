//! The logging configuration.

use vstd::prelude::*;

verus! {

/// Logging configuration.
#[derive(Clone, Debug)]
pub struct LogConfig {
    /// Directory where log files are stored.
    pub dir: String,
    /// Log level filter rule (e.g. "info,zero_distance=debug").
    pub level: String,
    /// Log file name prefix.
    pub file_prefix: String,
    /// Maximum size of a single log file (in MB); `0` means no size limit.
    pub max_file_size_mb: u64,
    /// Maximum number of archived log files to retain; `0` means no limit.
    pub max_files: usize,
    /// Archive delay in days: only archive log files whose date is older
    /// than "today - N days". `0` archives everything before today, `1`
    /// everything before yesterday; a negative value archives immediately
    /// upon rotation.
    pub archive_delay_days: i64,
    /// Maximum number of files to archive in a single pass; files beyond it
    /// are left for the next rotation.
    pub archive_batch_size: usize,
    /// Whether to force `fsync` on flush.
    pub fsync_on_flush: bool,
    /// Timezone used for log timestamps and dates (IANA name, e.g. "UTC" or
    /// "Asia/Shanghai").
    pub timezone: String,
}

/// Default number of files archived per pass.
pub fn default_archive_batch_size() -> (r: usize)
    ensures
        r == 100,
{
    100
}

/// Default log timezone.
pub fn default_timezone() -> (r: String)
    ensures
        r@ == "UTC"@,
{
    String::from_str("UTC")
}

/// The size limit in bytes for a limit of `mb` megabytes.
pub open spec fn size_limit_bytes(mb: nat) -> nat {
    mb * 1048576
}

/// Converts a size limit in megabytes into bytes (`mb * 1024 * 1024`).
pub fn file_size_limit(mb: u64) -> (r: u64)
    requires
        size_limit_bytes(mb as nat) <= u64::MAX,
    ensures
        r == size_limit_bytes(mb as nat),
{
    mb * 1024 * 1024
}

} // verus!
