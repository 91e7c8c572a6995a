//! The `slog` facade: levels, the level read from the configuration,
//! console colors, key-value rendering and the layout of console and file
//! lines.

use vstd::prelude::*;

use crate::log_facade::reset_code;
use crate::text::{ascii_lower, is_ascii_letter, chars_of, first_field, first_field_of, string_of, trim, trim_chars};

verus! {

/// A record's level, as the `slog` crate has it.
#[derive(Clone, Copy, Debug, PartialEq, Eq, Structural)]
pub enum SlogLevel {
    Critical,
    Error,
    Warning,
    Info,
    Debug,
    Trace,
}

/// The position of a level, from `Critical` (1) to `Trace` (6), as slog
/// numbers them.
pub open spec fn slog_rank(l: SlogLevel) -> nat {
    match l {
        SlogLevel::Critical => 1,
        SlogLevel::Error => 2,
        SlogLevel::Warning => 3,
        SlogLevel::Info => 4,
        SlogLevel::Debug => 5,
        SlogLevel::Trace => 6,
    }
}

fn rank(l: SlogLevel) -> (r: u8)
    ensures
        r == slog_rank(l),
{
    match l {
        SlogLevel::Critical => 1,
        SlogLevel::Error => 2,
        SlogLevel::Warning => 3,
        SlogLevel::Info => 4,
        SlogLevel::Debug => 5,
        SlogLevel::Trace => 6,
    }
}

/// Whether a record of `level` passes a drain configured for `configured`
/// (slog's `level <= configured`: the record is at most as verbose).
pub fn is_enabled(level: SlogLevel, configured: SlogLevel) -> (r: bool)
    ensures
        r == (slog_rank(level) <= slog_rank(configured)),
{
    rank(level) <= rank(configured)
}

/// slog's level names (`LOG_LEVEL_NAMES`), index 0 being "OFF".
pub open spec fn slog_name(i: int) -> Seq<char> {
    if i == 0 {
        seq!['O', 'F', 'F']
    } else if i == 1 {
        seq!['C', 'R', 'I', 'T', 'I', 'C', 'A', 'L']
    } else if i == 2 {
        seq!['E', 'R', 'R', 'O', 'R']
    } else if i == 3 {
        seq!['W', 'A', 'R', 'N', 'I', 'N', 'G']
    } else if i == 4 {
        seq!['I', 'N', 'F', 'O']
    } else if i == 5 {
        seq!['D', 'E', 'B', 'U', 'G']
    } else {
        seq!['T', 'R', 'A', 'C', 'E']
    }
}

/// slog's short level names (`LOG_LEVEL_SHORT_NAMES`), index 0 being "OFF".
pub open spec fn slog_short_name(i: int) -> Seq<char> {
    if i == 0 {
        seq!['O', 'F', 'F']
    } else if i == 1 {
        seq!['C', 'R', 'I', 'T']
    } else if i == 2 {
        seq!['E', 'R', 'R', 'O']
    } else if i == 3 {
        seq!['W', 'A', 'R', 'N']
    } else if i == 4 {
        seq!['I', 'N', 'F', 'O']
    } else if i == 5 {
        seq!['D', 'E', 'B', 'G']
    } else {
        seq!['T', 'R', 'C', 'E']
    }
}

/// The level at slog's index `i` (1 to 6).
pub open spec fn level_at(i: int) -> SlogLevel {
    if i == 1 {
        SlogLevel::Critical
    } else if i == 2 {
        SlogLevel::Error
    } else if i == 3 {
        SlogLevel::Warning
    } else if i == 4 {
        SlogLevel::Info
    } else if i == 5 {
        SlogLevel::Debug
    } else {
        SlogLevel::Trace
    }
}

/// `needle` is non-empty and equals, ignoring ASCII case, the start of
/// `hay` of its own length.
pub open spec fn is_prefix_ignoring_case(needle: Seq<char>, hay: Seq<char>) -> bool {
    0 < needle.len() <= hay.len() && forall|j: int|
        0 <= j < needle.len() ==> ascii_lower(#[trigger] needle[j]) == ascii_lower(hay[j])
}

/// The first index, from `i` on, of a name in `names` that `needle`
/// abbreviates; `None` where there is none.
pub open spec fn first_abbreviated(needle: Seq<char>, short: bool, i: int) -> Option<int>
    decreases 7 - i,
{
    if i < 0 || i >= 7 {
        None
    } else if is_prefix_ignoring_case(
        needle,
        if short {
            slog_short_name(i)
        } else {
            slog_name(i)
        },
    ) {
        Some(i)
    } else {
        first_abbreviated(needle, short, i + 1)
    }
}

/// What `str::parse::<slog::Level>` gives: the first name, then the first
/// short name, that `s` abbreviates (ignoring ASCII case) picks the level;
/// "OFF" picks none.
pub open spec fn spec_slog_level_from_str(s: Seq<char>) -> Option<SlogLevel> {
    let index = match first_abbreviated(s, false, 0) {
        Some(i) => Some(i),
        None => first_abbreviated(s, true, 0),
    };
    match index {
        Some(i) => if i == 0 {
            None
        } else {
            Some(level_at(i))
        },
        None => None,
    }
}

/// slog's `Level::from_str`: as its source shows, it looks for the first of
/// the names "OFF", "CRITICAL", "ERROR", "WARNING", "INFO", "DEBUG", "TRACE"
/// whose start of the needle's length equals the (non-empty) needle
/// ignoring ASCII case, then likewise among the short names "OFF", "CRIT",
/// "ERRO", "WARN", "INFO", "DEBG", "TRCE"; the index found gives the level,
/// and index 0 ("OFF") or no match gives an error.
#[verifier::external_body]
fn slog_level_from_str(s: &str) -> (r: Option<SlogLevel>)
    ensures
        r == spec_slog_level_from_str(s@),
{
    match s.parse::<slog::Level>() {
        Ok(slog::Level::Critical) => Some(SlogLevel::Critical),
        Ok(slog::Level::Error) => Some(SlogLevel::Error),
        Ok(slog::Level::Warning) => Some(SlogLevel::Warning),
        Ok(slog::Level::Info) => Some(SlogLevel::Info),
        Ok(slog::Level::Debug) => Some(SlogLevel::Debug),
        Ok(slog::Level::Trace) => Some(SlogLevel::Trace),
        Err(_) => None,
    }
}

/// The level that a configured level rule gives the slog drain: the first
/// comma-separated item, trimmed, read as a slog level; `Info` where it is
/// none.
pub open spec fn spec_parse_level(level: Seq<char>) -> SlogLevel {
    match spec_slog_level_from_str(trim(first_field(level, ','))) {
        Some(l) => l,
        None => SlogLevel::Info,
    }
}

/// Parses the configured level rule into slog's single global level: the
/// first comma-separated item, trimmed, read as a slog level name; `Info`
/// when that fails.
pub fn parse_level(level: &str) -> (r: SlogLevel)
    ensures
        r == spec_parse_level(level@),
{
    let all = chars_of(level);
    let first = first_field_of(&all, ',');
    let trimmed = trim_chars(&first);
    let token = string_of(&trimmed);
    match slog_level_from_str(token.as_str()) {
        Some(l) => l,
        None => SlogLevel::Info,
    }
}

/// The short name that slog prints for a level (its `Display`).
pub open spec fn short_name(l: SlogLevel) -> Seq<char> {
    slog_short_name(slog_rank(l) as int)
}

/// Returns the short name of a level, as slog displays it.
pub fn level_short_name(level: SlogLevel) -> (r: &'static str)
    ensures
        r@ == short_name(level),
{
    proof {
        reveal_strlit("CRIT");
        reveal_strlit("ERRO");
        reveal_strlit("WARN");
        reveal_strlit("INFO");
        reveal_strlit("DEBG");
        reveal_strlit("TRCE");
    }
    match level {
        SlogLevel::Critical => {
            assert("CRIT"@ =~= short_name(level));
            "CRIT"
        },
        SlogLevel::Error => {
            assert("ERRO"@ =~= short_name(level));
            "ERRO"
        },
        SlogLevel::Warning => {
            assert("WARN"@ =~= short_name(level));
            "WARN"
        },
        SlogLevel::Info => {
            assert("INFO"@ =~= short_name(level));
            "INFO"
        },
        SlogLevel::Debug => {
            assert("DEBG"@ =~= short_name(level));
            "DEBG"
        },
        SlogLevel::Trace => {
            assert("TRCE"@ =~= short_name(level));
            "TRCE"
        },
    }
}

/// The ANSI color sequence of a level on the console.
pub open spec fn spec_level_color(l: SlogLevel) -> Seq<char> {
    match l {
        SlogLevel::Critical => "\x1b[31m"@,
        SlogLevel::Error => "\x1b[31m"@,
        SlogLevel::Warning => "\x1b[33m"@,
        SlogLevel::Info => "\x1b[32m"@,
        SlogLevel::Debug => "\x1b[34m"@,
        SlogLevel::Trace => "\x1b[35m"@,
    }
}

/// Returns the ANSI color code for a slog level (console output): red for
/// `Critical` and `Error`, then yellow, green, blue and magenta.
pub fn level_color(level: SlogLevel) -> (r: &'static str)
    ensures
        r@ == spec_level_color(level),
{
    match level {
        SlogLevel::Critical => "\x1b[31m",
        SlogLevel::Error => "\x1b[31m",
        SlogLevel::Warning => "\x1b[33m",
        SlogLevel::Info => "\x1b[32m",
        SlogLevel::Debug => "\x1b[34m",
        SlogLevel::Trace => "\x1b[35m",
    }
}

/// Appends a string value as ` {key}="{value}"`: quoted, so that a value
/// with spaces keeps the line readable.
pub fn emit_str(out: &mut String, key: &str, value: &str)
    ensures
        final(out)@ == old(out)@ + seq![' '] + key@ + seq!['=', '"'] + value@ + seq!['"'],
{
    proof {
        reveal_strlit(" ");
        reveal_strlit("=\"");
        reveal_strlit("\"");
    }
    out.append(" ");
    out.append(key);
    out.append("=\"");
    out.append(value);
    out.append("\"");
    assert(out@ =~= old(out)@ + seq![' '] + key@ + seq!['=', '"'] + value@ + seq!['"']);
}

/// Appends any other value, already rendered, as ` {key}={value}`.
pub fn emit_arguments(out: &mut String, key: &str, value: &str)
    ensures
        final(out)@ == old(out)@ + seq![' '] + key@ + seq!['='] + value@,
{
    proof {
        reveal_strlit(" ");
        reveal_strlit("=");
    }
    out.append(" ");
    out.append(key);
    out.append("=");
    out.append(value);
    assert(out@ =~= old(out)@ + seq![' '] + key@ + seq!['='] + value@);
}

/// The file line of a record: `{ts} [{level}] {module} - {message}{kv}`.
pub open spec fn spec_file_line(
    ts: Seq<char>,
    level: SlogLevel,
    module: Seq<char>,
    message: Seq<char>,
    kv: Seq<char>,
) -> Seq<char> {
    ts + seq![' ', '['] + short_name(level) + seq![']', ' '] + module + seq![' ', '-', ' ']
        + message + kv
}

/// The console line of a record:
/// `{ts} {color}{level}{reset} {module} - {message}{kv}`.
pub open spec fn spec_console_line(
    ts: Seq<char>,
    level: SlogLevel,
    module: Seq<char>,
    message: Seq<char>,
    kv: Seq<char>,
) -> Seq<char> {
    ts + seq![' '] + spec_level_color(level) + short_name(level) + reset_code() + seq![' ']
        + module + seq![' ', '-', ' '] + message + kv
}

/// Lays out the plain-text line written to the log file for a record, its
/// rendered key-values appended (without the line's end).
pub fn file_line(ts: &str, level: SlogLevel, module: &str, message: &str, kv: &str) -> (r: String)
    ensures
        r@ == spec_file_line(ts@, level, module@, message@, kv@),
{
    proof {
        reveal_strlit(" [");
        reveal_strlit("] ");
        reveal_strlit(" - ");
    }
    let mut r = String::from_str(ts);
    r.append(" [");
    r.append(level_short_name(level));
    r.append("] ");
    r.append(module);
    r.append(" - ");
    r.append(message);
    r.append(kv);
    assert(r@ =~= spec_file_line(ts@, level, module@, message@, kv@));
    r
}

/// Lays out the colored line printed on the console for a record, its
/// rendered key-values appended (without the line's end).
pub fn console_line(ts: &str, level: SlogLevel, module: &str, message: &str, kv: &str) -> (r: String)
    ensures
        r@ == spec_console_line(ts@, level, module@, message@, kv@),
{
    proof {
        reveal_strlit(" ");
        reveal_strlit(" - ");
    }
    let mut r = String::from_str(ts);
    r.append(" ");
    r.append(level_color(level));
    r.append(level_short_name(level));
    r.append("\x1b[0m");
    r.append(" ");
    r.append(module);
    r.append(" - ");
    r.append(message);
    r.append(kv);
    assert(r@ =~= spec_console_line(ts@, level, module@, message@, kv@));
    r
}

} // verus!

verus! {

/// A level name written in the configuration, in any letter case and
/// shortened to any non-empty start ("warn", "Info", "crit"), gives that
/// level: the names start with distinct letters.
pub proof fn lemma_level_name_parses(l: SlogLevel, written: Seq<char>)
    requires
        is_prefix_ignoring_case(written, slog_name(slog_rank(l) as int)),
    ensures
        spec_parse_level(written) == l,
{
    let k = slog_rank(l) as int;
    let n = slog_name(k);
    assert forall|i: int| 0 <= i < written.len() implies is_ascii_letter(#[trigger] written[i]) by {
        assert(ascii_lower(written[i]) == ascii_lower(n[i]));
    }
    crate::text::lemma_no_sep_first_field(written, ',');
    crate::text::lemma_trim_plain(written);
    assert(ascii_lower(written[0]) == ascii_lower(n[0]));
    assert forall|i: int| 0 <= i < 7 && i != k implies !is_prefix_ignoring_case(
        written,
        #[trigger] slog_name(i),
    ) by {
        assert(ascii_lower(slog_name(i)[0]) != ascii_lower(n[0]));
    }
    reveal_with_fuel(first_abbreviated, 8);
    assert(first_abbreviated(written, false, 0) == Some(k));
}


/// The initial of a level's name: `C`ritical, `E`rror, `W`arning, `I`nfo,
/// `D`ebug, `T`race.
pub open spec fn level_initial(l: SlogLevel) -> char {
    match l {
        SlogLevel::Critical => 'C',
        SlogLevel::Error => 'E',
        SlogLevel::Warning => 'W',
        SlogLevel::Info => 'I',
        SlogLevel::Debug => 'D',
        SlogLevel::Trace => 'T',
    }
}

/// A level's label in a line is a four-letter abbreviation of that level's
/// own name (it starts with the name's initial), and distinct levels get
/// distinct labels.
pub proof fn lemma_short_names_distinct(a: SlogLevel, b: SlogLevel)
    ensures
        short_name(a).len() == 4,
        short_name(a)[0] == level_initial(a),
        a != b ==> short_name(a) != short_name(b),
{
    if a != b && short_name(a) == short_name(b) {
        assert(short_name(a)[0] == short_name(b)[0]);
    }
}


/// The level one step more verbose than `l` (`Trace` has none; it is its
/// own).
pub open spec fn more_verbose(l: SlogLevel) -> SlogLevel {
    match l {
        SlogLevel::Critical => SlogLevel::Error,
        SlogLevel::Error => SlogLevel::Warning,
        SlogLevel::Warning => SlogLevel::Info,
        SlogLevel::Info => SlogLevel::Debug,
        SlogLevel::Debug => SlogLevel::Trace,
        SlogLevel::Trace => SlogLevel::Trace,
    }
}

/// slog's filtering order: levels rank Critical < Error < Warning < Info <
/// Debug < Trace; a record that passes a drain also passes one configured
/// one step more verbose, and a record one step more
/// verbose than the configured level is dropped.
pub proof fn lemma_slog_filter_order(l: SlogLevel, configured: SlogLevel)
    ensures
        l != SlogLevel::Trace ==> !(slog_rank(more_verbose(l)) <= slog_rank(l)),
        slog_rank(l) <= slog_rank(configured) ==> slog_rank(l) <= slog_rank(
            more_verbose(configured),
        ),
        slog_rank(SlogLevel::Critical) < slog_rank(SlogLevel::Error),
        slog_rank(SlogLevel::Error) < slog_rank(SlogLevel::Warning),
        slog_rank(SlogLevel::Warning) < slog_rank(SlogLevel::Info),
        slog_rank(SlogLevel::Info) < slog_rank(SlogLevel::Debug),
        slog_rank(SlogLevel::Debug) < slog_rank(SlogLevel::Trace),
{
}

} // verus!
