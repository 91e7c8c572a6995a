//! The `log` facade: levels, the level filter read from the configuration,
//! console colors and the layout of console and file lines.

use vstd::prelude::*;

use crate::text::{
    is_ascii_letter,
    ascii_lower, chars_of, eq_ignore_ascii_case, first_field, first_field_of, string_of, trim,
    trim_chars,
};

verus! {

/// A record's level, as the `log` crate has it.
#[derive(Clone, Copy, Debug, PartialEq, Eq, Structural)]
pub enum Level {
    Error,
    Warn,
    Info,
    Debug,
    Trace,
}

/// The most verbose level a logger lets through, as the `log` crate has it.
#[derive(Clone, Copy, Debug, PartialEq, Eq, Structural)]
pub enum LevelFilter {
    Off,
    Error,
    Warn,
    Info,
    Debug,
    Trace,
}

/// The position of a level: `Error` is 1, `Trace` is 5.
pub open spec fn level_rank(l: Level) -> nat {
    match l {
        Level::Error => 1,
        Level::Warn => 2,
        Level::Info => 3,
        Level::Debug => 4,
        Level::Trace => 5,
    }
}

/// The position of a filter: `Off` is 0, `Trace` is 5.
pub open spec fn filter_rank(f: LevelFilter) -> nat {
    match f {
        LevelFilter::Off => 0,
        LevelFilter::Error => 1,
        LevelFilter::Warn => 2,
        LevelFilter::Info => 3,
        LevelFilter::Debug => 4,
        LevelFilter::Trace => 5,
    }
}

/// Whether a record of `level` passes the filter `filter` (the `log`
/// crate's `level <= filter`).
pub fn is_enabled(level: Level, filter: LevelFilter) -> (r: bool)
    ensures
        r == (level_rank(level) <= filter_rank(filter)),
{
    let l: u8 = match level {
        Level::Error => 1,
        Level::Warn => 2,
        Level::Info => 3,
        Level::Debug => 4,
        Level::Trace => 5,
    };
    let f: u8 = match filter {
        LevelFilter::Off => 0,
        LevelFilter::Error => 1,
        LevelFilter::Warn => 2,
        LevelFilter::Info => 3,
        LevelFilter::Debug => 4,
        LevelFilter::Trace => 5,
    };
    l <= f
}

/// The name of a level (`Level::as_str`).
pub open spec fn level_name(l: Level) -> Seq<char> {
    match l {
        Level::Error => seq!['E', 'R', 'R', 'O', 'R'],
        Level::Warn => seq!['W', 'A', 'R', 'N'],
        Level::Info => seq!['I', 'N', 'F', 'O'],
        Level::Debug => seq!['D', 'E', 'B', 'U', 'G'],
        Level::Trace => seq!['T', 'R', 'A', 'C', 'E'],
    }
}

/// The name of a filter (`LevelFilter::as_str`).
pub open spec fn filter_name(f: LevelFilter) -> Seq<char> {
    match f {
        LevelFilter::Off => seq!['O', 'F', 'F'],
        LevelFilter::Error => level_name(Level::Error),
        LevelFilter::Warn => level_name(Level::Warn),
        LevelFilter::Info => level_name(Level::Info),
        LevelFilter::Debug => level_name(Level::Debug),
        LevelFilter::Trace => level_name(Level::Trace),
    }
}

/// What `str::parse::<log::LevelFilter>` gives: the filter whose name
/// equals `s` ignoring ASCII case, if any.
pub open spec fn spec_level_filter_from_str(s: Seq<char>) -> Option<LevelFilter> {
    if eq_ignore_ascii_case(filter_name(LevelFilter::Off), s) {
        Some(LevelFilter::Off)
    } else if eq_ignore_ascii_case(filter_name(LevelFilter::Error), s) {
        Some(LevelFilter::Error)
    } else if eq_ignore_ascii_case(filter_name(LevelFilter::Warn), s) {
        Some(LevelFilter::Warn)
    } else if eq_ignore_ascii_case(filter_name(LevelFilter::Info), s) {
        Some(LevelFilter::Info)
    } else if eq_ignore_ascii_case(filter_name(LevelFilter::Debug), s) {
        Some(LevelFilter::Debug)
    } else if eq_ignore_ascii_case(filter_name(LevelFilter::Trace), s) {
        Some(LevelFilter::Trace)
    } else {
        None
    }
}

/// The `log` crate's `LevelFilter::from_str`: as its source shows, it
/// compares `s` with the names "OFF", "ERROR", "WARN", "INFO", "DEBUG",
/// "TRACE" in turn, ignoring ASCII case, and returns the first filter whose
/// name matches; it fails where none does.
#[verifier::external_body]
fn level_filter_from_str(s: &str) -> (r: Option<LevelFilter>)
    ensures
        r == spec_level_filter_from_str(s@),
{
    match s.parse::<log::LevelFilter>() {
        Ok(log::LevelFilter::Off) => Some(LevelFilter::Off),
        Ok(log::LevelFilter::Error) => Some(LevelFilter::Error),
        Ok(log::LevelFilter::Warn) => Some(LevelFilter::Warn),
        Ok(log::LevelFilter::Info) => Some(LevelFilter::Info),
        Ok(log::LevelFilter::Debug) => Some(LevelFilter::Debug),
        Ok(log::LevelFilter::Trace) => Some(LevelFilter::Trace),
        Err(_) => None,
    }
}

/// The filter that a configured level rule gives: the rule follows
/// `EnvFilter` syntax ("info,my_crate=debug"), of which the first item,
/// trimmed, is read as a filter name; `Info` where it is none.
pub open spec fn spec_parse_level(level: Seq<char>) -> LevelFilter {
    match spec_level_filter_from_str(trim(first_field(level, ','))) {
        Some(f) => f,
        None => LevelFilter::Info,
    }
}

/// Parses the configured level rule into the `log` facade's single global
/// filter: its first comma-separated item, trimmed, read as a level name
/// (case-insensitive); `Info` when that fails.
pub fn parse_level(level: &str) -> (r: LevelFilter)
    ensures
        r == spec_parse_level(level@),
{
    let all = chars_of(level);
    let first = first_field_of(&all, ',');
    let trimmed = trim_chars(&first);
    let token = string_of(&trimmed);
    match level_filter_from_str(token.as_str()) {
        Some(f) => f,
        None => LevelFilter::Info,
    }
}

/// The ANSI color sequence of a level on the console.
pub open spec fn spec_level_color(l: Level) -> Seq<char> {
    match l {
        Level::Error => "\x1b[31m"@,
        Level::Warn => "\x1b[33m"@,
        Level::Info => "\x1b[32m"@,
        Level::Debug => "\x1b[34m"@,
        Level::Trace => "\x1b[35m"@,
    }
}

/// Returns the ANSI color code for a level (console output): red, yellow,
/// green, blue and magenta from `Error` to `Trace`.
pub fn level_color(level: Level) -> (r: &'static str)
    ensures
        r@ == spec_level_color(level),
{
    match level {
        Level::Error => "\x1b[31m",
        Level::Warn => "\x1b[33m",
        Level::Info => "\x1b[32m",
        Level::Debug => "\x1b[34m",
        Level::Trace => "\x1b[35m",
    }
}

/// The ANSI sequence that resets the console color.
pub open spec fn reset_code() -> Seq<char> {
    "\x1b[0m"@
}

/// `s` padded with spaces on the right to `w` characters, as `{:w}` pads a
/// string.
pub open spec fn pad_right(s: Seq<char>, w: nat) -> Seq<char> {
    if s.len() < w {
        s + Seq::new((w - s.len()) as nat, |i: int| ' ')
    } else {
        s
    }
}

/// A level's name padded to five characters, as `{:5}` prints it.
pub fn padded_level_name(level: Level) -> (r: &'static str)
    ensures
        r@ == pad_right(level_name(level), 5),
{
    proof {
        reveal_strlit("ERROR");
        reveal_strlit("WARN ");
        reveal_strlit("INFO ");
        reveal_strlit("DEBUG");
        reveal_strlit("TRACE");
    }
    match level {
        Level::Error => {
            assert("ERROR"@ =~= pad_right(level_name(level), 5));
            "ERROR"
        },
        Level::Warn => {
            assert("WARN "@ =~= pad_right(level_name(level), 5));
            "WARN "
        },
        Level::Info => {
            assert("INFO "@ =~= pad_right(level_name(level), 5));
            "INFO "
        },
        Level::Debug => {
            assert("DEBUG"@ =~= pad_right(level_name(level), 5));
            "DEBUG"
        },
        Level::Trace => {
            assert("TRACE"@ =~= pad_right(level_name(level), 5));
            "TRACE"
        },
    }
}

/// The file line of a record: `{ts} [{level:5}] {target} - {message}`.
pub open spec fn spec_file_line(ts: Seq<char>, level: Level, target: Seq<char>, message: Seq<char>) -> Seq<char> {
    ts + seq![' ', '['] + pad_right(level_name(level), 5) + seq![']', ' '] + target + seq![
        ' ',
        '-',
        ' ',
    ] + message
}

/// The console line of a record:
/// `{ts} {color}{level:5}{reset} {target} - {message}`.
pub open spec fn spec_console_line(ts: Seq<char>, level: Level, target: Seq<char>, message: Seq<char>) -> Seq<char> {
    ts + seq![' '] + spec_level_color(level) + pad_right(level_name(level), 5) + reset_code()
        + seq![' '] + target + seq![' ', '-', ' '] + message
}

/// Lays out the plain-text line written to the log file for a record
/// (without the line's end).
pub fn file_line(ts: &str, level: Level, target: &str, message: &str) -> (r: String)
    ensures
        r@ == spec_file_line(ts@, level, target@, message@),
{
    proof {
        reveal_strlit(" [");
        reveal_strlit("] ");
        reveal_strlit(" - ");
    }
    let mut r = String::from_str(ts);
    r.append(" [");
    r.append(padded_level_name(level));
    r.append("] ");
    r.append(target);
    r.append(" - ");
    r.append(message);
    assert(r@ =~= spec_file_line(ts@, level, target@, message@));
    r
}

/// Lays out the colored line printed on the console for a record (without
/// the line's end).
pub fn console_line(ts: &str, level: Level, target: &str, message: &str) -> (r: String)
    ensures
        r@ == spec_console_line(ts@, level, target@, message@),
{
    proof {
        reveal_strlit(" ");
        reveal_strlit(" - ");
    }
    let mut r = String::from_str(ts);
    r.append(" ");
    r.append(level_color(level));
    r.append(padded_level_name(level));
    r.append("\x1b[0m");
    r.append(" ");
    r.append(target);
    r.append(" - ");
    r.append(message);
    assert(r@ =~= spec_console_line(ts@, level, target@, message@));
    r
}

} // verus!

verus! {

proof fn lemma_plain_token(s: Seq<char>)
    requires
        forall|i: int| 0 <= i < s.len() ==> is_ascii_letter(#[trigger] s[i]),
    ensures
        trim(first_field(s, ',')) == s,
{
    crate::text::lemma_no_sep_first_field(s, ',');
    crate::text::lemma_trim_plain(s);
}

/// A level filter's name, as written in the configuration in any mix of
/// capitals and small letters ("info", "Warn", "TRACE"), gives that filter.
pub proof fn lemma_filter_name_parses(f: LevelFilter, written: Seq<char>)
    requires
        eq_ignore_ascii_case(filter_name(f), written),
    ensures
        spec_parse_level(written) == f,
{
    let n = filter_name(f);
    assert forall|i: int| 0 <= i < written.len() implies is_ascii_letter(#[trigger] written[i]) by {
        assert(ascii_lower(n[i]) == ascii_lower(written[i]));
    }
    lemma_plain_token(written);
    assert forall|g: LevelFilter| g != f implies !eq_ignore_ascii_case(filter_name(g), written) by {
        let m = filter_name(g);
        if m.len() == n.len() {
            assert(ascii_lower(m[0]) != ascii_lower(n[0]) || ascii_lower(m[1]) != ascii_lower(n[1]));
            assert(ascii_lower(n[0]) == ascii_lower(written[0]));
            assert(ascii_lower(n[1]) == ascii_lower(written[1]));
        }
    }
}


/// The filter that bears the name of level `l`.
pub open spec fn same_name_filter(l: Level) -> LevelFilter {
    match l {
        Level::Error => LevelFilter::Error,
        Level::Warn => LevelFilter::Warn,
        Level::Info => LevelFilter::Info,
        Level::Debug => LevelFilter::Debug,
        Level::Trace => LevelFilter::Trace,
    }
}

/// The filter one step less verbose than the one named after `l`.
pub open spec fn filter_below(l: Level) -> LevelFilter {
    match l {
        Level::Error => LevelFilter::Off,
        Level::Warn => LevelFilter::Error,
        Level::Info => LevelFilter::Warn,
        Level::Debug => LevelFilter::Info,
        Level::Trace => LevelFilter::Debug,
    }
}

/// Level filtering follows the `log` crate's order: filters rank
/// Off < Error < Warn < Info < Debug < Trace; a record of level `l` passes
/// the filter named after `l` and every more verbose one, and no less
/// verbose one (in particular not the filter just below).
pub proof fn lemma_level_filter_order(l: Level, f: LevelFilter)
    ensures
        filter_rank(LevelFilter::Off) < filter_rank(LevelFilter::Error),
        filter_rank(LevelFilter::Error) < filter_rank(LevelFilter::Warn),
        filter_rank(LevelFilter::Warn) < filter_rank(LevelFilter::Info),
        filter_rank(LevelFilter::Info) < filter_rank(LevelFilter::Debug),
        filter_rank(LevelFilter::Debug) < filter_rank(LevelFilter::Trace),
        level_rank(l) <= filter_rank(same_name_filter(l)),
        !(level_rank(l) <= filter_rank(filter_below(l))),
        (level_rank(l) <= filter_rank(f)) <==> filter_rank(same_name_filter(l)) <= filter_rank(f),
{
}

} // verus!
