//! Log and archive file names: how the writer names its files, how a file's
//! date is read back from its name, and which names the archiver and the
//! retention cleanup consider theirs.

use vstd::prelude::*;

use crate::dates::{opt_int, parse_ymd, spec_parse_ymd};
use crate::text::{lemma_decimal_digits, lemma_decimal_injective, occurs_at, string_of, chars_of, contains_seq, decimal, ends_with, has_infix, has_prefix, has_suffix, push_char, push_decimal, starts_with};

verus! {

/// `".log"`
pub open spec fn log_ext() -> Seq<char> {
    seq!['.', 'l', 'o', 'g']
}

/// `".gz"`
pub open spec fn gz_ext() -> Seq<char> {
    seq!['.', 'g', 'z']
}

/// `".tmp."`
pub open spec fn tmp_marker() -> Seq<char> {
    seq!['.', 't', 'm', 'p', '.']
}

/// `"{prefix}."`, the start of every file name of the log `prefix`.
pub open spec fn name_start(prefix: Seq<char>) -> Seq<char> {
    prefix.push('.')
}

/// The name of the log file of `prefix` for `date` and sequence number
/// `seq`: `{prefix}.{date}.log` for the first file of a date,
/// `{prefix}.{date}.{seq}.log` for the files that follow it.
pub open spec fn spec_log_file_name(prefix: Seq<char>, date: Seq<char>, seq: nat) -> Seq<char> {
    if seq == 0 {
        name_start(prefix) + date + log_ext()
    } else {
        name_start(prefix) + date + seq!['.'] + decimal(seq) + log_ext()
    }
}

/// Builds the log file name of `prefix` for `date` and `seq`.
pub fn log_file_name(prefix: &str, date: &str, seq: u32) -> (r: String)
    ensures
        r@ == spec_log_file_name(prefix@, date@, seq as nat),
{
    proof {
        reveal_strlit(".log");
    }
    let mut r = String::from_str(prefix);
    push_char(&mut r, '.');
    r.append(date);
    if seq != 0 {
        push_char(&mut r, '.');
        push_decimal(&mut r, seq as u64);
    }
    r.append(".log");
    assert(r@ =~= spec_log_file_name(prefix@, date@, seq as nat));
    r
}

/// The name under which the file `name` is archived: `{name}.gz`.
pub open spec fn spec_archive_file_name(name: Seq<char>) -> Seq<char> {
    name + gz_ext()
}

/// Builds the archive name of the log file `name`.
pub fn archive_file_name(name: &str) -> (r: String)
    ensures
        r@ == spec_archive_file_name(name@),
{
    proof {
        reveal_strlit(".gz");
    }
    let mut r = String::from_str(name);
    r.append(".gz");
    assert(r@ =~= spec_archive_file_name(name@));
    r
}

/// The name of the temporary file that an archive is compressed into before
/// it is renamed into place: `{archive}.tmp.{pid}.{id}`.
pub open spec fn spec_temp_archive_name(archive: Seq<char>, pid: nat, id: nat) -> Seq<char> {
    archive + tmp_marker() + decimal(pid) + seq!['.'] + decimal(id)
}

/// Builds the temporary name for the archive `archive`, unique per process
/// `pid` and per compression `id`.
pub fn temp_archive_name(archive: &str, pid: u32, id: u64) -> (r: String)
    ensures
        r@ == spec_temp_archive_name(archive@, pid as nat, id as nat),
{
    proof {
        reveal_strlit(".tmp.");
    }
    let mut r = String::from_str(archive);
    r.append(".tmp.");
    push_decimal(&mut r, pid as u64);
    push_char(&mut r, '.');
    push_decimal(&mut r, id);
    assert(r@ =~= spec_temp_archive_name(archive@, pid as nat, id as nat));
    r
}

/// A file of the log `prefix` that is a log file: `{prefix}.*.log`.
pub open spec fn is_log_file(name: Seq<char>, prefix: Seq<char>) -> bool {
    starts_with(name, name_start(prefix)) && ends_with(name, log_ext())
}

/// A file of the log `prefix` that is an archive: `{prefix}.*.gz`.
pub open spec fn is_archive_file(name: Seq<char>, prefix: Seq<char>) -> bool {
    starts_with(name, name_start(prefix)) && ends_with(name, gz_ext())
}

/// A temporary file of the log `prefix` left behind by an interrupted
/// compression: `{prefix}.*.tmp.*`.
pub open spec fn spec_is_leftover_temp(name: Seq<char>, prefix: Seq<char>) -> bool {
    starts_with(name, name_start(prefix)) && contains_seq(name, tmp_marker())
}

fn name_start_of(prefix: &str) -> (r: Vec<char>)
    ensures
        r@ == name_start(prefix@),
{
    let mut r = chars_of(prefix);
    r.push('.');
    r
}

fn literal_chars(s: &str, Ghost(expected): Ghost<Seq<char>>) -> (r: Vec<char>)
    requires
        s@ == expected,
    ensures
        r@ == expected,
{
    chars_of(s)
}

/// Executable `is_log_file`.
pub fn log_file_matches(name: &str, prefix: &str) -> (r: bool)
    ensures
        r == is_log_file(name@, prefix@),
{
    proof {
        reveal_strlit(".log");
        assert(".log"@ =~= log_ext());
    }
    let n = chars_of(name);
    let start = name_start_of(prefix);
    let ext = literal_chars(".log", Ghost(log_ext()));
    has_prefix(&n, &start) && has_suffix(&n, &ext)
}

/// Executable `is_archive_file`.
pub fn archive_file_matches(name: &str, prefix: &str) -> (r: bool)
    ensures
        r == is_archive_file(name@, prefix@),
{
    proof {
        reveal_strlit(".gz");
        assert(".gz"@ =~= gz_ext());
    }
    let n = chars_of(name);
    let start = name_start_of(prefix);
    let ext = literal_chars(".gz", Ghost(gz_ext()));
    has_prefix(&n, &start) && has_suffix(&n, &ext)
}

/// Whether `name` is a temporary file of the log `prefix` left behind by an
/// interrupted compression (it starts with `{prefix}.` and holds `.tmp.`).
pub fn is_leftover_temp(name: &str, prefix: &str) -> (r: bool)
    ensures
        r == spec_is_leftover_temp(name@, prefix@),
{
    proof {
        reveal_strlit(".tmp.");
        assert(".tmp."@ =~= tmp_marker());
    }
    let n = chars_of(name);
    let start = name_start_of(prefix);
    let marker = literal_chars(".tmp.", Ghost(tmp_marker()));
    has_prefix(&n, &start) && has_infix(&n, &marker)
}

} // verus!

verus! {

/// The date part of a log file name: the first ten characters of what lies
/// between `{prefix}.` and the final `.log`; `None` where that is shorter.
pub open spec fn date_field(name: Seq<char>, prefix: Seq<char>) -> Option<Seq<char>> {
    let start = name_start(prefix);
    if !starts_with(name, start) {
        None
    } else {
        let rest = name.skip(start.len() as int);
        if !ends_with(rest, log_ext()) {
            None
        } else {
            let core = rest.take(rest.len() - log_ext().len());
            if core.len() >= 10 {
                Some(core.take(10))
            } else {
                None
            }
        }
    }
}

/// The date of the log file `name` of `prefix`, as a day number, or `None`
/// where the name does not hold one.
pub open spec fn spec_extract_date(name: Seq<char>, prefix: Seq<char>) -> Option<int> {
    match date_field(name, prefix) {
        Some(d) => spec_parse_ymd(d),
        None => None,
    }
}

/// Reads the date out of a log file name `{prefix}.{YYYY-MM-DD}.log` or
/// `{prefix}.{YYYY-MM-DD}.{seq}.log`: the first ten characters between the
/// prefix and the `.log` suffix, parsed as `YYYY-MM-DD`. The date is given
/// as its day number counted from the common era.
pub fn extract_date(filename: &str, prefix: &str) -> (r: Option<i32>)
    ensures
        opt_int(r) == spec_extract_date(filename@, prefix@),
{
    proof {
        reveal_strlit(".log");
        assert(".log"@ =~= log_ext());
    }
    let name = chars_of(filename);
    let start = name_start_of(prefix);
    if !has_prefix(&name, &start) {
        return None;
    }
    let mut rest: Vec<char> = Vec::new();
    let mut i = start.len();
    while i < name.len()
        invariant
            start.len() <= i <= name.len(),
            rest@ == name@.subrange(start.len() as int, i as int),
        decreases name.len() - i,
    {
        rest.push(name[i]);
        i += 1;
        assert(rest@ =~= name@.subrange(start.len() as int, i as int));
    }
    assert(rest@ =~= name@.skip(start.len() as int));
    let ext = literal_chars(".log", Ghost(log_ext()));
    if !has_suffix(&rest, &ext) {
        return None;
    }
    let core_len = rest.len() - ext.len();
    rest.truncate(core_len);
    assert(rest@ =~= name@.skip(start.len() as int).take(core_len as int));
    if rest.len() < 10 {
        return None;
    }
    rest.truncate(10);
    let ds = string_of(&rest);
    parse_ymd(ds.as_str())
}

/// The archiving rule: with a negative `delay` every file is archived at
/// once; otherwise a file is archived when its date lies more than `delay`
/// days before `today`. A name without a readable date is archived.
pub open spec fn spec_should_archive(name: Seq<char>, prefix: Seq<char>, today: int, delay: int) -> bool {
    if delay < 0 {
        true
    } else {
        match spec_extract_date(name, prefix) {
            Some(d) => today - d > delay,
            None => true,
        }
    }
}

/// Decides whether the log file `filename` of `prefix` is archived, `today`
/// being the current date as a day number and `delay` the archive delay in
/// days (negative: archive on rotation; `0`: archive yesterday and earlier;
/// `1`: archive the day before yesterday and earlier).
pub fn should_archive(filename: &str, prefix: &str, today: i32, delay: i64) -> (r: bool)
    ensures
        r == spec_should_archive(filename@, prefix@, today as int, delay as int),
{
    if delay < 0 {
        return true;
    }
    match extract_date(filename, prefix) {
        Some(date) => {
            let diff = (today as i64) - (date as i64);
            diff > delay
        },
        None => true,
    }
}

/// A file the archiver takes: a log file of `prefix` that the archiving
/// rule selects.
pub open spec fn is_archive_candidate(name: Seq<char>, prefix: Seq<char>, today: int, delay: int) -> bool {
    is_log_file(name, prefix) && spec_should_archive(name, prefix, today, delay)
}

} // verus!

verus! {

/// `s` holds no `'.'`.
pub open spec fn has_no_dot(s: Seq<char>) -> bool {
    forall|i: int| 0 <= i < s.len() ==> #[trigger] s[i] != '.'
}

/// The part of a log file name between `{prefix}.` and `.log`.
pub open spec fn name_core(date: Seq<char>, seq: nat) -> Seq<char> {
    if seq == 0 {
        date
    } else {
        date + seq!['.'] + decimal(seq)
    }
}

proof fn lemma_log_file_name_parts(prefix: Seq<char>, date: Seq<char>, seq: nat)
    ensures
        spec_log_file_name(prefix, date, seq) == name_start(prefix) + name_core(date, seq)
            + log_ext(),
{
    if seq != 0 {
        assert(spec_log_file_name(prefix, date, seq) =~= name_start(prefix) + name_core(date, seq)
            + log_ext());
    }
}

proof fn lemma_cores_distinct(d1: Seq<char>, s1: nat, d2: Seq<char>, s2: nat)
    requires
        has_no_dot(d1),
        has_no_dot(d2),
        d1 != d2 || s1 != s2,
    ensures
        name_core(d1, s1) != name_core(d2, s2),
{
    let c1 = name_core(d1, s1);
    let c2 = name_core(d2, s2);
    if c1 == c2 {
        if s1 == 0 && s2 == 0 {
        } else if s1 == 0 {
            assert(c2[d2.len() as int] == '.');
            assert(c1[d2.len() as int] == d1[d2.len() as int]);
        } else if s2 == 0 {
            assert(c1[d1.len() as int] == '.');
            assert(c2[d1.len() as int] == d2[d1.len() as int]);
        } else {
            if d1.len() < d2.len() {
                assert(c1[d1.len() as int] == '.');
                assert(c2[d1.len() as int] == d2[d1.len() as int]);
            } else if d2.len() < d1.len() {
                assert(c2[d2.len() as int] == '.');
                assert(c1[d2.len() as int] == d1[d2.len() as int]);
            } else {
                assert(d1 =~= c1.take(d1.len() as int));
                assert(d2 =~= c2.take(d2.len() as int));
                assert(decimal(s1) =~= c1.skip(d1.len() as int + 1));
                assert(decimal(s2) =~= c2.skip(d2.len() as int + 1));
                lemma_decimal_injective(s1, s2);
            }
        }
    }
}

/// Distinct (date, sequence) pairs give distinct log file names: rotation
/// never reopens an earlier file of the same log under another date or
/// number. Dates are `YYYY-MM-DD`, without dots.
pub proof fn lemma_log_file_names_distinct(
    prefix: Seq<char>,
    d1: Seq<char>,
    s1: nat,
    d2: Seq<char>,
    s2: nat,
)
    requires
        has_no_dot(d1),
        has_no_dot(d2),
        d1 != d2 || s1 != s2,
    ensures
        spec_log_file_name(prefix, d1, s1) != spec_log_file_name(prefix, d2, s2),
{
    lemma_log_file_name_parts(prefix, d1, s1);
    lemma_log_file_name_parts(prefix, d2, s2);
    lemma_cores_distinct(d1, s1, d2, s2);
    let n1 = spec_log_file_name(prefix, d1, s1);
    let n2 = spec_log_file_name(prefix, d2, s2);
    let k = name_start(prefix).len() as int;
    if n1 == n2 {
        let c1 = name_core(d1, s1);
        let c2 = name_core(d2, s2);
        assert(c1 =~= n1.subrange(k, n1.len() - 4));
        assert(c2 =~= n2.subrange(k, n2.len() - 4));
    }
}

/// A log file that the writer names is one the archiver recognizes, and
/// reading its date back gives the date it was named with: the first file
/// of a date and the numbered ones alike. Dates are ten characters
/// (`YYYY-MM-DD`).
pub proof fn lemma_log_file_name_round_trip(prefix: Seq<char>, date: Seq<char>, seq: nat)
    requires
        date.len() == 10,
    ensures
        is_log_file(spec_log_file_name(prefix, date, seq), prefix),
        date_field(spec_log_file_name(prefix, date, seq), prefix) == Some(date),
        spec_extract_date(spec_log_file_name(prefix, date, seq), prefix) == spec_parse_ymd(date),
{
    lemma_log_file_name_parts(prefix, date, seq);
    let start = name_start(prefix);
    let core = name_core(date, seq);
    let name = spec_log_file_name(prefix, date, seq);
    assert(name.take(start.len() as int) =~= start);
    assert(name.skip(name.len() - 4) =~= log_ext());
    let rest = name.skip(start.len() as int);
    assert(rest =~= core + log_ext());
    assert(rest.skip(rest.len() - 4) =~= log_ext());
    assert(rest.take(rest.len() - 4) =~= core);
    assert(core.take(10) =~= date);
}

/// The archive of a log file is a file that retention counts as an archive
/// of the same log, and no longer a log file to archive.
pub proof fn lemma_archive_of_log_is_archive(name: Seq<char>, prefix: Seq<char>)
    requires
        is_log_file(name, prefix),
    ensures
        is_archive_file(spec_archive_file_name(name), prefix),
        !is_log_file(spec_archive_file_name(name), prefix),
{
    let a = spec_archive_file_name(name);
    assert(a.take(name_start(prefix).len() as int) =~= name.take(name_start(prefix).len() as int));
    assert(a.skip(a.len() - 3) =~= gz_ext());
    assert(a[a.len() - 1] == 'z');
    assert(a.skip(a.len() - 4)[3] == 'z');
}

/// The temporary file of an archive is recognized by cleanup as a leftover
/// (so a crash during compression leaves nothing behind for good), and is
/// taken neither for an archive nor for a log file to archive.
pub proof fn lemma_temp_archive_is_leftover(archive: Seq<char>, prefix: Seq<char>, pid: nat, id: nat)
    requires
        is_archive_file(archive, prefix),
    ensures
        spec_is_leftover_temp(spec_temp_archive_name(archive, pid, id), prefix),
        !is_archive_file(spec_temp_archive_name(archive, pid, id), prefix),
        !is_log_file(spec_temp_archive_name(archive, pid, id), prefix),
{
    let t = spec_temp_archive_name(archive, pid, id);
    let k = name_start(prefix).len() as int;
    assert(t.take(k) =~= archive.take(k));
    assert(t.subrange(archive.len() as int, archive.len() as int + 5) =~= tmp_marker());
    assert(occurs_at(t, tmp_marker(), archive.len() as int));
    lemma_decimal_digits(id);
    let last = t.len() - 1;
    assert(t[last] == decimal(id)[decimal(id).len() - 1]);
    assert(t.skip(t.len() - 3)[2] == t[last]);
    if t.len() >= 4 {
        assert(t.skip(t.len() - 4)[3] == t[last]);
    }
}

/// A larger archive delay archives no more: whatever is archived with a
/// delay is also archived with any smaller one.
pub proof fn lemma_should_archive_delay_monotone(
    name: Seq<char>,
    prefix: Seq<char>,
    today: int,
    smaller: int,
    larger: int,
)
    requires
        smaller <= larger,
        spec_should_archive(name, prefix, today, larger),
    ensures
        spec_should_archive(name, prefix, today, smaller),
{
}

/// With a non-negative delay, today's own file is never archived.
pub proof fn lemma_today_is_kept(name: Seq<char>, prefix: Seq<char>, today: int, delay: int)
    requires
        delay >= 0,
        spec_extract_date(name, prefix) == Some(today),
    ensures
        !spec_should_archive(name, prefix, today, delay),
{
}


/// With a non-negative delay, a file dated `d` is archived exactly when it
/// is more than `delay` days old: one exactly `delay` days old is kept, one
/// `delay + 1` days old is archived.
pub proof fn lemma_archive_after_delay(name: Seq<char>, prefix: Seq<char>, today: int, delay: int, d: int)
    requires
        delay >= 0,
        spec_extract_date(name, prefix) == Some(d),
    ensures
        spec_should_archive(name, prefix, today, delay) <==> today - d > delay,
        d == today - delay ==> !spec_should_archive(name, prefix, today, delay),
        d == today - delay - 1 ==> spec_should_archive(name, prefix, today, delay),
{
}

} // verus!
