//! The rolling decisions of the file writer: when to leave the current file
//! for a new one, which name the new file gets, and the size bookkeeping.
//! The writer around it opens, writes and closes the files.

use vstd::prelude::*;

use crate::config::{file_size_limit, size_limit_bytes};
use crate::naming::{
    has_no_dot, lemma_log_file_names_distinct, log_ext, log_file_name, name_start, spec_log_file_name,
};
use crate::text::same_text;

verus! {

/// The abstract state of a rolling writer.
pub struct RollingView {
    /// File name prefix.
    pub prefix: Seq<char>,
    /// Size limit of a file in bytes; `0` means none.
    pub max_file_size: nat,
    /// Date of the current file (`YYYY-MM-DD`); empty before the first
    /// date check.
    pub date: Seq<char>,
    /// Sequence number of the current file within its date.
    pub seq: nat,
    /// Bytes in the current file.
    pub size: nat,
    /// Whether a file is open.
    pub file_open: bool,
}

/// The rolling state of a log file writer.
pub struct RollingState {
    prefix: String,
    max_file_size: u64,
    current_date: String,
    current_seq: u32,
    current_size: u64,
    file_open: bool,
}

/// What the writer does before a write.
#[derive(Debug)]
pub enum Rotation {
    /// Keep writing to the open file.
    Keep,
    /// Close the current file (if any) and open, in append mode, the file
    /// of this name.
    Reopen(String),
}

impl View for RollingState {
    type V = RollingView;

    closed spec fn view(&self) -> RollingView {
        RollingView {
            prefix: self.prefix@,
            max_file_size: self.max_file_size as nat,
            date: self.current_date@,
            seq: self.current_seq as nat,
            size: self.current_size as nat,
            file_open: self.file_open,
        }
    }
}

/// The current file has reached the size limit.
pub open spec fn size_exceeded(s: RollingView) -> bool {
    s.max_file_size > 0 && s.size >= s.max_file_size
}

/// The date check saw a date other than the current file's.
pub open spec fn date_changed(s: RollingView, today: Option<Seq<char>>) -> bool {
    match today {
        Some(t) => t != s.date,
        None => false,
    }
}

/// The writer must move to another file.
pub open spec fn must_rotate(s: RollingView, today: Option<Seq<char>>) -> bool {
    date_changed(s, today) || size_exceeded(s) || !s.file_open
}

/// The state after the rotation decision: on a new date the sequence
/// restarts at 0; on reaching the size limit it advances by one; moving to
/// another file closes the current one.
pub open spec fn spec_after_rotation(s: RollingView, today: Option<Seq<char>>) -> RollingView {
    if !must_rotate(s, today) {
        s
    } else if date_changed(s, today) {
        RollingView { date: today->0, seq: 0, file_open: false, ..s }
    } else if size_exceeded(s) {
        RollingView { seq: s.seq + 1, file_open: false, ..s }
    } else {
        RollingView { file_open: false, ..s }
    }
}

/// The name of the file a state writes to.
pub open spec fn current_file_name(s: RollingView) -> Seq<char> {
    spec_log_file_name(s.prefix, s.date, s.seq)
}

/// `Some(view)` of an optional string.
pub open spec fn opt_view(o: Option<&str>) -> Option<Seq<char>> {
    match o {
        Some(t) => Some(t@),
        None => None,
    }
}

impl RollingState {
    /// A writer's initial state: no file open, no date seen yet, sequence 0
    /// and size 0; the size limit converted from megabytes to bytes.
    pub fn new(prefix: &str, max_file_size_mb: u64) -> (r: Self)
        requires
            size_limit_bytes(max_file_size_mb as nat) <= u64::MAX,
        ensures
            r@ == (RollingView {
                prefix: prefix@,
                max_file_size: size_limit_bytes(max_file_size_mb as nat),
                date: Seq::empty(),
                seq: 0,
                size: 0,
                file_open: false,
            }),
    {
        RollingState {
            prefix: String::from_str(prefix),
            max_file_size: file_size_limit(max_file_size_mb),
            current_date: String::new(),
            current_seq: 0,
            current_size: 0,
            file_open: false,
        }
    }

    /// The name of the current file: `{prefix}.{date}.log` for sequence 0,
    /// `{prefix}.{date}.{seq}.log` after it.
    pub fn make_filename(&self) -> (r: String)
        ensures
            r@ == current_file_name(self@),
    {
        log_file_name(self.prefix.as_str(), self.current_date.as_str(), self.current_seq)
    }

    /// Decides, before a write, whether the writer moves to another file.
    /// `today` is the current date (`YYYY-MM-DD`) when the periodic date
    /// check is due, `None` between checks. A new date restarts the
    /// sequence at 0; reaching the size limit advances it; a writer with no
    /// open file also opens one. On `Reopen` the current file counts as
    /// closed until `file_opened`.
    pub fn rotate_if_needed(&mut self, today: Option<&str>) -> (r: Rotation)
        requires
            size_exceeded(old(self)@) && !date_changed(old(self)@, opt_view(today)) ==> old(
                self,
            )@.seq < u32::MAX,
        ensures
            final(self)@ == spec_after_rotation(old(self)@, opt_view(today)),
            match r {
                Rotation::Keep => !must_rotate(old(self)@, opt_view(today)),
                Rotation::Reopen(name) => must_rotate(old(self)@, opt_view(today)) && name@
                    == current_file_name(final(self)@),
            },
    {
        let size_exceeded = self.max_file_size > 0 && self.current_size >= self.max_file_size;
        let date_changed = match today {
            Some(t) => {
                let changed = !same_text(self.current_date.as_str(), t);
                if changed {
                    self.current_date = String::from_str(t);
                }
                changed
            },
            None => false,
        };
        if !date_changed && !size_exceeded && self.file_open {
            return Rotation::Keep;
        }
        self.file_open = false;
        if date_changed {
            self.current_seq = 0;
        } else if size_exceeded {
            self.current_seq = self.current_seq + 1;
        }
        Rotation::Reopen(self.make_filename())
    }

    /// Records that the new file is open and already holds `existing_size`
    /// bytes (writes append to it).
    pub fn file_opened(&mut self, existing_size: u64)
        ensures
            final(self)@ == (RollingView { size: existing_size as nat, file_open: true, ..old(self)@ }),
    {
        self.current_size = existing_size;
        self.file_open = true;
    }

    /// Records that `n` more bytes went to the current file.
    pub fn record_written(&mut self, n: u64)
        requires
            old(self)@.size + n <= u64::MAX,
        ensures
            final(self)@ == (RollingView { size: (old(self)@.size + n) as nat, ..old(self)@ }),
    {
        self.current_size = self.current_size + n;
    }

    /// Bytes in the current file.
    pub fn current_size(&self) -> (r: u64)
        ensures
            r == self@.size,
    {
        self.current_size
    }

    /// The size limit in bytes (`0`: none).
    pub fn max_file_size(&self) -> (r: u64)
        ensures
            r == self@.max_file_size,
    {
        self.max_file_size
    }

    /// Sequence number of the current file within its date.
    pub fn current_seq(&self) -> (r: u32)
        ensures
            r == self@.seq,
    {
        self.current_seq
    }

    /// File name prefix.
    pub fn prefix(&self) -> (r: &str)
        ensures
            r@ == self@.prefix,
    {
        self.prefix.as_str()
    }

    /// Date of the current file (`YYYY-MM-DD`; empty before the first date
    /// check).
    pub fn current_date(&self) -> (r: &str)
        ensures
            r@ == self@.date,
    {
        self.current_date.as_str()
    }

    /// Whether a file is open.
    pub fn file_is_open(&self) -> (r: bool)
        ensures
            r == self@.file_open,
    {
        self.file_open
    }
}

} // verus!

verus! {

/// Reaching the size limit moves the writer to a file it has not written
/// under the current date before: the next sequence number gives a new
/// name.
pub proof fn lemma_size_rotation_new_file(s: RollingView, today: Option<Seq<char>>)
    requires
        size_exceeded(s),
        !date_changed(s, today),
        has_no_dot(s.date),
    ensures
        spec_after_rotation(s, today).seq == s.seq + 1,
        current_file_name(spec_after_rotation(s, today)) != current_file_name(s),
{
    lemma_log_file_names_distinct(s.prefix, s.date, s.seq + 1, s.date, s.seq);
}

/// A new date starts its first file, `{prefix}.{date}.log`, whatever the
/// size of the previous one.
pub proof fn lemma_new_date_first_file(s: RollingView, today: Seq<char>)
    requires
        date_changed(s, Some(today)),
    ensures
        spec_after_rotation(s, Some(today)).date == today,
        spec_after_rotation(s, Some(today)).seq == 0,
        current_file_name(spec_after_rotation(s, Some(today))) == name_start(s.prefix) + today
            + log_ext(),
{
}

/// Between date checks, with the file open and under the limit, the writer
/// stays on its file and its state does not change.
pub proof fn lemma_no_rotation_keeps_state(s: RollingView)
    requires
        s.file_open,
        !size_exceeded(s),
    ensures
        !must_rotate(s, None),
        spec_after_rotation(s, None) == s,
        !must_rotate(s, Some(s.date)),
        spec_after_rotation(s, Some(s.date)) == s,
{
}

} // verus!
