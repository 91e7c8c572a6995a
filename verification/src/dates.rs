//! Calendar dates, read with chrono.

use vstd::prelude::*;

verus! {

/// What chrono's `NaiveDate::parse_from_str(s, "%Y-%m-%d")` gives for `s`:
/// `None` where it fails, else the date as its day number counted from the
/// common era (`Datelike::num_days_from_ce`: 0001-01-01 is day 1).
pub uninterp spec fn spec_parse_ymd(s: Seq<char>) -> Option<int>;

/// A `Option<i32>` as a mathematical `Option<int>`.
pub open spec fn opt_int(o: Option<i32>) -> Option<int> {
    match o {
        Some(d) => Some(d as int),
        None => None,
    }
}

/// Parses `s` as a `YYYY-MM-DD` date with chrono's
/// `NaiveDate::parse_from_str(s, "%Y-%m-%d")` and returns the date's day
/// number (`Datelike::num_days_from_ce`). The contract claims only that the
/// result is what chrono computes for `s`, named `spec_parse_ymd`; chrono's
/// parsing rules themselves are not restated here.
#[verifier::external_body]
pub fn parse_ymd(s: &str) -> (r: Option<i32>)
    ensures
        opt_int(r) == spec_parse_ymd(s@),
{
    match chrono::NaiveDate::parse_from_str(s, "%Y-%m-%d") {
        Ok(d) => Some(chrono::Datelike::num_days_from_ce(&d)),
        Err(_) => None,
    }
}

} // verus!
