//! The timezone of log timestamps and dates.

use vstd::prelude::*;

verus! {

/// A timezone, held by its IANA name (as chrono-tz names it).
pub struct TimeZone {
    /// The zone's IANA name, e.g. "UTC" or "Asia/Shanghai".
    pub name: String,
}

/// Whether chrono-tz knows `name` as a timezone, i.e. whether
/// `name.parse::<chrono_tz::Tz>()` succeeds.
pub uninterp spec fn spec_is_known_timezone(name: Seq<char>) -> bool;

/// Asks chrono-tz whether `name` is a timezone it knows (`str::parse` into
/// `chrono_tz::Tz`, an exact lookup of the name in its zone table). The
/// contract claims that the answer is a function of the name, and, as the
/// zone table in chrono-tz's source shows, that "UTC" is known; which other
/// names the table holds is not restated here.
#[verifier::external_body]
fn is_known_timezone(name: &str) -> (r: bool)
    ensures
        r == spec_is_known_timezone(name@),
        name@ == "UTC"@ ==> r,
{
    match name.parse::<chrono_tz::Tz>() {
        Ok(_) => true,
        Err(_) => false,
    }
}

/// The zone that a configured timezone name gives: the name itself where
/// chrono-tz knows it, else UTC.
pub open spec fn spec_parse_timezone(tz: Seq<char>) -> Seq<char> {
    if spec_is_known_timezone(tz) {
        tz
    } else {
        "UTC"@
    }
}

/// Parses a timezone name, falling back to UTC when chrono-tz does not know
/// it.
pub fn parse_timezone(tz: &str) -> (r: TimeZone)
    ensures
        r.name@ == spec_parse_timezone(tz@),
        spec_is_known_timezone(r.name@),
{
    if is_known_timezone(tz) {
        TimeZone { name: String::from_str(tz) }
    } else {
        let utc = "UTC";
        // UTC is always known; asking records that fact for the contract.
        let _known = is_known_timezone(utc);
        TimeZone { name: String::from_str(utc) }
    }
}

/// A configured name that chrono-tz knows is kept unchanged, whatever it
/// holds; only a name it does not know falls back to UTC.
pub proof fn lemma_known_timezone_kept(tz: Seq<char>)
    ensures
        spec_is_known_timezone(tz) ==> spec_parse_timezone(tz) == tz,
        !spec_is_known_timezone(tz) ==> spec_parse_timezone(tz) == "UTC"@,
{
}

} // verus!
