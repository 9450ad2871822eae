//! The time of the last modification, as text.

use crate::entry::Timestamp;
use vstd::prelude::*;

verus! {

/// What `chrono` writes for the instant `seconds` after the Unix epoch, seen
/// from a zone `utc_offset` seconds ahead of UTC, under a `strftime` pattern;
/// `None` where it has no such instant or zone, or cannot use the pattern.
pub uninterp spec fn formatted_time(seconds: int, utc_offset: int, pattern: Seq<char>) -> Option<
    Seq<char>,
>;

/// The pattern of the time in a row: `YYYY-MM-DD HH:MM:SS`.
pub open spec fn stamp_pattern() -> Seq<char> {
    "%Y-%m-%d %H:%M:%S"@
}

/// The time text of a row, `None` for a time that cannot be written.
pub open spec fn stamp_text(at: Timestamp) -> Option<Seq<char>> {
    formatted_time(at.seconds as int, at.utc_offset as int, stamp_pattern())
}

/// `chrono`'s `FixedOffset::east_opt`, `DateTime::from_timestamp`,
/// `with_timezone` and `format`, written out with `write_to`. The text is a
/// function of the three arguments alone, and it is `None` exactly where one
/// of the calls refuses: an offset of a day or more, an instant beyond the
/// years `chrono` can hold, a pattern it cannot read.
#[verifier::external_body]
fn format_time(seconds: i64, utc_offset: i32, pattern: &str) -> (text: Option<String>)
    ensures
        match text {
            Some(written) => formatted_time(seconds as int, utc_offset as int, pattern@) == Some(
                written@,
            ),
            None => formatted_time(seconds as int, utc_offset as int, pattern@) is None,
        },
{
    let zone = chrono::FixedOffset::east_opt(utc_offset)?;
    let instant = chrono::DateTime::from_timestamp(seconds, 0)?.with_timezone(&zone);
    let mut written = String::new();
    instant.format(pattern).write_to(&mut written).ok()?;
    Some(written)
}

/// Writes the time of a row: the local date and time of day, to the second.
pub fn stamp(at: &Timestamp) -> (text: Option<String>)
    ensures
        match text {
            Some(written) => stamp_text(*at) == Some(written@),
            None => stamp_text(*at) is None,
        },
{
    format_time(at.seconds, at.utc_offset, "%Y-%m-%d %H:%M:%S")
}

} // verus!
