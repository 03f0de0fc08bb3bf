//! Calendar form of Unix timestamps.

use vstd::prelude::*;
use crate::text::opt_text;

verus! {

/// The calendar form of a moment given in seconds since the Unix epoch, in
/// UTC, or `None` where the calendar cannot represent it.
pub uninterp spec fn calendar_text(epoch_second: int) -> Option<Seq<char>>;

/// `chrono::DateTime::from_timestamp` with no nanoseconds, then the display
/// of the date and time without a zone. Trusted: the result depends on the
/// number of seconds alone, and is `None` exactly where chrono reports the
/// moment as out of range.
#[verifier::external_body]
pub(crate) fn format_timestamp(epoch_second: i64) -> (text: Option<String>)
    ensures
        opt_text(text) == calendar_text(epoch_second as int),
{
    match chrono::DateTime::from_timestamp(epoch_second, 0) {
        Some(moment) => Some(moment.naive_utc().to_string()),
        None => None,
    }
}

} // verus!
