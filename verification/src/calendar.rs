//! The date notations that feeds use, as the `time` and `dtt` libraries read
//! them.
//!
//! Whether a text is a date in one of these notations, and which, is for
//! those libraries to say. Their answers depend on the text alone; this
//! module gives each answer a name, so that the rules built on them can be
//! stated.

use dtt::datetime::DateTime;
use vstd::prelude::*;

verus! {

/// `dtt::datetime::DateTime`, a date and time with an offset from UTC. It
/// is passed on as it is.
#[verifier::external_type_specification]
#[verifier::external_body]
pub struct ExDateTime(DateTime);

/// Whether `text` is a date and time in the notation of RFC 2822.
pub uninterp spec fn is_rfc2822(text: Seq<char>) -> bool;

/// Whether `text` is a date and time in the notation of ISO 8601.
pub uninterp spec fn is_iso8601(text: Seq<char>) -> bool;

/// The date and time that `text` is read as, if it is written as `format`
/// describes.
pub uninterp spec fn date_in_format(text: Seq<char>, format: Seq<char>) -> Option<DateTime>;

/// Whether `text` is a date and time written as `format` describes.
pub open spec fn fits_format(text: Seq<char>, format: Seq<char>) -> bool {
    date_in_format(text, format) is Some
}

/// The date and clock of `date`, marked as UTC.
pub uninterp spec fn in_utc(date: DateTime) -> DateTime;

/// Decides whether a text is a date and time in the notation of RFC 2822.
///
/// Trusted: `time::OffsetDateTime::parse` with the description `Rfc2822`.
/// Whether it succeeds depends on the text alone and is named `is_rfc2822`.
#[verifier::external_body]
pub(crate) fn reads_as_rfc2822(text: &str) -> (r: bool)
    ensures
        r == is_rfc2822(text@),
{
    time::OffsetDateTime::parse(text, &time::format_description::well_known::Rfc2822).is_ok()
}

/// Decides whether a text is a date and time in the notation of ISO 8601.
///
/// Trusted: `time::OffsetDateTime::parse` with the description
/// `Iso8601::DEFAULT`. Whether it succeeds depends on the text alone and is
/// named `is_iso8601`.
#[verifier::external_body]
pub(crate) fn reads_as_iso8601(text: &str) -> (r: bool)
    ensures
        r == is_iso8601(text@),
{
    time::OffsetDateTime::parse(text, &time::format_description::well_known::Iso8601::DEFAULT).is_ok()
}

/// Reads a date and time written as `format` describes.
///
/// Trusted: `dtt::datetime::DateTime::parse_custom_format`. Whether it
/// succeeds, and with which date and time, depends on the two texts alone
/// and is named `date_in_format`.
#[verifier::external_body]
pub(crate) fn read_in_format(text: &str, format: &str) -> (r: Option<DateTime>)
    ensures
        r == date_in_format(text@, format@),
{
    DateTime::parse_custom_format(text, format).ok()
}

/// The present date and time in the named time zone.
///
/// Trusted: `dtt::datetime::DateTime::new_with_tz`, which looks the zone up
/// in a fixed table. The table has an entry for `UTC`, with no offset: the
/// date and time for that zone is marked as UTC, whatever the moment is.
#[verifier::external_body]
pub(crate) fn now_in_zone(zone: &str) -> (r: Option<DateTime>)
    ensures
        zone@ == "UTC"@ ==> r is Some && in_utc(r->Some_0) == r->Some_0,
{
    DateTime::new_with_tz(zone).ok()
}

/// The same date and time, marked as UTC.
///
/// Trusted: assigns `time::UtcOffset::UTC` to the `offset` field of a
/// `dtt::datetime::DateTime` and leaves its date and clock as they are.
/// What comes of it depends on the date alone and is named `in_utc`.
#[verifier::external_body]
pub(crate) fn marked_as_utc(date: DateTime) -> (r: DateTime)
    ensures
        r == in_utc(date),
{
    let mut date = date;
    date.offset = time::UtcOffset::UTC;
    date
}

} // verus!
