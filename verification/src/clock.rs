//! The wall clock, read through the `time` crate.

use vstd::prelude::*;

verus! {

/// `time::OffsetDateTime`, a moment on the wall clock.
#[verifier::external_type_specification]
#[verifier::external_body]
pub struct ExOffsetDateTime(time::OffsetDateTime);

/// `time::error::Format`, the reason for which a moment could not be written.
#[verifier::external_type_specification]
#[verifier::external_body]
pub struct ExTimeFormatError(time::error::Format);

/// The RFC 3339 text that `OffsetDateTime::format` writes for a moment;
/// `None` where it reports an error.
pub uninterp spec fn rfc3339_text(moment: time::OffsetDateTime) -> Option<Seq<char>>;

/// The nanoseconds between the Unix epoch and a moment, as
/// `OffsetDateTime::unix_timestamp_nanos` counts them.
pub uninterp spec fn unix_nanos(moment: time::OffsetDateTime) -> i128;

/// Calls `time::OffsetDateTime::now_utc`, which reads the system clock.
/// Nothing is known of the moment it returns. The call takes no argument;
/// it panics where the system clock stands outside the dates that the
/// `time` crate can hold.
#[verifier::external_body]
pub(crate) fn now_utc() -> time::OffsetDateTime {
    time::OffsetDateTime::now_utc()
}

/// Calls `time::OffsetDateTime::format` with the `Rfc3339` description. The
/// call is a function of the moment alone: it succeeds exactly where
/// `rfc3339_text` is defined, and then returns that text.
#[verifier::external_body]
pub(crate) fn format_rfc3339(moment: time::OffsetDateTime) -> (r: Result<
    String,
    time::error::Format,
>)
    ensures
        match r {
            Ok(s) => rfc3339_text(moment) == Some(s@),
            Err(_) => rfc3339_text(moment) is None,
        },
{
    moment.format(&time::format_description::well_known::Rfc3339)
}

/// Calls `time::OffsetDateTime::unix_timestamp_nanos`, a function of the
/// moment alone.
#[verifier::external_body]
pub(crate) fn unix_timestamp_nanos(moment: time::OffsetDateTime) -> (r: i128)
    ensures
        r == unix_nanos(moment),
{
    moment.unix_timestamp_nanos()
}

} // verus!
