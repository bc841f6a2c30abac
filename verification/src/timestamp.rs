use vstd::prelude::*;

verus! {

/// The instant that an RFC 3339 timestamp denotes, in nanoseconds since the
/// Unix epoch, or `None` when the text is not a valid RFC 3339 timestamp, as
/// the `time` crate's parser decides.
pub uninterp spec fn rfc3339_instant(text: Seq<char>) -> Option<i128>;

/// Parses `text` with `time::OffsetDateTime::parse` and the `Rfc3339` format
/// description, and gives the instant as `OffsetDateTime::unix_timestamp_nanos`.
///
/// The contract names the result [`rfc3339_instant`]: it depends on the text
/// alone. Instants compare as the parsed `OffsetDateTime` values do, since
/// those compare chronologically.
#[verifier::external_body]
pub(crate) fn parse_rfc3339(text: &str) -> (r: Option<i128>)
    ensures
        r == rfc3339_instant(text@),
{
    match time::OffsetDateTime::parse(text, &time::format_description::well_known::Rfc3339) {
        Ok(t) => Some(t.unix_timestamp_nanos()),
        Err(_) => None,
    }
}

/// Reads the system clock (`time::OffsetDateTime::now_utc`) and gives the
/// current instant in nanoseconds since the Unix epoch.
///
/// Nothing is claimed of the value: it is whatever the clock reads.
#[verifier::external_body]
pub(crate) fn system_now() -> (r: i128) {
    time::OffsetDateTime::now_utc().unix_timestamp_nanos()
}

} // verus!
