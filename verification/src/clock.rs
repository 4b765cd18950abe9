use vstd::prelude::*;

verus! {

/// The Unix epoch seconds an ISO-8601 timestamp text denotes, `None` where the
/// text is not one. The text alone decides the value.
pub uninterp spec fn iso8601_epoch(s: Seq<char>) -> Option<i64>;

/// Relies on time::OffsetDateTime::parse with the well-known ISO-8601 format
/// description, and on unix_timestamp to read the parsed instant as epoch
/// seconds: the outcome depends on the text alone.
#[verifier::external_body]
pub(crate) fn parse_iso8601_epoch(s: &str) -> (r: Option<i64>)
    ensures
        r == iso8601_epoch(s@),
{
    match time::OffsetDateTime::parse(s, &time::format_description::well_known::Iso8601::PARSING) {
        Ok(t) => Some(t.unix_timestamp()),
        Err(_) => None,
    }
}

/// Relies on time::OffsetDateTime::now_utc and unix_timestamp: the wall
/// clock's reading as epoch seconds. Nothing is promised of the value.
#[verifier::external_body]
pub(crate) fn now_unix() -> i64 {
    time::OffsetDateTime::now_utc().unix_timestamp()
}

} // verus!
