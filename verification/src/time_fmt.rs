use vstd::prelude::*;

use time::format_description::well_known::Rfc3339;
use time::{OffsetDateTime, PrimitiveDateTime};

verus! {

/// The instant an RFC 3339 timestamp denotes, as nanoseconds since the Unix
/// epoch, and its UTC offset in seconds; `None` when the text is not RFC 3339.
pub uninterp spec fn spec_parse_rfc3339(s: Seq<char>) -> Option<(int, int)>;

/// The RFC 3339 text, in UTC, of an instant (nanoseconds since the Unix
/// epoch); `None` when the time crate cannot represent or format it.
pub uninterp spec fn spec_format_utc(nanos: int) -> Option<Seq<char>>;

/// An RFC 3339 timestamp parsed and formatted again as it was given (same
/// local date-time, same offset): `None` when the text is not RFC 3339,
/// `Some(None)` when the parsed value cannot be formatted.
pub uninterp spec fn spec_normalize_rfc3339(s: Seq<char>) -> Option<Option<Seq<char>>>;

/// An RFC 3339 timestamp moved `seconds` later (on its own local date-time
/// and offset) and formatted; `None` when the text is not RFC 3339, the sum
/// leaves the time crate's range, or it cannot be formatted.
pub uninterp spec fn spec_shift_rfc3339(s: Seq<char>, seconds: int) -> Option<Seq<char>>;

/// The UTC instant, in nanoseconds since the Unix epoch, of a rollout file
/// stamp `[year]-[month]-[day]T[hour]-[minute]-[second]`; `None` when the text
/// does not have that form.
pub uninterp spec fn spec_parse_rollout_stamp(s: Seq<char>) -> Option<int>;

/// Calls `OffsetDateTime::parse` with the RFC 3339 description and reads the
/// instant (`unix_timestamp_nanos`) and offset (`offset().whole_seconds()`) of
/// the result. The result is named; besides, the instant lies within 2^96
/// nanoseconds of the epoch, as the crate's dates lie within years -9999 to
/// 9999 (about 3.2 * 10^20 nanoseconds either way).
#[verifier::external_body]
pub(crate) fn parse_rfc3339(s: &str) -> (r: Option<(i128, i32)>)
    ensures
        match r {
            Some(p) => spec_parse_rfc3339(s@) == Some((p.0 as int, p.1 as int)),
            None => spec_parse_rfc3339(s@).is_none(),
        },
        r matches Some(p) ==> -0x1_0000_0000_0000_0000_0000_0000 < p.0 < 0x1_0000_0000_0000_0000_0000_0000,
{
    match OffsetDateTime::parse(s, &Rfc3339) {
        Ok(dt) => Some((dt.unix_timestamp_nanos(), dt.offset().whole_seconds())),
        Err(_) => None,
    }
}

/// Builds the instant with `OffsetDateTime::from_unix_timestamp_nanos` (which
/// is in UTC) and calls `format` with the RFC 3339 description. The result is
/// named; nothing more is stated of it.
#[verifier::external_body]
pub(crate) fn format_utc(nanos: i128) -> (r: Option<String>)
    ensures
        match r {
            Some(s) => spec_format_utc(nanos as int) == Some(s@),
            None => spec_format_utc(nanos as int).is_none(),
        },
{
    match OffsetDateTime::from_unix_timestamp_nanos(nanos) {
        Ok(dt) => dt.format(&Rfc3339).ok(),
        Err(_) => None,
    }
}

/// Calls `OffsetDateTime::parse` with the RFC 3339 description and, when it
/// parses, `format` with the same description on the parsed value. The result
/// is named; it is `None` exactly when the parse fails, which is when
/// `parse_rfc3339` fails.
#[verifier::external_body]
pub(crate) fn normalize_rfc3339(s: &str) -> (r: Option<Option<String>>)
    ensures
        r is None <==> spec_parse_rfc3339(s@) is None,
        match r {
            None => spec_normalize_rfc3339(s@) is None,
            Some(None) => spec_normalize_rfc3339(s@) == Some(None::<Seq<char>>),
            Some(Some(t)) => spec_normalize_rfc3339(s@) == Some(Some(t@)),
        },
{
    match OffsetDateTime::parse(s, &Rfc3339) {
        Ok(dt) => Some(dt.format(&Rfc3339).ok()),
        Err(_) => None,
    }
}

/// Calls `OffsetDateTime::parse` with the RFC 3339 description, then
/// `checked_add` with `Duration::seconds(seconds)` on the parsed value, then
/// `format` with the same description. The result is named.
#[verifier::external_body]
pub(crate) fn shift_rfc3339(s: &str, seconds: i64) -> (r: Option<String>)
    ensures
        match r {
            Some(t) => spec_shift_rfc3339(s@, seconds as int) == Some(t@),
            None => spec_shift_rfc3339(s@, seconds as int).is_none(),
        },
{
    let parsed = match OffsetDateTime::parse(s, &Rfc3339) {
        Ok(dt) => dt,
        Err(_) => return None,
    };
    match parsed.checked_add(time::Duration::seconds(seconds)) {
        Some(dt) => dt.format(&Rfc3339).ok(),
        None => None,
    }
}

/// Calls `PrimitiveDateTime::parse` with the description
/// `[year]-[month]-[day]T[hour]-[minute]-[second]` and reads the instant of the
/// result taken as UTC (`assume_utc().unix_timestamp_nanos()`). The result is
/// named; nothing more is stated of it.
#[verifier::external_body]
pub(crate) fn parse_rollout_stamp(s: &str) -> (r: Option<i128>)
    ensures
        match r {
            Some(n) => spec_parse_rollout_stamp(s@) == Some(n as int),
            None => spec_parse_rollout_stamp(s@).is_none(),
        },
{
    let description = match time::format_description::parse(
        "[year]-[month]-[day]T[hour]-[minute]-[second]",
    ) {
        Ok(d) => d,
        Err(_) => return None,
    };
    match PrimitiveDateTime::parse(s, &description) {
        Ok(dt) => Some(dt.assume_utc().unix_timestamp_nanos()),
        Err(_) => None,
    }
}

} // verus!
