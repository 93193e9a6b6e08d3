//! Instants as plain numbers, and their RFC 3339 text.
use vstd::prelude::*;
use vstd::string::StringExecFns;
use crate::errors::Error;
use crate::errors::ErrorView;

verus! {

/// An instant: whole seconds since 1970-01-01T00:00:00Z, and the
/// nanoseconds past that second.
#[derive(Debug, Clone, Copy, PartialEq, Eq)]
pub struct Timestamp {
    /// Seconds since the Unix epoch; negative before it.
    pub secs: i64,
    /// Nanoseconds past the second.
    pub nanos: u32,
}

/// The Unix epoch itself.
pub open spec fn epoch() -> Timestamp {
    Timestamp { secs: 0, nanos: 0 }
}

/// `chrono::ParseError`, taken as it is.
#[verifier::external_type_specification]
#[verifier::external_body]
pub struct ExParseError(chrono::ParseError);

/// The RFC 3339 text, with milliseconds and a literal `Z`, of the instant
/// `nanos` nanoseconds past `secs` seconds since the Unix epoch; nothing
/// where the calendar of `chrono` does not reach that instant.
pub uninterp spec fn rfc3339_utc_millis(secs: int, nanos: int) -> Option<Seq<char>>;

/// The instant that an RFC 3339 text denotes, as seconds since the Unix
/// epoch and nanoseconds past the second; nothing where the text is not
/// RFC 3339.
pub uninterp spec fn rfc3339_instant(text: Seq<char>) -> Option<(int, int)>;

/// `DateTime::<Utc>::from_timestamp` followed by `DateTime::to_rfc3339_opts`
/// with `SecondsFormat::Millis` and `use_z`: the text of the instant, or
/// nothing where `from_timestamp` has no such instant.
#[verifier::external_body]
fn utc_to_rfc3339(secs: i64, nanos: u32) -> (text: Option<String>)
    ensures
        match text {
            Some(t) => rfc3339_utc_millis(secs as int, nanos as int) == Some(t@),
            None => rfc3339_utc_millis(secs as int, nanos as int) is None,
        },
{
    match chrono::DateTime::from_timestamp(secs, nanos) {
        Some(d) => Some(d.to_rfc3339_opts(chrono::SecondsFormat::Millis, true)),
        None => None,
    }
}

/// `DateTime::parse_from_rfc3339`, read out with `DateTime::timestamp` and
/// `DateTime::timestamp_subsec_nanos`: the instant that `text` denotes, or
/// the parser's error.
#[verifier::external_body]
fn rfc3339_to_utc(text: &str) -> (parsed: Result<Timestamp, chrono::ParseError>)
    ensures
        match parsed {
            Ok(t) => rfc3339_instant(text@) == Some((t.secs as int, t.nanos as int)),
            Err(_) => rfc3339_instant(text@) is None,
        },
{
    match chrono::DateTime::parse_from_rfc3339(text) {
        Ok(d) => Ok(Timestamp { secs: d.timestamp(), nanos: d.timestamp_subsec_nanos() }),
        Err(e) => Err(e),
    }
}

/// The `Display` text of a `chrono::ParseError`.
#[verifier::external_body]
fn parse_error_text(e: &chrono::ParseError) -> String {
    e.to_string()
}

/// Writes `time` as RFC 3339 with milliseconds and a literal `Z`, such as
/// `2018-01-26T18:30:09.453Z`. There is no text for an instant beyond the
/// calendar.
pub fn format_system_time(time: Timestamp) -> (text: Option<String>)
    ensures
        match text {
            Some(t) => rfc3339_utc_millis(time.secs as int, time.nanos as int) == Some(t@),
            None => rfc3339_utc_millis(time.secs as int, time.nanos as int) is None,
        },
{
    utc_to_rfc3339(time.secs, time.nanos)
}

/// What `parse_system_time` answers once the text has been parsed.
pub open spec fn parse_outcome(
    parsed: Option<(int, int)>,
    r: Result<Timestamp, Error>,
) -> bool {
    match r {
        Ok(t) => parsed == Some((t.secs as int, t.nanos as int)),
        Err(e) => parsed is None && (e@ matches ErrorView::ParseError { what, .. } && what
            == "parse system time"@),
    }
}

/// Reads an RFC 3339 text such as `2018-01-26T18:30:09.453Z`. Any other
/// text is a parse error.
pub fn parse_system_time(s: &str) -> (r: Result<Timestamp, Error>)
    ensures
        parse_outcome(rfc3339_instant(s@), r),
{
    match rfc3339_to_utc(s) {
        Ok(t) => Ok(t),
        Err(e) => Err(
            Error::ParseError {
                what: String::from_str("parse system time"),
                how: parse_error_text(&e),
            },
        ),
    }
}

} // verus!
