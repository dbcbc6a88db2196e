//! Reading the creation time of a record: the text is parsed under one fixed
//! pattern, and accepted only if writing the parsed instant under the same
//! pattern gives the text back, character for character.

use vstd::prelude::*;
use crate::text::str_eq;

verus! {

/// The error that `chrono` reports for a text that does not follow a
/// pattern.
#[verifier::external_type_specification]
#[verifier::external_body]
pub struct ExParseError(chrono::ParseError);

/// The instant that `chrono` reads out of `text` under `pattern`, as whole
/// seconds since the epoch (UTC) and nanoseconds within the second; `None`
/// where it rejects the text. The nanoseconds exceed 999,999,999 within a
/// leap second.
pub uninterp spec fn parsed_instant(text: Seq<char>, pattern: Seq<char>) -> Option<(int, int)>;

/// The text that `chrono` writes for the instant `seconds` and `nanos` (UTC)
/// under `pattern`; `None` where it has no such instant or cannot write it
/// under the pattern.
pub uninterp spec fn formatted_instant(seconds: int, nanos: int, pattern: Seq<char>) -> Option<
    Seq<char>,
>;

/// The pattern of a creation time: date, time of day with an optional
/// fraction of a second, and a time zone token.
pub open spec fn system_time_pattern() -> Seq<char> {
    "%Y-%m-%d %H:%M:%S%.f %Z"@
}

/// The pattern of an ISO-8601 time in UTC, to the second.
pub open spec fn iso8601_pattern() -> Seq<char> {
    "%Y-%m-%dT%H:%M:%SZ"@
}

/// Why a creation time was turned down.
#[derive(Clone, Copy, Debug, PartialEq, Eq, Structural)]
pub enum TimestampError {
    /// The text does not follow the pattern.
    Format,
    /// The text follows the pattern, but the parsed instant is written
    /// differently under the same pattern.
    RoundTrip,
}

/// The outcome for a creation time `text`, given what parsing and writing
/// back yield: the seconds since the epoch where both agree with the text.
pub open spec fn accepted(text: Seq<char>, parsed: Option<(int, int)>, rendered: Option<Seq<char>>)
    -> Result<int, TimestampError> {
    match parsed {
        None => Err(TimestampError::Format),
        Some(instant) => if rendered == Some(text) {
            Ok(instant.0)
        } else {
            Err(TimestampError::RoundTrip)
        },
    }
}

/// What writing back yields for a parsed instant.
pub open spec fn rendered_back(parsed: Option<(int, int)>) -> Option<Seq<char>> {
    match parsed {
        None => None,
        Some(instant) => formatted_instant(instant.0, instant.1, system_time_pattern()),
    }
}

/// The outcome for a creation time `text`.
pub open spec fn system_time(text: Seq<char>) -> Result<int, TimestampError> {
    let parsed = parsed_instant(text, system_time_pattern());
    accepted(text, parsed, rendered_back(parsed))
}

/// The ISO-8601 text of `seconds` since the epoch, where there is one.
pub open spec fn iso8601(seconds: int) -> Option<Seq<char>> {
    formatted_instant(seconds, 0, iso8601_pattern())
}

/// `chrono::NaiveDateTime::parse_from_str`: the instant read out of `text`
/// under `pattern`, taken as UTC, or chrono's error.
#[verifier::external_body]
fn parse_instant(text: &str, pattern: &str) -> (r: Result<(i64, u32), chrono::ParseError>)
    ensures
        match r {
            Ok(instant) => parsed_instant(text@, pattern@) == Some(
                (instant.0 as int, instant.1 as int),
            ),
            Err(_) => parsed_instant(text@, pattern@).is_none(),
        },
{
    let utc = chrono::NaiveDateTime::parse_from_str(text, pattern)?.and_utc();
    Ok((utc.timestamp(), utc.timestamp_subsec_nanos()))
}

/// `chrono::DateTime::format`, written out with `write_to`: the text of the
/// instant `seconds` and `nanos` (UTC) under `pattern`; `None` where chrono
/// has no such instant or reports an error while writing.
#[verifier::external_body]
fn format_instant(seconds: i64, nanos: u32, pattern: &str) -> (r: Option<String>)
    ensures
        match r {
            Some(text) => formatted_instant(seconds as int, nanos as int, pattern@) == Some(text@),
            None => formatted_instant(seconds as int, nanos as int, pattern@).is_none(),
        },
{
    let instant = chrono::DateTime::from_timestamp(seconds, nanos)?;
    let mut text = String::new();
    instant.format(pattern).write_to(&mut text).ok()?;
    Some(text)
}

/// Decides on a creation time from what parsing and writing back gave:
/// the seconds of the parsed instant where the text came back unchanged.
pub fn accept_system_time(text: &str, parsed: Option<(i64, u32)>, rendered: Option<String>) -> (r:
    Result<i64, TimestampError>)
    ensures
        match r {
            Ok(seconds) => parsed.is_some() && seconds == parsed.unwrap().0 && rendered.is_some()
                && rendered.unwrap()@ == text@,
            Err(TimestampError::Format) => parsed.is_none(),
            Err(TimestampError::RoundTrip) => parsed.is_some() && !(rendered.is_some()
                && rendered.unwrap()@ == text@),
        },
{
    match parsed {
        None => Err(TimestampError::Format),
        Some(instant) => match rendered {
            None => Err(TimestampError::RoundTrip),
            Some(back) => if str_eq(back.as_str(), text) {
                Ok(instant.0)
            } else {
                Err(TimestampError::RoundTrip)
            },
        },
    }
}

/// Reads a creation time: seconds since the epoch (UTC) where `text`
/// follows the pattern and is written back unchanged.
pub fn read_system_time(text: &str) -> (r: Result<i64, TimestampError>)
    ensures
        match r {
            Ok(seconds) => system_time(text@) == Ok::<int, TimestampError>(seconds as int),
            Err(e) => system_time(text@) == Err::<int, TimestampError>(e),
        },
{
    let pattern = "%Y-%m-%d %H:%M:%S%.f %Z";
    match parse_instant(text, pattern) {
        Err(_) => accept_system_time(text, None, None),
        Ok(instant) => {
            let rendered = format_instant(instant.0, instant.1, pattern);
            accept_system_time(text, Some(instant), rendered)
        },
    }
}

/// The ISO-8601 text of `seconds` since the epoch, in UTC and to the second;
/// `None` where the instant lies outside the dates that can be written.
pub fn iso8601_text(seconds: i64) -> (r: Option<String>)
    ensures
        match r {
            Some(text) => iso8601(seconds as int) == Some(text@),
            None => iso8601(seconds as int).is_none(),
        },
{
    format_instant(seconds, 0, "%Y-%m-%dT%H:%M:%SZ")
}

/// Every accepted creation time survives the round trip: writing the
/// accepted instant under the pattern and reading the text again yields the
/// same seconds since the epoch.
pub proof fn lemma_accepted_time_round_trips(text: Seq<char>, seconds: int)
    requires
        system_time(text) == Ok::<int, TimestampError>(seconds),
    ensures
        exists|nanos: int|
            {
                &&& #[trigger] formatted_instant(seconds, nanos, system_time_pattern()) == Some(
                    text,
                )
                &&& parsed_instant(
                    formatted_instant(seconds, nanos, system_time_pattern()).unwrap(),
                    system_time_pattern(),
                ) == Some((seconds, nanos))
            },
{
    let parsed = parsed_instant(text, system_time_pattern());
    let instant = parsed.unwrap();
    assert(formatted_instant(seconds, instant.1, system_time_pattern()) == Some(text));
}

} // verus!
