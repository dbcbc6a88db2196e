//! Why a record yields no line, and whether the run may go on after it.

use vstd::prelude::*;
use vstd::string::StringExecFns;
use crate::text::{decimal, push_decimal_i64};

verus! {

/// Why the extractor gave up on a record.
#[derive(Debug, PartialEq, Eq)]
pub enum ExtractError {
    /// An element lacks an attribute that it must carry.
    MissingAttribute { key: String },
    /// The creation time does not follow the fixed pattern.
    TimestampFormat { value: String },
    /// The creation time follows the pattern, but is not written the way
    /// the pattern writes its instant.
    TimestampRoundTrip { value: String },
    /// The record has no `Event` element at its root.
    MissingRoot,
    /// The record names no provider.
    MissingProvider,
    /// The record has no event id.
    MissingEventId,
    /// The record has no creation time.
    MissingTimestamp,
    /// The record names no channel, although channels are tracked.
    MissingChannel,
    /// The creation time lies outside the dates that have an ISO-8601 text.
    TimestampRange { seconds: i64 },
}

/// An [`ExtractError`] over plain text.
pub enum ErrorView {
    MissingAttribute { key: Seq<char> },
    TimestampFormat { value: Seq<char> },
    TimestampRoundTrip { value: Seq<char> },
    MissingRoot,
    MissingProvider,
    MissingEventId,
    MissingTimestamp,
    MissingChannel,
    TimestampRange { seconds: int },
}

impl ErrorView {
    /// The error ends the run: the input is not what the extractor was made
    /// for. Every other error concerns one record only.
    pub open spec fn is_fatal(self) -> bool {
        self is TimestampFormat || self is TimestampRoundTrip
    }
}

impl View for ExtractError {
    type V = ErrorView;

    open spec fn view(&self) -> ErrorView {
        match *self {
            ExtractError::MissingAttribute { key } => ErrorView::MissingAttribute { key: key@ },
            ExtractError::TimestampFormat { value } => ErrorView::TimestampFormat {
                value: value@,
            },
            ExtractError::TimestampRoundTrip { value } => ErrorView::TimestampRoundTrip {
                value: value@,
            },
            ExtractError::MissingRoot => ErrorView::MissingRoot,
            ExtractError::MissingProvider => ErrorView::MissingProvider,
            ExtractError::MissingEventId => ErrorView::MissingEventId,
            ExtractError::MissingTimestamp => ErrorView::MissingTimestamp,
            ExtractError::MissingChannel => ErrorView::MissingChannel,
            ExtractError::TimestampRange { seconds } => ErrorView::TimestampRange {
                seconds: seconds as int,
            },
        }
    }
}

/// The text of the message for an error.
pub open spec fn message_text(e: ErrorView) -> Seq<char> {
    match e {
        ErrorView::MissingAttribute { key } => "no value found for key '"@ + key + "'"@,
        ErrorView::TimestampFormat { value } => "error while parsing '"@ + value + "'"@,
        ErrorView::TimestampRoundTrip { value } => "'"@ + value
            + "' is not written the way its instant is formatted"@,
        ErrorView::MissingRoot => "missing 'Event' element"@,
        ErrorView::MissingProvider => "missing provider name"@,
        ErrorView::MissingEventId => "missing event id"@,
        ErrorView::MissingTimestamp => "missing creation time"@,
        ErrorView::MissingChannel => "missing channel name"@,
        ErrorView::TimestampRange { seconds } => "no ISO-8601 text for time "@ + decimal(seconds),
    }
}

impl ExtractError {
    /// Whether the error ends the run. A creation time that is not in the
    /// fixed pattern does; a record that lacks something is skipped, and the
    /// run goes on.
    pub fn is_fatal(&self) -> (r: bool)
        ensures
            r == self@.is_fatal(),
    {
        match self {
            ExtractError::TimestampFormat { .. } => true,
            ExtractError::TimestampRoundTrip { .. } => true,
            _ => false,
        }
    }

    /// A message that names the error and the value that caused it.
    pub fn message(&self) -> (r: String)
        ensures
            r@ == message_text(self@),
    {
        let mut out = String::new();
        match self {
            ExtractError::MissingAttribute { key } => {
                out.append("no value found for key '");
                out.append(key.as_str());
                out.append("'");
            },
            ExtractError::TimestampFormat { value } => {
                out.append("error while parsing '");
                out.append(value.as_str());
                out.append("'");
            },
            ExtractError::TimestampRoundTrip { value } => {
                out.append("'");
                out.append(value.as_str());
                out.append("' is not written the way its instant is formatted");
            },
            ExtractError::MissingRoot => {
                out.append("missing 'Event' element");
            },
            ExtractError::MissingProvider => {
                out.append("missing provider name");
            },
            ExtractError::MissingEventId => {
                out.append("missing event id");
            },
            ExtractError::MissingTimestamp => {
                out.append("missing creation time");
            },
            ExtractError::MissingChannel => {
                out.append("missing channel name");
            },
            ExtractError::TimestampRange { seconds } => {
                out.append("no ISO-8601 text for time ");
                push_decimal_i64(&mut out, *seconds);
            },
        }
        out
    }
}

} // verus!
