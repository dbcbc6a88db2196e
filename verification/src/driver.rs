//! What becomes of one record: its events are turned into one line of
//! output, and the outcome says whether the line is written, the record is
//! skipped with a warning, or the run ends.

use vstd::prelude::*;
use crate::bodyfilevisitor::ExtractorConfig;
use crate::error::{message_text, ErrorView, ExtractError};
use crate::record::{lemma_bodyfile_line_pieces, NormalizedRecord, RecordView};
use crate::stream::{
    events_view, extract, extracted, lemma_extracted_line_has_eleven_pieces,
    taken_over_delimiter_free, Event, EventView,
};
use crate::text::{decimal, split, DELIMITER};

verus! {

/// The form of the output lines.
#[derive(Clone, Copy, Debug, PartialEq, Eq, Structural)]
pub enum OutputFormat {
    /// One bodyfile line for each record.
    Bodyfile,
    /// One JSON document for each record.
    Json,
}

/// The line of a record in the given form. A JSON document needs an
/// ISO-8601 text for the timestamp.
pub open spec fn rendered(record: RecordView, format: OutputFormat, event_record_id: int) -> Result<
    Seq<char>,
    ErrorView,
> {
    match format {
        OutputFormat::Bodyfile => Ok(record.bodyfile_line().text()),
        OutputFormat::Json => match record.json(event_record_id) {
            Some(text) => Ok(text),
            None => Err(ErrorView::TimestampRange { seconds: record.record_timestamp }),
        },
    }
}

/// The line for the events of one record, or the error that keeps the
/// record from having one.
pub open spec fn processed(
    config: ExtractorConfig,
    events: Seq<EventView>,
    format: OutputFormat,
    event_record_id: int,
) -> Result<Seq<char>, ErrorView> {
    match extracted(config, events) {
        Ok(record) => rendered(record, format, event_record_id),
        Err(e) => Err(e),
    }
}

/// Renders a record in the given form. The number of the record goes into
/// a JSON document only.
pub fn render(record: &NormalizedRecord, format: OutputFormat, event_record_id: u64) -> (r: Result<
    String,
    ExtractError,
>)
    ensures
        match r {
            Ok(line) => rendered(record@, format, event_record_id as int) == Ok::<
                Seq<char>,
                ErrorView,
            >(line@),
            Err(e) => rendered(record@, format, event_record_id as int) == Err::<
                Seq<char>,
                ErrorView,
            >(e@),
        },
{
    match format {
        OutputFormat::Bodyfile => Ok(record.render_bodyfile()),
        OutputFormat::Json => match record.to_json(event_record_id) {
            Some(text) => Ok(text),
            None => Err(ExtractError::TimestampRange { seconds: record.record_timestamp }),
        },
    }
}

/// Turns the events of one record into its output line: a fresh extractor
/// reads the events, and the record it yields is rendered.
pub fn process_record(
    config: ExtractorConfig,
    events: &Vec<Event>,
    format: OutputFormat,
    event_record_id: u64,
) -> (r: Result<String, ExtractError>)
    ensures
        match r {
            Ok(line) => processed(config, events_view(events@), format, event_record_id as int)
                == Ok::<Seq<char>, ErrorView>(line@),
            Err(e) => processed(config, events_view(events@), format, event_record_id as int)
                == Err::<Seq<char>, ErrorView>(e@),
        },
        format == OutputFormat::Bodyfile ==> (r matches Ok(line) ==> {
            let record = extracted(config, events_view(events@))->Ok_0;
            let pieces = split(line@, DELIMITER);
            &&& pieces.len() >= 11
            &&& pieces.skip(pieces.len() - 4) == seq![
                decimal(record.record_timestamp),
                decimal(record.record_timestamp),
                decimal(record.record_timestamp),
                decimal(record.record_timestamp),
            ]
            &&& taken_over_delimiter_free(record) ==> pieces.len() == 11
        }),
{
    proof {
        let outcome = extracted(config, events_view(events@));
        if outcome is Ok {
            lemma_bodyfile_line_pieces(outcome->Ok_0);
            if taken_over_delimiter_free(outcome->Ok_0) {
                lemma_extracted_line_has_eleven_pieces(config, events_view(events@));
            }
        }
    }
    match extract(config, events) {
        Ok(record) => render(&record, format, event_record_id),
        Err(e) => Err(e),
    }
}

/// What the driver does about a creation time that follows the pattern
/// but is written differently from the way the pattern writes its instant.
#[derive(Clone, Copy, Debug, PartialEq, Eq, Structural)]
pub enum DriftPolicy {
    /// The run ends.
    Fail,
    /// The record is skipped with a warning, and the run goes on.
    Continue,
}

/// Whether an error ends the run under a policy: a creation time outside
/// the pattern always does, one that is written differently does under
/// [`DriftPolicy::Fail`], and no other error does.
pub open spec fn ends_run(e: ErrorView, policy: DriftPolicy) -> bool {
    e is TimestampFormat || (e is TimestampRoundTrip && policy == DriftPolicy::Fail)
}

/// What the driver does after a record.
#[derive(Debug, PartialEq, Eq)]
pub enum Action {
    /// Write the line.
    Emit { line: String },
    /// Warn, write nothing, and go on with the next record.
    Skip { warning: String },
    /// Report the message and end the run.
    Abort { message: String },
}

/// An [`Action`] over plain text.
pub enum ActionView {
    Emit { line: Seq<char> },
    Skip { warning: Seq<char> },
    Abort { message: Seq<char> },
}

impl View for Action {
    type V = ActionView;

    open spec fn view(&self) -> ActionView {
        match *self {
            Action::Emit { line } => ActionView::Emit { line: line@ },
            Action::Skip { warning } => ActionView::Skip { warning: warning@ },
            Action::Abort { message } => ActionView::Abort { message: message@ },
        }
    }
}

/// The action for the outcome of a record: a line is written; an error that
/// concerns the record alone skips it; an error that ends the run aborts.
pub open spec fn decided(outcome: Result<Seq<char>, ErrorView>, policy: DriftPolicy) -> ActionView {
    match outcome {
        Ok(line) => ActionView::Emit { line },
        Err(e) => if ends_run(e, policy) {
            ActionView::Abort { message: message_text(e) }
        } else {
            ActionView::Skip { warning: message_text(e) }
        },
    }
}

/// The text of an outcome.
pub open spec fn outcome_view(outcome: Result<String, ExtractError>) -> Result<
    Seq<char>,
    ErrorView,
> {
    match outcome {
        Ok(line) => Ok(line@),
        Err(e) => Err(e@),
    }
}

/// Decides what the driver does with the outcome of a record.
pub fn decide(outcome: Result<String, ExtractError>, policy: DriftPolicy) -> (r: Action)
    ensures
        r@ == decided(outcome_view(outcome), policy),
{
    match outcome {
        Ok(line) => Action::Emit { line },
        Err(e) => if e.ends_run(policy) {
            Action::Abort { message: e.message() }
        } else {
            Action::Skip { warning: e.message() }
        },
    }
}

impl ExtractError {
    /// Whether the error ends the run under the policy.
    pub fn ends_run(&self, policy: DriftPolicy) -> (r: bool)
        ensures
            r == ends_run(self@, policy),
    {
        match self {
            ExtractError::TimestampFormat { .. } => true,
            ExtractError::TimestampRoundTrip { .. } => match policy {
                DriftPolicy::Fail => true,
                DriftPolicy::Continue => false,
            },
            _ => false,
        }
    }
}

/// Under [`DriftPolicy::Fail`] the errors that end the run are the fatal
/// ones.
pub proof fn lemma_fail_policy_is_fatal(e: ErrorView)
    ensures
        ends_run(e, DriftPolicy::Fail) == e.is_fatal(),
{
}

} // verus!
