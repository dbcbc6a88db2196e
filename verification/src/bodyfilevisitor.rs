//! The extractor: it is told of each element that opens, of each text and of
//! each element that closes, keeps the path of open elements itself, and
//! collects the fields of one record from the places where they stand.

use vstd::prelude::*;
use crate::ancestors::{closed_one, parent_of, AncestorStack};
use crate::error::{ErrorView, ExtractError};
use crate::payload::{entries_text, inserted, lemma_key_index_is, value_of, Entry, Payload};
use crate::record::{option_text, NormalizedRecord, RecordView};
use crate::text::{sanitize, sanitized, str_eq};
use crate::timestamp::{read_system_time, system_time, TimestampError};

verus! {

/// Which optional fields the extractor tracks, and how strict it is.
#[derive(Clone, Copy, Debug, PartialEq, Eq, Structural)]
pub struct ExtractorConfig {
    /// The channel is collected, and a record without one is an error.
    pub track_channel: bool,
    /// The activity id is collected where the record has one.
    pub track_activity_id: bool,
    /// A provider without name, or a creation time without value, is an
    /// error at once; otherwise the element is passed over.
    pub require_attributes: bool,
}

/// The extended variant: channel and activity id are tracked, and the
/// attributes of provider and creation time are required.
pub open spec fn extended_config() -> ExtractorConfig {
    ExtractorConfig { track_channel: true, track_activity_id: true, require_attributes: true }
}

/// The minimal variant: neither channel nor activity id is tracked; the
/// attributes of provider and creation time are required.
pub open spec fn minimal_config() -> ExtractorConfig {
    ExtractorConfig { track_channel: false, track_activity_id: false, require_attributes: true }
}

impl ExtractorConfig {
    /// The extended variant.
    pub fn extended() -> (r: Self)
        ensures
            r == extended_config(),
    {
        ExtractorConfig { track_channel: true, track_activity_id: true, require_attributes: true }
    }

    /// The minimal variant.
    pub fn minimal() -> (r: Self)
        ensures
            r == minimal_config(),
    {
        ExtractorConfig { track_channel: false, track_activity_id: false, require_attributes: true }
    }
}

/// What the extractor knows after some part of a record.
#[verifier::ext_equal]
pub struct VisitorState {
    pub config: ExtractorConfig,
    /// The tags of the open elements, outermost first.
    pub stack: Seq<Seq<char>>,
    /// The outermost element was an `Event`.
    pub root_seen: bool,
    pub event_id: Option<Seq<char>>,
    pub provider_name: Option<Seq<char>>,
    pub channel_name: Option<Seq<char>>,
    pub timestamp: Option<int>,
    pub payload: Seq<Entry>,
    /// The key that waits for the next text.
    pub pending_key: Option<Seq<char>>,
    pub activity_id: Option<Seq<char>>,
}

/// A place in a record, told by the innermost open element and the tag of
/// the element that opens.
#[derive(Clone, Copy, Debug, PartialEq, Eq, Structural)]
pub enum Position {
    /// `Provider` inside `System`: its `Name` is the provider name.
    Provider,
    /// `TimeCreated` inside `System`: its `SystemTime` is the creation time.
    TimeCreated,
    /// `Correlation` inside `System`: its `ActivityID` is the activity id.
    Correlation,
    /// `Data` inside `EventData`: its `Name` is the key of the next text.
    Data,
    /// Any other place: nothing is taken from it.
    Other,
}

/// The place of an element with the tag `tag` that opens inside `parent`.
pub open spec fn position_of(parent: Option<Seq<char>>, tag: Seq<char>) -> Position {
    if parent == Some("System"@) {
        if tag == "Provider"@ {
            Position::Provider
        } else if tag == "TimeCreated"@ {
            Position::TimeCreated
        } else if tag == "Correlation"@ {
            Position::Correlation
        } else {
            Position::Other
        }
    } else if parent == Some("EventData"@) && tag == "Data"@ {
        Position::Data
    } else {
        Position::Other
    }
}

/// The outcome of looking up an attribute that may have to be there.
pub open spec fn required(attributes: Seq<Entry>, key: Seq<char>) -> Result<Seq<char>, ErrorView> {
    match value_of(attributes, key) {
        Some(value) => Ok(value),
        None => Err(ErrorView::MissingAttribute { key }),
    }
}

impl VisitorState {
    /// The state before the first event of a record.
    pub open spec fn initial(config: ExtractorConfig) -> VisitorState {
        VisitorState {
            config,
            stack: Seq::empty(),
            root_seen: false,
            event_id: None,
            provider_name: None,
            channel_name: None,
            timestamp: None,
            payload: Seq::empty(),
            pending_key: None,
            activity_id: None,
        }
    }

    /// The state with `tag` opened on top of the path.
    pub open spec fn opened(self, tag: Seq<char>) -> VisitorState {
        VisitorState {
            stack: self.stack.push(tag),
            root_seen: self.root_seen || (self.stack.len() == 0 && tag == "Event"@),
            ..self
        }
    }

    /// The state after a creation time `value` was read with the given
    /// outcome: the seconds are kept, or the error names the value.
    pub open spec fn timed(self, value: Seq<char>, outcome: Result<int, TimestampError>) -> Result<
        VisitorState,
        ErrorView,
    > {
        match outcome {
            Ok(seconds) => Ok(VisitorState { timestamp: Some(seconds), ..self }),
            Err(TimestampError::Format) => Err(ErrorView::TimestampFormat { value }),
            Err(TimestampError::RoundTrip) => Err(ErrorView::TimestampRoundTrip { value }),
        }
    }

    /// What the attributes of an element at the place `position` change.
    pub open spec fn noted_at(self, position: Position, attributes: Seq<Entry>) -> Result<
        VisitorState,
        ErrorView,
    > {
        match position {
            Position::Provider => match value_of(attributes, "Name"@) {
                Some(name) => Ok(VisitorState { provider_name: Some(name), ..self }),
                None => if self.config.require_attributes {
                    Err(ErrorView::MissingAttribute { key: "Name"@ })
                } else {
                    Ok(self)
                },
            },
            Position::TimeCreated => match value_of(attributes, "SystemTime"@) {
                Some(value) => self.timed(value, system_time(value)),
                None => if self.config.require_attributes {
                    Err(ErrorView::MissingAttribute { key: "SystemTime"@ })
                } else {
                    Ok(self)
                },
            },
            Position::Correlation => match value_of(attributes, "ActivityID"@) {
                Some(id) => if self.config.track_activity_id {
                    Ok(VisitorState { activity_id: Some(id), ..self })
                } else {
                    Ok(self)
                },
                None => Ok(self),
            },
            Position::Data => {
                let key = match value_of(attributes, "Name"@) {
                    Some(name) => name,
                    None => "binary"@,
                };
                Ok(VisitorState { pending_key: Some(key), ..self })
            },
            Position::Other => Ok(self),
        }
    }

    /// What the attributes of an opening element change, by the place where
    /// the element stands; the path is not yet extended.
    pub open spec fn noted(self, tag: Seq<char>, attributes: Seq<Entry>) -> Result<
        VisitorState,
        ErrorView,
    > {
        self.noted_at(position_of(parent_of(self.stack), tag), attributes)
    }

    /// The state after an element opens. On an error nothing has changed.
    pub open spec fn entered(self, tag: Seq<char>, attributes: Seq<Entry>) -> Result<
        VisitorState,
        ErrorView,
    > {
        match self.noted(tag, attributes) {
            Ok(next) => Ok(next.opened(tag)),
            Err(e) => Err(e),
        }
    }

    /// The state after a text inside an element with the tag `parent`. A
    /// waiting key takes the text as its value, sanitized, unless the text
    /// is empty, and waits no longer. Without a waiting key the text is the
    /// event id inside `EventID`, and the channel inside `Channel` where
    /// channels are tracked.
    pub open spec fn texted_under(self, parent: Option<Seq<char>>, value: Seq<char>) -> VisitorState {
        match self.pending_key {
            Some(key) => VisitorState {
                payload: if value.len() == 0 {
                    self.payload
                } else {
                    inserted(self.payload, key, sanitized(value))
                },
                pending_key: None,
                ..self
            },
            None => {
                if parent == Some("EventID"@) {
                    VisitorState { event_id: Some(value), ..self }
                } else if parent == Some("Channel"@) && self.config.track_channel {
                    VisitorState { channel_name: Some(value), ..self }
                } else {
                    self
                }
            },
        }
    }

    /// The state after a text: the innermost open element is the one that
    /// the text stands in.
    pub open spec fn texted(self, value: Seq<char>) -> VisitorState {
        self.texted_under(parent_of(self.stack), value)
    }

    /// The state after an element closes: the path is one shorter, and no
    /// key waits any more.
    pub open spec fn left(self) -> VisitorState {
        VisitorState { stack: closed_one(self.stack), pending_key: None, ..self }
    }

    /// The record at the end, or what it lacks: the root, the provider, the
    /// event id, the creation time or the channel, asked in this order.
    pub open spec fn finished(self) -> Result<RecordView, ErrorView> {
        if !self.root_seen {
            Err(ErrorView::MissingRoot)
        } else if self.provider_name.is_none() {
            Err(ErrorView::MissingProvider)
        } else if self.event_id.is_none() {
            Err(ErrorView::MissingEventId)
        } else if self.timestamp.is_none() {
            Err(ErrorView::MissingTimestamp)
        } else if self.config.track_channel && self.channel_name.is_none() {
            Err(ErrorView::MissingChannel)
        } else {
            Ok(
                RecordView {
                    record_timestamp: self.timestamp.unwrap(),
                    event_id: self.event_id.unwrap(),
                    provider_name: self.provider_name.unwrap(),
                    channel_name: self.channel_name,
                    activity_id: self.activity_id,
                    payload: self.payload,
                },
            )
        }
    }
}

/// The value of the first attribute named `key`; an error that names the
/// key where there is none.
pub fn attr_find<'a>(attributes: &'a Vec<(String, String)>, key: &str) -> (r: Result<
    &'a str,
    ExtractError,
>)
    ensures
        match r {
            Ok(value) => required(entries_text(attributes@), key@) == Ok::<Seq<char>, ErrorView>(
                value@,
            ),
            Err(e) => required(entries_text(attributes@), key@) == Err::<Seq<char>, ErrorView>(e@),
        },
{
    let ghost entries = entries_text(attributes@);
    let mut i: usize = 0;
    while i < attributes.len()
        invariant
            i <= attributes.len(),
            entries == entries_text(attributes@),
            forall|j: int| 0 <= j < i ==> (#[trigger] entries[j]).0 != key@,
        decreases attributes.len() - i,
    {
        if str_eq(attributes[i].0.as_str(), key) {
            proof {
                lemma_key_index_is(entries, key@, i as int);
            }
            return Ok(attributes[i].1.as_str());
        }
        i += 1;
    }
    proof {
        lemma_key_index_is(entries, key@, i as int);
    }
    Err(ExtractError::MissingAttribute { key: key.to_owned() })
}

/// The extractor of one record. A fresh one is made for each record.
pub struct BodyfileVisitor {
    config: ExtractorConfig,
    stack: AncestorStack,
    root_seen: bool,
    event_id: Option<String>,
    provider_name: Option<String>,
    channel_name: Option<String>,
    timestamp: Option<i64>,
    event_data: Payload,
    event_data_name: Option<String>,
    activity_id: Option<String>,
}

impl View for BodyfileVisitor {
    type V = VisitorState;

    closed spec fn view(&self) -> VisitorState {
        VisitorState {
            config: self.config,
            stack: self.stack@,
            root_seen: self.root_seen,
            event_id: option_text(self.event_id),
            provider_name: option_text(self.provider_name),
            channel_name: option_text(self.channel_name),
            timestamp: match self.timestamp {
                Some(seconds) => Some(seconds as int),
                None => None,
            },
            payload: self.event_data.entries(),
            pending_key: option_text(self.event_data_name),
            activity_id: option_text(self.activity_id),
        }
    }
}

fn copy_text(value: &Option<String>) -> (r: Option<String>)
    ensures
        option_text(r) == option_text(*value),
{
    match value {
        Some(text) => Some(text.clone()),
        None => None,
    }
}

impl BodyfileVisitor {
    /// An extractor of the extended variant: it tracks the channel and the
    /// activity id and insists on the attributes of provider and creation
    /// time.
    pub fn new() -> (r: Self)
        ensures
            r@ == VisitorState::initial(extended_config()),
    {
        Self::with_config(ExtractorConfig::extended())
    }

    /// An extractor for the given choice of fields and strictness.
    pub fn with_config(config: ExtractorConfig) -> (r: Self)
        ensures
            r@ == VisitorState::initial(config),
    {
        let r = Self {
            config,
            stack: AncestorStack::new(),
            root_seen: false,
            event_id: None,
            provider_name: None,
            channel_name: None,
            timestamp: None,
            event_data: Payload::new(),
            event_data_name: None,
            activity_id: None,
        };
        r
    }

    /// Called when a record starts: a fresh extractor needs nothing done.
    pub fn start_record(&mut self)
        ensures
            final(self)@ == old(self)@,
    {
    }

    /// Called when a record is finished: the collected fields stay as they
    /// are, for `get_result`.
    pub fn finalize_record(&mut self)
        ensures
            final(self)@ == old(self)@,
    {
    }

    /// The place of an element with the tag `name` that opens now.
    fn position(&self, name: &str) -> (r: Position)
        ensures
            r == position_of(parent_of(self@.stack), name@),
    {
        if self.stack.top_is("System") {
            if str_eq(name, "Provider") {
                Position::Provider
            } else if str_eq(name, "TimeCreated") {
                Position::TimeCreated
            } else if str_eq(name, "Correlation") {
                Position::Correlation
            } else {
                Position::Other
            }
        } else if self.stack.top_is("EventData") && str_eq(name, "Data") {
            Position::Data
        } else {
            Position::Other
        }
    }

    /// Takes over the outcome of reading the creation time `value`: keeps
    /// the seconds, or returns the error that names the value and leaves the
    /// extractor as it was.
    pub fn set_creation_time(&mut self, value: &str, outcome: Result<i64, TimestampError>) -> (r:
        Result<(), ExtractError>)
        ensures
            match r {
                Ok(()) => outcome.is_ok() && old(self)@.timed(value@, Ok(outcome.unwrap() as int))
                    == Ok::<VisitorState, ErrorView>(final(self)@),
                Err(e) => outcome.is_err() && old(self)@.timed(value@, Err(outcome.unwrap_err()))
                    == Err::<VisitorState, ErrorView>(e@) && final(self)@ == old(self)@,
            },
    {
        match outcome {
            Ok(seconds) => {
                self.timestamp = Some(seconds);
                assert(self@ =~= old(self)@.timed(value@, Ok(seconds as int))->Ok_0);
                Ok(())
            },
            Err(TimestampError::Format) => Err(
                ExtractError::TimestampFormat { value: value.to_owned() },
            ),
            Err(TimestampError::RoundTrip) => Err(
                ExtractError::TimestampRoundTrip { value: value.to_owned() },
            ),
        }
    }

    /// Called when an element opens. By the innermost open element and the
    /// tag it takes the provider name, the creation time, the activity id or
    /// the key of a data entry from the attributes (of equal attribute names
    /// the first counts), then puts the tag on the path. On an error the
    /// extractor is left as it was.
    pub fn visit_start_element(&mut self, name: &str, attributes: &Vec<(String, String)>) -> (r:
        Result<(), ExtractError>)
        ensures
            match r {
                Ok(()) => old(self)@.entered(name@, entries_text(attributes@)) == Ok::<
                    VisitorState,
                    ErrorView,
                >(final(self)@),
                Err(e) => old(self)@.entered(name@, entries_text(attributes@)) == Err::<
                    VisitorState,
                    ErrorView,
                >(e@) && final(self)@ == old(self)@,
            },
    {
        match self.position(name) {
            Position::Provider => match attr_find(attributes, "Name") {
                Ok(value) => {
                    self.provider_name = Some(value.to_owned());
                },
                Err(e) => {
                    if self.config.require_attributes {
                        return Err(e);
                    }
                },
            },
            Position::TimeCreated => match attr_find(attributes, "SystemTime") {
                Ok(value) => match self.set_creation_time(value, read_system_time(value)) {
                    Ok(()) => {},
                    Err(e) => {
                        return Err(e);
                    },
                },
                Err(e) => {
                    if self.config.require_attributes {
                        return Err(e);
                    }
                },
            },
            Position::Correlation => match attr_find(attributes, "ActivityID") {
                Ok(value) => {
                    if self.config.track_activity_id {
                        self.activity_id = Some(value.to_owned());
                    }
                },
                Err(_) => {},
            },
            Position::Data => match attr_find(attributes, "Name") {
                Ok(value) => {
                    self.event_data_name = Some(value.to_owned());
                },
                Err(_) => {
                    self.event_data_name = Some("binary".to_owned());
                },
            },
            Position::Other => {},
        }
        if self.stack.depth() == 0 && str_eq(name, "Event") {
            self.root_seen = true;
        }
        self.stack.push(name);
        proof {
            let noted = old(self)@.noted(name@, entries_text(attributes@));
            assert(noted is Ok);
            assert(self@ =~= noted->Ok_0.opened(name@));
        }
        Ok(())
    }

    /// Called with the text of an element. A waiting key takes the text as
    /// its value, with every `|` replaced, unless the text is empty, and
    /// waits no longer; a value that the key already had is replaced.
    /// Without a waiting key, the text is the event id inside `EventID`, and
    /// the channel inside `Channel` where channels are tracked.
    pub fn visit_characters(&mut self, value: &str)
        ensures
            final(self)@ == old(self)@.texted(value@),
    {
        let mut pending: Option<String> = None;
        core::mem::swap(&mut self.event_data_name, &mut pending);
        match pending {
            Some(key) => {
                if !value.is_empty() {
                    self.event_data.insert(key, sanitize(value));
                }
            },
            None => {
                if self.stack.top_is("EventID") {
                    self.event_id = Some(value.to_owned());
                } else if self.stack.top_is("Channel") && self.config.track_channel {
                    self.channel_name = Some(value.to_owned());
                }
            },
        }
        assert(self@ =~= old(self)@.texted(value@));
    }

    /// Called when an element closes: takes the innermost element off the
    /// path, if there is one, and lets no key wait any longer.
    pub fn visit_end_element(&mut self, _name: &str)
        ensures
            final(self)@ == old(self)@.left(),
    {
        self.stack.pop();
        self.event_data_name = None;
        assert(self@ =~= old(self)@.left());
    }

    /// The record collected so far, or the first thing that it lacks.
    pub fn get_result(&self) -> (r: Result<NormalizedRecord, ExtractError>)
        ensures
            match r {
                Ok(record) => self@.finished() == Ok::<RecordView, ErrorView>(record@),
                Err(e) => self@.finished() == Err::<RecordView, ErrorView>(e@),
            },
    {
        if !self.root_seen {
            return Err(ExtractError::MissingRoot);
        }
        let provider_name = match &self.provider_name {
            Some(name) => name.clone(),
            None => {
                return Err(ExtractError::MissingProvider);
            },
        };
        let event_id = match &self.event_id {
            Some(id) => id.clone(),
            None => {
                return Err(ExtractError::MissingEventId);
            },
        };
        let record_timestamp = match self.timestamp {
            Some(seconds) => seconds,
            None => {
                return Err(ExtractError::MissingTimestamp);
            },
        };
        if self.config.track_channel && self.channel_name.is_none() {
            return Err(ExtractError::MissingChannel);
        }
        let record = NormalizedRecord {
            record_timestamp,
            event_id,
            provider_name,
            channel_name: copy_text(&self.channel_name),
            activity_id: copy_text(&self.activity_id),
            payload: self.event_data.clone(),
        };
        assert(record@ =~= self@.finished()->Ok_0);
        Ok(record)
    }
}

} // verus!
