//! The events of one record as values, and the extractor run over a whole
//! record at once.

use vstd::prelude::*;
use crate::bodyfilevisitor::{BodyfileVisitor, ExtractorConfig, VisitorState};
use crate::error::{ErrorView, ExtractError};
use crate::json::entries_delimiter_free;
use crate::payload::{
    distinct_keys, entries_text, inserted, lemma_insert_idempotent, lemma_inserted,
    lemma_key_index, Entry,
};
use crate::record::{lemma_bodyfile_line_pieces, text_or, NormalizedRecord, RecordView};
use crate::text::{decimal, delimiter_free, lemma_sanitized_is_delimiter_free, sanitized};

verus! {

/// One notification of the decoder.
#[derive(Debug, PartialEq, Eq)]
pub enum Event {
    /// An element opens.
    Enter { tag: String, attributes: Vec<(String, String)> },
    /// The text of the innermost open element.
    Text { value: String },
    /// The innermost open element closes.
    Leave { tag: String },
}

/// An [`Event`] over plain text.
pub enum EventView {
    Enter { tag: Seq<char>, attributes: Seq<Entry> },
    Text { value: Seq<char> },
    Leave { tag: Seq<char> },
}

impl View for Event {
    type V = EventView;

    open spec fn view(&self) -> EventView {
        match *self {
            Event::Enter { tag, attributes } => EventView::Enter {
                tag: tag@,
                attributes: entries_text(attributes@),
            },
            Event::Text { value } => EventView::Text { value: value@ },
            Event::Leave { tag } => EventView::Leave { tag: tag@ },
        }
    }
}

/// The events of a record over plain text.
pub open spec fn events_view(events: Seq<Event>) -> Seq<EventView> {
    events.map_values(|e: Event| e@)
}

/// The state after one event, or the error that the event gives.
pub open spec fn step(state: VisitorState, event: EventView) -> Result<VisitorState, ErrorView> {
    match event {
        EventView::Enter { tag, attributes } => state.entered(tag, attributes),
        EventView::Text { value } => Ok(state.texted(value)),
        EventView::Leave { tag } => Ok(state.left()),
    }
}

/// The state after the events in order, or the first error among them.
pub open spec fn run(state: VisitorState, events: Seq<EventView>) -> Result<
    VisitorState,
    ErrorView,
>
    decreases events.len(),
{
    if events.len() == 0 {
        Ok(state)
    } else {
        match run(state, events.drop_last()) {
            Ok(before) => step(before, events.last()),
            Err(e) => Err(e),
        }
    }
}

/// The record that a fresh extractor yields for the events of one record.
pub open spec fn extracted(config: ExtractorConfig, events: Seq<EventView>) -> Result<
    RecordView,
    ErrorView,
> {
    match run(VisitorState::initial(config), events) {
        Ok(state) => state.finished(),
        Err(e) => Err(e),
    }
}

/// An error stays: once a beginning of the events fails, the whole fails
/// with the same error.
pub proof fn lemma_run_error_stays(state: VisitorState, events: Seq<EventView>, n: int)
    requires
        0 <= n <= events.len(),
        run(state, events.take(n)) is Err,
    ensures
        run(state, events) == run(state, events.take(n)),
    decreases events.len() - n,
{
    if n == events.len() {
        assert(events.take(n) =~= events);
    } else {
        assert(events.take(n + 1).drop_last() =~= events.take(n));
        lemma_run_error_stays(state, events, n + 1);
    }
}

/// Running over two runs of events in a row is running over the second
/// from where the first ended.
pub proof fn lemma_run_concat(state: VisitorState, first: Seq<EventView>, second: Seq<EventView>)
    ensures
        run(state, first + second) == match run(state, first) {
            Ok(middle) => run(middle, second),
            Err(e) => Err(e),
        },
    decreases second.len(),
{
    if second.len() == 0 {
        assert(first + second =~= first);
    } else {
        lemma_run_concat(state, first, second.drop_last());
        assert((first + second).drop_last() =~= first + second.drop_last());
    }
}

/// Running over one event is taking one step.
pub proof fn lemma_run_one(state: VisitorState, event: EventView)
    ensures
        run(state, seq![event]) == step(state, event),
{
    assert(seq![event].drop_last() =~= Seq::<EventView>::empty());
    assert(run(state, Seq::<EventView>::empty()) == Ok::<VisitorState, ErrorView>(state));
}

/// Running over an element: over its opening, the events inside it and
/// its closing, one after the other.
pub proof fn lemma_run_element(
    state: VisitorState,
    tag: Seq<char>,
    attributes: Seq<Entry>,
    within: Seq<EventView>,
)
    ensures
        run(
            state,
            seq![EventView::Enter { tag, attributes }] + within + seq![EventView::Leave { tag }],
        ) == match state.entered(tag, attributes) {
            Ok(inside) => match run(inside, within) {
                Ok(end) => Ok(end.left()),
                Err(e) => Err(e),
            },
            Err(e) => Err(e),
        },
{
    let enter = EventView::Enter { tag, attributes };
    let leave = EventView::Leave { tag };
    lemma_run_one(state, enter);
    lemma_run_concat(state, seq![enter], within);
    lemma_run_concat(state, seq![enter] + within, seq![leave]);
    match state.entered(tag, attributes) {
        Ok(inside) => {
            match run(inside, within) {
                Ok(end) => {
                    lemma_run_one(end, leave);
                },
                Err(e) => {},
            }
        },
        Err(e) => {},
    }
}

/// How many elements are open after the events, where `depth` were open
/// before them. Closing with no element open leaves none open.
pub open spec fn depth_after(depth: nat, events: Seq<EventView>) -> nat
    decreases events.len(),
{
    if events.len() == 0 {
        depth
    } else {
        let before = depth_after(depth, events.drop_last());
        match events.last() {
            EventView::Enter { .. } => before + 1,
            EventView::Text { .. } => before,
            EventView::Leave { .. } => if before > 0 {
                (before - 1) as nat
            } else {
                0
            },
        }
    }
}

/// The path of open elements is as long as the nesting is deep, after any
/// events.
pub proof fn lemma_path_length_is_depth(state: VisitorState, events: Seq<EventView>)
    requires
        run(state, events) is Ok,
    ensures
        run(state, events)->Ok_0.stack.len() == depth_after(state.stack.len(), events),
    decreases events.len(),
{
    if events.len() > 0 {
        lemma_path_length_is_depth(state, events.drop_last());
    }
}

/// A key and a value that arrive twice in a row leave the extractor as it is
/// after the first time.
pub proof fn lemma_same_entry_twice(state: VisitorState, key: Seq<char>, value: Seq<char>)
    requires
        distinct_keys(state.payload),
    ensures
        ({
            let once = VisitorState { pending_key: Some(key), ..state }.texted(value);
            let twice = VisitorState { pending_key: Some(key), ..once }.texted(value);
            twice == once
        }),
{
    if value.len() > 0 {
        lemma_insert_idempotent(state.payload, key, sanitized(value));
    }
}

/// No value of `payload` holds a delimiter.
pub open spec fn values_delimiter_free(payload: Seq<Entry>) -> bool {
    forall|i: int| 0 <= i < payload.len() ==> delimiter_free((#[trigger] payload[i]).1)
}

/// No key of `payload` holds a delimiter.
pub open spec fn keys_delimiter_free(payload: Seq<Entry>) -> bool {
    forall|i: int| 0 <= i < payload.len() ==> delimiter_free((#[trigger] payload[i]).0)
}

/// The payload is in order: its keys are unique and its values are free of
/// delimiters.
pub open spec fn payload_in_order(payload: Seq<Entry>) -> bool {
    distinct_keys(payload) && values_delimiter_free(payload)
}

/// One event leaves the payload in order, whatever text it brings.
pub proof fn lemma_step_keeps_payload_in_order(state: VisitorState, event: EventView)
    requires
        payload_in_order(state.payload),
        step(state, event) is Ok,
    ensures
        payload_in_order(step(state, event)->Ok_0.payload),
{
    match event {
        EventView::Text { value } => {
            match state.pending_key {
                Some(key) => {
                    if value.len() != 0 {
                        let clean = sanitized(value);
                        lemma_sanitized_is_delimiter_free(value);
                        lemma_inserted(state.payload, key, clean);
                        lemma_key_index(state.payload, key);
                        let after = inserted(state.payload, key, clean);
                        assert forall|i: int| 0 <= i < after.len() implies delimiter_free(
                            (#[trigger] after[i]).1,
                        ) by {
                            if after[i] != (key, clean) {
                                assert(after[i] == state.payload[i]);
                            }
                        }
                    }
                },
                None => {},
            }
        },
        _ => {},
    }
}

/// However many events a record has and whatever they hold, the payload
/// stays in order.
pub proof fn lemma_run_keeps_payload_in_order(state: VisitorState, events: Seq<EventView>)
    requires
        payload_in_order(state.payload),
        run(state, events) is Ok,
    ensures
        payload_in_order(run(state, events)->Ok_0.payload),
    decreases events.len(),
{
    if events.len() > 0 {
        lemma_run_keeps_payload_in_order(state, events.drop_last());
        lemma_step_keeps_payload_in_order(run(state, events.drop_last())->Ok_0, events.last());
    }
}

/// The payload of every extracted record is in order: unique keys, and no
/// delimiter in any value, whatever the values of the source held.
pub proof fn lemma_extracted_payload_in_order(config: ExtractorConfig, events: Seq<EventView>)
    requires
        extracted(config, events) is Ok,
    ensures
        payload_in_order(extracted(config, events)->Ok_0.payload),
{
    lemma_run_keeps_payload_in_order(VisitorState::initial(config), events);
}

/// The texts that a record takes over as they stand in the source hold no
/// delimiter: channel, provider, event id, activity id and payload keys.
pub open spec fn taken_over_delimiter_free(record: RecordView) -> bool {
    &&& delimiter_free(text_or(record.channel_name, Seq::<char>::empty()))
    &&& delimiter_free(record.provider_name)
    &&& delimiter_free(record.event_id)
    &&& delimiter_free(text_or(record.activity_id, Seq::<char>::empty()))
    &&& keys_delimiter_free(record.payload)
}

/// The bodyfile line of an extracted record has exactly eleven pieces, and
/// its last four all hold the record's timestamp, provided that the texts
/// which are taken over as they stand hold no delimiter. Delimiters in
/// payload values do no harm: they were replaced.
pub proof fn lemma_extracted_line_has_eleven_pieces(
    config: ExtractorConfig,
    events: Seq<EventView>,
)
    requires
        extracted(config, events) is Ok,
        taken_over_delimiter_free(extracted(config, events)->Ok_0),
    ensures
        ({
            let record = extracted(config, events)->Ok_0;
            let pieces = record.bodyfile_line().pieces();
            &&& pieces.len() == 11
            &&& pieces[1] == record.summary()
            &&& pieces[7] == decimal(record.record_timestamp)
            &&& pieces[8] == pieces[7]
            &&& pieces[9] == pieces[7]
            &&& pieces[10] == pieces[7]
        }),
{
    let record = extracted(config, events)->Ok_0;
    lemma_extracted_payload_in_order(config, events);
    assert(entries_delimiter_free(record.payload));
    lemma_bodyfile_line_pieces(record);
    let pieces = record.bodyfile_line().pieces();
    let tail = pieces.skip(pieces.len() - 4);
    assert(tail[0] == pieces[7]);
    assert(tail[1] == pieces[8]);
    assert(tail[2] == pieces[9]);
    assert(tail[3] == pieces[10]);
}

impl BodyfileVisitor {
    /// Hands one event to the extractor.
    pub fn feed(&mut self, event: &Event) -> (r: Result<(), ExtractError>)
        ensures
            match r {
                Ok(()) => step(old(self)@, event@) == Ok::<VisitorState, ErrorView>(final(self)@),
                Err(e) => step(old(self)@, event@) == Err::<VisitorState, ErrorView>(e@)
                    && final(self)@ == old(self)@,
            },
    {
        match event {
            Event::Enter { tag, attributes } => self.visit_start_element(tag.as_str(), attributes),
            Event::Text { value } => {
                self.visit_characters(value.as_str());
                Ok(())
            },
            Event::Leave { tag } => {
                self.visit_end_element(tag.as_str());
                Ok(())
            },
        }
    }
}

/// Runs a fresh extractor over the events of one record and returns the
/// record, or the first error: that of an event, or what the record lacks
/// at its end.
pub fn extract(config: ExtractorConfig, events: &Vec<Event>) -> (r: Result<
    NormalizedRecord,
    ExtractError,
>)
    ensures
        match r {
            Ok(record) => extracted(config, events_view(events@)) == Ok::<RecordView, ErrorView>(
                record@,
            ),
            Err(e) => extracted(config, events_view(events@)) == Err::<RecordView, ErrorView>(e@),
        },
        r matches Ok(record) ==> payload_in_order(record@.payload),
{
    proof {
        if extracted(config, events_view(events@)) is Ok {
            lemma_extracted_payload_in_order(config, events_view(events@));
        }
    }
    let ghost all = events_view(events@);
    let ghost start = VisitorState::initial(config);
    let mut visitor = BodyfileVisitor::with_config(config);
    visitor.start_record();
    let mut i: usize = 0;
    while i < events.len()
        invariant
            i <= events.len(),
            all == events_view(events@),
            start == VisitorState::initial(config),
            run(start, all.take(i as int)) == Ok::<VisitorState, ErrorView>(visitor@),
        decreases events.len() - i,
    {
        proof {
            assert(all.take(i + 1).drop_last() =~= all.take(i as int));
            assert(all.take(i + 1).last() == events@[i as int]@);
        }
        match visitor.feed(&events[i]) {
            Ok(()) => {},
            Err(e) => {
                proof {
                    lemma_run_error_stays(start, all, i + 1);
                }
                return Err(e);
            },
        }
        i += 1;
    }
    proof {
        assert(all.take(i as int) =~= all);
    }
    visitor.finalize_record();
    visitor.get_result()
}

} // verus!
