//! The layout of a record as the decoder emits it, and what the extractor
//! makes of it: an `Event` that holds a `System` element and an `EventData`
//! element, each with any number of elements that have no child elements.
//! What the extractor collects from the stream of such a record is what the
//! record says at the known places.

use vstd::prelude::*;
use crate::ancestors::parent_of;
use crate::bodyfilevisitor::{ExtractorConfig, VisitorState};
use crate::error::ErrorView;
use crate::payload::{
    distinct_keys, inserted, lemma_insert_idempotent, lemma_inserted, value_of, Entry,
};
use crate::stream::{extracted, lemma_run_concat, lemma_run_one, run, EventView};
use crate::text::sanitized;
use crate::timestamp::{system_time, TimestampError};

verus! {

/// An element without child elements: a tag, attributes, and a text where
/// the element has one.
pub struct Leaf {
    pub tag: Seq<char>,
    pub attributes: Seq<Entry>,
    pub text: Option<Seq<char>>,
}

/// One record.
pub struct Document {
    pub event_attributes: Seq<Entry>,
    pub system_attributes: Seq<Entry>,
    /// The elements inside `System`, in order.
    pub system: Seq<Leaf>,
    pub data_attributes: Seq<Entry>,
    /// The elements inside `EventData`, in order.
    pub data: Seq<Leaf>,
}

/// The fields that a record says as text.
pub enum Field {
    Provider,
    CreationTime,
    ActivityId,
    EventId,
    Channel,
}

/// What one element says about a field, if anything: the provider in the
/// `Name` of a `Provider`, the creation time in the `SystemTime` of a
/// `TimeCreated`, the activity id in the `ActivityID` of a `Correlation`,
/// the event id in the text of an `EventID`, the channel in the text of a
/// `Channel`.
pub open spec fn reading(field: Field, leaf: Leaf) -> Option<Seq<char>> {
    match field {
        Field::Provider => if leaf.tag == "Provider"@ {
            value_of(leaf.attributes, "Name"@)
        } else {
            None
        },
        Field::CreationTime => if leaf.tag == "TimeCreated"@ {
            value_of(leaf.attributes, "SystemTime"@)
        } else {
            None
        },
        Field::ActivityId => if leaf.tag == "Correlation"@ {
            value_of(leaf.attributes, "ActivityID"@)
        } else {
            None
        },
        Field::EventId => if leaf.tag == "EventID"@ {
            leaf.text
        } else {
            None
        },
        Field::Channel => if leaf.tag == "Channel"@ {
            leaf.text
        } else {
            None
        },
    }
}

/// What the last element that says something about a field says.
pub open spec fn last_reading(field: Field, leaves: Seq<Leaf>) -> Option<Seq<char>>
    decreases leaves.len(),
{
    if leaves.len() == 0 {
        None
    } else {
        match reading(field, leaves.last()) {
            Some(text) => Some(text),
            None => last_reading(field, leaves.drop_last()),
        }
    }
}

/// The key of a data entry: its `Name`, or `binary` where it has none.
pub open spec fn data_key(leaf: Leaf) -> Seq<char> {
    match value_of(leaf.attributes, "Name"@) {
        Some(name) => name,
        None => "binary"@,
    }
}

/// The payload of the `Data` elements in order: each text that is not empty
/// is stored under the key of its element, sanitized; a later text for a
/// key replaces the earlier one.
pub open spec fn collected(leaves: Seq<Leaf>) -> Seq<Entry>
    decreases leaves.len(),
{
    if leaves.len() == 0 {
        Seq::empty()
    } else {
        let before = collected(leaves.drop_last());
        let leaf = leaves.last();
        if leaf.tag == "Data"@ && leaf.text.is_some() && leaf.text.unwrap().len() > 0 {
            inserted(before, data_key(leaf), sanitized(leaf.text.unwrap()))
        } else {
            before
        }
    }
}

/// The seconds of a creation time text.
pub open spec fn seconds_of(text: Option<Seq<char>>) -> Option<int> {
    match text {
        Some(value) => match system_time(value) {
            Ok(seconds) => Some(seconds),
            Err(_) => None,
        },
        None => None,
    }
}

/// An element inside `System` that the extractor takes without error: a
/// creation time is in the fixed pattern, and where attributes are required
/// a provider has a name and a creation time has a value.
pub open spec fn acceptable(config: ExtractorConfig, leaf: Leaf) -> bool {
    &&& leaf.tag == "Provider"@ && config.require_attributes ==> value_of(
        leaf.attributes,
        "Name"@,
    ).is_some()
    &&& leaf.tag == "TimeCreated"@ ==> match value_of(leaf.attributes, "SystemTime"@) {
        Some(value) => system_time(value) is Ok,
        None => !config.require_attributes,
    }
}

/// Every element inside `System` is acceptable.
pub open spec fn well_formed(config: ExtractorConfig, document: Document) -> bool {
    forall|i: int| 0 <= i < document.system.len() ==> acceptable(config, #[trigger] document.system[i])
}

/// The events of one element.
pub open spec fn leaf_events(leaf: Leaf) -> Seq<EventView> {
    let enter = seq![EventView::Enter { tag: leaf.tag, attributes: leaf.attributes }];
    let leave = seq![EventView::Leave { tag: leaf.tag }];
    match leaf.text {
        Some(value) => enter + seq![EventView::Text { value }] + leave,
        None => enter + leave,
    }
}

/// The events of a run of elements.
pub open spec fn leaves_events(leaves: Seq<Leaf>) -> Seq<EventView>
    decreases leaves.len(),
{
    if leaves.len() == 0 {
        Seq::empty()
    } else {
        leaves_events(leaves.drop_last()) + leaf_events(leaves.last())
    }
}

/// The events of a record, as the decoder emits them.
pub open spec fn document_events(document: Document) -> Seq<EventView> {
    seq![
        EventView::Enter { tag: "Event"@, attributes: document.event_attributes },
        EventView::Enter { tag: "System"@, attributes: document.system_attributes },
    ] + leaves_events(document.system) + seq![
        EventView::Leave { tag: "System"@ },
        EventView::Enter { tag: "EventData"@, attributes: document.data_attributes },
    ] + leaves_events(document.data) + seq![
        EventView::Leave { tag: "EventData"@ },
        EventView::Leave { tag: "Event"@ },
    ]
}

/// What the extractor has gathered on the path `stack` once it is through
/// the elements `system` inside `System` and `data` inside `EventData`.
pub open spec fn gathered(
    config: ExtractorConfig,
    stack: Seq<Seq<char>>,
    system: Seq<Leaf>,
    data: Seq<Leaf>,
) -> VisitorState {
    VisitorState {
        config,
        stack,
        root_seen: true,
        event_id: last_reading(Field::EventId, system + data),
        provider_name: last_reading(Field::Provider, system),
        channel_name: if config.track_channel {
            last_reading(Field::Channel, system + data)
        } else {
            None
        },
        timestamp: seconds_of(last_reading(Field::CreationTime, system)),
        payload: collected(data),
        pending_key: None,
        activity_id: if config.track_activity_id {
            last_reading(Field::ActivityId, system)
        } else {
            None
        },
    }
}

/// What the record says, as the extractor would hold it at the end.
pub open spec fn said(config: ExtractorConfig, document: Document) -> VisitorState {
    gathered(config, Seq::empty(), document.system, document.data)
}

/// The tags that the extractor knows are all different.
pub proof fn lemma_tags_differ()
    ensures
        "Event"@ != "System"@,
        "Event"@ != "EventData"@,
        "System"@ != "EventData"@,
        "Provider"@ != "TimeCreated"@,
        "Provider"@ != "Correlation"@,
        "TimeCreated"@ != "Correlation"@,
        "Data"@ != "EventID"@,
        "Data"@ != "Channel"@,
        "EventID"@ != "Channel"@,
{
    reveal_strlit("Event");
    reveal_strlit("System");
    reveal_strlit("EventData");
    reveal_strlit("Provider");
    reveal_strlit("TimeCreated");
    reveal_strlit("Correlation");
    reveal_strlit("Data");
    reveal_strlit("EventID");
    reveal_strlit("Channel");
    assert("Event"@.len() == 5);
    assert("System"@.len() == 6);
    assert("EventData"@.len() == 9);
    assert("Provider"@.len() == 8);
    assert("Data"@.len() == 4);
    assert("TimeCreated"@[0] == 'T');
    assert("Correlation"@[0] == 'C');
    assert("EventID"@[0] == 'E');
    assert("Channel"@[0] == 'C');
}

/// Running over the events of one element: the steps for its opening, its
/// text and its closing, one after the other.
pub proof fn lemma_run_leaf(state: VisitorState, leaf: Leaf)
    ensures
        run(state, leaf_events(leaf)) == match state.entered(leaf.tag, leaf.attributes) {
            Ok(inside) => match leaf.text {
                Some(value) => Ok(inside.texted(value).left()),
                None => Ok(inside.left()),
            },
            Err(e) => Err(e),
        },
{
    let enter = EventView::Enter { tag: leaf.tag, attributes: leaf.attributes };
    let leave = EventView::Leave { tag: leaf.tag };
    lemma_run_one(state, enter);
    match leaf.text {
        Some(value) => {
            let text = EventView::Text { value };
            lemma_run_concat(state, seq![enter], seq![text]);
            lemma_run_concat(state, seq![enter] + seq![text], seq![leave]);
            match state.entered(leaf.tag, leaf.attributes) {
                Ok(inside) => {
                    lemma_run_one(inside, text);
                    lemma_run_one(inside.texted(value), leave);
                },
                Err(e) => {},
            }
        },
        None => {
            lemma_run_concat(state, seq![enter], seq![leave]);
            match state.entered(leaf.tag, leaf.attributes) {
                Ok(inside) => {
                    lemma_run_one(inside, leave);
                },
                Err(e) => {},
            }
        },
    }
}

/// The path inside `System`.
pub open spec fn system_path() -> Seq<Seq<char>> {
    seq!["Event"@, "System"@]
}

/// The path inside `EventData`.
pub open spec fn data_path() -> Seq<Seq<char>> {
    seq!["Event"@, "EventData"@]
}

/// One more element inside `System`: the extractor has then gathered what
/// the elements up to and including it say.
pub proof fn lemma_system_leaf(config: ExtractorConfig, done: Seq<Leaf>, leaf: Leaf)
    requires
        acceptable(config, leaf),
    ensures
        run(gathered(config, system_path(), done, Seq::empty()), leaf_events(leaf)) == Ok::<
            VisitorState,
            ErrorView,
        >(gathered(config, system_path(), done.push(leaf), Seq::empty())),
{
    let none = Seq::<Leaf>::empty();
    let before = gathered(config, system_path(), done, none);
    let after = gathered(config, system_path(), done.push(leaf), none);
    lemma_tags_differ();
    lemma_run_leaf(before, leaf);
    assert(done.push(leaf).drop_last() =~= done);
    assert(done + none =~= done);
    assert(done.push(leaf) + none =~= done.push(leaf));
    assert(parent_of(before.stack) == Some("System"@));
    let noted = before.noted(leaf.tag, leaf.attributes);
    assert(noted is Ok);
    let inside = noted->Ok_0.opened(leaf.tag);
    assert(inside.stack.last() == leaf.tag);
    assert(inside.stack.drop_last() =~= system_path());
    let closed = match leaf.text {
        Some(value) => inside.texted(value).left(),
        None => inside.left(),
    };
    assert(closed.stack =~= system_path());
    assert(closed =~= after);
}

/// One more element inside `EventData`: the extractor has then gathered
/// what the elements up to and including it say.
pub proof fn lemma_data_leaf(
    config: ExtractorConfig,
    system: Seq<Leaf>,
    done: Seq<Leaf>,
    leaf: Leaf,
)
    ensures
        run(gathered(config, data_path(), system, done), leaf_events(leaf)) == Ok::<
            VisitorState,
            ErrorView,
        >(gathered(config, data_path(), system, done.push(leaf))),
{
    let before = gathered(config, data_path(), system, done);
    let after = gathered(config, data_path(), system, done.push(leaf));
    lemma_tags_differ();
    lemma_run_leaf(before, leaf);
    assert(done.push(leaf).drop_last() =~= done);
    assert((system + done.push(leaf)).drop_last() =~= system + done);
    assert((system + done.push(leaf)).last() == leaf);
    assert(parent_of(before.stack) == Some("EventData"@));
    let noted = before.noted(leaf.tag, leaf.attributes);
    assert(noted is Ok);
    let inside = noted->Ok_0.opened(leaf.tag);
    assert(inside.stack.last() == leaf.tag);
    assert(inside.stack.drop_last() =~= data_path());
    let closed = match leaf.text {
        Some(value) => inside.texted(value).left(),
        None => inside.left(),
    };
    assert(closed.stack =~= data_path());
    assert(closed =~= after);
}

/// All elements inside `System`.
pub proof fn lemma_system_leaves(config: ExtractorConfig, leaves: Seq<Leaf>)
    requires
        forall|i: int| 0 <= i < leaves.len() ==> acceptable(config, #[trigger] leaves[i]),
    ensures
        run(
            gathered(config, system_path(), Seq::empty(), Seq::empty()),
            leaves_events(leaves),
        ) == Ok::<VisitorState, ErrorView>(gathered(config, system_path(), leaves, Seq::empty())),
    decreases leaves.len(),
{
    let start = gathered(config, system_path(), Seq::empty(), Seq::empty());
    if leaves.len() > 0 {
        let front = leaves.drop_last();
        assert forall|i: int| 0 <= i < front.len() implies acceptable(
            config,
            #[trigger] front[i],
        ) by {
            assert(front[i] == leaves[i]);
        }
        lemma_system_leaves(config, front);
        lemma_run_concat(start, leaves_events(front), leaf_events(leaves.last()));
        lemma_system_leaf(config, front, leaves.last());
        assert(front.push(leaves.last()) =~= leaves);
    }
}

/// All elements inside `EventData`.
pub proof fn lemma_data_leaves(config: ExtractorConfig, system: Seq<Leaf>, leaves: Seq<Leaf>)
    ensures
        run(gathered(config, data_path(), system, Seq::empty()), leaves_events(leaves)) == Ok::<
            VisitorState,
            ErrorView,
        >(gathered(config, data_path(), system, leaves)),
    decreases leaves.len(),
{
    let start = gathered(config, data_path(), system, Seq::empty());
    if leaves.len() > 0 {
        let front = leaves.drop_last();
        lemma_data_leaves(config, system, front);
        lemma_run_concat(start, leaves_events(front), leaf_events(leaves.last()));
        lemma_data_leaf(config, system, front, leaves.last());
        assert(front.push(leaves.last()) =~= leaves);
    }
}

/// The payload that the `Data` elements give has unique keys, and a `Data`
/// element that stands twice in a row gives no more than it gives once.
pub proof fn lemma_collected_once(leaves: Seq<Leaf>, again: Leaf)
    ensures
        distinct_keys(collected(leaves)),
        collected(leaves.push(again).push(again)) == collected(leaves.push(again)),
    decreases leaves.len(),
{
    if leaves.len() > 0 {
        let front = leaves.drop_last();
        let leaf = leaves.last();
        lemma_collected_once(front, leaf);
        if leaf.tag == "Data"@ && leaf.text.is_some() && leaf.text.unwrap().len() > 0 {
            lemma_inserted(collected(front), data_key(leaf), sanitized(leaf.text.unwrap()));
        }
    }
    let once = leaves.push(again);
    let twice = once.push(again);
    assert(once.drop_last() =~= leaves);
    assert(twice.drop_last() =~= once);
    if again.tag == "Data"@ && again.text.is_some() && again.text.unwrap().len() > 0 {
        lemma_insert_idempotent(
            collected(leaves),
            data_key(again),
            sanitized(again.text.unwrap()),
        );
    }
}

/// From the stream of a well-formed record the extractor gathers exactly
/// what the record says: the provider, the creation time and the activity
/// id of the last element inside `System` that has one, the event id and
/// the channel of the last element that has one, and the payload of the
/// `Data` elements.
pub proof fn lemma_run_gathers_what_the_document_says(config: ExtractorConfig, document: Document)
    requires
        well_formed(config, document),
    ensures
        run(VisitorState::initial(config), document_events(document)) == Ok::<
            VisitorState,
            ErrorView,
        >(said(config, document)),
{
    let none = Seq::<Leaf>::empty();
    let start = VisitorState::initial(config);
    let enter_event = EventView::Enter { tag: "Event"@, attributes: document.event_attributes };
    let enter_system = EventView::Enter { tag: "System"@, attributes: document.system_attributes };
    let leave_system = EventView::Leave { tag: "System"@ };
    let enter_data = EventView::Enter { tag: "EventData"@, attributes: document.data_attributes };
    let leave_data = EventView::Leave { tag: "EventData"@ };
    let leave_event = EventView::Leave { tag: "Event"@ };
    let in_system = leaves_events(document.system);
    let in_data = leaves_events(document.data);
    lemma_tags_differ();

    // the two elements that open
    let s1 = start.opened("Event"@);
    assert(start.entered("Event"@, document.event_attributes) == Ok::<VisitorState, ErrorView>(s1));
    assert(s1.stack =~= seq!["Event"@]);
    assert(parent_of(s1.stack) == Some("Event"@));
    let s2 = s1.opened("System"@);
    assert(s1.entered("System"@, document.system_attributes) == Ok::<VisitorState, ErrorView>(s2));
    assert(s2.stack =~= system_path());
    assert(none + none =~= none);
    assert(s2 =~= gathered(config, system_path(), none, none));
    lemma_run_one(start, enter_event);
    lemma_run_one(s1, enter_system);
    lemma_run_concat(start, seq![enter_event], seq![enter_system]);
    assert(seq![enter_event] + seq![enter_system] =~= seq![enter_event, enter_system]);

    // inside System
    lemma_system_leaves(config, document.system);
    let s3 = gathered(config, system_path(), document.system, none);
    lemma_run_concat(start, seq![enter_event, enter_system], in_system);

    // from System over to EventData
    let s4 = s3.left();
    assert(s4.stack =~= seq!["Event"@]);
    assert(parent_of(s4.stack) == Some("Event"@));
    let s5 = s4.opened("EventData"@);
    assert(s4.entered("EventData"@, document.data_attributes) == Ok::<VisitorState, ErrorView>(
        s5,
    ));
    assert(s5.stack =~= data_path());
    assert(s5 =~= gathered(config, data_path(), document.system, none));
    lemma_run_one(s3, leave_system);
    lemma_run_one(s4, enter_data);
    lemma_run_concat(s3, seq![leave_system], seq![enter_data]);
    assert(seq![leave_system] + seq![enter_data] =~= seq![leave_system, enter_data]);
    lemma_run_concat(
        start,
        seq![enter_event, enter_system] + in_system,
        seq![leave_system, enter_data],
    );

    // inside EventData
    lemma_data_leaves(config, document.system, document.data);
    let s6 = gathered(config, data_path(), document.system, document.data);
    lemma_run_concat(
        start,
        seq![enter_event, enter_system] + in_system + seq![leave_system, enter_data],
        in_data,
    );

    // the two elements that close
    let s7 = s6.left();
    assert(s7.stack =~= seq!["Event"@]);
    let s8 = s7.left();
    assert(s8.stack =~= Seq::<Seq<char>>::empty());
    assert(s8 =~= said(config, document));
    lemma_run_one(s6, leave_data);
    lemma_run_one(s7, leave_event);
    lemma_run_concat(s6, seq![leave_data], seq![leave_event]);
    assert(seq![leave_data] + seq![leave_event] =~= seq![leave_data, leave_event]);
    lemma_run_concat(
        start,
        seq![enter_event, enter_system] + in_system + seq![leave_system, enter_data] + in_data,
        seq![leave_data, leave_event],
    );
}

/// For every well-formed record that says a provider name, an event id and
/// a creation time (and a channel, where channels are tracked), the
/// extractor yields a record, and that record holds exactly what the source
/// says: the provider name and the event id as they stand, the creation
/// time as its seconds since the epoch. A record that lacks one of them
/// yields the error that names the first one lacking.
pub proof fn lemma_extracted_matches_source(config: ExtractorConfig, document: Document)
    requires
        well_formed(config, document),
    ensures
        extracted(config, document_events(document)) == said(config, document).finished(),
        ({
            let provider = last_reading(Field::Provider, document.system);
            let event_id = last_reading(Field::EventId, document.system + document.data);
            let time = last_reading(Field::CreationTime, document.system);
            let channel = last_reading(Field::Channel, document.system + document.data);
            provider.is_some() && event_id.is_some() && time.is_some() && (config.track_channel
                ==> channel.is_some()) ==> {
                &&& extracted(config, document_events(document)) is Ok
                &&& extracted(config, document_events(document))->Ok_0.provider_name
                    == provider.unwrap()
                &&& extracted(config, document_events(document))->Ok_0.event_id
                    == event_id.unwrap()
                &&& system_time(time.unwrap()) == Ok::<int, TimestampError>(
                    extracted(config, document_events(document))->Ok_0.record_timestamp,
                )
                &&& extracted(config, document_events(document))->Ok_0.payload == collected(
                    document.data,
                )
            }
        }),
{
    lemma_run_gathers_what_the_document_says(config, document);
    lemma_creation_time_is_in_pattern(config, document.system);
}

/// The creation time that well-formed elements say is in the fixed pattern.
pub proof fn lemma_creation_time_is_in_pattern(config: ExtractorConfig, leaves: Seq<Leaf>)
    requires
        forall|i: int| 0 <= i < leaves.len() ==> acceptable(config, #[trigger] leaves[i]),
    ensures
        last_reading(Field::CreationTime, leaves) matches Some(text) ==> system_time(text) is Ok,
    decreases leaves.len(),
{
    if leaves.len() > 0 {
        let front = leaves.drop_last();
        assert(acceptable(config, leaves[leaves.len() - 1]));
        assert forall|i: int| 0 <= i < front.len() implies acceptable(
            config,
            #[trigger] front[i],
        ) by {
            assert(front[i] == leaves[i]);
        }
        lemma_creation_time_is_in_pattern(config, front);
    }
}

} // verus!
