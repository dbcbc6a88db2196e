use evtx2bodyfile::bodyfilevisitor::{attr_find, BodyfileVisitor, ExtractorConfig};
use evtx2bodyfile::driver::{decide, process_record, Action, DriftPolicy, OutputFormat};
use evtx2bodyfile::error::ExtractError;
use evtx2bodyfile::stream::{extract, Event};
use evtx2bodyfile::timestamp::TimestampError;

fn attrs(pairs: &[(&str, &str)]) -> Vec<(String, String)> {
    pairs.iter().map(|(k, v)| (k.to_string(), v.to_string())).collect()
}

fn enter(tag: &str, pairs: &[(&str, &str)]) -> Event {
    Event::Enter { tag: tag.to_string(), attributes: attrs(pairs) }
}

fn text(value: &str) -> Event {
    Event::Text { value: value.to_string() }
}

fn leave(tag: &str) -> Event {
    Event::Leave { tag: tag.to_string() }
}

fn full() -> ExtractorConfig {
    ExtractorConfig::extended()
}

/// The events of a record as the decoder emits them.
fn record(
    provider: Option<&str>,
    event_id: Option<&str>,
    time: Option<&str>,
    channel: Option<&str>,
    activity: Option<&str>,
    data: &[(Option<&str>, &str)],
) -> Vec<Event> {
    let mut events = vec![enter("Event", &[("xmlns", "http://schemas.microsoft.com/win/2004/08/events/event")])];
    events.push(enter("System", &[]));
    if let Some(provider) = provider {
        events.push(enter("Provider", &[("Guid", "{A68CA8B7}"), ("Name", provider)]));
        events.push(leave("Provider"));
    }
    if let Some(event_id) = event_id {
        events.push(enter("EventID", &[("Qualifiers", "0")]));
        events.push(text(event_id));
        events.push(leave("EventID"));
    }
    events.push(enter("Version", &[]));
    events.push(text("0"));
    events.push(leave("Version"));
    if let Some(time) = time {
        events.push(enter("TimeCreated", &[("SystemTime", time)]));
        events.push(leave("TimeCreated"));
    }
    match activity {
        Some(id) => events.push(enter("Correlation", &[("ActivityID", id)])),
        None => events.push(enter("Correlation", &[])),
    }
    events.push(leave("Correlation"));
    if let Some(channel) = channel {
        events.push(enter("Channel", &[]));
        events.push(text(channel));
        events.push(leave("Channel"));
    }
    events.push(leave("System"));
    events.push(enter("EventData", &[]));
    for (key, value) in data {
        match key {
            Some(key) => events.push(enter("Data", &[("Name", key)])),
            None => events.push(enter("Data", &[])),
        }
        events.push(text(value));
        events.push(leave("Data"));
    }
    events.push(leave("EventData"));
    events.push(leave("Event"));
    events
}

const TIME: &str = "2021-01-05 10:15:30.123456 UTC";
const SECONDS: i64 = 1609841730;

fn kernel_general() -> Vec<Event> {
    record(
        Some("Microsoft-Windows-Kernel-General"),
        Some("12"),
        Some(TIME),
        Some("System"),
        None,
        &[(Some("ProcessID"), "4")],
    )
}

#[test]
fn extracts_the_fields_of_a_well_formed_record() {
    let record = extract(full(), &kernel_general()).unwrap();
    assert_eq!(record.provider_name, "Microsoft-Windows-Kernel-General");
    assert_eq!(record.event_id, "12");
    assert_eq!(record.record_timestamp, SECONDS);
    assert_eq!(record.channel_name.as_deref(), Some("System"));
    assert_eq!(record.activity_id, None);
    assert_eq!(record.payload.len(), 1);
    assert_eq!(record.payload.get("ProcessID").map(|v| v.as_str()), Some("4"));
}

#[test]
fn kernel_general_record_renders_its_summary() {
    let record = extract(full(), &kernel_general()).unwrap();
    assert_eq!(
        record.summary(),
        "Channel=System, Provider=Microsoft-Windows-Kernel-General(EventID=12): Data={\"ProcessID\":\"4\"} ActivityId=None"
    );
    let line = record.render_bodyfile();
    let fields: Vec<&str> = line.split('|').collect();
    assert_eq!(fields.len(), 11);
    assert_eq!(fields[1], record.summary());
    for i in 7..11 {
        assert_eq!(fields[i], "1609841730");
    }
    assert_eq!(
        line,
        "0|Channel=System, Provider=Microsoft-Windows-Kernel-General(EventID=12): Data={\"ProcessID\":\"4\"} ActivityId=None|0|0|0|0|0|1609841730|1609841730|1609841730|1609841730"
    );
}

#[test]
fn record_without_provider_is_skipped_and_the_next_is_emitted() {
    let batch = vec![
        record(None, Some("12"), Some(TIME), Some("System"), None, &[]),
        kernel_general(),
    ];
    let mut emitted = Vec::new();
    let mut skipped = 0;
    let mut aborted = false;
    for (id, events) in batch.iter().enumerate() {
        match decide(
            process_record(full(), events, OutputFormat::Bodyfile, id as u64),
            DriftPolicy::Fail,
        ) {
            Action::Emit { line } => emitted.push(line),
            Action::Skip { warning } => {
                assert_eq!(warning, "missing provider name");
                skipped += 1;
            }
            Action::Abort { .. } => aborted = true,
        }
    }
    assert!(!aborted);
    assert_eq!(skipped, 1);
    assert_eq!(emitted.len(), 1);
    assert!(emitted[0].contains("Provider=Microsoft-Windows-Kernel-General(EventID=12)"));
}

#[test]
fn delimiter_in_a_payload_value_is_replaced() {
    let events = record(
        Some("P"),
        Some("1"),
        Some(TIME),
        Some("C"),
        None,
        &[(Some("Path"), "C:\\Users\\a|b")],
    );
    let record = extract(full(), &events).unwrap();
    assert_eq!(record.payload.get("Path").map(|v| v.as_str()), Some("C:\\Users\\a§b"));
    let line = record.render_bodyfile();
    assert_eq!(line.split('|').count(), 11);
    assert!(line.contains("\"Path\":\"C:\\\\Users\\\\a§b\""));
}

#[test]
fn same_key_and_value_twice_is_one_entry() {
    let once = record(Some("P"), Some("1"), Some(TIME), Some("C"), None, &[(Some("k"), "v")]);
    let twice = record(
        Some("P"),
        Some("1"),
        Some(TIME),
        Some("C"),
        None,
        &[(Some("k"), "v"), (Some("k"), "v")],
    );
    let a = extract(full(), &once).unwrap();
    let b = extract(full(), &twice).unwrap();
    assert_eq!(b.payload.len(), 1);
    assert_eq!(b.payload.get("k").map(|v| v.as_str()), Some("v"));
    assert_eq!(a.render_bodyfile(), b.render_bodyfile());
}

#[test]
fn later_value_for_a_key_wins_and_keeps_its_place() {
    let events = record(
        Some("P"),
        Some("1"),
        Some(TIME),
        Some("C"),
        None,
        &[(Some("a"), "1"), (Some("b"), "2"), (Some("a"), "3")],
    );
    let record = extract(full(), &events).unwrap();
    assert_eq!(record.payload.len(), 2);
    let first = record.payload.entry(0).unwrap();
    assert_eq!((first.0.as_str(), first.1.as_str()), ("a", "3"));
    let second = record.payload.entry(1).unwrap();
    assert_eq!((second.0.as_str(), second.1.as_str()), ("b", "2"));
    assert!(record.summary().contains("Data={\"a\":\"3\",\"b\":\"2\"}"));
}

#[test]
fn data_without_name_is_filed_under_binary() {
    let events = record(Some("P"), Some("1"), Some(TIME), Some("C"), None, &[(None, "00FF")]);
    let record = extract(full(), &events).unwrap();
    assert_eq!(record.payload.get("binary").map(|v| v.as_str()), Some("00FF"));
}

#[test]
fn empty_text_adds_no_entry() {
    let events = record(Some("P"), Some("1"), Some(TIME), Some("C"), None, &[(Some("k"), "")]);
    let record = extract(full(), &events).unwrap();
    assert_eq!(record.payload.len(), 0);
    assert!(record.summary().contains("Data={}"));
}

#[test]
fn activity_id_is_collected_where_present() {
    let events = record(
        Some("P"),
        Some("1"),
        Some(TIME),
        Some("C"),
        Some("{1B2C}"),
        &[],
    );
    let record = extract(full(), &events).unwrap();
    assert_eq!(record.activity_id.as_deref(), Some("{1B2C}"));
    assert!(record.summary().ends_with(" ActivityId={1B2C}"));
}

#[test]
fn minimal_variant_tracks_neither_channel_nor_activity_id() {
    let config = ExtractorConfig::minimal();
    assert_eq!(
        config,
        ExtractorConfig { track_channel: false, track_activity_id: false, require_attributes: true }
    );
    assert_eq!(
        ExtractorConfig::extended(),
        ExtractorConfig { track_channel: true, track_activity_id: true, require_attributes: true }
    );
    let events = record(Some("P"), Some("1"), Some(TIME), Some("C"), Some("{1B2C}"), &[]);
    let record = extract(config, &events).unwrap();
    assert_eq!(record.channel_name, None);
    assert_eq!(record.activity_id, None);
    assert_eq!(record.summary(), "Provider=P(EventID=1): Data={} ActivityId=None");
}

#[test]
fn missing_mandatory_fields_are_reported_in_order() {
    let none: Vec<Event> = Vec::new();
    assert!(matches!(extract(full(), &none), Err(ExtractError::MissingRoot)));
    let other_root = vec![enter("Other", &[]), leave("Other")];
    assert!(matches!(extract(full(), &other_root), Err(ExtractError::MissingRoot)));
    let r = record(None, None, None, None, None, &[]);
    assert!(matches!(extract(full(), &r), Err(ExtractError::MissingProvider)));
    let r = record(Some("P"), None, None, None, None, &[]);
    assert!(matches!(extract(full(), &r), Err(ExtractError::MissingEventId)));
    let r = record(Some("P"), Some("1"), None, None, None, &[]);
    assert!(matches!(extract(full(), &r), Err(ExtractError::MissingTimestamp)));
    let r = record(Some("P"), Some("1"), Some(TIME), None, None, &[]);
    assert!(matches!(extract(full(), &r), Err(ExtractError::MissingChannel)));
    let config =
        ExtractorConfig { track_channel: false, track_activity_id: true, require_attributes: true };
    assert!(extract(config, &r).is_ok());
}

#[test]
fn provider_without_name_is_an_error_only_when_attributes_are_required() {
    let events = vec![
        enter("Event", &[]),
        enter("System", &[]),
        enter("Provider", &[("Guid", "{A}")]),
        leave("Provider"),
        leave("System"),
        leave("Event"),
    ];
    match extract(full(), &events) {
        Err(ExtractError::MissingAttribute { key }) => assert_eq!(key, "Name"),
        _ => panic!("expected a missing attribute"),
    }
    let lenient =
        ExtractorConfig { track_channel: true, track_activity_id: true, require_attributes: false };
    assert!(matches!(extract(lenient, &events), Err(ExtractError::MissingProvider)));
}

#[test]
fn unparsable_creation_time_is_fatal() {
    let events = record(Some("P"), Some("1"), Some("yesterday"), Some("C"), None, &[]);
    let outcome = process_record(full(), &events, OutputFormat::Bodyfile, 1);
    match &outcome {
        Err(ExtractError::TimestampFormat { value }) => assert_eq!(value, "yesterday"),
        _ => panic!("expected a format error"),
    }
    assert!(outcome.as_ref().err().unwrap().is_fatal());
    assert!(outcome.as_ref().err().unwrap().ends_run(DriftPolicy::Continue));
    match decide(outcome, DriftPolicy::Continue) {
        Action::Abort { message } => assert_eq!(message, "error while parsing 'yesterday'"),
        _ => panic!("expected the run to end"),
    }
}

#[test]
fn creation_time_that_is_written_differently_is_fatal() {
    let events =
        record(Some("P"), Some("1"), Some("2021-01-05 10:15:30.1234560 UTC"), Some("C"), None, &[]);
    match extract(full(), &events) {
        Err(e) => {
            assert!(matches!(e, ExtractError::TimestampRoundTrip { .. }));
            assert!(e.is_fatal());
        }
        Ok(_) => panic!("expected a round trip error"),
    }
    let other_zone =
        record(Some("P"), Some("1"), Some("2021-01-05 10:15:30.123456 CET"), Some("C"), None, &[]);
    assert!(matches!(extract(full(), &other_zone), Err(ExtractError::TimestampRoundTrip { .. })));
}

#[test]
fn written_differently_skips_the_record_where_the_policy_says_so() {
    let drifted =
        record(Some("P"), Some("1"), Some("2021-01-05 10:15:30.1 UTC"), Some("C"), None, &[]);
    let outcome = process_record(full(), &drifted, OutputFormat::Bodyfile, 1);
    assert!(!outcome.as_ref().err().unwrap().ends_run(DriftPolicy::Continue));
    assert!(outcome.as_ref().err().unwrap().ends_run(DriftPolicy::Fail));
    match decide(outcome, DriftPolicy::Continue) {
        Action::Skip { warning } => assert_eq!(
            warning,
            "'2021-01-05 10:15:30.1 UTC' is not written the way its instant is formatted"
        ),
        _ => panic!("expected the record to be skipped"),
    }
    let outcome = process_record(full(), &drifted, OutputFormat::Bodyfile, 1);
    assert!(matches!(decide(outcome, DriftPolicy::Fail), Action::Abort { .. }));
}

#[test]
fn elements_elsewhere_change_nothing() {
    let mut visitor = BodyfileVisitor::new();
    // a provider that is not directly under System
    visitor.visit_start_element("Event", &attrs(&[])).unwrap();
    visitor.visit_start_element("UserData", &attrs(&[])).unwrap();
    visitor.visit_start_element("Provider", &attrs(&[("Name", "elsewhere")])).unwrap();
    visitor.visit_characters("text");
    visitor.visit_end_element("Provider");
    visitor.visit_end_element("UserData");
    visitor.visit_end_element("Event");
    assert!(matches!(visitor.get_result(), Err(ExtractError::MissingProvider)));
}

#[test]
fn closing_an_element_ends_the_wait_for_a_value() {
    let mut visitor = BodyfileVisitor::new();
    visitor.start_record();
    visitor.visit_start_element("Event", &attrs(&[])).unwrap();
    visitor.visit_start_element("System", &attrs(&[])).unwrap();
    visitor.visit_start_element("Provider", &attrs(&[("Name", "P")])).unwrap();
    visitor.visit_end_element("Provider");
    visitor.visit_start_element("TimeCreated", &attrs(&[("SystemTime", TIME)])).unwrap();
    visitor.visit_end_element("TimeCreated");
    visitor.visit_end_element("System");
    visitor.visit_start_element("EventData", &attrs(&[])).unwrap();
    visitor.visit_start_element("Data", &attrs(&[("Name", "k")])).unwrap();
    visitor.visit_end_element("Data");
    // this text belongs to no key any more
    visitor.visit_characters("stray");
    visitor.visit_end_element("EventData");
    visitor.visit_start_element("System", &attrs(&[])).unwrap();
    visitor.visit_start_element("EventID", &attrs(&[])).unwrap();
    visitor.visit_characters("7");
    visitor.visit_end_element("EventID");
    visitor.visit_start_element("Channel", &attrs(&[])).unwrap();
    visitor.visit_characters("C");
    visitor.visit_end_element("Channel");
    visitor.visit_end_element("System");
    visitor.visit_end_element("Event");
    // one more than was opened: nothing to take off
    visitor.visit_end_element("Event");
    visitor.finalize_record();
    let record = visitor.get_result().unwrap();
    assert_eq!(record.payload.len(), 0);
    assert_eq!(record.event_id, "7");
    assert_eq!(record.channel_name.as_deref(), Some("C"));
}

#[test]
fn waiting_key_takes_the_text_before_the_event_id_does() {
    let mut visitor = BodyfileVisitor::new();
    visitor.visit_start_element("Event", &attrs(&[])).unwrap();
    visitor.visit_start_element("EventData", &attrs(&[])).unwrap();
    visitor.visit_start_element("Data", &attrs(&[("Name", "k")])).unwrap();
    visitor.visit_start_element("EventID", &attrs(&[])).unwrap();
    visitor.visit_characters("v");
    visitor.visit_characters("9");
    let mut events = vec![
        enter("Event", &[]),
        enter("EventData", &[]),
        enter("Data", &[("Name", "k")]),
        enter("EventID", &[]),
        text("v"),
        text("9"),
        leave("EventID"),
        leave("Data"),
        leave("EventData"),
    ];
    events.extend(vec![
        enter("System", &[]),
        enter("Provider", &[("Name", "P")]),
        leave("Provider"),
        enter("TimeCreated", &[("SystemTime", TIME)]),
        leave("TimeCreated"),
        enter("Channel", &[]),
        text("C"),
        leave("Channel"),
        leave("System"),
        leave("Event"),
    ]);
    let record = extract(full(), &events).unwrap();
    assert_eq!(record.payload.get("k").map(|v| v.as_str()), Some("v"));
    assert_eq!(record.event_id, "9");
}

#[test]
fn first_of_equal_attribute_names_counts() {
    let attributes = attrs(&[("Name", "first"), ("Other", "x"), ("Name", "second")]);
    assert_eq!(attr_find(&attributes, "Name").ok(), Some("first"));
    assert_eq!(attr_find(&attributes, "Other").ok(), Some("x"));
    match attr_find(&attributes, "Missing") {
        Err(e) => {
            assert!(matches!(&e, ExtractError::MissingAttribute { key } if key == "Missing"));
            assert_eq!(e.message(), "no value found for key 'Missing'");
            assert!(!e.is_fatal());
        }
        Ok(_) => panic!("expected no value"),
    }
}

#[test]
fn creation_time_without_value_is_passed_over_when_attributes_are_not_required() {
    let lenient =
        ExtractorConfig { track_channel: false, track_activity_id: true, require_attributes: false };
    let events = vec![
        enter("Event", &[]),
        enter("System", &[]),
        enter("Provider", &[("Name", "P")]),
        leave("Provider"),
        enter("TimeCreated", &[("SystemTime", TIME)]),
        leave("TimeCreated"),
        enter("TimeCreated", &[]),
        leave("TimeCreated"),
        enter("EventID", &[]),
        text("1"),
        leave("EventID"),
        leave("System"),
        leave("Event"),
    ];
    let record = extract(lenient, &events).unwrap();
    assert_eq!(record.record_timestamp, SECONDS);
    match extract(ExtractorConfig::minimal(), &events) {
        Err(ExtractError::MissingAttribute { key }) => assert_eq!(key, "SystemTime"),
        _ => panic!("expected a missing attribute"),
    }
}

#[test]
fn every_error_has_a_message() {
    let cases = vec![
        (ExtractError::MissingAttribute { key: "Name".to_string() }, "no value found for key 'Name'", false),
        (ExtractError::TimestampFormat { value: "x".to_string() }, "error while parsing 'x'", true),
        (
            ExtractError::TimestampRoundTrip { value: "x".to_string() },
            "'x' is not written the way its instant is formatted",
            true,
        ),
        (ExtractError::MissingRoot, "missing 'Event' element", false),
        (ExtractError::MissingProvider, "missing provider name", false),
        (ExtractError::MissingEventId, "missing event id", false),
        (ExtractError::MissingTimestamp, "missing creation time", false),
        (ExtractError::MissingChannel, "missing channel name", false),
        (ExtractError::TimestampRange { seconds: -5 }, "no ISO-8601 text for time -5", false),
    ];
    for (error, message, fatal) in cases {
        assert_eq!(error.message(), message);
        assert_eq!(error.is_fatal(), fatal);
        assert_eq!(error.ends_run(DriftPolicy::Fail), fatal);
        match decide(Err(error), DriftPolicy::Fail) {
            Action::Abort { message: text } => {
                assert!(fatal);
                assert_eq!(text, message);
            }
            Action::Skip { warning } => {
                assert!(!fatal);
                assert_eq!(warning, message);
            }
            Action::Emit { .. } => panic!("an error gives no line"),
        }
    }
    match decide(Ok("line".to_string()), DriftPolicy::Fail) {
        Action::Emit { line } => assert_eq!(line, "line"),
        _ => panic!("a line is written"),
    }
}

#[test]
fn outcome_of_reading_the_creation_time_is_taken_over() {
    let mut visitor = BodyfileVisitor::new();
    visitor.visit_start_element("Event", &attrs(&[])).unwrap();
    visitor.visit_start_element("System", &attrs(&[])).unwrap();
    visitor.visit_start_element("Provider", &attrs(&[("Name", "P")])).unwrap();
    visitor.visit_end_element("Provider");
    visitor.visit_start_element("EventID", &attrs(&[])).unwrap();
    visitor.visit_characters("1");
    visitor.visit_end_element("EventID");
    visitor.visit_start_element("Channel", &attrs(&[])).unwrap();
    visitor.visit_characters("C");
    visitor.visit_end_element("Channel");
    assert_eq!(visitor.get_result().err(), Some(ExtractError::MissingTimestamp));
    assert_eq!(
        visitor.set_creation_time("a text", Err(TimestampError::Format)),
        Err(ExtractError::TimestampFormat { value: "a text".to_string() })
    );
    assert_eq!(
        visitor.set_creation_time("a text", Err(TimestampError::RoundTrip)),
        Err(ExtractError::TimestampRoundTrip { value: "a text".to_string() })
    );
    assert_eq!(visitor.get_result().err(), Some(ExtractError::MissingTimestamp));
    assert_eq!(visitor.set_creation_time("a text", Ok(-77)), Ok(()));
    assert_eq!(visitor.get_result().unwrap().record_timestamp, -77);
}

#[test]
fn json_output_of_a_record() {
    let line = process_record(full(), &kernel_general(), OutputFormat::Json, 4711).unwrap();
    assert_eq!(
        line,
        "{\"event_record_id\":4711,\"timestamp\":\"2021-01-05T10:15:30Z\",\"event_id\":\"12\",\"provider_name\":\"Microsoft-Windows-Kernel-General\",\"channel_name\":\"System\",\"activity_id\":null,\"custom_data\":{\"ProcessID\":\"4\"}}"
    );
}
