use evtx2bodyfile::bodyfileline::BodyfileLine;
use evtx2bodyfile::driver::{render, OutputFormat};
use evtx2bodyfile::error::ExtractError;
use evtx2bodyfile::json::quote;
use evtx2bodyfile::payload::Payload;
use evtx2bodyfile::record::NormalizedRecord;

fn sample(timestamp: i64, pairs: &[(&str, &str)]) -> NormalizedRecord {
    let mut payload = Payload::new();
    for (key, value) in pairs {
        payload.insert(key.to_string(), value.to_string());
    }
    NormalizedRecord {
        record_timestamp: timestamp,
        event_id: "4624".to_string(),
        provider_name: "Microsoft-Windows-Security-Auditing".to_string(),
        channel_name: Some("Security".to_string()),
        activity_id: Some("{ABCD}".to_string()),
        payload,
    }
}

#[test]
fn bodyfile_line_has_eleven_fields_and_four_equal_times() {
    let line = BodyfileLine::new("some name".to_string(), 1609841730);
    assert_eq!(line.name(), "some name");
    assert_eq!(line.crtime(), 1609841730);
    assert_eq!(
        line.render(),
        "0|some name|0|0|0|0|0|1609841730|1609841730|1609841730|1609841730"
    );
}

#[test]
fn bodyfile_line_renders_extreme_times_in_decimal() {
    for time in [0i64, -1, 9, 10, -10, 100, 1234567890, i64::MAX, i64::MIN, i64::MIN + 1] {
        let text = BodyfileLine::new(String::new(), time).render();
        let expected = format!("0||0|0|0|0|0|{0}|{0}|{0}|{0}", time);
        assert_eq!(text, expected);
    }
}

#[test]
fn last_four_fields_are_the_timestamp_even_with_delimiters_in_the_name() {
    let mut record = sample(-42, &[("k", "v")]);
    record.provider_name = "a|b".to_string();
    let line = record.render_bodyfile();
    let fields: Vec<&str> = line.split('|').collect();
    assert_eq!(fields.len(), 12);
    assert_eq!(&fields[fields.len() - 4..], ["-42", "-42", "-42", "-42"]);
    assert_eq!(fields[0], "0");
}

#[test]
fn summary_combines_all_parts() {
    let record = sample(1, &[("TargetUserName", "alice"), ("LogonType", "3")]);
    assert_eq!(
        record.summary(),
        "Channel=Security, Provider=Microsoft-Windows-Security-Auditing(EventID=4624): Data={\"TargetUserName\":\"alice\",\"LogonType\":\"3\"} ActivityId={ABCD}"
    );
    let line = record.to_bodyfile_line();
    assert_eq!(line.name(), record.summary());
    assert_eq!(line.crtime(), 1);
}

#[test]
fn json_document_has_the_known_keys_and_the_payload_nested() {
    let record = sample(1609841730, &[("TargetUserName", "al\"ice"), ("Path", "C:\\x")]);
    let text = record.to_json(99).unwrap();
    let value: serde_json::Value = serde_json::from_str(&text).unwrap();
    let object = value.as_object().unwrap();
    let keys: Vec<&str> = object.keys().map(|k| k.as_str()).collect();
    assert_eq!(
        keys,
        [
            "event_record_id",
            "timestamp",
            "event_id",
            "provider_name",
            "channel_name",
            "activity_id",
            "custom_data"
        ]
    );
    assert_eq!(object["event_record_id"].as_u64(), Some(99));
    assert_eq!(object["timestamp"].as_str(), Some("2021-01-05T10:15:30Z"));
    assert_eq!(object["event_id"].as_str(), Some("4624"));
    assert_eq!(object["provider_name"].as_str(), Some("Microsoft-Windows-Security-Auditing"));
    assert_eq!(object["channel_name"].as_str(), Some("Security"));
    assert_eq!(object["activity_id"].as_str(), Some("{ABCD}"));
    let custom = object["custom_data"].as_object().unwrap();
    assert_eq!(custom.len(), 2);
    assert_eq!(custom["TargetUserName"].as_str(), Some("al\"ice"));
    assert_eq!(custom["Path"].as_str(), Some("C:\\x"));
    assert!(!text.contains('\n'));
}

#[test]
fn json_document_with_a_given_timestamp_text() {
    let record = sample(5, &[("k", "v")]);
    assert_eq!(
        record.to_json_with(7, "some \"time\""),
        "{\"event_record_id\":7,\"timestamp\":\"some \\\"time\\\"\",\"event_id\":\"4624\",\"provider_name\":\"Microsoft-Windows-Security-Auditing\",\"channel_name\":\"Security\",\"activity_id\":\"{ABCD}\",\"custom_data\":{\"k\":\"v\"}}"
    );
}

#[test]
fn json_document_writes_null_for_absent_fields() {
    let mut record = sample(0, &[]);
    record.channel_name = None;
    record.activity_id = None;
    assert_eq!(
        record.to_json(u64::MAX).unwrap(),
        "{\"event_record_id\":18446744073709551615,\"timestamp\":\"1970-01-01T00:00:00Z\",\"event_id\":\"4624\",\"provider_name\":\"Microsoft-Windows-Security-Auditing\",\"channel_name\":null,\"activity_id\":null,\"custom_data\":{}}"
    );
}

#[test]
fn json_document_needs_a_timestamp_that_can_be_written() {
    let record = sample(i64::MAX, &[]);
    assert_eq!(record.to_json(1), None);
    match render(&record, OutputFormat::Json, 1) {
        Err(e) => {
            assert!(matches!(e, ExtractError::TimestampRange { seconds: i64::MAX }));
            assert!(!e.is_fatal());
            assert_eq!(e.message(), "no ISO-8601 text for time 9223372036854775807");
        }
        Ok(_) => panic!("expected no document"),
    }
    assert!(render(&record, OutputFormat::Bodyfile, 1).is_ok());
}

/// The escape of one character, written out independently.
fn escape(c: char) -> String {
    match c {
        '"' => "\\\"".to_string(),
        '\\' => "\\\\".to_string(),
        '\u{8}' => "\\b".to_string(),
        '\t' => "\\t".to_string(),
        '\n' => "\\n".to_string(),
        '\u{c}' => "\\f".to_string(),
        '\r' => "\\r".to_string(),
        c if (c as u32) < 0x20 => {
            let digits = ['0', '1', '2', '3', '4', '5', '6', '7', '8', '9', 'a', 'b', 'c', 'd', 'e', 'f'];
            let code = c as usize;
            let mut out = "\\u00".to_string();
            out.push(digits[code / 16]);
            out.push(digits[code % 16]);
            out
        }
        c => c.to_string(),
    }
}

#[test]
fn string_literal_escapes_every_character_as_stated() {
    let mut code = 0u32;
    while code <= 0x10FFFF {
        if let Some(c) = char::from_u32(code) {
            let expected = format!("\"{}\"", escape(c));
            assert_eq!(quote(&c.to_string()), expected);
        }
        code += if code < 0x3000 { 1 } else { 0x101 };
    }
}

#[test]
fn string_literal_of_a_mixed_text() {
    assert_eq!(quote(""), "\"\"");
    assert_eq!(quote("plain"), "\"plain\"");
    assert_eq!(quote("a\"b\\c\nd\u{1}e\u{1f}§|/"), "\"a\\\"b\\\\c\\nd\\u0001e\\u001f§|/\"");
    let text = "tab\there \u{7f} é 日本 \u{10000}";
    let expected: String = text.chars().map(escape).collect();
    assert_eq!(quote(text), format!("\"{}\"", expected));
    assert_eq!(quote(text), serde_json::to_string(text).unwrap());
}
