use evtx2bodyfile::timestamp::{
    accept_system_time, iso8601_text, read_system_time, TimestampError,
};

#[test]
fn creation_time_is_read_as_seconds_since_the_epoch() {
    assert_eq!(read_system_time("2021-01-05 10:15:30.123456 UTC"), Ok(1609841730));
    assert_eq!(read_system_time("1970-01-01 00:00:00 UTC"), Ok(0));
    assert_eq!(read_system_time("1969-12-31 23:59:59.500 UTC"), Ok(-1));
    assert_eq!(read_system_time("2016-07-08 18:12:51.681640700 UTC"), Ok(1468001571));
}

#[test]
fn creation_time_outside_the_pattern_is_a_format_error() {
    for text in [
        "",
        "yesterday",
        "2021-01-05T10:15:30Z",
        "2021-13-05 10:15:30 UTC",
        "2021-01-05 25:15:30 UTC",
        "2021-01-05 10:15:30 UTC and more",
    ] {
        assert_eq!(read_system_time(text), Err(TimestampError::Format));
    }
}

#[test]
fn creation_time_that_does_not_come_back_is_a_round_trip_error() {
    for text in [
        "2021-01-05 10:15:30.123456 CET",
        "2021-01-05 10:15:30.1 UTC",
        "2021-01-05 10:15:30.000 UTC",
        "2021-1-5 10:15:30 UTC",
        "2021-01-05  10:15:30 UTC",
        "2021-01-05 10:15:30",
    ] {
        assert_eq!(read_system_time(text), Err(TimestampError::RoundTrip));
    }
}

#[test]
fn formatted_time_reads_back_as_the_same_seconds() {
    for seconds in [0i64, 1, -1, 59, 86_399, 86_400, 951_782_400, 1_609_841_730, 4_102_444_800, -62_135_596_800] {
        for nanos in [0u32, 1_000_000, 123_456_000, 999_999_999] {
            let text = chrono::DateTime::from_timestamp(seconds, nanos)
                .unwrap()
                .format("%Y-%m-%d %H:%M:%S%.f %Z")
                .to_string();
            assert_eq!(read_system_time(&text), Ok(seconds));
        }
    }
}

#[test]
fn acceptance_follows_what_parsing_and_writing_back_gave() {
    assert_eq!(accept_system_time("t", None, None), Err(TimestampError::Format));
    assert_eq!(accept_system_time("t", None, Some("t".to_string())), Err(TimestampError::Format));
    assert_eq!(accept_system_time("t", Some((5, 0)), None), Err(TimestampError::RoundTrip));
    assert_eq!(
        accept_system_time("t", Some((5, 0)), Some("u".to_string())),
        Err(TimestampError::RoundTrip)
    );
    assert_eq!(accept_system_time("t", Some((5, 7)), Some("t".to_string())), Ok(5));
}

#[test]
fn iso8601_text_of_seconds() {
    assert_eq!(iso8601_text(0).as_deref(), Some("1970-01-01T00:00:00Z"));
    assert_eq!(iso8601_text(1609841730).as_deref(), Some("2021-01-05T10:15:30Z"));
    assert_eq!(iso8601_text(-1).as_deref(), Some("1969-12-31T23:59:59Z"));
    assert_eq!(iso8601_text(i64::MAX), None);
    assert_eq!(iso8601_text(i64::MIN), None);
    let expected = chrono::DateTime::from_timestamp(1468001571, 0)
        .unwrap()
        .to_rfc3339_opts(chrono::SecondsFormat::Secs, true);
    assert_eq!(iso8601_text(1468001571), Some(expected));
}
