//! The normalized record that the extractor yields, and its two renderings:
//! a bodyfile line and a JSON document.

use vstd::prelude::*;
use vstd::string::StringExecFns;
use crate::bodyfileline::{lemma_line_pieces, BodyfileLine, BodyfileLineView};
use crate::json::{
    entries_delimiter_free, lemma_object_delimiter_free, object_text, push_object, push_quoted,
    quoted,
};
use crate::payload::{Entry, Payload};
use crate::text::{
    decimal, delimiter_free, lemma_concat_delimiter_free, push_decimal_u64, split, DELIMITER,
};
use crate::timestamp::{iso8601, iso8601_text};

verus! {

/// What a normalized record holds.
#[verifier::ext_equal]
pub struct RecordView {
    pub record_timestamp: int,
    pub event_id: Seq<char>,
    pub provider_name: Seq<char>,
    pub channel_name: Option<Seq<char>>,
    pub activity_id: Option<Seq<char>>,
    pub payload: Seq<Entry>,
}

/// A text where there is one, the given word otherwise.
pub open spec fn text_or(value: Option<Seq<char>>, word: Seq<char>) -> Seq<char> {
    match value {
        Some(text) => text,
        None => word,
    }
}

/// A JSON string literal where there is a text, `null` otherwise.
pub open spec fn quoted_or_null(value: Option<Seq<char>>) -> Seq<char> {
    match value {
        Some(text) => quoted(text),
        None => "null"@,
    }
}

impl RecordView {
    /// The channel part of the summary: present where a channel is tracked.
    pub open spec fn channel_part(self) -> Seq<char> {
        match self.channel_name {
            Some(channel) => "Channel="@ + channel + ", "@,
            None => Seq::<char>::empty(),
        }
    }

    /// The one-line summary that becomes the name field of the bodyfile
    /// line: channel (where tracked), provider, event id, the payload as a
    /// compact JSON object, and the activity id or the word `None`.
    pub open spec fn summary(self) -> Seq<char> {
        self.channel_part() + "Provider="@ + self.provider_name + "(EventID="@ + self.event_id
            + "): Data="@ + object_text(self.payload) + " ActivityId="@ + text_or(
            self.activity_id,
            "None"@,
        )
    }

    /// The bodyfile line of the record.
    pub open spec fn bodyfile_line(self) -> BodyfileLineView {
        BodyfileLineView::of(self.summary(), self.record_timestamp)
    }

    /// No text of the record holds a delimiter.
    pub open spec fn delimiter_free(self) -> bool {
        &&& delimiter_free(text_or(self.channel_name, Seq::<char>::empty()))
        &&& delimiter_free(self.provider_name)
        &&& delimiter_free(self.event_id)
        &&& delimiter_free(text_or(self.activity_id, Seq::<char>::empty()))
        &&& entries_delimiter_free(self.payload)
    }

    /// The JSON document of the record, given the ISO-8601 text of its
    /// timestamp: the known fields under their names, an absent channel or
    /// activity id as `null`, and the payload as an object under
    /// `custom_data`.
    pub open spec fn json_with(self, event_record_id: int, timestamp: Seq<char>) -> Seq<char> {
        "{\"event_record_id\":"@ + decimal(event_record_id) + ",\"timestamp\":"@ + quoted(timestamp)
            + ",\"event_id\":"@ + quoted(self.event_id) + ",\"provider_name\":"@ + quoted(
            self.provider_name,
        ) + ",\"channel_name\":"@ + quoted_or_null(self.channel_name) + ",\"activity_id\":"@
            + quoted_or_null(self.activity_id) + ",\"custom_data\":"@ + object_text(self.payload)
            + "}"@
    }

    /// The JSON document of the record, where its timestamp has an ISO-8601
    /// text.
    pub open spec fn json(self, event_record_id: int) -> Option<Seq<char>> {
        match iso8601(self.record_timestamp) {
            Some(timestamp) => Some(self.json_with(event_record_id, timestamp)),
            None => None,
        }
    }
}

/// The summary of a record without delimiters holds none.
pub proof fn lemma_summary_delimiter_free(record: RecordView)
    requires
        record.delimiter_free(),
    ensures
        delimiter_free(record.summary()),
{
    reveal_strlit("Channel=");
    reveal_strlit(", ");
    reveal_strlit("Provider=");
    reveal_strlit("(EventID=");
    reveal_strlit("): Data=");
    reveal_strlit(" ActivityId=");
    reveal_strlit("None");
    let a = record.channel_part();
    assert(delimiter_free(a)) by {
        match record.channel_name {
            Some(channel) => {
                assert forall|i: int| 0 <= i < "Channel="@.len() implies "Channel="@[i]
                    != DELIMITER by {}
                assert forall|i: int| 0 <= i < ", "@.len() implies ", "@[i] != DELIMITER by {}
                lemma_concat_delimiter_free("Channel="@, channel);
                lemma_concat_delimiter_free("Channel="@ + channel, ", "@);
            },
            None => {},
        }
    }
    assert forall|i: int| 0 <= i < "Provider="@.len() implies "Provider="@[i] != DELIMITER by {}
    assert forall|i: int| 0 <= i < "(EventID="@.len() implies "(EventID="@[i] != DELIMITER by {}
    assert forall|i: int| 0 <= i < "): Data="@.len() implies "): Data="@[i] != DELIMITER by {}
    assert forall|i: int| 0 <= i < " ActivityId="@.len() implies " ActivityId="@[i]
        != DELIMITER by {}
    assert forall|i: int| 0 <= i < "None"@.len() implies "None"@[i] != DELIMITER by {}
    lemma_object_delimiter_free(record.payload);
    let b = a + "Provider="@;
    lemma_concat_delimiter_free(a, "Provider="@);
    let c = b + record.provider_name;
    lemma_concat_delimiter_free(b, record.provider_name);
    let d = c + "(EventID="@;
    lemma_concat_delimiter_free(c, "(EventID="@);
    let e = d + record.event_id;
    lemma_concat_delimiter_free(d, record.event_id);
    let f = e + "): Data="@;
    lemma_concat_delimiter_free(e, "): Data="@);
    let g = f + object_text(record.payload);
    lemma_concat_delimiter_free(f, object_text(record.payload));
    let h = g + " ActivityId="@;
    lemma_concat_delimiter_free(g, " ActivityId="@);
    let tail = text_or(record.activity_id, "None"@);
    assert(delimiter_free(tail));
    lemma_concat_delimiter_free(h, tail);
}

/// The bodyfile line of every record ends in four pieces that all hold the
/// record's timestamp. Where no text of the record holds a delimiter, the
/// line has exactly eleven pieces, the second of which is the summary.
pub proof fn lemma_bodyfile_line_pieces(record: RecordView)
    ensures
        record.bodyfile_line().pieces().len() >= 11,
        record.bodyfile_line().pieces().skip(record.bodyfile_line().pieces().len() - 4) == seq![
            decimal(record.record_timestamp),
            decimal(record.record_timestamp),
            decimal(record.record_timestamp),
            decimal(record.record_timestamp),
        ],
        record.delimiter_free() ==> record.bodyfile_line().pieces().len() == 11
            && record.bodyfile_line().pieces() == record.bodyfile_line().fields()
            && record.bodyfile_line().pieces()[1] == record.summary(),
{
    let line = record.bodyfile_line();
    lemma_line_pieces(line);
    assert forall|i: int| 0 <= i < line.md5.len() implies line.md5[i] != DELIMITER by {}
    assert forall|i: int| 0 <= i < line.mode_as_string.len() implies line.mode_as_string[i]
        != DELIMITER by {}
    if record.delimiter_free() {
        lemma_summary_delimiter_free(record);
    }
}

/// One record in normalized form.
#[derive(Debug)]
pub struct NormalizedRecord {
    /// Seconds since the epoch, UTC.
    pub record_timestamp: i64,
    /// The event identifier, as text.
    pub event_id: String,
    /// The name of the provider.
    pub provider_name: String,
    /// The channel, where channels are tracked.
    pub channel_name: Option<String>,
    /// The activity id, where the record has one.
    pub activity_id: Option<String>,
    /// The key/value data of the event.
    pub payload: Payload,
}

/// The text of an optional string.
pub open spec fn option_text(value: Option<String>) -> Option<Seq<char>> {
    match value {
        Some(text) => Some(text@),
        None => None,
    }
}

impl View for NormalizedRecord {
    type V = RecordView;

    open spec fn view(&self) -> RecordView {
        RecordView {
            record_timestamp: self.record_timestamp as int,
            event_id: self.event_id@,
            provider_name: self.provider_name@,
            channel_name: option_text(self.channel_name),
            activity_id: option_text(self.activity_id),
            payload: self.payload.entries(),
        }
    }
}

impl NormalizedRecord {
    /// The summary of the record, which becomes the name field of its
    /// bodyfile line.
    pub fn summary(&self) -> (r: String)
        ensures
            r@ == self@.summary(),
    {
        let mut out = String::new();
        match &self.channel_name {
            Some(channel) => {
                out.append("Channel=");
                out.append(channel.as_str());
                out.append(", ");
            },
            None => {},
        }
        assert(out@ =~= self@.channel_part());
        out.append("Provider=");
        out.append(self.provider_name.as_str());
        out.append("(EventID=");
        out.append(self.event_id.as_str());
        out.append("): Data=");
        push_object(&mut out, &self.payload);
        out.append(" ActivityId=");
        match &self.activity_id {
            Some(activity_id) => {
                out.append(activity_id.as_str());
            },
            None => {
                out.append("None");
            },
        }
        out
    }

    /// The bodyfile line of the record: the summary as name, the record's
    /// timestamp in all four time fields.
    pub fn to_bodyfile_line(&self) -> (r: BodyfileLine)
        ensures
            r@ == self@.bodyfile_line(),
    {
        BodyfileLine::new(self.summary(), self.record_timestamp)
    }

    /// The text of the record's bodyfile line. Its last four pieces all hold
    /// the record's timestamp; it has exactly eleven pieces where no text of
    /// the record holds a delimiter.
    pub fn render_bodyfile(&self) -> (r: String)
        ensures
            r@ == self@.bodyfile_line().text(),
            split(r@, DELIMITER).len() >= 11,
            split(r@, DELIMITER).skip(split(r@, DELIMITER).len() - 4)
                == seq![
                decimal(self.record_timestamp as int),
                decimal(self.record_timestamp as int),
                decimal(self.record_timestamp as int),
                decimal(self.record_timestamp as int),
            ],
            self@.delimiter_free() ==> split(r@, DELIMITER).len() == 11,
    {
        proof {
            lemma_bodyfile_line_pieces(self@);
        }
        self.to_bodyfile_line().render()
    }

    /// The JSON document of the record, on one line, with `timestamp` as
    /// the text of its timestamp.
    pub fn to_json_with(&self, event_record_id: u64, timestamp: &str) -> (r: String)
        ensures
            r@ == self@.json_with(event_record_id as int, timestamp@),
    {
        let mut out = String::new();
        out.append("{\"event_record_id\":");
        push_decimal_u64(&mut out, event_record_id);
        out.append(",\"timestamp\":");
        push_quoted(&mut out, timestamp);
        out.append(",\"event_id\":");
        push_quoted(&mut out, self.event_id.as_str());
        out.append(",\"provider_name\":");
        push_quoted(&mut out, self.provider_name.as_str());
        out.append(",\"channel_name\":");
        match &self.channel_name {
            Some(channel) => {
                push_quoted(&mut out, channel.as_str());
            },
            None => {
                out.append("null");
            },
        }
        out.append(",\"activity_id\":");
        match &self.activity_id {
            Some(activity_id) => {
                push_quoted(&mut out, activity_id.as_str());
            },
            None => {
                out.append("null");
            },
        }
        out.append(",\"custom_data\":");
        push_object(&mut out, &self.payload);
        out.append("}");
        assert(out@ =~= self@.json_with(event_record_id as int, timestamp@));
        out
    }

    /// The JSON document of the record, on one line, with the ISO-8601 text
    /// of its timestamp; `None` where the timestamp lies outside the dates
    /// that have such a text.
    pub fn to_json(&self, event_record_id: u64) -> (r: Option<String>)
        ensures
            match r {
                Some(text) => self@.json(event_record_id as int) == Some(text@),
                None => self@.json(event_record_id as int).is_none(),
            },
    {
        match iso8601_text(self.record_timestamp) {
            Some(timestamp) => Some(self.to_json_with(event_record_id, timestamp.as_str())),
            None => None,
        }
    }
}

} // verus!
