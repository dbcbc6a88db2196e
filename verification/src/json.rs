//! Compact JSON text: string literals as `serde_json` writes them, and
//! objects whose members are strings.

use vstd::prelude::*;
use vstd::string::StringExecFns;
use crate::payload::{Entry, Payload};
use crate::text::{delimiter_free, lemma_concat_delimiter_free, DELIMITER};

verus! {

/// The lower-case character of one hexadecimal digit.
pub open spec fn hex_digit(d: int) -> char {
    if d == 0 {
        '0'
    } else if d == 1 {
        '1'
    } else if d == 2 {
        '2'
    } else if d == 3 {
        '3'
    } else if d == 4 {
        '4'
    } else if d == 5 {
        '5'
    } else if d == 6 {
        '6'
    } else if d == 7 {
        '7'
    } else if d == 8 {
        '8'
    } else if d == 9 {
        '9'
    } else if d == 10 {
        'a'
    } else if d == 11 {
        'b'
    } else if d == 12 {
        'c'
    } else if d == 13 {
        'd'
    } else if d == 14 {
        'e'
    } else {
        'f'
    }
}

/// What stands for one character inside a JSON string literal: a two-letter
/// escape for the quote, the backslash and five control characters, a
/// `\u00..` escape for the other characters below the space, and the
/// character itself otherwise.
pub open spec fn escaped_char(c: char) -> Seq<char> {
    if c == '"' {
        seq!['\\', '"']
    } else if c == '\\' {
        seq!['\\', '\\']
    } else if c == '\u{8}' {
        seq!['\\', 'b']
    } else if c == '\t' {
        seq!['\\', 't']
    } else if c == '\n' {
        seq!['\\', 'n']
    } else if c == '\u{c}' {
        seq!['\\', 'f']
    } else if c == '\r' {
        seq!['\\', 'r']
    } else if (c as u32) < 0x20 {
        seq!['\\', 'u', '0', '0', hex_digit((c as u32) as int / 16), hex_digit((c as u32) as int % 16)]
    } else {
        seq![c]
    }
}

/// The characters of `s`, each escaped, in order.
pub open spec fn escaped(s: Seq<char>) -> Seq<char>
    decreases s.len(),
{
    if s.len() == 0 {
        Seq::<char>::empty()
    } else {
        escaped(s.drop_last()) + escaped_char(s.last())
    }
}

/// `s` as a JSON string literal: escaped, between double quotes.
pub open spec fn quoted(s: Seq<char>) -> Seq<char> {
    seq!['"'] + escaped(s) + seq!['"']
}

/// The members of a JSON object with string values, separated by commas.
pub open spec fn members(entries: Seq<Entry>) -> Seq<char>
    decreases entries.len(),
{
    if entries.len() == 0 {
        Seq::<char>::empty()
    } else {
        let member = quoted(entries.last().0) + seq![':'] + quoted(entries.last().1);
        if entries.len() == 1 {
            member
        } else {
            members(entries.drop_last()) + seq![','] + member
        }
    }
}

/// A JSON object with string values, in compact form.
pub open spec fn object_text(entries: Seq<Entry>) -> Seq<char> {
    seq!['{'] + members(entries) + seq!['}']
}

/// Every key and every value of `entries` is free of delimiters.
pub open spec fn entries_delimiter_free(entries: Seq<Entry>) -> bool {
    forall|i: int|
        0 <= i < entries.len() ==> delimiter_free((#[trigger] entries[i]).0) && delimiter_free(
            entries[i].1,
        )
}

/// Escaping brings no delimiter into a text that had none.
pub proof fn lemma_quoted_delimiter_free(s: Seq<char>)
    requires
        delimiter_free(s),
    ensures
        delimiter_free(escaped(s)),
        delimiter_free(quoted(s)),
    decreases s.len(),
{
    if s.len() > 0 {
        let shorter = s.drop_last();
        assert forall|i: int| 0 <= i < shorter.len() implies shorter[i] != DELIMITER by {
            assert(s.contains(s[i]));
        }
        lemma_quoted_delimiter_free(shorter);
        assert(s.contains(s.last()));
        let e = escaped_char(s.last());
        assert forall|i: int| 0 <= i < e.len() implies e[i] != DELIMITER by {}
        lemma_concat_delimiter_free(escaped(shorter), e);
    }
    let quote = seq!['"'];
    assert forall|i: int| 0 <= i < quote.len() implies quote[i] != DELIMITER by {}
    lemma_concat_delimiter_free(quote, escaped(s));
    lemma_concat_delimiter_free(quote + escaped(s), quote);
}

/// An object over delimiter-free keys and values is free of delimiters.
pub proof fn lemma_object_delimiter_free(entries: Seq<Entry>)
    requires
        entries_delimiter_free(entries),
    ensures
        delimiter_free(members(entries)),
        delimiter_free(object_text(entries)),
    decreases entries.len(),
{
    if entries.len() > 0 {
        let last = entries.last();
        lemma_quoted_delimiter_free(last.0);
        lemma_quoted_delimiter_free(last.1);
        let colon = seq![':'];
        assert forall|i: int| 0 <= i < colon.len() implies colon[i] != DELIMITER by {}
        lemma_concat_delimiter_free(quoted(last.0), colon);
        lemma_concat_delimiter_free(quoted(last.0) + colon, quoted(last.1));
        if entries.len() > 1 {
            let shorter = entries.drop_last();
            assert forall|i: int| 0 <= i < shorter.len() implies delimiter_free(
                (#[trigger] shorter[i]).0,
            ) && delimiter_free(shorter[i].1) by {
                assert(shorter[i] == entries[i]);
            }
            lemma_object_delimiter_free(shorter);
            let comma = seq![','];
            assert forall|i: int| 0 <= i < comma.len() implies comma[i] != DELIMITER by {}
            lemma_concat_delimiter_free(members(shorter), comma);
            lemma_concat_delimiter_free(
                members(shorter) + comma,
                quoted(last.0) + colon + quoted(last.1),
            );
        }
    } else {
        assert(members(entries) =~= Seq::<char>::empty());
    }
    let open = seq!['{'];
    let close = seq!['}'];
    assert forall|i: int| 0 <= i < open.len() implies open[i] != DELIMITER by {}
    assert forall|i: int| 0 <= i < close.len() implies close[i] != DELIMITER by {}
    lemma_concat_delimiter_free(open, members(entries));
    lemma_concat_delimiter_free(open + members(entries), close);
}

/// `serde_json`'s compact text of a string value (`Value::String` through
/// its `Display`): the string between double quotes, where the quote, the
/// backslash and the characters below the space are written as escapes and
/// every other character is written as it is.
#[verifier::external_body]
fn string_literal(s: &str) -> (r: String)
    ensures
        r@ == quoted(s@),
{
    serde_json::Value::from(s).to_string()
}

/// Appends `s` as a JSON string literal to `out`.
pub fn push_quoted(out: &mut String, s: &str)
    ensures
        final(out)@ == old(out)@ + quoted(s@),
{
    let literal = string_literal(s);
    out.append(literal.as_str());
}

/// `s` as a JSON string literal.
pub fn quote(s: &str) -> (r: String)
    ensures
        r@ == quoted(s@),
{
    string_literal(s)
}

/// Appends the payload as a compact JSON object to `out`, its members in
/// order of first arrival.
pub fn push_object(out: &mut String, payload: &Payload)
    ensures
        final(out)@ == old(out)@ + object_text(payload.entries()),
{
    let ghost start = out@;
    let n = payload.len();
    out.push('{');
    let mut i: usize = 0;
    while i < n
        invariant
            i <= n,
            n == payload.entries().len(),
            out@ == start + seq!['{'] + members(payload.entries().take(i as int)),
        decreases n - i,
    {
        let ghost before = payload.entries().take(i as int);
        let ghost upto = payload.entries().take(i + 1);
        let (key, value) = payload.entry_at(i);
        if i > 0 {
            out.push(',');
        }
        push_quoted(out, key.as_str());
        out.push(':');
        push_quoted(out, value.as_str());
        proof {
            assert(upto.drop_last() =~= before);
            assert(upto.last() == payload.entries()[i as int]);
            let member = quoted(key@) + seq![':'] + quoted(value@);
            if i == 0 {
                assert(members(before) =~= Seq::<char>::empty());
                assert(out@ =~= start + seq!['{'] + member);
            } else {
                assert(out@ =~= start + seq!['{'] + (members(before) + seq![','] + member));
            }
        }
        i += 1;
    }
    out.push('}');
    proof {
        assert(payload.entries().take(n as int) =~= payload.entries());
        assert(out@ =~= start + object_text(payload.entries()));
    }
}

} // verus!
