//! Character-level helpers shared by the extractor and the formatters:
//! equality of string slices, delimiter sanitisation, decimal rendering and
//! the field structure of a delimited line.

use vstd::prelude::*;
use vstd::std_specs::iter::IteratorSpec;
use vstd::string::StringSliceAdditionalSpecFns;

verus! {

/// The character that separates the fields of a bodyfile line.
pub const DELIMITER: char = '|';

/// The character that stands in for a delimiter found inside collected text.
pub const PLACEHOLDER: char = '§';

/// `String::push` appends exactly one character and leaves the rest of the
/// string as it was.
pub assume_specification[ String::push ](s: &mut String, ch: char)
    ensures
        final(s)@ == old(s)@.push(ch),
;

/// Two string slices are equal when they hold the same characters.
pub fn str_eq(a: &str, b: &str) -> (r: bool)
    ensures
        r == (a@ == b@),
{
    let x = a.as_bytes();
    let y = b.as_bytes();
    proof {
        vstd::utf8::encode_utf8_decode_utf8(a@);
        vstd::utf8::encode_utf8_decode_utf8(b@);
    }
    if x.len() != y.len() {
        return false;
    }
    let mut i: usize = 0;
    while i < x.len()
        invariant
            i <= x.len(),
            x.len() == y.len(),
            x@ == a.spec_bytes(),
            y@ == b.spec_bytes(),
            vstd::utf8::decode_utf8(a.spec_bytes()) == a@,
            vstd::utf8::decode_utf8(b.spec_bytes()) == b@,
            forall|j: int| 0 <= j < i ==> x@[j] == y@[j],
        decreases x.len() - i,
    {
        if x[i] != y[i] {
            return false;
        }
        i += 1;
    }
    assert(x@ =~= y@);
    true
}

/// `s` with every occurrence of `from` replaced by `to`.
pub open spec fn replaced(s: Seq<char>, from: char, to: char) -> Seq<char> {
    Seq::new(s.len(), |i: int| if s[i] == from { to } else { s[i] })
}

/// `s` with every delimiter replaced by the placeholder.
pub open spec fn sanitized(s: Seq<char>) -> Seq<char> {
    replaced(s, DELIMITER, PLACEHOLDER)
}

/// `s` holds no delimiter.
pub open spec fn delimiter_free(s: Seq<char>) -> bool {
    !s.contains(DELIMITER)
}

/// Sanitising removes every delimiter, whatever the input holds.
pub proof fn lemma_sanitized_is_delimiter_free(s: Seq<char>)
    ensures
        delimiter_free(sanitized(s)),
        sanitized(s).len() == s.len(),
        delimiter_free(s) ==> sanitized(s) == s,
{
    let t = sanitized(s);
    assert forall|i: int| 0 <= i < t.len() implies t[i] != DELIMITER by {}
    if delimiter_free(s) {
        assert forall|i: int| 0 <= i < s.len() implies t[i] == s[i] by {
            assert(s.contains(s[i]));
        }
        assert(t =~= s);
    }
}

/// Joining two delimiter-free texts gives a delimiter-free text.
pub proof fn lemma_concat_delimiter_free(a: Seq<char>, b: Seq<char>)
    requires
        delimiter_free(a),
        delimiter_free(b),
    ensures
        delimiter_free(a + b),
{
    let c = a + b;
    assert forall|i: int| 0 <= i < c.len() implies c[i] != DELIMITER by {
        if i < a.len() {
            assert(a.contains(a[i]));
        } else {
            assert(b.contains(b[i - a.len()]));
        }
    }
}

/// Copies `value`, replacing every `from` by `to`.
pub fn replace_char(value: &str, from: char, to: char) -> (r: String)
    ensures
        r@ == replaced(value@, from, to),
{
    let mut out = String::new();
    let mut chars = value.chars();
    let ghost mut done: int = 0;
    loop
        invariant_except_break
            0 <= done <= value@.len(),
            chars.remaining() == value@.skip(done),
            out@ == replaced(value@.take(done), from, to),
        ensures
            out@ == replaced(value@, from, to),
        decreases value@.len() - done,
    {
        match chars.next() {
            Some(c) => {
                out.push(if c == from { to } else { c });
                proof {
                    done = done + 1;
                }
            },
            None => {
                assert(value@.take(done) =~= value@);
                break ;
            },
        }
    }
    out
}

/// Replaces every delimiter in `value` by the placeholder. The result never
/// holds a delimiter; the replacement is not reversible.
pub fn sanitize(value: &str) -> (r: String)
    ensures
        r@ == sanitized(value@),
        delimiter_free(r@),
        r@.len() == value@.len(),
{
    proof {
        lemma_sanitized_is_delimiter_free(value@);
    }
    replace_char(value, DELIMITER, PLACEHOLDER)
}

/// The character of one decimal digit.
pub open spec fn digit_char(d: int) -> char {
    if d == 0 {
        '0'
    } else if d == 1 {
        '1'
    } else if d == 2 {
        '2'
    } else if d == 3 {
        '3'
    } else if d == 4 {
        '4'
    } else if d == 5 {
        '5'
    } else if d == 6 {
        '6'
    } else if d == 7 {
        '7'
    } else if d == 8 {
        '8'
    } else {
        '9'
    }
}

/// The decimal digits of a natural number, most significant first, without
/// leading zeros.
pub open spec fn decimal_nat(n: nat) -> Seq<char>
    decreases n,
{
    if n < 10 {
        seq![digit_char(n as int)]
    } else {
        decimal_nat(n / 10).push(digit_char((n % 10) as int))
    }
}

/// The decimal text of an integer: a minus sign for negative numbers, then
/// the digits of its magnitude.
pub open spec fn decimal(n: int) -> Seq<char> {
    if n < 0 {
        seq!['-'] + decimal_nat((-n) as nat)
    } else {
        decimal_nat(n as nat)
    }
}

/// Decimal text is made of digits and at most a sign, so it holds no
/// delimiter and is never empty.
pub proof fn lemma_decimal_nat_is_delimiter_free(n: nat)
    ensures
        delimiter_free(decimal_nat(n)),
        decimal_nat(n).len() >= 1,
    decreases n,
{
    if n >= 10 {
        lemma_decimal_nat_is_delimiter_free(n / 10);
        let head = decimal_nat(n / 10);
        let all = decimal_nat(n);
        assert forall|i: int| 0 <= i < all.len() implies all[i] != DELIMITER by {
            if i < head.len() {
                assert(head.contains(head[i]));
            }
        }
    }
}

/// See [`lemma_decimal_nat_is_delimiter_free`]; the sign is no delimiter
/// either.
pub proof fn lemma_decimal_is_delimiter_free(n: int)
    ensures
        delimiter_free(decimal(n)),
        decimal(n).len() >= 1,
{
    if n < 0 {
        lemma_decimal_nat_is_delimiter_free((-n) as nat);
        let digits = decimal_nat((-n) as nat);
        let all = decimal(n);
        assert forall|i: int| 0 <= i < all.len() implies all[i] != DELIMITER by {
            if i >= 1 {
                assert(digits.contains(digits[i - 1]));
            }
        }
    } else {
        lemma_decimal_nat_is_delimiter_free(n as nat);
    }
}

fn digit(d: u64) -> (c: char)
    requires
        d < 10,
    ensures
        c == digit_char(d as int),
{
    if d == 0 {
        '0'
    } else if d == 1 {
        '1'
    } else if d == 2 {
        '2'
    } else if d == 3 {
        '3'
    } else if d == 4 {
        '4'
    } else if d == 5 {
        '5'
    } else if d == 6 {
        '6'
    } else if d == 7 {
        '7'
    } else if d == 8 {
        '8'
    } else {
        '9'
    }
}

/// Appends the decimal digits of `n` to `out`.
pub fn push_decimal_u64(out: &mut String, n: u64)
    ensures
        final(out)@ == old(out)@ + decimal_nat(n as nat),
    decreases n,
{
    if n >= 10 {
        push_decimal_u64(out, n / 10);
    }
    out.push(digit(n % 10));
    assert(final(out)@ =~= old(out)@ + decimal_nat(n as nat));
}

/// Appends the decimal text of `n` to `out`.
pub fn push_decimal_i64(out: &mut String, n: i64)
    ensures
        final(out)@ == old(out)@ + decimal(n as int),
{
    if n < 0 {
        out.push('-');
        let magnitude: u64 = ((-(n + 1)) as u64) + 1;
        push_decimal_u64(out, magnitude);
        assert(final(out)@ =~= old(out)@ + decimal(n as int));
    } else {
        push_decimal_u64(out, n as u64);
    }
}

/// The pieces of `s` between occurrences of `sep`. A text without `sep` is
/// one piece; each `sep` starts a new, possibly empty, piece.
pub open spec fn split(s: Seq<char>, sep: char) -> Seq<Seq<char>>
    decreases s.len(),
{
    if s.len() == 0 {
        seq![Seq::<char>::empty()]
    } else {
        let before = split(s.drop_last(), sep);
        if s.last() == sep {
            before.push(Seq::<char>::empty())
        } else {
            before.update(before.len() - 1, before.last().push(s.last()))
        }
    }
}

/// A split always yields at least one piece.
pub proof fn lemma_split_nonempty(s: Seq<char>, sep: char)
    ensures
        split(s, sep).len() >= 1,
    decreases s.len(),
{
    if s.len() > 0 {
        lemma_split_nonempty(s.drop_last(), sep);
    }
}

/// Text after the last separator is the last piece: appending `sep` and a
/// separator-free `tail` to `head` adds `tail` as one more piece.
pub proof fn lemma_split_append(head: Seq<char>, sep: char, tail: Seq<char>)
    requires
        !tail.contains(sep),
    ensures
        split(head + seq![sep] + tail, sep) == split(head, sep).push(tail),
    decreases tail.len(),
{
    let whole = head + seq![sep] + tail;
    lemma_split_nonempty(head, sep);
    if tail.len() == 0 {
        assert(whole.drop_last() =~= head);
        assert(tail =~= Seq::<char>::empty());
    } else {
        let shorter = tail.drop_last();
        assert forall|i: int| 0 <= i < shorter.len() implies shorter[i] != sep by {
            assert(tail.contains(tail[i]));
        }
        lemma_split_append(head, sep, shorter);
        assert(whole.drop_last() =~= head + seq![sep] + shorter);
        assert(tail.contains(tail.last()));
        let before = split(head, sep).push(shorter);
        assert(before.update(before.len() - 1, before.last().push(tail.last())) =~= split(
            head,
            sep,
        ).push(tail)) by {
            assert(shorter.push(tail.last()) =~= tail);
        }
    }
}

/// A text without separator is a single piece.
pub proof fn lemma_split_single(s: Seq<char>, sep: char)
    requires
        !s.contains(sep),
    ensures
        split(s, sep) == seq![s],
    decreases s.len(),
{
    if s.len() == 0 {
        assert(s =~= Seq::<char>::empty());
    } else {
        let shorter = s.drop_last();
        assert forall|i: int| 0 <= i < shorter.len() implies shorter[i] != sep by {
            assert(s.contains(s[i]));
        }
        lemma_split_single(shorter, sep);
        assert(s.contains(s.last()));
        assert(shorter.push(s.last()) =~= s);
        assert(seq![shorter].update(0, shorter.push(s.last())) =~= seq![s]);
    }
}

} // verus!
