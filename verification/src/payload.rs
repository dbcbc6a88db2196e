//! The open-ended key/value data of one record: unique keys, kept in the
//! order in which each key first arrived; a later value for a key replaces
//! the earlier one.

use vstd::prelude::*;
use crate::text::str_eq;

verus! {

/// One payload entry as plain text: key, then value.
pub type Entry = (Seq<char>, Seq<char>);

/// The text of one stored entry.
pub open spec fn entry_text(e: (String, String)) -> Entry {
    (e.0@, e.1@)
}

/// The texts of a run of stored entries.
pub open spec fn entries_text(v: Seq<(String, String)>) -> Seq<Entry> {
    v.map_values(|e: (String, String)| entry_text(e))
}

/// No two entries of `s` share a key.
pub open spec fn distinct_keys(s: Seq<Entry>) -> bool {
    forall|i: int, j: int| 0 <= i < j < s.len() ==> (#[trigger] s[i]).0 != (#[trigger] s[j]).0
}

/// Some entry of `s` has the key `key`.
pub open spec fn has_key(s: Seq<Entry>, key: Seq<char>) -> bool {
    exists|i: int| 0 <= i < s.len() && (#[trigger] s[i]).0 == key
}

/// The position of the first entry with the key `key`, or `s.len()` where
/// there is none.
pub open spec fn key_index(s: Seq<Entry>, key: Seq<char>) -> int
    decreases s.len(),
{
    if s.len() == 0 {
        0
    } else if s[0].0 == key {
        0
    } else {
        1 + key_index(s.drop_first(), key)
    }
}

/// The value stored under `key`, if any.
pub open spec fn value_of(s: Seq<Entry>, key: Seq<char>) -> Option<Seq<char>> {
    if has_key(s, key) {
        Some(s[key_index(s, key)].1)
    } else {
        None
    }
}

/// `s` after `(key, value)` arrives: the value replaces the one stored under
/// `key`, in place; a new key goes to the end.
pub open spec fn inserted(s: Seq<Entry>, key: Seq<char>, value: Seq<char>) -> Seq<Entry> {
    if has_key(s, key) {
        s.update(key_index(s, key), (key, value))
    } else {
        s.push((key, value))
    }
}

/// The entries as a mapping from key to value.
pub open spec fn as_map(s: Seq<Entry>) -> Map<Seq<char>, Seq<char>> {
    Map::new(|k: Seq<char>| has_key(s, k), |k: Seq<char>| s[key_index(s, k)].1)
}

/// `key_index` finds the first entry with the key, and only reaches the end
/// where no entry has it.
pub proof fn lemma_key_index(s: Seq<Entry>, key: Seq<char>)
    ensures
        0 <= key_index(s, key) <= s.len(),
        has_key(s, key) <==> key_index(s, key) < s.len(),
        key_index(s, key) < s.len() ==> s[key_index(s, key)].0 == key,
        forall|i: int| 0 <= i < key_index(s, key) ==> (#[trigger] s[i]).0 != key,
    decreases s.len(),
{
    if s.len() == 0 {
    } else if s[0].0 == key {
    } else {
        let rest = s.drop_first();
        lemma_key_index(rest, key);
        let k = key_index(rest, key);
        assert forall|i: int| 0 <= i < 1 + k implies (#[trigger] s[i]).0 != key by {
            if i > 0 {
                assert(rest[i - 1] == s[i]);
            }
        }
        if has_key(s, key) {
            let w = choose|i: int| 0 <= i < s.len() && (#[trigger] s[i]).0 == key;
            assert(rest[w - 1] == s[w]);
        }
        if k < rest.len() {
            assert(s[1 + k] == rest[k]);
        }
    }
}

/// Where the first `n` entries lack the key and entry `n` has it (or `n` is
/// the end), `n` is the key's index.
pub proof fn lemma_key_index_is(s: Seq<Entry>, key: Seq<char>, n: int)
    requires
        0 <= n <= s.len(),
        forall|i: int| 0 <= i < n ==> (#[trigger] s[i]).0 != key,
        n < s.len() ==> s[n].0 == key,
    ensures
        key_index(s, key) == n,
        has_key(s, key) <==> n < s.len(),
{
    lemma_key_index(s, key);
    let k = key_index(s, key);
    if k < n {
        assert(s[k].0 != key);
    }
}

/// Inserting keeps the keys unique, stores the value under the key and
/// leaves every other key as it was.
pub proof fn lemma_inserted(s: Seq<Entry>, key: Seq<char>, value: Seq<char>)
    requires
        distinct_keys(s),
    ensures
        distinct_keys(inserted(s, key, value)),
        as_map(inserted(s, key, value)) == as_map(s).insert(key, value),
        value_of(inserted(s, key, value), key) == Some(value),
        forall|other: Seq<char>|
            other != key ==> value_of(inserted(s, key, value), other) == value_of(s, other),
{
    let t = inserted(s, key, value);
    lemma_key_index(s, key);
    let k = key_index(s, key);
    assert(t[k] == (key, value));
    assert(has_key(t, key));
    assert(distinct_keys(t)) by {
        assert forall|i: int, j: int| 0 <= i < j < t.len() implies (#[trigger] t[i]).0 != (
        #[trigger] t[j]).0 by {
            if has_key(s, key) {
                if i == k {
                    assert(s[i].0 == key);
                    assert(s[j].0 != s[i].0);
                } else if j == k {
                    assert(s[j].0 == key);
                    assert(s[i].0 != s[j].0);
                } else {
                    assert(s[i].0 != s[j].0);
                }
            } else {
                if j == s.len() {
                    assert(s[i].0 != key);
                } else {
                    assert(s[i].0 != s[j].0);
                }
            }
        }
    }
    assert forall|other: Seq<char>| true implies (has_key(t, other) <==> (other == key || has_key(
        s,
        other,
    ))) && (other != key && has_key(s, other) ==> t[key_index(t, other)].1 == s[key_index(
        s,
        other,
    )].1) && (other == key ==> t[key_index(t, other)].1 == value) by {
        lemma_key_index(s, other);
        lemma_key_index(t, other);
        let ks = key_index(s, other);
        let kt = key_index(t, other);
        if other == key {
            lemma_key_index_is(t, key, k);
        } else {
            if has_key(s, other) {
                assert(ks != k);
                assert(t[ks] == s[ks]);
                assert forall|i: int| 0 <= i < ks implies (#[trigger] t[i]).0 != other by {
                    if i != k {
                        assert(t[i] == s[i]);
                    }
                }
                lemma_key_index_is(t, other, ks);
            }
            if has_key(t, other) {
                assert(kt != k);
                assert(kt < s.len());
                assert(t[kt] == s[kt]);
                assert(has_key(s, other));
            }
        }
    }
    assert(as_map(t) =~= as_map(s).insert(key, value));
    assert forall|other: Seq<char>| other != key implies value_of(t, other) == value_of(
        s,
        other,
    ) by {}
}

/// Feeding the same key and value twice leaves the payload as it was after
/// the first time: one entry for the key, holding the value.
pub proof fn lemma_insert_idempotent(s: Seq<Entry>, key: Seq<char>, value: Seq<char>)
    requires
        distinct_keys(s),
    ensures
        inserted(inserted(s, key, value), key, value) == inserted(s, key, value),
        as_map(inserted(inserted(s, key, value), key, value)) == as_map(s).insert(key, value),
{
    let t = inserted(s, key, value);
    lemma_inserted(s, key, value);
    lemma_key_index(s, key);
    lemma_key_index(t, key);
    let k = key_index(s, key);
    assert(t[k] == (key, value));
    lemma_key_index_is(t, key, k);
    assert(inserted(t, key, value) =~= t);
}

/// Of two values fed for one key, the later one stays.
pub proof fn lemma_insert_last_wins(
    s: Seq<Entry>,
    key: Seq<char>,
    first: Seq<char>,
    second: Seq<char>,
)
    requires
        distinct_keys(s),
    ensures
        inserted(inserted(s, key, first), key, second) == inserted(s, key, second),
{
    let t = inserted(s, key, first);
    lemma_inserted(s, key, first);
    lemma_key_index(s, key);
    let k = key_index(s, key);
    assert(t[k] == (key, first));
    lemma_key_index_is(t, key, k);
    assert(inserted(t, key, second) =~= inserted(s, key, second));
}

/// The key/value payload of one record.
#[derive(Debug)]
pub struct Payload {
    entries: Vec<(String, String)>,
}

impl Payload {
    /// The entries in order of first arrival.
    pub closed spec fn entries(&self) -> Seq<Entry> {
        entries_text(self.entries@)
    }

    /// Every payload keeps its keys unique.
    #[verifier::type_invariant]
    pub open spec fn unique(self) -> bool {
        distinct_keys(self.entries())
    }

    /// A payload without entries.
    pub fn new() -> (r: Self)
        ensures
            r.entries() == Seq::<Entry>::empty(),
    {
        let r = Payload { entries: Vec::new() };
        assert(entries_text(r.entries@) =~= Seq::<Entry>::empty());
        r
    }

    /// The number of entries.
    pub fn len(&self) -> (n: usize)
        ensures
            n == self.entries().len(),
    {
        self.entries.len()
    }

    fn position(&self, key: &str) -> (n: usize)
        ensures
            n == key_index(self.entries(), key@),
            n <= self.entries().len(),
            has_key(self.entries(), key@) <==> n < self.entries().len(),
    {
        let mut i: usize = 0;
        while i < self.entries.len()
            invariant
                i <= self.entries.len(),
                forall|j: int| 0 <= j < i ==> (#[trigger] self.entries()[j]).0 != key@,
            decreases self.entries.len() - i,
        {
            if str_eq(self.entries[i].0.as_str(), key) {
                proof {
                    lemma_key_index_is(self.entries(), key@, i as int);
                }
                return i;
            }
            i += 1;
        }
        proof {
            lemma_key_index_is(self.entries(), key@, i as int);
        }
        i
    }

    /// The value stored under `key`, if any.
    pub fn get(&self, key: &str) -> (r: Option<&String>)
        ensures
            match r {
                Some(v) => value_of(self.entries(), key@) == Some(v@),
                None => value_of(self.entries(), key@).is_none(),
            },
    {
        let n = self.position(key);
        if n < self.entries.len() {
            Some(&self.entries[n].1)
        } else {
            None
        }
    }

    /// The key and the value at position `i`, in order of first arrival;
    /// `None` where the payload has no such position.
    pub fn entry(&self, i: usize) -> (r: Option<(&String, &String)>)
        ensures
            match r {
                Some(e) => i < self.entries().len() && (e.0@, e.1@) == self.entries()[i as int],
                None => i >= self.entries().len(),
            },
    {
        if i < self.entries.len() {
            Some(self.entry_at(i))
        } else {
            None
        }
    }

    /// The key and the value at a position that the payload has.
    pub(crate) fn entry_at(&self, i: usize) -> (r: (&String, &String))
        requires
            i < self.entries().len(),
        ensures
            (r.0@, r.1@) == self.entries()[i as int],
    {
        (&self.entries[i].0, &self.entries[i].1)
    }

    /// Stores `value` under `key`. A value already stored under `key` is
    /// replaced, in place; a new key goes to the end.
    pub fn insert(&mut self, key: String, value: String)
        ensures
            final(self).entries() == inserted(old(self).entries(), key@, value@),
    {
        proof {
            use_type_invariant(&*self);
            lemma_inserted(self.entries(), key@, value@);
        }
        let n = self.position(key.as_str());
        let mut entries: Vec<(String, String)> = Vec::new();
        core::mem::swap(&mut self.entries, &mut entries);
        if n < entries.len() {
            entries.set(n, (key, value));
        } else {
            entries.push((key, value));
        }
        assert(entries_text(entries@) =~= inserted(old(self).entries(), key@, value@));
        self.entries = entries;
    }
}

impl Clone for Payload {
    /// A payload with the same entries in the same order.
    fn clone(&self) -> (r: Self)
        ensures
            r.entries() == self.entries(),
    {
        proof {
            use_type_invariant(self);
        }
        let mut entries: Vec<(String, String)> = Vec::new();
        let mut i: usize = 0;
        while i < self.entries.len()
            invariant
                i <= self.entries.len(),
                entries@.len() == i,
                entries_text(entries@) == entries_text(self.entries@.take(i as int)),
            decreases self.entries.len() - i,
        {
            let ghost before = entries@;
            let key = self.entries[i].0.clone();
            let value = self.entries[i].1.clone();
            entries.push((key, value));
            proof {
                let copied = entries_text(entries@);
                let wanted = entries_text(self.entries@.take(i + 1));
                assert forall|j: int| 0 <= j < copied.len() implies copied[j] == wanted[j] by {
                    if j < i {
                        assert(copied[j] == entries_text(before)[j]);
                        assert(wanted[j] == entries_text(self.entries@.take(i as int))[j]);
                    }
                }
                assert(copied =~= wanted);
            }
            i += 1;
        }
        assert(self.entries@.take(i as int) =~= self.entries@);
        Payload { entries }
    }
}

} // verus!
