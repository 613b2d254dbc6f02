//! A mapping from text to text, kept in key order: the labels of a sample,
//! and the descriptions of the registry's metric names.
//!
//! However the entries were put in, equal mappings hold equal sequences of
//! entries, so two label sets are the same set exactly if their views are
//! equal.

use vstd::prelude::*;
use vstd::string::*;
use crate::text::{
    lemma_text_lt_irreflexive, lemma_text_lt_total, lemma_text_lt_transitive, place_text, text_lt,
    Placement,
};

verus! {

/// One entry of a mapping as the contracts see it: key, then value.
pub type Entry = (Seq<char>, Seq<char>);

/// No key occurs twice, and the entries stand in the order of their keys.
pub open spec fn entries_sorted(s: Seq<Entry>) -> bool {
    forall|i: int, j: int| 0 <= i < j < s.len() ==> text_lt(#[trigger] s[i].0, #[trigger] s[j].0)
}

/// The index of the first entry whose key does not precede `key`: where the
/// entry for `key` stands, or would stand.
pub open spec fn position(s: Seq<Entry>, key: Seq<char>) -> int
    decreases s.len(),
{
    if s.len() == 0 || !text_lt(s[0].0, key) {
        0
    } else {
        1 + position(s.drop_first(), key)
    }
}

/// Whether the mapping has an entry for `key`.
pub open spec fn has_key(s: Seq<Entry>, key: Seq<char>) -> bool {
    position(s, key) < s.len() && s[position(s, key)].0 == key
}

/// The value that the mapping gives for `key`.
pub open spec fn lookup(s: Seq<Entry>, key: Seq<char>) -> Option<Seq<char>> {
    if has_key(s, key) {
        Some(s[position(s, key)].1)
    } else {
        None
    }
}

/// The mapping with `key` set to `value`: the entry for `key` replaced, or a
/// new one put in at its place in key order.
pub open spec fn with_entry(s: Seq<Entry>, key: Seq<char>, value: Seq<char>) -> Seq<Entry> {
    if has_key(s, key) {
        s.update(position(s, key), (key, value))
    } else {
        s.insert(position(s, key), (key, value))
    }
}

/// The order on single entries: by key, then by value.
pub open spec fn entry_lt(a: Entry, b: Entry) -> bool {
    text_lt(a.0, b.0) || (a.0 == b.0 && text_lt(a.1, b.1))
}

/// Lexicographic order on sequences of entries: the first differing entry
/// decides, and a proper prefix precedes what extends it.
pub open spec fn entries_lt(a: Seq<Entry>, b: Seq<Entry>) -> bool
    decreases a.len(),
{
    if b.len() == 0 {
        false
    } else if a.len() == 0 {
        true
    } else if a[0] != b[0] {
        entry_lt(a[0], b[0])
    } else {
        entries_lt(a.drop_first(), b.drop_first())
    }
}

/// Where `a` stands relative to `b` in the order on sequences of entries.
pub open spec fn entries_placement(a: Seq<Entry>, b: Seq<Entry>) -> Placement {
    if entries_lt(a, b) {
        Placement::Before
    } else if a == b {
        Placement::Same
    } else {
        Placement::After
    }
}

/// `position` stays within the sequence, every entry in front of it has a key
/// that precedes `key`, and the entry at it has not.
pub proof fn lemma_position(s: Seq<Entry>, key: Seq<char>)
    ensures
        0 <= position(s, key) <= s.len(),
        forall|j: int| 0 <= j < position(s, key) ==> text_lt(#[trigger] s[j].0, key),
        position(s, key) < s.len() ==> !text_lt(s[position(s, key)].0, key),
    decreases s.len(),
{
    if s.len() > 0 && text_lt(s[0].0, key) {
        let t = s.drop_first();
        lemma_position(t, key);
        assert forall|j: int| 0 <= j < position(s, key) implies text_lt(#[trigger] s[j].0, key) by {
            if j > 0 {
                assert(s[j] == t[j - 1]);
            }
        }
    }
}

/// Once the first `n` keys are known to precede `key`, the position can be
/// counted from there.
pub proof fn lemma_position_skip(s: Seq<Entry>, key: Seq<char>, n: int)
    requires
        0 <= n <= s.len(),
        forall|j: int| 0 <= j < n ==> text_lt(#[trigger] s[j].0, key),
    ensures
        position(s, key) == n + position(s.skip(n), key),
    decreases n,
{
    if n == 0 {
        assert(s.skip(0) =~= s);
    } else {
        let t = s.drop_first();
        lemma_position_skip(t, key, n - 1);
        assert(t.skip(n - 1) =~= s.skip(n));
    }
}

/// Setting a key keeps the entries in key order.
pub proof fn lemma_with_entry_sorted(s: Seq<Entry>, key: Seq<char>, value: Seq<char>)
    requires
        entries_sorted(s),
    ensures
        entries_sorted(with_entry(s, key, value)),
{
    let p = position(s, key);
    let r = with_entry(s, key, value);
    lemma_position(s, key);
    if !has_key(s, key) {
        assert forall|i: int, j: int| 0 <= i < j < r.len() implies text_lt(
            #[trigger] r[i].0,
            #[trigger] r[j].0,
        ) by {
            if i == p {
                lemma_text_lt_total(s[p].0, key);
                if j - 1 > p {
                    lemma_text_lt_transitive(key, s[p].0, s[j - 1].0);
                }
            }
        }
    }
}

/// The index up to which every key precedes `key`, and at which the key
/// does not, is the position of `key`.
pub proof fn lemma_position_is(s: Seq<Entry>, key: Seq<char>, n: int)
    requires
        0 <= n <= s.len(),
        forall|j: int| 0 <= j < n ==> text_lt(#[trigger] s[j].0, key),
        n < s.len() ==> !text_lt(s[n].0, key),
    ensures
        position(s, key) == n,
{
    lemma_position_skip(s, key, n);
}

/// A key that was set has the value it was set to.
pub proof fn lemma_with_entry_found(s: Seq<Entry>, key: Seq<char>, value: Seq<char>)
    requires
        entries_sorted(s),
    ensures
        lookup(with_entry(s, key, value), key) == Some(value),
{
    let p = position(s, key);
    let r = with_entry(s, key, value);
    lemma_position(s, key);
    lemma_text_lt_irreflexive(key);
    lemma_position_is(r, key, p);
}

/// Setting a key changes the value of no other key.
pub proof fn lemma_with_entry_others(
    s: Seq<Entry>,
    key: Seq<char>,
    value: Seq<char>,
    other: Seq<char>,
)
    requires
        entries_sorted(s),
        other != key,
    ensures
        lookup(with_entry(s, key, value), other) == lookup(s, other),
{
    let p = position(s, key);
    let q = position(s, other);
    let r = with_entry(s, key, value);
    lemma_position(s, key);
    lemma_position(s, other);
    lemma_text_lt_total(other, key);
    if has_key(s, key) {
        lemma_position_is(r, other, q);
    } else if text_lt(other, key) {
        if q > p {
            lemma_text_lt_transitive(s[p].0, other, key);
        }
        if q == p && p < s.len() {
            lemma_text_lt_total(s[p].0, key);
            lemma_text_lt_irreflexive(other);
        }
        lemma_position_is(r, other, q);
    } else {
        if p > q {
            lemma_text_lt_total(s[q].0, other);
            if s[q].0 != other {
                lemma_text_lt_transitive(other, s[q].0, key);
            }
        }
        lemma_position_is(r, other, q + 1);
    }
}

/// In an ordered sequence each key has the value that stands with it.
pub proof fn lemma_lookup_member(s: Seq<Entry>, index: int)
    requires
        entries_sorted(s),
        0 <= index < s.len(),
    ensures
        position(s, s[index].0) == index,
        lookup(s, s[index].0) == Some(s[index].1),
{
    lemma_text_lt_irreflexive(s[index].0);
    lemma_position_is(s, s[index].0, index);
}

/// Without its last entry, an ordered sequence gives every key but the last
/// the value it gave before, and the last key none.
pub proof fn lemma_lookup_drop_last(s: Seq<Entry>, key: Seq<char>)
    requires
        entries_sorted(s),
        s.len() > 0,
    ensures
        lookup(s.drop_last(), key) == (if key == s.last().0 {
            None
        } else {
            lookup(s, key)
        }),
{
    let t = s.drop_last();
    let n = s.len() as int;
    let p = position(s, key);
    lemma_position(s, key);
    lemma_text_lt_irreflexive(key);
    if p < n - 1 {
        lemma_position_is(t, key, p);
    } else {
        lemma_position_is(t, key, n - 1);
    }
}

/// Two ordered sequences that give every key the same value are the same
/// sequence: a mapping has one way only to stand in key order.
pub proof fn lemma_same_lookups_same_entries(a: Seq<Entry>, b: Seq<Entry>)
    requires
        entries_sorted(a),
        entries_sorted(b),
        forall|key: Seq<char>| #[trigger] lookup(a, key) == lookup(b, key),
    ensures
        a == b,
    decreases a.len(),
{
    if a.len() == 0 || b.len() == 0 {
        // A key of the one that is not empty would be a key of the other.
        if a.len() > 0 {
            lemma_lookup_member(a, 0);
            assert(lookup(a, a[0].0) == lookup(b, a[0].0));
        }
        if b.len() > 0 {
            lemma_lookup_member(b, 0);
            assert(lookup(a, b[0].0) == lookup(b, b[0].0));
        }
    } else {
        // The last key of each is a key of the other and the greatest of
        // its own, so the two last entries are the same; what stands in
        // front of them gives every key the same value again.
        let ka = a.last().0;
        let kb = b.last().0;
        lemma_lookup_member(a, a.len() - 1);
        lemma_lookup_member(b, b.len() - 1);
        assert(lookup(a, ka) == lookup(b, ka));
        assert(lookup(a, kb) == lookup(b, kb));
        lemma_position(b, ka);
        lemma_position(a, kb);
        lemma_text_lt_total(ka, kb);
        lemma_text_lt_irreflexive(ka);
        assert(a.last() == b.last());
        assert forall|key: Seq<char>| #[trigger]
            lookup(a.drop_last(), key) == lookup(b.drop_last(), key) by {
            lemma_lookup_drop_last(a, key);
            lemma_lookup_drop_last(b, key);
        }
        lemma_same_lookups_same_entries(a.drop_last(), b.drop_last());
        assert(a =~= a.drop_last().push(a.last()));
        assert(b =~= b.drop_last().push(b.last()));
    }
}

/// Two different keys can be set in either order: the mapping comes out the
/// same.
pub proof fn lemma_with_entry_commutes(
    s: Seq<Entry>,
    first_key: Seq<char>,
    first_value: Seq<char>,
    second_key: Seq<char>,
    second_value: Seq<char>,
)
    requires
        entries_sorted(s),
        first_key != second_key,
    ensures
        with_entry(with_entry(s, first_key, first_value), second_key, second_value) == with_entry(
            with_entry(s, second_key, second_value),
            first_key,
            first_value,
        ),
{
    let one = with_entry(s, first_key, first_value);
    let two = with_entry(s, second_key, second_value);
    let one_two = with_entry(one, second_key, second_value);
    let two_one = with_entry(two, first_key, first_value);
    lemma_with_entry_sorted(s, first_key, first_value);
    lemma_with_entry_sorted(s, second_key, second_value);
    lemma_with_entry_sorted(one, second_key, second_value);
    lemma_with_entry_sorted(two, first_key, first_value);
    assert forall|key: Seq<char>| #[trigger] lookup(one_two, key) == lookup(two_one, key) by {
        if key == first_key {
            lemma_with_entry_found(s, first_key, first_value);
            lemma_with_entry_others(one, second_key, second_value, key);
            lemma_with_entry_found(two, first_key, first_value);
        } else if key == second_key {
            lemma_with_entry_found(one, second_key, second_value);
            lemma_with_entry_found(s, second_key, second_value);
            lemma_with_entry_others(two, first_key, first_value, key);
        } else {
            lemma_with_entry_others(s, first_key, first_value, key);
            lemma_with_entry_others(one, second_key, second_value, key);
            lemma_with_entry_others(s, second_key, second_value, key);
            lemma_with_entry_others(two, first_key, first_value, key);
        }
    }
    lemma_same_lookups_same_entries(one_two, two_one);
}

/// No entry precedes itself.
pub proof fn lemma_entry_lt_irreflexive(a: Entry)
    ensures
        !entry_lt(a, a),
{
    lemma_text_lt_irreflexive(a.0);
    lemma_text_lt_irreflexive(a.1);
}

/// The order on entries is transitive.
pub proof fn lemma_entry_lt_transitive(a: Entry, b: Entry, c: Entry)
    requires
        entry_lt(a, b),
        entry_lt(b, c),
    ensures
        entry_lt(a, c),
{
    if text_lt(a.0, b.0) && text_lt(b.0, c.0) {
        lemma_text_lt_transitive(a.0, b.0, c.0);
    } else if a.0 == b.0 && b.0 == c.0 {
        lemma_text_lt_transitive(a.1, b.1, c.1);
    }
}

/// Of two different entries exactly one precedes the other.
pub proof fn lemma_entry_lt_total(a: Entry, b: Entry)
    ensures
        a == b || entry_lt(a, b) || entry_lt(b, a),
        !(entry_lt(a, b) && entry_lt(b, a)),
{
    lemma_text_lt_total(a.0, b.0);
    lemma_text_lt_total(a.1, b.1);
    lemma_text_lt_irreflexive(a.0);
}

/// No sequence of entries precedes itself.
pub proof fn lemma_entries_lt_irreflexive(a: Seq<Entry>)
    ensures
        !entries_lt(a, a),
    decreases a.len(),
{
    if a.len() > 0 {
        lemma_entries_lt_irreflexive(a.drop_first());
    }
}

/// The order on sequences of entries is transitive.
pub proof fn lemma_entries_lt_transitive(a: Seq<Entry>, b: Seq<Entry>, c: Seq<Entry>)
    requires
        entries_lt(a, b),
        entries_lt(b, c),
    ensures
        entries_lt(a, c),
    decreases a.len(),
{
    if a.len() > 0 {
        if a[0] == b[0] && b[0] == c[0] {
            lemma_entries_lt_transitive(a.drop_first(), b.drop_first(), c.drop_first());
        } else if a[0] != b[0] && b[0] != c[0] {
            lemma_entry_lt_transitive(a[0], b[0], c[0]);
            lemma_entry_lt_irreflexive(a[0]);
        }
    }
}

/// Of two different sequences of entries exactly one precedes the other.
pub proof fn lemma_entries_lt_total(a: Seq<Entry>, b: Seq<Entry>)
    ensures
        a == b || entries_lt(a, b) || entries_lt(b, a),
        !(entries_lt(a, b) && entries_lt(b, a)),
    decreases a.len(),
{
    if a.len() > 0 && b.len() > 0 {
        if a[0] == b[0] {
            lemma_entries_lt_total(a.drop_first(), b.drop_first());
            if a.drop_first() == b.drop_first() {
                assert(a =~= seq![a[0]] + a.drop_first());
                assert(b =~= seq![b[0]] + b.drop_first());
            }
        } else {
            lemma_entry_lt_total(a[0], b[0]);
        }
    }
}

/// Two sequences that agree on their first `n` entries are ordered as what
/// follows those entries.
pub proof fn lemma_entries_lt_skip(a: Seq<Entry>, b: Seq<Entry>, n: int)
    requires
        0 <= n <= a.len(),
        n <= b.len(),
        forall|j: int| 0 <= j < n ==> a[j] == b[j],
    ensures
        entries_lt(a, b) == entries_lt(a.skip(n), b.skip(n)),
    decreases n,
{
    if n == 0 {
        assert(a.skip(0) =~= a);
        assert(b.skip(0) =~= b);
    } else {
        lemma_entries_lt_skip(a.drop_first(), b.drop_first(), n - 1);
        assert(a.drop_first().skip(n - 1) =~= a.skip(n));
        assert(b.drop_first().skip(n - 1) =~= b.skip(n));
    }
}

/// The entries of a sequence of pairs of strings as the contracts see them.
spec fn entries_of(pairs: Seq<(String, String)>) -> Seq<Entry> {
    Seq::new(pairs.len(), |i: int| (pairs[i].0@, pairs[i].1@))
}

/// A mapping from text to text whose entries are held in key order.
pub struct TextMap {
    entries: Vec<(String, String)>,
}

impl View for TextMap {
    type V = Seq<Entry>;

    closed spec fn view(&self) -> Seq<Entry> {
        entries_of(self.entries@)
    }
}

impl TextMap {
    /// The invariant of the type: the entries stand in key order, no key twice.
    #[verifier::type_invariant]
    pub open spec fn wf(&self) -> bool {
        entries_sorted(self@)
    }

    /// The empty mapping.
    pub fn new() -> (r: TextMap)
        ensures
            r@ == Seq::<Entry>::empty(),
    {
        let entries: Vec<(String, String)> = Vec::new();
        TextMap { entries }
    }

    /// The number of entries.
    pub fn len(&self) -> (n: usize)
        ensures
            n == self@.len(),
    {
        self.entries.len()
    }

    /// The key of the entry at `index`, counting in key order.
    pub fn key_at(&self, index: usize) -> (r: &String)
        requires
            index < self@.len(),
        ensures
            r@ == self@[index as int].0,
    {
        &self.entries[index].0
    }

    /// The value of the entry at `index`, counting in key order.
    pub fn value_at(&self, index: usize) -> (r: &String)
        requires
            index < self@.len(),
        ensures
            r@ == self@[index as int].1,
    {
        &self.entries[index].1
    }

    /// Where the entry for `key` stands or would stand, and whether it is
    /// there.
    pub fn find(&self, key: &str) -> (r: (usize, bool))
        ensures
            r.0 == position(self@, key@),
            r.1 == has_key(self@, key@),
    {
        let mut i: usize = 0;
        proof {
            lemma_position_skip(self@, key@, 0);
        }
        while i < self.entries.len()
            invariant
                i <= self@.len(),
                self@.len() == self.entries@.len(),
                forall|j: int| 0 <= j < i ==> text_lt(#[trigger] self@[j].0, key@),
            decreases self@.len() - i,
        {
            let here: Placement = place_text(self.entries[i].0.as_str(), key);
            if here != Placement::Before {
                proof {
                    lemma_position_skip(self@, key@, i as int);
                }
                return (i, here == Placement::Same);
            }
            i = i + 1;
        }
        proof {
            lemma_position_skip(self@, key@, i as int);
        }
        (i, false)
    }

    /// The value that the mapping gives for `key`, if it has one.
    pub fn get(&self, key: &str) -> (r: Option<&String>)
        ensures
            r is Some == has_key(self@, key@),
            r matches Some(v) ==> lookup(self@, key@) == Some(v@),
    {
        let (p, found) = self.find(key);
        if found {
            Some(&self.entries[p].1)
        } else {
            None
        }
    }

    /// Sets `key` to `value`, whether or not the mapping had the key. No
    /// other key is touched.
    pub fn insert(&mut self, key: &str, value: &str)
        ensures
            final(self)@ == with_entry(old(self)@, key@, value@),
            lookup(final(self)@, key@) == Some(value@),
            forall|other: Seq<char>|
                other != key@ ==> #[trigger] lookup(final(self)@, other) == lookup(old(self)@, other),
    {
        let (p, found) = self.find(key);
        proof {
            use_type_invariant(&*self);
            lemma_position(self@, key@);
            lemma_with_entry_sorted(self@, key@, value@);
            lemma_with_entry_found(self@, key@, value@);
            assert forall|other: Seq<char>| other != key@ implies #[trigger] lookup(
                with_entry(self@, key@, value@),
                other,
            ) == lookup(self@, other) by {
                lemma_with_entry_others(self@, key@, value@, other);
            }
        }
        let mut entries: Vec<(String, String)> = Vec::new();
        std::mem::swap(&mut entries, &mut self.entries);
        if found {
            entries.set(p, (key.to_owned(), value.to_owned()));
        } else {
            entries.insert(p, (key.to_owned(), value.to_owned()));
        }
        assert(entries_of(entries@) =~= with_entry(old(self)@, key@, value@));
        self.entries = entries;
    }

    /// A copy of the mapping.
    pub fn duplicate(&self) -> (r: TextMap)
        ensures
            r@ == self@,
    {
        let mut entries: Vec<(String, String)> = Vec::new();
        let mut i: usize = 0;
        while i < self.entries.len()
            invariant
                i <= self.entries@.len(),
                entries@.len() == i,
                forall|j: int| 0 <= j < i ==> entries@[j] == self.entries@[j],
            decreases self.entries@.len() - i,
        {
            entries.push((self.entries[i].0.clone(), self.entries[i].1.clone()));
            i = i + 1;
        }
        proof {
            use_type_invariant(self);
            assert(entries_of(entries@) =~= self@);
        }
        TextMap { entries }
    }

    /// Compares two mappings entry by entry, each entry by key and then by
    /// value.
    pub fn place(&self, other: &TextMap) -> (r: Placement)
        ensures
            r == entries_placement(self@, other@),
            r == Placement::After <==> entries_lt(other@, self@),
    {
        let mut i: usize = 0;
        while i < self.entries.len() && i < other.entries.len()
            invariant
                i <= self@.len(),
                i <= other@.len(),
                self@.len() == self.entries@.len(),
                other@.len() == other.entries@.len(),
                forall|j: int| 0 <= j < i ==> self@[j] == other@[j],
            decreases self@.len() - i,
        {
            let by_key: Placement = place_text(
                self.entries[i].0.as_str(),
                other.entries[i].0.as_str(),
            );
            let here: Placement = if by_key == Placement::Same {
                place_text(self.entries[i].1.as_str(), other.entries[i].1.as_str())
            } else {
                by_key
            };
            if here != Placement::Same {
                proof {
                    lemma_entries_lt_skip(self@, other@, i as int);
                    lemma_entries_lt_skip(other@, self@, i as int);
                    lemma_entries_lt_total(self@, other@);
                    lemma_entries_lt_irreflexive(self@);
                    assert(self@.skip(i as int)[0] == self@[i as int]);
                    assert(other@.skip(i as int)[0] == other@[i as int]);
                }
                return here;
            }
            i = i + 1;
        }
        proof {
            lemma_entries_lt_skip(self@, other@, i as int);
            lemma_entries_lt_skip(other@, self@, i as int);
            lemma_entries_lt_total(self@, other@);
            lemma_entries_lt_irreflexive(self@);
            if self@.len() == other@.len() {
                assert(self@ =~= other@);
            }
        }
        if self.entries.len() < other.entries.len() {
            Placement::Before
        } else if self.entries.len() == other.entries.len() {
            Placement::Same
        } else {
            Placement::After
        }
    }
}

} // verus!
