//! A map from text to text that keeps its entries in the order of their keys,
//! so that walking it gives the same sequence in every process.

use vstd::prelude::*;

use crate::text::{
    lemma_order_total, lemma_text_lt_asymmetric, lemma_text_lt_irreflexive,
    lemma_text_lt_transitive, rank_text, text_lt, Rank,
};

verus! {

/// The entries of a map as plain values: key and value, in order.
pub type Entries = Seq<(Seq<char>, Seq<char>)>;

/// Keys grow strictly from each entry to the next, so none occurs twice.
pub open spec fn sorted_keys(entries: Entries) -> bool {
    forall|i: int, j: int| 0 <= i < j < entries.len() ==> text_lt(entries[i].0, entries[j].0)
}

/// The first position from `from` on whose key does not come before `key`.
pub open spec fn slot_from(entries: Entries, key: Seq<char>, from: int) -> int
    decreases entries.len() - from,
{
    if from < 0 || from >= entries.len() {
        entries.len() as int
    } else if text_lt(entries[from].0, key) {
        slot_from(entries, key, from + 1)
    } else {
        from
    }
}

/// The position at which `key` stands or would stand.
pub open spec fn slot(entries: Entries, key: Seq<char>) -> int {
    slot_from(entries, key, 0)
}

/// `entries` after `key` has been given `value`: the entry of `key` is
/// replaced in place, or a new entry goes in at the key's position.
pub open spec fn inserted(entries: Entries, key: Seq<char>, value: Seq<char>) -> Entries {
    let at = slot(entries, key);
    if at < entries.len() && entries[at].0 == key {
        entries.update(at, (key, value))
    } else {
        entries.take(at) + seq![(key, value)] + entries.skip(at)
    }
}

/// The value that `entries` hold for `key`, if any.
pub open spec fn lookup(entries: Entries, key: Seq<char>) -> Option<Seq<char>> {
    if exists|i: int| 0 <= i < entries.len() && #[trigger] entries[i].0 == key {
        let i = choose|i: int| 0 <= i < entries.len() && #[trigger] entries[i].0 == key;
        Some(entries[i].1)
    } else {
        None
    }
}

proof fn lemma_slot_from(entries: Entries, key: Seq<char>, from: int)
    requires
        0 <= from <= entries.len(),
        sorted_keys(entries),
        forall|i: int| 0 <= i < from ==> text_lt(#[trigger] entries[i].0, key),
    ensures
        from <= slot_from(entries, key, from) <= entries.len(),
        forall|i: int|
            0 <= i < slot_from(entries, key, from) ==> text_lt(#[trigger] entries[i].0, key),
        forall|i: int|
            slot_from(entries, key, from) <= i < entries.len() ==> !text_lt(
                #[trigger] entries[i].0,
                key,
            ),
    decreases entries.len() - from,
{
    if from < entries.len() {
        if text_lt(entries[from].0, key) {
            lemma_slot_from(entries, key, from + 1);
        } else {
            assert forall|i: int| from <= i < entries.len() implies !text_lt(
                #[trigger] entries[i].0,
                key,
            ) by {
                if i > from && text_lt(entries[i].0, key) {
                    lemma_text_lt_transitive(entries[from].0, entries[i].0, key);
                }
            }
        }
    }
}

/// Where a key stands in sorted entries: every key before it is smaller, none
/// from there on is.
pub proof fn lemma_slot(entries: Entries, key: Seq<char>)
    requires
        sorted_keys(entries),
    ensures
        0 <= slot(entries, key) <= entries.len(),
        forall|i: int| 0 <= i < slot(entries, key) ==> text_lt(#[trigger] entries[i].0, key),
        forall|i: int|
            slot(entries, key) <= i < entries.len() ==> !text_lt(#[trigger] entries[i].0, key),
{
    lemma_slot_from(entries, key, 0);
}

/// Giving a key a value keeps the entries sorted; afterwards the key holds
/// the value, and every other key holds what it held before.
pub proof fn lemma_inserted(entries: Entries, key: Seq<char>, value: Seq<char>, other: Seq<char>)
    requires
        sorted_keys(entries),
    ensures
        sorted_keys(inserted(entries, key, value)),
        lookup(inserted(entries, key, value), key) == Some(value),
        other != key ==> lookup(inserted(entries, key, value), other) == lookup(entries, other),
{
    lemma_slot(entries, key);
    let at = slot(entries, key);
    let out = inserted(entries, key, value);
    let replaced = at < entries.len() && entries[at].0 == key;
    // Where each entry of the result comes from.
    assert forall|i: int| 0 <= i < out.len() implies (#[trigger] out[i]) == (if i == at {
        (key, value)
    } else if replaced || i < at {
        entries[i]
    } else {
        entries[i - 1]
    }) by {}
    assert(rank_facts(entries, key, at, replaced)) by {
        assert forall|i: int| at <= i < entries.len() && !(replaced && i == at) implies text_lt(
            key,
            #[trigger] entries[i].0,
        ) by {
            lemma_order_total(entries[i].0, key);
            if entries[i].0 == key {
                if at < i {
                    lemma_text_lt_asymmetric(entries[at].0, entries[i].0);
                    lemma_order_total(entries[at].0, key);
                }
            }
        }
    }
    assert forall|i: int, j: int| 0 <= i < j < out.len() implies text_lt(out[i].0, out[j].0) by {
        if i == at {
            let src = if replaced { j } else { j - 1 };
            assert(out[j] == entries[src]);
            assert(text_lt(key, entries[src].0));
        } else if j == at {
            assert(out[i] == entries[i]);
        } else {
            let si = if replaced || i < at { i } else { i - 1 };
            let sj = if replaced || j < at { j } else { j - 1 };
            assert(out[i] == entries[si]);
            assert(out[j] == entries[sj]);
        }
    }
    assert(sorted_keys(out));
    assert(out[at].0 == key);
    lemma_lookup_at(out, at);
    if other != key {
        if exists|i: int| 0 <= i < entries.len() && #[trigger] entries[i].0 == other {
            let i = choose|i: int| 0 <= i < entries.len() && #[trigger] entries[i].0 == other;
            let moved = if replaced || i < at { i } else { i + 1 };
            assert(out[moved] == entries[i]);
            lemma_lookup_at(entries, i);
            lemma_lookup_at(out, moved);
        } else {
            if exists|o: int| 0 <= o < out.len() && #[trigger] out[o].0 == other {
                let o = choose|o: int| 0 <= o < out.len() && #[trigger] out[o].0 == other;
                let src = if replaced || o < at { o } else { o - 1 };
                assert(entries[src].0 == other);
            }
        }
    }
}

/// In sorted entries a key occurs once, so the entry that holds it is the one
/// that a lookup finds.
pub proof fn lemma_lookup_at(entries: Entries, at: int)
    requires
        sorted_keys(entries),
        0 <= at < entries.len(),
    ensures
        lookup(entries, entries[at].0) == Some(entries[at].1),
{
    let key = entries[at].0;
    assert(entries[at].0 == key);
    let found = choose|i: int| 0 <= i < entries.len() && #[trigger] entries[i].0 == key;
    if found < at {
        lemma_text_lt_asymmetric(entries[found].0, entries[at].0);
    } else if at < found {
        lemma_text_lt_asymmetric(entries[at].0, entries[found].0);
    }
}

spec fn rank_facts(entries: Entries, key: Seq<char>, at: int, replaced: bool) -> bool {
    forall|i: int|
        at <= i < entries.len() && !(replaced && i == at) ==> text_lt(key, #[trigger] entries[i].0)
}

/// An ordered map from text to text.
#[derive(Debug, PartialEq, Eq)]
pub struct StringMap {
    entries: Vec<(String, String)>,
}

impl View for StringMap {
    type V = Entries;

    closed spec fn view(&self) -> Entries {
        self.entries.deep_view()
    }
}

impl DeepView for StringMap {
    type V = Entries;

    open spec fn deep_view(&self) -> Entries {
        self@
    }
}

impl Clone for StringMap {
    fn clone(&self) -> (copy: StringMap)
        ensures
            copy@ == self@,
    {
        proof {
            use_type_invariant(self);
        }
        let mut entries: Vec<(String, String)> = Vec::new();
        let mut i: usize = 0;
        while i < self.entries.len()
            invariant
                i <= self.entries.len(),
                entries.deep_view() == self.entries.deep_view().take(i as int),
            decreases self.entries.len() - i,
        {
            let ghost before = entries.deep_view();
            let key = self.entries[i].0.clone();
            let value = self.entries[i].1.clone();
            entries.push((key, value));
            assert(entries.deep_view() =~= before.push((key@, value@)));
            assert(entries.deep_view() =~= self.entries.deep_view().take(i + 1));
            i += 1;
        }
        assert(self.entries.deep_view().take(self.entries.len() as int)
            =~= self.entries.deep_view());
        StringMap { entries }
    }
}

impl StringMap {
    #[verifier::type_invariant]
    spec fn ordered(self) -> bool {
        sorted_keys(self.entries.deep_view())
    }

    /// A map without entries.
    pub fn new() -> (map: StringMap)
        ensures
            map@ == Entries::empty(),
    {
        let entries: Vec<(String, String)> = Vec::new();
        assert(entries.deep_view() =~= Entries::empty());
        StringMap { entries }
    }

    /// The number of entries, which stand sorted by key.
    pub fn len(&self) -> (n: usize)
        ensures
            n == self@.len(),
            sorted_keys(self@),
    {
        proof {
            use_type_invariant(self);
        }
        self.entries.len()
    }

    /// The key of the entry at `index`, counted in key order.
    pub fn key_at(&self, index: usize) -> (key: &str)
        requires
            index < self@.len(),
        ensures
            key@ == self@[index as int].0,
    {
        self.entries[index].0.as_str()
    }

    /// The value of the entry at `index`, counted in key order.
    pub fn value_at(&self, index: usize) -> (value: &str)
        requires
            index < self@.len(),
        ensures
            value@ == self@[index as int].1,
    {
        self.entries[index].1.as_str()
    }

    /// The value of `key`, if it has one.
    pub fn get(&self, key: &str) -> (value: Option<&str>)
        ensures
            match value {
                Some(value) => lookup(self@, key@) == Some(value@),
                None => lookup(self@, key@) is None,
            },
    {
        proof {
            use_type_invariant(self);
        }
        let mut at: usize = 0;
        while at < self.entries.len()
            invariant
                at <= self.entries.len(),
                sorted_keys(self@),
                forall|i: int| 0 <= i < at ==> (#[trigger] self@[i]).0 != key@,
            decreases self.entries.len() - at,
        {
            if let Rank::Same = rank_text(self.entries[at].0.as_str(), key) {
                proof {
                    lemma_lookup_at(self@, at as int);
                }
                return Some(self.entries[at].1.as_str());
            }
            at += 1;
        }
        None
    }

    /// The map in which `key` has the value `value`, replacing the value it had.
    pub fn insert(self, key: String, value: String) -> (map: StringMap)
        ensures
            map@ == inserted(self@, key@, value@),
            sorted_keys(map@),
    {
        proof {
            use_type_invariant(&self);
        }
        let ghost before = self@;
        let mut entries = self.entries;
        let mut at: usize = 0;
        let mut found = false;
        while at < entries.len()
            invariant_except_break
                !found,
                slot(before, key@) == slot_from(before, key@, at as int),
            invariant
                at <= entries.len(),
                entries.deep_view() == before,
            ensures
                at <= entries.len(),
                entries.deep_view() == before,
                at as int == slot(before, key@),
                found <==> (at < entries.len() && before[at as int].0 == key@),
            decreases entries.len() - at,
        {
            match rank_text(entries[at].0.as_str(), key.as_str()) {
                Rank::Before => {
                    at += 1;
                },
                Rank::Same => {
                    proof {
                        lemma_text_lt_irreflexive(before[at as int].0);
                    }
                    found = true;
                    break ;
                },
                Rank::After => {
                    proof {
                        lemma_text_lt_asymmetric(key@, before[at as int].0);
                    }
                    break ;
                },
            }
        }
        proof {
            lemma_inserted(before, key@, value@, key@);
        }
        let ghost k = key@;
        let ghost v = value@;
        if found {
            entries.set(at, (key, value));
            assert(entries.deep_view() =~= before.update(at as int, (k, v)));
        } else {
            entries.insert(at, (key, value));
            assert(entries.deep_view() =~= before.take(at as int) + seq![(k, v)] + before.skip(
                at as int,
            ));
        }
        StringMap { entries }
    }
}

} // verus!
