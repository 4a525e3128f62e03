//! A small dictionary keyed by text. It keeps its entries in the order in
//! which their keys first came, and no key twice.

use vstd::prelude::*;
use crate::text::same_text;
use crate::value::{views, Field, JsonValue, OutputValue};

verus! {

/// A value that can be copied so that the copy has the same view.
pub trait Duplicate: View + Sized {
    fn duplicate(&self) -> (out: Self)
        ensures
            out@ == self@,
    ;
}

impl Duplicate for String {
    fn duplicate(&self) -> (out: Self) {
        self.clone()
    }
}

impl Duplicate for i32 {
    fn duplicate(&self) -> (out: Self) {
        *self
    }
}

impl Duplicate for Field {
    fn duplicate(&self) -> (out: Self) {
        self.clone()
    }
}

impl Duplicate for JsonValue {
    fn duplicate(&self) -> (out: Self) {
        self.clone()
    }
}

impl Duplicate for OutputValue {
    fn duplicate(&self) -> (out: Self) {
        self.clone()
    }
}

/// A copy of each item, in the same order.
pub fn duplicate_all<T: Duplicate>(items: &Vec<T>) -> (out: Vec<T>)
    ensures
        views(out@) == views(items@),
{
    let mut out: Vec<T> = Vec::new();
    let mut i: usize = 0;
    while i < items.len()
        invariant
            i <= items.len(),
            out@.len() == i,
            forall|j: int| 0 <= j < i ==> (#[trigger] out@[j])@ == items@[j]@,
        decreases items.len() - i,
    {
        out.push(items[i].duplicate());
        i += 1;
    }
    assert(views(out@) =~= views(items@));
    out
}

/// A copy of an optional text.
pub fn duplicate_text(text: &Option<String>) -> (out: Option<String>)
    ensures
        text_view(out) == text_view(*text),
{
    match text {
        Some(t) => Some(t.clone()),
        None => None,
    }
}

/// The characters of an optional text.
pub open spec fn text_view(text: Option<String>) -> Option<Seq<char>> {
    match text {
        Some(t) => Some(t@),
        None => None,
    }
}

/// The position of the entry of `entries` under `key`, if there is one.
pub open spec fn position<T>(entries: Seq<(Seq<char>, T)>, key: Seq<char>) -> Option<int> {
    if exists|i: int| 0 <= i < entries.len() && (#[trigger] entries[i]).0 == key {
        Some(choose|i: int| 0 <= i < entries.len() && (#[trigger] entries[i]).0 == key)
    } else {
        None
    }
}

/// The value that `entries` holds under `key`, if any.
pub open spec fn lookup<T>(entries: Seq<(Seq<char>, T)>, key: Seq<char>) -> Option<T> {
    match position(entries, key) {
        Some(i) => Some(entries[i].1),
        None => None,
    }
}

/// `entries` after `value` is stored under `key`: in place of the value that
/// was there, or else at the end.
pub open spec fn stored<T>(entries: Seq<(Seq<char>, T)>, key: Seq<char>, value: T) -> Seq<
    (Seq<char>, T),
> {
    match position(entries, key) {
        Some(i) => entries.update(i, (key, value)),
        None => entries.push((key, value)),
    }
}

/// No key occurs twice in `entries`.
pub open spec fn distinct_keys<T>(entries: Seq<(Seq<char>, T)>) -> bool {
    forall|i: int, j: int|
        0 <= i < j < entries.len() ==> (#[trigger] entries[i]).0 != (#[trigger] entries[j]).0
}

/// Storing a value keeps the keys distinct.
pub proof fn lemma_stored_distinct<T>(entries: Seq<(Seq<char>, T)>, key: Seq<char>, value: T)
    requires
        distinct_keys(entries),
    ensures
        distinct_keys(stored(entries, key, value)),
{
    let after = stored(entries, key, value);
    match position(entries, key) {
        Some(p) => {
            assert forall|i: int, j: int| 0 <= i < j < after.len() implies (#[trigger] after[i]).0
                != (#[trigger] after[j]).0 by {
                assert(entries[i].0 != entries[j].0);
                assert(entries[p].0 == key);
            }
        },
        None => {
            assert forall|i: int, j: int| 0 <= i < j < after.len() implies (#[trigger] after[i]).0
                != (#[trigger] after[j]).0 by {
                if j < entries.len() {
                    assert(entries[i].0 != entries[j].0);
                } else {
                    assert(entries[i].0 != key);
                }
            }
        },
    }
}

/// With distinct keys, the position of a key is the one place where it
/// stands.
pub proof fn lemma_position<T>(entries: Seq<(Seq<char>, T)>, key: Seq<char>, at: int)
    requires
        distinct_keys(entries),
        0 <= at < entries.len(),
        entries[at].0 == key,
    ensures
        position(entries, key) == Some(at),
{
    let p = choose|i: int| 0 <= i < entries.len() && (#[trigger] entries[i]).0 == key;
    if p < at {
        assert(entries[p].0 != entries[at].0);
    } else if at < p {
        assert(entries[at].0 != entries[p].0);
    }
}

/// What is stored under a key is found under it, and what stands under
/// another key stays.
pub proof fn lemma_lookup_stored<T>(
    entries: Seq<(Seq<char>, T)>,
    key: Seq<char>,
    value: T,
    other: Seq<char>,
)
    requires
        distinct_keys(entries),
    ensures
        lookup(stored(entries, key, value), other) == (if other == key {
            Some(value)
        } else {
            lookup(entries, other)
        }),
{
    let after = stored(entries, key, value);
    lemma_stored_distinct(entries, key, value);
    match position(entries, key) {
        Some(p) => {
            assert(entries[p].0 == key);
            assert(after[p].0 == key);
            if other == key {
                lemma_position(after, key, p);
            } else {
                match position(entries, other) {
                    Some(q) => {
                        assert(entries[q].0 == other);
                        assert(after[q] == entries[q]);
                        lemma_position(after, other, q);
                    },
                    None => {
                        if position(after, other).is_some() {
                            let q = position(after, other)->0;
                            assert(after[q].0 == other);
                            assert(entries[q].0 == other);
                        }
                    },
                }
            }
        },
        None => {
            if other == key {
                assert(after[entries.len() as int].0 == key);
                lemma_position(after, key, entries.len() as int);
            } else {
                match position(entries, other) {
                    Some(q) => {
                        assert(entries[q].0 == other);
                        assert(after[q] == entries[q]);
                        lemma_position(after, other, q);
                    },
                    None => {
                        if position(after, other).is_some() {
                            let q = position(after, other)->0;
                            assert(after[q].0 == other);
                            if q < entries.len() {
                                assert(entries[q].0 == other);
                            }
                        }
                    },
                }
            }
        },
    }
}

pub struct Dict<V: View> {
    entries: Vec<(String, V)>,
}

impl<V: View> View for Dict<V> {
    type V = Seq<(Seq<char>, V::V)>;

    closed spec fn view(&self) -> Seq<(Seq<char>, V::V)> {
        pairs(self.entries@)
    }
}

/// The entries by their views.
pub open spec fn pairs<V: View>(entries: Seq<(String, V)>) -> Seq<(Seq<char>, V::V)> {
    Seq::new(entries.len(), |i: int| (entries[i].0@, entries[i].1@))
}

impl<V: View> Dict<V> {
    /// No key is held twice.
    #[verifier::type_invariant]
    pub open spec fn keys_are_distinct(self) -> bool {
        distinct_keys(self@)
    }

    /// The empty dictionary.
    pub fn new() -> (out: Self)
        ensures
            out@ == Seq::<(Seq<char>, V::V)>::empty(),
            distinct_keys(out@),
    {
        let out = Dict { entries: Vec::new() };
        assert(out@ =~= Seq::<(Seq<char>, V::V)>::empty());
        out
    }

    /// The number of entries.
    pub fn len(&self) -> (n: usize)
        ensures
            n == self@.len(),
    {
        self.entries.len()
    }

    /// The key of the entry at position `i`.
    pub fn key_at(&self, i: usize) -> (key: &String)
        requires
            i < self@.len(),
        ensures
            key@ == self@[i as int].0,
    {
        &self.entries[i].0
    }

    /// The value of the entry at position `i`.
    pub fn value_at(&self, i: usize) -> (value: &V)
        requires
            i < self@.len(),
        ensures
            value@ == self@[i as int].1,
    {
        &self.entries[i].1
    }

    /// Where the entry under `key` stands, if there is one.
    pub fn find(&self, key: &str) -> (at: Option<usize>)
        ensures
            match at {
                Some(i) => position(self@, key@) == Some(i as int),
                None => position(self@, key@).is_none(),
            },
    {
        proof {
            use_type_invariant(self);
        }
        let mut i: usize = 0;
        while i < self.entries.len()
            invariant
                i <= self.entries@.len(),
                distinct_keys(self@),
                forall|j: int| 0 <= j < i ==> (#[trigger] self@[j]).0 != key@,
            decreases self.entries.len() - i,
        {
            if same_text(self.entries[i].0.as_str(), key) {
                proof {
                    assert(self@[i as int].0 == key@);
                    let p = position(self@, key@)->0;
                    assert(self@[p].0 == key@);
                    if p < i {
                        assert(false);
                    } else if p > i {
                        assert(self@[i as int].0 != self@[p].0);
                    }
                }
                return Some(i);
            }
            i += 1;
        }
        None
    }

    /// The value under `key`, if there is one.
    pub fn get(&self, key: &str) -> (value: Option<&V>)
        ensures
            match value {
                Some(v) => lookup(self@, key@) == Some(v@),
                None => lookup(self@, key@).is_none(),
            },
    {
        match self.find(key) {
            Some(i) => Some(&self.entries[i].1),
            None => None,
        }
    }

    /// Whether there is an entry under `key`.
    pub fn contains_key(&self, key: &str) -> (found: bool)
        ensures
            found == lookup(self@, key@).is_some(),
    {
        self.find(key).is_some()
    }

    /// Stores `value` under `key`, in place of what was there.
    pub fn insert(&mut self, key: String, value: V)
        ensures
            final(self)@ == stored(old(self)@, key@, value@),
            distinct_keys(old(self)@),
            distinct_keys(final(self)@),
    {
        proof {
            use_type_invariant(&*self);
            lemma_stored_distinct(self@, key@, value@);
        }
        let at = self.find(key.as_str());
        let mut taken = Dict { entries: Vec::new() };
        assert(taken@ =~= Seq::<(Seq<char>, V::V)>::empty());
        std::mem::swap(self, &mut taken);
        let mut entries = taken.entries;
        match at {
            Some(i) => {
                entries.set(i, (key, value));
            },
            None => {
                entries.push((key, value));
            },
        }
        assert(pairs(entries@) =~= stored(old(self)@, key@, value@));
        *self = Dict { entries };
    }
}

impl<V: Duplicate> Duplicate for Dict<V> {
    fn duplicate(&self) -> (out: Self) {
        proof {
            use_type_invariant(self);
        }
        let mut entries: Vec<(String, V)> = Vec::new();
        let mut i: usize = 0;
        while i < self.entries.len()
            invariant
                i <= self.entries@.len(),
                entries@.len() == i,
                forall|j: int|
                    0 <= j < i ==> (#[trigger] entries@[j]).0@ == self.entries@[j].0@
                        && entries@[j].1@ == self.entries@[j].1@,
            decreases self.entries.len() - i,
        {
            let key = self.entries[i].0.clone();
            let value = self.entries[i].1.duplicate();
            entries.push((key, value));
            i += 1;
        }
        assert(pairs(entries@) =~= self@);
        Dict { entries }
    }
}

} // verus!
