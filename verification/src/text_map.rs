//! A map keyed by text, kept in ascending order of its keys.

use crate::text::{
    lemma_text_irreflexive, lemma_text_transitive, order_of, text_before, TextOrder,
};
use vstd::prelude::*;

verus! {

/// Whether the keys of `entries` ascend strictly.
pub open spec fn ascending<V>(entries: Seq<(Seq<char>, V)>) -> bool {
    forall|i: int, j: int|
        0 <= i < j < entries.len() ==> text_before(#[trigger] entries[i].0, #[trigger] entries[j].0)
}

/// Whether `key` is one of the keys of `entries`.
pub open spec fn has_key<V>(entries: Seq<(Seq<char>, V)>, key: Seq<char>) -> bool {
    exists|i: int| 0 <= i < entries.len() && #[trigger] entries[i].0 == key
}

/// A position at which `entries` lists `key`.
pub open spec fn key_position<V>(entries: Seq<(Seq<char>, V)>, key: Seq<char>) -> int {
    choose|i: int| 0 <= i < entries.len() && #[trigger] entries[i].0 == key
}

/// The map that `entries` list.
pub open spec fn map_of<V>(entries: Seq<(Seq<char>, V)>) -> Map<Seq<char>, V> {
    Map::new(|key: Seq<char>| has_key(entries, key), |key: Seq<char>| entries[key_position(entries, key)].1)
}

/// Entries in ascending order hold each key once.
pub proof fn lemma_key_unique<V>(entries: Seq<(Seq<char>, V)>, i: int, j: int)
    requires
        ascending(entries),
        0 <= i < entries.len(),
        0 <= j < entries.len(),
        entries[i].0 == entries[j].0,
    ensures
        i == j,
{
    if i < j {
        assert(text_before(entries[i].0, entries[j].0));
        lemma_text_irreflexive(entries[i].0);
    } else if j < i {
        assert(text_before(entries[j].0, entries[i].0));
        lemma_text_irreflexive(entries[i].0);
    }
}

/// The map of ascending entries gives each listed key its listed value.
pub proof fn lemma_map_entry<V>(entries: Seq<(Seq<char>, V)>, i: int)
    requires
        ascending(entries),
        0 <= i < entries.len(),
    ensures
        map_of(entries).dom().contains(entries[i].0),
        map_of(entries)[entries[i].0] == entries[i].1,
{
    let key = entries[i].0;
    assert(has_key(entries, key));
    lemma_key_unique(entries, i, key_position(entries, key));
}

proof fn lemma_insert<V>(entries: Seq<(Seq<char>, V)>, at: int, key: Seq<char>, value: V)
    requires
        ascending(entries),
        0 <= at <= entries.len(),
        forall|j: int| 0 <= j < at ==> text_before(#[trigger] entries[j].0, key),
        forall|j: int| at <= j < entries.len() ==> text_before(key, #[trigger] entries[j].0),
    ensures
        ascending(entries.insert(at, (key, value))),
        map_of(entries.insert(at, (key, value))) == map_of(entries).insert(key, value),
{
    let grown = entries.insert(at, (key, value));
    assert(ascending(grown));
    let left = map_of(grown);
    let right = map_of(entries).insert(key, value);
    assert forall|k: Seq<char>| left.dom().contains(k) == right.dom().contains(k) by {
        if has_key(grown, k) {
            let i = choose|i: int| 0 <= i < grown.len() && #[trigger] grown[i].0 == k;
            if i < at {
                assert(entries[i].0 == k);
            } else if i > at {
                assert(entries[i - 1].0 == k);
            }
        }
        if has_key(entries, k) {
            let i = choose|i: int| 0 <= i < entries.len() && #[trigger] entries[i].0 == k;
            if i < at {
                assert(grown[i].0 == k);
            } else {
                assert(grown[i + 1].0 == k);
            }
        }
        assert(grown[at].0 == key);
    }
    assert forall|k: Seq<char>| left.dom().contains(k) implies left[k] == right[k] by {
        let i = choose|i: int| 0 <= i < grown.len() && #[trigger] grown[i].0 == k;
        lemma_map_entry(grown, i);
        lemma_map_entry(grown, at);
        if i < at {
            lemma_map_entry(entries, i);
            lemma_text_irreflexive(key);
        } else if i > at {
            lemma_map_entry(entries, i - 1);
            lemma_text_irreflexive(key);
        }
    }
    assert(left =~= right);
}

proof fn lemma_update<V>(entries: Seq<(Seq<char>, V)>, at: int, value: V)
    requires
        ascending(entries),
        0 <= at < entries.len(),
    ensures
        ascending(entries.update(at, (entries[at].0, value))),
        map_of(entries.update(at, (entries[at].0, value))) == map_of(entries).insert(
            entries[at].0,
            value,
        ),
{
    let key = entries[at].0;
    let changed = entries.update(at, (key, value));
    let left = map_of(changed);
    let right = map_of(entries).insert(key, value);
    assert forall|k: Seq<char>| left.dom().contains(k) == right.dom().contains(k) by {
        if has_key(changed, k) {
            let i = choose|i: int| 0 <= i < changed.len() && #[trigger] changed[i].0 == k;
            assert(entries[i].0 == k);
        }
        if has_key(entries, k) {
            let i = choose|i: int| 0 <= i < entries.len() && #[trigger] entries[i].0 == k;
            assert(changed[i].0 == k);
        }
        assert(changed[at].0 == key);
    }
    assert forall|k: Seq<char>| left.dom().contains(k) implies left[k] == right[k] by {
        let i = choose|i: int| 0 <= i < changed.len() && #[trigger] changed[i].0 == k;
        lemma_map_entry(changed, i);
        lemma_map_entry(entries, i);
        if k == key {
            lemma_key_unique(changed, i, at);
        }
    }
    assert(left =~= right);
}

proof fn lemma_remove<V>(entries: Seq<(Seq<char>, V)>, at: int)
    requires
        ascending(entries),
        0 <= at < entries.len(),
    ensures
        ascending(entries.remove(at)),
        map_of(entries.remove(at)) == map_of(entries).remove(entries[at].0),
{
    let key = entries[at].0;
    let shrunk = entries.remove(at);
    assert(ascending(shrunk));
    let left = map_of(shrunk);
    let right = map_of(entries).remove(key);
    assert forall|k: Seq<char>| left.dom().contains(k) == right.dom().contains(k) by {
        if has_key(shrunk, k) {
            let i = choose|i: int| 0 <= i < shrunk.len() && #[trigger] shrunk[i].0 == k;
            let j = if i < at { i } else { i + 1 };
            assert(entries[j].0 == k);
            if k == key {
                lemma_key_unique(entries, j, at);
            }
        }
        if has_key(entries, k) && k != key {
            let i = choose|i: int| 0 <= i < entries.len() && #[trigger] entries[i].0 == k;
            let j = if i < at { i } else { i - 1 };
            assert(shrunk[j].0 == k);
        }
    }
    assert forall|k: Seq<char>| left.dom().contains(k) implies left[k] == right[k] by {
        let i = choose|i: int| 0 <= i < shrunk.len() && #[trigger] shrunk[i].0 == k;
        let j = if i < at { i } else { i + 1 };
        lemma_map_entry(shrunk, i);
        lemma_map_entry(entries, j);
    }
    assert(left =~= right);
}

/// Ascending entries with the same keys list them alike.
pub proof fn lemma_same_keys<V, W>(a: Seq<(Seq<char>, V)>, b: Seq<(Seq<char>, W)>)
    requires
        ascending(a),
        ascending(b),
        forall|key: Seq<char>| has_key(a, key) == has_key(b, key),
    ensures
        a.len() == b.len(),
        forall|i: int| 0 <= i < a.len() ==> #[trigger] a[i].0 == b[i].0,
    decreases a.len(),
{
    if a.len() == 0 || b.len() == 0 {
        if a.len() > 0 {
            assert(has_key(a, a[0].0));
        }
        if b.len() > 0 {
            assert(has_key(b, b[0].0));
        }
    } else {
        let m = a.len() - 1;
        let n = b.len() - 1;
        assert(has_key(a, a[m].0) && has_key(b, b[n].0));
        let i = key_position(a, b[n].0);
        let j = key_position(b, a[m].0);
        assert(has_key(b, a[m].0) && has_key(a, b[n].0));
        if a[m].0 != b[n].0 {
            assert(text_before(a[i].0, a[m].0));
            assert(text_before(b[j].0, b[n].0));
            lemma_text_transitive(a[m].0, b[n].0, a[m].0);
            lemma_text_irreflexive(a[m].0);
        }
        let x = a.drop_last();
        let y = b.drop_last();
        assert forall|key: Seq<char>| has_key(x, key) == has_key(y, key) by {
            if has_key(x, key) {
                let p = key_position(x, key);
                assert(a[p].0 == key);
                assert(has_key(b, key));
                let q = key_position(b, key);
                if q == n {
                    lemma_key_unique(a, p, m);
                }
                assert(y[q].0 == key);
            }
            if has_key(y, key) {
                let q = key_position(y, key);
                assert(b[q].0 == key);
                assert(has_key(a, key));
                let p = key_position(a, key);
                if p == m {
                    lemma_key_unique(b, q, n);
                }
                assert(x[p].0 == key);
            }
        }
        lemma_same_keys(x, y);
        assert forall|k: int| 0 <= k < a.len() implies #[trigger] a[k].0 == b[k].0 by {
            if k < m {
                assert(x[k].0 == y[k].0);
            }
        }
    }
}

/// A map from text to values of `V`.
pub struct TextMap<V> {
    entries: Vec<(String, V)>,
}

impl<V> TextMap<V> {
    /// The entries, in the order in which they stand.
    pub closed spec fn entries(&self) -> Seq<(Seq<char>, V)> {
        self.entries@.map_values(|e: (String, V)| (e.0@, e.1))
    }

    /// The keys ascend strictly.
    pub open spec fn wf(&self) -> bool {
        ascending(self.entries())
    }

    /// A map without entries.
    pub fn new() -> (m: TextMap<V>)
        ensures
            m.wf(),
            m.entries() == Seq::<(Seq<char>, V)>::empty(),
            m@ == Map::<Seq<char>, V>::empty(),
    {
        let m = TextMap { entries: Vec::new() };
        assert(m.entries() =~= Seq::empty());
        assert(m@ =~= Map::empty());
        m
    }

    /// The number of entries.
    pub fn len(&self) -> (n: usize)
        ensures
            n == self.entries().len(),
    {
        self.entries.len()
    }

    /// The value of the entry at position `i`.
    pub fn value(&self, i: usize) -> (v: &V)
        requires
            i < self.entries().len(),
        ensures
            *v == self.entries()[i as int].1,
    {
        &self.entries[i].1
    }

    /// The key of the entry at position `i`.
    pub fn key(&self, i: usize) -> (k: &String)
        requires
            i < self.entries().len(),
        ensures
            k@ == self.entries()[i as int].0,
    {
        &self.entries[i].0
    }

    /// Adds an entry whose key comes after all others.
    pub fn push(&mut self, key: String, value: V)
        requires
            old(self).wf(),
            forall|j: int|
                0 <= j < old(self).entries().len() ==> text_before(
                    #[trigger] old(self).entries()[j].0,
                    key@,
                ),
        ensures
            final(self).wf(),
            final(self).entries() == old(self).entries().push((key@, value)),
    {
        let ghost grown = self.entries().push((key@, value));
        self.entries.push((key, value));
        assert(self.entries() =~= grown);
    }

    fn locate(&self, key: &str) -> (at: (usize, bool))
        requires
            self.wf(),
        ensures
            at.0 <= self.entries().len(),
            forall|j: int| 0 <= j < at.0 ==> text_before(#[trigger] self.entries()[j].0, key@),
            at.1 ==> at.0 < self.entries().len() && self.entries()[at.0 as int].0 == key@,
            !at.1 ==> forall|j: int|
                at.0 <= j < self.entries().len() ==> text_before(key@, #[trigger] self.entries()[j].0),
            at.1 == self@.dom().contains(key@),
    {
        let mut low: usize = 0;
        let mut high: usize = self.entries.len();
        while low < high
            invariant
                self.wf(),
                low <= high <= self.entries@.len(),
                self.entries@.len() == self.entries().len(),
                forall|j: int| 0 <= j < low ==> text_before(#[trigger] self.entries()[j].0, key@),
                forall|j: int|
                    high <= j < self.entries().len() ==> text_before(
                        key@,
                        #[trigger] self.entries()[j].0,
                    ),
            decreases high - low,
        {
            let mid: usize = low + (high - low) / 2;
            let ghost there = self.entries()[mid as int].0;
            match order_of(&self.entries[mid].0, key) {
                TextOrder::Before => {
                    proof {
                        assert forall|j: int| 0 <= j < mid + 1 implies text_before(
                            #[trigger] self.entries()[j].0,
                            key@,
                        ) by {
                            if j < mid {
                                lemma_text_transitive(self.entries()[j].0, there, key@);
                            }
                        }
                    }
                    low = mid + 1;
                },
                TextOrder::Same => {
                    proof {
                        lemma_map_entry(self.entries(), mid as int);
                    }
                    return (mid, true);
                },
                TextOrder::After => {
                    proof {
                        assert forall|j: int| mid <= j < self.entries().len() implies text_before(
                            key@,
                            #[trigger] self.entries()[j].0,
                        ) by {
                            if mid < j {
                                lemma_text_transitive(key@, there, self.entries()[j].0);
                            }
                        }
                    }
                    high = mid;
                },
            }
        }
        proof {
            if has_key(self.entries(), key@) {
                let i = choose|i: int|
                    0 <= i < self.entries().len() && #[trigger] self.entries()[i].0 == key@;
                lemma_text_irreflexive(key@);
                assert(i < low || low <= i);
            }
        }
        (low, false)
    }

    /// Whether `key` has a value.
    pub fn contains_key(&self, key: &str) -> (r: bool)
        requires
            self.wf(),
        ensures
            r == self@.dom().contains(key@),
    {
        self.locate(key).1
    }

    /// The value of `key`.
    pub fn get(&self, key: &str) -> (r: Option<&V>)
        requires
            self.wf(),
        ensures
            match r {
                Some(v) => self@.dom().contains(key@) && *v == self@[key@],
                None => !self@.dom().contains(key@),
            },
    {
        let (at, found) = self.locate(key);
        if found {
            proof {
                lemma_map_entry(self.entries(), at as int);
            }
            Some(&self.entries[at].1)
        } else {
            None
        }
    }

    /// Gives `key` the value `value`.
    pub fn insert(&mut self, key: String, value: V)
        requires
            old(self).wf(),
        ensures
            final(self).wf(),
            final(self)@ == old(self)@.insert(key@, value),
    {
        let (at, found) = self.locate(&key);
        let ghost before = self.entries();
        if found {
            let ghost k = before[at as int].0;
            self.entries.set(at, (key, value));
            proof {
                assert(self.entries() =~= before.update(at as int, (k, value)));
                lemma_update(before, at as int, value);
            }
        } else {
            let ghost k = key@;
            self.entries.insert(at, (key, value));
            proof {
                assert(self.entries() =~= before.insert(at as int, (k, value)));
                lemma_insert(before, at as int, k, value);
            }
        }
    }

    /// Takes the value of `key` out.
    pub fn remove(&mut self, key: &str) -> (r: Option<V>)
        requires
            old(self).wf(),
        ensures
            final(self).wf(),
            final(self)@ == old(self)@.remove(key@),
            match r {
                Some(v) => old(self)@.dom().contains(key@) && v == old(self)@[key@],
                None => !old(self)@.dom().contains(key@) && *final(self) == *old(self),
            },
    {
        let (at, found) = self.locate(key);
        let ghost before = self.entries();
        if found {
            let entry = self.entries.remove(at);
            proof {
                assert(self.entries() =~= before.remove(at as int));
                lemma_map_entry(before, at as int);
                lemma_remove(before, at as int);
            }
            Some(entry.1)
        } else {
            assert(self@.remove(key@) =~= self@);
            None
        }
    }
}

impl<V> View for TextMap<V> {
    type V = Map<Seq<char>, V>;

    open spec fn view(&self) -> Map<Seq<char>, V> {
        map_of(self.entries())
    }
}

} // verus!
