//! A table of values under string keys.
//!
//! The table keeps its entries in a sequence in which no key occurs twice.
//! A new key goes to the end, a replaced value keeps its place, and removing
//! an entry closes the gap, so walking the table is repeatable: it depends on
//! nothing but the calls that built it.

use crate::text::same;
use vstd::prelude::*;

verus! {

/// Whether some entry of `pairs` has the key.
pub open spec fn present<V>(pairs: Seq<(Seq<char>, V)>, key: Seq<char>) -> bool {
    exists|i: int| 0 <= i < pairs.len() && (#[trigger] pairs[i]).0 == key
}

/// The place of an entry with the key, where there is one.
pub open spec fn slot<V>(pairs: Seq<(Seq<char>, V)>, key: Seq<char>) -> int {
    choose|i: int| 0 <= i < pairs.len() && (#[trigger] pairs[i]).0 == key
}

/// Whether no key occurs twice.
pub open spec fn distinct<V>(pairs: Seq<(Seq<char>, V)>) -> bool {
    forall|i: int, j: int|
        0 <= i < j < pairs.len() ==> (#[trigger] pairs[i]).0 != (#[trigger] pairs[j]).0
}

/// The value under the key, if there is one.
pub open spec fn lookup<V>(pairs: Seq<(Seq<char>, V)>, key: Seq<char>) -> Option<V> {
    if present(pairs, key) {
        Some(pairs[slot(pairs, key)].1)
    } else {
        None
    }
}

/// The entries after the key was given the value: in place where the key
/// was there, at the end where it was not.
pub open spec fn put<V>(pairs: Seq<(Seq<char>, V)>, key: Seq<char>, value: V) -> Seq<
    (Seq<char>, V),
> {
    if present(pairs, key) {
        pairs.update(slot(pairs, key), (key, value))
    } else {
        pairs.push((key, value))
    }
}

/// The entries after the key was taken out.
pub open spec fn without<V>(pairs: Seq<(Seq<char>, V)>, key: Seq<char>) -> Seq<(Seq<char>, V)> {
    if present(pairs, key) {
        pairs.remove(slot(pairs, key))
    } else {
        pairs
    }
}

/// Where keys are distinct, the entry found at a place is the one that the
/// key stands for.
pub proof fn lemma_slot_is<V>(pairs: Seq<(Seq<char>, V)>, key: Seq<char>, i: int)
    requires
        distinct(pairs),
        0 <= i < pairs.len(),
        pairs[i].0 == key,
    ensures
        present(pairs, key),
        slot(pairs, key) == i,
        lookup(pairs, key) == Some(pairs[i].1),
{
    let j = slot(pairs, key);
    assert(pairs[j].0 == key);
    if i < j {
        assert(pairs[i].0 != pairs[j].0);
    } else if j < i {
        assert(pairs[j].0 != pairs[i].0);
    }
}

/// Giving a key a value keeps the keys distinct, makes that value the one
/// found under the key, and leaves every other key as it was.
pub proof fn lemma_put<V>(pairs: Seq<(Seq<char>, V)>, key: Seq<char>, value: V)
    requires
        distinct(pairs),
    ensures
        distinct(put(pairs, key, value)),
        lookup(put(pairs, key, value), key) == Some(value),
        forall|other: Seq<char>|
            other != key ==> lookup(put(pairs, key, value), other) == lookup(pairs, other),
{
    let after = put(pairs, key, value);
    let at = if present(pairs, key) {
        slot(pairs, key)
    } else {
        pairs.len() as int
    };
    assert(after.len() > at && after[at] == (key, value));
    assert forall|i: int, j: int| 0 <= i < j < after.len() implies (#[trigger] after[i]).0 != (
    #[trigger] after[j]).0 by {
        if present(pairs, key) {
            assert(after[i].0 == pairs[i].0 && after[j].0 == pairs[j].0);
        } else if j == pairs.len() {
            assert(after[i] == pairs[i]);
        } else {
            assert(after[i] == pairs[i] && after[j] == pairs[j]);
        }
    }
    lemma_slot_is(after, key, at);
    assert forall|other: Seq<char>| other != key implies lookup(after, other) == lookup(
        pairs,
        other,
    ) by {
        if present(pairs, other) {
            let k = slot(pairs, other);
            assert(after[k] == pairs[k]);
            lemma_slot_is(after, other, k);
        } else if present(after, other) {
            let k = slot(after, other);
            assert(k != at);
            assert(after[k] == pairs[k]);
        }
    }
}

/// Taking a key out keeps the keys distinct, leaves nothing under that key,
/// and leaves every other key as it was.
pub proof fn lemma_without<V>(pairs: Seq<(Seq<char>, V)>, key: Seq<char>)
    requires
        distinct(pairs),
    ensures
        distinct(without(pairs, key)),
        !present(without(pairs, key), key),
        forall|other: Seq<char>|
            other != key ==> lookup(without(pairs, key), other) == lookup(pairs, other),
{
    if present(pairs, key) {
        lemma_remove_at(pairs, slot(pairs, key));
    }
}

/// Taking the entry at a place out keeps the keys distinct, leaves nothing
/// under its key, and leaves every other key as it was.
pub proof fn lemma_remove_at<V>(pairs: Seq<(Seq<char>, V)>, at: int)
    requires
        distinct(pairs),
        0 <= at < pairs.len(),
    ensures
        distinct(pairs.remove(at)),
        !present(pairs.remove(at), pairs[at].0),
        forall|other: Seq<char>|
            other != pairs[at].0 ==> lookup(pairs.remove(at), other) == lookup(pairs, other),
{
    let key = pairs[at].0;
    let after = pairs.remove(at);
    assert forall|i: int| 0 <= i < after.len() implies #[trigger] after[i] == pairs[if i < at {
        i
    } else {
        i + 1
    }] by {}
    assert forall|i: int, j: int| 0 <= i < j < after.len() implies (#[trigger] after[i]).0 != (
    #[trigger] after[j]).0 by {
        let a = if i < at {
            i
        } else {
            i + 1
        };
        let b = if j < at {
            j
        } else {
            j + 1
        };
        assert(after[i] == pairs[a] && after[j] == pairs[b]);
        assert(pairs[a].0 != pairs[b].0);
    }
    if present(after, key) {
        let k = slot(after, key);
        let a = if k < at {
            k
        } else {
            k + 1
        };
        assert(after[k] == pairs[a]);
        if a < at {
            assert(pairs[a].0 != pairs[at].0);
        } else {
            assert(pairs[at].0 != pairs[a].0);
        }
    }
    assert forall|other: Seq<char>| other != key implies lookup(after, other) == lookup(
        pairs,
        other,
    ) by {
        if present(pairs, other) {
            let k = slot(pairs, other);
            let b = if k < at {
                k
            } else {
                k - 1
            };
            assert(after[b] == pairs[k]);
            lemma_slot_is(after, other, b);
        } else if present(after, other) {
            let k = slot(after, other);
            let a = if k < at {
                k
            } else {
                k + 1
            };
            assert(after[k] == pairs[a]);
        }
    }
}

/// Putting an entry with a new key in at a place keeps the keys distinct,
/// makes its value the one found under the key, and leaves every other key
/// as it was.
pub proof fn lemma_insert_at<V>(pairs: Seq<(Seq<char>, V)>, at: int, key: Seq<char>, value: V)
    requires
        distinct(pairs),
        !present(pairs, key),
        0 <= at <= pairs.len(),
    ensures
        distinct(pairs.insert(at, (key, value))),
        lookup(pairs.insert(at, (key, value)), key) == Some(value),
        forall|other: Seq<char>|
            other != key ==> lookup(pairs.insert(at, (key, value)), other) == lookup(
                pairs,
                other,
            ),
{
    let after = pairs.insert(at, (key, value));
    assert forall|i: int| 0 <= i < after.len() && i != at implies #[trigger] after[i] == pairs[if i
        < at {
        i
    } else {
        i - 1
    }] by {}
    assert(after[at] == (key, value));
    assert forall|i: int, j: int| 0 <= i < j < after.len() implies (#[trigger] after[i]).0 != (
    #[trigger] after[j]).0 by {
        let a = if i < at {
            i
        } else {
            i - 1
        };
        let b = if j < at {
            j
        } else {
            j - 1
        };
        if i == at {
            assert(after[j] == pairs[b]);
        } else if j == at {
            assert(after[i] == pairs[a]);
        } else {
            assert(after[i] == pairs[a] && after[j] == pairs[b]);
            assert(pairs[a].0 != pairs[b].0);
        }
    }
    lemma_slot_is(after, key, at);
    assert forall|other: Seq<char>| other != key implies lookup(after, other) == lookup(
        pairs,
        other,
    ) by {
        if present(pairs, other) {
            let k = slot(pairs, other);
            let b = if k < at {
                k
            } else {
                k + 1
            };
            assert(after[b] == pairs[k]);
            lemma_slot_is(after, other, b);
        } else if present(after, other) {
            let k = slot(after, other);
            let a = if k < at {
                k
            } else {
                k - 1
            };
            assert(after[k] == pairs[a]);
        }
    }
}

#[derive(Debug)]
struct Entry<V> {
    key: String,
    value: V,
}

/// A table of values under string keys, in a repeatable order.
#[derive(Debug)]
pub struct Table<V> {
    entries: Vec<Entry<V>>,
}

impl<V> Table<V> {
    /// The entries, each a key and its value, in the table's order.
    pub closed spec fn pairs(&self) -> Seq<(Seq<char>, V)> {
        self.entries@.map_values(|e: Entry<V>| (e.key@, e.value))
    }

    /// The table's invariant: no key occurs twice.
    pub open spec fn wf(&self) -> bool {
        distinct(self.pairs())
    }

    /// An empty table.
    pub fn new() -> (r: Self)
        ensures
            r.pairs() == Seq::<(Seq<char>, V)>::empty(),
            r.wf(),
    {
        let r = Table { entries: Vec::new() };
        assert(r.pairs() =~= Seq::<(Seq<char>, V)>::empty());
        r
    }

    /// The number of entries.
    pub fn len(&self) -> (n: usize)
        ensures
            n == self.pairs().len(),
    {
        self.entries.len()
    }

    /// The key of the entry at a place.
    pub fn key_at(&self, index: usize) -> (r: &String)
        requires
            index < self.pairs().len(),
        ensures
            r@ == self.pairs()[index as int].0,
    {
        &self.entries[index].key
    }

    /// The value of the entry at a place.
    pub fn value_at(&self, index: usize) -> (r: &V)
        requires
            index < self.pairs().len(),
        ensures
            *r == self.pairs()[index as int].1,
    {
        &self.entries[index].value
    }

    /// The value of the entry at a place, to be changed where it stands.
    pub fn value_mut(&mut self, index: usize) -> (r: &mut V)
        requires
            index < old(self).pairs().len(),
        ensures
            *r == old(self).pairs()[index as int].1,
            final(self).pairs() == old(self).pairs().update(
                index as int,
                (old(self).pairs()[index as int].0, *final(r)),
            ),
    {
        &mut self.entries[index].value
    }

    /// The place of the key, if the table has it.
    pub fn position(&self, key: &str) -> (r: Option<usize>)
        ensures
            r is Some <==> present(self.pairs(), key@),
            r matches Some(i) ==> i < self.pairs().len() && self.pairs()[i as int].0 == key@,
            r matches Some(i) ==> forall|k: int|
                0 <= k < i ==> (#[trigger] self.pairs()[k]).0 != key@,
            self.wf() ==> (r matches Some(i) ==> i == slot(self.pairs(), key@)),
    {
        let mut i: usize = 0;
        while i < self.entries.len()
            invariant
                i <= self.entries.len(),
                forall|k: int| 0 <= k < i ==> (#[trigger] self.pairs()[k]).0 != key@,
            decreases self.entries.len() - i,
        {
            if same(self.entries[i].key.as_str(), key) {
                proof {
                    assert(self.pairs()[i as int].0 == key@);
                    if self.wf() {
                        lemma_slot_is(self.pairs(), key@, i as int);
                    }
                }
                return Some(i);
            }
            i += 1;
        }
        None
    }

    /// The value under the key, if the table has it.
    pub fn get(&self, key: &str) -> (r: Option<&V>)
        requires
            self.wf(),
        ensures
            r is Some <==> present(self.pairs(), key@),
            r matches Some(v) ==> lookup(self.pairs(), key@) == Some(*v),
    {
        match self.position(key) {
            Some(i) => Some(&self.entries[i].value),
            None => None,
        }
    }

    /// Gives the key the value, and returns the value that was under it.
    pub fn insert(&mut self, key: String, value: V) -> (r: Option<V>)
        requires
            old(self).wf(),
        ensures
            final(self).wf(),
            final(self).pairs() == put(old(self).pairs(), key@, value),
            r == lookup(old(self).pairs(), key@),
    {
        proof {
            lemma_put(self.pairs(), key@, value);
        }
        match self.position(key.as_str()) {
            Some(i) => {
                let mut entry = Entry { key, value };
                std::mem::swap(&mut self.entries[i], &mut entry);
                assert(self.pairs() =~= put(old(self).pairs(), key@, value));
                Some(entry.value)
            },
            None => {
                self.entries.push(Entry { key, value });
                assert(self.pairs() =~= put(old(self).pairs(), key@, value));
                None
            },
        }
    }

    /// Puts an entry with a new key in at a place, moving the later ones up.
    pub fn insert_at(&mut self, index: usize, key: String, value: V)
        requires
            old(self).wf(),
            index <= old(self).pairs().len(),
            !present(old(self).pairs(), key@),
        ensures
            final(self).wf(),
            final(self).pairs() == old(self).pairs().insert(index as int, (key@, value)),
    {
        proof {
            lemma_insert_at(self.pairs(), index as int, key@, value);
        }
        self.entries.insert(index, Entry { key, value });
        assert(self.pairs() =~= old(self).pairs().insert(index as int, (key@, value)));
    }

    /// Takes the entry at a place out, and returns its key and value.
    pub fn remove_at(&mut self, index: usize) -> (r: (String, V))
        requires
            old(self).wf(),
            index < old(self).pairs().len(),
        ensures
            final(self).wf(),
            final(self).pairs() == old(self).pairs().remove(index as int),
            (r.0@, r.1) == old(self).pairs()[index as int],
    {
        proof {
            lemma_remove_at(self.pairs(), index as int);
        }
        let entry = self.entries.remove(index);
        assert(self.pairs() =~= old(self).pairs().remove(index as int));
        (entry.key, entry.value)
    }

    /// Takes the key out, and returns the value that was under it.
    pub fn remove(&mut self, key: &str) -> (r: Option<V>)
        requires
            old(self).wf(),
        ensures
            final(self).wf(),
            final(self).pairs() == without(old(self).pairs(), key@),
            r == lookup(old(self).pairs(), key@),
    {
        proof {
            lemma_without(self.pairs(), key@);
        }
        match self.position(key) {
            Some(i) => {
                let (_, value) = self.remove_at(i);
                Some(value)
            },
            None => None,
        }
    }
}

} // verus!
