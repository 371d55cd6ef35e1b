//! The cameras of a renderer, kept in drawing order.
//!
//! Cameras draw in ascending `order`; cameras of equal `order` draw in the
//! order of their handles. The table keeps its entries in exactly that
//! sequence, so the drawing order is a fact about the table and not about
//! the moment at which it is walked.

use crate::affine::ViewSize;
use crate::camera::{Camera, Settings};
use crate::table::{
    distinct, lemma_insert_at, lemma_remove_at, lemma_slot_is, lemma_without, lookup, present,
    slot, without, Table,
};
use crate::text::{
    compare, lemma_precedes_total, lemma_precedes_transitive, precedes, Standing,
};
use vstd::prelude::*;

verus! {

/// Whether a camera of the given order and handle draws before another.
pub open spec fn ranks_before(
    order: i64,
    handle: Seq<char>,
    other_order: i64,
    other_handle: Seq<char>,
) -> bool {
    order < other_order || (order == other_order && precedes(handle, other_handle))
}

/// Whether the first entry draws before the second.
pub open spec fn draws_before(a: (Seq<char>, Camera), b: (Seq<char>, Camera)) -> bool {
    ranks_before(a.1.order, a.0, b.1.order, b.0)
}

/// Whether the entries stand in drawing order.
pub open spec fn ascending(pairs: Seq<(Seq<char>, Camera)>) -> bool {
    forall|i: int, j: int|
        0 <= i < j < pairs.len() ==> draws_before(#[trigger] pairs[i], #[trigger] pairs[j])
}

/// Whether two tables hold the same handles at the same places, each with
/// the same settings.
pub open spec fn same_settings(
    before: Seq<(Seq<char>, Camera)>,
    after: Seq<(Seq<char>, Camera)>,
) -> bool {
    &&& after.len() == before.len()
    &&& forall|i: int|
        0 <= i < before.len() ==> (#[trigger] after[i]).0 == before[i].0
            && after[i].1.same_settings(&before[i].1)
}

/// Whether every camera's cached inverse belongs to its cached view matrix.
pub open spec fn caches_fit(pairs: Seq<(Seq<char>, Camera)>) -> bool {
    forall|i: int| 0 <= i < pairs.len() ==> (#[trigger] pairs[i]).1.cache_fits()
}

/// The settings of the camera under a handle, if there is one.
pub open spec fn configured(pairs: Seq<(Seq<char>, Camera)>, handle: Seq<char>) -> Option<
    Settings,
> {
    match lookup(pairs, handle) {
        Some(camera) => Some(camera.settings()),
        None => None,
    }
}

/// Of two entries with different handles exactly one draws before the
/// other, and the drawing order is transitive.
pub proof fn lemma_ranks(
    a: (i64, Seq<char>),
    b: (i64, Seq<char>),
    c: (i64, Seq<char>),
)
    ensures
        a.1 != b.1 ==> (ranks_before(a.0, a.1, b.0, b.1) <==> !ranks_before(b.0, b.1, a.0, a.1)),
        !ranks_before(a.0, a.1, a.0, a.1),
        ranks_before(a.0, a.1, b.0, b.1) && ranks_before(b.0, b.1, c.0, c.1) ==> ranks_before(
            a.0,
            a.1,
            c.0,
            c.1,
        ),
{
    lemma_precedes_total(a.1, b.1);
    lemma_precedes_total(a.1, a.1);
    if precedes(a.1, b.1) && precedes(b.1, c.1) {
        lemma_precedes_transitive(a.1, b.1, c.1);
    }
}

/// Taking an entry out of a table in drawing order leaves it in drawing
/// order.
proof fn lemma_ascending_remove(pairs: Seq<(Seq<char>, Camera)>, at: int)
    requires
        ascending(pairs),
        0 <= at < pairs.len(),
    ensures
        ascending(pairs.remove(at)),
{
    let after = pairs.remove(at);
    assert forall|i: int, j: int| 0 <= i < j < after.len() implies draws_before(
        #[trigger] after[i],
        #[trigger] after[j],
    ) by {
        let a = if i < at {
            i
        } else {
            i + 1
        };
        let b = if j < at {
            j
        } else {
            j + 1
        };
        assert(after[i] == pairs[a] && after[j] == pairs[b]);
        assert(draws_before(pairs[a], pairs[b]));
    }
}

/// Putting an entry in between those that draw before it and those that
/// draw after it leaves the table in drawing order.
proof fn lemma_ascending_insert(
    pairs: Seq<(Seq<char>, Camera)>,
    at: int,
    entry: (Seq<char>, Camera),
)
    requires
        ascending(pairs),
        0 <= at <= pairs.len(),
        forall|k: int| 0 <= k < at ==> draws_before(#[trigger] pairs[k], entry),
        at < pairs.len() ==> draws_before(entry, pairs[at]),
    ensures
        ascending(pairs.insert(at, entry)),
{
    let after = pairs.insert(at, entry);
    assert forall|i: int, j: int| 0 <= i < j < after.len() implies draws_before(
        #[trigger] after[i],
        #[trigger] after[j],
    ) by {
        let a = if i < at {
            i
        } else {
            i - 1
        };
        let b = if j < at {
            j
        } else {
            j - 1
        };
        if i == at {
            assert(after[j] == pairs[b]);
            if b > at {
                assert(draws_before(pairs[at], pairs[b]));
                lemma_ranks(
                    (entry.1.order, entry.0),
                    (pairs[at].1.order, pairs[at].0),
                    (pairs[b].1.order, pairs[b].0),
                );
            }
        } else if j == at {
            assert(after[i] == pairs[a]);
        } else {
            assert(after[i] == pairs[a] && after[j] == pairs[b]);
            assert(draws_before(pairs[a], pairs[b]));
        }
    }
}

/// A table whose handles and settings are those of a table in drawing
/// order is in drawing order.
proof fn lemma_same_settings_ascending(
    before: Seq<(Seq<char>, Camera)>,
    after: Seq<(Seq<char>, Camera)>,
)
    requires
        ascending(before),
        same_settings(before, after),
    ensures
        ascending(after),
{
    assert forall|i: int, j: int| 0 <= i < j < after.len() implies draws_before(
        #[trigger] after[i],
        #[trigger] after[j],
    ) by {
        assert(draws_before(before[i], before[j]));
    }
}

/// A table whose handles are those of a table without a handle twice has
/// no handle twice.
proof fn lemma_same_settings_distinct(
    before: Seq<(Seq<char>, Camera)>,
    after: Seq<(Seq<char>, Camera)>,
)
    requires
        distinct(before),
        same_settings(before, after),
    ensures
        distinct(after),
{
    assert forall|i: int, j: int| 0 <= i < j < after.len() implies (#[trigger] after[i]).0 != (
    #[trigger] after[j]).0 by {
        assert(before[i].0 != before[j].0);
    }
}

/// Tables that hold the same handles at the same places with the same
/// settings have the same settings under every handle.
pub proof fn lemma_same_settings_configured(
    before: Seq<(Seq<char>, Camera)>,
    after: Seq<(Seq<char>, Camera)>,
)
    requires
        distinct(before),
        same_settings(before, after),
    ensures
        distinct(after),
        forall|handle: Seq<char>| configured(after, handle) == configured(before, handle),
{
    lemma_same_settings_distinct(before, after);
    assert forall|handle: Seq<char>| configured(after, handle) == configured(
        before,
        handle,
    ) by {
        if present(before, handle) {
            let at = slot(before, handle);
            assert(after[at].0 == before[at].0);
            lemma_slot_is(after, handle, at);
        } else if present(after, handle) {
            let at = slot(after, handle);
            assert(after[at].0 == before[at].0);
        }
    }
}

/// The drawing order is settled by which handles there are and by the
/// settings under each: two tables in drawing order that agree on those
/// hold the same handles at the same places.
pub proof fn lemma_drawing_order_unique(
    a: Seq<(Seq<char>, Camera)>,
    b: Seq<(Seq<char>, Camera)>,
)
    requires
        distinct(a),
        ascending(a),
        distinct(b),
        ascending(b),
        forall|handle: Seq<char>| configured(a, handle) == configured(b, handle),
    ensures
        same_settings(a, b),
    decreases a.len(),
{
    if a.len() == 0 {
        if b.len() > 0 {
            lemma_slot_is(b, b[0].0, 0);
            assert(configured(a, b[0].0) == configured(b, b[0].0));
        }
    } else {
        lemma_slot_is(a, a[0].0, 0);
        assert(configured(b, a[0].0) == configured(a, a[0].0));
        let k = slot(b, a[0].0);
        assert(b[k].0 == a[0].0);
        lemma_slot_is(b, a[0].0, k);
        lemma_slot_is(b, b[0].0, 0);
        assert(configured(a, b[0].0) == configured(b, b[0].0));
        let m = slot(a, b[0].0);
        assert(a[m].0 == b[0].0);
        lemma_slot_is(a, b[0].0, m);
        if k != 0 && m != 0 {
            assert(draws_before(b[0], b[k]));
            assert(draws_before(a[0], a[m]));
            assert(b[0].0 != b[k].0);
            lemma_ranks(
                (b[0].1.order, b[0].0),
                (a[0].1.order, a[0].0),
                (a[0].1.order, a[0].0),
            );
        }
        assert(a[0].0 == b[0].0);
        lemma_slot_is(b, a[0].0, 0);
        let x = a.drop_first();
        let y = b.drop_first();
        assert(x =~= a.remove(0));
        assert(y =~= b.remove(0));
        lemma_remove_at(a, 0);
        lemma_remove_at(b, 0);
        lemma_ascending_remove(a, 0);
        lemma_ascending_remove(b, 0);
        assert forall|handle: Seq<char>| configured(x, handle) == configured(y, handle) by {
            if handle != a[0].0 {
                assert(configured(a, handle) == configured(b, handle));
            }
        }
        lemma_drawing_order_unique(x, y);
        assert forall|i: int| 0 <= i < a.len() implies (#[trigger] b[i]).0 == a[i].0
            && b[i].1.same_settings(&a[i].1) by {
            if i > 0 {
                assert(y[i - 1] == b[i]);
                assert(x[i - 1] == a[i]);
            }
        }
    }
}

/// The cameras of a renderer under their handles, in drawing order.
#[derive(Debug)]
pub struct Cameras {
    table: Table<Camera>,
}

impl Cameras {
    /// The entries, each a handle and its camera, in drawing order.
    pub closed spec fn pairs(&self) -> Seq<(Seq<char>, Camera)> {
        self.table.pairs()
    }

    /// The table's invariant: no handle occurs twice, and the entries stand
    /// in drawing order.
    pub open spec fn wf(&self) -> bool {
        &&& distinct(self.pairs())
        &&& ascending(self.pairs())
    }

    /// An empty table.
    pub fn new() -> (r: Self)
        ensures
            r.pairs() == Seq::<(Seq<char>, Camera)>::empty(),
            r.wf(),
    {
        Cameras { table: Table::new() }
    }

    /// The number of cameras.
    pub fn len(&self) -> (n: usize)
        ensures
            n == self.pairs().len(),
    {
        self.table.len()
    }

    /// The handle of the camera that draws at a place.
    pub fn handle_at(&self, index: usize) -> (r: &String)
        requires
            index < self.pairs().len(),
        ensures
            r@ == self.pairs()[index as int].0,
    {
        self.table.key_at(index)
    }

    /// The camera that draws at a place.
    pub fn camera_at(&self, index: usize) -> (r: &Camera)
        requires
            index < self.pairs().len(),
        ensures
            *r == self.pairs()[index as int].1,
    {
        self.table.value_at(index)
    }

    /// The camera under a handle, if there is one.
    pub fn get(&self, handle: &str) -> (r: Option<&Camera>)
        requires
            self.wf(),
        ensures
            r is Some <==> present(self.pairs(), handle@),
            r matches Some(camera) ==> lookup(self.pairs(), handle@) == Some(*camera),
    {
        self.table.get(handle)
    }

    /// Takes the camera under a handle out, and returns it.
    pub fn remove(&mut self, handle: &str) -> (r: Option<Camera>)
        requires
            old(self).wf(),
        ensures
            final(self).wf(),
            final(self).pairs() == without(old(self).pairs(), handle@),
            r == lookup(old(self).pairs(), handle@),
    {
        proof {
            if present(self.pairs(), handle@) {
                lemma_ascending_remove(self.pairs(), slot(self.pairs(), handle@));
            }
        }
        self.table.remove(handle)
    }

    /// Puts a camera under a handle, in place of the one that was there if
    /// there was one, at the place at which it is to draw.
    pub fn place(&mut self, handle: String, camera: Camera)
        requires
            old(self).wf(),
        ensures
            final(self).wf(),
            lookup(final(self).pairs(), handle@) == Some(camera),
            forall|other: Seq<char>|
                other != handle@ ==> lookup(final(self).pairs(), other) == lookup(
                    old(self).pairs(),
                    other,
                ),
            final(self).pairs().len() == without(old(self).pairs(), handle@).len() + 1,
    {
        proof {
            lemma_without(self.pairs(), handle@);
            if present(self.pairs(), handle@) {
                lemma_ascending_remove(self.pairs(), slot(self.pairs(), handle@));
            }
        }
        self.table.remove(handle.as_str());
        let ghost rest = self.pairs();
        let ghost entry = (handle@, camera);
        let mut at: usize = 0;
        let mut found = false;
        while !found && at < self.table.len()
            invariant
                self.pairs() == rest,
                entry == (handle@, camera),
                at <= rest.len(),
                !present(rest, handle@),
                forall|k: int| 0 <= k < at ==> draws_before(#[trigger] rest[k], entry),
                found ==> at < rest.len() && draws_before(entry, rest[at as int]),
            decreases rest.len() - at + (if found { 0int } else { 1int }),
        {
            if Self::goes_before(
                camera.order,
                handle.as_str(),
                self.table.value_at(at).order,
                self.table.key_at(at).as_str(),
            ) {
                found = true;
            } else {
                proof {
                    let there = rest[at as int];
                    assert(there.0 != handle@);
                    lemma_ranks(
                        (camera.order, handle@),
                        (there.1.order, there.0),
                        (there.1.order, there.0),
                    );
                }
                at += 1;
            }
        }
        proof {
            lemma_ascending_insert(rest, at as int, entry);
            lemma_insert_at(rest, at as int, handle@, camera);
        }
        self.table.insert_at(at, handle, camera);
    }

    /// Fills every camera's cache from its settings, for a surface of the
    /// given size.
    pub fn refresh_caches(&mut self, view_size: ViewSize)
        requires
            old(self).wf(),
        ensures
            final(self).wf(),
            same_settings(old(self).pairs(), final(self).pairs()),
            caches_fit(final(self).pairs()),
    {
        let mut i: usize = 0;
        while i < self.table.len()
            invariant
                same_settings(old(self).pairs(), self.pairs()),
                i <= self.pairs().len(),
                forall|k: int| 0 <= k < i ==> (#[trigger] self.pairs()[k]).1.cache_fits(),
            decreases self.pairs().len() - i,
        {
            let ghost before = self.pairs();
            let camera = self.table.value_mut(i);
            camera.refresh_cache(view_size);
            proof {
                let after = self.pairs();
                assert forall|k: int| 0 <= k < before.len() implies (#[trigger] after[k]).0
                    == old(self).pairs()[k].0 && after[k].1.same_settings(
                    &old(self).pairs()[k].1,
                ) by {
                    assert(before[k].0 == old(self).pairs()[k].0);
                }
                assert forall|k: int| 0 <= k < i + 1 implies (
                #[trigger] after[k]).1.cache_fits() by {
                    if k < i {
                        assert(before[k].1.cache_fits());
                    }
                }
            }
            i += 1;
        }
        proof {
            lemma_same_settings_ascending(old(self).pairs(), self.pairs());
            lemma_same_settings_distinct(old(self).pairs(), self.pairs());
        }
    }

    /// Whether a camera of the given order and handle draws before another.
    fn goes_before(order: i64, handle: &str, other_order: i64, other_handle: &str) -> (r: bool)
        ensures
            r == ranks_before(order, handle@, other_order, other_handle@),
    {
        if order < other_order {
            true
        } else if order == other_order {
            proof {
                lemma_precedes_total(handle@, other_handle@);
            }
            match compare(handle, other_handle) {
                Standing::Before => true,
                _ => false,
            }
        } else {
            false
        }
    }
}

} // verus!
