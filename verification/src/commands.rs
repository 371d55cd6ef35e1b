//! The draw commands of a renderer, in buckets under tags.
//!
//! A bucket is replaced as a whole or not at all, and an empty bucket is no
//! bucket: giving a tag no commands takes the tag out.

use crate::instruction::duplicate;
use crate::table::{
    distinct, lemma_put, lemma_without, lookup, present, put, slot, without, Table,
};
use oxygengine_composite_renderer::composite_renderer::Command;
use vstd::prelude::*;

verus! {

/// The commands of all buckets, one bucket after another in the table's
/// order.
pub open spec fn flatten(buckets: Seq<(Seq<char>, Vec<Command<'static>>)>) -> Seq<
    Command<'static>,
>
    decreases buckets.len(),
{
    if buckets.len() == 0 {
        Seq::empty()
    } else {
        flatten(buckets.drop_last()) + buckets.last().1@
    }
}

/// Whether every bucket holds at least one command.
pub open spec fn none_empty(buckets: Seq<(Seq<char>, Vec<Command<'static>>)>) -> bool {
    forall|i: int| 0 <= i < buckets.len() ==> (#[trigger] buckets[i]).1@.len() > 0
}

/// The buckets after a tag was given commands: the tag is taken out where
/// it was given none, and holds exactly the commands given otherwise.
pub open spec fn assign(
    buckets: Seq<(Seq<char>, Vec<Command<'static>>)>,
    tag: Seq<char>,
    commands: Vec<Command<'static>>,
) -> Seq<(Seq<char>, Vec<Command<'static>>)> {
    if commands@.len() == 0 {
        without(buckets, tag)
    } else {
        put(buckets, tag, commands)
    }
}

/// Giving a tag commands keeps the table's invariant. A tag that was given
/// none is gone afterwards; one that was given some holds them; every other
/// tag is as it was.
pub proof fn lemma_assign(
    buckets: Seq<(Seq<char>, Vec<Command<'static>>)>,
    tag: Seq<char>,
    commands: Vec<Command<'static>>,
)
    requires
        distinct(buckets),
        none_empty(buckets),
    ensures
        distinct(assign(buckets, tag, commands)),
        none_empty(assign(buckets, tag, commands)),
        commands@.len() == 0 ==> !present(assign(buckets, tag, commands), tag),
        commands@.len() > 0 ==> lookup(assign(buckets, tag, commands), tag) == Some(commands),
        forall|other: Seq<char>|
            other != tag ==> lookup(assign(buckets, tag, commands), other) == lookup(
                buckets,
                other,
            ),
{
    let after = assign(buckets, tag, commands);
    lemma_put(buckets, tag, commands);
    lemma_without(buckets, tag);
    assert forall|i: int| 0 <= i < after.len() implies (#[trigger] after[i]).1@.len() > 0 by {
        if commands@.len() == 0 {
            if present(buckets, tag) {
                let at = slot(buckets, tag);
                assert(after[i] == buckets[if i < at {
                    i
                } else {
                    i + 1
                }]);
            }
        } else if present(buckets, tag) {
            if i != slot(buckets, tag) {
                assert(after[i] == buckets[i]);
            }
        } else if i < buckets.len() {
            assert(after[i] == buckets[i]);
        }
    }
}

/// The buckets after each update was made in turn: an update is a tag and
/// the commands that it is given.
pub open spec fn applied(
    buckets: Seq<(Seq<char>, Vec<Command<'static>>)>,
    updates: Seq<(String, Vec<Command<'static>>)>,
) -> Seq<(Seq<char>, Vec<Command<'static>>)>
    decreases updates.len(),
{
    if updates.len() == 0 {
        buckets
    } else {
        assign(applied(buckets, updates.drop_last()), updates.last().0@, updates.last().1)
    }
}

/// The buckets of a renderer: the commands to draw, under their tags.
#[derive(Debug)]
pub struct RenderCommands {
    table: Table<Vec<Command<'static>>>,
}

impl RenderCommands {
    /// The buckets, each a tag and its commands, in the table's order.
    pub closed spec fn buckets(&self) -> Seq<(Seq<char>, Vec<Command<'static>>)> {
        self.table.pairs()
    }

    /// The table's invariant: no tag occurs twice and no bucket is empty.
    pub open spec fn wf(&self) -> bool {
        &&& distinct(self.buckets())
        &&& none_empty(self.buckets())
    }

    /// A table without buckets.
    pub fn new() -> (r: Self)
        ensures
            r.buckets() == Seq::<(Seq<char>, Vec<Command<'static>>)>::empty(),
            r.wf(),
    {
        RenderCommands { table: Table::new() }
    }

    /// The number of buckets.
    pub fn len(&self) -> (n: usize)
        ensures
            n == self.buckets().len(),
    {
        self.table.len()
    }

    /// The tag of the bucket at a place.
    pub fn tag_at(&self, index: usize) -> (r: &String)
        requires
            index < self.buckets().len(),
        ensures
            r@ == self.buckets()[index as int].0,
    {
        self.table.key_at(index)
    }

    /// The commands of the bucket at a place.
    pub fn commands_at(&self, index: usize) -> (r: &Vec<Command<'static>>)
        requires
            index < self.buckets().len(),
        ensures
            *r == self.buckets()[index as int].1,
    {
        self.table.value_at(index)
    }

    /// The commands under a tag, if it has a bucket.
    pub fn get(&self, tag: &str) -> (r: Option<&Vec<Command<'static>>>)
        requires
            self.wf(),
        ensures
            r is Some <==> present(self.buckets(), tag@),
            r matches Some(commands) ==> lookup(self.buckets(), tag@) == Some(*commands),
    {
        self.table.get(tag)
    }

    /// Replaces the bucket of a tag by the commands given, and takes the
    /// tag out where none are given.
    pub fn set(&mut self, tag: String, commands: Vec<Command<'static>>)
        requires
            old(self).wf(),
        ensures
            final(self).wf(),
            final(self).buckets() == assign(old(self).buckets(), tag@, commands),
            commands@.len() == 0 ==> !present(final(self).buckets(), tag@),
            commands@.len() > 0 ==> lookup(final(self).buckets(), tag@) == Some(commands),
    {
        proof {
            lemma_assign(self.buckets(), tag@, commands);
        }
        if commands.len() == 0 {
            self.table.remove(tag.as_str());
        } else {
            self.table.insert(tag, commands);
        }
    }

    /// Makes each update in turn: replaces the bucket of its tag by its
    /// commands, and takes the tag out where it has none.
    pub fn apply(&mut self, updates: Vec<(String, Vec<Command<'static>>)>)
        requires
            old(self).wf(),
        ensures
            final(self).wf(),
            final(self).buckets() == applied(old(self).buckets(), updates@),
    {
        let ghost all = updates@;
        for update in it: updates
            invariant
                it.seq() == all,
                self.wf(),
                self.buckets() == applied(old(self).buckets(), all.take(it.index() as int)),
        {
            proof {
                let upto = all.take(it.index() + 1);
                assert(upto.drop_last() =~= all.take(it.index() as int));
                assert(upto.last() == update);
            }
            let (tag, commands) = update;
            self.set(tag, commands);
        }
        proof {
            assert(all.take(all.len() as int) =~= all);
        }
    }

    /// The commands of all buckets, one bucket after another.
    pub fn flattened(&self) -> (r: Vec<Command<'static>>)
        ensures
            r@ == flatten(self.buckets()),
    {
        let mut all: Vec<Command<'static>> = Vec::new();
        let mut i: usize = 0;
        while i < self.table.len()
            invariant
                i <= self.buckets().len(),
                all@ == flatten(self.buckets().take(i as int)),
            decreases self.buckets().len() - i,
        {
            let bucket = self.table.value_at(i);
            let ghost before = all@;
            let mut j: usize = 0;
            while j < bucket.len()
                invariant
                    j <= bucket@.len(),
                    all@ == before + bucket@.take(j as int),
                decreases bucket@.len() - j,
            {
                all.push(duplicate(&bucket[j]));
                proof {
                    assert(bucket@.take(j + 1) =~= bucket@.take(j as int).push(bucket@[j as int]));
                    assert(all@ =~= before + bucket@.take(j + 1));
                }
                j += 1;
            }
            proof {
                let upto = self.buckets().take(i + 1);
                assert(bucket@.take(j as int) =~= bucket@);
                assert(upto.drop_last() =~= self.buckets().take(i as int));
                assert(upto.last() == self.buckets()[i as int]);
            }
            i += 1;
        }
        proof {
            assert(self.buckets().take(i as int) =~= self.buckets());
        }
        all
    }
}

} // verus!
