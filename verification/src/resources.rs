//! The drawables that a renderer holds for its callers.
//!
//! A resource is registered under a key of the caller's choice, by which
//! draw commands refer to it, and is addressed afterwards by the handle that
//! registering it returned. The renderer owns it until it is removed; then
//! it goes back to the caller.

use crate::error::{Error, ErrorView};
use crate::handle::{fresh, is_handle_text, parses};
use crate::table::{
    distinct, lemma_put, lemma_slot_is, lemma_without, lookup, present, put, slot, without, Table,
};
use vstd::prelude::*;

verus! {

/// What a renderer holds: the key that each handle stands for, and the
/// resource under each key.
pub struct Holdings<R> {
    /// Handle to key.
    pub names: Seq<(Seq<char>, Seq<char>)>,
    /// Key to resource.
    pub held: Seq<(Seq<char>, R)>,
}

impl<R> Holdings<R> {
    /// The invariant: no handle and no key occurs twice.
    pub open spec fn wf(self) -> bool {
        &&& distinct(self.names)
        &&& distinct(self.held)
    }

    /// The holdings after a resource was registered: the handle stands for
    /// the key, and the key for the resource.
    pub open spec fn add(self, handle: Seq<char>, key: Seq<char>, resource: R) -> Holdings<R> {
        Holdings { names: put(self.names, handle, key), held: put(self.held, key, resource) }
    }

    /// The resource that removing a handle returns: the one under the key
    /// that the handle stands for.
    pub open spec fn taken(self, handle: Seq<char>) -> Option<R> {
        match lookup(self.names, handle) {
            Some(key) => lookup(self.held, key),
            None => None,
        }
    }

    /// The holdings after a handle was removed: the handle is gone, and so
    /// is what was under its key.
    pub open spec fn remove(self, handle: Seq<char>) -> Holdings<R> {
        match lookup(self.names, handle) {
            Some(key) => Holdings {
                names: without(self.names, handle),
                held: without(self.held, key),
            },
            None => self,
        }
    }
}

/// Registering keeps the invariant.
pub proof fn lemma_add_wf<R>(h: Holdings<R>, handle: Seq<char>, key: Seq<char>, resource: R)
    requires
        h.wf(),
    ensures
        h.add(handle, key, resource).wf(),
{
    lemma_put(h.names, handle, key);
    lemma_put(h.held, key, resource);
}

/// Removing keeps the invariant.
pub proof fn lemma_remove_wf<R>(h: Holdings<R>, handle: Seq<char>)
    requires
        h.wf(),
    ensures
        h.remove(handle).wf(),
{
    lemma_without(h.names, handle);
    if let Some(key) = lookup(h.names, handle) {
        lemma_without(h.held, key);
    }
}

/// Entries whose values are strings, with each value as its characters.
pub open spec fn texts(pairs: Seq<(Seq<char>, String)>) -> Seq<(Seq<char>, Seq<char>)> {
    pairs.map_values(|pair: (Seq<char>, String)| (pair.0, pair.1@))
}

/// Entries whose keys are distinct once their values are read as
/// characters have distinct keys.
proof fn lemma_texts_distinct(pairs: Seq<(Seq<char>, String)>)
    requires
        distinct(texts(pairs)),
    ensures
        distinct(pairs),
{
    let read = texts(pairs);
    assert forall|i: int, j: int| 0 <= i < j < pairs.len() implies (#[trigger] pairs[i]).0 != (
    #[trigger] pairs[j]).0 by {
        assert(read[i].0 != read[j].0);
    }
}

/// Reading the values as characters changes neither which keys there are
/// nor what is found under them.
proof fn lemma_texts(pairs: Seq<(Seq<char>, String)>, key: Seq<char>)
    requires
        distinct(pairs),
    ensures
        distinct(texts(pairs)),
        present(texts(pairs), key) == present(pairs, key),
        present(pairs, key) ==> slot(texts(pairs), key) == slot(pairs, key) && lookup(
            texts(pairs),
            key,
        ) == Some(lookup(pairs, key)->0@),
{
    let read = texts(pairs);
    assert forall|i: int, j: int| 0 <= i < j < read.len() implies (#[trigger] read[i]).0 != (
    #[trigger] read[j]).0 by {
        assert(pairs[i].0 != pairs[j].0);
    }
    if present(pairs, key) {
        let at = slot(pairs, key);
        assert(read[at].0 == key);
        lemma_slot_is(read, key, at);
    } else if present(read, key) {
        let at = slot(read, key);
        assert(pairs[at].0 == key);
    }
}

/// Giving a key a value and reading the values as characters can be done
/// in either order.
proof fn lemma_texts_put(pairs: Seq<(Seq<char>, String)>, key: Seq<char>, value: String)
    requires
        distinct(pairs),
    ensures
        texts(put(pairs, key, value)) == put(texts(pairs), key, value@),
{
    lemma_texts(pairs, key);
    assert(texts(put(pairs, key, value)) =~= put(texts(pairs), key, value@));
}

/// Taking a key out and reading the values as characters can be done in
/// either order.
proof fn lemma_texts_without(pairs: Seq<(Seq<char>, String)>, key: Seq<char>)
    requires
        distinct(pairs),
    ensures
        texts(without(pairs, key)) == without(texts(pairs), key),
{
    lemma_texts(pairs, key);
    assert(texts(without(pairs, key)) =~= without(texts(pairs), key));
}

/// The resources of one kind that a renderer holds.
#[derive(Debug)]
pub struct Resources<R> {
    names: Table<String>,
    held: Table<R>,
}

impl<R> View for Resources<R> {
    type V = Holdings<R>;

    closed spec fn view(&self) -> Holdings<R> {
        Holdings { names: texts(self.names.pairs()), held: self.held.pairs() }
    }
}

impl<R> Resources<R> {
    /// The invariant: no handle and no key occurs twice.
    pub open spec fn wf(&self) -> bool {
        self@.wf()
    }

    /// Nothing held.
    pub fn new() -> (r: Self)
        ensures
            r.wf(),
            r@.names == Seq::<(Seq<char>, Seq<char>)>::empty(),
            r@.held == Seq::<(Seq<char>, R)>::empty(),
    {
        let r = Resources { names: Table::new(), held: Table::new() };
        assert(r@.names =~= Seq::<(Seq<char>, Seq<char>)>::empty());
        r
    }

    /// The number of handles given out and not removed.
    pub fn len(&self) -> (n: usize)
        ensures
            n == self@.names.len(),
    {
        self.names.len()
    }

    /// The resource that a handle stands for, if it stands for one.
    pub fn get(&self, handle: &str) -> (r: Option<&R>)
        requires
            self.wf(),
        ensures
            r is Some <==> self@.taken(handle@) is Some,
            r matches Some(resource) ==> self@.taken(handle@) == Some(*resource),
    {
        proof {
            lemma_texts_distinct(self.names.pairs());
            lemma_texts(self.names.pairs(), handle@);
        }
        match self.names.get(handle) {
            Some(key) => self.held.get(key.as_str()),
            None => None,
        }
    }

    /// Registers a resource under a key, to be addressed by the handle
    /// given. What the handle or the key stood for before is replaced.
    pub fn hold(&mut self, handle: String, key: String, resource: R)
        requires
            old(self).wf(),
        ensures
            final(self).wf(),
            final(self)@ == old(self)@.add(handle@, key@, resource),
    {
        proof {
            lemma_add_wf(self@, handle@, key@, resource);
            lemma_texts_distinct(self.names.pairs());
            lemma_texts_put(self.names.pairs(), handle@, key);
        }
        let name = key.clone();
        self.held.insert(name, resource);
        self.names.insert(handle, key);
    }

    /// Registers a resource under a key and returns the handle by which it
    /// is addressed from then on. A resource that is none is refused.
    pub fn add(&mut self, key: String, resource: Option<R>) -> (r: Result<String, Error>)
        requires
            old(self).wf(),
        ensures
            final(self).wf(),
            match r {
                Ok(handle) => {
                    &&& resource is Some
                    &&& is_handle_text(handle@)
                    &&& final(self)@ == old(self)@.add(handle@, key@, resource->0)
                },
                Err(error) => resource is None && error@ == ErrorView::InvalidResource
                    && final(self)@ == old(self)@,
            },
    {
        match resource {
            Some(resource) => {
                let handle = fresh();
                let given = handle.clone();
                self.hold(handle, key, resource);
                Ok(given)
            },
            None => Err(Error::InvalidResource),
        }
    }

    /// Removes a handle whose text was or was not found to be in the form
    /// of a handle, and returns the resource that it stood for.
    pub fn release(&mut self, handle: &str, well_formed: bool) -> (r: Result<R, Error>)
        requires
            old(self).wf(),
        ensures
            final(self).wf(),
            match r {
                Ok(resource) => well_formed && old(self)@.taken(handle@) == Some(resource)
                    && final(self)@ == old(self)@.remove(handle@),
                Err(error) => {
                    &&& error@ == (if well_formed {
                        ErrorView::ResourceNotFound { handle: handle@ }
                    } else {
                        ErrorView::MalformedHandle { handle: handle@ }
                    })
                    &&& !well_formed || old(self)@.taken(handle@) is None
                    &&& final(self)@ == (if well_formed {
                        old(self)@.remove(handle@)
                    } else {
                        old(self)@
                    })
                },
            },
    {
        if !well_formed {
            return Err(Error::malformed_handle(handle));
        }
        proof {
            lemma_remove_wf(self@, handle@);
            lemma_texts_distinct(self.names.pairs());
            lemma_texts(self.names.pairs(), handle@);
            lemma_texts_without(self.names.pairs(), handle@);
        }
        match self.names.remove(handle) {
            Some(key) => match self.held.remove(key.as_str()) {
                Some(resource) => Ok(resource),
                None => Err(Error::resource_not_found(handle)),
            },
            None => Err(Error::resource_not_found(handle)),
        }
    }

    /// Removes a handle and returns the resource that it stood for. Text
    /// that is not in the form of a handle is refused; a handle that stands
    /// for nothing is not found.
    pub fn remove(&mut self, handle: &str) -> (r: Result<R, Error>)
        requires
            old(self).wf(),
        ensures
            final(self).wf(),
            match r {
                Ok(resource) => is_handle_text(handle@) && old(self)@.taken(handle@) == Some(
                    resource,
                ) && final(self)@ == old(self)@.remove(handle@),
                Err(error) => {
                    &&& error@ == (if is_handle_text(handle@) {
                        ErrorView::ResourceNotFound { handle: handle@ }
                    } else {
                        ErrorView::MalformedHandle { handle: handle@ }
                    })
                    &&& !is_handle_text(handle@) || old(self)@.taken(handle@) is None
                    &&& final(self)@ == (if is_handle_text(handle@) {
                        old(self)@.remove(handle@)
                    } else {
                        old(self)@
                    })
                },
            },
    {
        let well_formed = parses(handle);
        self.release(handle, well_formed)
    }
}

} // verus!
