use vstd::prelude::*;

use crate::error::RenderError;

verus! {

/// An append-only store with stable integer handles.
///
/// `add` hands out the current slot count as the new handle. Removal only
/// marks the slot as removed: storage is kept and the handle is never issued
/// again, so every handle keeps naming the slot it was issued for.
pub struct LeakyVec<T> {
    data: Vec<T>,
    live: Vec<bool>,
}

impl<T> LeakyVec<T> {
    /// The stored values, one per issued handle, removed ones included.
    pub closed spec fn slots(&self) -> Seq<T> {
        self.data@
    }

    /// Whether each issued handle is still live (not removed).
    pub closed spec fn live(&self) -> Seq<bool> {
        self.live@
    }

    pub closed spec fn wf(&self) -> bool {
        self.data@.len() == self.live@.len()
    }

    pub proof fn lemma_wf(&self)
        requires
            self.wf(),
        ensures
            self.slots().len() == self.live().len(),
    {
    }

    /// The number of handles issued so far.
    pub open spec fn spec_len(&self) -> nat {
        self.slots().len()
    }

    pub open spec fn is_live(&self, id: int) -> bool {
        0 <= id < self.spec_len() && self.live()[id]
    }

    pub fn new() -> (r: Self)
        ensures
            r.wf(),
            r.slots() == Seq::<T>::empty(),
            r.live() == Seq::<bool>::empty(),
    {
        LeakyVec { data: Vec::new(), live: Vec::new() }
    }

    /// Appends `item` and returns its handle, the slot count before the call.
    pub fn add(&mut self, item: T) -> (id: usize)
        requires
            old(self).wf(),
        ensures
            final(self).wf(),
            id == old(self).spec_len(),
            final(self).slots() == old(self).slots().push(item),
            final(self).live() == old(self).live().push(true),
    {
        let id = self.data.len();
        self.data.push(item);
        self.live.push(true);
        id
    }

    /// Marks a live handle as removed; its storage is kept.
    pub fn remove(&mut self, id: usize) -> (r: Result<(), RenderError>)
        requires
            old(self).wf(),
        ensures
            final(self).wf(),
            final(self).slots() == old(self).slots(),
            old(self).is_live(id as int) ==> r is Ok && final(self).live() == old(
                self,
            ).live().update(id as int, false),
            !old(self).is_live(id as int) ==> r == Err::<(), RenderError>(
                RenderError::HandleOutOfRange,
            ) && final(self).live() == old(self).live(),
    {
        if id < self.live.len() && self.live[id] {
            self.live.set(id, false);
            Ok(())
        } else {
            Err(RenderError::HandleOutOfRange)
        }
    }

    /// The number of handles issued so far.
    pub fn len(&self) -> (n: usize)
        requires
            self.wf(),
        ensures
            n == self.spec_len(),
    {
        self.data.len()
    }

    pub fn contains(&self, id: usize) -> (b: bool)
        requires
            self.wf(),
        ensures
            b == self.is_live(id as int),
    {
        id < self.live.len() && self.live[id]
    }

    /// The value stored under an issued handle (a removed one included).
    pub fn get(&self, id: usize) -> (r: Result<&T, RenderError>)
        requires
            self.wf(),
        ensures
            id < self.spec_len() ==> (r matches Ok(v) && *v == self.slots()[id as int]),
            id >= self.spec_len() ==> (r matches Err(e) && e == RenderError::HandleOutOfRange),
    {
        if id < self.data.len() {
            Ok(&self.data[id])
        } else {
            Err(RenderError::HandleOutOfRange)
        }
    }

    /// Replaces the value under a live handle.
    pub fn replace(&mut self, id: usize, item: T) -> (r: Result<(), RenderError>)
        requires
            old(self).wf(),
        ensures
            final(self).wf(),
            final(self).live() == old(self).live(),
            old(self).is_live(id as int) ==> r is Ok && final(self).slots() == old(
                self,
            ).slots().update(id as int, item),
            !old(self).is_live(id as int) ==> r == Err::<(), RenderError>(
                RenderError::HandleOutOfRange,
            ) && final(self).slots() == old(self).slots(),
    {
        if id < self.live.len() && self.live[id] {
            self.data.set(id, item);
            Ok(())
        } else {
            Err(RenderError::HandleOutOfRange)
        }
    }

    /// All stored values in handle order, removed ones included.
    pub fn as_slice(&self) -> (s: &[T])
        ensures
            s@ == self.slots(),
    {
        self.data.as_slice()
    }
}

} // verus!
