//! The id-to-handle registry: a map guarded by a serial mailbox at run
//! time, so concurrent lookups and mutations are linearisable.
//!
//! The state behind that mailbox lives here and is verified: entries keep
//! their insertion order, every id appears at most once, `set` upserts,
//! `delete` is a no-op on a missing id, and `get` returns the handle
//! stored under the id. Two instances serve the process: one maps room
//! ids to room handles, one maps player ids to player handles.

use vstd::prelude::*;

verus! {

/// The entries of one registry, in insertion order.
pub struct Registry<V> {
    pub keys: Vec<String>,
    pub handles: Vec<V>,
}

impl<V> Registry<V> {
    /// One handle per key, and every id registered at most once.
    pub open spec fn wf(&self) -> bool {
        &&& self.keys@.len() == self.handles@.len()
        &&& forall|i: int, j: int|
            0 <= i < j < self.keys@.len() ==> (#[trigger] self.keys@[i])@ != (
            #[trigger] self.keys@[j])@
    }

    /// True when some entry is registered under `id`.
    pub open spec fn has_key(&self, id: Seq<char>) -> bool {
        exists|i: int| 0 <= i < self.keys@.len() && (#[trigger] self.keys@[i])@ == id
    }

    /// The position of the entry registered under `id`.
    pub open spec fn index_of(&self, id: Seq<char>) -> int {
        choose|i: int| 0 <= i < self.keys@.len() && (#[trigger] self.keys@[i])@ == id
    }

    /// An empty registry.
    pub fn new() -> (r: Registry<V>)
        ensures
            r.wf(),
            r.keys@.len() == 0,
            r.handles@.len() == 0,
    {
        Registry { keys: Vec::new(), handles: Vec::new() }
    }

    /// The position of the entry registered under `id`, if any.
    fn find(&self, id: &String) -> (r: Option<usize>)
        requires
            self.wf(),
        ensures
            match r {
                Some(i) => i < self.keys@.len() && self.keys@[i as int]@ == id@ && i as int
                    == self.index_of(id@),
                None => !self.has_key(id@),
            },
    {
        let n = self.keys.len();
        let mut i: usize = 0;
        while i < n
            invariant
                self.wf(),
                i <= n == self.keys@.len(),
                forall|k: int| 0 <= k < i ==> (#[trigger] self.keys@[k])@ != id@,
            decreases n - i,
        {
            if self.keys[i] == *id {
                proof {
                    assert(self.keys@[i as int]@ == id@);
                    let w = self.index_of(id@);
                    assert(0 <= w < self.keys@.len() && self.keys@[w]@ == id@);
                    if w != i as int {
                        assert(false);
                    }
                }
                return Some(i);
            }
            i = i + 1;
        }
        None
    }

    /// Looks an id up; a miss returns nothing.
    pub fn get(&self, id: &String) -> (r: Option<&V>)
        requires
            self.wf(),
        ensures
            match r {
                Some(v) => self.has_key(id@) && *v == self.handles@[self.index_of(id@)],
                None => !self.has_key(id@),
            },
    {
        match self.find(id) {
            Some(i) => Some(&self.handles[i]),
            None => None,
        }
    }

    /// Every registered handle, in insertion order.
    pub fn get_all(&self) -> (r: &Vec<V>)
        ensures
            r == &self.handles,
    {
        &self.handles
    }

    /// Registers a handle under an id, replacing whatever the id held.
    pub fn set(&mut self, id: String, handle: V)
        requires
            old(self).wf(),
        ensures
            final(self).wf(),
            final(self).has_key(id@),
            old(self).has_key(id@) ==> final(self).keys == old(self).keys
                && final(self).handles@ == old(self).handles@.update(
                old(self).index_of(id@),
                handle,
            ),
            !old(self).has_key(id@) ==> final(self).keys@ == old(self).keys@.push(id)
                && final(self).handles@ == old(self).handles@.push(handle),
    {
        match self.find(&id) {
            Some(i) => {
                self.handles.set(i, handle);
            },
            None => {
                self.keys.push(id);
                self.handles.push(handle);
                proof {
                    assert((#[trigger] self.keys@[self.keys@.len() - 1])@ == id@);
                }
            },
        }
    }

    /// Unregisters an id; missing ids are left alone.
    pub fn delete(&mut self, id: &String)
        requires
            old(self).wf(),
        ensures
            final(self).wf(),
            !final(self).has_key(id@),
            old(self).has_key(id@) ==> {
                let i = old(self).index_of(id@);
                final(self).keys@ == old(self).keys@.remove(i) && final(self).handles@ == old(
                    self,
                ).handles@.remove(i)
            },
            !old(self).has_key(id@) ==> *final(self) == *old(self),
    {
        match self.find(id) {
            Some(i) => {
                self.keys.remove(i);
                self.handles.remove(i);
                proof {
                    if self.has_key(id@) {
                        let k = choose|k: int|
                            0 <= k < self.keys@.len() && (#[trigger] self.keys@[k])@ == id@;
                        if k < i as int {
                            assert(old(self).keys@[k]@ == id@);
                        } else {
                            assert(old(self).keys@[k + 1]@ == id@);
                        }
                    }
                }
            },
            None => {},
        }
    }
}

} // verus!
