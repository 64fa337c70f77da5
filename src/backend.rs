//! Storage backends: put, get and delete of named byte blobs, and an
//! in-memory backend.

use vstd::prelude::*;
use vstd::slice::*;

verus! {

/// A failure reported by a backend; what the code means is the backend's own.
#[derive(Debug, Clone, Copy, PartialEq, Eq, Structural)]
pub struct BackendError {
    pub code: u32,
}

/// Storage of named byte blobs (a disk, an object store, memory). A name
/// that `store` accepted reads back as what was stored until it is stored
/// again or deleted.
pub trait StoreBackend {
    /// The blobs held, by name.
    spec fn contents(&self) -> Map<Seq<u8>, Seq<u8>>;

    /// The backend's own invariant.
    spec fn wf(&self) -> bool;

    /// Stores `data` under `name`. A failed write may leave anything under
    /// `name`, and nothing else changes.
    fn store(&mut self, name: &[u8], data: &[u8]) -> (r: Result<(), BackendError>)
        requires
            old(self).wf(),
        ensures
            final(self).wf(),
            r is Ok ==> final(self).contents() == old(self).contents().insert(name@, data@),
            r is Err ==> final(self).contents().remove(name@) == old(self).contents().remove(
                name@,
            ),
    ;

    /// The blob stored under `name`, if any.
    fn retrieve(&self, name: &[u8]) -> (r: Result<Option<Vec<u8>>, BackendError>)
        requires
            self.wf(),
        ensures
            r matches Ok(Some(v)) ==> self.contents().contains_key(name@) && v@
                == self.contents()[name@],
            r matches Ok(None) ==> !self.contents().contains_key(name@),
    ;

    /// Removes the blob stored under `name`, if any. A failed delete may
    /// leave the blob in place, and nothing else changes.
    fn delete(&mut self, name: &[u8]) -> (r: Result<(), BackendError>)
        requires
            old(self).wf(),
        ensures
            final(self).wf(),
            r is Ok ==> final(self).contents() == old(self).contents().remove(name@),
            r is Err ==> final(self).contents().remove(name@) == old(self).contents().remove(
                name@,
            ),
    ;
}

/// Holds named byte blobs in memory, at most one per name. It never fails.
pub struct MemoryBackend {
    entries: Vec<(Vec<u8>, Vec<u8>)>,
    contents: Ghost<Map<Seq<u8>, Seq<u8>>>,
}

impl View for MemoryBackend {
    type V = Map<Seq<u8>, Seq<u8>>;

    closed spec fn view(&self) -> Map<Seq<u8>, Seq<u8>> {
        self.contents@
    }
}

impl MemoryBackend {
    /// Names are unique, and the model holds exactly the stored pairs.
    pub closed spec fn well_formed(&self) -> bool {
        &&& forall|i: int, j: int|
            0 <= i < j < self.entries@.len() ==> #[trigger] self.entries@[i].0@
                != #[trigger] self.entries@[j].0@
        &&& forall|i: int|
            0 <= i < self.entries@.len() ==> self.contents@.contains_key(
                #[trigger] self.entries@[i].0@,
            ) && self.contents@[self.entries@[i].0@] == self.entries@[i].1@
        &&& forall|k: Seq<u8>|
            #[trigger] self.contents@.contains_key(k) ==> exists|i: int|
                0 <= i < self.entries@.len() && #[trigger] self.entries@[i].0@ == k
    }

    /// An empty backend.
    pub fn new() -> (r: MemoryBackend)
        ensures
            r.well_formed(),
            r@ == Map::<Seq<u8>, Seq<u8>>::empty(),
    {
        MemoryBackend { entries: Vec::new(), contents: Ghost(Map::empty()) }
    }

    /// Position of the entry named `name`, if any.
    fn find(&self, name: &[u8]) -> (r: Option<usize>)
        requires
            self.well_formed(),
        ensures
            match r {
                Some(i) => i < self.entries@.len() && self.entries@[i as int].0@ == name@,
                None => !self@.contains_key(name@),
            },
    {
        let mut i: usize = 0;
        while i < self.entries.len()
            invariant
                self.well_formed(),
                i <= self.entries@.len(),
                forall|j: int| 0 <= j < i ==> self.entries@[j].0@ != name@,
            decreases self.entries@.len() - i,
        {
            if bytes_eq(self.entries[i].0.as_slice(), name) {
                return Some(i);
            }
            i = i + 1;
        }
        None
    }

    /// Stores `data` under `name`, replacing what was there.
    pub fn put(&mut self, name: &[u8], data: &[u8])
        requires
            old(self).well_formed(),
        ensures
            final(self).well_formed(),
            final(self)@ == old(self)@.insert(name@, data@),
    {
        let ghost m = self.contents@.insert(name@, data@);
        let value = slice_to_vec(data);
        let key = slice_to_vec(name);
        let found = self.find(name);
        let ghost at: int = match found {
            Some(i) => i as int,
            None => self.entries@.len() as int,
        };
        match found {
            Some(i) => {
                self.entries.set(i, (key, value));
            },
            None => {
                self.entries.push((key, value));
            },
        }
        assert(self.entries@[at].0@ == name@);
        self.contents = Ghost(m);
        assert forall|k: Seq<u8>| #[trigger] self.contents@.contains_key(k) implies exists|i: int|
            0 <= i < self.entries@.len() && #[trigger] self.entries@[i].0@ == k by {
            if k != name@ {
                let j = choose|j: int|
                    0 <= j < old(self).entries@.len() && #[trigger] old(self).entries@[j].0@ == k;
                assert(self.entries@[j].0@ == k);
            } else {
                assert(self.entries@[at].0@ == k);
            }
        }
    }

    /// The blob stored under `name`, if any.
    pub fn get(&self, name: &[u8]) -> (r: Option<Vec<u8>>)
        requires
            self.well_formed(),
        ensures
            match r {
                Some(v) => self@.contains_key(name@) && v@ == self@[name@],
                None => !self@.contains_key(name@),
            },
    {
        match self.find(name) {
            Some(i) => Some(self.entries[i].1.clone()),
            None => None,
        }
    }

    /// Removes the blob stored under `name`, if any.
    pub fn remove(&mut self, name: &[u8])
        requires
            old(self).well_formed(),
        ensures
            final(self).well_formed(),
            final(self)@ == old(self)@.remove(name@),
    {
        let ghost m = self.contents@.remove(name@);
        match self.find(name) {
            Some(i) => {
                self.entries.remove(i);
                self.contents = Ghost(m);
                assert forall|k: Seq<u8>| #[trigger] self.contents@.contains_key(k) implies exists|
                    j: int,
                |
                    0 <= j < self.entries@.len() && #[trigger] self.entries@[j].0@ == k by {
                    let j = choose|j: int|
                        0 <= j < old(self).entries@.len() && #[trigger] old(self).entries@[j].0@
                            == k;
                    if j < i {
                        assert(self.entries@[j].0@ == k);
                    } else {
                        assert(self.entries@[j - 1].0@ == k);
                    }
                }
            },
            None => {
                assert(m =~= self.contents@);
            },
        }
    }
}

impl StoreBackend for MemoryBackend {
    closed spec fn contents(&self) -> Map<Seq<u8>, Seq<u8>> {
        self@
    }

    closed spec fn wf(&self) -> bool {
        self.well_formed()
    }

    fn store(&mut self, name: &[u8], data: &[u8]) -> (r: Result<(), BackendError>) {
        self.put(name, data);
        Ok(())
    }

    fn retrieve(&self, name: &[u8]) -> (r: Result<Option<Vec<u8>>, BackendError>) {
        Ok(self.get(name))
    }

    fn delete(&mut self, name: &[u8]) -> (r: Result<(), BackendError>) {
        self.remove(name);
        Ok(())
    }
}

/// Whether two byte strings are equal.
pub fn bytes_eq(a: &[u8], b: &[u8]) -> (r: bool)
    ensures
        r == (a@ == b@),
{
    if a.len() != b.len() {
        return false;
    }
    let mut i: usize = 0;
    while i < a.len()
        invariant
            a@.len() == b@.len(),
            i <= a@.len(),
            forall|j: int| 0 <= j < i ==> a@[j] == b@[j],
        decreases a@.len() - i,
    {
        if a[i] != b[i] {
            return false;
        }
        i = i + 1;
    }
    assert(a@ =~= b@);
    true
}

} // verus!
