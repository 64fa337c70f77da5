//! The public store: the accumulation engine behind a request budget.
//!
//! The budget is `None` (unlimited) or `Some(n)`; every admitted request
//! spends one unit, and at `Some(0)` the store is poisoned: it refuses every
//! request until `reset`. Exclusive access comes from `&mut self`; callers
//! that share a store across threads put it behind a lock.

use vstd::prelude::*;
use vstd::string::StringSliceAdditionalSpecFns;

use crate::backend::StoreBackend;
use crate::chunk_ref::{ChunkRef, Kind, MAX_FIELD};
use crate::index::{has_tag, is_committed, knows, recovered, with_tag, BlobDesc, BlobIndex, BlobIndexView, Tag};
use crate::store::{
    after_delete_by_tag,
    after_flush,
    after_reserve,
    after_reset,
    after_store,
    after_write_started,
    chunk_bytes,
    deleted_up_to,
    reserved_name,
    pending_in_buffer,
    LockError,
    MsgError,
    StoreInner,
    StoreView,
};

verus! {

/// The budget after one admitted request.
pub open spec fn spent(b: Option<i64>) -> Option<i64> {
    match b {
        None => None,
        Some(n) => Some(
            if n == i64::MIN {
                n
            } else {
                (n - 1) as i64
            },
        ),
    }
}

/// Whether a store with budget `b` is poisoned.
pub open spec fn exhausted(b: Option<i64>) -> bool {
    b == Some(0i64)
}

/// Whether the current blob of `v` cannot take `chunk`.
pub open spec fn too_large(v: StoreView, chunk: Seq<u8>) -> bool {
    v.data.len() + chunk.len() > MAX_FIELD
}

/// The mathematical value of a `BlobStore`.
pub struct BlobStoreView {
    pub inner: StoreView,
    pub budget: Option<i64>,
}

/// Packs chunks into blobs, under a request budget.
pub struct BlobStore<B: StoreBackend> {
    inner: StoreInner<B>,
    budget: Option<i64>,
}

impl<B: StoreBackend> View for BlobStore<B> {
    type V = BlobStoreView;

    closed spec fn view(&self) -> BlobStoreView {
        BlobStoreView { inner: self.inner@, budget: self.budget }
    }
}

impl<B: StoreBackend> BlobStore<B> {
    pub closed spec fn wf(&self) -> bool {
        self.inner.wf()
    }

    /// What a well-formed store holds.
    pub proof fn lemma_wf(&self)
        requires
            self.wf(),
        ensures
            pending_in_buffer(self@.inner),
            self@.inner.data.len() <= MAX_FIELD,
    {
        self.inner.lemma_wf();
    }

    /// A store with an unlimited budget.
    pub fn new(index: BlobIndex, backend: B, max_blob_size: usize) -> (r: BlobStore<B>)
        requires
            backend.wf(),
        ensures
            r.wf(),
            r@.budget == None::<i64>,
            r@.inner.backend == backend.contents(),
            r@.inner.index == after_reserve(index@),
            r@.inner.blob_id == index@.next_id,
            r@.inner.blob_name == reserved_name(index@),
            !knows(index@.entries, r@.inner.blob_name),
            r@.inner.data.len() == 0,
            r@.inner.pending.len() == 0,
            r@.inner.completed.len() == 0,
            r@.inner.max_blob_size == max_blob_size,
    {
        BlobStore::new_with_poison(index, backend, max_blob_size, None)
    }

    /// A store that admits `poison_after` requests (any number, where it is
    /// `None`) before it is poisoned.
    pub fn new_with_poison(
        index: BlobIndex,
        backend: B,
        max_blob_size: usize,
        poison_after: Option<i64>,
    ) -> (r: BlobStore<B>)
        requires
            backend.wf(),
        ensures
            r.wf(),
            r@.budget == poison_after,
            r@.inner.backend == backend.contents(),
            r@.inner.index == after_reserve(index@),
            r@.inner.blob_id == index@.next_id,
            r@.inner.blob_name == reserved_name(index@),
            !knows(index@.entries, r@.inner.blob_name),
            r@.inner.data.len() == 0,
            r@.inner.pending.len() == 0,
            r@.inner.completed.len() == 0,
            r@.inner.max_blob_size == max_blob_size,
    {
        BlobStore { inner: StoreInner::new(index, backend, max_blob_size), budget: poison_after }
    }

    /// Makes a poisoned store usable again: pending chunks are dropped
    /// without notice, and the budget becomes unlimited.
    pub fn reset(&mut self) -> (r: Result<(), MsgError>)
        requires
            old(self).wf(),
        ensures
            final(self).wf(),
            exhausted(old(self)@.budget) ==> r is Ok && final(self)@ == (BlobStoreView {
                inner: after_reset(old(self)@.inner),
                budget: None,
            }),
            !exhausted(old(self)@.budget) ==> r == Err::<(), MsgError>(MsgError::NotPoisoned)
                && final(self)@ == old(self)@,
            exhausted(old(self)@.budget) ==> !knows(
                old(self)@.inner.index.entries.filter(is_committed()),
                final(self)@.inner.blob_name,
            ),
    {
        if self.budget != Some(0i64) {
            return Err(MsgError::NotPoisoned);
        }
        self.budget = None;
        self.inner.reset();
        Ok(())
    }

    /// Admits one request, spending one unit of the budget.
    fn lock(&mut self) -> (r: Result<(), LockError>)
        ensures
            final(self).inner == old(self).inner,
            exhausted(old(self)@.budget) ==> r == Err::<(), LockError>(
                LockError::RequestLimitReached,
            ) && final(self).budget == old(self).budget,
            !exhausted(old(self)@.budget) ==> r is Ok && final(self).budget == spent(
                old(self).budget,
            ),
    {
        match self.budget {
            None => Ok(()),
            Some(n) => {
                if n == 0 {
                    return Err(LockError::RequestLimitReached);
                }
                if n > i64::MIN {
                    self.budget = Some(n - 1);
                }
                Ok(())
            },
        }
    }

    /// Stores `chunk` in the current blob and hands out its reference, before
    /// the blob is written. The reference's completion notice comes once its
    /// blob is committed; `maybe_flush` is the size check to run afterwards.
    pub fn store(&mut self, chunk: Vec<u8>, kind: Kind) -> (r: Result<ChunkRef, MsgError>)
        requires
            old(self).wf(),
        ensures
            final(self).wf(),
            exhausted(old(self)@.budget) ==> r == Err::<ChunkRef, MsgError>(
                MsgError::Lock(LockError::RequestLimitReached),
            ) && final(self)@ == old(self)@,
            !exhausted(old(self)@.budget) ==> final(self)@.budget == spent(old(self)@.budget),
            !exhausted(old(self)@.budget) && too_large(old(self)@.inner, chunk@) ==> r == Err::<
                ChunkRef,
                MsgError,
            >(MsgError::ChunkTooLarge) && final(self)@.inner == old(self)@.inner,
            !exhausted(old(self)@.budget) && !too_large(old(self)@.inner, chunk@) ==> r is Ok
                && r->Ok_0@ == after_store(old(self)@.inner, chunk@, kind).1 && final(self)@.inner
                == after_store(old(self)@.inner, chunk@, kind).0,
    {
        if let Err(e) = self.lock() {
            return Err(MsgError::Lock(e));
        }
        let used = self.inner.buffered_len();
        if chunk.len() as u64 > MAX_FIELD - used as u64 {
            return Err(MsgError::ChunkTooLarge);
        }
        let r = self.inner.store(chunk, kind);
        Ok(r)
    }

    /// Flushes once the current blob holds at least `max_blob_size` bytes.
    /// This spends no budget, and does nothing on a smaller or empty buffer.
    pub fn maybe_flush(&mut self) -> (r: Result<(), MsgError>)
        requires
            old(self).wf(),
        ensures
            final(self).wf(),
            final(self)@.budget == old(self)@.budget,
            old(self)@.inner.data.len() < old(self)@.inner.max_blob_size ==> r is Ok && final(self)@ == old(self)@,
            old(self)@.inner.data.len() >= old(self)@.inner.max_blob_size ==> (r is Ok
                ==> final(self)@.inner == after_flush(old(self)@.inner)) && (r is Err ==> (r matches Err(MsgError::Backend(_))) && old(self)@.inner.data.len() > 0 && final(self)@.inner == (StoreView {
                backend: final(self)@.inner.backend,
                ..after_write_started(old(self)@.inner)
            })),
    {
        match self.inner.maybe_flush() {
            Ok(()) => Ok(()),
            Err(e) => Err(MsgError::Backend(e)),
        }
    }

    /// Reads the bytes of the chunk `id`.
    pub fn retrieve(&mut self, id: &ChunkRef) -> (r: Result<Option<Vec<u8>>, MsgError>)
        requires
            old(self).wf(),
        ensures
            final(self).wf(),
            final(self)@.inner == old(self)@.inner,
            exhausted(old(self)@.budget) ==> r == Err::<Option<Vec<u8>>, MsgError>(
                MsgError::Lock(LockError::RequestLimitReached),
            ) && final(self)@.budget == old(self)@.budget,
            !exhausted(old(self)@.budget) ==> final(self)@.budget == spent(old(self)@.budget),
            r matches Err(MsgError::Backend(_)) ==> !id@.is_empty_ref(),
            !exhausted(old(self)@.budget) && !(r matches Err(MsgError::Backend(_))) ==> match r {
                Ok(Some(v)) => chunk_bytes(old(self)@.inner.backend, id@) == Ok::<
                    Option<Seq<u8>>,
                    MsgError,
                >(Some(v@)),
                Ok(None) => chunk_bytes(old(self)@.inner.backend, id@) == Ok::<
                    Option<Seq<u8>>,
                    MsgError,
                >(None),
                Err(e) => chunk_bytes(old(self)@.inner.backend, id@) == Err::<
                    Option<Seq<u8>>,
                    MsgError,
                >(e),
            },
    {
        if let Err(e) = self.lock() {
            return Err(MsgError::Lock(e));
        }
        self.inner.retrieve(id)
    }

    /// Stores a whole blob under `name`, outside the chunk scheme.
    pub fn store_named(&mut self, name: &str, data: &[u8]) -> (r: Result<(), MsgError>)
        requires
            old(self).wf(),
        ensures
            final(self).wf(),
            exhausted(old(self)@.budget) ==> r == Err::<(), MsgError>(
                MsgError::Lock(LockError::RequestLimitReached),
            ) && final(self)@ == old(self)@,
            !exhausted(old(self)@.budget) ==> final(self)@.budget == spent(old(self)@.budget)
                && final(self)@.inner == (StoreView {
                backend: final(self)@.inner.backend,
                ..old(self)@.inner
            }),
            !exhausted(old(self)@.budget) && r is Ok ==> final(self)@.inner.backend == old(self)@.inner.backend.insert(name.spec_bytes(), data@),
            !exhausted(old(self)@.budget) && r is Err ==> (r matches Err(MsgError::Backend(_))) && final(self)@.inner.backend.remove(name.spec_bytes()) == old(self)@.inner.backend.remove(name.spec_bytes()),
    {
        if let Err(e) = self.lock() {
            return Err(MsgError::Lock(e));
        }
        match self.inner.store_named(name, data) {
            Ok(()) => Ok(()),
            Err(e) => Err(MsgError::Backend(e)),
        }
    }

    /// The whole blob stored under `name`, if any.
    pub fn retrieve_named(&mut self, name: &str) -> (r: Result<Option<Vec<u8>>, MsgError>)
        requires
            old(self).wf(),
        ensures
            final(self).wf(),
            final(self)@.inner == old(self)@.inner,
            exhausted(old(self)@.budget) ==> r == Err::<Option<Vec<u8>>, MsgError>(
                MsgError::Lock(LockError::RequestLimitReached),
            ) && final(self)@.budget == old(self)@.budget,
            !exhausted(old(self)@.budget) ==> final(self)@.budget == spent(old(self)@.budget)
                && !(r matches Err(MsgError::Lock(_))),
            r matches Ok(Some(v)) ==> old(self)@.inner.backend.contains_key(name.spec_bytes())
                && v@ == old(self)@.inner.backend[name.spec_bytes()],
            r matches Ok(None) ==> !old(self)@.inner.backend.contains_key(name.spec_bytes()),
    {
        if let Err(e) = self.lock() {
            return Err(MsgError::Lock(e));
        }
        match self.inner.retrieve_named(name) {
            Ok(v) => Ok(v),
            Err(e) => Err(MsgError::Backend(e)),
        }
    }

    /// Records that the blob behind `chunk` is needed.
    pub fn recover(&mut self, chunk: ChunkRef) -> (r: Result<(), LockError>)
        requires
            old(self).wf(),
        ensures
            final(self).wf(),
            exhausted(old(self)@.budget) ==> r == Err::<(), LockError>(
                LockError::RequestLimitReached,
            ) && final(self)@ == old(self)@,
            !exhausted(old(self)@.budget) ==> r is Ok && final(self)@.budget == spent(
                old(self)@.budget,
            ) && final(self)@.inner == (if chunk@.is_empty_ref() {
                old(self)@.inner
            } else {
                StoreView {
                    index: recovered(old(self)@.inner.index, chunk@.blob_id),
                    ..old(self)@.inner
                }
            }),
    {
        self.lock()?;
        self.inner.recover(chunk);
        Ok(())
    }

    /// Tags the blob behind `chunk` with `t`.
    pub fn tag(&mut self, chunk: ChunkRef, t: Tag) -> (r: Result<(), LockError>)
        requires
            old(self).wf(),
        ensures
            final(self).wf(),
            exhausted(old(self)@.budget) ==> r == Err::<(), LockError>(
                LockError::RequestLimitReached,
            ) && final(self)@ == old(self)@,
            !exhausted(old(self)@.budget) ==> r is Ok && final(self)@.budget == spent(
                old(self)@.budget,
            ) && final(self)@.inner == (StoreView {
                index: BlobIndexView {
                    next_id: old(self)@.inner.index.next_id,
                    entries: with_tag(old(self)@.inner.index.entries, Some(chunk@.blob_id), t),
                },
                ..old(self)@.inner
            }),
    {
        self.lock()?;
        self.inner.tag(chunk, t);
        Ok(())
    }

    /// Tags every blob that the index knows with `t`.
    pub fn tag_all(&mut self, t: Tag) -> (r: Result<(), LockError>)
        requires
            old(self).wf(),
        ensures
            final(self).wf(),
            exhausted(old(self)@.budget) ==> r == Err::<(), LockError>(
                LockError::RequestLimitReached,
            ) && final(self)@ == old(self)@,
            !exhausted(old(self)@.budget) ==> r is Ok && final(self)@.budget == spent(
                old(self)@.budget,
            ) && final(self)@.inner == (StoreView {
                index: BlobIndexView {
                    next_id: old(self)@.inner.index.next_id,
                    entries: with_tag(old(self)@.inner.index.entries, None, t),
                },
                ..old(self)@.inner
            }),
    {
        self.lock()?;
        self.inner.tag_all(t);
        Ok(())
    }

    /// Deletes every blob tagged `t`, from the backend and from the index.
    pub fn delete_by_tag(&mut self, t: Tag) -> (r: Result<(), MsgError>)
        requires
            old(self).wf(),
        ensures
            final(self).wf(),
            exhausted(old(self)@.budget) ==> r == Err::<(), MsgError>(
                MsgError::Lock(LockError::RequestLimitReached),
            ) && final(self)@ == old(self)@,
            !exhausted(old(self)@.budget) ==> final(self)@.budget == spent(old(self)@.budget),
            !exhausted(old(self)@.budget) && r is Ok ==> final(self)@.inner == after_delete_by_tag(
                old(self)@.inner,
                t,
            ),
            !exhausted(old(self)@.budget) && r is Err ==> (r matches Err(MsgError::Backend(_))) && final(self)@.inner == (StoreView {
                backend: final(self)@.inner.backend,
                ..old(self)@.inner
            }) && exists|j: int|
                #[trigger] deleted_up_to(
                    old(self)@.inner.backend,
                    final(self)@.inner.backend,
                    old(self)@.inner.index.entries.filter(has_tag(t)),
                    j,
                ),
    {
        if let Err(e) = self.lock() {
            return Err(MsgError::Lock(e));
        }
        match self.inner.delete_by_tag(t) {
            Ok(()) => Ok(()),
            Err(e) => Err(MsgError::Backend(e)),
        }
    }

    /// Writes the current blob, whatever its size. A failed write leaves the
    /// old blob marked in flight and drops its pending references without
    /// notice; callers treat it as fatal.
    pub fn flush(&mut self) -> (r: Result<(), MsgError>)
        requires
            old(self).wf(),
        ensures
            final(self).wf(),
            exhausted(old(self)@.budget) ==> r == Err::<(), MsgError>(
                MsgError::Lock(LockError::RequestLimitReached),
            ) && final(self)@ == old(self)@,
            !exhausted(old(self)@.budget) ==> final(self)@.budget == spent(old(self)@.budget),
            !exhausted(old(self)@.budget) && r is Ok ==> final(self)@.inner == after_flush(
                old(self)@.inner,
            ),
            !exhausted(old(self)@.budget) && r is Err ==> (r matches Err(MsgError::Backend(_))) && old(self)@.inner.data.len() > 0 && final(self)@.inner == (StoreView {
                backend: final(self)@.inner.backend,
                ..after_write_started(old(self)@.inner)
            }),
            !exhausted(old(self)@.budget) && old(self)@.inner.data.len() > 0 ==> final(self)@.inner.blob_name != old(self)@.inner.blob_name && !knows(
                old(self)@.inner.index.entries,
                final(self)@.inner.blob_name,
            ),
    {
        if let Err(e) = self.lock() {
            return Err(MsgError::Lock(e));
        }
        match self.inner.flush() {
            Ok(()) => Ok(()),
            Err(e) => Err(MsgError::Backend(e)),
        }
    }

    /// Hands out the completion notices queued so far, oldest first. This
    /// spends no budget.
    pub fn take_completed(&mut self) -> (r: Vec<ChunkRef>)
        requires
            old(self).wf(),
        ensures
            final(self).wf(),
            r@.map_values(|c: ChunkRef| c@) == old(self)@.inner.completed,
            final(self)@ == (BlobStoreView {
                inner: StoreView { completed: Seq::empty(), ..old(self)@.inner },
                ..old(self)@
            }),
    {
        self.inner.take_completed()
    }

    /// Number of bytes in the current blob's buffer. This spends no budget.
    pub fn buffered_len(&self) -> (r: usize)
        requires
            self.wf(),
        ensures
            r == self@.inner.data.len(),
            r <= MAX_FIELD,
    {
        self.inner.buffered_len()
    }

    /// The blobs tagged `t`, as the index lists them. This spends no budget.
    pub fn list_by_tag(&self, t: Tag) -> (r: Vec<BlobDesc>)
        requires
            self.wf(),
        ensures
            r@.len() == self@.inner.index.entries.filter(has_tag(t)).len(),
            forall|j: int|
                0 <= j < r@.len() ==> (#[trigger] r@[j]).id == self@.inner.index.entries.filter(
                    has_tag(t),
                )[j].id && r@[j].name@ == self@.inner.index.entries.filter(
                    has_tag(t),
                )[j].name,
    {
        self.inner.list_by_tag(t)
    }
}

} // verus!
