//! The accumulation engine: chunks are appended to the current blob's buffer,
//! and a flush writes the buffer to the backend as one blob.
//!
//! Instead of running a callback for each stored chunk, the engine queues a
//! completion notice (the chunk's reference) once the chunk's blob is
//! committed; `take_completed` hands the notices out.

use vstd::prelude::*;
use vstd::string::StringSliceAdditionalSpecFns;

use crate::backend::{BackendError, StoreBackend};
use crate::chunk_ref::{ChunkRef, ChunkRefView, Kind, MAX_FIELD};
use crate::index::{
    fresh_name,
    has_tag,
    knows,
    lemma_fresh_name,
    is_committed,
    lacks_tag,
    next_after,
    recovered,
    with_state,
    with_tag,
    BlobDesc,
    BlobEntryView,
    BlobIndex,
    BlobIndexView,
    BlobState,
    Tag,
};

verus! {

/// Why a store refused an operation.
#[derive(Debug, Clone, Copy, PartialEq, Eq, Structural)]
pub enum LockError {
    /// A prior failure left the shared state untrustworthy.
    Poisoned,
    /// The request budget is used up; `reset` makes the store usable again.
    RequestLimitReached,
}

/// Errors of the store's operations.
#[derive(Debug, Clone, Copy, PartialEq, Eq, Structural)]
pub enum MsgError {
    Lock(LockError),
    /// `reset` was asked of a store whose budget is not used up.
    NotPoisoned,
    /// A reference's range reaches past the end of its blob.
    ChunkOutOfRange,
    /// The current blob cannot take the chunk: its references would no
    /// longer be encodable.
    ChunkTooLarge,
    /// The backend failed.
    Backend(BackendError),
}

/// The mathematical value of a `StoreInner`.
pub struct StoreView {
    pub backend: Map<Seq<u8>, Seq<u8>>,
    pub index: BlobIndexView,
    pub blob_id: u64,
    pub blob_name: Seq<u8>,
    pub data: Seq<u8>,
    pub pending: Seq<ChunkRefView>,
    pub completed: Seq<ChunkRefView>,
    pub max_blob_size: usize,
}

/// The reference handed out for empty content.
pub open spec fn empty_ref(kind: Kind) -> ChunkRefView {
    ChunkRefView { blob_id: seq![0u8], offset: 0, length: 0, kind }
}

/// The state after storing `chunk`, and the reference handed out for it.
pub open spec fn after_store(v: StoreView, chunk: Seq<u8>, kind: Kind) -> (StoreView, ChunkRefView) {
    if chunk.len() == 0 {
        (StoreView { completed: v.completed.push(empty_ref(kind)), ..v }, empty_ref(kind))
    } else {
        let r = ChunkRefView {
            blob_id: v.blob_name,
            offset: v.data.len() as usize,
            length: chunk.len() as usize,
            kind,
        };
        (StoreView { data: v.data + chunk, pending: v.pending.push(r), ..v }, r)
    }
}

/// The name that `ix` hands out next.
pub open spec fn reserved_name(ix: BlobIndexView) -> Seq<u8> {
    fresh_name(ix.entries, ix.next_id)
}

/// The index after it handed out the identity `ix.next_id`.
pub open spec fn after_reserve(ix: BlobIndexView) -> BlobIndexView {
    BlobIndexView {
        next_id: next_after(ix.next_id),
        entries: ix.entries.push(
            BlobEntryView {
                id: ix.next_id,
                name: reserved_name(ix),
                state: BlobState::Reserved,
                tag: None,
            },
        ),
    }
}

/// The index, identity and name after a flush reserved the next blob: a
/// second reservation is made where the first gave the current blob's name.
pub open spec fn flush_target(v: StoreView) -> (BlobIndexView, u64, Seq<u8>) {
    let ix1 = after_reserve(v.index);
    if reserved_name(v.index) == v.blob_name {
        (after_reserve(ix1), ix1.next_id, reserved_name(ix1))
    } else {
        (ix1, v.index.next_id, reserved_name(v.index))
    }
}

/// The state once a flush started its write: a fresh blob is current, the
/// old one is marked in flight, and the buffer and pending references are
/// handed off.
pub open spec fn after_write_started(v: StoreView) -> StoreView {
    let (ix, id, name) = flush_target(v);
    StoreView {
        index: BlobIndexView {
            next_id: ix.next_id,
            entries: with_state(ix.entries, v.blob_name, BlobState::InAir),
        },
        blob_id: id,
        blob_name: name,
        data: Seq::empty(),
        pending: Seq::empty(),
        ..v
    }
}

/// The state after a successful flush: a non-empty buffer is written under
/// the current blob's name, the blob is committed, a fresh blob becomes
/// current, and the pending references become completion notices.
pub open spec fn after_flush(v: StoreView) -> StoreView {
    if v.data.len() == 0 {
        v
    } else {
        let w = after_write_started(v);
        StoreView {
            backend: v.backend.insert(v.blob_name, v.data),
            index: BlobIndexView {
                next_id: w.index.next_id,
                entries: with_state(w.index.entries, v.blob_name, BlobState::Committed),
            },
            completed: v.completed + v.pending,
            ..w
        }
    }
}

/// The blob that a flush makes current has a name unlike the flushed
/// blob's and unlike every name the index knew.
pub proof fn lemma_flush_target_fresh(v: StoreView)
    ensures
        flush_target(v).2 != v.blob_name,
        !knows(v.index.entries, flush_target(v).2),
{
    let ix1 = after_reserve(v.index);
    lemma_fresh_name(v.index.entries, v.index.next_id);
    lemma_fresh_name(ix1.entries, ix1.next_id);
    if reserved_name(v.index) == v.blob_name {
        let n = reserved_name(ix1);
        let last = ix1.entries.len() - 1;
        assert(ix1.entries[last].name == v.blob_name);
        if knows(v.index.entries, n) {
            let i = choose|i: int| 0 <= i < v.index.entries.len() && #[trigger] v.index.entries[i].name == n;
            assert(ix1.entries[i].name == n);
        }
    }
}

/// The state after a size check: a flush once the buffer holds at least
/// `max_blob_size` bytes.
pub open spec fn after_maybe_flush(v: StoreView) -> StoreView {
    if v.data.len() >= v.max_blob_size {
        after_flush(v)
    } else {
        v
    }
}

/// The state after a reset: uncommitted blobs are forgotten, pending
/// references are dropped without notice, the buffer is emptied and a fresh
/// blob becomes current.
pub open spec fn after_reset(v: StoreView) -> StoreView {
    let ix = after_reserve(
        BlobIndexView { next_id: v.index.next_id, entries: v.index.entries.filter(is_committed()) },
    );
    StoreView {
        index: ix,
        blob_id: v.index.next_id,
        blob_name: fresh_name(v.index.entries.filter(is_committed()), v.index.next_id),
        data: Seq::empty(),
        pending: Seq::empty(),
        ..v
    }
}

/// What reading the chunk `r` from `backend` gives.
pub open spec fn chunk_bytes(backend: Map<Seq<u8>, Seq<u8>>, r: ChunkRefView) -> Result<
    Option<Seq<u8>>,
    MsgError,
> {
    if r.is_empty_ref() {
        Ok(Some(Seq::empty()))
    } else if !backend.contains_key(r.blob_id) {
        Ok(None)
    } else if r.offset + r.length > backend[r.blob_id].len() {
        Err(MsgError::ChunkOutOfRange)
    } else {
        Ok(Some(backend[r.blob_id].subrange(r.offset as int, r.offset + r.length)))
    }
}

/// The names of the entries of `s`.
pub open spec fn names_of(s: Seq<BlobEntryView>) -> Set<Seq<u8>> {
    Set::new(|n: Seq<u8>| exists|k: int| 0 <= k < s.len() && #[trigger] s[k].name == n)
}

/// `now` is `before` with the blobs named by `f[..j]` deleted, where the
/// delete of `f[j]` failed and may have left anything under its name.
pub open spec fn deleted_up_to(
    before: Map<Seq<u8>, Seq<u8>>,
    now: Map<Seq<u8>, Seq<u8>>,
    f: Seq<BlobEntryView>,
    j: int,
) -> bool {
    &&& 0 <= j < f.len()
    &&& now.remove(f[j].name) == before.remove_keys(names_of(f.take(j))).remove(f[j].name)
}

/// The state after deleting every blob tagged `t`, from the backend and
/// from the index.
pub open spec fn after_delete_by_tag(v: StoreView, t: Tag) -> StoreView {
    StoreView {
        backend: v.backend.remove_keys(names_of(v.index.entries.filter(has_tag(t)))),
        index: BlobIndexView {
            next_id: v.index.next_id,
            entries: v.index.entries.filter(lacks_tag(t)),
        },
        ..v
    }
}

/// Every pending reference lies inside the buffer of the current blob and
/// is non-empty.
pub open spec fn pending_in_buffer(v: StoreView) -> bool {
    forall|i: int|
        0 <= i < v.pending.len() ==> {
            &&& (#[trigger] v.pending[i]).blob_id == v.blob_name
            &&& v.pending[i].length > 0
            &&& v.pending[i].offset + v.pending[i].length <= v.data.len()
        }
}

/// The single-threaded accumulation state.
pub struct StoreInner<B: StoreBackend> {
    backend: B,
    blob_index: BlobIndex,
    blob_desc: BlobDesc,
    blob_data: Vec<u8>,
    blob_refs: Vec<ChunkRef>,
    completed: Vec<ChunkRef>,
    max_blob_size: usize,
}

impl<B: StoreBackend> View for StoreInner<B> {
    type V = StoreView;

    closed spec fn view(&self) -> StoreView {
        StoreView {
            backend: self.backend.contents(),
            index: self.blob_index@,
            blob_id: self.blob_desc.id,
            blob_name: self.blob_desc.name@,
            data: self.blob_data@,
            pending: self.blob_refs@.map_values(|r: ChunkRef| r@),
            completed: self.completed@.map_values(|r: ChunkRef| r@),
            max_blob_size: self.max_blob_size,
        }
    }
}

impl<B: StoreBackend> StoreInner<B> {
    /// The backend is well formed, references into the buffer stay
    /// encodable, and every pending reference lies inside the buffer.
    pub closed spec fn wf(&self) -> bool {
        &&& self.backend.wf()
        &&& self.blob_data@.len() <= MAX_FIELD
        &&& pending_in_buffer(self@)
    }

    /// What a well-formed store holds.
    pub proof fn lemma_wf(&self)
        requires
            self.wf(),
        ensures
            pending_in_buffer(self@),
            self@.data.len() <= MAX_FIELD,
    {
    }

    /// A store on `index` and `backend` whose blobs hold about
    /// `max_blob_size` bytes.
    pub fn new(index: BlobIndex, backend: B, max_blob_size: usize) -> (r: StoreInner<B>)
        requires
            backend.wf(),
        ensures
            r.wf(),
            r@.backend == backend.contents(),
            r@.index == after_reserve(index@),
            r@.blob_id == index@.next_id,
            r@.blob_name == reserved_name(index@),
            !knows(index@.entries, r@.blob_name),
            r@.data == Seq::<u8>::empty(),
            r@.pending == Seq::<ChunkRefView>::empty(),
            r@.completed == Seq::<ChunkRefView>::empty(),
            r@.max_blob_size == max_blob_size,
    {
        let mut blob_index = index;
        let blob_desc = blob_index.reserve();
        let r = StoreInner {
            backend,
            blob_index,
            blob_desc,
            blob_data: Vec::new(),
            blob_refs: Vec::new(),
            completed: Vec::new(),
            max_blob_size,
        };
        assert(r@.pending =~= Seq::<ChunkRefView>::empty());
        assert(r@.completed =~= Seq::<ChunkRefView>::empty());
        r
    }

    /// Appends `chunk` to the current blob and hands out its reference; an
    /// empty chunk gets the empty reference and its notice at once.
    pub fn store(&mut self, chunk: Vec<u8>, kind: Kind) -> (r: ChunkRef)
        requires
            old(self).wf(),
            old(self)@.data.len() + chunk@.len() <= MAX_FIELD,
        ensures
            final(self).wf(),
            (final(self)@, r@) == after_store(old(self)@, chunk@, kind),
    {
        if chunk.len() == 0 {
            let id = ChunkRef { blob_id: vec![0u8], offset: 0, length: 0, kind };
            assert(id@.blob_id =~= seq![0u8]);
            self.completed.push(id.duplicate());
            assert(self@.completed =~= old(self)@.completed.push(id@));
            return id;
        }
        let blob_id = self.blob_desc.name.clone();
        assert(blob_id@ =~= self.blob_desc.name@);
        let id = ChunkRef { blob_id, offset: self.blob_data.len(), length: chunk.len(), kind };
        self.blob_refs.push(id.duplicate());
        let mut chunk = chunk;
        self.blob_data.append(&mut chunk);
        assert(self@.pending =~= old(self)@.pending.push(id@));
        id
    }

    /// Writes the buffer as one blob, unless it is empty. Where the write
    /// fails, the buffer and the pending references are dropped without
    /// notice, and the old blob stays marked in flight.
    pub fn flush(&mut self) -> (r: Result<(), BackendError>)
        requires
            old(self).wf(),
        ensures
            final(self).wf(),
            r is Ok ==> final(self)@ == after_flush(old(self)@),
            r is Err ==> old(self)@.data.len() > 0 && final(self)@ == (StoreView {
                backend: final(self)@.backend,
                ..after_write_started(old(self)@)
            }) && final(self)@.backend.remove(old(self)@.blob_name) == old(self)@.backend.remove(old(self)@.blob_name),
            old(self)@.data.len() > 0 ==> final(self)@.blob_name != old(self)@.blob_name
                && !knows(old(self)@.index.entries, final(self)@.blob_name),
    {
        if self.blob_data.len() == 0 {
            return Ok(());
        }
        proof {
            lemma_flush_target_fresh(self@);
        }
        let mut fresh = self.blob_index.reserve();
        if crate::backend::bytes_eq(fresh.name.as_slice(), self.blob_desc.name.as_slice()) {
            fresh = self.blob_index.reserve();
        }
        let old_name = self.blob_desc.name.clone();
        assert(old_name@ =~= self.blob_desc.name@);
        let old_desc = BlobDesc { id: self.blob_desc.id, name: old_name };
        self.blob_desc = fresh;
        self.blob_index.in_air(&old_desc);
        let written = self.backend.store(old_desc.name.as_slice(), self.blob_data.as_slice());
        if let Err(e) = written {
            self.blob_data = Vec::new();
            self.blob_refs = Vec::new();
            assert(self@.pending =~= Seq::<ChunkRefView>::empty());
            assert(self@.data =~= Seq::<u8>::empty());
            return Err(e);
        }
        self.blob_index.commit_done(&old_desc);
        self.blob_data = Vec::new();
        let ghost done = self@.completed;
        let ghost moved = self@.pending;
        self.completed.append(&mut self.blob_refs);
        assert(self@.completed =~= done + moved);
        assert(self@.pending =~= Seq::<ChunkRefView>::empty());
        assert(self@ == after_flush(old(self)@));
        Ok(())
    }

    /// Flushes once the buffer holds at least `max_blob_size` bytes.
    pub fn maybe_flush(&mut self) -> (r: Result<(), BackendError>)
        requires
            old(self).wf(),
        ensures
            final(self).wf(),
            old(self)@.data.len() < old(self)@.max_blob_size ==> r is Ok && final(self)@ == old(self)@,
            old(self)@.data.len() >= old(self)@.max_blob_size ==> (r is Ok ==> final(self)@
                == after_flush(old(self)@)) && (r is Err ==> old(self)@.data.len() > 0
                && final(self)@ == (StoreView {
                backend: final(self)@.backend,
                ..after_write_started(old(self)@)
            }) && final(self)@.backend.remove(old(self)@.blob_name) == old(self)@.backend.remove(old(self)@.blob_name)),
    {
        if self.blob_data.len() >= self.max_blob_size {
            self.flush()
        } else {
            Ok(())
        }
    }

    /// Drops the current attempt: see `after_reset`.
    pub fn reset(&mut self)
        requires
            old(self).wf(),
        ensures
            final(self).wf(),
            final(self)@ == after_reset(old(self)@),
            !knows(old(self)@.index.entries.filter(is_committed()), final(self)@.blob_name),
    {
        proof {
            lemma_fresh_name(old(self)@.index.entries.filter(is_committed()), old(self)@.index.next_id);
        }
        self.blob_index.reset();
        self.blob_refs.clear();
        self.blob_data.clear();
        self.blob_desc = self.blob_index.reserve();
        assert(self@.pending =~= Seq::<ChunkRefView>::empty());
        assert(self@.data =~= Seq::<u8>::empty());
        assert(self@ == after_reset(old(self)@));
    }

    /// Reads the bytes of the chunk `id`.
    pub fn retrieve(&self, id: &ChunkRef) -> (r: Result<Option<Vec<u8>>, MsgError>)
        requires
            self.wf(),
        ensures
            r matches Err(MsgError::Backend(_)) ==> !id@.is_empty_ref(),
            !(r matches Err(MsgError::Backend(_))) ==> match r {
                Ok(Some(v)) => chunk_bytes(self@.backend, id@) == Ok::<
                    Option<Seq<u8>>,
                    MsgError,
                >(Some(v@)),
                Ok(None) => chunk_bytes(self@.backend, id@) == Ok::<Option<Seq<u8>>, MsgError>(
                    None,
                ),
                Err(e) => chunk_bytes(self@.backend, id@) == Err::<Option<Seq<u8>>, MsgError>(e),
            },
    {
        if id.offset == 0 && id.length == 0 {
            let v: Vec<u8> = Vec::new();
            assert(v@ =~= Seq::<u8>::empty());
            return Ok(Some(v));
        }
        match self.backend.retrieve(id.blob_id.as_slice()) {
            Err(e) => Err(MsgError::Backend(e)),
            Ok(Some(blob)) => {
                if id.offset > blob.len() || id.length > blob.len() - id.offset {
                    Err(MsgError::ChunkOutOfRange)
                } else {
                    let mut out: Vec<u8> = Vec::new();
                    let mut i: usize = id.offset;
                    let end = id.offset + id.length;
                    while i < end
                        invariant
                            id.offset <= i <= end,
                            end == id.offset + id.length,
                            end <= blob@.len(),
                            out@ == blob@.subrange(id.offset as int, i as int),
                        decreases end - i,
                    {
                        out.push(blob[i]);
                        assert(out@ =~= blob@.subrange(id.offset as int, i + 1));
                        i = i + 1;
                    }
                    Ok(Some(out))
                }
            },
            Ok(None) => Ok(None),
        }
    }

    /// Stores `data` under `name`, outside the chunk scheme.
    pub fn store_named(&mut self, name: &str, data: &[u8]) -> (r: Result<(), BackendError>)
        requires
            old(self).wf(),
        ensures
            final(self).wf(),
            final(self)@ == (StoreView { backend: final(self)@.backend, ..old(self)@ }),
            r is Ok ==> final(self)@.backend == old(self)@.backend.insert(name.spec_bytes(), data@),
            r is Err ==> final(self)@.backend.remove(name.spec_bytes()) == old(self)@.backend.remove(name.spec_bytes()),
    {
        self.backend.store(name.as_bytes(), data)
    }

    /// The blob stored under `name`, if any.
    pub fn retrieve_named(&self, name: &str) -> (r: Result<Option<Vec<u8>>, BackendError>)
        requires
            self.wf(),
        ensures
            r matches Ok(Some(v)) ==> self@.backend.contains_key(name.spec_bytes()) && v@
                == self@.backend[name.spec_bytes()],
            r matches Ok(None) ==> !self@.backend.contains_key(name.spec_bytes()),
    {
        self.backend.retrieve(name.as_bytes())
    }

    /// Records that the blob behind `chunk` is needed; empty chunks have no
    /// blob.
    pub fn recover(&mut self, chunk: ChunkRef)
        requires
            old(self).wf(),
        ensures
            final(self).wf(),
            final(self)@ == (if chunk@.is_empty_ref() {
                old(self)@
            } else {
                StoreView { index: recovered(old(self)@.index, chunk@.blob_id), ..old(self)@ }
            }),
    {
        if chunk.offset == 0 && chunk.length == 0 {
            return;
        }
        self.blob_index.recover(chunk.blob_id);
    }

    /// Tags the blob behind `chunk` with `t`.
    pub fn tag(&mut self, chunk: ChunkRef, t: Tag)
        requires
            old(self).wf(),
        ensures
            final(self).wf(),
            final(self)@ == (StoreView {
                index: BlobIndexView {
                    next_id: old(self)@.index.next_id,
                    entries: with_tag(old(self)@.index.entries, Some(chunk@.blob_id), t),
                },
                ..old(self)@
            }),
    {
        self.blob_index.tag(&BlobDesc { id: 0, name: chunk.blob_id }, t);
    }

    /// Tags every blob that the index knows with `t`.
    pub fn tag_all(&mut self, t: Tag)
        requires
            old(self).wf(),
        ensures
            final(self).wf(),
            final(self)@ == (StoreView {
                index: BlobIndexView {
                    next_id: old(self)@.index.next_id,
                    entries: with_tag(old(self)@.index.entries, None, t),
                },
                ..old(self)@
            }),
    {
        self.blob_index.tag_all(t);
    }

    /// Deletes every blob tagged `t` from the backend, then from the index.
    /// Where a delete fails, the blobs before it are gone, the index is left
    /// as it was, and the call can be repeated.
    pub fn delete_by_tag(&mut self, t: Tag) -> (r: Result<(), BackendError>)
        requires
            old(self).wf(),
        ensures
            final(self).wf(),
            r is Ok ==> final(self)@ == after_delete_by_tag(old(self)@, t),
            r is Err ==> final(self)@ == (StoreView { backend: final(self)@.backend, ..old(self)@ })
                && exists|j: int|
                #[trigger] deleted_up_to(
                    old(self)@.backend,
                    final(self)@.backend,
                    old(self)@.index.entries.filter(has_tag(t)),
                    j,
                ),
    {
        let blobs = self.blob_index.list_by_tag(t);
        let ghost f = old(self)@.index.entries.filter(has_tag(t));
        let mut j: usize = 0;
        while j < blobs.len()
            invariant
                self.wf(),
                self.blob_index == old(self).blob_index,
                self.blob_desc == old(self).blob_desc,
                self.blob_data == old(self).blob_data,
                self.blob_refs == old(self).blob_refs,
                self.completed == old(self).completed,
                self.max_blob_size == old(self).max_blob_size,
                f == old(self)@.index.entries.filter(has_tag(t)),
                blobs@.len() == f.len(),
                forall|k: int| 0 <= k < blobs@.len() ==> (#[trigger] blobs@[k]).name@ == f[k].name,
                j <= blobs@.len(),
                self@.backend == old(self)@.backend.remove_keys(names_of(f.take(j as int))),
            decreases blobs@.len() - j,
        {
            let ghost before = self@.backend;
            let gone = self.backend.delete(blobs[j].name.as_slice());
            if let Err(e) = gone {
                assert(f[j as int].name == blobs@[j as int].name@);
                assert(deleted_up_to(old(self)@.backend, self@.backend, f, j as int));
                return Err(e);
            }
            assert(names_of(f.take(j + 1)) =~= names_of(f.take(j as int)).insert(f[j as int].name))
                by {
                assert forall|n: Seq<u8>| #[trigger]
                    names_of(f.take(j + 1)).contains(n) implies names_of(f.take(j as int)).insert(
                    f[j as int].name,
                ).contains(n) by {
                    let k = choose|k: int| 0 <= k < j + 1 && #[trigger] f.take(j + 1)[k].name == n;
                    if k < j {
                        assert(f.take(j as int)[k].name == n);
                    }
                }
                assert forall|n: Seq<u8>| #[trigger]
                    names_of(f.take(j as int)).insert(f[j as int].name).contains(n) implies names_of(
                    f.take(j + 1),
                ).contains(n) by {
                    if n == f[j as int].name {
                        assert(f.take(j + 1)[j as int].name == n);
                    } else {
                        let k = choose|k: int| 0 <= k < j && #[trigger] f.take(j as int)[k].name == n;
                        assert(f.take(j + 1)[k].name == n);
                    }
                }
            }
            assert(self@.backend =~= old(self)@.backend.remove_keys(names_of(f.take(j + 1))));
            j = j + 1;
        }
        assert(f.take(f.len() as int) =~= f);
        self.blob_index.delete_by_tag(t);
        assert(self@ == after_delete_by_tag(old(self)@, t));
        Ok(())
    }

    /// Number of bytes in the current blob's buffer.
    pub fn buffered_len(&self) -> (r: usize)
        requires
            self.wf(),
        ensures
            r == self@.data.len(),
            r <= MAX_FIELD,
    {
        self.blob_data.len()
    }

    /// The blobs tagged `t`, as the index lists them.
    pub fn list_by_tag(&self, t: Tag) -> (r: Vec<BlobDesc>)
        ensures
            r@.len() == self@.index.entries.filter(has_tag(t)).len(),
            forall|j: int|
                0 <= j < r@.len() ==> (#[trigger] r@[j]).id == self@.index.entries.filter(
                    has_tag(t),
                )[j].id && r@[j].name@ == self@.index.entries.filter(has_tag(t))[j].name,
    {
        self.blob_index.list_by_tag(t)
    }

    /// Hands out the completion notices queued so far, oldest first.
    pub fn take_completed(&mut self) -> (r: Vec<ChunkRef>)
        requires
            old(self).wf(),
        ensures
            final(self).wf(),
            r@.map_values(|c: ChunkRef| c@) == old(self)@.completed,
            final(self)@ == (StoreView { completed: Seq::empty(), ..old(self)@ }),
    {
        let mut r: Vec<ChunkRef> = Vec::new();
        std::mem::swap(&mut r, &mut self.completed);
        assert(self@.completed =~= Seq::<ChunkRefView>::empty());
        r
    }
}

} // verus!
