//! Properties of the store that hold across several operations.

use vstd::prelude::*;

use crate::chunk_ref::{
    decoding,
    encoding,
    lemma_round_trip,
    ChunkRefView,
    FormatError,
    Kind,
    MAX_FIELD,
};
use crate::blob_store::{exhausted, spent};
use crate::index::{has_tag, knows, lacks_tag, with_tag, BlobIndexView, Tag};
use crate::store::{
    after_delete_by_tag,
    after_flush,
    after_maybe_flush,
    after_store,
    chunk_bytes,
    empty_ref,
    lemma_flush_target_fresh,
    names_of,
    pending_in_buffer,
    StoreView,
};

verus! {

/// Storing empty content hands out the empty reference (offset 0, length 0)
/// and queues its completion notice at once, whatever the buffer holds; the
/// buffer and the pending references stay as they were.
pub proof fn law_empty_chunk(v: StoreView, kind: Kind)
    ensures
        after_store(v, Seq::empty(), kind).1 == empty_ref(kind),
        empty_ref(kind).offset == 0 && empty_ref(kind).length == 0,
        after_store(v, Seq::empty(), kind).0 == (StoreView {
            completed: v.completed.push(empty_ref(kind)),
            ..v
        }),
{
}

/// Every reference that a store hands out is valid, so its encoding decodes
/// back to it, as long as the buffer stays within the encodable range.
pub proof fn law_stored_ref_encodable(v: StoreView, chunk: Seq<u8>, kind: Kind)
    requires
        v.blob_name.len() <= MAX_FIELD,
        v.data.len() + chunk.len() <= MAX_FIELD,
        v.data.len() + chunk.len() <= usize::MAX,
    ensures
        after_store(v, chunk, kind).1.valid(),
        decoding(encoding(after_store(v, chunk, kind).1)) == Ok::<ChunkRefView, FormatError>(
            after_store(v, chunk, kind).1,
        ),
{
    lemma_round_trip(after_store(v, chunk, kind).1);
}

/// Two non-empty chunks stored one after the other into the same blob get
/// consecutive ranges: the first starts at the buffer's length, the second
/// right where the first ends.
pub proof fn law_offsets_follow(v: StoreView, c1: Seq<u8>, k1: Kind, c2: Seq<u8>, k2: Kind)
    requires
        c1.len() > 0,
        c2.len() > 0,
        v.data.len() + c1.len() + c2.len() <= usize::MAX,
    ensures
        ({
            let (v1, r1) = after_store(v, c1, k1);
            let (v2, r2) = after_store(v1, c2, k2);
            &&& r1.offset == v.data.len()
            &&& r1.length == c1.len()
            &&& r2.offset == r1.offset + r1.length
            &&& r2.length == c2.len()
            &&& r1.blob_id == v.blob_name && r2.blob_id == v.blob_name
        }),
{
}

/// Of two non-empty chunks stored with a size check (that succeeded) in
/// between, the second lands in the same blob only where no flush came in
/// between, and then right where the first ends.
pub proof fn law_same_blob_consecutive(v: StoreView, c1: Seq<u8>, k1: Kind, c2: Seq<u8>, k2: Kind)
    requires
        c1.len() > 0,
        c2.len() > 0,
        v.data.len() + c1.len() + c2.len() <= usize::MAX,
    ensures
        ({
            let (v1, r1) = after_store(v, c1, k1);
            let r2 = after_store(after_maybe_flush(v1), c2, k2).1;
            r2.blob_id == r1.blob_id ==> r2.offset == r1.offset + r1.length
        }),
{
    let (v1, r1) = after_store(v, c1, k1);
    lemma_flush_target_fresh(v1);
}

/// A flush empties the buffer and leaves no pending reference, also where
/// the buffer was empty already.
pub proof fn law_flush_empties_pending(v: StoreView)
    requires
        pending_in_buffer(v),
    ensures
        after_flush(v).data.len() == 0,
        after_flush(v).pending.len() == 0,
{
    if v.pending.len() > 0 {
        assert(v.pending[0].length > 0);
    }
}

/// A stored chunk's reference names exactly the stored bytes inside the
/// buffer, the bytes of earlier pending chunks stay put, and every pending
/// reference still lies inside the buffer.
pub proof fn law_store_keeps_bytes(v: StoreView, chunk: Seq<u8>, kind: Kind)
    requires
        pending_in_buffer(v),
        chunk.len() > 0,
        v.data.len() + chunk.len() <= usize::MAX,
    ensures
        ({
            let (v1, r) = after_store(v, chunk, kind);
            &&& pending_in_buffer(v1)
            &&& v1.data.subrange(r.offset as int, r.offset + r.length) == chunk
            &&& forall|i: int|
                0 <= i < v.pending.len() ==> v1.data.subrange(
                    (#[trigger] v.pending[i]).offset as int,
                    v.pending[i].offset + v.pending[i].length,
                ) == v.data.subrange(
                    v.pending[i].offset as int,
                    v.pending[i].offset + v.pending[i].length,
                )
        }),
{
    let (v1, r) = after_store(v, chunk, kind);
    assert(v1.data.subrange(r.offset as int, r.offset + r.length) =~= chunk);
    assert forall|i: int| 0 <= i < v.pending.len() implies v1.data.subrange(
        (#[trigger] v.pending[i]).offset as int,
        v.pending[i].offset + v.pending[i].length,
    ) == v.data.subrange(v.pending[i].offset as int, v.pending[i].offset + v.pending[i].length) by {
        assert(v1.data.subrange(
            v.pending[i].offset as int,
            v.pending[i].offset + v.pending[i].length,
        ) =~= v.data.subrange(v.pending[i].offset as int, v.pending[i].offset + v.pending[i].length));
    }
    assert forall|i: int| 0 <= i < v1.pending.len() implies {
        &&& (#[trigger] v1.pending[i]).blob_id == v1.blob_name
        &&& v1.pending[i].length > 0
        &&& v1.pending[i].offset + v1.pending[i].length <= v1.data.len()
    } by {
        if i < v.pending.len() {
            assert(v1.pending[i] == v.pending[i]);
        }
    }
}

/// After a flush, every reference that was pending reads back as its bytes
/// of the flushed buffer, and references into other blobs read as before.
pub proof fn law_flush_makes_pending_readable(v: StoreView, other: ChunkRefView)
    requires
        pending_in_buffer(v),
        other.blob_id != v.blob_name,
    ensures
        forall|i: int|
            0 <= i < v.pending.len() ==> chunk_bytes(after_flush(v).backend, #[trigger] v.pending[i])
                == Ok::<Option<Seq<u8>>, crate::store::MsgError>(
                Some(
                    v.data.subrange(
                        v.pending[i].offset as int,
                        v.pending[i].offset + v.pending[i].length,
                    ),
                ),
            ),
        chunk_bytes(after_flush(v).backend, other) == chunk_bytes(v.backend, other),
{
}

/// A non-empty chunk stored and then flushed reads back as exactly its
/// bytes.
pub proof fn law_store_then_flush_readable(v: StoreView, chunk: Seq<u8>, kind: Kind)
    requires
        pending_in_buffer(v),
        chunk.len() > 0,
        v.data.len() + chunk.len() <= usize::MAX,
    ensures
        ({
            let (v1, r) = after_store(v, chunk, kind);
            chunk_bytes(after_flush(v1).backend, r) == Ok::<
                Option<Seq<u8>>,
                crate::store::MsgError,
            >(Some(chunk))
        }),
{
    law_store_keeps_bytes(v, chunk, kind);
    let (v1, r) = after_store(v, chunk, kind);
    assert(v1.data.len() > 0);
}

/// Storing a non-empty chunk queues no notice; the notices that a flush
/// queues all name the blob that the flush wrote to the backend, and each
/// lies inside it.
pub proof fn law_notice_only_after_commit(v: StoreView, chunk: Seq<u8>, kind: Kind)
    requires
        pending_in_buffer(v),
    ensures
        chunk.len() > 0 ==> after_store(v, chunk, kind).0.completed == v.completed,
        forall|j: int|
            v.completed.len() <= j < after_flush(v).completed.len() ==> {
                let n = #[trigger] after_flush(v).completed[j];
                &&& after_flush(v).backend.contains_key(n.blob_id)
                &&& after_flush(v).backend[n.blob_id] == v.data
                &&& n.offset + n.length <= v.data.len()
            },
{
    assert forall|j: int| v.completed.len() <= j < after_flush(v).completed.len() implies {
        let n = #[trigger] after_flush(v).completed[j];
        &&& after_flush(v).backend.contains_key(n.blob_id)
        &&& after_flush(v).backend[n.blob_id] == v.data
        &&& n.offset + n.length <= v.data.len()
    } by {
        assert(after_flush(v).completed[j] == v.pending[j - v.completed.len()]);
    }
}

/// Once the buffer reaches `max_blob_size` bytes through a store, the size
/// check that follows writes the blob and empties the buffer.
pub proof fn law_size_triggered_flush(v: StoreView, chunk: Seq<u8>, kind: Kind)
    requires
        chunk.len() > 0,
        v.data.len() + chunk.len() >= v.max_blob_size,
    ensures
        ({
            let w = after_maybe_flush(after_store(v, chunk, kind).0);
            &&& w.data.len() == 0
            &&& w.pending.len() == 0
            &&& w.backend.contains_key(v.blob_name)
            &&& w.backend[v.blob_name] == v.data + chunk
        }),
{
}

/// The budget after `k` admitted requests.
pub open spec fn spent_times(b: Option<i64>, k: nat) -> Option<i64>
    decreases k,
{
    if k == 0 {
        b
    } else {
        spent(spent_times(b, (k - 1) as nat))
    }
}

/// A store created with budget `Some(n)`, `n >= 0`, admits exactly `n`
/// requests: it is poisoned after the `n`-th and not before.
pub proof fn law_budget_admits_exactly(n: i64, k: nat)
    requires
        n >= 0,
        k <= n,
    ensures
        spent_times(Some(n), k) == Some((n - k) as i64),
        exhausted(spent_times(Some(n), k)) <==> k == n,
    decreases k,
{
    if k > 0 {
        law_budget_admits_exactly(n, (k - 1) as nat);
    }
}

/// After a blob that the index knows is tagged `t`, the index lists it
/// among the blobs tagged `t`.
pub proof fn law_tag_lists_blob(ix: BlobIndexView, name: Seq<u8>, t: Tag)
    requires
        knows(ix.entries, name),
    ensures
        exists|k: int|
            0 <= k < with_tag(ix.entries, Some(name), t).filter(has_tag(t)).len()
                && #[trigger] with_tag(ix.entries, Some(name), t).filter(has_tag(t))[k].name
                == name,
{
    let s = with_tag(ix.entries, Some(name), t);
    let i = choose|i: int| 0 <= i < ix.entries.len() && #[trigger] ix.entries[i].name == name;
    assert(s[i].name == name && has_tag(t)(s[i]));
    s.lemma_filter_contains(has_tag(t), i);
    let k = choose|k: int| 0 <= k < s.filter(has_tag(t)).len() && s.filter(has_tag(t))[k] == s[i];
    assert(s.filter(has_tag(t))[k].name == name);
}

/// Tagging a blob that the index knows and then deleting by that tag
/// removes the blob from the backend, so non-empty references into it read
/// as absent, and leaves no blob with that tag in the index.
pub proof fn law_tag_then_delete(v: StoreView, name: Seq<u8>, t: Tag, r: ChunkRefView)
    requires
        knows(v.index.entries, name),
        r.blob_id == name,
        !r.is_empty_ref(),
    ensures
        ({
            let v1 = StoreView {
                index: BlobIndexView {
                    next_id: v.index.next_id,
                    entries: with_tag(v.index.entries, Some(name), t),
                },
                ..v
            };
            let v2 = after_delete_by_tag(v1, t);
            &&& !v2.backend.contains_key(name)
            &&& chunk_bytes(v2.backend, r) == Ok::<Option<Seq<u8>>, crate::store::MsgError>(None)
            &&& v2.index.entries.filter(has_tag(t)).len() == 0
        }),
{
    let s = with_tag(v.index.entries, Some(name), t);
    let i = choose|i: int| 0 <= i < v.index.entries.len() && #[trigger] v.index.entries[i].name == name;
    assert(s[i].name == name && has_tag(t)(s[i]));
    s.lemma_filter_contains(has_tag(t), i);
    let f = s.filter(has_tag(t));
    let k = choose|k: int| 0 <= k < f.len() && f[k] == s[i];
    assert(f[k].name == name);
    assert(names_of(f).contains(name));
    let g = s.filter(lacks_tag(t));
    if g.filter(has_tag(t)).len() > 0 {
        let e = g.filter(has_tag(t))[0];
        g.lemma_filter_pred(has_tag(t), 0);
        assert(g.filter(has_tag(t)).contains(e));
        g.lemma_filter_contains_rev(has_tag(t), e);
        let m = choose|m: int| 0 <= m < g.len() && g[m] == e;
        g.lemma_filter_pred(lacks_tag(t), m);
        assert(false);
    }
}

} // verus!
