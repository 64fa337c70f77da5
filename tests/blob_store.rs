use hat::backend::{MemoryBackend, StoreBackend};
use hat::blob_store::BlobStore;
use hat::chunk_ref::{ChunkRef, Kind};
use hat::index::{BlobIndex, Tag};
use hat::store::{LockError, MsgError};

fn store_with(max_blob_size: usize, budget: Option<i64>) -> BlobStore<MemoryBackend> {
    BlobStore::new_with_poison(BlobIndex::new(), MemoryBackend::new(), max_blob_size, budget)
}

#[test]
fn example_scenario_auto_flush() {
    let mut bs = store_with(10, None);
    let r1 = bs.store(b"abcdef".to_vec(), Kind::TreeLeaf).unwrap();
    assert_eq!((r1.offset, r1.length), (0, 6));
    bs.maybe_flush().unwrap();
    assert_eq!(bs.buffered_len(), 6);
    assert!(bs.take_completed().is_empty());

    let r2 = bs.store(b"ghijklmn".to_vec(), Kind::TreeLeaf).unwrap();
    assert_eq!((r2.offset, r2.length), (6, 8));
    assert_eq!(r2.blob_id, r1.blob_id);
    assert_eq!(bs.buffered_len(), 14);
    assert!(bs.take_completed().is_empty());
    bs.maybe_flush().unwrap();
    assert_eq!(bs.buffered_len(), 0);
    let done = bs.take_completed();
    assert_eq!(done, vec![r1.clone(), r2.clone()]);

    assert_eq!(bs.retrieve(&r2), Ok(Some(b"ghijklmn".to_vec())));
    assert_eq!(bs.retrieve(&r1), Ok(Some(b"abcdef".to_vec())));
}

#[test]
fn empty_chunk_gets_empty_ref_and_notice() {
    let mut bs = store_with(100, None);
    bs.store(b"xyz".to_vec(), Kind::TreeLeaf).unwrap();
    let e = bs.store(Vec::new(), Kind::TreeBranch).unwrap();
    assert_eq!((e.offset, e.length), (0, 0));
    assert_eq!(e.kind, Kind::TreeBranch);
    assert_eq!(bs.buffered_len(), 3);
    assert_eq!(bs.take_completed(), vec![e.clone()]);
    assert_eq!(bs.retrieve(&e), Ok(Some(Vec::new())));
}

#[test]
fn offsets_increase_by_length() {
    let mut bs = store_with(1000, None);
    let a = bs.store(vec![1; 4], Kind::TreeLeaf).unwrap();
    let b = bs.store(vec![2; 7], Kind::TreeBranch).unwrap();
    let c = bs.store(vec![3; 1], Kind::TreeLeaf).unwrap();
    assert_eq!(a.offset, 0);
    assert_eq!(b.offset, 4);
    assert_eq!(c.offset, 11);
    assert_eq!(a.blob_id, c.blob_id);
}

#[test]
fn flush_makes_refs_readable_and_starts_new_blob() {
    let mut bs = store_with(1000, None);
    let a = bs.store(b"hello".to_vec(), Kind::TreeLeaf).unwrap();
    assert_eq!(bs.retrieve(&a), Ok(None));
    bs.flush().unwrap();
    assert_eq!(bs.retrieve(&a), Ok(Some(b"hello".to_vec())));
    let b = bs.store(b"world".to_vec(), Kind::TreeLeaf).unwrap();
    assert_ne!(a.blob_id, b.blob_id);
    assert_eq!(b.offset, 0);
    bs.flush().unwrap();
    assert_eq!(bs.retrieve(&a), Ok(Some(b"hello".to_vec())));
    assert_eq!(bs.retrieve(&b), Ok(Some(b"world".to_vec())));
}

#[test]
fn flush_of_empty_buffer_changes_nothing() {
    let mut bs = store_with(1000, None);
    bs.flush().unwrap();
    let a = bs.store(b"q".to_vec(), Kind::TreeLeaf).unwrap();
    bs.flush().unwrap();
    bs.flush().unwrap();
    assert_eq!(bs.take_completed(), vec![a]);
}

#[test]
fn notices_wait_for_commit() {
    let mut bs = store_with(1000, None);
    let a = bs.store(b"abc".to_vec(), Kind::TreeLeaf).unwrap();
    let b = bs.store(b"de".to_vec(), Kind::TreeLeaf).unwrap();
    assert!(bs.take_completed().is_empty());
    bs.flush().unwrap();
    assert_eq!(bs.take_completed(), vec![a, b]);
    assert!(bs.take_completed().is_empty());
}

#[test]
fn size_triggered_flush() {
    let mut bs = store_with(4, None);
    let a = bs.store(b"ab".to_vec(), Kind::TreeLeaf).unwrap();
    bs.maybe_flush().unwrap();
    assert_eq!(bs.buffered_len(), 2);
    let b = bs.store(b"cd".to_vec(), Kind::TreeLeaf).unwrap();
    bs.maybe_flush().unwrap();
    assert_eq!(bs.buffered_len(), 0);
    assert_eq!(bs.take_completed(), vec![a.clone(), b.clone()]);
    assert_eq!(bs.retrieve(&a), Ok(Some(b"ab".to_vec())));
    assert_eq!(bs.retrieve(&b), Ok(Some(b"cd".to_vec())));
}

#[test]
fn budget_runs_out_and_reset_restores() {
    let mut bs = store_with(1000, Some(2));
    assert_eq!(bs.reset(), Err(MsgError::NotPoisoned));
    let a = bs.store(b"one".to_vec(), Kind::TreeLeaf).unwrap();
    assert!(bs.tag_all(Tag(1)).is_ok());
    assert_eq!(
        bs.store(b"two".to_vec(), Kind::TreeLeaf),
        Err(MsgError::Lock(LockError::RequestLimitReached))
    );
    assert_eq!(bs.flush(), Err(MsgError::Lock(LockError::RequestLimitReached)));
    assert_eq!(bs.maybe_flush(), Ok(()));
    assert_eq!(bs.retrieve(&a), Err(MsgError::Lock(LockError::RequestLimitReached)));
    assert_eq!(bs.retrieve_named("x"), Err(MsgError::Lock(LockError::RequestLimitReached)));
    assert_eq!(bs.buffered_len(), 3);

    assert_eq!(bs.reset(), Ok(()));
    assert_eq!(bs.buffered_len(), 0);
    assert!(bs.take_completed().is_empty());
    let b = bs.store(b"three".to_vec(), Kind::TreeLeaf).unwrap();
    assert_eq!(b.offset, 0);
    bs.flush().unwrap();
    assert_eq!(bs.take_completed(), vec![b.clone()]);
    assert_eq!(bs.retrieve(&b), Ok(Some(b"three".to_vec())));
    assert_eq!(bs.retrieve(&a), Ok(None));
    assert_eq!(bs.reset(), Err(MsgError::NotPoisoned));
}

#[test]
fn tag_then_delete_removes_blob() {
    let mut bs = store_with(1000, None);
    let a = bs.store(b"keep".to_vec(), Kind::TreeLeaf).unwrap();
    bs.flush().unwrap();
    let b = bs.store(b"drop".to_vec(), Kind::TreeLeaf).unwrap();
    bs.flush().unwrap();
    bs.tag(b.clone(), Tag(9)).unwrap();
    let listed = bs.list_by_tag(Tag(9));
    assert_eq!(listed.len(), 1);
    assert_eq!(listed[0].name, b.blob_id);

    bs.delete_by_tag(Tag(9)).unwrap();
    assert_eq!(bs.retrieve(&b), Ok(None));
    assert_eq!(bs.retrieve(&a), Ok(Some(b"keep".to_vec())));
    assert!(bs.list_by_tag(Tag(9)).is_empty());
}

#[test]
fn tag_all_then_delete_removes_every_blob() {
    let mut bs = store_with(1000, None);
    let a = bs.store(b"one".to_vec(), Kind::TreeLeaf).unwrap();
    bs.flush().unwrap();
    bs.tag_all(Tag(2)).unwrap();
    assert_eq!(bs.list_by_tag(Tag(2)).len(), 2);
    bs.delete_by_tag(Tag(2)).unwrap();
    assert_eq!(bs.retrieve(&a), Ok(None));
    assert!(bs.list_by_tag(Tag(2)).is_empty());
}

#[test]
fn named_blobs_pass_through() {
    let mut bs = store_with(1000, None);
    assert_eq!(bs.retrieve_named("root"), Ok(None));
    bs.store_named("root", b"tree").unwrap();
    assert_eq!(bs.retrieve_named("root"), Ok(Some(b"tree".to_vec())));
    bs.store_named("root", b"tree2").unwrap();
    assert_eq!(bs.retrieve_named("root"), Ok(Some(b"tree2".to_vec())));
}

#[test]
fn out_of_range_ref_is_an_error() {
    let mut bs = store_with(1000, None);
    let a = bs.store(b"abc".to_vec(), Kind::TreeLeaf).unwrap();
    bs.flush().unwrap();
    let bad = ChunkRef { offset: 2, length: 5, ..a };
    assert_eq!(bs.retrieve(&bad), Err(MsgError::ChunkOutOfRange));
}

#[test]
fn recover_registers_unknown_blob() {
    let mut bs = store_with(1000, None);
    let foreign = ChunkRef { blob_id: b"old".to_vec(), offset: 0, length: 3, kind: Kind::TreeLeaf };
    bs.recover(foreign.clone()).unwrap();
    bs.tag(foreign.clone(), Tag(4)).unwrap();
    let listed = bs.list_by_tag(Tag(4));
    assert_eq!(listed.len(), 1);
    assert_eq!(listed[0].name, b"old".to_vec());

    let empty = ChunkRef { blob_id: vec![0], offset: 0, length: 0, kind: Kind::TreeLeaf };
    bs.recover(empty).unwrap();
    bs.tag_all(Tag(5)).unwrap();
    assert_eq!(bs.list_by_tag(Tag(5)).len(), 2);
}

#[test]
fn index_hands_out_distinct_names() {
    let mut ix = BlobIndex::new();
    let a = ix.reserve();
    let b = ix.reserve();
    assert_eq!(a.id, 1);
    assert_eq!(b.id, 2);
    assert_eq!(a.name, vec![1, 0, 0, 0, 0, 0, 0, 0]);
    assert_ne!(a.name, b.name);
}

#[test]
fn backend_store_retrieve_delete() {
    let mut be = MemoryBackend::new();
    assert_eq!(be.store(b"k", b"v1"), Ok(()));
    assert_eq!(be.store(b"j", b"w"), Ok(()));
    assert_eq!(be.store(b"k", b"v2"), Ok(()));
    assert_eq!(be.retrieve(b"k"), Ok(Some(b"v2".to_vec())));
    assert_eq!(be.delete(b"k"), Ok(()));
    assert_eq!(be.retrieve(b"k"), Ok(None));
    assert_eq!(be.get(b"j"), Some(b"w".to_vec()));
    be.remove(b"j");
    be.put(b"i", b"x");
    assert_eq!(be.get(b"j"), None);
    assert_eq!(be.get(b"i"), Some(b"x".to_vec()));
}

#[test]
fn maybe_flush_below_size_does_nothing() {
    let mut bs = store_with(10, None);
    bs.maybe_flush().unwrap();
    bs.store(b"abc".to_vec(), Kind::TreeLeaf).unwrap();
    bs.maybe_flush().unwrap();
    assert_eq!(bs.buffered_len(), 3);
    assert!(bs.take_completed().is_empty());
}

#[test]
fn reserve_skips_recovered_names() {
    let mut bs = store_with(1000, None);
    // The store took identity 1; this blob is recorded under identity 2.
    let recovered_name = vec![3, 0, 0, 0, 0, 0, 0, 0];
    let foreign =
        ChunkRef { blob_id: recovered_name.clone(), offset: 0, length: 2, kind: Kind::TreeLeaf };
    bs.recover(foreign.clone()).unwrap();
    let a = bs.store(b"first".to_vec(), Kind::TreeLeaf).unwrap();
    assert_eq!(a.blob_id, vec![1, 0, 0, 0, 0, 0, 0, 0]);
    bs.flush().unwrap();
    let b = bs.store(b"second".to_vec(), Kind::TreeLeaf).unwrap();
    assert_ne!(b.blob_id, recovered_name);
    assert_ne!(b.blob_id, a.blob_id);
    bs.flush().unwrap();
    assert_eq!(bs.retrieve(&b), Ok(Some(b"second".to_vec())));
}

#[test]
fn index_reserve_avoids_known_name() {
    let mut ix = BlobIndex::new();
    ix.recover(vec![1, 0, 0, 0, 0, 0, 0, 0]);
    let d = ix.reserve();
    assert_eq!(d.id, 2);
    assert_eq!(d.name, vec![2, 0, 0, 0, 0, 0, 0, 0]);
    let mut ix2 = BlobIndex::new();
    ix2.recover(vec![2, 0, 0, 0, 0, 0, 0, 0]);
    let e = ix2.reserve();
    assert_eq!(e.id, 2);
    assert_eq!(e.name, vec![0; 9]);
    assert!(ix2.knows_name(&[2, 0, 0, 0, 0, 0, 0, 0]));
}
