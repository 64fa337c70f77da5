use hat::chunk_ref::{ChunkRef, FormatError, Kind};

fn sample() -> ChunkRef {
    ChunkRef { blob_id: vec![7, 8, 9], offset: 300, length: 5, kind: Kind::TreeLeaf }
}

#[test]
fn encoding_layout() {
    let bytes = sample().as_bytes();
    let mut want: Vec<u8> = vec![1, 3, 0, 0, 0, 0, 0, 0, 0, 7, 8, 9];
    want.extend_from_slice(&[44, 1, 0, 0, 0, 0, 0, 0]);
    want.extend_from_slice(&[5, 0, 0, 0, 0, 0, 0, 0]);
    want.push(2);
    assert_eq!(bytes, want);
}

#[test]
fn round_trip_leaf_and_branch() {
    let leaf = sample();
    assert_eq!(ChunkRef::from_bytes(&leaf.as_bytes()), Ok(leaf.clone()));
    let branch = ChunkRef { blob_id: vec![], offset: 0, length: 0, kind: Kind::TreeBranch };
    assert_eq!(ChunkRef::from_bytes(&branch.as_bytes()), Ok(branch.clone()));
}

#[test]
fn read_msg_at_position() {
    let mut buf: Vec<u8> = vec![0xaa, 0xbb];
    sample().populate_msg(&mut buf);
    let end = buf.len();
    buf.push(0xcc);
    let (r, next) = ChunkRef::read_msg(&buf, 2).unwrap();
    assert_eq!(r, sample());
    assert_eq!(next, end);
}

#[test]
fn decode_errors() {
    let good = sample().as_bytes();
    assert_eq!(ChunkRef::from_bytes(&[]), Err(FormatError::Truncated));
    assert_eq!(ChunkRef::from_bytes(&good[..good.len() - 1]), Err(FormatError::Truncated));

    let mut bad_version = good.clone();
    bad_version[0] = 9;
    assert_eq!(ChunkRef::from_bytes(&bad_version), Err(FormatError::UnknownVersion));

    let mut bad_kind = good.clone();
    let last = bad_kind.len() - 1;
    bad_kind[last] = 3;
    assert_eq!(ChunkRef::from_bytes(&bad_kind), Err(FormatError::UnknownKind));

    let mut negative = good.clone();
    negative[19] = 0x80; // top byte of the offset
    assert_eq!(ChunkRef::from_bytes(&negative), Err(FormatError::OutOfRange));

    let empty_with_offset =
        ChunkRef { blob_id: vec![1], offset: 4, length: 0, kind: Kind::TreeLeaf };
    assert_eq!(
        ChunkRef::from_bytes(&empty_with_offset.as_bytes()),
        Err(FormatError::OutOfRange)
    );

    let mut trailing = good.clone();
    trailing.push(0);
    assert_eq!(ChunkRef::from_bytes(&trailing), Err(FormatError::TrailingBytes));
}

#[test]
fn equality_compares_every_field() {
    let a = sample();
    let mut b = sample();
    assert!(a == b);
    b.blob_id[0] = 0;
    assert!(a != b);
    let c = ChunkRef { kind: Kind::TreeBranch, ..sample() };
    assert!(a != c);
}
