//! Chunk references and their versioned binary encoding.
//!
//! An encoded reference is laid out as follows (integers little-endian):
//! one version byte, the blob id's length as a `u64`, the blob id's bytes,
//! the offset as a `u64`, the length as a `u64`, and one kind byte.
//! Offset and length are signed 64-bit quantities on the wire, so both must
//! be at most `i64::MAX`. This is not the Cap'n Proto packed encoding:
//! references written in that encoding do not decode here.

use vstd::bytes::*;
use vstd::prelude::*;
use vstd::slice::*;

use crate::backend::bytes_eq;

verus! {

/// Version byte that starts every encoded reference.
pub const FORMAT_VERSION: u8 = 1;

/// Wire tag of `Kind::TreeBranch`.
pub const KIND_TAG_BRANCH: u8 = 1;

/// Wire tag of `Kind::TreeLeaf`.
pub const KIND_TAG_LEAF: u8 = 2;

/// Largest offset, length or blob id length that the encoding carries.
pub const MAX_FIELD: u64 = 0x7fff_ffff_ffff_ffff;

/// What the referenced bytes are: raw leaf content or an internal tree node.
#[derive(Debug, Clone, Copy, PartialEq, Eq, Structural)]
pub enum Kind {
    TreeBranch,
    TreeLeaf,
}

/// Why a byte string is not an encoded reference.
#[derive(Debug, Clone, Copy, PartialEq, Eq, Structural)]
pub enum FormatError {
    /// The input ends before the reference does.
    Truncated,
    /// The first byte is not `FORMAT_VERSION`.
    UnknownVersion,
    /// The kind byte is neither tag.
    UnknownKind,
    /// A length, offset or id length is above `MAX_FIELD`, or the length
    /// is zero while the offset is not.
    OutOfRange,
    /// Bytes follow the encoded reference.
    TrailingBytes,
}

/// Locates a chunk: a byte range inside a named blob, with its kind.
#[derive(Debug, Clone)]
pub struct ChunkRef {
    pub blob_id: Vec<u8>,
    pub offset: usize,
    pub length: usize,
    pub kind: Kind,
}

/// The mathematical value of a `ChunkRef`.
pub struct ChunkRefView {
    pub blob_id: Seq<u8>,
    pub offset: usize,
    pub length: usize,
    pub kind: Kind,
}

impl View for ChunkRef {
    type V = ChunkRefView;

    open spec fn view(&self) -> ChunkRefView {
        ChunkRefView {
            blob_id: self.blob_id@,
            offset: self.offset,
            length: self.length,
            kind: self.kind,
        }
    }
}

impl ChunkRefView {
    /// The canonical reference to empty content: no blob backs it.
    pub open spec fn is_empty_ref(self) -> bool {
        self.offset == 0 && self.length == 0
    }

    /// Every field fits the wire format, and a zero length comes with a
    /// zero offset.
    pub open spec fn valid(self) -> bool {
        &&& self.blob_id.len() <= MAX_FIELD
        &&& self.offset <= MAX_FIELD
        &&& self.length <= MAX_FIELD
        &&& (self.length == 0 ==> self.offset == 0)
    }
}

/// The wire tag of `k`.
pub open spec fn kind_tag(k: Kind) -> u8 {
    match k {
        Kind::TreeBranch => KIND_TAG_BRANCH,
        Kind::TreeLeaf => KIND_TAG_LEAF,
    }
}

/// The bytes that encode `r`.
pub open spec fn encoding(r: ChunkRefView) -> Seq<u8> {
    seq![FORMAT_VERSION] + spec_u64_to_le_bytes(r.blob_id.len() as u64) + r.blob_id
        + spec_u64_to_le_bytes(r.offset as u64) + spec_u64_to_le_bytes(r.length as u64) + seq![
        kind_tag(r.kind),
    ]
}

/// The `u64` stored little-endian at `s[at..at + 8]`.
pub open spec fn u64_at(s: Seq<u8>, at: int) -> u64 {
    spec_u64_from_le_bytes(s.subrange(at, at + 8))
}

/// Reads one encoded reference that starts at `pos`, giving the reference
/// and the position just after it.
pub open spec fn parse_at(s: Seq<u8>, pos: int) -> Result<(ChunkRefView, int), FormatError> {
    if pos + 9 > s.len() {
        Err(FormatError::Truncated)
    } else if s[pos] != FORMAT_VERSION {
        Err(FormatError::UnknownVersion)
    } else if u64_at(s, pos + 1) > MAX_FIELD {
        Err(FormatError::OutOfRange)
    } else {
        let id_end = pos + 9 + u64_at(s, pos + 1);
        if id_end + 17 > s.len() {
            Err(FormatError::Truncated)
        } else {
            let offset = u64_at(s, id_end);
            let length = u64_at(s, id_end + 8);
            let tag = s[id_end + 16];
            if offset > MAX_FIELD || length > MAX_FIELD || (length == 0 && offset != 0) {
                Err(FormatError::OutOfRange)
            } else if tag != KIND_TAG_BRANCH && tag != KIND_TAG_LEAF {
                Err(FormatError::UnknownKind)
            } else {
                Ok(
                    (
                        ChunkRefView {
                            blob_id: s.subrange(pos + 9, id_end),
                            offset: offset as usize,
                            length: length as usize,
                            kind: if tag == KIND_TAG_BRANCH {
                                Kind::TreeBranch
                            } else {
                                Kind::TreeLeaf
                            },
                        },
                        id_end + 17,
                    ),
                )
            }
        }
    }
}

/// Reads a byte string that holds exactly one encoded reference.
pub open spec fn decoding(s: Seq<u8>) -> Result<ChunkRefView, FormatError> {
    match parse_at(s, 0) {
        Ok((r, end)) => if end == s.len() {
            Ok(r)
        } else {
            Err(FormatError::TrailingBytes)
        },
        Err(e) => Err(e),
    }
}

/// Decoding the encoding of a valid reference gives the reference back.
pub proof fn lemma_round_trip(r: ChunkRefView)
    requires
        r.valid(),
    ensures
        decoding(encoding(r)) == Ok::<ChunkRefView, FormatError>(r),
{
    lemma_auto_spec_u64_to_from_le_bytes();
    let s = encoding(r);
    let n = r.blob_id.len() as u64;
    let id_end: int = 9 + r.blob_id.len() as int;
    assert(s.subrange(1, 9) =~= spec_u64_to_le_bytes(n));
    assert(s.subrange(9, id_end) =~= r.blob_id);
    assert(s.subrange(id_end, id_end + 8) =~= spec_u64_to_le_bytes(r.offset as u64));
    assert(s.subrange(id_end + 8, id_end + 16) =~= spec_u64_to_le_bytes(r.length as u64));
    assert(s[id_end + 16] == kind_tag(r.kind));
    match parse_at(s, 0) {
        Ok((v, end)) => {
            assert(v.blob_id =~= r.blob_id);
        },
        Err(_) => {},
    }
}

impl PartialEq for ChunkRef {
    fn eq(&self, o: &ChunkRef) -> (r: bool)
        ensures
            r == (self@ == o@),
    {
        let same_id = bytes_eq(self.blob_id.as_slice(), o.blob_id.as_slice());
        same_id && self.offset == o.offset && self.length == o.length && self.kind == o.kind
    }
}

impl vstd::std_specs::cmp::PartialEqSpecImpl for ChunkRef {
    open spec fn obeys_eq_spec() -> bool {
        true
    }

    open spec fn eq_spec(&self, o: &ChunkRef) -> bool {
        self@ == o@
    }
}

impl Eq for ChunkRef {}

/// Appends the little-endian bytes of `x` to `out`.
fn push_u64(out: &mut Vec<u8>, x: u64)
    ensures
        final(out)@ == old(out)@ + spec_u64_to_le_bytes(x),
{
    let mut b = u64_to_le_bytes(x);
    out.append(&mut b);
}

impl ChunkRef {
    /// A copy of this reference.
    pub fn duplicate(&self) -> (r: ChunkRef)
        ensures
            r@ == self@,
    {
        let blob_id = self.blob_id.clone();
        assert(blob_id@ =~= self.blob_id@);
        ChunkRef { blob_id, offset: self.offset, length: self.length, kind: self.kind }
    }

    /// Decodes a byte string that holds exactly one encoded reference.
    pub fn from_bytes(bytes: &[u8]) -> (r: Result<ChunkRef, FormatError>)
        ensures
            match decoding(bytes@) {
                Ok(v) => r is Ok && r->Ok_0@ == v,
                Err(e) => r == Err::<ChunkRef, FormatError>(e),
            },
    {
        match ChunkRef::read_msg(bytes, 0) {
            Ok((c, end)) => {
                if end == bytes.len() {
                    Ok(c)
                } else {
                    Err(FormatError::TrailingBytes)
                }
            },
            Err(e) => Err(e),
        }
    }

    /// The encoding of this reference.
    pub fn as_bytes(&self) -> (r: Vec<u8>)
        ensures
            r@ == encoding(self@),
    {
        let mut out: Vec<u8> = Vec::new();
        self.populate_msg(&mut out);
        assert(out@ =~= encoding(self@));
        out
    }

    /// Appends the encoding of this reference to `out`.
    pub fn populate_msg(&self, out: &mut Vec<u8>)
        ensures
            final(out)@ == old(out)@ + encoding(self@),
    {
        let ghost start = out@;
        out.push(FORMAT_VERSION);
        push_u64(out, self.blob_id.len() as u64);
        let ghost before_id = out@;
        out.extend_from_slice(self.blob_id.as_slice());
        assert(out@ =~= before_id + self.blob_id@);
        push_u64(out, self.offset as u64);
        push_u64(out, self.length as u64);
        let tag = match self.kind {
            Kind::TreeBranch => KIND_TAG_BRANCH,
            Kind::TreeLeaf => KIND_TAG_LEAF,
        };
        out.push(tag);
        assert(out@ =~= start + encoding(self@));
    }

    /// Reads one encoded reference that starts at `pos` in `bytes`, giving
    /// the reference and the position just after it.
    pub fn read_msg(bytes: &[u8], pos: usize) -> (r: Result<(ChunkRef, usize), FormatError>)
        ensures
            match parse_at(bytes@, pos as int) {
                Ok((v, end)) => r is Ok && r->Ok_0.0@ == v && r->Ok_0.1 == end,
                Err(e) => r == Err::<(ChunkRef, usize), FormatError>(e),
            },
    {
        let len = bytes.len();
        if pos > len || len - pos < 9 {
            return Err(FormatError::Truncated);
        }
        if bytes[pos] != FORMAT_VERSION {
            return Err(FormatError::UnknownVersion);
        }
        let n = u64_from_le_bytes(slice_subrange(bytes, pos + 1, pos + 9));
        if n > MAX_FIELD {
            return Err(FormatError::OutOfRange);
        }
        let rest = len - pos - 9;
        if n > rest as u64 || rest - (n as usize) < 17 {
            return Err(FormatError::Truncated);
        }
        let id_end = pos + 9 + n as usize;
        let offset = u64_from_le_bytes(slice_subrange(bytes, id_end, id_end + 8));
        let length = u64_from_le_bytes(slice_subrange(bytes, id_end + 8, id_end + 16));
        let tag = bytes[id_end + 16];
        if offset > MAX_FIELD || length > MAX_FIELD || (length == 0 && offset != 0) {
            return Err(FormatError::OutOfRange);
        }
        let kind = if tag == KIND_TAG_BRANCH {
            Kind::TreeBranch
        } else if tag == KIND_TAG_LEAF {
            Kind::TreeLeaf
        } else {
            return Err(FormatError::UnknownKind);
        };
        let blob_id = slice_to_vec(slice_subrange(bytes, pos + 9, id_end));
        Ok(
            (
                ChunkRef { blob_id, offset: offset as usize, length: length as usize, kind },
                id_end + 17,
            ),
        )
    }
}

} // verus!
