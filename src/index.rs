//! The blob index: hands out fresh blob identities and records each blob's
//! lifecycle state and retention tag.

use vstd::bytes::*;
use vstd::prelude::*;
use vstd::slice::*;

use crate::backend::bytes_eq;

verus! {

/// Where a blob stands on its way to the backend.
#[derive(Debug, Clone, Copy, PartialEq, Eq, Structural)]
pub enum BlobState {
    /// Its identity was handed out; nothing was written yet.
    Reserved,
    /// Its write to the backend has started and is not confirmed.
    InAir,
    /// The backend holds it.
    Committed,
}

/// A retention or classification label attached to blobs.
#[derive(Debug, Clone, Copy, PartialEq, Eq, Structural)]
pub struct Tag(pub u64);

/// The identity of a blob: a number and the name it has in the backend.
#[derive(Debug, Clone)]
pub struct BlobDesc {
    pub id: u64,
    pub name: Vec<u8>,
}

/// One blob known to the index.
#[derive(Debug)]
pub struct BlobEntry {
    pub id: u64,
    pub name: Vec<u8>,
    pub state: BlobState,
    pub tag: Option<Tag>,
}

/// The mathematical value of a `BlobEntry`.
pub struct BlobEntryView {
    pub id: u64,
    pub name: Seq<u8>,
    pub state: BlobState,
    pub tag: Option<Tag>,
}

impl View for BlobEntry {
    type V = BlobEntryView;

    open spec fn view(&self) -> BlobEntryView {
        BlobEntryView { id: self.id, name: self.name@, state: self.state, tag: self.tag }
    }
}

/// Keeps track of the blobs of one store.
pub struct BlobIndex {
    next_id: u64,
    entries: Vec<BlobEntry>,
}

/// The mathematical value of a `BlobIndex`: the next identity to hand out,
/// and the known blobs in the order they became known.
pub struct BlobIndexView {
    pub next_id: u64,
    pub entries: Seq<BlobEntryView>,
}

impl View for BlobIndex {
    type V = BlobIndexView;

    closed spec fn view(&self) -> BlobIndexView {
        BlobIndexView {
            next_id: self.next_id,
            entries: self.entries@.map_values(|e: BlobEntry| e@),
        }
    }
}

/// The backend name of the blob with identity `id`.
pub open spec fn blob_name(id: u64) -> Seq<u8> {
    spec_u64_to_le_bytes(id)
}

/// The length of the longest name in `s`.
pub open spec fn longest_name(s: Seq<BlobEntryView>) -> nat
    decreases s.len(),
{
    if s.len() == 0 {
        0
    } else {
        let m = longest_name(s.drop_last());
        if s.last().name.len() > m {
            s.last().name.len()
        } else {
            m
        }
    }
}

/// Zero bytes, one more than the longest name in `s`.
pub open spec fn padding(s: Seq<BlobEntryView>) -> Seq<u8> {
    Seq::new(longest_name(s) + 1, |k: int| 0u8)
}

/// The name handed out with identity `id`: `blob_name(id)`, unless an entry
/// of `s` already has it.
pub open spec fn fresh_name(s: Seq<BlobEntryView>, id: u64) -> Seq<u8> {
    if knows(s, blob_name(id)) {
        padding(s)
    } else {
        blob_name(id)
    }
}

/// No name in `s` is longer than `longest_name(s)`.
pub proof fn lemma_longest_name(s: Seq<BlobEntryView>)
    ensures
        forall|i: int| 0 <= i < s.len() ==> (#[trigger] s[i]).name.len() <= longest_name(s),
    decreases s.len(),
{
    if s.len() > 0 {
        lemma_longest_name(s.drop_last());
        assert forall|i: int| 0 <= i < s.len() implies (#[trigger] s[i]).name.len()
            <= longest_name(s) by {
            if i < s.len() - 1 {
                assert(s[i] == s.drop_last()[i]);
            }
        }
    }
}

/// No entry of `s` has the name `fresh_name(s, id)`.
pub proof fn lemma_fresh_name(s: Seq<BlobEntryView>, id: u64)
    ensures
        !knows(s, fresh_name(s, id)),
{
    lemma_longest_name(s);
    if knows(s, blob_name(id)) {
        if knows(s, padding(s)) {
            let i = choose|i: int| 0 <= i < s.len() && #[trigger] s[i].name == padding(s);
            assert(s[i].name.len() <= longest_name(s));
        }
    }
}

/// The identity handed out after `id`; zero is never handed out.
pub open spec fn next_after(id: u64) -> u64 {
    if id == u64::MAX {
        1
    } else {
        (id + 1) as u64
    }
}

/// `s` with the state of every entry named `name` set to `st`.
pub open spec fn with_state(s: Seq<BlobEntryView>, name: Seq<u8>, st: BlobState) -> Seq<
    BlobEntryView,
> {
    Seq::new(
        s.len(),
        |i: int|
            if s[i].name == name {
                BlobEntryView { state: st, ..s[i] }
            } else {
                s[i]
            },
    )
}

/// `s` with the tag of every entry named `name` (of every entry, where
/// `name` is `None`) set to `t`.
pub open spec fn with_tag(s: Seq<BlobEntryView>, name: Option<Seq<u8>>, t: Tag) -> Seq<
    BlobEntryView,
> {
    Seq::new(
        s.len(),
        |i: int|
            if name is None || name == Some(s[i].name) {
                BlobEntryView { tag: Some(t), ..s[i] }
            } else {
                s[i]
            },
    )
}

/// Holds of the entries tagged `t`.
pub open spec fn has_tag(t: Tag) -> spec_fn(BlobEntryView) -> bool {
    |e: BlobEntryView| e.tag == Some(t)
}

/// Holds of the entries not tagged `t`.
pub open spec fn lacks_tag(t: Tag) -> spec_fn(BlobEntryView) -> bool {
    |e: BlobEntryView| e.tag != Some(t)
}

/// Holds of the committed entries.
pub open spec fn is_committed() -> spec_fn(BlobEntryView) -> bool {
    |e: BlobEntryView| e.state == BlobState::Committed
}

/// The entries that `retain` keeps: those without tag `t` where `by_tag`
/// is `Some(t)`, else the committed ones.
pub open spec fn retained(by_tag: Option<Tag>) -> spec_fn(BlobEntryView) -> bool {
    match by_tag {
        Some(t) => lacks_tag(t),
        None => is_committed(),
    }
}

/// Whether some entry of `s` is named `name`.
pub open spec fn knows(s: Seq<BlobEntryView>, name: Seq<u8>) -> bool {
    exists|i: int| 0 <= i < s.len() && #[trigger] s[i].name == name
}

/// The index `ix` after it learned that the blob named `name` is held by the
/// backend.
pub open spec fn recovered(ix: BlobIndexView, name: Seq<u8>) -> BlobIndexView {
    if knows(ix.entries, name) {
        BlobIndexView {
            next_id: ix.next_id,
            entries: with_state(ix.entries, name, BlobState::Committed),
        }
    } else {
        BlobIndexView {
            next_id: next_after(ix.next_id),
            entries: ix.entries.push(
                BlobEntryView { id: ix.next_id, name, state: BlobState::Committed, tag: None },
            ),
        }
    }
}

impl BlobIndex {
    /// An index that knows no blob.
    pub fn new() -> (r: BlobIndex)
        ensures
            r@.next_id == 1,
            r@.entries == Seq::<BlobEntryView>::empty(),
    {
        let r = BlobIndex { next_id: 1, entries: Vec::new() };
        assert(r@.entries =~= Seq::<BlobEntryView>::empty());
        r
    }

    /// Hands out a fresh identity and records it as reserved.
    pub fn reserve(&mut self) -> (r: BlobDesc)
        ensures
            r.id == old(self)@.next_id,
            r.name@ == fresh_name(old(self)@.entries, r.id),
            !knows(old(self)@.entries, r.name@),
            final(self)@.next_id == next_after(old(self)@.next_id),
            final(self)@.entries == old(self)@.entries.push(
                BlobEntryView {
                    id: r.id,
                    name: r.name@,
                    state: BlobState::Reserved,
                    tag: None,
                },
            ),
    {
        let id = self.next_id;
        let plain = u64_to_le_bytes(id);
        let name = if self.knows_name(plain.as_slice()) {
            self.padding_name()
        } else {
            plain
        };
        proof {
            lemma_fresh_name(old(self)@.entries, id);
        }
        let entry = BlobEntry { id, name: name.clone(), state: BlobState::Reserved, tag: None };
        assert(entry.name@ =~= name@);
        self.entries.push(entry);
        self.next_id = if id == u64::MAX {
            1
        } else {
            id + 1
        };
        assert(self@.entries =~= old(self)@.entries.push(entry@));
        BlobDesc { id, name }
    }

    /// Whether some entry is named `name`.
    pub fn knows_name(&self, name: &[u8]) -> (r: bool)
        ensures
            r == knows(self@.entries, name@),
    {
        let mut i: usize = 0;
        while i < self.entries.len()
            invariant
                i <= self@.entries.len(),
                forall|j: int| 0 <= j < i ==> self@.entries[j].name != name@,
            decreases self@.entries.len() - i,
        {
            if bytes_eq(self.entries[i].name.as_slice(), name) {
                assert(self@.entries[i as int].name == name@);
                return true;
            }
            i = i + 1;
        }
        false
    }

    /// A name of zero bytes, one longer than the longest known name.
    fn padding_name(&self) -> (r: Vec<u8>)
        ensures
            r@ == padding(self@.entries),
    {
        let ghost s = self@.entries;
        let mut m: usize = 0;
        let mut i: usize = 0;
        while i < self.entries.len()
            invariant
                s == self@.entries,
                i <= s.len(),
                m == longest_name(s.take(i as int)),
            decreases s.len() - i,
        {
            assert(s.take(i + 1).drop_last() =~= s.take(i as int));
            if self.entries[i].name.len() > m {
                m = self.entries[i].name.len();
            }
            i = i + 1;
        }
        assert(s.take(s.len() as int) =~= s);
        let mut out: Vec<u8> = Vec::new();
        while out.len() <= m
            invariant
                out@ =~= Seq::new(out@.len(), |k: int| 0u8),
                out@.len() <= m + 1,
            decreases m + 1 - out@.len(),
        {
            out.push(0u8);
        }
        assert(out@ =~= padding(s));
        out
    }

    /// Sets the state of every entry named `name` to `st`.
    fn set_state(&mut self, name: &[u8], st: BlobState)
        ensures
            final(self)@.next_id == old(self)@.next_id,
            final(self)@.entries == with_state(old(self)@.entries, name@, st),
    {
        let ghost target = with_state(old(self)@.entries, name@, st);
        let mut i: usize = 0;
        while i < self.entries.len()
            invariant
                self.next_id == old(self).next_id,
                target == with_state(old(self)@.entries, name@, st),
                self@.entries.len() == target.len(),
                i <= target.len(),
                forall|j: int| 0 <= j < i ==> self@.entries[j] == target[j],
                forall|j: int| i <= j < target.len() ==> self@.entries[j] == old(self)@.entries[j],
            decreases target.len() - i,
        {
            if bytes_eq(self.entries[i].name.as_slice(), name) {
                let e = BlobEntry {
                    id: self.entries[i].id,
                    name: slice_to_vec(name),
                    state: st,
                    tag: self.entries[i].tag,
                };
                self.entries.set(i, e);
            }
            assert(self@.entries[i as int] == target[i as int]);
            i = i + 1;
        }
        assert(self@.entries =~= target);
    }

    /// Sets the tag of every entry named `name` (of every entry, where `name`
    /// is `None`) to `t`.
    fn set_tag(&mut self, name: Option<&[u8]>, t: Tag)
        ensures
            final(self)@.next_id == old(self)@.next_id,
            final(self)@.entries == with_tag(
                old(self)@.entries,
                match name {
                    Some(n) => Some(n@),
                    None => None,
                },
                t,
            ),
    {
        let ghost nv = match name {
            Some(n) => Some(n@),
            None => None,
        };
        let ghost target = with_tag(old(self)@.entries, nv, t);
        let mut i: usize = 0;
        while i < self.entries.len()
            invariant
                self.next_id == old(self).next_id,
                self@.entries.len() == target.len(),
                i <= target.len(),
                target == with_tag(old(self)@.entries, nv, t),
                nv == match name {
                    Some(n) => Some(n@),
                    None => None::<Seq<u8>>,
                },
                forall|j: int| 0 <= j < i ==> self@.entries[j] == target[j],
                forall|j: int| i <= j < target.len() ==> self@.entries[j] == old(self)@.entries[j],
            decreases target.len() - i,
        {
            let hit = match name {
                Some(n) => bytes_eq(self.entries[i].name.as_slice(), n),
                None => true,
            };
            if hit {
                let e = BlobEntry {
                    id: self.entries[i].id,
                    name: self.entries[i].name.clone(),
                    state: self.entries[i].state,
                    tag: Some(t),
                };
                assert(e.name@ =~= self.entries@[i as int].name@);
                self.entries.set(i, e);
            }
            i = i + 1;
        }
        assert(self@.entries =~= target);
    }

    /// Keeps only the entries that `retained(by_tag)` accepts, in order.
    fn retain(&mut self, by_tag: Option<Tag>)
        ensures
            final(self)@.next_id == old(self)@.next_id,
            final(self)@.entries == old(self)@.entries.filter(retained(by_tag)),
    {
        let ghost keep = retained(by_tag);
        let ghost s = old(self)@.entries;
        let mut kept: Vec<BlobEntry> = Vec::new();
        let mut i: usize = 0;
        while i < self.entries.len()
            invariant
                s == self@.entries,
                self.next_id == old(self).next_id,
                i <= s.len(),
                kept@.map_values(|e: BlobEntry| e@) == s.take(i as int).filter(keep),
                keep == retained(by_tag),
            decreases s.len() - i,
        {
            let e = &self.entries[i];
            let take = match by_tag {
                Some(t) => e.tag != Some(t),
                None => e.state == BlobState::Committed,
            };
            assert(s.take(i + 1).drop_last() =~= s.take(i as int));
            reveal(Seq::filter);
            assert(s.take(i + 1).last() == s[i as int]);
            assert(keep(s[i as int]) == take);
            if take {
                let c = BlobEntry { id: e.id, name: e.name.clone(), state: e.state, tag: e.tag };
                assert(c.name@ =~= e.name@);
                let ghost before = kept@.map_values(|e: BlobEntry| e@);
                kept.push(c);
                assert(kept@.map_values(|e: BlobEntry| e@) =~= before.push(s[i as int]));
            }
            assert(kept@.map_values(|e: BlobEntry| e@) == s.take(i + 1).filter(keep));
            i = i + 1;
        }
        assert(s.take(s.len() as int) =~= s);
        self.entries = kept;
    }

    /// Marks the blob `desc` as being written.
    pub fn in_air(&mut self, desc: &BlobDesc)
        ensures
            final(self)@.next_id == old(self)@.next_id,
            final(self)@.entries == with_state(old(self)@.entries, desc.name@, BlobState::InAir),
    {
        self.set_state(desc.name.as_slice(), BlobState::InAir);
    }

    /// Marks the blob `desc` as held by the backend.
    pub fn commit_done(&mut self, desc: &BlobDesc)
        ensures
            final(self)@.next_id == old(self)@.next_id,
            final(self)@.entries == with_state(
                old(self)@.entries,
                desc.name@,
                BlobState::Committed,
            ),
    {
        self.set_state(desc.name.as_slice(), BlobState::Committed);
    }

    /// Records that the blob named `name` is held by the backend, adding it
    /// under a fresh identity where the index does not know it.
    pub fn recover(&mut self, name: Vec<u8>)
        ensures
            final(self)@ == recovered(old(self)@, name@),
    {
        let found = self.knows_name(name.as_slice());
        if found {
            self.set_state(name.as_slice(), BlobState::Committed);
        } else {
            let id = self.next_id;
            let entry = BlobEntry { id, name, state: BlobState::Committed, tag: None };
            self.entries.push(entry);
            self.next_id = if id == u64::MAX {
                1
            } else {
                id + 1
            };
            assert(self@.entries =~= old(self)@.entries.push(entry@));
        }
    }

    /// Tags the blob `desc` with `t`.
    pub fn tag(&mut self, desc: &BlobDesc, t: Tag)
        ensures
            final(self)@.next_id == old(self)@.next_id,
            final(self)@.entries == with_tag(old(self)@.entries, Some(desc.name@), t),
    {
        self.set_tag(Some(desc.name.as_slice()), t);
    }

    /// Tags every known blob with `t`.
    pub fn tag_all(&mut self, t: Tag)
        ensures
            final(self)@.next_id == old(self)@.next_id,
            final(self)@.entries == with_tag(old(self)@.entries, None, t),
    {
        self.set_tag(None, t);
    }

    /// The blobs tagged `t`, in the order the index knows them.
    pub fn list_by_tag(&self, t: Tag) -> (r: Vec<BlobDesc>)
        ensures
            r@.len() == self@.entries.filter(has_tag(t)).len(),
            forall|j: int|
                0 <= j < r@.len() ==> (#[trigger] r@[j]).id == self@.entries.filter(
                    has_tag(t),
                )[j].id && r@[j].name@ == self@.entries.filter(has_tag(t))[j].name,
    {
        let ghost s = self@.entries;
        let mut out: Vec<BlobDesc> = Vec::new();
        let mut i: usize = 0;
        while i < self.entries.len()
            invariant
                s == self@.entries,
                i <= s.len(),
                out@.len() == s.take(i as int).filter(has_tag(t)).len(),
                forall|j: int|
                    0 <= j < out@.len() ==> (#[trigger] out@[j]).id == s.take(i as int).filter(
                        has_tag(t),
                    )[j].id && out@[j].name@ == s.take(i as int).filter(has_tag(t))[j].name,
            decreases s.len() - i,
        {
            assert(s.take(i + 1).drop_last() =~= s.take(i as int));
            reveal(Seq::filter);
            assert(s.take(i + 1).last() == s[i as int]);
            let e = &self.entries[i];
            assert(has_tag(t)(s[i as int]) == (e.tag == Some(t)));
            if e.tag == Some(t) {
                let d = BlobDesc { id: e.id, name: e.name.clone() };
                assert(d.name@ =~= e.name@);
                out.push(d);
            }
            i = i + 1;
        }
        assert(s.take(s.len() as int) =~= s);
        out
    }

    /// Forgets every blob tagged `t`.
    pub fn delete_by_tag(&mut self, t: Tag)
        ensures
            final(self)@.next_id == old(self)@.next_id,
            final(self)@.entries == old(self)@.entries.filter(lacks_tag(t)),
    {
        self.retain(Some(t));
    }

    /// Forgets every blob that is not committed.
    pub fn reset(&mut self)
        ensures
            final(self)@.next_id == old(self)@.next_id,
            final(self)@.entries == old(self)@.entries.filter(is_committed()),
    {
        self.retain(None);
    }
}

} // verus!
