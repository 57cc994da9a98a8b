//! The per-token postings container.
//!
//! A posting records, for one token in one document, the set of field/kind
//! bytes in which the token occurs (the bitmap) and, for word-kind
//! occurrences, the stream of positions grouped by field/kind byte. The
//! container serializes to a version byte, the bitmap, and the position
//! groups with delta-compressed positions.

use vstd::prelude::*;

use crate::varint::{
    lemma_varint_decode_range, lemma_varint_len, lemma_varint_round_trip, read_varint, spec_varint,
    spec_varint_decode, write_varint,
};

verus! {

/// Version tag of the serialized posting layout.
pub const TERM_INDEX_VERSION: u8 = 1;

/// Mathematical model of one position group.
#[verifier::ext_equal]
pub ghost struct GroupModel {
    /// The field/kind byte of the group.
    pub ttype: u8,
    /// Positions recorded for that byte, in insertion order.
    pub positions: Seq<u32>,
}

/// Mathematical model of a posting.
#[verifier::ext_equal]
pub ghost struct PostingsModel {
    /// Distinct field/kind bytes, in first-insertion order.
    pub types: Seq<u8>,
    /// Position groups, one per word-kind byte, in first-insertion order.
    pub groups: Seq<GroupModel>,
}

/// One position group: a field/kind byte and its positions.
#[derive(Debug, Clone, PartialEq, Eq)]
pub struct PostingGroup {
    /// The field/kind byte.
    pub ttype: u8,
    /// Positions in insertion order.
    pub positions: Vec<u32>,
}

/// A token's postings: bitmap of field/kind bytes plus position groups.
#[derive(Debug, Clone, PartialEq, Eq)]
pub struct Postings {
    /// Distinct field/kind bytes, in first-insertion order.
    pub types: Vec<u8>,
    /// Position groups, in first-insertion order.
    pub groups: Vec<PostingGroup>,
}

impl View for PostingGroup {
    type V = GroupModel;

    open spec fn view(&self) -> GroupModel {
        GroupModel { ttype: self.ttype, positions: self.positions@ }
    }
}

impl View for Postings {
    type V = PostingsModel;

    open spec fn view(&self) -> PostingsModel {
        PostingsModel {
            types: self.types@,
            groups: Seq::new(self.groups@.len(), |i: int| self.groups@[i]@),
        }
    }
}

/// Index of the first group with byte `t`, or `-1` when there is none.
pub open spec fn spec_find_group(gs: Seq<GroupModel>, t: u8) -> int
    decreases gs.len(),
{
    if gs.len() == 0 {
        -1
    } else if gs[0].ttype == t {
        0
    } else {
        let r = spec_find_group(gs.drop_first(), t);
        if r < 0 {
            -1
        } else {
            r + 1
        }
    }
}

/// What `spec_find_group` returns: either `-1` and no group carries `t`, or
/// the first index whose group carries `t`.
pub proof fn lemma_find_group(gs: Seq<GroupModel>, t: u8)
    ensures
        spec_find_group(gs, t) == -1 ==> forall|k: int| 0 <= k < gs.len() ==> gs[k].ttype != t,
        spec_find_group(gs, t) != -1 ==> {
            let r = spec_find_group(gs, t);
            &&& 0 <= r < gs.len()
            &&& gs[r].ttype == t
            &&& forall|k: int| 0 <= k < r ==> gs[k].ttype != t
        },
    decreases gs.len(),
{
    if gs.len() > 0 && gs[0].ttype != t {
        let tail = gs.drop_first();
        lemma_find_group(tail, t);
        assert(forall|k: int| 0 <= k < tail.len() ==> tail[k] == gs[k + 1]);
        let r = spec_find_group(tail, t);
        if r < 0 {
            assert forall|k: int| 0 <= k < gs.len() implies gs[k].ttype != t by {
                if k > 0 {
                    assert(gs[k] == tail[k - 1]);
                }
            }
        } else {
            assert(gs[r + 1] == tail[r]);
            assert forall|k: int| 0 <= k < r + 1 implies gs[k].ttype != t by {
                if k > 0 {
                    assert(gs[k] == tail[k - 1]);
                }
            }
        }
    }
}

impl GroupModel {
    /// Positions are strictly increasing and the group is never empty.
    pub open spec fn wf(self) -> bool {
        &&& self.positions.len() >= 1
        &&& forall|i: int, j: int|
            0 <= i < j < self.positions.len() ==> self.positions[i] < self.positions[j]
    }
}

impl PostingsModel {
    /// Well-formedness kept by every legal sequence of inserts: distinct
    /// bitmap bytes, distinct well-formed groups, and every group byte
    /// present in the bitmap.
    pub open spec fn wf(self) -> bool {
        &&& forall|i: int, j: int| 0 <= i < j < self.types.len() ==> self.types[i] != self.types[j]
        &&& forall|i: int, j: int|
            0 <= i < j < self.groups.len() ==> self.groups[i].ttype != self.groups[j].ttype
        &&& forall|i: int| 0 <= i < self.groups.len() ==> (#[trigger] self.groups[i]).wf()
        &&& forall|i: int|
            0 <= i < self.groups.len() ==> self.types.contains(#[trigger] self.groups[i].ttype)
    }

    /// The empty posting.
    pub open spec fn empty() -> PostingsModel {
        PostingsModel { types: Seq::empty(), groups: Seq::empty() }
    }

    /// Every recorded position is below `bound`.
    pub open spec fn positions_below(self, bound: int) -> bool {
        forall|i: int, k: int|
            #![trigger self.groups[i].positions[k]]
            0 <= i < self.groups.len() && 0 <= k < self.groups[i].positions.len()
                ==> self.groups[i].positions[k] < bound
    }

    /// The bitmap after recording byte `t`.
    pub open spec fn with_type(self, t: u8) -> PostingsModel {
        if self.types.contains(t) {
            self
        } else {
            PostingsModel { types: self.types.push(t), groups: self.groups }
        }
    }

    /// The posting after a word-kind insert of (`t`, `pos`).
    pub open spec fn insert(self, t: u8, pos: u32) -> PostingsModel {
        let base = self.with_type(t);
        let r = spec_find_group(base.groups, t);
        if r == -1 {
            PostingsModel {
                types: base.types,
                groups: base.groups.push(GroupModel { ttype: t, positions: seq![pos] }),
            }
        } else {
            PostingsModel {
                types: base.types,
                groups: base.groups.update(
                    r,
                    GroupModel { ttype: t, positions: base.groups[r].positions.push(pos) },
                ),
            }
        }
    }
}

impl Postings {
    /// A fresh, empty posting.
    pub fn new() -> (r: Postings)
        ensures
            r@ == PostingsModel::empty(),
            r@.wf(),
    {
        let r = Postings { types: Vec::new(), groups: Vec::new() };
        proof {
            assert(r@ =~= PostingsModel::empty());
        }
        r
    }

    /// Records byte `t` in the bitmap if it is not there yet.
    fn add_type(&mut self, t: u8)
        requires
            old(self)@.wf(),
        ensures
            final(self)@ == old(self)@.with_type(t),
            final(self)@.wf(),
            final(self).groups == old(self).groups,
    {
        let mut i: usize = 0;
        while i < self.types.len()
            invariant
                self == old(self),
                old(self)@.wf(),
                i <= self.types@.len(),
                forall|k: int| 0 <= k < i ==> self.types@[k] != t,
            decreases self.types@.len() - i,
        {
            if self.types[i] == t {
                assert(self@.types.contains(t));
                return ;
            }
            i = i + 1;
        }
        assert(!self@.types.contains(t));
        self.types.push(t);
        proof {
            assert(self@ =~= old(self)@.with_type(t));
            assert forall|q: int|
                0 <= q < self@.groups.len() implies self@.types.contains(
                #[trigger] self@.groups[q].ttype,
            ) by {
                assert(old(self)@.types.contains(old(self)@.groups[q].ttype));
                let w = choose|w: int|
                    0 <= w < old(self)@.types.len() && old(self)@.types[w] == old(
                        self,
                    )@.groups[q].ttype;
                assert(self@.types[w] == self@.groups[q].ttype);
            }
        }
    }

    /// Records a word-kind occurrence: adds `t` to the bitmap and appends
    /// `pos` to the position group of `t`.
    pub fn insert(&mut self, t: u8, pos: u32)
        requires
            old(self)@.wf(),
            old(self)@.positions_below(pos as int),
        ensures
            final(self)@ == old(self)@.insert(t, pos),
            final(self)@.wf(),
            final(self)@.positions_below(pos as int + 1),
    {
        self.add_type(t);
        let ghost base = self@;
        proof {
            lemma_find_group(base.groups, t);
            assert(base.groups =~= old(self)@.groups);
            assert(base.positions_below(pos as int));
            assert(base.types.contains(t)) by {
                if !old(self)@.types.contains(t) {
                    assert(base.types == old(self)@.types.push(t));
                    assert(base.types[base.types.len() - 1] == t);
                }
            }
        }
        let mut i: usize = 0;
        while i < self.groups.len()
            invariant
                i <= self.groups@.len(),
                forall|k: int| 0 <= k < i ==> self@.groups[k].ttype != t,
                self@ == base,
                self@.wf(),
                base == old(self)@.with_type(t),
                base.groups == old(self)@.groups,
                base.positions_below(pos as int),
                base.types.contains(t),
            decreases self.groups@.len() - i,
        {
            if self.groups[i].ttype == t {
                assert(spec_find_group(base.groups, t) == i) by {
                    lemma_find_group(base.groups, t);
                }
                let mut g = self.groups.remove(i);
                g.positions.push(pos);
                self.groups.insert(i, g);
                proof {
                    assert(self@.groups =~= base.groups.update(
                        i as int,
                        GroupModel { ttype: t, positions: base.groups[i as int].positions.push(pos) },
                    ));
                    assert(self@ =~= old(self)@.insert(t, pos));
                }
                return ;
            }
            i = i + 1;
        }
        assert(spec_find_group(base.groups, t) == -1) by {
            lemma_find_group(base.groups, t);
        }
        let mut positions: Vec<u32> = Vec::new();
        positions.push(pos);
        self.groups.push(PostingGroup { ttype: t, positions });
        proof {
            assert(self@.groups =~= base.groups.push(
                GroupModel { ttype: t, positions: seq![pos] },
            ));
            assert(self@ =~= old(self)@.insert(t, pos));
        }
    }

    /// Records a keyword or stemmed-form occurrence: bitmap only, no
    /// position.
    pub fn insert_keyword(&mut self, t: u8)
        requires
            old(self)@.wf(),
        ensures
            final(self)@ == old(self)@.with_type(t),
            final(self)@.wf(),
    {
        self.add_type(t);
    }
}

/// Serialized form of one position list: its length, then each position as a
/// delta from the one before (the first from zero).
pub open spec fn spec_ser_pos_items(ps: Seq<u32>, k: int, prev: u32) -> Seq<u8>
    decreases ps.len() - k,
{
    if k < 0 || k >= ps.len() {
        Seq::empty()
    } else {
        spec_varint((ps[k] - prev) as nat) + spec_ser_pos_items(ps, k + 1, ps[k])
    }
}

/// Serialized form of one group: its byte, the count, and the deltas.
pub open spec fn spec_ser_group(g: GroupModel) -> Seq<u8> {
    seq![g.ttype] + spec_varint(g.positions.len() as nat) + spec_ser_pos_items(g.positions, 0, 0)
}

/// Serialized form of the groups from index `k` on.
pub open spec fn spec_ser_groups(gs: Seq<GroupModel>, k: int) -> Seq<u8>
    decreases gs.len() - k,
{
    if k < 0 || k >= gs.len() {
        Seq::empty()
    } else {
        spec_ser_group(gs[k]) + spec_ser_groups(gs, k + 1)
    }
}

/// The full serialized posting: version, bitmap, groups.
pub open spec fn spec_serialize(m: PostingsModel) -> Seq<u8> {
    seq![TERM_INDEX_VERSION] + spec_varint(m.types.len() as nat) + m.types + spec_varint(
        m.groups.len() as nat,
    ) + spec_ser_groups(m.groups, 0)
}

/// Decoding of `count` positions starting at `i`, each a delta from `prev`.
pub open spec fn spec_de_pos_items(bytes: Seq<u8>, i: int, count: nat, prev: u32) -> Option<
    (Seq<u32>, int),
>
    decreases count,
{
    if count == 0 {
        Some((Seq::empty(), i))
    } else {
        match spec_varint_decode(bytes, i) {
            Some((d, j)) => if prev + d <= u32::MAX {
                let v = (prev + d) as u32;
                match spec_de_pos_items(bytes, j, (count - 1) as nat, v) {
                    Some((rest, end)) => Some((seq![v] + rest, end)),
                    None => None,
                }
            } else {
                None
            },
            None => None,
        }
    }
}

/// Decoding of one group at `i`.
pub open spec fn spec_de_group(bytes: Seq<u8>, i: int) -> Option<(GroupModel, int)> {
    if i < 0 || i >= bytes.len() {
        None
    } else {
        let t = bytes[i];
        match spec_varint_decode(bytes, i + 1) {
            Some((n, j)) => match spec_de_pos_items(bytes, j, n as nat, 0) {
                Some((ps, end)) => Some((GroupModel { ttype: t, positions: ps }, end)),
                None => None,
            },
            None => None,
        }
    }
}

/// Decoding of `count` groups at `i`.
pub open spec fn spec_de_groups(bytes: Seq<u8>, i: int, count: nat) -> Option<
    (Seq<GroupModel>, int),
>
    decreases count,
{
    if count == 0 {
        Some((Seq::empty(), i))
    } else {
        match spec_de_group(bytes, i) {
            Some((g, j)) => match spec_de_groups(bytes, j, (count - 1) as nat) {
                Some((rest, end)) => Some((seq![g] + rest, end)),
                None => None,
            },
            None => None,
        }
    }
}

/// Decoding of the bitmap: count, then that many bytes.
pub open spec fn spec_de_types(bytes: Seq<u8>, i: int) -> Option<(Seq<u8>, int)> {
    match spec_varint_decode(bytes, i) {
        Some((n, j)) => if j + n <= bytes.len() {
            Some((bytes.subrange(j, j + n), j + n))
        } else {
            None
        },
        None => None,
    }
}

/// The bytes carry the supported version tag.
pub open spec fn spec_version_ok(bytes: Seq<u8>) -> bool {
    bytes.len() >= 1 && bytes[0] == TERM_INDEX_VERSION
}

/// Full decoding: version, bitmap, groups, with nothing left over.
pub open spec fn spec_deserialize(bytes: Seq<u8>) -> Option<PostingsModel> {
    if !spec_version_ok(bytes) {
        None
    } else {
        match spec_de_types(bytes, 1) {
            Some((types, i)) => match spec_varint_decode(bytes, i) {
                Some((n, j)) => match spec_de_groups(bytes, j, n as nat) {
                    Some((gs, end)) => if end == bytes.len() {
                        Some(PostingsModel { types, groups: gs })
                    } else {
                        None
                    },
                    None => None,
                },
                None => None,
            },
            None => None,
        }
    }
}

/// Why a posting failed to decode.
#[derive(Debug, Clone, Copy, PartialEq, Eq, Structural)]
pub enum PostingsError {
    /// The version byte is missing or names a layout this crate does not
    /// read.
    UnsupportedVersion,
    /// The bytes after the version byte do not form a posting.
    Corrupt,
}

impl Postings {
    /// Serializes the posting: version byte, bitmap, position groups.
    pub fn serialize(&self) -> (r: Vec<u8>)
        requires
            self@.wf(),
        ensures
            r@ == spec_serialize(self@),
    {
        let ghost m = self@;
        let mut out: Vec<u8> = Vec::new();
        out.push(TERM_INDEX_VERSION);
        write_varint(&mut out, self.types.len() as u64);
        let mut i: usize = 0;
        while i < self.types.len()
            invariant
                i <= self.types@.len(),
                m == self@,
                out@ == seq![TERM_INDEX_VERSION] + spec_varint(m.types.len() as nat)
                    + m.types.subrange(0, i as int),
            decreases self.types@.len() - i,
        {
            out.push(self.types[i]);
            proof {
                assert(m.types.subrange(0, i + 1) =~= m.types.subrange(0, i as int) + seq![
                    m.types[i as int],
                ]);
            }
            i = i + 1;
        }
        proof {
            assert(m.types.subrange(0, m.types.len() as int) =~= m.types);
        }
        write_varint(&mut out, self.groups.len() as u64);
        let ghost head = out@;
        let mut k: usize = 0;
        while k < self.groups.len()
            invariant
                k <= self.groups@.len(),
                m == self@,
                m.wf(),
                out@ + spec_ser_groups(m.groups, k as int) == head + spec_ser_groups(m.groups, 0),
            decreases self.groups@.len() - k,
        {
            let g = &self.groups[k];
            let ghost gm = m.groups[k as int];
            let ghost out_before = out@;
            out.push(g.ttype);
            write_varint(&mut out, g.positions.len() as u64);
            let mut prev: u32 = 0;
            let mut j: usize = 0;
            let ghost out_mid = out@;
            while j < g.positions.len()
                invariant
                    j <= gm.positions.len(),
                    gm == g@,
                    gm.wf(),
                    j == 0 ==> prev == 0,
                    j > 0 ==> prev == gm.positions[j - 1],
                    out@ + spec_ser_pos_items(gm.positions, j as int, prev) == out_mid
                        + spec_ser_pos_items(gm.positions, 0, 0),
                decreases gm.positions.len() - j,
            {
                let p = g.positions[j];
                assert(prev <= p);
                write_varint(&mut out, (p - prev) as u64);
                proof {
                    assert(spec_ser_pos_items(gm.positions, j as int, prev) == spec_varint(
                        (p - prev) as nat,
                    ) + spec_ser_pos_items(gm.positions, j + 1, p));
                    assert(out@ + spec_ser_pos_items(gm.positions, j + 1, p) =~= out_mid
                        + spec_ser_pos_items(gm.positions, 0, 0));
                }
                prev = p;
                j = j + 1;
            }
            proof {
                assert(spec_ser_pos_items(gm.positions, gm.positions.len() as int, prev)
                    =~= Seq::<u8>::empty());
                assert(out@ =~= out_mid + spec_ser_pos_items(gm.positions, 0, 0));
                assert(out_mid =~= out_before + seq![gm.ttype] + spec_varint(
                    gm.positions.len() as nat,
                ));
                assert(out@ =~= out_before + spec_ser_group(gm));
                assert(spec_ser_groups(m.groups, k as int) == spec_ser_group(gm) + spec_ser_groups(
                    m.groups,
                    k + 1,
                ));
                assert(out@ + spec_ser_groups(m.groups, k + 1) =~= out_before + spec_ser_groups(
                    m.groups,
                    k as int,
                ));
            }
            k = k + 1;
        }
        proof {
            assert(spec_ser_groups(m.groups, m.groups.len() as int) =~= Seq::<u8>::empty());
            assert(out@ =~= head + spec_ser_groups(m.groups, 0));
            assert(out@ =~= spec_serialize(m));
        }
        out
    }

    /// Decodes a serialized posting, rejecting unknown versions and malformed
    /// bytes.
    pub fn deserialize(bytes: &Vec<u8>) -> (r: Result<Postings, PostingsError>)
        ensures
            match r {
                Ok(p) => spec_deserialize(bytes@) == Some(p@),
                Err(e) => spec_deserialize(bytes@) is None && (e == PostingsError::UnsupportedVersion
                    <==> !spec_version_ok(bytes@)),
            },
    {
        if bytes.len() == 0 || bytes[0] != TERM_INDEX_VERSION {
            return Err(PostingsError::UnsupportedVersion);
        }
        let (ntypes, i) = match read_varint(bytes, 1) {
            Some(p) => p,
            None => {
                return Err(PostingsError::Corrupt);
            },
        };
        proof {
            lemma_varint_decode_range(bytes@, 1);
        }
        if ntypes > (bytes.len() - i) as u64 {
            return Err(PostingsError::Corrupt);
        }
        let ntypes: usize = ntypes as usize;
        let mut types: Vec<u8> = Vec::new();
        let mut k: usize = 0;
        while k < ntypes
            invariant
                k <= ntypes,
                i + ntypes <= bytes@.len(),
                i + ntypes <= usize::MAX,
                types@ =~= bytes@.subrange(i as int, i + k),
            decreases ntypes - k,
        {
            types.push(bytes[i + k]);
            proof {
                assert(bytes@.subrange(i as int, i + k + 1) =~= bytes@.subrange(i as int, i + k)
                    + seq![bytes@[i + k]]);
            }
            k = k + 1;
        }
        let i = i + ntypes;
        proof {
            assert(spec_de_types(bytes@, 1) == Some((types@, i as int)));
        }
        let (ngroups, i) = match read_varint(bytes, i) {
            Some(p) => p,
            None => {
                return Err(PostingsError::Corrupt);
            },
        };
        let (groups, end) = match de_groups(bytes, i, ngroups) {
            Some(p) => p,
            None => {
                return Err(PostingsError::Corrupt);
            },
        };
        if end != bytes.len() {
            return Err(PostingsError::Corrupt);
        }
        let r = Postings { types, groups };
        proof {
            assert(spec_deserialize(bytes@) == Some(r@));
        }
        Ok(r)
    }
}

/// Decodes `count` positions at `i`, each a delta from the previous value.
fn de_pos_items(bytes: &Vec<u8>, i: usize, count: u64, prev: u32) -> (r: Option<(Vec<u32>, usize)>)
    ensures
        match r {
            Some(p) => spec_de_pos_items(bytes@, i as int, count as nat, prev) == Some(
                (p.0@, p.1 as int),
            ),
            None => spec_de_pos_items(bytes@, i as int, count as nat, prev) is None,
        },
    decreases count,
{
    if count == 0 {
        let out: Vec<u32> = Vec::new();
        proof {
            assert(out@ =~= Seq::<u32>::empty());
        }
        Some((out, i))
    } else {
        match read_varint(bytes, i) {
            None => None,
            Some((d, j)) => {
                if d > (u32::MAX - prev) as u64 {
                    None
                } else {
                    let v: u32 = prev + (d as u32);
                    match de_pos_items(bytes, j, count - 1, v) {
                        None => None,
                        Some((mut rest, end)) => {
                            let mut out: Vec<u32> = Vec::new();
                            out.push(v);
                            out.append(&mut rest);
                            proof {
                                assert(spec_de_pos_items(bytes@, i as int, count as nat, prev)
                                    == Some((out@, end as int)));
                            }
                            Some((out, end))
                        },
                    }
                }
            },
        }
    }
}

/// Decodes one group at `i`.
fn de_group(bytes: &Vec<u8>, i: usize) -> (r: Option<(PostingGroup, usize)>)
    ensures
        match r {
            Some(p) => spec_de_group(bytes@, i as int) == Some((p.0@, p.1 as int)),
            None => spec_de_group(bytes@, i as int) is None,
        },
{
    if i >= bytes.len() {
        return None;
    }
    let t = bytes[i];
    match read_varint(bytes, i + 1) {
        None => None,
        Some((n, j)) => match de_pos_items(bytes, j, n, 0) {
            None => None,
            Some((positions, end)) => Some((PostingGroup { ttype: t, positions }, end)),
        },
    }
}

/// Decodes `count` groups at `i`.
fn de_groups(bytes: &Vec<u8>, i: usize, count: u64) -> (r: Option<(Vec<PostingGroup>, usize)>)
    ensures
        match r {
            Some(p) => spec_de_groups(bytes@, i as int, count as nat) == Some(
                (Seq::new(p.0@.len(), |q: int| p.0@[q]@), p.1 as int),
            ),
            None => spec_de_groups(bytes@, i as int, count as nat) is None,
        },
    decreases count,
{
    if count == 0 {
        let out: Vec<PostingGroup> = Vec::new();
        proof {
            assert(Seq::new(out@.len(), |q: int| out@[q]@) =~= Seq::<GroupModel>::empty());
        }
        Some((out, i))
    } else {
        match de_group(bytes, i) {
            None => None,
            Some((g, j)) => match de_groups(bytes, j, count - 1) {
                None => None,
                Some((mut rest, end)) => {
                    let ghost rest_view = Seq::new(rest@.len(), |q: int| rest@[q]@);
                    let mut out: Vec<PostingGroup> = Vec::new();
                    out.push(g);
                    out.append(&mut rest);
                    proof {
                        assert(Seq::new(out@.len(), |q: int| out@[q]@) =~= seq![g@] + rest_view);
                    }
                    Some((out, end))
                },
            },
        }
    }
}


/// A split of one subrange equality into its two parts.
pub proof fn lemma_subrange_split(bytes: Seq<u8>, i: int, a: Seq<u8>, b: Seq<u8>)
    requires
        0 <= i,
        i + a.len() + b.len() <= bytes.len(),
        bytes.subrange(i, i + a.len() + b.len()) == a + b,
    ensures
        bytes.subrange(i, i + a.len() as int) == a,
        bytes.subrange(i + a.len(), i + a.len() + b.len()) == b,
{
    let whole = bytes.subrange(i, i + a.len() + b.len());
    assert forall|k: int| 0 <= k < a.len() implies bytes.subrange(i, i + a.len() as int)[k]
        == a[k] by {
        assert(whole[k] == (a + b)[k]);
    }
    assert(bytes.subrange(i, i + a.len() as int) =~= a);
    assert forall|k: int| 0 <= k < b.len() implies bytes.subrange(
        i + a.len(),
        i + a.len() + b.len(),
    )[k] == b[k] by {
        assert(whole[a.len() + k] == (a + b)[a.len() + k]);
    }
    assert(bytes.subrange(i + a.len(), i + a.len() + b.len()) =~= b);
}

/// The serialized lengths fit the decoder's 64-bit counters; true of every
/// posting an executable `Postings` can hold.
pub open spec fn len_fits(m: PostingsModel) -> bool {
    &&& m.types.len() <= u64::MAX
    &&& m.groups.len() <= u64::MAX
    &&& forall|i: int| 0 <= i < m.groups.len() ==> (#[trigger] m.groups[i]).positions.len() <= u64::MAX
}

/// Decoding a serialized position tail returns exactly that tail.
proof fn lemma_pos_items_round_trip(bytes: Seq<u8>, i: int, ps: Seq<u32>, k: int, prev: u32)
    requires
        0 <= i,
        0 <= k <= ps.len(),
        ps.len() <= u64::MAX,
        forall|a: int, b: int| 0 <= a < b < ps.len() ==> ps[a] < ps[b],
        k < ps.len() ==> prev <= ps[k],
        i + spec_ser_pos_items(ps, k, prev).len() <= bytes.len(),
        bytes.subrange(i, i + spec_ser_pos_items(ps, k, prev).len() as int) == spec_ser_pos_items(
            ps,
            k,
            prev,
        ),
    ensures
        spec_de_pos_items(bytes, i, (ps.len() - k) as nat, prev) == Some(
            (ps.subrange(k, ps.len() as int), i + spec_ser_pos_items(ps, k, prev).len()),
        ),
    decreases ps.len() - k,
{
    if k == ps.len() {
        assert(ps.subrange(k, ps.len() as int) =~= Seq::<u32>::empty());
    } else {
        let d = (ps[k] - prev) as nat;
        let head = spec_varint(d);
        let rest = spec_ser_pos_items(ps, k + 1, ps[k]);
        assert(spec_ser_pos_items(ps, k, prev) == head + rest);
        lemma_subrange_split(bytes, i, head, rest);
        lemma_varint_round_trip(bytes, i, (ps[k] - prev) as u64);
        let j = i + head.len();
        assert(prev + (ps[k] - prev) as u64 == ps[k]);
        lemma_pos_items_round_trip(bytes, j, ps, k + 1, ps[k]);
        assert(seq![ps[k]] + ps.subrange(k + 1, ps.len() as int) =~= ps.subrange(
            k,
            ps.len() as int,
        ));
    }
}

/// Decoding a serialized group returns exactly that group.
proof fn lemma_group_round_trip(bytes: Seq<u8>, i: int, g: GroupModel)
    requires
        0 <= i,
        g.wf(),
        g.positions.len() <= u64::MAX,
        i + spec_ser_group(g).len() <= bytes.len(),
        bytes.subrange(i, i + spec_ser_group(g).len() as int) == spec_ser_group(g),
    ensures
        spec_de_group(bytes, i) == Some((g, i + spec_ser_group(g).len())),
{
    let head = seq![g.ttype];
    let cnt = spec_varint(g.positions.len() as nat);
    let items = spec_ser_pos_items(g.positions, 0, 0);
    assert(spec_ser_group(g) == head + (cnt + items)) by {
        assert((head + cnt) + items =~= head + (cnt + items));
    }
    lemma_subrange_split(bytes, i, head, cnt + items);
    assert(bytes[i] == g.ttype) by {
        assert(bytes.subrange(i, i + 1)[0] == head[0]);
    }
    lemma_subrange_split(bytes, i + 1, cnt, items);
    lemma_varint_round_trip(bytes, i + 1, g.positions.len() as u64);
    let j = i + 1 + cnt.len();
    lemma_pos_items_round_trip(bytes, j, g.positions, 0, 0);
    assert(g.positions.subrange(0, g.positions.len() as int) =~= g.positions);
    assert(spec_de_group(bytes, i) == Some(
        (GroupModel { ttype: g.ttype, positions: g.positions }, i + spec_ser_group(g).len()),
    ));
    assert(GroupModel { ttype: g.ttype, positions: g.positions } =~= g);
}

/// Decoding a serialized group tail returns exactly those groups.
proof fn lemma_groups_round_trip(bytes: Seq<u8>, i: int, gs: Seq<GroupModel>, k: int)
    requires
        0 <= i,
        0 <= k <= gs.len(),
        gs.len() <= u64::MAX,
        forall|q: int| 0 <= q < gs.len() ==> (#[trigger] gs[q]).wf(),
        forall|q: int| 0 <= q < gs.len() ==> (#[trigger] gs[q]).positions.len() <= u64::MAX,
        i + spec_ser_groups(gs, k).len() <= bytes.len(),
        bytes.subrange(i, i + spec_ser_groups(gs, k).len() as int) == spec_ser_groups(gs, k),
    ensures
        spec_de_groups(bytes, i, (gs.len() - k) as nat) == Some(
            (gs.subrange(k, gs.len() as int), i + spec_ser_groups(gs, k).len()),
        ),
    decreases gs.len() - k,
{
    if k == gs.len() {
        assert(gs.subrange(k, gs.len() as int) =~= Seq::<GroupModel>::empty());
    } else {
        let head = spec_ser_group(gs[k]);
        let rest = spec_ser_groups(gs, k + 1);
        assert(spec_ser_groups(gs, k) == head + rest);
        lemma_subrange_split(bytes, i, head, rest);
        lemma_group_round_trip(bytes, i, gs[k]);
        lemma_groups_round_trip(bytes, i + head.len(), gs, k + 1);
        assert(seq![gs[k]] + gs.subrange(k + 1, gs.len() as int) =~= gs.subrange(
            k,
            gs.len() as int,
        ));
    }
}

/// Round trip: decoding what `serialize` produced gives back the same
/// posting, for every well-formed posting, whatever legal sequence of
/// inserts built it.
pub proof fn lemma_postings_round_trip(m: PostingsModel)
    requires
        m.wf(),
        len_fits(m),
    ensures
        spec_deserialize(spec_serialize(m)) == Some(m),
{
    let bytes = spec_serialize(m);
    let ver = seq![TERM_INDEX_VERSION];
    let a = spec_varint(m.types.len() as nat);
    let b = m.types;
    let c = spec_varint(m.groups.len() as nat);
    let d = spec_ser_groups(m.groups, 0);
    assert(bytes == ver + (a + (b + (c + d)))) by {
        assert(ver + a + b + c + d =~= ver + (a + (b + (c + d))));
    }
    assert(bytes.subrange(0, bytes.len() as int) =~= bytes);
    lemma_subrange_split(bytes, 0, ver, a + (b + (c + d)));
    assert(bytes[0] == TERM_INDEX_VERSION) by {
        assert(bytes.subrange(0, 1)[0] == ver[0]);
    }
    lemma_subrange_split(bytes, 1, a, b + (c + d));
    lemma_varint_round_trip(bytes, 1, m.types.len() as u64);
    let i1: int = 1 + a.len() as int;
    lemma_subrange_split(bytes, i1, b, c + d);
    assert(bytes.subrange(i1, i1 + b.len() as int) == m.types);
    assert(spec_de_types(bytes, 1) == Some((m.types, i1 + b.len())));
    let i2: int = i1 + b.len() as int;
    lemma_subrange_split(bytes, i2, c, d);
    lemma_varint_round_trip(bytes, i2, m.groups.len() as u64);
    let i3: int = i2 + c.len() as int;
    lemma_groups_round_trip(bytes, i3, m.groups, 0);
    assert(m.groups.subrange(0, m.groups.len() as int) =~= m.groups);
    assert(i3 + d.len() == bytes.len());
    assert(spec_deserialize(bytes) == Some(PostingsModel { types: m.types, groups: m.groups }));
    assert(PostingsModel { types: m.types, groups: m.groups } =~= m);
}

} // verus!
