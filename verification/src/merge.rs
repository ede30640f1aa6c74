//! The I/O merge planner: groups contiguous chunk I/O descriptors into
//! batched backend reads.
//!
//! The planner walks a sorted descriptor list and emits one
//! [`BlobIoRange`] per group.  A new group starts exactly when the next
//! descriptor does not follow the previous one in the blob, or when the
//! current group has accumulated at least `max_size` compressed bytes.

use vstd::prelude::*;

use crate::device::{continuous_spec, BlobIoDesc, BlobIoRange, ChunkInfo};

verus! {

/// Compressed size of the chunk a descriptor covers.
pub open spec fn desc_csize(d: BlobIoDesc) -> int {
    d.chunkinfo.compressed_size as int
}

/// Total compressed size of a group of descriptors.
pub open spec fn group_size(g: Seq<BlobIoDesc>) -> int
    decreases g.len(),
{
    if g.len() == 0 {
        0
    } else {
        group_size(g.drop_last()) + desc_csize(g.last())
    }
}

/// The groups the planner still forms, given the descriptors not yet
/// walked (`rest`), the groups already flushed (`groups`) and the group
/// being accumulated (`cur`, never empty).  The current group is flushed
/// exactly when the next descriptor is not continuous with the group's
/// last one, or the group has reached `max` compressed bytes.
pub open spec fn plan_rec(
    rest: Seq<BlobIoDesc>,
    max: int,
    groups: Seq<Seq<BlobIoDesc>>,
    cur: Seq<BlobIoDesc>,
) -> Seq<Seq<BlobIoDesc>>
    decreases rest.len(),
{
    if rest.len() == 0 {
        groups.push(cur)
    } else if !continuous_spec(cur.last(), rest[0], 0) || group_size(cur) >= max {
        plan_rec(rest.skip(1), max, groups.push(cur), seq![rest[0]])
    } else {
        plan_rec(rest.skip(1), max, groups, cur.push(rest[0]))
    }
}

/// How the planner groups `descs` under the size threshold `max`.
pub open spec fn merge_plan(descs: Seq<BlobIoDesc>, max: int) -> Seq<Seq<BlobIoDesc>> {
    if descs.len() == 0 {
        Seq::empty()
    } else {
        plan_rec(descs.skip(1), max, Seq::empty(), seq![descs[0]])
    }
}

/// An emitted range stands for a group of descriptors: it lists exactly the
/// group's chunks in order, starts at the first chunk's compressed offset
/// and spans the group's total compressed size.
pub open spec fn range_matches(r: BlobIoRange, g: Seq<BlobIoDesc>) -> bool {
    &&& r.chunks@.len() == g.len()
    &&& (forall|k: int| 0 <= k < g.len() ==> r.chunks@[k] == (#[trigger] g[k]).chunkinfo)
    &&& (g.len() > 0 ==> r.blob_index == g[0].blob_index)
    &&& (g.len() > 0 ==> r.blob_offset == g[0].chunkinfo.compressed_offset)
    &&& r.blob_size == group_size(g)
}

/// State of one planner walk: the descriptors accumulated for the group
/// being formed, their total compressed size, and the ranges emitted so
/// far.
pub struct BlobIoMergeState {
    /// Total compressed size of the pending descriptors.
    pub size: u32,
    /// The descriptors of the group being formed.
    pub bios: Vec<BlobIoDesc>,
    /// The ranges emitted so far, in emit order.
    pub issued: Vec<BlobIoRange>,
}

impl BlobIoMergeState {
    /// Start a walk with `bio` opening the first group.
    pub fn new(bio: &BlobIoDesc) -> (r: BlobIoMergeState)
        ensures
            r.bios@ == seq![*bio],
            r.size == bio.chunkinfo.compressed_size,
            r.issued@ == Seq::<BlobIoRange>::empty(),
    {
        let size = bio.chunkinfo.compressed_size;
        let mut bios: Vec<BlobIoDesc> = Vec::new();
        bios.push(*bio);
        proof {
            assert(bios@ =~= seq![*bio]);
        }
        BlobIoMergeState { size, bios, issued: Vec::new() }
    }

    /// Total compressed size of the pending descriptors.
    #[inline]
    pub fn size(&self) -> (r: usize)
        ensures
            r == self.size as usize,
    {
        self.size as usize
    }

    /// Append a descriptor to the group being formed.
    #[inline]
    pub fn push(&mut self, bio: &BlobIoDesc)
        requires
            old(self).size + bio.chunkinfo.compressed_size <= u32::MAX,
        ensures
            final(self).bios@ == old(self).bios@.push(*bio),
            final(self).size == old(self).size + bio.chunkinfo.compressed_size,
            final(self).issued@ == old(self).issued@,
    {
        let size = bio.chunkinfo.compressed_size;
        self.bios.push(*bio);
        self.size += size;
    }

    /// Emit the pending group, if any, as one merged range and reset the
    /// group.
    #[inline]
    #[verifier::rlimit(50)]
    pub fn issue(&mut self)
        requires
            forall|k: int|
                0 <= k < old(self).bios@.len() ==> (#[trigger] old(self).bios@[k]).chunkinfo.wf(),
            forall|k: int|
                1 <= k < old(self).bios@.len() ==> continuous_spec(
                    old(self).bios@[k - 1],
                    #[trigger] old(self).bios@[k],
                    0,
                ),
        ensures
            old(self).bios@.len() == 0 ==> *final(self) == *old(self),
            old(self).bios@.len() > 0 ==> {
                &&& final(self).issued@.len() == old(self).issued@.len() + 1
                &&& final(self).issued@.drop_last() == old(self).issued@
                &&& range_matches(final(self).issued@.last(), old(self).bios@)
                &&& final(self).issued@.last().wf()
                &&& final(self).bios@.len() == 0
                &&& final(self).size == 0
            },
    {
        if self.bios.len() != 0 {
            let ghost g = self.bios@;
            let n = self.bios.len();
            let mut mr = BlobIoRange::new(&self.bios[0], n);
            proof {
                assert(group_size(Seq::<BlobIoDesc>::empty()) == 0);
                assert(g.subrange(0, 1).drop_last() =~= Seq::<BlobIoDesc>::empty());
                assert(g.subrange(0, 1).last() == g[0]);
                assert(group_size(g.subrange(0, 1)) == group_size(g.subrange(0, 1).drop_last())
                    + desc_csize(g.subrange(0, 1).last()));
                assert(mr.blob_size == group_size(g.subrange(0, 1)));
            }
            let mut i: usize = 1;
            while i < n
                invariant
                    1 <= i <= n,
                    n == self.bios@.len(),
                    g == self.bios@,
                    forall|k: int| 0 <= k < n ==> (#[trigger] g[k]).chunkinfo.wf(),
                    forall|k: int| 1 <= k < n ==> continuous_spec(g[k - 1], #[trigger] g[k], 0),
                    mr.wf(),
                    mr.blob_index == g[i - 1].blob_index,
                    mr.blob_index == g[0].blob_index,
                    mr.blob_offset == g[0].chunkinfo.compressed_offset,
                    mr.chunks@.len() == i,
                    forall|k: int| 0 <= k < i ==> mr.chunks@[k] == (#[trigger] g[k]).chunkinfo,
                    mr.blob_size == group_size(g.subrange(0, i as int)),
                decreases n - i,
            {
                proof {
                    assert(continuous_spec(g[i - 1], g[i as int], 0));
                    assert(mr.chunks@.last() == g[i - 1].chunkinfo);
                    assert(mr.blob_offset + mr.blob_size == g[i - 1].chunkinfo.compressed_offset
                        + g[i - 1].chunkinfo.compressed_size);
                }
                mr.merge(&self.bios[i]);
                i += 1;
                proof {
                    assert(g.subrange(0, i as int).drop_last() =~= g.subrange(0, i - 1));
                    assert(g.subrange(0, i as int).last() == g[i - 1]);
                }
            }
            proof {
                assert(g.subrange(0, n as int) =~= g);
            }
            self.issued.push(mr);
            self.bios.clear();
            self.size = 0;
            proof {
                assert(self.issued@.drop_last() =~= old(self).issued@);
            }
        }
    }

    /// Walk `bios` in order and emit the merged ranges: a new range starts
    /// exactly when a descriptor is not continuous with its predecessor or
    /// the pending range has reached `max_size` compressed bytes.
    pub fn merge_and_issue(bios: &Vec<BlobIoDesc>, max_size: usize) -> (ranges: Vec<BlobIoRange>)
        requires
            forall|k: int| 0 <= k < bios@.len() ==> (#[trigger] bios@[k]).chunkinfo.wf(),
            group_size(bios@) <= u32::MAX,
        ensures
            ranges@.len() == merge_plan(bios@, max_size as int).len(),
            forall|i: int|
                0 <= i < ranges@.len() ==> range_matches(
                    #[trigger] ranges@[i],
                    merge_plan(bios@, max_size as int)[i],
                ),
            forall|i: int| 0 <= i < ranges@.len() ==> (#[trigger] ranges@[i]).wf(),
            bios@.len() == 0 ==> ranges@.len() == 0,
    {
        let ghost max = max_size as int;
        if bios.len() == 0 {
            return Vec::new();
        }
        let mut state = BlobIoMergeState::new(&bios[0]);
        let ghost mut groups: Seq<Seq<BlobIoDesc>> = Seq::empty();
        proof {
            assert(group_size(Seq::<BlobIoDesc>::empty()) == 0);
            assert(seq![bios@[0]].drop_last() =~= Seq::<BlobIoDesc>::empty());
            assert(seq![bios@[0]].last() == bios@[0]);
            assert(group_size(seq![bios@[0]]) == group_size(seq![bios@[0]].drop_last())
                + desc_csize(seq![bios@[0]].last()));
            assert(state.bios@ =~= bios@.subrange(0, 1));
        }
        let mut index: usize = 1;
        while index < bios.len()
            invariant
                max == max_size as int,
                1 <= index <= bios@.len(),
                forall|k: int| 0 <= k < bios@.len() ==> (#[trigger] bios@[k]).chunkinfo.wf(),
                group_size(bios@) <= u32::MAX,
                1 <= state.bios@.len() <= index,
                state.bios@ == bios@.subrange(index - state.bios@.len(), index as int),
                state.size == group_size(state.bios@),
                forall|k: int|
                    1 <= k < state.bios@.len() ==> continuous_spec(
                        state.bios@[k - 1],
                        #[trigger] state.bios@[k],
                        0,
                    ),
                state.issued@.len() == groups.len(),
                forall|k: int|
                    0 <= k < groups.len() ==> range_matches(#[trigger] state.issued@[k], groups[k]),
                forall|k: int| 0 <= k < groups.len() ==> (#[trigger] state.issued@[k]).wf(),
                plan_rec(bios@.skip(index as int), max, groups, state.bios@) == merge_plan(
                    bios@,
                    max,
                ),
            decreases bios@.len() - index,
        {
            let ghost i0 = index as int;
            let ghost cur = state.bios@;
            let ghost groups0 = groups;
            let ghost rest = bios@.skip(i0);
            proof {
                assert(cur.last() == bios@[i0 - 1]);
                assert(rest[0] == bios@[i0]);
                assert(rest.skip(1) =~= bios@.skip(i0 + 1));
            }
            let cont = bios[index - 1].is_continuous(&bios[index], 0);
            let sz = state.size();
            let flush = !cont || sz >= max_size;
            proof {
                assert(cont == continuous_spec(cur.last(), rest[0], 0));
                assert(sz as int == group_size(cur));
                assert((sz >= max_size) == (group_size(cur) >= max));
                assert(flush == (!continuous_spec(cur.last(), rest[0], 0) || group_size(cur)
                    >= max));
            }
            if flush {
                state.issue();
                proof {
                    groups = groups.push(cur);
                    assert forall|k: int| 0 <= k < groups.len() implies range_matches(
                        #[trigger] state.issued@[k],
                        groups[k],
                    ) && state.issued@[k].wf() by {
                        if k < groups.len() - 1 {
                            assert(state.issued@[k] == state.issued@.drop_last()[k]);
                        } else {
                            assert(state.issued@[k] == state.issued@.last());
                        }
                    }
                    assert(group_size(Seq::<BlobIoDesc>::empty()) == 0);
                    assert(state.bios@ =~= bios@.subrange(i0, i0));
                }
            }
            let ghost j = i0 - state.bios@.len();
            proof {
                assert(state.bios@ =~= bios@.subrange(j, i0));
                lemma_group_size_subrange_le(bios@, j, i0 + 1);
                assert(bios@.subrange(j, i0 + 1).drop_last() =~= bios@.subrange(j, i0));
                assert(bios@.subrange(j, i0 + 1).last() == bios@[i0]);
                assert(group_size(bios@.subrange(j, i0 + 1)) == group_size(state.bios@)
                    + desc_csize(bios@[i0]));
            }
            state.push(&bios[index]);
            index += 1;
            proof {
                assert(state.bios@ =~= bios@.subrange(j, i0 + 1));
                assert(state.bios@.drop_last() =~= bios@.subrange(j, i0));
                assert(state.bios@.last() == bios@[i0]);
                assert(state.size == group_size(state.bios@));
                assert forall|k: int| 1 <= k < state.bios@.len() implies continuous_spec(
                    state.bios@[k - 1],
                    #[trigger] state.bios@[k],
                    0,
                ) by {
                    if k < state.bios@.len() - 1 {
                        assert(state.bios@[k - 1] == cur[k - 1] && state.bios@[k] == cur[k]);
                    } else {
                        assert(state.bios@[k] == bios@[i0]);
                    }
                }
                if flush {
                    assert(state.bios@ =~= seq![rest[0]]);
                    assert(groups == groups0.push(cur));
                    assert(plan_rec(rest, max, groups0, cur) == plan_rec(
                        rest.skip(1),
                        max,
                        groups0.push(cur),
                        seq![rest[0]],
                    ));
                } else {
                    assert(state.bios@ =~= cur.push(rest[0]));
                    assert(groups == groups0);
                    assert(plan_rec(rest, max, groups0, cur) == plan_rec(
                        rest.skip(1),
                        max,
                        groups0,
                        cur.push(rest[0]),
                    ));
                }
                assert(plan_rec(rest.skip(1), max, groups, state.bios@) == merge_plan(bios@, max));
                assert(plan_rec(bios@.skip(index as int), max, groups, state.bios@) == merge_plan(
                    bios@,
                    max,
                ));
            }
        }
        proof {
            assert(bios@.skip(index as int) =~= Seq::<BlobIoDesc>::empty());
            assert(merge_plan(bios@, max) == groups.push(state.bios@));
        }
        let ghost cur = state.bios@;
        state.issue();
        proof {
            groups = groups.push(cur);
            assert forall|k: int| 0 <= k < groups.len() implies range_matches(
                #[trigger] state.issued@[k],
                groups[k],
            ) by {
                if k < groups.len() - 1 {
                    assert(state.issued@[k] == state.issued@.drop_last()[k]);
                } else {
                    assert(state.issued@[k] == state.issued@.last());
                }
            }
            assert forall|k: int| 0 <= k < groups.len() implies (#[trigger] state.issued@[k]).wf()
                by {
                if k < groups.len() - 1 {
                    assert(state.issued@[k] == state.issued@.drop_last()[k]);
                } else {
                    assert(state.issued@[k] == state.issued@.last());
                }
            }
        }
        state.issued
    }
}

/// The compressed size of a group of descriptors is never negative.
pub proof fn lemma_group_size_nonneg(g: Seq<BlobIoDesc>)
    ensures
        group_size(g) >= 0,
    decreases g.len(),
{
    if g.len() > 0 {
        lemma_group_size_nonneg(g.drop_last());
    }
}

/// Splitting off the first descriptor splits the group's size.
proof fn lemma_group_size_first(g: Seq<BlobIoDesc>)
    requires
        g.len() > 0,
    ensures
        group_size(g) == desc_csize(g[0]) + group_size(g.skip(1)),
    decreases g.len(),
{
    if g.len() == 1 {
        assert(g.drop_last().len() == 0);
        assert(group_size(g.drop_last()) == 0);
        assert(g.skip(1).len() == 0);
        assert(group_size(g.skip(1)) == 0);
        assert(g.last() == g[0]);
    } else {
        lemma_group_size_first(g.drop_last());
        assert(g.drop_last()[0] == g[0]);
        assert(g.skip(1).drop_last() =~= g.drop_last().skip(1));
        assert(g.skip(1).last() == g.last());
        assert(g.skip(1).len() > 0);
        assert(group_size(g.skip(1)) == group_size(g.skip(1).drop_last()) + desc_csize(
            g.skip(1).last(),
        ));
        assert(group_size(g) == group_size(g.drop_last()) + desc_csize(g.last()));
    }
}

/// A prefix of a group is no bigger than the group.
proof fn lemma_group_size_take_le(s: Seq<BlobIoDesc>, b: int)
    requires
        0 <= b <= s.len(),
    ensures
        group_size(s.subrange(0, b)) <= group_size(s),
    decreases s.len() - b,
{
    if b == s.len() {
        assert(s.subrange(0, b) =~= s);
    } else {
        lemma_group_size_take_le(s, b + 1);
        assert(s.subrange(0, b + 1).drop_last() =~= s.subrange(0, b));
        assert(s.subrange(0, b + 1).last() == s[b]);
    }
}

/// Dropping descriptors from the front cannot grow the group's size.
proof fn lemma_group_size_skip_le(s: Seq<BlobIoDesc>, a: int)
    requires
        0 <= a <= s.len(),
    ensures
        group_size(s.skip(a)) <= group_size(s),
    decreases a,
{
    if a == 0 {
        assert(s.skip(0) =~= s);
    } else {
        lemma_group_size_skip_le(s, a - 1);
        lemma_group_size_first(s.skip(a - 1));
        assert(s.skip(a - 1).skip(1) =~= s.skip(a));
    }
}

/// Any contiguous run of descriptors weighs at most the whole list.
pub proof fn lemma_group_size_subrange_le(s: Seq<BlobIoDesc>, a: int, b: int)
    requires
        0 <= a <= b <= s.len(),
    ensures
        group_size(s.subrange(a, b)) <= group_size(s),
{
    assert(s.subrange(a, b) =~= s.subrange(0, b).skip(a));
    lemma_group_size_take_le(s, b);
    lemma_group_size_skip_le(s.subrange(0, b), a);
}

proof fn lemma_plan_rec_flatten(
    rest: Seq<BlobIoDesc>,
    max: int,
    groups: Seq<Seq<BlobIoDesc>>,
    cur: Seq<BlobIoDesc>,
)
    ensures
        plan_rec(rest, max, groups, cur).flatten() == groups.flatten() + cur + rest,
    decreases rest.len(),
{
    if rest.len() == 0 {
        groups.lemma_flatten_push(cur);
        assert(groups.flatten() + cur + rest =~= groups.flatten() + cur);
    } else if !continuous_spec(cur.last(), rest[0], 0) || group_size(cur) >= max {
        lemma_plan_rec_flatten(rest.skip(1), max, groups.push(cur), seq![rest[0]]);
        groups.lemma_flatten_push(cur);
        assert(groups.push(cur).flatten() + seq![rest[0]] + rest.skip(1) =~= groups.flatten() + cur
            + rest);
    } else {
        lemma_plan_rec_flatten(rest.skip(1), max, groups, cur.push(rest[0]));
        assert(groups.flatten() + cur.push(rest[0]) + rest.skip(1) =~= groups.flatten() + cur
            + rest);
    }
}

/// Law: the groups the planner forms, concatenated in emit order, cover
/// exactly the input descriptor list; an empty list yields no groups.
pub proof fn lemma_merge_plan_covers(descs: Seq<BlobIoDesc>, max: int)
    ensures
        merge_plan(descs, max).flatten() == descs,
{
    if descs.len() == 0 {
        assert(merge_plan(descs, max).flatten() =~= descs);
    } else {
        lemma_plan_rec_flatten(descs.skip(1), max, Seq::empty(), seq![descs[0]]);
        assert(Seq::<Seq<BlobIoDesc>>::empty().flatten() =~= Seq::<BlobIoDesc>::empty());
        assert(Seq::<BlobIoDesc>::empty() + seq![descs[0]] + descs.skip(1) =~= descs);
    }
}

/// The chunks a list of descriptors covers, in order.
pub open spec fn chunks_of_descs(g: Seq<BlobIoDesc>) -> Seq<ChunkInfo> {
    g.map_values(|d: BlobIoDesc| d.chunkinfo)
}

/// The chunk lists of a list of emitted ranges, in emit order.
pub open spec fn chunks_of_ranges(rs: Seq<BlobIoRange>) -> Seq<Seq<ChunkInfo>> {
    rs.map_values(|r: BlobIoRange| r.chunks@)
}

proof fn lemma_flatten_chunks(a: Seq<Seq<ChunkInfo>>, b: Seq<Seq<BlobIoDesc>>)
    requires
        a.len() == b.len(),
        forall|i: int| 0 <= i < a.len() ==> a[i] == chunks_of_descs(#[trigger] b[i]),
    ensures
        a.flatten() == chunks_of_descs(b.flatten()),
    decreases a.len(),
{
    if a.len() == 0 {
        assert(a.flatten() =~= Seq::<ChunkInfo>::empty());
        assert(b.flatten() =~= Seq::<Seq<BlobIoDesc>>::empty().flatten());
        assert(chunks_of_descs(b.flatten()) =~= Seq::<ChunkInfo>::empty());
    } else {
        assert forall|i: int| 0 <= i < a.drop_first().len() implies a.drop_first()[i]
            == chunks_of_descs(#[trigger] b.drop_first()[i]) by {
            assert(a.drop_first()[i] == a[i + 1]);
            assert(b.drop_first()[i] == b[i + 1]);
        }
        lemma_flatten_chunks(a.drop_first(), b.drop_first());
        assert(a.flatten() == a.first() + a.drop_first().flatten());
        assert(b.flatten() == b.first() + b.drop_first().flatten());
        assert(a.first() == chunks_of_descs(b.first()));
        assert(chunks_of_descs(b.first()) + chunks_of_descs(b.drop_first().flatten())
            =~= chunks_of_descs(b.first() + b.drop_first().flatten()));
    }
}

/// Law: the ranges the planner emits cover exactly the input descriptors'
/// chunks, concatenated in emit order.  Stated of any range list that
/// realizes the plan, as [`BlobIoMergeState::merge_and_issue`] ensures of
/// its result.
pub proof fn lemma_ranges_cover_input(ranges: Seq<BlobIoRange>, descs: Seq<BlobIoDesc>, max: int)
    requires
        ranges.len() == merge_plan(descs, max).len(),
        forall|i: int|
            0 <= i < ranges.len() ==> range_matches(#[trigger] ranges[i], merge_plan(descs, max)[i]),
    ensures
        chunks_of_ranges(ranges).flatten() == chunks_of_descs(descs),
{
    lemma_merge_plan_covers(descs, max);
    assert forall|i: int| 0 <= i < chunks_of_ranges(ranges).len() implies chunks_of_ranges(
        ranges,
    )[i] == chunks_of_descs(#[trigger] merge_plan(descs, max)[i]) by {
        assert(chunks_of_ranges(ranges)[i] == ranges[i].chunks@);
        assert(range_matches(ranges[i], merge_plan(descs, max)[i]));
        assert(ranges[i].chunks@ =~= chunks_of_descs(merge_plan(descs, max)[i]));
    }
    lemma_flatten_chunks(chunks_of_ranges(ranges), merge_plan(descs, max));
}

/// A planned group is sound: it is nonempty, its consecutive descriptors
/// are continuous in the blob with no gap, and its compressed size stays
/// within `max` plus the size of the last appended chunk.
pub open spec fn group_ok(g: Seq<BlobIoDesc>, max: int) -> bool {
    &&& g.len() > 0
    &&& (forall|k: int| 1 <= k < g.len() ==> continuous_spec(g[k - 1], #[trigger] g[k], 0))
    &&& group_size(g) <= max + desc_csize(g.last())
}

proof fn lemma_plan_rec_groups(
    rest: Seq<BlobIoDesc>,
    max: int,
    groups: Seq<Seq<BlobIoDesc>>,
    cur: Seq<BlobIoDesc>,
)
    requires
        max >= 0,
        cur.len() > 0,
        cur.len() > 1 ==> group_size(cur.drop_last()) < max,
        forall|k: int| 1 <= k < cur.len() ==> continuous_spec(cur[k - 1], #[trigger] cur[k], 0),
        forall|i: int| 0 <= i < groups.len() ==> group_ok(#[trigger] groups[i], max),
    ensures
        forall|i: int|
            0 <= i < plan_rec(rest, max, groups, cur).len() ==> group_ok(
                #[trigger] plan_rec(rest, max, groups, cur)[i],
                max,
            ),
    decreases rest.len(),
{
    assert(group_ok(cur, max)) by {
        assert(group_size(cur) == group_size(cur.drop_last()) + desc_csize(cur.last()));
        if cur.len() == 1 {
            assert(group_size(cur.drop_last()) == 0);
        }
    }
    if rest.len() == 0 {
        assert forall|i: int| 0 <= i < groups.push(cur).len() implies group_ok(
            #[trigger] groups.push(cur)[i],
            max,
        ) by {
            if i < groups.len() {
                assert(groups.push(cur)[i] == groups[i]);
            } else {
                assert(groups.push(cur)[i] == cur);
            }
        }
        assert(plan_rec(rest, max, groups, cur) == groups.push(cur));
    } else if !continuous_spec(cur.last(), rest[0], 0) || group_size(cur) >= max {
        assert forall|i: int| 0 <= i < groups.push(cur).len() implies group_ok(
            #[trigger] groups.push(cur)[i],
            max,
        ) by {
            if i < groups.len() {
                assert(groups.push(cur)[i] == groups[i]);
            } else {
                assert(groups.push(cur)[i] == cur);
            }
        }
        lemma_plan_rec_groups(rest.skip(1), max, groups.push(cur), seq![rest[0]]);
        assert(plan_rec(rest, max, groups, cur) == plan_rec(
            rest.skip(1),
            max,
            groups.push(cur),
            seq![rest[0]],
        ));
    } else {
        assert(cur.push(rest[0]).drop_last() =~= cur);
        assert(group_size(cur) < max);
        assert forall|k: int| 1 <= k < cur.push(rest[0]).len() implies continuous_spec(
            cur.push(rest[0])[k - 1],
            #[trigger] cur.push(rest[0])[k],
            0,
        ) by {
            if k < cur.len() {
                assert(cur.push(rest[0])[k - 1] == cur[k - 1] && cur.push(rest[0])[k] == cur[k]);
            } else {
                assert(cur.push(rest[0])[k - 1] == cur.last() && cur.push(rest[0])[k] == rest[0]);
            }
        }
        lemma_plan_rec_groups(rest.skip(1), max, groups, cur.push(rest[0]));
        assert(plan_rec(rest, max, groups, cur) == plan_rec(
            rest.skip(1),
            max,
            groups,
            cur.push(rest[0]),
        ));
    }
}

/// Law: every group the planner forms is nonempty, its consecutive chunks
/// are continuous in the blob with no gap, and its compressed size is at
/// most `max` plus the size of its last appended chunk.
pub proof fn lemma_merge_plan_groups_ok(descs: Seq<BlobIoDesc>, max: int)
    requires
        max >= 0,
    ensures
        forall|i: int|
            0 <= i < merge_plan(descs, max).len() ==> group_ok(
                #[trigger] merge_plan(descs, max)[i],
                max,
            ),
{
    if descs.len() > 0 {
        lemma_plan_rec_groups(descs.skip(1), max, Seq::empty(), seq![descs[0]]);
    }
}

proof fn lemma_plan_rec_zero(rest: Seq<BlobIoDesc>, groups: Seq<Seq<BlobIoDesc>>, cur: Seq<
    BlobIoDesc,
>)
    requires
        cur.len() == 1,
    ensures
        plan_rec(rest, 0, groups, cur).len() == groups.len() + 1 + rest.len(),
        forall|i: int| 0 <= i < groups.len() ==> plan_rec(rest, 0, groups, cur)[i] == groups[i],
        plan_rec(rest, 0, groups, cur)[groups.len() as int] == cur,
        forall|i: int|
            0 <= i < rest.len() ==> plan_rec(rest, 0, groups, cur)[groups.len() + 1 + i] == seq![
                rest[i],
            ],
    decreases rest.len(),
{
    lemma_group_size_nonneg(cur);
    if rest.len() == 0 {
    } else {
        assert(group_size(cur) >= 0);
        lemma_plan_rec_zero(rest.skip(1), groups.push(cur), seq![rest[0]]);
        assert(plan_rec(rest, 0, groups, cur) == plan_rec(
            rest.skip(1),
            0,
            groups.push(cur),
            seq![rest[0]],
        ));
        assert forall|i: int| 0 <= i < groups.len() implies plan_rec(rest, 0, groups, cur)[i]
            == groups[i] by {
            assert(plan_rec(rest, 0, groups, cur)[i] == groups.push(cur)[i]);
            assert(groups.push(cur)[i] == groups[i]);
        }
        assert(plan_rec(rest, 0, groups, cur)[groups.len() as int] == groups.push(cur)[groups.len() as int]);
        assert(groups.push(cur)[groups.len() as int] == cur);
        assert(seq![rest[0]][0] == rest[0]);
        assert forall|i: int| 0 <= i < rest.len() implies plan_rec(rest, 0, groups, cur)[groups.len()
            + 1 + i] == seq![rest[i]] by {
            if i == 0 {
                assert(plan_rec(rest, 0, groups, cur)[groups.push(cur).len() as int] == seq![
                    rest[0],
                ]);
            } else {
                assert(rest.skip(1)[i - 1] == rest[i]);
            }
        }
    }
}

/// Law: with a size threshold of zero the planner emits one group per
/// descriptor, each holding exactly that descriptor.
pub proof fn lemma_merge_plan_max_zero(descs: Seq<BlobIoDesc>)
    ensures
        merge_plan(descs, 0).len() == descs.len(),
        forall|i: int| 0 <= i < descs.len() ==> merge_plan(descs, 0)[i] == seq![descs[i]],
{
    if descs.len() > 0 {
        lemma_plan_rec_zero(descs.skip(1), Seq::empty(), seq![descs[0]]);
        assert forall|i: int| 0 <= i < descs.len() implies merge_plan(descs, 0)[i] == seq![
            descs[i],
        ] by {
            if i == 0 {
                assert(merge_plan(descs, 0)[0] == seq![descs[0]]);
            } else {
                assert(descs.skip(1)[i - 1] == descs[i]);
            }
        }
    }
}

} // verus!
