//! Patching a byte buffer: patches are collected first, then the patched
//! bytes are built in one pass.
use vstd::prelude::*;

verus! {

/// A patch: where it starts and the bytes it writes there.
pub type PatchView = (int, Seq<u8>);

/// Whether a patch of `p_len` bytes at `p_start` and one of `len` bytes at
/// `start` overlap, in the sense the patcher checks: one starts strictly
/// inside the other. Two patches at the same start do not count.
pub open spec fn spec_overlapping(p_start: int, p_len: int, start: int, len: int) -> bool {
    (p_start < start && p_start + p_len > start) || (start < p_start && start + len > p_start)
}

/// Whether a new patch of `len` bytes at `start` overlaps one of `ps`.
pub open spec fn spec_conflicts(ps: Seq<PatchView>, start: int, len: int) -> bool {
    exists|i: int| 0 <= i < ps.len() && #[trigger] spec_overlapping(ps[i].0, ps[i].1.len() as int, start, len)
}

/// `ps` with `p` inserted after the last patch that starts at or before it:
/// patches stay ordered by start, and patches with equal starts keep the
/// order in which they came.
pub open spec fn spec_insert_patch(ps: Seq<PatchView>, p: PatchView) -> Seq<PatchView>
    decreases ps.len(),
{
    if ps.len() == 0 {
        seq![p]
    } else if ps.last().0 <= p.0 {
        ps.push(p)
    } else {
        spec_insert_patch(ps.drop_last(), p).push(ps.last())
    }
}

/// Patches ordered by their starts.
pub open spec fn spec_sorted(ps: Seq<PatchView>) -> bool {
    forall|i: int, j: int| 0 <= i <= j < ps.len() ==> ps[i].0 <= ps[j].0
}

/// The patched bytes from `pos` on: the unpatched bytes up to each patch, the
/// patch's bytes, and after the last patch the rest of `data`.
pub open spec fn spec_output(data: Seq<u8>, ps: Seq<PatchView>, pos: int) -> Seq<u8>
    decreases ps.len(),
{
    if ps.len() == 0 {
        if pos < data.len() {
            data.subrange(pos, data.len() as int)
        } else {
            Seq::empty()
        }
    } else {
        let p = ps[0];
        let before = if pos < p.0 {
            data.subrange(pos, p.0)
        } else {
            Seq::empty()
        };
        before + p.1 + spec_output(data, ps.drop_first(), p.0 + p.1.len())
    }
}

/// Whether building from `pos` on takes unpatched bytes only from within
/// `data`: no patch that leaves a gap before it starts beyond the data.
pub open spec fn spec_output_ok(data_len: int, ps: Seq<PatchView>, pos: int) -> bool
    decreases ps.len(),
{
    if ps.len() == 0 {
        true
    } else {
        (pos < ps[0].0 ==> ps[0].0 <= data_len) && spec_output_ok(
            data_len,
            ps.drop_first(),
            ps[0].0 + ps[0].1.len(),
        )
    }
}

/// The patch's bytes covering position `i` of the buffer, if it covers it.
pub open spec fn spec_covers(p: PatchView, i: int) -> bool {
    p.0 <= i < p.0 + p.1.len()
}

/// Each patch ends at or before every later one starts.
pub open spec fn spec_disjoint(ps: Seq<PatchView>) -> bool {
    forall|a: int, b: int| 0 <= a < b < ps.len() ==> #[trigger] ps[a].0 + ps[a].1.len() <= #[trigger] ps[b].0
}

/// Every patch lies within a buffer of `len` bytes.
pub open spec fn spec_within(ps: Seq<PatchView>, len: int) -> bool {
    forall|a: int| 0 <= a < ps.len() ==> 0 <= #[trigger] ps[a].0 && ps[a].0 + ps[a].1.len() <= len
}

/// Inserting at the position found by scanning from the end.
proof fn lemma_insert_at(ps: Seq<PatchView>, p: PatchView, idx: int)
    requires
        0 <= idx <= ps.len(),
        idx == 0 || ps[idx - 1].0 <= p.0,
        forall|k: int| idx <= k < ps.len() ==> ps[k].0 > p.0,
    ensures
        spec_insert_patch(ps, p) == ps.insert(idx, p),
    decreases ps.len(),
{
    if ps.len() == 0 {
        assert(ps.insert(idx, p) =~= seq![p]);
    } else if idx == ps.len() {
        assert(ps.insert(idx, p) =~= ps.push(p));
    } else {
        let last = ps.last();
        assert(last.0 > p.0);
        lemma_insert_at(ps.drop_last(), p, idx);
        assert(ps.drop_last().insert(idx, p).push(last) =~= ps.insert(idx, p));
    }
}

/// Inserting keeps the patches ordered and adds exactly the new one.
pub proof fn lemma_insert_sorted(ps: Seq<PatchView>, p: PatchView)
    requires
        spec_sorted(ps),
    ensures
        spec_sorted(spec_insert_patch(ps, p)),
        spec_insert_patch(ps, p).to_multiset() == ps.to_multiset().insert(p),
    decreases ps.len(),
{
    broadcast use vstd::seq_lib::group_to_multiset_ensures;
    if ps.len() == 0 {
        assert(seq![p] =~= Seq::<PatchView>::empty().push(p));
        assert(ps =~= Seq::<PatchView>::empty());
    } else if ps.last().0 <= p.0 {
    } else {
        let init = ps.drop_last();
        assert(spec_sorted(init));
        lemma_insert_sorted(init, p);
        let r = spec_insert_patch(init, p);
        assert(ps =~= init.push(ps.last()));
        assert forall|i: int, j: int| 0 <= i <= j < r.push(ps.last()).len() implies r.push(
            ps.last(),
        )[i].0 <= r.push(ps.last())[j].0 by {
            if j == r.len() && i < r.len() {
                // every element of r is p or an element of init
                assert(r.to_multiset().count(r[i]) > 0);
                if r[i] != p {
                    assert(init.to_multiset().count(r[i]) > 0);
                    let k = choose|k: int| 0 <= k < init.len() && init[k] == r[i];
                    assert(ps[k] == init[k]);
                    assert(ps[k].0 <= ps[ps.len() - 1].0);
                }
            }
        }
    }
}

/// A patch within the buffer keeps every patch within it.
pub proof fn lemma_insert_within(ps: Seq<PatchView>, p: PatchView, len: int)
    requires
        spec_within(ps, len),
        0 <= p.0 && p.0 + p.1.len() <= len,
    ensures
        spec_within(spec_insert_patch(ps, p), len),
    decreases ps.len(),
{
    if ps.len() == 0 {
    } else if ps.last().0 <= p.0 {
    } else {
        lemma_insert_within(ps.drop_last(), p, len);
        let r = spec_insert_patch(ps.drop_last(), p).push(ps.last());
        assert forall|a: int| 0 <= a < r.len() implies 0 <= #[trigger] r[a].0 && r[a].0 + r[a].1.len()
            <= len by {
            if a == r.len() - 1 {
                assert(ps[ps.len() - 1] == ps.last());
            }
        }
    }
}

/// Patches within a buffer of `len` bytes never leave a gap that starts
/// beyond its end.
pub proof fn lemma_within_output_ok(ps: Seq<PatchView>, len: int, pos: int)
    requires
        spec_within(ps, len),
    ensures
        spec_output_ok(len, ps, pos),
    decreases ps.len(),
{
    if ps.len() > 0 {
        let rest = ps.drop_first();
        assert forall|a: int| 0 <= a < rest.len() implies 0 <= #[trigger] rest[a].0 && rest[a].0 + rest[a].1.len()
            <= len by {
            assert(rest[a] == ps[a + 1]);
        }
        lemma_within_output_ok(rest, len, ps[0].0 + ps[0].1.len());
    }
}

/// A patch that the builder accepts (it overlaps none of the others) and that
/// starts where no other starts keeps ordered patches disjoint.
pub proof fn lemma_accepted_keeps_disjoint(ps: Seq<PatchView>, p: PatchView)
    requires
        spec_sorted(ps),
        spec_disjoint(ps),
        !spec_conflicts(ps, p.0, p.1.len() as int),
        forall|k: int| 0 <= k < ps.len() ==> #[trigger] ps[k].0 != p.0,
    ensures
        spec_disjoint(spec_insert_patch(ps, p)),
    decreases ps.len(),
{
    broadcast use vstd::seq_lib::group_to_multiset_ensures;
    lemma_insert_sorted(ps, p);
    if ps.len() == 0 {
    } else if ps.last().0 <= p.0 {
        let r = ps.push(p);
        assert forall|a: int, b: int| 0 <= a < b < r.len() implies #[trigger] r[a].0 + r[a].1.len()
            <= #[trigger] r[b].0 by {
            if b == ps.len() {
                assert(ps[a].0 <= ps[ps.len() - 1].0);
                assert(ps[a].0 != p.0);
                assert(!spec_overlapping(ps[a].0, ps[a].1.len() as int, p.0, p.1.len() as int));
            }
        }
    } else {
        let init = ps.drop_last();
        let last = ps.last();
        assert(ps =~= init.push(last));
        assert(spec_sorted(init));
        assert forall|a: int, b: int| 0 <= a < b < init.len() implies #[trigger] init[a].0
            + init[a].1.len() <= #[trigger] init[b].0 by {
            assert(init[a] == ps[a] && init[b] == ps[b]);
        }
        assert forall|k: int| 0 <= k < init.len() implies #[trigger] init[k].0 != p.0 by {
            assert(init[k] == ps[k]);
        }
        if spec_conflicts(init, p.0, p.1.len() as int) {
            let i = choose|i: int|
                0 <= i < init.len() && #[trigger] spec_overlapping(
                    init[i].0,
                    init[i].1.len() as int,
                    p.0,
                    p.1.len() as int,
                );
            assert(ps[i] == init[i]);
            assert(spec_overlapping(ps[i].0, ps[i].1.len() as int, p.0, p.1.len() as int));
        }
        lemma_accepted_keeps_disjoint(init, p);
        lemma_insert_sorted(init, p);
        let r0 = spec_insert_patch(init, p);
        let r = r0.push(last);
        assert(!spec_overlapping(last.0, last.1.len() as int, p.0, p.1.len() as int)) by {
            assert(ps[ps.len() - 1] == last);
        }
        assert forall|a: int, b: int| 0 <= a < b < r.len() implies #[trigger] r[a].0 + r[a].1.len()
            <= #[trigger] r[b].0 by {
            if b == r0.len() {
                assert(r[a] == r0[a]);
                assert(r0.to_multiset().count(r0[a]) > 0);
                if r0[a] != p {
                    assert(init.to_multiset().count(r0[a]) > 0);
                    let k = choose|k: int| 0 <= k < init.len() && init[k] == r0[a];
                    assert(ps[k] == init[k]);
                    assert(ps[k].0 + ps[k].1.len() <= ps[ps.len() - 1].0);
                }
            } else {
                assert(r[a] == r0[a] && r[b] == r0[b]);
            }
        }
    }
}

/// Where the patches are ordered, pairwise disjoint and within `data`, the
/// built bytes are as long as `data`, every patch reads back at its place and
/// every byte that no patch covers is unchanged.
pub proof fn lemma_output_reads_back(data: Seq<u8>, ps: Seq<PatchView>)
    requires
        spec_sorted(ps),
        spec_disjoint(ps),
        spec_within(ps, data.len() as int),
    ensures
        spec_output_ok(data.len() as int, ps, 0),
        spec_output(data, ps, 0).len() == data.len(),
        forall|k: int, j: int|
            0 <= k < ps.len() && 0 <= j < ps[k].1.len() ==> #[trigger] spec_output(data, ps, 0)[ps[k].0
                + j] == #[trigger] ps[k].1[j],
        forall|i: int|
            0 <= i < data.len() && (forall|k: int| 0 <= k < ps.len() ==> !spec_covers(ps[k], i))
                ==> #[trigger] spec_output(data, ps, 0)[i] == data[i],
{
    lemma_output_from(data, ps, 0);
}

/// The built bytes from `pos` on, where `pos` is at or before every patch.
proof fn lemma_output_from(data: Seq<u8>, ps: Seq<PatchView>, pos: int)
    requires
        0 <= pos <= data.len(),
        spec_sorted(ps),
        spec_disjoint(ps),
        spec_within(ps, data.len() as int),
        forall|a: int| 0 <= a < ps.len() ==> pos <= #[trigger] ps[a].0,
    ensures
        spec_output_ok(data.len() as int, ps, pos),
        spec_output(data, ps, pos).len() == data.len() - pos,
        forall|k: int, j: int|
            0 <= k < ps.len() && 0 <= j < ps[k].1.len() ==> spec_output(data, ps, pos)[ps[k].0 + j
                - pos] == ps[k].1[j],
        forall|i: int|
            pos <= i < data.len() && (forall|k: int| 0 <= k < ps.len() ==> !spec_covers(ps[k], i))
                ==> spec_output(data, ps, pos)[i - pos] == data[i],
    decreases ps.len(),
{
    if ps.len() == 0 {
    } else {
        let p = ps[0];
        let rest = ps.drop_first();
        let next = p.0 + p.1.len();
        assert(spec_within(ps, data.len() as int) ==> 0 <= ps[0].0 && next <= data.len());
        assert(spec_sorted(rest));
        assert forall|a: int, b: int|
            0 <= a < b < rest.len() implies #[trigger] rest[a].0 + rest[a].1.len() <= #[trigger] rest[b].0 by {
            assert(rest[a] == ps[a + 1] && rest[b] == ps[b + 1]);
        }
        assert forall|a: int| 0 <= a < rest.len() implies next <= #[trigger] rest[a].0 by {
            assert(rest[a] == ps[a + 1]);
        }
        assert forall|a: int| 0 <= a < rest.len() implies 0 <= #[trigger] rest[a].0 && rest[a].0
            + rest[a].1.len() <= data.len() by {
            assert(rest[a] == ps[a + 1]);
        }
        lemma_output_from(data, rest, next);
        let before = if pos < p.0 {
            data.subrange(pos, p.0)
        } else {
            Seq::empty()
        };
        let out = spec_output(data, ps, pos);
        let tail = spec_output(data, rest, next);
        assert(out == before + p.1 + tail);
        assert(before.len() == p.0 - pos);
        assert forall|k: int, j: int| 0 <= k < ps.len() && 0 <= j < ps[k].1.len() implies out[ps[k].0
            + j - pos] == ps[k].1[j] by {
            if k > 0 {
                assert(rest[k - 1] == ps[k]);
            }
        }
        assert forall|i: int|
            pos <= i < data.len() && (forall|k: int| 0 <= k < ps.len() ==> !spec_covers(ps[k], i))
            implies out[i - pos] == data[i] by {
            assert(!spec_covers(ps[0], i));
            if i >= next {
                assert forall|k: int| 0 <= k < rest.len() implies !spec_covers(rest[k], i) by {
                    assert(rest[k] == ps[k + 1]);
                }
            }
        }
    }
}

/// Patches to be applied to a borrowed buffer. The patches are kept in the
/// order `build` writes them: by start, and in the order they came where two
/// start at the same place.
pub struct PatchedBinaryBuilder<'a> {
    data: &'a [u8],
    patches: Vec<(usize, Vec<u8>)>,
}

/// Patches as starts and bytes.
pub open spec fn patch_views(ps: Seq<(usize, Vec<u8>)>) -> Seq<PatchView> {
    ps.map_values(|p: (usize, Vec<u8>)| (p.0 as int, p.1@))
}

impl<'a> View for PatchedBinaryBuilder<'a> {
    type V = (Seq<u8>, Seq<PatchView>);

    closed spec fn view(&self) -> (Seq<u8>, Seq<PatchView>) {
        (self.data@, patch_views(self.patches@))
    }
}

impl<'a> PatchedBinaryBuilder<'a> {
    #[verifier::type_invariant]
    closed spec fn wf(&self) -> bool {
        &&& spec_sorted(patch_views(self.patches@))
        &&& forall|i: int|
            0 <= i < self.patches@.len() ==> #[trigger] self.patches@[i].0 + self.patches@[i].1@.len()
                <= usize::MAX
    }

    /// A builder for `data` with no patches.
    pub fn new(data: &'a [u8]) -> (r: Self)
        ensures
            r@ == (data@, Seq::<PatchView>::empty()),
    {
        let r = PatchedBinaryBuilder { data, patches: Vec::new() };
        assert(patch_views(r.patches@) =~= Seq::<PatchView>::empty());
        r
    }

    /// The buffer being patched.
    pub fn data(&self) -> (r: &'a [u8])
        ensures
            r@ == self@.0,
    {
        self.data
    }

    /// Whether a patch of `len` bytes at `start` overlaps one already added.
    fn overlaps_existing(&self, start: usize, len: usize) -> (r: bool)
        requires
            start + len <= usize::MAX,
        ensures
            r == spec_conflicts(self@.1, start as int, len as int),
    {
        proof {
            use_type_invariant(self);
        }
        let mut i: usize = 0;
        while i < self.patches.len()
            invariant
                0 <= i <= self.patches@.len(),
                start + len <= usize::MAX,
                forall|k: int|
                    0 <= k < self.patches@.len() ==> #[trigger] self.patches@[k].0 + self.patches@[k].1@.len()
                        <= usize::MAX,
                forall|k: int|
                    0 <= k < i ==> !spec_overlapping(
                        self@.1[k].0,
                        self@.1[k].1.len() as int,
                        start as int,
                        len as int,
                    ),
            decreases self.patches@.len() - i,
        {
            let p_start = self.patches[i].0;
            let p_len = self.patches[i].1.len();
            assert(self@.1[i as int] == (p_start as int, self.patches@[i as int].1@));
            if (p_start < start && p_start + p_len > start) || (start < p_start && start + len > p_start) {
                assert(spec_overlapping(self@.1[i as int].0, self@.1[i as int].1.len() as int, start as int, len as int));
                return true;
            }
            i = i + 1;
        }
        false
    }

    /// Adds a patch where it overlaps none of those already added; fails and
    /// leaves the builder as it was where it does.
    pub fn try_patch(&mut self, start: usize, data: Vec<u8>) -> (r: Result<(), PatchError>)
        requires
            start + data@.len() <= usize::MAX,
        ensures
            r is Err <==> spec_conflicts(old(self)@.1, start as int, data@.len() as int),
            r is Err ==> r == Err::<(), PatchError>(PatchError::Overlapping) && final(self)@ == old(self)@,
            r is Ok ==> final(self)@ == (old(self)@.0, spec_insert_patch(old(self)@.1, (start as int, data@))),
            spec_sorted(final(self)@.1),
    {
        if self.overlaps_existing(start, data.len()) {
            proof {
                use_type_invariant(&*self);
            }
            return Err(PatchError::Overlapping);
        }
        self.insert_patch(start, data);
        proof {
            use_type_invariant(&*self);
        }
        Ok(())
    }

    /// Inserts a patch after the last one that starts at or before it.
    fn insert_patch(&mut self, start: usize, data: Vec<u8>)
        requires
            start + data@.len() <= usize::MAX,
        ensures
            final(self)@ == (old(self)@.0, spec_insert_patch(old(self)@.1, (start as int, data@))),
    {
        proof {
            use_type_invariant(&*self);
        }
        let ghost ps = self@.1;
        let ghost p: PatchView = (start as int, data@);
        let mut idx: usize = self.patches.len();
        while idx > 0 && self.patches[idx - 1].0 > start
            invariant
                0 <= idx <= self.patches@.len(),
                ps == patch_views(self.patches@),
                p == (start as int, data@),
                forall|k: int| idx <= k < ps.len() ==> ps[k].0 > p.0,
            decreases idx,
        {
            assert(ps[idx - 1] == (self.patches@[idx - 1].0 as int, self.patches@[idx - 1].1@));
            idx = idx - 1;
        }
        proof {
            if idx > 0 {
                assert(ps[idx - 1] == (self.patches@[idx - 1].0 as int, self.patches@[idx - 1].1@));
            }
            lemma_insert_at(ps, p, idx as int);
            lemma_insert_sorted(ps, p);
        }
        let ghost old_patches = self.patches@;
        let mut patches: Vec<(usize, Vec<u8>)> = Vec::new();
        core::mem::swap(&mut patches, &mut self.patches);
        patches.insert(idx, (start, data));
        proof {
            assert(patch_views(patches@) =~= ps.insert(idx as int, p));
            assert forall|i: int|
                0 <= i < patches@.len() implies #[trigger] patches@[i].0 + patches@[i].1@.len()
                <= usize::MAX by {
                if i < idx {
                    assert(patches@[i] == old_patches[i]);
                } else if i > idx {
                    assert(patches@[i] == old_patches[i - 1]);
                }
            }
        }
        self.patches = patches;
    }

    /// Adds a patch; it must overlap none of those already added.
    pub fn patch(self, start: usize, data: Vec<u8>) -> (r: Self)
        requires
            start + data@.len() <= usize::MAX,
            !spec_conflicts(self@.1, start as int, data@.len() as int),
        ensures
            r@ == (self@.0, spec_insert_patch(self@.1, (start as int, data@))),
            spec_sorted(r@.1),
    {
        let mut b = self;
        b.insert_patch(start, data);
        proof {
            use_type_invariant(&b);
        }
        b
    }

    /// The patched bytes: each patch's bytes in start order, with the bytes
    /// of the buffer that lie between them and after the last one.
    pub fn build_bytes(&self) -> (r: Vec<u8>)
        requires
            spec_output_ok(self@.0.len() as int, self@.1, 0),
        ensures
            r@ == spec_output(self@.0, self@.1, 0),
    {
        proof {
            use_type_invariant(self);
        }
        let ghost data = self@.0;
        let ghost ps = self@.1;
        let mut out: Vec<u8> = Vec::new();
        let mut pos: usize = 0;
        let mut k: usize = 0;
        assert(ps.subrange(0, ps.len() as int) =~= ps);
        assert(out@ + spec_output(data, ps, 0) =~= spec_output(data, ps, 0));
        while k < self.patches.len()
            invariant
                0 <= k <= self.patches@.len(),
                ps == patch_views(self.patches@),
                data == self.data@,
                forall|i: int|
                    0 <= i < self.patches@.len() ==> #[trigger] self.patches@[i].0
                        + self.patches@[i].1@.len() <= usize::MAX,
                spec_output_ok(data.len() as int, ps.subrange(k as int, ps.len() as int), pos as int),
                out@ + spec_output(data, ps.subrange(k as int, ps.len() as int), pos as int)
                    == spec_output(data, ps, 0),
            decreases self.patches@.len() - k,
        {
            let ghost rest = ps.subrange(k as int, ps.len() as int);
            assert(rest[0] == ps[k as int]);
            assert(rest.drop_first() =~= ps.subrange(k + 1, ps.len() as int));
            let start = self.patches[k].0;
            if pos < start {
                append_range(&mut out, self.data, pos, start);
            }
            append_range(&mut out, self.patches[k].1.as_slice(), 0, self.patches[k].1.len());
            proof {
                assert(self.patches@[k as int].1@.subrange(0, self.patches@[k as int].1@.len() as int)
                    =~= self.patches@[k as int].1@);
            }
            pos = start + self.patches[k].1.len();
            k = k + 1;
        }
        if pos < self.data.len() {
            append_range(&mut out, self.data, pos, self.data.len());
        }
        proof {
            assert(ps.subrange(k as int, ps.len() as int) =~= Seq::<PatchView>::empty());
            assert(out@ =~= spec_output(data, ps, 0));
        }
        out
    }

    /// The patched bytes, ready to be read in order.
    pub fn build(self) -> (r: PatchedBinary)
        requires
            spec_output_ok(self@.0.len() as int, self@.1, 0),
        ensures
            r@ == (spec_output(self@.0, self@.1, 0), 0int),
    {
        let bytes = self.build_bytes();
        PatchedBinary { bytes, pos: 0 }
    }
}

/// Appends `src[from..to]` to `out`.
fn append_range(out: &mut Vec<u8>, src: &[u8], from: usize, to: usize)
    requires
        from <= to <= src@.len(),
    ensures
        final(out)@ == old(out)@ + src@.subrange(from as int, to as int),
{
    let mut i = from;
    while i < to
        invariant
            from <= i <= to <= src@.len(),
            out@ == old(out)@ + src@.subrange(from as int, i as int),
        decreases to - i,
    {
        out.push(src[i]);
        i = i + 1;
        assert(out@ =~= old(out)@ + src@.subrange(from as int, i as int));
    }
}

/// Why a patch was refused.
#[derive(Clone, Copy, Debug, PartialEq, Eq, Structural)]
pub enum PatchError {
    /// The patch starts strictly inside another, or another starts strictly
    /// inside it.
    Overlapping,
}

/// Patched bytes and how many of them were read already.
pub struct PatchedBinary {
    bytes: Vec<u8>,
    pos: usize,
}

impl View for PatchedBinary {
    type V = (Seq<u8>, int);

    closed spec fn view(&self) -> (Seq<u8>, int) {
        (self.bytes@, self.pos as int)
    }
}

impl PatchedBinary {
    #[verifier::type_invariant]
    closed spec fn wf(&self) -> bool {
        self.pos <= self.bytes@.len()
    }

    /// Fills `buf` from the bytes not read yet, as far as they go; returns
    /// how many bytes it wrote.
    pub fn read(&mut self, buf: &mut [u8]) -> (n: usize)
        ensures
            final(self)@.0 == old(self)@.0,
            0 <= old(self)@.1 <= old(self)@.0.len(),
            n as int == if old(buf)@.len() < old(self)@.0.len() - old(self)@.1 {
                old(buf)@.len() as int
            } else {
                old(self)@.0.len() - old(self)@.1
            },
            final(self)@.1 == old(self)@.1 + n,
            final(buf)@ == old(self)@.0.subrange(old(self)@.1, old(self)@.1 + n) + old(buf)@.subrange(
                n as int,
                old(buf)@.len() as int,
            ),
    {
        proof {
            use_type_invariant(&*self);
        }
        let remaining = self.bytes.len() - self.pos;
        let n = if buf.len() < remaining {
            buf.len()
        } else {
            remaining
        };
        let mut i: usize = 0;
        while i < n
            invariant
                0 <= i <= n,
                n <= buf@.len(),
                self.bytes@.len() <= usize::MAX,
                buf@.len() == old(buf)@.len(),
                self.pos + n <= self.bytes@.len(),
                forall|j: int| 0 <= j < i ==> buf@[j] == self.bytes@[self.pos + j],
                forall|j: int| n <= j < buf@.len() ==> buf@[j] == old(buf)@[j],
            decreases n - i,
        {
            buf[i] = self.bytes[self.pos + i];
            i = i + 1;
        }
        proof {
            assert(buf@ =~= self.bytes@.subrange(self.pos as int, self.pos + n) + old(buf)@.subrange(
                n as int,
                old(buf)@.len() as int,
            ));
        }
        self.pos = self.pos + n;
        n
    }
}

} // verus!
