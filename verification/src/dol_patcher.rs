//! Patching a DOL executable: its header lists seven text and eleven data
//! segments (file offset, load address and size of each), then the address
//! and size of the BSS and the entry point.
use vstd::prelude::*;
use crate::binary_patcher::{
    lemma_insert_sorted, lemma_insert_within, lemma_output_reads_back, spec_disjoint, PatchError, PatchView, PatchedBinaryBuilder, spec_conflicts, spec_insert_patch, spec_output,
    spec_output_ok, spec_sorted, spec_within,
};
use crate::endian::{Endianness, be_bytes_u32, decode_u32, encode_u32, lemma_u32_roundtrip};
use crate::writer::VecWriter;
use crate::reader::SliceReader;

verus! {

/// The number of text segments a DOL header lists.
pub const TEXT_SEGMENT_COUNT: usize = 7;

/// The number of data segments a DOL header lists.
pub const DATA_SEGMENT_COUNT: usize = 11;

/// The size of a DOL header.
pub const DOL_HEADER_SIZE: usize = 0x100;

/// A segment of the patched DOL.
pub enum DolSegment<'a> {
    /// A segment of the original DOL, at its load address, with the patches
    /// to its bytes.
    PatchedSegment(u32, PatchedBinaryBuilder<'a>),
    /// A segment that was added, at its load address.
    NewSegment(u32, Vec<u8>),
    /// An unused header entry.
    EmptySegment,
}

/// A segment: its load address, its bytes and, for one of the original DOL,
/// the patches to them.
pub enum SegmentView {
    Patched(u32, Seq<u8>, Seq<PatchView>),
    New(u32, Seq<u8>),
    Empty,
}

impl<'a> View for DolSegment<'a> {
    type V = SegmentView;

    open spec fn view(&self) -> SegmentView {
        match self {
            DolSegment::PatchedSegment(addr, b) => SegmentView::Patched(*addr, b@.0, b@.1),
            DolSegment::NewSegment(addr, bytes) => SegmentView::New(*addr, bytes@),
            DolSegment::EmptySegment => SegmentView::Empty,
        }
    }
}

/// A segment's load address; 0 for an unused entry.
pub open spec fn seg_addr(s: SegmentView) -> u32 {
    match s {
        SegmentView::Patched(addr, _, _) => addr,
        SegmentView::New(addr, _) => addr,
        SegmentView::Empty => 0,
    }
}

/// A segment's size: that of its bytes before patching; 0 for an unused entry.
pub open spec fn seg_len(s: SegmentView) -> int {
    match s {
        SegmentView::Patched(_, data, _) => data.len() as int,
        SegmentView::New(_, bytes) => bytes.len() as int,
        SegmentView::Empty => 0,
    }
}

/// The bytes a segment contributes to the patched DOL.
pub open spec fn seg_contents(s: SegmentView) -> Seq<u8> {
    match s {
        SegmentView::Patched(_, data, ps) => spec_output(data, ps, 0),
        SegmentView::New(_, bytes) => bytes,
        SegmentView::Empty => Seq::empty(),
    }
}

/// Whether a segment of `len` bytes at `addr` overlaps segment `s`: one of
/// them starts within the other.
pub open spec fn spec_seg_overlaps(addr: int, len: int, s: SegmentView) -> bool {
    (addr <= seg_addr(s) && addr + len > seg_addr(s)) || (seg_addr(s) <= addr && seg_addr(s) + seg_len(s)
        > addr)
}

/// Whether `start` lies strictly inside segment `s` and `len` bytes from it
/// stay within it.
pub open spec fn spec_patch_fits(start: int, len: int, s: SegmentView) -> bool {
    start > seg_addr(s) && start < seg_addr(s) + seg_len(s) && start + len <= seg_addr(s) + seg_len(s)
}

/// The big-endian word at `off`.
pub open spec fn spec_word(data: Seq<u8>, off: int) -> u32 {
    decode_u32(true, data.subrange(off, off + 4))
}

/// Header entry `k` (text segments first, then data segments), read from
/// `data`: `None` where the segment's bytes lie beyond the end of `data`.
pub open spec fn spec_parse_segment(data: Seq<u8>, k: int) -> Option<SegmentView> {
    let offset = spec_word(data, 4 * k);
    let addr = spec_word(data, 0x48 + 4 * k);
    let size = spec_word(data, 0x90 + 4 * k);
    if addr == 0 {
        Some(SegmentView::Empty)
    } else if offset + size <= data.len() {
        Some(SegmentView::Patched(addr, data.subrange(offset as int, offset + size), Seq::empty()))
    } else {
        None
    }
}

/// Why the DOL patcher refused something.
#[derive(Clone, Copy, Debug, PartialEq, Eq, Structural)]
pub enum DolPatchError {
    /// The DOL is shorter than its header.
    TruncatedHeader,
    /// The bytes of the header entry with this index (text segments first)
    /// lie beyond the end of the DOL.
    TruncatedSegment(usize),
    /// A new data segment's length is refused.
    InvalidDataLength,
    /// A new text segment's length is refused.
    InvalidTextLength,
    /// A new segment at `addr` overlaps the segment with this index in its
    /// list, which starts at `segment_addr`.
    OverlappingSegment { addr: u32, index: usize, segment_addr: u32 },
    /// No data segment entry is unused.
    NoRoomForDataSegment,
    /// No text segment entry is unused.
    NoRoomForTextSegment,
    /// The patch overlaps an earlier patch of its segment.
    OverlappingPatches,
    /// The patch falls in a segment that was added.
    PatchInNewSegment,
    /// No segment holds a patch at this address.
    NoSegmentToPatch(u32),
}

/// A DOL with patches to its segments and segments added to it.
pub struct DolPatcher<'a> {
    bss_addr: u32,
    bss_size: u32,
    entry_point: u32,
    data_segments: Vec<DolSegment<'a>>,
    text_segments: Vec<DolSegment<'a>>,
}

/// Where a segment of the original DOL has patches, they lie within it and
/// are ordered; every segment's size fits in 32 bits.
pub open spec fn spec_seg_wf(s: SegmentView) -> bool {
    &&& seg_len(s) <= u32::MAX
    &&& s matches SegmentView::Patched(_, data, ps) ==> spec_within(ps, data.len() as int) && spec_sorted(ps)
}

/// Whether every segment ends within the 32-bit address space.
pub open spec fn spec_segs_fit(segs: Seq<SegmentView>) -> bool {
    forall|i: int| 0 <= i < segs.len() ==> #[trigger] seg_addr(segs[i]) + seg_len(segs[i]) <= u32::MAX
}

/// Segments as views.
pub open spec fn seg_views<'a>(segs: Seq<DolSegment<'a>>) -> Seq<SegmentView> {
    segs.map_values(|s: DolSegment<'a>| s@)
}

impl<'a> DolPatcher<'a> {
    /// The text segments, in header order.
    pub closed spec fn text(&self) -> Seq<SegmentView> {
        seg_views(self.text_segments@)
    }

    /// The data segments, in header order.
    pub closed spec fn data(&self) -> Seq<SegmentView> {
        seg_views(self.data_segments@)
    }

    /// The BSS address, the BSS size and the entry point.
    pub closed spec fn header(&self) -> (u32, u32, u32) {
        (self.bss_addr, self.bss_size, self.entry_point)
    }

    /// Seven text and eleven data segments, each well formed.
    pub open spec fn wf(&self) -> bool {
        &&& self.text().len() == TEXT_SEGMENT_COUNT
        &&& self.data().len() == DATA_SEGMENT_COUNT
        &&& forall|i: int| 0 <= i < self.text().len() ==> spec_seg_wf(#[trigger] self.text()[i])
        &&& forall|i: int| 0 <= i < self.data().len() ==> spec_seg_wf(#[trigger] self.data()[i])
    }

    /// Whether every segment ends within the 32-bit address space.
    pub open spec fn segments_fit(&self) -> bool {
        spec_segs_fit(self.text()) && spec_segs_fit(self.data())
    }

    /// Reads the DOL header and takes each listed segment with a nonzero load
    /// address as a segment to patch.
    pub fn new(reader: SliceReader<'a, byteorder::BigEndian>) -> (r: Result<Self, DolPatchError>)
        ensures
            reader@.len() < DOL_HEADER_SIZE ==> r == Err::<Self, DolPatchError>(DolPatchError::TruncatedHeader),
            reader@.len() >= DOL_HEADER_SIZE ==> match r {
                Ok(p) => {
                    &&& p.wf()
                    &&& p.header() == (
                        spec_word(reader@, 0xd8),
                        spec_word(reader@, 0xdc),
                        spec_word(reader@, 0xe0),
                    )
                    &&& forall|i: int|
                        0 <= i < TEXT_SEGMENT_COUNT ==> spec_parse_segment(reader@, i) == Some(
                            #[trigger] p.text()[i],
                        )
                    &&& forall|i: int|
                        0 <= i < DATA_SEGMENT_COUNT ==> spec_parse_segment(reader@, 7 + i) == Some(
                            #[trigger] p.data()[i],
                        )
                },
                Err(e) => exists|k: int|
                    0 <= k < 18 && e == DolPatchError::TruncatedSegment(k as usize) && spec_parse_segment(
                        reader@,
                        k,
                    ) is None && forall|j: int| 0 <= j < k ==> #[trigger] spec_parse_segment(reader@, j) is Some,
            },
    {
        let data = reader.as_slice();
        if data.len() < DOL_HEADER_SIZE {
            return Err(DolPatchError::TruncatedHeader);
        }
        let mut text_segments: Vec<DolSegment<'a>> = Vec::new();
        let mut data_segments: Vec<DolSegment<'a>> = Vec::new();
        let mut k: usize = 0;
        while k < 18
            invariant
                0 <= k <= 18,
                data@.len() >= DOL_HEADER_SIZE,
                data@ == reader@,
                k <= 7 ==> text_segments@.len() == k && data_segments@.len() == 0,
                k > 7 ==> text_segments@.len() == 7 && data_segments@.len() == k - 7,
                forall|j: int|
                    0 <= j < text_segments@.len() ==> spec_parse_segment(data@, j) == Some(
                        #[trigger] text_segments@[j]@,
                    ),
                forall|j: int|
                    0 <= j < data_segments@.len() ==> spec_parse_segment(data@, 7 + j) == Some(
                        #[trigger] data_segments@[j]@,
                    ),
                forall|j: int|
                    0 <= j < text_segments@.len() ==> spec_seg_wf(#[trigger] text_segments@[j]@),
                forall|j: int|
                    0 <= j < data_segments@.len() ==> spec_seg_wf(#[trigger] data_segments@[j]@),
            decreases 18 - k,
        {
            let seg = match parse_segment(data, k) {
                Some(seg) => seg,
                None => {
                    proof {
                        assert forall|j: int| 0 <= j < k implies #[trigger] spec_parse_segment(data@, j) is Some by {
                            if j < 7 {
                                assert(spec_parse_segment(data@, j) == Some(text_segments@[j]@));
                            } else {
                                assert(spec_parse_segment(data@, 7 + (j - 7)) == Some(data_segments@[j - 7]@));
                            }
                        }
                    }
                    return Err(DolPatchError::TruncatedSegment(k));
                },
            };
            if k < 7 {
                text_segments.push(seg);
            } else {
                data_segments.push(seg);
            }
            k = k + 1;
        }
        let bss_addr = read_word(data, 0xd8);
        let bss_size = read_word(data, 0xdc);
        let entry_point = read_word(data, 0xe0);
        let r = DolPatcher { bss_addr, bss_size, entry_point, data_segments, text_segments };
        proof {
            assert forall|i: int| 0 <= i < r.text().len() implies spec_seg_wf(#[trigger] r.text()[i]) by {
                assert(r.text()[i] == text_segments@[i]@);
            }
            assert forall|i: int| 0 <= i < r.data().len() implies spec_seg_wf(#[trigger] r.data()[i]) by {
                assert(r.data()[i] == data_segments@[i]@);
            }
            assert forall|i: int| 0 <= i < TEXT_SEGMENT_COUNT implies spec_parse_segment(reader@, i) == Some(
                #[trigger] r.text()[i],
            ) by {
                assert(r.text()[i] == text_segments@[i]@);
            }
            assert forall|i: int| 0 <= i < DATA_SEGMENT_COUNT implies spec_parse_segment(reader@, 7 + i) == Some(
                #[trigger] r.data()[i],
            ) by {
                assert(r.data()[i] == data_segments@[i]@);
            }
        }
        Ok(r)
    }
}

impl<'a> DolSegment<'a> {
    /// Whether the entry is unused.
    pub fn is_empty(&self) -> (r: bool)
        ensures
            r == (self@ is Empty),
    {
        match self {
            DolSegment::EmptySegment => true,
            _ => false,
        }
    }

    /// The segment's size.
    pub fn len(&self) -> (r: u32)
        requires
            seg_len(self@) <= u32::MAX,
        ensures
            r == seg_len(self@),
    {
        match self {
            DolSegment::PatchedSegment(_, b) => b.data().len() as u32,
            DolSegment::NewSegment(_, bytes) => bytes.len() as u32,
            DolSegment::EmptySegment => 0,
        }
    }

    /// The segment's load address.
    pub fn addr(&self) -> (r: u32)
        ensures
            r == seg_addr(self@),
    {
        match self {
            DolSegment::PatchedSegment(addr, _) => *addr,
            DolSegment::NewSegment(addr, _) => *addr,
            DolSegment::EmptySegment => 0,
        }
    }
}

/// The error for a new segment of `len` bytes at `addr`: the first data
/// segment it overlaps, else the first text segment it overlaps.
pub open spec fn spec_overlap_check(
    text: Seq<SegmentView>,
    data: Seq<SegmentView>,
    addr: u32,
    len: u32,
    r: Result<(), DolPatchError>,
) -> bool {
    match r {
        Ok(()) => (forall|j: int| 0 <= j < data.len() ==> !spec_seg_overlaps(addr as int, len as int, #[trigger] data[j]))
            && (forall|j: int| 0 <= j < text.len() ==> !spec_seg_overlaps(addr as int, len as int, #[trigger] text[j])),
        Err(e) => (exists|i: int|
            0 <= i < data.len() && spec_seg_overlaps(addr as int, len as int, data[i]) && (forall|j: int|
                0 <= j < i ==> !spec_seg_overlaps(addr as int, len as int, #[trigger] data[j])) && e
                == (DolPatchError::OverlappingSegment { addr, index: i as usize, segment_addr: seg_addr(data[i]) }))
            || ((forall|j: int|
            0 <= j < data.len() ==> !spec_seg_overlaps(addr as int, len as int, #[trigger] data[j]))
            && exists|i: int|
            0 <= i < text.len() && spec_seg_overlaps(addr as int, len as int, text[i]) && (forall|j: int|
                0 <= j < i ==> !spec_seg_overlaps(addr as int, len as int, #[trigger] text[j])) && e
                == (DolPatchError::OverlappingSegment { addr, index: i as usize, segment_addr: seg_addr(text[i]) })),
    }
}

/// The first segment that a new segment overlaps, if any.
fn first_overlap<'a>(segs: &Vec<DolSegment<'a>>, addr: u32, len: u32) -> (r: Option<usize>)
    requires
        addr + len <= u32::MAX,
        spec_segs_fit(seg_views(segs@)),
    ensures
        match r {
            Some(i) => i < segs@.len() && spec_seg_overlaps(addr as int, len as int, segs@[i as int]@)
                && forall|j: int| 0 <= j < i ==> !spec_seg_overlaps(addr as int, len as int, #[trigger] segs@[j]@),
            None => forall|j: int| 0 <= j < segs@.len() ==> !spec_seg_overlaps(addr as int, len as int, #[trigger] segs@[j]@),
        },
{
    let mut i: usize = 0;
    while i < segs.len()
        invariant
            0 <= i <= segs@.len(),
            addr + len <= u32::MAX,
            spec_segs_fit(seg_views(segs@)),
            forall|j: int| 0 <= j < i ==> !spec_seg_overlaps(addr as int, len as int, #[trigger] segs@[j]@),
        decreases segs@.len() - i,
    {
        let seg = &segs[i];
        assert(seg_views(segs@)[i as int] == seg@);
        let seg_addr = seg.addr();
        let seg_end = seg_addr as u64 + seg_len_u64(seg);
        if (addr <= seg_addr && addr + len > seg_addr) || (seg_addr <= addr && seg_end > addr as u64) {
            return Some(i);
        }
        i = i + 1;
    }
    None
}

/// A segment's size, which may be any size.
fn seg_len_u64<'a>(seg: &DolSegment<'a>) -> (r: u64)
    ensures
        r == seg_len(seg@),
{
    match seg {
        DolSegment::PatchedSegment(_, b) => b.data().len() as u64,
        DolSegment::NewSegment(_, bytes) => bytes.len() as u64,
        DolSegment::EmptySegment => 0,
    }
}

/// The first unused entry, if any.
fn first_empty<'a>(segs: &Vec<DolSegment<'a>>) -> (r: Option<usize>)
    ensures
        match r {
            Some(i) => i < segs@.len() && segs@[i as int]@ is Empty && forall|j: int| 0 <= j < i ==> !(#[trigger] segs@[j]@ is Empty),
            None => forall|j: int| 0 <= j < segs@.len() ==> !(#[trigger] segs@[j]@ is Empty),
        },
{
    let mut i: usize = 0;
    while i < segs.len()
        invariant
            0 <= i <= segs@.len(),
            forall|j: int| 0 <= j < i ==> !(#[trigger] segs@[j]@ is Empty),
        decreases segs@.len() - i,
    {
        if segs[i].is_empty() {
            return Some(i);
        }
        i = i + 1;
    }
    None
}

/// The first segment that holds a patch of `len` bytes at `start`, if any.
fn first_fit<'a>(segs: &Vec<DolSegment<'a>>, start: u32, len: u32) -> (r: Option<usize>)
    requires
        forall|j: int| 0 <= j < segs@.len() ==> seg_len(#[trigger] segs@[j]@) <= u32::MAX,
    ensures
        match r {
            Some(i) => i < segs@.len() && spec_patch_fits(start as int, len as int, segs@[i as int]@)
                && forall|j: int| 0 <= j < i ==> !spec_patch_fits(start as int, len as int, #[trigger] segs@[j]@),
            None => forall|j: int| 0 <= j < segs@.len() ==> !spec_patch_fits(start as int, len as int, #[trigger] segs@[j]@),
        },
{
    let mut i: usize = 0;
    while i < segs.len()
        invariant
            0 <= i <= segs@.len(),
            forall|j: int| 0 <= j < segs@.len() ==> seg_len(#[trigger] segs@[j]@) <= u32::MAX,
            forall|j: int| 0 <= j < i ==> !spec_patch_fits(start as int, len as int, #[trigger] segs@[j]@),
        decreases segs@.len() - i,
    {
        let seg = &segs[i];
        let seg_addr = seg.addr() as u64;
        let seg_end = seg_addr + seg_len_u64(seg);
        let s = start as u64;
        if s > seg_addr && s < seg_end && s + (len as u64) <= seg_end {
            return Some(i);
        }
        i = i + 1;
    }
    None
}

/// Where a patch of `len` bytes at `start` goes: the first text segment that
/// holds it, else the first data segment that holds it.
pub open spec fn spec_patch_target(
    text: Seq<SegmentView>,
    data: Seq<SegmentView>,
    start: u32,
    len: u32,
    in_text: bool,
    i: int,
) -> bool {
    if in_text {
        &&& 0 <= i < text.len()
        &&& spec_patch_fits(start as int, len as int, text[i])
        &&& forall|j: int| 0 <= j < i ==> !spec_patch_fits(start as int, len as int, #[trigger] text[j])
    } else {
        &&& forall|j: int| 0 <= j < text.len() ==> !spec_patch_fits(start as int, len as int, #[trigger] text[j])
        &&& 0 <= i < data.len()
        &&& spec_patch_fits(start as int, len as int, data[i])
        &&& forall|j: int| 0 <= j < i ==> !spec_patch_fits(start as int, len as int, #[trigger] data[j])
    }
}

/// A segment with one more patch, at `start` less the segment's address.
pub open spec fn spec_patched_segment(s: SegmentView, start: u32, bytes: Seq<u8>) -> SegmentView {
    match s {
        SegmentView::Patched(addr, data, ps) => SegmentView::Patched(
            addr,
            data,
            spec_insert_patch(ps, (start - addr, bytes)),
        ),
        _ => s,
    }
}

/// The outcome of patching segment `s`: refused where the patch overlaps an
/// earlier one or the segment was added.
pub open spec fn spec_patch_outcome(s: SegmentView, start: u32, bytes: Seq<u8>) -> Result<(), DolPatchError> {
    match s {
        SegmentView::Patched(addr, _, ps) => if spec_conflicts(ps, start - addr, bytes.len() as int) {
            Err(DolPatchError::OverlappingPatches)
        } else {
            Ok(())
        },
        SegmentView::New(_, _) => Err(DolPatchError::PatchInNewSegment),
        SegmentView::Empty => Ok(()),
    }
}

impl<'a> DolPatcher<'a> {
    /// Fails where a new segment of `len` bytes at `addr` overlaps a segment:
    /// the first data segment it overlaps, else the first text segment.
    fn check_for_overlapping_segment(&self, addr: u32, len: u32) -> (r: Result<(), DolPatchError>)
        requires
            self.segments_fit(),
            addr + len <= u32::MAX,
        ensures
            spec_overlap_check(self.text(), self.data(), addr, len, r),
    {
        match first_overlap(&self.data_segments, addr, len) {
            Some(i) => {
                let r = Err(DolPatchError::OverlappingSegment { addr, index: i, segment_addr: self.data_segments[i].addr() });
                proof {
                    assert(self.data()[i as int] == self.data_segments@[i as int]@);
                    assert forall|j: int| 0 <= j < i implies !spec_seg_overlaps(addr as int, len as int, #[trigger] self.data()[j]) by {
                        assert(self.data()[j] == self.data_segments@[j]@);
                    }
                }
                return r;
            },
            None => {},
        }
        proof {
            assert forall|j: int| 0 <= j < self.data().len() implies !spec_seg_overlaps(addr as int, len as int, #[trigger] self.data()[j]) by {
                assert(self.data()[j] == self.data_segments@[j]@);
            }
        }
        match first_overlap(&self.text_segments, addr, len) {
            Some(i) => {
                let r = Err(DolPatchError::OverlappingSegment { addr, index: i, segment_addr: self.text_segments[i].addr() });
                proof {
                    assert(self.text()[i as int] == self.text_segments@[i as int]@);
                    assert forall|j: int| 0 <= j < i implies !spec_seg_overlaps(addr as int, len as int, #[trigger] self.text()[j]) by {
                        assert(self.text()[j] == self.text_segments@[j]@);
                    }
                }
                r
            },
            None => {
                proof {
                    assert forall|j: int| 0 <= j < self.text().len() implies !spec_seg_overlaps(addr as int, len as int, #[trigger] self.text()[j]) by {
                        assert(self.text()[j] == self.text_segments@[j]@);
                    }
                }
                Ok(())
            },
        }
    }

    /// Adds a data segment of `bytes` at `addr` in the first unused data
    /// entry. It is refused where the length of `bytes` is no multiple of
    /// 32, where it overlaps a segment, and where no data entry is unused.
    pub fn add_data_segment(&mut self, addr: u32, bytes: Vec<u8>) -> (r: Result<(), DolPatchError>)
        requires
            old(self).wf(),
            old(self).segments_fit(),
            bytes@.len() % 32 == 0 ==> addr + bytes@.len() <= u32::MAX,
        ensures
            final(self).wf(),
            final(self).segments_fit(),
            final(self).header() == old(self).header(),
            final(self).text() == old(self).text(),
            spec_add_outcome(
                old(self).text(),
                old(self).data(),
                old(self).data(),
                addr,
                bytes@,
                DolPatchError::InvalidDataLength,
                DolPatchError::NoRoomForDataSegment,
                r,
                final(self).data(),
            ),
    {
        if bytes.len() & 0x1fusize != 0 {
            proof {
                lemma_low_five_bits(bytes@.len() as usize);
            }
            return Err(DolPatchError::InvalidDataLength);
        }
        proof {
            lemma_low_five_bits(bytes@.len() as usize);
        }
        match self.check_for_overlapping_segment(addr, bytes.len() as u32) {
            Ok(()) => {},
            Err(e) => {
                return Err(e);
            },
        }
        match first_empty(&self.data_segments) {
            Some(i) => {
                let ghost old_segs = self.data_segments@;
                self.data_segments.set(i, DolSegment::NewSegment(addr, bytes));
                proof {
                    assert(self.data() =~= old(self).data().update(i as int, SegmentView::New(addr, bytes@)));
                    assert forall|j: int| 0 <= j < i implies !(#[trigger] old(self).data()[j] is Empty) by {
                        assert(old(self).data()[j] == old_segs[j]@);
                    }
                    assert(old(self).data()[i as int] == old_segs[i as int]@);
                    lemma_update_keeps(old(self).data(), i as int, SegmentView::New(addr, bytes@));
                }
                Ok(())
            },
            None => {
                proof {
                    assert forall|j: int| 0 <= j < old(self).data().len() implies !(#[trigger] old(self).data()[j] is Empty) by {
                        assert(old(self).data()[j] == self.data_segments@[j]@);
                    }
                }
                Err(DolPatchError::NoRoomForDataSegment)
            },
        }
    }

    /// Adds a text segment of `bytes` at `addr` in the first unused text
    /// entry, as `add_data_segment` does for data.
    pub fn add_text_segment(&mut self, addr: u32, bytes: Vec<u8>) -> (r: Result<(), DolPatchError>)
        requires
            old(self).wf(),
            old(self).segments_fit(),
            bytes@.len() % 32 == 0 ==> addr + bytes@.len() <= u32::MAX,
        ensures
            final(self).wf(),
            final(self).segments_fit(),
            final(self).header() == old(self).header(),
            final(self).data() == old(self).data(),
            spec_add_outcome(
                old(self).text(),
                old(self).data(),
                old(self).text(),
                addr,
                bytes@,
                DolPatchError::InvalidTextLength,
                DolPatchError::NoRoomForTextSegment,
                r,
                final(self).text(),
            ),
    {
        if bytes.len() & 0x1fusize != 0 {
            proof {
                lemma_low_five_bits(bytes@.len() as usize);
            }
            return Err(DolPatchError::InvalidTextLength);
        }
        proof {
            lemma_low_five_bits(bytes@.len() as usize);
        }
        match self.check_for_overlapping_segment(addr, bytes.len() as u32) {
            Ok(()) => {},
            Err(e) => {
                return Err(e);
            },
        }
        match first_empty(&self.text_segments) {
            Some(i) => {
                let ghost old_segs = self.text_segments@;
                self.text_segments.set(i, DolSegment::NewSegment(addr, bytes));
                proof {
                    assert(self.text() =~= old(self).text().update(i as int, SegmentView::New(addr, bytes@)));
                    assert forall|j: int| 0 <= j < i implies !(#[trigger] old(self).text()[j] is Empty) by {
                        assert(old(self).text()[j] == old_segs[j]@);
                    }
                    assert(old(self).text()[i as int] == old_segs[i as int]@);
                    lemma_update_keeps(old(self).text(), i as int, SegmentView::New(addr, bytes@));
                }
                Ok(())
            },
            None => {
                proof {
                    assert forall|j: int| 0 <= j < old(self).text().len() implies !(#[trigger] old(self).text()[j] is Empty) by {
                        assert(old(self).text()[j] == self.text_segments@[j]@);
                    }
                }
                Err(DolPatchError::NoRoomForTextSegment)
            },
        }
    }
}

impl<'a> DolPatcher<'a> {
    /// Patches `data` into the first text segment, else the first data
    /// segment, that `start` lies strictly inside of and that holds all of
    /// `data`. It is refused where no segment holds it, where that segment was
    /// added, and where the patch overlaps an earlier patch of the segment.
    pub fn patch(&mut self, start: u32, data: Vec<u8>) -> (r: Result<(), DolPatchError>)
        requires
            old(self).wf(),
            data@.len() <= u32::MAX,
        ensures
            final(self).wf(),
            final(self).header() == old(self).header(),
            old(self).segments_fit() ==> final(self).segments_fit(),
            spec_patch_result(
                old(self).text(),
                old(self).data(),
                start,
                data@,
                r,
                final(self).text(),
                final(self).data(),
            ),
    {
        let len = data.len() as u32;
        proof {
            assert forall|j: int| 0 <= j < self.text_segments@.len() implies seg_len(#[trigger] self.text_segments@[j]@) <= u32::MAX by {
                assert(self.text()[j] == self.text_segments@[j]@);
            }
            assert forall|j: int| 0 <= j < self.data_segments@.len() implies seg_len(#[trigger] self.data_segments@[j]@) <= u32::MAX by {
                assert(self.data()[j] == self.data_segments@[j]@);
            }
        }
        match first_fit(&self.text_segments, start, len) {
            Some(i) => {
                proof {
                    assert(self.text()[i as int] == self.text_segments@[i as int]@);
                    assert forall|j: int| 0 <= j < i implies !spec_patch_fits(start as int, len as int, #[trigger] self.text()[j]) by {
                        assert(self.text()[j] == self.text_segments@[j]@);
                    }
                }
                let ghost bytes = data@;
                let r = patch_segment(&mut self.text_segments, i, start, data);
                proof {
                    lemma_patched_keeps(old(self).text(), i as int, start, bytes, r);
                    assert(spec_patch_target(old(self).text(), old(self).data(), start, len, true, i as int));
                    assert(self.text() == if r is Ok {
                        old(self).text().update(i as int, spec_patched_segment(old(self).text()[i as int], start, bytes))
                    } else {
                        old(self).text()
                    });
                }
                r
            },
            None => {
                proof {
                    assert forall|j: int| 0 <= j < self.text().len() implies !spec_patch_fits(start as int, len as int, #[trigger] self.text()[j]) by {
                        assert(self.text()[j] == self.text_segments@[j]@);
                    }
                }
                match first_fit(&self.data_segments, start, len) {
                    Some(i) => {
                        proof {
                            assert(self.data()[i as int] == self.data_segments@[i as int]@);
                            assert forall|j: int| 0 <= j < i implies !spec_patch_fits(start as int, len as int, #[trigger] self.data()[j]) by {
                                assert(self.data()[j] == self.data_segments@[j]@);
                            }
                        }
                        let ghost bytes = data@;
                        let r = patch_segment(&mut self.data_segments, i, start, data);
                        proof {
                            lemma_patched_keeps(old(self).data(), i as int, start, bytes, r);
                            assert(spec_patch_target(old(self).text(), old(self).data(), start, len, false, i as int));
                            assert(!exists|k: int| spec_patch_target(old(self).text(), old(self).data(), start, len, true, k));
                            assert(self.data() == if r is Ok {
                                old(self).data().update(i as int, spec_patched_segment(old(self).data()[i as int], start, bytes))
                            } else {
                                old(self).data()
                            });
                        }
                        r
                    },
                    None => {
                        proof {
                            assert forall|j: int| 0 <= j < self.data().len() implies !spec_patch_fits(start as int, len as int, #[trigger] self.data()[j]) by {
                                assert(self.data()[j] == self.data_segments@[j]@);
                            }
                        }
                        proof {
                            assert(!exists|k: int| spec_patch_target(old(self).text(), old(self).data(), start, len, true, k));
                            assert(!exists|k: int| spec_patch_target(old(self).text(), old(self).data(), start, len, false, k));
                        }
                        Err(DolPatchError::NoSegmentToPatch(start))
                    },
                }
            },
        }
    }
}

/// The outcome of a patch of `bytes` at `start`: it goes to its target
/// segment (`spec_patch_target`) and changes that segment alone, where it is
/// accepted; where no segment holds it, it is refused with its address.
pub open spec fn spec_patch_result(
    text: Seq<SegmentView>,
    data: Seq<SegmentView>,
    start: u32,
    bytes: Seq<u8>,
    r: Result<(), DolPatchError>,
    new_text: Seq<SegmentView>,
    new_data: Seq<SegmentView>,
) -> bool {
    let len = bytes.len() as u32;
    if exists|i: int| spec_patch_target(text, data, start, len, true, i) {
        exists|i: int|
            spec_patch_target(text, data, start, len, true, i) && r == spec_patch_outcome(text[i], start, bytes)
                && new_data == data && new_text == (if r is Ok {
                text.update(i, spec_patched_segment(text[i], start, bytes))
            } else {
                text
            })
    } else if exists|i: int| spec_patch_target(text, data, start, len, false, i) {
        exists|i: int|
            spec_patch_target(text, data, start, len, false, i) && r == spec_patch_outcome(data[i], start, bytes)
                && new_text == text && new_data == (if r is Ok {
                data.update(i, spec_patched_segment(data[i], start, bytes))
            } else {
                data
            })
    } else {
        r == Err::<(), DolPatchError>(DolPatchError::NoSegmentToPatch(start)) && new_text == text && new_data
            == data
    }
}

/// A patch within its segment keeps the list well formed and its segments'
/// ends where they were.
proof fn lemma_patched_keeps(segs: Seq<SegmentView>, i: int, start: u32, bytes: Seq<u8>, r: Result<(), DolPatchError>)
    requires
        0 <= i < segs.len(),
        spec_patch_fits(start as int, bytes.len() as int, segs[i]),
        spec_seg_wf(segs[i]),
    ensures
        spec_seg_wf(spec_patched_segment(segs[i], start, bytes)),
        seg_addr(spec_patched_segment(segs[i], start, bytes)) == seg_addr(segs[i]),
        seg_len(spec_patched_segment(segs[i], start, bytes)) == seg_len(segs[i]),
        (forall|j: int| 0 <= j < segs.len() ==> spec_seg_wf(#[trigger] segs[j])) ==> (forall|j: int|
            0 <= j < segs.len() ==> spec_seg_wf(#[trigger] segs.update(i, spec_patched_segment(segs[i], start, bytes))[j])),
        spec_segs_fit(segs) ==> spec_segs_fit(segs.update(i, spec_patched_segment(segs[i], start, bytes))),
{
    match segs[i] {
        SegmentView::Patched(addr, data, ps) => {
            let p: PatchView = (start - addr, bytes);
            lemma_insert_within(ps, p, data.len() as int);
            lemma_insert_sorted(ps, p);
        },
        _ => {},
    }
}

/// Applies a patch to segment `i`, which holds it.
fn patch_segment<'a>(segs: &mut Vec<DolSegment<'a>>, i: usize, start: u32, data: Vec<u8>) -> (r: Result<(), DolPatchError>)
    requires
        i < old(segs)@.len(),
        spec_patch_fits(start as int, data@.len() as int, old(segs)@[i as int]@),
        spec_seg_wf(old(segs)@[i as int]@),
    ensures
        r == spec_patch_outcome(old(segs)@[i as int]@, start, data@),
        seg_views(final(segs)@) == if r is Ok {
            seg_views(old(segs)@).update(i as int, spec_patched_segment(old(segs)@[i as int]@, start, data@))
        } else {
            seg_views(old(segs)@)
        },
{
    let ghost old_segs = segs@;
    let seg = segs.remove(i);
    match seg {
        DolSegment::PatchedSegment(addr, b) => {
            let mut b = b;
            let off = (start - addr) as usize;
            let res = b.try_patch(off, data);
            segs.insert(i, DolSegment::PatchedSegment(addr, b));
            assert(seg_views(segs@) =~= if res is Ok {
                seg_views(old_segs).update(i as int, spec_patched_segment(old_segs[i as int]@, start, data@))
            } else {
                seg_views(old_segs)
            });
            match res {
                Ok(()) => Ok(()),
                Err(_) => Err(DolPatchError::OverlappingPatches),
            }
        },
        DolSegment::NewSegment(addr, bytes) => {
            segs.insert(i, DolSegment::NewSegment(addr, bytes));
            assert(seg_views(segs@) =~= seg_views(old_segs));
            Err(DolPatchError::PatchInNewSegment)
        },
        DolSegment::EmptySegment => {
            segs.insert(i, DolSegment::EmptySegment);
            assert(seg_views(segs@) =~= seg_views(old_segs).update(i as int, spec_patched_segment(old_segs[i as int]@, start, data@)));
            Ok(())
        },
    }
}

/// The key the header orders segments by: the load address, with unused
/// entries last.
pub open spec fn seg_key(s: SegmentView) -> int {
    if s is Empty {
        0xFFFF_FFFF
    } else {
        seg_addr(s) as int
    }
}

/// `order` (indices into `segs`) with index `i` inserted after the last index
/// whose segment's key is at most that of segment `i`.
pub open spec fn spec_insert_index(order: Seq<int>, i: int, segs: Seq<SegmentView>) -> Seq<int>
    decreases order.len(),
{
    if order.len() == 0 {
        seq![i]
    } else if seg_key(segs[order.last()]) <= seg_key(segs[i]) {
        order.push(i)
    } else {
        spec_insert_index(order.drop_last(), i, segs).push(order.last())
    }
}

/// The indices of the first `n` segments, ordered by key; segments with equal
/// keys keep their order.
pub open spec fn spec_order(segs: Seq<SegmentView>, n: nat) -> Seq<int>
    decreases n,
{
    if n == 0 {
        Seq::empty()
    } else {
        spec_insert_index(spec_order(segs, (n - 1) as nat), n - 1, segs)
    }
}

/// The segments ordered by key.
pub open spec fn spec_sorted_segments(segs: Seq<SegmentView>) -> Seq<SegmentView> {
    spec_order(segs, segs.len()).map_values(|i: int| segs[i])
}

/// The segments in the order the header lists them: the text segments
/// ordered by key, then the data segments ordered by key.
pub open spec fn spec_layout(text: Seq<SegmentView>, data: Seq<SegmentView>) -> Seq<SegmentView> {
    spec_sorted_segments(text) + spec_sorted_segments(data)
}

/// The total size of the segments.
pub open spec fn spec_total_len(segs: Seq<SegmentView>) -> int
    decreases segs.len(),
{
    if segs.len() == 0 {
        0
    } else {
        seg_len(segs[0]) + spec_total_len(segs.drop_first())
    }
}

/// The file offsets the header lists, from `offset` on: each segment's bytes
/// follow those of the segments before it; an unused entry lists 0.
pub open spec fn spec_offsets(segs: Seq<SegmentView>, offset: int) -> Seq<u8>
    decreases segs.len(),
{
    if segs.len() == 0 {
        Seq::empty()
    } else {
        be_bytes_u32(
            if segs[0] is Empty {
                0
            } else {
                offset as u32
            },
        ) + spec_offsets(segs.drop_first(), offset + seg_len(segs[0]))
    }
}

/// The big-endian words of `ws`, one after the other.
pub open spec fn spec_words(ws: Seq<u32>) -> Seq<u8>
    decreases ws.len(),
{
    if ws.len() == 0 {
        Seq::empty()
    } else {
        be_bytes_u32(ws[0]) + spec_words(ws.drop_first())
    }
}

/// The bytes of the segments, one after the other.
pub open spec fn spec_body(segs: Seq<SegmentView>) -> Seq<u8>
    decreases segs.len(),
{
    if segs.len() == 0 {
        Seq::empty()
    } else {
        seg_contents(segs[0]) + spec_body(segs.drop_first())
    }
}

/// The DOL header for segments laid out as `segs`: their offsets, load
/// addresses and sizes, the BSS address and size and the entry point, padded
/// with zeros to 0x100 bytes.
pub open spec fn spec_header(segs: Seq<SegmentView>, header: (u32, u32, u32)) -> Seq<u8> {
    spec_offsets(segs, 0x100) + spec_words(segs.map_values(|s: SegmentView| seg_addr(s)))
        + spec_words(segs.map_values(|s: SegmentView| seg_len(s) as u32)) + be_bytes_u32(header.0)
        + be_bytes_u32(header.1) + be_bytes_u32(header.2) + Seq::new(28, |i: int| 0u8)
}

/// Inserting at the position found by scanning from the end.
proof fn lemma_insert_index_at(order: Seq<int>, i: int, segs: Seq<SegmentView>, idx: int)
    requires
        0 <= idx <= order.len(),
        idx == 0 || seg_key(segs[order[idx - 1]]) <= seg_key(segs[i]),
        forall|k: int| idx <= k < order.len() ==> seg_key(segs[order[k]]) > seg_key(segs[i]),
    ensures
        spec_insert_index(order, i, segs) == order.insert(idx, i),
    decreases order.len(),
{
    if order.len() == 0 {
        assert(order.insert(idx, i) =~= seq![i]);
    } else if idx == order.len() {
        assert(order.insert(idx, i) =~= order.push(i));
    } else {
        lemma_insert_index_at(order.drop_last(), i, segs, idx);
        assert(order.drop_last().insert(idx, i).push(order.last()) =~= order.insert(idx, i));
    }
}

/// The order holds `n` indices, each below `n`.
proof fn lemma_order_bounds(segs: Seq<SegmentView>, n: nat)
    ensures
        spec_order(segs, n).len() == n,
        forall|k: int| 0 <= k < n ==> 0 <= #[trigger] spec_order(segs, n)[k] < n,
    decreases n,
{
    if n > 0 {
        lemma_order_bounds(segs, (n - 1) as nat);
        lemma_insert_index_bounds(spec_order(segs, (n - 1) as nat), n - 1, segs, n - 1);
    }
}

/// Inserting an index keeps every index below the bound.
proof fn lemma_insert_index_bounds(order: Seq<int>, i: int, segs: Seq<SegmentView>, bound: int)
    requires
        0 <= i < bound + 1,
        forall|k: int| 0 <= k < order.len() ==> 0 <= #[trigger] order[k] < bound,
    ensures
        spec_insert_index(order, i, segs).len() == order.len() + 1,
        forall|k: int|
            0 <= k < order.len() + 1 ==> 0 <= #[trigger] spec_insert_index(order, i, segs)[k] < bound + 1,
    decreases order.len(),
{
    if order.len() > 0 && seg_key(segs[order.last()]) > seg_key(segs[i]) {
        lemma_insert_index_bounds(order.drop_last(), i, segs, bound);
    }
}

impl<'a> DolPatcher<'a> {
    /// The size of the patched DOL as the header lists it: 0x100 for the
    /// header and the size of every segment.
    pub fn len(&self) -> (r: usize)
        requires
            self.wf(),
            spec_total_len(self.data() + self.text()) <= u32::MAX,
            0x100 + spec_total_len(self.data() + self.text()) <= usize::MAX,
        ensures
            r == 0x100 + spec_total_len(self.data() + self.text()),
    {
        let ghost all = self.data() + self.text();
        let mut total: u32 = 0;
        let mut k: usize = 0;
        proof {
            assert(all.skip(0) =~= all);
        }
        while k < 18
            invariant
                0 <= k <= 18,
                self.wf(),
                all == self.data() + self.text(),
                spec_total_len(all) <= u32::MAX,
                0x100 + spec_total_len(all) <= usize::MAX,
                total + spec_total_len(all.skip(k as int)) == spec_total_len(all),
            decreases 18 - k,
        {
            let seg = if k < 11 {
                &self.data_segments[k]
            } else {
                &self.text_segments[k - 11]
            };
            proof {
                if k < 11 {
                    assert(all[k as int] == self.data()[k as int]);
                    assert(self.data()[k as int] == self.data_segments@[k as int]@);
                } else {
                    assert(all[k as int] == self.text()[k - 11]);
                    assert(self.text()[k - 11] == self.text_segments@[k - 11]@);
                }
                assert(all.skip(k as int).drop_first() =~= all.skip(k + 1));
                assert(all.skip(k as int)[0] == all[k as int]);
                lemma_total_len_nonneg(all.skip(k + 1));
                assert(spec_seg_wf(seg@));
            }
            total = total + seg.len();
            k = k + 1;
        }
        proof {
            assert(all.skip(18) =~= Seq::<SegmentView>::empty());
        }
        0x100 + total as usize
    }

    /// The segment at position `p` of the header's layout.
    fn seg_at<'s>(&'s self, text_order: &Vec<usize>, data_order: &Vec<usize>, p: usize) -> (r: &'s DolSegment<'a>)
        requires
            self.wf(),
            p < 18,
            text_order@.map_values(|i: usize| i as int) == spec_order(self.text(), 7),
            data_order@.map_values(|i: usize| i as int) == spec_order(self.data(), 11),
        ensures
            r@ == spec_layout(self.text(), self.data())[p as int],
    {
        proof {
            lemma_order_bounds(self.text(), 7);
            lemma_order_bounds(self.data(), 11);
        }
        if p < 7 {
            let i = text_order[p];
            assert(i as int == spec_order(self.text(), 7)[p as int]);
            assert(self.text()[i as int] == self.text_segments@[i as int]@);
            &self.text_segments[i]
        } else {
            let i = data_order[p - 7];
            assert(i as int == spec_order(self.data(), 11)[p - 7]);
            assert(self.data()[i as int] == self.data_segments@[i as int]@);
            &self.data_segments[i]
        }
    }

    /// The patched DOL: a header listing the text segments ordered by load
    /// address, then the data segments ordered by load address (unused
    /// entries last), followed by the bytes of every used segment in that
    /// order, with its patches applied.
    pub fn to_bytes(&self) -> (r: Vec<u8>)
        requires
            self.wf(),
            0x100 + spec_total_len(spec_layout(self.text(), self.data())) <= u32::MAX,
        ensures
            r@ == spec_header(spec_layout(self.text(), self.data()), self.header()) + spec_body(
                spec_layout(self.text(), self.data()),
            ),
    {
        let text_order = segment_order(&self.text_segments);
        let data_order = segment_order(&self.data_segments);
        let ghost layout = spec_layout(self.text(), self.data());
        proof {
            lemma_order_bounds(self.text(), 7);
            lemma_order_bounds(self.data(), 11);
            assert(layout.len() == 18);
        }
        let mut w: VecWriter<byteorder::BigEndian> = VecWriter::new();
        // file offsets
        let mut offset: u32 = 0x100;
        let mut p: usize = 0;
        proof {
            assert(layout.skip(0) =~= layout);
        }
        while p < 18
            invariant
                0 <= p <= 18,
                self.wf(),
                layout == spec_layout(self.text(), self.data()),
                layout.len() == 18,
                text_order@.map_values(|i: usize| i as int) == spec_order(self.text(), 7),
                data_order@.map_values(|i: usize| i as int) == spec_order(self.data(), 11),
                0x100 + spec_total_len(layout) <= u32::MAX,
                offset + spec_total_len(layout.skip(p as int)) == 0x100 + spec_total_len(layout),
                w@ + spec_offsets(layout.skip(p as int), offset as int) == spec_offsets(layout, 0x100),
            decreases 18 - p,
        {
            let seg = self.seg_at(&text_order, &data_order, p);
            proof {
                assert(layout.skip(p as int)[0] == layout[p as int]);
                assert(layout.skip(p as int).drop_first() =~= layout.skip(p + 1));
                lemma_total_len_nonneg(layout.skip(p + 1));
                lemma_layout_wf(self.text(), self.data(), p as int);
            }
            if !seg.is_empty() {
                w.write_u32(offset);
            } else {
                w.write_u32(0);
            }
            offset = offset + seg.len();
            p = p + 1;
            proof {
                assert(w@ + spec_offsets(layout.skip(p as int), offset as int) =~= spec_offsets(layout, 0x100));
            }
        }
        let ghost addrs = layout.map_values(|s: SegmentView| seg_addr(s));
        let ghost lens = layout.map_values(|s: SegmentView| seg_len(s) as u32);
        let ghost offsets_bytes = w@;
        proof {
            assert(layout.skip(18) =~= Seq::<SegmentView>::empty());
            assert(offsets_bytes == spec_offsets(layout, 0x100));
        }
        // load addresses
        p = 0;
        proof {
            assert(addrs.skip(0) =~= addrs);
        }
        while p < 18
            invariant
                0 <= p <= 18,
                self.wf(),
                layout == spec_layout(self.text(), self.data()),
                layout.len() == 18,
                addrs == layout.map_values(|s: SegmentView| seg_addr(s)),
                text_order@.map_values(|i: usize| i as int) == spec_order(self.text(), 7),
                data_order@.map_values(|i: usize| i as int) == spec_order(self.data(), 11),
                w@ + spec_words(addrs.skip(p as int)) == offsets_bytes + spec_words(addrs),
            decreases 18 - p,
        {
            let seg = self.seg_at(&text_order, &data_order, p);
            proof {
                assert(addrs.skip(p as int)[0] == addrs[p as int]);
                assert(addrs.skip(p as int).drop_first() =~= addrs.skip(p + 1));
            }
            w.write_u32(seg.addr());
            p = p + 1;
            proof {
                assert(w@ + spec_words(addrs.skip(p as int)) =~= offsets_bytes + spec_words(addrs));
            }
        }
        let ghost addr_bytes = w@;
        proof {
            assert(addrs.skip(18) =~= Seq::<u32>::empty());
        }
        // sizes
        p = 0;
        proof {
            assert(lens.skip(0) =~= lens);
        }
        while p < 18
            invariant
                0 <= p <= 18,
                self.wf(),
                layout == spec_layout(self.text(), self.data()),
                layout.len() == 18,
                lens == layout.map_values(|s: SegmentView| seg_len(s) as u32),
                text_order@.map_values(|i: usize| i as int) == spec_order(self.text(), 7),
                data_order@.map_values(|i: usize| i as int) == spec_order(self.data(), 11),
                w@ + spec_words(lens.skip(p as int)) == addr_bytes + spec_words(lens),
            decreases 18 - p,
        {
            let seg = self.seg_at(&text_order, &data_order, p);
            proof {
                assert(lens.skip(p as int)[0] == lens[p as int]);
                assert(lens.skip(p as int).drop_first() =~= lens.skip(p + 1));
                lemma_layout_wf(self.text(), self.data(), p as int);
            }
            w.write_u32(seg.len());
            p = p + 1;
            proof {
                assert(w@ + spec_words(lens.skip(p as int)) =~= addr_bytes + spec_words(lens));
            }
        }
        proof {
            assert(lens.skip(18) =~= Seq::<u32>::empty());
        }
        w.write_u32(self.bss_addr);
        w.write_u32(self.bss_size);
        w.write_u32(self.entry_point);
        let pad: Vec<u8> = vec![0u8; 28];
        w.write_bytes(pad.as_slice());
        proof {
            assert(pad@ =~= Seq::new(28, |i: int| 0u8));
            assert(w@ =~= spec_header(layout, self.header()));
        }
        let ghost header_bytes = w@;
        // segment bytes
        p = 0;
        proof {
            assert(layout.skip(0) =~= layout);
        }
        while p < 18
            invariant
                0 <= p <= 18,
                self.wf(),
                layout == spec_layout(self.text(), self.data()),
                layout.len() == 18,
                text_order@.map_values(|i: usize| i as int) == spec_order(self.text(), 7),
                data_order@.map_values(|i: usize| i as int) == spec_order(self.data(), 11),
                w@ + spec_body(layout.skip(p as int)) == header_bytes + spec_body(layout),
            decreases 18 - p,
        {
            let seg = self.seg_at(&text_order, &data_order, p);
            proof {
                assert(layout.skip(p as int)[0] == layout[p as int]);
                assert(layout.skip(p as int).drop_first() =~= layout.skip(p + 1));
                lemma_layout_wf(self.text(), self.data(), p as int);
            }
            match seg {
                DolSegment::PatchedSegment(_, b) => {
                    proof {
                        crate::binary_patcher::lemma_within_output_ok(b@.1, b@.0.len() as int, 0);
                    }
                    let bytes = b.build_bytes();
                    w.write_bytes(bytes.as_slice());
                },
                DolSegment::NewSegment(_, bytes) => {
                    w.write_bytes(bytes.as_slice());
                },
                DolSegment::EmptySegment => {},
            }
            p = p + 1;
            proof {
                assert(w@ + spec_body(layout.skip(p as int)) =~= header_bytes + spec_body(layout));
            }
        }
        proof {
            assert(layout.skip(18) =~= Seq::<SegmentView>::empty());
        }
        w.into_bytes()
    }
}

/// Sizes add up to no less than zero.
proof fn lemma_total_len_nonneg(segs: Seq<SegmentView>)
    ensures
        spec_total_len(segs) >= 0,
    decreases segs.len(),
{
    if segs.len() > 0 {
        lemma_total_len_nonneg(segs.drop_first());
    }
}

/// Every segment of the layout is one of the patcher's, so well formed.
proof fn lemma_layout_wf(text: Seq<SegmentView>, data: Seq<SegmentView>, p: int)
    requires
        text.len() == 7,
        data.len() == 11,
        0 <= p < 18,
        forall|i: int| 0 <= i < text.len() ==> spec_seg_wf(#[trigger] text[i]),
        forall|i: int| 0 <= i < data.len() ==> spec_seg_wf(#[trigger] data[i]),
    ensures
        spec_seg_wf(spec_layout(text, data)[p]),
{
    lemma_order_bounds(text, 7);
    lemma_order_bounds(data, 11);
    if p < 7 {
        assert(spec_layout(text, data)[p] == text[spec_order(text, 7)[p]]);
    } else {
        assert(spec_layout(text, data)[p] == data[spec_order(data, 11)[p - 7]]);
    }
}

/// The key a segment is ordered by.
fn segment_key<'a>(s: &DolSegment<'a>) -> (r: u32)
    ensures
        r == seg_key(s@),
{
    if s.is_empty() {
        0xFFFF_FFFF
    } else {
        s.addr()
    }
}

/// The indices of the segments, ordered by key; equal keys keep their order.
fn segment_order<'a>(segs: &Vec<DolSegment<'a>>) -> (r: Vec<usize>)
    ensures
        r@.map_values(|i: usize| i as int) == spec_order(seg_views(segs@), segs@.len()),
{
    let ghost views = seg_views(segs@);
    let mut order: Vec<usize> = Vec::new();
    let mut n: usize = 0;
    proof {
        assert(order@.map_values(|i: usize| i as int) =~= spec_order(views, 0));
    }
    while n < segs.len()
        invariant
            0 <= n <= segs@.len(),
            views == seg_views(segs@),
            order@.map_values(|i: usize| i as int) == spec_order(views, n as nat),
        decreases segs@.len() - n,
    {
        let ghost o = order@.map_values(|i: usize| i as int);
        proof {
            lemma_order_bounds(views, n as nat);
        }
        let key = segment_key(&segs[n]);
        assert(views[n as int] == segs@[n as int]@);
        assert forall|k: int| 0 <= k < order@.len() implies (#[trigger] order@[k]) < n by {
            assert(o[k] == order@[k] as int);
        }
        let mut idx: usize = order.len();
        while idx > 0 && segment_key(&segs[order[idx - 1]]) > key
            invariant
                0 <= idx <= order@.len(),
                o == order@.map_values(|i: usize| i as int),
                o.len() == n,
                views == seg_views(segs@),
                key == seg_key(views[n as int]),
                forall|k: int| 0 <= k < n ==> 0 <= #[trigger] o[k] < n,
                forall|k: int| 0 <= k < order@.len() ==> (#[trigger] order@[k]) < n,
                n < segs@.len(),
                forall|k: int| idx <= k < o.len() ==> seg_key(views[o[k]]) > seg_key(views[n as int]),
            decreases idx,
        {
            assert(o[idx - 1] == order@[idx - 1] as int);
            assert(views[o[idx - 1]] == segs@[order@[idx - 1] as int]@);
            idx = idx - 1;
        }
        proof {
            if idx > 0 {
                assert(o[idx - 1] == order@[idx - 1] as int);
                assert(views[o[idx - 1]] == segs@[order@[idx - 1] as int]@);
            }
            lemma_insert_index_at(o, n as int, views, idx as int);
        }
        order.insert(idx, n);
        proof {
            assert(order@.map_values(|i: usize| i as int) =~= o.insert(idx as int, n as int));
        }
        n = n + 1;
    }
    order
}

/// Whether a new segment of `len` bytes at `addr` overlaps none of the
/// segments.
pub open spec fn spec_overlap_free(text: Seq<SegmentView>, data: Seq<SegmentView>, addr: u32, len: u32) -> bool {
    (forall|j: int| 0 <= j < data.len() ==> !spec_seg_overlaps(addr as int, len as int, #[trigger] data[j]))
        && (forall|j: int| 0 <= j < text.len() ==> !spec_seg_overlaps(addr as int, len as int, #[trigger] text[j]))
}

/// The outcome of adding a segment of `bytes` at `addr` to the list `segs`
/// (one of `text` and `data`): refused where its length is no multiple of
/// 32, then for an
/// overlap, then where no entry of `segs` is unused; else it goes to the
/// first unused entry.
pub open spec fn spec_add_outcome(
    text: Seq<SegmentView>,
    data: Seq<SegmentView>,
    segs: Seq<SegmentView>,
    addr: u32,
    bytes: Seq<u8>,
    invalid: DolPatchError,
    no_room: DolPatchError,
    r: Result<(), DolPatchError>,
    new_segs: Seq<SegmentView>,
) -> bool {
    if bytes.len() % 32 != 0 {
        r == Err::<(), DolPatchError>(invalid) && new_segs == segs
    } else if !spec_overlap_free(text, data, addr, bytes.len() as u32) {
        r is Err && spec_overlap_check(text, data, addr, bytes.len() as u32, r) && new_segs == segs
    } else if exists|i: int| 0 <= i < segs.len() && #[trigger] segs[i] is Empty {
        exists|i: int|
            0 <= i < segs.len() && segs[i] is Empty && (forall|j: int| 0 <= j < i ==> !(#[trigger] segs[j] is Empty))
                && r is Ok && new_segs == segs.update(i, SegmentView::New(addr, bytes))
    } else {
        r == Err::<(), DolPatchError>(no_room) && new_segs == segs
    }
}

/// `n & 0x1f` is nonzero exactly where `n` is no multiple of 32.
proof fn lemma_low_five_bits(n: usize)
    ensures
        (n & 0x1fusize != 0) <==> n % 32 != 0,
{
    assert((n & 0x1fusize != 0) <==> n % 32 != 0) by (bit_vector);
}

/// Replacing a segment by a well-formed one that fits keeps the list so.
proof fn lemma_update_keeps(segs: Seq<SegmentView>, i: int, s: SegmentView)
    requires
        0 <= i < segs.len(),
        spec_seg_wf(s),
        seg_addr(s) + seg_len(s) <= u32::MAX,
    ensures
        (forall|j: int| 0 <= j < segs.len() ==> spec_seg_wf(#[trigger] segs[j])) ==> (forall|j: int|
            0 <= j < segs.len() ==> spec_seg_wf(#[trigger] segs.update(i, s)[j])),
        spec_segs_fit(segs) ==> spec_segs_fit(segs.update(i, s)),
{
}

/// The big-endian word at `off`.
fn read_word(data: &[u8], off: usize) -> (r: u32)
    requires
        off + 4 <= data@.len(),
    ensures
        r == spec_word(data@, off as int),
{
    let _n = data.len();
    let s = slice_range(data, off, off + 4);
    byteorder::BigEndian::from_bytes_u32(s)
}

/// `data[from..to]`.
fn slice_range<'b>(data: &'b [u8], from: usize, to: usize) -> (r: &'b [u8])
    requires
        from <= to <= data@.len(),
    ensures
        r@ == data@.subrange(from as int, to as int),
{
    let (left, _) = data.split_at(to);
    let (_, right) = left.split_at(from);
    assert(right@ =~= data@.subrange(from as int, to as int));
    right
}

/// Header entry `k`, as `spec_parse_segment` reads it.
fn parse_segment<'a>(data: &'a [u8], k: usize) -> (r: Option<DolSegment<'a>>)
    requires
        k < 18,
        data@.len() >= DOL_HEADER_SIZE,
    ensures
        match r {
            Some(s) => spec_parse_segment(data@, k as int) == Some(s@) && spec_seg_wf(s@),
            None => spec_parse_segment(data@, k as int) is None,
        },
{
    let offset = read_word(data, 4 * k);
    let addr = read_word(data, 0x48 + 4 * k);
    let size = read_word(data, 0x90 + 4 * k);
    if addr == 0 {
        Some(DolSegment::EmptySegment)
    } else if (offset as u64) + (size as u64) <= data.len() as u64 {
        let bytes = slice_range(data, offset as usize, (offset as usize) + (size as usize));
        let b = PatchedBinaryBuilder::new(bytes);
        proof {
            assert(spec_sorted(b@.1));
            assert(spec_within(b@.1, b@.0.len() as int));
        }
        Some(DolSegment::PatchedSegment(addr, b))
    } else {
        None
    }
}

/// The offsets `spec_offsets` lists: 18 words, entry `k` the offset of
/// segment `k`'s bytes (0 for an unused entry).
proof fn lemma_offsets_word(segs: Seq<SegmentView>, off: int, k: int)
    requires
        0 <= k < segs.len(),
    ensures
        spec_offsets(segs, off).len() == 4 * segs.len(),
        spec_offsets(segs, off).subrange(4 * k, 4 * k + 4) == be_bytes_u32(
            if segs[k] is Empty {
                0
            } else {
                (off + spec_total_len(segs.take(k))) as u32
            },
        ),
    decreases k,
{
    lemma_offsets_len(segs, off);
    let rest = segs.drop_first();
    lemma_offsets_len(rest, off + seg_len(segs[0]));
    if k == 0 {
        assert(segs.take(0) =~= Seq::<SegmentView>::empty());
        assert(spec_offsets(segs, off).subrange(0, 4) =~= be_bytes_u32(
            if segs[0] is Empty {
                0
            } else {
                off as u32
            },
        ));
    } else {
        lemma_offsets_word(rest, off + seg_len(segs[0]), k - 1);
        assert(segs.take(k).drop_first() =~= rest.take(k - 1));
        assert(segs.take(k)[0] == segs[0]);
        assert(spec_offsets(segs, off).subrange(4 * k, 4 * k + 4) =~= spec_offsets(
            rest,
            off + seg_len(segs[0]),
        ).subrange(4 * (k - 1), 4 * (k - 1) + 4));
    }
}

proof fn lemma_offsets_len(segs: Seq<SegmentView>, off: int)
    ensures
        spec_offsets(segs, off).len() == 4 * segs.len(),
    decreases segs.len(),
{
    if segs.len() > 0 {
        lemma_offsets_len(segs.drop_first(), off + seg_len(segs[0]));
    }
}

/// The words `spec_words` lists: word `k` is the `k`-th value.
proof fn lemma_words_word(ws: Seq<u32>, k: int)
    requires
        0 <= k < ws.len(),
    ensures
        spec_words(ws).len() == 4 * ws.len(),
        spec_words(ws).subrange(4 * k, 4 * k + 4) == be_bytes_u32(ws[k]),
    decreases k,
{
    lemma_words_len(ws);
    lemma_words_len(ws.drop_first());
    if k == 0 {
        assert(spec_words(ws).subrange(0, 4) =~= be_bytes_u32(ws[0]));
    } else {
        lemma_words_word(ws.drop_first(), k - 1);
        assert(spec_words(ws).subrange(4 * k, 4 * k + 4) =~= spec_words(ws.drop_first()).subrange(
            4 * (k - 1),
            4 * (k - 1) + 4,
        ));
    }
}

proof fn lemma_words_len(ws: Seq<u32>)
    ensures
        spec_words(ws).len() == 4 * ws.len(),
    decreases ws.len(),
{
    if ws.len() > 0 {
        lemma_words_len(ws.drop_first());
    }
}

/// Whether a segment contributes as many bytes as it lists: its patches,
/// if any, lie within it and do not overlap.
pub open spec fn spec_seg_exact(s: SegmentView) -> bool {
    s matches SegmentView::Patched(_, data, ps) ==> spec_sorted(ps) && spec_disjoint(ps) && spec_within(
        ps,
        data.len() as int,
    )
}

/// The bytes of the segments: segment `k`'s lie after those of the segments
/// before it.
proof fn lemma_body_segment(segs: Seq<SegmentView>, k: int)
    requires
        0 <= k < segs.len(),
        forall|i: int| 0 <= i < segs.len() ==> spec_seg_exact(#[trigger] segs[i]),
    ensures
        spec_body(segs).len() == spec_total_len(segs),
        0 <= spec_total_len(segs.take(k)),
        spec_total_len(segs.take(k)) + seg_len(segs[k]) <= spec_total_len(segs),
        spec_body(segs).subrange(spec_total_len(segs.take(k)), spec_total_len(segs.take(k)) + seg_len(segs[k]))
            == seg_contents(segs[k]),
    decreases k,
{
    lemma_body_len(segs);
    let rest = segs.drop_first();
    lemma_body_len(rest);
    lemma_contents_len(segs[0]);
    lemma_total_len_nonneg(rest);
    if k == 0 {
        assert(segs.take(0) =~= Seq::<SegmentView>::empty());
        assert(spec_body(segs).subrange(0, seg_len(segs[0])) =~= seg_contents(segs[0]));
    } else {
        assert forall|i: int| 0 <= i < rest.len() implies spec_seg_exact(#[trigger] rest[i]) by {
            assert(rest[i] == segs[i + 1]);
        }
        lemma_body_segment(rest, k - 1);
        assert(segs.take(k).drop_first() =~= rest.take(k - 1));
        assert(segs.take(k)[0] == segs[0]);
        let t = spec_total_len(rest.take(k - 1));
        assert(spec_body(segs).subrange(seg_len(segs[0]) + t, seg_len(segs[0]) + t + seg_len(segs[k]))
            =~= spec_body(rest).subrange(t, t + seg_len(rest[k - 1])));
    }
}

proof fn lemma_contents_len(s: SegmentView)
    requires
        spec_seg_exact(s),
    ensures
        seg_contents(s).len() == seg_len(s),
{
    if let SegmentView::Patched(_, data, ps) = s {
        lemma_output_reads_back(data, ps);
    }
}

proof fn lemma_body_len(segs: Seq<SegmentView>)
    requires
        forall|i: int| 0 <= i < segs.len() ==> spec_seg_exact(#[trigger] segs[i]),
    ensures
        spec_body(segs).len() == spec_total_len(segs),
    decreases segs.len(),
{
    if segs.len() > 0 {
        let rest = segs.drop_first();
        assert forall|i: int| 0 <= i < rest.len() implies spec_seg_exact(#[trigger] rest[i]) by {
            assert(rest[i] == segs[i + 1]);
        }
        lemma_body_len(rest);
        lemma_contents_len(segs[0]);
    }
}

/// A patched DOL reads back as its segments: in the bytes of a header and
/// body laid out for 18 segments, header entry `k`, parsed as
/// `DolPatcher::new` parses it, is segment `k` with its patches applied (an
/// unused entry stays unused), and the BSS address and size and the entry
/// point are those given; where no used segment has load address 0, every
/// segment's patches are disjoint, and the file fits in 32 bits.
pub proof fn lemma_dol_reads_back(layout: Seq<SegmentView>, header: (u32, u32, u32), k: int)
    requires
        layout.len() == 18,
        0 <= k < 18,
        forall|i: int| 0 <= i < 18 ==> spec_seg_exact(#[trigger] layout[i]),
        forall|i: int| 0 <= i < 18 ==> (#[trigger] layout[i] is Empty || seg_addr(layout[i]) != 0),
        0x100 + spec_total_len(layout) <= u32::MAX,
    ensures
        ({
            let d = spec_header(layout, header) + spec_body(layout);
            &&& spec_parse_segment(d, k) == Some(
                if layout[k] is Empty {
                    SegmentView::Empty
                } else {
                    SegmentView::Patched(seg_addr(layout[k]), seg_contents(layout[k]), Seq::empty())
                },
            )
            &&& (spec_word(d, 0xd8), spec_word(d, 0xdc), spec_word(d, 0xe0)) == header
        }),
{
    let offsets = spec_offsets(layout, 0x100);
    let addrs = layout.map_values(|s: SegmentView| seg_addr(s));
    let sizes = layout.map_values(|s: SegmentView| seg_len(s) as u32);
    let h = spec_header(layout, header);
    let body = spec_body(layout);
    let d = h + body;
    lemma_offsets_word(layout, 0x100, k);
    lemma_words_word(addrs, k);
    lemma_words_word(sizes, k);
    lemma_body_segment(layout, k);
    assert(h.len() == 0x100);
    let t = spec_total_len(layout.take(k));
    let len = seg_len(layout[k]);
    let off_word: u32 = if layout[k] is Empty {
        0
    } else {
        (0x100 + t) as u32
    };
    assert(d.subrange(4 * k, 4 * k + 4) =~= offsets.subrange(4 * k, 4 * k + 4));
    assert(d.subrange(0x48 + 4 * k, 0x48 + 4 * k + 4) =~= spec_words(addrs).subrange(4 * k, 4 * k + 4));
    assert(d.subrange(0x90 + 4 * k, 0x90 + 4 * k + 4) =~= spec_words(sizes).subrange(4 * k, 4 * k + 4));
    lemma_u32_roundtrip(true, off_word);
    lemma_u32_roundtrip(true, addrs[k]);
    lemma_u32_roundtrip(true, sizes[k]);
    assert(encode_u32(true, off_word) == be_bytes_u32(off_word));
    assert(spec_word(d, 4 * k) == off_word);
    assert(spec_word(d, 0x48 + 4 * k) == seg_addr(layout[k]));
    assert(spec_word(d, 0x90 + 4 * k) == len as u32);
    if !(layout[k] is Empty) {
        assert(d.subrange(0x100 + t, 0x100 + t + len) =~= body.subrange(t, t + len));
    }
    assert(d.subrange(0xd8, 0xdc) =~= be_bytes_u32(header.0));
    assert(d.subrange(0xdc, 0xe0) =~= be_bytes_u32(header.1));
    assert(d.subrange(0xe0, 0xe4) =~= be_bytes_u32(header.2));
    lemma_u32_roundtrip(true, header.0);
    lemma_u32_roundtrip(true, header.1);
    lemma_u32_roundtrip(true, header.2);
}


/// Whether the segments that `order` points to come in order of key.
pub open spec fn spec_keys_sorted(order: Seq<int>, segs: Seq<SegmentView>) -> bool {
    forall|a: int, b: int| 0 <= a < b < order.len() ==> seg_key(segs[order[a]]) <= seg_key(segs[order[b]])
}

/// Inserting an index keeps the order sorted, adds just that index, and
/// keeps the indices distinct where it was not there yet.
proof fn lemma_insert_index_sorted(order: Seq<int>, i: int, segs: Seq<SegmentView>)
    requires
        spec_keys_sorted(order, segs),
    ensures
        spec_keys_sorted(spec_insert_index(order, i, segs), segs),
        spec_insert_index(order, i, segs).len() == order.len() + 1,
        forall|x: int| #[trigger] spec_insert_index(order, i, segs).contains(x) <==> (order.contains(x) || x == i),
        (forall|a: int, b: int| 0 <= a < b < order.len() ==> order[a] != order[b]) && !order.contains(i) ==> forall|
            a: int,
            b: int,
        | 0 <= a < b < order.len() + 1 ==> spec_insert_index(order, i, segs)[a] != spec_insert_index(order, i, segs)[b],
    decreases order.len(),
{
    let r = spec_insert_index(order, i, segs);
    if order.len() == 0 {
        assert(r =~= seq![i]);
        assert forall|x: int| #[trigger] r.contains(x) <==> (order.contains(x) || x == i) by {
            if r.contains(x) {
                assert(r[0] == i);
            }
            if x == i {
                assert(r[0] == x);
            }
        }
    } else if seg_key(segs[order.last()]) <= seg_key(segs[i]) {
        assert(r == order.push(i));
        assert forall|x: int| #[trigger] r.contains(x) <==> (order.contains(x) || x == i) by {
            if r.contains(x) {
                let k = choose|k: int| 0 <= k < r.len() && r[k] == x;
                if k < order.len() {
                    assert(order[k] == x);
                }
            }
            if order.contains(x) {
                let k = choose|k: int| 0 <= k < order.len() && order[k] == x;
                assert(r[k] == x);
            }
            if x == i {
                assert(r[order.len() as int] == x);
            }
        }
    } else {
        let front = order.drop_last();
        let last = order.last();
        assert(spec_keys_sorted(front, segs));
        lemma_insert_index_sorted(front, i, segs);
        let rf = spec_insert_index(front, i, segs);
        assert(r == rf.push(last));
        assert forall|a: int| 0 <= a < rf.len() implies seg_key(segs[rf[a]]) <= seg_key(segs[last]) by {
            assert(rf.contains(rf[a]));
            if rf[a] != i {
                let k = choose|k: int| 0 <= k < front.len() && front[k] == rf[a];
                assert(order[k] == front[k]);
                assert(order[order.len() - 1] == last);
            }
        }
        assert(spec_keys_sorted(r, segs));
        assert forall|x: int| #[trigger] r.contains(x) <==> (order.contains(x) || x == i) by {
            if r.contains(x) {
                let k = choose|k: int| 0 <= k < r.len() && r[k] == x;
                if k < rf.len() {
                    assert(rf.contains(x));
                    if front.contains(x) {
                        let m = choose|m: int| 0 <= m < front.len() && front[m] == x;
                        assert(order[m] == x);
                    }
                } else {
                    assert(order[order.len() - 1] == x);
                }
            }
            if order.contains(x) {
                let k = choose|k: int| 0 <= k < order.len() && order[k] == x;
                if k < front.len() {
                    assert(front[k] == x);
                    assert(front.contains(x));
                    assert(rf.contains(x));
                    let m = choose|m: int| 0 <= m < rf.len() && rf[m] == x;
                    assert(r[m] == x);
                } else {
                    assert(r[rf.len() as int] == x);
                }
            }
            if x == i {
                assert(rf.contains(x));
                let m = choose|m: int| 0 <= m < rf.len() && rf[m] == x;
                assert(r[m] == x);
            }
        }
        if (forall|a: int, b: int| 0 <= a < b < order.len() ==> order[a] != order[b]) && !order.contains(i) {
            assert forall|a: int, b: int| 0 <= a < b < front.len() implies front[a] != front[b] by {
                assert(order[a] == front[a] && order[b] == front[b]);
            }
            assert(!front.contains(i)) by {
                if front.contains(i) {
                    let m = choose|m: int| 0 <= m < front.len() && front[m] == i;
                    assert(order[m] == i);
                }
            }
            assert forall|a: int, b: int| 0 <= a < b < r.len() implies r[a] != r[b] by {
                if b == rf.len() {
                    assert(rf.contains(rf[a]));
                    if rf[a] == last {
                        if front.contains(last) {
                            let m = choose|m: int| 0 <= m < front.len() && front[m] == last;
                            assert(order[m] == order[order.len() - 1]);
                        } else {
                            assert(last == i);
                            assert(order[order.len() - 1] == i);
                        }
                    }
                }
            }
        }
    }
}

/// `spec_order` lists each of the first `n` segments once, in order of key:
/// by load address, the unused entries last, equal keys in their first
/// order. This is the order in which the DOL header lists each group.
pub proof fn lemma_order_sorted(segs: Seq<SegmentView>, n: nat)
    ensures
        spec_order(segs, n).len() == n,
        spec_keys_sorted(spec_order(segs, n), segs),
        forall|a: int, b: int| 0 <= a < b < n ==> spec_order(segs, n)[a] != spec_order(segs, n)[b],
        forall|x: int| 0 <= x < n <==> #[trigger] spec_order(segs, n).contains(x),
    decreases n,
{
    if n > 0 {
        let prev = spec_order(segs, (n - 1) as nat);
        lemma_order_sorted(segs, (n - 1) as nat);
        assert(!prev.contains(n - 1));
        lemma_insert_index_sorted(prev, n - 1, segs);
        let r = spec_order(segs, n);
        assert(r == spec_insert_index(prev, n - 1, segs));
        assert forall|x: int| 0 <= x < n <==> #[trigger] r.contains(x) by {
            if 0 <= x < n - 1 {
                assert(prev.contains(x));
            }
        }
    } else {
        assert forall|x: int| 0 <= x < n <==> #[trigger] spec_order(segs, n).contains(x) by {
            if spec_order(segs, n).contains(x) {
                let k = choose|k: int| 0 <= k < spec_order(segs, n).len() && spec_order(segs, n)[k] == x;
            }
        }
    }
}

} // verus!
