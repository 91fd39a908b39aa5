use byteorder::BigEndian;
use randomprime::binary_patcher::{PatchError, PatchedBinaryBuilder};
use randomprime::dol_patcher::{DolPatchError, DolPatcher};
use randomprime::reader::SliceReader;

#[test]
fn patches_replace_bytes_in_start_order() {
    let data: Vec<u8> = (0..10).collect();
    let mut b = PatchedBinaryBuilder::new(&data);
    assert_eq!(b.try_patch(6, vec![0xC, 0xD]), Ok(()));
    assert_eq!(b.try_patch(2, vec![0xA, 0xB]), Ok(()));
    assert_eq!(b.build_bytes(), vec![0, 1, 0xA, 0xB, 4, 5, 0xC, 0xD, 8, 9]);
}

#[test]
fn a_patch_starting_inside_another_is_refused() {
    let data = [0u8; 10];
    let mut b = PatchedBinaryBuilder::new(&data);
    assert_eq!(b.try_patch(2, vec![1, 1, 1]), Ok(()));
    assert_eq!(b.try_patch(3, vec![2]), Err(PatchError::Overlapping));
    assert_eq!(b.try_patch(1, vec![2, 2]), Err(PatchError::Overlapping));
    assert_eq!(b.try_patch(5, vec![3]), Ok(()));
    assert_eq!(b.build_bytes(), vec![0, 0, 1, 1, 1, 3, 0, 0, 0, 0]);
}

#[test]
fn patched_binary_reads_back_in_pieces() {
    let data: Vec<u8> = (0..8).collect();
    let b = PatchedBinaryBuilder::new(&data).patch(3, vec![0xFF, 0xFE]);
    let mut pb = b.build();
    let mut buf = [0u8; 3];
    assert_eq!(pb.read(&mut buf), 3);
    assert_eq!(buf, [0, 1, 2]);
    assert_eq!(pb.read(&mut buf), 3);
    assert_eq!(buf, [0xFF, 0xFE, 5]);
    assert_eq!(pb.read(&mut buf), 2);
    assert_eq!(buf[..2], [6, 7]);
    assert_eq!(pb.read(&mut buf), 0);
}

fn put_u32(buf: &mut [u8], at: usize, v: u32) {
    buf[at..at + 4].copy_from_slice(&v.to_be_bytes());
}

fn get_u32(buf: &[u8], at: usize) -> u32 {
    u32::from_be_bytes([buf[at], buf[at + 1], buf[at + 2], buf[at + 3]])
}

/// A DOL with one text segment of 32 bytes at 0x80003000 and one data
/// segment of 16 bytes at 0x80004000.
fn sample_dol() -> Vec<u8> {
    let mut dol = vec![0u8; 0x100 + 0x20 + 0x10];
    put_u32(&mut dol, 0x00, 0x100);
    put_u32(&mut dol, 0x1C, 0x120);
    put_u32(&mut dol, 0x48, 0x8000_3000);
    put_u32(&mut dol, 0x64, 0x8000_4000);
    put_u32(&mut dol, 0x90, 0x20);
    put_u32(&mut dol, 0xAC, 0x10);
    put_u32(&mut dol, 0xD8, 0x8000_5000);
    put_u32(&mut dol, 0xDC, 0x100);
    put_u32(&mut dol, 0xE0, 0x8000_3000);
    for i in 0..0x30 {
        dol[0x100 + i] = i as u8;
    }
    dol
}

#[test]
fn dol_written_back_unchanged() {
    let dol = sample_dol();
    let p = DolPatcher::new(SliceReader::<BigEndian>::new(&dol)).unwrap();
    assert_eq!(p.len(), dol.len());
    assert_eq!(p.to_bytes(), dol);
}

#[test]
fn dol_patch_lands_in_its_segment() {
    let dol = sample_dol();
    let mut p = DolPatcher::new(SliceReader::<BigEndian>::new(&dol)).unwrap();
    assert_eq!(p.patch(0x8000_3004, vec![0xAA, 0xBB]), Ok(()));
    assert_eq!(p.patch(0x8000_4002, vec![0xCC]), Ok(()));
    let out = p.to_bytes();
    assert_eq!(out[0x104..0x106], [0xAA, 0xBB]);
    assert_eq!(out[0x122], 0xCC);
    assert_eq!(out[0x100..0x104], dol[0x100..0x104]);
}

#[test]
fn dol_patch_errors() {
    let dol = sample_dol();
    let mut p = DolPatcher::new(SliceReader::<BigEndian>::new(&dol)).unwrap();
    // A patch must start strictly inside a segment.
    assert_eq!(p.patch(0x8000_3000, vec![1]), Err(DolPatchError::NoSegmentToPatch(0x8000_3000)));
    // ... and end within it.
    assert_eq!(p.patch(0x8000_301F, vec![1, 2]), Err(DolPatchError::NoSegmentToPatch(0x8000_301F)));
    assert_eq!(p.patch(0x8000_3004, vec![1, 2, 3]), Ok(()));
    assert_eq!(p.patch(0x8000_3005, vec![9]), Err(DolPatchError::OverlappingPatches));
    assert_eq!(p.add_data_segment(0x8000_6000, vec![0; 32]), Ok(()));
    assert_eq!(p.patch(0x8000_6004, vec![1]), Err(DolPatchError::PatchInNewSegment));
}

#[test]
fn dol_new_segments() {
    let dol = sample_dol();
    let mut p = DolPatcher::new(SliceReader::<BigEndian>::new(&dol)).unwrap();
    // New segments must have lengths that are multiples of 32.
    assert_eq!(p.add_data_segment(0x8000_6000, vec![0; 16]), Err(DolPatchError::InvalidDataLength));
    assert_eq!(p.add_text_segment(0x8000_6000, vec![0; 33]), Err(DolPatchError::InvalidTextLength));
    assert_eq!(
        p.add_text_segment(0x8000_3010, vec![0; 32]),
        Err(DolPatchError::OverlappingSegment { addr: 0x8000_3010, index: 0, segment_addr: 0x8000_3000 })
    );
    assert_eq!(p.add_text_segment(0x8000_2000, vec![7; 32]), Ok(()));
    assert_eq!(p.len(), dol.len() + 32);
    let out = p.to_bytes();
    // Text segments are listed by load address: the new one comes first.
    assert_eq!(get_u32(&out, 0x00), 0x100);
    assert_eq!(get_u32(&out, 0x04), 0x120);
    assert_eq!(get_u32(&out, 0x48), 0x8000_2000);
    assert_eq!(get_u32(&out, 0x4C), 0x8000_3000);
    assert_eq!(get_u32(&out, 0x90), 32);
    assert_eq!(get_u32(&out, 0x94), 0x20);
    assert_eq!(get_u32(&out, 0x1C), 0x140);
    assert_eq!(out[0x100..0x120], [7u8; 32]);
    assert_eq!(out[0x120..], dol[0x100..]);
}

#[test]
fn dol_without_room_for_another_segment() {
    let dol = sample_dol();
    let mut p = DolPatcher::new(SliceReader::<BigEndian>::new(&dol)).unwrap();
    for i in 0..6u32 {
        assert_eq!(p.add_text_segment(0x8100_0000 + 0x100 * i, vec![0; 32]), Ok(()));
    }
    assert_eq!(p.add_text_segment(0x8200_0000, vec![0; 32]), Err(DolPatchError::NoRoomForTextSegment));
}

#[test]
fn dol_shorter_than_its_header_is_refused() {
    let dol = vec![0u8; 0x80];
    assert!(matches!(
        DolPatcher::new(SliceReader::<BigEndian>::new(&dol)),
        Err(DolPatchError::TruncatedHeader)
    ));
    let mut dol = sample_dol();
    dol.truncate(0x118);
    assert!(matches!(
        DolPatcher::new(SliceReader::<BigEndian>::new(&dol)),
        Err(DolPatchError::TruncatedSegment(0))
    ));
}

#[test]
fn patched_dol_reads_back_as_written() {
    let dol = sample_dol();
    let mut p = DolPatcher::new(SliceReader::<BigEndian>::new(&dol)).unwrap();
    assert_eq!(p.patch(0x8000_3008, vec![0xAB, 0xCD, 0xEF]), Ok(()));
    assert_eq!(p.add_data_segment(0x8000_0100, vec![5; 64]), Ok(()));
    let out = p.to_bytes();
    let q = DolPatcher::new(SliceReader::<BigEndian>::new(&out)).unwrap();
    assert_eq!(q.len(), out.len());
    assert_eq!(q.to_bytes(), out);
    assert_eq!(get_u32(&out, 0xD8), 0x8000_5000);
    assert_eq!(get_u32(&out, 0xE0), 0x8000_3000);
}

#[test]
fn dol_misaligned_segment_near_the_top_of_memory_is_refused_first() {
    let dol = sample_dol();
    let mut p = DolPatcher::new(SliceReader::<BigEndian>::new(&dol)).unwrap();
    assert_eq!(p.add_data_segment(0xFFFF_FFF0, vec![0; 33]), Err(DolPatchError::InvalidDataLength));
    assert_eq!(p.add_text_segment(0xFFFF_FFF0, vec![0; 40]), Err(DolPatchError::InvalidTextLength));
    assert_eq!(p.to_bytes(), dol);
}
