use std::io::Read;

use randomprime::ciso::CisoWriter;
use randomprime::gcz::{GczWriter, GCZ_BLOCK_SIZE, GCZ_MAGIC, GCZ_RAW_FLAG};

fn adler32_reference(bytes: &[u8]) -> u32 {
    let mut a: u32 = 1;
    let mut b: u32 = 0;
    for &x in bytes {
        a = (a + x as u32) % 65521;
        b = (b + a) % 65521;
    }
    (b << 16) | a
}

fn le_u32(b: &[u8], at: usize) -> u32 {
    u32::from_le_bytes([b[at], b[at + 1], b[at + 2], b[at + 3]])
}

fn le_u64(b: &[u8], at: usize) -> u64 {
    let mut x = [0u8; 8];
    x.copy_from_slice(&b[at..at + 8]);
    u64::from_le_bytes(x)
}

fn inflate(bytes: &[u8]) -> Vec<u8> {
    let mut out = Vec::new();
    flate2::read::ZlibDecoder::new(bytes).read_to_end(&mut out).unwrap();
    out
}

/// Bytes that do not compress: a xorshift sequence.
fn noise(n: usize) -> Vec<u8> {
    let mut x: u32 = 0x1234_5678;
    let mut out = Vec::with_capacity(n);
    for _ in 0..n {
        x ^= x << 13;
        x ^= x >> 17;
        x ^= x << 5;
        out.push(x as u8);
    }
    out
}

#[test]
fn adler32_reference_matches_known_value() {
    assert_eq!(adler32_reference(b"Wikipedia"), 0x11E6_0398);
}

#[test]
fn gcz_reserves_a_header_for_the_announced_size() {
    let (_, reserve) = GczWriter::new(0);
    assert_eq!(reserve, 32);
    let (_, reserve) = GczWriter::new(GCZ_BLOCK_SIZE * 2 + 1);
    assert_eq!(reserve, 32 + 12 * 3);
}

#[test]
fn gcz_compresses_blocks_that_shrink() {
    let (mut w, reserve) = GczWriter::new(GCZ_BLOCK_SIZE * 2);
    assert_eq!(reserve, 56);
    let zeros = vec![0u8; GCZ_BLOCK_SIZE as usize];
    let first = w.write_all(&zeros[..100]);
    assert!(first.is_empty());
    let second = w.write_all(&zeros[100..]);
    assert!(!second.is_empty() && second.len() <= GCZ_BLOCK_SIZE as usize - 10);
    assert_eq!(inflate(&second), zeros);
    let third = w.skip_bytes(GCZ_BLOCK_SIZE);
    assert_eq!(third, second);
    let (tail, header) = w.finish();
    assert!(tail.is_empty());
    let c = second.len() as u64;
    assert_eq!(header.len(), 32 + 12 * 2);
    assert_eq!(le_u32(&header, 0), GCZ_MAGIC);
    assert_eq!(le_u32(&header, 4), 0);
    assert_eq!(le_u64(&header, 8), 2 * c);
    assert_eq!(le_u64(&header, 16), GCZ_BLOCK_SIZE * 2);
    assert_eq!(le_u32(&header, 24), GCZ_BLOCK_SIZE as u32);
    assert_eq!(le_u32(&header, 28), 2);
    assert_eq!(le_u64(&header, 32), 0);
    assert_eq!(le_u64(&header, 40), c);
    assert_eq!(le_u32(&header, 48), adler32_reference(&second));
    assert_eq!(le_u32(&header, 52), adler32_reference(&second));
}

#[test]
fn gcz_stores_blocks_that_do_not_shrink_as_they_are() {
    let (mut w, _) = GczWriter::new(GCZ_BLOCK_SIZE + 10);
    let data = noise(GCZ_BLOCK_SIZE as usize + 10);
    let out = w.write_all(&data);
    assert_eq!(out, data[..GCZ_BLOCK_SIZE as usize].to_vec());
    let (tail, header) = w.finish();
    // The last block is completed with zeros, and compresses.
    let mut last = data[GCZ_BLOCK_SIZE as usize..].to_vec();
    last.resize(GCZ_BLOCK_SIZE as usize, 0);
    assert_eq!(inflate(&tail), last);
    assert_eq!(le_u32(&header, 28), 2);
    assert_eq!(le_u64(&header, 32), GCZ_RAW_FLAG);
    assert_eq!(le_u64(&header, 40), GCZ_BLOCK_SIZE);
    assert_eq!(le_u64(&header, 8), GCZ_BLOCK_SIZE + tail.len() as u64);
    assert_eq!(le_u32(&header, 48), adler32_reference(&data[..GCZ_BLOCK_SIZE as usize]));
    assert_eq!(le_u32(&header, 52), adler32_reference(&tail));
}

#[test]
fn gcz_skipping_is_writing_zeros() {
    let prefix = noise(300);
    let (mut a, _) = GczWriter::new(0);
    let (mut b, _) = GczWriter::new(0);
    let mut out_a = a.write_all(&prefix);
    let mut out_b = b.write_all(&prefix);
    let n = 3 * GCZ_BLOCK_SIZE as usize + 77;
    out_a.extend(a.skip_bytes(n as u64));
    out_b.extend(b.write_all(&vec![0u8; n]));
    assert_eq!(out_a, out_b);
    let (ta, ha) = a.finish();
    let (tb, hb) = b.finish();
    assert_eq!(ta, tb);
    assert_eq!(ha, hb);
}

#[test]
fn ciso_maps_stored_and_skipped_blocks() {
    let mut w = CisoWriter::new();
    let mib2: u64 = 0x20_0000;
    let (before, after) = w.skip_bytes(0x800A, 5 * mib2);
    assert_eq!(before, mib2 - 0x800A);
    assert_eq!(after, 5 * mib2 - (mib2 - 0x800A) - 4 * mib2);
    let header = w.finish(mib2 + after + 100);
    assert_eq!(header[..8], [0x43, 0x49, 0x53, 0x4F, 0x00, 0x00, 0x20, 0x00]);
    assert_eq!(header[8..], [1, 0, 0, 0, 0, 1]);
}

#[test]
fn ciso_small_skip_is_written_as_zeros() {
    let mut w = CisoWriter::new();
    assert_eq!(w.skip_bytes(0x8000, 100), (100, 0));
    let header = w.finish(0x8000 + 100);
    assert_eq!(header[8..], [1]);
}
