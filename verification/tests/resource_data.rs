use std::io::Write;

use byteorder::BigEndian;
use flate2::write::DeflateEncoder;
use flate2::Compression;
use randomprime::reader::SliceReader;
use randomprime::resource_data::ResourceData;

fn deflate(bytes: &[u8]) -> Vec<u8> {
    let mut e = DeflateEncoder::new(Vec::new(), Compression::default());
    e.write_all(bytes).unwrap();
    e.finish().unwrap()
}

fn stored(size: u32, stream: &[u8]) -> Vec<u8> {
    let mut out = size.to_be_bytes().to_vec();
    out.extend_from_slice(&[0x78, 0xDA]);
    out.extend_from_slice(stream);
    out
}

#[test]
fn uncompressed_resources_are_their_bytes() {
    let data = [1, 2, 3];
    let r = ResourceData { is_compressed: false, data: SliceReader::<BigEndian>::new(&data) };
    assert_eq!(r.decompress(), vec![1, 2, 3]);
    assert_eq!(r.try_decompress(), Some(vec![1, 2, 3]));
}

#[test]
fn compressed_resources_inflate_into_their_stored_size() {
    let bytes = stored(11, &deflate(b"hello world"));
    let r = ResourceData { is_compressed: true, data: SliceReader::<BigEndian>::new(&bytes) };
    assert_eq!(r.decompress(), b"hello world".to_vec());
    let bigger = stored(13, &deflate(b"hello world"));
    let r = ResourceData { is_compressed: true, data: SliceReader::<BigEndian>::new(&bigger) };
    assert_eq!(r.try_decompress(), Some(b"hello world\0\0".to_vec()));
    let smaller = stored(5, &deflate(b"hello world"));
    let r = ResourceData { is_compressed: true, data: SliceReader::<BigEndian>::new(&smaller) };
    assert_eq!(r.try_decompress(), Some(b"hello".to_vec()));
}

#[test]
fn broken_compressed_resources_do_not_decompress() {
    let short = [0, 0, 0, 1, 0x78];
    let r = ResourceData { is_compressed: true, data: SliceReader::<BigEndian>::new(&short) };
    assert_eq!(r.try_decompress(), None);
    let bad = stored(4, &[0xFF, 0xFF, 0xFF, 0xFF]);
    let r = ResourceData { is_compressed: true, data: SliceReader::<BigEndian>::new(&bad) };
    assert_eq!(r.try_decompress(), None);
}
