use byteorder::{BigEndian, LittleEndian};
use randomprime::array::RoArray;
use randomprime::dap::Dap;
use randomprime::iterator_array::IteratorArray;
use randomprime::lazy_array::LazyArray;
use randomprime::uncached::Uncached;
use randomprime::padding::{align_byte_count, pad_bytes, pad_bytes_count, PaddingBlackhole};
use randomprime::primitive_types::{CStr, CStrConversionExtension, FourCC};
use randomprime::reader::{ReadError, Readable, ReaderEx, SliceReader};
use randomprime::utf16_string::{LazyUtf16beStr, Utf16beStr};
use randomprime::writer::{copy, VecWriter, Writable};

fn collect_u8(array: &RoArray<'_, LittleEndian, u8>) -> Vec<u8> {
    let mut out = Vec::new();
    let mut it = array.iter();
    while let Some(item) = it.next() {
        out.push(item.unwrap());
    }
    out
}

#[test]
fn test_split_off() {
    let data = [1, 2, 3, 4, 5];
    let mut reader = SliceReader::<LittleEndian>::new(&data);
    let mut array: RoArray<_, u8> = reader.read((5, ())).unwrap();
    let right = array.split_off(2).unwrap();
    assert_eq!(collect_u8(&array), [1, 2]);
    assert_eq!(collect_u8(&right), [3, 4, 5]);
}

#[test]
fn split_off_past_the_end_fails() {
    let data = [1, 2, 3];
    let mut reader = SliceReader::<LittleEndian>::new(&data);
    let mut array: RoArray<_, u8> = reader.read((3, ())).unwrap();
    assert!(array.split_off(4).is_err());
    assert_eq!(array.len(), 3);
}

#[test]
fn roarray_get_reads_the_item_at_an_index() {
    let data = [0, 1, 0, 2, 0, 3];
    let mut reader = SliceReader::<BigEndian>::new(&data);
    let array: RoArray<_, u16> = reader.read((3, ())).unwrap();
    assert_eq!(array.get(1).unwrap(), Some(2));
    assert_eq!(array.get(3).unwrap(), None);
}

#[test]
fn integers_read_in_both_byte_orders() {
    let data = [0x12, 0x34, 0x56, 0x78];
    let mut be = SliceReader::<BigEndian>::new(&data);
    assert_eq!(be.read_u32().unwrap(), 0x1234_5678);
    let mut le = SliceReader::<LittleEndian>::new(&data);
    assert_eq!(le.read_u16().unwrap(), 0x3412);
    assert_eq!(le.read_u16().unwrap(), 0x7856);
    assert_eq!(le.read_u8(), Err(ReadError::UnexpectedEof));
}

#[test]
fn bool_bytes_other_than_zero_and_one_are_refused() {
    // The byte 0 reads as true and 1 as false.
    let data = [0, 1, 2];
    let mut r = SliceReader::<BigEndian>::new(&data);
    assert_eq!(r.read_bool(), Ok(true));
    assert_eq!(r.read_bool(), Ok(false));
    assert_eq!(r.read_bool(), Err(ReadError::InvalidBool));
}

#[test]
fn advance_and_truncate_check_the_length() {
    let data = [9u8; 8];
    let mut r = SliceReader::<BigEndian>::new(&data);
    assert_eq!(r.advance(9), Err(ReadError::TooShortToAdvance));
    assert_eq!(r.advance(3), Ok(()));
    assert_eq!(r.len(), 5);
    assert_eq!(r.truncate_to(6), Err(ReadError::TooShortToTruncate));
    assert_eq!(r.truncate_to(2), Ok(()));
    assert_eq!(r.len(), 2);
}

#[test]
fn written_integers_read_back() {
    let mut w = VecWriter::<BigEndian>::new();
    w.write_u32(0xDEAD_BEEF);
    w.write_i16(-2);
    w.write_u64(7);
    let bytes = w.into_bytes();
    assert_eq!(bytes[..4], [0xDE, 0xAD, 0xBE, 0xEF]);
    assert_eq!(bytes[4..6], [0xFF, 0xFE]);
    let mut r = SliceReader::<BigEndian>::new(&bytes);
    assert_eq!(r.read_u32().unwrap(), 0xDEAD_BEEF);
    assert_eq!(r.read_i16().unwrap(), -2);
    assert_eq!(r.read_u64().unwrap(), 7);
}

#[test]
fn vec_of_values_writes_each_in_turn() {
    let v: Vec<u16> = vec![1, 0x0203];
    let mut w = VecWriter::<LittleEndian>::new();
    let n = v.write_to(&mut w);
    assert_eq!(n, 4);
    assert_eq!(w.into_bytes(), vec![1, 0, 3, 2]);
}

#[test]
fn dap_writes_its_items_one_after_the_other() {
    let d = Dap::new(vec![0x0102u16, 0x0304]);
    let mut w = VecWriter::<BigEndian>::new();
    assert_eq!(d.write_to(&mut w), 4);
    assert_eq!(w.into_bytes(), vec![1, 2, 3, 4]);
    assert_eq!(d.size::<BigEndian>(), Ok(4));
    let strings = Dap::new(vec![vec![1u8, 2, 3], vec![4u8]]);
    assert_eq!(strings.size::<BigEndian>(), Ok(4));
}

#[test]
fn fourcc_and_u32_agree() {
    let code = FourCC::from_bytes(b"TXTR");
    assert_eq!(code.to_u32(), 0x5458_5452);
    assert_eq!(FourCC::new(0x5458_5452), code);
    let data = *b"MREAxx";
    let mut r = SliceReader::<BigEndian>::new(&data);
    let read: FourCC = r.read(()).unwrap();
    assert_eq!(read.as_bytes(), b"MREA");
}

#[test]
fn alignment_rounds_up_to_a_power_of_two() {
    assert_eq!(align_byte_count(32, 0), 0);
    assert_eq!(align_byte_count(32, 1), 32);
    assert_eq!(align_byte_count(32, 33), 64);
    assert_eq!(pad_bytes_count(32, 40), 24);
    assert_eq!(pad_bytes(4, 5), vec![0, 0, 0]);
}

#[test]
fn padding_blackhole_skips_and_writes_zeros() {
    let data = [1u8, 2, 3, 4];
    let mut r = SliceReader::<BigEndian>::new(&data);
    let p: PaddingBlackhole = r.read(3).unwrap();
    assert_eq!(p.0, 3);
    assert_eq!(r.len(), 1);
    let mut w = VecWriter::<BigEndian>::new();
    assert_eq!(p.write_to(&mut w), 3);
    assert_eq!(w.into_bytes(), vec![0, 0, 0]);
}

#[test]
fn option_reads_only_when_asked() {
    let data = [0, 5];
    let mut r = SliceReader::<BigEndian>::new(&data);
    let none: Option<u16> = r.read(None).unwrap();
    assert_eq!(none, None);
    let some: Option<u16> = r.read(Some(())).unwrap();
    assert_eq!(some, Some(5));
}

#[test]
fn utf16_string_reads_to_its_terminator_and_decodes() {
    // "Hi", then U+1F600 as a surrogate pair, then the terminator, then more.
    let data = [0, b'H', 0, b'i', 0xD8, 0x3D, 0xDE, 0x00, 0, 0, 0, b'X'];
    let mut r = SliceReader::<BigEndian>::new(&data);
    let s: Utf16beStr<'_, BigEndian> = r.read(()).unwrap();
    assert_eq!(r.len(), 2);
    let mut chars = s.chars();
    let mut decoded = String::new();
    while let Some(c) = chars.next() {
        decoded.push(c.unwrap());
    }
    assert_eq!(decoded, "Hi\u{1F600}\0");
    let mut w = VecWriter::<BigEndian>::new();
    assert_eq!(s.write_to(&mut w), 10);
    assert_eq!(w.into_bytes(), data[..10].to_vec());
}

#[test]
fn utf16_lone_surrogates_decode_to_the_replacement_character() {
    let data = [0xDC, 0x00, 0xD8, 0x00, 0, b'a', 0, 0];
    let mut r = SliceReader::<BigEndian>::new(&data);
    let s: Utf16beStr<'_, BigEndian> = r.read(()).unwrap();
    let mut chars = s.chars();
    let mut decoded = String::new();
    while let Some(c) = chars.next() {
        decoded.push(c.unwrap());
    }
    assert_eq!(decoded, "\u{FFFD}\u{FFFD}a\0");
}

#[test]
fn utf16_string_without_terminator_is_refused() {
    let data = [0, b'H', 0, b'i'];
    let mut r = SliceReader::<BigEndian>::new(&data);
    let s: Result<Utf16beStr<'_, BigEndian>, ReadError> = r.read(());
    assert!(s.is_err());
}

#[test]
fn reading_a_vec_reads_each_item() {
    let data = [0, 0, 0, 1, 0, 0, 0, 2, 0xFF];
    let mut r = SliceReader::<BigEndian>::new(&data);
    let v: Vec<u32> = Readable::read_from(&mut r, (2, ())).unwrap();
    assert_eq!(v, vec![1, 2]);
    assert_eq!(r.len(), 1);
}

#[test]
fn lazy_array_borrowed_then_owned() {
    let data = [0, 1, 0, 2, 0, 3, 9];
    let mut r = SliceReader::<BigEndian>::new(&data);
    let mut arr: LazyArray<'_, BigEndian, u16> = r.read((3, ())).unwrap();
    assert_eq!(r.len(), 1);
    assert_eq!(arr.len(), 3);
    assert!(!arr.is_owned());
    assert_eq!(*arr.get(1).unwrap().unwrap().get(), 2);
    assert!(arr.get(3).unwrap().is_none());
    let mut it = arr.iter();
    let mut seen = Vec::new();
    while let Some(x) = it.next() {
        seen.push(*x.unwrap().get());
    }
    assert_eq!(seen, vec![1, 2, 3]);
    let right = arr.split_off(1).unwrap();
    assert_eq!(arr.len(), 1);
    assert_eq!(right.len(), 2);
    let mut w = VecWriter::<BigEndian>::new();
    assert_eq!(right.write_to(&mut w), 4);
    assert_eq!(w.into_bytes(), vec![0, 2, 0, 3]);
    assert_eq!(right.size(), Ok(4));

    let owned: LazyArray<'_, BigEndian, u16> = LazyArray::from(vec![7u16, 8]);
    assert!(owned.is_owned());
    assert_eq!(*owned.get(0).unwrap().unwrap().get(), 7);
    let mut w = VecWriter::<BigEndian>::new();
    assert_eq!(owned.write_to(&mut w), 4);
    assert_eq!(w.into_bytes(), vec![0, 7, 0, 8]);
    assert_eq!(owned.size(), Ok(4));
}

#[test]
fn uncached_reads_its_bytes_each_time() {
    let data = [1, 2, 3, 4, 5];
    let mut r = SliceReader::<BigEndian>::new(&data);
    let u: Uncached<'_, BigEndian, u32> = r.read(()).unwrap();
    assert_eq!(r.len(), 1);
    assert_eq!(*u.get().unwrap().get(), 0x0102_0304);
    assert_eq!(u.size(), Ok(4));
    let mut w = VecWriter::<BigEndian>::new();
    assert_eq!(u.write_to(&mut w), 4);
    assert_eq!(w.into_bytes(), vec![1, 2, 3, 4]);
    let o: Uncached<'_, BigEndian, u32> = Uncached::Owned(Box::new(5));
    assert_eq!(*o.get().unwrap().get(), 5);
    let mut w = VecWriter::<BigEndian>::new();
    assert_eq!(o.write_to(&mut w), 4);
    assert_eq!(w.into_bytes(), vec![0, 0, 0, 5]);
}

#[test]
fn utf16_strings_compare_as_far_as_the_shorter_goes() {
    let data = [0, b'a', 0, b'b', 0, 0];
    let mut r = SliceReader::<BigEndian>::new(&data);
    let s: Utf16beStr<'_, BigEndian> = r.read(()).unwrap();
    assert!(s == *"ab\0");
    assert!(s == *"ab");
    assert!(s == *"a");
    assert!(s == *"ab\0xyz");
    assert!(!(s == *"b"));
    let le = [b'a', 0, b'c', 0, 0, 0];
    let mut r2 = SliceReader::<LittleEndian>::new(&le);
    let t: Utf16beStr<'_, LittleEndian> = r2.read(()).unwrap();
    assert!(t == *"ac");
    assert!(!(s == t));
}

#[test]
fn lazy_utf16_strings() {
    let data = [0, b'H', 0xD8, 0x3D, 0xDE, 0x00, 0, 0];
    let mut r = SliceReader::<BigEndian>::new(&data);
    let b: LazyUtf16beStr<'_, BigEndian> = r.read(()).unwrap();
    let o: LazyUtf16beStr<'_, BigEndian> = LazyUtf16beStr::Owned("H\u{1F600}\0".to_string());
    assert!(b == o);
    assert_eq!(b.size(), Ok(8));
    assert_eq!(o.size(), Ok(8));
    let mut w = VecWriter::<BigEndian>::new();
    assert_eq!(o.write_to(&mut w), 8);
    assert_eq!(w.into_bytes(), data.to_vec());
    let mut chars = o.chars();
    assert_eq!(chars.next(), Some(Ok('H')));
    assert_eq!(chars.next(), Some(Ok('\u{1F600}')));
    assert_eq!(b.into_string(), Ok("H\u{1F600}\0".to_string()));
    let other: LazyUtf16beStr<'_, BigEndian> = LazyUtf16beStr::Owned("Hx".to_string());
    assert!(!(o == other));
}

#[test]
fn lazy_array_as_mut_vec_reads_a_borrowed_array_once() {
    let data = [0, 1, 0, 2, 0, 3];
    let mut r = SliceReader::<BigEndian>::new(&data);
    let mut arr: LazyArray<'_, BigEndian, u16> = r.read((3, ())).unwrap();
    {
        let v = arr.as_mut_vec().unwrap();
        assert_eq!(*v, vec![1, 2, 3]);
        v.push(4);
    }
    assert!(arr.is_owned());
    assert_eq!(arr.len(), 4);
    let mut w = VecWriter::<BigEndian>::new();
    assert_eq!(arr.write_to(&mut w), 8);
    assert_eq!(w.into_bytes(), vec![0, 1, 0, 2, 0, 3, 0, 4]);
}

#[test]
fn uncached_get_mut_owns_the_value() {
    let data = [0, 0, 0, 9];
    let mut r = SliceReader::<BigEndian>::new(&data);
    let mut u: Uncached<'_, BigEndian, u32> = r.read(()).unwrap();
    *u.get_mut().unwrap() += 1;
    assert_eq!(*u.get().unwrap().get(), 10);
    assert!(matches!(u, Uncached::Owned(_)));
}

#[test]
fn lazy_utf16_as_mut_string_and_comparisons() {
    let data = [0, b'H', 0, b'i', 0, 0];
    let mut r = SliceReader::<BigEndian>::new(&data);
    let mut b: LazyUtf16beStr<'_, BigEndian> = r.read(()).unwrap();
    assert!(b == *"Hi");
    let mut r2 = SliceReader::<BigEndian>::new(&data);
    let plain: Utf16beStr<'_, BigEndian> = r2.read(()).unwrap();
    assert!(b == plain);
    b.as_mut_string().unwrap().insert(0, '!');
    assert!(!(b == *"Hi"));
    assert!(b == *"!Hi");
    assert_eq!(b.into_string(), Ok("!Hi\0".to_string()));
    let from: LazyUtf16beStr<'_, BigEndian> = LazyUtf16beStr::from("Hi\0".to_string());
    assert!(from == plain);
}

#[test]
fn iterator_array_reads_each_element_with_its_argument() {
    let data = [9, 1, 2, 3, 7];
    let mut r = SliceReader::<BigEndian>::new(&data);
    let arr: IteratorArray<'_, BigEndian, Vec<u8>> = r.read(vec![(1, ()), (3, ()), (0, ())]).unwrap();
    assert_eq!(r.len(), 1);
    assert_eq!(arr.len(), 3);
    assert_eq!(arr.size(), Ok(4));
    let mut it = arr.iter();
    assert_eq!(it.len(), 3);
    let mut seen = Vec::new();
    while let Some(x) = it.next() {
        seen.push(x.unwrap().get().clone());
    }
    assert_eq!(seen, vec![vec![9], vec![1, 2, 3], vec![]]);
    let mut w = VecWriter::<BigEndian>::new();
    assert_eq!(arr.write_to(&mut w), 4);
    assert_eq!(w.into_bytes(), vec![9, 1, 2, 3]);
    let mut arr = arr;
    arr.as_mut_vec().unwrap()[1].push(4);
    assert_eq!(arr.size(), Ok(5));
    let mut w = VecWriter::<BigEndian>::new();
    assert_eq!(arr.write_to(&mut w), 5);
    assert_eq!(w.into_bytes(), vec![9, 1, 2, 3, 4]);
}

#[test]
fn iterator_array_of_fixed_size_elements_takes_their_bytes() {
    let short = [0, 1];
    let mut r = SliceReader::<BigEndian>::new(&short);
    let refused: Result<IteratorArray<'_, BigEndian, u16>, ReadError> = r.read(vec![(), ()]);
    assert!(refused.is_err());
    let data = [0, 1, 0, 2, 5];
    let mut r = SliceReader::<BigEndian>::new(&data);
    let arr: IteratorArray<'_, BigEndian, u16> = r.read(vec![(), ()]).unwrap();
    assert_eq!(r.len(), 1);
    assert_eq!(arr.size(), Ok(4));
    let owned: IteratorArray<'_, BigEndian, u16> = IteratorArray::from(vec![3u16]);
    assert_eq!(owned.len(), 1);
    assert_eq!(*owned.iter().next().unwrap().unwrap().get(), 3);
}

#[test]
fn copy_of_an_exhausted_reader_copies_nothing() {
    let data = [1, 2, 3];
    let mut r = SliceReader::<BigEndian>::new(&data);
    r.advance(3).unwrap();
    let mut w = VecWriter::<BigEndian>::new();
    w.write_u8(9);
    assert_eq!(copy(&mut r, &mut w), 0);
    assert_eq!(w.into_bytes(), vec![9]);
}

#[test]
fn c_strings_read_up_to_their_nul() {
    let data = b"abc\0def";
    let mut r = SliceReader::<BigEndian>::new(data);
    let s: CStr = r.read(()).unwrap();
    assert_eq!(s.to_bytes(), b"abc");
    assert_eq!(s.to_bytes_with_nul(), b"abc\0".to_vec());
    assert_eq!(<CStr as Readable<BigEndian>>::size(&s), Ok(4));
    assert_eq!(r.as_slice(), b"def");
    let mut w = VecWriter::<BigEndian>::new();
    assert_eq!(s.write_to(&mut w), 4);
    assert_eq!(w.into_bytes(), b"abc\0".to_vec());
}

#[test]
fn c_string_without_a_nul_does_not_read() {
    let mut r = SliceReader::<BigEndian>::new(b"abc");
    let s: Result<CStr, ReadError> = r.read(());
    assert_eq!(s, Err(ReadError::UnexpectedEof));
    let mut empty = SliceReader::<BigEndian>::new(b"\0");
    let e: CStr = empty.read(()).unwrap();
    assert_eq!(e.to_bytes(), b"");
    assert_eq!(empty.len(), 0);
}

#[test]
fn c_string_from_a_slice_with_its_nul() {
    let s = b"Metroid\0"[..].as_cstr();
    assert_eq!(s.to_bytes(), b"Metroid");
    let mut r = SliceReader::<LittleEndian>::new(b"Metroid\0");
    let read: CStr = r.read(()).unwrap();
    assert_eq!(read, s);
}
