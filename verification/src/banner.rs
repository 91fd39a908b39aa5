//! The texts of the disc's banner: each is stored in Windows-1252 in a field
//! of fixed size, padded with zeros.
use vstd::prelude::*;
use encoding::{EncoderTrap, Encoding};

verus! {

/// The byte that the WHATWG windows-1252 index gives a character: ASCII and
/// U+00A0 to U+00FF stand for themselves; the bytes 0x80 to 0x9F stand for
/// the 32 characters below (five of them, the unassigned bytes, for
/// themselves); any other character has none.
pub open spec fn spec_windows_1252_byte(c: char) -> Option<u8> {
    let u = c as u32;
    if u < 0x80 || (0xA0 <= u && u <= 0xFF) {
        Some(u as u8)
    } else {
        match u {
            0x20AC => Some(0x80u8),
            0x81 => Some(0x81u8),
            0x201A => Some(0x82u8),
            0x192 => Some(0x83u8),
            0x201E => Some(0x84u8),
            0x2026 => Some(0x85u8),
            0x2020 => Some(0x86u8),
            0x2021 => Some(0x87u8),
            0x2C6 => Some(0x88u8),
            0x2030 => Some(0x89u8),
            0x160 => Some(0x8Au8),
            0x2039 => Some(0x8Bu8),
            0x152 => Some(0x8Cu8),
            0x8D => Some(0x8Du8),
            0x17D => Some(0x8Eu8),
            0x8F => Some(0x8Fu8),
            0x90 => Some(0x90u8),
            0x2018 => Some(0x91u8),
            0x2019 => Some(0x92u8),
            0x201C => Some(0x93u8),
            0x201D => Some(0x94u8),
            0x2022 => Some(0x95u8),
            0x2013 => Some(0x96u8),
            0x2014 => Some(0x97u8),
            0x2DC => Some(0x98u8),
            0x2122 => Some(0x99u8),
            0x161 => Some(0x9Au8),
            0x203A => Some(0x9Bu8),
            0x153 => Some(0x9Cu8),
            0x9D => Some(0x9Du8),
            0x17E => Some(0x9Eu8),
            0x178 => Some(0x9Fu8),
            _ => None,
        }
    }
}

/// The bytes that the `encoding` crate's `WINDOWS_1252` encoder gives for a
/// string with the strict trap: each character's byte, or `None` where a
/// character has none.
pub open spec fn spec_windows_1252(s: Seq<char>) -> Option<Seq<u8>> {
    if forall|i: int| 0 <= i < s.len() ==> (#[trigger] spec_windows_1252_byte(s[i])) is Some {
        Some(s.map_values(|c: char| spec_windows_1252_byte(c)->0))
    } else {
        None
    }
}

/// `encoding::all::WINDOWS_1252.encode(s, EncoderTrap::Strict)`: the
/// encoder writes each character's byte from the windows-1252 index and
/// stops with an error at the first character that has none; that error
/// becomes `None`.
#[verifier::external_body]
fn encode_windows_1252(s: &str) -> (r: Option<Vec<u8>>)
    ensures
        match r {
            Some(v) => spec_windows_1252(s@) == Some(v@),
            None => spec_windows_1252(s@) is None,
        },
{
    match encoding::all::WINDOWS_1252.encode(s, EncoderTrap::Strict) {
        Ok(bytes) => Some(bytes),
        Err(_) => None,
    }
}

/// Why a banner text was refused.
#[derive(Clone, Debug)]
pub enum BannerFieldError {
    /// A character of the field's text has no Windows-1252 byte.
    Unencodable { field: String },
    /// The field's text takes `got` bytes; it must take fewer than
    /// `expected`, the field's size less one.
    InvalidLength { field: String, expected: usize, got: usize },
}

/// The bytes a field holds for encoded text: the text, then zeros up to the
/// field's size.
pub open spec fn spec_padded(bytes: Seq<u8>, size: nat) -> Seq<u8> {
    bytes + Seq::new((size - bytes.len()) as nat, |i: int| 0u8)
}

/// Writes a banner text into its field: nothing where the text is left out;
/// otherwise its Windows-1252 bytes padded with zeros, which must leave at
/// least two zeros. The field is left as it was where the text is refused.
pub fn write_encoded_str(field: &str, s: &Option<String>, slice: &mut [u8]) -> (r: Result<(), BannerFieldError>)
    requires
        old(slice)@.len() >= 1,
    ensures
        match *s {
            None => r is Ok && final(slice)@ == old(slice)@,
            Some(text) => match spec_windows_1252(text@) {
                None => (r matches Err(BannerFieldError::Unencodable { field: f }) && f@ == field@)
                    && final(slice)@ == old(slice)@,
                Some(bytes) => if bytes.len() >= old(slice)@.len() - 1 {
                    (r matches Err(BannerFieldError::InvalidLength { field: f, expected, got }) && f@ == field@
                        && expected == old(slice)@.len() - 1 && got == bytes.len()) && final(slice)@ == old(
                        slice,
                    )@
                } else {
                    r is Ok && final(slice)@ == spec_padded(bytes, old(slice)@.len())
                },
            },
        },
{
    match s {
        None => Ok(()),
        Some(text) => {
            let bytes = match encode_windows_1252(text.as_str()) {
                Some(b) => b,
                None => {
                    return Err(BannerFieldError::Unencodable { field: field.to_owned() });
                },
            };
            let n = slice.len();
            if bytes.len() >= n - 1 {
                return Err(BannerFieldError::InvalidLength { field: field.to_owned(), expected: n - 1, got: bytes.len() });
            }
            let ghost target = spec_padded(bytes@, n as nat);
            let mut i: usize = 0;
            while i < n
                invariant
                    0 <= i <= n,
                    n == slice@.len(),
                    bytes@.len() < n,
                    target == spec_padded(bytes@, n as nat),
                    forall|j: int| 0 <= j < i ==> slice@[j] == target[j],
                decreases n - i,
            {
                if i < bytes.len() {
                    slice[i] = bytes[i];
                } else {
                    slice[i] = 0;
                }
                i = i + 1;
            }
            assert(slice@ =~= target);
            Ok(())
        },
    }
}

} // verus!
