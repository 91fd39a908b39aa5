//! The bytes of a resource as they are stored in a pak: compressed ones
//! start with their decompressed size and a two-byte header, followed by a
//! raw deflate stream.
use vstd::prelude::*;
use crate::endian::be_u32;
use crate::reader::SliceReader;

verus! {

/// What `flate2::Decompress::decompress` makes of `input`, a raw deflate
/// stream without a zlib header, with a fresh decompressor, a finishing
/// flush and an output buffer of `size` zeroed bytes: the buffer after the
/// call, where it does not fail.
pub uninterp spec fn spec_inflate_raw(input: Seq<u8>, size: nat) -> Option<Seq<u8>>;

/// `flate2::Decompress::decompress`, as `spec_inflate_raw` names it: the
/// buffer of `size` bytes after the call, `None` where the call fails. The
/// buffer keeps its length, whatever the stream holds.
#[verifier::external_body]
fn inflate_raw(input: &[u8], size: usize) -> (r: Option<Vec<u8>>)
    ensures
        match r {
            Some(v) => spec_inflate_raw(input@, size as nat) == Some(v@) && v@.len() == size,
            None => spec_inflate_raw(input@, size as nat) is None,
        },
{
    let mut output = vec![0u8; size];
    match flate2::Decompress::new(false).decompress(input, &mut output, flate2::FlushDecompress::Finish) {
        Ok(_) => Some(output),
        Err(_) => None,
    }
}

/// A resource's bytes, and whether they are compressed.
#[derive(Clone, Debug)]
pub struct ResourceData<'a> {
    pub is_compressed: bool,
    pub data: SliceReader<'a, byteorder::BigEndian>,
}

/// The decompressed size that compressed bytes start with: their first four
/// bytes, big-endian.
pub open spec fn spec_stored_size(data: Seq<u8>) -> nat {
    be_u32(data) as nat
}

impl<'a> ResourceData<'a> {
    /// Whether the bytes can be decompressed: uncompressed ones always;
    /// compressed ones where they hold the size and header, and the stream
    /// after them inflates.
    pub open spec fn spec_decompressible(&self) -> bool {
        !self.is_compressed || (self.data@.len() >= 6 && spec_inflate_raw(
            self.data@.skip(6),
            spec_stored_size(self.data@),
        ) is Some)
    }

    /// The decompressed bytes: uncompressed ones as they are; compressed ones
    /// the stream after the size and header, inflated into a buffer of the
    /// size.
    pub open spec fn spec_decompressed(&self) -> Seq<u8> {
        if self.is_compressed {
            spec_inflate_raw(self.data@.skip(6), spec_stored_size(self.data@))->0
        } else {
            self.data@
        }
    }

    /// The decompressed bytes, where they can be decompressed.
    pub fn decompress(&self) -> (r: Vec<u8>)
        requires
            self.spec_decompressible(),
        ensures
            r@ == self.spec_decompressed(),
    {
        if self.is_compressed {
            let mut reader = self.data.clone();
            let size = match reader.read_u32() {
                Ok(size) => size,
                Err(_) => {
                    return Vec::new();
                },
            };
            let _header = match reader.read_u16() {
                Ok(h) => h,
                Err(_) => {
                    return Vec::new();
                },
            };
            proof {
                assert(self.data@.skip(4).skip(2) =~= self.data@.skip(6));
            }
            match inflate_raw(reader.as_slice(), size as usize) {
                Some(v) => v,
                None => Vec::new(),
            }
        } else {
            vstd::slice::slice_to_vec(self.data.as_slice())
        }
    }

    /// The decompressed bytes where they can be decompressed; `None` where
    /// compressed bytes are too short for their size and header, or their
    /// stream does not inflate.
    pub fn try_decompress(&self) -> (r: Option<Vec<u8>>)
        ensures
            r is Some <==> self.spec_decompressible(),
            r matches Some(v) ==> v@ == self.spec_decompressed(),
    {
        if self.is_compressed {
            if self.data.len() < 6 {
                return None;
            }
            let mut reader = self.data.clone();
            let size = match reader.read_u32() {
                Ok(size) => size,
                Err(_) => {
                    return None;
                },
            };
            let _ = reader.advance(2);
            proof {
                assert(self.data@.skip(4).skip(2) =~= self.data@.skip(6));
            }
            if inflate_raw(reader.as_slice(), size as usize).is_none() {
                return None;
            }
        }
        Some(self.decompress())
    }
}

} // verus!
