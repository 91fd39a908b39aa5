//! The GCZ compressed disc image: the image is cut into blocks of 16 KiB,
//! each stored zlib-compressed where that saves more than ten bytes and as it
//! is otherwise. A header gives, for each block, where its stored bytes begin
//! (with a flag for a block stored as it is) and their Adler-32 checksum.
//!
//! The writer here decides what goes into the file; the caller writes it:
//! what each call returns is appended to the file, and the header that
//! `finish` returns is written over the reserved space at its start.
use vstd::prelude::*;
use crate::endian::{encode_u32, encode_u64};
use crate::writer::VecWriter;

verus! {

/// The size of a block of the image.
pub const GCZ_BLOCK_SIZE: u64 = 0x4000;

/// The first four bytes of a GCZ file.
pub const GCZ_MAGIC: u32 = 0xB10B_C001;

/// The flag that the offset of a block stored as it is carries.
pub const GCZ_RAW_FLAG: u64 = 0x8000_0000_0000_0000;

/// The largest image the writer takes, a whole number of blocks: below it,
/// every offset leaves the flag's bit free.
pub const GCZ_MAX_IMAGE_SIZE: u64 = 0x7FFF_FFFF_FFFF_C000;

/// What `flate2::Compress::compress` writes for `input` with a fresh
/// compressor at the best level with a zlib header, the whole input at once,
/// a finishing flush and an output buffer of one block: the zlib stream where
/// it ends within that buffer, `None` where it does not.
pub uninterp spec fn spec_zlib_block(input: Seq<u8>) -> Option<Seq<u8>>;

/// `flate2::Compress::compress`, as `spec_zlib_block` names it: the
/// compressed bytes where the stream ended (`Status::StreamEnd`), `None` on
/// any other status or an error.
#[verifier::external_body]
fn zlib_block(input: &[u8]) -> (r: Option<Vec<u8>>)
    ensures
        match r {
            Some(v) => spec_zlib_block(input@) == Some(v@),
            None => spec_zlib_block(input@) is None,
        },
{
    let mut compressor = flate2::Compress::new(flate2::Compression::best(), true);
    let mut out = vec![0u8; 0x4000];
    match compressor.compress(input, &mut out, flate2::FlushCompress::Finish) {
        Ok(flate2::Status::StreamEnd) => {
            out.truncate(compressor.total_out() as usize);
            Some(out)
        },
        _ => None,
    }
}

/// The two running sums of Adler-32 over `s`: the first is one plus the sum
/// of the bytes, the second the sum of the first after each byte, both
/// modulo 65521.
pub open spec fn spec_adler32_sums(s: Seq<u8>) -> (int, int)
    decreases s.len(),
{
    if s.len() == 0 {
        (1, 0)
    } else {
        let prev = spec_adler32_sums(s.drop_last());
        let a = (prev.0 + s.last()) % 65521;
        (a, (prev.1 + a) % 65521)
    }
}

/// The Adler-32 checksum of `s`: the second sum in the high half, the first
/// in the low half.
pub open spec fn spec_adler32(s: Seq<u8>) -> u32 {
    let sums = spec_adler32_sums(s);
    (sums.1 * 65536 + sums.0) as u32
}

/// `adler32::adler32` on a byte slice: the Adler-32 checksum of the bytes.
/// Reading from a slice does not fail, so the error arm is never taken.
#[verifier::external_body]
fn adler32_of(bytes: &[u8]) -> (r: u32)
    ensures
        r == spec_adler32(bytes@),
{
    match adler32::adler32(bytes) {
        Ok(hash) => hash,
        Err(_) => 0,
    }
}

/// `n` zero bytes.
pub open spec fn spec_zeros(n: nat) -> Seq<u8> {
    Seq::new(n, |i: int| 0u8)
}

/// The `i`-th block of the image.
pub open spec fn spec_block(stream: Seq<u8>, i: int) -> Seq<u8> {
    stream.subrange(i * 0x4000, i * 0x4000 + 0x4000)
}

/// The number of whole blocks in the image so far.
pub open spec fn spec_full_blocks(stream: Seq<u8>) -> nat {
    stream.len() / 0x4000
}

/// How a block is stored: whether compressed, and the bytes stored. A block is
/// stored compressed where its zlib stream ends within a block and is at
/// most ten bytes shorter than one; it is stored as it is otherwise.
pub open spec fn spec_stored(block: Seq<u8>) -> (bool, Seq<u8>) {
    match spec_zlib_block(block) {
        Some(c) => if c.len() <= 0x4000 - 10 {
            (true, c)
        } else {
            (false, block)
        },
        None => (false, block),
    }
}

/// The stored bytes of the first `n` blocks, one after the other.
pub open spec fn spec_body(stream: Seq<u8>, n: nat) -> Seq<u8>
    decreases n,
{
    if n == 0 {
        Seq::empty()
    } else {
        spec_body(stream, (n - 1) as nat) + spec_stored(spec_block(stream, n - 1)).1
    }
}

/// The stored bytes of all whole blocks of the image so far.
pub open spec fn spec_image_body(stream: Seq<u8>) -> Seq<u8> {
    spec_body(stream, spec_full_blocks(stream))
}

/// The header's offset for block `i`: where its stored bytes begin, plus the
/// flag where it is stored as it is.
pub open spec fn spec_offset_entry(stream: Seq<u8>, i: int) -> u64 {
    let start = spec_body(stream, i as nat).len();
    if spec_stored(spec_block(stream, i)).0 {
        start as u64
    } else {
        (start + GCZ_RAW_FLAG) as u64
    }
}

/// The header's checksum for block `i`: that of its stored bytes.
pub open spec fn spec_hash_entry(stream: Seq<u8>, i: int) -> u32 {
    spec_adler32(spec_stored(spec_block(stream, i)).1)
}

/// Each stored block is at most one block long.
proof fn lemma_stored_len(block: Seq<u8>)
    requires
        block.len() == 0x4000,
    ensures
        spec_stored(block).1.len() <= 0x4000,
{
}

/// The stored bytes of `n` whole blocks take at most `n` blocks.
proof fn lemma_body_len(stream: Seq<u8>, n: nat)
    requires
        n * 0x4000 <= stream.len(),
    ensures
        spec_body(stream, n).len() <= n * 0x4000,
    decreases n,
{
    if n > 0 {
        lemma_body_len(stream, (n - 1) as nat);
        lemma_stored_len(spec_block(stream, n - 1));
    }
}

/// What is stored of whole blocks does not change when bytes are appended.
proof fn lemma_body_prefix(s1: Seq<u8>, s2: Seq<u8>, n: nat)
    requires
        n * 0x4000 <= s1.len() <= s2.len(),
        s2.take(s1.len() as int) == s1,
    ensures
        spec_body(s2, n) == spec_body(s1, n),
        forall|i: int| 0 <= i < n ==> #[trigger] spec_block(s2, i) == spec_block(s1, i),
        forall|k: nat| k <= n ==> #[trigger] spec_body(s2, k) == spec_body(s1, k),
    decreases n,
{
    assert forall|i: int| 0 <= i < n implies #[trigger] spec_block(s2, i) == spec_block(s1, i) by {
        assert(spec_block(s2, i) =~= spec_block(s1, i));
    }
    if n > 0 {
        lemma_body_prefix(s1, s2, (n - 1) as nat);
    }
}

/// The header's offsets of the first `n` blocks, eight little-endian bytes
/// each.
pub open spec fn spec_offsets(stream: Seq<u8>, n: nat) -> Seq<u8>
    decreases n,
{
    if n == 0 {
        Seq::empty()
    } else {
        spec_offsets(stream, (n - 1) as nat) + encode_u64(false, spec_offset_entry(stream, n - 1))
    }
}

/// The header's checksums of the first `n` blocks, four little-endian bytes
/// each.
pub open spec fn spec_hashes(stream: Seq<u8>, n: nat) -> Seq<u8>
    decreases n,
{
    if n == 0 {
        Seq::empty()
    } else {
        spec_hashes(stream, (n - 1) as nat) + encode_u32(false, spec_hash_entry(stream, n - 1))
    }
}

/// The header of an image: the magic, a zero word, the size of the stored
/// bytes, the size of the image as announced, the block size and the number
/// of blocks (its low 32 bits), then every block's offset and every block's
/// checksum; all little-endian.
pub open spec fn spec_header(stream: Seq<u8>, expected: u64) -> Seq<u8> {
    let n = spec_full_blocks(stream);
    encode_u32(false, GCZ_MAGIC) + encode_u32(false, 0) + encode_u64(
        false,
        spec_image_body(stream).len() as u64,
    ) + encode_u64(false, expected) + encode_u32(false, 0x4000) + encode_u32(false, n as u32)
        + spec_offsets(stream, n) + spec_hashes(stream, n)
}

/// The zero bytes that complete the last block of an image of `len` bytes.
pub open spec fn spec_padding(len: nat) -> nat {
    if len % 0x4000 == 0 {
        0
    } else {
        (0x4000 - len % 0x4000) as nat
    }
}

/// One byte more of the image adds, where it completes a block, that block's
/// stored bytes to the body, and nothing otherwise.
proof fn lemma_body_push(s: Seq<u8>, b: u8)
    ensures
        ({
            let t = s.push(b);
            let n = spec_full_blocks(s);
            &&& t.take(s.len() as int) == s
            &&& if t.len() % 0x4000 == 0 {
                &&& spec_full_blocks(t) == n + 1
                &&& spec_image_body(t) == spec_image_body(s) + spec_stored(spec_block(t, n as int)).1
            } else {
                &&& spec_full_blocks(t) == n
                &&& spec_image_body(t) == spec_image_body(s)
            }
        }),
{
    let t = s.push(b);
    assert(t.take(s.len() as int) =~= s);
    lemma_body_prefix(s, t, spec_full_blocks(s));
}

/// The stored bytes of fewer blocks begin those of more.
proof fn lemma_body_grows(stream: Seq<u8>, k: nat, m: nat)
    requires
        k <= m,
    ensures
        spec_body(stream, k).len() <= spec_body(stream, m).len(),
        spec_body(stream, m).take(spec_body(stream, k).len() as int) == spec_body(stream, k),
    decreases m,
{
    if k < m {
        lemma_body_grows(stream, k, (m - 1) as nat);
        assert(spec_body(stream, m).take(spec_body(stream, k).len() as int) =~= spec_body(
            stream,
            (m - 1) as nat,
        ).take(spec_body(stream, k).len() as int));
    } else {
        assert(spec_body(stream, m).take(spec_body(stream, k).len() as int) =~= spec_body(stream, k));
    }
}

/// Where a block's stored bytes begin in the body: its header offset
/// without the flag.
pub open spec fn spec_entry_start(entry: u64) -> int {
    (entry & !GCZ_RAW_FLAG) as int
}

/// Every block of an image can be found again from the header: its offset,
/// without the flag, is where its stored bytes begin in the body, and they end
/// where the next block's begin, or the body ends; the flag is clear just
/// where they are the block's zlib stream, and set where they are the block
/// itself; the checksum is that of the stored bytes.
pub proof fn lemma_blocks_found_again(stream: Seq<u8>, i: int)
    requires
        stream.len() <= GCZ_MAX_IMAGE_SIZE,
        0 <= i < spec_full_blocks(stream),
    ensures
        ({
            let body = spec_image_body(stream);
            let entry = spec_offset_entry(stream, i);
            let end = if i + 1 < spec_full_blocks(stream) {
                spec_entry_start(spec_offset_entry(stream, i + 1))
            } else {
                body.len() as int
            };
            let stored = body.subrange(spec_entry_start(entry), end);
            &&& 0 <= spec_entry_start(entry) <= end <= body.len()
            &&& entry & GCZ_RAW_FLAG == 0 ==> spec_zlib_block(spec_block(stream, i)) == Some(stored)
            &&& entry & GCZ_RAW_FLAG != 0 ==> stored == spec_block(stream, i)
            &&& spec_hash_entry(stream, i) == spec_adler32(stored)
        }),
{
    let n = spec_full_blocks(stream);
    let body = spec_image_body(stream);
    let lo = spec_body(stream, i as nat);
    let hi = spec_body(stream, (i + 1) as nat);
    lemma_body_grows(stream, i as nat, (i + 1) as nat);
    lemma_body_grows(stream, (i + 1) as nat, n);
    lemma_body_len(stream, (i + 1) as nat);
    let st = spec_stored(spec_block(stream, i));
    assert(hi == lo + st.1);
    let a = lo.len() as u64;
    assert(a & !0x8000_0000_0000_0000u64 == a && a & 0x8000_0000_0000_0000u64 == 0) by (bit_vector)
        requires
            a < 0x8000_0000_0000_0000u64,
    ;
    assert(((a + 0x8000_0000_0000_0000u64) as u64) & !0x8000_0000_0000_0000u64 == a && ((a
        + 0x8000_0000_0000_0000u64) as u64) & 0x8000_0000_0000_0000u64 != 0) by (bit_vector)
        requires
            a < 0x8000_0000_0000_0000u64,
    ;
    if i + 1 < n {
        lemma_body_len(stream, (i + 2) as nat);
        lemma_body_grows(stream, (i + 1) as nat, (i + 2) as nat);
        let b = hi.len() as u64;
        assert(b & !0x8000_0000_0000_0000u64 == b) by (bit_vector)
            requires
                b < 0x8000_0000_0000_0000u64,
        ;
        assert(((b + 0x8000_0000_0000_0000u64) as u64) & !0x8000_0000_0000_0000u64 == b) by (bit_vector)
            requires
                b < 0x8000_0000_0000_0000u64,
        ;
    }
    assert(body == spec_body(stream, n));
    assert(body.take(hi.len() as int) == hi);
    assert forall|k: int| 0 <= k < st.1.len() implies body.subrange(lo.len() as int, hi.len() as int)[k]
        == st.1[k] by {
        assert(body[lo.len() + k] == body.take(hi.len() as int)[lo.len() + k]);
        assert(hi[lo.len() + k] == st.1[k]);
    }
    assert(body.subrange(lo.len() as int, hi.len() as int) =~= st.1);
}

/// The stored form of a block.
fn stored_form(block: Vec<u8>) -> (r: (bool, Vec<u8>))
    ensures
        (r.0, r.1@) == spec_stored(block@),
{
    match zlib_block(block.as_slice()) {
        Some(c) => {
            if c.len() <= 0x4000 - 10 {
                (true, c)
            } else {
                (false, block)
            }
        },
        None => (false, block),
    }
}

/// A GCZ image being written: the image so far, the size announced for it,
/// and what the header will hold. Each call returns what to append to the
/// file after the space reserved for the header.
pub struct GczWriter {
    expected_uncompressed_size: u64,
    total_bytes_written: u64,
    block_offsets: Vec<u64>,
    hashes: Vec<u32>,
    input_buf: Vec<u8>,
    zero_block: Option<(bool, Vec<u8>, u32)>,
    stream: Ghost<Seq<u8>>,
}

impl GczWriter {
    /// The bytes of the image written so far.
    pub closed spec fn stream(&self) -> Seq<u8> {
        self.stream@
    }

    /// The size announced for the image.
    pub closed spec fn expected_size(&self) -> u64 {
        self.expected_uncompressed_size
    }

    closed spec fn zero_block_ok(&self) -> bool {
        match self.zero_block {
            Some(z) => (z.0, z.1@) == spec_stored(spec_zeros(0x4000)) && z.2 == spec_adler32(z.1@),
            None => true,
        }
    }

    /// The writer's state agrees with the image written so far.
    pub closed spec fn wf(&self) -> bool {
        let s = self.stream@;
        let n = spec_full_blocks(s);
        &&& s.len() <= GCZ_MAX_IMAGE_SIZE
        &&& self.input_buf@ == s.skip((n * 0x4000) as int)
        &&& self.block_offsets@.len() == n
        &&& self.hashes@.len() == n
        &&& self.total_bytes_written == spec_body(s, n).len()
        &&& forall|i: int| 0 <= i < n ==> self.block_offsets@[i] == spec_offset_entry(s, i)
        &&& forall|i: int| 0 <= i < n ==> self.hashes@[i] == spec_hash_entry(s, i)
        &&& self.zero_block_ok()
    }

    /// A writer for an image of `uncompressed_size` bytes, and the size of the
    /// space to reserve for the header at the start of the file: 32 bytes and
    /// 12 for each block of the announced size.
    pub fn new(uncompressed_size: u64) -> (r: (GczWriter, u64))
        requires
            uncompressed_size <= u64::MAX - 0x3FFF,
        ensures
            r.0.wf(),
            r.0.stream() == Seq::<u8>::empty(),
            r.0.expected_size() == uncompressed_size,
            r.1 == 32 + 12 * ((uncompressed_size + 0x3FFF) / 0x4000),
    {
        let num_blocks = (uncompressed_size + 0x3FFF) / 0x4000;
        let w = GczWriter {
            expected_uncompressed_size: uncompressed_size,
            total_bytes_written: 0,
            block_offsets: Vec::new(),
            hashes: Vec::new(),
            input_buf: Vec::new(),
            zero_block: None,
            stream: Ghost(Seq::empty()),
        };
        assert(Seq::<u8>::empty().skip(0) =~= Seq::<u8>::empty());
        (w, 32 + 12 * num_blocks)
    }

    /// Records the next block, given how it is stored and the checksum of
    /// what is stored: appends the stored bytes to `out`.
    fn record_stored(&mut self, compressed: bool, stored: Vec<u8>, hash: u32, out: &mut Vec<u8>)
        requires
            old(self).total_bytes_written + stored@.len() < GCZ_RAW_FLAG,
        ensures
            final(self).block_offsets@ == old(self).block_offsets@.push(
                if compressed {
                    old(self).total_bytes_written
                } else {
                    (old(self).total_bytes_written + GCZ_RAW_FLAG) as u64
                },
            ),
            final(self).hashes@ == old(self).hashes@.push(hash),
            final(self).total_bytes_written == old(self).total_bytes_written + stored@.len(),
            final(out)@ == old(out)@ + stored@,
            final(self).input_buf == old(self).input_buf,
            final(self).stream == old(self).stream,
            final(self).expected_uncompressed_size == old(self).expected_uncompressed_size,
            final(self).zero_block == old(self).zero_block,
    {
        let t = self.total_bytes_written;
        if compressed {
            self.block_offsets.push(t);
        } else {
            assert(t | 0x8000_0000_0000_0000u64 == t + 0x8000_0000_0000_0000u64) by (bit_vector)
                requires
                    t < 0x8000_0000_0000_0000u64,
            ;
            self.block_offsets.push(t | GCZ_RAW_FLAG);
        }
        self.hashes.push(hash);
        self.total_bytes_written = t + stored.len() as u64;
        let mut stored = stored;
        out.append(&mut stored);
    }

    /// Appends a block of zeros to an image that ends where a block does; the
    /// stored form of a block of zeros is worked out once and kept.
    fn push_zero_block(&mut self, out: &mut Vec<u8>, Ghost(start): Ghost<Seq<u8>>)
        requires
            old(self).wf(),
            old(self).input_buf@.len() == 0,
            old(self).stream().len() + 0x4000 <= GCZ_MAX_IMAGE_SIZE,
            start + old(out)@ == spec_image_body(old(self).stream()),
        ensures
            final(self).wf(),
            final(self).input_buf@.len() == 0,
            final(self).stream() == old(self).stream() + spec_zeros(0x4000),
            final(self).expected_size() == old(self).expected_size(),
            start + final(out)@ == spec_image_body(final(self).stream()),
    {
        let ghost s = self.stream@;
        let ghost n = spec_full_blocks(s);
        let ghost t = s + spec_zeros(0x4000);
        let ghost offsets0 = self.block_offsets@;
        let ghost hashes0 = self.hashes@;
        proof {
            assert(t.take(s.len() as int) =~= s);
            lemma_body_prefix(s, t, n);
            lemma_body_len(s, n);
            assert(spec_block(t, n as int) =~= spec_zeros(0x4000));
        }
        let cached = match &self.zero_block {
            Some(z) => Some((z.0, z.1.clone(), z.2)),
            None => None,
        };
        let (compressed, stored, hash) = match cached {
            Some(z) => {
                let ghost kept = self.zero_block->0;
                assert(z.1@ =~= kept.1@);
                z
            },
            None => {
                let zeros = vec![0u8; 0x4000];
                assert(zeros@ =~= spec_zeros(0x4000));
                let (c, st) = stored_form(zeros);
                let h = adler32_of(st.as_slice());
                let kept = st.clone();
                assert(kept@ =~= st@);
                self.zero_block = Some((c, kept, h));
                (c, st, h)
            },
        };
        self.record_stored(compressed, stored, hash, out);
        self.stream = Ghost(t);
        assert(self.input_buf@ =~= t.skip(((n + 1) * 0x4000) as int));
        assert(start + out@ =~= spec_image_body(t));
        assert forall|i: int| 0 <= i < n + 1 implies self.block_offsets@[i] == spec_offset_entry(t, i)
            && self.hashes@[i] == spec_hash_entry(t, i) by {
            if i < n {
                assert(spec_body(t, i as nat) == spec_body(s, i as nat));
                assert(spec_block(t, i) == spec_block(s, i));
                assert(offsets0[i] == spec_offset_entry(s, i));
                assert(hashes0[i] == spec_hash_entry(s, i));
                assert(self.block_offsets@[i] == offsets0[i]);
                assert(self.hashes@[i] == hashes0[i]);
            }
        }
    }

    /// Appends one byte to the image; where it completes a block, the block's
    /// stored bytes go to `out`.
    fn push_byte(&mut self, b: u8, out: &mut Vec<u8>, Ghost(start): Ghost<Seq<u8>>)
        requires
            old(self).wf(),
            old(self).stream().len() + 1 <= GCZ_MAX_IMAGE_SIZE,
            start + old(out)@ == spec_image_body(old(self).stream()),
        ensures
            final(self).wf(),
            final(self).stream() == old(self).stream().push(b),
            final(self).expected_size() == old(self).expected_size(),
            start + final(out)@ == spec_image_body(final(self).stream()),
    {
        let ghost s = self.stream@;
        let ghost n = spec_full_blocks(s);
        let ghost t = s.push(b);
        let ghost offsets0 = self.block_offsets@;
        let ghost hashes0 = self.hashes@;
        proof {
            lemma_body_push(s, b);
            lemma_body_prefix(s, t, n);
            lemma_body_len(s, n);
        }
        self.input_buf.push(b);
        self.stream = Ghost(t);
        assert(self.input_buf@ =~= t.skip((n * 0x4000) as int));
        if self.input_buf.len() == 0x4000 {
            let mut block: Vec<u8> = Vec::new();
            std::mem::swap(&mut block, &mut self.input_buf);
            assert(block@ =~= spec_block(t, n as int));
            let (compressed, stored) = stored_form(block);
            let hash = adler32_of(stored.as_slice());
            self.record_stored(compressed, stored, hash, out);
            assert(self.input_buf@ =~= t.skip(((n + 1) * 0x4000) as int));
            assert(start + out@ =~= spec_image_body(t));
            assert forall|i: int| 0 <= i < n + 1 implies self.block_offsets@[i] == spec_offset_entry(t, i)
                && self.hashes@[i] == spec_hash_entry(t, i) by {
                if i < n {
                    assert(spec_body(t, i as nat) == spec_body(s, i as nat));
                    assert(spec_block(t, i) == spec_block(s, i));
                    assert(offsets0[i] == spec_offset_entry(s, i));
                    assert(hashes0[i] == spec_hash_entry(s, i));
                    assert(self.block_offsets@[i] == offsets0[i]);
                    assert(self.hashes@[i] == hashes0[i]);
                }
            }
        } else {
            assert forall|i: int| 0 <= i < n implies self.block_offsets@[i] == spec_offset_entry(t, i)
                && self.hashes@[i] == spec_hash_entry(t, i) by {
                assert(spec_body(t, i as nat) == spec_body(s, i as nat));
                assert(spec_block(t, i) == spec_block(s, i));
                assert(offsets0[i] == spec_offset_entry(s, i));
                assert(hashes0[i] == spec_hash_entry(s, i));
            }
        }
    }
    /// Appends `buf` to the image. Returns what to append to the file: the
    /// stored bytes of the blocks that `buf` completes.
    pub fn write_all(&mut self, buf: &[u8]) -> (out: Vec<u8>)
        requires
            old(self).wf(),
            old(self).stream().len() + buf@.len() <= GCZ_MAX_IMAGE_SIZE,
        ensures
            final(self).wf(),
            final(self).stream() == old(self).stream() + buf@,
            final(self).expected_size() == old(self).expected_size(),
            spec_image_body(old(self).stream()) + out@ == spec_image_body(final(self).stream()),
    {
        let ghost start = spec_image_body(self.stream@);
        let mut out: Vec<u8> = Vec::new();
        assert(start + out@ =~= start);
        let mut i: usize = 0;
        while i < buf.len()
            invariant
                0 <= i <= buf@.len(),
                self.wf(),
                self.stream() == old(self).stream() + buf@.take(i as int),
                self.expected_size() == old(self).expected_size(),
                start == spec_image_body(old(self).stream()),
                start + out@ == spec_image_body(self.stream()),
                old(self).stream().len() + buf@.len() <= GCZ_MAX_IMAGE_SIZE,
            decreases buf@.len() - i,
        {
            self.push_byte(buf[i], &mut out, Ghost(start));
            i = i + 1;
            assert(self.stream() =~= old(self).stream() + buf@.take(i as int));
        }
        assert(buf@.take(i as int) =~= buf@);
        out
    }

    /// Appends `bytes` zero bytes to the image, as `write_all` would, but with
    /// the stored form of a whole block of zeros worked out once. Returns what
    /// to append to the file.
    pub fn skip_bytes(&mut self, bytes: u64) -> (out: Vec<u8>)
        requires
            old(self).wf(),
            old(self).stream().len() + bytes <= GCZ_MAX_IMAGE_SIZE,
        ensures
            final(self).wf(),
            final(self).stream() == old(self).stream() + spec_zeros(bytes as nat),
            final(self).expected_size() == old(self).expected_size(),
            spec_image_body(old(self).stream()) + out@ == spec_image_body(final(self).stream()),
    {
        let ghost start = spec_image_body(self.stream@);
        let mut out: Vec<u8> = Vec::new();
        assert(start + out@ =~= start);
        assert(old(self).stream() + spec_zeros(0) =~= old(self).stream());
        let mut left = bytes;
        while left > 0 && self.input_buf.len() > 0
            invariant
                left <= bytes,
                self.wf(),
                self.stream() == old(self).stream() + spec_zeros((bytes - left) as nat),
                self.expected_size() == old(self).expected_size(),
                start == spec_image_body(old(self).stream()),
                start + out@ == spec_image_body(self.stream()),
                old(self).stream().len() + bytes <= GCZ_MAX_IMAGE_SIZE,
            decreases left,
        {
            self.push_byte(0, &mut out, Ghost(start));
            left = left - 1;
            assert(self.stream() =~= old(self).stream() + spec_zeros((bytes - left) as nat));
        }
        while left >= 0x4000
            invariant
                left <= bytes,
                left > 0 ==> self.input_buf@.len() == 0,
                self.wf(),
                self.stream() == old(self).stream() + spec_zeros((bytes - left) as nat),
                self.expected_size() == old(self).expected_size(),
                start == spec_image_body(old(self).stream()),
                start + out@ == spec_image_body(self.stream()),
                old(self).stream().len() + bytes <= GCZ_MAX_IMAGE_SIZE,
            decreases left,
        {
            self.push_zero_block(&mut out, Ghost(start));
            left = left - 0x4000;
            assert(self.stream() =~= old(self).stream() + spec_zeros((bytes - left) as nat));
        }
        while left > 0
            invariant
                left <= bytes,
                self.wf(),
                self.stream() == old(self).stream() + spec_zeros((bytes - left) as nat),
                self.expected_size() == old(self).expected_size(),
                start == spec_image_body(old(self).stream()),
                start + out@ == spec_image_body(self.stream()),
                old(self).stream().len() + bytes <= GCZ_MAX_IMAGE_SIZE,
            decreases left,
        {
            self.push_byte(0, &mut out, Ghost(start));
            left = left - 1;
            assert(self.stream() =~= old(self).stream() + spec_zeros((bytes - left) as nat));
        }
        out
    }

    /// Completes the last block with zeros and builds the header. Returns what
    /// to append to the file, and the header to write at its start.
    pub fn finish(self) -> (r: (Vec<u8>, Vec<u8>))
        requires
            self.wf(),
        ensures
            ({
                let s = self.stream() + spec_zeros(spec_padding(self.stream().len()));
                &&& spec_image_body(self.stream()) + r.0@ == spec_image_body(s)
                &&& r.1@ == spec_header(s, self.expected_size())
            }),
    {
        let mut w = self;
        let pad: usize = if w.input_buf.len() == 0 {
            0
        } else {
            0x4000 - w.input_buf.len()
        };
        let tail = w.skip_bytes(pad as u64);
        let ghost s = w.stream@;
        let ghost n = spec_full_blocks(s);
        let mut hw: VecWriter<byteorder::LittleEndian> = VecWriter::new();
        hw.write_u32(GCZ_MAGIC);
        hw.write_u32(0);
        hw.write_u64(w.total_bytes_written);
        hw.write_u64(w.expected_uncompressed_size);
        hw.write_u32(0x4000);
        hw.write_u32(w.block_offsets.len() as u32);
        let ghost fixed = hw@;
        let mut i: usize = 0;
        while i < w.block_offsets.len()
            invariant
                0 <= i <= n,
                w.wf(),
                w.stream() == s,
                n == spec_full_blocks(s),
                hw@ == fixed + spec_offsets(s, i as nat),
            decreases n - i,
        {
            hw.write_u64(w.block_offsets[i]);
            i = i + 1;
            assert(hw@ =~= fixed + spec_offsets(s, i as nat));
        }
        let ghost with_offsets = hw@;
        let mut j: usize = 0;
        while j < w.hashes.len()
            invariant
                0 <= j <= n,
                w.wf(),
                w.stream() == s,
                n == spec_full_blocks(s),
                hw@ == with_offsets + spec_hashes(s, j as nat),
            decreases n - j,
        {
            hw.write_u32(w.hashes[j]);
            j = j + 1;
            assert(hw@ =~= with_offsets + spec_hashes(s, j as nat));
        }
        assert(hw@ =~= spec_header(s, w.expected_uncompressed_size));
        (tail, hw.into_bytes())
    }
}

} // verus!
