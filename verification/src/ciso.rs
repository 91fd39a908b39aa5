//! The block map of a CISO disc image: the image is cut into blocks of 2 MiB
//! and only blocks holding data are stored; a header maps which are.
use vstd::prelude::*;

verus! {

/// The size of the CISO header.
pub const CISO_HEADER_SIZE: usize = 0x8000;

/// The size of a CISO block.
pub const CISO_BLOCK_SIZE: u32 = 0x20_0000;

/// The block map of a CISO image being written: one byte per block, 1 for a
/// block stored in the file and 0 for one skipped; and how many were
/// skipped. The file itself is written by the caller.
pub struct CisoWriter {
    blocks_map: Vec<u8>,
    skipped_blocks: u32,
}

impl View for CisoWriter {
    type V = (Seq<u8>, u32);

    closed spec fn view(&self) -> (Seq<u8>, u32) {
        (self.blocks_map@, self.skipped_blocks)
    }
}

/// `pos` rounded up to a multiple of the block size.
pub open spec fn spec_round_up(pos: u64) -> int {
    ((pos + CISO_BLOCK_SIZE - 1) / (CISO_BLOCK_SIZE as int)) * CISO_BLOCK_SIZE
}

/// The number of the block that begins at or after file position `pos`,
/// counting skipped blocks too.
pub open spec fn spec_current_block(pos: u64, skipped: u32) -> int {
    spec_round_up(pos) / (CISO_BLOCK_SIZE as int) + skipped
}

/// `n` bytes of `v`.
pub open spec fn spec_repeat(v: u8, n: nat) -> Seq<u8> {
    Seq::new(n, |i: int| v)
}

/// Rounding up with a mask is rounding up to a multiple of the block size.
proof fn lemma_round_up(pos: u64)
    requires
        pos + CISO_BLOCK_SIZE - 1 <= u64::MAX,
    ensures
        ((pos + 0x1F_FFFFu64) as u64) & !0x1F_FFFFu64 == spec_round_up(pos),
        pos <= spec_round_up(pos) < pos + CISO_BLOCK_SIZE,
        spec_round_up(pos) % (CISO_BLOCK_SIZE as int) == 0,
{
    let x = (pos + 0x1F_FFFFu64) as u64;
    assert(x & !0x1F_FFFFu64 == (x / 0x20_0000u64) * 0x20_0000u64) by (bit_vector);
    assert(pos <= (x / 0x20_0000u64) * 0x20_0000u64 < pos + 0x20_0000u64) by (bit_vector)
        requires
            x == pos + 0x1F_FFFFu64,
    ;
}

/// Appends `n` copies of `v`.
fn extend_repeat(map: &mut Vec<u8>, v: u8, n: usize)
    ensures
        final(map)@ == old(map)@ + spec_repeat(v, n as nat),
{
    let mut i: usize = 0;
    while i < n
        invariant
            0 <= i <= n,
            map@ == old(map)@ + spec_repeat(v, i as nat),
        decreases n - i,
    {
        map.push(v);
        i = i + 1;
        assert(map@ =~= old(map)@ + spec_repeat(v, i as nat));
    }
}

impl CisoWriter {
    /// The number of blocks the map holds so far.
    pub fn mapped_blocks(&self) -> (r: usize)
        ensures
            r == self@.0.len(),
    {
        self.blocks_map.len()
    }

    /// The number of blocks skipped so far.
    pub fn skipped(&self) -> (r: u32)
        ensures
            r == self@.1,
    {
        self.skipped_blocks
    }

    /// An empty block map (the caller writes a header's worth of zeros
    /// first).
    pub fn new() -> (r: CisoWriter)
        ensures
            r@ == (Seq::<u8>::empty(), 0u32),
    {
        CisoWriter { blocks_map: Vec::new(), skipped_blocks: 0 }
    }

    /// Skips `bytes` bytes of zeros at file position `pos`: the current block
    /// is finished with zeros, every whole block after it is skipped, and
    /// the rest goes to the start of the next block as zeros. Returns how
    /// many zeros to write before and after; the blocks up to the current
    /// one are marked as stored and the skipped ones as skipped.
    pub fn skip_bytes(&mut self, pos: u64, bytes: u64) -> (r: (u64, u64))
        requires
            pos + CISO_BLOCK_SIZE - 1 <= u64::MAX,
            old(self)@.0.len() <= spec_current_block(pos, old(self)@.1) <= usize::MAX,
            old(self)@.1 + (bytes - if spec_round_up(pos) - pos < bytes {
                spec_round_up(pos) - pos
            } else {
                bytes as int
            }) / (CISO_BLOCK_SIZE as int) <= u32::MAX,
        ensures
            ({
                let extra = if spec_round_up(pos) - pos < bytes {
                    spec_round_up(pos) - pos
                } else {
                    bytes as int
                };
                let rest = bytes - extra;
                let to_skip = rest / (CISO_BLOCK_SIZE as int);
                let stored = spec_current_block(pos, old(self)@.1) - old(self)@.0.len();
                &&& r.0 == extra
                &&& r.1 == rest % (CISO_BLOCK_SIZE as int)
                &&& final(self)@.0 == old(self)@.0 + spec_repeat(1, stored as nat) + spec_repeat(0, to_skip as nat)
                &&& final(self)@.1 == old(self)@.1 + to_skip
            }),
    {
        proof {
            lemma_round_up(pos);
        }
        let pos_rounded_up = (pos + 0x1F_FFFF) & !0x1F_FFFFu64;
        let gap = pos_rounded_up - pos;
        let extra = if gap < bytes {
            gap
        } else {
            bytes
        };
        let rest = bytes - extra;
        let current_block = pos_rounded_up / (CISO_BLOCK_SIZE as u64) + self.skipped_blocks as u64;
        let l = current_block as usize - self.blocks_map.len();
        extend_repeat(&mut self.blocks_map, 1, l);
        let to_skip = rest / (CISO_BLOCK_SIZE as u64);
        extend_repeat(&mut self.blocks_map, 0, to_skip as usize);
        self.skipped_blocks = self.skipped_blocks + to_skip as u32;
        (extra, rest % (CISO_BLOCK_SIZE as u64))
    }

    /// Finishes the image at file position `pos`: the blocks up to the
    /// current one are marked as stored, and the header is returned: "CISO",
    /// the block size (little-endian) and the block map. The caller writes it
    /// at the start of the file.
    pub fn finish(&mut self, pos: u64) -> (r: Vec<u8>)
        requires
            pos + CISO_BLOCK_SIZE - 1 <= u64::MAX,
            old(self)@.0.len() <= spec_current_block(pos, old(self)@.1) <= usize::MAX,
            spec_current_block(pos, old(self)@.1) + 8 <= usize::MAX,
        ensures
            final(self)@.0 == old(self)@.0 + spec_repeat(
                1,
                (spec_current_block(pos, old(self)@.1) - old(self)@.0.len()) as nat,
            ),
            final(self)@.1 == old(self)@.1,
            r@ == seq![0x43u8, 0x49u8, 0x53u8, 0x4Fu8, 0x00u8, 0x00u8, 0x20u8, 0x00u8] + final(self)@.0,
    {
        proof {
            lemma_round_up(pos);
        }
        let pos_rounded_up = (pos + 0x1F_FFFF) & !0x1F_FFFFu64;
        let current_block = pos_rounded_up / (CISO_BLOCK_SIZE as u64) + self.skipped_blocks as u64;
        let l = current_block as usize - self.blocks_map.len();
        extend_repeat(&mut self.blocks_map, 1, l);
        let mut header: Vec<u8> = vec![0x43u8, 0x49u8, 0x53u8, 0x4Fu8, 0x00u8, 0x00u8, 0x20u8, 0x00u8];
        let ghost start = header@;
        let mut i: usize = 0;
        while i < self.blocks_map.len()
            invariant
                0 <= i <= self.blocks_map@.len(),
                header@ == start + self.blocks_map@.take(i as int),
            decreases self.blocks_map@.len() - i,
        {
            header.push(self.blocks_map[i]);
            i = i + 1;
            assert(header@ =~= start + self.blocks_map@.take(i as int));
        }
        assert(self.blocks_map@.take(self.blocks_map@.len() as int) =~= self.blocks_map@);
        header
    }
}

} // verus!
