//! Padding for alignment.
use vstd::prelude::*;
use crate::endian::Endianness;
use crate::reader::{Readable, ReadError, SliceReader};
use crate::writer::{RoundTrip, VecWriter, Writable};

verus! {

/// Whether `a` is a power of two.
pub open spec fn is_power_of_two(a: usize) -> bool {
    a > 0 && a & ((a - 1) as usize) == 0
}

/// `n` rounded up with the mask of `align_to`: `(n + align_to - 1) & !(align_to - 1)`
/// (the complement of `align_to - 1` is `usize::MAX - (align_to - 1)`).
pub open spec fn spec_align_byte_count(align_to: usize, n: usize) -> usize {
    ((n + align_to - 1) as usize) & !((align_to - 1) as usize)
}

/// Rounds `n` up with the mask of `align_to`; for a power of two this is the
/// least multiple of `align_to` that is at least `n`.
pub fn align_byte_count(align_to: usize, n: usize) -> (r: usize)
    requires
        align_to >= 1,
        n + align_to - 1 <= usize::MAX,
    ensures
        r == spec_align_byte_count(align_to, n),
        is_power_of_two(align_to) ==> r & ((align_to - 1) as usize) == 0 && n <= r && r < n + align_to,
{
    let adjust = align_to - 1;
    let r = (n + adjust) & !adjust;
    proof {
        if is_power_of_two(align_to) {
            lemma_align_power_of_two(align_to, n);
        }
    }
    r
}

/// For a power of two `a`, the rounded count has none of the bits below `a`
/// set (it is a multiple of `a`) and is the least such count at least `n`.
pub proof fn lemma_align_power_of_two(a: usize, n: usize)
    requires
        is_power_of_two(a),
        n + a - 1 <= usize::MAX,
    ensures
        spec_align_byte_count(a, n) & ((a - 1) as usize) == 0,
        n <= spec_align_byte_count(a, n),
        spec_align_byte_count(a, n) < n + a,
{
    let m = (a - 1) as usize;
    let x = (n + m) as usize;
    let r = spec_align_byte_count(a, n);
    assert(r == x & !m);
    assert(x & !m <= x && x - (x & !m) <= m) by (bit_vector);
    assert((x & !m) & m == 0) by (bit_vector);
}

/// How many bytes pad `n` up to the next multiple of `align_to`.
pub fn pad_bytes_count(align_to: usize, n: usize) -> (r: usize)
    requires
        align_to >= 1,
        n + align_to - 1 <= usize::MAX,
        is_power_of_two(align_to) || n <= spec_align_byte_count(align_to, n),
    ensures
        r == spec_align_byte_count(align_to, n) - n,
        is_power_of_two(align_to) ==> ((n + r) as usize) & ((align_to - 1) as usize) == 0 && r < align_to,
{
    let a = align_byte_count(align_to, n);
    a - n
}

/// The padding bytes that fill `n` up to a multiple of `align_to`: zeroes.
pub fn pad_bytes(align_to: usize, n: usize) -> (r: Vec<u8>)
    requires
        align_to >= 1,
        n + align_to - 1 <= usize::MAX,
        n <= spec_align_byte_count(align_to, n),
        spec_align_byte_count(align_to, n) - n <= 32,
    ensures
        r@ == Seq::new((spec_align_byte_count(align_to, n) - n) as nat, |i: int| 0u8),
{
    let count = pad_bytes_count(align_to, n);
    zero_bytes(count)
}

/// The padding that `pad_bytes_ff` gives: its table holds zeroes as well, so
/// these are zeroes too.
pub fn pad_bytes_ff(align_to: usize, n: usize) -> (r: Vec<u8>)
    requires
        align_to >= 1,
        n + align_to - 1 <= usize::MAX,
        n <= spec_align_byte_count(align_to, n),
        spec_align_byte_count(align_to, n) - n <= 32,
    ensures
        r@ == Seq::new((spec_align_byte_count(align_to, n) - n) as nat, |i: int| 0u8),
{
    let count = pad_bytes_count(align_to, n);
    zero_bytes(count)
}

/// `count` zero bytes.
pub fn zero_bytes(count: usize) -> (r: Vec<u8>)
    ensures
        r@ == Seq::new(count as nat, |i: int| 0u8),
{
    let mut v: Vec<u8> = Vec::new();
    let mut i: usize = 0;
    while i < count
        invariant
            0 <= i <= count,
            v@ == Seq::new(i as nat, |j: int| 0u8),
        decreases count - i,
    {
        v.push(0u8);
        i = i + 1;
        assert(v@ =~= Seq::new(i as nat, |j: int| 0u8));
    }
    v
}

/// A run of padding bytes that reading skips and writing fills with zeroes.
#[derive(Copy, Clone, Debug, Eq, PartialEq, Ord, PartialOrd)]
pub struct PaddingBlackhole(pub usize);

impl DeepView for PaddingBlackhole {
    type V = usize;

    open spec fn deep_view(&self) -> usize {
        self.0
    }
}

impl<'a, E: Endianness> Readable<'a, E> for PaddingBlackhole {
    type Args = usize;

    open spec fn spec_read(data: Seq<u8>, args: usize) -> Option<(usize, nat)> {
        if args <= data.len() {
            Some((args, args as nat))
        } else {
            None
        }
    }

    open spec fn spec_size(v: usize) -> nat {
        v as nat
    }

    open spec fn spec_fixed_size() -> Option<nat> {
        None
    }

    proof fn lemma_read_size(data: Seq<u8>, args: usize) {
    }

    proof fn lemma_read_prefix(data: Seq<u8>, args: usize, more: Seq<u8>) {
    }

    proof fn lemma_fixed_size(v: usize) {
    }

    fn read_from(reader: &mut SliceReader<'a, E>, args: usize) -> (res: Result<
        PaddingBlackhole,
        ReadError,
    >) {
        reader.advance(args)?;
        Ok(PaddingBlackhole(args))
    }

    fn size(&self) -> (r: Result<usize, ReadError>) {
        Ok(self.0)
    }

    fn fixed_size() -> (r: Option<usize>) {
        None
    }
}

impl<E: Endianness> Writable<E> for PaddingBlackhole {
    open spec fn spec_write(v: usize) -> Seq<u8> {
        Seq::new(v as nat, |i: int| 0u8)
    }

    fn write_to(&self, writer: &mut VecWriter<E>) -> (r: u64) {
        let zeroes = zero_bytes(self.0);
        writer.write_bytes(zeroes.as_slice());
        self.0 as u64
    }
}

impl<'a, E: Endianness> RoundTrip<'a, E> for PaddingBlackhole {
    open spec fn spec_round_trips(v: usize) -> bool {
        true
    }

    open spec fn spec_args_for(v: usize) -> usize {
        v
    }

    proof fn lemma_write_then_read(v: usize, rest: Seq<u8>) {
    }
}

} // verus!
