//! Whole texture images: the blocks of texels laid out over the image, and
//! the chain of mipmaps a texture is built from.
use vstd::prelude::*;
use crate::txtr::{
    TxtrFormat, TxtrPaletteFormat, block_pixel, lemma_distinct_props, palette_entry, spec_c4_entry,
    spec_c8_entry, spec_distinct, spec_encodings, spec_first_entry_from, spec_last_entry_below,
    spec_palette_color_type, spec_palette_encoding, spec_written_palette, spec_level_fits, spec_box_filter,
    spec_box_needs, box_filter_pixels, spec_block_dimensions, spec_block_pixel_bytes, spec_bytes_per_block, spec_channel_count,
    spec_color_type, spec_decode_block, spec_encode_block, spec_flipped, spec_palette_covers,
    spec_palette_fits,
};

verus! {

/// Byte `p` of an image of `w` by `h` pixels with `cc` channels, laid out
/// from `nblocks` decoded blocks of `bw` by `bh` pixels: blocks fill the
/// image row by row of blocks from its top left, with as many blocks to a row
/// as fit in the width; with `flipped` the image's rows are stored bottom
/// up. Bytes that no block covers are 0.
pub open spec fn spec_image_byte(
    decoded: Seq<u8>,
    nblocks: int,
    w: int,
    h: int,
    bw: int,
    bh: int,
    cc: int,
    flipped: bool,
    p: int,
) -> u8 {
    let q = p / cc;
    let c = p % cc;
    let row = q / w;
    let x = q % w;
    let y = if flipped {
        h - 1 - row
    } else {
        row
    };
    let nbw = w / bw;
    let bx = x / bw;
    let i = (y / bh) * nbw + bx;
    if bx < nbw && i < nblocks {
        decoded[i * (bw * bh * cc) + ((y % bh) * bw + x % bw) * cc + c]
    } else {
        0
    }
}

/// The image laid out from decoded blocks (see `spec_image_byte`).
pub open spec fn spec_tiled(
    decoded: Seq<u8>,
    nblocks: int,
    w: int,
    h: int,
    bw: int,
    bh: int,
    cc: int,
    flipped: bool,
) -> Seq<u8> {
    Seq::new((w * h * cc) as nat, |p: int| spec_image_byte(decoded, nblocks, w, h, bw, bh, cc, flipped, p))
}

/// Lays out `nblocks` decoded blocks over an image (see `spec_image_byte`).
pub fn tile_blocks(
    decoded: &[u8],
    nblocks: usize,
    w: usize,
    h: usize,
    bw: usize,
    bh: usize,
    cc: usize,
    flipped: bool,
) -> (r: Vec<u8>)
    requires
        bw >= 1,
        bh >= 1,
        cc >= 1,
        w * h * cc <= usize::MAX,
        bw * bh * cc <= usize::MAX,
        decoded@.len() == nblocks * (bw * bh * cc),
        nblocks <= (w / bw) * (h / bh),
    ensures
        r@ == spec_tiled(decoded@, nblocks as int, w as int, h as int, bw as int, bh as int, cc as int, flipped),
{
    let ghost target = spec_tiled(decoded@, nblocks as int, w as int, h as int, bw as int, bh as int, cc as int, flipped);
    proof {
        assert(w * h <= w * h * cc) by (nonlinear_arith)
            requires
                cc >= 1,
        ;
        assert(bw * bh <= bw * bh * cc) by (nonlinear_arith)
            requires
                cc >= 1,
        ;
    }
    let total = w * h * cc;
    let bp = bw * bh * cc;
    let _dlen = decoded.len();
    let nbw = w / bw;
    let mut out: Vec<u8> = Vec::new();
    let mut p: usize = 0;
    proof {
        assert(bw * bh >= 1) by (nonlinear_arith)
            requires
                bw >= 1,
                bh >= 1,
        ;
        assert(bp >= 1) by (nonlinear_arith)
            requires
                bw * bh >= 1,
                cc >= 1,
                bp == bw * bh * cc,
        ;
    }
    while p < total
        invariant
            0 <= p <= total,
            total == w * h * cc,
            total <= usize::MAX,
            w * h <= total,
            bw >= 1,
            bh >= 1,
            cc >= 1,
            bp == bw * bh * cc,
            bp >= 1,
            nbw == w / bw,
            decoded@.len() == nblocks * bp,
            decoded@.len() <= usize::MAX,
            nblocks <= nbw * (h / bh),
            target == spec_tiled(decoded@, nblocks as int, w as int, h as int, bw as int, bh as int, cc as int, flipped),
            out@.len() == p,
            forall|k: int| 0 <= k < p ==> out@[k] == target[k],
        decreases total - p,
    {
        let q = p / cc;
        let c = p % cc;
        proof {
            assert(q < w * h) by (nonlinear_arith)
                requires
                    p < w * h * cc,
                    q == p / cc,
                    cc >= 1,
            ;
            assert(w >= 1) by (nonlinear_arith)
                requires
                    q < w * h,
                    q >= 0,
            ;
        }
        let row = q / w;
        let x = q % w;
        proof {
            assert(row < h) by (nonlinear_arith)
                requires
                    q < w * h,
                    row == q / w,
                    w >= 1,
            ;
        }
        let y = if flipped {
            h - 1 - row
        } else {
            row
        };
        let bx = x / bw;
        let by_ = y / bh;
        proof {
            assert(y < h);
            assert(by_ <= y) by (nonlinear_arith)
                requires
                    by_ == y / bh,
                    bh >= 1,
            ;
            assert(nbw <= w) by (nonlinear_arith)
                requires
                    nbw == w / bw,
                    bw >= 1,
            ;
            assert(bx < nbw ==> by_ * nbw + bx < h * w) by (nonlinear_arith)
                requires
                    by_ <= h - 1,
                    nbw <= w,
                    bx >= 0,
            ;
            assert(h * w == w * h) by (nonlinear_arith);
            assert(w * h <= total) by (nonlinear_arith)
                requires
                    total == w * h * cc,
                    cc >= 1,
            ;
        }
        let mut v: u8 = 0;
        if bx < nbw && by_ * nbw + bx < nblocks {
            let i = by_ * nbw + bx;
            proof {
                assert((y % bh) * bw + x % bw < bw * bh) by (nonlinear_arith)
                    requires
                        y % bh < bh,
                        x % bw < bw,
                        bw >= 1,
                        y % bh >= 0,
                        x % bw >= 0,
                ;
                assert(bw * bh <= bp) by (nonlinear_arith)
                    requires
                        bp == bw * bh * cc,
                        cc >= 1,
                ;
            }
            let inner = (y % bh) * bw + x % bw;
            proof {
                assert(inner * cc + c < bp) by (nonlinear_arith)
                    requires
                        inner < bw * bh,
                        c < cc,
                        bp == bw * bh * cc,
                ;
                assert(i * bp + bp <= nblocks * bp) by (nonlinear_arith)
                    requires
                        i < nblocks,
                        bp >= 1,
                ;
            }
            v = decoded[i * bp + inner * cc + c];
        }
        proof {
            assert(target[p as int] == v);
        }
        out.push(v);
        p = p + 1;
    }
    proof {
        assert(out@ =~= target);
    }
    out
}

/// The decoded pixels of the first `n` blocks of `data`, one after the other.
pub open spec fn spec_decode_blocks(f: TxtrFormat, data: Seq<u8>, n: nat) -> Seq<u8>
    decreases n,
{
    if n == 0 {
        Seq::empty()
    } else {
        let bpb = spec_bytes_per_block(f) as int;
        spec_decode_blocks(f, data, (n - 1) as nat) + spec_decode_block(
            f,
            data.subrange((n - 1) * bpb, n * bpb),
        )
    }
}

/// A format's block geometry: its block's pixel bytes are width times height
/// times channels, and each of these is small and positive.
pub proof fn lemma_block_geometry(f: TxtrFormat)
    ensures
        spec_block_pixel_bytes(f) == spec_block_dimensions(f).0 * spec_block_dimensions(f).1
            * spec_channel_count(spec_color_type(f)),
        4 <= spec_block_dimensions(f).0 <= 8,
        4 <= spec_block_dimensions(f).1 <= 8,
        1 <= spec_channel_count(spec_color_type(f)) <= 4,
        spec_bytes_per_block(f) == 32 || spec_bytes_per_block(f) == 64,
{
    let cc = spec_channel_count(spec_color_type(f));
    let d = spec_block_dimensions(f);
    let n = spec_block_pixel_bytes(f);
    assert(1 <= cc <= 4);
    assert(n == d.0 * d.1 * cc) by (nonlinear_arith)
        requires
            (d.0 == 8 && d.1 == 8 && n == 64 * cc) || (d.0 == 8 && d.1 == 4 && n == 32 * cc) || (d.0 == 4
                && d.1 == 4 && n == 16 * cc),
    {
    }
}

impl TxtrFormat {
    /// Decodes the blocks of a mipmap of `w` by `h` pixels and lays them out
    /// over the image (CMPR blocks are decoded by the DXT1 codec instead).
    pub fn decode_image(&self, data: &[u8], w: usize, h: usize) -> (r: Vec<u8>)
        requires
            !(*self is Cmpr),
            spec_palette_fits(*self),
            data@.len() % spec_bytes_per_block(*self) == 0,
            data@.len() / spec_bytes_per_block(*self) <= (w / (spec_block_dimensions(*self).0 as usize)) * (h
                / (spec_block_dimensions(*self).1 as usize)),
            w * h * spec_channel_count(spec_color_type(*self)) <= usize::MAX,
        ensures
            r@ == spec_tiled(
                spec_decode_blocks(*self, data@, data@.len() / spec_bytes_per_block(*self)),
                (data@.len() / spec_bytes_per_block(*self)) as int,
                w as int,
                h as int,
                spec_block_dimensions(*self).0 as int,
                spec_block_dimensions(*self).1 as int,
                spec_channel_count(spec_color_type(*self)) as int,
                spec_flipped(*self),
            ),
    {
        proof {
            lemma_block_geometry(*self);
        }
        let bpb = self.bytes_per_block();
        let (bw, bh) = self.block_dimensions();
        let cc = self.color_type().channel_count() as usize;
        let bp = bw * bh * cc;
        let dlen = data.len();
        let n = dlen / bpb;
        let mut decoded: Vec<u8> = Vec::new();
        let mut i: usize = 0;
        while i < n
            invariant
                0 <= i <= n,
                n == data@.len() / (bpb as nat),
                bpb == spec_bytes_per_block(*self),
                bpb == 32 || bpb == 64,
                data@.len() <= usize::MAX,
                data@.len() % (bpb as nat) == 0,
                bp == spec_block_pixel_bytes(*self),
                !(*self is Cmpr),
                spec_palette_fits(*self),
                decoded@ == spec_decode_blocks(*self, data@, i as nat),
                decoded@.len() == i * bp,
            decreases n - i,
        {
            proof {
                assert(i * bpb + bpb <= n * bpb) by (nonlinear_arith)
                    requires
                        i < n,
                ;
                assert(n * bpb == data@.len()) by (nonlinear_arith)
                    requires
                        n == data@.len() / (bpb as nat),
                        data@.len() % (bpb as nat) == 0,
                        bpb > 0,
                ;
            }
            let chunk = slice_range(data, i * bpb, i * bpb + bpb);
            let mut block_pixels: Vec<u8> = vec![0u8; bp];
            self.decode_block(chunk, block_pixels.as_mut_slice());
            let ghost before = decoded@;
            let mut k: usize = 0;
            while k < bp
                invariant
                    0 <= k <= bp,
                    block_pixels@.len() == bp,
                    decoded@ == before + block_pixels@.take(k as int),
                decreases bp - k,
            {
                decoded.push(block_pixels[k]);
                k = k + 1;
                assert(decoded@ =~= before + block_pixels@.take(k as int));
            }
            proof {
                assert(block_pixels@.take(bp as int) =~= block_pixels@);
                assert(chunk@ == data@.subrange(i * bpb, (i + 1) * bpb)) by {
                    assert((i + 1) * bpb == i * bpb + bpb) by (nonlinear_arith);
                }
                assert(decoded@.len() == (i + 1) * bp) by (nonlinear_arith)
                    requires
                        decoded@.len() == i * bp + bp,
                ;
            }
            i = i + 1;
        }
        proof {
            assert(w * h * cc <= usize::MAX);
            assert(decoded@.len() == n * (bw * bh * cc));
        }
        tile_blocks(decoded.as_slice(), n, w, h, bw, bh, cc, self.flipped())
    }
}

/// `data[from..to]`.
fn slice_range<'b>(data: &'b [u8], from: usize, to: usize) -> (r: &'b [u8])
    requires
        from <= to <= data@.len(),
    ensures
        r@ == data@.subrange(from as int, to as int),
{
    let (left, _) = data.split_at(to);
    let (_, right) = left.split_at(from);
    assert(right@ =~= data@.subrange(from as int, to as int));
    right
}

/// The pixels of block `i` of an image of `w` by `h` pixels with `cc`
/// channels, in blocks of `bw` by `bh` pixels laid out as in
/// `spec_image_byte`: the block's rows from the top, each from the left.
pub open spec fn spec_gather(
    image: Seq<u8>,
    w: int,
    h: int,
    bw: int,
    bh: int,
    cc: int,
    flipped: bool,
    i: int,
) -> Seq<u8> {
    Seq::new(
        (bw * bh * cc) as nat,
        |j: int|
            {
                let q = j / cc;
                let nbw = w / bw;
                let x = (i % nbw) * bw + q % bw;
                let y = (i / nbw) * bh + q / bw;
                let row = if flipped {
                    h - 1 - y
                } else {
                    y
                };
                image[(row * w + x) * cc + j % cc]
            },
    )
}

/// The pixels of block `i` (see `spec_gather`).
pub fn gather_block(
    image: &[u8],
    w: usize,
    h: usize,
    bw: usize,
    bh: usize,
    cc: usize,
    flipped: bool,
    i: usize,
) -> (r: Vec<u8>)
    requires
        bw >= 1,
        bh >= 1,
        cc >= 1,
        w % bw == 0,
        h % bh == 0,
        i < (w / bw) * (h / bh),
        image@.len() == w * h * cc,
        bw * bh * cc <= usize::MAX,
    ensures
        r@ == spec_gather(image@, w as int, h as int, bw as int, bh as int, cc as int, flipped, i as int),
{
    let ghost target = spec_gather(image@, w as int, h as int, bw as int, bh as int, cc as int, flipped, i as int);
    let _ilen = image.len();
    let nbw = w / bw;
    let nbh = h / bh;
    proof {
        assert(nbw >= 1 && nbh >= 1) by (nonlinear_arith)
            requires
                i < nbw * nbh,
                i >= 0,
                nbw >= 0,
                nbh >= 0,
        ;
        assert(bw * bh <= bw * bh * cc) by (nonlinear_arith)
            requires
                cc >= 1,
        ;
    }
    let bp = bw * bh * cc;
    let bx = i % nbw;
    let by_ = i / nbw;
    proof {
        assert(by_ < nbh) by (nonlinear_arith)
            requires
                i < nbw * nbh,
                by_ == i / nbw,
                nbw >= 1,
        ;
        assert(nbw * bw == w && nbh * bh == h) by (nonlinear_arith)
            requires
                nbw == w / bw,
                nbh == h / bh,
                w % bw == 0,
                h % bh == 0,
                bw >= 1,
                bh >= 1,
        ;
    }
    let mut out: Vec<u8> = Vec::new();
    let mut j: usize = 0;
    while j < bp
        invariant
            0 <= j <= bp,
            bp == bw * bh * cc,
            bw >= 1,
            bh >= 1,
            cc >= 1,
            nbw == w / bw,
            bx == i % nbw,
            by_ == i / nbw,
            bx < nbw,
            by_ < nbh,
            nbw * bw == w,
            nbh * bh == h,
            image@.len() == w * h * cc,
            image@.len() <= usize::MAX,
            target == spec_gather(image@, w as int, h as int, bw as int, bh as int, cc as int, flipped, i as int),
            out@.len() == j,
            forall|k: int| 0 <= k < j ==> out@[k] == target[k],
        decreases bp - j,
    {
        let q = j / cc;
        let c = j % cc;
        proof {
            assert(q < bw * bh) by (nonlinear_arith)
                requires
                    j < bw * bh * cc,
                    q == j / cc,
                    cc >= 1,
            ;
            assert(q / bw < bh) by (nonlinear_arith)
                requires
                    q < bw * bh,
                    bw >= 1,
                    q >= 0,
            ;
            assert(bx * bw + q % bw < w) by (nonlinear_arith)
                requires
                    bx < nbw,
                    q % bw < bw,
                    nbw * bw == w,
            ;
            assert(by_ * bh + q / bw < h) by (nonlinear_arith)
                requires
                    by_ < nbh,
                    q / bw < bh,
                    nbh * bh == h,
            ;
        }
        let x = bx * bw + q % bw;
        let y = by_ * bh + q / bw;
        let row = if flipped {
            h - 1 - y
        } else {
            y
        };
        proof {
            assert((row * w + x) * cc + c < w * h * cc) by (nonlinear_arith)
                requires
                    row < h,
                    x < w,
                    c < cc,
                    row >= 0,
            ;
            assert(row * w <= row * w + x <= (row * w + x) * cc) by (nonlinear_arith)
                requires
                    cc >= 1,
                    x >= 0,
                    row >= 0,
                    w >= 0,
            ;
        }
        let v = image[(row * w + x) * cc + c];
        out.push(v);
        j = j + 1;
    }
    proof {
        assert(out@ =~= target);
    }
    out
}

/// Block `i`'s pixels, as `gather_block` takes them, for the format's block
/// geometry.
pub open spec fn spec_format_gather(f: TxtrFormat, image: Seq<u8>, w: int, h: int, i: int) -> Seq<u8> {
    spec_gather(
        image,
        w,
        h,
        spec_block_dimensions(f).0 as int,
        spec_block_dimensions(f).1 as int,
        spec_channel_count(spec_color_type(f)) as int,
        spec_flipped(f),
        i,
    )
}

/// The texels of the first `n` blocks of an image, one block after the other.
pub open spec fn spec_encode_blocks(f: TxtrFormat, image: Seq<u8>, w: int, h: int, n: nat) -> Seq<u8>
    decreases n,
{
    if n == 0 {
        Seq::empty()
    } else {
        spec_encode_blocks(f, image, w, h, (n - 1) as nat) + spec_encode_block(
            f,
            spec_format_gather(f, image, w, h, n - 1),
        )
    }
}

/// The number of blocks of an image of `w` by `h` pixels.
pub open spec fn spec_block_count(f: TxtrFormat, w: int, h: int) -> int {
    (w / (spec_block_dimensions(f).0 as int)) * (h / (spec_block_dimensions(f).1 as int))
}

impl TxtrFormat {
    /// Encodes an image of `w` by `h` pixels block by block (CMPR blocks are
    /// encoded by the DXT1 codec instead). The sizes are multiples of the
    /// block's, and for a paletted format the palette holds every pixel.
    pub fn encode_image(&self, image: &[u8], w: usize, h: usize) -> (r: Vec<u8>)
        requires
            !(*self is Cmpr),
            spec_palette_fits(*self),
            w % (spec_block_dimensions(*self).0 as usize) == 0,
            h % (spec_block_dimensions(*self).1 as usize) == 0,
            image@.len() == w * h * spec_channel_count(spec_color_type(*self)),
            forall|i: int|
                0 <= i < spec_block_count(*self, w as int, h as int) ==> spec_palette_covers(
                    *self,
                    #[trigger] spec_format_gather(*self, image@, w as int, h as int, i),
                ),
        ensures
            r@ == spec_encode_blocks(*self, image@, w as int, h as int, spec_block_count(*self, w as int, h as int) as nat),
    {
        proof {
            lemma_block_geometry(*self);
        }
        let bpb = self.bytes_per_block();
        let (bw, bh) = self.block_dimensions();
        let cc = self.color_type().channel_count() as usize;
        let flipped = self.flipped();
        let nbw = w / bw;
        let nbh = h / bh;
        let _ilen = image.len();
        proof {
            assert(nbw * nbh <= w * h) by (nonlinear_arith)
                requires
                    nbw == w / bw,
                    nbh == h / bh,
                    bw >= 1,
                    bh >= 1,
            ;
            assert(w * h <= w * h * cc) by (nonlinear_arith)
                requires
                    cc >= 1,
            ;
        }
        let n = nbw * nbh;
        let mut out: Vec<u8> = Vec::new();
        let mut i: usize = 0;
        while i < n
            invariant
                0 <= i <= n,
                n == spec_block_count(*self, w as int, h as int),
                bpb == spec_bytes_per_block(*self),
                bw == spec_block_dimensions(*self).0,
                bh == spec_block_dimensions(*self).1,
                cc == spec_channel_count(spec_color_type(*self)),
                flipped == spec_flipped(*self),
                4 <= bw <= 8,
                4 <= bh <= 8,
                1 <= cc <= 4,
                nbw == w / bw,
                nbh == h / bh,
                n == nbw * nbh,
                w % bw == 0,
                h % bh == 0,
                !(*self is Cmpr),
                spec_palette_fits(*self),
                spec_block_pixel_bytes(*self) == bw * bh * cc,
                image@.len() == w * h * cc,
                forall|k: int|
                    0 <= k < spec_block_count(*self, w as int, h as int) ==> spec_palette_covers(
                        *self,
                        #[trigger] spec_format_gather(*self, image@, w as int, h as int, k),
                    ),
                out@ == spec_encode_blocks(*self, image@, w as int, h as int, i as nat),
            decreases n - i,
        {
            proof {
                assert(bw * bh * cc <= 256) by (nonlinear_arith)
                    requires
                        bw <= 8,
                        bh <= 8,
                        cc <= 4,
                ;
            }
            let pixels = gather_block(image, w, h, bw, bh, cc, flipped, i);
            proof {
                assert(pixels@ == spec_format_gather(*self, image@, w as int, h as int, i as int));
                assert(spec_palette_covers(*self, spec_format_gather(*self, image@, w as int, h as int, i as int)));
            }
            let mut block: Vec<u8> = vec![0u8; bpb];
            self.encode_block(block.as_mut_slice(), pixels.as_slice());
            let ghost before = out@;
            let mut k: usize = 0;
            while k < bpb
                invariant
                    0 <= k <= bpb,
                    block@.len() == bpb,
                    out@ == before + block@.take(k as int),
                decreases bpb - k,
            {
                out.push(block[k]);
                k = k + 1;
                assert(out@ =~= before + block@.take(k as int));
            }
            proof {
                assert(block@.take(bpb as int) =~= block@);
            }
            i = i + 1;
        }
        out
    }
}

/// Where entry `n` (at or after `k`) holds `e`, the first entry from `k`
/// that holds it exists.
proof fn lemma_first_entry_found(pal: Seq<u8>, e: Seq<u8>, k: nat, n: nat)
    requires
        k <= n < pal.len() / 2,
        palette_entry(pal, n as int) == e,
    ensures
        spec_first_entry_from(pal, e, k) >= 0,
    decreases n - k,
{
    if k < n && palette_entry(pal, k as int) != e {
        lemma_first_entry_found(pal, e, k + 1, n);
    }
}

/// Where entry `n` (below `top`) holds `e`, the last entry below `top` that
/// holds it exists.
proof fn lemma_last_entry_found(pal: Seq<u8>, e: Seq<u8>, top: nat, n: nat)
    requires
        n < top,
        palette_entry(pal, n as int) == e,
    ensures
        spec_last_entry_below(pal, e, top) >= 0,
    decreases top - n,
{
    if n + 1 < top && palette_entry(pal, top - 1) != e {
        lemma_last_entry_found(pal, e, (top - 1) as nat, n);
    }
}

/// Whether some palette entry holds `e`.
pub open spec fn spec_in_palette(pal: Seq<u8>, e: Seq<u8>) -> bool {
    exists|n: int| 0 <= n < pal.len() / 2 && palette_entry(pal, n) == e
}

/// A pixel's palette encoding has two bytes.
proof fn lemma_encoding_len(fmt: TxtrPaletteFormat, px: Seq<u8>)
    requires
        px.len() == spec_channel_count(spec_palette_color_type(fmt)),
    ensures
        spec_palette_encoding(fmt, px).len() == 2,
{
}

/// Pixel `p` of block `i` is pixel `q` of the image, where `q` is the block
/// pixel's place in the image.
proof fn lemma_gathered_pixel(
    image: Seq<u8>,
    w: int,
    h: int,
    bw: int,
    bh: int,
    cc: int,
    flipped: bool,
    i: int,
    p: int,
) -> (q: int)
    requires
        bw >= 1,
        bh >= 1,
        cc >= 1,
        w >= 0,
        h >= 0,
        w % bw == 0,
        h % bh == 0,
        0 <= i < (w / bw) * (h / bh),
        0 <= p < bw * bh,
        image.len() == w * h * cc,
    ensures
        0 <= q < w * h,
        block_pixel(spec_gather(image, w, h, bw, bh, cc, flipped, i), p, cc) == block_pixel(image, q, cc),
{
    let nbw = w / bw;
    let nbh = h / bh;
    assert(nbw >= 1 && nbh >= 1) by (nonlinear_arith)
        requires
            i < nbw * nbh,
            i >= 0,
            nbw >= 0,
            nbh >= 0,
    ;
    assert(nbw * bw == w && nbh * bh == h) by (nonlinear_arith)
        requires
            nbw == w / bw,
            nbh == h / bh,
            w % bw == 0,
            h % bh == 0,
            bw >= 1,
            bh >= 1,
    ;
    assert(i / nbw < nbh) by (nonlinear_arith)
        requires
            i < nbw * nbh,
            nbw >= 1,
            i >= 0,
    ;
    assert(p / bw < bh) by (nonlinear_arith)
        requires
            p < bw * bh,
            bw >= 1,
            p >= 0,
    ;
    let x = (i % nbw) * bw + p % bw;
    let y = (i / nbw) * bh + p / bw;
    assert(x < w && y < h && x >= 0 && y >= 0) by (nonlinear_arith)
        requires
            x == (i % nbw) * bw + p % bw,
            y == (i / nbw) * bh + p / bw,
            i % nbw < nbw,
            i / nbw < nbh,
            p % bw < bw,
            p / bw < bh,
            i % nbw >= 0,
            p % bw >= 0,
            i / nbw >= 0,
            p / bw >= 0,
            nbw * bw == w,
            nbh * bh == h,
            i >= 0,
            p >= 0,
            nbw >= 1,
    ;
    let row = if flipped {
        h - 1 - y
    } else {
        y
    };
    let q = row * w + x;
    assert(0 <= q < w * h) by (nonlinear_arith)
        requires
            q == row * w + x,
            0 <= row < h,
            0 <= x < w,
    ;
    let g = spec_gather(image, w, h, bw, bh, cc, flipped, i);
    assert(p * cc + cc <= bw * bh * cc) by (nonlinear_arith)
        requires
            p < bw * bh,
            cc >= 0,
    ;
    assert(q * cc + cc <= w * h * cc) by (nonlinear_arith)
        requires
            q < w * h,
            cc >= 0,
    ;
    assert forall|t: int| 0 <= t < cc implies #[trigger] g[p * cc + t] == image[q * cc + t] by {
        assert(p * cc <= p * cc + t < p * cc + cc);
        assert(p >= 0);
        crate::txtr::lemma_div_in_block(p * cc + t, p, cc);
        assert((q * cc + t) == (row * w + x) * cc + t);
    }
    assert(block_pixel(g, p, cc) =~= block_pixel(image, q, cc)) by {
        assert forall|t: int| 0 <= t < cc implies block_pixel(g, p, cc)[t] == block_pixel(image, q, cc)[t] by {
            assert(g[p * cc + t] == image[q * cc + t]);
        }
    }
    q
}

/// The palette `compute_palette` writes holds every pixel of the image: where
/// it succeeded, each pixel of every block of the image has its encoding in
/// an entry of the palette, so the block can be encoded.
pub proof fn lemma_computed_palette_covers(f: TxtrFormat, old_palette: Seq<u8>, image: Seq<u8>, w: int, h: int, i: int)
    requires
        f is C4 || f is C8,
        match f {
            TxtrFormat::C4(fmt, pal) | TxtrFormat::C8(fmt, pal) => {
                let d = spec_distinct(spec_encodings(fmt, image));
                &&& pal@ == spec_written_palette(old_palette, d)
                &&& d.len() == 0 || 2 * d.len() < old_palette.len()
            },
            _ => false,
        },
        w >= 0,
        h >= 0,
        w % (spec_block_dimensions(f).0 as int) == 0,
        h % (spec_block_dimensions(f).1 as int) == 0,
        image.len() == w * h * spec_channel_count(spec_color_type(f)),
        0 <= i < spec_block_count(f, w, h),
    ensures
        spec_palette_covers(f, spec_format_gather(f, image, w, h, i)),
{
    lemma_block_geometry(f);
    let bw = spec_block_dimensions(f).0 as int;
    let bh = spec_block_dimensions(f).1 as int;
    let cc = spec_channel_count(spec_color_type(f)) as int;
    let g = spec_format_gather(f, image, w, h, i);
    match f {
        TxtrFormat::C4(fmt, pal) | TxtrFormat::C8(fmt, pal) => {
            let es = spec_encodings(fmt, image);
            let d = spec_distinct(es);
            lemma_distinct_props(es);
            assert(es.len() == w * h) by {
                assert(image.len() as int / cc == w * h) by (nonlinear_arith)
                    requires
                        image.len() == w * h * cc,
                        cc >= 1,
                ;
            }
            assert forall|p: int| 0 <= p < bw * bh implies #[trigger] spec_in_palette(pal@, spec_palette_encoding(fmt, block_pixel(g, p, cc))) by {
                let q = lemma_gathered_pixel(image, w, h, bw, bh, cc, spec_flipped(f), i, p);
                let e = spec_palette_encoding(fmt, block_pixel(g, p, cc));
                assert(e == es[q]);
                assert(d.contains(es[q]));
                let n = choose|n: int| 0 <= n < d.len() && d[n] == es[q];
                assert(q * cc + cc <= image.len()) by (nonlinear_arith)
                    requires
                        q < w * h,
                        image.len() == w * h * cc,
                        cc >= 0,
                ;
                lemma_encoding_len(fmt, block_pixel(image, q, cc));
                assert(d[n].len() == 2);
                assert(2 * n + 2 < old_palette.len());
                assert(palette_entry(pal@, n) =~= d[n]) by {
                    assert forall|t: int| 0 <= t < 2 implies #[trigger] palette_entry(pal@, n)[t] == d[n][t] by {
                        assert((2 * n + t) / 2 == n);
                        assert((2 * n + t) % 2 == t);
                    }
                }
                assert(palette_entry(pal@, n) == e);
                assert(spec_in_palette(pal@, e));
            }
            if f is C4 {
                assert forall|p: int| 0 <= p < 64 implies #[trigger] spec_c4_entry(fmt, pal@, g, p) >= 0 by {
                    let e = spec_palette_encoding(fmt, block_pixel(g, p, cc));
                    assert(spec_in_palette(pal@, e));
                    let n = choose|n: int| 0 <= n < pal@.len() / 2 && palette_entry(pal@, n) == e;
                    lemma_first_entry_found(pal@, e, 0, n as nat);
                }
            } else {
                assert forall|p: int| 0 <= p < 32 implies #[trigger] spec_c8_entry(fmt, pal@, g, p) >= 0 by {
                    let e = spec_palette_encoding(fmt, block_pixel(g, p, cc));
                    assert(spec_in_palette(pal@, e));
                    let n = choose|n: int| 0 <= n < pal@.len() / 2 && palette_entry(pal@, n) == e;
                    lemma_last_entry_found(pal@, e, (pal@.len() / 2) as nat, n as nat);
                }
            }
        },
        _ => {},
    }
}

/// The first level from `i` on at which the image no longer halves into
/// whole blocks (the word size where none is below it).
pub open spec fn spec_first_unfit(w: usize, h: usize, dims: (nat, nat), i: usize) -> usize
    decreases usize::BITS - i,
{
    if i >= usize::BITS {
        usize::BITS as usize
    } else if !spec_level_fits(w, h, dims, i) {
        i
    } else {
        spec_first_unfit(w, h, dims, (i + 1) as usize)
    }
}

/// How many mipmaps an image can have in a format (see
/// `TxtrFormat::max_mipmaps_for_format`).
pub open spec fn spec_max_mipmaps(f: TxtrFormat, w: usize, h: usize) -> usize {
    if f is C4 || f is C8 {
        1
    } else {
        spec_first_unfit(w, h, spec_block_dimensions(f), 1)
    }
}

/// The least unfitting level from `k` on is `r` where every level from `k`
/// below `r` fits and `r` does not.
proof fn lemma_first_unfit(w: usize, h: usize, dims: (nat, nat), k: usize, r: usize)
    requires
        1 <= k <= r < usize::BITS,
        !spec_level_fits(w, h, dims, r),
        forall|i: usize| k <= i < r ==> spec_level_fits(w, h, dims, i),
    ensures
        spec_first_unfit(w, h, dims, k) == r,
    decreases r - k,
{
    if k < r {
        lemma_first_unfit(w, h, dims, (k + 1) as usize, r);
    }
}

/// The pixels of mipmap `l`: the image box-filtered `l` times.
pub open spec fn spec_level_pixels(pixels: Seq<u8>, w: usize, h: usize, cc: int, l: nat) -> Seq<u8>
    decreases l,
{
    if l == 0 {
        pixels
    } else {
        let k = (l - 1) as usize;
        spec_box_filter(spec_level_pixels(pixels, w, h, cc, (l - 1) as nat), (w >> k) as int, (h >> k) as int, cc, false)
    }
}

/// Why a texture could not be built from an image.
#[derive(Clone, Copy, Debug, PartialEq, Eq, Structural)]
pub enum TxtrBuildError {
    /// The image's width or height is not a multiple of the block's.
    BadDimensions { w: usize, h: usize, bw: usize, bh: usize },
    /// The image has too many colours for the paletted format.
    TooManyColors,
    /// More mipmaps were asked for than the image can have in the format,
    /// which is at most this many.
    TooManyMipmaps(usize),
}

/// Halving a width one more time is shifting it by one more.
proof fn lemma_halve(w: usize, l: usize)
    requires
        l + 1 < usize::BITS,
    ensures
        (w >> l) / 2 == w >> ((l + 1) as usize),
{
    assert(l + 1 < usize::BITS ==> (w >> l) / 2 == w >> ((l + 1) as usize)) by (bit_vector);
}

/// The outcome of building a texture from an image, given the format after
/// its palette was computed.
pub open spec fn spec_mipmaps_built(
    f: TxtrFormat,
    pixels: Seq<u8>,
    w: usize,
    h: usize,
    count: usize,
    levels: Seq<Vec<u8>>,
) -> bool {
    let cc = spec_channel_count(spec_color_type(f)) as int;
    &&& levels.len() == count
    &&& forall|l: int|
        0 <= l < count ==> (#[trigger] levels[l])@ == spec_encode_blocks(
            f,
            spec_level_pixels(pixels, w, h, cc, l as nat),
            (w >> (l as usize)) as int,
            (h >> (l as usize)) as int,
            spec_block_count(f, (w >> (l as usize)) as int, (h >> (l as usize)) as int) as nat,
        )
}

/// Whether `compute_palette` refuses the image's colours: the format has a
/// palette and the image's distinct encodings do not fit in it without
/// reaching its last entry.
pub open spec fn spec_palette_refused(f: TxtrFormat, pixels: Seq<u8>) -> bool {
    match f {
        TxtrFormat::C4(fmt, pal) | TxtrFormat::C8(fmt, pal) => {
            let d = spec_distinct(spec_encodings(fmt, pixels));
            !(d.len() == 0 || 2 * d.len() < pal@.len())
        },
        _ => false,
    }
}

impl TxtrFormat {
    /// Builds the mipmaps of a texture from an image of `w` by `h` pixels
    /// (CMPR blocks are encoded by the DXT1 codec instead): the sizes must be
    /// multiples of the block's; a paletted format gets its palette from the
    /// image (see `compute_palette`); then as many mipmaps as asked for
    /// (else as many as the image can have) are encoded, each from the
    /// previous image box-filtered.
    pub fn build_mipmaps(&mut self, pixels: Vec<u8>, w: usize, h: usize, mipmap_count: Option<u8>) -> (r: Result<Vec<Vec<u8>>, TxtrBuildError>)
        requires
            !(*old(self) is Cmpr),
            spec_palette_fits(*old(self)),
            pixels@.len() == w * h * spec_channel_count(spec_color_type(*old(self))),
            (*old(self) is C4 || *old(self) is C8) || w != 0 || h != 0,
        ensures
            ({
                let dims = spec_block_dimensions(*old(self));
                if w % (dims.0 as usize) != 0 || h % (dims.1 as usize) != 0 {
                    &&& r == Err::<Vec<Vec<u8>>, TxtrBuildError>(TxtrBuildError::BadDimensions {
                        w,
                        h,
                        bw: dims.0 as usize,
                        bh: dims.1 as usize,
                    })
                    &&& *final(self) == *old(self)
                } else {
                    &&& (match *old(self) {
                        TxtrFormat::C4(fmt, pal) => {
                            let d = spec_distinct(spec_encodings(fmt, pixels@));
                            &&& *final(self) matches TxtrFormat::C4(f2, p2) && f2 == fmt && p2@
                                == spec_written_palette(pal@, d)
                        },
                        TxtrFormat::C8(fmt, pal) => {
                            let d = spec_distinct(spec_encodings(fmt, pixels@));
                            &&& *final(self) matches TxtrFormat::C8(f2, p2) && f2 == fmt && p2@
                                == spec_written_palette(pal@, d)
                        },
                        _ => *final(self) == *old(self),
                    })
                    &&& (r == Err::<Vec<Vec<u8>>, TxtrBuildError>(TxtrBuildError::TooManyColors)
                        <==> spec_palette_refused(*old(self), pixels@))
                    &&& (!spec_palette_refused(*old(self), pixels@) ==> {
                        let max = spec_max_mipmaps(*old(self), w, h);
                        let count: usize = match mipmap_count {
                            Some(c) => c as usize,
                            None => max,
                        };
                        if count > max {
                            r == Err::<Vec<Vec<u8>>, TxtrBuildError>(TxtrBuildError::TooManyMipmaps(max))
                        } else {
                            r matches Ok(levels) && spec_mipmaps_built(*final(self), pixels@, w, h, count, levels@)
                        }
                    })
                }
            }),
    {
        proof {
            lemma_block_geometry(*self);
        }
        let (bw, bh) = self.block_dimensions();
        if w % bw != 0 || h % bh != 0 {
            return Err(TxtrBuildError::BadDimensions { w, h, bw, bh });
        }
        proof {
            // Whole blocks of 4 or 8: a side that is not 0 is at least 4.
            assert(w % bw == 0 && w != 0 ==> w >= bw) by (nonlinear_arith)
                requires
                    bw >= 1;
            assert(h % bh == 0 && h != 0 ==> h >= bh) by (nonlinear_arith)
                requires
                    bh >= 1;
        }
        let ghost old_self = *self;
        let ghost old_pal: Seq<u8> = match old_self {
            TxtrFormat::C4(_, p) | TxtrFormat::C8(_, p) => p@,
            _ => Seq::empty(),
        };
        proof {
            let cc0 = spec_channel_count(spec_color_type(*self)) as int;
            assert((w * h * cc0) % cc0 == 0) by (nonlinear_arith)
                requires
                    cc0 >= 1,
            ;
            match *self {
                TxtrFormat::C4(fmt, _) | TxtrFormat::C8(fmt, _) => {
                    assert(cc0 == spec_channel_count(spec_palette_color_type(fmt)));
                },
                _ => {},
            }
        }
        match self.compute_palette(pixels.as_slice()) {
            Ok(()) => {},
            Err(()) => {
                return Err(TxtrBuildError::TooManyColors);
            },
        }
        proof {
            if *self is C4 || *self is C8 {
                assert forall|i: int| 0 <= i < spec_block_count(*self, w as int, h as int) implies spec_palette_covers(
                    *self,
                    #[trigger] spec_format_gather(*self, pixels@, w as int, h as int, i),
                ) by {
                    lemma_computed_palette_covers(*self, old_pal, pixels@, w as int, h as int, i);
                }
            }
        }
        let max = self.max_mipmaps_for_format(w, h);
        proof {
            if !(old_self is C4 || old_self is C8) {
                lemma_first_unfit(w, h, spec_block_dimensions(old_self), 1, max);
            }
        }
        let count: usize = match mipmap_count {
            Some(c) => c as usize,
            None => max,
        };
        if count > max {
            return Err(TxtrBuildError::TooManyMipmaps(max));
        }
        let cc = self.color_type().channel_count() as usize;
        let mut levels: Vec<Vec<u8>> = Vec::new();
        let mut current = pixels;
        let mut level: usize = 0;
        proof {
            assert(w >> 0usize == w && h >> 0usize == h) by (bit_vector);
            assert(spec_level_pixels(pixels@, w, h, cc as int, 0) == pixels@);
        }
        while level < count
            invariant
                0 <= level <= count <= max,
                max == spec_max_mipmaps(old_self, w, h),
                max < usize::BITS,
                1 <= max,
                !(*self is Cmpr),
                spec_palette_fits(*self),
                spec_block_dimensions(*self) == spec_block_dimensions(old_self),
                spec_color_type(*self) == spec_color_type(old_self),
                (old_self is C4 || old_self is C8) == (*self is C4 || *self is C8),
                bw == spec_block_dimensions(old_self).0,
                bh == spec_block_dimensions(old_self).1,
                cc == spec_channel_count(spec_color_type(old_self)),
                4 <= bw <= 8,
                4 <= bh <= 8,
                1 <= cc <= 4,
                w % bw == 0,
                h % bh == 0,
                !(old_self is C4 || old_self is C8) ==> forall|i: usize|
                    1 <= i < max ==> spec_level_fits(w, h, spec_block_dimensions(old_self), i),
                level == 0 ==> current@ == pixels@,
                (*self is C4 || *self is C8) ==> max == 1,
                (*self is C4 || *self is C8) ==> forall|i: int|
                    0 <= i < spec_block_count(*self, w as int, h as int) ==> spec_palette_covers(
                        *self,
                        #[trigger] spec_format_gather(*self, pixels@, w as int, h as int, i),
                    ),
                current@ == spec_level_pixels(pixels@, w, h, cc as int, level as nat),
                current@.len() == (w >> level) * (h >> level) * cc,
                levels@.len() == level,
                forall|l: int|
                    0 <= l < level ==> (#[trigger] levels@[l])@ == spec_encode_blocks(
                        *self,
                        spec_level_pixels(pixels@, w, h, cc as int, l as nat),
                        (w >> (l as usize)) as int,
                        (h >> (l as usize)) as int,
                        spec_block_count(*self, (w >> (l as usize)) as int, (h >> (l as usize)) as int) as nat,
                    ),
            decreases count - level,
        {
            let wl = w >> level;
            let hl = h >> level;
            let _cl = current.len();
            proof {
                if level > 0 {
                    assert(spec_level_fits(w, h, spec_block_dimensions(old_self), level));
                    assert(!(*self is C4 || *self is C8));
                } else {
                    assert(wl == w && hl == h) by (bit_vector)
                        requires
                            level == 0,
                            wl == w >> level,
                            hl == h >> level,
                    ;
                }
                assert(wl % bw == 0 && hl % bh == 0);
                if *self is C4 || *self is C8 {
                    assert(level == 0);
                }
            }
            let blocks = self.encode_image(current.as_slice(), wl, hl);
            proof {
                assert(wl * hl * cc <= usize::MAX);
                assert(current@.len() >= spec_box_needs(wl as int, hl as int, cc as int)) by (nonlinear_arith)
                    requires
                        current@.len() == wl * hl * cc,
                        cc >= 1,
                        spec_box_needs(wl as int, hl as int, cc as int) == if hl / 2 == 0 || wl / 2 == 0 || cc == 0 {
                            0
                        } else {
                            ((2 * (hl / 2) - 1) * wl + 2 * (wl / 2)) * cc
                        },
                ;
            }
            let next = box_filter_pixels(current.as_slice(), wl, hl, cc, false);
            proof {
                lemma_halve(w, level);
                lemma_halve(h, level);
                assert(next@.len() == (w >> ((level + 1) as usize)) * (h >> ((level + 1) as usize)) * cc) by (nonlinear_arith)
                    requires
                        next@.len() == (hl / 2) * (wl / 2) * cc,
                        wl / 2 == w >> ((level + 1) as usize),
                        hl / 2 == h >> ((level + 1) as usize),
                ;
            }
            levels.push(blocks);
            current = next;
            level = level + 1;
        }
        Ok(levels)
    }
}

/// Whether byte `j` of a CMPR block's 8x8 RGBA pixels lies in sub-block `i`:
/// the sub-blocks are the 4x4 quarters, left to right, then top to bottom.
pub open spec fn spec_in_sub_block(i: int, j: int) -> bool {
    let row = j / 32;
    let col = (j % 32) / 4;
    row / 4 == i / 2 && col / 4 == i % 2
}

/// The byte of a sub-block's 16 RGBA pixels (row by row) that byte `j` of the
/// block holds, where it lies in the sub-block.
pub open spec fn spec_sub_block_index(j: int) -> int {
    let row = j / 32;
    let col = (j % 32) / 4;
    ((row % 4) * 4 + col % 4) * 4 + j % 4
}

/// Writes the 16 decoded RGBA pixels of sub-block `i` into a CMPR block's 8x8
/// pixels.
pub fn dxt_place_sub_block(pixels: &mut [u8], i: usize, decoded: &[u8])
    requires
        old(pixels)@.len() == 256,
        i < 4,
        decoded@.len() == 64,
    ensures
        final(pixels)@.len() == 256,
        forall|j: int|
            0 <= j < 256 ==> #[trigger] final(pixels)@[j] == if spec_in_sub_block(i as int, j) {
                decoded@[spec_sub_block_index(j)]
            } else {
                old(pixels)@[j]
            },
{
    let mut j: usize = 0;
    while j < 256
        invariant
            0 <= j <= 256,
            i < 4,
            pixels@.len() == 256,
            decoded@.len() == 64,
            forall|m: int|
                0 <= m < j ==> #[trigger] pixels@[m] == if spec_in_sub_block(i as int, m) {
                    decoded@[spec_sub_block_index(m)]
                } else {
                    old(pixels)@[m]
                },
            forall|m: int| j <= m < 256 ==> #[trigger] pixels@[m] == old(pixels)@[m],
        decreases 256 - j,
    {
        let row = j / 32;
        let col = (j % 32) / 4;
        if row / 4 == i / 2 && col / 4 == i % 2 {
            let k = ((row % 4) * 4 + col % 4) * 4 + j % 4;
            pixels[j] = decoded[k];
        }
        j = j + 1;
    }
}

/// The 16 RGBA pixels of sub-block `i` of a CMPR block's 8x8 pixels, row by
/// row.
pub open spec fn spec_dxt_gather(pixels: Seq<u8>, i: int) -> Seq<u8> {
    Seq::new(
        64,
        |m: int|
            {
                let k = m / 4;
                pixels[((i / 2) * 4 + k / 4) * 32 + ((i % 2) * 4 + k % 4) * 4 + m % 4]
            },
    )
}

/// The 16 RGBA pixels of sub-block `i` (see `spec_dxt_gather`).
pub fn dxt_gather_sub_block(pixels: &[u8], i: usize) -> (r: Vec<u8>)
    requires
        pixels@.len() == 256,
        i < 4,
    ensures
        r@ == spec_dxt_gather(pixels@, i as int),
{
    let mut out: Vec<u8> = Vec::new();
    let mut m: usize = 0;
    while m < 64
        invariant
            0 <= m <= 64,
            i < 4,
            pixels@.len() == 256,
            out@.len() == m,
            forall|t: int| 0 <= t < m ==> out@[t] == spec_dxt_gather(pixels@, i as int)[t],
        decreases 64 - m,
    {
        let k = m / 4;
        out.push(pixels[((i / 2) * 4 + k / 4) * 32 + ((i % 2) * 4 + k % 4) * 4 + m % 4]);
        m = m + 1;
    }
    assert(out@ =~= spec_dxt_gather(pixels@, i as int));
    out
}

} // verus!
