//! Texture (TXTR) pixel formats: colour conversions, and the encoding and
//! decoding of one block of texels.
use vstd::prelude::*;
use crate::text::{spec_ascii_lowercase, str_eq, to_ascii_lowercase};

verus! {

/// Widens a 3-bit value to 8 bits by repeating its bits.
pub open spec fn spec_convert3to8(v: u8) -> u8 {
    ((v << 5u8) | (v << 2u8) | (v >> 1u8)) as u8
}

/// Widens a 4-bit value to 8 bits by repeating its bits.
pub open spec fn spec_convert4to8(v: u8) -> u8 {
    ((v << 4u8) | v) as u8
}

/// Widens a 5-bit value to 8 bits by repeating its top bits.
pub open spec fn spec_convert5to8(v: u8) -> u8 {
    ((v << 3u8) | (v >> 2u8)) as u8
}

/// Widens a 6-bit value to 8 bits by repeating its top bits.
pub open spec fn spec_convert6to8(v: u8) -> u8 {
    ((v << 2u8) | (v >> 4u8)) as u8
}

pub fn convert3to8(v: u8) -> (r: u8)
    ensures
        r == spec_convert3to8(v),
        v < 8 ==> r >> 5u8 == v,
{
    assert(v < 8 ==> ((v << 5u8) | (v << 2u8) | (v >> 1u8)) >> 5u8 == v) by (bit_vector);
    (v << 5u8) | (v << 2u8) | (v >> 1u8)
}

pub fn convert4to8(v: u8) -> (r: u8)
    ensures
        r == spec_convert4to8(v),
        v < 16 ==> r >> 4u8 == v,
{
    assert(v < 16 ==> ((v << 4u8) | v) >> 4u8 == v) by (bit_vector);
    (v << 4u8) | v
}

pub fn convert5to8(v: u8) -> (r: u8)
    ensures
        r == spec_convert5to8(v),
        v < 32 ==> r >> 3u8 == v,
{
    assert(v < 32 ==> ((v << 3u8) | (v >> 2u8)) >> 3u8 == v) by (bit_vector);
    (v << 3u8) | (v >> 2u8)
}

pub fn convert6to8(v: u8) -> (r: u8)
    ensures
        r == spec_convert6to8(v),
        v < 64 ==> r >> 2u8 == v,
{
    assert(v < 64 ==> ((v << 2u8) | (v >> 4u8)) >> 2u8 == v) by (bit_vector);
    (v << 2u8) | (v >> 4u8)
}

/// The big-endian RGB5A3 texel of an RGBA pixel: opaque pixels keep 5 bits
/// per colour channel (and set the top bit); others keep 4 bits per colour
/// and 3 bits of alpha.
pub open spec fn spec_rgb5a3_value(p: Seq<u8>) -> u16 {
    if p[3] == 0xff {
        (0x8000u16 | (((p[0] >> 3u8) as u16) << 10u16) | (((p[1] >> 3u8) as u16) << 5u16) | ((p[2]
            >> 3u8) as u16)) as u16
    } else {
        ((((p[0] >> 4u8) as u16) << 8u16) | (((p[1] >> 4u8) as u16) << 4u16) | ((p[2] >> 4u8) as u16)
            | (((p[3] >> 5u8) as u16) << 12u16)) as u16
    }
}

/// The big-endian RGB565 texel of an RGB pixel.
pub open spec fn spec_rgb565_value(p: Seq<u8>) -> u16 {
    ((((p[0] >> 3u8) as u16) << 11u16) | (((p[1] >> 2u8) as u16) << 5u16) | ((p[2] >> 3u8) as u16)) as u16
}

/// The two bytes of a texel value, most significant first.
pub open spec fn texel_bytes(v: u16) -> Seq<u8> {
    seq![(v >> 8u16) as u8, v as u8]
}

/// The value of a two-byte texel, most significant byte first.
pub open spec fn texel_value(t: Seq<u8>) -> u16 {
    (((t[0] as u16) << 8u16) | (t[1] as u16)) as u16
}

/// The RGBA pixel of an RGB5A3 texel value.
pub open spec fn spec_rgb5a3_pixel(v: u16) -> Seq<u8> {
    if v & 0x8000 != 0 {
        seq![
            spec_convert5to8(((v >> 10u16) & 0x1f) as u8),
            spec_convert5to8(((v >> 5u16) & 0x1f) as u8),
            spec_convert5to8((v & 0x1f) as u8),
            0xffu8,
        ]
    } else {
        seq![
            spec_convert4to8(((v >> 8u16) & 0xf) as u8),
            spec_convert4to8(((v >> 4u16) & 0xf) as u8),
            spec_convert4to8((v & 0xf) as u8),
            spec_convert3to8(((v >> 12u16) & 0x7) as u8),
        ]
    }
}

/// The RGB pixel of an RGB565 texel value.
pub open spec fn spec_rgb565_pixel(v: u16) -> Seq<u8> {
    seq![
        spec_convert5to8(((v >> 11u16) & 0x1f) as u8),
        spec_convert6to8(((v >> 5u16) & 0x3f) as u8),
        spec_convert5to8((v & 0x1f) as u8),
    ]
}

fn be_texel(v: u16) -> (r: [u8; 2])
    ensures
        r@ == texel_bytes(v),
{
    let r = [(v >> 8u16) as u8, v as u8];
    assert(r@ =~= texel_bytes(v));
    r
}

pub fn encode_rgb5a3(pixel: [u8; 4]) -> (r: [u8; 2])
    ensures
        r@ == texel_bytes(spec_rgb5a3_value(pixel@)),
{
    let v: u16 = if pixel[3] == 0xff {
        0x8000u16 | (((pixel[0] >> 3u8) as u16) << 10u16) | (((pixel[1] >> 3u8) as u16) << 5u16) | ((
        pixel[2] >> 3u8) as u16)
    } else {
        (((pixel[0] >> 4u8) as u16) << 8u16) | (((pixel[1] >> 4u8) as u16) << 4u16) | ((pixel[2]
            >> 4u8) as u16) | (((pixel[3] >> 5u8) as u16) << 12u16)
    };
    be_texel(v)
}

pub fn encode_rgb565(pixel: [u8; 3]) -> (r: [u8; 2])
    ensures
        r@ == texel_bytes(spec_rgb565_value(pixel@)),
{
    let v: u16 = (((pixel[0] >> 3u8) as u16) << 11u16) | (((pixel[1] >> 2u8) as u16) << 5u16) | ((
    pixel[2] >> 3u8) as u16);
    be_texel(v)
}

pub fn decode_rgb5a3(texel: [u8; 2]) -> (r: [u8; 4])
    ensures
        r@ == spec_rgb5a3_pixel(texel_value(texel@)),
{
    let v: u16 = ((texel[0] as u16) << 8u16) | (texel[1] as u16);
    let r = if v & 0x8000 != 0 {
        [
            convert5to8(((v >> 10u16) & 0x1f) as u8),
            convert5to8(((v >> 5u16) & 0x1f) as u8),
            convert5to8((v & 0x1f) as u8),
            0xff,
        ]
    } else {
        [
            convert4to8(((v >> 8u16) & 0xf) as u8),
            convert4to8(((v >> 4u16) & 0xf) as u8),
            convert4to8((v & 0xf) as u8),
            convert3to8(((v >> 12u16) & 0x7) as u8),
        ]
    };
    assert(r@ =~= spec_rgb5a3_pixel(texel_value(texel@)));
    r
}

pub fn decode_rgb565(texel: [u8; 2]) -> (r: [u8; 3])
    ensures
        r@ == spec_rgb565_pixel(texel_value(texel@)),
{
    let v: u16 = ((texel[0] as u16) << 8u16) | (texel[1] as u16);
    let r = [
        convert5to8(((v >> 11u16) & 0x1f) as u8),
        convert6to8(((v >> 5u16) & 0x3f) as u8),
        convert5to8((v & 0x1f) as u8),
    ];
    assert(r@ =~= spec_rgb565_pixel(texel_value(texel@)));
    r
}

/// Encoding a decoded RGB565 texel gives the texel back.
pub proof fn lemma_rgb565_decode_encode(v: u16)
    ensures
        spec_rgb565_value(spec_rgb565_pixel(v)) == v,
{
    let a = ((v >> 11u16) & 0x1f) as u8;
    let b = ((v >> 5u16) & 0x3f) as u8;
    let c = (v & 0x1f) as u8;
    let p = spec_rgb565_pixel(v);
    assert(p[0] == spec_convert5to8(a) && p[1] == spec_convert6to8(b) && p[2] == spec_convert5to8(c));
    assert(((((((a << 3u8) | (a >> 2u8)) as u8 >> 3u8) as u16) << 11u16) | (((((b << 2u8) | (b
        >> 4u8)) as u8 >> 2u8) as u16) << 5u16) | ((((c << 3u8) | (c >> 2u8)) as u8 >> 3u8) as u16))
        == v) by (bit_vector)
        requires
            a == ((v >> 11u16) & 0x1f) as u8,
            b == ((v >> 5u16) & 0x3f) as u8,
            c == (v & 0x1f) as u8,
    ;
}

/// Encoding a decoded RGB5A3 texel gives the texel back, except for a
/// translucent texel whose alpha bits are all set: it decodes to an opaque
/// pixel, which encodes in the opaque form.
pub proof fn lemma_rgb5a3_decode_encode(v: u16)
    requires
        v & 0x8000 != 0 || (v >> 12u16) & 0x7 != 0x7,
    ensures
        spec_rgb5a3_value(spec_rgb5a3_pixel(v)) == v,
{
    let p = spec_rgb5a3_pixel(v);
    if v & 0x8000 != 0 {
        let a = ((v >> 10u16) & 0x1f) as u8;
        let b = ((v >> 5u16) & 0x1f) as u8;
        let c = (v & 0x1f) as u8;
        assert(p[3] == 0xff);
        assert((0x8000u16 | ((((((a << 3u8) | (a >> 2u8)) as u8) >> 3u8) as u16) << 10u16) | (((((
        (b << 3u8) | (b >> 2u8)) as u8) >> 3u8) as u16) << 5u16) | (((((c << 3u8) | (c >> 2u8))
            as u8) >> 3u8) as u16)) == v) by (bit_vector)
            requires
                v & 0x8000 != 0,
                a == ((v >> 10u16) & 0x1f) as u8,
                b == ((v >> 5u16) & 0x1f) as u8,
                c == (v & 0x1f) as u8,
        ;
    } else {
        let a = ((v >> 8u16) & 0xf) as u8;
        let b = ((v >> 4u16) & 0xf) as u8;
        let c = (v & 0xf) as u8;
        let d = ((v >> 12u16) & 0x7) as u8;
        assert(((v >> 12u16) & 0x7) <= 7) by (bit_vector);
        assert(((d << 5u8) | (d << 2u8) | (d >> 1u8)) as u8 != 0xff) by (bit_vector)
            requires
                d < 7,
        ;
        assert(((((((a << 4u8) | a) as u8 >> 4u8) as u16) << 8u16) | (((((b << 4u8) | b) as u8
            >> 4u8) as u16) << 4u16) | ((((c << 4u8) | c) as u8 >> 4u8) as u16) | (((((d << 5u8) | (d
            << 2u8) | (d >> 1u8)) as u8 >> 5u8) as u16) << 12u16)) == v) by (bit_vector)
            requires
                v & 0x8000 == 0,
                a == ((v >> 8u16) & 0xf) as u8,
                b == ((v >> 4u16) & 0xf) as u8,
                c == (v & 0xf) as u8,
                d == ((v >> 12u16) & 0x7) as u8,
        ;
    }
}

/// Texel encodings, as a lossless conversion of pixel bytes: the code of a
/// two-byte texel read most significant byte first.
pub proof fn lemma_texel_bytes_value(t: Seq<u8>)
    requires
        t.len() == 2,
    ensures
        texel_bytes(texel_value(t)) == t,
{
    let (a, b) = (t[0], t[1]);
    assert((((((a as u16) << 8u16) | (b as u16)) as u16) >> 8u16) as u8 == a && ((((a as u16) << 8u16)
        | (b as u16)) as u16) as u8 == b) by (bit_vector);
    assert(texel_bytes(texel_value(t)) =~= t);
}

/// The pixel layout of an image: channels per pixel.
#[derive(Clone, Copy, Debug, PartialEq, Eq, Structural)]
pub enum ColorType {
    L8,
    La8,
    Rgb8,
    Rgba8,
}

pub open spec fn spec_channel_count(c: ColorType) -> nat {
    match c {
        ColorType::L8 => 1,
        ColorType::La8 => 2,
        ColorType::Rgb8 => 3,
        ColorType::Rgba8 => 4,
    }
}

impl ColorType {
    pub fn channel_count(&self) -> (r: u8)
        ensures
            r == spec_channel_count(*self),
    {
        match self {
            ColorType::L8 => 1,
            ColorType::La8 => 2,
            ColorType::Rgb8 => 3,
            ColorType::Rgba8 => 4,
        }
    }
}

/// The colour encoding of a palette's entries.
#[derive(Clone, Copy, Debug, PartialEq, Eq, Structural)]
pub enum TxtrPaletteFormat {
    Ia8,
    Rgb565,
    Rgb5A3,
}

pub open spec fn spec_palette_color_type(f: TxtrPaletteFormat) -> ColorType {
    match f {
        TxtrPaletteFormat::Ia8 => ColorType::La8,
        TxtrPaletteFormat::Rgb565 => ColorType::Rgb8,
        TxtrPaletteFormat::Rgb5A3 => ColorType::Rgba8,
    }
}

impl TxtrPaletteFormat {
    pub fn color_type(&self) -> (r: ColorType)
        ensures
            r == spec_palette_color_type(*self),
    {
        match self {
            TxtrPaletteFormat::Ia8 => ColorType::La8,
            TxtrPaletteFormat::Rgb565 => ColorType::Rgb8,
            TxtrPaletteFormat::Rgb5A3 => ColorType::Rgba8,
        }
    }
}

/// A texture format. The paletted formats carry their palette: two bytes per
/// entry.
#[derive(Clone, Debug)]
pub enum TxtrFormat {
    I4,
    I8,
    Ia4,
    Ia8,
    C4(TxtrPaletteFormat, Vec<u8>),
    C8(TxtrPaletteFormat, Vec<u8>),
    Rgb565,
    Rgb5A3,
    Rgba8,
    Cmpr,
}

pub open spec fn spec_color_type(f: TxtrFormat) -> ColorType {
    match f {
        TxtrFormat::I4 => ColorType::L8,
        TxtrFormat::I8 => ColorType::L8,
        TxtrFormat::Ia4 => ColorType::La8,
        TxtrFormat::Ia8 => ColorType::La8,
        TxtrFormat::C4(fmt, _) => spec_palette_color_type(fmt),
        TxtrFormat::C8(fmt, _) => spec_palette_color_type(fmt),
        TxtrFormat::Rgb565 => ColorType::Rgb8,
        TxtrFormat::Rgb5A3 => ColorType::Rgba8,
        TxtrFormat::Rgba8 => ColorType::Rgba8,
        TxtrFormat::Cmpr => ColorType::Rgba8,
    }
}

pub open spec fn spec_bytes_per_block(f: TxtrFormat) -> nat {
    match f {
        TxtrFormat::Rgba8 => 64,
        _ => 32,
    }
}

pub open spec fn spec_block_dimensions(f: TxtrFormat) -> (nat, nat) {
    match f {
        TxtrFormat::I4 => (8, 8),
        TxtrFormat::I8 => (8, 4),
        TxtrFormat::Ia4 => (8, 4),
        TxtrFormat::Ia8 => (4, 4),
        TxtrFormat::C4(_, _) => (8, 8),
        TxtrFormat::C8(_, _) => (8, 4),
        TxtrFormat::Rgb565 => (4, 4),
        TxtrFormat::Rgb5A3 => (4, 4),
        TxtrFormat::Rgba8 => (4, 4),
        TxtrFormat::Cmpr => (8, 8),
    }
}

pub open spec fn spec_flipped(f: TxtrFormat) -> bool {
    match f {
        TxtrFormat::C4(_, _) | TxtrFormat::C8(_, _) => false,
        _ => true,
    }
}

/// The number of bytes of the decoded pixels of one block: channels times
/// block width times block height.
pub open spec fn spec_block_pixel_bytes(f: TxtrFormat) -> nat {
    match f {
        TxtrFormat::I4 => 64,
        TxtrFormat::I8 => 32,
        TxtrFormat::Ia4 => 64,
        TxtrFormat::Ia8 => 32,
        TxtrFormat::C4(fmt, _) => 64 * spec_channel_count(spec_palette_color_type(fmt)),
        TxtrFormat::C8(fmt, _) => 32 * spec_channel_count(spec_palette_color_type(fmt)),
        TxtrFormat::Rgb565 => 48,
        TxtrFormat::Rgb5A3 => 64,
        TxtrFormat::Rgba8 => 64,
        TxtrFormat::Cmpr => 256,
    }
}

/// The decoded pixel of palette entry `n`.
pub open spec fn spec_palette_pixel(fmt: TxtrPaletteFormat, pal: Seq<u8>, n: int) -> Seq<u8> {
    let entry = pal.subrange(2 * n, 2 * n + 2);
    match fmt {
        TxtrPaletteFormat::Ia8 => entry,
        TxtrPaletteFormat::Rgb565 => spec_rgb565_pixel(texel_value(entry)),
        TxtrPaletteFormat::Rgb5A3 => spec_rgb5a3_pixel(texel_value(entry)),
    }
}

/// The palette index of pixel `p` of a C4 block: the high nibble of each byte
/// comes first.
pub open spec fn spec_c4_index(block: Seq<u8>, p: int) -> int {
    if p % 2 == 0 {
        (block[p / 2] >> 4u8) as int
    } else {
        (block[p / 2] & 0xfu8) as int
    }
}

/// The pixels that a block of texels decodes to (for every format but CMPR).
pub open spec fn spec_decode_block(f: TxtrFormat, block: Seq<u8>) -> Seq<u8> {
    match f {
        TxtrFormat::I4 | TxtrFormat::Ia4 => Seq::new(
            64,
            |i: int|
                if i % 2 == 0 {
                    spec_convert4to8(block[i / 2] >> 4u8)
                } else {
                    spec_convert4to8(block[i / 2] & 0xfu8)
                },
        ),
        TxtrFormat::I8 | TxtrFormat::Ia8 | TxtrFormat::Rgba8 => block,
        TxtrFormat::Rgb565 => Seq::new(
            48,
            |i: int| spec_rgb565_pixel(texel_value(block.subrange(2 * (i / 3), 2 * (i / 3) + 2)))[i % 3],
        ),
        TxtrFormat::Rgb5A3 => Seq::new(
            64,
            |i: int| spec_rgb5a3_pixel(texel_value(block.subrange(2 * (i / 4), 2 * (i / 4) + 2)))[i % 4],
        ),
        TxtrFormat::C4(fmt, pal) => {
            let cc = spec_channel_count(spec_palette_color_type(fmt)) as int;
            Seq::new(
                (64 * cc) as nat,
                |i: int| spec_palette_pixel(fmt, pal@, spec_c4_index(block, i / cc))[i % cc],
            )
        },
        TxtrFormat::C8(fmt, pal) => {
            let cc = spec_channel_count(spec_palette_color_type(fmt)) as int;
            Seq::new(
                (32 * cc) as nat,
                |i: int| spec_palette_pixel(fmt, pal@, block[i / cc] as int)[i % cc],
            )
        },
        TxtrFormat::Cmpr => Seq::empty(),
    }
}

/// A format's palette is large enough for every index its texels can hold.
pub open spec fn spec_palette_fits(f: TxtrFormat) -> bool {
    match f {
        TxtrFormat::C4(_, pal) => pal@.len() >= 32,
        TxtrFormat::C8(_, pal) => pal@.len() >= 512,
        _ => true,
    }
}

impl TxtrFormat {
    pub fn color_type(&self) -> (r: ColorType)
        ensures
            r == spec_color_type(*self),
    {
        match self {
            TxtrFormat::I4 => ColorType::L8,
            TxtrFormat::I8 => ColorType::L8,
            TxtrFormat::Ia4 => ColorType::La8,
            TxtrFormat::Ia8 => ColorType::La8,
            TxtrFormat::C4(fmt, _) | TxtrFormat::C8(fmt, _) => fmt.color_type(),
            TxtrFormat::Rgb565 => ColorType::Rgb8,
            TxtrFormat::Rgb5A3 => ColorType::Rgba8,
            TxtrFormat::Rgba8 => ColorType::Rgba8,
            TxtrFormat::Cmpr => ColorType::Rgba8,
        }
    }

    pub fn bytes_per_block(&self) -> (r: usize)
        ensures
            r == spec_bytes_per_block(*self),
    {
        match self {
            TxtrFormat::Rgba8 => 64,
            _ => 32,
        }
    }

    pub fn block_dimensions(&self) -> (r: (usize, usize))
        ensures
            r.0 == spec_block_dimensions(*self).0,
            r.1 == spec_block_dimensions(*self).1,
    {
        match self {
            TxtrFormat::I4 => (8, 8),
            TxtrFormat::I8 => (8, 4),
            TxtrFormat::Ia4 => (8, 4),
            TxtrFormat::Ia8 => (4, 4),
            TxtrFormat::C4(_, _) => (8, 8),
            TxtrFormat::C8(_, _) => (8, 4),
            TxtrFormat::Rgb565 => (4, 4),
            TxtrFormat::Rgb5A3 => (4, 4),
            TxtrFormat::Rgba8 => (4, 4),
            TxtrFormat::Cmpr => (8, 8),
        }
    }

    /// Whether image rows are stored bottom-up.
    pub fn flipped(&self) -> (r: bool)
        ensures
            r == spec_flipped(*self),
    {
        match self {
            TxtrFormat::C4(_, _) | TxtrFormat::C8(_, _) => false,
            _ => true,
        }
    }

    /// Decodes one block of texels into pixels (CMPR blocks are decoded by the
    /// DXT1 codec instead).
    pub fn decode_block(&self, block: &[u8], pixels: &mut [u8])
        requires
            !(*self is Cmpr),
            spec_palette_fits(*self),
            block@.len() == spec_bytes_per_block(*self),
            old(pixels)@.len() == spec_block_pixel_bytes(*self),
        ensures
            final(pixels)@ == spec_decode_block(*self, block@),
    {
        let ghost target = spec_decode_block(*self, block@);
        match self {
            TxtrFormat::I4 | TxtrFormat::Ia4 => {
                let mut i: usize = 0;
                while i < 32
                    invariant
                        0 <= i <= 32,
                        block@.len() == 32,
                        pixels@.len() == 64,
                        target == spec_decode_block(*self, block@),
                        *self is I4 || *self is Ia4,
                        forall|j: int| 0 <= j < 2 * i ==> pixels@[j] == target[j],
                    decreases 32 - i,
                {
                    pixels[2 * i] = convert4to8(block[i] >> 4u8);
                    pixels[2 * i + 1] = convert4to8(block[i] & 0xf);
                    i = i + 1;
                }
                assert(pixels@ =~= target);
            },
            TxtrFormat::I8 | TxtrFormat::Ia8 | TxtrFormat::Rgba8 => {
                copy_bytes(pixels, block);
            },
            TxtrFormat::Rgb565 => {
                let mut t: usize = 0;
                while t < 16
                    invariant
                        0 <= t <= 16,
                        block@.len() == 32,
                        pixels@.len() == 48,
                        target == spec_decode_block(*self, block@),
                        *self is Rgb565,
                        forall|j: int| 0 <= j < 3 * t ==> pixels@[j] == target[j],
                    decreases 16 - t,
                {
                    let d = decode_rgb565([block[2 * t], block[2 * t + 1]]);
                    proof {
                        let sub = block@.subrange(2 * t, 2 * t + 2);
                        assert(sub =~= seq![block@[2 * t], block@[2 * t + 1]]);
                        assert(forall|k: int| 3 * t <= k < 3 * t + 3 ==> #[trigger] (k / 3) == t && k % 3 == k - 3 * t);
                    }
                    pixels[3 * t] = d[0];
                    pixels[3 * t + 1] = d[1];
                    pixels[3 * t + 2] = d[2];
                    t = t + 1;
                }
                assert(pixels@ =~= target);
            },
            TxtrFormat::Rgb5A3 => {
                let mut t: usize = 0;
                while t < 16
                    invariant
                        0 <= t <= 16,
                        block@.len() == 32,
                        pixels@.len() == 64,
                        target == spec_decode_block(*self, block@),
                        *self is Rgb5A3,
                        forall|j: int| 0 <= j < 4 * t ==> pixels@[j] == target[j],
                    decreases 16 - t,
                {
                    let d = decode_rgb5a3([block[2 * t], block[2 * t + 1]]);
                    proof {
                        let sub = block@.subrange(2 * t, 2 * t + 2);
                        assert(sub =~= seq![block@[2 * t], block@[2 * t + 1]]);
                        assert(forall|k: int| 4 * t <= k < 4 * t + 4 ==> #[trigger] (k / 4) == t && k % 4 == k - 4 * t);
                    }
                    pixels[4 * t] = d[0];
                    pixels[4 * t + 1] = d[1];
                    pixels[4 * t + 2] = d[2];
                    pixels[4 * t + 3] = d[3];
                    t = t + 1;
                }
                assert(pixels@ =~= target);
            },
            TxtrFormat::C4(fmt, palette) => {
                let cc = fmt.color_type().channel_count() as usize;
                let mut p: usize = 0;
                while p < 64
                    invariant
                        0 <= p <= 64,
                        block@.len() == 32,
                        cc == spec_channel_count(spec_palette_color_type(*fmt)),
                        pixels@.len() == 64 * cc,
                        palette@.len() >= 32,
                        target == spec_decode_block(*self, block@),
                        *self == TxtrFormat::C4(*fmt, *palette),
                        forall|j: int| 0 <= j < p * cc ==> pixels@[j] == target[j],
                    decreases 64 - p,
                {
                    let b = block[p / 2];
                    assert(b >> 4u8 < 16 && b & 0xfu8 < 16) by (bit_vector);
                    let n: usize = if p % 2 == 0 {
                        (b >> 4u8) as usize
                    } else {
                        (b & 0xf) as usize
                    };
                    assert(n == spec_c4_index(block@, p as int));
                    write_palette_pixel(pixels, p * cc, *fmt, palette.as_slice(), n);
                    proof {
                        assert forall|k: int| p * cc <= k < p * cc + cc implies #[trigger] (k / (cc as int)) == p && k % (cc as int) == k - p * cc by {
                            lemma_div_in_block(k, p as int, cc as int);
                        }
                        assert(p * cc + cc == (p + 1) * cc) by (nonlinear_arith);
                    }
                    p = p + 1;
                }
                assert(pixels@ =~= target);
            },
            TxtrFormat::C8(fmt, palette) => {
                let cc = fmt.color_type().channel_count() as usize;
                let mut p: usize = 0;
                while p < 32
                    invariant
                        0 <= p <= 32,
                        block@.len() == 32,
                        cc == spec_channel_count(spec_palette_color_type(*fmt)),
                        pixels@.len() == 32 * cc,
                        palette@.len() >= 512,
                        target == spec_decode_block(*self, block@),
                        *self == TxtrFormat::C8(*fmt, *palette),
                        forall|j: int| 0 <= j < p * cc ==> pixels@[j] == target[j],
                    decreases 32 - p,
                {
                    let n = block[p] as usize;
                    write_palette_pixel(pixels, p * cc, *fmt, palette.as_slice(), n);
                    proof {
                        assert forall|k: int| p * cc <= k < p * cc + cc implies #[trigger] (k / (cc as int)) == p && k % (cc as int) == k - p * cc by {
                            lemma_div_in_block(k, p as int, cc as int);
                        }
                        assert(p * cc + cc == (p + 1) * cc) by (nonlinear_arith);
                    }
                    p = p + 1;
                }
                assert(pixels@ =~= target);
            },
            TxtrFormat::Cmpr => {},
        }
    }
}

/// For `p * c <= k < p * c + c`, `k / c == p`.
pub proof fn lemma_div_in_block(k: int, p: int, c: int)
    requires
        c > 0,
        p >= 0,
        p * c <= k < p * c + c,
    ensures
        k / c == p,
        k % c == k - p * c,
{
    vstd::arithmetic::div_mod::lemma_fundamental_div_mod_converse(k, c, p, k - p * c);
}

/// Copies `src` over `dst`, which has the same length.
fn copy_bytes(dst: &mut [u8], src: &[u8])
    requires
        old(dst)@.len() == src@.len(),
    ensures
        final(dst)@ == src@,
{
    let mut i: usize = 0;
    while i < src.len()
        invariant
            0 <= i <= src@.len(),
            dst@.len() == src@.len(),
            forall|j: int| 0 <= j < i ==> dst@[j] == src@[j],
        decreases src@.len() - i,
    {
        dst[i] = src[i];
        i = i + 1;
    }
    assert(dst@ =~= src@);
}

/// Writes the decoded pixel of palette entry `n` at `start`.
fn write_palette_pixel(pixels: &mut [u8], start: usize, fmt: TxtrPaletteFormat, palette: &[u8], n: usize)
    requires
        2 * n + 2 <= palette@.len(),
        start + spec_channel_count(spec_palette_color_type(fmt)) <= old(pixels)@.len(),
    ensures
        final(pixels)@.len() == old(pixels)@.len(),
        forall|j: int| 0 <= j < start ==> final(pixels)@[j] == old(pixels)@[j],
        forall|j: int| start + spec_channel_count(spec_palette_color_type(fmt)) <= j < old(pixels)@.len() ==> final(pixels)@[j] == old(pixels)@[j],
        forall|k: int| 0 <= k < spec_channel_count(spec_palette_color_type(fmt)) ==> final(pixels)@[start + k] == spec_palette_pixel(fmt, palette@, n as int)[k],
{
    let _plen = palette.len();
    let entry = [palette[2 * n], palette[2 * n + 1]];
    assert(palette@.subrange(2 * n, 2 * n + 2) =~= entry@);
    match fmt {
        TxtrPaletteFormat::Ia8 => {
            pixels[start] = entry[0];
            pixels[start + 1] = entry[1];
        },
        TxtrPaletteFormat::Rgb565 => {
            let d = decode_rgb565(entry);
            pixels[start] = d[0];
            pixels[start + 1] = d[1];
            pixels[start + 2] = d[2];
        },
        TxtrPaletteFormat::Rgb5A3 => {
            let d = decode_rgb5a3(entry);
            pixels[start] = d[0];
            pixels[start + 1] = d[1];
            pixels[start + 2] = d[2];
            pixels[start + 3] = d[3];
        },
    }
}

/// Palette entry `n`: its two bytes.
pub open spec fn palette_entry(pal: Seq<u8>, n: int) -> Seq<u8> {
    pal.subrange(2 * n, 2 * n + 2)
}

/// The first palette entry at or after `n` that equals `e`; -1 where there is none.
pub open spec fn spec_first_entry_from(pal: Seq<u8>, e: Seq<u8>, n: nat) -> int
    decreases pal.len() / 2 - n,
{
    if n >= pal.len() / 2 {
        -1
    } else if palette_entry(pal, n as int) == e {
        n as int
    } else {
        spec_first_entry_from(pal, e, n + 1)
    }
}

/// The last palette entry before `n` that equals `e`; -1 where there is none.
pub open spec fn spec_last_entry_below(pal: Seq<u8>, e: Seq<u8>, n: nat) -> int
    decreases n,
{
    if n == 0 {
        -1
    } else if palette_entry(pal, n - 1) == e {
        n - 1
    } else {
        spec_last_entry_below(pal, e, (n - 1) as nat)
    }
}

/// The two bytes that a pixel is stored as in a palette of the given format.
pub open spec fn spec_palette_encoding(fmt: TxtrPaletteFormat, px: Seq<u8>) -> Seq<u8> {
    match fmt {
        TxtrPaletteFormat::Ia8 => px,
        TxtrPaletteFormat::Rgb565 => texel_bytes(spec_rgb565_value(px)),
        TxtrPaletteFormat::Rgb5A3 => texel_bytes(spec_rgb5a3_value(px)),
    }
}

/// Pixel `p` of a block of pixels with `cc` channels.
pub open spec fn block_pixel(pixels: Seq<u8>, p: int, cc: int) -> Seq<u8> {
    pixels.subrange(p * cc, p * cc + cc)
}

/// The palette index that a C4 block stores for pixel `p`: the first entry
/// that holds its encoding.
pub open spec fn spec_c4_entry(fmt: TxtrPaletteFormat, pal: Seq<u8>, pixels: Seq<u8>, p: int) -> int {
    let cc = spec_channel_count(spec_palette_color_type(fmt)) as int;
    spec_first_entry_from(pal, spec_palette_encoding(fmt, block_pixel(pixels, p, cc)), 0)
}

/// The palette index that a C8 block stores for pixel `p`: the last entry
/// that holds its encoding.
pub open spec fn spec_c8_entry(fmt: TxtrPaletteFormat, pal: Seq<u8>, pixels: Seq<u8>, p: int) -> int {
    let cc = spec_channel_count(spec_palette_color_type(fmt)) as int;
    spec_last_entry_below(pal, spec_palette_encoding(fmt, block_pixel(pixels, p, cc)), pal.len() / 2)
}

/// Every pixel of the block has its encoding somewhere in the palette.
pub open spec fn spec_palette_covers(f: TxtrFormat, pixels: Seq<u8>) -> bool {
    match f {
        TxtrFormat::C4(fmt, pal) => forall|p: int|
            0 <= p < 64 ==> #[trigger] spec_c4_entry(fmt, pal@, pixels, p) >= 0,
        TxtrFormat::C8(fmt, pal) => forall|p: int|
            0 <= p < 32 ==> #[trigger] spec_c8_entry(fmt, pal@, pixels, p) >= 0,
        _ => true,
    }
}

/// The texels that a block of pixels encodes to (for every format but CMPR).
pub open spec fn spec_encode_block(f: TxtrFormat, pixels: Seq<u8>) -> Seq<u8> {
    match f {
        TxtrFormat::I4 | TxtrFormat::Ia4 => Seq::new(
            32,
            |i: int| ((pixels[2 * i + 1] >> 4u8) | ((pixels[2 * i] >> 4u8) << 4u8)) as u8,
        ),
        TxtrFormat::I8 | TxtrFormat::Ia8 | TxtrFormat::Rgba8 => pixels,
        TxtrFormat::Rgb565 => Seq::new(
            32,
            |i: int| texel_bytes(spec_rgb565_value(block_pixel(pixels, i / 2, 3)))[i % 2],
        ),
        TxtrFormat::Rgb5A3 => Seq::new(
            32,
            |i: int| texel_bytes(spec_rgb5a3_value(block_pixel(pixels, i / 2, 4)))[i % 2],
        ),
        TxtrFormat::C4(fmt, pal) => Seq::new(
            32,
            |i: int|
                ((spec_c4_entry(fmt, pal@, pixels, 2 * i + 1) as u8) | ((spec_c4_entry(
                    fmt,
                    pal@,
                    pixels,
                    2 * i,
                ) as u8) << 4u8)) as u8,
        ),
        TxtrFormat::C8(fmt, pal) => Seq::new(
            32,
            |i: int| spec_c8_entry(fmt, pal@, pixels, i) as u8,
        ),
        TxtrFormat::Cmpr => Seq::empty(),
    }
}

/// Whether every texel of an RGB5A3 block decodes to a pixel that encodes
/// back to it: opaque, or translucent with its alpha bits not all set.
pub open spec fn spec_rgb5a3_block_round_trips(block: Seq<u8>) -> bool {
    forall|k: int|
        0 <= k < 16 ==> {
            let v = #[trigger] texel_value(block.subrange(2 * k, 2 * k + 2));
            v & 0x8000 != 0 || (v >> 12u16) & 0x7 != 0x7
        }
}

/// Decoding a block and encoding the pixels gives the block back, for every
/// format without a palette but CMPR; for RGB5A3, where each texel decodes
/// to a pixel that encodes back to it.
pub proof fn lemma_block_decode_encode(f: TxtrFormat, block: Seq<u8>)
    requires
        !(f is Cmpr || f is C4 || f is C8),
        block.len() == spec_bytes_per_block(f),
        f is Rgb5A3 ==> spec_rgb5a3_block_round_trips(block),
    ensures
        spec_encode_block(f, spec_decode_block(f, block)) == block,
{
    let d = spec_decode_block(f, block);
    let e = spec_encode_block(f, d);
    match f {
        TxtrFormat::I4 | TxtrFormat::Ia4 => {
            assert forall|i: int| 0 <= i < 32 implies e[i] == block[i] by {
                let b = block[i];
                assert(d[2 * i] == spec_convert4to8(b >> 4u8));
                assert(d[2 * i + 1] == spec_convert4to8(b & 0xfu8));
                assert(((((((b & 0xfu8) << 4u8) | (b & 0xfu8)) as u8) >> 4u8) | ((((((b >> 4u8) << 4u8)
                    | (b >> 4u8)) as u8) >> 4u8) << 4u8)) as u8 == b) by (bit_vector);
            }
            assert(e =~= block);
        },
        TxtrFormat::I8 | TxtrFormat::Ia8 | TxtrFormat::Rgba8 => {},
        TxtrFormat::Rgb565 => {
            assert forall|i: int| 0 <= i < 32 implies e[i] == block[i] by {
                let k = i / 2;
                let t = block.subrange(2 * k, 2 * k + 2);
                assert(block_pixel(d, k, 3) =~= spec_rgb565_pixel(texel_value(t)));
                lemma_rgb565_decode_encode(texel_value(t));
                lemma_texel_bytes_value(t);
                assert(t[i % 2] == block[i]);
            }
            assert(e =~= block);
        },
        TxtrFormat::Rgb5A3 => {
            assert forall|i: int| 0 <= i < 32 implies e[i] == block[i] by {
                let k = i / 2;
                let t = block.subrange(2 * k, 2 * k + 2);
                assert(block_pixel(d, k, 4) =~= spec_rgb5a3_pixel(texel_value(t)));
                lemma_rgb5a3_decode_encode(texel_value(t));
                lemma_texel_bytes_value(t);
                assert(t[i % 2] == block[i]);
            }
            assert(e =~= block);
        },
        _ => {},
    }
}

/// Encodes one pixel for a palette of the given format.
fn palette_encoding(fmt: TxtrPaletteFormat, pixels: &[u8], start: usize) -> (r: [u8; 2])
    requires
        start + spec_channel_count(spec_palette_color_type(fmt)) <= pixels@.len(),
    ensures
        r@ == spec_palette_encoding(
            fmt,
            pixels@.subrange(start as int, start + spec_channel_count(spec_palette_color_type(fmt))),
        ),
{
    let _l = pixels.len();
    match fmt {
        TxtrPaletteFormat::Ia8 => {
            let r = [pixels[start], pixels[start + 1]];
            assert(r@ =~= pixels@.subrange(start as int, start + 2));
            r
        },
        TxtrPaletteFormat::Rgb565 => {
            let px = [pixels[start], pixels[start + 1], pixels[start + 2]];
            assert(px@ =~= pixels@.subrange(start as int, start + 3));
            encode_rgb565(px)
        },
        TxtrPaletteFormat::Rgb5A3 => {
            let px = [pixels[start], pixels[start + 1], pixels[start + 2], pixels[start + 3]];
            assert(px@ =~= pixels@.subrange(start as int, start + 4));
            encode_rgb5a3(px)
        },
    }
}

/// Where no entry in `[k, n)` equals `e` and entry `n` does, the first entry
/// from `k` is `n`.
proof fn lemma_first_entry(pal: Seq<u8>, e: Seq<u8>, k: nat, n: nat)
    requires
        k <= n < pal.len() / 2,
        palette_entry(pal, n as int) == e,
        forall|m: int| k <= m < n ==> palette_entry(pal, m) != e,
    ensures
        spec_first_entry_from(pal, e, k) == n,
    decreases n - k,
{
    if k < n {
        lemma_first_entry(pal, e, k + 1, n);
    }
}

/// Where no entry at all equals `e` from `k` on, there is no first entry.
proof fn lemma_no_first_entry(pal: Seq<u8>, e: Seq<u8>, k: nat)
    requires
        forall|m: int| k <= m < pal.len() / 2 ==> palette_entry(pal, m) != e,
    ensures
        spec_first_entry_from(pal, e, k) == -1,
    decreases pal.len() / 2 - k,
{
    if k < pal.len() / 2 {
        lemma_no_first_entry(pal, e, k + 1);
    }
}

/// Where no entry in `(n, top)` equals `e` and entry `n` does, the last entry
/// below `top` is `n`.
proof fn lemma_last_entry(pal: Seq<u8>, e: Seq<u8>, top: nat, n: nat)
    requires
        n < top,
        palette_entry(pal, n as int) == e,
        forall|m: int| n < m < top ==> palette_entry(pal, m) != e,
    ensures
        spec_last_entry_below(pal, e, top) == n,
    decreases top - n,
{
    if n + 1 < top {
        lemma_last_entry(pal, e, (top - 1) as nat, n);
    }
}

/// The first palette entry that equals `e`, where there is one.
fn find_first_entry(pal: &[u8], e: [u8; 2]) -> (r: Option<usize>)
    ensures
        r matches Some(n) ==> n as int == spec_first_entry_from(pal@, e@, 0) && n < pal@.len() / 2,
        r is None ==> spec_first_entry_from(pal@, e@, 0) == -1,
{
    let count = pal.len() / 2;
    let mut n: usize = 0;
    while n < count
        invariant
            0 <= n <= count,
            count == pal@.len() / 2,
            2 * count <= pal@.len(),
            pal@.len() <= usize::MAX,
            forall|m: int| 0 <= m < n ==> palette_entry(pal@, m) != e@,
        decreases count - n,
    {
        if pal[2 * n] == e[0] && pal[2 * n + 1] == e[1] {
            proof {
                assert(palette_entry(pal@, n as int) =~= e@);
                lemma_first_entry(pal@, e@, 0, n as nat);
            }
            return Some(n);
        }
        assert(palette_entry(pal@, n as int)[0] == pal@[2 * n] && palette_entry(pal@, n as int)[1] == pal@[2 * n + 1]);
        n = n + 1;
    }
    proof {
        lemma_no_first_entry(pal@, e@, 0);
    }
    None
}

/// The last palette entry that equals `e`, where there is one.
fn find_last_entry(pal: &[u8], e: [u8; 2]) -> (r: Option<usize>)
    ensures
        r matches Some(n) ==> n as int == spec_last_entry_below(pal@, e@, pal@.len() / 2) && n < pal@.len() / 2,
        r is None ==> spec_last_entry_below(pal@, e@, pal@.len() / 2) == -1,
{
    let count = pal.len() / 2;
    let mut n: usize = count;
    while n > 0
        invariant
            0 <= n <= count,
            count == pal@.len() / 2,
            2 * count <= pal@.len(),
            pal@.len() <= usize::MAX,
            forall|m: int| n <= m < count ==> palette_entry(pal@, m) != e@,
            spec_last_entry_below(pal@, e@, count as nat) == spec_last_entry_below(pal@, e@, n as nat),
        decreases n,
    {
        let k = n - 1;
        if pal[2 * k] == e[0] && pal[2 * k + 1] == e[1] {
            proof {
                assert(palette_entry(pal@, k as int) =~= e@);
            }
            return Some(k);
        }
        assert(palette_entry(pal@, k as int)[0] == pal@[2 * k] && palette_entry(pal@, k as int)[1] == pal@[2 * k + 1]);
        n = k;
    }
    None
}

impl TxtrFormat {
    /// Encodes one block of pixels into texels (CMPR blocks are encoded by the
    /// DXT1 codec instead). The paletted formats store, for each pixel, a
    /// palette entry that holds its encoding: C4 the first such entry and C8
    /// the last.
    pub fn encode_block(&self, block: &mut [u8], pixels: &[u8])
        requires
            !(*self is Cmpr),
            spec_palette_fits(*self),
            spec_palette_covers(*self, pixels@),
            old(block)@.len() == spec_bytes_per_block(*self),
            pixels@.len() == spec_block_pixel_bytes(*self),
        ensures
            final(block)@ == spec_encode_block(*self, pixels@),
    {
        let ghost target = spec_encode_block(*self, pixels@);
        match self {
            TxtrFormat::I4 | TxtrFormat::Ia4 => {
                let mut i: usize = 0;
                while i < 32
                    invariant
                        0 <= i <= 32,
                        block@.len() == 32,
                        pixels@.len() == 64,
                        target == spec_encode_block(*self, pixels@),
                        *self is I4 || *self is Ia4,
                        forall|j: int| 0 <= j < i ==> block@[j] == target[j],
                    decreases 32 - i,
                {
                    block[i] = (pixels[2 * i + 1] >> 4u8) | ((pixels[2 * i] >> 4u8) << 4u8);
                    i = i + 1;
                }
                assert(block@ =~= target);
            },
            TxtrFormat::I8 | TxtrFormat::Ia8 | TxtrFormat::Rgba8 => {
                copy_bytes(block, pixels);
            },
            TxtrFormat::Rgb565 => {
                let mut t: usize = 0;
                while t < 16
                    invariant
                        0 <= t <= 16,
                        block@.len() == 32,
                        pixels@.len() == 48,
                        target == spec_encode_block(*self, pixels@),
                        *self is Rgb565,
                        forall|j: int| 0 <= j < 2 * t ==> block@[j] == target[j],
                    decreases 16 - t,
                {
                    let px = [pixels[3 * t], pixels[3 * t + 1], pixels[3 * t + 2]];
                    assert(px@ =~= block_pixel(pixels@, t as int, 3));
                    let e = encode_rgb565(px);
                    assert((2 * t) / 2 == t && (2 * t + 1) / 2 == t && (2 * t) % 2 == 0 && (2 * t + 1) % 2 == 1);
                    block[2 * t] = e[0];
                    block[2 * t + 1] = e[1];
                    t = t + 1;
                }
                assert(block@ =~= target);
            },
            TxtrFormat::Rgb5A3 => {
                let mut t: usize = 0;
                while t < 16
                    invariant
                        0 <= t <= 16,
                        block@.len() == 32,
                        pixels@.len() == 64,
                        target == spec_encode_block(*self, pixels@),
                        *self is Rgb5A3,
                        forall|j: int| 0 <= j < 2 * t ==> block@[j] == target[j],
                    decreases 16 - t,
                {
                    let px = [pixels[4 * t], pixels[4 * t + 1], pixels[4 * t + 2], pixels[4 * t + 3]];
                    assert(px@ =~= block_pixel(pixels@, t as int, 4));
                    let e = encode_rgb5a3(px);
                    assert((2 * t) / 2 == t && (2 * t + 1) / 2 == t && (2 * t) % 2 == 0 && (2 * t + 1) % 2 == 1);
                    block[2 * t] = e[0];
                    block[2 * t + 1] = e[1];
                    t = t + 1;
                }
                assert(block@ =~= target);
            },
            TxtrFormat::C4(fmt, palette) => {
                let cc = fmt.color_type().channel_count() as usize;
                let mut i: usize = 0;
                while i < 32
                    invariant
                        0 <= i <= 32,
                        block@.len() == 32,
                        cc == spec_channel_count(spec_palette_color_type(*fmt)),
                        pixels@.len() == 64 * cc,
                        palette@.len() >= 32,
                        target == spec_encode_block(*self, pixels@),
                        *self == TxtrFormat::C4(*fmt, *palette),
                        spec_palette_covers(*self, pixels@),
                        forall|j: int| 0 <= j < i ==> block@[j] == target[j],
                    decreases 32 - i,
                {
                    proof {
                        assert(2 * i * cc + 2 * cc <= 64 * cc) by (nonlinear_arith)
                            requires
                                i < 32,
                        ;
                        assert((2 * i + 1) * cc == 2 * i * cc + cc) by (nonlinear_arith);
                        assert(spec_c4_entry(*fmt, palette@, pixels@, 2 * i) >= 0);
                        assert(spec_c4_entry(*fmt, palette@, pixels@, 2 * i + 1) >= 0);
                    }
                    let e0 = palette_encoding(*fmt, pixels, 2 * i * cc);
                    let e1 = palette_encoding(*fmt, pixels, (2 * i + 1) * cc);
                    let n0 = match find_first_entry(palette.as_slice(), e0) {
                        Some(n) => n,
                        None => {
                            return;
                        },
                    };
                    let n1 = match find_first_entry(palette.as_slice(), e1) {
                        Some(n) => n,
                        None => {
                            return;
                        },
                    };
                    block[i] = (n1 as u8) | ((n0 as u8) << 4u8);
                    i = i + 1;
                }
                assert(block@ =~= target);
            },
            TxtrFormat::C8(fmt, palette) => {
                let cc = fmt.color_type().channel_count() as usize;
                let mut i: usize = 0;
                while i < 32
                    invariant
                        0 <= i <= 32,
                        block@.len() == 32,
                        cc == spec_channel_count(spec_palette_color_type(*fmt)),
                        pixels@.len() == 32 * cc,
                        palette@.len() >= 512,
                        target == spec_encode_block(*self, pixels@),
                        *self == TxtrFormat::C8(*fmt, *palette),
                        spec_palette_covers(*self, pixels@),
                        forall|j: int| 0 <= j < i ==> block@[j] == target[j],
                    decreases 32 - i,
                {
                    proof {
                        assert(i * cc + cc <= 32 * cc) by (nonlinear_arith)
                            requires
                                i < 32,
                        ;
                        assert(spec_c8_entry(*fmt, palette@, pixels@, i as int) >= 0);
                    }
                    let e = palette_encoding(*fmt, pixels, i * cc);
                    let n = match find_last_entry(palette.as_slice(), e) {
                        Some(n) => n,
                        None => {
                            return;
                        },
                    };
                    block[i] = n as u8;
                    i = i + 1;
                }
                assert(block@ =~= target);
            },
            TxtrFormat::Cmpr => {},
        }
    }
}

/// The palette encodings of the pixels, in order.
pub open spec fn spec_encodings(fmt: TxtrPaletteFormat, pixels: Seq<u8>) -> Seq<Seq<u8>> {
    let cc = spec_channel_count(spec_palette_color_type(fmt)) as int;
    Seq::new(
        (pixels.len() as int / cc) as nat,
        |k: int| spec_palette_encoding(fmt, block_pixel(pixels, k, cc)),
    )
}

/// The distinct values of `es`, in the order in which they first appear.
pub open spec fn spec_distinct(es: Seq<Seq<u8>>) -> Seq<Seq<u8>>
    decreases es.len(),
{
    if es.len() == 0 {
        Seq::empty()
    } else {
        let d = spec_distinct(es.drop_last());
        if d.contains(es.last()) {
            d
        } else {
            d.push(es.last())
        }
    }
}

/// A palette with entry `n` set to `d[n]` wherever `d` has one and the entry
/// is not the palette's last one; the other bytes unchanged.
pub open spec fn spec_written_palette(old: Seq<u8>, d: Seq<Seq<u8>>) -> Seq<u8> {
    Seq::new(
        old.len(),
        |i: int|
            if i / 2 < d.len() && 2 * (i / 2) + 2 < old.len() {
                d[i / 2][i % 2]
            } else {
                old[i]
            },
    )
}

/// The distinct values of a prefix are a prefix of the distinct values.
proof fn lemma_distinct_prefix(es: Seq<Seq<u8>>, j: int)
    requires
        0 <= j <= es.len(),
    ensures
        spec_distinct(es.take(j)).len() <= spec_distinct(es).len(),
        spec_distinct(es).take(spec_distinct(es.take(j)).len() as int) == spec_distinct(es.take(j)),
    decreases es.len() - j,
{
    if j < es.len() {
        lemma_distinct_prefix(es, j + 1);
        assert(es.take(j + 1).drop_last() =~= es.take(j));
        let a = spec_distinct(es.take(j));
        let b = spec_distinct(es.take(j + 1));
        assert(b.take(a.len() as int) =~= a);
    } else {
        assert(es.take(j) =~= es);
    }
}

/// Every value of `es` is among its distinct values, and those are distinct.
pub proof fn lemma_distinct_props(es: Seq<Seq<u8>>)
    ensures
        forall|k: int| 0 <= k < es.len() ==> spec_distinct(es).contains(#[trigger] es[k]),
        forall|a: int, b: int|
            0 <= a < b < spec_distinct(es).len() ==> spec_distinct(es)[a] != spec_distinct(es)[b],
        forall|a: int| 0 <= a < spec_distinct(es).len() ==> es.contains(#[trigger] spec_distinct(es)[a]),
    decreases es.len(),
{
    if es.len() > 0 {
        lemma_distinct_props(es.drop_last());
        let d = spec_distinct(es.drop_last());
        assert forall|k: int| 0 <= k < es.len() implies spec_distinct(es).contains(#[trigger] es[k]) by {
            if k < es.len() - 1 {
                assert(es.drop_last()[k] == es[k]);
                assert(d.contains(es[k]));
                if !d.contains(es.last()) {
                    let i = choose|i: int| 0 <= i < d.len() && d[i] == es[k];
                    assert(d.push(es.last())[i] == es[k]);
                }
            } else {
                if !d.contains(es.last()) {
                    assert(d.push(es.last())[d.len() as int] == es.last());
                }
            }
        }
        assert forall|a: int| 0 <= a < spec_distinct(es).len() implies es.contains(#[trigger] spec_distinct(es)[a]) by {
            if a < d.len() {
                let i = choose|i: int| 0 <= i < es.drop_last().len() && es.drop_last()[i] == d[a];
                assert(es[i] == d[a]);
            } else {
                assert(es[es.len() - 1] == es.last());
            }
        }
    }
}

impl TxtrFormat {
    /// Builds the palette of a paletted format from the pixels of an image:
    /// the distinct encodings of the pixels, in the order in which they first
    /// appear, go to the palette's entries from the first on. It fails where
    /// they do not fit without reaching the palette's last entry; the entries
    /// that did fit are written all the same. Other formats are left as they
    /// are.
    pub fn compute_palette(&mut self, pixels: &[u8]) -> (r: Result<(), ()>)
        requires
            match *old(self) {
                TxtrFormat::C4(fmt, _) | TxtrFormat::C8(fmt, _) => pixels@.len() as int % spec_channel_count(
                    spec_palette_color_type(fmt),
                ) as int == 0,
                _ => true,
            },
        ensures
            match *old(self) {
                TxtrFormat::C4(fmt, pal) => {
                    let d = spec_distinct(spec_encodings(fmt, pixels@));
                    &&& (r is Ok <==> (d.len() == 0 || 2 * d.len() < pal@.len()))
                    &&& *final(self) matches TxtrFormat::C4(f2, p2) && f2 == fmt && p2@
                        == spec_written_palette(pal@, d)
                },
                TxtrFormat::C8(fmt, pal) => {
                    let d = spec_distinct(spec_encodings(fmt, pixels@));
                    &&& (r is Ok <==> (d.len() == 0 || 2 * d.len() < pal@.len()))
                    &&& *final(self) matches TxtrFormat::C8(f2, p2) && f2 == fmt && p2@
                        == spec_written_palette(pal@, d)
                },
                _ => r is Ok && *final(self) == *old(self),
            },
    {
        let mut taken = TxtrFormat::I4;
        core::mem::swap(&mut taken, self);
        match taken {
            TxtrFormat::C4(fmt, buf) => {
                let (buf, r) = fill_palette(fmt, buf, pixels);
                *self = TxtrFormat::C4(fmt, buf);
                r
            },
            TxtrFormat::C8(fmt, buf) => {
                let (buf, r) = fill_palette(fmt, buf, pixels);
                *self = TxtrFormat::C8(fmt, buf);
                r
            },
            other => {
                *self = other;
                Ok(())
            },
        }
    }
}

/// Writes the distinct encodings of the pixels to the palette, in order.
fn fill_palette(fmt: TxtrPaletteFormat, palette: Vec<u8>, pixels: &[u8]) -> (res: (Vec<u8>, Result<(), ()>))
    requires
        pixels@.len() as int % spec_channel_count(spec_palette_color_type(fmt)) as int == 0,
    ensures
        ({
            let d = spec_distinct(spec_encodings(fmt, pixels@));
            &&& (res.1 is Ok <==> (d.len() == 0 || 2 * d.len() < palette@.len()))
            &&& res.0@ == spec_written_palette(palette@, d)
        }),
{
    let mut buf = palette;
    let ghost old_buf = buf@;
    let cc = fmt.color_type().channel_count() as usize;
    let count = pixels.len() / cc;
    let ghost es = spec_encodings(fmt, pixels@);
    let mut seen: Vec<[u8; 2]> = Vec::new();
    let mut k: usize = 0;
    proof {
        assert(cc > 0);
        assert(count * cc <= pixels@.len()) by (nonlinear_arith)
            requires
                cc > 0,
                count == pixels@.len() as int / cc as int,
        ;
        assert(es.take(0) =~= Seq::<Seq<u8>>::empty());
        assert(spec_written_palette(old_buf, Seq::empty()) =~= old_buf);
    }
    while k < count
        invariant
            0 <= k <= count,
            cc == spec_channel_count(spec_palette_color_type(fmt)),
            count == pixels@.len() as int / cc as int,
            count * cc <= pixels@.len() <= usize::MAX,
            es == spec_encodings(fmt, pixels@),
            seen@.map_values(|a: [u8; 2]| a@) == spec_distinct(es.take(k as int)),
            old_buf == palette@,
            buf@.len() == old_buf.len(),
            buf@ == spec_written_palette(old_buf, seen@.map_values(|a: [u8; 2]| a@)),
            seen@.len() == 0 || 2 * seen@.len() < old_buf.len(),
        decreases count - k,
    {
        let ghost d = seen@.map_values(|a: [u8; 2]| a@);
        proof {
            assert(k * cc + cc <= count * cc) by (nonlinear_arith)
                requires
                    k < count,
            ;
            assert(es.take(k + 1).drop_last() =~= es.take(k as int));
        }
        let start = k * cc;
        let e = palette_encoding(fmt, pixels, start);
        assert(e@ == es[k as int]);
        // look for the encoding among those seen
        let mut idx: usize = 0;
        while idx < seen.len()
            invariant
                0 <= idx <= seen@.len(),
                d == seen@.map_values(|a: [u8; 2]| a@),
                forall|m: int| 0 <= m < idx ==> d[m] != e@,
            ensures
                idx <= seen@.len(),
                forall|m: int| 0 <= m < idx ==> d[m] != e@,
                idx < seen@.len() ==> d[idx as int] == e@,
            decreases seen@.len() - idx,
        {
            if seen[idx][0] == e[0] && seen[idx][1] == e[1] {
                assert(seen@[idx as int]@ =~= e@);
                break;
            }
            assert(d[idx as int][0] == seen@[idx as int]@[0]);
            idx = idx + 1;
        }
        let ghost found = idx < seen@.len();
        proof {
            if found {
                assert(d.contains(e@));
            } else {
                assert(!d.contains(e@));
            }
            assert(idx <= d.len());
            assert(d.len() == 0 || 2 * d.len() < old_buf.len());
        }
        if idx == seen.len() {
            seen.push(e);
        }
        proof {
            assert(seen@.map_values(|a: [u8; 2]| a@) =~= spec_distinct(es.take(k + 1)));
        }
        // the entry's two bytes would reach the palette's last entry or
        // beyond: `idx * 2 + 2 >= buf.len()`
        if buf.len() <= 2 || idx >= (buf.len() - 1) / 2 {
            proof {
                let full = spec_distinct(es);
                lemma_distinct_prefix(es, k + 1);
                assert(es.take(count as int) =~= es);
                let dk = spec_distinct(es.take(k + 1));
                assert(idx == d.len());
                assert(dk.len() == idx + 1);
                assert(full.len() >= idx + 1);
                assert(2 * full.len() >= buf@.len());
                assert(buf@ == spec_written_palette(old_buf, d));
                assert(spec_written_palette(old_buf, d) =~= spec_written_palette(old_buf, full)) by {
                    assert forall|i: int| 0 <= i < old_buf.len() implies spec_written_palette(old_buf, d)[i] == spec_written_palette(old_buf, full)[i] by {
                        if i / 2 < d.len() && 2 * (i / 2) + 2 < old_buf.len() {
                            assert(full.take(dk.len() as int)[i / 2] == dk[i / 2]);
                        }
                        if i / 2 < full.len() && 2 * (i / 2) + 2 < old_buf.len() {
                            assert(i / 2 < idx);
                        }
                    }
                }
            }
            let r: Result<(), ()> = Err(());
            assert(!(spec_distinct(es).len() == 0 || 2 * spec_distinct(es).len() < old_buf.len()));
            return (buf, r);
        }
        buf.set(idx * 2, e[0]);
        buf.set(idx * 2 + 1, e[1]);
        proof {
            let d2 = seen@.map_values(|a: [u8; 2]| a@);
            assert(buf@ =~= spec_written_palette(old_buf, d2)) by {
                assert forall|i: int| 0 <= i < old_buf.len() implies buf@[i] == spec_written_palette(old_buf, d2)[i] by {
                    if i / 2 == idx {
                        assert(d2[idx as int] == e@);
                    } else if i / 2 < d.len() {
                        assert(d2[i / 2] == d[i / 2]);
                    }
                }
            }
        }
        k = k + 1;
    }
    proof {
        let d = seen@.map_values(|a: [u8; 2]| a@);
        assert(es.take(count as int) =~= es);
    }
    (buf, Ok(()))
}

/// The format a name gives, where it names one: ASCII case does not
/// matter. The paletted formats come with an all-zero palette.
pub open spec fn spec_format_from_str(key: Seq<char>, r: Result<TxtrFormat, ()>) -> bool {
    if key == "i4"@ {
        r == Ok::<TxtrFormat, ()>(TxtrFormat::I4)
    } else if key == "i8"@ {
        r == Ok::<TxtrFormat, ()>(TxtrFormat::I8)
    } else if key == "ia4"@ {
        r == Ok::<TxtrFormat, ()>(TxtrFormat::Ia4)
    } else if key == "ia8"@ {
        r == Ok::<TxtrFormat, ()>(TxtrFormat::Ia8)
    } else if key == "c4(ia8)"@ {
        r matches Ok(TxtrFormat::C4(TxtrPaletteFormat::Ia8, p)) && p@ == Seq::new(32, |i: int| 0u8)
    } else if key == "c4(rgb565)"@ {
        r matches Ok(TxtrFormat::C4(TxtrPaletteFormat::Rgb565, p)) && p@ == Seq::new(32, |i: int| 0u8)
    } else if key == "c4(rgb5a3)"@ {
        r matches Ok(TxtrFormat::C4(TxtrPaletteFormat::Rgb5A3, p)) && p@ == Seq::new(32, |i: int| 0u8)
    } else if key == "c8(ia8)"@ {
        r matches Ok(TxtrFormat::C8(TxtrPaletteFormat::Ia8, p)) && p@ == Seq::new(512, |i: int| 0u8)
    } else if key == "c8(rgb565)"@ {
        r matches Ok(TxtrFormat::C8(TxtrPaletteFormat::Rgb565, p)) && p@ == Seq::new(512, |i: int| 0u8)
    } else if key == "c8(rgb5a3)"@ {
        r matches Ok(TxtrFormat::C8(TxtrPaletteFormat::Rgb5A3, p)) && p@ == Seq::new(512, |i: int| 0u8)
    } else if key == "rgb565"@ {
        r == Ok::<TxtrFormat, ()>(TxtrFormat::Rgb565)
    } else if key == "rgb5a3"@ {
        r == Ok::<TxtrFormat, ()>(TxtrFormat::Rgb5A3)
    } else if key == "rgba8"@ {
        r == Ok::<TxtrFormat, ()>(TxtrFormat::Rgba8)
    } else if key == "cmpr"@ {
        r == Ok::<TxtrFormat, ()>(TxtrFormat::Cmpr)
    } else {
        r == Err::<TxtrFormat, ()>(())
    }
}

/// An all-zero palette of `n` bytes.
fn zero_palette(n: usize) -> (r: Vec<u8>)
    ensures
        r@ == Seq::new(n as nat, |i: int| 0u8),
{
    let r = vec![0u8; n];
    assert(r@ =~= Seq::new(n as nat, |i: int| 0u8));
    r
}

impl TxtrFormat {
    /// The format a name gives (see `spec_format_from_str`).
    pub fn from_str(s: &str) -> (r: Result<TxtrFormat, ()>)
        ensures
            spec_format_from_str(spec_ascii_lowercase(s@), r),
    {
        let lower = to_ascii_lowercase(s);
        let key = lower.as_str();
        if str_eq(key, "i4") {
            Ok(TxtrFormat::I4)
        } else if str_eq(key, "i8") {
            Ok(TxtrFormat::I8)
        } else if str_eq(key, "ia4") {
            Ok(TxtrFormat::Ia4)
        } else if str_eq(key, "ia8") {
            Ok(TxtrFormat::Ia8)
        } else if str_eq(key, "c4(ia8)") {
            Ok(TxtrFormat::C4(TxtrPaletteFormat::Ia8, zero_palette(32)))
        } else if str_eq(key, "c4(rgb565)") {
            Ok(TxtrFormat::C4(TxtrPaletteFormat::Rgb565, zero_palette(32)))
        } else if str_eq(key, "c4(rgb5a3)") {
            Ok(TxtrFormat::C4(TxtrPaletteFormat::Rgb5A3, zero_palette(32)))
        } else if str_eq(key, "c8(ia8)") {
            Ok(TxtrFormat::C8(TxtrPaletteFormat::Ia8, zero_palette(512)))
        } else if str_eq(key, "c8(rgb565)") {
            Ok(TxtrFormat::C8(TxtrPaletteFormat::Rgb565, zero_palette(512)))
        } else if str_eq(key, "c8(rgb5a3)") {
            Ok(TxtrFormat::C8(TxtrPaletteFormat::Rgb5A3, zero_palette(512)))
        } else if str_eq(key, "rgb565") {
            Ok(TxtrFormat::Rgb565)
        } else if str_eq(key, "rgb5a3") {
            Ok(TxtrFormat::Rgb5A3)
        } else if str_eq(key, "rgba8") {
            Ok(TxtrFormat::Rgba8)
        } else if str_eq(key, "cmpr") {
            Ok(TxtrFormat::Cmpr)
        } else {
            Err(())
        }
    }

    /// How many mipmaps an image of `w` by `h` pixels can have in this
    /// format: one for the paletted formats; else the first level (counting
    /// the full image as 0) whose width or height, halved that often, is no
    /// longer a multiple of the block's. An image of at most one pixel in
    /// both directions has no such level.
    pub fn max_mipmaps_for_format(&self, w: usize, h: usize) -> (r: usize)
        requires
            (*self is C4 || *self is C8) || w >= 2 || h >= 2,
        ensures
            (*self is C4 || *self is C8) ==> r == 1,
            !(*self is C4 || *self is C8) ==> {
                &&& 1 <= r < usize::BITS
                &&& !spec_level_fits(w, h, spec_block_dimensions(*self), r)
                &&& forall|i: usize| 1 <= i < r ==> spec_level_fits(w, h, spec_block_dimensions(*self), i)
            },
    {
        match self {
            TxtrFormat::C4(_, _) | TxtrFormat::C8(_, _) => 1,
            _ => {
                let (bw, bh) = self.block_dimensions();
                let ghost j: usize = lemma_top_level(w, h);
                proof {
                    assert(1usize % bw == 1 && 1usize % bh == 1);
                    assert(!spec_level_fits(w, h, spec_block_dimensions(*self), j));
                }
                let mut i: usize = 1;
                while i < usize::BITS as usize && (w >> i) % bw == 0 && (h >> i) % bh == 0
                    invariant
                        1 <= i <= j,
                        1 <= j < usize::BITS,
                        !spec_level_fits(w, h, spec_block_dimensions(*self), j),
                        bw == spec_block_dimensions(*self).0,
                        bh == spec_block_dimensions(*self).1,
                        forall|k: usize| 1 <= k < i ==> spec_level_fits(w, h, spec_block_dimensions(*self), k),
                    decreases j - i,
                {
                    assert(spec_level_fits(w, h, spec_block_dimensions(*self), i));
                    i = i + 1;
                }
                i
            },
        }
    }
}

/// Whether the image halved `i` times still has a width and a height that
/// are multiples of the block's.
pub open spec fn spec_level_fits(w: usize, h: usize, dims: (nat, nat), i: usize) -> bool {
    (w >> i) % (dims.0 as usize) == 0 && (h >> i) % (dims.1 as usize) == 0
}

/// Where the width or the height is at least 2, some level above 0 halves
/// one of them to exactly 1.
proof fn lemma_top_level(w: usize, h: usize) -> (j: usize)
    requires
        w >= 2 || h >= 2,
    ensures
        1 <= j < usize::BITS,
        (w >> j == 1) || (h >> j == 1),
{
    assert(w >> 0usize == w && h >> 0usize == h) by (bit_vector);
    if w >= 2 {
        lemma_top_bit(w, 0)
    } else {
        lemma_top_bit(h, 0)
    }
}

/// A value of at least 2 has a highest set bit above bit 0: shifting by its
/// index gives 1.
proof fn lemma_top_bit(v: usize, k: usize) -> (j: usize)
    requires
        v >= 2,
        k < usize::BITS,
        v >> k >= 1,
        k == 0 || v >> k <= v >> 1,
    ensures
        1 <= j < usize::BITS,
        v >> j == 1,
    decreases usize::BITS - k,
{
    if v >> k == 1 && k >= 1 {
        k
    } else {
        assert(k < usize::BITS && v >= 2 && (v >> k) >= 1 && !((v >> k) == 1 && k >= 1) ==> k + 1 < usize::BITS
            && (v >> ((k + 1) as usize)) >= 1 && (v >> ((k + 1) as usize)) <= (v >> 1)) by (bit_vector);
        lemma_top_bit(v, (k + 1) as usize)
    }
}

/// One output byte of a box-filtered image: the average of the 2x2 pixels it
/// stands for, in channel `c`; with `discretize_alpha`, a last channel that
/// is not zero becomes 0xff.
pub open spec fn spec_box_byte(pixels: Seq<u8>, w: int, chan: int, discretize_alpha: bool, iy: int, ix: int, c: int) -> u8 {
    let y = 2 * iy;
    let x = 2 * ix;
    let sum = pixels[(y * w + x) * chan + c] + pixels[(y * w + x + 1) * chan + c] + pixels[((y + 1) * w + x)
        * chan + c] + pixels[((y + 1) * w + x + 1) * chan + c];
    let avg = (sum / 4) as u8;
    if discretize_alpha && c == chan - 1 && avg > 0 {
        0xff
    } else {
        avg
    }
}

/// The image halved in both directions by averaging 2x2 pixels.
pub open spec fn spec_box_filter(pixels: Seq<u8>, w: int, h: int, chan: int, discretize_alpha: bool) -> Seq<u8> {
    Seq::new(
        ((h / 2) * (w / 2) * chan) as nat,
        |k: int|
            spec_box_byte(
                pixels,
                w,
                chan,
                discretize_alpha,
                k / chan / (w / 2),
                k / chan % (w / 2),
                k % chan,
            ),
    )
}

/// How many bytes of the image the box filter reads: up to the last pixel of
/// the last 2x2 square it averages.
pub open spec fn spec_box_needs(w: int, h: int, chan: int) -> int {
    if h / 2 == 0 || w / 2 == 0 || chan == 0 {
        0
    } else {
        ((2 * (h / 2) - 1) * w + 2 * (w / 2)) * chan
    }
}

/// Halves an image in both directions: each output pixel is the average of a
/// 2x2 square of input pixels, channel by channel (rounded down); with
/// `discretize_alpha` a last channel that is not zero becomes 0xff.
pub fn box_filter_pixels(pixels: &[u8], w: usize, h: usize, chan_count: usize, discretize_alpha: bool) -> (r: Vec<u8>)
    requires
        pixels@.len() >= spec_box_needs(w as int, h as int, chan_count as int),
    ensures
        r@ == spec_box_filter(pixels@, w as int, h as int, chan_count as int, discretize_alpha),
{
    let ghost target = spec_box_filter(pixels@, w as int, h as int, chan_count as int, discretize_alpha);
    let mut output: Vec<u8> = Vec::new();
    let hw = w / 2;
    let hh = h / 2;
    if hw == 0 || hh == 0 || chan_count == 0 {
        proof {
            assert(hh * hw * chan_count == 0) by (nonlinear_arith)
                requires
                    hw == 0 || hh == 0 || chan_count == 0,
            ;
            assert(output@ =~= target);
        }
        return output;
    }
    let ghost need = spec_box_needs(w as int, h as int, chan_count as int);
    let _len = pixels.len();
    let mut iy: usize = 0;
    while iy < hh
        invariant
            0 <= iy <= hh,
            hw == w / 2,
            hh == h / 2,
            hw > 0 && hh > 0 && chan_count > 0,
            need == spec_box_needs(w as int, h as int, chan_count as int),
            usize::MAX >= pixels@.len() >= need,
            target == spec_box_filter(pixels@, w as int, h as int, chan_count as int, discretize_alpha),
            output@.len() == iy * hw * chan_count,
            forall|k: int| 0 <= k < output@.len() ==> output@[k] == target[k],
        decreases hh - iy,
    {
        let mut ix: usize = 0;
        while ix < hw
            invariant
                0 <= iy < hh,
                0 <= ix <= hw,
                hw == w / 2,
                hh == h / 2,
                hw > 0 && hh > 0 && chan_count > 0,
                need == spec_box_needs(w as int, h as int, chan_count as int),
                usize::MAX >= pixels@.len() >= need,
                target == spec_box_filter(pixels@, w as int, h as int, chan_count as int, discretize_alpha),
                output@.len() == (iy * hw + ix) * chan_count,
                forall|k: int| 0 <= k < output@.len() ==> output@[k] == target[k],
            decreases hw - ix,
        {
            let mut c: usize = 0;
            while c < chan_count
                invariant
                    0 <= iy < hh,
                    0 <= ix < hw,
                    0 <= c <= chan_count,
                    hw == w / 2,
                    hh == h / 2,
                    hw > 0 && hh > 0 && chan_count > 0,
                    need == spec_box_needs(w as int, h as int, chan_count as int),
                    usize::MAX >= pixels@.len() >= need,
                    target == spec_box_filter(pixels@, w as int, h as int, chan_count as int, discretize_alpha),
                    output@.len() == (iy * hw + ix) * chan_count + c,
                    forall|k: int| 0 <= k < output@.len() ==> output@[k] == target[k],
                decreases chan_count - c,
            {
                let y = iy * 2;
                let x = ix * 2;
                proof {
                    assert(((y + 1) * w + x + 1) * chan_count + c < need) by (nonlinear_arith)
                        requires
                            y == 2 * iy,
                            x == 2 * ix,
                            iy < hh,
                            ix < hw,
                            c < chan_count,
                            hh == h / 2,
                            hw == w / 2,
                            hw > 0,
                            hh > 0,
                            need == ((2 * hh - 1) * w + 2 * hw) * chan_count,
                    ;
                    assert((y * w + x) * chan_count + c <= ((y + 1) * w + x + 1) * chan_count + c) by (nonlinear_arith)
                        requires
                            w >= 0,
                            chan_count >= 0,
                    ;
                    assert((y * w + x + 1) * chan_count + c <= ((y + 1) * w + x + 1) * chan_count + c) by (nonlinear_arith)
                        requires
                            w >= 0,
                            chan_count >= 0,
                    ;
                    assert(((y + 1) * w + x) * chan_count + c <= ((y + 1) * w + x + 1) * chan_count + c) by (nonlinear_arith)
                        requires
                            chan_count >= 0,
                    ;
                    assert(y * w <= y * w + x + 1 <= (y * w + x + 1) * chan_count) by (nonlinear_arith)
                        requires
                            chan_count >= 1,
                            y >= 0,
                            w >= 0,
                            x >= 0,
                    ;
                    assert((y + 1) * w <= (y + 1) * w + x + 1 <= ((y + 1) * w + x + 1) * chan_count) by (nonlinear_arith)
                        requires
                            chan_count >= 1,
                            y >= 0,
                            w >= 0,
                            x >= 0,
                    ;
                }
                let p0 = pixels[(y * w + x) * chan_count + c] as u16;
                let p1 = pixels[(y * w + x + 1) * chan_count + c] as u16;
                let p2 = pixels[((y + 1) * w + x) * chan_count + c] as u16;
                let p3 = pixels[((y + 1) * w + x + 1) * chan_count + c] as u16;
                let sum: u16 = p0 + p1 + p2 + p3;
                let mut v: u8 = (sum / 4) as u8;
                if discretize_alpha && c == chan_count - 1 {
                    if v > 0 {
                        v = 0xff;
                    }
                }
                proof {
                    let k = (iy * hw + ix) * chan_count + c;
                    assert(k < (hh * hw) * chan_count) by (nonlinear_arith)
                        requires
                            k == (iy * hw + ix) * chan_count + c,
                            iy < hh,
                            ix < hw,
                            c < chan_count,
                    ;
                    assert(hh * hw * chan_count == (hh * hw) * chan_count) by (nonlinear_arith);
                    lemma_div_in_block(k, iy * hw + ix, chan_count as int);
                    assert(iy * hw + ix >= 0) by (nonlinear_arith)
                        requires
                            iy >= 0,
                            hw >= 0,
                            ix >= 0,
                    ;
                    lemma_div_in_block(iy * hw + ix, iy as int, hw as int);
                    assert(target[k] == v);
                }
                output.push(v);
                c = c + 1;
            }
            ix = ix + 1;
            assert((iy * hw + ix) * chan_count == (iy * hw + (ix - 1)) * chan_count + chan_count) by (nonlinear_arith);
        }
        iy = iy + 1;
        assert(iy * hw * chan_count == ((iy - 1) * hw + hw) * chan_count) by (nonlinear_arith);
    }
    proof {
        assert(output@.len() == target.len());
        assert(output@ =~= target);
    }
    output
}

} // verus!
