//! The TXTR file: a header with the format, the size and the number of
//! mipmaps, a palette for the paletted formats, and the mipmaps' blocks,
//! padded to 32 bytes.
use vstd::prelude::*;
use crate::endian::{
    be_bytes_u16, be_bytes_u32, be_u16, be_u32, lemma_decode_u16_prefix, lemma_decode_u32_prefix,
    lemma_u16_roundtrip, lemma_u32_roundtrip,
};
use crate::padding::{pad_bytes_count, spec_align_byte_count};
use crate::writer::VecWriter;
use crate::txtr::{spec_block_dimensions, spec_bytes_per_block, TxtrFormat, TxtrPaletteFormat};

verus! {

/// A texture: its format (with the palette of a paletted one), its size and
/// the bytes of each of its mipmaps.
pub struct TxtrFile {
    pub format: TxtrFormat,
    pub width: u16,
    pub height: u16,
    pub mipmaps: Vec<Vec<u8>>,
}

/// Why bytes do not read as a TXTR file.
#[derive(Clone, Copy, Debug, PartialEq, Eq, Structural)]
pub enum TxtrFileError {
    /// The bytes end before the header, the palette or a mipmap does.
    TooShort,
    UnknownFormat(u32),
    UnknownPaletteFormat(u32),
}

/// The code a file gives a format.
pub open spec fn spec_format_code(f: TxtrFormat) -> u32 {
    match f {
        TxtrFormat::I4 => 0,
        TxtrFormat::I8 => 1,
        TxtrFormat::Ia4 => 2,
        TxtrFormat::Ia8 => 3,
        TxtrFormat::C4(_, _) => 4,
        TxtrFormat::C8(_, _) => 5,
        TxtrFormat::Rgb565 => 7,
        TxtrFormat::Rgb5A3 => 8,
        TxtrFormat::Rgba8 => 9,
        TxtrFormat::Cmpr => 10,
    }
}

/// The code a file gives a format.
pub fn format_code(f: &TxtrFormat) -> (r: u32)
    ensures
        r == spec_format_code(*f),
{
    match f {
        TxtrFormat::I4 => 0,
        TxtrFormat::I8 => 1,
        TxtrFormat::Ia4 => 2,
        TxtrFormat::Ia8 => 3,
        TxtrFormat::C4(_, _) => 4,
        TxtrFormat::C8(_, _) => 5,
        TxtrFormat::Rgb565 => 7,
        TxtrFormat::Rgb5A3 => 8,
        TxtrFormat::Rgba8 => 9,
        TxtrFormat::Cmpr => 10,
    }
}

/// The code a file gives a palette format.
pub open spec fn spec_palette_code(f: TxtrPaletteFormat) -> u32 {
    match f {
        TxtrPaletteFormat::Ia8 => 0,
        TxtrPaletteFormat::Rgb565 => 1,
        TxtrPaletteFormat::Rgb5A3 => 2,
    }
}

/// The palette format a code names, if any.
pub open spec fn spec_palette_of(code: u32) -> Option<TxtrPaletteFormat> {
    if code == 0 {
        Some(TxtrPaletteFormat::Ia8)
    } else if code == 1 {
        Some(TxtrPaletteFormat::Rgb565)
    } else if code == 2 {
        Some(TxtrPaletteFormat::Rgb5A3)
    } else {
        None
    }
}

/// Whether a code names a format.
pub open spec fn spec_code_known(code: u32) -> bool {
    code <= 5 || (7 <= code <= 10)
}

/// A side of mipmap `level`: the full side halved `level` times.
pub open spec fn spec_level_side(side: u16, level: nat) -> nat {
    if level < 16 {
        (side >> (level as u16)) as nat
    } else {
        0
    }
}

/// The bytes of mipmap `level`: its whole blocks.
pub open spec fn spec_mip_len(f: TxtrFormat, width: u16, height: u16, level: nat) -> nat {
    (spec_level_side(width, level) / spec_block_dimensions(f).0) * (spec_level_side(height, level)
        / spec_block_dimensions(f).1) * spec_bytes_per_block(f)
}

/// Reading `n` mipmaps from `start`: their bytes and where they end, where
/// the bytes hold them.
pub open spec fn spec_mips(bytes: Seq<u8>, start: nat, f: TxtrFormat, width: u16, height: u16, n: nat) -> Option<
    (Seq<Seq<u8>>, nat),
>
    decreases n,
{
    if n == 0 {
        Some((Seq::empty(), start))
    } else {
        match spec_mips(bytes, start, f, width, height, (n - 1) as nat) {
            Some((ms, p)) => {
                let len = spec_mip_len(f, width, height, (n - 1) as nat);
                if p + len <= bytes.len() {
                    Some((ms.push(bytes.subrange(p as int, (p + len) as int)), p + len))
                } else {
                    None
                }
            },
            None => None,
        }
    }
}

/// The length of the palette of a paletted format code.
pub open spec fn spec_palette_len(code: u32) -> nat {
    if code == 4 {
        32
    } else {
        512
    }
}

/// Where the mipmaps start: after the header, and after the palette's
/// header and palette for a paletted format.
pub open spec fn spec_body_start(code: u32) -> nat {
    if code == 4 || code == 5 {
        20 + spec_palette_len(code)
    } else {
        12
    }
}

/// Why `bytes` do not read as a TXTR file, if they do not: checked in the
/// order header, format, palette header, palette format, palette, mipmaps.
pub open spec fn spec_read_error(bytes: Seq<u8>) -> Option<TxtrFileError> {
    if bytes.len() < 12 {
        Some(TxtrFileError::TooShort)
    } else {
        let code = be_u32(bytes);
        if !spec_code_known(code) {
            Some(TxtrFileError::UnknownFormat(code))
        } else if (code == 4 || code == 5) && bytes.len() < 20 {
            Some(TxtrFileError::TooShort)
        } else if (code == 4 || code == 5) && spec_palette_of(be_u32(bytes.skip(12))) is None {
            Some(TxtrFileError::UnknownPaletteFormat(be_u32(bytes.skip(12))))
        } else if bytes.len() < spec_body_start(code) {
            Some(TxtrFileError::TooShort)
        } else {
            None
        }
    }
}

/// Whether `f` is the format the header of `bytes` gives, with its palette.
pub open spec fn spec_format_read(bytes: Seq<u8>, f: TxtrFormat) -> bool {
    let code = be_u32(bytes);
    &&& spec_format_code(f) == code
    &&& (match f {
        TxtrFormat::C4(p, pal) => Some(p) == spec_palette_of(be_u32(bytes.skip(12))) && pal@ == bytes.subrange(
            20,
            52,
        ),
        TxtrFormat::C8(p, pal) => Some(p) == spec_palette_of(be_u32(bytes.skip(12))) && pal@ == bytes.subrange(
            20,
            532,
        ),
        _ => true,
    })
}

/// The bytes of each mipmap.
pub open spec fn spec_mip_views(ms: Seq<Vec<u8>>) -> Seq<Seq<u8>> {
    ms.map_values(|m: Vec<u8>| m@)
}

/// Reads a TXTR file: the header, the palette of a paletted format, and as
/// many mipmaps as the header gives, each with the whole blocks of its size.
pub fn read_txtr(bytes: &[u8]) -> (r: Result<TxtrFile, TxtrFileError>)
    ensures
        match r {
            Ok(t) => {
                &&& spec_read_error(bytes@) is None
                &&& spec_format_read(bytes@, t.format)
                &&& t.width == be_u16(bytes@.skip(4))
                &&& t.height == be_u16(bytes@.skip(6))
                &&& spec_mips(
                    bytes@,
                    spec_body_start(be_u32(bytes@)),
                    t.format,
                    t.width,
                    t.height,
                    be_u32(bytes@.skip(8)) as nat,
                ) matches Some((ms, _)) && spec_mip_views(t.mipmaps@) == ms
            },
            Err(e) => spec_read_error(bytes@) == Some(e) || (spec_read_error(bytes@) is None && e
                == TxtrFileError::TooShort && exists|f: TxtrFormat|
                #[trigger] spec_format_read(bytes@, f) && spec_mips(
                bytes@,
                spec_body_start(be_u32(bytes@)),
                f,
                be_u16(bytes@.skip(4)),
                be_u16(bytes@.skip(6)),
                be_u32(bytes@.skip(8)) as nat,
            ) is None),
        },
{
    if bytes.len() < 12 {
        return Err(TxtrFileError::TooShort);
    }
    let code = be_read_u32(bytes, 0);
    let width = be_read_u16(bytes, 4);
    let height = be_read_u16(bytes, 6);
    let count = be_read_u32(bytes, 8);
    let format = if code == 0 {
        TxtrFormat::I4
    } else if code == 1 {
        TxtrFormat::I8
    } else if code == 2 {
        TxtrFormat::Ia4
    } else if code == 3 {
        TxtrFormat::Ia8
    } else if code == 4 || code == 5 {
        if bytes.len() < 20 {
            return Err(TxtrFileError::TooShort);
        }
        let pcode = be_read_u32(bytes, 12);
        let pf = if pcode == 0 {
            TxtrPaletteFormat::Ia8
        } else if pcode == 1 {
            TxtrPaletteFormat::Rgb565
        } else if pcode == 2 {
            TxtrPaletteFormat::Rgb5A3
        } else {
            return Err(TxtrFileError::UnknownPaletteFormat(pcode));
        };
        let n: usize = if code == 4 {
            32
        } else {
            512
        };
        if bytes.len() < 20 + n {
            return Err(TxtrFileError::TooShort);
        }
        let pal = vstd::slice::slice_to_vec(vstd::slice::slice_subrange(bytes, 20, 20 + n));
        if code == 4 {
            TxtrFormat::C4(pf, pal)
        } else {
            TxtrFormat::C8(pf, pal)
        }
    } else if code == 7 {
        TxtrFormat::Rgb565
    } else if code == 8 {
        TxtrFormat::Rgb5A3
    } else if code == 9 {
        TxtrFormat::Rgba8
    } else if code == 10 {
        TxtrFormat::Cmpr
    } else {
        return Err(TxtrFileError::UnknownFormat(code));
    };
    let start: usize = if code == 4 || code == 5 {
        if code == 4 {
            52
        } else {
            532
        }
    } else {
        12
    };
    let (bw, bh) = format.block_dimensions();
    let bpb = format.bytes_per_block();
    let mut mipmaps: Vec<Vec<u8>> = Vec::new();
    let mut pos: usize = start;
    let mut level: u32 = 0;
    while level < count
        invariant
            0 <= level <= count,
            count == be_u32(bytes@.skip(8)),
            spec_format_read(bytes@, format),
            start == spec_body_start(code),
            code == be_u32(bytes@),
            bw == spec_block_dimensions(format).0,
            bh == spec_block_dimensions(format).1,
            bpb == spec_bytes_per_block(format),
            bw > 0 && bh > 0 && bpb <= 64,
            width == be_u16(bytes@.skip(4)),
            height == be_u16(bytes@.skip(6)),
            spec_mips(bytes@, start as nat, format, width, height, level as nat) == Some(
                (spec_mip_views(mipmaps@), pos as nat),
            ),
            pos <= bytes@.len(),
        decreases count - level,
    {
        let lw: u64 = if level < 16 {
            (width >> (level as u16)) as u64
        } else {
            0
        };
        let lh: u64 = if level < 16 {
            (height >> (level as u16)) as u64
        } else {
            0
        };
        proof {
            assert(lw <= 0xFFFF && lh <= 0xFFFF) by (bit_vector)
                requires
                    lw == (if level < 16 { (width >> (level as u16)) as u64 } else { 0 }),
                    lh == (if level < 16 { (height >> (level as u16)) as u64 } else { 0 });
            assert((lw / bw as u64) * (lh / bh as u64) <= 0xFFFF * 0xFFFF) by (nonlinear_arith)
                requires
                    lw <= 0xFFFF,
                    lh <= 0xFFFF,
                    bw > 0,
                    bh > 0;
            assert((lw / bw as u64) * (lh / bh as u64) * (bpb as u64) <= 0xFFFF * 0xFFFF * 64) by (nonlinear_arith)
                requires
                    (lw / bw as u64) * (lh / bh as u64) <= 0xFFFF * 0xFFFF,
                    bpb <= 64;
        }
        let len: u64 = (lw / bw as u64) * (lh / bh as u64) * (bpb as u64);
        proof {
            assert(len == spec_mip_len(format, width, height, level as nat));
        }
        if len > (bytes.len() - pos) as u64 {
            proof {
                assert(spec_mips(bytes@, start as nat, format, width, height, (level + 1) as nat) is None);
                lemma_mips_fail(bytes@, start as nat, format, width, height, (level + 1) as nat, count as nat);
            }
            return Err(TxtrFileError::TooShort);
        }
        let l = len as usize;
        let m = vstd::slice::slice_to_vec(vstd::slice::slice_subrange(bytes, pos, pos + l));
        let ghost before = spec_mip_views(mipmaps@);
        mipmaps.push(m);
        proof {
            assert(spec_mip_views(mipmaps@) =~= before.push(bytes@.subrange(pos as int, pos + l)));
        }
        pos = pos + l;
        level = level + 1;
    }
    Ok(TxtrFile { format, width, height, mipmaps })
}

/// Once the mipmaps up to some level do not fit, the later ones do not either.
proof fn lemma_mips_fail(bytes: Seq<u8>, start: nat, f: TxtrFormat, width: u16, height: u16, i: nat, n: nat)
    requires
        i <= n,
        spec_mips(bytes, start, f, width, height, i) is None,
    ensures
        spec_mips(bytes, start, f, width, height, n) is None,
    decreases n - i,
{
    if i < n {
        lemma_mips_fail(bytes, start, f, width, height, i + 1, n);
    }
}

/// The big-endian value of the two bytes at `at`.
fn be_read_u16(bytes: &[u8], at: usize) -> (r: u16)
    requires
        at + 2 <= bytes@.len(),
    ensures
        r == be_u16(bytes@.skip(at as int)),
{
    ((bytes[at] as u16) << 8u16) | (bytes[at + 1] as u16)
}

/// The big-endian value of the four bytes at `at`.
fn be_read_u32(bytes: &[u8], at: usize) -> (r: u32)
    requires
        at + 4 <= bytes@.len(),
    ensures
        r == be_u32(bytes@.skip(at as int)),
{
    ((bytes[at] as u32) << 24u32) | ((bytes[at + 1] as u32) << 16u32) | ((bytes[at + 2] as u32) << 8u32)
        | (bytes[at + 3] as u32)
}


/// The palette part of a file: for a paletted format, the palette format's
/// code, the palette's width and height (1 by 16 for 32 bytes, 256 by 1
/// otherwise) and the palette; nothing otherwise.
pub open spec fn spec_palette_part(f: TxtrFormat) -> Seq<u8> {
    match f {
        TxtrFormat::C4(p, pal) => spec_palette_header(p, pal@) + pal@,
        TxtrFormat::C8(p, pal) => spec_palette_header(p, pal@) + pal@,
        _ => Seq::empty(),
    }
}

/// The header of a palette.
pub open spec fn spec_palette_header(p: TxtrPaletteFormat, pal: Seq<u8>) -> Seq<u8> {
    if pal.len() == 32 {
        be_bytes_u32(spec_palette_code(p)) + be_bytes_u16(1) + be_bytes_u16(16)
    } else {
        be_bytes_u32(spec_palette_code(p)) + be_bytes_u16(256) + be_bytes_u16(1)
    }
}

/// The mipmaps' bytes, one after the other.
pub open spec fn spec_concat(ms: Seq<Seq<u8>>) -> Seq<u8>
    decreases ms.len(),
{
    if ms.len() == 0 {
        Seq::empty()
    } else {
        spec_concat(ms.drop_last()) + ms.last()
    }
}

/// A file's bytes before the padding: the header, the palette part and the
/// mipmaps.
pub open spec fn spec_unpadded(t: TxtrFile) -> Seq<u8> {
    be_bytes_u32(spec_format_code(t.format)) + be_bytes_u16(t.width) + be_bytes_u16(t.height) + be_bytes_u32(
        t.mipmaps@.len() as u32,
    ) + spec_palette_part(t.format) + spec_concat(spec_mip_views(t.mipmaps@))
}

/// A file's bytes: the unpadded bytes, with zeros up to a multiple of 32.
pub open spec fn spec_txtr_bytes(t: TxtrFile) -> Seq<u8> {
    let u = spec_unpadded(t);
    u + Seq::new((spec_align_byte_count(32, u.len() as usize) - u.len()) as nat, |i: int| 0u8)
}

/// Writes a TXTR file.
pub fn write_txtr(t: &TxtrFile) -> (r: Vec<u8>)
    requires
        spec_unpadded(*t).len() + 31 <= usize::MAX,
    ensures
        r@ == spec_txtr_bytes(*t),
{
    let mut w: VecWriter<byteorder::BigEndian> = VecWriter::new();
    w.write_u32(format_code(&t.format));
    w.write_u16(t.width);
    w.write_u16(t.height);
    w.write_u32(t.mipmaps.len() as u32);
    match &t.format {
        TxtrFormat::C4(f, pal) | TxtrFormat::C8(f, pal) => {
            w.write_u32(palette_code(*f));
            if pal.len() == 32 {
                w.write_u16(1);
                w.write_u16(16);
            } else {
                w.write_u16(256);
                w.write_u16(1);
            }
            w.write_bytes(pal.as_slice());
        },
        _ => {},
    }
    let ghost head = w@;
    proof {
        assert(head =~= be_bytes_u32(spec_format_code(t.format)) + be_bytes_u16(t.width) + be_bytes_u16(t.height)
            + be_bytes_u32(t.mipmaps@.len() as u32) + spec_palette_part(t.format));
    }
    let mut i: usize = 0;
    while i < t.mipmaps.len()
        invariant
            0 <= i <= t.mipmaps@.len(),
            w@ == head + spec_concat(spec_mip_views(t.mipmaps@).take(i as int)),
        decreases t.mipmaps@.len() - i,
    {
        w.write_bytes(t.mipmaps[i].as_slice());
        proof {
            let ms = spec_mip_views(t.mipmaps@);
            assert(ms.take(i + 1).drop_last() =~= ms.take(i as int));
            assert(ms.take(i + 1).last() == t.mipmaps@[i as int]@);
        }
        i = i + 1;
    }
    proof {
        assert(spec_mip_views(t.mipmaps@).take(i as int) =~= spec_mip_views(t.mipmaps@));
        assert(w@ =~= spec_unpadded(*t));
        assert(32usize & 31usize == 0usize) by (bit_vector);
    }
    let mut out = w.into_bytes();
    let pad = pad_bytes_count(32, out.len());
    let mut k: usize = 0;
    let ghost u = out@;
    while k < pad
        invariant
            0 <= k <= pad,
            out@ == u + Seq::new(k as nat, |j: int| 0u8),
        decreases pad - k,
    {
        out.push(0u8);
        k = k + 1;
        proof {
            assert(out@ =~= u + Seq::new(k as nat, |j: int| 0u8));
        }
    }
    out
}

/// The code a file gives a palette format.
pub fn palette_code(f: TxtrPaletteFormat) -> (r: u32)
    ensures
        r == spec_palette_code(f),
{
    match f {
        TxtrPaletteFormat::Ia8 => 0,
        TxtrPaletteFormat::Rgb565 => 1,
        TxtrPaletteFormat::Rgb5A3 => 2,
    }
}


/// Whether a texture is one a file can hold as it is: at most `u32::MAX`
/// mipmaps, each of the size its level gives, and a palette of 32 bytes for
/// C4 and of 512 for C8.
pub open spec fn spec_well_formed(t: TxtrFile) -> bool {
    &&& t.mipmaps@.len() <= u32::MAX
    &&& forall|i: int|
        0 <= i < t.mipmaps@.len() ==> (#[trigger] t.mipmaps@[i])@.len() == spec_mip_len(
            t.format,
            t.width,
            t.height,
            i as nat,
        )
    &&& match t.format {
        TxtrFormat::C4(_, pal) => pal@.len() == 32,
        TxtrFormat::C8(_, pal) => pal@.len() == 512,
        _ => true,
    }
}

/// Mipmaps laid out one after the other from `start` read back as they are.
proof fn lemma_mips_read_back(
    bytes: Seq<u8>,
    start: nat,
    f: TxtrFormat,
    width: u16,
    height: u16,
    ms: Seq<Seq<u8>>,
)
    requires
        forall|i: int| 0 <= i < ms.len() ==> (#[trigger] ms[i]).len() == spec_mip_len(f, width, height, i as nat),
        start + spec_concat(ms).len() <= bytes.len(),
        bytes.subrange(start as int, (start + spec_concat(ms).len()) as int) == spec_concat(ms),
    ensures
        spec_mips(bytes, start, f, width, height, ms.len()) == Some((ms, start + spec_concat(ms).len())),
    decreases ms.len(),
{
    if ms.len() > 0 {
        let init = ms.drop_last();
        let c = spec_concat(init);
        assert(spec_concat(ms) == c + ms.last());
        assert(bytes.subrange(start as int, (start + c.len()) as int) =~= spec_concat(ms).subrange(0, c.len() as int));
        assert(spec_concat(ms).subrange(0, c.len() as int) =~= c);
        lemma_mips_read_back(bytes, start, f, width, height, init);
        assert(init.len() == (ms.len() - 1) as nat);
        assert(ms.last().len() == spec_mip_len(f, width, height, (ms.len() - 1) as nat));
        assert(bytes.subrange((start + c.len()) as int, (start + c.len() + ms.last().len()) as int) =~= ms.last()) by {
            assert(bytes.subrange((start + c.len()) as int, (start + c.len() + ms.last().len()) as int) =~= spec_concat(
                ms,
            ).subrange(c.len() as int, spec_concat(ms).len() as int));
        }
        assert(init.push(ms.last()) =~= ms);
    }
}

/// The big-endian value of the bytes at the start of `x + rest`, where `x`
/// holds the encoding of `n`.
proof fn lemma_be_u32_at(n: u32, rest: Seq<u8>)
    ensures
        be_u32(be_bytes_u32(n) + rest) == n,
{
    lemma_u32_roundtrip(true, n);
    lemma_decode_u32_prefix(true, be_bytes_u32(n), rest);
}

proof fn lemma_be_u16_at(n: u16, rest: Seq<u8>)
    ensures
        be_u16(be_bytes_u16(n) + rest) == n,
{
    lemma_u16_roundtrip(true, n);
    lemma_decode_u16_prefix(true, be_bytes_u16(n), rest);
}

/// The header of a written texture reads back, and the rest follows it.
proof fn lemma_header_reads_back(t: TxtrFile, rest: Seq<u8>)
    ensures
        ({
            let bytes = spec_unpadded(t) + rest;
            &&& be_u32(bytes) == spec_format_code(t.format)
            &&& be_u16(bytes.skip(4)) == t.width
            &&& be_u16(bytes.skip(6)) == t.height
            &&& be_u32(bytes.skip(8)) == t.mipmaps@.len() as u32
            &&& bytes.skip(12) == spec_palette_part(t.format) + spec_concat(spec_mip_views(t.mipmaps@)) + rest
        }),
{
    let bytes = spec_unpadded(t) + rest;
    let code = spec_format_code(t.format);
    let count = t.mipmaps@.len() as u32;
    let tail = spec_palette_part(t.format) + spec_concat(spec_mip_views(t.mipmaps@)) + rest;
    let c = be_bytes_u16(t.height) + (be_bytes_u32(count) + tail);
    let b = be_bytes_u16(t.width) + c;
    lemma_u32_roundtrip(true, code);
    lemma_u16_roundtrip(true, t.width);
    lemma_u16_roundtrip(true, t.height);
    lemma_u32_roundtrip(true, count);
    assert(bytes =~= be_bytes_u32(code) + b);
    lemma_be_u32_at(code, b);
    assert(bytes.skip(4) =~= b);
    lemma_be_u16_at(t.width, c);
    assert(bytes.skip(6) =~= c);
    lemma_be_u16_at(t.height, be_bytes_u32(count) + tail);
    assert(bytes.skip(8) =~= be_bytes_u32(count) + tail);
    lemma_be_u32_at(count, tail);
    assert(bytes.skip(12) =~= tail);
}

/// The palette of a written paletted texture reads back.
proof fn lemma_palette_reads_back(bytes: Seq<u8>, f: TxtrFormat, more: Seq<u8>)
    requires
        be_u32(bytes) == spec_format_code(f),
        bytes.len() >= 12,
        bytes.skip(12) == spec_palette_part(f) + more,
        match f {
            TxtrFormat::C4(_, pal) => pal@.len() == 32,
            TxtrFormat::C8(_, pal) => pal@.len() == 512,
            _ => true,
        },
    ensures
        spec_format_read(bytes, f),
{
    match f {
        TxtrFormat::C4(p, v) => {
            let h = spec_palette_header(p, v@);
            lemma_u32_roundtrip(true, spec_palette_code(p));
            assert(bytes.skip(12) =~= be_bytes_u32(spec_palette_code(p)) + (h.skip(4) + v@ + more));
            lemma_be_u32_at(spec_palette_code(p), h.skip(4) + v@ + more);
            assert(bytes.subrange(20, 52) =~= bytes.skip(12).subrange(8, 40));
            assert(bytes.skip(12).subrange(8, 40) =~= v@);
        },
        TxtrFormat::C8(p, v) => {
            let h = spec_palette_header(p, v@);
            lemma_u32_roundtrip(true, spec_palette_code(p));
            assert(bytes.skip(12) =~= be_bytes_u32(spec_palette_code(p)) + (h.skip(4) + v@ + more));
            lemma_be_u32_at(spec_palette_code(p), h.skip(4) + v@ + more);
            assert(bytes.subrange(20, 532) =~= bytes.skip(12).subrange(8, 520));
            assert(bytes.skip(12).subrange(8, 520) =~= v@);
        },
        _ => {},
    }
}

/// A written texture reads back as it was, whatever follows it: its format
/// and palette, its size, and each of its mipmaps.
pub proof fn lemma_txtr_reads_back(t: TxtrFile, rest: Seq<u8>)
    requires
        spec_well_formed(t),
    ensures
        ({
            let bytes = spec_unpadded(t) + rest;
            &&& spec_read_error(bytes) is None
            &&& spec_format_read(bytes, t.format)
            &&& be_u16(bytes.skip(4)) == t.width
            &&& be_u16(bytes.skip(6)) == t.height
            &&& be_u32(bytes.skip(8)) == t.mipmaps@.len()
            &&& spec_mips(
                bytes,
                spec_body_start(be_u32(bytes)),
                t.format,
                t.width,
                t.height,
                be_u32(bytes.skip(8)) as nat,
            ) matches Some((ms, _)) && ms == spec_mip_views(t.mipmaps@)
        }),
{
    let bytes = spec_unpadded(t) + rest;
    let pal = spec_palette_part(t.format);
    let ms = spec_mip_views(t.mipmaps@);
    let m = spec_concat(ms);
    lemma_header_reads_back(t, rest);
    assert(bytes.len() == 12 + pal.len() + m.len() + rest.len()) by {
        assert(bytes.skip(12).len() == bytes.len() - 12);
    }
    assert(pal + m + rest =~= pal + (m + rest));
    lemma_palette_reads_back(bytes, t.format, m + rest);
    let start = spec_body_start(spec_format_code(t.format));
    assert(start == 12 + pal.len());
    assert forall|i: int| 0 <= i < ms.len() implies (#[trigger] ms[i]).len() == spec_mip_len(
        t.format,
        t.width,
        t.height,
        i as nat,
    ) by {
        assert(ms[i] == t.mipmaps@[i]@);
    }
    assert(bytes.subrange(start as int, (start + m.len()) as int) =~= m) by {
        assert(bytes.subrange(start as int, (start + m.len()) as int) =~= bytes.skip(12).subrange(
            pal.len() as int,
            (pal.len() + m.len()) as int,
        ));
    }
    lemma_mips_read_back(bytes, start, t.format, t.width, t.height, ms);
}

} // verus!
