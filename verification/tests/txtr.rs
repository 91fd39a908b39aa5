use randomprime::txtr::{
    box_filter_pixels, convert3to8, convert4to8, convert5to8, convert6to8, decode_rgb565, decode_rgb5a3,
    encode_rgb565, encode_rgb5a3, ColorType, TxtrFormat, TxtrPaletteFormat,
};
use randomprime::txtr_file::{read_txtr, write_txtr, TxtrFile, TxtrFileError};
use randomprime::txtr_image::TxtrBuildError;

#[test]
fn channel_conversions_replicate_the_high_bits() {
    assert_eq!(convert3to8(7), 0xFF);
    assert_eq!(convert3to8(3), 0x6D);
    assert_eq!(convert4to8(0xA), 0xAA);
    assert_eq!(convert5to8(31), 0xFF);
    assert_eq!(convert5to8(16), 0x84);
    assert_eq!(convert6to8(63), 0xFF);
    assert_eq!(convert6to8(32), 0x82);
}

#[test]
fn rgb565_texels() {
    assert_eq!(decode_rgb565([0xF8, 0x00]), [255, 0, 0]);
    assert_eq!(decode_rgb565([0x07, 0xE0]), [0, 255, 0]);
    assert_eq!(encode_rgb565([255, 0, 0]), [0xF8, 0x00]);
    assert_eq!(encode_rgb565([0, 0, 255]), [0x00, 0x1F]);
    assert_eq!(encode_rgb565(decode_rgb565([0x12, 0x34])), [0x12, 0x34]);
}

#[test]
fn rgb5a3_texels_opaque_and_translucent() {
    assert_eq!(decode_rgb5a3([0xFC, 0x00]), [255, 0, 0, 255]);
    assert_eq!(decode_rgb5a3([0x3F, 0x00]), [255, 0, 0, 0x6D]);
    assert_eq!(encode_rgb5a3([255, 0, 0, 255]), [0xFC, 0x00]);
    assert_eq!(encode_rgb5a3([255, 0, 0, 0x6D]), [0x3F, 0x00]);
    assert_eq!(encode_rgb5a3(decode_rgb5a3([0x9A, 0xBC])), [0x9A, 0xBC]);
}

#[test]
fn format_names_are_read_without_regard_to_case() {
    assert!(matches!(TxtrFormat::from_str("I4"), Ok(TxtrFormat::I4)));
    assert!(matches!(TxtrFormat::from_str("rgba8"), Ok(TxtrFormat::Rgba8)));
    assert!(matches!(TxtrFormat::from_str("CMPR"), Ok(TxtrFormat::Cmpr)));
    match TxtrFormat::from_str("C4(RGB5A3)") {
        Ok(TxtrFormat::C4(TxtrPaletteFormat::Rgb5A3, pal)) => assert_eq!(pal, vec![0u8; 32]),
        _ => panic!("expected a C4 format"),
    }
    match TxtrFormat::from_str("c8(ia8)") {
        Ok(TxtrFormat::C8(TxtrPaletteFormat::Ia8, pal)) => assert_eq!(pal.len(), 512),
        _ => panic!("expected a C8 format"),
    }
    assert!(TxtrFormat::from_str("c16").is_err());
}

#[test]
fn format_geometry() {
    let f = TxtrFormat::I4;
    assert_eq!(f.block_dimensions(), (8, 8));
    assert_eq!(f.bytes_per_block(), 32);
    assert!(f.flipped());
    assert_eq!(TxtrFormat::Rgba8.bytes_per_block(), 64);
    let c8 = TxtrFormat::C8(TxtrPaletteFormat::Rgb565, vec![0; 512]);
    assert_eq!(c8.block_dimensions(), (8, 4));
    assert!(!c8.flipped());
    assert_eq!(c8.color_type(), ColorType::Rgb8);
    assert_eq!(ColorType::Rgba8.channel_count(), 4);
}

#[test]
fn i4_block_decodes_each_nibble() {
    let f = TxtrFormat::I4;
    let mut block = vec![0u8; 32];
    block[0] = 0x1F;
    let mut pixels = vec![0u8; 64];
    f.decode_block(&block, &mut pixels);
    assert_eq!(pixels[0], 0x11);
    assert_eq!(pixels[1], 0xFF);
    assert_eq!(pixels[2], 0x00);
    let mut again = vec![0u8; 32];
    f.encode_block(&mut again, &pixels);
    assert_eq!(again, block);
}

#[test]
fn rgb565_block_decodes_each_texel() {
    let f = TxtrFormat::Rgb565;
    let mut block = vec![0u8; 32];
    block[0] = 0xF8;
    block[3] = 0x1F;
    let mut pixels = vec![0u8; 48];
    f.decode_block(&block, &mut pixels);
    assert_eq!(pixels[..6], [255, 0, 0, 0, 0, 255]);
}

#[test]
fn palette_holds_the_distinct_colors_in_order() {
    let mut f = TxtrFormat::C4(TxtrPaletteFormat::Rgb565, vec![0; 32]);
    let pixels = [255, 0, 0, 0, 0, 255, 255, 0, 0];
    assert_eq!(f.compute_palette(&pixels), Ok(()));
    match f {
        TxtrFormat::C4(_, pal) => {
            assert_eq!(pal[..4], [0xF8, 0x00, 0x00, 0x1F]);
            assert_eq!(pal[4..], [0u8; 28]);
        },
        _ => panic!("format changed"),
    }
}

#[test]
fn palette_of_too_many_colors_fails() {
    let mut f = TxtrFormat::C4(TxtrPaletteFormat::Ia8, vec![0; 32]);
    let mut pixels = Vec::new();
    for i in 0..16u8 {
        pixels.push(i);
        pixels.push(0xFF);
    }
    assert_eq!(f.compute_palette(&pixels), Err(()));
}

#[test]
fn box_filter_averages_squares() {
    let pixels = [0, 4, 8, 12];
    assert_eq!(box_filter_pixels(&pixels, 2, 2, 1, false), vec![6]);
    let la = [0, 0, 0, 0, 0, 2, 0, 0];
    assert_eq!(box_filter_pixels(&la, 2, 2, 2, false), vec![0, 0]);
    let la2 = [0, 0, 0, 4, 0, 0, 0, 0];
    assert_eq!(box_filter_pixels(&la2, 2, 2, 2, true), vec![0, 0xFF]);
    assert_eq!(box_filter_pixels(&[1, 2], 1, 2, 1, false), Vec::<u8>::new());
}

#[test]
fn mipmap_count_is_the_first_level_that_breaks_the_blocks() {
    assert_eq!(TxtrFormat::I4.max_mipmaps_for_format(64, 64), 4);
    assert_eq!(TxtrFormat::Rgb565.max_mipmaps_for_format(16, 8), 2);
    let c4 = TxtrFormat::C4(TxtrPaletteFormat::Ia8, vec![0; 32]);
    assert_eq!(c4.max_mipmaps_for_format(64, 64), 1);
}

#[test]
fn mipmaps_of_one_block_store_its_rows_bottom_up() {
    let mut f = TxtrFormat::I8;
    let pixels: Vec<u8> = (0..32).collect();
    let mipmaps = f.build_mipmaps(pixels, 8, 4, None).unwrap();
    assert_eq!(mipmaps.len(), 1);
    let mut expected = Vec::new();
    for row in (0..4u8).rev() {
        for x in 0..8u8 {
            expected.push(row * 8 + x);
        }
    }
    assert_eq!(mipmaps[0], expected);
}

#[test]
fn mipmaps_errors() {
    let mut f = TxtrFormat::I8;
    let r = f.build_mipmaps(vec![0; 16], 4, 4, None);
    assert!(matches!(r, Err(TxtrBuildError::BadDimensions { w: 4, h: 4, bw: 8, bh: 4 })));
    let r = f.build_mipmaps(vec![0; 32], 8, 4, Some(2));
    assert!(matches!(r, Err(TxtrBuildError::TooManyMipmaps(1))));
    let r = f.build_mipmaps(vec![0; 1], 1, 1, None);
    assert!(matches!(r, Err(TxtrBuildError::BadDimensions { w: 1, h: 1, bw: 8, bh: 4 })));
    let r = f.build_mipmaps(vec![], 0, 1, None);
    assert!(matches!(r, Err(TxtrBuildError::BadDimensions { w: 0, h: 1, bw: 8, bh: 4 })));
    let mut c4 = TxtrFormat::C4(TxtrPaletteFormat::Ia8, vec![0; 32]);
    let mut many = Vec::new();
    for i in 0..64u8 {
        many.push(i);
        many.push(0xFF);
    }
    let r = c4.build_mipmaps(many, 8, 8, None);
    assert!(matches!(r, Err(TxtrBuildError::TooManyColors)));
}

#[test]
fn two_levels_of_mipmaps_box_filter_between() {
    let mut f = TxtrFormat::Ia8;
    let pixels = vec![0x40u8; 8 * 8 * 2];
    let mipmaps = f.build_mipmaps(pixels, 8, 8, None).unwrap();
    assert_eq!(mipmaps.len(), 2);
    assert_eq!(mipmaps[0], vec![0x40u8; 128]);
    assert_eq!(mipmaps[1], vec![0x40u8; 32]);
}

#[test]
fn decoding_then_encoding_a_block_gives_it_back() {
    let f = TxtrFormat::Rgb565;
    let block: Vec<u8> = (0..32u8).map(|i| i.wrapping_mul(37)).collect();
    let mut pixels = vec![0u8; 48];
    f.decode_block(&block, &mut pixels);
    let mut again = vec![0u8; 32];
    f.encode_block(&mut again, &pixels);
    assert_eq!(again, block);
    let f = TxtrFormat::Ia4;
    let mut pixels = vec![0u8; 64];
    f.decode_block(&block, &mut pixels);
    let mut again = vec![0u8; 32];
    f.encode_block(&mut again, &pixels);
    assert_eq!(again, block);
}

#[test]
fn txtr_files_write_and_read_back() {
    let t = TxtrFile {
        format: TxtrFormat::C4(TxtrPaletteFormat::Rgb565, vec![7u8; 32]),
        width: 8,
        height: 8,
        mipmaps: vec![vec![1u8; 32]],
    };
    let bytes = write_txtr(&t);
    assert_eq!(bytes.len(), 96);
    assert_eq!(bytes[0..12], [0, 0, 0, 4, 0, 8, 0, 8, 0, 0, 0, 1]);
    assert_eq!(bytes[12..20], [0, 0, 0, 1, 0, 1, 0, 16]);
    assert_eq!(bytes[52..84], [1u8; 32]);
    assert_eq!(bytes[84..], [0u8; 12]);
    let back = read_txtr(&bytes).unwrap();
    assert_eq!(back.width, 8);
    assert_eq!(back.height, 8);
    assert_eq!(back.mipmaps, vec![vec![1u8; 32]]);
    assert!(matches!(back.format, TxtrFormat::C4(TxtrPaletteFormat::Rgb565, ref p) if *p == vec![7u8; 32]));
    assert_eq!(read_txtr(&bytes[..10]).err(), Some(TxtrFileError::TooShort));
    assert_eq!(read_txtr(&[0, 0, 0, 6, 0, 8, 0, 8, 0, 0, 0, 1]).err(), Some(TxtrFileError::UnknownFormat(6)));
    let mut bad_palette = bytes.clone();
    bad_palette[15] = 9;
    assert_eq!(read_txtr(&bad_palette).err(), Some(TxtrFileError::UnknownPaletteFormat(9)));
    // The second mipmap of an I8 texture of 16 by 8 pixels is one block.
    let two = TxtrFile { format: TxtrFormat::I8, width: 16, height: 8, mipmaps: vec![vec![2u8; 128], vec![3u8; 32]] };
    let bytes = write_txtr(&two);
    let back = read_txtr(&bytes).unwrap();
    assert_eq!(back.mipmaps, vec![vec![2u8; 128], vec![3u8; 32]]);
    assert_eq!(read_txtr(&bytes[..100]).err(), Some(TxtrFileError::TooShort));
}
