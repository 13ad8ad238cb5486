use skin_to_totem::canvas::Canvas;
use skin_to_totem::color::{pack_rgba, TRANSPARENT};
use skin_to_totem::raster::{decode, encode, ColorFormat, DecodeError, RGBA_CODE};

fn pixels(c: &Canvas) -> Vec<u32> {
    let mut out = Vec::new();
    for y in 0..c.height() {
        for x in 0..c.width() {
            out.push(c.get(x, y));
        }
    }
    out
}

#[test]
fn color_type_codes() {
    assert_eq!(ColorFormat::from_code(0), Some(ColorFormat::Grayscale));
    assert_eq!(ColorFormat::from_code(2), Some(ColorFormat::Rgb));
    assert_eq!(ColorFormat::from_code(3), Some(ColorFormat::Indexed));
    assert_eq!(ColorFormat::from_code(4), Some(ColorFormat::GrayscaleAlpha));
    assert_eq!(ColorFormat::from_code(6), Some(ColorFormat::Rgba));
    assert_eq!(ColorFormat::from_code(1), None);
}

#[test]
fn decode_rgba_passes_through() {
    let data = vec![1, 2, 3, 4, 0, 0, 0, 0, 9, 8, 7, 255];
    let c = decode(&data, 3, 1, 6, 8, &None).unwrap();
    assert_eq!(pixels(&c), vec![0x0102_0304, 0, pack_rgba(9, 8, 7, 255)]);
}

#[test]
fn decode_rgb_black_is_transparent() {
    let data = vec![0, 0, 0, 0, 0, 1, 255, 0, 0];
    let c = decode(&data, 1, 3, 2, 8, &None).unwrap();
    assert_eq!(pixels(&c), vec![TRANSPARENT, pack_rgba(0, 0, 1, 255), pack_rgba(255, 0, 0, 255)]);
}

#[test]
fn decode_grayscale_near_black_is_transparent() {
    let data = vec![0, 1, 2, 200];
    let c = decode(&data, 2, 2, 0, 8, &None).unwrap();
    assert_eq!(
        pixels(&c),
        vec![TRANSPARENT, TRANSPARENT, pack_rgba(2, 2, 2, 255), pack_rgba(200, 200, 200, 255)]
    );
}

#[test]
fn decode_grayscale_alpha_keeps_alpha() {
    let data = vec![0, 0, 50, 7];
    let c = decode(&data, 2, 1, 4, 8, &None).unwrap();
    assert_eq!(pixels(&c), vec![TRANSPARENT, pack_rgba(50, 50, 50, 7)]);
}

#[test]
fn decode_indexed_looks_up_palette() {
    let palette = Some(vec![1, 1, 0, 200, 10, 20, 0, 2, 0]);
    let data = vec![0, 1, 2, 1];
    let c = decode(&data, 4, 1, 3, 8, &palette).unwrap();
    assert_eq!(
        pixels(&c),
        vec![TRANSPARENT, pack_rgba(200, 10, 20, 255), pack_rgba(0, 2, 0, 255), pack_rgba(200, 10, 20, 255)]
    );
}

#[test]
fn decode_errors() {
    let data = vec![0u8; 16];
    assert!(matches!(decode(&data, 2, 2, 6, 16, &None), Err(DecodeError::UnsupportedBitDepth)));
    assert!(matches!(decode(&data, 2, 2, 1, 8, &None), Err(DecodeError::UnsupportedFormat)));
    assert!(matches!(decode(&data, 2, 2, 3, 8, &None), Err(DecodeError::MissingPalette)));
    assert!(matches!(decode(&data, 3, 2, 6, 8, &None), Err(DecodeError::TruncatedData)));
    let palette = Some(vec![5, 5, 5]);
    let indexed = vec![0, 1];
    assert!(matches!(decode(&indexed, 2, 1, 3, 8, &palette), Err(DecodeError::PaletteIndexOutOfRange)));
}

#[test]
fn decode_uses_format_stride_and_ignores_trailing_bytes() {
    let data = vec![10, 20, 30, 40, 50, 60, 99];
    let c = decode(&data, 2, 1, 2, 8, &None).unwrap();
    assert_eq!(pixels(&c), vec![pack_rgba(10, 20, 30, 255), pack_rgba(40, 50, 60, 255)]);
}

#[test]
fn encode_is_rgba_row_major() {
    let c = Canvas::from_pixels(2, 2, vec![0x0102_0304, 0x0506_0708, 0x090a_0b0c, 0x0d0e_0f10]);
    assert_eq!(encode(&c), (1..=16).collect::<Vec<u8>>());
}

#[test]
fn decode_of_encode_round_trips() {
    let original: Vec<u32> = (0..12u32).map(|i| i.wrapping_mul(0x1357_9bdf)).collect();
    let c = Canvas::from_pixels(4, 3, original.clone());
    let back = decode(&encode(&c), 4, 3, RGBA_CODE, 8, &None).unwrap();
    assert_eq!((back.width(), back.height()), (4, 3));
    assert_eq!(pixels(&back), original);
}

#[test]
fn indexed_round_trip_is_lossy() {
    // Near-black palette entries decode as transparent, so the palette
    // colors themselves do not come back.
    let palette = Some(vec![1, 0, 1, 30, 40, 50]);
    let skin = decode(&vec![0, 1], 2, 1, 3, 8, &palette).unwrap();
    let back = decode(&encode(&skin), 2, 1, RGBA_CODE, 8, &None).unwrap();
    assert_eq!(pixels(&back), vec![TRANSPARENT, pack_rgba(30, 40, 50, 255)]);
    assert_ne!(pixels(&back)[0], pack_rgba(1, 0, 1, 255));
}
