use skin_to_totem::color::pack_rgba;
use skin_to_totem::layout::LayoutError;
use skin_to_totem::pipeline::{convert, generate, RawImage, TotemError};
use skin_to_totem::raster::DecodeError;

fn png_bytes(width: u32, height: u32, color: png::ColorType, data: &[u8]) -> Vec<u8> {
    let mut out = Vec::new();
    {
        let mut encoder = png::Encoder::new(&mut out, width, height);
        encoder.set_color(color);
        encoder.set_depth(png::BitDepth::Eight);
        let mut writer = encoder.write_header().unwrap();
        writer.write_image_data(data).unwrap();
    }
    out
}

fn read_rgba(bytes: &[u8]) -> (u32, u32, Vec<u8>) {
    let mut reader = png::Decoder::new(bytes).read_info().unwrap();
    let mut buf = vec![0; reader.output_buffer_size()];
    let info = reader.next_frame(&mut buf).unwrap();
    assert_eq!(info.color_type, png::ColorType::Rgba);
    assert_eq!(info.bit_depth, png::BitDepth::Eight);
    buf.truncate(info.buffer_size());
    (info.width, info.height, buf)
}

fn red_head_skin() -> Vec<u8> {
    let mut data = vec![0u8; 64 * 64 * 3];
    data[(12 * 64 + 12) * 3] = 0xaa;
    data
}

#[test]
fn generate_writes_a_16x16_rgba_png() {
    let skin = png_bytes(64, 64, png::ColorType::Rgb, &red_head_skin());
    let out = generate(&skin, false).unwrap();
    assert_eq!(&out[..8], &[0x89, b'P', b'N', b'G', 0x0d, 0x0a, 0x1a, 0x0a]);
    let (w, h, rgba) = read_rgba(&out);
    assert_eq!((w, h), (16, 16));
    let i = (5 * 16 + 8) * 4;
    assert_eq!(&rgba[i..i + 4], &[0xaa, 0, 0, 0xff]);
    assert_eq!(&rgba[0..4], &[0, 0, 0, 0]);
}

#[test]
fn generate_refuses_non_png_input() {
    assert!(matches!(generate(b"not a png", false), Err(TotemError::Io(_))));
}

#[test]
fn generate_refuses_small_skins() {
    let skin = png_bytes(32, 32, png::ColorType::Rgba, &vec![255u8; 32 * 32 * 4]);
    assert!(matches!(
        generate(&skin, true),
        Err(TotemError::Layout(LayoutError::InvalidSkinDimensions))
    ));
}

#[test]
fn generate_reads_grayscale_alpha_skins() {
    let mut data = vec![0u8; 64 * 64 * 2];
    data[(12 * 64 + 12) * 2] = 77;
    data[(12 * 64 + 12) * 2 + 1] = 255;
    let skin = png_bytes(64, 64, png::ColorType::GrayscaleAlpha, &data);
    let (_, _, rgba) = read_rgba(&generate(&skin, false).unwrap());
    let i = (5 * 16 + 8) * 4;
    assert_eq!(&rgba[i..i + 4], &[77, 77, 77, 255]);
}

#[test]
fn convert_builds_totem_bytes() {
    let image = RawImage {
        width: 64,
        height: 64,
        color_type: 2,
        bit_depth: 8,
        data: red_head_skin(),
        palette: None,
    };
    let rgba = convert(&image, false).unwrap();
    assert_eq!(rgba.len(), 16 * 16 * 4);
    let i = (5 * 16 + 8) * 4;
    assert_eq!(&rgba[i..i + 4], &[0xaa, 0, 0, 0xff]);
    assert_eq!(u32::from_be_bytes([rgba[i], rgba[i + 1], rgba[i + 2], rgba[i + 3]]), pack_rgba(0xaa, 0, 0, 0xff));
}

#[test]
fn convert_reports_decode_errors() {
    let image = RawImage {
        width: 64,
        height: 64,
        color_type: 3,
        bit_depth: 8,
        data: vec![0; 64 * 64],
        palette: None,
    };
    assert_eq!(convert(&image, false), Err(TotemError::Decode(DecodeError::MissingPalette)));
    let deep = RawImage { bit_depth: 16, ..image };
    assert_eq!(convert(&deep, false), Err(TotemError::Decode(DecodeError::UnsupportedBitDepth)));
}
