//! From the bytes of a PNG skin to the bytes of a PNG totem.

use vstd::prelude::*;
use crate::layout::{build, build_spec, lemma_head_front_copied, LayoutError, SKIN_SIZE, TOTEM_SIZE};
use crate::raster::{
    channel_of, decode, decode_spec, encode, encode_spec, lemma_encoded_at, palette_view, DecodeError,
};
use crate::color::{lemma_unpack_pack, pack};

verus! {

/// The first frame of a PNG image, as the codec hands it out: its size,
/// PNG color type code, bit depth, tightly packed samples and palette.
pub struct RawImage {
    pub width: u32,
    pub height: u32,
    pub color_type: u8,
    pub bit_depth: u8,
    pub data: Vec<u8>,
    pub palette: Option<Vec<u8>>,
}

impl View for RawImage {
    type V = (u32, u32, u8, u8, Seq<u8>, Option<Seq<u8>>);

    open spec fn view(&self) -> Self::V {
        (
            self.width,
            self.height,
            self.color_type,
            self.bit_depth,
            self.data@,
            palette_view(&self.palette),
        )
    }
}

/// Why a totem could not be made.
#[derive(Debug, PartialEq, Eq)]
pub enum TotemError {
    /// The skin could not be read as a PNG image.
    Io(String),
    /// The skin's pixels could not be decoded.
    Decode(DecodeError),
    /// The totem could not be built from the skin.
    Layout(LayoutError),
    /// The totem could not be written as a PNG image.
    Encode(String),
}

/// The first frame that the PNG codec reads from `bytes`, if it reads one.
pub uninterp spec fn png_decoding(bytes: Seq<u8>) -> Option<
    (u32, u32, u8, u8, Seq<u8>, Option<Seq<u8>>),
>;

/// The PNG file that the codec writes for an 8-bit RGBA image of the given
/// size and samples.
pub uninterp spec fn png_rgba8_encoding(width: u32, height: u32, rgba: Seq<u8>) -> Seq<u8>;

/// Relies on png's `Decoder::read_info`, `Reader::next_frame` and
/// `Reader::info` with the default (identity) transformations: whether a
/// frame is read, and its size, color type, bit depth, samples and palette,
/// depend on the bytes alone.
#[verifier::external_body]
fn read_png(bytes: &[u8]) -> (r: Result<RawImage, String>)
    ensures
        match png_decoding(bytes@) {
            Some(v) => r matches Ok(img) && img@ == v,
            None => r is Err,
        },
{
    let mut reader = match png::Decoder::new(bytes).read_info() {
        Ok(reader) => reader,
        Err(e) => return Err(e.to_string()),
    };
    let mut buf = vec![0; reader.output_buffer_size()];
    let info = match reader.next_frame(&mut buf) {
        Ok(info) => info,
        Err(e) => return Err(e.to_string()),
    };
    buf.truncate(info.buffer_size());
    let palette = reader.info().palette.as_ref().map(|p| p.to_vec());
    let (color_type, bit_depth) = (info.color_type as u8, info.bit_depth as u8);
    Ok(RawImage { width: info.width, height: info.height, color_type, bit_depth, data: buf, palette })
}

/// Relies on png's `Encoder` set to RGBA with 8 bits per sample, then
/// `Writer::write_image_data` and `Writer::finish`: the bytes written depend
/// on the size and the samples alone. With default options and an in-memory
/// writer, a nonzero size whose buffer holds four bytes per pixel is always
/// written (the header fails only on a zero size or an invalid color and
/// depth pair, the data only on a wrong length, finishing only on sequence
/// validation, which is off, or an I/O error, which a `Vec` never gives).
#[verifier::external_body]
fn write_png(width: u32, height: u32, rgba: &[u8]) -> (r: Result<Vec<u8>, String>)
    requires
        rgba@.len() == 4 * width * height,
    ensures
        r matches Ok(out) ==> out@ == png_rgba8_encoding(width, height, rgba@),
        width > 0 && height > 0 ==> r is Ok,
{
    let mut out: Vec<u8> = Vec::new();
    let mut encoder = png::Encoder::new(&mut out, width, height);
    encoder.set_color(png::ColorType::Rgba);
    encoder.set_depth(png::BitDepth::Eight);
    let written = match encoder.write_header() {
        Ok(mut w) => match w.write_image_data(rgba) {
            Ok(()) => w.finish(),
            Err(e) => Err(e),
        },
        Err(e) => Err(e),
    };
    match written {
        Ok(()) => Ok(out),
        Err(e) => Err(e.to_string()),
    }
}

/// What `convert` makes of a skin's first frame: the totem's RGBA bytes, or
/// the error.
pub open spec fn convert_spec(
    image: (u32, u32, u8, u8, Seq<u8>, Option<Seq<u8>>),
    second_layer: bool,
) -> Result<Seq<u8>, TotemError> {
    let (width, height, color_type, bit_depth, data, palette) = image;
    match decode_spec(data, width, height, color_type, bit_depth, palette) {
        Err(e) => Err(TotemError::Decode(e)),
        Ok(skin) => match build_spec(skin, second_layer) {
            Err(e) => Err(TotemError::Layout(e)),
            Ok(totem) => Ok(encode_spec(totem)),
        },
    }
}

/// Decodes a skin's first frame, builds its totem and returns the totem as
/// 8-bit RGBA bytes.
pub fn convert(image: &RawImage, second_layer: bool) -> (r: Result<Vec<u8>, TotemError>)
    ensures
        match convert_spec(image@, second_layer) {
            Ok(bytes) => r matches Ok(b) && b@ == bytes,
            Err(e) => r == Err::<Vec<u8>, TotemError>(e),
        },
        r matches Ok(b) ==> b@.len() == 4 * (TOTEM_SIZE * TOTEM_SIZE),
{
    let skin = match decode(
        &image.data,
        image.width,
        image.height,
        image.color_type,
        image.bit_depth,
        &image.palette,
    ) {
        Ok(c) => c,
        Err(e) => {
            return Err(TotemError::Decode(e));
        },
    };
    let totem = match build(&skin, second_layer) {
        Ok(c) => c,
        Err(e) => {
            return Err(TotemError::Layout(e));
        },
    };
    Ok(encode(&totem))
}

/// Reads a PNG skin, builds its totem (with the second layer if asked) and
/// writes the totem as an 8-bit RGBA PNG.
pub fn generate(skin_png: &[u8], second_layer: bool) -> (r: Result<Vec<u8>, TotemError>)
    ensures
        match png_decoding(skin_png@) {
            None => r matches Err(TotemError::Io(_)),
            Some(image) => match convert_spec(image, second_layer) {
                Err(e) => r == Err::<Vec<u8>, TotemError>(e),
                Ok(rgba) => r matches Ok(out) && out@ == png_rgba8_encoding(
                    TOTEM_SIZE as u32,
                    TOTEM_SIZE as u32,
                    rgba,
                ),
            },
        },
{
    let image = match read_png(skin_png) {
        Ok(image) => image,
        Err(msg) => {
            return Err(TotemError::Io(msg));
        },
    };
    let rgba = match convert(&image, second_layer) {
        Ok(bytes) => bytes,
        Err(e) => {
            return Err(e);
        },
    };
    match write_png(TOTEM_SIZE as u32, TOTEM_SIZE as u32, rgba.as_slice()) {
        Ok(out) => Ok(out),
        Err(msg) => Err(TotemError::Encode(msg)),
    }
}

/// Where the RGB samples of skin pixel (12, 12) start.
pub open spec fn skin_head_sample() -> int {
    (12 * 64 + 12) * 3int
}

/// Where the RGBA bytes of totem pixel (8, 5) start.
pub open spec fn totem_head_byte() -> int {
    4 * (5 * 16 + 8int)
}

/// A 64x64 RGB skin whose pixel (12, 12), on the head's front face, is not
/// pure black gives, without the second layer, a totem whose pixel (8, 5)
/// is that color, opaque.
pub proof fn lemma_rgb_head_pixel_end_to_end(data: Seq<u8>, palette: Option<Seq<u8>>)
    requires
        data.len() >= SKIN_SIZE * SKIN_SIZE * 3,
        !(data[skin_head_sample()] == 0 && data[skin_head_sample() + 1] == 0
            && data[skin_head_sample() + 2] == 0),
    ensures
        convert_spec((64, 64, 2, 8, data, palette), false) matches Ok(rgba) && rgba.subrange(
            totem_head_byte(),
            totem_head_byte() + 4,
        ) == seq![
            data[skin_head_sample()],
            data[skin_head_sample() + 1],
            data[skin_head_sample() + 2],
            255u8,
        ],
{
    let i = skin_head_sample();
    let skin = decode_spec(data, 64, 64, 2, 8, palette)->Ok_0;
    assert(skin.at(12, 12) == pack(data[i], data[i + 1], data[i + 2], 255));
    lemma_head_front_copied(skin, 8, 5);
    let totem = build_spec(skin, false)->Ok_0;
    lemma_unpack_pack(data[i], data[i + 1], data[i + 2], 255);
    lemma_encoded_at(totem, 8, 5, 0);
    lemma_encoded_at(totem, 8, 5, 1);
    lemma_encoded_at(totem, 8, 5, 2);
    lemma_encoded_at(totem, 8, 5, 3);
    assert(encode_spec(totem).subrange(totem_head_byte(), totem_head_byte() + 4) =~= seq![
        data[i],
        data[i + 1],
        data[i + 2],
        255u8,
    ]);
}

} // verus!
