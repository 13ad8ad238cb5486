//! Conversion between canvases and tightly packed 8-bit pixel buffers.

use vstd::prelude::*;
use vstd::arithmetic::div_mod::lemma_fundamental_div_mod_converse;
use crate::canvas::{grid_of, Canvas, Grid};
use crate::color::{
    alpha, blue, green, lemma_pack_unpack, pack, pack_rgba, red, unpack_rgba, TRANSPARENT,
};

verus! {

/// The pixel layouts that can be decoded, each with 8 bits per sample.
#[derive(Clone, Copy, Debug, PartialEq, Eq, Structural)]
pub enum ColorFormat {
    /// One gray sample.
    Grayscale,
    /// One gray sample, then one alpha sample.
    GrayscaleAlpha,
    /// One index into a palette of RGB triples.
    Indexed,
    /// Red, green and blue samples.
    Rgb,
    /// Red, green, blue and alpha samples.
    Rgba,
}

/// Why a pixel buffer could not be decoded.
#[derive(Clone, Copy, Debug, PartialEq, Eq, Structural)]
pub enum DecodeError {
    /// The samples are not 8 bits wide.
    UnsupportedBitDepth,
    /// The color type code names no known pixel layout.
    UnsupportedFormat,
    /// An indexed buffer came without a palette.
    MissingPalette,
    /// The buffer holds fewer bytes than its size and layout call for.
    TruncatedData,
    /// A pixel of an indexed buffer refers past the end of the palette.
    PaletteIndexOutOfRange,
}

/// The color type code of the RGBA layout.
pub const RGBA_CODE: u8 = 6;

impl ColorFormat {
    /// The layout with the given PNG color type code.
    pub open spec fn from_code_spec(code: u8) -> Option<ColorFormat> {
        if code == 0 {
            Some(ColorFormat::Grayscale)
        } else if code == 2 {
            Some(ColorFormat::Rgb)
        } else if code == 3 {
            Some(ColorFormat::Indexed)
        } else if code == 4 {
            Some(ColorFormat::GrayscaleAlpha)
        } else if code == RGBA_CODE {
            Some(ColorFormat::Rgba)
        } else {
            None
        }
    }

    /// The layout with the given PNG color type code, if there is one.
    pub fn from_code(code: u8) -> (f: Option<ColorFormat>)
        ensures
            f == Self::from_code_spec(code),
    {
        match code {
            0 => Some(ColorFormat::Grayscale),
            2 => Some(ColorFormat::Rgb),
            3 => Some(ColorFormat::Indexed),
            4 => Some(ColorFormat::GrayscaleAlpha),
            6 => Some(ColorFormat::Rgba),
            _ => None,
        }
    }

    pub open spec fn bytes_per_pixel_spec(self) -> nat {
        match self {
            ColorFormat::Grayscale => 1,
            ColorFormat::GrayscaleAlpha => 2,
            ColorFormat::Indexed => 1,
            ColorFormat::Rgb => 3,
            ColorFormat::Rgba => 4,
        }
    }

    /// How many bytes one pixel takes.
    pub fn bytes_per_pixel(self) -> (n: usize)
        ensures
            n == self.bytes_per_pixel_spec(),
    {
        match self {
            ColorFormat::Grayscale => 1,
            ColorFormat::GrayscaleAlpha => 2,
            ColorFormat::Indexed => 1,
            ColorFormat::Rgb => 3,
            ColorFormat::Rgba => 4,
        }
    }
}

/// Whether a sample is dark enough to count as transparent in layouts
/// without alpha.
pub open spec fn near_black(v: u8) -> bool {
    v <= 1
}

/// The color of the pixel whose bytes start at `i`.
pub open spec fn decode_pixel(format: ColorFormat, data: Seq<u8>, palette: Seq<u8>, i: int) -> u32 {
    match format {
        ColorFormat::Grayscale => if near_black(data[i]) {
            TRANSPARENT
        } else {
            pack(data[i], data[i], data[i], 255)
        },
        ColorFormat::GrayscaleAlpha => pack(data[i], data[i], data[i], data[i + 1]),
        ColorFormat::Indexed => {
            let p = 3 * data[i];
            if near_black(palette[p]) && near_black(palette[p + 1]) && near_black(palette[p + 2]) {
                TRANSPARENT
            } else {
                pack(palette[p], palette[p + 1], palette[p + 2], 255)
            }
        },
        ColorFormat::Rgb => if data[i] == 0 && data[i + 1] == 0 && data[i + 2] == 0 {
            TRANSPARENT
        } else {
            pack(data[i], data[i + 1], data[i + 2], 255)
        },
        ColorFormat::Rgba => pack(data[i], data[i + 1], data[i + 2], data[i + 3]),
    }
}

/// Whether every one of the first `n` bytes indexes a whole palette entry.
pub open spec fn palette_covers(data: Seq<u8>, palette: Seq<u8>, n: int) -> bool {
    forall|k: int| 0 <= k < n ==> 3 * (#[trigger] data[k]) + 3 <= palette.len()
}

/// What `decode` makes of a buffer, or the error it reports.
pub open spec fn decode_spec(
    data: Seq<u8>,
    width: u32,
    height: u32,
    color_type: u8,
    bit_depth: u8,
    palette: Option<Seq<u8>>,
) -> Result<Grid, DecodeError> {
    if bit_depth != 8 {
        Err(DecodeError::UnsupportedBitDepth)
    } else {
        match ColorFormat::from_code_spec(color_type) {
            None => Err(DecodeError::UnsupportedFormat),
            Some(format) => {
                let n = width * height;
                let bpp = format.bytes_per_pixel_spec();
                let pal = match palette {
                    Some(p) => p,
                    None => Seq::empty(),
                };
                if format == ColorFormat::Indexed && palette is None {
                    Err(DecodeError::MissingPalette)
                } else if data.len() < n * bpp {
                    Err(DecodeError::TruncatedData)
                } else if format == ColorFormat::Indexed && !palette_covers(data, pal, n) {
                    Err(DecodeError::PaletteIndexOutOfRange)
                } else {
                    Ok(
                        grid_of(
                            width as nat,
                            height as nat,
                            Seq::new(n as nat, |k: int| decode_pixel(format, data, pal, k * bpp)),
                        ),
                    )
                }
            },
        }
    }
}

/// The palette's bytes, if there is a palette.
pub open spec fn palette_view(palette: &Option<Vec<u8>>) -> Option<Seq<u8>> {
    match palette {
        Some(p) => Some(p@),
        None => None,
    }
}

fn decode_pixel_exec(format: ColorFormat, data: &Vec<u8>, palette: &Vec<u8>, i: usize) -> (c: u32)
    requires
        i + format.bytes_per_pixel_spec() <= data@.len(),
        format == ColorFormat::Indexed ==> 3 * data@[i as int] + 3 <= palette@.len(),
    ensures
        c == decode_pixel(format, data@, palette@, i as int),
{
    let len = data.len();
    assert(i + format.bytes_per_pixel_spec() <= len);
    match format {
        ColorFormat::Grayscale => {
            let v = data[i];
            if v <= 1 {
                TRANSPARENT
            } else {
                pack_rgba(v, v, v, 255)
            }
        },
        ColorFormat::GrayscaleAlpha => pack_rgba(data[i], data[i], data[i], data[i + 1]),
        ColorFormat::Indexed => {
            let p = 3 * (data[i] as usize);
            let (r, g, b) = (palette[p], palette[p + 1], palette[p + 2]);
            if r <= 1 && g <= 1 && b <= 1 {
                TRANSPARENT
            } else {
                pack_rgba(r, g, b, 255)
            }
        },
        ColorFormat::Rgb => {
            let (r, g, b) = (data[i], data[i + 1], data[i + 2]);
            if r == 0 && g == 0 && b == 0 {
                TRANSPARENT
            } else {
                pack_rgba(r, g, b, 255)
            }
        },
        ColorFormat::Rgba => pack_rgba(data[i], data[i + 1], data[i + 2], data[i + 3]),
    }
}

/// Decodes a tightly packed, row-major buffer of `width` x `height` pixels
/// in the layout with PNG color type code `color_type`. Layouts without
/// alpha are opaque but for near-black pixels (pure black for RGB), which
/// become transparent; indexed pixels look up RGB triples in `palette`.
pub fn decode(
    data: &Vec<u8>,
    width: u32,
    height: u32,
    color_type: u8,
    bit_depth: u8,
    palette: &Option<Vec<u8>>,
) -> (r: Result<Canvas, DecodeError>)
    ensures
        match decode_spec(data@, width, height, color_type, bit_depth, palette_view(palette)) {
            Ok(g) => r matches Ok(c) && c.wf() && c@ == g,
            Err(e) => r == Err::<Canvas, DecodeError>(e),
        },
{
    if bit_depth != 8 {
        return Err(DecodeError::UnsupportedBitDepth);
    }
    let format = match ColorFormat::from_code(color_type) {
        Some(f) => f,
        None => {
            return Err(DecodeError::UnsupportedFormat);
        },
    };
    let empty: Vec<u8> = Vec::new();
    let pal: &Vec<u8> = match palette {
        Some(p) => p,
        None => {
            if format == ColorFormat::Indexed {
                return Err(DecodeError::MissingPalette);
            }
            &empty
        },
    };
    let bpp = format.bytes_per_pixel();
    assert(width as u64 * height as u64 <= u64::MAX) by (nonlinear_arith)
        requires width <= u32::MAX, height <= u32::MAX;
    let n64: u64 = width as u64 * height as u64;
    assert(n64 as u128 * bpp as u128 <= u128::MAX) by (nonlinear_arith)
        requires n64 <= u64::MAX, bpp <= 4;
    if (data.len() as u128) < n64 as u128 * bpp as u128 {
        return Err(DecodeError::TruncatedData);
    }
    assert(n64 <= n64 * bpp) by (nonlinear_arith)
        requires bpp >= 1;
    let n = n64 as usize;
    if format == ColorFormat::Indexed {
        let mut k: usize = 0;
        while k < n
            invariant
                k <= n,
                n <= data@.len(),
                n == width * height,
                n * bpp <= data@.len(),
                palette_view(palette) == Some(pal@),
                bit_depth == 8,
                ColorFormat::from_code_spec(color_type) == Some(format),
                format == ColorFormat::Indexed,
                bpp == format.bytes_per_pixel_spec(),
                forall|j: int| 0 <= j < k ==> 3 * (#[trigger] data@[j]) + 3 <= pal@.len(),
            decreases n - k,
        {
            if 3 * (data[k] as usize) + 3 > pal.len() {
                assert(3 * data@[k as int] + 3 > pal@.len());
                return Err(DecodeError::PaletteIndexOutOfRange);
            }
            k = k + 1;
        }
    }
    let len = data.len();
    let mut pixels: Vec<u32> = Vec::new();
    let mut k: usize = 0;
    while k < n
        invariant
            k <= n,
            n == width * height,
            n * bpp <= data@.len(),
            bpp == format.bytes_per_pixel_spec(),
            len == data@.len(),
            bit_depth == 8,
            ColorFormat::from_code_spec(color_type) == Some(format),
            format == ColorFormat::Indexed ==> palette is Some,
            pal@ == match palette_view(palette) {
                Some(p) => p,
                None => Seq::<u8>::empty(),
            },
            format == ColorFormat::Indexed ==> palette_covers(data@, pal@, n as int),
            pixels@.len() == k,
            forall|j: int|
                0 <= j < k ==> #[trigger] pixels@[j] == decode_pixel(format, data@, pal@, j * bpp),
        decreases n - k,
    {
        assert(k * bpp + bpp <= n * bpp) by (nonlinear_arith)
            requires k < n;
        pixels.push(decode_pixel_exec(format, data, pal, k * bpp));
        k = k + 1;
    }
    assert(pixels@ =~= Seq::new(
        n as nat,
        |j: int| decode_pixel(format, data@, pal@, j * bpp),
    ));
    Ok(Canvas::from_pixels(width as usize, height as usize, pixels))
}

/// Byte `j` of a color in RGBA order.
pub open spec fn channel_of(c: u32, j: int) -> u8 {
    if j == 0 {
        red(c)
    } else if j == 1 {
        green(c)
    } else if j == 2 {
        blue(c)
    } else {
        alpha(c)
    }
}

/// The colors of a grid, row after row.
pub open spec fn row_major(g: Grid) -> Seq<u32> {
    Seq::new(g.width * g.height, |k: int| g.rows[k / g.width as int][k % g.width as int])
}

/// The 8-bit RGBA bytes of a grid, four per pixel, row after row.
pub open spec fn encode_spec(g: Grid) -> Seq<u8> {
    let p = row_major(g);
    Seq::new(4 * p.len(), |k: int| channel_of(p[k / 4], k % 4))
}

/// Byte `j` of the RGBA encoding of pixel `(x, y)` is its channel `j`.
pub proof fn lemma_encoded_at(g: Grid, x: int, y: int, j: int)
    requires
        g.contains(x, y),
        0 <= j < 4,
    ensures
        0 <= 4 * (y * g.width + x) + j < encode_spec(g).len(),
        encode_spec(g)[4 * (y * g.width + x) + j] == channel_of(g.rows[y][x], j),
{
    let w = g.width as int;
    let h = g.height as int;
    let m = y * w + x;
    assert(0 <= m < w * h) by (nonlinear_arith)
        requires 0 <= x < w, 0 <= y < h, m == y * w + x;
    lemma_fundamental_div_mod_converse(4 * m + j, 4, m, j);
    lemma_fundamental_div_mod_converse(m, w, y, x);
}

/// The canvas as 8-bit RGBA bytes, four per pixel, row after row.
pub fn encode(canvas: &Canvas) -> (bytes: Vec<u8>)
    requires
        canvas.wf(),
    ensures
        bytes@ == encode_spec(canvas@),
{
    let w = canvas.width();
    let h = canvas.height();
    let ghost g = canvas@;
    proof {
        canvas.lemma_view_wf();
    }
    let mut out: Vec<u8> = Vec::new();
    let mut y: usize = 0;
    while y < h
        invariant
            canvas.wf(),
            g == canvas@,
            g.wf(),
            w == g.width,
            h == g.height,
            y <= h,
            out@.len() == 4 * (y * w),
            forall|k: int| 0 <= k < out@.len() ==> #[trigger] out@[k] == encode_spec(g)[k],
        decreases h - y,
    {
        let mut x: usize = 0;
        while x < w
            invariant
                canvas.wf(),
                g == canvas@,
                g.wf(),
                w == g.width,
                h == g.height,
                y < h,
                x <= w,
                out@.len() == 4 * (y * w + x),
                forall|k: int| 0 <= k < out@.len() ==> #[trigger] out@[k] == encode_spec(g)[k],
            decreases w - x,
        {
            let (r, gr, b, a) = unpack_rgba(canvas.get(x, y));
            proof {
                lemma_encoded_at(g, x as int, y as int, 0);
                lemma_encoded_at(g, x as int, y as int, 1);
                lemma_encoded_at(g, x as int, y as int, 2);
                lemma_encoded_at(g, x as int, y as int, 3);
            }
            out.push(r);
            out.push(gr);
            out.push(b);
            out.push(a);
            x = x + 1;
        }
        assert(y * w + w == (y + 1) * w) by (nonlinear_arith);
        y = y + 1;
    }
    assert(h * w == w * h) by (nonlinear_arith);
    assert(out@ =~= encode_spec(g));
    out
}

/// Decoding the RGBA bytes of a grid as an RGBA buffer of the grid's own
/// size gives the grid back.
pub proof fn lemma_decode_encode(g: Grid)
    requires
        g.wf(),
        g.width <= u32::MAX,
        g.height <= u32::MAX,
    ensures
        decode_spec(encode_spec(g), g.width as u32, g.height as u32, RGBA_CODE, 8, None) == Ok::<
            Grid,
            DecodeError,
        >(g),
{
    let w = g.width as int;
    let h = g.height as int;
    let data = encode_spec(g);
    assert(data.len() == (w * h) * 4) by (nonlinear_arith)
        requires data.len() == 4 * (w * h);
    let d = grid_of(
        g.width,
        g.height,
        Seq::new(
            (w * h) as nat,
            |k: int| decode_pixel(ColorFormat::Rgba, data, Seq::empty(), k * 4),
        ),
    );
    assert forall|y: int| 0 <= y < h implies d.rows[y] =~= g.rows[y] by {
        assert forall|x: int| 0 <= x < w implies d.rows[y][x] == g.rows[y][x] by {
            let m = y * w + x;
            assert(0 <= m < w * h) by (nonlinear_arith)
                requires 0 <= x < w, 0 <= y < h, m == y * w + x;
            assert(m * 4 == 4 * m);
            lemma_encoded_at(g, x, y, 0);
            lemma_encoded_at(g, x, y, 1);
            lemma_encoded_at(g, x, y, 2);
            lemma_encoded_at(g, x, y, 3);
            lemma_pack_unpack(g.rows[y][x]);
        }
    }
    assert(d.rows =~= g.rows);
}

/// Whether the palette entry that pixel `k` of an indexed buffer refers to
/// is near black.
pub open spec fn indexed_near_black(data: Seq<u8>, palette: Seq<u8>, k: int) -> bool {
    near_black(palette[3 * data[k]]) && near_black(palette[3 * data[k] + 1]) && near_black(
        palette[3 * data[k] + 2],
    )
}

/// The round trip does not hold for indexed buffers: a pixel whose palette
/// entry is near black decodes as transparent, so its RGBA bytes are all
/// zero, whatever the entry's color was.
pub proof fn lemma_indexed_near_black_lost(
    data: Seq<u8>,
    width: u32,
    height: u32,
    palette: Seq<u8>,
    x: int,
    y: int,
)
    requires
        decode_spec(data, width, height, 3, 8, Some(palette)) is Ok,
        0 <= x < width,
        0 <= y < height,
        indexed_near_black(data, palette, y * width + x),
    ensures
        decode_spec(data, width, height, 3, 8, Some(palette))->Ok_0.at(x, y) == TRANSPARENT,
        forall|j: int|
            0 <= j < 4 ==> #[trigger] encode_spec(
                decode_spec(data, width, height, 3, 8, Some(palette))->Ok_0,
            )[4 * (y * width + x) + j] == 0,
{
    let g = decode_spec(data, width, height, 3, 8, Some(palette))->Ok_0;
    assert(0 <= y * width + x < width * height) by (nonlinear_arith)
        requires 0 <= x < width, 0 <= y < height;
    assert(g.at(x, y) == TRANSPARENT);
    assert(0u32 >> 24u32 == 0 && (0u32 >> 16u32) & 0xffu32 == 0 && (0u32 >> 8u32) & 0xffu32 == 0
        && 0u32 & 0xffu32 == 0) by (bit_vector);
    assert forall|j: int| 0 <= j < 4 implies #[trigger] encode_spec(g)[4 * (y * width + x) + j]
        == 0 by {
        lemma_encoded_at(g, x, y, j);
    }
}

} // verus!
