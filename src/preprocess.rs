//! Preparing an image for the network: top-left padding to a square,
//! resizing, normalization and channel-first layout.
use vstd::prelude::*;
use crate::error::DetectError;
use crate::fixed::{FIXED_ONE, round_div};
use crate::rescale::MatInfo;

verus! {

/// A decoded image: `width * height` pixels, row-major, three bytes (red,
/// green, blue) each.
pub struct Image {
    pub width: u32,
    pub height: u32,
    pub pixels: Vec<u8>,
}

/// The pixel buffer holds exactly three bytes per pixel.
pub open spec fn image_valid(img: Image) -> bool {
    img.pixels@.len() == img.width as int * img.height as int * 3
}

/// The position of channel `ch` of pixel `(row, col)` in an interleaved
/// buffer of rows `cols` pixels wide.
pub open spec fn interleaved(cols: int, row: int, col: int, ch: int) -> int {
    (row * cols + col) * 3 + ch
}

/// The network input: `3 * side * side` fixed-point values, channel first
/// (red, green, blue planes), each plane row-major.
pub struct InputTensor {
    pub side: u32,
    pub data: Vec<i32>,
}

/// A byte scaled to `[0, 1]` in fixed point, rounded.
pub open spec fn normalized(v: u8) -> int {
    round_div(v * FIXED_ONE, 255)
}

proof fn lemma_lex(a: int, b: int, a2: int, b2: int, m: int)
    requires
        0 <= a,
        0 <= b < m,
        0 <= b2 < m,
        a < a2 || (a == a2 && b < b2),
    ensures
        a * m + b < a2 * m + b2,
{
    if a < a2 {
        assert((a + 1) * m <= a2 * m) by (nonlinear_arith)
            requires a + 1 <= a2, 0 <= m;
        assert((a + 1) * m == a * m + m) by (nonlinear_arith);
    }
}

proof fn lemma_row_bound(a: int, b: int, rows: int, m: int)
    requires
        0 <= a < rows,
        0 <= b < m,
    ensures
        0 <= a * m + b < rows * m,
{
    assert(0 <= a * m) by (nonlinear_arith)
        requires 0 <= a, 0 <= m;
    lemma_lex(a, b, rows, 0, m);
    assert(rows * m + 0 == rows * m);
}

/// The side of the square an image is padded to: its larger side.
pub open spec fn square_side(img: Image) -> int {
    if img.width >= img.height { img.width as int } else { img.height as int }
}

/// The image copied into the top-left corner of a zero-filled square of
/// side `square_side(img)`, interleaved: byte `i` is channel `i % 3` of
/// pixel `i / 3`, which lies in row `(i / 3) / s` and column `(i / 3) % s`.
pub open spec fn padded(img: Image) -> Seq<u8> {
    let s = square_side(img);
    Seq::new(
        (s * s * 3) as nat,
        |i: int|
            {
                let y = (i / 3) / s;
                let x = (i / 3) % s;
                if x < img.width && y < img.height {
                    img.pixels@[interleaved(img.width as int, y, x, i % 3)]
                } else {
                    0u8
                }
            },
    )
}

/// Copies the image into the top-left corner of a zero-filled square of
/// side `max(width, height)`; no centering.
pub fn pre_process(img: &Image) -> (r: Vec<u8>)
    requires
        image_valid(*img),
        square_side(*img) * square_side(*img) * 3 <= usize::MAX,
    ensures
        r@ == padded(*img),
{
    let s: usize = if img.width >= img.height { img.width as usize } else { img.height as usize };
    let w: usize = img.width as usize;
    let h: usize = img.height as usize;
    let len = img.pixels.len();
    proof {
        assert(0 <= s * s) by (nonlinear_arith)
            requires 0 <= s;
    }
    let total: usize = s * s * 3;
    let mut out: Vec<u8> = Vec::new();
    let mut i: usize = 0;
    while i < total
        invariant
            image_valid(*img),
            len == img.pixels@.len(),
            s == square_side(*img),
            w == img.width,
            h == img.height,
            total == s * s * 3,
            i <= total,
            out@.len() == i,
            forall|j: int| 0 <= j < i ==> out@[j] == #[trigger] padded(*img)[j],
        decreases total - i,
    {
        let p = i / 3;
        let ch = i % 3;
        let y = p / s;
        let x = p % s;
        let v: u8 = if x < w && y < h {
            proof {
                lemma_row_bound(y as int, x as int, h as int, w as int);
                assert(interleaved(w as int, y as int, x as int, ch as int) < w * h * 3) by (nonlinear_arith)
                    requires y * w + x < h * w, 0 <= ch < 3;
            }
            img.pixels[(y * w + x) * 3 + ch]
        } else {
            0u8
        };
        out.push(v);
        i = i + 1;
    }
    proof {
        assert(out@ =~= padded(*img));
    }
    out
}

/// What resizing a square RGB buffer of side `side` to side `target` gives.
pub uninterp spec fn resized_rgb(pixels: Seq<u8>, side: u32, target: u32) -> Seq<u8>;

/// Relies on `image::imageops::resize` with the triangle (bilinear) filter
/// on an RGB image built from the buffer by `ImageBuffer::from_raw`: the
/// result is a `target`-square RGB buffer, three bytes per pixel, and it
/// depends on the pixels and the two sides alone.
#[verifier::external_body]
fn resize_square(pixels: &Vec<u8>, side: u32, target: u32) -> (r: Vec<u8>)
    requires
        side > 0,
        target > 0,
        pixels@.len() == side as int * side as int * 3,
        side as int * target as int * 16 <= isize::MAX,
        target as int * target as int * 16 <= isize::MAX,
    ensures
        r@.len() == target as int * target as int * 3,
        r@ == resized_rgb(pixels@, side, target),
{
    let img = image::RgbImage::from_raw(side, side, pixels.clone()).unwrap();
    image::imageops::resize(&img, target, target, image::imageops::FilterType::Triangle).into_raw()
}

/// An interleaved RGB buffer of `plane` pixels, normalized and laid out
/// channel first: value `i` is channel `i / plane` of pixel `i % plane`.
pub open spec fn planar_of(src: Seq<u8>, plane: int) -> Seq<i32> {
    Seq::new((plane * 3) as nat, |i: int| normalized(src[(i % plane) * 3 + i / plane]) as i32)
}

fn normalize_byte(v: u8) -> (r: i32)
    ensures
        r as int == normalized(v),
        0 <= r <= FIXED_ONE,
{
    assert(FIXED_ONE == 10000);
    let n = (v as i32) * 10000;
    (2 * n + 255) / 510
}

/// Normalizes an interleaved RGB buffer to `[0, 1]` in fixed point and
/// reorders it channel first.
pub fn to_planar(src: &Vec<u8>, plane: usize) -> (r: Vec<i32>)
    requires
        src@.len() == plane * 3,
    ensures
        r@ == planar_of(src@, plane as int),
{
    let total = src.len();
    let mut out: Vec<i32> = Vec::new();
    let mut i: usize = 0;
    while i < total
        invariant
            src@.len() == plane * 3,
            total == plane * 3,
            i <= total,
            out@.len() == i,
            forall|j: int| 0 <= j < i ==> out@[j] == #[trigger] planar_of(src@, plane as int)[j],
        decreases total - i,
    {
        let ch = i / plane;
        let p = i % plane;
        proof {
            assert(ch < 3) by (nonlinear_arith)
                requires ch == i / plane, i < plane * 3, plane > 0;
            assert(p * 3 + ch < plane * 3) by (nonlinear_arith)
                requires p < plane, ch < 3;
        }
        out.push(normalize_byte(src[p * 3 + ch]));
        i = i + 1;
    }
    proof {
        assert(out@ =~= planar_of(src@, plane as int));
    }
    out
}

/// The geometry that preparing `img` for side `input_size` records.
pub open spec fn geometry_of(img: Image, input_size: i32) -> MatInfo {
    MatInfo {
        width: img.width as i32,
        height: img.height as i32,
        model_side: square_side(img) as i32,
        input_size,
    }
}

/// Prepares an image for the network: pads it top-left to a square of side
/// `S = max(width, height)`, resizes that to `input_size`, normalizes each
/// byte to `[0, 1]` and lays the channels out first. Returns the tensor
/// and the geometry needed to map boxes back. An image with no pixels is
/// `InvalidImage`.
pub fn prepare(img: &Image, input_size: i32) -> (r: Result<(InputTensor, MatInfo), DetectError>)
    requires
        image_valid(*img),
        input_size > 0,
        img.width <= i32::MAX,
        img.height <= i32::MAX,
        square_side(*img) * input_size * 16 <= isize::MAX,
        input_size * input_size * 16 <= isize::MAX,
        square_side(*img) * square_side(*img) * 3 <= usize::MAX,
    ensures
        r is Err <==> img.width == 0 || img.height == 0,
        r matches Err(e) ==> e == DetectError::InvalidImage,
        r matches Ok(p) ==> {
            &&& p.0.side == input_size
            &&& p.1 == geometry_of(*img, input_size)
            &&& p.0.data@ == planar_of(
                resized_rgb(padded(*img), square_side(*img) as u32, input_size as u32),
                input_size * input_size,
            )
            &&& p.0.data@.len() == 3 * input_size * input_size
        },
{
    if img.width == 0 || img.height == 0 {
        return Err(DetectError::InvalidImage);
    }
    let s: u32 = if img.width >= img.height { img.width } else { img.height };
    let padded_pixels = pre_process(img);
    let n = input_size as u32;
    let resized = resize_square(&padded_pixels, s, n);
    let plane = (n as usize) * (n as usize);
    assert(plane * 3 == n as int * n as int * 3);
    let data = to_planar(&resized, plane);
    assert(s as int == square_side(*img));
    assert(plane as int == input_size * input_size);
    let info = MatInfo {
        width: img.width as i32,
        height: img.height as i32,
        model_side: s as i32,
        input_size,
    };
    assert(info == geometry_of(*img, input_size));
    assert(data@ == planar_of(resized_rgb(padded(*img), square_side(*img) as u32, input_size as u32), input_size * input_size));
    assert(data@.len() == 3 * input_size * input_size) by (nonlinear_arith)
        requires data@.len() == plane * 3, plane == input_size * input_size;
    Ok((InputTensor { side: n, data }, info))
}

} // verus!
