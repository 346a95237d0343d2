//! Mapping boxes from model input space back to original image pixels.
use vstd::prelude::*;
use crate::fixed::{FIXED_ONE, round_div, round_div_exec, lemma_round_div_bound};
use crate::tensor::RawCandidate;

verus! {

/// The geometry of one detection call: the original image's size, the
/// side of the square it was padded to, and the network's input side.
#[derive(Clone, Copy, Debug, PartialEq, Eq, Structural)]
pub struct MatInfo {
    pub width: i32,
    pub height: i32,
    pub model_side: i32,
    pub input_size: i32,
}

/// Positive sizes, and the padded side is the larger image side.
pub open spec fn mat_info_valid(m: MatInfo) -> bool {
    &&& m.width > 0
    &&& m.height > 0
    &&& m.input_size > 0
    &&& m.model_side == if m.width >= m.height { m.width } else { m.height }
}

/// A rectangle in original image pixels: corner, width and height.
#[derive(Clone, Copy, Debug, PartialEq, Eq, Structural)]
pub struct PixelRect {
    pub x: i64,
    pub y: i64,
    pub width: i64,
    pub height: i64,
}

/// A length `v` in fixed-point half units of model space, scaled by
/// `model_side / input_size` and rounded to whole pixels.
pub open spec fn scale_half(v: int, m: MatInfo) -> int {
    round_div(v * m.model_side, 2 * FIXED_ONE * m.input_size)
}

/// The candidate's rectangle `(cx - w/2, cy - h/2, w, h)`, scaled to the
/// original image, each parameter rounded to the nearest pixel.
pub open spec fn rescaled(c: RawCandidate, m: MatInfo) -> PixelRect {
    PixelRect {
        x: scale_half(2 * c.center_x - c.width, m) as i64,
        y: scale_half(2 * c.center_y - c.height, m) as i64,
        width: scale_half(2 * c.width, m) as i64,
        height: scale_half(2 * c.height, m) as i64,
    }
}

fn scale_exec(v: i64, m: &MatInfo) -> (r: i64)
    requires
        -0x2_0000_0000 <= v <= 0x2_0000_0000,
        m.model_side > 0,
        m.input_size > 0,
    ensures
        r as int == scale_half(v as int, *m),
        -0x10_0000_0000_0000 <= r <= 0x10_0000_0000_0000,
{
    proof {
        assert(-0x2_0000_0000 * 0x8000_0000 <= v * m.model_side <= 0x2_0000_0000 * 0x8000_0000) by (nonlinear_arith)
            requires -0x2_0000_0000 <= v <= 0x2_0000_0000, 0 < m.model_side < 0x8000_0000;
        assert(FIXED_ONE == 10000);
    }
    let n = (v as i128) * (m.model_side as i128);
    let d = (m.input_size as i128) * 20000;
    assert(d == 2 * FIXED_ONE * m.input_size) by (nonlinear_arith)
        requires FIXED_ONE == 10000, d == m.input_size * 20000;
    proof {
        lemma_round_div_bound(n as int, d as int);
    }
    round_div_exec(n, d) as i64
}

/// Scales a candidate's rectangle from model input space to the original
/// image. Coordinates are not clamped to the image.
pub fn rescale(c: &RawCandidate, m: &MatInfo) -> (r: PixelRect)
    requires
        m.model_side > 0,
        m.input_size > 0,
    ensures
        r == rescaled(*c, *m),
        r.x as int == scale_half(2 * c.center_x - c.width, *m),
        r.y as int == scale_half(2 * c.center_y - c.height, *m),
        r.width as int == scale_half(2 * c.width, *m),
        r.height as int == scale_half(2 * c.height, *m),
        -0x10_0000_0000_0000 <= r.x <= 0x10_0000_0000_0000,
        -0x10_0000_0000_0000 <= r.y <= 0x10_0000_0000_0000,
        -0x10_0000_0000_0000 <= r.width <= 0x10_0000_0000_0000,
        -0x10_0000_0000_0000 <= r.height <= 0x10_0000_0000_0000,
{
    let cx = c.center_x as i64;
    let cy = c.center_y as i64;
    let w = c.width as i64;
    let h = c.height as i64;
    PixelRect {
        x: scale_exec(2 * cx - w, m),
        y: scale_exec(2 * cy - h, m),
        width: scale_exec(2 * w, m),
        height: scale_exec(2 * h, m),
    }
}

} // verus!
