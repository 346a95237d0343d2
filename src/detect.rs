//! From a raw output tensor to final detections in original image pixels.
use vstd::prelude::*;
use crate::error::DetectError;
use crate::nms::{is_greedy_selection, suppress};
use crate::rescale::{MatInfo, PixelRect, mat_info_valid, rescale, rescaled};
use crate::tensor::{OutputTensor, RawCandidate, decode, decoded, well_shaped};

verus! {

/// The pre-filter applied while decoding (0.25 in fixed point): anchors at
/// or below it never reach suppression.
pub const CONFIDENCE_FLOOR: i32 = 2500;

/// A final detection in original image pixels, clamped to the image.
#[derive(Clone, Copy, Debug, PartialEq, Eq, Structural)]
pub struct BoxDetection {
    pub xmin: i32,
    pub ymin: i32,
    pub xmax: i32,
    pub ymax: i32,
    pub class: usize,
    pub conf: i32,
}

/// The detections of one call, in the order suppression kept them.
pub struct Detections {
    pub detections: Vec<BoxDetection>,
}

/// `v` limited to `[0, hi]`.
pub open spec fn clamp_to(v: int, hi: int) -> int {
    if v < 0 {
        0
    } else if v > hi {
        hi
    } else {
        v
    }
}

/// The final detection for candidate `c`: its rescaled rectangle, corners
/// clamped to the image, with its class and confidence.
pub open spec fn box_of(c: RawCandidate, m: MatInfo) -> BoxDetection {
    let r = rescaled(c, m);
    BoxDetection {
        xmin: clamp_to(r.x as int, m.width as int) as i32,
        ymin: clamp_to(r.y as int, m.height as int) as i32,
        xmax: clamp_to(r.x + r.width, m.width as int) as i32,
        ymax: clamp_to(r.y + r.height, m.height as int) as i32,
        class: c.class_index,
        conf: c.confidence,
    }
}

/// The final detections for the kept candidates, in order.
pub open spec fn boxes_of(s: Seq<RawCandidate>, keep: Seq<usize>, m: MatInfo) -> Seq<BoxDetection> {
    Seq::new(keep.len(), |k: int| box_of(s[keep[k] as int], m))
}

fn clamp_exec(v: i64, hi: i32) -> (r: i32)
    requires
        hi >= 0,
    ensures
        r as int == clamp_to(v as int, hi as int),
{
    if v < 0 {
        0
    } else if v > hi as i64 {
        hi
    } else {
        v as i32
    }
}

/// The final detection for one candidate.
pub fn to_box(c: &RawCandidate, m: &MatInfo) -> (r: BoxDetection)
    requires
        mat_info_valid(*m),
    ensures
        r == box_of(*c, *m),
{
    let p: PixelRect = rescale(c, m);
    BoxDetection {
        xmin: clamp_exec(p.x, m.width),
        ymin: clamp_exec(p.y, m.height),
        xmax: clamp_exec(p.x + p.width, m.width),
        ymax: clamp_exec(p.y + p.height, m.height),
        class: c.class_index,
        conf: c.confidence,
    }
}

/// Decodes the first output tensor with the fixed pre-filter, suppresses
/// overlapping candidates at the caller's thresholds, and maps the kept
/// ones to the original image. A tensor of any shape but `[1, 4 + C, A]`
/// gives `MalformedOutputTensor`.
pub fn post_process(outs: &OutputTensor, mat_info: &MatInfo, conf_thresh: i32, nms_thresh: i32) -> (r: Result<Detections, DetectError>)
    requires
        mat_info_valid(*mat_info),
    ensures
        r is Err <==> !well_shaped(outs.dims@, outs.data@.len() as int),
        r matches Err(e) ==> e == DetectError::MalformedOutputTensor,
        r matches Ok(d) ==> exists|keep: Seq<usize>|
            is_greedy_selection(decoded(*outs, CONFIDENCE_FLOOR), conf_thresh, nms_thresh, keep)
                && d.detections@ == boxes_of(decoded(*outs, CONFIDENCE_FLOOR), keep, *mat_info),
{
    let cands = match decode(outs, CONFIDENCE_FLOOR) {
        Ok(c) => c,
        Err(e) => return Err(e),
    };
    let keep = suppress(&cands, conf_thresh, nms_thresh);
    let mut out: Vec<BoxDetection> = Vec::new();
    let mut k: usize = 0;
    while k < keep.len()
        invariant
            mat_info_valid(*mat_info),
            is_greedy_selection(cands@, conf_thresh, nms_thresh, keep@),
            k <= keep@.len(),
            out@ == boxes_of(cands@, keep@.subrange(0, k as int), *mat_info),
        decreases keep@.len() - k,
    {
        let i = keep[k];
        let b = to_box(&cands[i], mat_info);
        out.push(b);
        proof {
            assert(out@ =~= boxes_of(cands@, keep@.subrange(0, k + 1), *mat_info));
        }
        k = k + 1;
    }
    proof {
        assert(keep@.subrange(0, keep@.len() as int) =~= keep@);
    }
    Ok(Detections { detections: out })
}

} // verus!
