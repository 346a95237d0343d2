//! Choosing which detections to draw, and in which color.
use vstd::prelude::*;
use crate::detect::{BoxDetection, Detections};
use crate::model::ModelConfig;

verus! {

/// A drawing color.
#[derive(Clone, Copy, Debug, PartialEq, Eq, Structural)]
pub struct Color {
    pub red: u8,
    pub green: u8,
    pub blue: u8,
}

/// A class label to draw, and its color.
pub struct Highlight {
    pub label: String,
    pub color: Color,
}

/// A rectangle to draw on the original image.
#[derive(Clone, Copy, Debug, PartialEq, Eq, Structural)]
pub struct Annotation {
    pub detection: BoxDetection,
    pub color: Color,
}

/// The color of the first of `hs[0..k]` whose label is `label`.
pub open spec fn color_for(hs: Seq<Highlight>, label: Seq<char>, k: nat) -> Option<Color>
    decreases k,
{
    if k == 0 {
        None
    } else {
        match color_for(hs, label, (k - 1) as nat) {
            Some(c) => Some(c),
            None => if hs[k - 1].label@ == label {
                Some(hs[k - 1].color)
            } else {
                None
            },
        }
    }
}

/// The annotations for `ds[0..n]`: each detection whose class has a label
/// among the highlights, in the first such highlight's color, in order.
/// Other detections, and those of an unknown class, are skipped.
pub open spec fn annotations_of(ds: Seq<BoxDetection>, names: Seq<String>, hs: Seq<Highlight>, n: nat) -> Seq<Annotation>
    decreases n,
{
    if n == 0 {
        Seq::empty()
    } else {
        let prev = annotations_of(ds, names, hs, (n - 1) as nat);
        let d = ds[n - 1];
        if d.class < names.len() {
            match color_for(hs, names[d.class as int]@, hs.len()) {
                Some(c) => prev.push(Annotation { detection: d, color: c }),
                None => prev,
            }
        } else {
            prev
        }
    }
}

fn find_color(hs: &Vec<Highlight>, label: &String) -> (r: Option<Color>)
    ensures
        r == color_for(hs@, label@, hs@.len()),
{
    let mut k: usize = 0;
    while k < hs.len()
        invariant
            k <= hs@.len(),
            color_for(hs@, label@, k as nat) is None,
        decreases hs@.len() - k,
    {
        if hs[k].label == *label {
            proof {
                assert(color_for(hs@, label@, (k + 1) as nat) == Some(hs@[k as int].color));
                lemma_color_for_stable(hs@, label@, (k + 1) as nat, hs@.len());
            }
            return Some(hs[k].color);
        }
        k = k + 1;
    }
    None
}

proof fn lemma_color_for_stable(hs: Seq<Highlight>, label: Seq<char>, j: nat, k: nat)
    requires
        j <= k,
        color_for(hs, label, j) is Some,
    ensures
        color_for(hs, label, k) == color_for(hs, label, j),
    decreases k - j,
{
    if j < k {
        lemma_color_for_stable(hs, label, j, (k - 1) as nat);
    }
}

/// The highlights of the detector's default drawing: class "0" in green
/// and class "3" in orange.
pub fn default_highlights() -> (r: Vec<Highlight>)
    ensures
        r@.len() == 2,
        r@[0].label@ == "0"@,
        r@[0].color == (Color { red: 0, green: 255, blue: 0 }),
        r@[1].label@ == "3"@,
        r@[1].color == (Color { red: 255, green: 165, blue: 0 }),
{
    let mut r: Vec<Highlight> = Vec::new();
    r.push(Highlight { label: "0".to_owned(), color: Color { red: 0, green: 255, blue: 0 } });
    r.push(Highlight { label: "3".to_owned(), color: Color { red: 255, green: 165, blue: 0 } });
    r
}

/// Lists the rectangles to draw: each detection whose class label is among
/// `highlights`, in that highlight's color; detections of other classes
/// are skipped.
pub fn draw_predictions(detections: &Detections, model_config: &ModelConfig, highlights: &Vec<Highlight>) -> (r: Vec<Annotation>)
    ensures
        r@ == annotations_of(
            detections.detections@,
            model_config.class_names@,
            highlights@,
            detections.detections@.len(),
        ),
{
    let ds = &detections.detections;
    let names = &model_config.class_names;
    let mut out: Vec<Annotation> = Vec::new();
    let mut i: usize = 0;
    while i < ds.len()
        invariant
            i <= ds@.len(),
            out@ == annotations_of(ds@, names@, highlights@, i as nat),
        decreases ds@.len() - i,
    {
        let d = ds[i];
        if d.class < names.len() {
            match find_color(highlights, &names[d.class]) {
                Some(c) => out.push(Annotation { detection: d, color: c }),
                None => {},
            }
        }
        i = i + 1;
    }
    out
}

} // verus!
