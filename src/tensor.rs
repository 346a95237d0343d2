//! The raw output tensor of the detector network and its decoding into
//! candidate boxes.
use vstd::prelude::*;
use crate::error::DetectError;

verus! {

/// A raw output tensor: shape `dims` over a flat row-major buffer of
/// fixed-point values. A well-formed one has shape `[1, 4 + C, A]`.
pub struct OutputTensor {
    pub dims: Vec<usize>,
    pub data: Vec<i32>,
}

/// One anchor's decoded output, in model input space (fixed-point).
#[derive(Clone, Copy, Debug, PartialEq, Eq, Structural)]
pub struct RawCandidate {
    pub center_x: i32,
    pub center_y: i32,
    pub width: i32,
    pub height: i32,
    pub class_index: usize,
    pub confidence: i32,
}

/// The shape `[1, 4 + C, A]` with at least one class, over a buffer of
/// exactly `(4 + C) * A` values.
pub open spec fn well_shaped(dims: Seq<usize>, len: int) -> bool {
    &&& dims.len() == 3
    &&& dims[0] == 1
    &&& dims[1] >= 5
    &&& len == dims[1] as int * dims[2] as int
}

/// The value of channel `c` for anchor `a`.
pub open spec fn value_at(data: Seq<i32>, anchors: int, c: int, a: int) -> i32 {
    data[c * anchors + a]
}

/// The best class among the first `k` classes of anchor `a`: the one of
/// largest confidence, the lowest index on ties.
pub open spec fn best_class(data: Seq<i32>, anchors: int, a: int, k: nat) -> nat
    decreases k,
{
    if k <= 1 {
        0
    } else {
        let b = best_class(data, anchors, a, (k - 1) as nat);
        if value_at(data, anchors, 4 + k - 1, a) > value_at(data, anchors, 4 + b as int, a) {
            (k - 1) as nat
        } else {
            b
        }
    }
}

/// The candidate that anchor `a` yields over `classes` classes.
pub open spec fn candidate_of(data: Seq<i32>, anchors: int, classes: nat, a: int) -> RawCandidate {
    let b = best_class(data, anchors, a, classes);
    RawCandidate {
        center_x: value_at(data, anchors, 0, a),
        center_y: value_at(data, anchors, 1, a),
        width: value_at(data, anchors, 2, a),
        height: value_at(data, anchors, 3, a),
        class_index: b as usize,
        confidence: value_at(data, anchors, 4 + b as int, a),
    }
}

/// The candidates of anchors `0..n` whose confidence exceeds `floor`, in
/// anchor order.
pub open spec fn decoded_prefix(data: Seq<i32>, anchors: int, classes: nat, floor: i32, n: nat) -> Seq<RawCandidate>
    decreases n,
{
    if n == 0 {
        Seq::empty()
    } else {
        let prev = decoded_prefix(data, anchors, classes, floor, (n - 1) as nat);
        let c = candidate_of(data, anchors, classes, n - 1);
        if c.confidence > floor {
            prev.push(c)
        } else {
            prev
        }
    }
}

/// What a well-shaped tensor decodes to.
pub open spec fn decoded(t: OutputTensor, floor: i32) -> Seq<RawCandidate> {
    decoded_prefix(t.data@, t.dims@[2] as int, (t.dims@[1] - 4) as nat, floor, t.dims@[2] as nat)
}

proof fn lemma_best_class_below(data: Seq<i32>, anchors: int, a: int, k: nat)
    requires
        k >= 1,
    ensures
        best_class(data, anchors, a, k) < k,
    decreases k,
{
    if k > 1 {
        lemma_best_class_below(data, anchors, a, (k - 1) as nat);
    }
}

/// A tensor in which every class confidence of every anchor is below
/// `floor` decodes to no candidate.
pub proof fn lemma_decode_below_floor(t: OutputTensor, floor: i32)
    requires
        well_shaped(t.dims@, t.data@.len() as int),
        forall|c: int, a: int|
            4 <= c < t.dims@[1] && 0 <= a < t.dims@[2] ==> value_at(t.data@, t.dims@[2] as int, c, a) < floor,
    ensures
        decoded(t, floor).len() == 0,
{
    lemma_prefix_below_floor(t, floor, t.dims@[2] as nat);
}

proof fn lemma_prefix_below_floor(t: OutputTensor, floor: i32, n: nat)
    requires
        well_shaped(t.dims@, t.data@.len() as int),
        n <= t.dims@[2],
        forall|c: int, a: int|
            4 <= c < t.dims@[1] && 0 <= a < t.dims@[2] ==> value_at(t.data@, t.dims@[2] as int, c, a) < floor,
    ensures
        decoded_prefix(t.data@, t.dims@[2] as int, (t.dims@[1] - 4) as nat, floor, n).len() == 0,
    decreases n,
{
    if n > 0 {
        lemma_prefix_below_floor(t, floor, (n - 1) as nat);
        lemma_best_class_below(t.data@, t.dims@[2] as int, n - 1, (t.dims@[1] - 4) as nat);
    }
}

proof fn lemma_index_in_bounds(c: int, a: int, channels: int, anchors: int)
    requires
        0 <= c < channels,
        0 <= a < anchors,
    ensures
        0 <= c * anchors + a < channels * anchors,
{
    assert(0 <= c * anchors) by (nonlinear_arith)
        requires 0 <= c, 0 <= anchors;
    assert((c + 1) * anchors <= channels * anchors) by (nonlinear_arith)
        requires c + 1 <= channels, 0 <= anchors;
    assert((c + 1) * anchors == c * anchors + anchors) by (nonlinear_arith);
}

impl OutputTensor {
    /// Reads channel `c` of anchor `a`.
    pub fn at(&self, c: usize, a: usize) -> (r: i32)
        requires
            well_shaped(self.dims@, self.data@.len() as int),
            c < self.dims@[1],
            a < self.dims@[2],
        ensures
            r == value_at(self.data@, self.dims@[2] as int, c as int, a as int),
    {
        proof {
            lemma_index_in_bounds(c as int, a as int, self.dims@[1] as int, self.dims@[2] as int);
        }
        let len = self.data.len();
        assert(c * self.dims@[2] + a < len);
        self.data[c * self.dims[2] + a]
    }

    /// Whether the tensor has the shape `[1, 4 + C, A]`, `C >= 1`, over a
    /// buffer of the matching length.
    pub fn is_well_shaped(&self) -> (r: bool)
        ensures
            r == well_shaped(self.dims@, self.data@.len() as int),
    {
        let len = self.data.len();
        if self.dims.len() != 3 || self.dims[0] != 1 || self.dims[1] < 5 {
            return false;
        }
        match self.dims[1].checked_mul(self.dims[2]) {
            Some(n) => n == len,
            None => false,
        }
    }

    /// The best class of anchor `a` and its confidence.
    fn best_of_anchor(&self, a: usize) -> (r: (usize, i32))
        requires
            well_shaped(self.dims@, self.data@.len() as int),
            a < self.dims@[2],
        ensures
            ({
                let b = best_class(self.data@, self.dims@[2] as int, a as int, (self.dims@[1] - 4) as nat);
                r.0 == b && r.1 == value_at(self.data@, self.dims@[2] as int, 4 + b as int, a as int)
            }),
    {
        let classes = self.dims[1] - 4;
        let ghost anchors = self.dims@[2] as int;
        let mut best: usize = 0;
        let mut best_value = self.at(4, a);
        let mut k: usize = 1;
        while k < classes
            invariant
                well_shaped(self.dims@, self.data@.len() as int),
                anchors == self.dims@[2],
                a < self.dims@[2],
                classes == self.dims@[1] - 4,
                1 <= k <= classes,
                best == best_class(self.data@, anchors, a as int, k as nat),
                best < k,
                best_value == value_at(self.data@, anchors, 4 + best, a as int),
            decreases classes - k,
        {
            let v = self.at(4 + k, a);
            if v > best_value {
                best = k;
                best_value = v;
            }
            k = k + 1;
        }
        (best, best_value)
    }
}

/// Decodes a well-shaped tensor: for each anchor in order, its best class
/// (the lowest index on ties) and that class's confidence; the anchor is
/// kept when the confidence exceeds `floor`. Any other shape is
/// `MalformedOutputTensor`.
pub fn decode(t: &OutputTensor, floor: i32) -> (r: Result<Vec<RawCandidate>, DetectError>)
    ensures
        r is Err <==> !well_shaped(t.dims@, t.data@.len() as int),
        r matches Err(e) ==> e == DetectError::MalformedOutputTensor,
        r matches Ok(v) ==> v@ == decoded(*t, floor),
{
    if !t.is_well_shaped() {
        return Err(DetectError::MalformedOutputTensor);
    }
    let anchors = t.dims[2];
    let ghost classes = (t.dims@[1] - 4) as nat;
    let mut out: Vec<RawCandidate> = Vec::new();
    let mut a: usize = 0;
    while a < anchors
        invariant
            well_shaped(t.dims@, t.data@.len() as int),
            anchors == t.dims@[2],
            classes == t.dims@[1] - 4,
            a <= anchors,
            out@ == decoded_prefix(t.data@, anchors as int, classes, floor, a as nat),
        decreases anchors - a,
    {
        let (best, conf) = t.best_of_anchor(a);
        if conf > floor {
            let c = RawCandidate {
                center_x: t.at(0, a),
                center_y: t.at(1, a),
                width: t.at(2, a),
                height: t.at(3, a),
                class_index: best,
                confidence: conf,
            };
            out.push(c);
        }
        a = a + 1;
    }
    Ok(out)
}

} // verus!
