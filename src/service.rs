//! One detection request: preparation, the network, and post-processing.
use vstd::prelude::*;
use crate::detect::{CONFIDENCE_FLOOR, Detections, boxes_of, post_process};
use crate::error::DetectError;
use crate::model::{Model, ModelSlot, config_valid};
use crate::nms::is_greedy_selection;
use crate::preprocess::{Image, InputTensor, image_valid, prepare, square_side, geometry_of};
use crate::tensor::{OutputTensor, decoded, well_shaped};

verus! {

/// The network: runs on a prepared input tensor and hands back its first
/// raw output tensor, or the failure it met.
pub trait InferenceExecutor {
    fn run(&mut self, input: &InputTensor) -> Result<OutputTensor, DetectError>;
}

/// The images whose sizes `detect` can prepare for a model of side
/// `input_size`: the buffers involved fit in memory.
pub open spec fn image_fits(img: Image, input_size: i32) -> bool {
    &&& image_valid(img)
    &&& img.width <= i32::MAX
    &&& img.height <= i32::MAX
    &&& square_side(img) * input_size * 16 <= isize::MAX
    &&& input_size * input_size * 16 <= isize::MAX
    &&& square_side(img) * square_side(img) * 3 <= usize::MAX
}

/// What a detection result is, given the tensor the network returned: the
/// greedy suppression of its decoded candidates, mapped to the image.
pub open spec fn detections_from(
    t: OutputTensor,
    img: Image,
    input_size: i32,
    conf_thresh: i32,
    nms_thresh: i32,
    d: Seq<crate::detect::BoxDetection>,
) -> bool {
    &&& well_shaped(t.dims@, t.data@.len() as int)
    &&& exists|keep: Seq<usize>|
        is_greedy_selection(decoded(t, CONFIDENCE_FLOOR), conf_thresh, nms_thresh, keep)
            && d == boxes_of(decoded(t, CONFIDENCE_FLOOR), keep, geometry_of(img, input_size))
}

/// Runs one detection: prepares the image, runs the network on it and
/// post-processes what it returned. An empty image is `InvalidImage`;
/// a failure of the network is passed on; an output tensor of the wrong
/// shape is `MalformedOutputTensor`. The configuration is left as it was.
pub fn detect<E: InferenceExecutor>(model_data: &mut Model<E>, img: &Image, conf_thresh: i32, nms_thresh: i32) -> (r: Result<Detections, DetectError>)
    requires
        config_valid(old(model_data).model_config),
        image_fits(*img, old(model_data).model_config.input_size),
    ensures
        final(model_data).model_config == old(model_data).model_config,
        (img.width == 0 || img.height == 0) ==> r == Err::<Detections, DetectError>(DetectError::InvalidImage),
        r matches Ok(d) ==> exists|t: OutputTensor|
            detections_from(t, *img, old(model_data).model_config.input_size, conf_thresh, nms_thresh, d.detections@),
{
    let input_size = model_data.model_config.input_size;
    let (input, info) = match prepare(img, input_size) {
        Ok(p) => p,
        Err(e) => return Err(e),
    };
    let outs = match model_data.model.run(&input) {
        Ok(t) => t,
        Err(e) => return Err(e),
    };
    let r = post_process(&outs, &info, conf_thresh, nms_thresh);
    proof {
        if r is Ok {
            assert(detections_from(outs, *img, input_size, conf_thresh, nms_thresh, r->Ok_0.detections@));
        }
    }
    r
}

impl<E: InferenceExecutor> ModelSlot<E> {
    /// Runs one detection on the loaded model; `ModelNotLoaded` when there
    /// is none. The slot stays loaded, with the same configuration.
    pub fn detect(&mut self, img: &Image, conf_thresh: i32, nms_thresh: i32) -> (r: Result<Detections, DetectError>)
        requires
            old(self).loaded matches Some(m) ==> config_valid(m.model_config) && image_fits(*img, m.model_config.input_size),
        ensures
            old(self).loaded is None ==> r == Err::<Detections, DetectError>(DetectError::ModelNotLoaded)
                && final(self).loaded is None,
            old(self).loaded matches Some(m) ==> {
                &&& final(self).loaded matches Some(f) && f.model_config == m.model_config
                &&& (img.width == 0 || img.height == 0) ==> r == Err::<Detections, DetectError>(DetectError::InvalidImage)
                &&& r matches Ok(d) ==> exists|t: OutputTensor|
                    detections_from(t, *img, m.model_config.input_size, conf_thresh, nms_thresh, d.detections@)
            },
    {
        match self.loaded.take() {
            None => Err(DetectError::ModelNotLoaded),
            Some(mut m) => {
                let r = detect(&mut m, img, conf_thresh, nms_thresh);
                self.loaded = Some(m);
                r
            },
        }
    }
}

} // verus!
