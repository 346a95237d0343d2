use yolo_detect::annotate::{default_highlights, draw_predictions, Color};
use yolo_detect::detect::{post_process, to_box, BoxDetection, Detections, CONFIDENCE_FLOOR};
use yolo_detect::error::DetectError;
use yolo_detect::fixed::{round_div_exec, FIXED_ONE};
use yolo_detect::model::{load_model_from_config, Model, ModelConfig, ModelSlot};
use yolo_detect::nms::{overlap_exceeds, suppress};
use yolo_detect::preprocess::{pre_process, prepare, to_planar, Image, InputTensor};
use yolo_detect::rescale::{rescale, MatInfo, PixelRect};
use yolo_detect::service::{detect, InferenceExecutor};
use yolo_detect::tensor::{decode, OutputTensor, RawCandidate};

fn fx(v: i32) -> i32 {
    v * FIXED_ONE
}

/// Builds a `[1, 4 + C, A]` tensor from per-anchor rows `[cx, cy, w, h, conf...]`.
fn tensor(rows: &[Vec<i32>]) -> OutputTensor {
    let anchors = rows.len();
    let channels = rows[0].len();
    let mut data = vec![0i32; channels * anchors];
    for (a, row) in rows.iter().enumerate() {
        for (c, v) in row.iter().enumerate() {
            data[c * anchors + a] = *v;
        }
    }
    OutputTensor { dims: vec![1, channels, anchors], data }
}

fn cand(cx: i32, cy: i32, w: i32, h: i32, class_index: usize, confidence: i32) -> RawCandidate {
    RawCandidate { center_x: fx(cx), center_y: fx(cy), width: fx(w), height: fx(h), class_index, confidence }
}

fn square(side: i32, input: i32) -> MatInfo {
    MatInfo { width: side, height: side, model_side: side, input_size: input }
}

fn config(classes: &[&str], input_size: i32) -> ModelConfig {
    ModelConfig {
        model_path: "model.onnx".to_string(),
        class_names: classes.iter().map(|s| s.to_string()).collect(),
        input_size,
    }
}

#[test]
fn prepare_has_input_side_and_padded_geometry() {
    let img = Image { width: 4, height: 2, pixels: vec![200u8; 4 * 2 * 3] };
    let (t, info) = prepare(&img, 8).unwrap();
    assert_eq!(t.side, 8);
    assert_eq!(t.data.len(), 3 * 8 * 8);
    assert_eq!(info, MatInfo { width: 4, height: 2, model_side: 4, input_size: 8 });
    let tall = Image { width: 3, height: 5, pixels: vec![0u8; 3 * 5 * 3] };
    let (_, info) = prepare(&tall, 4).unwrap();
    assert_eq!(info.model_side, 5);
}

#[test]
fn prepare_resizes_the_padded_square() {
    let img = Image { width: 2, height: 2, pixels: vec![255u8; 12] };
    let (t, _) = prepare(&img, 4).unwrap();
    assert_eq!(t.data.len(), 48);
    assert!(t.data.iter().all(|v| *v == FIXED_ONE));
}

#[test]
fn prepare_rejects_empty_image() {
    let img = Image { width: 0, height: 3, pixels: vec![] };
    assert_eq!(prepare(&img, 4).err(), Some(DetectError::InvalidImage));
}

#[test]
fn padding_is_top_left() {
    let img = Image { width: 2, height: 1, pixels: vec![1, 2, 3, 4, 5, 6] };
    let padded = pre_process(&img);
    assert_eq!(padded, vec![1, 2, 3, 4, 5, 6, 0, 0, 0, 0, 0, 0]);
}

#[test]
fn planar_normalizes_and_splits_channels() {
    let src = vec![255u8, 0, 51, 0, 255, 102];
    let out = to_planar(&src, 2);
    assert_eq!(out, vec![10000, 0, 0, 10000, 2000, 4000]);
}

#[test]
fn decode_below_floor_is_empty() {
    let t = tensor(&[
        vec![fx(10), fx(10), fx(5), fx(5), 2000, 2500],
        vec![fx(20), fx(20), fx(5), fx(5), 100, 0],
        vec![fx(30), fx(30), fx(5), fx(5), -5, 2499],
    ]);
    assert_eq!(decode(&t, CONFIDENCE_FLOOR).unwrap().len(), 0);
}

#[test]
fn decode_picks_best_class_lowest_on_ties() {
    let t = tensor(&[
        vec![fx(10), fx(11), fx(5), fx(6), 3000, 7000, 7000],
        vec![fx(20), fx(20), fx(5), fx(5), 100, 0, 0],
    ]);
    let c = decode(&t, CONFIDENCE_FLOOR).unwrap();
    assert_eq!(c, vec![cand(10, 11, 5, 6, 1, 7000)]);
}

#[test]
fn decode_rejects_malformed_shape() {
    let t = OutputTensor { dims: vec![1, 6, 3], data: vec![0; 17] };
    assert_eq!(decode(&t, CONFIDENCE_FLOOR).err(), Some(DetectError::MalformedOutputTensor));
    let t = OutputTensor { dims: vec![6, 3], data: vec![0; 18] };
    assert_eq!(decode(&t, CONFIDENCE_FLOOR).err(), Some(DetectError::MalformedOutputTensor));
    let t = OutputTensor { dims: vec![1, 4, 3], data: vec![0; 12] };
    assert_eq!(decode(&t, CONFIDENCE_FLOOR).err(), Some(DetectError::MalformedOutputTensor));
}

#[test]
fn post_process_malformed_tensor() {
    let t = OutputTensor { dims: vec![2, 6, 1], data: vec![0; 12] };
    assert_eq!(post_process(&t, &square(640, 640), 5000, 5000).err(), Some(DetectError::MalformedOutputTensor));
}

#[test]
fn suppress_keeps_short_non_overlapping_list() {
    let cands = vec![
        cand(100, 100, 50, 50, 0, 8000),
        cand(102, 101, 50, 50, 0, 9000),
        cand(300, 300, 40, 40, 1, 7000),
        cand(301, 300, 40, 40, 1, 6000),
        cand(500, 500, 10, 10, 2, 4000),
    ];
    let keep = suppress(&cands, 5000, 5000);
    assert_eq!(keep, vec![1, 2]);
    assert!(keep.len() <= cands.len());
    for a in 0..keep.len() {
        for b in 0..keep.len() {
            if a != b {
                assert!(!overlap_exceeds(&cands[keep[a]], &cands[keep[b]], 5000));
            }
        }
    }
}

#[test]
fn suppress_at_threshold_keeps_both() {
    // Two 20x10 boxes sharing a 10x10 square: IoU is exactly 1/3.
    let a = cand(10, 5, 20, 10, 0, 9000);
    let b = cand(20, 5, 20, 10, 0, 8000);
    assert!(!overlap_exceeds(&a, &b, 3334));
    assert!(overlap_exceeds(&a, &b, 3333));
    assert_eq!(suppress(&vec![a, b], 5000, 3334), vec![0, 1]);
    assert_eq!(suppress(&vec![a, b], 5000, 3333), vec![0]);
}

#[test]
fn suppress_equal_confidence_prefers_lower_index() {
    let cands = vec![cand(100, 100, 50, 50, 0, 8000), cand(101, 100, 50, 50, 0, 8000)];
    assert_eq!(suppress(&cands, 5000, 5000), vec![0]);
}

#[test]
fn suppress_applies_confidence_threshold() {
    let cands = vec![cand(100, 100, 50, 50, 0, 5000), cand(300, 300, 50, 50, 0, 5001)];
    assert_eq!(suppress(&cands, 5000, 5000), vec![1]);
    assert_eq!(suppress(&vec![], 5000, 5000), Vec::<usize>::new());
}

#[test]
fn rescale_identity_and_double() {
    let c = cand(50, 50, 20, 20, 0, 9000);
    assert_eq!(rescale(&c, &square(640, 640)), PixelRect { x: 40, y: 40, width: 20, height: 20 });
    assert_eq!(rescale(&c, &square(1280, 640)), PixelRect { x: 80, y: 80, width: 40, height: 40 });
}

#[test]
fn rescale_rounds_half_away_from_zero() {
    // At scale 2, x = 0.25 and y = -0.25 become 0.5 and -0.5 before rounding.
    let c = RawCandidate { center_x: 10000, center_y: 5000, width: 15000, height: 15000, class_index: 0, confidence: 9000 };
    let r = rescale(&c, &MatInfo { width: 8, height: 4, model_side: 8, input_size: 4 });
    assert_eq!(r, PixelRect { x: 1, y: -1, width: 3, height: 3 });
    assert_eq!(round_div_exec(-5, 2), -3);
    assert_eq!(round_div_exec(5, 2), 3);
    assert_eq!(round_div_exec(4, 3), 1);
}

#[test]
fn to_box_clamps_to_image() {
    let c = cand(5, 95, 20, 20, 2, 9000);
    let b = to_box(&c, &MatInfo { width: 100, height: 100, model_side: 100, input_size: 100 });
    assert_eq!(b, BoxDetection { xmin: 0, ymin: 85, xmax: 15, ymax: 100, class: 2, conf: 9000 });
}

#[test]
fn end_to_end_single_anchor() {
    let t = tensor(&[
        vec![fx(100), fx(100), fx(50), fx(50), 9000, 1000, 500],
        vec![fx(400), fx(400), fx(30), fx(30), 1000, 2000, 100],
        vec![fx(200), fx(300), fx(30), fx(30), 0, 0, 2400],
    ]);
    let d = post_process(&t, &square(640, 640), 5000, 5000).unwrap();
    assert_eq!(d.detections, vec![BoxDetection { xmin: 75, ymin: 75, xmax: 125, ymax: 125, class: 0, conf: 9000 }]);
}

#[test]
fn cross_class_suppression() {
    let t = tensor(&[
        vec![fx(100), fx(100), fx(50), fx(50), 9000, 0],
        vec![fx(101), fx(100), fx(50), fx(50), 0, 6000],
    ]);
    let d = post_process(&t, &square(640, 640), 5000, 5000).unwrap();
    assert_eq!(d.detections.len(), 1);
    assert_eq!(d.detections[0].conf, 9000);
    assert_eq!(d.detections[0].class, 0);
}

#[test]
fn load_with_missing_artifact_stays_unloaded() {
    let mut slot: ModelSlot<u8> = ModelSlot::new();
    let r = slot.load_model(config(&["person"], 640), false, Some(1));
    assert_eq!(r, Err(DetectError::ModelArtifactMissing));
    assert!(!slot.is_loaded());
}

#[test]
fn load_errors_and_success() {
    let mut slot: ModelSlot<u8> = ModelSlot::new();
    assert_eq!(slot.load_model(config(&[], 640), true, Some(1)), Err(DetectError::ConfigMalformed));
    assert_eq!(slot.load_model(config(&["a"], 0), true, Some(1)), Err(DetectError::ConfigMalformed));
    assert_eq!(slot.load_model(config(&["a"], 640), true, None), Err(DetectError::ModelLoadFailed));
    assert!(!slot.is_loaded());
    assert_eq!(slot.load_model(config(&["a"], 640), true, Some(7)), Ok(()));
    assert!(slot.is_loaded());
    assert_eq!(slot.loaded.as_ref().unwrap().model, 7);
    assert_eq!(slot.load_model(config(&["a"], 640), false, Some(8)), Err(DetectError::ModelArtifactMissing));
    assert!(!slot.is_loaded());
    slot.unload();
    assert!(!slot.is_loaded());
}

#[test]
fn config_check() {
    assert!(load_model_from_config(config(&["a", "b"], 320), true).is_ok());
    assert_eq!(load_model_from_config(config(&["a"], -1), true).err(), Some(DetectError::ConfigMalformed));
    assert_eq!(load_model_from_config(config(&["a"], 320), false).err(), Some(DetectError::ModelArtifactMissing));
}

struct Canned {
    out: Result<OutputTensor, DetectError>,
    seen_side: u32,
}

impl InferenceExecutor for Canned {
    fn run(&mut self, input: &InputTensor) -> Result<OutputTensor, DetectError> {
        self.seen_side = input.side;
        match &self.out {
            Ok(t) => Ok(OutputTensor { dims: t.dims.clone(), data: t.data.clone() }),
            Err(e) => Err(*e),
        }
    }
}

#[test]
fn detect_with_canned_network() {
    let t = tensor(&[vec![fx(32), fx(32), fx(16), fx(16), 8000, 0]]);
    let mut m = Model { model: Canned { out: Ok(t), seen_side: 0 }, model_config: config(&["0", "1"], 64) };
    let img = Image { width: 128, height: 64, pixels: vec![10u8; 128 * 64 * 3] };
    let d = detect(&mut m, &img, 5000, 5000).unwrap();
    assert_eq!(m.model.seen_side, 64);
    assert_eq!(d.detections, vec![BoxDetection { xmin: 48, ymin: 48, xmax: 80, ymax: 64, class: 0, conf: 8000 }]);
    let empty = Image { width: 0, height: 0, pixels: vec![] };
    assert_eq!(detect(&mut m, &empty, 5000, 5000).err(), Some(DetectError::InvalidImage));
    m.model.out = Err(DetectError::ModelLoadFailed);
    assert_eq!(detect(&mut m, &img, 5000, 5000).err(), Some(DetectError::ModelLoadFailed));
}

#[test]
fn slot_detect_requires_loaded_model() {
    let mut slot: ModelSlot<Canned> = ModelSlot::new();
    let img = Image { width: 1, height: 1, pixels: vec![0u8; 3] };
    assert_eq!(slot.detect(&img, 5000, 5000).err(), Some(DetectError::ModelNotLoaded));
    let bad = OutputTensor { dims: vec![1, 3, 1], data: vec![0; 3] };
    slot.load_model(config(&["a"], 8), true, Some(Canned { out: Ok(bad), seen_side: 0 })).unwrap();
    assert_eq!(slot.detect(&img, 5000, 5000).err(), Some(DetectError::MalformedOutputTensor));
    assert!(slot.is_loaded());
}

#[test]
fn draw_only_highlighted_classes() {
    let b = |class: usize| BoxDetection { xmin: 1, ymin: 2, xmax: 3, ymax: 4, class, conf: 9000 };
    let dets = Detections { detections: vec![b(0), b(1), b(3), b(9)] };
    let cfg = config(&["0", "1", "2", "3"], 640);
    let plan = draw_predictions(&dets, &cfg, &default_highlights());
    assert_eq!(plan.len(), 2);
    assert_eq!(plan[0].detection, b(0));
    assert_eq!(plan[0].color, Color { red: 0, green: 255, blue: 0 });
    assert_eq!(plan[1].detection, b(3));
    assert_eq!(plan[1].color, Color { red: 255, green: 165, blue: 0 });
}

#[test]
fn error_messages() {
    assert_eq!(DetectError::ModelNotLoaded.message(), "no model is loaded");
    assert_eq!(DetectError::InvalidImage.message(), "image is invalid or empty");
}
