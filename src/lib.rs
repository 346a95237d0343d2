//! Single-image object detection core: output decoding, non-maximum
//! suppression, rescaling, configuration checks and input preparation,
//! all over fixed-point integers.
pub mod annotate;
pub mod detect;
pub mod error;
pub mod fixed;
pub mod model;
pub mod nms;
pub mod preprocess;
pub mod rescale;
pub mod service;
pub mod tensor;
