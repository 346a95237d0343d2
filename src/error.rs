//! The failures that detection and model loading report.
use vstd::prelude::*;

verus! {

/// A typed failure; none of them ends the process.
#[derive(Clone, Copy, Debug, PartialEq, Eq, Structural)]
pub enum DetectError {
    ConfigNotFound,
    ConfigMalformed,
    ModelArtifactMissing,
    ModelLoadFailed,
    InvalidImage,
    MalformedOutputTensor,
    NoImageLoaded,
    ModelNotLoaded,
}

impl DetectError {
    /// A human-readable description of the failure.
    pub fn message(&self) -> (r: &'static str) {
        match self {
            DetectError::ConfigNotFound => "configuration file does not exist",
            DetectError::ConfigMalformed => "configuration is malformed",
            DetectError::ModelArtifactMissing => "model file does not exist",
            DetectError::ModelLoadFailed => "model could not be loaded",
            DetectError::InvalidImage => "image is invalid or empty",
            DetectError::MalformedOutputTensor => "network output has an unexpected shape",
            DetectError::NoImageLoaded => "no image is loaded",
            DetectError::ModelNotLoaded => "no model is loaded",
        }
    }
}

} // verus!
