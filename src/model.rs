//! Detector configuration and the model's load / unload lifecycle.
use vstd::prelude::*;
use crate::error::DetectError;

verus! {

/// The detector configuration: the model file, the class labels (index =
/// class id) and the square input side of the network.
pub struct ModelConfig {
    pub model_path: String,
    pub class_names: Vec<String>,
    pub input_size: i32,
}

/// At least one class and a positive input side.
pub open spec fn config_valid(c: ModelConfig) -> bool {
    c.class_names@.len() > 0 && c.input_size > 0
}

/// A loaded network together with its configuration.
pub struct Model<E> {
    pub model: E,
    pub model_config: ModelConfig,
}

/// Checks a configuration that was read: it is malformed without classes
/// or without a positive input side, and its model file must exist
/// (`artifact_exists` says whether it does). No partial configuration is
/// ever returned.
pub fn load_model_from_config(config: ModelConfig, artifact_exists: bool) -> (r: Result<ModelConfig, DetectError>)
    ensures
        !config_valid(config) ==> r == Err::<ModelConfig, DetectError>(DetectError::ConfigMalformed),
        config_valid(config) && !artifact_exists ==> r == Err::<ModelConfig, DetectError>(DetectError::ModelArtifactMissing),
        config_valid(config) && artifact_exists ==> r is Ok,
        r matches Ok(c) ==> c == config,
{
    if config.class_names.len() == 0 || config.input_size <= 0 {
        return Err(DetectError::ConfigMalformed);
    }
    if !artifact_exists {
        return Err(DetectError::ModelArtifactMissing);
    }
    Ok(config)
}

/// The one model of a detection service: unloaded, or loaded with its
/// network and configuration.
pub struct ModelSlot<E> {
    pub loaded: Option<Model<E>>,
}

impl<E> ModelSlot<E> {
    /// An unloaded slot.
    pub fn new() -> (r: Self)
        ensures
            r.loaded is None,
    {
        ModelSlot { loaded: None }
    }

    /// Whether a model is loaded.
    pub fn is_loaded(&self) -> (r: bool)
        ensures
            r == self.loaded is Some,
    {
        self.loaded.is_some()
    }

    /// Drops the loaded model, if any.
    pub fn unload(&mut self)
        ensures
            final(self).loaded is None,
    {
        self.loaded = None;
    }

    /// Loads a model: unloads first, then checks the configuration as
    /// `load_model_from_config` does, and takes the network bound to it
    /// (`None` when binding failed, `ModelLoadFailed`). On any failure the
    /// slot stays unloaded.
    pub fn load_model(&mut self, config: ModelConfig, artifact_exists: bool, network: Option<E>) -> (r: Result<(), DetectError>)
        ensures
            !config_valid(config) ==> r == Err::<(), DetectError>(DetectError::ConfigMalformed),
            config_valid(config) && !artifact_exists ==> r == Err::<(), DetectError>(DetectError::ModelArtifactMissing),
            config_valid(config) && artifact_exists && network is None ==> r == Err::<(), DetectError>(DetectError::ModelLoadFailed),
            config_valid(config) && artifact_exists && network is Some ==> r is Ok,
            r is Err ==> final(self).loaded is None,
            r is Ok ==> final(self).loaded == Some(Model { model: network->0, model_config: config }),
    {
        self.loaded = None;
        let config = match load_model_from_config(config, artifact_exists) {
            Ok(c) => c,
            Err(e) => return Err(e),
        };
        match network {
            Some(n) => {
                self.loaded = Some(Model { model: n, model_config: config });
                Ok(())
            },
            None => Err(DetectError::ModelLoadFailed),
        }
    }
}

} // verus!
