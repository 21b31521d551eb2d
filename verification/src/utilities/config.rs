//! The configuration of a run and the rules it must meet.

use vstd::prelude::*;
use vstd::string::*;
use crate::scalar::Scalar;

verus! {

/// The configuration of a training run.
pub struct Configuration<T> {
    pub batch_size: usize,
    pub epochs: usize,
    pub learning_rate: T,
    pub optimizer: OptimizerConfig<T>,
    pub model: ModelConfig<T>,
    pub data: DataConfig,
    pub system: SystemConfig,
    pub parameters: Vec<(String, String)>,
}

pub struct OptimizerConfig<T> {
    pub name: String,
    pub momentum: Option<T>,
    pub beta1: Option<T>,
    pub beta2: Option<T>,
    pub weight_decay: Option<T>,
}

pub struct ModelConfig<T> {
    pub architecture: String,
    pub input_shape: Vec<usize>,
    pub num_classes: usize,
    pub hidden_layers: Vec<usize>,
    pub dropout_rate: Option<T>,
}

pub struct DataConfig {
    pub train_path: String,
    pub val_path: Option<String>,
    pub test_path: Option<String>,
    pub augmentation: bool,
    pub normalize: bool,
}

pub struct SystemConfig {
    pub num_workers: usize,
    pub device: String,
    pub precision: String,
    pub seed: Option<u64>,
}

/// What is wrong with a configuration.
#[derive(Clone, Copy, Debug, PartialEq, Eq, Structural)]
pub enum ConfigFault {
    BatchSize,
    LearningRate,
    InputShape,
    TrainPath,
}

impl ConfigFault {
    pub open spec fn text(self) -> Seq<char> {
        match self {
            ConfigFault::BatchSize => "Batch size must be greater than 0"@,
            ConfigFault::LearningRate => "Learning rate must be positive"@,
            ConfigFault::InputShape => "Input shape cannot be empty"@,
            ConfigFault::TrainPath => "Training data path does not exist"@,
        }
    }
}

impl<T: Scalar> Configuration<T> {
    /// The first fault of the configuration, if it has one: a batch size of
    /// zero, a learning rate that is zero or less, an empty input shape, or
    /// a training data path that does not exist.
    pub open spec fn fault(&self, train_path_exists: bool) -> Option<ConfigFault> {
        if self.batch_size == 0 {
            Some(ConfigFault::BatchSize)
        } else if T::zero_spec().exceeds_spec(self.learning_rate) || self.learning_rate.equals_spec(
            T::zero_spec(),
        ) {
            Some(ConfigFault::LearningRate)
        } else if self.model.input_shape@.len() == 0 {
            Some(ConfigFault::InputShape)
        } else if !train_path_exists {
            Some(ConfigFault::TrainPath)
        } else {
            None
        }
    }

    /// Checks the configuration; `train_path_exists` says whether the
    /// training data path was found. The error is the text of the first
    /// fault.
    pub fn validate(&self, train_path_exists: bool) -> (r: Result<(), String>)
        ensures
            match self.fault(train_path_exists) {
                Some(f) => r matches Err(m) && m@ == f.text(),
                None => r is Ok,
            },
    {
        if self.batch_size == 0 {
            return Err(String::from_str("Batch size must be greater than 0"));
        }
        if T::zero().exceeds(self.learning_rate) || self.learning_rate.equals(T::zero()) {
            return Err(String::from_str("Learning rate must be positive"));
        }
        if self.model.input_shape.len() == 0 {
            return Err(String::from_str("Input shape cannot be empty"));
        }
        if !train_path_exists {
            return Err(String::from_str("Training data path does not exist"));
        }
        Ok(())
    }
}

} // verus!
