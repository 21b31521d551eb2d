//! The bookkeeping of a training run.

pub mod checkpoint;
pub mod history;
pub mod trainer;
pub mod validator;
