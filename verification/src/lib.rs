//! A deep-learning framework whose arithmetic is stated and proved: tensors
//! with reverse-mode differentiation, layers, losses, optimizers and the
//! models composed of them.
//!
//! Every function is generic over the element type, a [`scalar::Scalar`]:
//! its contract says which elements come out, as a term over the operations
//! of the element type, in the order in which the code accumulates them.
//! What is proved therefore holds of every element type, whatever its
//! arithmetic rounds or wraps. Randomness and the transcendental functions
//! come from outside, through [`scalar::RandomSource`] and
//! [`scalar::Transcendental`]; contracts say what holds whatever they return.
//!
//! A tensor, a layer, a model and an optimizer each have a well-formedness
//! predicate `wf`, which constructors establish and methods preserve. For
//! tensors, layers and models a function `is_wf` decides it at run time.

pub mod autograd;
pub mod data;
pub mod device;
pub mod dtype;
pub mod error;
pub mod kernels;
pub mod layer;
pub mod loss;
pub mod models;
pub mod optim;
pub mod scalar;
pub mod shape;
pub mod tensor;
pub mod training;
pub mod utilities;
