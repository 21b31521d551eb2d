//! Models composed of layers.

pub mod assign;
pub mod models;
pub mod resnet;
pub mod sequential;
pub mod state;
pub mod vgg;
