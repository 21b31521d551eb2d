//! Data: batches, augmentation, and the parts of image decoding that work
//! on bytes and bits.

pub mod augmentation;
pub mod bit_reader;
pub mod dataloader;
pub mod image_folder;
pub mod jpeg;
pub mod segments;
