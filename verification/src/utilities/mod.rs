//! Configuration.

pub mod config;
