//! Utilities beside the pipeline.

pub mod memory;
