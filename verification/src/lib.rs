//! A licence-gated pipeline that turns an image into a structured analysis
//! with the help of a vision-capable language model.
//!
//! The crate holds the decisions of the pipeline: who may use it, to which
//! size an image is brought, what the model is asked, and how its answer is
//! read. Requests to the network, to the model and to the disk are made by
//! the caller, between the steps that this crate decides.

pub mod decode;
pub mod geometry;
pub mod json;
pub mod json_text;
pub mod keygen;
pub mod models;
pub mod output;
pub mod pipeline;
pub mod preprocess;
pub mod prompt;
pub mod schema;
pub mod text;
pub mod util;
pub mod vision_license;
