//! Verified core of an image-embedding command line tool: argument rules,
//! tensor-shape checks, pooling plans, image geometry, model-file resolution
//! and result ranking. Inference, file access and floating-point arithmetic
//! live in the application crate around this library.

pub mod text;
pub mod json;
pub mod cli;
pub mod rank;
pub mod images;
pub mod backend;
pub mod math;
pub mod resolve;
pub mod preprocess;
pub mod commands;
