//! Flattening of laid out text into paths, images and groups.

pub mod bitmap;
pub mod colr;
pub mod database;
pub mod face;
pub mod flatten;
pub mod flatten_laws;
pub mod float_bits;
pub mod hinting;
pub mod path;
pub mod pixels;
pub mod resolve;
pub mod svg;
pub mod tree;

pub use hinting::{
    FontHintingEngine, FontHintingOptions, FontHintingSmoothMode, FontHintingTarget,
};
