//! Core engine for comparing a function of a debug-instrumented binary
//! against the equivalent byte range of a reference binary: symbol
//! resolution from debug-metadata text, virtual-address translation,
//! address-anchored decoding, redacting formatter, and the alignment
//! pipeline that ties them together.

pub mod decode;
pub mod driver;
pub mod engine;
pub mod errors;
pub mod image;
pub mod offsets;
pub mod recompute;
pub mod render;
pub mod scan;
pub mod symbols;

pub use errors::CoreError;
pub use offsets::{is_vaild_number, parse_offset};
