//! An engine that renders raster images as monospace "ASCII art" text.
//!
//! The library covers the deterministic pixel-to-glyph mapping, the
//! aspect-correcting resize pipeline, the batch plan that turns a directory
//! listing into an ordered list of frames, and the output-directory
//! reconciliation rules. File and terminal I/O, prompting and process
//! invocation live outside the library and hand it plain values.

pub mod batch;
pub mod config;
pub mod errors;
pub mod glyph;
pub mod names;
pub mod order;
pub mod outsync;
pub mod raster;
pub mod transcode;
