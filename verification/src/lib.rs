//! Verified core of a background-removal pipeline.
//!
//! The library covers everything in the pipeline that computes: deciding
//! whether an input path names an image, decoding and resizing pixel data
//! (through trusted wrappers over the `image` crate), packing pixels into the
//! channel-first tensor layout the model expects, turning the model's output
//! into a mask, compositing the mask as an alpha channel over the original
//! pixels, encoding the result as PNG, and resolving an output path that does
//! not collide with an existing file.  The surrounding program performs the
//! file reads and writes and runs the inference session, and hands this
//! library plain values.

pub mod errors;
pub mod imageio;
pub mod pathres;
pub mod pipeline;
pub mod pixels;
