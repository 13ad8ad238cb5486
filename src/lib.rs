//! Turns a 64x64 skin texture into a 16x16 totem texture: an in-memory RGBA
//! canvas with alpha compositing, rectangular clears and blits, decoding from
//! and encoding to raw pixel buffers, and a fixed layout of blits.

pub mod canvas;
pub mod color;
pub mod layout;
pub mod pipeline;
pub mod raster;

