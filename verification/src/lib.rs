//! A retained-mode pixel compositor for a small raster display: pixel
//! buffers over two colour encodings, a tree of gadgets with dirty
//! tracking, compositing of rasterised text, and display backends.

pub mod buffer;
pub mod color;
pub mod frame;
pub mod gadget;
pub mod glyph;
pub mod hardware;
pub mod screen;
