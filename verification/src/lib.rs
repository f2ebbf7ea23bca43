//! A frame-driven canvas animation: a software rasterizer for filled
//! rectangles over an RGBA pixel buffer, and the per-frame decisions of
//! the animation that draws with it.

pub mod animation;
pub mod color;
pub mod draw;
pub mod heading;
pub mod primitives;
pub mod web_init;
