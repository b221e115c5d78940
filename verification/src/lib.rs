//! A small 2D rasterization library: an in-memory pixel buffer with a
//! color-space-aware byte layout, simple shape primitives, and verified
//! fill/outline algorithms that render those shapes into the buffer.

pub mod draw;
pub mod isqrt;
pub mod layout;
pub mod shapes;
