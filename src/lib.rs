//! The integer side of a recursive ray tracer: the pixel grid that a render
//! walks, the frame buffer it fills, the bounce budget that ends each traced
//! path, and the plain-text pixel-map encoding of a finished image.
pub mod frame;
pub mod grid;
pub mod path;
pub mod ppm;
