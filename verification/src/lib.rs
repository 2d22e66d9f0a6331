//! The discrete core of a small Monte-Carlo ray tracer.
//!
//! Everything here works on integers, bytes, flags and opaque values:
//! pixel addressing and the image buffer, colour literals, the binary
//! pixmap encoding, the choice among the roots of a sphere and among the
//! hits of a scene, the bounded light-transport recursion with the side
//! of a refractive surface that each ray runs on, and the averaging of a
//! pixel's samples. Geometry, shading and colour arithmetic are supplied
//! by the caller through the traits in [`object`] and [`camera`]; nothing
//! is assumed of them.
pub mod camera;
pub mod color;
pub mod image;
pub mod light;
pub mod object;
pub mod render;
pub mod scene;
