//! The verified core of a Whitted-style ray tracer.
//!
//! A ray tracer of this kind is mostly single-precision arithmetic, and that
//! arithmetic is the caller's. What is here is everything around it that can
//! be said exactly:
//!
//! - `scalar`: single-precision values as their encodings, with the order
//!   of IEEE-754 on them;
//! - `vector`, `colorf`, `material`, `light`: the values of a scene;
//! - `frame`: the frame buffer and its row-major layout;
//! - `scene`: the scene and its registry of materials, to which shapes
//!   refer by handle;
//! - `traceable`: the interface of a shape, and the rules of the sphere and
//!   of the chequered floor;
//! - `resolver`: the nearest hit of a ray among the shapes of a scene;
//! - `shading`: when the recursion stops, where a secondary ray starts, and
//!   when a lamp is in shadow;
//! - `sampler`: from places of the frame to pixels and sub-pixel samples;
//! - `quantize`, `writer`: channels to bytes, and frames to PPM files.

pub mod colorf;
pub mod frame;
pub mod light;
pub mod material;
pub mod quantize;
pub mod resolver;
pub mod sampler;
pub mod scalar;
pub mod scene;
pub mod shading;
pub mod traceable;
pub mod vector;
pub mod writer;
