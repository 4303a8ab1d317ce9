//! Decision logic of a Monte-Carlo sphere ray tracer.
//!
//! The geometry itself (vectors, quadratic roots, scattering directions,
//! colours) is floating-point work done by the caller. What is decided from
//! those numbers lives here and is verified: which intersection parameter a
//! primitive accepts, which primitive of a scene is nearest, when a light path
//! stops, what each material does at a bounce, in which order pixels are
//! produced, and which byte a channel value becomes.
//!
//! Numbers reach this crate as order keys (see [`key`]): `i64` values whose
//! order is the order of the numbers they stand for.
pub mod hit;
pub mod key;
pub mod material;
pub mod path;
pub mod pixel;
pub mod raster;
