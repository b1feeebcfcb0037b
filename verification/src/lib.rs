//! Control logic of a Monte Carlo path tracer, verified with Verus.
//!
//! Every number is a binary32 value held as its bit pattern ([`scalar::Scalar`]).
//! Comparisons, minima, clamping and quantisation are decided here on the bits;
//! arithmetic is supplied by the caller, as closures or as implementations of
//! [`hitable::Hitable`].

pub mod scalar;
pub mod vec3;
pub mod ray;
pub mod aabb;
pub mod color;
pub mod texture;
pub mod material;
pub mod utils;
pub mod hitable;
pub mod bvh;
pub mod nearest;
pub mod render_error;
pub mod examples;
pub mod montecarlo_pimped;
pub mod camera_effects;
pub mod camera;
pub mod scene;
pub mod frame;
pub mod renderer;
pub mod sphere;
pub mod disc;
pub mod rect;
pub mod sdf;
pub mod sdfa;
pub mod setup;
pub mod outcomes;
