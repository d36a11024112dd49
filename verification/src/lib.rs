//! The decision core of a small Monte Carlo path tracer.
//!
//! A renderer built on this crate does its vector arithmetic in binary32
//! numbers of its own; everything that is decided along the way is decided
//! here, on plain values, and proved: which root of the ray-sphere quadratic
//! counts as the hit, which primitive of a scene is nearest, whether a
//! scattered ray lives on, when a path of bounces ends and why, where the
//! samples of a pixel lie, and how a colour channel becomes a byte.
//!
//! Numbers cross the boundary as `Scalar`, the bit pattern of a binary32
//! datum, whose ordering is defined and proved on the bits.

pub mod scalar;
pub mod sphere;
pub mod scene;
pub mod material;
pub mod integrator;
pub mod sampling;
pub mod film;
pub mod settings;
