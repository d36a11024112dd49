//! Surface materials and what they decide when a ray is scattered.
//!
//! A material turns an incoming ray at a hit into a scattered ray. The
//! scattered direction is the caller's arithmetic:
//!
//! - a Lambertian surface sends the ray along the surface normal plus a
//!   random point of the unit ball;
//! - a metal sends it along the mirror image of the incoming direction about
//!   the normal, plus `fuzz` times a random point of the unit ball.
//!
//! Decided here are the factor of the random offset, the attenuation, and
//! whether the scattered ray lives on.

use vstd::prelude::*;
use crate::scalar::Scalar;

verus! {

/// A colour: the share of light that a surface hands on, channel by channel.
#[derive(Clone, Copy, Debug, PartialEq, Eq, Structural)]
pub struct Color {
    pub r: Scalar,
    pub g: Scalar,
    pub b: Scalar,
}

/// The fuzz that a metal is built with: a fuzz below zero or above one is
/// replaced by one, and every other datum is kept, a NaN included.
pub open spec fn clamped_fuzz(fuzz: Scalar) -> Scalar {
    if fuzz.lt(Scalar::zero()) || fuzz.gt(Scalar::one()) {
        Scalar::one()
    } else {
        fuzz
    }
}

/// An ideally diffuse surface.
#[derive(Clone, Copy, Debug, PartialEq, Eq, Structural)]
pub struct Lambertian {
    pub albedo: Color,
}

/// A reflecting surface, the rougher the larger its fuzz.
#[derive(Clone, Copy, Debug, PartialEq, Eq, Structural)]
pub struct Metal {
    pub albedo: Color,
    pub fuzz: Scalar,
}

/// The materials that a surface can have.
#[derive(Clone, Copy, Debug, PartialEq, Eq, Structural)]
pub enum Material {
    Lambertian(Lambertian),
    Metal(Metal),
}

impl Lambertian {
    pub fn new(r: Scalar, g: Scalar, b: Scalar) -> (m: Lambertian)
        ensures
            m.albedo == (Color { r, g, b }),
    {
        Lambertian { albedo: Color { r, g, b } }
    }
}

impl Metal {
    /// The fuzz is neither below zero nor above one.
    pub open spec fn wf(self) -> bool {
        !self.fuzz.lt(Scalar::zero()) && !self.fuzz.gt(Scalar::one())
    }

    /// Builds a metal. A fuzz outside `[0, 1]` is not refused: it is
    /// replaced by one, the roughest metal there is.
    pub fn new(r: Scalar, g: Scalar, b: Scalar, fuzz: Scalar) -> (m: Metal)
        ensures
            m.albedo == (Color { r, g, b }),
            m.fuzz == clamped_fuzz(fuzz),
            m.wf(),
    {
        let kept = if fuzz.less_than(Scalar::zero()) || fuzz.greater_than(Scalar::one()) {
            Scalar::one()
        } else {
            fuzz
        };
        Metal { albedo: Color { r, g, b }, fuzz: kept }
    }
}

impl Material {
    /// The albedo of the surface.
    pub open spec fn albedo(self) -> Color {
        match self {
            Material::Lambertian(m) => m.albedo,
            Material::Metal(m) => m.albedo,
        }
    }

    /// The factor by which the random point of the unit ball enters the
    /// scattered direction.
    pub open spec fn spread(self) -> Scalar {
        match self {
            Material::Lambertian(_) => Scalar::one(),
            Material::Metal(m) => m.fuzz,
        }
    }

    /// Whether a scattered ray lives on, given `facing`, the scattered
    /// direction dotted with the surface normal: always on a Lambertian
    /// surface; on a metal only where the direction points away from the
    /// surface, that is where `facing` is above zero.
    pub open spec fn continues(self, facing: Scalar) -> bool {
        match self {
            Material::Lambertian(_) => true,
            Material::Metal(_) => facing.positive(),
        }
    }

    pub fn random_spread(&self) -> (factor: Scalar)
        ensures
            factor == self.spread(),
    {
        match self {
            Material::Lambertian(_) => Scalar::one(),
            Material::Metal(m) => m.fuzz,
        }
    }

    /// Decides a scattering: whether the scattered ray lives on, and the
    /// attenuation, which is the albedo in either case.
    pub fn scatter(&self, facing: Scalar) -> (decided: (bool, Color))
        ensures
            decided.0 == self.continues(facing),
            decided.1 == self.albedo(),
    {
        match self {
            Material::Lambertian(m) => (true, m.albedo),
            Material::Metal(m) => (facing.is_positive(), m.albedo),
        }
    }
}

/// A metal absorbs every ray whose scattered direction does not point away
/// from the surface: with `facing` zero, negative or not a number the ray
/// does not live on.
pub proof fn lemma_metal_absorbs(metal: Metal, facing: Scalar)
    requires
        facing.magnitude() == 0 || facing.sign_negative() || facing.nan(),
    ensures
        !Material::Metal(metal).continues(facing),
{
}

} // verus!
