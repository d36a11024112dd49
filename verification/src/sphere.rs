//! The hit decision of one ray against one sphere.
//!
//! A ray `origin + t * direction` meets a sphere where
//! `a*t*t + 2*b*t + c = 0`, with `a` the squared length of the direction, `b`
//! the direction dotted with `origin - center`, and `c` the squared length of
//! `origin - center` less the squared radius. The caller evaluates the
//! half-discriminant `b*b - a*c` and the two parameters `(-b -+ sqrt(d)) / a`;
//! which of them, if any, is the hit is decided here.
//!
//! A sphere of radius zero gets no treatment of its own. In exact arithmetic
//! its discriminant is never positive, so it is missed; where rounding leaves
//! a positive discriminant it is hit like any other sphere.

use vstd::prelude::*;
use crate::scalar::Scalar;

verus! {

/// `t` lies strictly inside the open interval `(t_min, t_max)`.
pub open spec fn within(t: Scalar, t_min: Scalar, t_max: Scalar) -> bool {
    t.lt(t_max) && t.gt(t_min)
}

pub fn is_within(t: Scalar, t_min: Scalar, t_max: Scalar) -> (b: bool)
    ensures
        b == within(t, t_min, t_max),
{
    t.less_than(t_max) && t.greater_than(t_min)
}

/// What the quadratic of one ray against one sphere evaluates to.
#[derive(Clone, Copy, Debug, PartialEq, Eq, Structural)]
pub struct Crossing {
    /// The half-discriminant `b*b - a*c`.
    pub discriminant: Scalar,
    /// The parameter `(-b - sqrt(d)) / a`, where the ray enters.
    pub near: Scalar,
    /// The parameter `(-b + sqrt(d)) / a`, where the ray leaves.
    pub far: Scalar,
}

impl Crossing {
    /// The parameter of the hit inside `(t_min, t_max)`, if there is one:
    /// none unless the discriminant is positive, so that a ray that only
    /// touches the sphere misses it; else the near parameter where it lies
    /// inside the interval; else the far one where that does.
    pub open spec fn selected(self, t_min: Scalar, t_max: Scalar) -> Option<Scalar> {
        if !self.discriminant.positive() {
            None
        } else if within(self.near, t_min, t_max) {
            Some(self.near)
        } else if within(self.far, t_min, t_max) {
            Some(self.far)
        } else {
            None
        }
    }

    /// The far parameter is not below the near one (which holds of every
    /// pair computed from a positive discriminant and a positive `a`).
    pub open spec fn ordered(self) -> bool {
        !self.far.lt(self.near)
    }

    pub fn new(discriminant: Scalar, near: Scalar, far: Scalar) -> (c: Crossing)
        ensures
            c.discriminant == discriminant,
            c.near == near,
            c.far == far,
    {
        Crossing { discriminant, near, far }
    }

    /// Decides the hit of this sphere inside `(t_min, t_max)`.
    pub fn select(&self, t_min: Scalar, t_max: Scalar) -> (hit: Option<Scalar>)
        ensures
            hit == self.selected(t_min, t_max),
    {
        if !self.discriminant.is_positive() {
            None
        } else if is_within(self.near, t_min, t_max) {
            Some(self.near)
        } else if is_within(self.far, t_min, t_max) {
            Some(self.far)
        } else {
            None
        }
    }
}

/// A hit is a parameter of the crossing, lies strictly inside the interval
/// asked for, and is a number.
pub proof fn lemma_selected_is_inside(c: Crossing, t_min: Scalar, t_max: Scalar)
    ensures
        match c.selected(t_min, t_max) {
            Some(t) => (t == c.near || t == c.far) && within(t, t_min, t_max) && !t.nan()
                && c.discriminant.positive(),
            None => true,
        },
{
}

/// A crossing with no parameter strictly inside `(t_min, t_max)` is a miss,
/// whatever its discriminant.
pub proof fn lemma_miss_outside_range(c: Crossing, t_min: Scalar, t_max: Scalar)
    requires
        !within(c.near, t_min, t_max),
        !within(c.far, t_min, t_max),
    ensures
        c.selected(t_min, t_max) is None,
{
}

/// A ray that only touches the sphere (discriminant zero, of either sign)
/// misses it, and so does one that passes it by (discriminant negative or
/// not a number).
pub proof fn lemma_tangent_is_miss(c: Crossing, t_min: Scalar, t_max: Scalar)
    requires
        c.discriminant.magnitude() == 0 || c.discriminant.sign_negative()
            || c.discriminant.nan(),
    ensures
        c.selected(t_min, t_max) is None,
{
}

/// Under a lower upper bound a sphere whose parameters are in order keeps
/// its hit where the hit is below the new bound, and misses where it is not:
/// it never switches from one parameter to the other, and a miss stays a
/// miss.
pub proof fn lemma_selected_under_lower_bound(
    c: Crossing,
    t_min: Scalar,
    t_max: Scalar,
    bound: Scalar,
)
    requires
        c.ordered(),
        bound == t_max || bound.lt(t_max),
    ensures
        match c.selected(t_min, t_max) {
            Some(t) => c.selected(t_min, bound) == (if t.lt(bound) {
                Some(t)
            } else {
                None::<Scalar>
            }),
            None => c.selected(t_min, bound) is None,
        },
{
}

} // verus!
