//! Random draws, on integer lattices.
//!
//! A coordinate in `[-1, 1)` is drawn as a whole number of steps of
//! `1 / GRID`, and an offset in `[0, 1)` as a whole number of steps of
//! `1 / JITTER_STEPS`. Both lattices are fine enough that every step count
//! is a binary32 number of its own, so that a caller loses nothing when it
//! divides a draw by the lattice's size, and coarse enough that the squared
//! length of a point is an exact integer.

use vstd::prelude::*;
use rand::Rng;

verus! {

/// The steps of the coordinate lattice that make up the length one.
pub const GRID: i32 = 0x80_0000;

/// `GRID` squared: the squared radius of the unit ball, in steps.
pub const UNIT_SQUARED: u64 = 0x4000_0000_0000;

/// The steps of the offset lattice that make up the length one.
pub const JITTER_STEPS: u32 = 0x100_0000;

/// The draws after which the search for a point of the unit ball gives up.
pub const MAX_ATTEMPTS: u32 = 1000;

/// A point of the coordinate lattice: `(x, y, z) / GRID`.
#[derive(Clone, Copy, Debug, PartialEq, Eq, Structural)]
pub struct LatticePoint {
    pub x: i32,
    pub y: i32,
    pub z: i32,
}

impl LatticePoint {
    /// The squared length, in squared steps.
    pub open spec fn norm_squared(self) -> int {
        self.x * self.x + self.y * self.y + self.z * self.z
    }

    /// Every coordinate lies in `[-1, 1)`.
    pub open spec fn in_cube(self) -> bool {
        &&& -GRID <= self.x < GRID
        &&& -GRID <= self.y < GRID
        &&& -GRID <= self.z < GRID
    }

    /// The point lies in the closed unit ball: its squared length is at
    /// most one.
    pub open spec fn in_unit_ball(self) -> bool {
        self.norm_squared() <= UNIT_SQUARED
    }

    pub open spec fn spec_origin() -> LatticePoint {
        LatticePoint { x: 0, y: 0, z: 0 }
    }

    #[verifier::when_used_as_spec(spec_origin)]
    pub fn origin() -> (p: LatticePoint)
        ensures
            p == Self::spec_origin(),
    {
        LatticePoint { x: 0, y: 0, z: 0 }
    }

    /// Tests a candidate of the rejection sampling: a point is kept where
    /// it lies in the unit ball, and rejected where its squared length is
    /// above one.
    pub fn is_in_unit_ball(&self) -> (inside: bool)
        ensures
            inside == self.in_unit_ball(),
    {
        let xx: u64 = square(self.x);
        let yy: u64 = square(self.y);
        let zz: u64 = square(self.z);
        xx + yy + zz <= UNIT_SQUARED
    }
}

fn square(c: i32) -> (s: u64)
    ensures
        s == c * c,
        s <= 0x4000_0000_0000_0000,
{
    let wide: i64 = c as i64;
    assert(0 <= wide * wide <= 0x4000_0000_0000_0000) by (nonlinear_arith)
        requires
            -0x8000_0000 <= wide <= 0x7fff_ffff,
    ;
    (wide * wide) as u64
}

/// Draws a whole number with `rand::Rng::gen_range` on the generator that
/// `rand::thread_rng` hands out. Believed, not proved: the number drawn
/// lies in the half-open range `low..high`. An empty range, on which
/// `gen_range` panics, is excluded.
#[verifier::external_body]
fn draw_between(low: i32, high: i32) -> (drawn: i32)
    requires
        low < high,
    ensures
        low <= drawn < high,
{
    rand::thread_rng().gen_range(low..high)
}

/// Draws a point of the cube `[-1, 1)` cubed, each coordinate by itself.
pub fn draw_in_cube() -> (p: LatticePoint)
    ensures
        p.in_cube(),
{
    let x: i32 = draw_between(-GRID, GRID);
    let y: i32 = draw_between(-GRID, GRID);
    let z: i32 = draw_between(-GRID, GRID);
    LatticePoint { x, y, z }
}

/// Draws a point of the unit ball by rejection: points of the cube are
/// drawn until one lies in the ball. The search is bounded: after
/// `MAX_ATTEMPTS` rejected draws, an event of probability below one in
/// ten to the three hundredth, the origin is returned, which perturbs
/// nothing.
pub fn random_in_unit_sphere() -> (p: LatticePoint)
    ensures
        p.in_cube(),
        p.in_unit_ball(),
{
    let mut rejected: u32 = 0;
    while rejected < MAX_ATTEMPTS
        invariant
            rejected <= MAX_ATTEMPTS,
        decreases MAX_ATTEMPTS - rejected,
    {
        match judge(draw_in_cube(), rejected) {
            Search::Found(point) => { return point; },
            Search::GaveUp => { return LatticePoint::origin(); },
            Search::Again => { rejected += 1; },
        }
    }
    LatticePoint::origin()
}

/// Draws an offset in `[0, 1)`, in steps of the offset lattice.
pub fn jitter() -> (steps: u32)
    ensures
        steps < JITTER_STEPS,
{
    let drawn: i32 = draw_between(0, 0x100_0000);
    drawn as u32
}

/// How the search for a point of the unit ball stands after a draw.
#[derive(Clone, Copy, Debug, PartialEq, Eq, Structural)]
pub enum Search {
    /// The candidate lies in the ball: it is the point.
    Found(LatticePoint),
    /// The candidate is rejected: draw another.
    Again,
    /// The candidate is rejected and was the last allowed: the origin is
    /// the point.
    GaveUp,
}

/// The rule of the search, for a candidate drawn after `rejected` others
/// were rejected: a candidate in the unit ball is the point; one outside
/// it is rejected, and ends the search where it is the `MAX_ATTEMPTS`th.
pub open spec fn judged(candidate: LatticePoint, rejected: u32) -> Search {
    if candidate.in_unit_ball() {
        Search::Found(candidate)
    } else if rejected + 1 >= MAX_ATTEMPTS {
        Search::GaveUp
    } else {
        Search::Again
    }
}

/// Judges one candidate of the search.
pub fn judge(candidate: LatticePoint, rejected: u32) -> (search: Search)
    ensures
        search == judged(candidate, rejected),
{
    if candidate.is_in_unit_ball() {
        Search::Found(candidate)
    } else if rejected >= MAX_ATTEMPTS - 1 {
        Search::GaveUp
    } else {
        Search::Again
    }
}

} // verus!
