//! Binary32 numbers by their bit patterns: classification and ordering.
//!
//! The layout is the usual one: one sign bit, eight exponent bits, twenty-three
//! fraction bits. Read as a sign and a 31-bit magnitude, the patterns of
//! numbers that are not NaN are ordered exactly as the numbers they stand for,
//! the two zeros being the only pair of distinct patterns that compare equal.

use vstd::prelude::*;
use vstd::arithmetic::power2::{
    lemma2_to64, lemma_pow2_adds, lemma_pow2_pos, lemma_pow2_strictly_increases,
    lemma_pow2_unfold, pow2,
};

verus! {

/// The number of patterns that share one exponent: two to the
/// twenty-third.
pub const FRACTION_STEPS: u32 = 0x80_0000;

/// The sign bit of a pattern.
pub const SIGN_BIT: u32 = 0x8000_0000;

/// The magnitude of both infinities; every larger magnitude is a NaN.
pub const INFINITY_MAGNITUDE: u32 = 0x7f80_0000;

/// The pattern of positive zero.
pub const ZERO_BITS: u32 = 0;

/// The pattern of the number one.
pub const ONE_BITS: u32 = 0x3f80_0000;

/// A binary32 datum, held by its bit pattern.
///
/// The derived `==` compares patterns: it tells the two zeros apart and finds
/// a NaN equal to itself. Numeric comparison is `less_than` and
/// `greater_than`.
#[derive(Clone, Copy, Debug, PartialEq, Eq, Structural)]
pub struct Scalar {
    pub bits: u32,
}

impl Scalar {
    /// The pattern without its sign bit.
    pub open spec fn magnitude(self) -> int {
        if self.bits >= SIGN_BIT {
            self.bits - SIGN_BIT
        } else {
            self.bits as int
        }
    }

    /// The sign bit is set (true of negative zero and of half the NaNs too).
    pub open spec fn sign_negative(self) -> bool {
        self.bits >= SIGN_BIT
    }

    /// The datum is not a number.
    pub open spec fn nan(self) -> bool {
        self.magnitude() > INFINITY_MAGNITUDE
    }

    /// The exponent field of the pattern.
    pub open spec fn exponent(self) -> int {
        self.magnitude() / (FRACTION_STEPS as int)
    }

    /// The fraction field of the pattern.
    pub open spec fn fraction(self) -> int {
        self.magnitude() % (FRACTION_STEPS as int)
    }

    /// The absolute value of the number, counted in units of two to the
    /// minus 149, the smallest positive number there is: the fraction
    /// where the exponent field is zero, and else the fraction with a
    /// leading one, doubled once for every step of the exponent above
    /// one. An infinity counts as the power of two above all numbers.
    pub open spec fn magnitude_units(self) -> int {
        if self.exponent() == 0 {
            self.fraction()
        } else {
            (FRACTION_STEPS + self.fraction()) * pow2((self.exponent() - 1) as nat)
        }
    }

    /// The number itself, in the same units.
    pub open spec fn units(self) -> int {
        if self.sign_negative() {
            -self.magnitude_units()
        } else {
            self.magnitude_units()
        }
    }

    /// The place of the datum in the order of the numbers: the magnitude,
    /// negated where the sign bit is set. Both zeros have rank 0, the
    /// infinities have the two extreme ranks of all numbers.
    pub open spec fn rank(self) -> int {
        if self.sign_negative() {
            -self.magnitude()
        } else {
            self.magnitude()
        }
    }

    /// Numeric `<`: false as soon as either side is a NaN.
    pub open spec fn lt(self, other: Scalar) -> bool {
        !self.nan() && !other.nan() && self.rank() < other.rank()
    }

    /// Numeric `>`.
    pub open spec fn gt(self, other: Scalar) -> bool {
        other.lt(self)
    }

    /// Numeric `==`: false as soon as either side is a NaN, true of the two
    /// zeros.
    pub open spec fn same_number(self, other: Scalar) -> bool {
        !self.nan() && !other.nan() && self.rank() == other.rank()
    }

    /// Positive zero.
    pub open spec fn spec_zero() -> Scalar {
        Scalar { bits: ZERO_BITS }
    }

    /// The number one.
    pub open spec fn spec_one() -> Scalar {
        Scalar { bits: ONE_BITS }
    }

    /// Numeric `> 0`.
    pub open spec fn positive(self) -> bool {
        Self::spec_zero().lt(self)
    }

    pub fn from_bits(bits: u32) -> (s: Scalar)
        ensures
            s.bits == bits,
    {
        Scalar { bits }
    }

    pub fn to_bits(self) -> (bits: u32)
        ensures
            bits == self.bits,
    {
        self.bits
    }

    #[verifier::when_used_as_spec(spec_zero)]
    pub fn zero() -> (s: Scalar)
        ensures
            s == Self::spec_zero(),
    {
        Scalar { bits: ZERO_BITS }
    }

    #[verifier::when_used_as_spec(spec_one)]
    pub fn one() -> (s: Scalar)
        ensures
            s == Self::spec_one(),
    {
        Scalar { bits: ONE_BITS }
    }

    fn magnitude_bits(self) -> (m: u32)
        ensures
            m == self.magnitude(),
    {
        if self.bits >= SIGN_BIT {
            self.bits - SIGN_BIT
        } else {
            self.bits
        }
    }

    fn signed_rank(self) -> (r: i64)
        ensures
            r == self.rank(),
    {
        let m: u32 = self.magnitude_bits();
        let wide: i64 = m as i64;
        if self.bits >= SIGN_BIT {
            -wide
        } else {
            wide
        }
    }

    pub fn is_nan(self) -> (b: bool)
        ensures
            b == self.nan(),
    {
        self.magnitude_bits() > INFINITY_MAGNITUDE
    }

    pub fn less_than(self, other: Scalar) -> (b: bool)
        ensures
            b == self.lt(other),
    {
        !self.is_nan() && !other.is_nan() && self.signed_rank() < other.signed_rank()
    }

    pub fn greater_than(self, other: Scalar) -> (b: bool)
        ensures
            b == self.gt(other),
    {
        other.less_than(self)
    }

    pub fn is_positive(self) -> (b: bool)
        ensures
            b == self.positive(),
            b == (0 < self.bits <= INFINITY_MAGNITUDE),
    {
        Scalar::zero().less_than(self)
    }
}

/// Numeric `<` is a strict order on all data: nothing is below itself, and
/// it passes along a chain.
pub proof fn lemma_lt_strict_order(a: Scalar, b: Scalar, c: Scalar)
    ensures
        !a.lt(a),
        a.lt(b) ==> !b.lt(a),
        a.lt(b) && b.lt(c) ==> a.lt(c),
{
}

/// A larger magnitude stands for a larger absolute value.
pub proof fn lemma_magnitude_units_increase(a: Scalar, b: Scalar)
    requires
        a.magnitude() < b.magnitude(),
    ensures
        0 <= a.magnitude_units() < b.magnitude_units(),
{
    let steps = FRACTION_STEPS as int;
    let (ea, fa) = (a.exponent(), a.fraction());
    let (eb, fb) = (b.exponent(), b.fraction());
    assert(0 <= fa < steps && 0 <= fb < steps);
    assert(a.magnitude() == steps * ea + fa && b.magnitude() == steps * eb + fb);
    assert(0 <= ea <= eb);
    if ea > 0 {
        lemma_pow2_pos((ea - 1) as nat);
        assert(0 <= (steps + fa) * pow2((ea - 1) as nat)) by (nonlinear_arith)
            requires
                0 <= fa,
                steps > 0,
                pow2((ea - 1) as nat) > 0,
        ;
    }
    if ea == eb {
        if ea > 0 {
            let p = pow2((ea - 1) as nat) as int;
            assert((steps + fa) * p < (steps + fb) * p) by (nonlinear_arith)
                requires
                    fa < fb,
                    p > 0,
            ;
        }
    } else {
        let q = pow2((eb - 1) as nat) as int;
        lemma_pow2_pos((eb - 1) as nat);
        assert(steps * q <= (steps + fb) * q) by (nonlinear_arith)
            requires
                0 <= fb,
                q > 0,
        ;
        assert(steps <= steps * q) by (nonlinear_arith)
            requires
                steps > 0,
                q >= 1,
        ;
        if ea > 0 {
            let p = pow2((ea - 1) as nat) as int;
            lemma_pow2_unfold(ea as nat);
            assert(pow2(ea as nat) == 2 * p);
            if ea < eb - 1 {
                lemma_pow2_strictly_increases(ea as nat, (eb - 1) as nat);
            }
            assert(2 * p <= q);
            assert((steps + fa) * p < steps * q) by (nonlinear_arith)
                requires
                    0 <= fa < steps,
                    p > 0,
                    2 * p <= q,
            ;
        }
    }
}

/// Numeric `<` and `==` are the order and the equality of the numbers that
/// the patterns stand for; so of two numbers one is below the other, or
/// they are the same number.
pub proof fn lemma_order_is_numeric(a: Scalar, b: Scalar)
    requires
        !a.nan(),
        !b.nan(),
    ensures
        a.lt(b) <==> a.units() < b.units(),
        a.same_number(b) <==> a.units() == b.units(),
        a.lt(b) || b.lt(a) || a.same_number(b),
{
    let zero = Scalar { bits: ZERO_BITS };
    assert(zero.magnitude_units() == 0);
    if a.magnitude() < b.magnitude() {
        lemma_magnitude_units_increase(a, b);
    }
    if b.magnitude() < a.magnitude() {
        lemma_magnitude_units_increase(b, a);
    }
    if 0 < a.magnitude() {
        lemma_magnitude_units_increase(zero, a);
    }
    if 0 < b.magnitude() {
        lemma_magnitude_units_increase(zero, b);
    }
}

/// The number one is two to the 149th of the units that numbers are
/// counted in.
pub proof fn lemma_one_in_units()
    ensures
        Scalar::spec_one().units() == pow2(149),
{
    let one = Scalar::spec_one();
    assert(one.exponent() == 127 && one.fraction() == 0);
    lemma2_to64();
    lemma_pow2_adds(23, 126);
}

} // verus!
