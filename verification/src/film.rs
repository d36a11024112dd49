//! From pixels to sample positions, and from colour channels to bytes.
//!
//! A pixel `(x, y)` of an image of `width` by `height` pixels, row 0 on top,
//! is sampled at positions `(u, v)` of the image plane, whose `v` grows
//! upwards:
//!
//! ```text
//! u = (x + jitter_x) / width
//! v = ((height - y) + jitter_y) / height
//! ```
//!
//! with both jitters drawn from `[0, 1)`. A position is held here by its
//! whole parts and its jitters, the latter in steps of `1 / JITTER_STEPS`.

use vstd::prelude::*;
use vstd::arithmetic::div_mod::{
    lemma_basic_div, lemma_div_by_multiple, lemma_div_is_ordered,
    lemma_div_multiples_vanish_quotient,
};
use vstd::arithmetic::power2::{lemma2_to64, lemma_pow2_adds, lemma_pow2_pos, pow2};
use vstd::bits::lemma_u32_shr_is_div;
use crate::sampling::{jitter, JITTER_STEPS};
use crate::scalar::{
    lemma_magnitude_units_increase, lemma_one_in_units, Scalar, FRACTION_STEPS, SIGN_BIT,
};

verus! {

/// One sample position of a pixel.
#[derive(Clone, Copy, Debug, PartialEq, Eq, Structural)]
pub struct SamplePosition {
    /// The pixel's column, counted from the left.
    pub column: u32,
    /// The pixel's row, counted from below the bottom row: `height - y`.
    pub row: u32,
    /// The offset to the right, in steps.
    pub jitter_x: u32,
    /// The offset upwards, in steps.
    pub jitter_y: u32,
}

impl SamplePosition {
    /// Both jitters are offsets in `[0, 1)`.
    pub open spec fn wf(self) -> bool {
        self.jitter_x < JITTER_STEPS && self.jitter_y < JITTER_STEPS
    }

    /// `u * width`, in steps.
    pub open spec fn u_steps(self) -> int {
        self.column * JITTER_STEPS + self.jitter_x
    }

    /// `v * height`, in steps.
    pub open spec fn v_steps(self) -> int {
        self.row * JITTER_STEPS + self.jitter_y
    }

    /// The position of pixel `(x, y)` with the given jitters.
    pub open spec fn of_pixel(x: u32, y: u32, height: u32, jitter_x: u32, jitter_y: u32)
        -> SamplePosition {
        SamplePosition { column: x, row: (height - y) as u32, jitter_x, jitter_y }
    }

    /// Places a sample in pixel `(x, y)` of an image of `height` rows.
    pub fn at(x: u32, y: u32, height: u32, jitter_x: u32, jitter_y: u32) -> (p: SamplePosition)
        requires
            y < height,
        ensures
            p == Self::of_pixel(x, y, height, jitter_x, jitter_y),
    {
        SamplePosition { column: x, row: height - y, jitter_x, jitter_y }
    }
}

/// Draws the sample positions of pixel `(x, y)`: `count` of them, each with
/// two jitters of its own.
pub fn pixel_samples(x: u32, y: u32, height: u32, count: u32) -> (samples: Vec<SamplePosition>)
    requires
        y < height,
    ensures
        samples.len() == count,
        forall|i: int|
            0 <= i < samples.len() ==> {
                &&& (#[trigger] samples[i]).wf()
                &&& samples[i].column == x
                &&& samples[i].row == height - y
            },
{
    let mut samples: Vec<SamplePosition> = Vec::new();
    let mut drawn: u32 = 0;
    while drawn < count
        invariant
            y < height,
            drawn <= count,
            samples.len() == drawn,
            forall|i: int|
                0 <= i < samples.len() ==> {
                    &&& (#[trigger] samples[i]).wf()
                    &&& samples[i].column == x
                    &&& samples[i].row == height - y
                },
        decreases count - drawn,
    {
        let jitter_x: u32 = jitter();
        let jitter_y: u32 = jitter();
        samples.push(SamplePosition::at(x, y, height, jitter_x, jitter_y));
        drawn += 1;
    }
    samples
}

/// A sample lies in the cell of its pixel: `u` in
/// `[x / width, (x + 1) / width)`, and so in `[0, 1)`; `v` in
/// `[(height - y) / height, (height - y + 1) / height)`, and so above zero
/// and below `1 + 1 / height`, the top row reaching just above one.
pub proof fn lemma_sample_in_cell(
    x: u32,
    y: u32,
    width: u32,
    height: u32,
    jitter_x: u32,
    jitter_y: u32,
)
    requires
        x < width,
        y < height,
        jitter_x < JITTER_STEPS,
        jitter_y < JITTER_STEPS,
    ensures
        ({
            let p = SamplePosition::of_pixel(x, y, height, jitter_x, jitter_y);
            &&& x * JITTER_STEPS <= p.u_steps() < (x + 1) * JITTER_STEPS
            &&& 0 <= p.u_steps() < width * JITTER_STEPS
            &&& (height - y) * JITTER_STEPS <= p.v_steps() < (height - y + 1) * JITTER_STEPS
            &&& 0 < p.v_steps() < (height + 1) * JITTER_STEPS
        }),
{
}

/// The byte of a colour channel: the whole part of the number, held to
/// `0..=255`. What is not a number gives 0, and so does every negative
/// number; 256 and more, infinity included, give 255.
pub open spec fn quantized(channel: Scalar) -> int {
    if channel.nan() || channel.sign_negative() {
        0
    } else {
        let whole = channel.magnitude_units() / (pow2(149) as int);
        if whole > 255 {
            255
        } else {
            whole
        }
    }
}

/// Turns a colour channel, already scaled to the range of a byte, into the
/// byte.
pub fn quantize(channel: Scalar) -> (byte: u8)
    ensures
        byte == quantized(channel),
{
    if channel.is_nan() || channel.bits >= SIGN_BIT {
        return 0;
    }
    let exponent: u32 = channel.bits / FRACTION_STEPS;
    let fraction: u32 = channel.bits % FRACTION_STEPS;
    let significand: u32 = FRACTION_STEPS + fraction;
    proof {
        assert(channel.magnitude() == channel.bits);
        assert(exponent == channel.exponent() && fraction == channel.fraction());
        lemma_pow2_pos(149);
    }
    if exponent < 127 {
        proof {
            lemma_below_one(channel);
            lemma_basic_div(channel.magnitude_units(), pow2(149) as int);
        }
        0
    } else if exponent > 134 {
        proof {
            lemma_from_256(channel);
            let unit = pow2(149) as int;
            lemma_div_is_ordered(256 * unit, channel.magnitude_units(), unit);
            lemma_div_by_multiple(256, unit);
        }
        255
    } else {
        let shift: u32 = 150 - exponent;
        let whole: u32 = significand >> shift;
        proof {
            let low = pow2((exponent - 1) as nat) as int;
            let high = pow2(shift as nat) as int;
            lemma_pow2_pos((exponent - 1) as nat);
            lemma_pow2_pos(shift as nat);
            lemma_pow2_adds((exponent - 1) as nat, shift as nat);
            assert(pow2(149) == low * high);
            lemma_div_multiples_vanish_quotient(low, significand as int, high);
            assert(channel.magnitude_units() == low * significand) by (nonlinear_arith)
                requires
                    channel.magnitude_units() == significand * low,
            ;
            lemma_u32_shr_is_div(significand, shift);
            assert(significand >> shift <= 255) by (bit_vector)
                requires
                    significand < 0x100_0000,
                    16 <= shift <= 23,
            ;
        }
        whole as u8
    }
}

/// A pattern with an exponent field below 127 stands for less than one.
proof fn lemma_below_one(channel: Scalar)
    requires
        channel.exponent() < 127,
    ensures
        0 <= channel.magnitude_units() < pow2(149),
{
    let edge = Scalar { bits: 0x3f80_0000 };
    assert(edge.exponent() == 127 && edge.fraction() == 0);
    assert(channel.magnitude() < edge.magnitude());
    lemma_magnitude_units_increase(channel, edge);
    lemma_one_in_units();
}

/// A pattern with an exponent field above 134 stands for 256 or more.
proof fn lemma_from_256(channel: Scalar)
    requires
        channel.exponent() > 134,
    ensures
        channel.magnitude_units() >= 256 * pow2(149),
{
    let edge = Scalar { bits: 0x4380_0000 };
    assert(edge.exponent() == 135 && edge.fraction() == 0);
    assert(edge.magnitude_units() == FRACTION_STEPS * pow2(134));
    lemma2_to64();
    lemma_pow2_adds(23, 134);
    lemma_pow2_adds(8, 149);
    assert(edge.magnitude_units() == 256 * pow2(149));
    if edge.magnitude() < channel.magnitude() {
        lemma_magnitude_units_increase(edge, channel);
    } else {
        assert(channel.magnitude() == edge.magnitude());
        assert(channel.exponent() == 135 && channel.fraction() == 0);
    }
}

} // verus!
