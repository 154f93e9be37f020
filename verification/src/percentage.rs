//! Percentages that were read as binary floating-point numbers.

use vstd::prelude::*;
use vstd::arithmetic::power2::*;

verus! {

/// The bit that makes a number negative.
pub const SIGN_BIT: u64 = 0x8000_0000_0000_0000;

/// The bits of positive infinity. Greater bits without the sign bit, up to the
/// sign bit, are no number.
pub const INFINITY_BITS: u64 = 0x7ff0_0000_0000_0000;

/// A percentage: the bits of an IEEE 754 number of 64 bits, and the text that it
/// is shown as.
#[derive(Debug)]
pub struct Percentage {
    pub bits: u64,
    pub text: String,
}

/// A percentage with its text as characters.
pub struct PercentageModel {
    pub bits: u64,
    pub text: Seq<char>,
}

impl View for Percentage {
    type V = PercentageModel;

    open spec fn view(&self) -> PercentageModel {
        PercentageModel { bits: self.bits, text: self.text@ }
    }
}

/// An optional percentage with its text as characters.
pub open spec fn opt_percentage(value: Option<Percentage>) -> Option<PercentageModel> {
    match value {
        Some(p) => Some(p@),
        None => None,
    }
}

/// The bits after the sign.
pub open spec fn magnitude(bits: u64) -> int {
    if bits >= SIGN_BIT {
        bits - SIGN_BIT
    } else {
        bits as int
    }
}

/// Whether the bits are no number at all.
pub open spec fn is_nan(bits: u64) -> bool {
    magnitude(bits) > INFINITY_BITS
}

/// Where the number stands among all numbers. Both zeros stand at 0.
pub open spec fn rank(bits: u64) -> int {
    if bits >= SIGN_BIT {
        -magnitude(bits)
    } else {
        magnitude(bits)
    }
}

/// Whether one number is at most another. What is no number is never at most
/// anything, nor is anything at most it.
pub open spec fn at_most(a: u64, b: u64) -> bool {
    !is_nan(a) && !is_nan(b) && rank(a) <= rank(b)
}

fn bits_at_most(a: u64, b: u64) -> (result: bool)
    ensures
        result == at_most(a, b),
{
    let a_magnitude: u64 = if a >= SIGN_BIT {
        a - SIGN_BIT
    } else {
        a
    };
    let b_magnitude: u64 = if b >= SIGN_BIT {
        b - SIGN_BIT
    } else {
        b
    };
    if a_magnitude > INFINITY_BITS || b_magnitude > INFINITY_BITS {
        false
    } else if a >= SIGN_BIT && b >= SIGN_BIT {
        a_magnitude >= b_magnitude
    } else if a >= SIGN_BIT {
        true
    } else if b >= SIGN_BIT {
        a_magnitude == 0 && b_magnitude == 0
    } else {
        a_magnitude <= b_magnitude
    }
}

impl Percentage {
    /// Whether this percentage is at most another.
    pub fn is_at_most(&self, other: &Percentage) -> (result: bool)
        ensures
            result == at_most(self.bits, other.bits),
    {
        bits_at_most(self.bits, other.bits)
    }
}

/// Numbers are ordered: of any two, one is at most the other, and what is at
/// most a lower number is at most a higher one.
pub proof fn lemma_numbers_are_ordered(a: u64, b: u64, c: u64)
    requires
        !is_nan(a),
        !is_nan(b),
        !is_nan(c),
    ensures
        at_most(a, b) || at_most(b, a),
        at_most(a, b) && at_most(b, c) ==> at_most(a, c),
{
}

// ---------------------------------------------------------------------------
// What the bits stand for
// ---------------------------------------------------------------------------

/// The number that the bits after the sign stand for, times two to the power of 1074:
/// the lower 52 bits are the fraction, and the 11 bits above them the exponent. With the
/// greatest exponent and no fraction this is two to the power of 1024, which stands for
/// infinity.
pub open spec fn scaled_magnitude(bits: int) -> int {
    let exponent = bits / 0x10_0000_0000_0000;
    let fraction = bits % 0x10_0000_0000_0000;
    if exponent == 0 {
        fraction
    } else {
        (0x10_0000_0000_0000 + fraction) * pow2((exponent - 1) as nat)
    }
}

/// The number that bits stand for, scaled in the same way. The highest bit is the sign.
pub open spec fn scaled_value(bits: u64) -> int {
    if bits < 0x8000_0000_0000_0000 {
        scaled_magnitude(bits as int)
    } else {
        -scaled_magnitude(bits - 0x8000_0000_0000_0000)
    }
}

/// Whether the bits are those of no number: the greatest exponent with a fraction.
pub open spec fn has_no_value(bits: u64) -> bool {
    let unsigned = bits % 0x8000_0000_0000_0000;
    unsigned / 0x10_0000_0000_0000 == 0x7ff && unsigned % 0x10_0000_0000_0000 != 0
}

proof fn lemma_scaled_step(bits: int)
    requires
        bits >= 0,
    ensures
        0 <= scaled_magnitude(bits) < scaled_magnitude(bits + 1),
{
    let unit: int = 0x10_0000_0000_0000;
    let exponent = bits / unit;
    let fraction = bits % unit;
    if exponent > 0 {
        let power = pow2((exponent - 1) as nat) as int;
        lemma_pow2_pos((exponent - 1) as nat);
        assert(0 <= (unit + fraction) * power) by (nonlinear_arith)
            requires
                unit > 0,
                fraction >= 0,
                power > 0,
        ;
        if fraction + 1 < unit {
            assert((bits + 1) / unit == exponent);
            assert((bits + 1) % unit == fraction + 1);
            assert((unit + fraction) * power < (unit + fraction + 1) * power) by (nonlinear_arith)
                requires
                    power > 0,
            ;
        } else {
            assert((bits + 1) / unit == exponent + 1);
            assert((bits + 1) % unit == 0);
            lemma_pow2_unfold(exponent as nat);
            assert((unit + fraction) * power < unit * (2 * power)) by (nonlinear_arith)
                requires
                    power > 0,
                    fraction < unit,
            ;
        }
    } else if fraction + 1 == unit {
        assert((bits + 1) / unit == 1);
        assert((bits + 1) % unit == 0);
        lemma2_to64();
    }
}

proof fn lemma_scaled_grows(a: int, b: int)
    requires
        0 <= a < b,
    ensures
        scaled_magnitude(a) < scaled_magnitude(b),
    decreases b - a,
{
    lemma_scaled_step(b - 1);
    if a < b - 1 {
        lemma_scaled_grows(a, b - 1);
    }
}

/// One percentage is at most another exactly where both are numbers and the number that
/// its bits stand for is at most that of the other.
pub proof fn lemma_order_of_values(a: u64, b: u64)
    ensures
        at_most(a, b) <==> !has_no_value(a) && !has_no_value(b) && scaled_value(a) <= scaled_value(
            b,
        ),
{
    let m = magnitude(a);
    let n = magnitude(b);
    lemma_scaled_step(m);
    lemma_scaled_step(n);
    assert(scaled_magnitude(0) == 0);
    if m < n {
        lemma_scaled_grows(m, n);
    } else if n < m {
        lemma_scaled_grows(n, m);
    }
    if m > 0 {
        lemma_scaled_grows(0, m);
    }
    if n > 0 {
        lemma_scaled_grows(0, n);
    }
}

} // verus!
