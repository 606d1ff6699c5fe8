//! Script numbers.
//!
//! A number of the command language is an IEEE 754 binary64 value. The
//! library holds it by its bit pattern and decides sign and order on that
//! pattern. Rounding arithmetic and the conversion from and to decimal text
//! are the embedding program's: it hands them in as an [`Arithmetic`].

use vstd::prelude::*;

verus! {

/// All bits of a pattern but the sign.
pub const MAGNITUDE_MASK: u64 = 0x7fff_ffff_ffff_ffff;

/// The sign bit of a pattern.
pub const SIGN_BIT: u64 = 0x8000_0000_0000_0000;

/// The magnitude of positive infinity; every larger magnitude is a NaN.
pub const INFINITY_MAGNITUDE: u64 = 0x7ff0_0000_0000_0000;

/// A binary64 value, given by its bit pattern. Two numbers are the same
/// (`==`) where their patterns are; [`Number::equals`] is the equality of the
/// values, which holds of the two zeros and fails of a NaN and itself.
#[derive(Clone, Copy, Debug, PartialEq, Eq, Structural)]
pub struct Number {
    pub bits: u64,
}

impl Number {
    /// The pattern without its sign.
    pub open spec fn magnitude(self) -> u64 {
        self.bits & MAGNITUDE_MASK
    }

    /// Whether the sign bit is set.
    pub open spec fn is_negative(self) -> bool {
        self.bits & SIGN_BIT != 0
    }

    /// Whether the pattern is one of the NaNs.
    pub open spec fn is_nan(self) -> bool {
        self.magnitude() > INFINITY_MAGNITUDE
    }

    /// The place of a pattern on the number line: patterns that are not NaN
    /// are ordered as their ranks are, and both zeros have rank 0.
    pub open spec fn rank(self) -> int {
        if self.is_negative() {
            -(self.magnitude() as int)
        } else {
            self.magnitude() as int
        }
    }

    /// Numeric equality: false as soon as one side is a NaN.
    pub open spec fn spec_equals(self, other: Number) -> bool {
        !self.is_nan() && !other.is_nan() && self.rank() == other.rank()
    }

    /// Numeric "less than": false as soon as one side is a NaN.
    pub open spec fn spec_less(self, other: Number) -> bool {
        !self.is_nan() && !other.is_nan() && self.rank() < other.rank()
    }

    /// The same value with the opposite sign.
    pub open spec fn spec_negate(self) -> Number {
        Number { bits: self.bits ^ SIGN_BIT }
    }

    pub fn from_bits(bits: u64) -> (number: Number)
        ensures
            number.bits == bits,
    {
        Number { bits }
    }

    pub fn to_bits(self) -> (bits: u64)
        ensures
            bits == self.bits,
    {
        self.bits
    }

    fn holds_nan(self) -> (r: bool)
        ensures
            r == self.is_nan(),
    {
        (self.bits & MAGNITUDE_MASK) > INFINITY_MAGNITUDE
    }

    fn place(self) -> (r: i128)
        ensures
            r == self.rank(),
    {
        let magnitude: u64 = self.bits & MAGNITUDE_MASK;
        if self.bits & SIGN_BIT != 0 {
            -(magnitude as i128)
        } else {
            magnitude as i128
        }
    }

    #[verifier::when_used_as_spec(spec_equals)]
    pub fn equals(self, other: Number) -> (r: bool)
        ensures
            r == self.spec_equals(other),
    {
        !self.holds_nan() && !other.holds_nan() && self.place() == other.place()
    }

    #[verifier::when_used_as_spec(spec_less)]
    pub fn less(self, other: Number) -> (r: bool)
        ensures
            r == self.spec_less(other),
    {
        !self.holds_nan() && !other.holds_nan() && self.place() < other.place()
    }

    #[verifier::when_used_as_spec(spec_negate)]
    pub fn negate(self) -> (r: Number)
        ensures
            r == self.spec_negate(),
    {
        Number { bits: self.bits ^ SIGN_BIT }
    }
}

/// Negation flips the sign and leaves the magnitude: the opposite of a number
/// stands at the opposite place of the number line, and the opposite of the
/// opposite is the number.
pub proof fn lemma_negate(number: Number)
    ensures
        number.spec_negate().spec_negate() == number,
        number.spec_negate().magnitude() == number.magnitude(),
        number.spec_negate().is_negative() == !number.is_negative(),
        number.spec_negate().is_nan() == number.is_nan(),
        number.spec_negate().rank() == -number.rank(),
{
    let bits = number.bits;
    assert((bits ^ SIGN_BIT) ^ SIGN_BIT == bits) by (bit_vector);
    assert((bits ^ SIGN_BIT) & MAGNITUDE_MASK == bits & MAGNITUDE_MASK) by (bit_vector);
    assert(((bits ^ SIGN_BIT) & SIGN_BIT != 0) == !(bits & SIGN_BIT != 0)) by (bit_vector);
}

/// Of two numbers that are not NaN, one is less than the other or they are
/// equal, and only one of the three holds.
pub proof fn lemma_order(left: Number, right: Number)
    requires
        !left.is_nan(),
        !right.is_nan(),
    ensures
        left.spec_less(right) || left.spec_equals(right) || right.spec_less(left),
        !(left.spec_less(right) && left.spec_equals(right)),
        !(left.spec_less(right) && right.spec_less(left)),
        !(left.spec_equals(right) && right.spec_less(left)),
        left.spec_equals(right) == right.spec_equals(left),
{
}

/// The opposites of two numbers are in the opposite order.
pub proof fn lemma_negate_reverses(left: Number, right: Number)
    ensures
        left.spec_negate().spec_less(right.spec_negate()) == right.spec_less(left),
        left.spec_negate().spec_equals(right.spec_negate()) == left.spec_equals(right),
{
    lemma_negate(left);
    lemma_negate(right);
}

/// The floating-point unit of the embedding program.
///
/// The library hands it patterns and decimal text and takes back what it
/// answers; nothing is assumed of the answers.
pub trait Arithmetic {
    /// The value of a decimal literal: digits with at most one point among them.
    fn parse(&self, literal: &str) -> Number;

    fn add(&self, left: Number, right: Number) -> Number;

    fn subtract(&self, left: Number, right: Number) -> Number;

    fn multiply(&self, left: Number, right: Number) -> Number;

    fn divide(&self, left: Number, right: Number) -> Number;

    /// The decimal text of a value.
    fn format(&self, value: Number) -> String;
}

} // verus!
