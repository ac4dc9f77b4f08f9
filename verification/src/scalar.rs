use vstd::prelude::*;
use vstd::std_specs::cmp::PartialEqSpecImpl;

verus! {

/// The sign bit of a binary64 pattern.
pub const SIGN_BIT: u64 = 0x8000_0000_0000_0000u64;

/// Every bit of a binary64 pattern but the sign.
pub const MAGNITUDE_MASK: u64 = 0x7fff_ffff_ffff_ffffu64;

/// The pattern of positive infinity: larger magnitudes are NaNs.
pub const INFINITY_BITS: u64 = 0x7ff0_0000_0000_0000u64;

/// The pattern of the largest finite value.
pub const MAX_BITS: u64 = 0x7fef_ffff_ffff_ffffu64;

/// The pattern of `1`.
pub const ONE_BITS: u64 = 0x3ff0_0000_0000_0000u64;

/// An IEEE-754 binary64 value, held as its bit pattern.
#[derive(Clone, Copy, Debug)]
pub struct Scalar {
    pub bits: u64,
}

impl Scalar {
    /// The pattern without its sign bit.
    pub open spec fn magnitude(self) -> int {
        (self.bits & MAGNITUDE_MASK) as int
    }

    /// Whether the sign bit is set.
    pub open spec fn negative(self) -> bool {
        self.bits & SIGN_BIT != 0
    }

    /// Whether the pattern is a NaN: its magnitude lies above infinity's.
    pub open spec fn nan(self) -> bool {
        self.magnitude() > INFINITY_BITS
    }

    /// The place of a value that is no NaN on the extended real line:
    /// binary64 values are ordered as their sign-magnitude integers are, and
    /// the two zeros share the place `0`.
    pub open spec fn rank(self) -> int {
        if self.negative() {
            -self.magnitude()
        } else {
            self.magnitude()
        }
    }

    /// The IEEE `<`: false as soon as one side is a NaN.
    pub open spec fn below(self, other: Scalar) -> bool {
        &&& !self.nan()
        &&& !other.nan()
        &&& self.rank() < other.rank()
    }

    /// The IEEE `==`: false as soon as one side is a NaN, true of the two zeros.
    pub open spec fn same(self, other: Scalar) -> bool {
        &&& !self.nan()
        &&& !other.nan()
        &&& self.rank() == other.rank()
    }

    /// The IEEE `> 0`.
    pub open spec fn positive(self) -> bool {
        !self.nan() && self.rank() > 0
    }

    /// The value with its sign bit flipped, which is IEEE negation.
    pub open spec fn negated(self) -> Scalar {
        Scalar { bits: self.bits ^ SIGN_BIT }
    }

    pub fn from_bits(bits: u64) -> (r: Scalar)
        ensures
            r.bits == bits,
    {
        Scalar { bits }
    }

    pub fn to_bits(self) -> (r: u64)
        ensures
            r == self.bits,
    {
        self.bits
    }

    /// Positive zero.
    pub fn zero() -> (r: Scalar)
        ensures
            r.bits == 0,
            !r.nan(),
            r.rank() == 0,
    {
        assert(0u64 & MAGNITUDE_MASK == 0 && 0u64 & SIGN_BIT == 0) by (bit_vector);
        Scalar { bits: 0 }
    }

    /// One.
    pub fn one() -> (r: Scalar)
        ensures
            r.bits == ONE_BITS,
            !r.nan(),
            r.rank() == ONE_BITS,
    {
        assert(ONE_BITS & MAGNITUDE_MASK == ONE_BITS && ONE_BITS & SIGN_BIT == 0) by (bit_vector);
        Scalar { bits: ONE_BITS }
    }

    /// The largest finite value.
    pub fn max() -> (r: Scalar)
        ensures
            r.bits == MAX_BITS,
            !r.nan(),
            r.rank() == MAX_BITS,
    {
        assert(MAX_BITS & MAGNITUDE_MASK == MAX_BITS && MAX_BITS & SIGN_BIT == 0) by (bit_vector);
        Scalar { bits: MAX_BITS }
    }

    pub fn is_nan(self) -> (r: bool)
        ensures
            r == self.nan(),
    {
        (self.bits & MAGNITUDE_MASK) > INFINITY_BITS
    }

    /// `self < other` as IEEE-754 orders the two values.
    pub fn lt(self, other: Scalar) -> (r: bool)
        ensures
            r == self.below(other),
    {
        let a: u64 = self.bits & MAGNITUDE_MASK;
        let b: u64 = other.bits & MAGNITUDE_MASK;
        if a > INFINITY_BITS || b > INFINITY_BITS {
            return false;
        }
        let a_negative = self.bits & SIGN_BIT != 0;
        let b_negative = other.bits & SIGN_BIT != 0;
        if a_negative {
            if b_negative {
                b < a
            } else {
                a != 0 || b != 0
            }
        } else {
            if b_negative {
                false
            } else {
                a < b
            }
        }
    }

    /// `self > other` as IEEE-754 orders the two values.
    pub fn gt(self, other: Scalar) -> (r: bool)
        ensures
            r == other.below(self),
    {
        other.lt(self)
    }

    /// `self > 0`.
    pub fn is_positive(self) -> (r: bool)
        ensures
            r == self.positive(),
    {
        let a: u64 = self.bits & MAGNITUDE_MASK;
        a != 0 && a <= INFINITY_BITS && self.bits & SIGN_BIT == 0
    }

    /// `self < 0`.
    pub fn is_negative(self) -> (r: bool)
        ensures
            r == (!self.nan() && self.rank() < 0),
    {
        let a: u64 = self.bits & MAGNITUDE_MASK;
        a != 0 && a <= INFINITY_BITS && self.bits & SIGN_BIT != 0
    }

    /// `-self`: the magnitude stays, the sign flips, a NaN stays a NaN.
    pub fn neg(self) -> (r: Scalar)
        ensures
            r == self.negated(),
            r.magnitude() == self.magnitude(),
            r.negative() == !self.negative(),
            r.nan() == self.nan(),
            r.rank() == -self.rank(),
    {
        let bits: u64 = self.bits;
        assert((bits ^ SIGN_BIT) & MAGNITUDE_MASK == bits & MAGNITUDE_MASK) by (bit_vector);
        assert(((bits ^ SIGN_BIT) & SIGN_BIT != 0) == (bits & SIGN_BIT == 0)) by (bit_vector);
        Scalar { bits: bits ^ SIGN_BIT }
    }
}

impl PartialEq for Scalar {
    fn eq(&self, other: &Scalar) -> (r: bool) {
        let a: u64 = self.bits & MAGNITUDE_MASK;
        let b: u64 = other.bits & MAGNITUDE_MASK;
        if a > INFINITY_BITS || b > INFINITY_BITS {
            return false;
        }
        if a == 0 && b == 0 {
            return true;
        }
        proof {
            let x = self.bits;
            let y = other.bits;
            assert(x == y <==> (x & MAGNITUDE_MASK == y & MAGNITUDE_MASK && ((x & SIGN_BIT != 0)
                == (y & SIGN_BIT != 0)))) by (bit_vector);
        }
        self.bits == other.bits
    }
}

impl PartialEqSpecImpl for Scalar {
    open spec fn obeys_eq_spec() -> bool {
        true
    }

    open spec fn eq_spec(&self, other: &Scalar) -> bool {
        self.same(*other)
    }
}

/// `<` is irreflexive and transitive, and no two values are each below the
/// other.
pub proof fn below_is_strict_order(a: Scalar, b: Scalar, c: Scalar)
    ensures
        !a.below(a),
        a.below(b) ==> !b.below(a),
        a.below(b) && b.below(c) ==> a.below(c),
{
}

/// Of two values that are no NaNs exactly one holds: the first is below the
/// second, the two are equal, or the second is below the first.
pub proof fn below_is_total(a: Scalar, b: Scalar)
    requires
        !a.nan(),
        !b.nan(),
    ensures
        a.below(b) || a.same(b) || b.below(a),
        !(a.below(b) && a.same(b)),
        !(b.below(a) && a.same(b)),
{
}

/// Negation turns the order round.
pub proof fn negation_reverses(a: Scalar, b: Scalar)
    ensures
        a.negated().below(b.negated()) == b.below(a),
        a.negated().negated() == a,
{
    let x = a.bits;
    let y = b.bits;
    assert((x ^ SIGN_BIT) & MAGNITUDE_MASK == x & MAGNITUDE_MASK) by (bit_vector);
    assert(((x ^ SIGN_BIT) & SIGN_BIT != 0) == (x & SIGN_BIT == 0)) by (bit_vector);
    assert((y ^ SIGN_BIT) & MAGNITUDE_MASK == y & MAGNITUDE_MASK) by (bit_vector);
    assert(((y ^ SIGN_BIT) & SIGN_BIT != 0) == (y & SIGN_BIT == 0)) by (bit_vector);
    assert((x ^ SIGN_BIT) ^ SIGN_BIT == x) by (bit_vector);
}

} // verus!
