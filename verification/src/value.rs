use crate::scalar::{Scalar, INFINITY_BITS, MAGNITUDE_MASK};
use crate::scalar::SIGN_BIT;
use vstd::arithmetic::div_mod::{lemma_basic_div, lemma_div_multiples_vanish_quotient};
use vstd::arithmetic::power2::{
    lemma2_to64,
    lemma2_to64_rest,
    lemma_pow2_adds,
    lemma_pow2_pos,
    lemma_pow2_strictly_increases,
    lemma_pow2_unfold,
    pow2,
};
use vstd::bits::lemma_u64_shr_is_div;
use vstd::prelude::*;

verus! {

/// The fifty-two bits below the exponent field of a binary64 pattern.
pub const FRACTION_MASK: u64 = 0x000f_ffff_ffff_ffffu64;

/// The bit that a normal number's significand has above its fraction: `2^52`.
pub const HIDDEN_BIT: u64 = 0x0010_0000_0000_0000u64;

/// The exponent field of every infinity and NaN.
pub const TOP_EXPONENT: u64 = 0x7ffu64;

impl Scalar {
    /// The biased exponent field.
    pub open spec fn exponent(self) -> nat {
        ((self.bits >> 52) & TOP_EXPONENT) as nat
    }

    /// The fraction field.
    pub open spec fn fraction(self) -> nat {
        (self.bits & FRACTION_MASK) as nat
    }

    /// Whether the pattern is a number that is neither an infinity nor a NaN.
    pub open spec fn finite(self) -> bool {
        self.exponent() < TOP_EXPONENT
    }

    /// Whether the pattern is one of the two infinities.
    pub open spec fn infinite(self) -> bool {
        self.exponent() == TOP_EXPONENT && self.fraction() == 0
    }

    /// The absolute value of a finite number in units of `2^-1074`, the
    /// smallest positive binary64: a subnormal is its fraction, a normal
    /// number its significand times a power of two.
    pub open spec fn size(self) -> int {
        if self.exponent() == 0 {
            self.fraction() as int
        } else {
            (HIDDEN_BIT + self.fraction()) * pow2((self.exponent() - 1) as nat)
        }
    }

    /// The finite number that the pattern encodes, in units of `2^-1074`.
    pub open spec fn value(self) -> int {
        if self.negative() {
            -self.size()
        } else {
            self.size()
        }
    }

    /// The absolute value of a finite number rounded towards zero.
    pub open spec fn whole(self) -> int {
        self.size() / (pow2(1074) as int)
    }

    /// The value as a colour channel's byte takes it: rounded towards zero
    /// and held within `0..=255`, a NaN counting as zero.
    pub open spec fn byte(self) -> int {
        if self.nan() || self.negative() {
            0
        } else if self.infinite() || self.whole() >= 255 {
            255
        } else {
            self.whole()
        }
    }

    /// Whether the value is neither an infinity nor a NaN.
    pub fn is_finite(self) -> (r: bool)
        ensures
            r == self.finite(),
    {
        proof {
            magnitude_is_fields(self);
        }
        (self.bits & MAGNITUDE_MASK) < INFINITY_BITS
    }

    /// The saturating conversion to a byte: what is below zero or no number
    /// gives `0`, what is above `255` gives `255`, and what lies between
    /// loses its fractional part.
    pub fn to_u8(self) -> (r: u8)
        ensures
            r == self.byte(),
    {
        let bits: u64 = self.bits;
        let m: u64 = bits & MAGNITUDE_MASK;
        if m > INFINITY_BITS || bits & SIGN_BIT != 0 {
            return 0;
        }
        let e: u64 = m >> 52;
        let sig: u64 = (m & FRACTION_MASK) | HIDDEN_BIT;
        proof {
            magnitude_is_fields(self);
            assert((bits & MAGNITUDE_MASK) >> 52 == (bits >> 52) & TOP_EXPONENT) by (bit_vector);
            assert(((bits & MAGNITUDE_MASK) & FRACTION_MASK) | HIDDEN_BIT == (bits & FRACTION_MASK)
                + HIDDEN_BIT) by (bit_vector);
        }
        if e < 1023 {
            proof {
                whole_of_a_fraction(self);
            }
            return 0;
        }
        if e > 1030 {
            proof {
                if self.finite() {
                    whole_of_a_large_number(self);
                }
            }
            return 255;
        }
        let shift: u64 = 1075 - e;
        let whole: u64 = sig >> shift;
        proof {
            whole_of_a_small_number(self);
            lemma_u64_shr_is_div(sig, shift);
            assert(sig >> shift < 256) by (bit_vector)
                requires
                    sig < 0x0020_0000_0000_0000u64,
                    45 <= shift <= 52,
            ;
        }
        whole as u8
    }
}

/// A finite number below one has no whole part.
pub proof fn whole_of_a_fraction(a: Scalar)
    requires
        a.exponent() < 1023,
    ensures
        a.whole() == 0,
{
    magnitude_is_fields(a);
    lemma2_to64_rest();
    let h = HIDDEN_BIT as int;
    let f = a.fraction() as int;
    let e = a.exponent();
    lemma_pow2_adds(52, 1022);
    lemma_pow2_pos(1022);
    let top = pow2(1022) as int;
    assert(h <= h * top) by (nonlinear_arith)
        requires
            top >= 1,
            h >= 0,
    ;
    if e > 0 {
        let p = pow2((e - 1) as nat) as int;
        lemma_pow2_pos((e - 1) as nat);
        lemma_pow2_unfold(e);
        if e < 1022 {
            lemma_pow2_strictly_increases(e, 1022);
        }
        assert((h + f) * p < h * top) by (nonlinear_arith)
            requires
                0 <= f < h,
                p > 0,
                2 * p <= top,
        ;
    }
    lemma_basic_div(a.size(), pow2(1074) as int);
}

/// A finite number of `256` or more has a whole part of `256` or more.
pub proof fn whole_of_a_large_number(a: Scalar)
    requires
        a.finite(),
        a.exponent() > 1030,
    ensures
        a.whole() >= 256,
{
    magnitude_is_fields(a);
    lemma2_to64();
    lemma2_to64_rest();
    let h = HIDDEN_BIT as int;
    let f = a.fraction() as int;
    let e = a.exponent();
    let p = pow2((e - 1) as nat) as int;
    let unit = pow2(1074) as int;
    lemma_pow2_pos(1074);
    lemma_pow2_adds(52, 1030);
    lemma_pow2_adds(8, 1074);
    if e - 1 > 1030 {
        lemma_pow2_strictly_increases(1030, (e - 1) as nat);
    }
    let low = pow2(1030) as int;
    assert((h + f) * p >= h * low) by (nonlinear_arith)
        requires
            0 <= f,
            0 <= h,
            0 <= low <= p,
    ;
    let size = a.size();
    assert(size / unit >= 256) by (nonlinear_arith)
        requires
            size >= 256 * unit,
            unit > 0,
    ;
}

/// The whole part of a number from `1` up to, but not including, `256` is
/// its significand without the bits that stand behind the binary point.
pub proof fn whole_of_a_small_number(a: Scalar)
    requires
        1023 <= a.exponent() <= 1030,
    ensures
        a.whole() == (HIDDEN_BIT + a.fraction()) / (pow2((1075 - a.exponent()) as nat) as int),
{
    let e = a.exponent();
    let sig = (HIDDEN_BIT + a.fraction()) as int;
    let p = pow2((e - 1) as nat) as int;
    let q = pow2((1075 - e) as nat) as int;
    lemma_pow2_pos((e - 1) as nat);
    lemma_pow2_pos((1075 - e) as nat);
    lemma_pow2_adds((e - 1) as nat, (1075 - e) as nat);
    lemma_div_multiples_vanish_quotient(p, sig, q);
    assert(sig * p == p * sig) by (nonlinear_arith);
}

/// A pattern's magnitude is its exponent field followed by its fraction
/// field.
pub proof fn magnitude_is_fields(a: Scalar)
    ensures
        a.magnitude() == a.exponent() * HIDDEN_BIT + a.fraction(),
        a.fraction() < HIDDEN_BIT,
        a.exponent() <= TOP_EXPONENT,
        a.finite() <==> a.magnitude() < INFINITY_BITS,
        a.infinite() <==> a.magnitude() == INFINITY_BITS,
        a.nan() <==> !a.finite() && !a.infinite(),
{
    let x = a.bits;
    assert(x & MAGNITUDE_MASK == ((x >> 52) & TOP_EXPONENT) * HIDDEN_BIT + (x & FRACTION_MASK))
        by (bit_vector);
    assert(x & FRACTION_MASK < HIDDEN_BIT) by (bit_vector);
    assert((x >> 52) & TOP_EXPONENT <= TOP_EXPONENT) by (bit_vector);
}

/// Among finite numbers a larger magnitude encodes a larger absolute value.
pub proof fn size_grows_with_magnitude(a: Scalar, b: Scalar)
    requires
        a.finite(),
        b.finite(),
        a.magnitude() < b.magnitude(),
    ensures
        a.size() < b.size(),
{
    magnitude_is_fields(a);
    magnitude_is_fields(b);
    let h = HIDDEN_BIT as int;
    let ea = a.exponent();
    let eb = b.exponent();
    let fa = a.fraction() as int;
    let fb = b.fraction() as int;
    assert(ea <= eb) by (nonlinear_arith)
        requires
            ea * h + fa < eb * h + fb,
            0 <= fa < h,
            0 <= fb < h,
    ;
    if ea == eb {
        assert(fa < fb);
        if ea > 0 {
            let p = pow2((ea - 1) as nat) as int;
            lemma_pow2_pos((ea - 1) as nat);
            assert((h + fa) * p < (h + fb) * p) by (nonlinear_arith)
                requires
                    fa < fb,
                    p > 0,
            ;
        }
    } else {
        let pb = pow2((eb - 1) as nat) as int;
        lemma_pow2_pos((eb - 1) as nat);
        if ea == 0 {
            assert(h <= (h + fb) * pb) by (nonlinear_arith)
                requires
                    pb >= 1,
                    fb >= 0,
                    h >= 0,
            ;
        } else {
            let pa = pow2((ea - 1) as nat) as int;
            lemma_pow2_pos((ea - 1) as nat);
            lemma_pow2_unfold(ea);
            if ea < eb - 1 {
                lemma_pow2_strictly_increases(ea, (eb - 1) as nat);
            }
            assert(2 * pa <= pb);
            assert((h + fa) * pa < (h + fb) * pb) by (nonlinear_arith)
                requires
                    0 <= fa < h,
                    0 <= fb,
                    pa > 0,
                    2 * pa <= pb,
            ;
        }
    }
}

/// The order and the equality of the patterns are those of the numbers:
/// of two finite values the first is below the second exactly when it
/// encodes the smaller number, and the two are equal exactly when they
/// encode the same number.
pub proof fn order_is_numeric(a: Scalar, b: Scalar)
    requires
        a.finite(),
        b.finite(),
    ensures
        a.below(b) <==> a.value() < b.value(),
        a.same(b) <==> a.value() == b.value(),
        a.positive() <==> a.value() > 0,
{
    magnitude_is_fields(a);
    magnitude_is_fields(b);
    if a.magnitude() < b.magnitude() {
        size_grows_with_magnitude(a, b);
    }
    if b.magnitude() < a.magnitude() {
        size_grows_with_magnitude(b, a);
    }
    let zero = Scalar { bits: 0 };
    assert(0u64 & MAGNITUDE_MASK == 0 && (0u64 >> 52) & TOP_EXPONENT == 0 && 0u64 & FRACTION_MASK
        == 0) by (bit_vector);
    if zero.magnitude() < a.magnitude() {
        size_grows_with_magnitude(zero, a);
    }
    assert(a.magnitude() == 0 ==> a.size() == 0) by {
        assert(a.magnitude() == 0 ==> a.exponent() == 0 && a.fraction() == 0) by (nonlinear_arith)
            requires
                a.magnitude() == a.exponent() * HIDDEN_BIT + a.fraction(),
        ;
    }
    assert(b.magnitude() == 0 ==> b.size() == 0) by {
        assert(b.magnitude() == 0 ==> b.exponent() == 0 && b.fraction() == 0) by (nonlinear_arith)
            requires
                b.magnitude() == b.exponent() * HIDDEN_BIT + b.fraction(),
        ;
    }
}

/// Every finite number lies strictly between the two infinities.
pub proof fn infinities_bound(a: Scalar, end: Scalar)
    requires
        a.finite(),
        end.infinite(),
    ensures
        end.negative() ==> end.below(a),
        !end.negative() ==> a.below(end),
{
    magnitude_is_fields(a);
    magnitude_is_fields(end);
}

} // verus!
