//! IEEE 754 binary64 data, held by their bit patterns.
//!
//! A datum is a sign bit, eleven bits of biased exponent and fifty-two bits of
//! fraction.  The order of two data is decided on the bit patterns alone.

use vstd::prelude::*;
use vstd::arithmetic::power2::{
    lemma2_to64, lemma_pow2_pos, lemma_pow2_strictly_increases, lemma_pow2_unfold, pow2,
};

verus! {

/// The sign bit of a binary64 bit pattern.
pub const SIGN_BIT: u64 = 0x8000_0000_0000_0000;

/// The bit pattern of positive infinity: every exponent bit set, no fraction bit.
pub const INFINITY_BITS: u64 = 0x7ff0_0000_0000_0000;

/// The number of bit patterns that one exponent spans: two to the power 52,
/// the weight of the leading digit that a normal datum does not store.
pub const HIDDEN_BIT: u64 = 0x10_0000_0000_0000;

/// A binary64 datum.
#[derive(Clone, Copy, Debug)]
pub struct Binary64 {
    pub bits: u64,
}

impl Binary64 {
    /// The sign bit is set.  This holds of negative zero and of half the NaNs too.
    pub open spec fn sign_negative(self) -> bool {
        self.bits >= SIGN_BIT
    }

    /// The bit pattern without its sign bit.
    pub open spec fn magnitude(self) -> nat {
        if self.bits >= SIGN_BIT {
            (self.bits - SIGN_BIT) as nat
        } else {
            self.bits as nat
        }
    }

    /// The datum is not a number.
    pub open spec fn nan(self) -> bool {
        self.magnitude() > INFINITY_BITS
    }

    /// The datum is a number other than the two infinities.
    pub open spec fn finite(self) -> bool {
        self.magnitude() < INFINITY_BITS
    }

    /// The exponent field.
    pub open spec fn biased_exponent(self) -> nat {
        self.magnitude() / (HIDDEN_BIT as nat)
    }

    /// The fraction field.
    pub open spec fn fraction(self) -> nat {
        self.magnitude() % (HIDDEN_BIT as nat)
    }

    /// For a finite datum, its absolute value in units of two to the power
    /// -1074, the least positive datum.  A datum with exponent field zero
    /// is its fraction times that unit; any other has the hidden digit in
    /// front of its fraction and doubles with each step of the exponent.
    pub open spec fn scaled_magnitude(self) -> nat {
        if self.biased_exponent() == 0 {
            self.fraction()
        } else {
            (HIDDEN_BIT as nat + self.fraction()) * pow2((self.biased_exponent() - 1) as nat)
        }
    }

    /// For a finite datum, the number it stands for, in units of two to the
    /// power -1074.
    pub open spec fn scaled_value(self) -> int {
        if self.sign_negative() {
            -(self.scaled_magnitude() as int)
        } else {
            self.scaled_magnitude() as int
        }
    }

    /// For a finite datum, the distance to the next datum of larger
    /// magnitude, in units of two to the power -1074.
    pub open spec fn scaled_spacing(self) -> nat {
        if self.biased_exponent() == 0 {
            1
        } else {
            pow2((self.biased_exponent() - 1) as nat)
        }
    }

    /// The datum is finite and stands for the ratio `num / den` exactly.
    pub open spec fn equals_ratio(self, num: int, den: int) -> bool {
        &&& self.finite()
        &&& den > 0
        &&& self.scaled_value() * den == num * pow2(1074)
    }

    /// The datum is finite and lies within half a spacing of the ratio
    /// `num / den`: the ratio, rounded to binary64.
    pub open spec fn rounds_ratio(self, num: int, den: int) -> bool {
        &&& self.finite()
        &&& den > 0
        &&& 2 * (self.scaled_value() * den - num * pow2(1074)) <= den * self.scaled_spacing()
        &&& 2 * (num * pow2(1074) - self.scaled_value() * den) <= den * self.scaled_spacing()
    }

    /// An integer that is ordered as the datum is, among the data that are numbers.
    /// Both zeros have rank zero.
    pub open spec fn rank(self) -> int {
        if self.sign_negative() {
            -(self.magnitude() as int)
        } else {
            self.magnitude() as int
        }
    }

    /// The comparison `self < other` of IEEE 754: false when either side is not a
    /// number, else the order of the two numbers.
    pub open spec fn lt_spec(self, other: Binary64) -> bool {
        !self.nan() && !other.nan() && self.rank() < other.rank()
    }

    /// The comparison `self >= other` of IEEE 754: false when either side is
    /// not a number, else the order of the two numbers.
    pub open spec fn ge_spec(self, other: Binary64) -> bool {
        !self.nan() && !other.nan() && self.rank() >= other.rank()
    }

    /// The positive zero.
    pub open spec fn zero() -> Binary64 {
        Binary64 { bits: 0 }
    }

    /// The datum with the given bit pattern.
    pub fn from_bits(bits: u64) -> (x: Binary64)
        ensures
            x.bits == bits,
    {
        Binary64 { bits }
    }

    /// The bit pattern of the datum.
    pub fn to_bits(&self) -> (bits: u64)
        ensures
            bits == self.bits,
    {
        self.bits
    }

    /// Whether the datum is not a number.
    pub fn is_nan(&self) -> (r: bool)
        ensures
            r == self.nan(),
    {
        let magnitude: u64 = if self.bits >= SIGN_BIT {
            self.bits - SIGN_BIT
        } else {
            self.bits
        };
        magnitude > INFINITY_BITS
    }

    /// `self < other`.
    pub fn lt(&self, other: &Binary64) -> (r: bool)
        ensures
            r == self.lt_spec(*other),
    {
        if self.is_nan() || other.is_nan() {
            return false;
        }
        if self.bits >= SIGN_BIT {
            if other.bits >= SIGN_BIT {
                other.bits < self.bits
            } else {
                self.bits > SIGN_BIT || other.bits > 0
            }
        } else {
            other.bits < SIGN_BIT && self.bits < other.bits
        }
    }

    /// `self >= other`.
    pub fn ge(&self, other: &Binary64) -> (r: bool)
        ensures
            r == self.ge_spec(*other),
    {
        !self.is_nan() && !other.is_nan() && !self.lt(other)
    }
}

/// Among finite data of one sign, the larger bit pattern stands for the
/// larger absolute value.
proof fn lemma_scaled_magnitude_increases(a: Binary64, b: Binary64)
    requires
        a.finite(),
        b.finite(),
        a.magnitude() < b.magnitude(),
    ensures
        a.scaled_magnitude() < b.scaled_magnitude(),
{
    let h = HIDDEN_BIT as nat;
    let (ea, fa) = (a.biased_exponent(), a.fraction());
    let (eb, fb) = (b.biased_exponent(), b.fraction());
    assert(a.magnitude() == ea * h + fa && fa < h);
    assert(b.magnitude() == eb * h + fb && fb < h);
    assert(ea <= eb);
    if ea == eb {
        if ea != 0 {
            let p = pow2((ea - 1) as nat);
            lemma_pow2_pos((ea - 1) as nat);
            assert((h + fa) * p < (h + fb) * p) by (nonlinear_arith)
                requires
                    fa < fb,
                    p > 0,
            ;
        }
    } else {
        // Everything below exponent ea + 1 is below h * 2^ea, and everything
        // from exponent ea + 1 on is at least that.
        let bound = h * pow2(ea);
        assert(a.scaled_magnitude() < bound) by {
            if ea == 0 {
                lemma2_to64();
            } else {
                let p = pow2((ea - 1) as nat);
                lemma_pow2_pos((ea - 1) as nat);
                lemma_pow2_unfold(ea);
                assert((h + fa) * p < h * (2 * p)) by (nonlinear_arith)
                    requires
                        fa < h,
                        p > 0,
                ;
            }
        }
        assert(bound <= b.scaled_magnitude()) by {
            let q = pow2((eb - 1) as nat);
            if ea < eb - 1 {
                lemma_pow2_strictly_increases(ea, (eb - 1) as nat);
            }
            assert(h * pow2(ea) <= (h + fb) * q) by (nonlinear_arith)
                requires
                    pow2(ea) <= q,
                    h > 0,
            ;
        }
    }
}

/// One direction of [`lemma_lt_orders_values`].
proof fn lemma_lower_rank_lower_value(a: Binary64, b: Binary64)
    requires
        a.finite(),
        b.finite(),
        a.rank() < b.rank(),
    ensures
        a.scaled_value() < b.scaled_value(),
{
    let zero = Binary64 { bits: 0 };
    if a.magnitude() > 0 {
        lemma_scaled_magnitude_increases(zero, a);
    }
    if b.magnitude() > 0 {
        lemma_scaled_magnitude_increases(zero, b);
    }
    if a.sign_negative() && b.sign_negative() {
        lemma_scaled_magnitude_increases(b, a);
    } else if !a.sign_negative() && !b.sign_negative() {
        lemma_scaled_magnitude_increases(a, b);
    }
}

/// Among finite data, `lt_spec` and `ge_spec` are the order of the numbers
/// that the data stand for.  In particular the two zeros are below each
/// other in neither direction.
pub proof fn lemma_lt_orders_values(a: Binary64, b: Binary64)
    requires
        a.finite(),
        b.finite(),
    ensures
        a.lt_spec(b) <==> a.scaled_value() < b.scaled_value(),
        a.ge_spec(b) <==> a.scaled_value() >= b.scaled_value(),
{
    if a.rank() < b.rank() {
        lemma_lower_rank_lower_value(a, b);
    } else if b.rank() < a.rank() {
        lemma_lower_rank_lower_value(b, a);
    }
}

/// `lt_spec` is a strict order: nothing is below itself, no two data are
/// below each other, and what is below a datum is below all that the datum
/// is below.
pub proof fn lemma_lt_is_a_strict_order(a: Binary64, b: Binary64, c: Binary64)
    ensures
        !a.lt_spec(a),
        a.lt_spec(b) ==> !b.lt_spec(a),
        a.lt_spec(b) && b.lt_spec(c) ==> a.lt_spec(c),
{
}

/// What is not a number is below nothing and at least nothing, and the
/// infinities lie beyond every finite datum.
pub proof fn lemma_lt_beyond_the_finite(a: Binary64, b: Binary64)
    ensures
        a.nan() || b.nan() ==> !a.lt_spec(b) && !a.ge_spec(b),
        !a.nan() && !b.nan() ==> (a.ge_spec(b) <==> !a.lt_spec(b)),
        a.finite() && b.magnitude() == INFINITY_BITS ==> (a.lt_spec(b) <==> !b.sign_negative()),
        a.magnitude() == INFINITY_BITS && b.finite() ==> (a.lt_spec(b) <==> a.sign_negative()),
{
}

} // verus!
