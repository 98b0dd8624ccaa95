//! IEEE-754 doubles, held by their bit pattern.
//!
//! Distances, thresholds, the coordinates of embeddings and the numbers of
//! JSON are doubles. The verified code never computes with them. It orders
//! them: `rank` maps a bit pattern to an integer that grows with the number
//! the pattern stands for, so that comparing ranks compares the numbers.
//! `value` says which number that is, and `rank_orders_values` proves that
//! the two agree.

use vstd::arithmetic::power2::{
    lemma2_to64,
    lemma2_to64_rest,
    lemma_pow2_adds,
    lemma_pow2_pos,
    lemma_pow2_strictly_increases,
    lemma_pow2_unfold,
    pow2,
};
use vstd::prelude::*;

verus! {

/// The sign bit of a double.
pub const SIGN_BIT: u64 = 0x8000_0000_0000_0000;

/// The pattern of positive infinity. Larger magnitudes are NaNs.
pub const INFINITY_BITS: u64 = 0x7ff0_0000_0000_0000;

/// The pattern of `1.0`.
pub const ONE_BITS: u64 = 0x3ff0_0000_0000_0000;

/// The pattern without its sign bit.
pub open spec fn magnitude(bits: u64) -> int {
    if bits >= SIGN_BIT {
        bits - SIGN_BIT
    } else {
        bits as int
    }
}

/// Whether the pattern is a NaN, of either sign.
pub open spec fn nan_bits(bits: u64) -> bool {
    magnitude(bits) > INFINITY_BITS
}

/// The place of a pattern in the numeric order of the doubles.
///
/// Both zeros have rank 0, a negative number has the negated magnitude of
/// its pattern, and every NaN ranks directly above positive infinity.
pub open spec fn rank(bits: u64) -> int {
    if nan_bits(bits) {
        INFINITY_BITS + 1
    } else if bits >= SIGN_BIT {
        -magnitude(bits)
    } else {
        magnitude(bits)
    }
}

/// One double, by its bits. Two of them are equal where their bits are:
/// `0.0` and `-0.0` are not, and a NaN equals itself.
#[derive(Clone, Copy, Debug, PartialEq, Eq, Structural)]
pub struct Double {
    pub bits: u64,
}

impl Double {
    /// The rank of the bit pattern.
    pub open spec fn spec_rank(&self) -> int {
        rank(self.bits)
    }

    pub open spec fn spec_is_nan(&self) -> bool {
        nan_bits(self.bits)
    }

    /// Whether the double is `0.0` or `-0.0`.
    pub open spec fn spec_is_zero(&self) -> bool {
        rank(self.bits) == 0
    }

    /// Whether the double is a number from `0.0` to `1.0`, both included.
    pub open spec fn spec_in_unit_interval(&self) -> bool {
        !nan_bits(self.bits) && 0 <= rank(self.bits) <= ONE_BITS
    }

    /// Whether this double is at most `other` in the numeric order, NaN last.
    pub open spec fn spec_le(&self, other: &Double) -> bool {
        rank(self.bits) <= rank(other.bits)
    }

    pub fn from_bits(bits: u64) -> (s: Double)
        ensures
            s.bits == bits,
    {
        Double { bits }
    }

    pub fn to_bits(&self) -> (bits: u64)
        ensures
            bits == self.bits,
    {
        self.bits
    }

    /// The double `0.0`.
    pub fn zero() -> (s: Double)
        ensures
            s.bits == 0,
            s.spec_is_zero(),
    {
        Double { bits: 0 }
    }

    #[verifier::when_used_as_spec(spec_is_nan)]
    pub fn is_nan(&self) -> (b: bool)
        ensures
            b == self.spec_is_nan(),
    {
        let m: u64 = if self.bits >= SIGN_BIT {
            self.bits - SIGN_BIT
        } else {
            self.bits
        };
        m > INFINITY_BITS
    }

    /// The rank as a machine integer.
    pub fn rank(&self) -> (r: i64)
        ensures
            r == self.spec_rank(),
    {
        let negative: bool = self.bits >= SIGN_BIT;
        let m: u64 = if negative {
            self.bits - SIGN_BIT
        } else {
            self.bits
        };
        if m > INFINITY_BITS {
            0x7ff0_0000_0000_0001i64
        } else if negative {
            -(m as i64)
        } else {
            m as i64
        }
    }

    #[verifier::when_used_as_spec(spec_is_zero)]
    pub fn is_zero(&self) -> (b: bool)
        ensures
            b == self.spec_is_zero(),
    {
        self.bits == 0 || self.bits == SIGN_BIT
    }

    #[verifier::when_used_as_spec(spec_in_unit_interval)]
    pub fn in_unit_interval(&self) -> (b: bool)
        ensures
            b == self.spec_in_unit_interval(),
    {
        self.bits <= ONE_BITS || self.bits == SIGN_BIT
    }

    #[verifier::when_used_as_spec(spec_le)]
    pub fn le(&self, other: &Double) -> (b: bool)
        ensures
            b == self.spec_le(other),
    {
        self.rank() <= other.rank()
    }
}

/// The weight of the bit that a normal number has in front of its fraction.
pub const HIDDEN_BIT: u64 = 0x0010_0000_0000_0000;

/// Every double is a whole multiple of two to the power of -1074. This is
/// the number one as such a multiple.
pub open spec fn unit() -> int {
    pow2(1074) as int
}

/// The exponent field of a magnitude.
pub open spec fn exponent(magnitude: int) -> int {
    magnitude / (HIDDEN_BIT as int)
}

/// The fraction field of a magnitude.
pub open spec fn fraction(magnitude: int) -> int {
    magnitude % (HIDDEN_BIT as int)
}

/// The number that a magnitude stands for, in multiples of the smallest
/// double: `unit()` of them make one.
///
/// With an exponent field of zero the number is the fraction itself. With
/// an exponent field of `e` it is the fraction behind the hidden bit,
/// doubled `e - 1` times. The magnitude of an infinity comes out past every
/// finite number.
pub open spec fn scaled(magnitude: int) -> int {
    if exponent(magnitude) <= 0 {
        fraction(magnitude)
    } else {
        (HIDDEN_BIT + fraction(magnitude)) * pow2((exponent(magnitude) - 1) as nat)
    }
}

/// The number that a pattern stands for, in multiples of the smallest
/// double.
pub open spec fn value(bits: u64) -> int {
    if bits >= SIGN_BIT {
        -scaled(magnitude(bits))
    } else {
        scaled(magnitude(bits))
    }
}

/// A larger magnitude stands for a larger number.
pub proof fn lemma_scaled_increases(a: int, b: int)
    requires
        0 <= a < b,
    ensures
        0 <= scaled(a) < scaled(b),
{
    let h = HIDDEN_BIT as int;
    let (ea, fa) = (exponent(a), fraction(a));
    let (eb, fb) = (exponent(b), fraction(b));
    assert(a == h * ea + fa && 0 <= fa < h);
    assert(b == h * eb + fb && 0 <= fb < h);
    assert(0 <= ea <= eb);
    if ea > 0 {
        let pa = pow2((ea - 1) as nat);
        lemma_pow2_pos((ea - 1) as nat);
        assert(0 <= (h + fa) * pa) by (nonlinear_arith)
            requires
                0 <= fa,
                h > 0,
                pa > 0,
        ;
    }
    if ea == eb {
        assert(fa < fb);
        if ea > 0 {
            let p = pow2((ea - 1) as nat);
            lemma_pow2_pos((ea - 1) as nat);
            assert((h + fa) * p < (h + fb) * p) by (nonlinear_arith)
                requires
                    fa < fb,
                    p > 0,
            ;
        }
    } else {
        let pb = pow2((eb - 1) as nat);
        lemma_pow2_pos((eb - 1) as nat);
        let top = pow2(ea as nat);
        lemma_pow2_pos(ea as nat);
        assert(scaled(a) < h * top) by {
            if ea == 0 {
                lemma2_to64();
            } else {
                let pa = pow2((ea - 1) as nat);
                lemma_pow2_pos((ea - 1) as nat);
                lemma_pow2_unfold(ea as nat);
                assert((h + fa) * pa < h * (2 * pa)) by (nonlinear_arith)
                    requires
                        0 <= fa < h,
                        pa > 0,
                ;
            }
        }
        assert(top <= pb) by {
            if ea < eb - 1 {
                lemma_pow2_strictly_increases(ea as nat, (eb - 1) as nat);
            }
        }
        assert(h * top <= (h + fb) * pb) by (nonlinear_arith)
            requires
                0 < top <= pb,
                0 <= fb,
                h > 0,
        ;
    }
}

/// Magnitudes are in the order of the numbers they stand for, and only the
/// magnitude zero stands for zero.
pub proof fn lemma_scaled_orders(a: int, b: int)
    requires
        0 <= a,
        0 <= b,
    ensures
        a <= b <==> scaled(a) <= scaled(b),
        a == b <==> scaled(a) == scaled(b),
        scaled(a) >= 0,
        a == 0 <==> scaled(a) == 0,
{
    if a < b {
        lemma_scaled_increases(a, b);
    }
    if b < a {
        lemma_scaled_increases(b, a);
    }
    if 0 < a {
        lemma_scaled_increases(0, a);
    }
}

/// Ranks are in the order of the numbers.
///
/// Of two patterns that are no NaN, the one has the smaller rank exactly
/// where it stands for the smaller number, and the same rank exactly where
/// it stands for the same number. The two zeros are the same number.
pub proof fn rank_orders_values(a: u64, b: u64)
    requires
        !nan_bits(a),
        !nan_bits(b),
    ensures
        rank(a) <= rank(b) <==> value(a) <= value(b),
        rank(a) == rank(b) <==> value(a) == value(b),
{
    lemma_scaled_orders(magnitude(a), magnitude(b));
    lemma_scaled_orders(magnitude(b), magnitude(a));
}

/// The pattern `ONE_BITS` stands for the number one, and the pattern zero
/// for zero.
pub proof fn one_is_one()
    ensures
        value(ONE_BITS) == unit(),
        value(0) == 0,
{
    lemma2_to64_rest();
    assert(exponent(ONE_BITS as int) == 1023);
    assert(fraction(ONE_BITS as int) == 0);
    lemma_pow2_adds(52, 1022);
}

/// A double is in the unit interval exactly where it is a number from zero
/// to one.
pub proof fn unit_interval_is_zero_to_one(double: Double)
    ensures
        double.spec_in_unit_interval() <==> !nan_bits(double.bits) && 0 <= value(double.bits)
            <= unit(),
{
    one_is_one();
    lemma_scaled_orders(magnitude(double.bits), ONE_BITS as int);
    lemma_scaled_orders(magnitude(double.bits), 0);
}

} // verus!
