//! The chain's scalar values: a field element below the field's prime, and the
//! 256-bit unsigned integer that contract interfaces spell as two 128-bit words.

use vstd::arithmetic::power2::{
    lemma2_to64, lemma2_to64_rest, lemma_pow2_adds, lemma_pow2_strictly_increases,
    lemma_pow2_unfold, pow2,
};
use vstd::prelude::*;

verus! {

/// Two to the power 128: the weight of the high word of a 256-bit integer.
pub open spec fn word_base() -> nat {
    0x1_0000_0000_0000_0000_0000_0000_0000_0000nat
}

/// The prime of the scalar field: 2^251 + 17 * 2^192 + 1.
pub open spec fn field_prime() -> nat {
    0x800_0000_0000_0011_0000_0000_0000_0000_0000_0000_0000_0000_0000_0000_0000_0001nat
}

/// The high word of the field's prime. Its low word is 1.
pub const FIELD_PRIME_HIGH: u128 = 0x0800_0000_0000_0011_0000_0000_0000_0000u128;

/// The number that a high and a low 128-bit word spell together.
pub open spec fn words_value(high: u128, low: u128) -> nat {
    high as nat * word_base() + low as nat
}

/// A 256-bit unsigned integer as two 128-bit words.
#[derive(Clone, Copy, Debug, PartialEq, Eq)]
pub struct U256 {
    pub high: u128,
    pub low: u128,
}

impl View for U256 {
    type V = nat;

    open spec fn view(&self) -> nat {
        words_value(self.high, self.low)
    }
}

impl U256 {
    /// Builds the integer `high * 2^128 + low`.
    pub fn from_words(low: u128, high: u128) -> (r: U256)
        ensures
            r@ == words_value(high, low),
            r.low == low,
            r.high == high,
    {
        U256 { high, low }
    }

    /// The low 128 bits.
    pub fn low128(&self) -> (r: u128)
        ensures
            r as nat == self@ % word_base(),
    {
        self.low
    }

    /// The high 128 bits.
    pub fn high128(&self) -> (r: u128)
        ensures
            r as nat == self@ / word_base(),
    {
        self.high
    }

    /// Whether `self` is at most `other`.
    pub fn le(&self, other: &U256) -> (r: bool)
        ensures
            r == (self@ <= other@),
    {
        self.high < other.high || (self.high == other.high && self.low <= other.low)
    }

    /// Whether `self` is below `other`.
    pub fn lt(&self, other: &U256) -> (r: bool)
        ensures
            r == (self@ < other@),
    {
        self.high < other.high || (self.high == other.high && self.low < other.low)
    }

    /// Whether the integer is a value of the scalar field.
    pub fn in_field(&self) -> (r: bool)
        ensures
            r == (self@ < field_prime()),
    {
        self.high < FIELD_PRIME_HIGH || (self.high == FIELD_PRIME_HIGH && self.low == 0)
    }
}

/// A value of the scalar field: an unsigned integer below the field's prime.
/// It has no sign; differences are taken only where they are not negative.
#[derive(Clone, Copy, Debug, PartialEq, Eq)]
pub struct Scalar {
    high: u128,
    low: u128,
}

impl View for Scalar {
    type V = nat;

    closed spec fn view(&self) -> nat {
        words_value(self.high, self.low)
    }
}

impl Scalar {
    /// Every scalar is a value of the field.
    #[verifier::type_invariant]
    pub open spec fn in_field(self) -> bool {
        self@ < field_prime()
    }

    /// The scalar zero.
    pub fn zero() -> (r: Scalar)
        ensures
            r@ == 0,
    {
        Scalar { high: 0, low: 0 }
    }

    /// The scalar with the value of a 128-bit integer.
    pub fn from_u128(value: u128) -> (r: Scalar)
        ensures
            r@ == value as nat,
    {
        Scalar { high: 0, low: value }
    }

    /// The scalar with the value of a length or a count.
    pub fn from_usize(value: usize) -> (r: Scalar)
        ensures
            r@ == value as nat,
    {
        Scalar { high: 0, low: value as u128 }
    }

    /// The scalar that stands for a signed 32-bit integer: the integer itself
    /// where it is not negative, and the field's negation of its magnitude
    /// where it is.
    pub fn from_i32(value: i32) -> (r: Scalar)
        ensures
            value >= 0 ==> r@ == value as nat,
            value < 0 ==> r@ == (field_prime() + value) as nat,
    {
        if value >= 0 {
            Scalar { high: 0, low: value as u128 }
        } else {
            let magnitude: u128 = (-(value as i64)) as u128;
            if magnitude == 1 {
                Scalar { high: FIELD_PRIME_HIGH, low: 0 }
            } else {
                Scalar { high: FIELD_PRIME_HIGH - 1, low: u128::MAX - (magnitude - 2) }
            }
        }
    }

    /// The scalar with the value of a 256-bit integer, where that value lies
    /// in the field.
    pub fn new(value: U256) -> (r: Option<Scalar>)
        ensures
            r is Some <==> value@ < field_prime(),
            r matches Some(s) ==> s@ == value@,
    {
        if value.in_field() {
            Some(Scalar { high: value.high, low: value.low })
        } else {
            None
        }
    }

    /// The scalar as a 256-bit integer, which is below the field's prime.
    pub fn to_u256(&self) -> (r: U256)
        ensures
            r@ == self@,
            r@ < field_prime(),
    {
        proof {
            use_type_invariant(self);
        }
        U256 { high: self.high, low: self.low }
    }

    /// The low 128 bits of the scalar.
    pub fn low128(&self) -> (r: u128)
        ensures
            r as nat == self@ % word_base(),
    {
        self.low
    }

    /// The bits of the scalar above the low 128.
    pub fn high128(&self) -> (r: u128)
        ensures
            r as nat == self@ / word_base(),
    {
        self.high
    }

    /// Whether the scalar is zero.
    pub fn is_zero(&self) -> (r: bool)
        ensures
            r == (self@ == 0),
    {
        self.high == 0 && self.low == 0
    }

    /// Whether two scalars have the same value.
    pub fn equals(&self, other: &Scalar) -> (r: bool)
        ensures
            r == (self@ == other@),
    {
        self.high == other.high && self.low == other.low
    }

    /// Whether `self` is below `other`.
    pub fn lt(&self, other: &Scalar) -> (r: bool)
        ensures
            r == (self@ < other@),
    {
        self.high < other.high || (self.high == other.high && self.low < other.low)
    }

    /// Whether `self` is at most `other`.
    pub fn le(&self, other: &Scalar) -> (r: bool)
        ensures
            r == (self@ <= other@),
    {
        self.high < other.high || (self.high == other.high && self.low <= other.low)
    }

    /// The difference `self - other`, where it is not negative.
    pub fn checked_sub(&self, other: &Scalar) -> (r: Option<Scalar>)
        ensures
            r is Some <==> self@ >= other@,
            r matches Some(d) ==> d@ == self@ - other@,
    {
        proof {
            use_type_invariant(self);
            use_type_invariant(other);
        }
        if self.lt(other) {
            None
        } else if self.low >= other.low {
            Some(Scalar { high: self.high - other.high, low: self.low - other.low })
        } else {
            let borrowed: u128 = u128::MAX - other.low + self.low + 1;
            Some(Scalar { high: self.high - other.high - 1, low: borrowed })
        }
    }

    /// Twice the scalar as a 256-bit integer, which always holds it.
    pub fn double(&self) -> (r: U256)
        ensures
            r@ == 2 * self@,
    {
        proof {
            use_type_invariant(self);
        }
        let half: u128 = 0x8000_0000_0000_0000_0000_0000_0000_0000u128;
        if self.low >= half {
            U256 { high: self.high * 2 + 1, low: (self.low - half) * 2 }
        } else {
            U256 { high: self.high * 2, low: self.low * 2 }
        }
    }

    /// Twice the scalar, where that is still a value of the field.
    pub fn checked_double(&self) -> (r: Option<Scalar>)
        ensures
            r is Some <==> 2 * self@ < field_prime(),
            r matches Some(d) ==> d@ == 2 * self@,
    {
        Scalar::new(self.double())
    }

    /// The scalar with the value of a 256-bit integer that lies in the field.
    pub(crate) fn of_field(value: U256) -> (r: Scalar)
        requires
            value@ < field_prime(),
        ensures
            r@ == value@,
    {
        Scalar { high: value.high, low: value.low }
    }
}

impl Default for Scalar {
    /// The scalar zero.
    fn default() -> (r: Scalar)
        ensures
            r@ == 0,
    {
        Scalar::zero()
    }
}

/// The values of a sequence of scalars.
pub open spec fn scalar_values(scalars: Seq<Scalar>) -> Seq<nat> {
    scalars.map_values(|scalar: Scalar| scalar@)
}

/// Two to the power 251 lies below the field's prime.
pub proof fn lemma_pow2_251_in_field()
    ensures
        pow2(251) < field_prime(),
{
    lemma2_to64();
    lemma2_to64_rest();
    lemma_pow2_adds(64, 64);
    lemma_pow2_adds(128, 64);
    lemma_pow2_adds(192, 59);
    assert(pow2(128) == 0x1_0000_0000_0000_0000_0000_0000_0000_0000nat);
    assert(pow2(192) == 0x1_0000_0000_0000_0000_0000_0000_0000_0000_0000_0000_0000_0000nat);
    assert(pow2(251)
        == 0x800_0000_0000_0000_0000_0000_0000_0000_0000_0000_0000_0000_0000_0000_0000_0000nat);
}

impl Scalar {
    /// Two to the power `exponent`, where that is a value of the field.
    pub fn power_of_two(exponent: u8) -> (r: Option<Scalar>)
        ensures
            r is Some <==> exponent <= 251,
            r matches Some(s) ==> s@ == pow2(exponent as nat),
    {
        if exponent > 251 {
            return None;
        }
        let mut power = Scalar { high: 0, low: 1 };
        let mut done: u8 = 0;
        proof {
            lemma2_to64();
        }
        while done < exponent
            invariant
                done <= exponent <= 251,
                power@ == pow2(done as nat),
            decreases exponent - done,
        {
            proof {
                lemma_pow2_unfold((done + 1) as nat);
                lemma_pow2_251_in_field();
                if done + 1 < 251 {
                    lemma_pow2_strictly_increases((done + 1) as nat, 251);
                }
            }
            power = Scalar::of_field(power.double());
            done = done + 1;
        }
        Some(power)
    }
}

} // verus!
