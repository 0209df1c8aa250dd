//! IEEE 754 binary64 numbers, by their bit patterns.
//!
//! The library never computes with such a number. It carries it from one
//! operation of the caller to the next, and reads from its bits what the
//! rules of the operators ask about: whether it is negligibly small, whether
//! it is negative, and what its whole part is. The few numbers that the rules
//! themselves bring in, small whole numbers and infinity, it writes down bit
//! by bit.
use vstd::arithmetic::power2::{
    lemma2_to64,
    lemma2_to64_rest,
    lemma_pow2_adds,
    lemma_pow2_pos,
    lemma_pow2_strictly_increases,
    pow2,
};
use vstd::prelude::*;

verus! {

/// Two to the power 63: the weight of the sign bit.
pub const SIGN_WEIGHT: u64 = 0x8000_0000_0000_0000;

/// Two to the power 52: the weight of the lowest exponent bit.
pub const EXPONENT_WEIGHT: u64 = 0x0010_0000_0000_0000;

/// The number of values of the biased exponent.
pub const EXPONENT_RANGE: u64 = 0x800;

/// The biased exponent of two to the power -52, the difference between one
/// and the next larger binary64 number.
pub const EPSILON_EXPONENT: u64 = 971;

/// The biased exponent of one.
pub const EXPONENT_BIAS: u64 = 1023;

/// The biased exponent from which on a number has no fraction digits left:
/// the bias plus the 52 bits of the fraction.
pub const WHOLE_EXPONENT: u64 = 1075;

/// The bits of positive infinity.
pub const INFINITY_BITS: u64 = 0x7FF0_0000_0000_0000;

/// A binary64 number, held as its 64 bits: the sign in bit 63, the biased
/// exponent in bits 52 to 62, the fraction in bits 0 to 51.
#[derive(Debug, Clone, Copy, PartialEq, Eq, Structural)]
pub struct Binary64 {
    pub bits: u64,
}

impl Binary64 {
    /// The sign bit.
    pub open spec fn sign(self) -> int {
        self.bits as int / SIGN_WEIGHT as int
    }

    /// The biased exponent.
    pub open spec fn exponent(self) -> int {
        (self.bits as int / EXPONENT_WEIGHT as int) % EXPONENT_RANGE as int
    }

    /// The fraction.
    pub open spec fn fraction(self) -> int {
        self.bits as int % EXPONENT_WEIGHT as int
    }

    /// Not a number: the largest exponent with a fraction that is not zero.
    pub open spec fn is_nan(self) -> bool {
        self.exponent() == EXPONENT_RANGE - 1 && self.fraction() != 0
    }

    /// Plus or minus zero.
    pub open spec fn is_zero(self) -> bool {
        self.exponent() == 0 && self.fraction() == 0
    }

    /// Of a magnitude below two to the power -52. Every number with a
    /// smaller biased exponent than that power is below it, zero and the
    /// subnormal numbers among them; no other number is, and no NaN.
    pub open spec fn is_negligible(self) -> bool {
        self.exponent() < EPSILON_EXPONENT
    }

    /// Below zero: the sign is set, and the number is neither a zero nor a
    /// NaN.
    pub open spec fn is_negative(self) -> bool {
        self.sign() == 1 && !self.is_zero() && !self.is_nan()
    }

    /// Whether the number is finite: neither an infinity nor a NaN.
    pub open spec fn is_finite(self) -> bool {
        self.exponent() < EXPONENT_RANGE - 1
    }

    /// The magnitude of a finite number, times two to the power 1075, which
    /// makes it a whole number. A number with the biased exponent zero is
    /// its fraction times two to the power -1074; any other is two to the
    /// power 52 plus its fraction, times two to the power of its biased
    /// exponent less 1075.
    pub open spec fn scaled_magnitude(self) -> nat {
        if self.exponent() == 0 {
            (self.fraction() * 2) as nat
        } else {
            ((EXPONENT_WEIGHT + self.fraction()) * pow2(self.exponent() as nat)) as nat
        }
    }

    /// The whole part of the magnitude: the magnitude without its fraction
    /// digits. A number below one has none, and a NaN counts as zero. Up to
    /// the exponent that leaves no fraction digits, the whole part is what
    /// the digits `1.fraction` give when the lower ones are cut off; from
    /// there on, zeros are appended to them.
    pub open spec fn whole_part(self) -> nat {
        if self.is_nan() || self.exponent() < EXPONENT_BIAS {
            0
        } else if self.exponent() <= WHOLE_EXPONENT {
            ((EXPONENT_WEIGHT + self.fraction()) / pow2(
                (WHOLE_EXPONENT - self.exponent()) as nat,
            ) as int) as nat
        } else {
            ((EXPONENT_WEIGHT + self.fraction()) * pow2(
                (self.exponent() - WHOLE_EXPONENT) as nat,
            )) as nat
        }
    }

    /// The position of the leading binary digit of a whole number from 1 to
    /// 255.
    pub open spec fn order(n: nat) -> nat {
        if n < 2 {
            0
        } else if n < 4 {
            1
        } else if n < 8 {
            2
        } else if n < 16 {
            3
        } else if n < 32 {
            4
        } else if n < 64 {
            5
        } else if n < 128 {
            6
        } else {
            7
        }
    }

    /// The binary64 number that equals a whole number from 0 to 255: zero
    /// has no bit set; any other has the position of its leading digit above
    /// the bias as its exponent, and its other digits at the top of the
    /// fraction.
    pub open spec fn whole_number(n: nat) -> Binary64 {
        if n == 0 {
            Binary64 { bits: 0 }
        } else {
            let order = Self::order(n);
            Binary64 {
                bits: ((EXPONENT_BIAS + order) * EXPONENT_WEIGHT + (n - pow2(order)) * pow2(
                    (52 - order) as nat,
                )) as u64,
            }
        }
    }

    /// Positive infinity.
    pub open spec fn infinity() -> Binary64 {
        Binary64 { bits: INFINITY_BITS }
    }

    /// The number with the given bits.
    pub fn from_bits(bits: u64) -> (number: Binary64)
        ensures
            number.bits == bits,
    {
        Binary64 { bits }
    }

    /// The bits of the number.
    pub fn to_bits(self) -> (bits: u64)
        ensures
            bits == self.bits,
    {
        self.bits
    }

    /// Computes [`Binary64::is_negligible`].
    pub fn negligible(self) -> (yes: bool)
        ensures
            yes == self.is_negligible(),
    {
        (self.bits / EXPONENT_WEIGHT) % EXPONENT_RANGE < EPSILON_EXPONENT
    }

    /// Computes [`Binary64::is_negative`].
    pub fn negative(self) -> (yes: bool)
        ensures
            yes == self.is_negative(),
    {
        let exponent: u64 = (self.bits / EXPONENT_WEIGHT) % EXPONENT_RANGE;
        let fraction: u64 = self.bits % EXPONENT_WEIGHT;
        let zero: bool = exponent == 0 && fraction == 0;
        let nan: bool = exponent == EXPONENT_RANGE - 1 && fraction != 0;
        self.bits >= SIGN_WEIGHT && !zero && !nan
    }
}

/// A finite number is negligible exactly when its magnitude is below two to
/// the power -52, which scaled like the magnitude is two to the power 1023.
pub proof fn negligible_is_below_epsilon(number: Binary64)
    requires
        number.is_finite(),
    ensures
        number.is_negligible() <==> number.scaled_magnitude() < pow2(1023),
{
    let exponent = number.exponent() as nat;
    let fraction = number.fraction();
    lemma2_to64_rest();
    lemma_pow2_pos(exponent);
    if exponent == 0 {
        lemma_pow2_strictly_increases(53, 1023);
    } else if exponent < EPSILON_EXPONENT {
        lemma_pow2_adds(53, exponent);
        if 53 + exponent < 1023 {
            lemma_pow2_strictly_increases(53 + exponent, 1023);
        }
        assert((EXPONENT_WEIGHT + fraction) * pow2(exponent) < pow2(53) * pow2(exponent))
            by (nonlinear_arith)
            requires
                EXPONENT_WEIGHT + fraction < pow2(53),
                pow2(exponent) > 0,
        ;
    } else {
        lemma_pow2_adds(52, 971);
        lemma_pow2_pos(971);
        if 971 < exponent {
            lemma_pow2_strictly_increases(971, exponent);
        }
        assert((EXPONENT_WEIGHT + fraction) * pow2(exponent) >= pow2(52) * pow2(971))
            by (nonlinear_arith)
            requires
                EXPONENT_WEIGHT + fraction >= pow2(52),
                pow2(exponent) >= pow2(971),
                pow2(971) > 0,
        ;
    }
}

impl Binary64 {
    /// The whole part of the magnitude, if it is below 256.
    pub fn small_whole_part(self) -> (part: Option<u8>)
        ensures
            part == if self.whole_part() < 256 {
                Some(self.whole_part() as u8)
            } else {
                None::<u8>
            },
    {
        let exponent: u64 = (self.bits / EXPONENT_WEIGHT) % EXPONENT_RANGE;
        let fraction: u64 = self.bits % EXPONENT_WEIGHT;
        let digits: u64 = EXPONENT_WEIGHT + fraction;
        proof {
            lemma2_to64_rest();
        }
        if exponent == EXPONENT_RANGE - 1 && fraction != 0 {
            Some(0)
        } else if exponent < EXPONENT_BIAS {
            Some(0)
        } else if exponent > EXPONENT_BIAS + 7 {
            proof {
                if exponent <= WHOLE_EXPONENT {
                    let cut = (WHOLE_EXPONENT - exponent) as nat;
                    lemma_pow2_pos(cut);
                    if cut < 44 {
                        lemma_pow2_strictly_increases(cut, 44);
                    }
                    assert(digits as int / pow2(cut) as int >= 256) by (nonlinear_arith)
                        requires
                            digits >= 256 * 0x1000_0000_0000,
                            0 < pow2(cut) <= 0x1000_0000_0000,
                    ;
                } else {
                    let added = (exponent - WHOLE_EXPONENT) as nat;
                    lemma_pow2_pos(added);
                    assert(digits * pow2(added) >= 256) by (nonlinear_arith)
                        requires
                            digits >= 256,
                            pow2(added) >= 1,
                    ;
                }
            }
            None
        } else {
            let cut: u64 = if exponent == EXPONENT_BIAS {
                0x10_0000_0000_0000
            } else if exponent == EXPONENT_BIAS + 1 {
                0x8_0000_0000_0000
            } else if exponent == EXPONENT_BIAS + 2 {
                0x4_0000_0000_0000
            } else if exponent == EXPONENT_BIAS + 3 {
                0x2_0000_0000_0000
            } else if exponent == EXPONENT_BIAS + 4 {
                0x1_0000_0000_0000
            } else if exponent == EXPONENT_BIAS + 5 {
                0x8000_0000_0000
            } else if exponent == EXPONENT_BIAS + 6 {
                0x4000_0000_0000
            } else {
                0x2000_0000_0000
            };
            assert(cut == pow2((WHOLE_EXPONENT - exponent) as nat));
            let part: u64 = digits / cut;
            assert(part < 256) by (nonlinear_arith)
                requires
                    part == digits / cut,
                    digits < 0x20_0000_0000_0000,
                    cut >= 0x2000_0000_0000,
            ;
            Some(part as u8)
        }
    }

    /// Computes [`Binary64::whole_number`].
    pub fn whole(n: u8) -> (number: Binary64)
        ensures
            number == Self::whole_number(n as nat),
    {
        proof {
            lemma2_to64();
            lemma2_to64_rest();
        }
        if n == 0 {
            Binary64 { bits: 0 }
        } else {
            let (order, leading, place): (u64, u64, u64) = if n < 2 {
                (0, 1, 0x10_0000_0000_0000)
            } else if n < 4 {
                (1, 2, 0x8_0000_0000_0000)
            } else if n < 8 {
                (2, 4, 0x4_0000_0000_0000)
            } else if n < 16 {
                (3, 8, 0x2_0000_0000_0000)
            } else if n < 32 {
                (4, 16, 0x1_0000_0000_0000)
            } else if n < 64 {
                (5, 32, 0x8000_0000_0000)
            } else if n < 128 {
                (6, 64, 0x4000_0000_0000)
            } else {
                (7, 128, 0x2000_0000_0000)
            };
            assert(leading == pow2(order as nat));
            assert(place == pow2((52 - order) as nat));
            let rest: u64 = n as u64 - leading;
            assert(rest * place < EXPONENT_WEIGHT) by (nonlinear_arith)
                requires
                    rest < leading,
                    leading * place == EXPONENT_WEIGHT,
            ;
            Binary64 { bits: (EXPONENT_BIAS + order) * EXPONENT_WEIGHT + rest * place }
        }
    }

    /// Computes [`Binary64::infinity`].
    pub fn positive_infinity() -> (number: Binary64)
        ensures
            number == Self::infinity(),
    {
        Binary64 { bits: INFINITY_BITS }
    }
}

/// A whole number written as a binary64 number is that whole number: it is
/// finite, not negative, and its own whole part.
pub proof fn whole_number_is_whole(n: nat)
    requires
        n < 256,
    ensures
        Binary64::whole_number(n).is_finite(),
        !Binary64::whole_number(n).is_negative(),
        Binary64::whole_number(n).whole_part() == n,
{
    lemma2_to64();
    lemma2_to64_rest();
    if n > 0 {
        let order = Binary64::order(n);
        let leading = pow2(order);
        let place = pow2((52 - order) as nat);
        let rest = n - leading;
        lemma_pow2_adds(order, (52 - order) as nat);
        assert(leading * place == EXPONENT_WEIGHT);
        assert(0 <= rest * place < EXPONENT_WEIGHT) by (nonlinear_arith)
            requires
                0 <= rest < leading,
                place > 0,
                leading * place == EXPONENT_WEIGHT,
        ;
        let number = Binary64::whole_number(n);
        assert(number.bits == (EXPONENT_BIAS + order) * EXPONENT_WEIGHT + rest * place);
        assert(number.exponent() == EXPONENT_BIAS + order);
        assert(number.fraction() == rest * place);
        assert(EXPONENT_WEIGHT + rest * place == n * place) by (nonlinear_arith)
            requires
                rest == n - leading,
                leading * place == EXPONENT_WEIGHT,
        ;
        assert((n * place) as int / (place as int) == n) by (nonlinear_arith)
            requires
                place > 0,
        ;
    }
}

} // verus!
