//! Binary64 numbers of IEEE 754, held by their bit patterns.
//!
//! A `Double` is the 64 bits of such a number: one sign bit, eleven exponent
//! bits and fifty-two fraction bits. Read as an unsigned integer, the lower
//! sixty-three bits grow with the magnitude of the number they encode, so
//! order and equality are decided on integers.

use vstd::prelude::*;

verus! {

/// The bit that holds the sign.
pub const SIGN_BIT: u64 = 0x8000_0000_0000_0000;

/// The bits of positive infinity: every magnitude above it is not a number.
pub const INFINITY_BITS: u64 = 0x7FF0_0000_0000_0000;

/// The bits of the number one.
pub const ONE_BITS: u64 = 0x3FF0_0000_0000_0000;

/// The bits of the number one hundred.
pub const HUNDRED_BITS: u64 = 0x4059_0000_0000_0000;

/// A binary64 number, by its bits. Two values are `==` where their bits are
/// the same; `same_number` tells whether they are the same number.
#[derive(Clone, Copy, Debug, PartialEq, Eq, Hash, Structural)]
pub struct Double {
    pub bits: u64,
}

impl Double {
    /// The lower sixty-three bits, as an integer.
    pub open spec fn magnitude(self) -> int {
        if self.bits >= SIGN_BIT {
            self.bits - SIGN_BIT
        } else {
            self.bits as int
        }
    }

    /// The sign bit is set.
    pub open spec fn sign(self) -> bool {
        self.bits >= SIGN_BIT
    }

    /// The bits encode no number.
    pub open spec fn nan(self) -> bool {
        self.magnitude() > INFINITY_BITS
    }

    /// The bits encode a number that is not infinite.
    pub open spec fn finite(self) -> bool {
        self.magnitude() < INFINITY_BITS
    }

    /// An integer that orders the numbers as their values do: the magnitude,
    /// negated where the sign bit is set. The two zeros share the key 0.
    pub open spec fn key(self) -> int {
        if self.sign() {
            -self.magnitude()
        } else {
            self.magnitude()
        }
    }

    /// The two are the same bits, or the two zeros: no comparison tells them
    /// apart.
    pub open spec fn alike(self, other: Double) -> bool {
        self == other || (self.magnitude() == 0 && other.magnitude() == 0)
    }

    /// `self < other` as numbers; false where either is not a number.
    pub open spec fn lt_spec(self, other: Double) -> bool {
        !self.nan() && !other.nan() && self.key() < other.key()
    }

    /// `self <= other` as numbers; false where either is not a number.
    pub open spec fn le_spec(self, other: Double) -> bool {
        !self.nan() && !other.nan() && self.key() <= other.key()
    }

    /// `self == other` as numbers; false where either is not a number.
    pub open spec fn eq_spec(self, other: Double) -> bool {
        !self.nan() && !other.nan() && self.key() == other.key()
    }

    /// The lesser of two numbers. One that is not a number gives way to the
    /// other; of two equal numbers the first is kept.
    pub open spec fn min_spec(self, other: Double) -> Double {
        if self.nan() {
            other
        } else if other.lt_spec(self) {
            other
        } else {
            self
        }
    }

    /// `self` held between `lo` and `hi`; what is not a number stays so.
    pub open spec fn clamp_spec(self, lo: Double, hi: Double) -> Double {
        if self.lt_spec(lo) {
            lo
        } else if hi.lt_spec(self) {
            hi
        } else {
            self
        }
    }

    /// The number with the given bits.
    pub fn from_bits(bits: u64) -> (r: Double)
        ensures
            r.bits == bits,
    {
        Double { bits }
    }

    /// The bits of the number.
    pub fn to_bits(self) -> (r: u64)
        ensures
            r == self.bits,
    {
        self.bits
    }

    /// Positive zero.
    pub fn zero() -> (r: Double)
        ensures
            r.bits == 0,
    {
        Double { bits: 0 }
    }

    /// The number one.
    pub fn one() -> (r: Double)
        ensures
            r.bits == ONE_BITS,
    {
        Double { bits: ONE_BITS }
    }

    /// The number one hundred.
    pub fn hundred() -> (r: Double)
        ensures
            r.bits == HUNDRED_BITS,
    {
        Double { bits: HUNDRED_BITS }
    }

    /// Positive infinity.
    pub fn infinity() -> (r: Double)
        ensures
            r.bits == INFINITY_BITS,
    {
        Double { bits: INFINITY_BITS }
    }

    fn magnitude_bits(self) -> (r: u64)
        ensures
            r == self.magnitude(),
    {
        if self.bits >= SIGN_BIT {
            self.bits - SIGN_BIT
        } else {
            self.bits
        }
    }

    /// Whether the bits encode no number.
    pub fn is_nan(self) -> (r: bool)
        ensures
            r == self.nan(),
    {
        self.magnitude_bits() > INFINITY_BITS
    }

    /// Whether the bits encode a number that is not infinite.
    pub fn is_finite(self) -> (r: bool)
        ensures
            r == self.finite(),
    {
        self.magnitude_bits() < INFINITY_BITS
    }

    /// Whether `self` is less than `other`.
    pub fn lt(self, other: Double) -> (r: bool)
        ensures
            r == self.lt_spec(other),
    {
        if self.is_nan() || other.is_nan() {
            false
        } else if self.bits >= SIGN_BIT {
            if other.bits >= SIGN_BIT {
                self.bits > other.bits
            } else {
                self.bits > SIGN_BIT || other.bits > 0
            }
        } else {
            other.bits < SIGN_BIT && self.bits < other.bits
        }
    }

    /// Whether `self` is less than or equal to `other`.
    pub fn le(self, other: Double) -> (r: bool)
        ensures
            r == self.le_spec(other),
    {
        if self.is_nan() || other.is_nan() {
            false
        } else {
            !other.lt(self)
        }
    }

    /// Whether `self` is greater than `other`.
    pub fn gt(self, other: Double) -> (r: bool)
        ensures
            r == other.lt_spec(self),
    {
        other.lt(self)
    }

    /// Whether `self` is greater than or equal to `other`.
    pub fn ge(self, other: Double) -> (r: bool)
        ensures
            r == other.le_spec(self),
    {
        other.le(self)
    }

    /// Whether the two are the same number: the two zeros are, and what is
    /// not a number equals nothing.
    pub fn same_number(self, other: Double) -> (r: bool)
        ensures
            r == self.eq_spec(other),
    {
        if self.is_nan() || other.is_nan() {
            false
        } else {
            self.bits == other.bits || (self.magnitude_bits() == 0 && other.magnitude_bits()
                == 0)
        }
    }

    /// The lesser of the two.
    pub fn min(self, other: Double) -> (r: Double)
        ensures
            r == self.min_spec(other),
    {
        if self.is_nan() {
            other
        } else if other.lt(self) {
            other
        } else {
            self
        }
    }

    /// `self` held between `lo` and `hi`.
    pub fn clamp(self, lo: Double, hi: Double) -> (r: Double)
        requires
            lo.le_spec(hi),
        ensures
            r == self.clamp_spec(lo, hi),
    {
        if self.lt(lo) {
            lo
        } else if hi.lt(self) {
            hi
        } else {
            self
        }
    }
}

/// Two to the power fifty-two: the weight of the hidden bit of a
/// significand.
pub const TWO_52: u64 = 0x10_0000_0000_0000;

/// The greatest power of two that is at most `n`, for `n` of one or more.
pub open spec fn top_power(n: nat) -> nat
    decreases n,
{
    if n < 2 {
        1
    } else {
        2 * top_power(n / 2)
    }
}

/// The exponent of `top_power(n)`.
pub open spec fn top_exponent(n: nat) -> nat
    decreases n,
{
    if n < 2 {
        0
    } else {
        1 + top_exponent(n / 2)
    }
}

/// Two to the power `e`.
pub open spec fn two_to(e: nat) -> nat
    decreases e,
{
    if e == 0 {
        1
    } else {
        2 * two_to((e - 1) as nat)
    }
}

/// The bits of the binary64 number nearest to the natural number `n`; of
/// two that are equally near, the one with the even significand.
///
/// With `p` the greatest power of two in `n` and `e` its exponent, the
/// significand is `n` scaled to fifty-three bits: exactly where `n` has no
/// more, else the quotient of `n` by `p / 2^52`, rounded by the remainder.
/// The bits are the exponent `1023 + e` above the significand without its
/// hidden bit; a significand that rounding carried to `2^53` raises the
/// exponent by that sum.
pub open spec fn nearest_bits(n: nat) -> int {
    if n == 0 {
        0
    } else {
        let p = top_power(n);
        let e = top_exponent(n);
        let m = if p <= TWO_52 {
            n * (TWO_52 as nat / p)
        } else {
            let unit = p / (TWO_52 as nat);
            let q = n / unit;
            let r = n % unit;
            if 2 * r > unit || (2 * r == unit && q % 2 == 1) {
                q + 1
            } else {
                q
            }
        };
        (1023 + e) * TWO_52 + (m - TWO_52)
    }
}

/// The binary64 number nearest to the integer `n`.
pub open spec fn double_of_int(n: int) -> Double {
    if n >= 0 {
        Double { bits: nearest_bits(n as nat) as u64 }
    } else {
        Double { bits: (SIGN_BIT + nearest_bits((-n) as nat)) as u64 }
    }
}

/// A power of two that is at most `n` and more than half of it is the top
/// power of `n`.
pub proof fn lemma_top_power(n: nat, e: nat)
    requires
        two_to(e) <= n < 2 * two_to(e),
    ensures
        top_power(n) == two_to(e),
        top_exponent(n) == e,
    decreases e,
{
    if e > 0 {
        lemma_top_power(n / 2, (e - 1) as nat);
    }
}

/// Two to the power fifty-two, written out.
pub proof fn lemma_two_to_52()
    ensures
        two_to(52) == TWO_52,
{
    reveal_with_fuel(two_to, 53);
}

/// Two to the power sixty-three is the sign bit.
pub proof fn lemma_two_to_63()
    ensures
        two_to(63) == SIGN_BIT,
{
    reveal_with_fuel(two_to, 64);
}

impl Double {
    /// The number nearest to `n`.
    pub fn from_u64(n: u64) -> (r: Double)
        ensures
            r == double_of_int(n as int),
            r.bits == nearest_bits(n as nat),
            r.bits < SIGN_BIT,
    {
        if n == 0 {
            return Double { bits: 0 };
        }
        let mut p: u64 = 1;
        let mut e: u64 = 0;
        let mut s: u64 = TWO_52;
        let mut u: u64 = 0;
        proof {
            lemma_two_to_52();
            assert(two_to(0) == 1);
        }
        while e < 63 && p <= n / 2
            invariant
                e <= 63,
                0 < p <= n,
                p == two_to(e as nat),
                e <= 52 ==> s == two_to((52 - e) as nat) && p * s == TWO_52 && s > 0,
                e == 52 ==> s == 1,
                e > 52 ==> p == u * TWO_52 && 2 <= u,
            decreases 63 - e,
        {
            proof {
                assert(two_to((e + 1) as nat) == 2 * two_to(e as nat));
                if e < 52 {
                    assert(two_to((52 - e) as nat) == 2 * two_to((51 - e) as nat));
                    assert((2 * p) * (s / 2) == p * s) by (nonlinear_arith)
                        requires
                            s % 2 == 0,
                    ;
                    if e == 51 {
                        assert(two_to(0) == 1);
                    }
                }
                if e == 52 {
                    assert(p == TWO_52) by (nonlinear_arith)
                        requires
                            p * s == TWO_52,
                            s == 1,
                    ;
                }
                if e > 52 {
                    assert(2 * p == (2 * u) * TWO_52) by (nonlinear_arith)
                        requires
                            p == u * TWO_52,
                    ;
                }
            }
            if e < 52 {
                s = s / 2;
            } else if e == 52 {
                u = 2;
            } else {
                u = u * 2;
            }
            p = p * 2;
            e = e + 1;
        }
        proof {
            if e == 63 {
                lemma_two_to_63();
            }
            lemma_top_power(n as nat, e as nat);
        }
        let m: u64 = if e <= 52 {
            proof {
                assert(TWO_52 as nat / (p as nat) == s) by (nonlinear_arith)
                    requires
                        p * s == TWO_52,
                        p > 0,
                ;
                assert(TWO_52 <= n * s < 2 * TWO_52) by (nonlinear_arith)
                    requires
                        p * s == TWO_52,
                        p <= n < 2 * p,
                        s > 0,
                ;
                assert(p <= TWO_52) by (nonlinear_arith)
                    requires
                        p * s == TWO_52,
                        s > 0,
                        p > 0,
                ;
            }
            n * s
        } else {
            proof {
                assert((p as nat) / (TWO_52 as nat) == u) by (nonlinear_arith)
                    requires
                        p == u * TWO_52,
                ;
                assert(p > TWO_52) by (nonlinear_arith)
                    requires
                        p == u * TWO_52,
                        u >= 2,
                ;
                assert(TWO_52 <= n / u < 2 * TWO_52) by (nonlinear_arith)
                    requires
                        p == u * TWO_52,
                        p <= n < 2 * p,
                        u > 0,
                ;
            }
            let q = n / u;
            let r = n % u;
            if r > u - r || (r == u - r && q % 2 == 1) {
                q + 1
            } else {
                q
            }
        };
        Double { bits: (1023 + e) * TWO_52 + (m - TWO_52) }
    }

    /// The number nearest to `n`.
    pub fn from_i64(n: i64) -> (r: Double)
        ensures
            r == double_of_int(n as int),
    {
        if n >= 0 {
            Double::from_u64(n as u64)
        } else {
            let magnitude: u64 = (-(n as i128)) as u64;
            Double { bits: SIGN_BIT + Double::from_u64(magnitude).bits }
        }
    }
}

} // verus!
