//! IEEE-754 binary64 values, held as their bit pattern.
//!
//! A `Scalar` is the 64 bits of a double, and its view is the value that the
//! bits encode. What can be done with a double without rounding is done here
//! on the encoding and proved against the value: telling whether it is a
//! number, comparing it with another, negating it, holding it to the unit
//! interval and cutting it to a byte. Conversion to and from the machine's
//! floating-point type is a reinterpretation of the bits and is left to the
//! caller.

use vstd::arithmetic::div_mod::{lemma_basic_div, lemma_div_is_ordered, lemma_div_multiples_vanish_quotient};
use vstd::arithmetic::power2::{
    lemma2_to64,
    lemma2_to64_rest,
    lemma_pow2_adds,
    lemma_pow2_pos,
    lemma_pow2_strictly_increases,
    lemma_pow2_unfold,
    pow2,
};
use vstd::bits::lemma_u64_shr_is_div;
use vstd::prelude::*;

verus! {

/// The bit that carries the sign.
pub const SIGN_BIT: u64 = 0x8000_0000_0000_0000;

/// The encoding of positive infinity. A larger magnitude encodes a NaN.
pub const INFINITY_BITS: u64 = 0x7ff0_0000_0000_0000;

/// The encoding of `1`.
pub const ONE_BITS: u64 = 0x3ff0_0000_0000_0000;

/// Two to the 52nd: the weight of the exponent's lowest bit, and the leading
/// bit that a normal number's significand has without storing it.
pub const HIDDEN_BIT: u64 = 0x10_0000_0000_0000;

/// The biased exponent of `1`.
pub const EXPONENT_BIAS: u64 = 1023;

/// What a scalar stands for.
pub enum Value {
    /// Not a number.
    Nan,
    NegInfinity,
    /// The number `n · 2^-1074`. Every finite double is a whole multiple of
    /// the smallest positive one, which is `2^-1074`.
    Finite(int),
    PosInfinity,
}

impl Value {
    /// `self < other` on the extended real line. Nothing is below a NaN, and
    /// a NaN is below nothing.
    pub open spec fn below(self, other: Value) -> bool {
        match self {
            Value::Nan => false,
            Value::NegInfinity => other is Finite || other is PosInfinity,
            Value::Finite(a) => match other {
                Value::Finite(b) => a < b,
                Value::PosInfinity => true,
                _ => false,
            },
            Value::PosInfinity => false,
        }
    }

    /// `self <= other` on the extended real line: false if either is a NaN.
    pub open spec fn at_most(self, other: Value) -> bool {
        !(self is Nan) && !(other is Nan) && !other.below(self)
    }

    /// The number 0.
    pub open spec fn zero() -> Value {
        Value::Finite(0)
    }

    /// The number 1: `2^1074` times `2^-1074`.
    pub open spec fn one() -> Value {
        Value::Finite(pow2(1074) as int)
    }

    /// `-self`.
    pub open spec fn opposite(self) -> Value {
        match self {
            Value::Nan => Value::Nan,
            Value::NegInfinity => Value::PosInfinity,
            Value::Finite(n) => Value::Finite(-n),
            Value::PosInfinity => Value::NegInfinity,
        }
    }
}

/// The number that a magnitude below that of infinity encodes, in units of
/// `2^-1074`.
///
/// The magnitude holds an exponent `e` above 52 bits of fraction `f`. With
/// `e = 0` the number is subnormal, `f · 2^-1074`; otherwise it is
/// `(2^52 + f) · 2^(e - 1075)`.
pub open spec fn quanta(magnitude: int) -> int {
    let e = magnitude / (HIDDEN_BIT as int);
    let f = magnitude % (HIDDEN_BIT as int);
    if e == 0 {
        f
    } else {
        (HIDDEN_BIT + f) * pow2((e - 1) as nat)
    }
}

/// A double, carried as the 64 bits that encode it.
///
/// `==` compares encodings, not values: the two zeros differ, and a NaN equals
/// itself. For the order of the values see `lt` and `le`.
#[derive(Clone, Copy, Debug, PartialEq, Eq, Structural)]
pub struct Scalar {
    pub bits: u64,
}

impl View for Scalar {
    type V = Value;

    /// The value that the bits encode.
    open spec fn view(&self) -> Value {
        if self.magnitude() > INFINITY_BITS {
            Value::Nan
        } else if self.magnitude() == INFINITY_BITS {
            if self.negative() {
                Value::NegInfinity
            } else {
                Value::PosInfinity
            }
        } else if self.negative() {
            Value::Finite(-quanta(self.magnitude()))
        } else {
            Value::Finite(quanta(self.magnitude()))
        }
    }
}

impl Scalar {
    /// Whether the sign bit is set.
    pub open spec fn negative(self) -> bool {
        self.bits >= SIGN_BIT
    }

    /// The encoding with the sign bit cleared.
    pub open spec fn magnitude(self) -> int {
        if self.bits >= SIGN_BIT {
            self.bits - SIGN_BIT
        } else {
            self.bits as int
        }
    }

    /// The magnitude with the sign of the scalar.
    pub open spec fn rank(self) -> int {
        if self.negative() {
            -self.magnitude()
        } else {
            self.magnitude()
        }
    }

    /// Whether the value is not a number.
    pub open spec fn nan(self) -> bool {
        self@ is Nan
    }

    /// `self < other` by value: false if either is a NaN.
    pub open spec fn below(self, other: Scalar) -> bool {
        self@.below(other@)
    }

    /// `self <= other` by value: false if either is a NaN.
    pub open spec fn at_most(self, other: Scalar) -> bool {
        self@.at_most(other@)
    }

    /// The scalar with the opposite sign bit.
    pub open spec fn negated(self) -> Scalar {
        if self.bits >= SIGN_BIT {
            Scalar { bits: (self.bits - SIGN_BIT) as u64 }
        } else {
            Scalar { bits: (self.bits + SIGN_BIT) as u64 }
        }
    }

    /// The scalar held to the unit interval: 0 where it is below 0, 1 where it
    /// is above 1, itself otherwise. A NaN stays a NaN and a negative zero
    /// stays negative.
    pub open spec fn clamped(self) -> Scalar {
        if self@.below(Value::zero()) {
            Scalar { bits: 0 }
        } else if Value::one().below(self@) {
            Scalar { bits: ONE_BITS }
        } else {
            self
        }
    }

    /// The value cut to a whole number of 0 to 255: the fraction is dropped,
    /// what is negative or not a number gives 0, and what is above 255 gives
    /// 255.
    pub open spec fn byte(self) -> int {
        match self@ {
            Value::Nan => 0,
            Value::NegInfinity => 0,
            Value::Finite(n) => if n < 0 {
                0
            } else if n / (pow2(1074) as int) > 255 {
                255
            } else {
                n / (pow2(1074) as int)
            },
            Value::PosInfinity => 255,
        }
    }

    /// The scalar with the given encoding.
    pub fn from_bits(bits: u64) -> (s: Scalar)
        ensures
            s.bits == bits,
    {
        Scalar { bits }
    }

    /// The encoding.
    pub fn to_bits(self) -> (bits: u64)
        ensures
            bits == self.bits,
    {
        self.bits
    }

    /// Positive zero.
    pub fn zero() -> (s: Scalar)
        ensures
            s.bits == 0,
            s@ == Value::zero(),
    {
        Scalar { bits: 0 }
    }

    /// One.
    pub fn one() -> (s: Scalar)
        ensures
            s.bits == ONE_BITS,
            s@ == Value::one(),
    {
        proof {
            lemma_one();
        }
        Scalar { bits: ONE_BITS }
    }

    /// Positive infinity.
    pub fn infinity() -> (s: Scalar)
        ensures
            s.bits == INFINITY_BITS,
            s@ == Value::PosInfinity,
    {
        Scalar { bits: INFINITY_BITS }
    }

    /// Whether the value is not a number.
    pub fn is_nan(self) -> (r: bool)
        ensures
            r == self.nan(),
    {
        if self.bits >= SIGN_BIT {
            self.bits - SIGN_BIT > INFINITY_BITS
        } else {
            self.bits > INFINITY_BITS
        }
    }

    /// `self < other`.
    pub fn lt(self, other: Scalar) -> (r: bool)
        ensures
            r == self.below(other),
    {
        proof {
            lemma_encoding_orders_values(self, other);
        }
        if self.is_nan() || other.is_nan() {
            false
        } else if self.bits >= SIGN_BIT {
            if other.bits >= SIGN_BIT {
                other.bits < self.bits
            } else {
                self.bits > SIGN_BIT || other.bits > 0
            }
        } else {
            other.bits < SIGN_BIT && self.bits < other.bits
        }
    }

    /// `self <= other`.
    pub fn le(self, other: Scalar) -> (r: bool)
        ensures
            r == self.at_most(other),
    {
        proof {
            lemma_encoding_orders_values(self, other);
        }
        if self.is_nan() || other.is_nan() {
            false
        } else if self.bits >= SIGN_BIT {
            other.bits < SIGN_BIT || other.bits <= self.bits
        } else if other.bits >= SIGN_BIT {
            self.bits == 0 && other.bits == SIGN_BIT
        } else {
            self.bits <= other.bits
        }
    }

    /// `self > other`.
    pub fn gt(self, other: Scalar) -> (r: bool)
        ensures
            r == other.below(self),
    {
        other.lt(self)
    }

    /// `self >= other`.
    pub fn ge(self, other: Scalar) -> (r: bool)
        ensures
            r == other.at_most(self),
    {
        other.le(self)
    }

    /// `-self`: the sign bit is flipped and nothing else, so the result is
    /// exact.
    pub fn neg(self) -> (r: Scalar)
        ensures
            r == self.negated(),
            r@ == self@.opposite(),
    {
        if self.bits >= SIGN_BIT {
            Scalar { bits: self.bits - SIGN_BIT }
        } else {
            Scalar { bits: self.bits + SIGN_BIT }
        }
    }

    /// The scalar held to the unit interval.
    pub fn clamp_unit(self) -> (r: Scalar)
        ensures
            r == self.clamped(),
    {
        if self.lt(Scalar::zero()) {
            Scalar::zero()
        } else if Scalar::one().lt(self) {
            Scalar::one()
        } else {
            self
        }
    }

    /// The value as a channel byte: truncated toward zero and held to
    /// `0..=255`, with 0 for a NaN.
    pub fn to_byte(self) -> (b: u8)
        ensures
            b == self.byte(),
    {
        if self.bits >= SIGN_BIT || self.bits > INFINITY_BITS {
            proof {
                // a negative number, or the negative zero, whose whole part is 0
                if self.magnitude() < INFINITY_BITS {
                    lemma_quanta_increase(0, self.magnitude());
                    lemma_pow2_pos(1074);
                    lemma_basic_div(0, pow2(1074) as int);
                }
            }
            return 0;
        }
        if self.bits == INFINITY_BITS {
            return 255;
        }
        proof {
            lemma_whole_part(self.bits as int);
        }
        let exponent: u64 = self.bits / HIDDEN_BIT;
        if exponent < EXPONENT_BIAS {
            return 0;
        }
        if exponent > EXPONENT_BIAS + 7 {
            return 255;
        }
        let significand: u64 = HIDDEN_BIT + self.bits % HIDDEN_BIT;
        let shift: u64 = EXPONENT_BIAS + 52 - exponent;
        proof {
            lemma_u64_shr_is_div(significand, shift);
        }
        (significand >> shift) as u8
    }
}

/// The encoding of `1` stands for the number 1.
proof fn lemma_one()
    ensures
        (Scalar { bits: ONE_BITS })@ == Value::one(),
{
    lemma2_to64_rest();
    lemma_pow2_adds(52, 1022);
    assert(ONE_BITS as int / (HIDDEN_BIT as int) == 1023);
    assert(ONE_BITS as int % (HIDDEN_BIT as int) == 0);
}

/// Among the magnitudes below that of infinity, a greater magnitude encodes
/// a greater number, and none encodes a negative one.
pub proof fn lemma_quanta_increase(smaller: int, greater: int)
    requires
        0 <= smaller <= greater < INFINITY_BITS,
    ensures
        0 <= quanta(smaller) <= quanta(greater),
        smaller < greater ==> quanta(smaller) < quanta(greater),
        quanta(0) == 0,
{
    let h = HIDDEN_BIT as int;
    let e1 = smaller / h;
    let f1 = smaller % h;
    let e2 = greater / h;
    let f2 = greater % h;
    assert(0 <= e1 <= e2 <= 2046);
    assert(smaller == h * e1 + f1 && greater == h * e2 + f2);
    if e1 == e2 {
        if e1 > 0 {
            let p = pow2((e1 - 1) as nat) as int;
            lemma_pow2_pos((e1 - 1) as nat);
            assert(0 <= (h + f1) * p <= (h + f2) * p && (f1 < f2 ==> (h + f1) * p < (h + f2) * p))
                by (nonlinear_arith)
                requires
                    0 <= f1 <= f2,
                    0 < h,
                    0 < p,
            ;
        }
    } else {
        // quanta(smaller) < 2^52 · 2^e1 <= 2^52 · 2^(e2 - 1) <= quanta(greater)
        let top = pow2(e1 as nat) as int;
        let p2 = pow2((e2 - 1) as nat) as int;
        lemma_pow2_pos(e1 as nat);
        lemma_pow2_pos((e2 - 1) as nat);
        if e1 < e2 - 1 {
            lemma_pow2_strictly_increases(e1 as nat, (e2 - 1) as nat);
        }
        assert(top <= p2);
        if e1 > 0 {
            let p1 = pow2((e1 - 1) as nat) as int;
            lemma_pow2_pos((e1 - 1) as nat);
            lemma_pow2_unfold(e1 as nat);
            assert(0 <= (h + f1) * p1 < h * (2 * p1)) by (nonlinear_arith)
                requires
                    0 <= f1 < h,
                    0 < p1,
            ;
        } else {
            lemma2_to64();
            assert(f1 < h * top) by (nonlinear_arith)
                requires
                    0 <= f1 < h,
                    top == 1,
            ;
        }
        assert(h * top <= (h + f2) * p2) by (nonlinear_arith)
            requires
                0 <= f2,
                0 < h,
                0 < top <= p2,
        ;
    }
}

/// The order of the encodings is the order of the values: of two numbers,
/// the one whose magnitude with its sign is the smaller integer is the
/// smaller number. Both zeros stand for the same number.
pub proof fn lemma_encoding_orders_values(a: Scalar, b: Scalar)
    ensures
        a.below(b) == (!a.nan() && !b.nan() && a.rank() < b.rank()),
        a.at_most(b) == (!a.nan() && !b.nan() && a.rank() <= b.rank()),
{
    if !a.nan() && !b.nan() {
        let ma = a.magnitude();
        let mb = b.magnitude();
        if ma < INFINITY_BITS {
            lemma_quanta_increase(0, ma);
        }
        if mb < INFINITY_BITS {
            lemma_quanta_increase(0, mb);
        }
        if ma < INFINITY_BITS && mb < INFINITY_BITS {
            if ma <= mb {
                lemma_quanta_increase(ma, mb);
            } else {
                lemma_quanta_increase(mb, ma);
            }
        }
    }
}

/// The whole part of the number that a magnitude below that of infinity
/// encodes, read off the exponent `e` and the fraction `f`: nothing below the
/// exponent of 1, 256 or more from the exponent of 256 on, and in between the
/// significand `2^52 + f` without its lowest `1075 - e` bits.
proof fn lemma_whole_part(magnitude: int)
    requires
        0 <= magnitude < INFINITY_BITS,
    ensures
        ({
            let e = magnitude / (HIDDEN_BIT as int);
            let f = magnitude % (HIDDEN_BIT as int);
            let whole = quanta(magnitude) / (pow2(1074) as int);
            &&& 0 <= quanta(magnitude)
            &&& e < EXPONENT_BIAS ==> whole == 0
            &&& EXPONENT_BIAS <= e <= EXPONENT_BIAS + 7 ==> whole == (HIDDEN_BIT + f) / (pow2(
                (EXPONENT_BIAS + 52 - e) as nat,
            ) as int) && whole <= 255
            &&& e > EXPONENT_BIAS + 7 ==> whole >= 256
        }),
{
    let h = HIDDEN_BIT as int;
    let e = magnitude / h;
    let f = magnitude % h;
    let unit = pow2(1074) as int;
    lemma2_to64();
    lemma2_to64_rest();
    lemma_pow2_pos(1074);
    lemma_quanta_increase(0, magnitude);
    assert(0 <= e <= 2046);
    if e < EXPONENT_BIAS {
        // below 1: the magnitude is below that of 1, which stands for the unit
        lemma_one();
        assert(magnitude < ONE_BITS) by (nonlinear_arith)
            requires
                magnitude == h * e + f,
                0 <= f < h,
                e < 1023,
                h == 0x10_0000_0000_0000,
        ;
        lemma_quanta_increase(magnitude, ONE_BITS as int);
        lemma_basic_div(quanta(magnitude), unit);
    } else {
        let p = pow2((e - 1) as nat) as int;
        lemma_pow2_pos((e - 1) as nat);
        if e <= EXPONENT_BIAS + 7 {
            let k = (EXPONENT_BIAS + 52 - e) as nat;
            let d = pow2(k) as int;
            lemma_pow2_pos(k);
            lemma_pow2_adds((e - 1) as nat, k);
            assert(unit == p * d);
            lemma_div_multiples_vanish_quotient(p, h + f, d);
            assert((h + f) * p == p * (h + f)) by (nonlinear_arith);
            // the significand is below 2^53 and the divisor at least 2^45
            if k > 45 {
                lemma_pow2_strictly_increases(45, k);
            }
            assert(d >= 0x2000_0000_0000);
            assert((h + f) / d <= 255) by (nonlinear_arith)
                requires
                    0 <= h + f < 0x20_0000_0000_0000,
                    d >= 0x2000_0000_0000,
            ;
        } else {
            // at least 2^52 · 2^1030 = 256 · 2^1074
            lemma_pow2_adds(52, 1030);
            lemma_pow2_adds(8, 1074);
            if e - 1 > 1030 {
                lemma_pow2_strictly_increases(1030, (e - 1) as nat);
            }
            let low = pow2(1030) as int;
            assert(256 * unit == h * low);
            assert(h * low <= (h + f) * p) by (nonlinear_arith)
                requires
                    0 <= f,
                    0 < h,
                    0 < low <= p,
            ;
            lemma_div_is_ordered(256 * unit, quanta(magnitude), unit);
            assert((256 * unit) / unit == 256) by (nonlinear_arith)
                requires
                    unit > 0,
            ;
        }
    }
}

/// Negation turns the order round: `a < b` exactly if `-b < -a`. It keeps a
/// NaN a NaN, and twice applied it gives the scalar back.
pub proof fn lemma_negation_reverses_order(a: Scalar, b: Scalar)
    ensures
        a.negated()@ == a@.opposite(),
        a.below(b) == b.negated().below(a.negated()),
        a.at_most(b) == b.negated().at_most(a.negated()),
        a.negated().nan() == a.nan(),
        a.negated().negated() == a,
{
}

} // verus!
