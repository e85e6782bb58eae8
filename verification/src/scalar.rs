//! Single-precision numbers held by their IEEE 754 binary32 encoding.
//!
//! The renderer's arithmetic runs on the machine's floating-point unit, outside
//! this crate. Everything the renderer *decides* from a number (which of two is
//! smaller, whether one is positive, which pixel it falls into) needs no
//! rounding, and is computed here on the encoding itself and proved against the
//! number that the encoding stands for.
//!
//! A finite binary32 number is a whole multiple of 2^-149. The model of a
//! [`Scalar`] is that multiple, [`Scalar::scaled`]; an infinity is modelled as
//! ±2^277 units, beyond every finite number, and a NaN has no number at all.
use vstd::prelude::*;
use vstd::arithmetic::power2::*;
use vstd::arithmetic::div_mod::*;
use vstd::bits::*;

verus! {

/// The sign bit of an encoding.
pub const SIGN_BIT: u32 = 0x8000_0000;

/// The encoding of positive infinity; every larger magnitude field is a NaN.
pub const INFINITY_BITS: u32 = 0x7f80_0000;

/// The implicit leading bit of a normal number's significand, 2^23.
pub const HIDDEN_BIT: u32 = 0x0080_0000;

/// The encoding of 1.
pub const ONE_BITS: u32 = 0x3f80_0000;

/// The encoding of -1.
pub const MINUS_ONE_BITS: u32 = 0xbf80_0000;

/// The encoding of the NaN that an operation without a number for its result gives.
pub const NAN_BITS: u32 = 0x7fc0_0000;

/// How many units of 2^-149 make one: the exponent of that power of two.
pub const UNIT_SHIFT: u32 = 149;

/// A single-precision number, held as its binary32 encoding: one sign bit, eight
/// exponent bits, twenty-three fraction bits.
#[derive(Clone, Copy, Debug)]
pub struct Scalar {
    pub bits: u32,
}

/// The magnitude, in units of 2^-149, that an exponent field and a fraction field
/// stand for. Exponent 0 holds the subnormal numbers.
pub open spec fn magnitude_of(exponent: int, fraction: int) -> int {
    if exponent == 0 {
        fraction
    } else {
        (HIDDEN_BIT + fraction) * pow2((exponent - 1) as nat)
    }
}

/// One, in units of 2^-149.
pub open spec fn unit() -> int {
    pow2(UNIT_SHIFT as nat) as int
}

/// The magnitude that the low 31 bits of an encoding stand for.
pub open spec fn field_magnitude(field: int) -> int {
    magnitude_of(field / (HIDDEN_BIT as int), field % (HIDDEN_BIT as int))
}

impl Scalar {
    /// Whether the sign bit is set.
    pub open spec fn sign(self) -> bool {
        self.bits >= SIGN_BIT
    }

    /// The low 31 bits: exponent and fraction together.
    pub open spec fn field(self) -> int {
        self.bits as int % (SIGN_BIT as int)
    }

    /// The exponent field, 0 to 255.
    pub open spec fn exponent(self) -> int {
        self.field() / (HIDDEN_BIT as int)
    }

    /// The fraction field, 0 to 2^23 - 1.
    pub open spec fn fraction(self) -> int {
        self.field() % (HIDDEN_BIT as int)
    }

    /// Not a number: the exponent is all ones and the fraction is not zero.
    pub open spec fn is_nan(self) -> bool {
        self.exponent() == 255 && self.fraction() != 0
    }

    /// An infinity: the exponent is all ones and the fraction is zero.
    pub open spec fn is_infinite(self) -> bool {
        self.exponent() == 255 && self.fraction() == 0
    }

    /// Neither NaN nor an infinity.
    pub open spec fn is_finite(self) -> bool {
        self.exponent() < 255
    }

    /// The absolute value in units of 2^-149.
    pub open spec fn magnitude(self) -> int {
        magnitude_of(self.exponent(), self.fraction())
    }

    /// The number in units of 2^-149. Meaningful when `!self.is_nan()`.
    pub open spec fn scaled(self) -> int {
        if self.sign() {
            -self.magnitude()
        } else {
            self.magnitude()
        }
    }

    /// `self < other` as numbers; false when either is NaN.
    pub open spec fn spec_lt(self, other: Scalar) -> bool {
        !self.is_nan() && !other.is_nan() && self.scaled() < other.scaled()
    }

    /// `self > other` as numbers; false when either is NaN.
    pub open spec fn spec_gt(self, other: Scalar) -> bool {
        other.spec_lt(self)
    }

    /// `self <= other` as numbers; false when either is NaN.
    pub open spec fn spec_le(self, other: Scalar) -> bool {
        !self.is_nan() && !other.is_nan() && self.scaled() <= other.scaled()
    }

    /// The larger of two numbers. A NaN yields to the other operand; of two equal
    /// numbers the first is kept.
    pub open spec fn spec_max(self, other: Scalar) -> Scalar {
        if self.is_nan() {
            other
        } else if self.spec_lt(other) {
            other
        } else {
            self
        }
    }

    /// The smaller of two numbers. A NaN yields to the other operand; of two equal
    /// numbers the first is kept.
    pub open spec fn spec_min(self, other: Scalar) -> Scalar {
        if self.is_nan() {
            other
        } else if other.spec_lt(self) {
            other
        } else {
            self
        }
    }

    /// The number held to the interval from `low` to `high`. A NaN stays a NaN.
    pub open spec fn spec_clamp(self, low: Scalar, high: Scalar) -> Scalar {
        if self.spec_lt(low) {
            low
        } else if self.spec_gt(high) {
            high
        } else {
            self
        }
    }

    /// The negated number: the same encoding with the sign bit turned over.
    pub open spec fn spec_neg(self) -> Scalar {
        Scalar {
            bits: if self.bits >= SIGN_BIT {
                (self.bits - SIGN_BIT) as u32
            } else {
                (self.bits + SIGN_BIT) as u32
            },
        }
    }

    /// The absolute value: the same encoding without the sign bit.
    pub open spec fn spec_abs(self) -> Scalar {
        Scalar { bits: (self.bits % SIGN_BIT) as u32 }
    }

    /// The sign of the number as a number: 1 for a positive number, for +0 and for
    /// positive infinity, -1 for their negatives, NaN for a NaN.
    pub open spec fn spec_signum(self) -> Scalar {
        if self.is_nan() {
            Scalar { bits: NAN_BITS }
        } else if self.sign() {
            Scalar { bits: MINUS_ONE_BITS }
        } else {
            Scalar { bits: ONE_BITS }
        }
    }

    /// `self` is the fractional part of `x`: what is left of `x` when its whole
    /// part is taken away, with the sign of `x`; the fractional part of a whole
    /// number is +0.
    pub open spec fn holds_fraction_of(self, x: Scalar) -> bool {
        &&& !self.is_nan()
        &&& self.magnitude() == x.magnitude() % unit()
        &&& self.sign() <==> x.sign() && self.magnitude() != 0
    }

    /// `fraction` is the fractional part of this number. A NaN and the infinities
    /// have none: theirs is a NaN.
    pub open spec fn fraction_is(self, fraction: Scalar) -> bool {
        if self.is_finite() {
            fraction.holds_fraction_of(self)
        } else {
            fraction.bits == NAN_BITS
        }
    }

    /// The whole part of the number, as a conversion to `u32` gives it: 0 for a
    /// NaN and for every number below 1, `u32::MAX` for every number from 2^32 on.
    pub open spec fn spec_to_u32(self) -> int {
        if self.is_nan() || self.sign() {
            0
        } else if self.magnitude() / unit() > u32::MAX {
            u32::MAX as int
        } else {
            self.magnitude() / unit()
        }
    }

    /// The largest whole number that is not above the number. Meaningful when
    /// `!self.is_nan()`.
    pub open spec fn spec_floor(self) -> int {
        self.scaled() / unit()
    }

    /// The floor of the number, as rounding down and then converting to `i32`
    /// gives it: 0 for a NaN, and the nearest end of the `i32` range for a floor
    /// outside it.
    pub open spec fn spec_floor_i32(self) -> int {
        if self.is_nan() {
            0
        } else if self.spec_floor() < i32::MIN {
            i32::MIN as int
        } else if self.spec_floor() > i32::MAX {
            i32::MAX as int
        } else {
            self.spec_floor()
        }
    }

    /// The encoding `bits`.
    pub fn from_bits(bits: u32) -> (r: Scalar)
        ensures
            r == (Scalar { bits }),
    {
        Scalar { bits }
    }

    /// The number 0.
    pub fn zero() -> (r: Scalar)
        ensures
            r == (Scalar { bits: 0 }),
            !r.is_nan(),
            r.scaled() == 0,
    {
        Scalar { bits: 0 }
    }

    /// The number 1.
    pub fn one() -> (r: Scalar)
        ensures
            r == (Scalar { bits: ONE_BITS }),
            !r.is_nan(),
            r.scaled() == unit(),
    {
        proof {
            lemma_one_scaled();
        }
        Scalar { bits: ONE_BITS }
    }

    /// Positive infinity.
    pub fn infinity() -> (r: Scalar)
        ensures
            r == (Scalar { bits: INFINITY_BITS }),
            r.is_infinite(),
            !r.sign(),
    {
        Scalar { bits: INFINITY_BITS }
    }

    /// Whether the encoding is a NaN.
    pub fn is_nan_value(self) -> (r: bool)
        ensures
            r == self.is_nan(),
    {
        self.bits % SIGN_BIT > INFINITY_BITS
    }

    /// `self < other`, as the machine compares two single-precision numbers.
    pub fn lt(self, other: Scalar) -> (r: bool)
        ensures
            r == self.spec_lt(other),
    {
        let a: u32 = self.bits % SIGN_BIT;
        let b: u32 = other.bits % SIGN_BIT;
        if a > INFINITY_BITS || b > INFINITY_BITS {
            return false;
        }
        proof {
            lemma_magnitude_order(a as int, b as int);
        }
        let key_a: i64 = if self.bits >= SIGN_BIT { -(a as i64) } else { a as i64 };
        let key_b: i64 = if other.bits >= SIGN_BIT { -(b as i64) } else { b as i64 };
        key_a < key_b
    }

    /// `self > other`, as the machine compares two single-precision numbers.
    pub fn gt(self, other: Scalar) -> (r: bool)
        ensures
            r == self.spec_gt(other),
    {
        other.lt(self)
    }

    /// `self <= other`, as the machine compares two single-precision numbers.
    pub fn le(self, other: Scalar) -> (r: bool)
        ensures
            r == self.spec_le(other),
    {
        let a: u32 = self.bits % SIGN_BIT;
        let b: u32 = other.bits % SIGN_BIT;
        if a > INFINITY_BITS || b > INFINITY_BITS {
            return false;
        }
        proof {
            lemma_magnitude_order(a as int, b as int);
        }
        let key_a: i64 = if self.bits >= SIGN_BIT { -(a as i64) } else { a as i64 };
        let key_b: i64 = if other.bits >= SIGN_BIT { -(b as i64) } else { b as i64 };
        key_a <= key_b
    }

    /// The larger of `self` and `other`, ignoring a NaN operand.
    pub fn max(self, other: Scalar) -> (r: Scalar)
        ensures
            r == self.spec_max(other),
    {
        if self.is_nan_value() {
            other
        } else if self.lt(other) {
            other
        } else {
            self
        }
    }

    /// The smaller of `self` and `other`, ignoring a NaN operand.
    pub fn min(self, other: Scalar) -> (r: Scalar)
        ensures
            r == self.spec_min(other),
    {
        if self.is_nan_value() {
            other
        } else if other.lt(self) {
            other
        } else {
            self
        }
    }

    /// `self` held to the interval from `low` to `high`.
    pub fn clamp(self, low: Scalar, high: Scalar) -> (r: Scalar)
        requires
            low.spec_le(high),
        ensures
            r == self.spec_clamp(low, high),
    {
        if self.lt(low) {
            low
        } else if self.gt(high) {
            high
        } else {
            self
        }
    }

    /// The sign of the number as a number.
    pub fn signum(self) -> (r: Scalar)
        ensures
            r == self.spec_signum(),
    {
        if self.is_nan_value() {
            Scalar { bits: NAN_BITS }
        } else if self.bits >= SIGN_BIT {
            Scalar { bits: MINUS_ONE_BITS }
        } else {
            Scalar { bits: ONE_BITS }
        }
    }

    /// The whole number `n`, which single precision holds exactly.
    pub fn from_u8(n: u8) -> (r: Scalar)
        ensures
            !r.is_nan(),
            !r.sign(),
            r.scaled() == n * unit(),
    {
        if n == 0 {
            return Scalar { bits: 0 };
        }
        let mut sig: u32 = n as u32;
        let mut e: u32 = 150;
        proof {
            lemma2_to64();
        }
        while sig < HIDDEN_BIT
            invariant
                1 <= sig < 0x100_0000,
                127 <= e <= 150,
                sig >= pow2((150 - e) as nat),
                sig * pow2((e - 1) as nat) == n * unit(),
            decreases e,
        {
            proof {
                lemma2_to64();
                if 150 - e >= 23 {
                    if 150 - e > 23 {
                        lemma_pow2_strictly_increases(23, (150 - e) as nat);
                    }
                    assert(false);
                }
                lemma_pow2_unfold((151 - e) as nat);
                lemma_pow2_unfold((e - 1) as nat);
                let p = pow2((e - 2) as nat) as int;
                assert((2 * sig) * p == sig * (2 * p)) by (nonlinear_arith);
            }
            sig = sig * 2;
            e = e - 1;
        }
        let bits: u32 = e * HIDDEN_BIT + (sig - HIDDEN_BIT);
        proof {
            let r = Scalar { bits };
            assert(r.field() == bits);
            assert(r.exponent() == e);
            assert(r.fraction() == sig - HIDDEN_BIT);
        }
        Scalar { bits }
    }

    /// The negated number: the encoding with the sign bit turned over.
    pub fn neg(self) -> (r: Scalar)
        ensures
            r == self.spec_neg(),
            r.is_nan() == self.is_nan(),
            r.scaled() == -self.scaled(),
    {
        if self.bits >= SIGN_BIT {
            Scalar { bits: self.bits - SIGN_BIT }
        } else {
            Scalar { bits: self.bits + SIGN_BIT }
        }
    }

    /// The fractional part of the number, exactly: no rounding takes part in it.
    pub fn fract(self) -> (r: Scalar)
        ensures
            self.fraction_is(r),
    {
        let field: u32 = self.bits % SIGN_BIT;
        if field >= INFINITY_BITS {
            return Scalar { bits: NAN_BITS };
        }
        let e: u32 = field / HIDDEN_BIT;
        let f: u32 = field % HIDDEN_BIT;
        proof {
            lemma_pow2_pos(UNIT_SHIFT as nat);
            lemma_magnitude_order(0, field as int);
        }
        let r = if e < 127 {
            proof {
                lemma_below_one(e as int, f as int);
                lemma_small_mod(field_magnitude(field as int) as nat, unit() as nat);
            }
            if field == 0 {
                Scalar { bits: 0 }
            } else {
                self
            }
        } else if e >= 150 {
            proof {
                lemma_whole_number(e as int, f as int);
                let whole = (HIDDEN_BIT + f) * pow2((e - 150) as nat);
                lemma_mod_multiples_basic(whole, unit());
            }
            Scalar { bits: 0 }
        } else {
            let down: u32 = 150 - e;
            let sig: u32 = HIDDEN_BIT + f;
            proof {
                lemma2_to64();
                lemma_pow2_strictly_increases(down as nat, 24);
                lemma_u32_shl_is_mul(1, down);
                lemma_pow2_pos((e - 1) as nat);
                lemma_pow2_pos(down as nat);
                lemma_pow2_adds((e - 1) as nat, down as nat);
                lemma_scale_div(sig as int, pow2((e - 1) as nat) as int, pow2(down as nat) as int);
                lemma_mod_bound(sig as int, pow2(down as nat) as int);
            }
            let rest: u32 = sig % (1u32 << down);
            if rest == 0 {
                Scalar { bits: 0 }
            } else {
                let mut significand: u32 = rest;
                let mut exponent: u32 = e;
                while significand < HIDDEN_BIT
                    invariant
                        1 <= significand < 0x100_0000,
                        e - 23 <= exponent <= e,
                        127 <= e < 150,
                        significand >= pow2((e - exponent) as nat),
                        significand * pow2((exponent - 1) as nat) == rest * pow2((e - 1) as nat),
                    decreases exponent,
                {
                    proof {
                        lemma2_to64();
                        if e - exponent >= 23 {
                            if e - exponent > 23 {
                                lemma_pow2_strictly_increases(23, (e - exponent) as nat);
                            }
                            assert(false);
                        }
                        lemma_pow2_unfold((e - exponent + 1) as nat);
                        lemma_pow2_unfold((exponent - 1) as nat);
                        let step = pow2((exponent - 2) as nat) as int;
                        assert((2 * significand) * step == significand * (2 * step))
                            by (nonlinear_arith);
                    }
                    significand = significand * 2;
                    exponent = exponent - 1;
                }
                let magnitude: u32 = exponent * HIDDEN_BIT + (significand - HIDDEN_BIT);
                let bits: u32 = if self.bits >= SIGN_BIT {
                    magnitude + SIGN_BIT
                } else {
                    magnitude
                };
                proof {
                    let r = Scalar { bits };
                    assert(r.field() == magnitude);
                    assert(r.exponent() == exponent);
                    assert(r.fraction() == significand - HIDDEN_BIT);
                    assert(rest * pow2((e - 1) as nat) > 0) by (nonlinear_arith)
                        requires
                            rest > 0,
                            pow2((e - 1) as nat) > 0,
                    ;
                }
                Scalar { bits }
            }
        };
        r
    }

    /// The absolute value: the encoding with the sign bit cleared.
    pub fn abs(self) -> (r: Scalar)
        ensures
            r == self.spec_abs(),
            !r.sign(),
            r.field() == self.field(),
            r.is_nan() == self.is_nan(),
            r.magnitude() == self.magnitude(),
    {
        Scalar { bits: self.bits % SIGN_BIT }
    }

    /// The number as a `u32`, as the machine converts it: the fraction is dropped,
    /// a NaN and every negative number give 0, and a number too large gives
    /// `u32::MAX`.
    pub fn to_u32(self) -> (r: u32)
        ensures
            r == self.spec_to_u32(),
    {
        let field: u32 = self.bits % SIGN_BIT;
        if field > INFINITY_BITS || self.bits >= SIGN_BIT {
            return 0;
        }
        let (whole, _exact) = split_magnitude(field);
        whole
    }

    /// The floor of the number as an `i32`, as the machine rounds down and then
    /// converts: a NaN gives 0, a floor outside the range the nearest end of it.
    pub fn floor_to_i32(self) -> (r: i32)
        ensures
            r == self.spec_floor_i32(),
    {
        let field: u32 = self.bits % SIGN_BIT;
        if field > INFINITY_BITS {
            return 0;
        }
        let (whole, exact) = split_magnitude(field);
        proof {
            lemma_pow2_pos(UNIT_SHIFT as nat);
            lemma_magnitude_order(0, field as int);
            lemma_floor_of_negative(field_magnitude(field as int), unit());
        }
        if self.bits < SIGN_BIT {
            if whole > 0x7fff_ffff {
                i32::MAX
            } else {
                whole as i32
            }
        } else if whole >= 0x8000_0000 {
            i32::MIN
        } else if exact {
            (-(whole as i64)) as i32
        } else {
            (-(whole as i64) - 1) as i32
        }
    }
}

/// The whole part of a magnitude, at most `u32::MAX`, and whether the magnitude
/// is a whole number.
fn split_magnitude(field: u32) -> (r: (u32, bool))
    requires
        field <= INFINITY_BITS,
    ensures
        r.0 == if field_magnitude(field as int) / unit() > u32::MAX {
            u32::MAX as int
        } else {
            field_magnitude(field as int) / unit()
        },
        r.1 == (field_magnitude(field as int) % unit() == 0),
{
    let e: u32 = field / HIDDEN_BIT;
    let f: u32 = field % HIDDEN_BIT;
    let sig: u32 = HIDDEN_BIT + f;
    proof {
        lemma_pow2_pos(UNIT_SHIFT as nat);
        lemma_magnitude_order(0, field as int);
    }
    if e < 127 {
        proof {
            lemma_below_one(e as int, f as int);
            lemma_small_mod(field_magnitude(field as int) as nat, unit() as nat);
            lemma_basic_div(field_magnitude(field as int), unit());
        }
        (0, field == 0)
    } else if e >= 150 {
        let up: u32 = e - 150;
        proof {
            lemma_whole_number(e as int, f as int);
            let factor = pow2(up as nat) as int;
            let whole = sig as int * factor;
            assert(whole >= 0) by (nonlinear_arith)
                requires
                    whole == sig as int * factor,
                    sig >= 0,
                    factor >= 0,
            ;
            lemma_div_multiples_vanish(whole, unit());
            lemma_mod_multiples_basic(whole, unit());
            assert(field_magnitude(field as int) == whole * unit());
            assert(unit() * whole == whole * unit()) by (nonlinear_arith);
            lemma2_to64();
            if up <= 8 {
                if up < 8 {
                    lemma_pow2_strictly_increases(up as nat, 8);
                }
                assert(whole <= u32::MAX) by (nonlinear_arith)
                    requires
                        whole == sig as int * factor,
                        0 <= sig < 0x100_0000,
                        0 <= factor <= 0x100,
                ;
                lemma_u32_shl_is_mul(sig, up);
            } else {
                if up > 9 {
                    lemma_pow2_strictly_increases(9, up as nat);
                }
                assert(whole > u32::MAX) by (nonlinear_arith)
                    requires
                        whole == sig as int * factor,
                        sig >= 0x80_0000,
                        factor >= 0x200,
                ;
            }
        }
        if up <= 8 {
            (sig << up, true)
        } else {
            (u32::MAX, true)
        }
    } else {
        let down: u32 = 150 - e;
        proof {
            lemma_mixed_number(e as int, f as int);
            lemma_u32_shr_is_div(sig, down);
            lemma2_to64();
            lemma_pow2_strictly_increases(down as nat, 24);
            lemma_u32_shl_is_mul(1, down);
        }
        let divisor: u32 = 1u32 << down;
        (sig >> down, sig % divisor == 0)
    }
}

/// The encoding of 1 stands for 2^149 units.
pub proof fn lemma_one_scaled()
    ensures
        !(Scalar { bits: ONE_BITS }).is_nan(),
        (Scalar { bits: ONE_BITS }).scaled() == unit(),
{
    let one = Scalar { bits: ONE_BITS };
    assert(one.exponent() == 127);
    assert(one.fraction() == 0);
    lemma_pow2_adds(23, 126);
    lemma2_to64();
    assert(pow2(23) == 0x80_0000);
}

/// A larger magnitude field stands for a larger magnitude: the encoding keeps the
/// order of the numbers.
pub proof fn lemma_magnitude_increases(low: int, high: int)
    requires
        0 <= low < high < 0x8000_0000,
    ensures
        0 <= field_magnitude(low) < field_magnitude(high),
{
    let h = HIDDEN_BIT as int;
    let e1 = low / h;
    let f1 = low % h;
    let e2 = high / h;
    let f2 = high % h;
    assert(e1 <= e2);
    if e1 == e2 {
        assert(f1 < f2);
        if e1 > 0 {
            let p = pow2((e1 - 1) as nat) as int;
            lemma_pow2_pos((e1 - 1) as nat);
            assert(0 <= (h + f1) * p < (h + f2) * p) by (nonlinear_arith)
                requires
                    0 <= f1 < f2,
                    p > 0,
                    h > 0,
            ;
        }
    } else {
        let upper_step = pow2((e2 - 1) as nat) as int;
        lemma_pow2_pos((e2 - 1) as nat);
        assert(h <= (h + f2) * upper_step) by (nonlinear_arith)
            requires
                0 <= f2,
                upper_step >= 1,
                h > 0,
        ;
        if e1 > 0 {
            let lower_step = pow2((e1 - 1) as nat) as int;
            lemma_pow2_pos((e1 - 1) as nat);
            lemma_pow2_unfold(e1 as nat);
            assert(pow2(e1 as nat) == 2 * lower_step);
            if e1 < e2 - 1 {
                lemma_pow2_strictly_increases(e1 as nat, (e2 - 1) as nat);
            }
            assert(2 * lower_step <= upper_step);
            assert(0 <= (h + f1) * lower_step < h * upper_step) by (nonlinear_arith)
                requires
                    0 <= f1 < h,
                    lower_step > 0,
                    2 * lower_step <= upper_step,
            ;
            assert(h * upper_step <= (h + f2) * upper_step) by (nonlinear_arith)
                requires
                    0 <= f2,
                    upper_step >= 1,
            ;
        }
    }
}

/// Two magnitude fields compare as the magnitudes they stand for.
pub proof fn lemma_magnitude_order(a: int, b: int)
    requires
        0 <= a < 0x8000_0000,
        0 <= b < 0x8000_0000,
    ensures
        a < b <==> field_magnitude(a) < field_magnitude(b),
        a == b <==> field_magnitude(a) == field_magnitude(b),
        field_magnitude(a) >= 0,
        field_magnitude(b) >= 0,
        a == 0 <==> field_magnitude(a) == 0,
        b == 0 <==> field_magnitude(b) == 0,
{
    if a < b {
        lemma_magnitude_increases(a, b);
    } else if b < a {
        lemma_magnitude_increases(b, a);
    }
    if 0 < a {
        lemma_magnitude_increases(0, a);
    }
    if 0 < b {
        lemma_magnitude_increases(0, b);
    }
    assert(field_magnitude(0) == 0);
}

/// The order of the numbers: of two numbers exactly one is less than the other,
/// or they are equal; and what is less than a number is less than everything
/// that number is less than. A NaN is in no order with anything.
pub proof fn lemma_order(a: Scalar, b: Scalar, c: Scalar)
    ensures
        !a.spec_lt(a),
        !(a.spec_lt(b) && b.spec_lt(a)),
        !a.is_nan() && !b.is_nan() ==> (a.spec_lt(b) || b.spec_lt(a) || a.scaled() == b.scaled()),
        a.spec_lt(b) && b.spec_lt(c) ==> a.spec_lt(c),
        a.spec_le(b) <==> a.spec_lt(b) || (!a.is_nan() && !b.is_nan() && a.scaled() == b.scaled()),
        a.is_nan() || b.is_nan() ==> !a.spec_lt(b) && !a.spec_le(b) && !a.spec_gt(b),
        a.spec_max(b) == a || a.spec_max(b) == b,
        a.spec_min(b) == a || a.spec_min(b) == b,
        !a.is_nan() && !b.is_nan() ==> a.spec_min(b).spec_le(a.spec_max(b)),
{
}

/// Every finite number lies strictly between the two infinities.
pub proof fn lemma_infinity_bounds(x: Scalar)
    requires
        x.is_finite(),
    ensures
        x.spec_lt(Scalar { bits: INFINITY_BITS }),
        (Scalar { bits: 0xff80_0000 }).spec_lt(x),
{
    let up = Scalar { bits: INFINITY_BITS };
    let down = Scalar { bits: 0xff80_0000 };
    assert(up.field() == INFINITY_BITS && down.field() == INFINITY_BITS);
    assert(x.field() < INFINITY_BITS);
    lemma_magnitude_increases(x.field(), INFINITY_BITS as int);
}

/// Two encodings of one number are the same encoding, but for the two zeros:
/// numbers that are not NaN, of one sign and of equal magnitude agree bit for
/// bit.
pub proof fn lemma_encoding_unique(a: Scalar, b: Scalar)
    requires
        a.sign() == b.sign(),
        a.magnitude() == b.magnitude(),
    ensures
        a.bits == b.bits,
{
    lemma_magnitude_order(a.field(), b.field());
}

/// A number has one fractional part.
pub proof fn lemma_fraction_unique(x: Scalar, first: Scalar, second: Scalar)
    requires
        x.fraction_is(first),
        x.fraction_is(second),
    ensures
        first.bits == second.bits,
{
    if x.is_finite() {
        lemma_encoding_unique(first, second);
    }
}

/// Numbers of one sign that differ by a whole number have the same fractional
/// part: the fractional part repeats from unit to unit.
pub proof fn lemma_fract_repeats(x: Scalar, y: Scalar, units: int, fraction: Scalar)
    requires
        x.is_finite(),
        y.is_finite(),
        x.sign() == y.sign(),
        y.magnitude() == x.magnitude() + units * unit(),
    ensures
        x.fraction_is(fraction) <==> y.fraction_is(fraction),
{
    lemma_pow2_pos(UNIT_SHIFT as nat);
    lemma_mod_multiples_vanish(units, x.magnitude(), unit());
    assert(unit() * units == units * unit()) by (nonlinear_arith);
}

/// Scaling a dividend and a divisor by the same positive factor keeps the
/// quotient and scales the remainder.
pub proof fn lemma_scale_div(x: int, p: int, q: int)
    requires
        x >= 0,
        p > 0,
        q > 0,
    ensures
        (x * p) / (p * q) == x / q,
        (x * p) % (p * q) == (x % q) * p,
{
    let a = x / q;
    let r = x % q;
    lemma_fundamental_div_mod(x, q);
    lemma_mod_bound(x, q);
    assert(x * p == a * (p * q) + r * p) by (nonlinear_arith)
        requires
            x == q * a + r,
    ;
    assert(0 <= r * p < p * q) by (nonlinear_arith)
        requires
            0 <= r < q,
            p > 0,
    ;
    lemma_fundamental_div_mod_converse(x * p, p * q, a, r * p);
}

/// Rounding a negative number down: the floor of `-m / d` is the negated
/// quotient, less one when the division leaves a remainder.
pub proof fn lemma_floor_of_negative(m: int, d: int)
    requires
        m >= 0,
        d > 0,
    ensures
        (-m) / d == if m % d == 0 { -(m / d) } else { -(m / d) - 1 },
{
    let q = m / d;
    let r = m % d;
    lemma_fundamental_div_mod(m, d);
    lemma_mod_bound(m, d);
    if r == 0 {
        assert(-m == (-q) * d + 0) by (nonlinear_arith)
            requires
                m == d * q + r,
                r == 0,
        ;
        lemma_fundamental_div_mod_converse(-m, d, -q, 0);
    } else {
        assert(-m == (-q - 1) * d + (d - r)) by (nonlinear_arith)
            requires
                m == d * q + r,
        ;
        lemma_fundamental_div_mod_converse(-m, d, -q - 1, d - r);
    }
}

/// An exponent field below 127 stands for a magnitude below one.
pub proof fn lemma_below_one(e: int, f: int)
    requires
        0 <= e < 127,
        0 <= f < 0x80_0000,
    ensures
        0 <= magnitude_of(e, f) < unit(),
{
    lemma2_to64();
    if e == 0 {
        lemma_pow2_strictly_increases(23, UNIT_SHIFT as nat);
    } else {
        let p = pow2((e - 1) as nat) as int;
        lemma_pow2_pos((e - 1) as nat);
        lemma_pow2_adds(24, (e - 1) as nat);
        if 24 + (e - 1) < 149 {
            lemma_pow2_strictly_increases((24 + (e - 1)) as nat, UNIT_SHIFT as nat);
        }
        assert(0 <= (0x80_0000 + f) * p < 0x100_0000 * p) by (nonlinear_arith)
            requires
                0 <= f < 0x80_0000,
                p > 0,
        ;
    }
}

/// An exponent field from 150 on stands for a whole number: the significand
/// times a power of two.
pub proof fn lemma_whole_number(e: int, f: int)
    requires
        150 <= e <= 255,
        0 <= f < 0x80_0000,
    ensures
        magnitude_of(e, f) == ((0x80_0000 + f) * pow2((e - 150) as nat)) * unit(),
{
    let up = pow2((e - 150) as nat) as int;
    lemma_pow2_adds((e - 150) as nat, UNIT_SHIFT as nat);
    assert(pow2((e - 1) as nat) == up * unit());
    assert((0x80_0000 + f) * (up * unit()) == ((0x80_0000 + f) * up) * unit())
        by (nonlinear_arith);
}

/// An exponent field from 127 to 149 stands for the significand divided by a
/// power of two.
pub proof fn lemma_mixed_number(e: int, f: int)
    requires
        127 <= e < 150,
        0 <= f < 0x80_0000,
    ensures
        magnitude_of(e, f) / unit() == (0x80_0000 + f) / (pow2((150 - e) as nat) as int),
        magnitude_of(e, f) % unit() == 0 <==> (0x80_0000 + f) % (pow2((150 - e) as nat) as int)
            == 0,
{
    let p = pow2((e - 1) as nat) as int;
    let q = pow2((150 - e) as nat) as int;
    let sig = 0x80_0000 + f;
    lemma_pow2_pos((e - 1) as nat);
    lemma_pow2_pos((150 - e) as nat);
    lemma_pow2_adds((e - 1) as nat, (150 - e) as nat);
    assert(unit() == p * q);
    lemma_scale_div(sig, p, q);
    lemma_mod_bound(sig, q);
    assert((sig % q) * p == 0 <==> sig % q == 0) by (nonlinear_arith)
        requires
            p > 0,
            sig % q >= 0,
    ;
}

} // verus!
