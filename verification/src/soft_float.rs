//! A software floating-point number in the IEEE 754 binary32 layout, kept as
//! explicit sign / biased exponent / significand fields. This backend is an
//! experimental precision strategy: multiplication, comparison and the bit
//! conversions are implemented; addition and subtraction are not yet, so the
//! backend cannot drive the escape-time kernel.

use vstd::prelude::*;
use vstd::arithmetic::power2::{
    pow2, lemma_pow2_pos, lemma_pow2_adds, lemma_pow2_strictly_increases, lemma2_to64,
};
use vstd::arithmetic::div_mod::{
    lemma_div_denominator, lemma_fundamental_div_mod, lemma_fundamental_div_mod_converse,
    lemma_mod_bound,
};
use vstd::bits::{
    lemma_u64_shr_is_div, lemma_u64_low_bits_mask_is_mod, lemma_low_bits_mask_values,
};

verus! {

/// Bias of the binary32 exponent.
pub const BIAS: u32 = 127;
/// All ones in the biased exponent field: infinities and NaNs.
pub const EXPONENT_MASK: u32 = 0xFF;
/// Stored width of the significand; the leading bit is implicit.
pub const SIGNIFICAND_WIDTH: u32 = 23;
/// Mask of the stored significand bits.
pub const SIGNIFICAND_MASK: u32 = 0x7FFFFF;

/// A binary32 value held as plain fields. A packed value denotes
/// `(-1)^negative * m * 2^(exponent - 150)` where `m` is the significand with
/// the implicit leading bit added whenever the biased exponent is non-zero.
#[derive(Debug, Default, PartialEq, Eq, Structural, Clone, Copy)]
pub struct SoftFloat {
    pub negative: bool,
    pub exponent: u32,
    pub significand: u64,
}

impl SoftFloat {
    /// A value is in packed form when its exponent and significand fit their
    /// binary32 fields.
    pub open spec fn packed(self) -> bool {
        self.exponent <= EXPONENT_MASK && self.significand <= SIGNIFICAND_MASK
    }

    /// Significand with the implicit leading bit made explicit.
    pub open spec fn full_sig(self) -> int {
        if self.exponent == 0 {
            self.significand as int
        } else {
            self.significand + 0x800000
        }
    }

    /// Magnitude of a packed finite value, scaled by `2^149` so that it is an
    /// integer: subnormals sit below `2^23`, normal values at or above it.
    /// The infinite encodings land above every finite magnitude, so the model
    /// also orders them correctly.
    pub open spec fn mag2(self) -> int {
        if self.exponent == 0 {
            self.significand as int
        } else {
            (self.significand + 0x800000) * pow2((self.exponent - 1) as nat)
        }
    }

    /// Signed value of a packed non-NaN number, scaled by `2^149`.
    pub open spec fn val2(self) -> int {
        if self.negative {
            -self.mag2()
        } else {
            self.mag2()
        }
    }

    pub open spec fn is_zero_s(self) -> bool {
        self.exponent == 0 && self.significand == 0
    }

    pub open spec fn is_subnormal_s(self) -> bool {
        self.exponent == 0 && self.significand != 0
    }

    /// When the biased exponent is zero the leading digit is taken to be 0 and
    /// the exponent is read as -126 despite the bias.
    pub fn is_subnormal(&self) -> (r: bool)
        ensures
            r == self.is_subnormal_s(),
    {
        self.exponent == 0 && self.significand != 0
    }

    pub open spec fn is_pos_infinity_s(self) -> bool {
        !self.negative && self.exponent == EXPONENT_MASK && self.significand == 0
    }

    /// Maximum biased exponent with an all-zero significand reads as infinity,
    /// positive or negative according to the sign bit.
    pub fn is_pos_infinity(&self) -> (r: bool)
        ensures
            r == self.is_pos_infinity_s(),
    {
        !self.negative && self.exponent == EXPONENT_MASK && self.significand == 0
    }

    pub open spec fn is_neg_infinity_s(self) -> bool {
        self.negative && self.exponent == EXPONENT_MASK && self.significand == 0
    }

    pub fn is_neg_infinity(&self) -> (r: bool)
        ensures
            r == self.is_neg_infinity_s(),
    {
        self.negative && self.exponent == EXPONENT_MASK && self.significand == 0
    }

    pub open spec fn is_neg_zero_s(self) -> bool {
        self.negative && self.is_zero_s()
    }

    pub fn is_neg_zero(&self) -> (r: bool)
        ensures
            r == self.is_neg_zero_s(),
    {
        self.negative && self.exponent == 0 && self.significand == 0
    }

    pub open spec fn is_pos_zero_s(self) -> bool {
        !self.negative && self.is_zero_s()
    }

    pub fn is_pos_zero(&self) -> (r: bool)
        ensures
            r == self.is_pos_zero_s(),
    {
        !self.negative && self.exponent == 0 && self.significand == 0
    }

    pub open spec fn is_nan_s(self) -> bool {
        self.exponent == EXPONENT_MASK && self.significand != 0
    }

    /// Maximum biased exponent with a non-zero significand reads as NaN.
    pub fn is_nan(&self) -> (r: bool)
        ensures
            r == self.is_nan_s(),
    {
        self.exponent == EXPONENT_MASK && self.significand != 0
    }

    pub open spec fn get_exponent_s(self) -> int {
        if self.is_subnormal_s() {
            -(BIAS as int) + 1
        } else {
            self.exponent as int - BIAS as int
        }
    }

    /// The unbiased exponent; subnormals share the exponent of the smallest
    /// normal numbers.
    pub fn get_exponent(&self) -> (r: i32)
        requires
            self.packed(),
        ensures
            r as int == self.get_exponent_s(),
    {
        if self.is_subnormal() {
            return -(BIAS as i32) + 1;
        }
        self.exponent as i32 - BIAS as i32
    }

    pub open spec fn pos_inf_s() -> SoftFloat {
        SoftFloat { negative: false, exponent: EXPONENT_MASK, significand: 0 }
    }

    pub fn pos_inf() -> (r: Self)
        ensures
            r == Self::pos_inf_s(),
            r.is_pos_infinity_s(),
    {
        Self { negative: false, exponent: EXPONENT_MASK, significand: 0 }
    }

    pub open spec fn neg_inf_s() -> SoftFloat {
        SoftFloat { negative: true, exponent: EXPONENT_MASK, significand: 0 }
    }

    pub fn neg_inf() -> (r: Self)
        ensures
            r == Self::neg_inf_s(),
            r.is_neg_infinity_s(),
    {
        Self { negative: true, exponent: EXPONENT_MASK, significand: 0 }
    }

    /// Unpack the fields from the binary32 bit pattern.
    pub open spec fn from_bits_s(bits: u32) -> SoftFloat {
        SoftFloat {
            negative: bits >> 31 == 1,
            exponent: (bits >> SIGNIFICAND_WIDTH) & EXPONENT_MASK,
            significand: (bits & SIGNIFICAND_MASK) as u64,
        }
    }

    /// Build the value whose binary32 bit pattern is `bits`.
    pub fn from_bits(bits: u32) -> (r: Self)
        ensures
            r == Self::from_bits_s(bits),
            r.packed(),
    {
        let negative = (bits >> 31) == 1;
        let exponent = (bits >> SIGNIFICAND_WIDTH) & EXPONENT_MASK;
        let significand = (bits & SIGNIFICAND_MASK) as u64;
        proof {
            assert((bits >> 23u32) & 0xFFu32 <= 0xFF && bits & 0x7FFFFFu32 <= 0x7FFFFF)
                by (bit_vector);
        }
        Self { negative, exponent, significand }
    }

    /// Pack the fields back into the binary32 bit pattern.
    pub open spec fn to_bits_s(self) -> u32 {
        ((if self.negative { 1u32 } else { 0u32 }) << 31) | (self.exponent << SIGNIFICAND_WIDTH)
            | (self.significand as u32 & SIGNIFICAND_MASK)
    }

    /// The binary32 bit pattern of a packed value.
    pub fn to_bits(&self) -> (r: u32)
        requires
            self.packed(),
        ensures
            r == self.to_bits_s(),
    {
        let sign: u32 = if self.negative { 1 } else { 0 };
        (sign << 31) | (self.exponent << SIGNIFICAND_WIDTH) | (self.significand as u32
            & SIGNIFICAND_MASK)
    }

    /// How many right shifts `normalize` performs on a significand.
    pub open spec fn norm_shift(sig: int) -> nat
        decreases sig,
    {
        if sig >= 0x1000000 {
            1 + Self::norm_shift(sig / 2)
        } else {
            0
        }
    }

    /// What `normalize` leaves behind for a finite, non-subnormal value: the
    /// significand shifted until it fits 24 bits (dropped bits are lost), the
    /// exponent raised by the shift count, and the implicit bit masked off.
    pub open spec fn normalize_s(self) -> SoftFloat {
        let k = Self::norm_shift(self.significand as int);
        SoftFloat {
            negative: self.negative,
            exponent: (self.exponent + k) as u32,
            significand: ((self.significand as int / pow2(k) as int) % 0x800000) as u64,
        }
    }

    proof fn lemma_norm_shift_le(sig: int, k: nat)
        requires
            sig < pow2((k + 24) as nat),
        ensures
            Self::norm_shift(sig) <= k,
        decreases k,
    {
        lemma2_to64();
        if sig >= 0x1000000 {
            assert(pow2(24) == 0x1000000) by {
                lemma2_to64();
            }
            if k == 0 {
                assert(false);
            } else {
                assert(pow2((k + 24) as nat) == 2 * pow2((k + 23) as nat)) by {
                    lemma_pow2_adds(1, (k + 23) as nat);
                    lemma2_to64();
                }
                Self::lemma_norm_shift_le(sig / 2, (k - 1) as nat);
            }
        }
    }

    /// Bring an oversized significand back into the 23 stored bits by shifting
    /// it right, raising the exponent once per shift; dropped low bits are
    /// truncated. NaN and the infinities are left untouched; the subnormal
    /// case is not implemented.
    pub fn normalize(&mut self)
        requires
            !old(self).is_subnormal_s(),
            old(self).exponent <= EXPONENT_MASK,
        ensures
            (old(self).is_nan_s() || old(self).is_neg_infinity_s()
                || old(self).is_pos_infinity_s()) ==> *final(self) == *old(self),
            !(old(self).is_nan_s() || old(self).is_neg_infinity_s()
                || old(self).is_pos_infinity_s()) ==> *final(self) == old(self).normalize_s(),
    {
        if self.is_nan() || self.is_neg_infinity() || self.is_pos_infinity() {
            // Nothing to normalize
            return ;
        }
        proof {
            lemma2_to64();
            assert(self.significand < pow2(64));
            Self::lemma_norm_shift_le(self.significand as int, 40);
        }
        // If anything sits above the 23 stored bits and the implicit bit,
        // shift it out.
        while (self.significand & !(SIGNIFICAND_MASK as u64)) > (1u64 << SIGNIFICAND_WIDTH)
            invariant
                self.negative == old(self).negative,
                self.exponent + Self::norm_shift(self.significand as int) == old(self).exponent
                    + Self::norm_shift(old(self).significand as int),
                Self::norm_shift(old(self).significand as int) <= 40,
                old(self).exponent <= EXPONENT_MASK,
                self.normalize_s() == old(self).normalize_s(),
            decreases self.significand,
        {
            proof {
                let s = self.significand;
                assert(((s & !(0x7FFFFFu64)) > (1u64 << 23u32)) == (s >= 0x1000000))
                    by (bit_vector);
                assert(s >> 1u32 == s / 2) by (bit_vector);
                let k1 = Self::norm_shift(s as int / 2);
                lemma_pow2_pos(k1);
                lemma_div_denominator(s as int, 2, pow2(k1) as int);
                assert(2 * pow2(k1) == pow2(k1 + 1)) by {
                    lemma_pow2_adds(1, k1);
                    lemma2_to64();
                }
            }
            // Does this overflow?
            self.significand >>= 1u32;
            self.exponent += 1;
        }
        proof {
            let s = self.significand;
            assert(((s & !(0x7FFFFFu64)) <= (1u64 << 23u32)) ==> (s < 0x1000000)) by (bit_vector);
            assert(s & 0x7FFFFFu64 == s % 0x800000) by {
                lemma_low_bits_mask_values();
                lemma_u64_low_bits_mask_is_mod(s, 23);
                assert(pow2(23) == 0x800000) by {
                    lemma2_to64();
                }
            }
            assert(pow2(0) == 1) by {
                lemma2_to64();
            }
            assert(Self::norm_shift(s as int) == 0);
            assert(s as int / pow2(0) as int == s as int);
            assert(self.normalize_s() == SoftFloat {
                negative: self.negative,
                exponent: self.exponent,
                significand: (s % 0x800000) as u64,
            });
        }
        // Drop the implicit bit from its stored position.
        self.significand &= SIGNIFICAND_MASK as u64;
    }

    /// What multiplication returns for normal, finite operands whose result
    /// does not underflow: signs combine, biased exponents add, the full
    /// significands multiply and the product is truncated back into place; an
    /// exponent beyond the field returns the signed infinity.
    pub open spec fn mul_s(self, rhs: Self) -> SoftFloat {
        let neg = self.negative != rhs.negative;
        let e = self.exponent + rhs.exponent - BIAS;
        if e > EXPONENT_MASK {
            if neg {
                Self::neg_inf_s()
            } else {
                Self::pos_inf_s()
            }
        } else if e == EXPONENT_MASK {
            // The all-ones exponent makes `normalize` read the raw product as
            // NaN and hand it back untouched.
            SoftFloat {
                negative: neg,
                exponent: e as u32,
                significand: ((self.full_sig() * rhs.full_sig()) / 0x800000) as u64,
            }
        } else {
            SoftFloat {
                negative: neg,
                exponent: e as u32,
                significand: ((self.full_sig() * rhs.full_sig()) / 0x800000) as u64,
            }.normalize_s()
        }
    }

    /// Multiply two normal, finite values. The significand product is
    /// truncated, not rounded, as the experimental backend stands; operands
    /// whose product would underflow to a subnormal are excluded because
    /// `normalize` does not handle that case yet.
    pub fn mul(&self, rhs: &Self) -> (r: Self)
        requires
            self.packed(),
            rhs.packed(),
            1 <= self.exponent < EXPONENT_MASK,
            1 <= rhs.exponent < EXPONENT_MASK,
            self.exponent + rhs.exponent > BIAS,
        ensures
            r == self.mul_s(*rhs),
            r.negative == (self.negative != rhs.negative),
    {
        let negative = self.negative != rhs.negative;
        // exponent - BIAS + exponent - BIAS are the unbiased exponents; their
        // sum rebased once gives the biased exponent of the product.
        let exponent = self.exponent + rhs.exponent - BIAS;

        if exponent > EXPONENT_MASK {
            if negative {
                return SoftFloat::neg_inf();
            } else {
                return SoftFloat::pos_inf();
            }
        }
        let mut a_sig = self.significand;
        if !self.is_subnormal() {
            a_sig |= 1u64 << SIGNIFICAND_WIDTH;
        }
        let mut b_sig = rhs.significand;
        if !rhs.is_subnormal() {
            b_sig |= 1u64 << SIGNIFICAND_WIDTH;
        }
        proof {
            let sa = self.significand;
            let sb = rhs.significand;
            assert(sa <= 0x7FFFFF ==> (sa | (1u64 << 23u32)) == sa + 0x800000) by (bit_vector);
            assert(sb <= 0x7FFFFF ==> (sb | (1u64 << 23u32)) == sb + 0x800000) by (bit_vector);
            assert(self.full_sig() * rhs.full_sig() < 0x1000000000000) by (nonlinear_arith)
                requires
                    0 <= self.full_sig() < 0x1000000,
                    0 <= rhs.full_sig() < 0x1000000,
            ;
        }
        // The two full significands each fit 24 bits, so their product fits a
        // u64; shifting back by the significand width leaves the leading bits
        // in place for normalization.
        let significand = (a_sig * b_sig) >> SIGNIFICAND_WIDTH;
        proof {
            let p = (a_sig * b_sig) as u64;
            lemma_u64_shr_is_div(p, 23);
            assert(pow2(23) == 0x800000) by {
                lemma2_to64();
            }
        }
        let mut res = SoftFloat { negative, exponent, significand };
        res.normalize();
        res
    }

    /// Mirror of the comparison: negatives sort below positives; within one
    /// sign the exponents order first, then the significands, with both
    /// reversed for two negative values.
    pub open spec fn cmp_s(self, other: Self) -> core::cmp::Ordering {
        if self.negative == other.negative {
            let x = if self.negative { other } else { self };
            let y = if self.negative { self } else { other };
            if x.exponent == y.exponent {
                if x.significand < y.significand {
                    core::cmp::Ordering::Less
                } else if x.significand == y.significand {
                    core::cmp::Ordering::Equal
                } else {
                    core::cmp::Ordering::Greater
                }
            } else if x.exponent < y.exponent {
                core::cmp::Ordering::Less
            } else {
                core::cmp::Ordering::Greater
            }
        } else if self.negative {
            core::cmp::Ordering::Less
        } else {
            core::cmp::Ordering::Greater
        }
    }
}

impl core::cmp::PartialOrd for SoftFloat {
    /// Compare two values in normalized form; NaNs are not detected and
    /// compare through their fields like every other value.
    fn partial_cmp(&self, other: &Self) -> (r: Option<core::cmp::Ordering>) {
        if self.negative == other.negative {
            // Both positive, or both negative: compare magnitudes, reversed
            // when both are negative.
            let a = if self.negative { other } else { self };
            let b = if self.negative { self } else { other };
            if a.exponent == b.exponent {
                if a.significand < b.significand {
                    Some(core::cmp::Ordering::Less)
                } else if a.significand == b.significand {
                    Some(core::cmp::Ordering::Equal)
                } else {
                    Some(core::cmp::Ordering::Greater)
                }
            } else if a.exponent < b.exponent {
                Some(core::cmp::Ordering::Less)
            } else {
                Some(core::cmp::Ordering::Greater)
            }
        } else if self.negative {
            Some(core::cmp::Ordering::Less)
        } else {
            Some(core::cmp::Ordering::Greater)
        }
    }
}

impl vstd::std_specs::cmp::PartialOrdSpecImpl for SoftFloat {
    open spec fn obeys_partial_cmp_spec() -> bool {
        true
    }

    open spec fn partial_cmp_spec(&self, other: &Self) -> Option<core::cmp::Ordering> {
        Some(self.cmp_s(*other))
    }
}

/// A strictly larger biased exponent means a strictly larger magnitude, for
/// packed values.
proof fn lemma_mag2_exp_mono(x: SoftFloat, y: SoftFloat)
    requires
        x.packed(),
        y.packed(),
        x.exponent < y.exponent,
    ensures
        x.mag2() < y.mag2(),
{
    lemma2_to64();
    let p = pow2((y.exponent - 1) as nat) as int;
    lemma_pow2_pos((y.exponent - 1) as nat);
    if x.exponent == 0 {
        assert(y.mag2() >= 0x800000) by (nonlinear_arith)
            requires
                y.mag2() == (y.significand + 0x800000) * p,
                p >= 1,
                y.significand >= 0,
        ;
    } else {
        let q = pow2((x.exponent - 1) as nat) as int;
        lemma_pow2_pos((x.exponent - 1) as nat);
        lemma_pow2_adds((x.exponent - 1) as nat, 1);
        lemma_pow2_adds((x.exponent - 1) as nat, 24);
        lemma_pow2_adds((y.exponent - 1) as nat, 23);
        assert(x.mag2() < pow2((x.exponent + 23) as nat)) by (nonlinear_arith)
            requires
                x.mag2() == (x.significand + 0x800000) * q,
                q >= 1,
                0 <= x.significand <= 0x7FFFFF,
                pow2((x.exponent + 23) as nat) == 0x1000000 * q,
        ;
        assert(y.mag2() >= pow2((y.exponent + 22) as nat)) by (nonlinear_arith)
            requires
                y.mag2() == (y.significand + 0x800000) * p,
                p >= 1,
                y.significand >= 0,
                pow2((y.exponent + 22) as nat) == 0x800000 * p,
        ;
        if x.exponent + 23 <= y.exponent + 22 {
            if x.exponent + 23 < y.exponent + 22 {
                lemma_pow2_strictly_increases((x.exponent + 23) as nat, (y.exponent + 22) as nat);
            }
        }
    }
}

/// With one sign fixed, the field comparison orders exactly as the magnitude
/// model does.
proof fn lemma_mag2_order(x: SoftFloat, y: SoftFloat)
    requires
        x.packed(),
        y.packed(),
    ensures
        x.exponent < y.exponent ==> x.mag2() < y.mag2(),
        x.exponent == y.exponent && x.significand < y.significand ==> x.mag2() < y.mag2(),
        x.exponent == y.exponent && x.significand == y.significand ==> x.mag2() == y.mag2(),
{
    if x.exponent < y.exponent {
        lemma_mag2_exp_mono(x, y);
    }
    if x.exponent == y.exponent && x.exponent != 0 {
        let p = pow2((x.exponent - 1) as nat) as int;
        lemma_pow2_pos((x.exponent - 1) as nat);
        if x.significand < y.significand {
            assert((x.significand + 0x800000) * p < (y.significand + 0x800000) * p)
                by (nonlinear_arith)
                requires
                    p >= 1,
                    x.significand < y.significand,
            ;
        }
    }
}

/// The comparison agrees with the scaled value model on packed, non-NaN
/// values. The one exception is a pair of zeros of opposite sign, which the
/// comparison orders by sign although both denote zero.
pub proof fn lemma_cmp_orders_by_value(a: SoftFloat, b: SoftFloat)
    requires
        a.packed(),
        b.packed(),
        !a.is_nan_s(),
        !b.is_nan_s(),
        !(a.is_zero_s() && b.is_zero_s() && a.negative != b.negative),
    ensures
        (a.cmp_s(b) == core::cmp::Ordering::Less <==> a.val2() < b.val2()),
        (a.cmp_s(b) == core::cmp::Ordering::Equal <==> a.val2() == b.val2()),
        (a.cmp_s(b) == core::cmp::Ordering::Greater <==> a.val2() > b.val2()),
{
    if a.negative == b.negative {
        let x = if a.negative { b } else { a };
        let y = if a.negative { a } else { b };
        lemma_mag2_order(x, y);
        lemma_mag2_order(y, x);
    } else {
        // Opposite signs: at most one of the two magnitudes can be zero.
        assert(a.mag2() >= 0);
        assert(b.mag2() >= 0);
        if !a.is_zero_s() {
            if a.exponent == 0 {
                assert(a.mag2() > 0);
            } else {
                lemma_pow2_pos((a.exponent - 1) as nat);
                assert(a.mag2() > 0) by (nonlinear_arith)
                    requires
                        a.mag2() == (a.significand + 0x800000) * pow2(
                            (a.exponent - 1) as nat,
                        ) as int,
                        pow2((a.exponent - 1) as nat) >= 1,
                        a.significand >= 0,
                ;
            }
        }
        if !b.is_zero_s() {
            if b.exponent == 0 {
                assert(b.mag2() > 0);
            } else {
                lemma_pow2_pos((b.exponent - 1) as nat);
                assert(b.mag2() > 0) by (nonlinear_arith)
                    requires
                        b.mag2() == (b.significand + 0x800000) * pow2(
                            (b.exponent - 1) as nat,
                        ) as int,
                        pow2((b.exponent - 1) as nat) >= 1,
                        b.significand >= 0,
                ;
            }
        }
    }
}

/// What the truncating multiplication means numerically: for normal
/// operands whose biased exponents stay inside the field, the result's full
/// significand is the exact product of the operands' full significands
/// truncated to 24 bits, the result's exponent is the rebased exponent sum
/// raised by the single normalization shift, and the signs combine.
pub proof fn lemma_mul_truncates(a: SoftFloat, b: SoftFloat)
    requires
        a.packed(),
        b.packed(),
        1 <= a.exponent < EXPONENT_MASK,
        1 <= b.exponent < EXPONENT_MASK,
        a.exponent + b.exponent > BIAS,
        a.exponent + b.exponent - BIAS < EXPONENT_MASK,
    ensures
        ({
            let r = a.mul_s(b);
            let e = a.exponent + b.exponent - BIAS;
            let k = r.exponent - e;
            let p = a.full_sig() * b.full_sig();
            &&& 0 <= k <= 1
            &&& r.negative == (a.negative != b.negative)
            &&& 1 <= r.exponent
            &&& r.significand <= SIGNIFICAND_MASK
            &&& r.full_sig() * pow2((23 + k) as nat) <= p
            &&& p < (r.full_sig() + 1) * pow2((23 + k) as nat)
        }),
{
    lemma2_to64();
    let p = a.full_sig() * b.full_sig();
    assert(0x800000 <= a.full_sig() < 0x1000000);
    assert(0x800000 <= b.full_sig() < 0x1000000);
    assert(0x400000000000 <= p < 0x1000000000000) by (nonlinear_arith)
        requires
            0x800000 <= a.full_sig() < 0x1000000,
            0x800000 <= b.full_sig() < 0x1000000,
            p == a.full_sig() * b.full_sig(),
    ;
    let s0 = p / 0x800000;
    let rem = p % 0x800000;
    lemma_fundamental_div_mod(p, 0x800000);
    lemma_mod_bound(p, 0x800000);
    assert(0x800000 <= s0 < 0x2000000) by (nonlinear_arith)
        requires
            0x800000 * s0 + rem == p,
            0x400000000000 <= p < 0x1000000000000,
            0 <= rem < 0x800000,
    ;
    let e = a.exponent + b.exponent - BIAS;
    let raw = SoftFloat {
        negative: a.negative != b.negative,
        exponent: e as u32,
        significand: s0 as u64,
    };
    assert(a.mul_s(b) == raw.normalize_s());
    if s0 < 0x1000000 {
        // No shift: the significand already fits 24 bits.
        assert(SoftFloat::norm_shift(s0) == 0);
        assert(s0 / pow2(0) as int == s0);
        lemma_fundamental_div_mod_converse(s0, 0x800000, 1, s0 - 0x800000);
        let r = raw.normalize_s();
        assert(r.significand == s0 - 0x800000);
        assert(r.full_sig() == s0);
        assert(r.full_sig() * pow2(23) == s0 * 0x800000);
        assert(s0 * 0x800000 <= p < (s0 + 1) * 0x800000);
    } else {
        // One shift: halve the significand, raise the exponent.
        assert(SoftFloat::norm_shift(s0) == 1 + SoftFloat::norm_shift(s0 / 2));
        let s1 = s0 / 2;
        lemma_fundamental_div_mod(s0, 2);
        lemma_mod_bound(s0, 2);
        assert(0x800000 <= s1 < 0x1000000);
        assert(SoftFloat::norm_shift(s1) == 0);
        assert(pow2(1) == 2);
        assert(s0 / pow2(1) as int == s1);
        lemma_fundamental_div_mod_converse(s1, 0x800000, 1, s1 - 0x800000);
        let r = raw.normalize_s();
        assert(r.exponent == e + 1);
        assert(r.significand == s1 - 0x800000);
        assert(r.full_sig() == s1);
        // p sits between s1 * 2^24 and (s1 + 1) * 2^24.
        assert(p == 0x1000000 * s1 + (0x800000 * (s0 % 2) + rem));
        assert(0 <= 0x800000 * (s0 % 2) + rem < 0x1000000);
        assert(pow2(24) == 0x1000000);
        assert(r.full_sig() * pow2(24) <= p < (r.full_sig() + 1) * pow2(24));
    }
}

/// Unpacking a packed value's bit pattern gives the value back.
pub proof fn lemma_bits_round_trip(x: SoftFloat)
    requires
        x.packed(),
    ensures
        SoftFloat::from_bits_s(x.to_bits_s()) == x,
{
    let e = x.exponent;
    let s = x.significand as u32;
    let n: u32 = if x.negative { 1 } else { 0 };
    let b: u32 = (n << 31) | (e << 23u32) | (s & 0x7FFFFF);
    assert((b >> 31) == n && ((b >> 23u32) & 0xFF) == e && (b & 0x7FFFFF) == s) by (bit_vector)
        requires
            n <= 1,
            e <= 0xFF,
            s <= 0x7FFFFF,
            b == (n << 31) | (e << 23u32) | (s & 0x7FFFFF),
    ;
    assert(x.significand as u32 as u64 == x.significand);
}

} // verus!
