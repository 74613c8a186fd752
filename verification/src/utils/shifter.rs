use crate::gba::cpu::CPU;
use crate::gba::c_flag;
use super::bit_of;
use vstd::prelude::*;
use vstd::arithmetic::power2::{lemma2_to64, lemma_pow2_pos, lemma_pow2_strictly_increases, pow2};

verus! {

/// `x` rotated right by `r` places, for `r < 32`.
pub open spec fn rotr_spec(x: u32, r: u32) -> u32 {
    if r == 0 {
        x
    } else {
        (x >> r) | (x << ((32 - r) as u32))
    }
}

/// Rotates `x` right by `r` places; what `u32::rotate_right` computes for `r < 32`.
pub fn rotate_right(x: u32, r: u32) -> (res: u32)
    requires
        r < 32,
    ensures
        res == rotr_spec(x, r),
{
    if r == 0 {
        x
    } else {
        (x >> r) | (x << (32 - r))
    }
}

/// Logical shift left with the carry out; `carry` is the current carry flag, which a shift
/// by 0 keeps.
pub open spec fn shl_spec(carry: bool, lhs: u32, rhs: u32) -> (u32, bool) {
    if rhs == 0 {
        (lhs, carry)
    } else if rhs <= 31 {
        (lhs << rhs, bit_of(lhs, (32 - rhs) as u32))
    } else if rhs == 32 {
        (0, bit_of(lhs, 0))
    } else {
        (0, false)
    }
}

/// Logical shift right with the carry out.
pub open spec fn shr_spec(carry: bool, lhs: u32, rhs: u32) -> (u32, bool) {
    if rhs == 0 {
        (lhs, carry)
    } else if rhs <= 31 {
        (lhs >> rhs, bit_of(lhs, (rhs - 1) as u32))
    } else if rhs == 32 {
        (0, bit_of(lhs, 31))
    } else {
        (0, false)
    }
}

/// Arithmetic shift right with the carry out; shifts of 32 or more fill with the sign bit.
pub open spec fn asr_spec(carry: bool, lhs: u32, rhs: u32) -> (u32, bool) {
    if rhs == 0 {
        (lhs, carry)
    } else if rhs > 31 {
        (((lhs as i32) >> 31u32) as u32, bit_of(lhs, 31))
    } else {
        (((lhs as i32) >> rhs) as u32, bit_of(lhs, (rhs - 1) as u32))
    }
}

/// Rotate right with the carry out; the amount is taken modulo 32, and a nonzero multiple of
/// 32 leaves the value and carries out bit 31.
pub open spec fn ror_spec(carry: bool, lhs: u32, rhs: u32) -> (u32, bool) {
    if rhs == 0 {
        (lhs, carry)
    } else if rhs % 32 == 0 {
        (lhs, bit_of(lhs, 31))
    } else {
        (rotr_spec(lhs, rhs % 32), bit_of(lhs, ((rhs % 32) - 1) as u32))
    }
}

/// Rotate right extended as this emulator computes it: bit 31 of `lhs` moved to bit 0,
/// the carry in bit 31, and bit 0 of `lhs` carried out.
pub open spec fn rrx_spec(carry: bool, lhs: u32) -> (u32, bool) {
    ((lhs >> 31) | (if carry { 0x80000000u32 } else { 0 }), lhs & 1 == 1)
}

/// The barrel shifter, fed with the carry flag of a CPU.
pub trait CpuShifter {
    fn shl_with_carry(&self, lhs: u32, rhs: u32) -> (u32, bool);
    fn shr_with_carry(&self, lhs: u32, rhs: u32) -> (u32, bool);
    fn asr_with_carry(&self, lhs: u32, rhs: u32) -> (u32, bool);
    fn ror_with_carry(&self, lhs: u32, rhs: u32) -> (u32, bool);
    fn rrx_with_carry(&self, lhs: u32) -> (u32, bool);
}

impl CpuShifter for CPU {
    fn shl_with_carry(&self, lhs: u32, rhs: u32) -> (r: (u32, bool))
        ensures
            r == shl_spec(c_flag(self.cpsr), lhs, rhs),
    {
        match rhs {
            0 => (lhs, self.c_status()),
            1..=31 => (lhs << rhs, (lhs >> (32 - rhs)) & 1 == 1),
            32 => {
                proof { super::lemma_word_fields(lhs, 0); }
                (0, lhs & 1 == 1)
            },
            _ => (0, false),
        }
    }

    fn shr_with_carry(&self, lhs: u32, rhs: u32) -> (r: (u32, bool))
        ensures
            r == shr_spec(c_flag(self.cpsr), lhs, rhs),
    {
        match rhs {
            0 => (lhs, self.c_status()),
            1..=31 => (lhs >> rhs, (lhs >> (rhs - 1)) & 1 == 1),
            32 => (0, (lhs >> 31) & 1 == 1),
            _ => (0, false),
        }
    }

    fn asr_with_carry(&self, lhs: u32, rhs: u32) -> (r: (u32, bool))
        ensures
            r == asr_spec(c_flag(self.cpsr), lhs, rhs),
    {
        let signed = lhs as i32;
        if rhs == 0 {
            (lhs, self.c_status())
        } else if rhs > 31 {
            ((signed >> 31) as u32, (lhs >> 31) & 1 == 1)
        } else {
            ((signed >> rhs) as u32, (lhs >> (rhs - 1)) & 1 == 1)
        }
    }

    fn ror_with_carry(&self, lhs: u32, rhs: u32) -> (r: (u32, bool))
        ensures
            r == ror_spec(c_flag(self.cpsr), lhs, rhs),
    {
        if rhs == 0 {
            (lhs, self.c_status())
        } else {
            let rhs = rhs % 32;
            if rhs == 0 {
                (lhs, (lhs >> 31) & 1 == 1)
            } else {
                (rotate_right(lhs, rhs), (lhs >> (rhs - 1)) & 1 == 1)
            }
        }
    }

    fn rrx_with_carry(&self, lhs: u32) -> (r: (u32, bool))
        ensures
            r == rrx_spec(c_flag(self.cpsr), lhs),
    {
        let c_in = if self.c_status() { 0x80000000 } else { 0 };
        ((lhs >> 31) | c_in, (lhs & 1) == 0b1)
    }
}

/// Bit `n` of a word is the parity of the word divided by 2^n.
pub proof fn lemma_bit_is_parity(x: u32, n: u32)
    requires
        n < 32,
    ensures
        bit_of(x, n) == ((x as nat / pow2(n as nat)) % 2 == 1),
{
    vstd::bits::lemma_u32_shr_is_div(x, n);
    assert(((x >> n) & 1 == 1) == ((x >> n) % 2 == 1)) by (bit_vector);
}

/// A logical shift right by 1 to 31 places divides by 2^n, filling the top with zeros, and
/// carries out the last bit shifted off, bit n - 1; by 32 it gives 0 and carries out bit
/// 31; by more it gives 0 with no carry; by 0 it keeps the value and the carry.
pub proof fn law_logical_shift_right(carry: bool, lhs: u32, rhs: u32)
    ensures
        rhs == 0 ==> shr_spec(carry, lhs, rhs) == (lhs, carry),
        1 <= rhs <= 31 ==> shr_spec(carry, lhs, rhs).0 as nat == lhs as nat / pow2(rhs as nat)
            && shr_spec(carry, lhs, rhs).1 == ((lhs as nat / pow2((rhs - 1) as nat)) % 2 == 1),
        rhs == 32 ==> shr_spec(carry, lhs, rhs) == (0u32, lhs >= 0x8000_0000),
        rhs > 32 ==> shr_spec(carry, lhs, rhs) == (0u32, false),
{
    if 1 <= rhs <= 31 {
        vstd::bits::lemma_u32_shr_is_div(lhs, rhs);
        lemma_bit_is_parity(lhs, (rhs - 1) as u32);
    }
    assert(((lhs >> 31u32) & 1 == 1) == (lhs >= 0x8000_0000)) by (bit_vector);
}

/// A logical shift left by 1 to 31 places multiplies by 2^n modulo 2^32 and carries out the
/// last bit shifted off, bit 32 - n; by 32 it gives 0 and carries out bit 0; by more it
/// gives 0 with no carry; by 0 it keeps the value and the carry.
pub proof fn law_logical_shift_left(carry: bool, lhs: u32, rhs: u32)
    ensures
        rhs == 0 ==> shl_spec(carry, lhs, rhs) == (lhs, carry),
        1 <= rhs <= 31 ==> shl_spec(carry, lhs, rhs).0 as int == (lhs * pow2(rhs as nat))
            % 0x1_0000_0000 && shl_spec(carry, lhs, rhs).1 == ((lhs as nat / pow2(
            (32 - rhs) as nat)) % 2 == 1),
        rhs == 32 ==> shl_spec(carry, lhs, rhs) == (0u32, lhs % 2 == 1),
        rhs > 32 ==> shl_spec(carry, lhs, rhs) == (0u32, false),
{
    if 1 <= rhs <= 31 {
        let wide = (lhs as u64) << (rhs as u64);
        assert((lhs << rhs) as u64 == wide & 0xffffffff) by (bit_vector)
            requires
                rhs < 32,
                wide == (lhs as u64) << (rhs as u64),
        ;
        lemma2_to64();
        if rhs < 31 {
            lemma_pow2_strictly_increases(rhs as nat, 31);
        }
        vstd::arithmetic::mul::lemma_mul_upper_bound(
            lhs as int,
            0xffff_ffff,
            pow2(rhs as nat) as int,
            0x8000_0000,
        );
        vstd::bits::lemma_u64_shl_is_mul(lhs as u64, rhs as u64);
        crate::utils::word_arith::lemma_low_word_mod(wide);
        lemma_bit_is_parity(lhs, (32 - rhs) as u32);
    }
    assert(((lhs >> 0u32) & 1 == 1) == (lhs % 2 == 1)) by (bit_vector);
}

/// An arithmetic shift right by 1 to 31 places divides by 2^n rounding down as a signed
/// value: a non-negative word (bit 31 clear) as the logical shift does, a negative one
/// filling the top with ones, so that its complement is shifted logically. The carry is
/// bit n - 1. By 32 or more every bit becomes the sign bit, which is also carried out.
pub proof fn law_arithmetic_shift_right(carry: bool, lhs: u32, rhs: u32)
    ensures
        rhs == 0 ==> asr_spec(carry, lhs, rhs) == (lhs, carry),
        1 <= rhs <= 31 ==> asr_spec(carry, lhs, rhs).0 as int == (if lhs < 0x8000_0000 {
            (lhs as nat / pow2(rhs as nat)) as int
        } else {
            0xffff_ffff - (0xffff_ffff - lhs) as nat / pow2(rhs as nat)
        }) && asr_spec(carry, lhs, rhs).1 == ((lhs as nat / pow2((rhs - 1) as nat)) % 2 == 1),
        rhs >= 32 ==> asr_spec(carry, lhs, rhs) == (if lhs < 0x8000_0000 {
            0u32
        } else {
            0xffff_ffffu32
        }, lhs >= 0x8000_0000),
{
    if 1 <= rhs <= 31 {
        let nl = !lhs;
        assert(((lhs as i32) >> rhs) as u32 == if lhs < 0x8000_0000 {
            lhs >> rhs
        } else {
            !(nl >> rhs)
        }) by (bit_vector)
            requires
                rhs < 32,
                nl == !lhs,
        ;
        vstd::bits::lemma_u32_shr_is_div(lhs, rhs);
        vstd::bits::lemma_u32_shr_is_div(nl, rhs);
        super::lemma_word_fields(lhs, 0);
        super::lemma_word_fields(nl >> rhs, 0);
        lemma_bit_is_parity(lhs, (rhs - 1) as u32);
    }
    assert(((lhs as i32) >> 31u32) as u32 == if lhs < 0x8000_0000 {
        0u32
    } else {
        0xffff_ffffu32
    } && ((lhs >> 31u32) & 1 == 1) == (lhs >= 0x8000_0000)) by (bit_vector);
}

/// A rotation right by `k = rhs % 32` places (not a multiple of 32) moves the low `k` bits
/// to the top: the value is `lhs / 2^k + (lhs % 2^k) * 2^(32 - k)`, and the carry is bit
/// `k - 1`. A nonzero multiple of 32 keeps the value and carries out bit 31; a rotation by 0
/// keeps the value and the carry.
pub proof fn law_rotate_right(carry: bool, lhs: u32, rhs: u32)
    ensures
        rhs == 0 ==> ror_spec(carry, lhs, rhs) == (lhs, carry),
        rhs != 0 && rhs % 32 == 0 ==> ror_spec(carry, lhs, rhs) == (lhs, lhs >= 0x8000_0000),
        rhs % 32 != 0 ==> ror_spec(carry, lhs, rhs).0 as int == lhs as nat / pow2((rhs % 32) as nat)
            + (lhs as nat % pow2((rhs % 32) as nat)) * pow2((32 - rhs % 32) as nat)
            && ror_spec(carry, lhs, rhs).1 == ((lhs as nat / pow2((rhs % 32 - 1) as nat)) % 2 == 1),
{
    assert(((lhs >> 31u32) & 1 == 1) == (lhs >= 0x8000_0000)) by (bit_vector);
    if rhs % 32 != 0 {
        let k = rhs % 32;
        let mask = ((1u32 << k) - 1) as u32;
        let lo = lhs & mask;
        let hi_part = lo << ((32 - k) as u32);
        assert(rotr_spec(lhs, k) == (lhs >> k) + hi_part && lo < (1u32 << k)) by (bit_vector)
            requires
                1 <= k < 32,
                mask == ((1u32 << k) - 1) as u32,
                lo == lhs & mask,
                hi_part == lo << ((32 - k) as u32),
        ;
        vstd::bits::lemma_u32_shr_is_div(lhs, k);
        vstd::bits::lemma_u32_pow2_no_overflow(k as nat);
        vstd::bits::lemma_u32_shl_is_mul(1, k);
        assert(vstd::bits::low_bits_mask(k as nat) == pow2(k as nat) - 1);
        vstd::bits::lemma_u32_low_bits_mask_is_mod(lhs, k as nat);
        let p = pow2(k as nat);
        let q = pow2((32 - k) as nat);
        lemma2_to64();
        vstd::arithmetic::power2::lemma_pow2_adds(k as nat, (32 - k) as nat);
        lemma_pow2_pos((32 - k) as nat);
        assert(lo * q <= 0x1_0000_0000 - q) by (nonlinear_arith)
            requires
                lo <= p - 1,
                q > 0,
                p * q == 0x1_0000_0000,
        ;
        vstd::bits::lemma_u32_shl_is_mul(lo, (32 - k) as u32);
        lemma_bit_is_parity(lhs, (k - 1) as u32);
    }
}

/// Rotate right extended as this emulator computes it: bit 31 of `lhs` lands in bit 0, the
/// carry flag in bit 31, and bit 0 of `lhs` is carried out.
pub proof fn law_rotate_right_extended(carry: bool, lhs: u32)
    ensures
        rrx_spec(carry, lhs).0 as int == (if lhs >= 0x8000_0000 { 1int } else { 0 }) + (if carry {
            0x8000_0000int
        } else {
            0
        }),
        rrx_spec(carry, lhs).1 == (lhs % 2 == 1),
{
    assert(((lhs >> 31u32) | 0x80000000u32) as int == (if lhs >= 0x8000_0000 { 1int } else { 0 })
        + 0x8000_0000 && ((lhs >> 31u32) | 0u32) as int == (if lhs >= 0x8000_0000 { 1int } else {
        0
    }) && (lhs & 1 == 1) == (lhs % 2 == 1)) by (bit_vector);
}

/// Rotating by a nonzero multiple of 32 gives the value back and carries out its bit 31.
pub proof fn lemma_ror_full_turn(carry: bool, lhs: u32, k: u32)
    requires
        k > 0,
        k % 32 == 0,
    ensures
        ror_spec(carry, lhs, k) == (lhs, bit_of(lhs, 31)),
{
}

/// Shifting by nothing changes nothing and keeps the carry, whatever the kind of shift.
pub proof fn lemma_shift_by_zero(carry: bool, lhs: u32)
    ensures
        shl_spec(carry, lhs, 0) == (lhs, carry),
        shr_spec(carry, lhs, 0) == (lhs, carry),
        asr_spec(carry, lhs, 0) == (lhs, carry),
        ror_spec(carry, lhs, 0) == (lhs, carry),
{
}

} // verus!
