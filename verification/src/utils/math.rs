use vstd::prelude::*;

verus! {

/// The most significant bit of a 32-bit word, i.e. its sign as a two's-complement number.
pub open spec fn sign_bit(x: u32) -> bool {
    x >= 0x8000_0000
}

/// An integer truncated to its low 32 bits.
pub open spec fn wrap32(x: int) -> u32 {
    x as u32
}

/// Signed overflow of an addition `a + b = res`: both operands share a sign that the
/// result does not have.
pub open spec fn add_overflows(a: u32, b: u32, res: u32) -> bool {
    sign_bit(a) == sign_bit(b) && sign_bit(res) != sign_bit(a)
}

/// Signed overflow of a subtraction `a - b = res`: the operands differ in sign and the
/// result's sign differs from the minuend's.
pub open spec fn sub_overflows(a: u32, b: u32, res: u32) -> bool {
    sign_bit(a) != sign_bit(b) && sign_bit(res) != sign_bit(a)
}

/// Additions and subtractions on 32-bit words that report the result together with the
/// ARM carry flag and the ARM overflow flag, as `(result, carry, overflow)`.
pub trait ArmCalculations {
    fn arm_add(self, rhs: u32) -> (u32, bool, bool);
    fn arm_sub(self, rhs: u32) -> (u32, bool, bool);
    fn arm_sub_carry(self, rhs: u32, carry_in: bool) -> (u32, bool, bool);
    fn arm_add_carry(self, rhs: u32, carry_in: bool) -> (u32, bool, bool);
}

/// The carry-out and overflow formulas of a 32-bit adder with carry in `c`.
pub proof fn lemma_adder(a: u32, b: u32, c: u32, res: u32)
    by (bit_vector)
    requires
        c <= 1,
        res == a.wrapping_add(b).wrapping_add(c),
    ensures
        res == ((a + b + c) as u32),
        (((a & b) | ((a ^ b) & !res)) >= 0x80000000) == (a + b + c > 0xffff_ffff),
        ((((a ^ res) & (b ^ res)) & 0x80000000) != 0) == ((a >= 0x8000_0000) == (b >= 0x8000_0000)
            && (res >= 0x8000_0000) != (a >= 0x8000_0000)),
        (((a ^ b) & (a ^ res)) >= 0x80000000) == ((a >= 0x8000_0000) != (b >= 0x8000_0000) && (res
            >= 0x8000_0000) != (a >= 0x8000_0000)),
{
}

/// Subtraction as the addition of the complement: `a + !b + c`.
pub proof fn lemma_subtractor(a: u32, b: u32, c: u32, not_b: u32, inter: u32, res: u32)
    by (bit_vector)
    requires
        c <= 1,
        not_b == !b,
        inter == a.wrapping_add(not_b),
        res == ((inter + c) as u32),
    ensures
        not_b == 0xffff_ffffu32 - b,
        (inter < a) == (a + not_b > 0xffff_ffff),
        res == ((a - b - 1 + c) as u32),
        (((a ^ b) & (a ^ res)) >= 0x80000000) == ((a >= 0x8000_0000) != (b >= 0x8000_0000) && (res
            >= 0x8000_0000) != (a >= 0x8000_0000)),
{
}

impl ArmCalculations for u32 {
    fn arm_add(self, rhs: u32) -> (r: (u32, bool, bool))
        ensures
            r.0 == wrap32(self + rhs),
            r.1 == (self + rhs > u32::MAX),
            r.2 == add_overflows(self, rhs, r.0),
    {
        let res = self.wrapping_add(rhs);
        let carry = ((self & rhs) | ((self ^ rhs) & !res)) >= 0x80000000;
        let overflow = ((self ^ res) & (rhs ^ res)) & 0x80000000 != 0;
        proof {
            assert(res == self.wrapping_add(rhs).wrapping_add(0));
            lemma_adder(self, rhs, 0, res);
        }
        (res, carry, overflow)
    }

    fn arm_sub(self, rhs: u32) -> (r: (u32, bool, bool))
        ensures
            r.0 == wrap32(self - rhs),
            r.1 == (self >= rhs),
            r.2 == sub_overflows(self, rhs, r.0),
    {
        let not_rhs = !rhs;
        let intermediate = self.wrapping_add(not_rhs);
        let i_carry = intermediate < self;
        let (res, carry, _) = intermediate.arm_add(1);
        let v = ((self ^ rhs) & (self ^ res)) >= 0x80000000;
        proof {
            lemma_subtractor(self, rhs, 1, not_rhs, intermediate, res);
        }
        (res, carry || i_carry, v)
    }

    fn arm_add_carry(self, rhs: u32, carry_in: bool) -> (r: (u32, bool, bool))
        ensures
            r.0 == wrap32(self + rhs + (if carry_in { 1int } else { 0int })),
            r.1 == (self + rhs + (if carry_in { 1int } else { 0int }) > u32::MAX),
            r.2 == add_overflows(self, rhs, r.0),
    {
        let carry_in: u32 = if carry_in { 1 } else { 0 };
        let sum = self.wrapping_add(rhs);
        let res = sum.wrapping_add(carry_in);
        let carry = ((self & rhs) | ((self ^ rhs) & !res)) >= 0x80000000;
        let overflow = ((self ^ res) & (rhs ^ res)) & 0x80000000 != 0;
        proof {
            lemma_adder(self, rhs, carry_in, res);
        }
        (res, carry, overflow)
    }

    fn arm_sub_carry(self, rhs: u32, carry_in: bool) -> (r: (u32, bool, bool))
        ensures
            r.0 == wrap32(self - rhs - 1 + (if carry_in { 1int } else { 0int })),
            r.1 == (self + (if carry_in { 1int } else { 0int }) > rhs),
            r.2 == sub_overflows(self, rhs, r.0),
    {
        let not_rhs = !rhs;
        let intermediate = self.wrapping_add(not_rhs);
        let i_carry = intermediate < self;
        let carry: u32 = if carry_in { 1 } else { 0 };
        let (res, carry, _) = intermediate.arm_add(carry);
        let v = ((self ^ rhs) & (self ^ res)) >= 0x80000000;
        proof {
            lemma_subtractor(self, rhs, if carry_in { 1 } else { 0 }, not_rhs, intermediate, res);
        }
        (res, carry || i_carry, v)
    }
}

} // verus!
