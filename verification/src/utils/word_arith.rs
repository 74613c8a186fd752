use vstd::prelude::*;

verus! {

/// The low word of a 64-bit bitwise result on two zero-extended words is the same
/// operation on the words; a carry parked in bit 32 does not reach the low word.
pub proof fn lemma_low_word_logic(a: u32, b: u32, k: u64)
    by (bit_vector)
    requires
        k <= 1,
    ensures
        (((a as u64) & (b as u64)) & 0xffffffff) as u32 == a & b,
        ((((a as u64) ^ (b as u64)) & 0xffffffff) & 0xffffffff) as u32 == a ^ b,
        (((a as u64) | (b as u64)) & 0xffffffff) as u32 == a | b,
        (((a as u64) & !(b as u64)) & 0xffffffff) as u32 == a & !b,
        ((!(b as u64)) & 0xffffffff) as u32 == !b,
        ((b as u64) & 0xffffffff) as u32 == b,
        ((((a as u64) & (b as u64)) | (k << 32u64)) & 0xffffffff) as u32 == a & b,
        ((((a as u64) ^ (b as u64)) | (k << 32u64)) & 0xffffffff) as u32 == a ^ b,
        ((((a as u64) | (b as u64)) | (k << 32u64)) & 0xffffffff) as u32 == a | b,
        (((a as u64) | 0x1_0000_0000u64) & 0xffffffff) as u32 == a,
{
}

/// The low word of `a + b + k`, and of `a + !b + k` (subtraction by the complement), as
/// integers: the sum or difference brought back into the range of a word.
pub proof fn lemma_low_word_sum(a: u32, b: u32, k: u64)
    by (bit_vector)
    requires
        k <= 1,
    ensures
        ((((a as u64) + (b as u64) + k) as u64 & 0xffffffff) as u32) as int == if a + b + k
            < 0x1_0000_0000 {
            a + b + k
        } else {
            a + b + k - 0x1_0000_0000
        },
        ((((a as u64) + ((!b) as u64) + k) as u64 & 0xffffffff) as u32) as int == if a + k >= b
            + 1 {
            a + k - b - 1
        } else {
            a + k - b - 1 + 0x1_0000_0000
        },
        (((((!b) as u64) + 1) as u64 & 0xffffffff) as u32) as int == if b == 0 {
            0
        } else {
            0x1_0000_0000 - b
        },
{
}

/// The carry out of `a + b + k` and of `a + !b + k`, bit 32 of the 64-bit sum: the sum
/// reaches 2^32, and the difference `a - b - 1 + k` borrows nothing.
pub proof fn lemma_carry_out(a: u32, b: u32, k: u64)
    by (bit_vector)
    requires
        k <= 1,
    ensures
        (((((a as u64) + (b as u64) + k) as u64) >> 32u64) & 1 == 1) == (a + b + k >= 0x1_0000_0000),
        (((((a as u64) + ((!b) as u64) + k) as u64) >> 32u64) & 1 == 1) == (a + k >= b + 1),
{
}

/// Bit 32 of the 64-bit results that carry no arithmetic carry: a carry parked there by a
/// logical operation, none for a zero-extended word or an AND with a complement, always for
/// a 64-bit complement, and the carry of a negation (`!b + 1`) exactly when `b` is zero.
pub proof fn lemma_bit32_of(a: u32, b: u32, k: u64)
    by (bit_vector)
    requires
        k <= 1,
    ensures
        ((((a as u64) & (b as u64)) | (k << 32u64)) >> 32u64) & 1 == k,
        ((((a as u64) ^ (b as u64)) | (k << 32u64)) >> 32u64) & 1 == k,
        ((((a as u64) | (b as u64)) | (k << 32u64)) >> 32u64) & 1 == k,
        (((a as u64) | 0x1_0000_0000u64) >> 32u64) & 1 == 1,
        ((a as u64) >> 32u64) & 1 == 0,
        (((a as u64) & !(b as u64)) >> 32u64) & 1 == 0,
        ((!(b as u64)) >> 32u64) & 1 == 1,
        (((((!b) as u64) + 1) as u64 >> 32u64) & 1 == 1) == (b == 0),
{
}

/// The 64-bit product of two words is exact, and its bit 32 is the parity of the product
/// divided by 2^32.
pub proof fn lemma_product_bit32(a: u32, b: u32)
    ensures
        (((a as u64).wrapping_mul(b as u64) >> 32u64) & 1 == 1) == (((a * b) / 0x1_0000_0000) % 2
            == 1),
{
    let p = (a as u64).wrapping_mul(b as u64);
    vstd::arithmetic::mul::lemma_mul_upper_bound(a as int, 0xffff_ffff, b as int, 0xffff_ffff);
    vstd::arithmetic::mul::lemma_mul_nonnegative(a as int, b as int);
    assert(p == a * b);
    assert(((p >> 32u64) & 1 == 1) == ((p / 0x1_0000_0000) % 2 == 1)) by (bit_vector);
}

/// A word read as a two's-complement signed number.
pub open spec fn signed_value(x: u32) -> int {
    if x >= 0x8000_0000 {
        x - 0x1_0000_0000
    } else {
        x as int
    }
}

/// The sign-bit overflow tests on 64-bit sums: adding two words (and a carry) overflows
/// exactly when the signed sum leaves the signed range, and so does the subtraction
/// `a - b - 1 + k` computed by adding the complement.
pub proof fn lemma_signed_overflow(a: u32, b: u32, k: u64)
    by (bit_vector)
    requires
        k <= 1,
    ensures
        ({
            let r = ((a as u64) + (b as u64) + k) as u64;
            ((((a as u64) >> 31u64) & 1 == 1) == (((b as u64) >> 31u64) & 1 == 1) && (((a as u64)
                >> 31u64) & 1 == 1) != ((r >> 31u64) & 1 == 1)) == !(-0x8000_0000 <= (if a >= 0x8000_0000 {
                a - 0x1_0000_0000
            } else {
                a as int
            }) + (if b >= 0x8000_0000 {
                b - 0x1_0000_0000
            } else {
                b as int
            }) + k < 0x8000_0000)
        }),
        ({
            let r = ((a as u64) + ((!b) as u64) + k) as u64;
            ((((b as u64) >> 31u64) & 1 == 1) == ((r >> 31u64) & 1 == 1) && (((a as u64) >> 31u64)
                & 1 == 1) != ((r >> 31u64) & 1 == 1)) == !(-0x8000_0000 <= (if a >= 0x8000_0000 {
                a - 0x1_0000_0000
            } else {
                a as int
            }) - (if b >= 0x8000_0000 {
                b - 0x1_0000_0000
            } else {
                b as int
            }) - 1 + k < 0x8000_0000)
        }),
{
}

/// The byte lane an address selects within its word: the address modulo 4, and the byte
/// there is the word shifted down by eight bits a lane, modulo 256.
pub proof fn lemma_byte_lane(w: u32, a: usize)
    ensures
        (a & 0b11) as int == a % 4,
        (w >> (((a & 0b11) * 8) as u32)) & 0xff == (w >> (((a & 0b11) * 8) as u32)) % 0x100,
{
    let sh = ((a & 0b11) * 8) as u32;
    assert(a & 0b11 == a % 4 && (w >> sh) & 0xff == (w >> sh) % 0x100) by (bit_vector);
}

/// The low word of a 64-bit value is the value modulo 2^32.
pub proof fn lemma_low_word_mod(x: u64)
    by (bit_vector)
    ensures
        ((x & 0xffffffff) as u32) as int == (x % 0x1_0000_0000) as int,
{
}

/// The low word of the wrapped 64-bit product of two words is their product modulo 2^32.
pub proof fn lemma_low_word_product(a: u32, b: u32)
    ensures
        ((((a as u64).wrapping_mul(b as u64)) & 0xffffffff) as u32) as int == (a * b) % 0x1_0000_0000,
{
    let p = (a as u64).wrapping_mul(b as u64);
    lemma_low_word_mod(p);
    assert(p as int == (a * b) % 0x1_0000_0000_0000_0000);
    vstd::arithmetic::div_mod::lemma_mod_mod(a * b, 0x1_0000_0000, 0x1_0000_0000);
}

/// An integer within one word of the range of a word, taken modulo 2^32.
pub proof fn lemma_wrap(x: int)
    ensures
        0 <= x < 0x1_0000_0000 ==> x % 0x1_0000_0000 == x,
        -0x1_0000_0000 <= x < 0 ==> x % 0x1_0000_0000 == x + 0x1_0000_0000,
        0x1_0000_0000 <= x < 0x2_0000_0000 ==> x % 0x1_0000_0000 == x - 0x1_0000_0000,
{
}

} // verus!
