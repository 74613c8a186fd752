pub mod io_registers;
pub mod math;
pub mod shifter;
pub mod text;
pub mod word_arith;

use vstd::prelude::*;

verus! {

/// Bounds and identities of bit fields of a 32-bit word.
pub proof fn lemma_word_fields(v: u32, n: u32)
    by (bit_vector)
    ensures
        v & 0xf <= 0xf,
        v & 0xff <= 0xff,
        v & 0xffff <= 0xffff,
        v >> 0u32 == v,
        (v >> n) & 0xf < 16,
        (v >> n) & 0x7 < 8,
        (v >> n) & 0xff <= 0xff,
        (v >> n) & 0xffff <= 0xffff,
        (v >> n) & 0b11 <= 3,
        ((v >> 8u32) & 0xf) * 2 <= 30,
        v <= 0xff ==> v << 2u32 <= 0x3fc,
        v <= 0x1f ==> v << 2u32 <= 0x7c,
        v <= 0xff ==> v << 1u32 == 2 * v,
        (v & (1u32 << 7u32) == (1u32 << 7u32)) == (v & 0x80 == 0x80),
        (v & 0x8000_0000 == 0x8000_0000) == (v >= 0x8000_0000),
        (v & (1u32 << 31u32) == (1u32 << 31u32)) == (v >= 0x8000_0000),
        !v == 0xffff_ffffu32 - v,
        v <= 0x1f ==> v & 0x1f == v,
{
}

/// Bounds of bit fields of a 64-bit word.
pub proof fn lemma_dword_fields(v: u64)
    by (bit_vector)
    ensures
        v & 0xf <= 0xf,
        v & 0xff <= 0xff,
        v & 0xffff <= 0xffff,
        0xffffffffu64 & v == v & 0xffffffffu64,
{
}

/// Bit `x` of a 32-bit word.
pub open spec fn bit_of(num: u32, x: u32) -> bool {
    (num >> x) & 1 == 1
}

/// Returns true if the bit at `x` is 1; `x` must name one of the 32 bits.
pub fn bit_is_one_at(num: u32, x: u32) -> (r: bool)
    requires
        x <= 31,
    ensures
        r == bit_of(num, x),
{
    (num >> x) & 1 == 1
}

/// Bit fields of a machine word.
pub trait Bitable {
    /// The width of the word in bits.
    spec fn width() -> u32;

    spec fn bit_spec(&self, x: u32) -> bool;

    spec fn field_spec(&self, x: u32, mask: u32) -> u32;

    /// Whether bit `x` is set.
    fn bit_is_high(&self, x: u32) -> (r: bool)
        requires
            x < Self::width(),
        ensures
            r == self.bit_spec(x),
    ;

    /// The four bits starting at bit `x`.
    fn half_byte_at(&self, x: u32) -> (r: u32)
        requires
            x < Self::width(),
        ensures
            r == self.field_spec(x, 0xf),
            r <= 0xf,
    ;

    /// The eight bits starting at bit `x`.
    fn byte_at(&self, x: u32) -> (r: u32)
        requires
            x < Self::width(),
        ensures
            r == self.field_spec(x, 0xff),
            r <= 0xff,
    ;

    /// The sixteen bits starting at bit `x`.
    fn halfword_at(&self, x: u32) -> (r: u32)
        requires
            x < Self::width(),
        ensures
            r == self.field_spec(x, 0xffff),
            r <= 0xffff,
    ;
}

/// A 32-bit palette entry holds two 15-bit colours; this splits it into two 8-bit RGB triples.
pub trait BittableColor {
    fn to_8bit_color(&self) -> ((u8, u8, u8), (u8, u8, u8));
}

impl Bitable for i32 {
    open spec fn width() -> u32 {
        32
    }

    open spec fn bit_spec(&self, x: u32) -> bool {
        (*self >> x) & 1 == 1
    }

    open spec fn field_spec(&self, x: u32, mask: u32) -> u32 {
        (((*self >> x) as u32) & mask)
    }

    fn bit_is_high(&self, x: u32) -> (r: bool) {
        (*self >> x) & 1 == 1
    }

    fn half_byte_at(&self, x: u32) -> (r: u32) {
        let v = (*self >> x) as u32;
        proof { lemma_word_fields(v, 0); }
        v & 0xf
    }

    fn byte_at(&self, x: u32) -> (r: u32) {
        let v = (*self >> x) as u32;
        proof { lemma_word_fields(v, 0); }
        v & 0xff
    }

    fn halfword_at(&self, x: u32) -> (r: u32) {
        let v = (*self >> x) as u32;
        proof { lemma_word_fields(v, 0); }
        v & 0xffff
    }
}

impl Bitable for u64 {
    open spec fn width() -> u32 {
        64
    }

    open spec fn bit_spec(&self, x: u32) -> bool {
        (*self >> x) & 1 == 1
    }

    open spec fn field_spec(&self, x: u32, mask: u32) -> u32 {
        ((*self >> x) & (mask as u64)) as u32
    }

    fn bit_is_high(&self, x: u32) -> (r: bool) {
        (*self >> x) & 1 == 1
    }

    fn half_byte_at(&self, x: u32) -> (r: u32) {
        let v = *self >> x;
        proof { lemma_dword_fields(v); }
        (v & 0xf) as u32
    }

    fn byte_at(&self, x: u32) -> (r: u32) {
        let v = *self >> x;
        proof { lemma_dword_fields(v); }
        (v & 0xff) as u32
    }

    fn halfword_at(&self, x: u32) -> (r: u32) {
        let v = *self >> x;
        proof { lemma_dword_fields(v); }
        (v & 0xffff) as u32
    }
}

impl Bitable for u32 {
    open spec fn width() -> u32 {
        32
    }

    open spec fn bit_spec(&self, x: u32) -> bool {
        bit_of(*self, x)
    }

    open spec fn field_spec(&self, x: u32, mask: u32) -> u32 {
        (*self >> x) & mask
    }

    fn bit_is_high(&self, x: u32) -> (r: bool) {
        (*self >> x) & 1 == 1
    }

    fn half_byte_at(&self, x: u32) -> (r: u32) {
        let v = guard_shift(*self, x);
        proof { lemma_word_fields(v, 0); }
        v & 0xf
    }

    fn byte_at(&self, x: u32) -> (r: u32) {
        let v = guard_shift(*self, x);
        proof { lemma_word_fields(v, 0); }
        v & 0xff
    }

    fn halfword_at(&self, x: u32) -> (r: u32) {
        let v = guard_shift(*self, x);
        proof { lemma_word_fields(v, 0); }
        v & 0xffff
    }
}

/// `val >> x` for a shift that fits a 32-bit word.
pub fn guard_shift(val: u32, x: u32) -> (r: u32)
    requires
        x <= 31,
    ensures
        r == val >> x,
{
    val >> x
}

/// One colour channel: a byte of the entry times four, cut to 8 bits.
pub open spec fn channel_spec(value: u32, x: u32) -> u8 {
    (((value >> x) & 0xff) * 4) as u8
}

impl BittableColor for u32 {
    fn to_8bit_color(&self) -> (r: ((u8, u8, u8), (u8, u8, u8)))
        ensures
            r == ((channel_spec(*self, 0), channel_spec(*self, 5), channel_spec(*self, 10)),
                  (channel_spec(*self, 16), channel_spec(*self, 21), channel_spec(*self, 26))),
    {
        (
            (
                (self.byte_at(0) * 4) as u8,
                (self.byte_at(5) * 4) as u8,
                (self.byte_at(10) * 4) as u8,
            ),
            (
                (self.byte_at(16) * 4) as u8,
                (self.byte_at(21) * 4) as u8,
                (self.byte_at(26) * 4) as u8,
            ),
        )
    }
}

} // verus!
