use crate::utils::text::{hex_digits, padded_hex_usize, zero_padded};
use vstd::prelude::*;

verus! {

/// Why a memory access failed.
#[derive(Debug, PartialEq, Eq, Structural, Clone, Copy)]
pub enum MemoryError {
    /// The address and the word index that lies past the end of its region.
    OutOfBounds(usize, usize),
    /// An address in no region of the memory map.
    MapNotFound(usize),
}

/// An address as the error messages write it.
pub open spec fn address_text(a: usize) -> Seq<char> {
    "0x"@ + zero_padded(hex_digits(a as nat), 8)
}

impl MemoryError {
    /// The message shown for the error.
    pub open spec fn message_text(self) -> Seq<char> {
        match self {
            MemoryError::OutOfBounds(a, b) => "Memory Address is out of bounds: "@ + address_text(a)
                + " index: "@ + address_text(b),
            MemoryError::MapNotFound(a) => "Memory Mapping not found for address: "@
                + address_text(a),
        }
    }

    pub fn message(&self) -> (r: String)
        ensures
            r@ == self.message_text(),
    {
        match self {
            MemoryError::OutOfBounds(a, b) => {
                let mut m = String::from_str("Memory Address is out of bounds: ");
                let sa = padded_hex_usize(*a);
                m.append(sa.as_str());
                m.append(" index: ");
                let sb = padded_hex_usize(*b);
                m.append(sb.as_str());
                m
            },
            MemoryError::MapNotFound(a) => {
                let mut m = String::from_str("Memory Mapping not found for address: ");
                let sa = padded_hex_usize(*a);
                m.append(sa.as_str());
                m
            },
        }
    }
}

/// A word-addressed memory that instructions read and write.
pub trait Memory {
    fn read_word(&self, address: usize) -> Result<u32, MemoryError>;
    fn read_halfword(&self, address: usize) -> Result<u32, MemoryError>;
    fn read_halfword_sign_ex(&self, address: usize) -> Result<u32, MemoryError>;
    fn read_byte(&self, address: usize) -> Result<u32, MemoryError>;
    fn read_byte_sign_ex(&self, address: usize) -> Result<u32, MemoryError>;
    fn write_word(&mut self, address: usize, block: u32) -> Result<(), MemoryError>;
    fn write_halfword(&mut self, address: usize, block: u32) -> Result<(), MemoryError>;
    fn write_byte(&mut self, address: usize, block: u32) -> Result<(), MemoryError>;
}

/// `x` with bits 8..31 copied from bit 7.
pub open spec fn sign_extend8(x: u32) -> u32 {
    if x & 0x80 == 0x80 {
        x | 0xffffff00
    } else {
        x & 0xff
    }
}

/// `x` with bits 16..31 copied from bit 15.
pub open spec fn sign_extend16(x: u32) -> u32 {
    if x & 0x8000 == 0x8000 {
        x | 0xffff0000
    } else {
        x & 0xffff
    }
}

/// Sign extension by masks agrees with sign extension by arithmetic shifts.
pub proof fn lemma_sign_extend(x: u32)
    by (bit_vector)
    ensures
        x <= 0xff ==> sign_extend8(x) == (((x as i32) << 24u32) >> 24u32) as u32,
        x <= 0xffff ==> sign_extend16(x) == (((x as i32) << 16u32) >> 16u32) as u32,
{
}

/// Sign-extends the low byte of `x`, which holds a byte.
pub fn sign_extend_byte(x: u32) -> (r: u32)
    requires
        x <= 0xff,
    ensures
        r == sign_extend8(x),
        r == (((x as i32) << 24u32) >> 24u32) as u32,
{
    proof {
        lemma_sign_extend(x);
    }
    if x & 0x80 == 0x80 {
        x | 0xffffff00
    } else {
        x & 0xff
    }
}

/// Sign-extends the low halfword of `x`, which holds a halfword.
pub fn sign_extend_halfword(x: u32) -> (r: u32)
    requires
        x <= 0xffff,
    ensures
        r == sign_extend16(x),
        r == (((x as i32) << 16u32) >> 16u32) as u32,
{
    proof {
        lemma_sign_extend(x);
    }
    if x & 0x8000 == 0x8000 {
        x | 0xffff0000
    } else {
        x & 0xffff
    }
}

} // verus!
