use super::arm::{field4, flag};
use crate::utils::text::{decimal_digits, decimal_string, hex_digits, hex_string};
use vstd::prelude::*;

verus! {

/// The condition field of an instruction, as a disassembler shows it.
#[derive(Debug, PartialEq, Eq, Structural, Clone, Copy)]
pub enum Conditional {
    EQ,
    NE,
    CS,
    CC,
    MI,
    PL,
    VS,
    VC,
    HI,
    LS,
    GE,
    LT,
    GT,
    LE,
    AL,
    NV,
}

impl Conditional {
    /// The condition of the top four bits of an instruction.
    pub open spec fn decoded(instruction: u32) -> Self {
        let c = instruction >> 28u32;
        if c == 0 {
            Conditional::EQ
        } else if c == 1 {
            Conditional::NE
        } else if c == 2 {
            Conditional::CS
        } else if c == 3 {
            Conditional::CC
        } else if c == 4 {
            Conditional::MI
        } else if c == 5 {
            Conditional::PL
        } else if c == 6 {
            Conditional::VS
        } else if c == 7 {
            Conditional::VC
        } else if c == 8 {
            Conditional::HI
        } else if c == 9 {
            Conditional::LS
        } else if c == 10 {
            Conditional::GE
        } else if c == 11 {
            Conditional::LT
        } else if c == 12 {
            Conditional::GT
        } else if c == 13 {
            Conditional::LE
        } else if c == 14 {
            Conditional::AL
        } else {
            Conditional::NV
        }
    }

    pub fn from(instruction: u32) -> (r: Self)
        ensures
            r == Self::decoded(instruction),
    {
        let conditional = instruction >> 28;
        match conditional {
            0 => Conditional::EQ,
            1 => Conditional::NE,
            2 => Conditional::CS,
            3 => Conditional::CC,
            4 => Conditional::MI,
            5 => Conditional::PL,
            6 => Conditional::VS,
            7 => Conditional::VC,
            8 => Conditional::HI,
            9 => Conditional::LS,
            10 => Conditional::GE,
            11 => Conditional::LT,
            12 => Conditional::GT,
            13 => Conditional::LE,
            14 => Conditional::AL,
            _ => Conditional::NV,
        }
    }

    /// The suffix a disassembler writes: the condition's name, nothing for `AL`.
    pub open spec fn text(self) -> Seq<char> {
        match self {
            Conditional::EQ => "EQ"@,
            Conditional::NE => "NE"@,
            Conditional::CS => "CS"@,
            Conditional::CC => "CC"@,
            Conditional::MI => "MI"@,
            Conditional::PL => "PL"@,
            Conditional::VS => "VS"@,
            Conditional::VC => "VC"@,
            Conditional::HI => "HI"@,
            Conditional::LS => "LS"@,
            Conditional::GE => "GE"@,
            Conditional::LT => "LT"@,
            Conditional::GT => "GT"@,
            Conditional::LE => "LE"@,
            Conditional::AL => ""@,
            Conditional::NV => "NV"@,
        }
    }

    pub fn as_str(&self) -> (r: &'static str)
        ensures
            r@ == self.text(),
    {
        match self {
            Conditional::EQ => "EQ",
            Conditional::NE => "NE",
            Conditional::CS => "CS",
            Conditional::CC => "CC",
            Conditional::MI => "MI",
            Conditional::PL => "PL",
            Conditional::VS => "VS",
            Conditional::VC => "VC",
            Conditional::HI => "HI",
            Conditional::LS => "LS",
            Conditional::GE => "GE",
            Conditional::LT => "LT",
            Conditional::GT => "GT",
            Conditional::LE => "LE",
            Conditional::AL => "",
            Conditional::NV => "NV",
        }
    }
}
// Instruction classes, by the fixed bits of their encodings.

pub open spec fn data_processing_class(inst: u32) -> bool {
    inst & 0x0e000000 == 0x02000000
}

/// Data processing with an immediate operand.
pub fn is_data_processing(inst: u32) -> (r: bool)
    ensures
        r == data_processing_class(inst),
{
    inst & 0x0e000000 == 0x02000000
}

pub open spec fn multiply_class(inst: u32) -> bool {
    inst & 0x0fc000f0 == 0x00000090
}

/// Multiply and multiply-accumulate.
pub fn is_multiply(inst: u32) -> (r: bool)
    ensures
        r == multiply_class(inst),
{
    inst & 0x0fc000f0 == 0x00000090
}

pub open spec fn multiply_long_class(inst: u32) -> bool {
    inst & 0x0fc000f0 == 0x00800090
}

/// Long multiply.
pub fn is_multiply_long(inst: u32) -> (r: bool)
    ensures
        r == multiply_long_class(inst),
{
    inst & 0x0fc000f0 == 0x00800090
}

pub open spec fn single_data_swap_class(inst: u32) -> bool {
    inst & 0x0fb00ff0 == 0x01000090
}

/// Single data swap.
pub fn is_single_data_swap(inst: u32) -> (r: bool)
    ensures
        r == single_data_swap_class(inst),
{
    inst & 0x0fb00ff0 == 0x01000090
}

pub open spec fn branch_and_exchange_class(inst: u32) -> bool {
    inst & 0x0ffffff0 == 0x012fff10
}

/// Branch and exchange.
pub fn is_branch_and_exchange(inst: u32) -> (r: bool)
    ensures
        r == branch_and_exchange_class(inst),
{
    inst & 0x0ffffff0 == 0x012fff10
}

pub open spec fn halfword_data_tfx_reg_class(inst: u32) -> bool {
    inst & 0x0e400f90 == 0x00000090
}

/// Halfword transfer with a register offset.
pub fn is_halfword_data_tfx_reg(inst: u32) -> (r: bool)
    ensures
        r == halfword_data_tfx_reg_class(inst),
{
    inst & 0x0e400f90 == 0x00000090
}

pub open spec fn halfword_data_tfx_imm_class(inst: u32) -> bool {
    inst & 0x0e400090 == 0x00400090
}

/// Halfword transfer with an immediate offset.
pub fn is_halfword_data_tfx_imm(inst: u32) -> (r: bool)
    ensures
        r == halfword_data_tfx_imm_class(inst),
{
    inst & 0x0e400090 == 0x00400090
}

pub open spec fn single_data_tfx_class(inst: u32) -> bool {
    inst & 0x0c000000 == 0x04000000
}

/// Single data transfer.
pub fn is_single_data_tfx(inst: u32) -> (r: bool)
    ensures
        r == single_data_tfx_class(inst),
{
    inst & 0x0c000000 == 0x04000000
}

pub open spec fn undefined_class(inst: u32) -> bool {
    inst & 0x0e000010 == 0x06000010
}

/// The undefined instruction space.
pub fn is_undefined(inst: u32) -> (r: bool)
    ensures
        r == undefined_class(inst),
{
    inst & 0x0e000010 == 0x06000010
}

pub open spec fn block_data_tfx_class(inst: u32) -> bool {
    inst & 0x0e000000 == 0x08000000
}

/// Block data transfer.
pub fn is_block_data_tfx(inst: u32) -> (r: bool)
    ensures
        r == block_data_tfx_class(inst),
{
    inst & 0x0e000000 == 0x08000000
}

pub open spec fn branch_class(inst: u32) -> bool {
    inst & 0x0e000000 == 0x0a000000
}

/// Branch and branch with link.
pub fn is_branch(inst: u32) -> (r: bool)
    ensures
        r == branch_class(inst),
{
    inst & 0x0e000000 == 0x0a000000
}

pub open spec fn coprocessor_data_tfx_class(inst: u32) -> bool {
    inst & 0x0e000000 == 0x0c000000
}

/// Coprocessor data transfer.
pub fn is_coprocessor_data_tfx(inst: u32) -> (r: bool)
    ensures
        r == coprocessor_data_tfx_class(inst),
{
    inst & 0x0e000000 == 0x0c000000
}

pub open spec fn coprocessor_data_op_class(inst: u32) -> bool {
    inst & 0x0f000010 == 0x0c000000
}

/// Coprocessor data operation.
pub fn is_coprocessor_data_op(inst: u32) -> (r: bool)
    ensures
        r == coprocessor_data_op_class(inst),
{
    inst & 0x0f000010 == 0x0c000000
}

pub open spec fn coprocessor_reg_tfx_class(inst: u32) -> bool {
    inst & 0x0f000010 == 0x0c000010
}

/// Coprocessor register transfer.
pub fn is_coprocessor_reg_tfx(inst: u32) -> (r: bool)
    ensures
        r == coprocessor_reg_tfx_class(inst),
{
    inst & 0x0f000010 == 0x0c000010
}

pub open spec fn software_interrupt_class(inst: u32) -> bool {
    inst & 0x0f000000 == 0x0f000000
}

/// Software interrupt.
pub fn is_software_interrupt(inst: u32) -> (r: bool)
    ensures
        r == software_interrupt_class(inst),
{
    inst & 0x0f000000 == 0x0f000000
}
/// A data processing instruction: its S bit, registers and 12-bit operand field.
#[derive(Debug, PartialEq, Eq, Structural, Clone, Copy)]
pub struct DataProcessingOp {
    pub s: bool,
    pub rn: u8,
    pub rd: u8,
    pub operand: u16,
}

impl DataProcessingOp {
    pub open spec fn decoded(inst: u32) -> Self {
        DataProcessingOp {
            s: flag(inst, 20),
            rn: field4(inst, 16),
            rd: field4(inst, 12),
            operand: (inst & 0xfff) as u16,
        }
    }

    pub fn from(inst: u32) -> (r: Self)
        ensures
            r == Self::decoded(inst),
    {
        proof {
            crate::utils::lemma_word_fields(inst, 0);
        }
        DataProcessingOp {
            s: (inst >> 20 & 1) == 1,
            rn: (inst >> 16 & 0xf) as u8,
            rd: (inst >> 12 & 0xf) as u8,
            operand: (inst & 0xfff) as u16,
        }
    }
}

/// A multiply, accumulating when `a` is set.
#[derive(Debug, PartialEq, Eq, Structural, Clone, Copy)]
pub struct MultiplyOp {
    pub a: bool,
    pub s: bool,
    pub rd: u8,
    pub rn: u8,
    pub rs: u8,
    pub rm: u8,
}

impl MultiplyOp {
    pub open spec fn decoded(inst: u32) -> Self {
        MultiplyOp {
            a: flag(inst, 21),
            s: flag(inst, 20),
            rd: field4(inst, 16),
            rn: field4(inst, 12),
            rs: field4(inst, 8),
            rm: field4(inst, 0),
        }
    }

    pub fn from(inst: u32) -> (r: Self)
        ensures
            r == Self::decoded(inst),
    {
        proof {
            crate::utils::lemma_word_fields(inst, 0);
        }
        MultiplyOp {
            a: (inst >> 21 & 1) == 1,
            s: (inst >> 20 & 1) == 1,
            rd: (inst >> 16 & 0xf) as u8,
            rn: (inst >> 12 & 0xf) as u8,
            rs: (inst >> 8 & 0xf) as u8,
            rm: (inst & 0xf) as u8,
        }
    }
}

/// A long multiply, signed when `u` is set, accumulating when `a` is set.
#[derive(Debug, PartialEq, Eq, Structural, Clone, Copy)]
pub struct MultiplyLongOp {
    pub u: bool,
    pub a: bool,
    pub s: bool,
    pub rd_hi: u8,
    pub rd_lo: u8,
    pub rs: u8,
    pub rm: u8,
}

impl MultiplyLongOp {
    pub open spec fn decoded(inst: u32) -> Self {
        MultiplyLongOp {
            u: flag(inst, 22),
            a: flag(inst, 21),
            s: flag(inst, 20),
            rd_hi: field4(inst, 16),
            rd_lo: field4(inst, 12),
            rs: field4(inst, 8),
            rm: field4(inst, 0),
        }
    }

    pub fn from(inst: u32) -> (r: Self)
        ensures
            r == Self::decoded(inst),
    {
        proof {
            crate::utils::lemma_word_fields(inst, 0);
        }
        MultiplyLongOp {
            u: (inst >> 22 & 1) == 1,
            a: (inst >> 21 & 1) == 1,
            s: (inst >> 20 & 1) == 1,
            rd_hi: (inst >> 16 & 0xf) as u8,
            rd_lo: (inst >> 12 & 0xf) as u8,
            rs: (inst >> 8 & 0xf) as u8,
            rm: (inst & 0xf) as u8,
        }
    }
}

/// A swap of a word, or a byte when `b` is set.
#[derive(Debug, PartialEq, Eq, Structural, Clone, Copy)]
pub struct SingleDataSwapOp {
    pub b: bool,
    pub rn: u8,
    pub rd: u8,
    pub rm: u8,
}

impl SingleDataSwapOp {
    pub open spec fn decoded(inst: u32) -> Self {
        SingleDataSwapOp {
            b: flag(inst, 22),
            rn: field4(inst, 16),
            rd: field4(inst, 12),
            rm: field4(inst, 0),
        }
    }

    pub fn from(inst: u32) -> (r: Self)
        ensures
            r == Self::decoded(inst),
    {
        proof {
            crate::utils::lemma_word_fields(inst, 0);
        }
        SingleDataSwapOp {
            b: (inst >> 22 & 1) == 1,
            rn: (inst >> 16 & 0xf) as u8,
            rd: (inst >> 12 & 0xf) as u8,
            rm: (inst & 0xf) as u8,
        }
    }
}

/// A branch and exchange to the address in `rn`.
#[derive(Debug, PartialEq, Eq, Structural, Clone, Copy)]
pub struct BranchExchangeOp {
    pub rn: u8,
}

impl BranchExchangeOp {
    pub open spec fn decoded(inst: u32) -> Self {
        BranchExchangeOp {
            rn: field4(inst, 0),
        }
    }

    pub fn from(inst: u32) -> (r: Self)
        ensures
            r == Self::decoded(inst),
    {
        proof {
            crate::utils::lemma_word_fields(inst, 0);
        }
        BranchExchangeOp {
            rn: (inst & 0xf) as u8,
        }
    }
}

/// A branch, with link when `l` (bit 24) is set, by its 24-bit offset field.
#[derive(Debug, PartialEq, Eq, Structural, Clone, Copy)]
pub struct BranchOp {
    pub l: bool,
    pub offset: u32,
}

impl BranchOp {
    pub open spec fn decoded(inst: u32) -> Self {
        BranchOp {
            l: flag(inst, 24),
            offset: inst & 0xffffff,
        }
    }

    pub fn from(inst: u32) -> (r: Self)
        ensures
            r == Self::decoded(inst),
    {
        proof {
            crate::utils::lemma_word_fields(inst, 0);
        }
        BranchOp {
            l: (inst >> 24 & 1) == 1,
            offset: inst & 0xffffff,
        }
    }
}

/// A halfword transfer with a register offset.
#[derive(Debug, PartialEq, Eq, Structural, Clone, Copy)]
pub struct HalfwordRegOffset {
    pub p: bool,
    pub u: bool,
    pub w: bool,
    pub l: bool,
    pub s: bool,
    pub h: bool,
    pub rn: u8,
    pub rd: u8,
    pub rm: u8,
}

impl HalfwordRegOffset {
    pub open spec fn decoded(inst: u32) -> Self {
        HalfwordRegOffset {
            p: flag(inst, 24),
            u: flag(inst, 23),
            w: flag(inst, 21),
            l: flag(inst, 20),
            s: flag(inst, 6),
            h: flag(inst, 5),
            rn: field4(inst, 15),
            rd: field4(inst, 11),
            rm: field4(inst, 0),
        }
    }

    pub fn from(inst: u32) -> (r: Self)
        ensures
            r == Self::decoded(inst),
    {
        proof {
            crate::utils::lemma_word_fields(inst, 0);
        }
        HalfwordRegOffset {
            p: (inst >> 24 & 1) == 1,
            u: (inst >> 23 & 1) == 1,
            w: (inst >> 21 & 1) == 1,
            l: (inst >> 20 & 1) == 1,
            s: (inst >> 6 & 1) == 1,
            h: (inst >> 5 & 1) == 1,
            rn: (inst >> 15 & 0xf) as u8,
            rd: (inst >> 11 & 0xf) as u8,
            rm: (inst & 0xf) as u8,
        }
    }
}

/// A halfword transfer with an immediate offset split in two nibbles.
#[derive(Debug, PartialEq, Eq, Structural, Clone, Copy)]
pub struct HalfwordImmOffset {
    pub p: bool,
    pub u: bool,
    pub w: bool,
    pub l: bool,
    pub s: bool,
    pub h: bool,
    pub rn: u8,
    pub rd: u8,
    pub offset_a: u8,
    pub offset_b: u8,
}

impl HalfwordImmOffset {
    pub open spec fn decoded(inst: u32) -> Self {
        HalfwordImmOffset {
            p: flag(inst, 24),
            u: flag(inst, 23),
            w: flag(inst, 21),
            l: flag(inst, 20),
            s: flag(inst, 6),
            h: flag(inst, 5),
            rn: field4(inst, 16),
            rd: field4(inst, 12),
            offset_a: field4(inst, 8),
            offset_b: field4(inst, 0),
        }
    }

    pub fn from(inst: u32) -> (r: Self)
        ensures
            r == Self::decoded(inst),
    {
        proof {
            crate::utils::lemma_word_fields(inst, 0);
        }
        HalfwordImmOffset {
            p: (inst >> 24 & 1) == 1,
            u: (inst >> 23 & 1) == 1,
            w: (inst >> 21 & 1) == 1,
            l: (inst >> 20 & 1) == 1,
            s: (inst >> 6 & 1) == 1,
            h: (inst >> 5 & 1) == 1,
            rn: (inst >> 16 & 0xf) as u8,
            rd: (inst >> 12 & 0xf) as u8,
            offset_a: (inst >> 8 & 0xf) as u8,
            offset_b: (inst & 0xf) as u8,
        }
    }
}

/// A single word or byte transfer.
#[derive(Debug, PartialEq, Eq, Structural, Clone, Copy)]
pub struct SingleDataTfx {
    pub i: bool,
    pub p: bool,
    pub u: bool,
    pub b: bool,
    pub w: bool,
    pub l: bool,
    pub rn: u8,
    pub rd: u8,
    pub offset: u16,
}

impl SingleDataTfx {
    pub open spec fn decoded(inst: u32) -> Self {
        SingleDataTfx {
            i: flag(inst, 25),
            p: flag(inst, 24),
            u: flag(inst, 23),
            b: flag(inst, 22),
            w: flag(inst, 21),
            l: flag(inst, 20),
            rn: field4(inst, 16),
            rd: field4(inst, 12),
            offset: (inst & 0xfff) as u16,
        }
    }

    pub fn from(inst: u32) -> (r: Self)
        ensures
            r == Self::decoded(inst),
    {
        proof {
            crate::utils::lemma_word_fields(inst, 0);
        }
        SingleDataTfx {
            i: (inst >> 25 & 1) == 1,
            p: (inst >> 24 & 1) == 1,
            u: (inst >> 23 & 1) == 1,
            b: (inst >> 22 & 1) == 1,
            w: (inst >> 21 & 1) == 1,
            l: (inst >> 20 & 1) == 1,
            rn: (inst >> 16 & 0xf) as u8,
            rd: (inst >> 12 & 0xf) as u8,
            offset: (inst & 0xfff) as u16,
        }
    }
}

/// A block transfer of the registers in `register_list`.
#[derive(Debug, PartialEq, Eq, Structural, Clone, Copy)]
pub struct BlockDataTransfer {
    pub p: bool,
    pub u: bool,
    pub s: bool,
    pub w: bool,
    pub l: bool,
    pub rn: u8,
    pub register_list: u16,
}

impl BlockDataTransfer {
    pub open spec fn decoded(inst: u32) -> Self {
        BlockDataTransfer {
            p: flag(inst, 24),
            u: flag(inst, 23),
            s: flag(inst, 22),
            w: flag(inst, 21),
            l: flag(inst, 20),
            rn: field4(inst, 16),
            register_list: (inst & 0xffff) as u16,
        }
    }

    pub fn from(inst: u32) -> (r: Self)
        ensures
            r == Self::decoded(inst),
    {
        proof {
            crate::utils::lemma_word_fields(inst, 0);
        }
        BlockDataTransfer {
            p: (inst >> 24 & 1) == 1,
            u: (inst >> 23 & 1) == 1,
            s: (inst >> 22 & 1) == 1,
            w: (inst >> 21 & 1) == 1,
            l: (inst >> 20 & 1) == 1,
            rn: (inst >> 16 & 0xf) as u8,
            register_list: (inst & 0xffff) as u16,
        }
    }
}

/// A coprocessor data transfer.
#[derive(Debug, PartialEq, Eq, Structural, Clone, Copy)]
pub struct CoprocessDataTfx {
    pub p: bool,
    pub u: bool,
    pub n: bool,
    pub w: bool,
    pub l: bool,
    pub rn: u8,
    pub c_rd: u8,
    pub cp_num: u8,
    pub offset: u16,
}

impl CoprocessDataTfx {
    pub open spec fn decoded(inst: u32) -> Self {
        CoprocessDataTfx {
            p: flag(inst, 24),
            u: flag(inst, 23),
            n: flag(inst, 22),
            w: flag(inst, 21),
            l: flag(inst, 20),
            rn: field4(inst, 16),
            c_rd: field4(inst, 12),
            cp_num: field4(inst, 8),
            offset: (inst & 0xffff) as u16,
        }
    }

    pub fn from(inst: u32) -> (r: Self)
        ensures
            r == Self::decoded(inst),
    {
        proof {
            crate::utils::lemma_word_fields(inst, 0);
        }
        CoprocessDataTfx {
            p: (inst >> 24 & 1) == 1,
            u: (inst >> 23 & 1) == 1,
            n: (inst >> 22 & 1) == 1,
            w: (inst >> 21 & 1) == 1,
            l: (inst >> 20 & 1) == 1,
            rn: (inst >> 16 & 0xf) as u8,
            c_rd: (inst >> 12 & 0xf) as u8,
            cp_num: (inst >> 8 & 0xf) as u8,
            offset: (inst & 0xffff) as u16,
        }
    }
}

/// A coprocessor data operation.
#[derive(Debug, PartialEq, Eq, Structural, Clone, Copy)]
pub struct CoprocessDataOp {
    pub cp_opc: u8,
    pub c_rn: u8,
    pub c_rd: u8,
    pub cp_num: u8,
    pub cp: u8,
    pub c_rm: u8,
}

impl CoprocessDataOp {
    pub open spec fn decoded(inst: u32) -> Self {
        CoprocessDataOp {
            cp_opc: field4(inst, 20),
            c_rn: field4(inst, 16),
            c_rd: field4(inst, 12),
            cp_num: field4(inst, 8),
            cp: ((inst >> 5u32) & 0x7) as u8,
            c_rm: field4(inst, 0),
        }
    }

    pub fn from(inst: u32) -> (r: Self)
        ensures
            r == Self::decoded(inst),
    {
        proof {
            crate::utils::lemma_word_fields(inst, 0);
        }
        CoprocessDataOp {
            cp_opc: (inst >> 20 & 0xf) as u8,
            c_rn: (inst >> 16 & 0xf) as u8,
            c_rd: (inst >> 12 & 0xf) as u8,
            cp_num: (inst >> 8 & 0xf) as u8,
            cp: (inst >> 5 & 0x7) as u8,
            c_rm: (inst & 0xf) as u8,
        }
    }
}

/// A coprocessor register transfer.
#[derive(Debug, PartialEq, Eq, Structural, Clone, Copy)]
pub struct CoprocessRegTfx {
    pub l: bool,
    pub cp_opc: u8,
    pub c_rn: u8,
    pub c_rd: u8,
    pub cp_num: u8,
    pub cp: u8,
    pub c_rm: u8,
}

impl CoprocessRegTfx {
    pub open spec fn decoded(inst: u32) -> Self {
        CoprocessRegTfx {
            l: flag(inst, 20),
            cp_opc: field4(inst, 21),
            c_rn: field4(inst, 16),
            c_rd: field4(inst, 12),
            cp_num: field4(inst, 8),
            cp: ((inst >> 5u32) & 0x7) as u8,
            c_rm: field4(inst, 0),
        }
    }

    pub fn from(inst: u32) -> (r: Self)
        ensures
            r == Self::decoded(inst),
    {
        proof {
            crate::utils::lemma_word_fields(inst, 0);
        }
        CoprocessRegTfx {
            l: (inst >> 20 & 1) == 1,
            cp_opc: (inst >> 21 & 0xf) as u8,
            c_rn: (inst >> 16 & 0xf) as u8,
            c_rd: (inst >> 12 & 0xf) as u8,
            cp_num: (inst >> 8 & 0xf) as u8,
            cp: (inst >> 5 & 0x7) as u8,
            c_rm: (inst & 0xf) as u8,
        }
    }
}
/// A decoded instruction with its condition, named by its mnemonic.
#[derive(Debug, PartialEq, Eq, Structural, Clone, Copy)]
pub enum Opcode {
    AND(Conditional, DataProcessingOp),
    EOR(Conditional, DataProcessingOp),
    SUB(Conditional, DataProcessingOp),
    RSB(Conditional, DataProcessingOp),
    ADD(Conditional, DataProcessingOp),
    ADC(Conditional, DataProcessingOp),
    SBC(Conditional, DataProcessingOp),
    RSC(Conditional, DataProcessingOp),
    TST(Conditional, DataProcessingOp),
    TEQ(Conditional, DataProcessingOp),
    CMP(Conditional, DataProcessingOp),
    CMN(Conditional, DataProcessingOp),
    ORR(Conditional, DataProcessingOp),
    MOV(Conditional, DataProcessingOp),
    BIC(Conditional, DataProcessingOp),
    MVN(Conditional, DataProcessingOp),
    MUL(Conditional, MultiplyOp),
    MLA(Conditional, MultiplyOp),
    MULL(Conditional, MultiplyLongOp),
    MLAL(Conditional, MultiplyLongOp),
    SWP(Conditional, SingleDataSwapOp),
    B(Conditional, BranchOp),
    BL(Conditional, BranchOp),
    BX(Conditional, BranchExchangeOp),
    SWI(Conditional),
    LDR(Conditional, SingleDataTfx),
    STR(Conditional, SingleDataTfx),
    LDM(Conditional, BlockDataTransfer),
    STM(Conditional, BlockDataTransfer),
    CDP(Conditional, CoprocessDataOp),
    LDC(Conditional, CoprocessDataTfx),
    STC(Conditional, CoprocessDataTfx),
    MRC(Conditional, CoprocessRegTfx),
    MCR(Conditional, CoprocessRegTfx),
    Undef(u32),
}

/// The data processing mnemonic of opcode field `code`.
pub open spec fn data_processing_opcode(code: u32, cond: Conditional, op: DataProcessingOp) -> Opcode {
    if code == 0 {
        Opcode::AND(cond, op)
    } else if code == 1 {
        Opcode::EOR(cond, op)
    } else if code == 2 {
        Opcode::SUB(cond, op)
    } else if code == 3 {
        Opcode::RSB(cond, op)
    } else if code == 4 {
        Opcode::ADD(cond, op)
    } else if code == 5 {
        Opcode::ADC(cond, op)
    } else if code == 6 {
        Opcode::SBC(cond, op)
    } else if code == 7 {
        Opcode::RSC(cond, op)
    } else if code == 8 {
        Opcode::TST(cond, op)
    } else if code == 9 {
        Opcode::TEQ(cond, op)
    } else if code == 10 {
        Opcode::CMP(cond, op)
    } else if code == 11 {
        Opcode::CMN(cond, op)
    } else if code == 12 {
        Opcode::ORR(cond, op)
    } else if code == 13 {
        Opcode::MOV(cond, op)
    } else if code == 14 {
        Opcode::BIC(cond, op)
    } else {
        Opcode::MVN(cond, op)
    }
}

impl Opcode {
    /// The instruction `inst` decodes to: the first class that matches, in the order data
    /// processing, multiply, long multiply, swap, branch and exchange, branch, software
    /// interrupt, single transfer, block transfer, coprocessor operation, coprocessor
    /// transfer, coprocessor register transfer; `Undef` when none does.
    pub open spec fn decoded(inst: u32) -> Opcode {
        let cond = Conditional::decoded(inst);
        if data_processing_class(inst) {
            data_processing_opcode((inst >> 21u32) & 0xf, cond, DataProcessingOp::decoded(inst))
        } else if multiply_class(inst) {
            let op = MultiplyOp::decoded(inst);
            if op.a { Opcode::MLA(cond, op) } else { Opcode::MUL(cond, op) }
        } else if multiply_long_class(inst) {
            let op = MultiplyLongOp::decoded(inst);
            if op.a { Opcode::MLAL(cond, op) } else { Opcode::MULL(cond, op) }
        } else if single_data_swap_class(inst) {
            Opcode::SWP(cond, SingleDataSwapOp::decoded(inst))
        } else if branch_and_exchange_class(inst) {
            Opcode::BX(cond, BranchExchangeOp::decoded(inst))
        } else if branch_class(inst) {
            let op = BranchOp::decoded(inst);
            if op.l { Opcode::BL(cond, op) } else { Opcode::B(cond, op) }
        } else if software_interrupt_class(inst) {
            Opcode::SWI(cond)
        } else if single_data_tfx_class(inst) {
            let op = SingleDataTfx::decoded(inst);
            if op.l { Opcode::LDR(cond, op) } else { Opcode::STR(cond, op) }
        } else if block_data_tfx_class(inst) {
            let op = BlockDataTransfer::decoded(inst);
            if op.l { Opcode::LDM(cond, op) } else { Opcode::STM(cond, op) }
        } else if coprocessor_data_op_class(inst) {
            Opcode::CDP(cond, CoprocessDataOp::decoded(inst))
        } else if coprocessor_data_tfx_class(inst) {
            let op = CoprocessDataTfx::decoded(inst);
            if op.l { Opcode::LDC(cond, op) } else { Opcode::STC(cond, op) }
        } else if coprocessor_reg_tfx_class(inst) {
            let op = CoprocessRegTfx::decoded(inst);
            if op.l { Opcode::MRC(cond, op) } else { Opcode::MCR(cond, op) }
        } else {
            Opcode::Undef(inst)
        }
    }

    pub fn from(inst: u32) -> (r: Opcode)
        ensures
            r == Opcode::decoded(inst),
    {
        let cond = Conditional::from(inst);
        if is_data_processing(inst) {
            let op = DataProcessingOp::from(inst);
            let code = (inst >> 21) & 0xf;
            match code {
                0 => Opcode::AND(cond, op),
                1 => Opcode::EOR(cond, op),
                2 => Opcode::SUB(cond, op),
                3 => Opcode::RSB(cond, op),
                4 => Opcode::ADD(cond, op),
                5 => Opcode::ADC(cond, op),
                6 => Opcode::SBC(cond, op),
                7 => Opcode::RSC(cond, op),
                8 => Opcode::TST(cond, op),
                9 => Opcode::TEQ(cond, op),
                10 => Opcode::CMP(cond, op),
                11 => Opcode::CMN(cond, op),
                12 => Opcode::ORR(cond, op),
                13 => Opcode::MOV(cond, op),
                14 => Opcode::BIC(cond, op),
                _ => Opcode::MVN(cond, op),
            }
        } else if is_multiply(inst) {
            let op = MultiplyOp::from(inst);
            if op.a {
                Opcode::MLA(cond, op)
            } else {
                Opcode::MUL(cond, op)
            }
        } else if is_multiply_long(inst) {
            let op = MultiplyLongOp::from(inst);
            if op.a {
                Opcode::MLAL(cond, op)
            } else {
                Opcode::MULL(cond, op)
            }
        } else if is_single_data_swap(inst) {
            Opcode::SWP(cond, SingleDataSwapOp::from(inst))
        } else if is_branch_and_exchange(inst) {
            Opcode::BX(cond, BranchExchangeOp::from(inst))
        } else if is_branch(inst) {
            let op = BranchOp::from(inst);
            if op.l {
                Opcode::BL(cond, op)
            } else {
                Opcode::B(cond, op)
            }
        } else if is_software_interrupt(inst) {
            Opcode::SWI(cond)
        } else if is_single_data_tfx(inst) {
            let op = SingleDataTfx::from(inst);
            if op.l {
                Opcode::LDR(cond, op)
            } else {
                Opcode::STR(cond, op)
            }
        } else if is_block_data_tfx(inst) {
            let op = BlockDataTransfer::from(inst);
            if op.l {
                Opcode::LDM(cond, op)
            } else {
                Opcode::STM(cond, op)
            }
        } else if is_coprocessor_data_op(inst) {
            Opcode::CDP(cond, CoprocessDataOp::from(inst))
        } else if is_coprocessor_data_tfx(inst) {
            let op = CoprocessDataTfx::from(inst);
            if op.l {
                Opcode::LDC(cond, op)
            } else {
                Opcode::STC(cond, op)
            }
        } else if is_coprocessor_reg_tfx(inst) {
            let op = CoprocessRegTfx::from(inst);
            if op.l {
                Opcode::MRC(cond, op)
            } else {
                Opcode::MCR(cond, op)
            }
        } else {
            Opcode::Undef(inst)
        }
    }

    /// The mnemonic, the name of the variant.
    pub open spec fn mnemonic_text(self) -> Seq<char> {
        match self {
            Opcode::AND(..) => "AND"@,
            Opcode::EOR(..) => "EOR"@,
            Opcode::SUB(..) => "SUB"@,
            Opcode::RSB(..) => "RSB"@,
            Opcode::ADD(..) => "ADD"@,
            Opcode::ADC(..) => "ADC"@,
            Opcode::SBC(..) => "SBC"@,
            Opcode::RSC(..) => "RSC"@,
            Opcode::TST(..) => "TST"@,
            Opcode::TEQ(..) => "TEQ"@,
            Opcode::CMP(..) => "CMP"@,
            Opcode::CMN(..) => "CMN"@,
            Opcode::ORR(..) => "ORR"@,
            Opcode::MOV(..) => "MOV"@,
            Opcode::BIC(..) => "BIC"@,
            Opcode::MVN(..) => "MVN"@,
            Opcode::MUL(..) => "MUL"@,
            Opcode::MLA(..) => "MLA"@,
            Opcode::MULL(..) => "MULL"@,
            Opcode::MLAL(..) => "MLAL"@,
            Opcode::SWP(..) => "SWP"@,
            Opcode::B(..) => "B"@,
            Opcode::BL(..) => "BL"@,
            Opcode::BX(..) => "BX"@,
            Opcode::SWI(..) => "SWI"@,
            Opcode::LDR(..) => "LDR"@,
            Opcode::STR(..) => "STR"@,
            Opcode::LDM(..) => "LDM"@,
            Opcode::STM(..) => "STM"@,
            Opcode::CDP(..) => "CDP"@,
            Opcode::LDC(..) => "LDC"@,
            Opcode::STC(..) => "STC"@,
            Opcode::MRC(..) => "MRC"@,
            Opcode::MCR(..) => "MCR"@,
            Opcode::Undef(_) => "Undefined"@,
        }
    }

    pub fn mnemonic(&self) -> (r: &'static str)
        ensures
            r@ == self.mnemonic_text(),
    {
        match self {
            Opcode::AND(..) => "AND",
            Opcode::EOR(..) => "EOR",
            Opcode::SUB(..) => "SUB",
            Opcode::RSB(..) => "RSB",
            Opcode::ADD(..) => "ADD",
            Opcode::ADC(..) => "ADC",
            Opcode::SBC(..) => "SBC",
            Opcode::RSC(..) => "RSC",
            Opcode::TST(..) => "TST",
            Opcode::TEQ(..) => "TEQ",
            Opcode::CMP(..) => "CMP",
            Opcode::CMN(..) => "CMN",
            Opcode::ORR(..) => "ORR",
            Opcode::MOV(..) => "MOV",
            Opcode::BIC(..) => "BIC",
            Opcode::MVN(..) => "MVN",
            Opcode::MUL(..) => "MUL",
            Opcode::MLA(..) => "MLA",
            Opcode::MULL(..) => "MULL",
            Opcode::MLAL(..) => "MLAL",
            Opcode::SWP(..) => "SWP",
            Opcode::B(..) => "B",
            Opcode::BL(..) => "BL",
            Opcode::BX(..) => "BX",
            Opcode::SWI(..) => "SWI",
            Opcode::LDR(..) => "LDR",
            Opcode::STR(..) => "STR",
            Opcode::LDM(..) => "LDM",
            Opcode::STM(..) => "STM",
            Opcode::CDP(..) => "CDP",
            Opcode::LDC(..) => "LDC",
            Opcode::STC(..) => "STC",
            Opcode::MRC(..) => "MRC",
            Opcode::MCR(..) => "MCR",
            Opcode::Undef(_) => "Undefined",
        }
    }
}
/// A register as a disassembler writes it: `r` and its number.
pub open spec fn reg_text(r: u8) -> Seq<char> {
    "r"@ + decimal_digits(r as nat)
}

/// A number in hexadecimal with the `0x` prefix.
pub open spec fn hex_text(v: u32) -> Seq<char> {
    "0x"@ + hex_digits(v as nat)
}

pub open spec fn bool_text(b: bool) -> Seq<char> {
    if b {
        "true"@
    } else {
        "false"@
    }
}

fn push_reg(s: &mut String, r: u8)
    ensures
        final(s)@ == old(s)@ + reg_text(r),
{
    s.append("r");
    let digits = decimal_string(r as u32);
    s.append(digits.as_str());
    assert(final(s)@ =~= old(s)@ + reg_text(r));
}

fn push_hex(s: &mut String, v: u32)
    ensures
        final(s)@ == old(s)@ + hex_text(v),
{
    let digits = hex_string(v);
    s.append(digits.as_str());
}

fn push_bool(s: &mut String, b: bool)
    ensures
        final(s)@ == old(s)@ + bool_text(b),
{
    if b {
        s.append("true");
    } else {
        s.append("false");
    }
}

impl Opcode {
    /// The disassembly of the instruction: mnemonic, condition suffix, then the operands
    /// that matter for the class (the S bit, registers, the operand field in hexadecimal);
    /// transfers and coprocessor instructions show the mnemonic and condition only.
    pub open spec fn repr_text(self) -> Seq<char> {
        let head = self.mnemonic_text();
        match self {
            Opcode::AND(c, o) | Opcode::EOR(c, o) | Opcode::ORR(c, o) | Opcode::BIC(c, o) | Opcode::ADD(c, o) | Opcode::SUB(c, o) | Opcode::ADC(c, o) | Opcode::SBC(c, o) | Opcode::RSC(c, o) | Opcode::RSB(c, o) => head + c.text() + " "@ + bool_text(o.s) + " "@ + reg_text(o.rd) + " "@
                + reg_text(o.rn) + ", <"@ + hex_text(o.operand as u32) + ">"@,
            Opcode::TST(c, o) | Opcode::TEQ(c, o) => head + c.text() + " "@ + reg_text(o.rn)
                + ", <"@ + hex_text(o.operand as u32) + ">"@,
            Opcode::CMP(c, o) | Opcode::CMN(c, o) => head + c.text() + " "@ + reg_text(o.rd)
                + ", <"@ + hex_text(o.operand as u32) + ">"@,
            Opcode::MOV(c, o) | Opcode::MVN(c, o) => head + c.text() + " "@ + bool_text(o.s) + " "@
                + reg_text(o.rd) + ", <"@ + hex_text(o.operand as u32) + ">"@,
            Opcode::MLA(c, o) => head + c.text() + " "@ + bool_text(o.s) + " "@ + reg_text(o.rd)
                + ", "@ + reg_text(o.rm) + ", "@ + reg_text(o.rs) + ", "@ + reg_text(o.rn),
            Opcode::MUL(c, o) => head + c.text() + " "@ + bool_text(o.s) + " "@ + reg_text(o.rd)
                + ", "@ + reg_text(o.rm) + ", "@ + reg_text(o.rs),
            Opcode::MULL(c, o) | Opcode::MLAL(c, o) => head + c.text() + " "@ + bool_text(o.s) + " "@
                + reg_text(o.rd_hi) + ", "@ + reg_text(o.rd_lo) + ", "@ + reg_text(o.rm) + ", "@
                + reg_text(o.rs),
            Opcode::B(c, o) | Opcode::BL(c, o) => head + c.text() + " +"@ + hex_text(o.offset),
            Opcode::BX(c, o) => head + c.text() + " "@ + reg_text(o.rn),
            Opcode::SWP(c, o) => head + c.text() + " "@ + bool_text(o.b) + " "@ + reg_text(o.rd)
                + ", "@ + reg_text(o.rm) + ", "@ + reg_text(o.rn),
            Opcode::LDM(c, _) | Opcode::STM(c, _) | Opcode::LDR(c, _) | Opcode::STR(c, _)
            | Opcode::CDP(c, _) | Opcode::LDC(c, _) | Opcode::STC(c, _) | Opcode::MRC(c, _)
            | Opcode::MCR(c, _) | Opcode::SWI(c) => head + c.text(),
            Opcode::Undef(_) => "undefined"@,
        }
    }

    pub fn string_repr(&self) -> (r: String)
        ensures
            r@ == self.repr_text(),
    {
        if let Opcode::Undef(_) = self {
            return String::from_str("undefined");
        }
        let mut s = String::from_str(self.mnemonic());
        match self {
            Opcode::AND(c, o) | Opcode::EOR(c, o) | Opcode::ORR(c, o) | Opcode::BIC(c, o) | Opcode::ADD(c, o) | Opcode::SUB(c, o) | Opcode::ADC(c, o) | Opcode::SBC(c, o) | Opcode::RSC(c, o) | Opcode::RSB(c, o) => {
                s.append(c.as_str());
                s.append(" ");
                push_bool(&mut s, o.s);
                s.append(" ");
                push_reg(&mut s, o.rd);
                s.append(" ");
                push_reg(&mut s, o.rn);
                s.append(", <");
                push_hex(&mut s, o.operand as u32);
                s.append(">");
            }
            Opcode::TST(c, o) | Opcode::TEQ(c, o) => {
                s.append(c.as_str());
                s.append(" ");
                push_reg(&mut s, o.rn);
                s.append(", <");
                push_hex(&mut s, o.operand as u32);
                s.append(">");
            }
            Opcode::CMP(c, o) | Opcode::CMN(c, o) => {
                s.append(c.as_str());
                s.append(" ");
                push_reg(&mut s, o.rd);
                s.append(", <");
                push_hex(&mut s, o.operand as u32);
                s.append(">");
            }
            Opcode::MOV(c, o) | Opcode::MVN(c, o) => {
                s.append(c.as_str());
                s.append(" ");
                push_bool(&mut s, o.s);
                s.append(" ");
                push_reg(&mut s, o.rd);
                s.append(", <");
                push_hex(&mut s, o.operand as u32);
                s.append(">");
            }
            Opcode::MLA(c, o) => {
                s.append(c.as_str());
                s.append(" ");
                push_bool(&mut s, o.s);
                s.append(" ");
                push_reg(&mut s, o.rd);
                s.append(", ");
                push_reg(&mut s, o.rm);
                s.append(", ");
                push_reg(&mut s, o.rs);
                s.append(", ");
                push_reg(&mut s, o.rn);
            }
            Opcode::MUL(c, o) => {
                s.append(c.as_str());
                s.append(" ");
                push_bool(&mut s, o.s);
                s.append(" ");
                push_reg(&mut s, o.rd);
                s.append(", ");
                push_reg(&mut s, o.rm);
                s.append(", ");
                push_reg(&mut s, o.rs);
            }
            Opcode::MULL(c, o) | Opcode::MLAL(c, o) => {
                s.append(c.as_str());
                s.append(" ");
                push_bool(&mut s, o.s);
                s.append(" ");
                push_reg(&mut s, o.rd_hi);
                s.append(", ");
                push_reg(&mut s, o.rd_lo);
                s.append(", ");
                push_reg(&mut s, o.rm);
                s.append(", ");
                push_reg(&mut s, o.rs);
            }
            Opcode::B(c, o) | Opcode::BL(c, o) => {
                s.append(c.as_str());
                s.append(" +");
                push_hex(&mut s, o.offset);
            }
            Opcode::BX(c, o) => {
                s.append(c.as_str());
                s.append(" ");
                push_reg(&mut s, o.rn);
            }
            Opcode::SWP(c, o) => {
                s.append(c.as_str());
                s.append(" ");
                push_bool(&mut s, o.b);
                s.append(" ");
                push_reg(&mut s, o.rd);
                s.append(", ");
                push_reg(&mut s, o.rm);
                s.append(", ");
                push_reg(&mut s, o.rn);
            }
            Opcode::LDM(c, _) | Opcode::STM(c, _) | Opcode::LDR(c, _) | Opcode::STR(c, _)
            | Opcode::CDP(c, _) | Opcode::LDC(c, _) | Opcode::STC(c, _) | Opcode::MRC(c, _)
            | Opcode::MCR(c, _) | Opcode::SWI(c) => {
                s.append(c.as_str());
            }
            Opcode::Undef(_) => {}
        }
        s
    }
}
} // verus!
