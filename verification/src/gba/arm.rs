use super::cpu::{CPU, CpuView, PC, LR, view_wf};
use super::error::InstructionDecodeError;
use super::system::{
    cycles_32_spec, cycles_8_16_spec, halfword_of, mem_type, read_cycles_per_32,
    read_cycles_per_8_16, read_spec, SystemMemory, BYTE, HALFWORD, WORD,
};
use super::utils::{calc_cycles_for_stm_ldm, stm_ldm_cycles_spec};
use super::{
    bit_map_to_array, c_flag, contains_u32, lemma_register_list, get_v_from_add, get_v_from_sub, machine, read_or_zero, set_bits_below,
    n_flag, v_flag, v_from_add_spec, z_flag, v_from_sub_spec, write_or_keep, Machine, Operation, CPSR_C,
};
use crate::utils::shifter::{
    asr_spec, ror_spec, rotate_right, rotr_spec, rrx_spec, shl_spec, shr_spec, CpuShifter,
};
use crate::utils::word_arith::signed_value;
use vstd::prelude::*;

verus! {

// Instruction classes, by the fixed bits of their encodings.

/// Data processing and PSR transfer; PSR transfers must be matched first.
pub fn is_data_processing(inst: u32) -> (r: bool)
    ensures
        r == (inst & 0x0c000000 == 0x00000000),
{
    inst & 0x0c000000 == 0x00000000
}

pub fn is_multiply(inst: u32) -> (r: bool)
    ensures
        r == (inst & 0x0fc000f0 == 0x00000090),
{
    inst & 0x0fc000f0 == 0x00000090
}

pub fn is_multiply_long(inst: u32) -> (r: bool)
    ensures
        r == (inst & 0x0fc000f0 == 0x00800090),
{
    inst & 0x0fc000f0 == 0x00800090
}

pub fn is_single_data_swap(inst: u32) -> (r: bool)
    ensures
        r == (inst & 0x0fb00ff0 == 0x01000090),
{
    inst & 0x0fb00ff0 == 0x01000090
}

pub fn is_branch_and_exchange(inst: u32) -> (r: bool)
    ensures
        r == (inst & 0x0ffffff0 == 0x012fff10),
{
    inst & 0x0ffffff0 == 0x012fff10
}

pub fn is_halfword_data_tfx_reg(inst: u32) -> (r: bool)
    ensures
        r == (inst & 0x0e400f90 == 0x00000090),
{
    inst & 0x0e400f90 == 0x00000090
}

pub fn is_halfword_data_tfx_imm(inst: u32) -> (r: bool)
    ensures
        r == (inst & 0x0e400090 == 0x00400090),
{
    inst & 0x0e400090 == 0x00400090
}

pub fn is_single_data_tfx(inst: u32) -> (r: bool)
    ensures
        r == (inst & 0x0c000000 == 0x04000000),
{
    inst & 0x0c000000 == 0x04000000
}

pub fn is_block_data_tfx(inst: u32) -> (r: bool)
    ensures
        r == (inst & 0x0e000000 == 0x08000000),
{
    inst & 0x0e000000 == 0x08000000
}

pub fn is_branch(inst: u32) -> (r: bool)
    ensures
        r == (inst & 0x0e000000 == 0x0a000000),
{
    inst & 0x0e000000 == 0x0a000000
}

pub fn is_coprocessor_data_tfx(inst: u32) -> (r: bool)
    ensures
        r == (inst & 0x0e000000 == 0x0c000000),
{
    inst & 0x0e000000 == 0x0c000000
}

pub fn is_coprocessor_data_op(inst: u32) -> (r: bool)
    ensures
        r == (inst & 0x0f000010 == 0x0c000000),
{
    inst & 0x0f000010 == 0x0c000000
}

pub fn is_coprocessor_reg_tfx(inst: u32) -> (r: bool)
    ensures
        r == (inst & 0x0f000010 == 0x0c000010),
{
    inst & 0x0f000010 == 0x0c000010
}

pub fn is_software_interrupt(inst: u32) -> (r: bool)
    ensures
        r == (inst & 0x0f000000 == 0x0f000000),
{
    inst & 0x0f000000 == 0x0f000000
}

pub fn is_mrs_op(inst: u32) -> (r: bool)
    ensures
        r == (inst & 0x0fbf0fff == 0x010f0000),
{
    inst & 0x0fbf0fff == 0x010f0000
}

pub open spec fn is_psr_transfer_spec(inst: u32) -> bool {
    (inst & 0x0fbf0fff == 0x010f0000) || (inst & 0x0fbffff0 == 0x0129f000) || (inst & 0x0dbff000
        == 0x0128f000)
}

pub fn is_psr_transfer(inst: u32) -> (r: bool)
    ensures
        r == is_psr_transfer_spec(inst),
{
    (inst & 0x0fbf0fff == 0x010f0000) || (inst & 0x0fbffff0 == 0x0129f000) || (inst & 0x0dbff000
        == 0x0128f000)
}

fn is_psr_flag_bits_only(inst: u32) -> (r: bool)
    ensures
        r == ((inst & 0x0dbff000) == 0x0128f000),
{
    (inst & 0x0dbff000) == 0x0128f000
}

/// Bit `n` of an instruction as a flag.
pub open spec fn flag(inst: u32, n: u32) -> bool {
    (inst >> n) & 1 == 1
}

/// A 4-bit register field of an instruction.
pub open spec fn field4(inst: u32, n: u32) -> u8 {
    ((inst >> n) & 0xf) as u8
}

#[derive(Debug, PartialEq, Eq, Structural, Clone, Copy)]
pub enum AddressingMode3 {
    Imm(u8),
    Reg(u8),
}

#[derive(Debug, PartialEq, Eq, Structural, Clone, Copy)]
pub enum DataProcessingType {
    And,
    Eor,
    Sub,
    Rsb,
    Add,
    Adc,
    Sbc,
    Rsc,
    Tst,
    Teq,
    Cmp,
    Cmn,
    Orr,
    Mov,
    Bic,
    Mvn,
}

/// The data processing operation that a 4-bit opcode names.
pub open spec fn dp_type_spec(code: u32) -> DataProcessingType {
    if code == 0 {
        DataProcessingType::And
    } else if code == 1 {
        DataProcessingType::Eor
    } else if code == 2 {
        DataProcessingType::Sub
    } else if code == 3 {
        DataProcessingType::Rsb
    } else if code == 4 {
        DataProcessingType::Add
    } else if code == 5 {
        DataProcessingType::Adc
    } else if code == 6 {
        DataProcessingType::Sbc
    } else if code == 7 {
        DataProcessingType::Rsc
    } else if code == 8 {
        DataProcessingType::Tst
    } else if code == 9 {
        DataProcessingType::Teq
    } else if code == 10 {
        DataProcessingType::Cmp
    } else if code == 11 {
        DataProcessingType::Cmn
    } else if code == 12 {
        DataProcessingType::Orr
    } else if code == 13 {
        DataProcessingType::Mov
    } else if code == 14 {
        DataProcessingType::Bic
    } else {
        DataProcessingType::Mvn
    }
}

#[derive(Debug, PartialEq, Eq, Structural, Clone, Copy)]
pub enum ShiftType {
    Lsl,
    Lsr,
    Asr,
    Ror,
}

pub open spec fn shift_type_spec(value: u32) -> ShiftType {
    if value == 0 {
        ShiftType::Lsl
    } else if value == 1 {
        ShiftType::Lsr
    } else if value == 2 {
        ShiftType::Asr
    } else {
        ShiftType::Ror
    }
}

impl ShiftType {
    /// The shift that a 2-bit field names; larger values name none.
    pub fn from(value: u32) -> (r: Self)
        requires
            value <= 3,
        ensures
            r == shift_type_spec(value),
    {
        match value {
            0 => Self::Lsl,
            1 => Self::Lsr,
            2 => Self::Asr,
            _ => Self::Ror,
        }
    }
}

/// The second operand of a data processing instruction.
#[derive(Debug, PartialEq, Eq, Structural, Clone, Copy)]
pub enum Operand {
    /// An 8-bit immediate rotated right by twice the rotate field.
    Imm(u32, u32, ShiftType),
    /// A register shifted by the low byte of a register.
    ShiftWithReg(usize, usize, ShiftType),
    /// A register shifted by an immediate amount.
    ShiftImm(usize, u32, ShiftType),
}

pub open spec fn operand_spec(value: u32) -> Operand {
    if flag(value, 25) {
        Operand::Imm(value & 0xff, (((value >> 8) & 0xf) * 2) as u32, ShiftType::Ror)
    } else {
        let rm = (value & 0xf) as usize;
        let shift_type = shift_type_spec((value >> 5) & 0b11);
        if flag(value, 4) {
            Operand::ShiftWithReg(rm, ((value >> 8) & 0xf) as usize, shift_type)
        } else {
            Operand::ShiftImm(rm, (value >> 7) & 0x1f, shift_type)
        }
    }
}

impl Operand {
    pub fn from(value: u32) -> (r: Self)
        ensures
            r == operand_spec(value),
    {
        if (value >> 25) & 1 == 1 {
            let rot = (value >> 8) & 0xf;
            proof {
                crate::utils::lemma_word_fields(value, 5);
            }
            let op = value & 0xff;
            Self::Imm(op, rot * 2, ShiftType::Ror)
        } else {
            let rm = (value & 0xf) as usize;
            proof {
                crate::utils::lemma_word_fields(value, 5);
            }
            let shift_type = ShiftType::from((value >> 5) & 0b11);
            if (value >> 4) & 1 == 1 {
                let reg = ((value >> 8) & 0xf) as usize;
                Self::ShiftWithReg(rm, reg, shift_type)
            } else {
                let val = (value >> 7) & 0x1f;
                Self::ShiftImm(rm, val, shift_type)
            }
        }
    }

    /// The register indices that the operand names are registers.
    pub open spec fn wf(self) -> bool {
        match self {
            Operand::Imm(_, _, _) => true,
            Operand::ShiftWithReg(x, y, _) => x < 16 && y < 16,
            Operand::ShiftImm(x, _, _) => x < 16,
        }
    }

    pub open spec fn lhs_spec(self, c: CpuView) -> u32 {
        match self {
            Operand::Imm(x, _, _) => x,
            Operand::ShiftWithReg(x, _, _) => c.reg(x as int),
            Operand::ShiftImm(x, _, _) => c.reg(x as int),
        }
    }

    pub open spec fn rhs_spec(self, c: CpuView) -> u32 {
        match self {
            Operand::Imm(_, y, _) => y,
            Operand::ShiftWithReg(_, y, _) => c.reg(y as int),
            Operand::ShiftImm(_, y, _) => y,
        }
    }

    pub open spec fn shift_spec(self) -> ShiftType {
        match self {
            Operand::Imm(_, _, t) => t,
            Operand::ShiftWithReg(_, _, t) => t,
            Operand::ShiftImm(_, _, t) => t,
        }
    }

    /// The shifted value and the shifter's carry out. An immediate LSR by 0 encodes LSR by
    /// 32 and an immediate ROR by 0 encodes RRX.
    pub open spec fn apply_spec(self, c: CpuView) -> (u32, bool) {
        let carry = c_flag(c.cpsr);
        let lhs = self.lhs_spec(c);
        if self matches Operand::ShiftImm(_, 0, ShiftType::Lsr) {
            shr_spec(carry, lhs, 32)
        } else if self matches Operand::ShiftImm(_, 0, ShiftType::Ror) {
            rrx_spec(carry, lhs)
        } else {
            let rhs = self.rhs_spec(c);
            match self.shift_spec() {
                ShiftType::Lsl => shl_spec(carry, lhs, rhs),
                ShiftType::Lsr => shr_spec(carry, lhs, rhs),
                ShiftType::Asr => asr_spec(carry, lhs, rhs),
                ShiftType::Ror => ror_spec(carry, lhs, rhs),
            }
        }
    }

    pub fn lhs(&self, cpu: &CPU) -> (r: u32)
        requires
            self.wf(),
            cpu@.valid(),
        ensures
            r == self.lhs_spec(cpu@),
    {
        match self {
            Self::Imm(x, _, _) => *x,
            Self::ShiftWithReg(x, _, _) => cpu.get_register(*x),
            Self::ShiftImm(x, _, _) => cpu.get_register(*x),
        }
    }

    pub fn rhs(&self, cpu: &CPU) -> (r: u32)
        requires
            self.wf(),
            cpu@.valid(),
        ensures
            r == self.rhs_spec(cpu@),
    {
        match self {
            Self::Imm(_, y, _) => *y,
            Self::ShiftWithReg(_, y, _) => cpu.get_register(*y),
            Self::ShiftImm(_, y, _) => *y,
        }
    }

    pub fn shift(&self) -> (r: ShiftType)
        ensures
            r == self.shift_spec(),
    {
        match self {
            Self::Imm(_, _, sh_type) => *sh_type,
            Self::ShiftWithReg(_, _, sh_type) => *sh_type,
            Self::ShiftImm(_, _, sh_type) => *sh_type,
        }
    }

    /// Returns the shifted value and the carry out.
    pub fn apply(&self, cpu: &CPU) -> (r: (u32, bool))
        requires
            self.wf(),
            cpu@.valid(),
        ensures
            r == self.apply_spec(cpu@),
    {
        let lhs = self.lhs(cpu);
        if let Operand::ShiftImm(_, 0, ShiftType::Lsr) = self {
            return cpu.shr_with_carry(lhs, 32);
        } else if let Operand::ShiftImm(_, 0, ShiftType::Ror) = self {
            return cpu.rrx_with_carry(lhs);
        }
        let rhs = self.rhs(cpu);
        let shift_type = self.shift();
        match shift_type {
            ShiftType::Lsl => cpu.shl_with_carry(lhs, rhs),
            ShiftType::Lsr => cpu.shr_with_carry(lhs, rhs),
            ShiftType::Asr => cpu.asr_with_carry(lhs, rhs),
            ShiftType::Ror => cpu.ror_with_carry(lhs, rhs),
        }
    }
}


/// A data processing instruction.
#[derive(Debug, PartialEq, Eq, Structural, Clone, Copy)]
pub struct DataProcessingOp {
    pub s: bool,
    pub i: bool,
    pub rn: u8,
    pub rd: u8,
    pub operand: Operand,
    pub opcode: DataProcessingType,
}

impl DataProcessingOp {
    pub open spec fn decoded(inst: u32) -> Self {
        DataProcessingOp {
            i: flag(inst, 25),
            s: flag(inst, 20),
            rd: field4(inst, 12),
            rn: field4(inst, 16),
            operand: Self::operand_of(inst),
            opcode: dp_type_spec((inst >> 21) & 0xf),
        }
    }

    /// The second operand as this decoder reads it. A TEQ whose second operand is a bare
    /// register (bits 4 to 11 clear) holds it as `ShiftWithReg(0, rm, Lsr)`; every other
    /// instruction holds the operand that `operand_spec` reads.
    pub open spec fn operand_of(inst: u32) -> Operand {
        if (inst >> 21) & 0xf == 9 && !flag(inst, 25) && (inst >> 4) & 0xff == 0 {
            Operand::ShiftWithReg(0, (inst & 0xf) as usize, ShiftType::Lsr)
        } else {
            operand_spec(inst)
        }
    }

    pub fn from(inst: u32) -> (r: Self)
        ensures
            r == Self::decoded(inst),
    {
        let opcode = match inst >> 21 & 0xf {
            0 => DataProcessingType::And,
            1 => DataProcessingType::Eor,
            2 => DataProcessingType::Sub,
            3 => DataProcessingType::Rsb,
            4 => DataProcessingType::Add,
            5 => DataProcessingType::Adc,
            6 => DataProcessingType::Sbc,
            7 => DataProcessingType::Rsc,
            8 => DataProcessingType::Tst,
            9 => DataProcessingType::Teq,
            10 => DataProcessingType::Cmp,
            11 => DataProcessingType::Cmn,
            12 => DataProcessingType::Orr,
            13 => DataProcessingType::Mov,
            14 => DataProcessingType::Bic,
            _ => DataProcessingType::Mvn,
        };
        let operand = if inst >> 21 & 0xf == 9 && inst >> 25 & 0x1 != 0x1 && inst >> 4 & 0xff == 0 {
            Operand::ShiftWithReg(0, (inst & 0xf) as usize, ShiftType::Lsr)
        } else {
            Operand::from(inst)
        };
        DataProcessingOp {
            i: (inst >> 25 & 0x1) == 0x1,
            s: (inst >> 20 & 0x1) == 0x1,
            rd: (inst >> 12 & 0xf) as u8,
            rn: (inst >> 16 & 0xf) as u8,
            operand,
            opcode,
        }
    }
}

/// A multiply, with or without accumulate.
#[derive(Debug, PartialEq, Eq, Structural, Clone, Copy)]
pub struct MultiplyOp {
    pub a: bool,
    pub s: bool,
    pub rd: u8,
    pub rn: u8,
    pub rs: u8,
    pub rm: u8,
}

impl MultiplyOp {
    pub open spec fn decoded(inst: u32) -> Self {
        MultiplyOp {
            a: flag(inst, 21),
            s: flag(inst, 20),
            rd: field4(inst, 16),
            rn: field4(inst, 12),
            rs: field4(inst, 8),
            rm: field4(inst, 0),
        }
    }

    pub fn from(inst: u32) -> (r: Self)
        ensures
            r == Self::decoded(inst),
    {
        proof {
            crate::utils::lemma_word_fields(inst, 0);
        }
        Self {
            a: (inst >> 21 & 0x1) == 0x1,
            s: (inst >> 20 & 0x1) == 0x1,
            rd: (inst >> 16 & 0xf) as u8,
            rn: (inst >> 12 & 0xf) as u8,
            rs: (inst >> 8 & 0xf) as u8,
            rm: (inst & 0xf) as u8,
        }
    }
}

/// A long multiply; this emulator decodes it but does not run it.
#[derive(Debug, PartialEq, Eq, Structural, Clone, Copy)]
pub struct MultiplyLongOp {
    pub u: bool,
    pub a: bool,
    pub s: bool,
    pub rd_hi: u8,
    pub rd_lo: u8,
    pub rs: u8,
    pub rm: u8,
}

impl MultiplyLongOp {
    pub open spec fn decoded(inst: u32) -> Self {
        MultiplyLongOp {
            u: flag(inst, 22),
            a: flag(inst, 21),
            s: flag(inst, 20),
            rd_hi: field4(inst, 16),
            rd_lo: field4(inst, 12),
            rs: field4(inst, 8),
            rm: field4(inst, 0),
        }
    }

    pub fn from(inst: u32) -> (r: Self)
        ensures
            r == Self::decoded(inst),
    {
        proof {
            crate::utils::lemma_word_fields(inst, 0);
        }
        Self {
            u: (inst >> 22 & 0x1) == 0x1,
            a: (inst >> 21 & 0x1) == 0x1,
            s: (inst >> 20 & 0x1) == 0x1,
            rd_hi: (inst >> 16 & 0xf) as u8,
            rd_lo: (inst >> 12 & 0xf) as u8,
            rs: (inst >> 8 & 0xf) as u8,
            rm: (inst & 0xf) as u8,
        }
    }
}

/// A swap of a register with a memory word or byte.
#[derive(Debug, PartialEq, Eq, Structural, Clone, Copy)]
pub struct SingleDataSwapOp {
    pub b: bool,
    pub rn: u8,
    pub rd: u8,
    pub rm: u8,
}

impl SingleDataSwapOp {
    pub open spec fn decoded(inst: u32) -> Self {
        SingleDataSwapOp { b: flag(inst, 22), rn: field4(inst, 16), rd: field4(inst, 12), rm: field4(inst, 0) }
    }

    pub fn from(inst: u32) -> (r: Self)
        ensures
            r == Self::decoded(inst),
    {
        proof {
            crate::utils::lemma_word_fields(inst, 0);
        }
        Self {
            b: (inst >> 22 & 0x1) == 0x1,
            rn: (inst >> 16 & 0xf) as u8,
            rd: (inst >> 12 & 0xf) as u8,
            rm: (inst & 0xf) as u8,
        }
    }
}

/// A branch to the address in a register that may switch to Thumb state.
#[derive(Debug, PartialEq, Eq, Structural, Clone, Copy)]
pub struct BranchExchangeOp {
    pub rn: u8,
}

impl BranchExchangeOp {
    pub open spec fn decoded(inst: u32) -> Self {
        BranchExchangeOp { rn: field4(inst, 0) }
    }

    pub fn from(inst: u32) -> (r: Self)
        ensures
            r == Self::decoded(inst),
    {
        proof {
            crate::utils::lemma_word_fields(inst, 0);
        }
        Self { rn: (inst & 0xf) as u8 }
    }
}

/// A branch, with link when `l` is set.
#[derive(Debug, PartialEq, Eq, Structural, Clone, Copy)]
pub struct BranchOp {
    pub l: bool,
    pub offset: u32,
}

/// The byte offset of a branch: the 24-bit field shifted left by two and then
/// sign-extended from bit 25 to 32 bits.
pub open spec fn branch_offset_spec(offset: u32) -> u32 {
    if offset & (1u32 << 23u32) == (1u32 << 23u32) {
        (offset << 2u32) | 0xfc000000
    } else {
        offset << 2u32
    }
}

/// For a 24-bit field the offset is four times the field, counted negative from 2^26
/// when bit 23 is set: a backward branch wraps round 2^32.
pub proof fn lemma_branch_offset_value(offset: u32)
    by (bit_vector)
    requires
        offset < 0x1000000,
    ensures
        branch_offset_spec(offset) as int == if offset < 0x800000 {
            4 * offset
        } else {
            4 * offset + 0xfc000000
        },
{
}

impl BranchOp {
    pub open spec fn decoded(inst: u32) -> Self {
        BranchOp { l: flag(inst, 24), offset: inst & 0xffffff }
    }

    pub fn from(inst: u32) -> (r: Self)
        ensures
            r == Self::decoded(inst),
    {
        Self { l: (inst >> 24 & 0x1) == 0x1, offset: (inst & 0xffffff) as u32 }
    }

    pub fn get_offset(&self) -> (r: u32)
        ensures
            r == branch_offset_spec(self.offset),
            self.offset < 0x1000000 ==> r as int == if self.offset < 0x800000 {
                4 * self.offset
            } else {
                4 * self.offset + 0xfc000000
            },
    {
        proof {
            if self.offset < 0x1000000 {
                lemma_branch_offset_value(self.offset);
            }
        }
        if self.offset & (1 << 23) == (1 << 23) {
            (self.offset << 2) | 0xfc000000
        } else {
            self.offset << 2
        }
    }
}

/// A halfword transfer with a register offset, in an older layout of its fields.
#[derive(Debug, PartialEq, Eq, Structural, Clone, Copy)]
pub struct HalfwordRegOffset {
    pub p: bool,
    pub u: bool,
    pub w: bool,
    pub l: bool,
    pub s: bool,
    pub h: bool,
    pub rn: u8,
    pub rd: u8,
    pub rm: u8,
}

impl HalfwordRegOffset {
    pub open spec fn decoded(inst: u32) -> Self {
        HalfwordRegOffset {
            p: flag(inst, 24),
            u: flag(inst, 23),
            w: flag(inst, 21),
            l: flag(inst, 20),
            s: flag(inst, 6),
            h: flag(inst, 5),
            rn: field4(inst, 15),
            rd: field4(inst, 11),
            rm: field4(inst, 0),
        }
    }

    pub fn from(inst: u32) -> (r: Self)
        ensures
            r == Self::decoded(inst),
    {
        proof {
            crate::utils::lemma_word_fields(inst, 0);
        }
        Self {
            p: (inst >> 24 & 1) == 1,
            u: (inst >> 23 & 1) == 1,
            w: (inst >> 21 & 1) == 1,
            l: (inst >> 20 & 1) == 1,
            s: (inst >> 6 & 1) == 1,
            h: (inst >> 5 & 1) == 1,
            rn: (inst >> 15 & 0xf) as u8,
            rd: (inst >> 11 & 0xf) as u8,
            rm: (inst & 0xf) as u8,
        }
    }
}

/// A single word or byte transfer.
#[derive(Debug, PartialEq, Eq, Structural, Clone, Copy)]
pub struct SingleDataTfx {
    pub i: bool,
    pub p: bool,
    pub u: bool,
    pub b: bool,
    pub w: bool,
    pub l: bool,
    pub rn: u8,
    pub rd: u8,
    pub offset: u16,
}

impl SingleDataTfx {
    pub open spec fn decoded(inst: u32) -> Self {
        SingleDataTfx {
            i: flag(inst, 25),
            p: flag(inst, 24),
            u: flag(inst, 23),
            b: flag(inst, 22),
            w: flag(inst, 21),
            l: flag(inst, 20),
            rn: field4(inst, 16),
            rd: field4(inst, 12),
            offset: (inst & 0xfff) as u16,
        }
    }

    pub fn from(inst: u32) -> (r: Self)
        ensures
            r == Self::decoded(inst),
    {
        Self {
            i: (inst >> 25 & 1) == 1,
            p: (inst >> 24 & 1) == 1,
            u: (inst >> 23 & 1) == 1,
            b: (inst >> 22 & 1) == 1,
            w: (inst >> 21 & 1) == 1,
            l: (inst >> 20 & 1) == 1,
            rn: (inst >> 16 & 0xf) as u8,
            rd: (inst >> 12 & 0xf) as u8,
            offset: (inst & 0xfff) as u16,
        }
    }
}

/// A load or store of several registers.
#[derive(Debug, PartialEq, Eq, Structural, Clone, Copy)]
pub struct BlockDataTransfer {
    pub p: bool,
    pub u: bool,
    pub s: bool,
    pub w: bool,
    pub l: bool,
    pub rn: u8,
    pub register_list: u16,
}

impl BlockDataTransfer {
    pub open spec fn decoded(inst: u32) -> Self {
        BlockDataTransfer {
            p: flag(inst, 24),
            u: flag(inst, 23),
            s: flag(inst, 22),
            w: flag(inst, 21),
            l: flag(inst, 20),
            rn: field4(inst, 16),
            register_list: (inst & 0xffff) as u16,
        }
    }

    pub fn from(inst: u32) -> (r: Self)
        ensures
            r == Self::decoded(inst),
    {
        Self {
            p: (inst >> 24 & 1) == 1,
            u: (inst >> 23 & 1) == 1,
            s: (inst >> 22 & 1) == 1,
            w: (inst >> 21 & 1) == 1,
            l: (inst >> 20 & 1) == 1,
            rn: (inst >> 16 & 0xf) as u8,
            register_list: (inst & 0xffff) as u16,
        }
    }
}

/// A coprocessor data transfer; decoded, not run.
#[derive(Debug, PartialEq, Eq, Structural, Clone, Copy)]
pub struct CoprocessDataTfx {
    pub p: bool,
    pub u: bool,
    pub n: bool,
    pub w: bool,
    pub l: bool,
    pub rn: u8,
    pub c_rd: u8,
    pub cp_num: u8,
    pub offset: u16,
}

impl CoprocessDataTfx {
    pub open spec fn decoded(inst: u32) -> Self {
        CoprocessDataTfx {
            p: flag(inst, 24),
            u: flag(inst, 23),
            n: flag(inst, 22),
            w: flag(inst, 21),
            l: flag(inst, 20),
            rn: field4(inst, 16),
            c_rd: field4(inst, 12),
            cp_num: field4(inst, 8),
            offset: (inst & 0xffff) as u16,
        }
    }

    pub fn from(inst: u32) -> (r: Self)
        ensures
            r == Self::decoded(inst),
    {
        Self {
            p: (inst >> 24 & 1) == 1,
            u: (inst >> 23 & 1) == 1,
            n: (inst >> 22 & 1) == 1,
            w: (inst >> 21 & 1) == 1,
            l: (inst >> 20 & 1) == 1,
            rn: (inst >> 16 & 0xf) as u8,
            c_rd: (inst >> 12 & 0xf) as u8,
            cp_num: (inst >> 8 & 0xf) as u8,
            offset: (inst & 0xffff) as u16,
        }
    }
}

/// A coprocessor data operation; decoded, not run.
#[derive(Debug, PartialEq, Eq, Structural, Clone, Copy)]
pub struct CoprocessDataOp {
    pub cp_opc: u8,
    pub c_rn: u8,
    pub c_rd: u8,
    pub cp_num: u8,
    pub cp: u8,
    pub c_rm: u8,
}

impl CoprocessDataOp {
    pub open spec fn decoded(inst: u32) -> Self {
        CoprocessDataOp {
            cp_opc: field4(inst, 20),
            c_rn: field4(inst, 16),
            c_rd: field4(inst, 12),
            cp_num: field4(inst, 8),
            cp: ((inst >> 5) & 0x7) as u8,
            c_rm: field4(inst, 0),
        }
    }

    pub fn from(inst: u32) -> (r: Self)
        ensures
            r == Self::decoded(inst),
    {
        proof {
            crate::utils::lemma_word_fields(inst, 0);
        }
        Self {
            cp_opc: (inst >> 20 & 0xf) as u8,
            c_rn: (inst >> 16 & 0xf) as u8,
            c_rd: (inst >> 12 & 0xf) as u8,
            cp_num: (inst >> 8 & 0xf) as u8,
            cp: (inst >> 5 & 0x7) as u8,
            c_rm: (inst & 0xf) as u8,
        }
    }
}

/// A coprocessor register transfer; decoded, not run.
#[derive(Debug, PartialEq, Eq, Structural, Clone, Copy)]
pub struct CoprocessRegTfx {
    pub l: bool,
    pub cp_opc: u8,
    pub c_rn: u8,
    pub c_rd: u8,
    pub cp_num: u8,
    pub cp: u8,
    pub c_rm: u8,
}

impl CoprocessRegTfx {
    pub open spec fn decoded(inst: u32) -> Self {
        CoprocessRegTfx {
            l: flag(inst, 20),
            cp_opc: field4(inst, 21),
            c_rn: field4(inst, 16),
            c_rd: field4(inst, 12),
            cp_num: field4(inst, 8),
            cp: ((inst >> 5) & 0x7) as u8,
            c_rm: field4(inst, 0),
        }
    }

    pub fn from(inst: u32) -> (r: Self)
        ensures
            r == Self::decoded(inst),
    {
        proof {
            crate::utils::lemma_word_fields(inst, 0);
        }
        Self {
            l: (inst >> 20 & 1) == 1,
            cp_opc: (inst >> 21 & 0xf) as u8,
            c_rn: (inst >> 16 & 0xf) as u8,
            c_rd: (inst >> 12 & 0xf) as u8,
            cp_num: (inst >> 8 & 0xf) as u8,
            cp: (inst >> 5 & 0x7) as u8,
            c_rm: (inst & 0xf) as u8,
        }
    }
}

#[derive(Debug, PartialEq, Eq, Structural, Clone, Copy)]
pub enum PsrTransferType {
    MSR,
    MRS,
}

/// A transfer between a register and a status word.
#[derive(Debug, PartialEq, Eq, Structural, Clone, Copy)]
pub struct PsrTransferOp {
    pub i: bool,
    pub p: bool,
    pub bit_flags_only: bool,
    pub rd: u8,
    pub rm: u8,
    pub rotate: u8,
    pub imm: u8,
    pub op: PsrTransferType,
}

impl PsrTransferOp {
    pub open spec fn decoded(inst: u32) -> Self {
        PsrTransferOp {
            i: flag(inst, 25),
            p: flag(inst, 22),
            bit_flags_only: (inst & 0x0dbff000) == 0x0128f000,
            rd: field4(inst, 12),
            rm: field4(inst, 0),
            rotate: field4(inst, 8),
            imm: (inst & 0xff) as u8,
            op: if inst & 0x0fbf0fff == 0x010f0000 {
                PsrTransferType::MRS
            } else {
                PsrTransferType::MSR
            },
        }
    }

    pub fn from(inst: u32) -> (r: Self)
        ensures
            r == Self::decoded(inst),
    {
        let op = if is_mrs_op(inst) {
            PsrTransferType::MRS
        } else {
            PsrTransferType::MSR
        };
        proof {
            crate::utils::lemma_word_fields(inst, 0);
        }
        Self {
            i: (inst >> 25 & 1) == 1,
            p: (inst >> 22 & 1) == 1,
            bit_flags_only: is_psr_flag_bits_only(inst),
            rd: (inst >> 12 & 0xf) as u8,
            rm: (inst & 0xf) as u8,
            rotate: (inst >> 8 & 0xf) as u8,
            imm: (inst & 0xff) as u8,
            op,
        }
    }

    /// The value an MSR writes: the immediate rotated right by twice the rotate field, or
    /// register `rm`.
    pub open spec fn operand_spec(self, c: CpuView) -> u32 {
        if self.i {
            rotr_spec(self.imm as u32, ((self.rotate as u32) * 2) as u32)
        } else {
            c.reg(self.rm as int)
        }
    }

    pub fn get_operand(&self, cpu: &CPU) -> (r: u32)
        requires
            self.rm < 16,
            self.rotate < 16,
            cpu@.valid(),
        ensures
            r == self.operand_spec(cpu@),
    {
        if self.i {
            let imm = self.imm as u32;
            rotate_right(imm, (self.rotate as u32) * 2)
        } else {
            cpu.get_register(self.rm as usize)
        }
    }

    /// Whether the transfer is with the current status word rather than the saved one.
    pub fn is_cspr(&self) -> (r: bool)
        ensures
            r == !self.p,
    {
        !self.p
    }

    pub fn is_bit_flag_only(&self) -> (r: bool)
        ensures
            r == self.bit_flags_only,
    {
        self.bit_flags_only
    }
}

/// A halfword or signed transfer.
#[derive(Debug, PartialEq, Eq, Structural, Clone, Copy)]
pub struct HalfwordDataOp {
    pub mode: AddressingMode3,
    pub p: bool,
    pub u: bool,
    pub w: bool,
    pub l: bool,
    pub s: bool,
    pub h: bool,
    pub rn: u8,
    pub rd: u8,
}

impl HalfwordDataOp {
    pub open spec fn decoded(inst: u32) -> Self {
        HalfwordDataOp {
            p: flag(inst, 24),
            u: flag(inst, 23),
            w: flag(inst, 21),
            l: flag(inst, 20),
            s: flag(inst, 6),
            h: flag(inst, 5),
            rn: field4(inst, 16),
            rd: field4(inst, 12),
            mode: if inst & 0x0e400090 == 0x00400090 {
                AddressingMode3::Imm(((inst & 0xf) | ((inst >> 4) & 0xf0)) as u8)
            } else {
                AddressingMode3::Reg((inst & 0xf) as u8)
            },
        }
    }

    pub fn from(inst: u32) -> (r: Self)
        ensures
            r == Self::decoded(inst),
    {
        let p = (inst >> 24 & 1) == 1;
        let byte_offset = ((inst & 0xf) | (inst >> 4 & 0xf0)) as u8;
        let rm = (inst & 0xf) as u8;
        let mode = if is_halfword_data_tfx_imm(inst) {
            AddressingMode3::Imm(byte_offset)
        } else {
            AddressingMode3::Reg(rm)
        };
        Self {
            p,
            u: (inst >> 23 & 1) == 1,
            w: (inst >> 21 & 1) == 1,
            l: (inst >> 20 & 1) == 1,
            s: (inst >> 6 & 1) == 1,
            h: (inst >> 5 & 1) == 1,
            rn: (inst >> 16 & 0xf) as u8,
            rd: (inst >> 12 & 0xf) as u8,
            mode,
        }
    }
}


/// Whether a data processing operation is logical: its carry comes from the shifter and
/// it keeps the overflow flag.
pub open spec fn dp_is_logical(op: DataProcessingType) -> bool {
    op == DataProcessingType::And || op == DataProcessingType::Eor || op == DataProcessingType::Tst
        || op == DataProcessingType::Teq || op == DataProcessingType::Orr || op
        == DataProcessingType::Mov || op == DataProcessingType::Bic || op == DataProcessingType::Mvn
}

/// Whether a data processing operation only sets flags and writes no register.
pub open spec fn dp_is_test(op: DataProcessingType) -> bool {
    op == DataProcessingType::Cmp || op == DataProcessingType::Tst || op == DataProcessingType::Teq
        || op == DataProcessingType::Cmn
}

/// The 64-bit result of a data processing operation on `rn` and the shifted operand `op2`,
/// with `carry` the carry flag, and the overflow that the arithmetic operations report.
/// Subtraction adds the complement of the subtrahend and one (or the carry).
pub open spec fn dp_alu(op: DataProcessingType, rn: u32, op2: u32, carry: u64) -> (u64, bool) {
    let a = rn as u64;
    let b = op2 as u64;
    let not_b = (!op2) as u64;
    let not_a = (!rn) as u64;
    match op {
        DataProcessingType::And | DataProcessingType::Tst => (a & b, false),
        DataProcessingType::Eor | DataProcessingType::Teq => ((a ^ b) & 0xffffffff, false),
        DataProcessingType::Sub | DataProcessingType::Cmp => {
            let res = (a + not_b + 1) as u64;
            (res, v_from_sub_spec(a, b, res))
        },
        DataProcessingType::Rsb => {
            let res = (b + not_a + 1) as u64;
            (res, v_from_sub_spec(b, a, res))
        },
        DataProcessingType::Add | DataProcessingType::Cmn => {
            let res = (a + b) as u64;
            (res, v_from_add_spec(a, b, res))
        },
        DataProcessingType::Adc => {
            let res = (a + b + carry) as u64;
            (res, v_from_add_spec(a, b, res))
        },
        DataProcessingType::Sbc => {
            let res = (a + not_b + carry) as u64;
            (res, v_from_sub_spec(a, b, res))
        },
        DataProcessingType::Rsc => {
            let res = (b + not_a + carry) as u64;
            (res, v_from_sub_spec(b, a, res))
        },
        DataProcessingType::Orr => (a | b, false),
        DataProcessingType::Mov => (b, false),
        DataProcessingType::Bic => (a & !b, false),
        DataProcessingType::Mvn => (!b, false),
    }
}

impl DataProcessingOp {
    pub open spec fn wf(self) -> bool {
        self.rn < 16 && self.rd < 16 && self.operand.wf()
    }

    pub fn is_logical_operation(&self) -> (r: bool)
        ensures
            r == dp_is_logical(self.opcode),
    {
        self.opcode == DataProcessingType::And || self.opcode == DataProcessingType::Eor
            || self.opcode == DataProcessingType::Tst || self.opcode == DataProcessingType::Teq
            || self.opcode == DataProcessingType::Orr || self.opcode == DataProcessingType::Mov
            || self.opcode == DataProcessingType::Bic || self.opcode == DataProcessingType::Mvn
    }
}

impl Operation for DataProcessingOp {
    open spec fn runs_ok(&self, s: Machine) -> bool {
        self.wf()
    }

    /// Computes the result, writes it unless the operation is a test, sets the flags when
    /// `s` is set (C from the shifter for logical operations, else bit 32 of the sum; V kept
    /// for logical operations) and takes 1 cycle, one more when the operand is shifted by a
    /// register and one more when writing the PC.
    open spec fn effect(&self, s: Machine) -> Machine {
        let c = s.cpu;
        let (op2, shifter_carry) = self.operand.apply_spec(c);
        let carry = ((c.cpsr & CPSR_C) >> 29u32) as u64;
        let (res64, v_alu) = dp_alu(self.opcode, c.reg(self.rn as int), op2, carry);
        let c_out = if dp_is_logical(self.opcode) { shifter_carry } else { (res64 >> 32u64) & 1 == 1 };
        let res = (res64 & 0xffffffff) as u32;
        let c1 = if dp_is_test(self.opcode) { c } else { c.set_reg(self.rd as int, res) };
        let v = if dp_is_logical(self.opcode) { v_flag(c1.cpsr) } else { v_alu };
        let c2 = if self.s { c1.with_flags(res, v, c_out) } else { c1 };
        let shift_cycle: int = if self.operand is ShiftWithReg { 1 } else { 0 };
        let pc_cycle: int = if self.rd == 15 { 1 } else { 0 };
        s.with_cpu(c2.add_cycles((1 + shift_cycle + pc_cycle) as u32))
    }

    fn run(&self, cpu: &mut CPU, _mem: &mut SystemMemory) {
        let (op2, c_out) = self.operand.apply(cpu);
        let cycle: u32 = match self.operand {
            Operand::ShiftWithReg(..) => 1,
            _ => 0,
        };
        let mut cycles: u32 = 1;
        let rn_value = cpu.get_register(self.rn as usize) as u64;
        cycles += cycle;
        if self.rd as usize == PC {
            cycles += 1;
        }
        let operand2 = op2 as u64;
        let cpsr = cpu.cpsr;
        proof {
            super::lemma_status_word(cpsr);
        }
        let carry = ((cpsr & CPSR_C) >> 29) as u64;
        let mut v_status = false;
        let res: u64 = match self.opcode {
            DataProcessingType::And | DataProcessingType::Tst => rn_value & operand2,
            DataProcessingType::Eor | DataProcessingType::Teq => (rn_value ^ operand2) & 0xffffffff,
            DataProcessingType::Sub | DataProcessingType::Cmp => {
                let rhs = !op2 as u64;
                let res = rn_value + rhs + 1;
                v_status = get_v_from_sub(rn_value, operand2, res);
                res
            },
            DataProcessingType::Rsb => {
                let rhs = !cpu.get_register(self.rn as usize) as u64;
                let res = operand2 + rhs + 1;
                v_status = get_v_from_sub(operand2, rn_value, res);
                res
            },
            DataProcessingType::Add | DataProcessingType::Cmn => {
                let res = rn_value + operand2;
                v_status = get_v_from_add(rn_value, operand2, res);
                res
            },
            DataProcessingType::Adc => {
                let res = rn_value + operand2 + carry;
                v_status = get_v_from_add(rn_value, operand2, res);
                res
            },
            DataProcessingType::Sbc => {
                let rhs = !op2 as u64;
                let res = rn_value + rhs + carry;
                v_status = get_v_from_sub(rn_value, operand2, res);
                res
            },
            DataProcessingType::Rsc => {
                let rhs = !cpu.get_register(self.rn as usize) as u64;
                let res = operand2 + rhs + carry;
                v_status = get_v_from_sub(operand2, rn_value, res);
                res
            },
            DataProcessingType::Orr => rn_value | operand2,
            DataProcessingType::Mov => operand2,
            DataProcessingType::Bic => rn_value & !operand2,
            DataProcessingType::Mvn => !operand2,
        };
        let c_out = if self.is_logical_operation() {
            c_out
        } else {
            (res >> 32) & 1 == 1
        };
        let res: u32 = (res & 0xffffffff) as u32;
        if !(self.opcode == DataProcessingType::Cmp || self.opcode == DataProcessingType::Tst
            || self.opcode == DataProcessingType::Teq || self.opcode == DataProcessingType::Cmn) {
            cpu.set_register(self.rd as usize, res);
        }
        if self.is_logical_operation() {
            v_status = cpu.v_status();
        }
        if self.s {
            cpu.update_cpsr(res, v_status, c_out);
        }
        cpu.add_cycles(cycles);
    }
}


/// What a data processing instruction computes from the value `a` of `rn` and its shifted
/// second operand `b`: AND, EOR, ORR and BIC bit by bit (`a & b`, `a ^ b`, `a | b`,
/// `a & !b`), MOV and MVN the operand or its complement, ADD and ADC the sum and SUB, RSB,
/// SBC and RSC the difference wrapped round 2^32, with the carry flag added in by ADC, SBC
/// and RSC (so SBC is `a - b - 1 + C`). The value lands in `rd`, except for TST, TEQ, CMP
/// and CMN, which leave `rd` as it was; with `s` set, N is its bit 31 and Z says it is zero.
pub proof fn law_data_processing_value(op: DataProcessingOp, s: Machine)
    requires
        s.valid(),
        view_wf(s.cpu),
        op.wf(),
    ensures
        ({
            let a = s.reg(op.rn as int) as int;
            let b = op.operand.apply_spec(s.cpu).0 as int;
            let ua = s.reg(op.rn as int);
            let ub = op.operand.apply_spec(s.cpu).0;
            let c: int = if c_flag(s.cpu.cpsr) { 1 } else { 0 };
            let value: int = match op.opcode {
                DataProcessingType::And | DataProcessingType::Tst => (ua & ub) as int,
                DataProcessingType::Eor | DataProcessingType::Teq => (ua ^ ub) as int,
                DataProcessingType::Orr => (ua | ub) as int,
                DataProcessingType::Bic => (ua & !ub) as int,
                DataProcessingType::Mov => b,
                DataProcessingType::Mvn => (!ub) as int,
                DataProcessingType::Add | DataProcessingType::Cmn => (a + b) % 0x1_0000_0000,
                DataProcessingType::Adc => (a + b + c) % 0x1_0000_0000,
                DataProcessingType::Sub | DataProcessingType::Cmp => (a - b) % 0x1_0000_0000,
                DataProcessingType::Rsb => (b - a) % 0x1_0000_0000,
                DataProcessingType::Sbc => (a - b - 1 + c) % 0x1_0000_0000,
                DataProcessingType::Rsc => (b - a - 1 + c) % 0x1_0000_0000,
            };
            let t = op.effect(s).cpu;
            let test = op.opcode == DataProcessingType::Tst || op.opcode == DataProcessingType::Teq
                || op.opcode == DataProcessingType::Cmp || op.opcode == DataProcessingType::Cmn;
            &&& test ==> t.reg(op.rd as int) == s.reg(op.rd as int)
            &&& !test ==> t.reg(op.rd as int) as int == value
            &&& op.s ==> n_flag(t.cpsr) == (value >= 0x8000_0000) && z_flag(t.cpsr) == (value == 0)
        }),
{
    let c0 = s.cpu;
    let (op2, shifter_carry) = op.operand.apply_spec(c0);
    let rn = c0.reg(op.rn as int);
    let carry = ((c0.cpsr & CPSR_C) >> 29u32) as u64;
    super::lemma_status_word(c0.cpsr);
    assert(carry <= 1);
    assert(carry == 1 <==> c_flag(c0.cpsr)) by {
        super::lemma_flag_bits(c0.cpsr);
    }
    let (res64, v_alu) = dp_alu(op.opcode, rn, op2, carry);
    let res = (res64 & 0xffffffff) as u32;
    crate::utils::word_arith::lemma_low_word_logic(rn, op2, carry);
    crate::utils::word_arith::lemma_low_word_sum(rn, op2, carry);
    crate::utils::word_arith::lemma_low_word_sum(rn, op2, 1);
    crate::utils::word_arith::lemma_low_word_sum(op2, rn, carry);
    crate::utils::word_arith::lemma_low_word_sum(op2, rn, 1);
    crate::utils::word_arith::lemma_low_word_sum(rn, op2, 0);
    crate::utils::word_arith::lemma_wrap(rn + op2);
    crate::utils::word_arith::lemma_wrap(rn + op2 + carry);
    crate::utils::word_arith::lemma_wrap(rn - op2);
    crate::utils::word_arith::lemma_wrap(op2 - rn);
    crate::utils::word_arith::lemma_wrap(rn - op2 - 1 + carry);
    crate::utils::word_arith::lemma_wrap(op2 - rn - 1 + carry);
    let c1 = if dp_is_test(op.opcode) { c0 } else { c0.set_reg(op.rd as int, res) };
    assert(c1.cpsr == c0.cpsr);
    assert(!dp_is_test(op.opcode) ==> c1.reg(op.rd as int) == res);
    let v = if dp_is_logical(op.opcode) { v_flag(c1.cpsr) } else { v_alu };
    let c_out = if dp_is_logical(op.opcode) { shifter_carry } else { (res64 >> 32u64) & 1 == 1 };
    super::cpu::lemma_flags_read_back(c1.cpsr, res, v, c_out);
}

/// The carry and overflow flags a data processing instruction sets when `s` is set, with `a`
/// the value of `rn`, `b` the shifted operand and `c` the carry flag: for ADD, CMN and ADC
/// C says the unsigned sum (`a + b`, `a + b + c`) reached 2^32; for SUB, CMP, RSB, SBC and
/// RSC C says the unsigned difference (`a - b`, `b - a`, `a - b - 1 + c`, `b - a - 1 + c`)
/// borrowed nothing; V says the same sum or difference of the signed values left the
/// signed range. The logical operations take C from the shifter and keep V.
pub proof fn law_data_processing_flags(op: DataProcessingOp, s: Machine)
    requires
        s.valid(),
        view_wf(s.cpu),
        op.wf(),
        op.s,
    ensures
        ({
            let a = s.reg(op.rn as int) as int;
            let b = op.operand.apply_spec(s.cpu).0 as int;
            let sa = signed_value(s.reg(op.rn as int));
            let sb = signed_value(op.operand.apply_spec(s.cpu).0);
            let c: int = if c_flag(s.cpu.cpsr) { 1 } else { 0 };
            let t = op.effect(s).cpu.cpsr;
            let in_range = |x: int| -0x8000_0000 <= x < 0x8000_0000;
            match op.opcode {
                DataProcessingType::Add | DataProcessingType::Cmn => c_flag(t) == (a + b
                    >= 0x1_0000_0000) && v_flag(t) == !in_range(sa + sb),
                DataProcessingType::Adc => c_flag(t) == (a + b + c >= 0x1_0000_0000) && v_flag(t)
                    == !in_range(sa + sb + c),
                DataProcessingType::Sub | DataProcessingType::Cmp => c_flag(t) == (a >= b)
                    && v_flag(t) == !in_range(sa - sb),
                DataProcessingType::Rsb => c_flag(t) == (b >= a) && v_flag(t) == !in_range(sb - sa),
                DataProcessingType::Sbc => c_flag(t) == (a + c >= b + 1) && v_flag(t) == !in_range(
                    sa - sb - 1 + c,
                ),
                DataProcessingType::Rsc => c_flag(t) == (b + c >= a + 1) && v_flag(t) == !in_range(
                    sb - sa - 1 + c,
                ),
                _ => c_flag(t) == op.operand.apply_spec(s.cpu).1 && v_flag(t) == v_flag(s.cpu.cpsr),
            }
        }),
{
    let c0 = s.cpu;
    let (op2, shifter_carry) = op.operand.apply_spec(c0);
    let rn = c0.reg(op.rn as int);
    let carry = ((c0.cpsr & CPSR_C) >> 29u32) as u64;
    super::lemma_status_word(c0.cpsr);
    super::lemma_flag_bits(c0.cpsr);
    assert(carry <= 1);
    assert(carry == 1 <==> c_flag(c0.cpsr));
    let (res64, v_alu) = dp_alu(op.opcode, rn, op2, carry);
    let res = (res64 & 0xffffffff) as u32;
    crate::utils::word_arith::lemma_carry_out(rn, op2, carry);
    crate::utils::word_arith::lemma_carry_out(rn, op2, 1);
    crate::utils::word_arith::lemma_carry_out(rn, op2, 0);
    crate::utils::word_arith::lemma_carry_out(op2, rn, carry);
    crate::utils::word_arith::lemma_carry_out(op2, rn, 1);
    crate::utils::word_arith::lemma_signed_overflow(rn, op2, carry);
    crate::utils::word_arith::lemma_signed_overflow(rn, op2, 1);
    crate::utils::word_arith::lemma_signed_overflow(rn, op2, 0);
    crate::utils::word_arith::lemma_signed_overflow(op2, rn, carry);
    crate::utils::word_arith::lemma_signed_overflow(op2, rn, 1);
    let c1 = if dp_is_test(op.opcode) { c0 } else { c0.set_reg(op.rd as int, res) };
    assert(c1.cpsr == c0.cpsr);
    let v = if dp_is_logical(op.opcode) { v_flag(c1.cpsr) } else { v_alu };
    let c_out = if dp_is_logical(op.opcode) { shifter_carry } else { (res64 >> 32u64) & 1 == 1 };
    super::cpu::lemma_flags_read_back(c1.cpsr, res, v, c_out);
}

/// What a multiply leaves: `rd` gets `rm * rs`, plus `rn` when accumulating, modulo 2^32; N
/// is bit 31 of it and Z says it is zero; C and V are cleared.
pub proof fn law_multiply_value(op: MultiplyOp, s: Machine)
    requires
        s.valid(),
        view_wf(s.cpu),
        op.runs_ok(s),
    ensures
        ({
            let m = s.reg(op.rm as int) as int;
            let r = s.reg(op.rs as int) as int;
            let n = s.reg(op.rn as int) as int;
            let value = (m * r + if op.a { n } else { 0 }) % 0x1_0000_0000;
            let t = op.effect(s).cpu;
            &&& t.reg(op.rd as int) as int == value
            &&& n_flag(t.cpsr) == (value >= 0x8000_0000)
            &&& z_flag(t.cpsr) == (value == 0)
            &&& !c_flag(t.cpsr)
            &&& !v_flag(t.cpsr)
        }),
{
    let m = s.reg(op.rm as int);
    let r = s.reg(op.rs as int);
    let n = s.reg(op.rn as int);
    let product = m.wrapping_mul(r);
    assert(product as int == (m * r) % 0x1_0000_0000);
    if op.a {
        vstd::arithmetic::div_mod::lemma_add_mod_noop(m * r, n as int, 0x1_0000_0000);
        crate::utils::word_arith::lemma_wrap(n as int);
        crate::utils::word_arith::lemma_wrap(product + n);
    }
    let res: u32 = if op.a { (product + n) as u32 } else { product };
    super::cpu::lemma_flags_read_back(s.cpu.cpsr, res, false, false);
}

/// Internal cycles of a multiply by `operand`: one more for each byte past the lowest that
/// is not all zeros or all ones, and one more when accumulating; plus one.
pub open spec fn multiply_cycles_spec(a: bool, operand: u32) -> u32 {
    let m: u32 = if (operand & 0xffffff00) == 0 || (operand & 0xffffff00 == 0xffffff00) {
        1
    } else if (operand & 0xffff0000) == 0 || (operand & 0xffff0000 == 0xffff0000) {
        2
    } else if (operand & 0xff000000) == 0 || (operand & 0xff000000 == 0xff000000) {
        3
    } else {
        4
    };
    (1 + m + if a { 1u32 } else { 0u32 }) as u32
}

impl MultiplyOp {
    pub open spec fn wf(self) -> bool {
        self.rd < 16 && self.rn < 16 && self.rs < 16 && self.rm < 16
    }

    pub fn count_cycles(&self, mult_operand: u32) -> (r: u32)
        ensures
            r == multiply_cycles_spec(self.a, mult_operand),
    {
        let mut m: u32 = if (mult_operand & 0xffffff00) == 0 || (mult_operand & 0xffffff00 == 0xffffff00) {
            1
        } else if (mult_operand & 0xffff0000) == 0 || (mult_operand & 0xffff0000 == 0xffff0000) {
            2
        } else if (mult_operand & 0xff000000) == 0 || (mult_operand & 0xff000000 == 0xff000000) {
            3
        } else {
            4
        };
        if self.a {
            m += 1;
        }
        1 + m
    }
}

impl Operation for MultiplyOp {
    /// The accumulation is a plain addition, which overflows on some operands.
    open spec fn runs_ok(&self, s: Machine) -> bool {
        self.wf() && (self.a ==> s.reg(self.rm as int).wrapping_mul(s.reg(self.rs as int))
            + s.reg(self.rn as int) <= u32::MAX)
    }

    /// Writes `rm * rs` (modulo 2^32), plus `rn` when accumulating, to `rd`; sets N and Z
    /// from it and clears C and V; takes `multiply_cycles_spec` cycles.
    open spec fn effect(&self, s: Machine) -> Machine {
        let product = s.reg(self.rm as int).wrapping_mul(s.reg(self.rs as int));
        let res: u32 = if self.a { (product + s.reg(self.rn as int)) as u32 } else { product };
        let c = s.cpu.set_reg(self.rd as int, res).with_flags(res, false, false);
        s.with_cpu(c.add_cycles(multiply_cycles_spec(self.a, s.reg(self.rs as int))))
    }

    fn run(&self, cpu: &mut CPU, _mem: &mut SystemMemory) {
        let rn_value = cpu.get_register(self.rn as usize);
        let rs_value = cpu.get_register(self.rs as usize);
        let rm_value = cpu.get_register(self.rm as usize);
        let mut res = rm_value.wrapping_mul(rs_value);
        if self.a {
            res += rn_value;
        }
        cpu.set_register(self.rd as usize, res);
        cpu.update_cpsr(res, false, false);
        cpu.add_cycles(self.count_cycles(rs_value));
    }
}

impl SingleDataSwapOp {
    pub open spec fn wf(self) -> bool {
        self.rn < 16 && self.rd < 16 && self.rm < 16
    }
}

impl Operation for SingleDataSwapOp {
    /// The word timing has no entry for cartridge RAM.
    open spec fn runs_ok(&self, s: Machine) -> bool {
        self.wf() && (!self.b ==> mem_type(s.reg(self.rn as int) as usize) != 0xe)
    }

    /// Loads the word at `rn` into `rd` when the read succeeds, then stores `rm` (read after
    /// that load) there as a byte or a word, ignoring a failed write; takes the access time
    /// plus 3 cycles.
    open spec fn effect(&self, s: Machine) -> Machine {
        let address = s.reg(self.rn as int) as usize;
        let s1 = match read_spec(s.mem, address) {
            Ok(n) => s.set_reg(self.rd as int, n),
            Err(_) => s,
        };
        let data = s1.reg(self.rm as int);
        let s2 = if self.b { s1.write(address, data, BYTE) } else { s1.write(address, data, WORD) };
        let cycles = if self.b { cycles_8_16_spec(address) } else { cycles_32_spec(address) };
        s2.add_cycles((cycles + 3) as u32)
    }

    fn run(&self, cpu: &mut CPU, mem: &mut SystemMemory) {
        let address = cpu.get_register(self.rn as usize) as usize;
        match mem.read_from_mem(address) {
            Ok(n) => cpu.set_register(self.rd as usize, n),
            Err(_) => {},
        }
        let data = cpu.get_register(self.rm as usize);
        let cycles = if self.b {
            let _ = mem.write_byte(address, data);
            read_cycles_per_8_16(address)
        } else {
            let _ = mem.write_word(address, data);
            read_cycles_per_32(address)
        };
        cpu.add_cycles(cycles + 3);
    }
}

impl Operation for BranchExchangeOp {
    /// The new PC is the target plus 2 or 4, an addition that can overflow.
    open spec fn runs_ok(&self, s: Machine) -> bool {
        self.rn < 16 && (s.reg(self.rn as int) & !1u32) + 4 <= u32::MAX
    }

    /// Enters Thumb state when bit 0 of `rn` is set and ARM state otherwise, fetches the
    /// instruction at the target with bit 0 cleared (0 if the read fails), and sets the PC
    /// one instruction past it; takes 3 cycles.
    open spec fn effect(&self, s: Machine) -> Machine {
        let target = s.reg(self.rn as int);
        let thumb = target & 1 == 1;
        let addr = target & !1u32;
        let c1 = s.cpu.with_cpsr(super::cpu::cpsr_with_thumb(s.cpu.cpsr, thumb));
        let decode = if thumb {
            match read_spec(s.mem, addr as usize) {
                Ok(w) => halfword_of(w, addr as usize),
                Err(_) => 0,
            }
        } else {
            read_or_zero(s.mem, addr as usize)
        };
        let c2 = c1.with_decode(decode, addr as usize);
        let pc: u32 = if thumb { (addr + 2) as u32 } else { (addr + 4) as u32 };
        s.with_cpu(c2.set_reg(15, pc).add_cycles(3))
    }

    fn run(&self, cpu: &mut CPU, mem: &mut SystemMemory) {
        let mut addr = cpu.get_register(self.rn as usize);
        cpu.update_thumb(addr & 1 == 1);
        addr &= !1;
        cpu.decode = if cpu.is_thumb_mode() {
            match mem.read_halfword(addr as usize) {
                Ok(n) => n,
                Err(_) => 0,
            }
        } else {
            match mem.read_word(addr as usize) {
                Ok(n) => n,
                Err(_) => 0,
            }
        };
        cpu.inst_addr = addr as usize;
        if cpu.cpsr & super::CPSR_T == super::CPSR_T {
            cpu.set_register(PC, addr + 2);
        } else {
            cpu.set_register(PC, addr + 4);
        }
        cpu.add_cycles(3);
    }
}

impl Operation for BranchOp {
    /// Linking subtracts 4 from the PC and the new PC adds 4 to the target; either can
    /// overflow.
    open spec fn runs_ok(&self, s: Machine) -> bool {
        let addr = s.reg(15).wrapping_add(branch_offset_spec(self.offset));
        (self.l ==> s.reg(15) >= 4) && addr + 4 <= u32::MAX
    }

    /// Branches to the PC plus the sign-extended offset (modulo 2^32), first saving the PC
    /// minus 4 in LR when linking; fetches the word at the target (0 if the read fails) and
    /// sets the PC 4 past it; takes 3 cycles.
    open spec fn effect(&self, s: Machine) -> Machine {
        let addr = s.reg(15).wrapping_add(branch_offset_spec(self.offset));
        let s1 = if self.l { s.set_reg(14, (s.reg(15) - 4) as u32) } else { s };
        let c = s1.cpu.with_decode(read_or_zero(s.mem, addr as usize), addr as usize);
        s1.with_cpu(c.set_reg(15, (addr + 4) as u32).add_cycles(3))
    }

    fn run(&self, cpu: &mut CPU, mem: &mut SystemMemory) {
        let offset = self.get_offset();
        let addr = cpu.get_register(PC).wrapping_add(offset);
        if self.l {
            let link = cpu.get_register(PC) - 4;
            cpu.set_register(LR, link);
        }
        cpu.decode = match mem.read_from_mem(addr as usize) {
            Ok(n) => n,
            Err(_) => 0,
        };
        cpu.inst_addr = addr as usize;
        cpu.set_register(PC, addr + 4);
        cpu.add_cycles(3);
    }
}


/// Where a branch goes: with `pc` the value of the PC and `off` the 24-bit field times four,
/// negative when bit 23 of the field is set, the target is `pc + off` modulo 2^32 and the
/// PC is left four past it; a branch with link leaves `pc - 4` in LR, one without leaves LR.
pub proof fn law_branch_target(op: BranchOp, s: Machine)
    requires
        s.valid(),
        view_wf(s.cpu),
        op.runs_ok(s),
        op.offset < 0x1000000,
    ensures
        ({
            let pc = s.reg(15) as int;
            let off: int = if op.offset < 0x800000 {
                4 * op.offset
            } else {
                4 * op.offset - 0x400_0000
            };
            let t = op.effect(s).cpu;
            &&& t.reg(15) as int == (pc + off) % 0x1_0000_0000 + 4
            &&& op.l ==> t.reg(14) as int == pc - 4
            &&& !op.l ==> t.reg(14) == s.reg(14)
        }),
{
    lemma_branch_offset_value(op.offset);
    let pc = s.reg(15);
    let o = branch_offset_spec(op.offset);
    let addr = pc.wrapping_add(o);
    assert(addr as int == (pc + o) % 0x1_0000_0000);
    let off: int = if op.offset < 0x800000 { 4 * op.offset } else { 4 * op.offset - 0x400_0000 };
    crate::utils::word_arith::lemma_wrap(pc + o);
    crate::utils::word_arith::lemma_wrap(pc + off);
}

/// The address after adding (`u`) or subtracting an offset.
pub open spec fn offset_address(base: u32, offset: u32, u: bool) -> u32 {
    if u {
        (base + offset) as u32
    } else {
        (base - offset) as u32
    }
}

/// Whether adding or subtracting the offset stays within 32 bits.
pub open spec fn offset_fits(base: u32, offset: u32, u: bool) -> bool {
    if u {
        base + offset <= u32::MAX
    } else {
        base >= offset
    }
}

impl SingleDataTfx {
    pub open spec fn wf(self) -> bool {
        self.rn < 16 && self.rd < 16
    }

    /// The offset: the 12-bit immediate, or when `i` is set the register in its low four
    /// bits shifted left by bits 4..11.
    pub open spec fn offset_spec(self, c: CpuView) -> u32 {
        if self.i {
            c.reg(((self.offset as u32) & 0xf) as int) << (((self.offset as u32) >> 4u32) & 0xff)
        } else {
            self.offset as u32
        }
    }

    /// The offset is shifted with `<<`, so shifts of 32 or more are not accepted.
    pub fn get_offset(&self, cpu: &CPU) -> (r: u32)
        requires
            cpu@.valid(),
            self.i ==> ((self.offset as u32) >> 4u32) & 0xff < 32,
        ensures
            r == self.offset_spec(cpu@),
    {
        if self.i {
            let off = self.offset as u32;
            let shift = (off >> 4) & 0xff;
            proof {
                crate::utils::lemma_word_fields(off, 0);
            }
            let rm = (off & 0xf) as usize;
            cpu.get_register(rm) << shift
        } else {
            self.offset as u32
        }
    }

    /// The transfer address after the pre-index step.
    pub open spec fn address_spec(self, s: Machine) -> u32 {
        let base = s.reg(self.rn as int);
        if self.p {
            offset_address(base, self.offset_spec(s.cpu), self.u)
        } else {
            base
        }
    }
}

/// Where a single data transfer goes and what it leaves. The offset is the 12-bit immediate,
/// or with `i` the register named by its low four bits times 2 to the power of bits 4..11,
/// modulo 2^32. Pre-indexing (`p`) transfers at the base plus (`u`) or minus the offset and
/// writes that address back to `rn` when `w` is set; post-indexing transfers at the base and
/// leaves the base plus or minus the offset in `rn`. A load puts the byte at the address, or
/// the word, in `rd` (unless post-indexing writes `rd` back as the base).
pub proof fn law_single_transfer(op: SingleDataTfx, s: Machine)
    requires
        s.valid(),
        view_wf(s.cpu),
        op.runs_ok(s),
    ensures
        ({
            let base = s.reg(op.rn as int) as int;
            let k = ((op.offset as u32) >> 4u32) & 0xff;
            let off: int = if op.i {
                (s.reg(((op.offset as u32) & 0xf) as int) * vstd::arithmetic::power2::pow2(
                    k as nat,
                )) % 0x1_0000_0000
            } else {
                op.offset as int
            };
            let moved: int = if op.u { base + off } else { base - off };
            let addr: int = if op.p { moved } else { base };
            let t = op.effect(s).cpu;
            let word = read_spec(s.mem, addr as usize)->Ok_0;
            &&& op.offset_spec(s.cpu) as int == off
            &&& op.address_spec(s) as int == addr
            &&& op.l && (op.p || op.rd != op.rn) ==> t.reg(op.rd as int) == if op.b {
                (word >> (8 * (addr % 4)) as u32) % 0x100
            } else {
                word
            }
            &&& !op.p ==> t.reg(op.rn as int) as int == if op.u { addr + off } else { addr - off }
            &&& op.p && op.w && !(op.l && op.rd == op.rn) ==> t.reg(op.rn as int) as int == addr
            &&& op.p && !op.w && !(op.l && op.rd == op.rn) ==> t.reg(op.rn as int) as int == base
        }),
{
    if op.i {
        let x = s.reg(((op.offset as u32) & 0xf) as int);
        let k = ((op.offset as u32) >> 4u32) & 0xff;
        if k == 0 {
            vstd::arithmetic::power2::lemma2_to64();
            vstd::bits::lemma_u32_shl_is_mul(x, 0);
            crate::utils::word_arith::lemma_wrap(x as int);
        } else {
            crate::utils::shifter::law_logical_shift_left(false, x, k);
        }
    }
    let a = op.address_spec(s) as usize;
    let w = read_spec(s.mem, a)->Ok_0;
    crate::utils::word_arith::lemma_byte_lane(w, a);
    super::system::lemma_address_bits(a);
}

impl Operation for SingleDataTfx {
    /// The offset shift must stay below 32, indexing must not overflow, a load must read,
    /// and a word access must avoid cartridge RAM, which has no word timing.
    open spec fn runs_ok(&self, s: Machine) -> bool {
        let base = s.reg(self.rn as int);
        let off = self.offset_spec(s.cpu);
        let addr = self.address_spec(s);
        &&& self.wf()
        &&& self.i ==> ((self.offset as u32) >> 4u32) & 0xff < 32
        &&& self.p ==> offset_fits(base, off, self.u)
        &&& !self.p ==> offset_fits(addr, off, self.u)
        &&& !self.b ==> mem_type(addr as usize) != 0xe
        &&& self.l ==> read_spec(s.mem, addr as usize) is Ok
    }

    /// Pre-indexes (writing the address back when `w` is set), loads a byte or word into
    /// `rd` or stores `rd` as a byte or word (a failed store is ignored), then post-indexes
    /// into `rn`. A load takes the access time plus 2 cycles, 4 when loading the PC; a store
    /// takes it plus 1.
    open spec fn effect(&self, s: Machine) -> Machine {
        let off = self.offset_spec(s.cpu);
        let addr = self.address_spec(s);
        let a = addr as usize;
        let s1 = if self.p && self.w { s.set_reg(self.rn as int, addr) } else { s };
        let cycles = if self.b { cycles_8_16_spec(a) } else { cycles_32_spec(a) };
        let s2 = if self.l {
            let word = read_spec(s.mem, a)->Ok_0;
            let res = if self.b { super::system::byte_of(word, a) } else { word };
            let extra: u32 = if self.rd == 15 { 4 } else { 2 };
            s1.set_reg(self.rd as int, res).add_cycles((cycles + extra) as u32)
        } else {
            let v = s1.reg(self.rd as int);
            let s3 = if self.b { s1.write(a, v, BYTE) } else { s1.write(a, v, WORD) };
            s3.add_cycles((cycles + 1) as u32)
        };
        if !self.p {
            s2.set_reg(self.rn as int, offset_address(addr, off, self.u))
        } else {
            s2
        }
    }

    fn run(&self, cpu: &mut CPU, mem: &mut SystemMemory) {
        let offset = self.get_offset(cpu);
        let mut tfx_add = cpu.get_register(self.rn as usize);
        if self.p {
            if self.u {
                tfx_add += offset;
            } else {
                tfx_add -= offset;
            }
            if self.w {
                cpu.set_register(self.rn as usize, tfx_add);
            }
        }
        let mut cycles: u32 = 0;
        if self.l {
            let data_block = if self.b {
                cycles += read_cycles_per_8_16(tfx_add as usize);
                mem.read_byte(tfx_add as usize)
            } else {
                cycles += read_cycles_per_32(tfx_add as usize);
                mem.read_word(tfx_add as usize)
            };
            let res = match data_block {
                Ok(n) => n,
                Err(_) => 0,
            };
            cpu.set_register(self.rd as usize, res);
            if self.rd as usize == PC {
                cpu.add_cycles(cycles + 4);
            } else {
                cpu.add_cycles(cycles + 2);
            }
        } else {
            let value = cpu.get_register(self.rd as usize);
            if self.b {
                cycles += read_cycles_per_8_16(tfx_add as usize);
                let _ = mem.write_byte(tfx_add as usize, value);
            } else {
                cycles += read_cycles_per_32(tfx_add as usize);
                let _ = mem.write_word(tfx_add as usize, value);
            };
            cpu.add_cycles(cycles + 1);
        }
        if !self.p {
            if self.u {
                tfx_add += offset;
            } else {
                tfx_add -= offset;
            }
            cpu.set_register(self.rn as usize, tfx_add);
        }
    }
}

impl Operation for PsrTransferOp {
    open spec fn runs_ok(&self, s: Machine) -> bool {
        self.rd < 16 && self.rm < 16 && self.rotate < 16
    }

    /// MSR writes the operand into the status word, or into the saved status word when `p`
    /// is set, only in its flag bits when `bit_flags_only` is set; MRS copies the status
    /// word or the saved one into `rd`. Takes 1 cycle.
    open spec fn effect(&self, s: Machine) -> Machine {
        let c = s.cpu;
        let c1 = match self.op {
            PsrTransferType::MSR => {
                let operand = self.operand_spec(c);
                let mask: u32 = if self.bit_flags_only { 0xf0000000 } else { 0xffffffff };
                if !self.p {
                    c.with_cpsr((c.cpsr & !mask) | (operand & mask))
                } else {
                    c.set_psr_value(c.psr_value() & !mask | (operand & mask))
                }
            },
            PsrTransferType::MRS => {
                if !self.p {
                    c.set_reg(self.rd as int, c.cpsr)
                } else {
                    c.set_reg(self.rd as int, c.psr_value())
                }
            },
        };
        s.with_cpu(c1.add_cycles(1))
    }

    fn run(&self, cpu: &mut CPU, _mem: &mut SystemMemory) {
        match self.op {
            PsrTransferType::MSR => {
                let operand = self.get_operand(cpu);
                let mask: u32 = if self.is_bit_flag_only() {
                    0xf0000000
                } else {
                    0xffffffff
                };
                if self.is_cspr() {
                    cpu.cpsr = (cpu.cpsr & !mask) | (operand & mask)
                } else {
                    let psr = cpu.get_psr();
                    cpu.set_psr(psr & !mask | (operand & mask))
                }
            },
            PsrTransferType::MRS => {
                if self.is_cspr() {
                    let cpsr = cpu.cpsr;
                    cpu.set_register(self.rd as usize, cpsr);
                } else {
                    let psr = cpu.get_psr();
                    cpu.set_register(self.rd as usize, psr);
                }
            },
        }
        cpu.add_cycles(1)
    }
}

impl HalfwordRegOffset {
    pub open spec fn wf(self) -> bool {
        self.rn < 16 && self.rd < 16 && self.rm < 16
    }

    pub open spec fn address_spec(self, s: Machine) -> u32 {
        let base = s.reg(self.rn as int);
        if self.p {
            offset_address(base, s.reg(self.rm as int), self.u)
        } else {
            base
        }
    }
}

/// The value a load through a register offset puts in the register: the sign-extended low
/// byte (SH = 01), 0 for the unsigned halfword form (SH = 10), or the sign-extended low
/// halfword (SH = 11).
pub open spec fn reg_offset_load_value(h: bool, res: u32) -> u32 {
    if !h {
        super::super::memory::sign_extend8(res)
    } else {
        0
    }
}

impl Operation for HalfwordRegOffset {
    /// Indexing must not overflow, and a load must not be the byte form (SH = 00).
    open spec fn runs_ok(&self, s: Machine) -> bool {
        let base = s.reg(self.rn as int);
        let off = s.reg(self.rm as int);
        let addr = self.address_spec(s);
        &&& self.wf()
        &&& self.p ==> offset_fits(base, off, self.u)
        &&& !self.p ==> offset_fits(addr, off, self.u)
        &&& self.l ==> (self.h || self.s)
    }

    /// Pre-indexes by `rm` (with write-back when `w` is set); a load takes the halfword
    /// access time plus 3 cycles and puts in `rd` the sign-extended byte, 0 for an unsigned
    /// halfword, or the sign-extended halfword of the word read (0 when the read fails); a
    /// store takes the access time plus 1 and writes `rd` as a halfword. Then post-indexes
    /// into `rn`.
    open spec fn effect(&self, s: Machine) -> Machine {
        let off = s.reg(self.rm as int);
        let addr = self.address_spec(s);
        let a = addr as usize;
        let s1 = if self.p && self.w { s.set_reg(self.rn as int, addr) } else { s };
        let cycles = cycles_8_16_spec(a);
        let s2 = if self.l {
            let res = read_or_zero(s.mem, a);
            let value = if self.h && self.s {
                super::super::memory::sign_extend16(res)
            } else {
                reg_offset_load_value(self.h, res)
            };
            s1.add_cycles((cycles + 3) as u32).set_reg(self.rd as int, value)
        } else {
            s1.add_cycles((cycles + 1) as u32).write(a, s1.reg(self.rd as int), HALFWORD)
        };
        if !self.p {
            s2.set_reg(self.rn as int, offset_address(addr, off, self.u))
        } else {
            s2
        }
    }

    fn run(&self, cpu: &mut CPU, mem: &mut SystemMemory) {
        let offset = cpu.get_register(self.rm as usize);
        let mut address = cpu.get_register(self.rn as usize);
        if self.p {
            if self.u {
                address += offset;
            } else {
                address -= offset;
            }
            if self.w {
                cpu.set_register(self.rn as usize, address);
            }
        }
        let cycles_per_entry = read_cycles_per_8_16(address as usize);
        if self.l {
            cpu.add_cycles(cycles_per_entry + 3);
            let res = match mem.read_from_mem(address as usize) {
                Ok(n) => n,
                Err(_) => 0,
            };
            let value: u32 = if !self.h {
                if res & 0x80 == 0x80 {
                    res | 0xffffff00
                } else {
                    res & 0xff
                }
            } else if !self.s {
                0
            } else {
                if res & 0x8000 == 0x8000 {
                    res | 0xffff0000
                } else {
                    res & 0xffff
                }
            };
            cpu.set_register(self.rd as usize, value);
        } else {
            cpu.add_cycles(cycles_per_entry + 1);
            let value = cpu.get_register(self.rd as usize);
            let _ = mem.write_halfword(address as usize, value);
        }
        if !self.p {
            if self.u {
                address += offset;
            } else {
                address -= offset;
            }
            cpu.set_register(self.rn as usize, address);
        }
    }
}

/// The value a halfword or signed-byte load puts in the register, from the whole word read:
/// sign-extended low byte, low halfword, or sign-extended low halfword.
pub open spec fn halfword_load_value(h: bool, s: bool, res: u32) -> u32 {
    if !h {
        super::super::memory::sign_extend8(res)
    } else if !s {
        res & 0xffff
    } else {
        super::super::memory::sign_extend16(res)
    }
}

impl HalfwordDataOp {
    pub open spec fn wf(self) -> bool {
        self.rn < 16 && self.rd < 16 && match self.mode {
            AddressingMode3::Reg(m) => m < 16,
            AddressingMode3::Imm(_) => true,
        }
    }

    pub open spec fn offset_spec(self, c: CpuView) -> u32 {
        match self.mode {
            AddressingMode3::Reg(m) => c.reg(m as int),
            AddressingMode3::Imm(b) => b as u32,
        }
    }

    pub open spec fn address_spec(self, s: Machine) -> u32 {
        let base = s.reg(self.rn as int);
        if self.p {
            offset_address(base, self.offset_spec(s.cpu), self.u)
        } else {
            base
        }
    }
}

/// Where a halfword or signed transfer goes and what a load leaves. The offset is the 8-bit
/// immediate or the value of the offset register; pre-indexing (`p`) transfers at the base
/// plus (`u`) or minus the offset, writing that address back when `w` is set; post-indexing
/// transfers at the base and leaves the base plus or minus the offset in `rn`. A load takes
/// the word there (0 when it cannot be read) and puts in `rd` its low halfword (`h`), its low
/// halfword as a signed number (`h` and `s`) or its low byte as a signed number, each signed
/// value sign-extended to 32 bits (unless post-indexing writes `rd` back as the base).
pub proof fn law_halfword_transfer(op: HalfwordDataOp, s: Machine)
    requires
        s.valid(),
        view_wf(s.cpu),
        op.runs_ok(s),
    ensures
        ({
            let base = s.reg(op.rn as int) as int;
            let off: int = match op.mode {
                AddressingMode3::Reg(m) => s.reg(m as int) as int,
                AddressingMode3::Imm(b) => b as int,
            };
            let moved: int = if op.u { base + off } else { base - off };
            let addr: int = if op.p { moved } else { base };
            let w = read_or_zero(s.mem, addr as usize) as int;
            let lo8 = w % 0x100;
            let lo16 = w % 0x1_0000;
            let loaded: int = if !op.h {
                if lo8 >= 0x80 { lo8 + 0xffff_ff00 } else { lo8 }
            } else if !op.s {
                lo16
            } else {
                if lo16 >= 0x8000 { lo16 + 0xffff_0000 } else { lo16 }
            };
            let t = op.effect(s).cpu;
            &&& op.address_spec(s) as int == addr
            &&& op.l && (op.p || op.rd != op.rn) ==> t.reg(op.rd as int) as int == loaded
            &&& !op.p ==> t.reg(op.rn as int) as int == if op.u { addr + off } else { addr - off }
            &&& op.p && op.w && !(op.l && op.rd == op.rn) ==> t.reg(op.rn as int) as int == addr
            &&& op.p && !op.w && !(op.l && op.rd == op.rn) ==> t.reg(op.rn as int) as int == base
        }),
{
    let a = op.address_spec(s) as usize;
    let w = read_or_zero(s.mem, a);
    assert((w & 0xffff) as int == w % 0x1_0000 && (w & 0xff) as int == w % 0x100 && (w & 0x80
        == 0x80) == (w % 0x100 >= 0x80) && (w & 0x8000 == 0x8000) == (w % 0x1_0000 >= 0x8000) && (
    w & 0x80 == 0x80 ==> (w | 0xffffff00) as int == w % 0x100 + 0xffff_ff00) && (w & 0x8000
        == 0x8000 ==> (w | 0xffff0000) as int == w % 0x1_0000 + 0xffff_0000)) by (bit_vector);
}

impl Operation for HalfwordDataOp {
    /// Indexing must not overflow; a load must not be the byte form (SH = 00) and a store
    /// must be the unsigned halfword form, the only forms handled.
    open spec fn runs_ok(&self, s: Machine) -> bool {
        let base = s.reg(self.rn as int);
        let off = self.offset_spec(s.cpu);
        let addr = self.address_spec(s);
        &&& self.wf()
        &&& self.p ==> offset_fits(base, off, self.u)
        &&& !self.p ==> offset_fits(addr, off, self.u)
        &&& self.l ==> (self.h || self.s)
        &&& !self.l ==> (self.h && !self.s)
    }

    /// Pre-indexes (with write-back when `w` is set), loads the word at the address and puts
    /// `halfword_load_value` of it in `rd` (0 when the read fails), or stores `rd` as a
    /// halfword; then post-indexes into `rn`. Cycles: the halfword access time plus 2 for a
    /// load (4 into the PC), plus 1 for a store.
    open spec fn effect(&self, s: Machine) -> Machine {
        let off = self.offset_spec(s.cpu);
        let addr = self.address_spec(s);
        let a = addr as usize;
        let s1 = if self.p && self.w { s.set_reg(self.rn as int, addr) } else { s };
        let cycles = cycles_8_16_spec(a);
        let s2 = if self.l {
            let value = halfword_load_value(self.h, self.s, read_or_zero(s.mem, a));
            let extra: u32 = if self.rd == 15 { 4 } else { 2 };
            s1.set_reg(self.rd as int, value).add_cycles((cycles + extra) as u32)
        } else {
            s1.write(a, s1.reg(self.rd as int), HALFWORD).add_cycles((cycles + 1) as u32)
        };
        if !self.p {
            s2.set_reg(self.rn as int, offset_address(addr, off, self.u))
        } else {
            s2
        }
    }

    fn run(&self, cpu: &mut CPU, mem: &mut SystemMemory) {
        let offset = match self.mode {
            AddressingMode3::Reg(m) => cpu.get_register(m as usize),
            AddressingMode3::Imm(byte_offset) => byte_offset as u32,
        };
        let mut address = cpu.get_register(self.rn as usize);
        if self.p {
            if self.u {
                address += offset;
            } else {
                address -= offset;
            }
            if self.w {
                cpu.set_register(self.rn as usize, address);
            }
        }
        let cycles_per_entry = read_cycles_per_8_16(address as usize);
        if self.l {
            let res = match mem.read_from_mem(address as usize) {
                Ok(n) => n,
                Err(_) => 0,
            };
            let value: u32 = if !self.h {
                if res & 0x80 == 0x80 {
                    res | 0xffffff00
                } else {
                    res & 0xff
                }
            } else if !self.s {
                res & 0xffff
            } else {
                if res & 0x8000 == 0x8000 {
                    res | 0xffff0000
                } else {
                    res & 0xffff
                }
            };
            cpu.set_register(self.rd as usize, value);
            if self.rd as usize == PC {
                cpu.add_cycles(cycles_per_entry + 4);
            } else {
                cpu.add_cycles(cycles_per_entry + 2);
            }
        } else {
            let value = cpu.get_register(self.rd as usize);
            let _ = mem.write_halfword(address as usize, value);
            cpu.add_cycles(cycles_per_entry + 1);
        }
        if !self.p {
            if self.u {
                address += offset;
            } else {
                address -= offset;
            }
            cpu.set_register(self.rn as usize, address);
        }
    }
}


impl BlockDataTransfer {
    /// The registers the transfer names, in increasing order.
    pub open spec fn registers(self) -> Seq<u32> {
        set_bits_below(self.register_list as u32, 31)
    }

    /// The address after `k` write-back steps from `a`.
    pub open spec fn stepped(self, a: int, k: int) -> int {
        if self.u {
            a + 4 * k
        } else {
            a - 4 * k
        }
    }

    /// One transfer: the pre-index step with write-back of the address, the load into or the
    /// store from the register, in increasing order when `u` is set and decreasing otherwise,
    /// and the post-index step with write-back. The address moves only when `w` is set.
    pub open spec fn step(self, regs: Seq<u32>, i: int, s: Machine, a: int) -> (Machine, int) {
        let a1 = if self.p && self.w { self.stepped(a, 1) } else { a };
        let s1 = if self.p && self.w { s.set_reg(self.rn as int, a1 as u32) } else { s };
        let r = if !self.u { regs.len() - i - 1 } else { i };
        let s2 = if self.l {
            s1.set_reg(regs[r] as int, read_or_zero(s1.mem, a1 as usize))
        } else {
            s1.write(a1 as usize, s1.reg(regs[r] as int), WORD)
        };
        let a2 = if !self.p && self.w { self.stepped(a1, 1) } else { a1 };
        let s3 = if !self.p && self.w { s2.set_reg(self.rn as int, a2 as u32) } else { s2 };
        (s3, a2)
    }

    /// The state and address after the first `k` transfers.
    pub open spec fn steps(self, regs: Seq<u32>, k: nat, s: Machine, a: int) -> (Machine, int)
        decreases k,
    {
        if k == 0 {
            (s, a)
        } else {
            let (s1, a1) = self.steps(regs, (k - 1) as nat, s, a);
            self.step(regs, k - 1, s1, a1)
        }
    }

    /// The address after all transfers.
    pub open spec fn final_address(self, s: Machine) -> int {
        let a0 = s.reg(self.rn as int) as int;
        if self.w {
            self.stepped(a0, self.registers().len() as int)
        } else {
            a0
        }
    }
}

/// A write keeps the number of regions.
pub proof fn lemma_write_keeps_regions(m: Seq<Seq<u32>>, address: usize, block: u32, mask: u32)
    requires
        m.len() == super::system::REGIONS,
    ensures
        write_or_keep(m, address, block, mask).len() == super::system::REGIONS,
{
}

impl Operation for BlockDataTransfer {
    /// The written-back address must stay within the address space, and the final address
    /// must not be in cartridge RAM, which has no word timing.
    open spec fn runs_ok(&self, s: Machine) -> bool {
        let a0 = s.reg(self.rn as int) as int;
        let a = self.final_address(s);
        &&& self.rn < 16
        &&& 0 <= a <= usize::MAX
        &&& mem_type(a as usize) != 0xe
    }

    /// Runs every transfer, then takes the block timing of the final address.
    open spec fn effect(&self, s: Machine) -> Machine {
        let regs = self.registers();
        let (s1, a) = self.steps(regs, regs.len(), s, s.reg(self.rn as int) as int);
        let cycles = stm_ldm_cycles_spec(cycles_32_spec(a as usize), regs.len() as u32, self.l, regs.contains(15));
        s1.add_cycles(cycles as u32)
    }

    fn run(&self, cpu: &mut CPU, mem: &mut SystemMemory) {
        let ghost s0 = machine(cpu, mem);
        let mut address = cpu.get_register(self.rn as usize) as usize;
        let ghost a0 = address as int;
        let registers = bit_map_to_array(self.register_list as u32);
        proof {
            lemma_register_list(self.register_list as u32);
        }
        let n = registers.len();
        let mut i: usize = 0;
        while i < n
            invariant
                n == registers.len(),
                registers@ == self.registers(),
                i <= n,
                n <= 16,
                forall|j: int| 0 <= j < n ==> #[trigger] registers@[j] < 16,
                self.rn < 16,
                self.runs_ok(s0),
                a0 == s0.reg(self.rn as int) as int,
                machine(cpu, mem).valid(),
                (machine(cpu, mem), address as int) == self.steps(registers@, i as nat, s0, a0),
                address as int == if self.w { self.stepped(a0, i as int) } else { a0 },
            decreases n - i,
        {
            let ghost before = machine(cpu, mem);
            let ghost before_a = address as int;
            if self.p && self.w {
                if self.u {
                    address += 4
                } else {
                    address -= 4
                }
                cpu.set_register(self.rn as usize, address as u32);
            }
            let reg = if !self.u {
                n - i - 1
            } else {
                i
            };
            if self.l {
                let res = match mem.read_from_mem(address) {
                    Ok(b) => b,
                    Err(_) => 0,
                };
                cpu.set_register(registers[reg] as usize, res);
            } else {
                let value = cpu.get_register(registers[reg] as usize);
                let _ = mem.write_word(address, value);
                proof {
                    lemma_write_keeps_regions(before.mem, address, value, WORD);
                }
            }
            if !self.p && self.w {
                if self.u {
                    address += 4
                } else {
                    address -= 4
                }
                cpu.set_register(self.rn as usize, address as u32);
            }
            assert((machine(cpu, mem), address as int) == self.step(registers@, i as int, before, before_a));
            i += 1;
        }
        let entries = n as u32;
        let cycles_per_entry = read_cycles_per_32(address);
        let is_pc = contains_u32(&registers, PC as u32);
        assert(cycles_per_entry * entries + 4 <= u32::MAX) by (nonlinear_arith)
            requires cycles_per_entry <= 8, entries <= 16;
        let cycles = calc_cycles_for_stm_ldm(cycles_per_entry, entries, self.l, is_pc);
        cpu.add_cycles(cycles);
    }
}


/// An encoding that no ARM instruction class matches; this emulator does not run it.
#[derive(Debug, PartialEq, Eq, Structural, Clone, Copy)]
pub struct UndefinedInstruction;

/// A software interrupt; this emulator does not run it.
#[derive(Debug, PartialEq, Eq, Structural, Clone, Copy)]
pub struct SoftwareInterruptOp;

/// A decoded ARM instruction.
#[derive(Debug, PartialEq, Eq, Structural, Clone, Copy)]
pub enum ArmOperation {
    Multiply(MultiplyOp),
    MultiplyLong(MultiplyLongOp),
    SingleDataSwap(SingleDataSwapOp),
    BranchExchange(BranchExchangeOp),
    Branch(BranchOp),
    SoftwareInterrupt(SoftwareInterruptOp),
    SingleDataTransfer(SingleDataTfx),
    BlockDataTransfer(BlockDataTransfer),
    CoprocessorDataOp(CoprocessDataOp),
    CoprocessorDataTransfer(CoprocessDataTfx),
    CoprocessorRegTransfer(CoprocessRegTfx),
    PsrTransfer(PsrTransferOp),
    HalfwordData(HalfwordDataOp),
    DataProcessing(DataProcessingOp),
    Undefined(UndefinedInstruction),
}

/// The ARM instruction an encoding decodes to: the instruction classes are tried in a fixed
/// order and the first that matches wins.
pub open spec fn decode_arm_spec(inst: u32) -> ArmOperation {
    if inst & 0x0fc000f0 == 0x00000090 {
        ArmOperation::Multiply(MultiplyOp::decoded(inst))
    } else if inst & 0x0fc000f0 == 0x00800090 {
        ArmOperation::MultiplyLong(MultiplyLongOp::decoded(inst))
    } else if inst & 0x0fb00ff0 == 0x01000090 {
        ArmOperation::SingleDataSwap(SingleDataSwapOp::decoded(inst))
    } else if inst & 0x0ffffff0 == 0x012fff10 {
        ArmOperation::BranchExchange(BranchExchangeOp::decoded(inst))
    } else if inst & 0x0e000000 == 0x0a000000 {
        ArmOperation::Branch(BranchOp::decoded(inst))
    } else if inst & 0x0f000000 == 0x0f000000 {
        ArmOperation::SoftwareInterrupt(SoftwareInterruptOp)
    } else if inst & 0x0c000000 == 0x04000000 {
        ArmOperation::SingleDataTransfer(SingleDataTfx::decoded(inst))
    } else if inst & 0x0e000000 == 0x08000000 {
        ArmOperation::BlockDataTransfer(BlockDataTransfer::decoded(inst))
    } else if inst & 0x0f000010 == 0x0c000000 {
        ArmOperation::CoprocessorDataOp(CoprocessDataOp::decoded(inst))
    } else if inst & 0x0e000000 == 0x0c000000 {
        ArmOperation::CoprocessorDataTransfer(CoprocessDataTfx::decoded(inst))
    } else if inst & 0x0f000010 == 0x0c000010 {
        ArmOperation::CoprocessorRegTransfer(CoprocessRegTfx::decoded(inst))
    } else if is_psr_transfer_spec(inst) {
        ArmOperation::PsrTransfer(PsrTransferOp::decoded(inst))
    } else if inst & 0x0e400090 == 0x00400090 || inst & 0x0e400f90 == 0x00000090 {
        ArmOperation::HalfwordData(HalfwordDataOp::decoded(inst))
    } else if inst & 0x0c000000 == 0x00000000 {
        ArmOperation::DataProcessing(DataProcessingOp::decoded(inst))
    } else {
        ArmOperation::Undefined(UndefinedInstruction)
    }
}

/// Decodes an ARM instruction; every encoding decodes.
pub fn decode_as_arm(inst: u32) -> (r: Result<ArmOperation, InstructionDecodeError>)
    ensures
        r == Ok::<ArmOperation, InstructionDecodeError>(decode_arm_spec(inst)),
{
    if is_multiply(inst) {
        Ok(ArmOperation::Multiply(MultiplyOp::from(inst)))
    } else if is_multiply_long(inst) {
        Ok(ArmOperation::MultiplyLong(MultiplyLongOp::from(inst)))
    } else if is_single_data_swap(inst) {
        Ok(ArmOperation::SingleDataSwap(SingleDataSwapOp::from(inst)))
    } else if is_branch_and_exchange(inst) {
        Ok(ArmOperation::BranchExchange(BranchExchangeOp::from(inst)))
    } else if is_branch(inst) {
        Ok(ArmOperation::Branch(BranchOp::from(inst)))
    } else if is_software_interrupt(inst) {
        Ok(ArmOperation::SoftwareInterrupt(SoftwareInterruptOp))
    } else if is_single_data_tfx(inst) {
        Ok(ArmOperation::SingleDataTransfer(SingleDataTfx::from(inst)))
    } else if is_block_data_tfx(inst) {
        Ok(ArmOperation::BlockDataTransfer(BlockDataTransfer::from(inst)))
    } else if is_coprocessor_data_op(inst) {
        Ok(ArmOperation::CoprocessorDataOp(CoprocessDataOp::from(inst)))
    } else if is_coprocessor_data_tfx(inst) {
        Ok(ArmOperation::CoprocessorDataTransfer(CoprocessDataTfx::from(inst)))
    } else if is_coprocessor_reg_tfx(inst) {
        Ok(ArmOperation::CoprocessorRegTransfer(CoprocessRegTfx::from(inst)))
    } else if is_psr_transfer(inst) {
        Ok(ArmOperation::PsrTransfer(PsrTransferOp::from(inst)))
    } else if is_halfword_data_tfx_imm(inst) || is_halfword_data_tfx_reg(inst) {
        Ok(ArmOperation::HalfwordData(HalfwordDataOp::from(inst)))
    } else if is_data_processing(inst) {
        Ok(ArmOperation::DataProcessing(DataProcessingOp::from(inst)))
    } else {
        Ok(ArmOperation::Undefined(UndefinedInstruction))
    }
}

impl Operation for ArmOperation {
    /// Long multiplies, software interrupts, coprocessor instructions and undefined
    /// encodings are not implemented and cannot run; the others run as their
    /// operation says.
    open spec fn runs_ok(&self, s: Machine) -> bool {
        match *self {
            ArmOperation::Multiply(op) => op.runs_ok(s),
            ArmOperation::SingleDataSwap(op) => op.runs_ok(s),
            ArmOperation::BranchExchange(op) => op.runs_ok(s),
            ArmOperation::Branch(op) => op.runs_ok(s),
            ArmOperation::SingleDataTransfer(op) => op.runs_ok(s),
            ArmOperation::BlockDataTransfer(op) => op.runs_ok(s),
            ArmOperation::PsrTransfer(op) => op.runs_ok(s),
            ArmOperation::HalfwordData(op) => op.runs_ok(s),
            ArmOperation::DataProcessing(op) => op.runs_ok(s),
            _ => false,
        }
    }

    open spec fn effect(&self, s: Machine) -> Machine {
        match *self {
            ArmOperation::Multiply(op) => op.effect(s),
            ArmOperation::SingleDataSwap(op) => op.effect(s),
            ArmOperation::BranchExchange(op) => op.effect(s),
            ArmOperation::Branch(op) => op.effect(s),
            ArmOperation::SingleDataTransfer(op) => op.effect(s),
            ArmOperation::BlockDataTransfer(op) => op.effect(s),
            ArmOperation::PsrTransfer(op) => op.effect(s),
            ArmOperation::HalfwordData(op) => op.effect(s),
            ArmOperation::DataProcessing(op) => op.effect(s),
            _ => s,
        }
    }

    fn run(&self, cpu: &mut CPU, mem: &mut SystemMemory) {
        match self {
            ArmOperation::Multiply(op) => op.run(cpu, mem),
            ArmOperation::SingleDataSwap(op) => op.run(cpu, mem),
            ArmOperation::BranchExchange(op) => op.run(cpu, mem),
            ArmOperation::Branch(op) => op.run(cpu, mem),
            ArmOperation::SingleDataTransfer(op) => op.run(cpu, mem),
            ArmOperation::BlockDataTransfer(op) => op.run(cpu, mem),
            ArmOperation::PsrTransfer(op) => op.run(cpu, mem),
            ArmOperation::HalfwordData(op) => op.run(cpu, mem),
            ArmOperation::DataProcessing(op) => op.run(cpu, mem),
            _ => {},
        }
    }
}

// Checking that an instruction can run.

/// Whether a word access at `address` has a timing: every memory but cartridge RAM.
pub fn has_word_timing(address: usize) -> (r: bool)
    ensures
        r == (mem_type(address) != 0xe),
{
    (address >> 24 & 0xf) != 0xe
}

/// Whether adding or subtracting `offset` to `base` stays within 32 bits.
pub fn offset_fits_exec(base: u32, offset: u32, u: bool) -> (r: bool)
    ensures
        r == offset_fits(base, offset, u),
{
    if u {
        base as u64 + offset as u64 <= u32::MAX as u64
    } else {
        base >= offset
    }
}

impl Operand {
    pub fn is_wf(&self) -> (r: bool)
        ensures
            r == self.wf(),
    {
        match self {
            Operand::Imm(_, _, _) => true,
            Operand::ShiftWithReg(x, y, _) => *x < 16 && *y < 16,
            Operand::ShiftImm(x, _, _) => *x < 16,
        }
    }
}

impl DataProcessingOp {
    /// Whether `run` completes (`runs_ok`).
    pub fn can_run(&self, cpu: &CPU, mem: &mut SystemMemory) -> (r: bool)
        requires
            machine(cpu, old(mem)).valid(),
        ensures
            final(mem)@ == old(mem)@,
            r == self.runs_ok(machine(cpu, old(mem))),
    {
        self.rn < 16 && self.rd < 16 && self.operand.is_wf()
    }
}

impl MultiplyOp {
    /// Whether `run` completes (`runs_ok`).
    pub fn can_run(&self, cpu: &CPU, mem: &mut SystemMemory) -> (r: bool)
        requires
            machine(cpu, old(mem)).valid(),
        ensures
            final(mem)@ == old(mem)@,
            r == self.runs_ok(machine(cpu, old(mem))),
    {
        if !(self.rd < 16 && self.rn < 16 && self.rs < 16 && self.rm < 16) {
            return false;
        }
        if !self.a {
            return true;
        }
        let product = cpu.get_register(self.rm as usize).wrapping_mul(cpu.get_register(self.rs as usize));
        product as u64 + cpu.get_register(self.rn as usize) as u64 <= u32::MAX as u64
    }
}

impl SingleDataSwapOp {
    /// Whether `run` completes (`runs_ok`).
    pub fn can_run(&self, cpu: &CPU, mem: &mut SystemMemory) -> (r: bool)
        requires
            machine(cpu, old(mem)).valid(),
        ensures
            final(mem)@ == old(mem)@,
            r == self.runs_ok(machine(cpu, old(mem))),
    {
        if !(self.rn < 16 && self.rd < 16 && self.rm < 16) {
            return false;
        }
        self.b || has_word_timing(cpu.get_register(self.rn as usize) as usize)
    }
}

impl BranchExchangeOp {
    /// Whether `run` completes (`runs_ok`).
    pub fn can_run(&self, cpu: &CPU, mem: &mut SystemMemory) -> (r: bool)
        requires
            machine(cpu, old(mem)).valid(),
        ensures
            final(mem)@ == old(mem)@,
            r == self.runs_ok(machine(cpu, old(mem))),
    {
        if self.rn >= 16 {
            return false;
        }
        (cpu.get_register(self.rn as usize) & !1u32) as u64 + 4 <= u32::MAX as u64
    }
}

impl BranchOp {
    /// Whether `run` completes (`runs_ok`).
    pub fn can_run(&self, cpu: &CPU, mem: &mut SystemMemory) -> (r: bool)
        requires
            machine(cpu, old(mem)).valid(),
        ensures
            final(mem)@ == old(mem)@,
            r == self.runs_ok(machine(cpu, old(mem))),
    {
        let pc = cpu.get_register(PC);
        let addr = pc.wrapping_add(self.get_offset());
        (!self.l || pc >= 4) && addr as u64 + 4 <= u32::MAX as u64
    }
}

impl SingleDataTfx {
    /// Whether `run` completes (`runs_ok`).
    pub fn can_run(&self, cpu: &CPU, mem: &mut SystemMemory) -> (r: bool)
        requires
            machine(cpu, old(mem)).valid(),
        ensures
            final(mem)@ == old(mem)@,
            r == self.runs_ok(machine(cpu, old(mem))),
    {
        if !(self.rn < 16 && self.rd < 16) {
            return false;
        }
        let off_field = self.offset as u32;
        if self.i && (off_field >> 4) & 0xff >= 32 {
            return false;
        }
        let off = self.get_offset(cpu);
        let base = cpu.get_register(self.rn as usize);
        if !offset_fits_exec(base, off, self.u) {
            return false;
        }
        let addr = if self.p {
            if self.u {
                base + off
            } else {
                base - off
            }
        } else {
            base
        };
        if !self.b && !has_word_timing(addr as usize) {
            return false;
        }
        !self.l || mem.read_from_mem(addr as usize).is_ok()
    }
}

impl PsrTransferOp {
    /// Whether `run` completes (`runs_ok`).
    pub fn can_run(&self, cpu: &CPU, mem: &mut SystemMemory) -> (r: bool)
        requires
            machine(cpu, old(mem)).valid(),
        ensures
            final(mem)@ == old(mem)@,
            r == self.runs_ok(machine(cpu, old(mem))),
    {
        self.rd < 16 && self.rm < 16 && self.rotate < 16
    }
}

impl HalfwordDataOp {
    /// Whether `run` completes (`runs_ok`).
    pub fn can_run(&self, cpu: &CPU, mem: &mut SystemMemory) -> (r: bool)
        requires
            machine(cpu, old(mem)).valid(),
        ensures
            final(mem)@ == old(mem)@,
            r == self.runs_ok(machine(cpu, old(mem))),
    {
        if !(self.rn < 16 && self.rd < 16) {
            return false;
        }
        let off = match self.mode {
            AddressingMode3::Reg(m) => {
                if m >= 16 {
                    return false;
                }
                cpu.get_register(m as usize)
            },
            AddressingMode3::Imm(b) => b as u32,
        };
        let base = cpu.get_register(self.rn as usize);
        if !offset_fits_exec(base, off, self.u) {
            return false;
        }
        if self.l {
            self.h || self.s
        } else {
            self.h && !self.s
        }
    }
}

impl BlockDataTransfer {
    /// Whether `run` completes (`runs_ok`).
    pub fn can_run(&self, cpu: &CPU, mem: &mut SystemMemory) -> (r: bool)
        requires
            machine(cpu, old(mem)).valid(),
        ensures
            final(mem)@ == old(mem)@,
            r == self.runs_ok(machine(cpu, old(mem))),
    {
        if self.rn >= 16 {
            return false;
        }
        let registers = bit_map_to_array(self.register_list as u32);
        proof {
            super::lemma_register_list(self.register_list as u32);
        }
        let n = registers.len() as u64;
        let a0 = cpu.get_register(self.rn as usize) as u64;
        let a: u64 = if !self.w {
            a0
        } else if self.u {
            a0 + 4 * n
        } else {
            if a0 < 4 * n {
                return false;
            }
            a0 - 4 * n
        };
        if a > usize::MAX as u64 {
            return false;
        }
        has_word_timing(a as usize)
    }
}

impl ArmOperation {
    /// Whether `run` completes (`runs_ok`).
    pub fn can_run(&self, cpu: &CPU, mem: &mut SystemMemory) -> (r: bool)
        requires
            machine(cpu, old(mem)).valid(),
        ensures
            final(mem)@ == old(mem)@,
            r == self.runs_ok(machine(cpu, old(mem))),
    {
        match self {
            ArmOperation::Multiply(op) => op.can_run(cpu, mem),
            ArmOperation::SingleDataSwap(op) => op.can_run(cpu, mem),
            ArmOperation::BranchExchange(op) => op.can_run(cpu, mem),
            ArmOperation::Branch(op) => op.can_run(cpu, mem),
            ArmOperation::SingleDataTransfer(op) => op.can_run(cpu, mem),
            ArmOperation::BlockDataTransfer(op) => op.can_run(cpu, mem),
            ArmOperation::PsrTransfer(op) => op.can_run(cpu, mem),
            ArmOperation::HalfwordData(op) => op.can_run(cpu, mem),
            ArmOperation::DataProcessing(op) => op.can_run(cpu, mem),
            _ => false,
        }
    }
}

} // verus!
