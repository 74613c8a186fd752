use super::arm::multiply_cycles_spec;
use super::cpu::{cpsr_with_thumb, view_wf, CPU, CpuView, LR, PC, SP};
use super::error::InstructionDecodeError;
use super::system::{
    byte_of, cycles_32_spec, cycles_8_16_spec, halfword_of, mem_type, read_cycles_per_32,
    read_cycles_per_8_16, read_spec, SystemMemory, BYTE, HALFWORD, WORD,
};
use super::utils::{calc_cycles_for_stm_ldm, stm_ldm_cycles_spec};
use super::{
    abs_value_spec, add_nums, bit_map_to_array, c_flag, condition_holds, contains_u32,
    get_abs_int_value, get_v_from_add, get_v_from_sub, is_signed, is_signed_spec, machine,
    n_flag, read_or_zero, set_bits_below, subtract_nums, v_flag, v_from_add_spec, v_from_sub_spec, z_flag,
    Conditional, Machine, Operation, CPSR_C,
};
use crate::memory::{sign_extend16, sign_extend8};
use crate::utils::shifter::{asr_spec, ror_spec, shl_spec, shr_spec, CpuShifter};
use crate::utils::word_arith::signed_value;
use vstd::prelude::*;

verus! {

/// The three-bit field of `value` at `shift`.
pub open spec fn triplet(value: u32, shift: u32) -> u32 {
    (value >> shift) & 0x7
}

pub proof fn lemma_triplet(value: u32, shift: u32)
    ensures
        triplet(value, shift) < 8,
{
    crate::utils::lemma_word_fields(value, shift);
}

fn get_triplet_as_usize(value: u32, shift: u32) -> (r: usize)
    requires
        shift < 32,
    ensures
        r == triplet(value, shift),
        r < 8,
{
    proof {
        lemma_triplet(value, shift);
    }
    (value >> shift & 0x7) as usize
}

fn get_triplet_as_u32(value: u32, shift: u32) -> (r: u32)
    requires
        shift < 32,
    ensures
        r == triplet(value, shift),
        r < 8,
{
    proof {
        lemma_triplet(value, shift);
    }
    (value >> shift & 0x7) as u32
}

/// Bit `n` of an instruction as a flag.
pub open spec fn tflag(value: u32, n: u32) -> bool {
    (value >> n) & 1 == 1
}

/// Internal cycles of a Thumb multiply by `operand`.
pub fn count_cycles(operand: u32) -> (r: u32)
    ensures
        r == multiply_cycles_spec(false, operand),
{
    let m: u32 = if (operand & 0xffffff00) == 0 || (operand & 0xffffff00 == 0xffffff00) {
        1
    } else if (operand & 0xffff0000) == 0 || (operand & 0xffff0000 == 0xffff0000) {
        2
    } else if (operand & 0xff000000) == 0 || (operand & 0xff000000 == 0xff000000) {
        3
    } else {
        4
    };
    1 + m
}

/// Cycles of a Thumb single load or store with access time `cycles`.
pub open spec fn str_ldr_cycles_spec(l: bool, pc: bool, cycles: u32) -> int {
    if l && pc {
        4 + cycles
    } else if l && !pc {
        2 + cycles
    } else {
        2
    }
}

fn cycles_for_str_ldr(l: bool, pc: bool, cycles: u32) -> (r: u32)
    requires
        cycles <= 8,
    ensures
        r == str_ldr_cycles_spec(l, pc, cycles),
{
    if l && pc {
        4 + cycles
    } else if l && !pc {
        2 + cycles
    } else {
        2
    }
}

/// A shift of a low register by an immediate amount.
#[derive(Debug, PartialEq, Eq, Structural, Clone, Copy)]
pub struct MoveShiftedRegisterOp {
    pub op: u8,
    pub offset: u32,
    pub rs: usize,
    pub rd: usize,
}

impl MoveShiftedRegisterOp {
    pub open spec fn decoded(value: u32) -> Self {
        MoveShiftedRegisterOp {
            op: ((value >> 11) & 0x3) as u8,
            offset: (value >> 6) & 0x1f,
            rs: triplet(value, 3) as usize,
            rd: triplet(value, 0) as usize,
        }
    }

    pub fn from(value: u32) -> (r: Self)
        ensures
            r == Self::decoded(value),
    {
        proof {
            lemma_triplet(value, 3);
            lemma_triplet(value, 0);
        }
        proof {
            crate::utils::lemma_word_fields(value, 0);
        }
        MoveShiftedRegisterOp {
            op: (value >> 11 & 0x3) as u8,
            offset: value >> 6 & 0x1f,
            rs: (value >> 3 & 0x7) as usize,
            rd: (value & 0x7) as usize,
        }
    }
}

impl Operation for MoveShiftedRegisterOp {
    /// Operation 3 is the add/subtract encoding, which is not a shift.
    open spec fn runs_ok(&self, s: Machine) -> bool {
        self.op < 3 && self.rs < 16 && self.rd < 16
    }

    /// Shifts `rs` (LSL, LSR or ASR by the immediate, with the carry flag as carry in),
    /// sets N, Z and C from the result and clears V, writes `rd`; 1 cycle, 3 into the PC.
    open spec fn effect(&self, s: Machine) -> Machine {
        let carry = c_flag(s.cpu.cpsr);
        let v = s.reg(self.rs as int);
        let (res, c) = if self.op == 0 {
            shl_spec(carry, v, self.offset)
        } else if self.op == 1 {
            shr_spec(carry, v, self.offset)
        } else {
            asr_spec(carry, v, self.offset)
        };
        let cycles: u32 = if self.rd == 15 { 3 } else { 1 };
        s.with_cpu(s.cpu.with_flags(res, false, c).set_reg(self.rd as int, res).add_cycles(cycles))
    }

    fn run(&self, cpu: &mut CPU, _mem: &mut SystemMemory) {
        let rs = cpu.get_register(self.rs);
        let (res, c_carry) = if self.op == 0 {
            cpu.shl_with_carry(rs, self.offset)
        } else if self.op == 1 {
            cpu.shr_with_carry(rs, self.offset)
        } else {
            cpu.asr_with_carry(rs, self.offset)
        };
        cpu.update_cpsr(res, false, c_carry);
        cpu.set_register(self.rd, res);
        let mut cycles: u32 = 1;
        if self.rd == PC {
            cycles += 2;
        }
        cpu.add_cycles(cycles);
    }
}

/// An addition or subtraction of a register or a 3-bit immediate.
#[derive(Debug, PartialEq, Eq, Structural, Clone, Copy)]
pub struct AddSubtractOp {
    pub i: bool,
    pub op: bool,
    pub rn: usize,
    pub offset: u32,
    pub rs: usize,
    pub rd: usize,
}

impl AddSubtractOp {
    pub open spec fn decoded(value: u32) -> Self {
        AddSubtractOp {
            i: tflag(value, 10),
            op: tflag(value, 9),
            rn: triplet(value, 6) as usize,
            offset: triplet(value, 6),
            rs: triplet(value, 3) as usize,
            rd: triplet(value, 0) as usize,
        }
    }

    pub fn from(value: u32) -> (r: Self)
        ensures
            r == Self::decoded(value),
    {
        AddSubtractOp {
            i: (value >> 10 & 0x1) == 1,
            op: (value >> 9 & 0x1) == 1,
            rn: get_triplet_as_usize(value, 6),
            offset: get_triplet_as_u32(value, 6),
            rs: get_triplet_as_usize(value, 3),
            rd: get_triplet_as_usize(value, 0),
        }
    }
}

/// The low word of a sum, and its bit 32 as the carry.
pub open spec fn low_word(x: u64) -> u32 {
    (x & 0xffffffff) as u32
}

pub open spec fn bit32(x: u64) -> bool {
    (x >> 32u64) & 1 == 1
}

impl Operation for AddSubtractOp {
    open spec fn runs_ok(&self, s: Machine) -> bool {
        self.rn < 16 && self.rs < 16 && self.rd < 16
    }

    /// Adds or subtracts the immediate or `rn` to `rs`, sets all four flags and writes `rd`;
    /// 1 cycle, 3 into the PC.
    open spec fn effect(&self, s: Machine) -> Machine {
        let offset = if self.i { self.offset } else { s.reg(self.rn as int) };
        let a = s.reg(self.rs as int);
        let (sum, v) = if self.op {
            let r = (a + (0xffff_ffff - offset) + 1) as u64;
            (r, v_from_sub_spec(a as u64, (0xffff_ffff - offset) as u64, r))
        } else {
            let r = (a + offset) as u64;
            (r, v_from_add_spec(a as u64, offset as u64, r))
        };
        let res = low_word(sum);
        let cycles: u32 = if self.rd == 15 { 3 } else { 1 };
        s.with_cpu(s.cpu.with_flags(res, v, bit32(sum)).set_reg(self.rd as int, res).add_cycles(cycles))
    }

    fn run(&self, cpu: &mut CPU, _mem: &mut SystemMemory) {
        let offset = if self.i {
            self.offset
        } else {
            cpu.get_register(self.rn)
        };
        let rs = cpu.get_register(self.rs);
        let (res, v_status) = if self.op {
            subtract_nums(rs, offset, false)
        } else {
            add_nums(rs, offset, false)
        };
        let c_status = res >> 32 & 1 == 1;
        proof {
            crate::utils::lemma_dword_fields(res);
        }
        let res = (0xffffffff & res) as u32;
        cpu.update_cpsr(res, v_status, c_status);
        cpu.set_register(self.rd, res);
        if self.rd == PC {
            cpu.add_cycles(3);
        } else {
            cpu.add_cycles(1);
        }
    }
}

/// MOV, CMP, ADD or SUB of an 8-bit immediate.
#[derive(Debug, PartialEq, Eq, Structural, Clone, Copy)]
pub struct MathImmOp {
    pub op: u8,
    pub rd: usize,
    pub offset: u32,
}

impl MathImmOp {
    pub open spec fn decoded(value: u32) -> Self {
        MathImmOp { op: ((value >> 11) & 0x3) as u8, rd: triplet(value, 8) as usize, offset: value & 0xff }
    }

    pub fn from(value: u32) -> (r: Self)
        ensures
            r == Self::decoded(value),
    {
        MathImmOp {
            op: (value >> 11 & 0x3) as u8,
            rd: get_triplet_as_usize(value, 8),
            offset: value & 0xff,
        }
    }
}

impl Operation for MathImmOp {
    open spec fn runs_ok(&self, s: Machine) -> bool {
        self.op < 4 && self.rd < 16
    }

    /// MOV (0) keeps the carry; CMP (1) and SUB (3) subtract; ADD (2) adds. All but CMP
    /// write `rd`; all set N, Z and C, and V from the arithmetic (cleared by MOV).
    open spec fn effect(&self, s: Machine) -> Machine {
        let rd = s.reg(self.rd as int);
        let (sum, v) = if self.op == 0 {
            (if c_flag(s.cpu.cpsr) { (self.offset as u64) | 0x1_0000_0000u64 } else { self.offset as u64 }, false)
        } else if self.op == 1 || self.op == 3 {
            let r = (rd + (0xffff_ffff - self.offset) + 1) as u64;
            (r, v_from_sub_spec(rd as u64, (0xffff_ffff - self.offset) as u64, r))
        } else {
            let r = (rd + self.offset) as u64;
            (r, v_from_add_spec(rd as u64, self.offset as u64, r))
        };
        let res = low_word(sum);
        let c1 = if self.op == 1 { s.cpu } else { s.cpu.set_reg(self.rd as int, res) };
        let cycles: u32 = if self.rd == 15 { 3 } else { 1 };
        s.with_cpu(c1.with_flags(res, v, bit32(sum)).add_cycles(cycles))
    }

    fn run(&self, cpu: &mut CPU, _mem: &mut SystemMemory) {
        let rd = cpu.get_register(self.rd) as u64;
        let mut v_status = false;
        let res: u64 = if self.op == 0 {
            let res = self.offset as u64;
            if cpu.cpsr & CPSR_C != 0 {
                proof { super::lemma_flag_clear(cpu.cpsr); }
                res | 0x1_0000_0000
            } else {
                proof { super::lemma_flag_clear(cpu.cpsr); }
                res
            }
        } else if self.op == 1 || self.op == 3 {
            let (x, v_stat) = subtract_nums(cpu.get_register(self.rd), self.offset, false);
            v_status = v_stat;
            x
        } else {
            let offset = self.offset as u64;
            let res = rd + offset;
            v_status = get_v_from_add(rd, offset, res);
            res
        };
        let c_status = (res >> 32) & 1 == 1;
        let res = (res & 0xffffffff) as u32;
        if self.op != 1 {
            cpu.set_register(self.rd, res);
        }
        cpu.update_cpsr(res, v_status, c_status);
        if self.rd == PC {
            cpu.add_cycles(3)
        } else {
            cpu.add_cycles(1)
        }
    }
}


#[derive(Debug, PartialEq, Eq, Structural, Clone, Copy)]
pub enum AluOpCode {
    And,
    Eor,
    Lsl,
    Lsr,
    Asr,
    Adc,
    Sbc,
    Ror,
    Tst,
    Neg,
    Cmp,
    Cmn,
    Orr,
    Mul,
    Bic,
    Mvn,
}

pub open spec fn alu_opcode_spec(value: u32) -> AluOpCode {
    if value == 0 {
        AluOpCode::And
    } else if value == 1 {
        AluOpCode::Eor
    } else if value == 2 {
        AluOpCode::Lsl
    } else if value == 3 {
        AluOpCode::Lsr
    } else if value == 4 {
        AluOpCode::Asr
    } else if value == 5 {
        AluOpCode::Adc
    } else if value == 6 {
        AluOpCode::Sbc
    } else if value == 7 {
        AluOpCode::Ror
    } else if value == 8 {
        AluOpCode::Tst
    } else if value == 9 {
        AluOpCode::Neg
    } else if value == 10 {
        AluOpCode::Cmp
    } else if value == 11 {
        AluOpCode::Cmn
    } else if value == 12 {
        AluOpCode::Orr
    } else if value == 13 {
        AluOpCode::Mul
    } else if value == 14 {
        AluOpCode::Bic
    } else {
        AluOpCode::Mvn
    }
}

/// Whether an ALU operation keeps the overflow flag.
pub open spec fn alu_is_logical(op: AluOpCode) -> bool {
    !(op == AluOpCode::Mul || op == AluOpCode::Adc || op == AluOpCode::Sbc || op == AluOpCode::Neg
        || op == AluOpCode::Cmp || op == AluOpCode::Cmn)
}

impl AluOpCode {
    /// The ALU operation a 4-bit field names; larger values name none.
    pub fn from(value: u32) -> (r: Self)
        requires
            value < 16,
        ensures
            r == alu_opcode_spec(value),
    {
        match value {
            0 => Self::And,
            1 => Self::Eor,
            2 => Self::Lsl,
            3 => Self::Lsr,
            4 => Self::Asr,
            5 => Self::Adc,
            6 => Self::Sbc,
            7 => Self::Ror,
            8 => Self::Tst,
            9 => Self::Neg,
            10 => Self::Cmp,
            11 => Self::Cmn,
            12 => Self::Orr,
            13 => Self::Mul,
            14 => Self::Bic,
            _ => Self::Mvn,
        }
    }

    pub fn is_logical(&self) -> (r: bool)
        ensures
            r == alu_is_logical(*self),
    {
        !(*self == Self::Mul || *self == Self::Adc || *self == Self::Sbc || *self == Self::Neg
            || *self == Self::Cmp || *self == Self::Cmn)
    }
}

/// An ALU operation between two low registers.
#[derive(Debug, PartialEq, Eq, Structural, Clone, Copy)]
pub struct ALUOp {
    pub op: AluOpCode,
    pub rs: usize,
    pub rd: usize,
}

impl ALUOp {
    pub open spec fn decoded(value: u32) -> Self {
        ALUOp {
            op: alu_opcode_spec((value >> 6) & 0xf),
            rs: triplet(value, 3) as usize,
            rd: triplet(value, 0) as usize,
        }
    }

    pub fn from(value: u32) -> (r: Self)
        ensures
            r == Self::decoded(value),
    {
        proof {
            crate::utils::lemma_word_fields(value, 6);
        }
        ALUOp {
            op: AluOpCode::from(value >> 6 & 0xf),
            rs: get_triplet_as_usize(value, 3),
            rd: get_triplet_as_usize(value, 0),
        }
    }
}

/// A shifter result with its carry moved to bit 32.
pub open spec fn with_carry_bit(r: (u32, bool)) -> u64 {
    if r.1 {
        (r.0 as u64) | 0x1_0000_0000u64
    } else {
        r.0 as u64
    }
}

/// The 64-bit result of a Thumb ALU operation, whose bit 32 becomes the carry flag, and the
/// overflow of the arithmetic operations. The logical operations carry the current carry in
/// bit 32; BIC and MVN complement all 64 bits.
pub open spec fn alu_result(op: AluOpCode, c: CpuView, rd: u32, rs: u32) -> (u64, bool) {
    let carry_flag = c_flag(c.cpsr);
    let carry = ((c.cpsr & CPSR_C) >> 29u32) as u64;
    let a = rd as u64;
    let b = rs as u64;
    match op {
        AluOpCode::And | AluOpCode::Tst => ((a & b) | (carry << 32u64), false),
        AluOpCode::Eor => ((a ^ b) | (carry << 32u64), false),
        AluOpCode::Orr => ((a | b) | (carry << 32u64), false),
        AluOpCode::Lsl => (with_carry_bit(shl_spec(carry_flag, rd, rs)), false),
        AluOpCode::Lsr => (with_carry_bit(shr_spec(carry_flag, rd, rs)), false),
        AluOpCode::Asr => (with_carry_bit(asr_spec(carry_flag, rd, rs)), false),
        AluOpCode::Ror => (with_carry_bit(ror_spec(carry_flag, rd, rs)), false),
        AluOpCode::Adc => {
            let r = (a + b + carry) as u64;
            (r, v_from_add_spec(a, b, r))
        },
        AluOpCode::Sbc => {
            let r = (a + ((!rs) as u64) + carry) as u64;
            (r, v_from_sub_spec(a, b, r))
        },
        AluOpCode::Neg => ((((!rs) as u64) + 1) as u64, false),
        AluOpCode::Cmp => {
            let r = (a + ((!rs) as u64) + 1) as u64;
            (r, v_from_sub_spec(a, b, r))
        },
        AluOpCode::Cmn => {
            let r = (a + b) as u64;
            (r, v_from_add_spec(a, b, r))
        },
        AluOpCode::Mul => (a.wrapping_mul(b), false),
        AluOpCode::Bic => (a & !b, false),
        AluOpCode::Mvn => (!b, false),
    }
}

impl Operation for ALUOp {
    open spec fn runs_ok(&self, s: Machine) -> bool {
        self.rs < 16 && self.rd < 16
    }

    /// Writes the low word of `alu_result` to `rd` (not for CMP, CMN, TST), sets N and Z
    /// from it, C from bit 32 (kept for EOR), V from the arithmetic (kept for logical
    /// operations); 2 cycles for ROR, the multiply time for MUL, 1 otherwise.
    open spec fn effect(&self, s: Machine) -> Machine {
        let rd = s.reg(self.rd as int);
        let rs = s.reg(self.rs as int);
        let (r64, v_alu) = alu_result(self.op, s.cpu, rd, rs);
        let res = low_word(r64);
        let c = if self.op == AluOpCode::Eor { c_flag(s.cpu.cpsr) } else { bit32(r64) };
        let c1 = if self.op == AluOpCode::Cmp || self.op == AluOpCode::Cmn || self.op == AluOpCode::Tst {
            s.cpu
        } else {
            s.cpu.set_reg(self.rd as int, res)
        };
        let cycles = if self.op == AluOpCode::Ror {
            2
        } else if self.op == AluOpCode::Mul {
            multiply_cycles_spec(false, rd)
        } else {
            1
        };
        let v = if alu_is_logical(self.op) { v_flag(c1.cpsr) } else { v_alu };
        s.with_cpu(c1.with_flags(res, v, c).add_cycles(cycles))
    }

    fn run(&self, cpu: &mut CPU, _mem: &mut SystemMemory) {
        let rd_val = cpu.get_register(self.rd);
        let rs_val = cpu.get_register(self.rs);
        let rd_value = rd_val as u64;
        let rs_value = rs_val as u64;
        let cpsr = cpu.cpsr;
        proof {
            super::lemma_status_word(cpsr);
        }
        let carry = ((cpsr & CPSR_C) >> 29) as u64;
        let mut v_status = false;
        let res: u64 = match self.op {
            AluOpCode::And => rd_value & rs_value | (carry << 32),
            AluOpCode::Eor => rd_value ^ rs_value | (carry << 32),
            AluOpCode::Lsl => {
                let (val, is_carry) = cpu.shl_with_carry(rd_val, rs_val);
                if is_carry { (val as u64) | 0x1_0000_0000 } else { val as u64 }
            },
            AluOpCode::Lsr => {
                let (val, is_carry) = cpu.shr_with_carry(rd_val, rs_val);
                if is_carry { (val as u64) | 0x1_0000_0000 } else { val as u64 }
            },
            AluOpCode::Asr => {
                let (val, is_carry) = cpu.asr_with_carry(rd_val, rs_val);
                if is_carry { (val as u64) | 0x1_0000_0000 } else { val as u64 }
            },
            AluOpCode::Adc => {
                let res = rd_value + rs_value + carry;
                v_status = get_v_from_add(rd_value, rs_value, res);
                res
            },
            AluOpCode::Sbc => {
                let rhs = !rs_val as u64;
                let res = rd_value + rhs + carry;
                v_status = get_v_from_sub(rd_value, rs_value, res);
                res
            },
            AluOpCode::Ror => {
                let (res, c) = cpu.ror_with_carry(rd_val, rs_val);
                let res = res as u64;
                if c { res | 0x1_0000_0000 } else { res }
            },
            AluOpCode::Tst => rd_value & rs_value | (carry << 32),
            AluOpCode::Neg => {
                let res = !rs_val as u64;
                res + 1
            },
            AluOpCode::Cmp => {
                let rhs = !rs_val as u64;
                let res = rd_value + rhs + 1;
                v_status = get_v_from_sub(rd_value, rs_value, res);
                res
            },
            AluOpCode::Cmn => {
                let res = rd_value + rs_value;
                v_status = get_v_from_add(rd_value, rs_value, res);
                res
            },
            AluOpCode::Orr => rd_value | rs_value | (carry << 32),
            AluOpCode::Mul => rd_value.wrapping_mul(rs_value),
            AluOpCode::Bic => rd_value & !rs_value,
            AluOpCode::Mvn => !rs_value,
        };
        let mut c_status = (res >> 32) & 1 == 1;
        let res = (res & 0xffffffff) as u32;
        if self.op == AluOpCode::Eor {
            c_status = cpu.c_status();
        }
        if !(self.op == AluOpCode::Cmp || self.op == AluOpCode::Cmn || self.op == AluOpCode::Tst) {
            cpu.set_register(self.rd, res);
        }
        let cycles = if self.op == AluOpCode::Ror {
            2
        } else if self.op == AluOpCode::Mul {
            count_cycles(rd_val)
        } else {
            1
        };
        if self.op.is_logical() {
            v_status = cpu.v_status();
        }
        cpu.update_cpsr(res, v_status, c_status);
        cpu.add_cycles(cycles);
    }
}

/// What a Thumb add or subtract of a register or a 3-bit immediate leaves: with `a` the value
/// of `rs` and `b` the immediate or the value of `rn`, `rd` gets `a + b` or `a - b` wrapped
/// round 2^32; N is bit 31 of it and Z says it is zero; C says the sum reached 2^32 or the
/// difference borrowed nothing; after an addition V says the signed sum left the signed range.
pub proof fn law_thumb_add_subtract(op: AddSubtractOp, s: Machine)
    requires
        s.valid(),
        view_wf(s.cpu),
        op.rn < 16,
        op.rs < 16,
        op.rd < 16,
    ensures
        ({
            let ua = s.reg(op.rs as int);
            let ub = if op.i { op.offset } else { s.reg(op.rn as int) };
            let a = ua as int;
            let b = ub as int;
            let value: int = if op.op { (a - b) % 0x1_0000_0000 } else { (a + b) % 0x1_0000_0000 };
            let t = op.effect(s).cpu;
            &&& t.reg(op.rd as int) as int == value
            &&& n_flag(t.cpsr) == (value >= 0x8000_0000)
            &&& z_flag(t.cpsr) == (value == 0)
            &&& c_flag(t.cpsr) == if op.op { a >= b } else { a + b >= 0x1_0000_0000 }
            &&& !op.op ==> v_flag(t.cpsr) == !(-0x8000_0000 <= signed_value(ua) + signed_value(ub)
                < 0x8000_0000)
        }),
{
    let a = s.reg(op.rs as int);
    let b = if op.i { op.offset } else { s.reg(op.rn as int) };
    crate::utils::lemma_word_fields(b, 0);
    crate::utils::word_arith::lemma_low_word_sum(a, b, 1);
    crate::utils::word_arith::lemma_low_word_sum(a, b, 0);
    crate::utils::word_arith::lemma_carry_out(a, b, 1);
    crate::utils::word_arith::lemma_carry_out(a, b, 0);
    crate::utils::word_arith::lemma_signed_overflow(a, b, 0);
    crate::utils::word_arith::lemma_wrap(a + b);
    crate::utils::word_arith::lemma_wrap(a - b);
    let (sum, v) = if op.op {
        let r = (a + (0xffff_ffff - b) + 1) as u64;
        (r, v_from_sub_spec(a as u64, (0xffff_ffff - b) as u64, r))
    } else {
        let r = (a + b) as u64;
        (r, v_from_add_spec(a as u64, b as u64, r))
    };
    let res = low_word(sum);
    super::cpu::lemma_flags_read_back(s.cpu.cpsr, res, v, bit32(sum));
}

/// What a Thumb MOV, CMP, ADD or SUB of an 8-bit immediate `b` leaves, with `a` the value of
/// `rd`: MOV writes `b`, keeps C and clears V; CMP writes nothing and SUB writes `a - b`
/// wrapped round 2^32, both setting C when nothing is borrowed; ADD writes `a + b` wrapped
/// round 2^32, sets C when the sum reached 2^32 and V when the signed sum left the signed
/// range. N and Z come from the value written or compared.
pub proof fn law_thumb_immediate_ops(op: MathImmOp, s: Machine)
    requires
        s.valid(),
        view_wf(s.cpu),
        op.op < 4,
        op.rd < 16,
    ensures
        ({
            let ua = s.reg(op.rd as int);
            let a = ua as int;
            let b = op.offset as int;
            let value: int = if op.op == 0 {
                b
            } else if op.op == 2 {
                (a + b) % 0x1_0000_0000
            } else {
                (a - b) % 0x1_0000_0000
            };
            let t = op.effect(s).cpu;
            &&& op.op != 1 ==> t.reg(op.rd as int) as int == value
            &&& op.op == 1 ==> t.reg(op.rd as int) == ua
            &&& n_flag(t.cpsr) == (value >= 0x8000_0000)
            &&& z_flag(t.cpsr) == (value == 0)
            &&& op.op == 0 ==> c_flag(t.cpsr) == c_flag(s.cpu.cpsr) && !v_flag(t.cpsr)
            &&& (op.op == 1 || op.op == 3) ==> c_flag(t.cpsr) == (a >= b)
            &&& op.op == 2 ==> c_flag(t.cpsr) == (a + b >= 0x1_0000_0000) && v_flag(t.cpsr) == !(
            -0x8000_0000 <= signed_value(ua) + signed_value(op.offset) < 0x8000_0000)
        }),
{
    let a = s.reg(op.rd as int);
    let b = op.offset;
    crate::utils::lemma_word_fields(b, 0);
    crate::utils::word_arith::lemma_low_word_sum(a, b, 1);
    crate::utils::word_arith::lemma_low_word_sum(a, b, 0);
    crate::utils::word_arith::lemma_carry_out(a, b, 1);
    crate::utils::word_arith::lemma_carry_out(a, b, 0);
    crate::utils::word_arith::lemma_signed_overflow(a, b, 0);
    crate::utils::word_arith::lemma_low_word_logic(b, b, 0);
    crate::utils::word_arith::lemma_bit32_of(b, b, 0);
    crate::utils::word_arith::lemma_wrap(a + b);
    crate::utils::word_arith::lemma_wrap(a - b);
    let (sum, v) = if op.op == 0 {
        (if c_flag(s.cpu.cpsr) { (b as u64) | 0x1_0000_0000u64 } else { b as u64 }, false)
    } else if op.op == 1 || op.op == 3 {
        let r = (a + (0xffff_ffff - b) + 1) as u64;
        (r, v_from_sub_spec(a as u64, (0xffff_ffff - b) as u64, r))
    } else {
        let r = (a + b) as u64;
        (r, v_from_add_spec(a as u64, b as u64, r))
    };
    let res = low_word(sum);
    let c1 = if op.op == 1 { s.cpu } else { s.cpu.set_reg(op.rd as int, res) };
    assert(c1.cpsr == s.cpu.cpsr);
    super::cpu::lemma_flags_read_back(s.cpu.cpsr, res, v, bit32(sum));
}

/// What a Thumb shift by an immediate leaves: `rd` gets `rs` shifted left (0), logically
/// right (1) or arithmetically right (2) by the offset, C is the shifter's carry out, V is
/// cleared, N is bit 31 of the result and Z says it is zero.
pub proof fn law_thumb_shift_immediate(op: MoveShiftedRegisterOp, s: Machine)
    requires
        s.valid(),
        view_wf(s.cpu),
        op.runs_ok(s),
    ensures
        ({
            let carry = c_flag(s.cpu.cpsr);
            let v = s.reg(op.rs as int);
            let shifted = if op.op == 0 {
                shl_spec(carry, v, op.offset)
            } else if op.op == 1 {
                shr_spec(carry, v, op.offset)
            } else {
                asr_spec(carry, v, op.offset)
            };
            let t = op.effect(s).cpu;
            &&& t.reg(op.rd as int) == shifted.0
            &&& c_flag(t.cpsr) == shifted.1
            &&& !v_flag(t.cpsr)
            &&& n_flag(t.cpsr) == (shifted.0 >= 0x8000_0000)
            &&& z_flag(t.cpsr) == (shifted.0 == 0)
        }),
{
    let carry = c_flag(s.cpu.cpsr);
    let v = s.reg(op.rs as int);
    let (res, c) = if op.op == 0 {
        shl_spec(carry, v, op.offset)
    } else if op.op == 1 {
        shr_spec(carry, v, op.offset)
    } else {
        asr_spec(carry, v, op.offset)
    };
    super::cpu::lemma_flags_read_back(s.cpu.cpsr, res, false, c);
}

/// What a high-register operation leaves: ADD writes `rd + rs` and MOV writes `rs`, neither
/// touching the flags; CMP writes nothing, N and Z come from `rd - rs` wrapped round 2^32
/// and C says the subtraction borrowed nothing; BX enters Thumb state exactly when bit 0 of
/// `rs` is set and leaves the PC at `rs` with bit 0 cleared, plus 2 in Thumb state and 4 in
/// ARM state.
pub proof fn law_high_register_ops(op: HiRegOp, s: Machine)
    requires
        s.valid(),
        view_wf(s.cpu),
        op.runs_ok(s),
    ensures
        ({
            let a = s.reg(op.rd as int) as int;
            let b = s.reg(op.rs as int) as int;
            let t = op.effect(s).cpu;
            let diff = (a - b) % 0x1_0000_0000;
            &&& op.op == 0 ==> t.reg(op.rd as int) as int == a + b && t.cpsr == s.cpu.cpsr
            &&& op.op == 2 ==> t.reg(op.rd as int) as int == b && t.cpsr == s.cpu.cpsr
            &&& op.op == 1 ==> t.reg(op.rd as int) == s.reg(op.rd as int) && n_flag(t.cpsr) == (diff
                >= 0x8000_0000) && z_flag(t.cpsr) == (diff == 0) && c_flag(t.cpsr) == (a >= b)
            &&& op.op == 3 ==> t.is_thumb() == (b % 2 == 1) && t.reg(15) as int == b - b % 2 + if b
                % 2 == 1 {
                2int
            } else {
                4
            }
        }),
{
    let rd = s.reg(op.rd as int);
    let rs = s.reg(op.rs as int);
    crate::utils::lemma_word_fields(rs, 0);
    crate::utils::word_arith::lemma_low_word_sum(rd, rs, 1);
    crate::utils::word_arith::lemma_carry_out(rd, rs, 1);
    crate::utils::word_arith::lemma_wrap(rd - rs);
    assert((rs & 1 == 1) == (rs % 2 == 1) && (rs & !1u32) == rs - rs % 2) by (bit_vector);
    if op.op == 1 {
        let r = (rd + (0xffff_ffff - rs) + 1) as u64;
        let v = v_from_sub_spec(rd as u64, (0xffff_ffff - rs) as u64, r);
        super::cpu::lemma_flags_read_back(s.cpu.cpsr, low_word(r), v, bit32(r));
    }
    if op.op == 3 {
        super::cpu::lemma_thumb_keeps_mode(s.cpu.cpsr, rs & 1 == 1);
    }
}

/// Where a Thumb load or store with an immediate offset goes and what a load brings back:
/// the address is the base plus the offset, counted in bytes for a byte transfer and in
/// words (four bytes) otherwise; a load puts the byte at that address, or the word, in `rd`.
pub proof fn law_thumb_immediate_transfer(op: LoadStoreImmOffsetOp, s: Machine)
    requires
        s.valid(),
        view_wf(s.cpu),
        op.runs_ok(s),
    ensures
        ({
            let a = s.reg(op.rb as int) + if op.b { op.offset as int } else { 4 * op.offset };
            let t = op.effect(s).cpu;
            &&& op.address_spec(s) == a
            &&& op.l && read_spec(s.mem, a as usize) is Ok ==> t.reg(op.rd as int) == if op.b {
                (read_spec(s.mem, a as usize)->Ok_0 >> (8 * (a % 4)) as u32) % 0x100
            } else {
                read_spec(s.mem, a as usize)->Ok_0
            }
        }),
{
    vstd::arithmetic::power2::lemma2_to64();
    vstd::bits::lemma_u32_shl_is_mul(op.offset, 2);
    let a = op.address_spec(s) as usize;
    let w = read_spec(s.mem, a)->Ok_0;
    super::system::lemma_address_bits(a);
    crate::utils::word_arith::lemma_byte_lane(w, a);
}

/// Where a Thumb load or store with a register offset goes: the base plus the offset
/// register read as a signed number (the most negative offset, whose magnitude does not
/// fit, adds nothing); a load puts the byte at that address, or the word, in `rd`.
pub proof fn law_thumb_register_transfer(op: LoadStoreRegOffsetOp, s: Machine)
    requires
        s.valid(),
        view_wf(s.cpu),
        op.runs_ok(s),
    ensures
        ({
            let ro = s.reg(op.ro as int);
            let a = if ro == 0x8000_0000 {
                s.reg(op.rb as int) as int
            } else {
                s.reg(op.rb as int) + signed_value(ro)
            };
            let t = op.effect(s).cpu;
            &&& op.address_spec(s) == a
            &&& op.l ==> t.reg(op.rd as int) == if op.b {
                (read_spec(s.mem, a as usize)->Ok_0 >> (8 * (a % 4)) as u32) % 0x100
            } else {
                read_spec(s.mem, a as usize)->Ok_0
            }
        }),
{
    let ro = s.reg(op.ro as int);
    crate::utils::lemma_word_fields(ro, 0);
    let a = op.address_spec(s) as usize;
    let w = read_spec(s.mem, a)->Ok_0;
    super::system::lemma_address_bits(a);
    crate::utils::word_arith::lemma_byte_lane(w, a);
}

/// Where Thumb branches go, with `pc` the value of the PC. A conditional branch whose
/// condition holds goes to `pc` plus twice its 8-bit field read as signed and leaves the PC
/// two past that; when the condition fails the PC stays. An unconditional branch goes to
/// `pc` plus its 12-bit byte offset read as signed, modulo 2^32, and leaves the PC two past.
pub proof fn law_thumb_branches(c: ConditionalBranchOp, u: UnconditionalBranchOp, s: Machine)
    requires
        s.valid(),
        view_wf(s.cpu),
        c.runs_ok(s),
        u.runs_ok(s),
        u.offset < 0x1000,
    ensures
        ({
            let pc = s.reg(15) as int;
            let half: int = if c.offset < 0x80 { 2 * c.offset } else { 2 * c.offset - 0x200 };
            let step: int = if u.offset < 0x800 { u.offset as int } else { u.offset - 0x1000 };
            &&& condition_holds(c.cond, s.cpu.cpsr) ==> c.effect(s).cpu.reg(15) as int == pc + half
                + 2
            &&& !condition_holds(c.cond, s.cpu.cpsr) ==> c.effect(s).cpu.reg(15) == s.reg(15)
            &&& u.effect(s).cpu.reg(15) as int == (pc + step) % 0x1_0000_0000 + 2
        }),
{
    let pc = s.reg(15);
    let co = c.offset;
    let uo = u.offset;
    assert((co & 0x80 == 0x80) == (co >= 0x80) && (uo & (1u32 << 11u32) == (1u32 << 11u32)) == (uo
        >= 0x800) && (uo >= 0x800 ==> (uo | 0xfffff000) as int == uo + 0xffff_f000)) by (bit_vector)
        requires
            co <= 0xff,
            uo < 0x1000,
    ;
    let o = uncond_branch_offset(u.offset);
    let step: int = if u.offset < 0x800 { u.offset as int } else { u.offset - 0x1000 };
    crate::utils::word_arith::lemma_wrap(pc + o);
    crate::utils::word_arith::lemma_wrap(pc + step);
}

/// The carry and overflow flags a Thumb ALU instruction leaves, with `a` the value of `rd`,
/// `b` of `rs` and `c` the carry flag. ADC and CMN: C says the unsigned sum (`a + b + c`,
/// `a + b`) reached 2^32; SBC and CMP: C says the difference (`a - b - 1 + c`, `a - b`)
/// borrowed nothing; for these V says the signed sum or difference left the signed range.
/// NEG sets C exactly for zero and clears V; MUL takes C from bit 32 of the product and
/// clears V. AND, EOR, ORR and TST keep C; BIC clears it and MVN sets it; the shifts take the
/// shifter's carry. All of these keep V.
pub proof fn law_thumb_alu_flags(op: ALUOp, s: Machine)
    requires
        s.valid(),
        view_wf(s.cpu),
        op.rd < 16,
        op.rs < 16,
    ensures
        ({
            let ua = s.reg(op.rd as int);
            let ub = s.reg(op.rs as int);
            let a = ua as int;
            let b = ub as int;
            let sa = signed_value(ua);
            let sb = signed_value(ub);
            let carry = c_flag(s.cpu.cpsr);
            let c: int = if carry { 1 } else { 0 };
            let t = op.effect(s).cpu.cpsr;
            let in_range = |x: int| -0x8000_0000 <= x < 0x8000_0000;
            let keeps_v = v_flag(t) == v_flag(s.cpu.cpsr);
            match op.op {
                AluOpCode::Adc => c_flag(t) == (a + b + c >= 0x1_0000_0000) && v_flag(t) == !in_range(
                    sa + sb + c,
                ),
                AluOpCode::Cmn => c_flag(t) == (a + b >= 0x1_0000_0000) && v_flag(t) == !in_range(
                    sa + sb,
                ),
                AluOpCode::Sbc => c_flag(t) == (a + c >= b + 1) && v_flag(t) == !in_range(
                    sa - sb - 1 + c,
                ),
                AluOpCode::Cmp => c_flag(t) == (a >= b) && v_flag(t) == !in_range(sa - sb),
                AluOpCode::Neg => c_flag(t) == (b == 0) && !v_flag(t),
                AluOpCode::Mul => c_flag(t) == ((a * b) / 0x1_0000_0000 % 2 == 1) && !v_flag(t),
                AluOpCode::And | AluOpCode::Eor | AluOpCode::Orr | AluOpCode::Tst => c_flag(t)
                    == carry && keeps_v,
                AluOpCode::Bic => !c_flag(t) && keeps_v,
                AluOpCode::Mvn => c_flag(t) && keeps_v,
                AluOpCode::Lsl => c_flag(t) == shl_spec(carry, ua, ub).1 && keeps_v,
                AluOpCode::Lsr => c_flag(t) == shr_spec(carry, ua, ub).1 && keeps_v,
                AluOpCode::Asr => c_flag(t) == asr_spec(carry, ua, ub).1 && keeps_v,
                AluOpCode::Ror => c_flag(t) == ror_spec(carry, ua, ub).1 && keeps_v,
            }
        }),
{
    let c0 = s.cpu;
    let rd = s.reg(op.rd as int);
    let rs = s.reg(op.rs as int);
    let cpsr = c0.cpsr;
    super::lemma_status_word(cpsr);
    super::lemma_flag_bits(cpsr);
    let k = ((cpsr & CPSR_C) >> 29u32) as u64;
    assert(k <= 1);
    assert(k == 1 <==> c_flag(cpsr));
    let carry = c_flag(cpsr);
    let (r64, v_alu) = alu_result(op.op, c0, rd, rs);
    let res = low_word(r64);
    crate::utils::word_arith::lemma_bit32_of(rd, rs, k);
    crate::utils::word_arith::lemma_bit32_of(shl_spec(carry, rd, rs).0, rs, k);
    crate::utils::word_arith::lemma_bit32_of(shr_spec(carry, rd, rs).0, rs, k);
    crate::utils::word_arith::lemma_bit32_of(asr_spec(carry, rd, rs).0, rs, k);
    crate::utils::word_arith::lemma_bit32_of(ror_spec(carry, rd, rs).0, rs, k);
    crate::utils::word_arith::lemma_carry_out(rd, rs, k);
    crate::utils::word_arith::lemma_carry_out(rd, rs, 1);
    crate::utils::word_arith::lemma_carry_out(rd, rs, 0);
    crate::utils::word_arith::lemma_signed_overflow(rd, rs, k);
    crate::utils::word_arith::lemma_signed_overflow(rd, rs, 1);
    crate::utils::word_arith::lemma_signed_overflow(rd, rs, 0);
    crate::utils::word_arith::lemma_product_bit32(rd, rs);
    let c = if op.op == AluOpCode::Eor { c_flag(cpsr) } else { bit32(r64) };
    let test = op.op == AluOpCode::Cmp || op.op == AluOpCode::Cmn || op.op == AluOpCode::Tst;
    let c1 = if test { c0 } else { c0.set_reg(op.rd as int, res) };
    assert(c1.cpsr == cpsr);
    let v = if alu_is_logical(op.op) { v_flag(c1.cpsr) } else { v_alu };
    super::cpu::lemma_flags_read_back(cpsr, res, v, c);
}

/// What a Thumb ALU instruction computes from the values `a` of `rd` and `b` of `rs`:
/// AND, EOR, ORR and BIC bit by bit (`a & b`, `a ^ b`, `a | b`, `a & !b`), MVN the
/// complement of `b`, the shifts what the barrel shifter gives for `a` by `b`, ADC and CMN
/// the sum, SBC, CMP and NEG the difference (`a - b - 1 + C`, `a - b`, `0 - b`) and MUL the
/// product, each wrapped round 2^32. The value lands in `rd`, except for TST, CMP and CMN,
/// which leave `rd` as it was; N is its bit 31 and Z says it is zero.
pub proof fn law_thumb_alu_value(op: ALUOp, s: Machine)
    requires
        s.valid(),
        view_wf(s.cpu),
        op.rd < 16,
        op.rs < 16,
    ensures
        ({
            let ua = s.reg(op.rd as int);
            let ub = s.reg(op.rs as int);
            let a = ua as int;
            let b = ub as int;
            let carry = c_flag(s.cpu.cpsr);
            let c: int = if carry { 1 } else { 0 };
            let value: int = match op.op {
                AluOpCode::And | AluOpCode::Tst => (ua & ub) as int,
                AluOpCode::Eor => (ua ^ ub) as int,
                AluOpCode::Orr => (ua | ub) as int,
                AluOpCode::Bic => (ua & !ub) as int,
                AluOpCode::Mvn => (!ub) as int,
                AluOpCode::Lsl => shl_spec(carry, ua, ub).0 as int,
                AluOpCode::Lsr => shr_spec(carry, ua, ub).0 as int,
                AluOpCode::Asr => asr_spec(carry, ua, ub).0 as int,
                AluOpCode::Ror => ror_spec(carry, ua, ub).0 as int,
                AluOpCode::Adc => (a + b + c) % 0x1_0000_0000,
                AluOpCode::Cmn => (a + b) % 0x1_0000_0000,
                AluOpCode::Sbc => (a - b - 1 + c) % 0x1_0000_0000,
                AluOpCode::Cmp => (a - b) % 0x1_0000_0000,
                AluOpCode::Neg => (0 - b) % 0x1_0000_0000,
                AluOpCode::Mul => (a * b) % 0x1_0000_0000,
            };
            let t = op.effect(s).cpu;
            let test = op.op == AluOpCode::Tst || op.op == AluOpCode::Cmp || op.op == AluOpCode::Cmn;
            &&& test ==> t.reg(op.rd as int) == s.reg(op.rd as int)
            &&& !test ==> t.reg(op.rd as int) as int == value
            &&& n_flag(t.cpsr) == (value >= 0x8000_0000)
            &&& z_flag(t.cpsr) == (value == 0)
        }),
{
    let c0 = s.cpu;
    let rd = s.reg(op.rd as int);
    let rs = s.reg(op.rs as int);
    let cpsr = c0.cpsr;
    super::lemma_status_word(cpsr);
    super::lemma_flag_bits(cpsr);
    let k = ((cpsr & CPSR_C) >> 29u32) as u64;
    assert(k <= 1);
    assert(k == 1 <==> c_flag(cpsr));
    let carry = c_flag(cpsr);
    let (r64, v_alu) = alu_result(op.op, c0, rd, rs);
    let res = low_word(r64);
    crate::utils::word_arith::lemma_low_word_logic(rd, rs, k);
    crate::utils::word_arith::lemma_low_word_logic(shl_spec(carry, rd, rs).0, shl_spec(carry, rd, rs).0, k);
    crate::utils::word_arith::lemma_low_word_logic(shr_spec(carry, rd, rs).0, shr_spec(carry, rd, rs).0, k);
    crate::utils::word_arith::lemma_low_word_logic(asr_spec(carry, rd, rs).0, asr_spec(carry, rd, rs).0, k);
    crate::utils::word_arith::lemma_low_word_logic(ror_spec(carry, rd, rs).0, ror_spec(carry, rd, rs).0, k);
    crate::utils::word_arith::lemma_low_word_sum(rd, rs, k);
    crate::utils::word_arith::lemma_low_word_sum(rd, rs, 1);
    crate::utils::word_arith::lemma_low_word_sum(rd, rs, 0);
    crate::utils::word_arith::lemma_low_word_product(rd, rs);
    crate::utils::word_arith::lemma_wrap(rd + rs);
    crate::utils::word_arith::lemma_wrap(rd + rs + k);
    crate::utils::word_arith::lemma_wrap(rd - rs);
    crate::utils::word_arith::lemma_wrap(rd - rs - 1 + k);
    crate::utils::word_arith::lemma_wrap(0 - rs);
    let c = if op.op == AluOpCode::Eor { c_flag(cpsr) } else { bit32(r64) };
    let test = op.op == AluOpCode::Cmp || op.op == AluOpCode::Cmn || op.op == AluOpCode::Tst;
    let c1 = if test { c0 } else { c0.set_reg(op.rd as int, res) };
    assert(c1.cpsr == cpsr);
    assert(!test ==> c1.reg(op.rd as int) == res);
    let v = if alu_is_logical(op.op) { v_flag(c1.cpsr) } else { v_alu };
    super::cpu::lemma_flags_read_back(cpsr, res, v, c);
}

/// An operation on high registers, or a branch with exchange.
#[derive(Debug, PartialEq, Eq, Structural, Clone, Copy)]
pub struct HiRegOp {
    pub op: u8,
    pub h1: bool,
    pub h2: bool,
    pub rs: usize,
    pub rd: usize,
}

impl HiRegOp {
    pub open spec fn decoded(value: u32) -> Self {
        let h1 = tflag(value, 7);
        let h2 = tflag(value, 6);
        HiRegOp {
            op: ((value >> 8) & 0x3) as u8,
            h1,
            h2,
            rd: (if h1 { triplet(value, 0) + 8 } else { triplet(value, 0) as int }) as usize,
            rs: (if h2 { triplet(value, 3) + 8 } else { triplet(value, 3) as int }) as usize,
        }
    }

    pub fn from(value: u32) -> (r: Self)
        ensures
            r == Self::decoded(value),
    {
        let h1 = (value >> 7 & 1) == 1;
        let h2 = (value >> 6 & 1) == 1;
        let rs = get_triplet_as_usize(value, 3);
        let rd = get_triplet_as_usize(value, 0);
        HiRegOp {
            op: (value >> 8 & 0x3) as u8,
            h1,
            h2,
            rd: if h1 { rd + 8 } else { rd },
            rs: if h2 { rs + 8 } else { rs },
        }
    }
}

impl Operation for HiRegOp {
    /// Operations 0-2 need a high register; ADD is a plain addition and the branch adds 2 or
    /// 4 to its target, both of which can overflow.
    open spec fn runs_ok(&self, s: Machine) -> bool {
        &&& self.rs < 16 && self.rd < 16 && self.op < 4
        &&& self.op != 3 ==> (self.h1 || self.h2)
        &&& self.op == 0 ==> s.reg(self.rd as int) + s.reg(self.rs as int) <= u32::MAX
        &&& self.op == 3 ==> (s.reg(self.rs as int) & !1u32) + 4 <= u32::MAX
    }

    /// ADD writes `rd + rs`; CMP sets the flags of `rd - rs`; MOV copies `rs`; BX switches
    /// state by bit 0 of `rs`, fetches the instruction at the target and sets the PC past
    /// it. BX takes 3 cycles, the others 1.
    open spec fn effect(&self, s: Machine) -> Machine {
        let rd = s.reg(self.rd as int);
        let rs = s.reg(self.rs as int);
        if self.op == 0 {
            s.set_reg(self.rd as int, (rd + rs) as u32).add_cycles(1)
        } else if self.op == 1 {
            let r = (rd + (0xffff_ffff - rs) + 1) as u64;
            let v = v_from_sub_spec(rd as u64, (0xffff_ffff - rs) as u64, r);
            s.with_cpu(s.cpu.with_flags(low_word(r), v, bit32(r))).add_cycles(1)
        } else if self.op == 2 {
            s.set_reg(self.rd as int, rs).add_cycles(1)
        } else {
            let thumb = rs & 1 == 1;
            let addr = rs & !1u32;
            let c1 = s.cpu.with_cpsr(cpsr_with_thumb(s.cpu.cpsr, thumb));
            let decode = if thumb {
                match read_spec(s.mem, addr as usize) {
                    Ok(w) => halfword_of(w, addr as usize),
                    Err(_) => 0,
                }
            } else {
                read_or_zero(s.mem, addr as usize)
            };
            let pc: u32 = if thumb { (addr + 2) as u32 } else { (addr + 4) as u32 };
            s.with_cpu(c1.with_decode(decode, addr as usize).set_reg(15, pc).add_cycles(3))
        }
    }

    fn run(&self, cpu: &mut CPU, mem: &mut SystemMemory) {
        let rd = cpu.get_register(self.rd);
        let rs = cpu.get_register(self.rs);
        if self.op == 0 {
            cpu.set_register(self.rd, rd + rs);
        } else if self.op == 1 {
            let (res, v_status) = subtract_nums(rd, rs, false);
            let c_status = (res >> 32) & 1 == 1;
            cpu.update_cpsr((res & 0xffffffff) as u32, v_status, c_status);
        } else if self.op == 2 {
            cpu.set_register(self.rd, rs);
        } else {
            let mut addr = cpu.get_register(self.rs);
            cpu.update_thumb(addr & 1 == 1);
            addr &= !1;
            let next_inst = if cpu.is_thumb_mode() {
                mem.read_halfword(addr as usize)
            } else {
                mem.read_word(addr as usize)
            };
            cpu.decode = match next_inst {
                Ok(n) => n,
                Err(_) => 0,
            };
            cpu.inst_addr = addr as usize;
            if cpu.cpsr & super::CPSR_T == super::CPSR_T {
                cpu.set_register(PC, addr + 2);
            } else {
                cpu.set_register(PC, addr + 4);
            }
        }
        if self.op == 0b11 {
            cpu.add_cycles(3);
        } else {
            cpu.add_cycles(1);
        }
    }
}


/// A load relative to the PC.
#[derive(Debug, PartialEq, Eq, Structural, Clone, Copy)]
pub struct PcRelativeLoadOp {
    pub rd: usize,
    pub word: u32,
}

impl PcRelativeLoadOp {
    pub open spec fn decoded(value: u32) -> Self {
        PcRelativeLoadOp { rd: triplet(value, 8) as usize, word: value & 0xff }
    }

    pub fn from(value: u32) -> (r: Self)
        ensures
            r == Self::decoded(value),
    {
        PcRelativeLoadOp { rd: get_triplet_as_usize(value, 8), word: (value & 0xff) as u32 }
    }

    pub open spec fn address_spec(self, s: Machine) -> int {
        s.reg(15) + (self.word << 2u32)
    }
}

impl Operation for PcRelativeLoadOp {
    /// The address is a plain sum, the read must succeed, and cartridge RAM has no word
    /// timing.
    open spec fn runs_ok(&self, s: Machine) -> bool {
        let a = self.address_spec(s);
        &&& self.rd < 16 && self.word <= 0xff
        &&& a <= u32::MAX
        &&& read_spec(s.mem, a as usize) is Ok
        &&& mem_type(a as usize) != 0xe
    }

    /// Loads the word at the PC plus four times the offset into `rd`.
    open spec fn effect(&self, s: Machine) -> Machine {
        let a = self.address_spec(s) as usize;
        let cycles = str_ldr_cycles_spec(true, self.rd == 15, cycles_32_spec(a));
        s.set_reg(self.rd as int, read_spec(s.mem, a)->Ok_0).add_cycles(cycles as u32)
    }

    fn run(&self, cpu: &mut CPU, mem: &mut SystemMemory) {
        let word = self.word;
        proof {
            crate::utils::lemma_word_fields(word, 0);
        }
        let offset = word << 2;
        let addr = (cpu.get_register(PC) + offset) as usize;
        let block_from_mem = match mem.read_word(addr) {
            Ok(n) => n,
            Err(_) => 0,
        };
        cpu.set_register(self.rd, block_from_mem);
        let cycles_per_entries = read_cycles_per_32(addr);
        cpu.add_cycles(cycles_for_str_ldr(true, self.rd == PC, cycles_per_entries))
    }
}

/// A load or store with a register offset.
#[derive(Debug, PartialEq, Eq, Structural, Clone, Copy)]
pub struct LoadStoreRegOffsetOp {
    pub l: bool,
    pub b: bool,
    pub ro: usize,
    pub rb: usize,
    pub rd: usize,
}

impl LoadStoreRegOffsetOp {
    pub open spec fn decoded(value: u32) -> Self {
        LoadStoreRegOffsetOp {
            l: tflag(value, 11),
            b: tflag(value, 10),
            ro: triplet(value, 6) as usize,
            rb: triplet(value, 3) as usize,
            rd: triplet(value, 0) as usize,
        }
    }

    pub fn from(value: u32) -> (r: Self)
        ensures
            r == Self::decoded(value),
    {
        LoadStoreRegOffsetOp {
            l: (value >> 11 & 1) == 1,
            b: (value >> 10 & 1) == 1,
            ro: get_triplet_as_usize(value, 6),
            rb: get_triplet_as_usize(value, 3),
            rd: get_triplet_as_usize(value, 0),
        }
    }

    /// The base plus the offset register read as a signed number.
    pub open spec fn address_spec(self, s: Machine) -> int {
        let ro = s.reg(self.ro as int);
        if is_signed_spec(ro) {
            s.reg(self.rb as int) - abs_value_spec(ro)
        } else {
            s.reg(self.rb as int) + abs_value_spec(ro)
        }
    }
}

impl Operation for LoadStoreRegOffsetOp {
    /// The address must not leave 32 bits, a load must read, and a word access must avoid
    /// cartridge RAM.
    open spec fn runs_ok(&self, s: Machine) -> bool {
        let a = self.address_spec(s);
        &&& self.ro < 16 && self.rb < 16 && self.rd < 16
        &&& 0 <= a <= u32::MAX
        &&& self.l ==> read_spec(s.mem, a as usize) is Ok
        &&& !self.b ==> mem_type(a as usize) != 0xe
    }

    /// Loads a byte or word into `rd`, or stores `rd` as a byte or word (a failed store is
    /// ignored).
    open spec fn effect(&self, s: Machine) -> Machine {
        let a = self.address_spec(s) as usize;
        let s1 = if self.l {
            let w = read_spec(s.mem, a)->Ok_0;
            s.set_reg(self.rd as int, if self.b { byte_of(w, a) } else { w })
        } else if self.b {
            s.write(a, s.reg(self.rd as int), BYTE)
        } else {
            s.write(a, s.reg(self.rd as int), WORD)
        };
        let cycles = if self.b { cycles_8_16_spec(a) } else { cycles_32_spec(a) };
        s1.add_cycles(str_ldr_cycles_spec(self.l, self.rd == 15, cycles) as u32)
    }

    fn run(&self, cpu: &mut CPU, mem: &mut SystemMemory) {
        let ro_val = cpu.get_register(self.ro);
        let offset = get_abs_int_value(ro_val);
        let addr = if is_signed(ro_val) {
            (cpu.get_register(self.rb) - offset) as usize
        } else {
            (cpu.get_register(self.rb) + offset) as usize
        };
        if self.l {
            let block = if self.b {
                mem.read_byte(addr)
            } else {
                mem.read_word(addr)
            };
            let data = match block {
                Ok(n) => n,
                Err(_) => 0,
            };
            cpu.set_register(self.rd, data);
        } else {
            let value = cpu.get_register(self.rd);
            if self.b {
                let _ = mem.write_byte(addr, value);
            } else {
                let _ = mem.write_word(addr, value);
            }
        }
        let cycles = if self.b {
            read_cycles_per_8_16(addr)
        } else {
            read_cycles_per_32(addr)
        };
        cpu.add_cycles(cycles_for_str_ldr(self.l, self.rd == PC, cycles));
    }
}

/// A halfword store, or a sign-extended or halfword load, with a register offset.
#[derive(Debug, PartialEq, Eq, Structural, Clone, Copy)]
pub struct LoadStoreSignExOp {
    pub h: bool,
    pub s: bool,
    pub ro: usize,
    pub rb: usize,
    pub rd: usize,
}

impl LoadStoreSignExOp {
    pub open spec fn decoded(value: u32) -> Self {
        LoadStoreSignExOp {
            h: tflag(value, 11),
            s: tflag(value, 10),
            ro: triplet(value, 6) as usize,
            rb: triplet(value, 3) as usize,
            rd: triplet(value, 0) as usize,
        }
    }

    pub fn from(value: u32) -> (r: Self)
        ensures
            r == Self::decoded(value),
    {
        LoadStoreSignExOp {
            h: (value >> 11 & 1) == 1,
            s: (value >> 10 & 1) == 1,
            ro: get_triplet_as_usize(value, 6),
            rb: get_triplet_as_usize(value, 3),
            rd: get_triplet_as_usize(value, 0),
        }
    }
}

impl Operation for LoadStoreSignExOp {
    open spec fn runs_ok(&self, s: Machine) -> bool {
        self.ro < 16 && self.rb < 16 && self.rd < 16 && s.reg(self.rb as int) + s.reg(self.ro as int)
            <= u32::MAX
    }

    /// With neither H nor S, stores `rd` as a halfword; otherwise loads a halfword (H), a
    /// sign-extended byte (S) or a sign-extended halfword (both) into `rd`, 0 when the read
    /// fails.
    open spec fn effect(&self, s: Machine) -> Machine {
        let a = (s.reg(self.rb as int) + s.reg(self.ro as int)) as usize;
        let s1 = if !self.h && !self.s {
            s.write(a, s.reg(self.rd as int), HALFWORD)
        } else {
            let value = match read_spec(s.mem, a) {
                Ok(w) => if self.h && !self.s {
                    halfword_of(w, a)
                } else if !self.h && self.s {
                    sign_extend8(byte_of(w, a))
                } else {
                    sign_extend16(halfword_of(w, a))
                },
                Err(_) => 0,
            };
            s.set_reg(self.rd as int, value)
        };
        s1.add_cycles(str_ldr_cycles_spec(self.s || self.h, self.rd == 15, cycles_8_16_spec(a)) as u32)
    }

    fn run(&self, cpu: &mut CPU, mem: &mut SystemMemory) {
        let addr = (cpu.get_register(self.rb) + cpu.get_register(self.ro)) as usize;
        if !self.h && !self.s {
            let value = cpu.get_register(self.rd);
            let _ = mem.write_halfword(addr, value);
        } else {
            let data = if self.h && !self.s {
                mem.read_halfword(addr)
            } else if !self.h && self.s {
                mem.read_byte_sign_ex(addr)
            } else {
                mem.read_halfword_sign_ex(addr)
            };
            let data = match data {
                Ok(n) => n,
                Err(_) => 0,
            };
            cpu.set_register(self.rd, data);
        }
        let cycles = read_cycles_per_8_16(addr);
        cpu.add_cycles(cycles_for_str_ldr(self.s || self.h, self.rd == PC, cycles));
    }
}

/// A load or store with an immediate offset.
#[derive(Debug, PartialEq, Eq, Structural, Clone, Copy)]
pub struct LoadStoreImmOffsetOp {
    pub b: bool,
    pub l: bool,
    pub offset: u32,
    pub rb: usize,
    pub rd: usize,
}

impl LoadStoreImmOffsetOp {
    pub open spec fn decoded(value: u32) -> Self {
        LoadStoreImmOffsetOp {
            b: tflag(value, 12),
            l: tflag(value, 11),
            offset: (value >> 6) & 0x1f,
            rb: triplet(value, 3) as usize,
            rd: triplet(value, 0) as usize,
        }
    }

    pub fn from(value: u32) -> (r: Self)
        ensures
            r == Self::decoded(value),
    {
        LoadStoreImmOffsetOp {
            b: (value >> 12 & 1) == 1,
            l: (value >> 11 & 1) == 1,
            offset: value >> 6 & 0x1f,
            rb: get_triplet_as_usize(value, 3),
            rd: get_triplet_as_usize(value, 0),
        }
    }

    /// The base plus the offset, in bytes for a byte transfer and in words otherwise.
    pub open spec fn address_spec(self, s: Machine) -> int {
        s.reg(self.rb as int) + if self.b { self.offset } else { self.offset << 2u32 }
    }
}

impl Operation for LoadStoreImmOffsetOp {
    open spec fn runs_ok(&self, s: Machine) -> bool {
        &&& self.rb < 16 && self.rd < 16 && self.offset <= 0x1f
        &&& self.address_spec(s) <= u32::MAX
        &&& !self.b ==> mem_type(self.address_spec(s) as usize) != 0xe
    }

    /// Loads a byte or word into `rd` (0 when the read fails), or stores `rd` as a byte or
    /// word.
    open spec fn effect(&self, s: Machine) -> Machine {
        let a = self.address_spec(s) as usize;
        let s1 = if self.l {
            let value = match read_spec(s.mem, a) {
                Ok(w) => if self.b { byte_of(w, a) } else { w },
                Err(_) => 0,
            };
            s.set_reg(self.rd as int, value)
        } else if self.b {
            s.write(a, s.reg(self.rd as int), BYTE)
        } else {
            s.write(a, s.reg(self.rd as int), WORD)
        };
        let cycles = if self.b { cycles_8_16_spec(a) } else { cycles_32_spec(a) };
        s1.add_cycles(str_ldr_cycles_spec(self.l, self.rd == 15, cycles) as u32)
    }

    fn run(&self, cpu: &mut CPU, mem: &mut SystemMemory) {
        let offset = self.offset;
        proof {
            crate::utils::lemma_word_fields(offset, 0);
        }
        let addr = (cpu.get_register(self.rb) + if self.b { offset } else { offset << 2 }) as usize;
        if self.l {
            let val = if self.b {
                mem.read_byte(addr)
            } else {
                mem.read_word(addr)
            };
            let res = match val {
                Ok(n) => n,
                Err(_) => 0,
            };
            cpu.set_register(self.rd, res);
        } else {
            let value = cpu.get_register(self.rd);
            if self.b {
                let _ = mem.write_byte(addr, value);
            } else {
                let _ = mem.write_word(addr, value);
            }
        }
        let cycles = if self.b {
            read_cycles_per_8_16(addr)
        } else {
            read_cycles_per_32(addr)
        };
        cpu.add_cycles(cycles_for_str_ldr(self.l, self.rd == PC, cycles));
    }
}

/// A halfword load or store with an immediate offset.
#[derive(Debug, PartialEq, Eq, Structural, Clone, Copy)]
pub struct LoadStoreHalfWordOp {
    pub l: bool,
    pub offset: u32,
    pub rb: usize,
    pub rd: usize,
}

impl LoadStoreHalfWordOp {
    pub open spec fn decoded(value: u32) -> Self {
        LoadStoreHalfWordOp {
            l: tflag(value, 11),
            offset: (value >> 5) & 0x3e,
            rb: triplet(value, 3) as usize,
            rd: triplet(value, 0) as usize,
        }
    }

    pub fn from(value: u32) -> (r: Self)
        ensures
            r == Self::decoded(value),
    {
        LoadStoreHalfWordOp {
            l: (value >> 11 & 1) == 1,
            offset: (value >> 5 & 0x3e) as u32,
            rb: get_triplet_as_usize(value, 3),
            rd: get_triplet_as_usize(value, 0),
        }
    }
}

impl Operation for LoadStoreHalfWordOp {
    /// The address is a plain sum, and a load must read.
    open spec fn runs_ok(&self, s: Machine) -> bool {
        let a = s.reg(self.rb as int) + self.offset;
        &&& self.rb < 16 && self.rd < 16
        &&& a <= u32::MAX
        &&& self.l ==> read_spec(s.mem, a as usize) is Ok
    }

    /// Loads the halfword at the address into `rd`, or stores `rd` as a halfword.
    open spec fn effect(&self, s: Machine) -> Machine {
        let a = (s.reg(self.rb as int) + self.offset) as usize;
        let s1 = if self.l {
            s.set_reg(self.rd as int, halfword_of(read_spec(s.mem, a)->Ok_0, a))
        } else {
            s.write(a, s.reg(self.rd as int), HALFWORD)
        };
        s1.add_cycles(str_ldr_cycles_spec(self.l, self.rd == 15, cycles_8_16_spec(a)) as u32)
    }

    fn run(&self, cpu: &mut CPU, mem: &mut SystemMemory) {
        let addr = (cpu.get_register(self.rb) + self.offset) as usize;
        if self.l {
            let block_from_mem = match mem.read_halfword(addr) {
                Ok(n) => n,
                Err(_) => 0,
            };
            cpu.set_register(self.rd, block_from_mem);
        } else {
            let value = cpu.get_register(self.rd);
            let _ = mem.write_halfword(addr, value);
        }
        let cycles = read_cycles_per_8_16(addr);
        cpu.add_cycles(cycles_for_str_ldr(self.l, self.rd == PC, cycles));
    }
}

/// A load or store relative to the stack pointer.
#[derive(Debug, PartialEq, Eq, Structural, Clone, Copy)]
pub struct SpRelativeLoadOp {
    pub l: bool,
    pub rd: usize,
    pub offset: u32,
}

impl SpRelativeLoadOp {
    pub open spec fn decoded(value: u32) -> Self {
        SpRelativeLoadOp { l: tflag(value, 11), rd: triplet(value, 8) as usize, offset: (value & 0xff) << 2u32 }
    }

    pub fn from(value: u32) -> (r: Self)
        ensures
            r == Self::decoded(value),
    {
        SpRelativeLoadOp {
            l: (value >> 11 & 1) == 1,
            rd: get_triplet_as_usize(value, 8),
            offset: (value & 0xff) << 2,
        }
    }
}

impl Operation for SpRelativeLoadOp {
    /// The address is a plain sum, the access must succeed whether a load or a store, and
    /// cartridge RAM has no word timing.
    open spec fn runs_ok(&self, s: Machine) -> bool {
        let a = s.reg(13) + self.offset;
        &&& self.rd < 16
        &&& a <= u32::MAX
        &&& read_spec(s.mem, a as usize) is Ok
        &&& mem_type(a as usize) != 0xe
    }

    /// Loads the word at SP plus the offset into `rd`, or stores `rd` there.
    open spec fn effect(&self, s: Machine) -> Machine {
        let a = (s.reg(13) + self.offset) as usize;
        let s1 = if self.l {
            s.set_reg(self.rd as int, read_spec(s.mem, a)->Ok_0)
        } else {
            s.write(a, s.reg(self.rd as int), WORD)
        };
        s1.add_cycles(str_ldr_cycles_spec(self.l, self.rd == 15, cycles_32_spec(a)) as u32)
    }

    fn run(&self, cpu: &mut CPU, mem: &mut SystemMemory) {
        let addr = (cpu.get_register(SP) + self.offset) as usize;
        if self.l {
            let block_from_mem = match mem.read_word(addr) {
                Ok(n) => n,
                Err(_) => 0,
            };
            cpu.set_register(self.rd, block_from_mem);
        } else {
            let value = cpu.get_register(self.rd);
            let _ = mem.write_word(addr, value);
        }
        let cycles = read_cycles_per_32(addr);
        cpu.add_cycles(cycles_for_str_ldr(self.l, self.rd == PC, cycles));
    }
}

/// Loads an address relative to the SP or the PC.
#[derive(Debug, PartialEq, Eq, Structural, Clone, Copy)]
pub struct LoadAddressOp {
    pub sp: bool,
    pub rd: usize,
    pub word: u32,
}

impl LoadAddressOp {
    pub open spec fn decoded(value: u32) -> Self {
        LoadAddressOp { sp: tflag(value, 11), rd: triplet(value, 8) as usize, word: (value & 0xff) << 2u32 }
    }

    pub fn from(value: u32) -> (r: Self)
        ensures
            r == Self::decoded(value),
    {
        LoadAddressOp {
            sp: (value >> 11 & 0x1) == 1,
            rd: get_triplet_as_usize(value, 8),
            word: (value & 0xff) << 2,
        }
    }

    /// SP plus the offset, or the PC with its low two bits cleared plus the offset.
    pub open spec fn value_spec(self, s: Machine) -> int {
        if self.sp {
            s.reg(13) + self.word
        } else {
            (s.reg(15) & !3u32) + self.word
        }
    }
}

impl Operation for LoadAddressOp {
    open spec fn runs_ok(&self, s: Machine) -> bool {
        self.rd < 16 && self.value_spec(s) <= u32::MAX
    }

    open spec fn effect(&self, s: Machine) -> Machine {
        let cycles: u32 = if self.rd == 15 { 3 } else { 1 };
        s.set_reg(self.rd as int, self.value_spec(s) as u32).add_cycles(cycles)
    }

    fn run(&self, cpu: &mut CPU, _mem: &mut SystemMemory) {
        let res = if self.sp {
            cpu.get_register(SP) + self.word
        } else {
            (cpu.get_register(PC) & !3) + self.word
        };
        cpu.set_register(self.rd, res);
        if self.rd == PC {
            cpu.add_cycles(3)
        } else {
            cpu.add_cycles(1)
        }
    }
}

/// Adds a signed offset to the stack pointer.
#[derive(Debug, PartialEq, Eq, Structural, Clone, Copy)]
pub struct AddOffsetSPOp {
    pub s: bool,
    pub word: u32,
}

impl AddOffsetSPOp {
    pub open spec fn decoded(value: u32) -> Self {
        AddOffsetSPOp { s: tflag(value, 7), word: (value & 0x7f) << 2u32 }
    }

    pub fn from(value: u32) -> (r: Self)
        ensures
            r == Self::decoded(value),
    {
        AddOffsetSPOp { s: (value >> 7 & 1) == 1, word: (value & 0x7f) << 2 }
    }
}

impl Operation for AddOffsetSPOp {
    open spec fn runs_ok(&self, s: Machine) -> bool {
        if self.s {
            s.reg(13) >= self.word
        } else {
            s.reg(13) + self.word <= u32::MAX
        }
    }

    /// Subtracts (`s`) or adds the offset to SP; 1 cycle.
    open spec fn effect(&self, s: Machine) -> Machine {
        let sp = if self.s { s.reg(13) - self.word } else { s.reg(13) + self.word };
        s.set_reg(13, sp as u32).add_cycles(1)
    }

    fn run(&self, cpu: &mut CPU, _mem: &mut SystemMemory) {
        if self.s {
            let sp = cpu.get_register(SP) - self.word;
            cpu.set_register(SP, sp);
        } else {
            let sp = cpu.get_register(SP) + self.word;
            cpu.set_register(SP, sp);
        }
        cpu.add_cycles(1);
    }
}


/// A push or pop of low registers, with LR (push) or PC (pop) when `r` is set.
#[derive(Debug, PartialEq, Eq, Structural, Clone, Copy)]
pub struct PushPopRegOp {
    pub l: bool,
    pub r: bool,
    pub rlist: u8,
}

impl PushPopRegOp {
    pub open spec fn decoded(value: u32) -> Self {
        PushPopRegOp { l: tflag(value, 11), r: tflag(value, 8), rlist: (value & 0xff) as u8 }
    }

    pub fn from(value: u32) -> (r: Self)
        ensures
            r == Self::decoded(value),
    {
        PushPopRegOp { l: (value >> 11 & 1) == 1, r: (value >> 8 & 1) == 1, rlist: (value & 0xff) as u8 }
    }

    /// The registers transferred, in increasing order.
    pub open spec fn registers(self) -> Seq<u32> {
        let low = set_bits_below(self.rlist as u32, 31);
        if self.r {
            low.push(if self.l { 15u32 } else { 14u32 })
        } else {
            low
        }
    }

    /// The instruction word that a pop into the PC fetches at `addr`.
    pub open spec fn fetch(s: Machine, addr: usize) -> Result<u32, crate::memory::MemoryError> {
        match read_spec(s.mem, addr) {
            Ok(w) => if s.cpu.is_thumb() { Ok(halfword_of(w, addr)) } else { Ok(w) },
            Err(e) => Err(e),
        }
    }

    /// Whether transfer `i` completes from `s`: SP must not leave 32 bits, and a pop into
    /// the PC must fetch the next instruction.
    pub open spec fn step_ok(self, regs: Seq<u32>, i: int, s: Machine) -> bool {
        if self.l {
            let reg = regs[i];
            let value = match read_spec(s.mem, s.reg(13) as usize) {
                Ok(n) => if reg == 15 { n & 0xfffffffe } else { n },
                Err(_) => 0,
            };
            let s1 = s.set_reg(reg as int, value);
            &&& reg == 15 ==> Self::fetch(s1, s1.reg(15) as usize) is Ok
            &&& reg == 15 ==> s1.reg(15) + 2 <= usize::MAX
            &&& s.reg(13) + 4 <= u32::MAX
        } else {
            s.reg(13) >= 4
        }
    }

    /// Transfer `i`: a pop loads the word at SP into the `i`-th register (bit 0 cleared for
    /// the PC, 0 when the read fails), fetches the next instruction and sets the PC 2 past
    /// it when that register is the PC, then adds 4 to SP; a push subtracts 4 from SP and
    /// stores the registers from the highest down.
    pub open spec fn step(self, regs: Seq<u32>, i: int, s: Machine) -> Machine {
        if self.l {
            let reg = regs[i];
            let value = match read_spec(s.mem, s.reg(13) as usize) {
                Ok(n) => if reg == 15 { n & 0xfffffffe } else { n },
                Err(_) => 0,
            };
            let s1 = s.set_reg(reg as int, value);
            let s2 = if reg == 15 {
                let addr = s1.reg(15) as usize;
                let c = s1.cpu.with_decode(Self::fetch(s1, addr)->Ok_0, s1.cpu.inst_addr);
                s1.with_cpu(c).set_reg(15, (addr + 2) as u32)
            } else {
                s1
            };
            s2.set_reg(13, (s2.reg(13) + 4) as u32)
        } else {
            let reg = regs[regs.len() - i - 1];
            let s1 = s.set_reg(13, (s.reg(13) - 4) as u32);
            s1.write(s1.reg(13) as usize, s1.reg(reg as int), WORD)
        }
    }

    pub open spec fn steps(self, regs: Seq<u32>, k: nat, s: Machine) -> Machine
        decreases k,
    {
        if k == 0 {
            s
        } else {
            self.step(regs, k - 1, self.steps(regs, (k - 1) as nat, s))
        }
    }

    pub open spec fn steps_ok(self, regs: Seq<u32>, k: nat, s: Machine) -> bool
        decreases k,
    {
        if k == 0 {
            true
        } else {
            self.steps_ok(regs, (k - 1) as nat, s) && self.step_ok(regs, k - 1, self.steps(regs, (k - 1) as nat, s))
        }
    }
}

impl Operation for PushPopRegOp {
    open spec fn runs_ok(&self, s: Machine) -> bool {
        let regs = self.registers();
        let after = self.steps(regs, regs.len(), s);
        self.steps_ok(regs, regs.len(), s) && mem_type(after.reg(13) as usize) != 0xe
    }

    /// Every transfer in turn, then the block timing of the final SP.
    open spec fn effect(&self, s: Machine) -> Machine {
        let regs = self.registers();
        let after = self.steps(regs, regs.len(), s);
        let cycles = stm_ldm_cycles_spec(cycles_32_spec(after.reg(13) as usize), regs.len() as u32, self.l, regs.contains(15));
        after.add_cycles(cycles as u32)
    }

    fn run(&self, cpu: &mut CPU, mem: &mut SystemMemory) {
        let ghost s0 = machine(cpu, mem);
        let mut registers = bit_map_to_array(self.rlist as u32);
        proof {
            super::lemma_register_list(self.rlist as u32);
            super::lemma_low_register_list(self.rlist as u32);
        }
        if self.r {
            registers.push(if self.l { PC as u32 } else { LR as u32 });
        }
        assert(registers@ == self.registers());
        let n = registers.len();
        assert(n <= 17);
        let mut i: usize = 0;
        while i < n
            invariant
                n == registers.len(),
                registers@ == self.registers(),
                i <= n,
                n <= 17,
                forall|j: int| 0 <= j < n ==> #[trigger] registers@[j] < 16 && registers@[j] != 13,
                self.runs_ok(s0),
                machine(cpu, mem).valid(),
                machine(cpu, mem) == self.steps(registers@, i as nat, s0),
                self.steps_ok(registers@, n as nat, s0),
            decreases n - i,
        {
            let ghost before = machine(cpu, mem);
            proof {
                lemma_steps_ok_prefix(*self, registers@, s0, (i + 1) as nat, n as nat);
            }
            if self.l {
                let reg = registers[i];
                let sp = cpu.get_register(SP);
                let value = match mem.read_word(sp as usize) {
                    Ok(n) => {
                        if reg == PC as u32 {
                            n & 0xfffffffe
                        } else {
                            n
                        }
                    },
                    Err(_) => 0,
                };
                cpu.set_register(reg as usize, value);
                if reg == PC as u32 {
                    let addr = cpu.get_register(PC) as usize;
                    let next_inst = if cpu.is_thumb_mode() {
                        mem.read_halfword(addr as usize)
                    } else {
                        mem.read_word(addr as usize)
                    };
                    cpu.decode = match next_inst {
                        Ok(n) => n,
                        Err(_) => 0,
                    };
                    cpu.set_register(reg as usize, (addr + 2) as u32)
                }
                let sp = cpu.get_register(SP);
                cpu.set_register(SP, sp + 4);
            } else {
                let reg = registers[n - i - 1];
                let sp = cpu.get_register(SP);
                cpu.set_register(SP, sp - 4);
                let addr = cpu.get_register(SP) as usize;
                let value = cpu.get_register(reg as usize);
                let _ = mem.write_word(addr, value);
                proof {
                    super::arm::lemma_write_keeps_regions(before.mem, addr, value, WORD);
                }
            }
            assert(machine(cpu, mem) == self.step(registers@, i as int, before));
            i += 1;
        }
        let sp = cpu.get_register(SP);
        let cycles_per_entires = read_cycles_per_32(sp as usize);
        let is_pc = contains_u32(&registers, PC as u32);
        assert(cycles_per_entires * (n as u32) + 4 <= u32::MAX) by (nonlinear_arith)
            requires cycles_per_entires <= 8, n <= 17;
        let cycles = calc_cycles_for_stm_ldm(cycles_per_entires, n as u32, self.l, is_pc);
        cpu.add_cycles(cycles);
    }
}

/// Every prefix of a run that completes completes too.
pub proof fn lemma_steps_ok_prefix(op: PushPopRegOp, regs: Seq<u32>, s: Machine, k: nat, n: nat)
    requires
        k <= n,
        op.steps_ok(regs, n, s),
    ensures
        op.steps_ok(regs, k, s),
    decreases n - k,
{
    if k < n {
        lemma_steps_ok_prefix(op, regs, s, (k + 1) as nat, n);
    }
}


/// The number of set bits of `b` below position `k`.
pub open spec fn ones_below(b: u8, k: int) -> int
    decreases k,
{
    if k <= 0 {
        0
    } else {
        ones_below(b, k - 1) + if (b >> ((k - 1) as u8)) & 1 == 1 { 1int } else { 0int }
    }
}

pub proof fn lemma_ones_below_monotone(b: u8, j: int, k: int)
    requires
        0 <= j <= k,
    ensures
        ones_below(b, j) <= ones_below(b, k),
    decreases k - j,
{
    if j < k {
        lemma_ones_below_monotone(b, j, k - 1);
    }
}

/// A load or store of several low registers from increasing addresses at `rb`.
#[derive(Debug, PartialEq, Eq, Structural, Clone, Copy)]
pub struct MultipleLoadStoreOp {
    pub l: bool,
    pub rb: usize,
    pub rlist: u8,
}

impl MultipleLoadStoreOp {
    pub open spec fn decoded(value: u32) -> Self {
        MultipleLoadStoreOp { l: tflag(value, 11), rb: triplet(value, 8) as usize, rlist: (value & 0xff) as u8 }
    }

    pub fn from(value: u32) -> (r: Self)
        ensures
            r == Self::decoded(value),
    {
        MultipleLoadStoreOp {
            l: (value >> 11 & 1) == 1,
            rb: get_triplet_as_usize(value, 8),
            rlist: (value & 0xff) as u8,
        }
    }

    /// Transfer of register `i` at address `a` when it is in the list.
    pub open spec fn step(self, i: int, s: Machine, a: int) -> (Machine, int) {
        if (self.rlist >> (i as u8)) & 1 == 1 {
            let s1 = if self.l {
                s.set_reg(i, read_or_zero(s.mem, a as usize))
            } else {
                s.write(a as usize, s.reg(i), WORD)
            };
            (s1, a + 4)
        } else {
            (s, a)
        }
    }

    pub open spec fn steps(self, k: nat, s: Machine, a: int) -> (Machine, int)
        decreases k,
    {
        if k == 0 {
            (s, a)
        } else {
            let (s1, a1) = self.steps((k - 1) as nat, s, a);
            self.step(k - 1, s1, a1)
        }
    }

    pub proof fn lemma_steps_address(self, k: nat, s: Machine, a: int)
        ensures
            self.steps(k, s, a).1 == a + 4 * ones_below(self.rlist, k as int),
        decreases k,
    {
        if k > 0 {
            self.lemma_steps_address((k - 1) as nat, s, a);
        }
    }
}

impl Operation for MultipleLoadStoreOp {
    /// The address must stay within the address space, and the final address must avoid
    /// cartridge RAM.
    open spec fn runs_ok(&self, s: Machine) -> bool {
        let a = s.reg(self.rb as int) + 4 * ones_below(self.rlist, 8);
        &&& self.rb < 8
        &&& a <= usize::MAX
        &&& mem_type(a as usize) != 0xe
    }

    /// Loads or stores each listed register r0-r7 in turn at increasing word addresses from
    /// `rb`, then writes the final address to `rb`; takes the block timing of that address.
    open spec fn effect(&self, s: Machine) -> Machine {
        let (s1, a) = self.steps(8, s, s.reg(self.rb as int) as int);
        let n = set_bits_below(self.rlist as u32, 31).len();
        let s2 = s1.set_reg(self.rb as int, a as u32);
        s2.add_cycles(stm_ldm_cycles_spec(cycles_32_spec(a as usize), n as u32, self.l, false) as u32)
    }

    fn run(&self, cpu: &mut CPU, mem: &mut SystemMemory) {
        let ghost s0 = machine(cpu, mem);
        let mut address = cpu.get_register(self.rb) as usize;
        let ghost a0 = address as int;
        let mut i: usize = 0;
        while i < 8
            invariant
                i <= 8,
                self.runs_ok(s0),
                self.rb < 8,
                a0 == s0.reg(self.rb as int) as int,
                machine(cpu, mem).valid(),
                (machine(cpu, mem), address as int) == self.steps(i as nat, s0, a0),
            decreases 8 - i,
        {
            let ghost before = machine(cpu, mem);
            let ghost before_a = address as int;
            proof {
                self.lemma_steps_address(i as nat, s0, a0);
                lemma_ones_below_monotone(self.rlist, i as int + 1, 8);
                assert(ones_below(self.rlist, i as int + 1) == ones_below(self.rlist, i as int) + if (self.rlist >> (i as u8)) & 1 == 1 { 1int } else { 0int });
            }
            if (self.rlist >> i) & 1 == 1 {
                if self.l {
                    let value = match mem.read_word(address) {
                        Ok(n) => n,
                        Err(_) => 0,
                    };
                    cpu.set_register(i, value);
                } else {
                    let value = cpu.get_register(i);
                    let _ = mem.write_word(address, value);
                    proof {
                        super::arm::lemma_write_keeps_regions(before.mem, address, value, WORD);
                    }
                }
                address += 4;
            }
            assert((machine(cpu, mem), address as int) == self.step(i as int, before, before_a));
            i += 1;
        }
        proof {
            self.lemma_steps_address(8, s0, a0);
        }
        cpu.set_register(self.rb, address as u32);
        let registers = bit_map_to_array(self.rlist as u32);
        proof {
            super::lemma_register_list(self.rlist as u32);
        }
        let n = registers.len() as u32;
        let cycles_per_entires = read_cycles_per_32(address);
        assert(cycles_per_entires * n + 4 <= u32::MAX) by (nonlinear_arith)
            requires cycles_per_entires <= 8, n <= 16;
        let cycles = calc_cycles_for_stm_ldm(cycles_per_entires, n, self.l, false);
        cpu.add_cycles(cycles);
    }
}


/// A conditional branch by a signed 8-bit halfword offset.
#[derive(Debug, PartialEq, Eq, Structural, Clone, Copy)]
pub struct ConditionalBranchOp {
    pub cond: Conditional,
    pub offset: u32,
}

/// The byte offset of a conditional branch: twice the 8-bit field read as signed.
pub open spec fn cond_branch_offset(offset: u32) -> int {
    if offset & 0x80 == 0x80 {
        2 * offset - 512
    } else {
        2 * offset
    }
}

impl ConditionalBranchOp {
    /// Conditions 0-13 decode; 14 and 15 are not conditions of this format.
    pub open spec fn decoded(value: u32) -> Result<Self, InstructionDecodeError> {
        let code = (value >> 8) & 0xf;
        if code <= 13 {
            Ok(ConditionalBranchOp { offset: value & 0xff, cond: super::conditional_from_code(code) })
        } else {
            Err(InstructionDecodeError::ConditionalNotValid { cond: code, value })
        }
    }

    pub fn try_from(value: u32) -> (r: Result<Self, InstructionDecodeError>)
        ensures
            r == Self::decoded(value),
    {
        let code = value >> 8 & 0xf;
        let cond = match code {
            0 => Conditional::EQ,
            1 => Conditional::NE,
            2 => Conditional::CS,
            3 => Conditional::CC,
            4 => Conditional::MI,
            5 => Conditional::PL,
            6 => Conditional::VS,
            7 => Conditional::VC,
            8 => Conditional::HI,
            9 => Conditional::LS,
            10 => Conditional::GE,
            11 => Conditional::LT,
            12 => Conditional::GT,
            13 => Conditional::LE,
            _ => {
                return Err(InstructionDecodeError::ConditionalNotValid { cond: value >> 8 & 0xf, value });
            },
        };
        Ok(ConditionalBranchOp { offset: (value & 0xff) as u32, cond })
    }

    pub open spec fn target(self, s: Machine) -> int {
        s.reg(15) + cond_branch_offset(self.offset)
    }
}

impl Operation for ConditionalBranchOp {
    /// A taken branch computes its target and the new PC with plain arithmetic.
    open spec fn runs_ok(&self, s: Machine) -> bool {
        self.offset <= 0xff && (condition_holds(self.cond, s.cpu.cpsr) ==> 0 <= self.target(s)
            && self.target(s) + 2 <= u32::MAX)
    }

    /// When the condition fails, 1 cycle; otherwise fetches the halfword at the target (0
    /// when the read fails), sets the PC 2 past it and takes 3 cycles.
    open spec fn effect(&self, s: Machine) -> Machine {
        if !condition_holds(self.cond, s.cpu.cpsr) {
            s.add_cycles(1)
        } else {
            let addr = self.target(s) as usize;
            let decode = match read_spec(s.mem, addr) {
                Ok(w) => halfword_of(w, addr),
                Err(_) => 0,
            };
            s.with_cpu(s.cpu.with_decode(decode, addr)).set_reg(15, (addr + 2) as u32).add_cycles(3)
        }
    }

    fn run(&self, cpu: &mut CPU, mem: &mut SystemMemory) {
        if !self.cond.should_run(cpu.cpsr) {
            cpu.add_cycles(1);
            return;
        }
        let offset = self.offset;
        proof {
            crate::utils::lemma_word_fields(offset, 0);
        }
        let pc = cpu.get_register(PC);
        let addr = if offset & (1 << 7) == (1 << 7) {
            let offset_abs: u32 = 512 - (offset << 1);
            pc - offset_abs
        } else {
            pc + (offset << 1)
        };
        cpu.decode = match mem.read_halfword(addr as usize) {
            Ok(n) => n,
            Err(_) => 0,
        };
        cpu.inst_addr = addr as usize;
        cpu.set_register(PC, addr + 2);
        cpu.add_cycles(3)
    }
}

/// A software interrupt; running it leaves the state as it is.
#[derive(Debug, PartialEq, Eq, Structural, Clone, Copy)]
pub struct SoftwareInterruptOp {
    pub value: u32,
}

impl SoftwareInterruptOp {
    pub open spec fn decoded(value: u32) -> Self {
        SoftwareInterruptOp { value: value & 0xff }
    }

    pub fn from(value: u32) -> (r: Self)
        ensures
            r == Self::decoded(value),
    {
        SoftwareInterruptOp { value: (value & 0xff) as u32 }
    }
}

impl Operation for SoftwareInterruptOp {
    open spec fn runs_ok(&self, s: Machine) -> bool {
        true
    }

    /// Changes nothing.
    open spec fn effect(&self, s: Machine) -> Machine {
        s
    }

    fn run(&self, _cpu: &mut CPU, _mem: &mut SystemMemory) {
    }
}

/// An unconditional branch by a signed 11-bit halfword offset.
#[derive(Debug, PartialEq, Eq, Structural, Clone, Copy)]
pub struct UnconditionalBranchOp {
    pub offset: u32,
}

/// The sign-extended byte offset of an unconditional branch.
pub open spec fn uncond_branch_offset(offset: u32) -> u32 {
    if offset & (1u32 << 11u32) == (1u32 << 11u32) {
        offset | 0xfffff000
    } else {
        offset
    }
}

impl UnconditionalBranchOp {
    pub open spec fn decoded(value: u32) -> Self {
        UnconditionalBranchOp { offset: (value & 0x7ff) << 1u32 }
    }

    pub fn from(value: u32) -> (r: Self)
        ensures
            r == Self::decoded(value),
    {
        UnconditionalBranchOp { offset: (value & 0x7ff) << 1 }
    }

    pub open spec fn target(self, s: Machine) -> u32 {
        s.reg(15).wrapping_add(uncond_branch_offset(self.offset))
    }
}

impl Operation for UnconditionalBranchOp {
    open spec fn runs_ok(&self, s: Machine) -> bool {
        self.target(s) + 2 <= u32::MAX
    }

    /// Branches to the PC plus the sign-extended offset (modulo 2^32), fetching the halfword
    /// there (0 when the read fails) and setting the PC 2 past it; 3 cycles.
    open spec fn effect(&self, s: Machine) -> Machine {
        let addr = self.target(s);
        let decode = match read_spec(s.mem, addr as usize) {
            Ok(w) => halfword_of(w, addr as usize),
            Err(_) => 0,
        };
        s.with_cpu(s.cpu.with_decode(decode, addr as usize)).set_reg(15, (addr + 2) as u32).add_cycles(3)
    }

    fn run(&self, cpu: &mut CPU, mem: &mut SystemMemory) {
        let offset = if self.offset & (1 << 11) == (1 << 11) {
            (self.offset) | 0xfffff000
        } else {
            self.offset
        };
        let addr = cpu.get_register(PC).wrapping_add(offset);
        cpu.decode = match mem.read_halfword(addr as usize) {
            Ok(n) => n,
            Err(_) => 0,
        };
        cpu.inst_addr = addr as usize;
        cpu.set_register(PC, addr + 2);
        cpu.add_cycles(3);
    }
}

/// One half of a long branch with link.
#[derive(Debug, PartialEq, Eq, Structural, Clone, Copy)]
pub struct LongBranchWithLinkOp {
    pub h: bool,
    pub offset: u32,
}

/// The sign-extended high part of a long branch offset.
pub open spec fn long_branch_high(offset: u32) -> u32 {
    if (offset >> 10u32) & 1 == 1 {
        (offset << 12u32) | 0xff800000
    } else {
        offset << 12u32
    }
}

impl LongBranchWithLinkOp {
    pub open spec fn decoded(value: u32) -> Self {
        LongBranchWithLinkOp { h: tflag(value, 11), offset: value & 0x7ff }
    }

    pub fn from(value: u32) -> (r: Self)
        ensures
            r == Self::decoded(value),
    {
        LongBranchWithLinkOp { h: (value >> 11 & 1) == 1, offset: value & 0x7ff }
    }
}

impl Operation for LongBranchWithLinkOp {
    /// The second half subtracts 2 from the PC and adds 2 to the target.
    open spec fn runs_ok(&self, s: Machine) -> bool {
        self.h ==> s.reg(15) >= 2 && s.reg(14).wrapping_add(self.offset << 1u32) + 2 <= u32::MAX
    }

    /// The first half puts the PC plus the sign-extended high offset in LR (1 cycle). The
    /// second branches to LR plus twice the low offset, leaves the return address (PC - 2
    /// with bit 0 set) in LR, fetches the halfword at the target (0 when the read fails)
    /// and sets the PC 2 past it (3 cycles).
    open spec fn effect(&self, s: Machine) -> Machine {
        if !self.h {
            s.set_reg(14, s.reg(15).wrapping_add(long_branch_high(self.offset))).add_cycles(1)
        } else {
            let temp = ((s.reg(15) - 2) as u32) | 1;
            let res = s.reg(14).wrapping_add(self.offset << 1u32);
            let s1 = s.set_reg(15, res).set_reg(14, temp);
            let decode = match read_spec(s.mem, res as usize) {
                Ok(w) => halfword_of(w, res as usize),
                Err(_) => 0,
            };
            s1.with_cpu(s1.cpu.with_decode(decode, res as usize)).set_reg(15, (res + 2) as u32).add_cycles(3)
        }
    }

    fn run(&self, cpu: &mut CPU, mem: &mut SystemMemory) {
        if !self.h {
            let offset = if self.offset >> 10 & 1 == 1 {
                (self.offset << 12) | 0xff800000
            } else {
                self.offset << 12
            };
            let res = cpu.get_register(PC).wrapping_add(offset);
            cpu.set_register(LR, res);
            cpu.add_cycles(1)
        } else {
            let temp = (cpu.get_register(PC) - 2) | 1;
            let res = cpu.get_register(LR).wrapping_add(self.offset << 1);
            cpu.set_register(PC, res);
            cpu.set_register(LR, temp);
            let pc = cpu.get_register(PC);
            cpu.decode = match mem.read_halfword(pc as usize) {
                Ok(n) => n,
                Err(_) => 0,
            };
            cpu.inst_addr = res as usize;
            let pc = cpu.get_register(PC);
            cpu.set_register(PC, pc + 2);
            cpu.add_cycles(3);
        }
    }
}

/// A decoded Thumb instruction.
#[derive(Debug, PartialEq, Eq, Structural, Clone, Copy)]
pub enum ThumbOperation {
    AddSubtract(AddSubtractOp),
    MoveShiftedRegister(MoveShiftedRegisterOp),
    MathImm(MathImmOp),
    Alu(ALUOp),
    HiReg(HiRegOp),
    PcRelativeLoad(PcRelativeLoadOp),
    LoadStoreRegOffset(LoadStoreRegOffsetOp),
    LoadStoreSignEx(LoadStoreSignExOp),
    LoadStoreImmOffset(LoadStoreImmOffsetOp),
    LoadStoreHalfWord(LoadStoreHalfWordOp),
    SpRelativeLoad(SpRelativeLoadOp),
    LoadAddress(LoadAddressOp),
    AddOffsetSP(AddOffsetSPOp),
    PushPopReg(PushPopRegOp),
    MultipleLoadStore(MultipleLoadStoreOp),
    SoftwareInterrupt(SoftwareInterruptOp),
    ConditionalBranch(ConditionalBranchOp),
    UnconditionalBranch(UnconditionalBranchOp),
    LongBranchWithLink(LongBranchWithLinkOp),
}

/// The Thumb instruction a halfword decodes to, by the first format whose fixed bits match;
/// a conditional branch with condition 14 fails to decode.
pub open spec fn decode_thumb_spec(value: u32) -> Result<ThumbOperation, InstructionDecodeError> {
    if value & 0xf800 == 0x1800 {
        Ok(ThumbOperation::AddSubtract(AddSubtractOp::decoded(value)))
    } else if value & 0xe000 == 0x0 {
        Ok(ThumbOperation::MoveShiftedRegister(MoveShiftedRegisterOp::decoded(value)))
    } else if value & 0xe000 == 0x2000 {
        Ok(ThumbOperation::MathImm(MathImmOp::decoded(value)))
    } else if value & 0xfc00 == 0x4000 {
        Ok(ThumbOperation::Alu(ALUOp::decoded(value)))
    } else if value & 0xfc00 == 0x4400 {
        Ok(ThumbOperation::HiReg(HiRegOp::decoded(value)))
    } else if value & 0xf800 == 0x4800 {
        Ok(ThumbOperation::PcRelativeLoad(PcRelativeLoadOp::decoded(value)))
    } else if value & 0xf200 == 0x5000 {
        Ok(ThumbOperation::LoadStoreRegOffset(LoadStoreRegOffsetOp::decoded(value)))
    } else if value & 0xf200 == 0x5200 {
        Ok(ThumbOperation::LoadStoreSignEx(LoadStoreSignExOp::decoded(value)))
    } else if value & 0xe000 == 0x6000 {
        Ok(ThumbOperation::LoadStoreImmOffset(LoadStoreImmOffsetOp::decoded(value)))
    } else if value & 0xf000 == 0x8000 {
        Ok(ThumbOperation::LoadStoreHalfWord(LoadStoreHalfWordOp::decoded(value)))
    } else if value & 0xf000 == 0x9000 {
        Ok(ThumbOperation::SpRelativeLoad(SpRelativeLoadOp::decoded(value)))
    } else if value & 0xf000 == 0xa000 {
        Ok(ThumbOperation::LoadAddress(LoadAddressOp::decoded(value)))
    } else if value & 0xff00 == 0xb000 {
        Ok(ThumbOperation::AddOffsetSP(AddOffsetSPOp::decoded(value)))
    } else if value & 0xf600 == 0xb400 {
        Ok(ThumbOperation::PushPopReg(PushPopRegOp::decoded(value)))
    } else if value & 0xf000 == 0xc000 {
        Ok(ThumbOperation::MultipleLoadStore(MultipleLoadStoreOp::decoded(value)))
    } else if value & 0xff00 == 0xdf00 {
        Ok(ThumbOperation::SoftwareInterrupt(SoftwareInterruptOp::decoded(value)))
    } else if value & 0xf000 == 0xd000 {
        match ConditionalBranchOp::decoded(value) {
            Ok(op) => Ok(ThumbOperation::ConditionalBranch(op)),
            Err(e) => Err(e),
        }
    } else if value & 0xf800 == 0xe000 {
        Ok(ThumbOperation::UnconditionalBranch(UnconditionalBranchOp::decoded(value)))
    } else if value & 0xf000 == 0xf000 {
        Ok(ThumbOperation::LongBranchWithLink(LongBranchWithLinkOp::decoded(value)))
    } else {
        Err(InstructionDecodeError::NoMatchingOperation(value))
    }
}

pub fn decode_as_thumb(value: u32) -> (r: Result<ThumbOperation, InstructionDecodeError>)
    ensures
        r == decode_thumb_spec(value),
{
    if value & 0xf800 == 0x1800 {
        Ok(ThumbOperation::AddSubtract(AddSubtractOp::from(value)))
    } else if value & 0xe000 == 0x0 {
        Ok(ThumbOperation::MoveShiftedRegister(MoveShiftedRegisterOp::from(value)))
    } else if value & 0xe000 == 0x2000 {
        Ok(ThumbOperation::MathImm(MathImmOp::from(value)))
    } else if value & 0xfc00 == 0x4000 {
        Ok(ThumbOperation::Alu(ALUOp::from(value)))
    } else if value & 0xfc00 == 0x4400 {
        Ok(ThumbOperation::HiReg(HiRegOp::from(value)))
    } else if value & 0xf800 == 0x4800 {
        Ok(ThumbOperation::PcRelativeLoad(PcRelativeLoadOp::from(value)))
    } else if value & 0xf200 == 0x5000 {
        Ok(ThumbOperation::LoadStoreRegOffset(LoadStoreRegOffsetOp::from(value)))
    } else if value & 0xf200 == 0x5200 {
        Ok(ThumbOperation::LoadStoreSignEx(LoadStoreSignExOp::from(value)))
    } else if value & 0xe000 == 0x6000 {
        Ok(ThumbOperation::LoadStoreImmOffset(LoadStoreImmOffsetOp::from(value)))
    } else if value & 0xf000 == 0x8000 {
        Ok(ThumbOperation::LoadStoreHalfWord(LoadStoreHalfWordOp::from(value)))
    } else if value & 0xf000 == 0x9000 {
        Ok(ThumbOperation::SpRelativeLoad(SpRelativeLoadOp::from(value)))
    } else if value & 0xf000 == 0xa000 {
        Ok(ThumbOperation::LoadAddress(LoadAddressOp::from(value)))
    } else if value & 0xff00 == 0xb000 {
        Ok(ThumbOperation::AddOffsetSP(AddOffsetSPOp::from(value)))
    } else if value & 0xf600 == 0xb400 {
        Ok(ThumbOperation::PushPopReg(PushPopRegOp::from(value)))
    } else if value & 0xf000 == 0xc000 {
        Ok(ThumbOperation::MultipleLoadStore(MultipleLoadStoreOp::from(value)))
    } else if value & 0xff00 == 0xdf00 {
        Ok(ThumbOperation::SoftwareInterrupt(SoftwareInterruptOp::from(value)))
    } else if value & 0xf000 == 0xd000 {
        match ConditionalBranchOp::try_from(value) {
            Ok(op) => Ok(ThumbOperation::ConditionalBranch(op)),
            Err(e) => Err(e),
        }
    } else if value & 0xf800 == 0xe000 {
        Ok(ThumbOperation::UnconditionalBranch(UnconditionalBranchOp::from(value)))
    } else if value & 0xf000 == 0xf000 {
        Ok(ThumbOperation::LongBranchWithLink(LongBranchWithLinkOp::from(value)))
    } else {
        Err(InstructionDecodeError::NoMatchingOperation(value))
    }
}

impl Operation for ThumbOperation {
    open spec fn runs_ok(&self, s: Machine) -> bool {
        match *self {
            ThumbOperation::AddSubtract(op) => op.runs_ok(s),
            ThumbOperation::MoveShiftedRegister(op) => op.runs_ok(s),
            ThumbOperation::MathImm(op) => op.runs_ok(s),
            ThumbOperation::Alu(op) => op.runs_ok(s),
            ThumbOperation::HiReg(op) => op.runs_ok(s),
            ThumbOperation::PcRelativeLoad(op) => op.runs_ok(s),
            ThumbOperation::LoadStoreRegOffset(op) => op.runs_ok(s),
            ThumbOperation::LoadStoreSignEx(op) => op.runs_ok(s),
            ThumbOperation::LoadStoreImmOffset(op) => op.runs_ok(s),
            ThumbOperation::LoadStoreHalfWord(op) => op.runs_ok(s),
            ThumbOperation::SpRelativeLoad(op) => op.runs_ok(s),
            ThumbOperation::LoadAddress(op) => op.runs_ok(s),
            ThumbOperation::AddOffsetSP(op) => op.runs_ok(s),
            ThumbOperation::PushPopReg(op) => op.runs_ok(s),
            ThumbOperation::MultipleLoadStore(op) => op.runs_ok(s),
            ThumbOperation::SoftwareInterrupt(op) => op.runs_ok(s),
            ThumbOperation::ConditionalBranch(op) => op.runs_ok(s),
            ThumbOperation::UnconditionalBranch(op) => op.runs_ok(s),
            ThumbOperation::LongBranchWithLink(op) => op.runs_ok(s),
        }
    }

    open spec fn effect(&self, s: Machine) -> Machine {
        match *self {
            ThumbOperation::AddSubtract(op) => op.effect(s),
            ThumbOperation::MoveShiftedRegister(op) => op.effect(s),
            ThumbOperation::MathImm(op) => op.effect(s),
            ThumbOperation::Alu(op) => op.effect(s),
            ThumbOperation::HiReg(op) => op.effect(s),
            ThumbOperation::PcRelativeLoad(op) => op.effect(s),
            ThumbOperation::LoadStoreRegOffset(op) => op.effect(s),
            ThumbOperation::LoadStoreSignEx(op) => op.effect(s),
            ThumbOperation::LoadStoreImmOffset(op) => op.effect(s),
            ThumbOperation::LoadStoreHalfWord(op) => op.effect(s),
            ThumbOperation::SpRelativeLoad(op) => op.effect(s),
            ThumbOperation::LoadAddress(op) => op.effect(s),
            ThumbOperation::AddOffsetSP(op) => op.effect(s),
            ThumbOperation::PushPopReg(op) => op.effect(s),
            ThumbOperation::MultipleLoadStore(op) => op.effect(s),
            ThumbOperation::SoftwareInterrupt(op) => op.effect(s),
            ThumbOperation::ConditionalBranch(op) => op.effect(s),
            ThumbOperation::UnconditionalBranch(op) => op.effect(s),
            ThumbOperation::LongBranchWithLink(op) => op.effect(s),
        }
    }

    fn run(&self, cpu: &mut CPU, mem: &mut SystemMemory) {
        match self {
            ThumbOperation::AddSubtract(op) => op.run(cpu, mem),
            ThumbOperation::MoveShiftedRegister(op) => op.run(cpu, mem),
            ThumbOperation::MathImm(op) => op.run(cpu, mem),
            ThumbOperation::Alu(op) => op.run(cpu, mem),
            ThumbOperation::HiReg(op) => op.run(cpu, mem),
            ThumbOperation::PcRelativeLoad(op) => op.run(cpu, mem),
            ThumbOperation::LoadStoreRegOffset(op) => op.run(cpu, mem),
            ThumbOperation::LoadStoreSignEx(op) => op.run(cpu, mem),
            ThumbOperation::LoadStoreImmOffset(op) => op.run(cpu, mem),
            ThumbOperation::LoadStoreHalfWord(op) => op.run(cpu, mem),
            ThumbOperation::SpRelativeLoad(op) => op.run(cpu, mem),
            ThumbOperation::LoadAddress(op) => op.run(cpu, mem),
            ThumbOperation::AddOffsetSP(op) => op.run(cpu, mem),
            ThumbOperation::PushPopReg(op) => op.run(cpu, mem),
            ThumbOperation::MultipleLoadStore(op) => op.run(cpu, mem),
            ThumbOperation::SoftwareInterrupt(op) => op.run(cpu, mem),
            ThumbOperation::ConditionalBranch(op) => op.run(cpu, mem),
            ThumbOperation::UnconditionalBranch(op) => op.run(cpu, mem),
            ThumbOperation::LongBranchWithLink(op) => op.run(cpu, mem),
        }
    }
}

/// One push or pop transfer moves SP by a word and keeps the status word; a pop leaves the
/// memory as it was.
pub proof fn lemma_push_pop_step(op: PushPopRegOp, regs: Seq<u32>, i: int, s: Machine)
    requires
        s.valid(),
        super::cpu::view_wf(s.cpu),
        0 <= i < regs.len(),
        forall|j: int| 0 <= j < regs.len() ==> #[trigger] regs[j] < 16 && regs[j] != 13,
    ensures
        op.step(regs, i, s).reg(13) == (if op.l {
            (s.reg(13) + 4) as u32
        } else {
            (s.reg(13) - 4) as u32
        }),
        op.step(regs, i, s).cpu.cpsr == s.cpu.cpsr,
        op.step(regs, i, s).valid(),
        super::cpu::view_wf(op.step(regs, i, s).cpu),
        op.l ==> op.step(regs, i, s).mem == s.mem,
{
    if !op.l {
        let reg = regs[regs.len() - i - 1];
        let s1 = s.set_reg(13, (s.reg(13) - 4) as u32);
        assert(s1.reg(13) == (s.reg(13) - 4) as u32);
        super::arm::lemma_write_keeps_regions(s1.mem, s1.reg(13) as usize, s1.reg(reg as int), WORD);
        assert(op.step(regs, i, s) == s1.write(s1.reg(13) as usize, s1.reg(reg as int), WORD));
    }
}

/// What the transfers before `k` leave: SP moved by `k` words, the status word kept, and for
/// pops the memory untouched.
pub proof fn lemma_push_pop_steps(op: PushPopRegOp, regs: Seq<u32>, k: nat, s: Machine)
    requires
        s.valid(),
        super::cpu::view_wf(s.cpu),
        k <= regs.len(),
        forall|j: int| 0 <= j < regs.len() ==> #[trigger] regs[j] < 16 && regs[j] != 13,
        op.steps_ok(regs, k, s),
    ensures
        op.steps(regs, k, s).reg(13) == (if op.l {
            s.reg(13) + 4 * k
        } else {
            s.reg(13) - 4 * k
        }),
        op.steps(regs, k, s).cpu.cpsr == s.cpu.cpsr,
        op.steps(regs, k, s).valid(),
        super::cpu::view_wf(op.steps(regs, k, s).cpu),
        op.l ==> op.steps(regs, k, s).mem == s.mem,
    decreases k,
{
    if k > 0 {
        lemma_push_pop_steps(op, regs, (k - 1) as nat, s);
        lemma_push_pop_step(op, regs, k - 1, op.steps(regs, (k - 1) as nat, s));
    }
}

impl PushPopRegOp {
    /// Whether `run` completes (`runs_ok`).
    pub fn can_run(&self, cpu: &CPU, mem: &mut SystemMemory) -> (r: bool)
        requires
            machine(cpu, old(mem)).valid(),
        ensures
            final(mem)@ == old(mem)@,
            r == self.runs_ok(machine(cpu, old(mem))),
    {
        let ghost s0 = machine(cpu, mem);
        let mut registers = bit_map_to_array(self.rlist as u32);
        proof {
            super::lemma_register_list(self.rlist as u32);
            super::lemma_low_register_list(self.rlist as u32);
        }
        if self.r {
            registers.push(if self.l { PC as u32 } else { LR as u32 });
        }
        assert(registers@ == self.registers());
        let n = registers.len();
        let mut sp: u64 = cpu.get_register(SP) as u64;
        let mut i: usize = 0;
        while i < n
            invariant
                s0 == machine(cpu, mem),
                s0 == machine(cpu, old(mem)),
                s0.valid(),
                super::cpu::view_wf(s0.cpu),
                n == registers.len(),
                registers@ == self.registers(),
                n <= 17,
                forall|j: int| 0 <= j < n ==> #[trigger] registers@[j] < 16 && registers@[j] != 13,
                i <= n,
                self.steps_ok(registers@, i as nat, s0),
                sp == self.steps(registers@, i as nat, s0).reg(13),
            decreases n - i,
        {
            let ghost before = self.steps(registers@, i as nat, s0);
            proof {
                lemma_push_pop_steps(*self, registers@, i as nat, s0);
                if self.steps_ok(registers@, n as nat, s0) {
                    lemma_steps_ok_prefix(*self, registers@, s0, (i + 1) as nat, n as nat);
                }
            }
            if self.l {
                if sp + 4 > u32::MAX as u64 {
                    return false;
                }
                if registers[i] == PC as u32 {
                    let value = match mem.read_from_mem(sp as usize) {
                        Ok(w) => w & 0xfffffffe,
                        Err(_) => 0,
                    };
                    if mem.read_from_mem(value as usize).is_err() {
                        return false;
                    }
                    if value as u64 + 2 > usize::MAX as u64 {
                        return false;
                    }
                }
                sp = sp + 4;
            } else {
                if sp < 4 {
                    return false;
                }
                sp = sp - 4;
            }
            proof {
                lemma_push_pop_step(*self, registers@, i as int, before);
            }
            i += 1;
        }
        proof {
            lemma_push_pop_steps(*self, registers@, n as nat, s0);
        }
        super::arm::has_word_timing(sp as usize)
    }
}

// Checking that an instruction can run.

impl MoveShiftedRegisterOp {
    /// Whether `run` completes (`runs_ok`).
    pub fn can_run(&self, cpu: &CPU, mem: &mut SystemMemory) -> (r: bool)
        requires
            machine(cpu, old(mem)).valid(),
        ensures
            final(mem)@ == old(mem)@,
            r == self.runs_ok(machine(cpu, old(mem))),
    {
        self.op < 3 && self.rs < 16 && self.rd < 16
    }
}

impl AddSubtractOp {
    /// Whether `run` completes (`runs_ok`).
    pub fn can_run(&self, cpu: &CPU, mem: &mut SystemMemory) -> (r: bool)
        requires
            machine(cpu, old(mem)).valid(),
        ensures
            final(mem)@ == old(mem)@,
            r == self.runs_ok(machine(cpu, old(mem))),
    {
        self.rn < 16 && self.rs < 16 && self.rd < 16
    }
}

impl MathImmOp {
    /// Whether `run` completes (`runs_ok`).
    pub fn can_run(&self, cpu: &CPU, mem: &mut SystemMemory) -> (r: bool)
        requires
            machine(cpu, old(mem)).valid(),
        ensures
            final(mem)@ == old(mem)@,
            r == self.runs_ok(machine(cpu, old(mem))),
    {
        self.op < 4 && self.rd < 16
    }
}

impl ALUOp {
    /// Whether `run` completes (`runs_ok`).
    pub fn can_run(&self, cpu: &CPU, mem: &mut SystemMemory) -> (r: bool)
        requires
            machine(cpu, old(mem)).valid(),
        ensures
            final(mem)@ == old(mem)@,
            r == self.runs_ok(machine(cpu, old(mem))),
    {
        self.rs < 16 && self.rd < 16
    }
}

impl HiRegOp {
    /// Whether `run` completes (`runs_ok`).
    pub fn can_run(&self, cpu: &CPU, mem: &mut SystemMemory) -> (r: bool)
        requires
            machine(cpu, old(mem)).valid(),
        ensures
            final(mem)@ == old(mem)@,
            r == self.runs_ok(machine(cpu, old(mem))),
    {
        if !(self.rs < 16 && self.rd < 16 && self.op < 4) {
            return false;
        }
        if self.op != 3 && !(self.h1 || self.h2) {
            return false;
        }
        if self.op == 0 {
            cpu.get_register(self.rd) as u64 + cpu.get_register(self.rs) as u64 <= u32::MAX as u64
        } else if self.op == 3 {
            (cpu.get_register(self.rs) & !1u32) as u64 + 4 <= u32::MAX as u64
        } else {
            true
        }
    }
}

impl PcRelativeLoadOp {
    /// Whether `run` completes (`runs_ok`).
    pub fn can_run(&self, cpu: &CPU, mem: &mut SystemMemory) -> (r: bool)
        requires
            machine(cpu, old(mem)).valid(),
        ensures
            final(mem)@ == old(mem)@,
            r == self.runs_ok(machine(cpu, old(mem))),
    {
        if !(self.rd < 16 && self.word <= 0xff) {
            return false;
        }
        let a = cpu.get_register(PC) as u64 + (self.word << 2) as u64;
        if a > u32::MAX as u64 {
            return false;
        }
        mem.read_from_mem(a as usize).is_ok() && super::arm::has_word_timing(a as usize)
    }
}

impl LoadStoreRegOffsetOp {
    /// Whether `run` completes (`runs_ok`).
    pub fn can_run(&self, cpu: &CPU, mem: &mut SystemMemory) -> (r: bool)
        requires
            machine(cpu, old(mem)).valid(),
        ensures
            final(mem)@ == old(mem)@,
            r == self.runs_ok(machine(cpu, old(mem))),
    {
        if !(self.ro < 16 && self.rb < 16 && self.rd < 16) {
            return false;
        }
        let ro = cpu.get_register(self.ro);
        let rb = cpu.get_register(self.rb) as i64;
        let a: i64 = if is_signed(ro) {
            rb - get_abs_int_value(ro) as i64
        } else {
            rb + get_abs_int_value(ro) as i64
        };
        if a < 0 || a > u32::MAX as i64 {
            return false;
        }
        if self.l && mem.read_from_mem(a as usize).is_err() {
            return false;
        }
        self.b || super::arm::has_word_timing(a as usize)
    }
}

impl LoadStoreSignExOp {
    /// Whether `run` completes (`runs_ok`).
    pub fn can_run(&self, cpu: &CPU, mem: &mut SystemMemory) -> (r: bool)
        requires
            machine(cpu, old(mem)).valid(),
        ensures
            final(mem)@ == old(mem)@,
            r == self.runs_ok(machine(cpu, old(mem))),
    {
        self.ro < 16 && self.rb < 16 && self.rd < 16 && cpu.get_register(self.rb) as u64
            + cpu.get_register(self.ro) as u64 <= u32::MAX as u64
    }
}

impl LoadStoreImmOffsetOp {
    /// Whether `run` completes (`runs_ok`).
    pub fn can_run(&self, cpu: &CPU, mem: &mut SystemMemory) -> (r: bool)
        requires
            machine(cpu, old(mem)).valid(),
        ensures
            final(mem)@ == old(mem)@,
            r == self.runs_ok(machine(cpu, old(mem))),
    {
        if !(self.rb < 16 && self.rd < 16 && self.offset <= 0x1f) {
            return false;
        }
        let off: u64 = if self.b {
            self.offset as u64
        } else {
            (self.offset << 2) as u64
        };
        let a = cpu.get_register(self.rb) as u64 + off;
        if a > u32::MAX as u64 {
            return false;
        }
        self.b || super::arm::has_word_timing(a as usize)
    }
}

impl LoadStoreHalfWordOp {
    /// Whether `run` completes (`runs_ok`).
    pub fn can_run(&self, cpu: &CPU, mem: &mut SystemMemory) -> (r: bool)
        requires
            machine(cpu, old(mem)).valid(),
        ensures
            final(mem)@ == old(mem)@,
            r == self.runs_ok(machine(cpu, old(mem))),
    {
        if !(self.rb < 16 && self.rd < 16) {
            return false;
        }
        let a = cpu.get_register(self.rb) as u64 + self.offset as u64;
        if a > u32::MAX as u64 {
            return false;
        }
        !self.l || mem.read_from_mem(a as usize).is_ok()
    }
}

impl SpRelativeLoadOp {
    /// Whether `run` completes (`runs_ok`).
    pub fn can_run(&self, cpu: &CPU, mem: &mut SystemMemory) -> (r: bool)
        requires
            machine(cpu, old(mem)).valid(),
        ensures
            final(mem)@ == old(mem)@,
            r == self.runs_ok(machine(cpu, old(mem))),
    {
        if self.rd >= 16 {
            return false;
        }
        let a = cpu.get_register(SP) as u64 + self.offset as u64;
        if a > u32::MAX as u64 {
            return false;
        }
        mem.read_from_mem(a as usize).is_ok() && super::arm::has_word_timing(a as usize)
    }
}

impl LoadAddressOp {
    /// Whether `run` completes (`runs_ok`).
    pub fn can_run(&self, cpu: &CPU, mem: &mut SystemMemory) -> (r: bool)
        requires
            machine(cpu, old(mem)).valid(),
        ensures
            final(mem)@ == old(mem)@,
            r == self.runs_ok(machine(cpu, old(mem))),
    {
        if self.rd >= 16 {
            return false;
        }
        let base: u64 = if self.sp {
            cpu.get_register(SP) as u64
        } else {
            (cpu.get_register(PC) & !3u32) as u64
        };
        base + self.word as u64 <= u32::MAX as u64
    }
}

impl AddOffsetSPOp {
    /// Whether `run` completes (`runs_ok`).
    pub fn can_run(&self, cpu: &CPU, mem: &mut SystemMemory) -> (r: bool)
        requires
            machine(cpu, old(mem)).valid(),
        ensures
            final(mem)@ == old(mem)@,
            r == self.runs_ok(machine(cpu, old(mem))),
    {
        let sp = cpu.get_register(SP);
        if self.s {
            sp >= self.word
        } else {
            sp as u64 + self.word as u64 <= u32::MAX as u64
        }
    }
}

impl MultipleLoadStoreOp {
    /// Whether `run` completes (`runs_ok`).
    pub fn can_run(&self, cpu: &CPU, mem: &mut SystemMemory) -> (r: bool)
        requires
            machine(cpu, old(mem)).valid(),
        ensures
            final(mem)@ == old(mem)@,
            r == self.runs_ok(machine(cpu, old(mem))),
    {
        if self.rb >= 8 {
            return false;
        }
        let mut count: u64 = 0;
        let mut k: u8 = 0;
        while k < 8
            invariant
                k <= 8,
                count == ones_below(self.rlist, k as int),
                count <= k,
            decreases 8 - k,
        {
            if (self.rlist >> k) & 1 == 1 {
                count += 1;
            }
            k += 1;
        }
        let a = cpu.get_register(self.rb) as u64 + 4 * count;
        a <= usize::MAX as u64 && super::arm::has_word_timing(a as usize)
    }
}

impl ConditionalBranchOp {
    /// Whether `run` completes (`runs_ok`).
    pub fn can_run(&self, cpu: &CPU, mem: &mut SystemMemory) -> (r: bool)
        requires
            machine(cpu, old(mem)).valid(),
        ensures
            final(mem)@ == old(mem)@,
            r == self.runs_ok(machine(cpu, old(mem))),
    {
        if self.offset > 0xff {
            return false;
        }
        if !self.cond.should_run(cpu.cpsr) {
            return true;
        }
        let off: i64 = if self.offset & 0x80 == 0x80 {
            2 * self.offset as i64 - 512
        } else {
            2 * self.offset as i64
        };
        let t = cpu.get_register(PC) as i64 + off;
        0 <= t && t + 2 <= u32::MAX as i64
    }
}

impl SoftwareInterruptOp {
    /// Whether `run` completes (`runs_ok`).
    pub fn can_run(&self, cpu: &CPU, mem: &mut SystemMemory) -> (r: bool)
        requires
            machine(cpu, old(mem)).valid(),
        ensures
            final(mem)@ == old(mem)@,
            r == self.runs_ok(machine(cpu, old(mem))),
    {
        true
    }
}

impl UnconditionalBranchOp {
    /// Whether `run` completes (`runs_ok`).
    pub fn can_run(&self, cpu: &CPU, mem: &mut SystemMemory) -> (r: bool)
        requires
            machine(cpu, old(mem)).valid(),
        ensures
            final(mem)@ == old(mem)@,
            r == self.runs_ok(machine(cpu, old(mem))),
    {
        let off = if self.offset & (1 << 11) == (1 << 11) {
            self.offset | 0xfffff000
        } else {
            self.offset
        };
        cpu.get_register(PC).wrapping_add(off) as u64 + 2 <= u32::MAX as u64
    }
}

impl LongBranchWithLinkOp {
    /// Whether `run` completes (`runs_ok`).
    pub fn can_run(&self, cpu: &CPU, mem: &mut SystemMemory) -> (r: bool)
        requires
            machine(cpu, old(mem)).valid(),
        ensures
            final(mem)@ == old(mem)@,
            r == self.runs_ok(machine(cpu, old(mem))),
    {
        if !self.h {
            return true;
        }
        cpu.get_register(PC) >= 2 && cpu.get_register(LR).wrapping_add(self.offset << 1) as u64 + 2
            <= u32::MAX as u64
    }
}

impl ThumbOperation {
    /// Whether `run` completes (`runs_ok`).
    pub fn can_run(&self, cpu: &CPU, mem: &mut SystemMemory) -> (r: bool)
        requires
            machine(cpu, old(mem)).valid(),
        ensures
            final(mem)@ == old(mem)@,
            r == self.runs_ok(machine(cpu, old(mem))),
    {
        match self {
            ThumbOperation::AddSubtract(op) => op.can_run(cpu, mem),
            ThumbOperation::MoveShiftedRegister(op) => op.can_run(cpu, mem),
            ThumbOperation::MathImm(op) => op.can_run(cpu, mem),
            ThumbOperation::Alu(op) => op.can_run(cpu, mem),
            ThumbOperation::HiReg(op) => op.can_run(cpu, mem),
            ThumbOperation::PcRelativeLoad(op) => op.can_run(cpu, mem),
            ThumbOperation::LoadStoreRegOffset(op) => op.can_run(cpu, mem),
            ThumbOperation::LoadStoreSignEx(op) => op.can_run(cpu, mem),
            ThumbOperation::LoadStoreImmOffset(op) => op.can_run(cpu, mem),
            ThumbOperation::LoadStoreHalfWord(op) => op.can_run(cpu, mem),
            ThumbOperation::SpRelativeLoad(op) => op.can_run(cpu, mem),
            ThumbOperation::LoadAddress(op) => op.can_run(cpu, mem),
            ThumbOperation::AddOffsetSP(op) => op.can_run(cpu, mem),
            ThumbOperation::PushPopReg(op) => op.can_run(cpu, mem),
            ThumbOperation::MultipleLoadStore(op) => op.can_run(cpu, mem),
            ThumbOperation::SoftwareInterrupt(op) => op.can_run(cpu, mem),
            ThumbOperation::ConditionalBranch(op) => op.can_run(cpu, mem),
            ThumbOperation::UnconditionalBranch(op) => op.can_run(cpu, mem),
            ThumbOperation::LongBranchWithLink(op) => op.can_run(cpu, mem),
        }
    }
}

} // verus!
