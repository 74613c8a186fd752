use super::{c_flag, n_flag, t_flag, v_flag, z_flag, lemma_flag_clear, CPSR_C, CPSR_N, CPSR_T, CPSR_V, CPSR_Z};
use vstd::prelude::*;

verus! {

pub const PC: usize = 15;
pub const LR: usize = 14;
pub const SP: usize = 13;

/// The processor modes that the low five bits of a status word select.
#[derive(Debug, PartialEq, Eq, Structural, Clone, Copy)]
pub enum CpuMode {
    System,
    User,
    FIQ,
    Supervisor,
    Abort,
    IRQ,
    Undefined,
}

/// Whether the mode bits of a status word name one of the seven modes.
pub open spec fn mode_bits_valid(value: u32) -> bool {
    let m = value & 0x1f;
    m == 0x10 || m == 0x11 || m == 0x12 || m == 0x13 || m == 0x17 || m == 0x1b || m == 0x1f
}

/// The mode that the low five bits of a status word select.
pub open spec fn mode_spec(value: u32) -> CpuMode {
    let m = value & 0x1f;
    if m == 0x10 {
        CpuMode::User
    } else if m == 0x11 {
        CpuMode::FIQ
    } else if m == 0x12 {
        CpuMode::IRQ
    } else if m == 0x13 {
        CpuMode::Supervisor
    } else if m == 0x17 {
        CpuMode::Abort
    } else if m == 0x1b {
        CpuMode::Undefined
    } else {
        CpuMode::System
    }
}

impl CpuMode {
    /// The mode of a status word; other bit patterns name no mode and are not accepted.
    pub fn from(value: u32) -> (r: CpuMode)
        requires
            mode_bits_valid(value),
        ensures
            r == mode_spec(value),
    {
        match value & 0x1f {
            0b10000 => CpuMode::User,
            0b10001 => CpuMode::FIQ,
            0b10010 => CpuMode::IRQ,
            0b10011 => CpuMode::Supervisor,
            0b10111 => CpuMode::Abort,
            0b11011 => CpuMode::Undefined,
            _ => CpuMode::System,
        }
    }
}

/// The ARM7TDMI register file with its banked copies, status words, the fetched
/// instruction of the pipeline and the cycle counter.
#[derive(Debug, PartialEq)]
pub struct CPU {
    pub registers: [u32; 16],
    /// Banked r8-r14 of FIQ mode.
    pub fiq_banked_gen_regs: [u32; 7],
    /// Banked r13, r14 of the other privileged modes.
    pub svc_banked_regs: [u32; 2],
    pub abt_banked_regs: [u32; 2],
    pub irq_banked_regs: [u32; 2],
    pub und_banked_regs: [u32; 2],
    pub cpsr: u32,
    pub psr: [u32; 6],
    pub decode: u32,
    pub inst_addr: usize,
    pub cycles: u32,
}

/// The mathematical state of a `CPU`.
#[verifier::ext_equal]
pub struct CpuView {
    pub regs: Seq<u32>,
    pub fiq: Seq<u32>,
    pub svc: Seq<u32>,
    pub abt: Seq<u32>,
    pub irq: Seq<u32>,
    pub und: Seq<u32>,
    pub cpsr: u32,
    pub psr: Seq<u32>,
    pub decode: u32,
    pub inst_addr: usize,
    pub cycles: u32,
}

impl View for CPU {
    type V = CpuView;

    open spec fn view(&self) -> CpuView {
        CpuView {
            regs: self.registers@,
            fiq: self.fiq_banked_gen_regs@,
            svc: self.svc_banked_regs@,
            abt: self.abt_banked_regs@,
            irq: self.irq_banked_regs@,
            und: self.und_banked_regs@,
            cpsr: self.cpsr,
            psr: self.psr@,
            decode: self.decode,
            inst_addr: self.inst_addr,
            cycles: self.cycles,
        }
    }
}

/// The status word after an ALU result: N and Z from `res`, V and C as given, the low 28
/// bits kept.
pub open spec fn cpsr_with_flags(cpsr: u32, res: u32, v: bool, c: bool) -> u32 {
    (cpsr & 0x0fffffff) | (if res == 0 { CPSR_Z } else { 0 }) | (if res >= 0x8000_0000 {
        CPSR_N
    } else {
        0
    }) | (if v { CPSR_V } else { 0 }) | (if c { CPSR_C } else { 0 })
}

/// The status word with the Thumb bit set or cleared.
pub open spec fn cpsr_with_thumb(cpsr: u32, is_thumb: bool) -> u32 {
    if is_thumb {
        cpsr | CPSR_T
    } else {
        cpsr & !CPSR_T
    }
}

/// The status word with only the overflow flag changed.
pub open spec fn cpsr_with_v(cpsr: u32, v: bool) -> u32 {
    if v {
        cpsr | CPSR_V
    } else {
        cpsr & !CPSR_V
    }
}

impl CpuView {
    pub open spec fn mode(self) -> CpuMode {
        mode_spec(self.cpsr)
    }

    pub open spec fn valid(self) -> bool {
        mode_bits_valid(self.cpsr)
    }

    /// Whether register `rn` is read from the unbanked file in the current mode.
    pub open spec fn unbanked(self, rn: int) -> bool {
        rn == 15 || (rn < 13 && !(self.mode() == CpuMode::FIQ && rn > 8)) || self.mode()
            == CpuMode::User || self.mode() == CpuMode::System
    }

    /// The value of register `rn` as the current mode sees it.
    pub open spec fn reg(self, rn: int) -> u32 {
        if self.unbanked(rn) {
            self.regs[rn]
        } else {
            match self.mode() {
                CpuMode::FIQ => self.fiq[rn - 8],
                CpuMode::Supervisor => self.svc[rn - 13],
                CpuMode::IRQ => self.irq[rn - 13],
                CpuMode::Abort => self.abt[rn - 13],
                CpuMode::Undefined => self.und[rn - 13],
                _ => self.regs[rn],
            }
        }
    }

    /// The state after writing `value` to register `rn` as the current mode sees it.
    pub open spec fn set_reg(self, rn: int, value: u32) -> CpuView {
        if self.unbanked(rn) {
            CpuView { regs: self.regs.update(rn, value), ..self }
        } else {
            match self.mode() {
                CpuMode::FIQ => CpuView { fiq: self.fiq.update(rn - 8, value), ..self },
                CpuMode::Supervisor => CpuView { svc: self.svc.update(rn - 13, value), ..self },
                CpuMode::IRQ => CpuView { irq: self.irq.update(rn - 13, value), ..self },
                CpuMode::Abort => CpuView { abt: self.abt.update(rn - 13, value), ..self },
                CpuMode::Undefined => CpuView { und: self.und.update(rn - 13, value), ..self },
                _ => CpuView { regs: self.regs.update(rn, value), ..self },
            }
        }
    }

    /// The saved status word of the current mode; the status word itself in User and
    /// System mode.
    pub open spec fn psr_value(self) -> u32 {
        match self.mode() {
            CpuMode::User | CpuMode::System => self.cpsr,
            CpuMode::FIQ => self.psr[0],
            CpuMode::Supervisor => self.psr[1],
            CpuMode::IRQ => self.psr[2],
            CpuMode::Abort => self.psr[3],
            CpuMode::Undefined => self.psr[4],
        }
    }

    /// The state after writing the saved status word of the current mode; nothing changes
    /// in User and System mode.
    pub open spec fn set_psr_value(self, value: u32) -> CpuView {
        match self.mode() {
            CpuMode::User | CpuMode::System => self,
            CpuMode::FIQ => CpuView { psr: self.psr.update(0, value), ..self },
            CpuMode::Supervisor => CpuView { psr: self.psr.update(1, value), ..self },
            CpuMode::IRQ => CpuView { psr: self.psr.update(2, value), ..self },
            CpuMode::Abort => CpuView { psr: self.psr.update(3, value), ..self },
            CpuMode::Undefined => CpuView { psr: self.psr.update(4, value), ..self },
        }
    }

    pub open spec fn with_cpsr(self, cpsr: u32) -> CpuView {
        CpuView { cpsr, ..self }
    }

    pub open spec fn with_flags(self, res: u32, v: bool, c: bool) -> CpuView {
        self.with_cpsr(cpsr_with_flags(self.cpsr, res, v, c))
    }

    pub open spec fn add_cycles(self, n: u32) -> CpuView {
        CpuView { cycles: self.cycles.wrapping_add(n), ..self }
    }

    pub open spec fn with_decode(self, decode: u32, inst_addr: usize) -> CpuView {
        CpuView { decode, inst_addr, ..self }
    }

    pub open spec fn is_thumb(self) -> bool {
        t_flag(self.cpsr)
    }
}

/// The status word that `update_cpsr` builds from the four flag masks.
pub proof fn lemma_flag_merge(cpsr: u32, z: u32, n: u32, vv: u32, cc: u32)
    by (bit_vector)
    requires
        z == 0 || z == 0x40000000u32,
        n == 0 || n == 0x80000000u32,
        vv == 0 || vv == 0x10000000u32,
        cc == 0 || cc == 0x20000000u32,
    ensures
        (((cpsr & 0x0fffffffu32) | z | n | vv | cc) & 0x1fu32) == cpsr & 0x1fu32,
        (((cpsr & 0x0fffffffu32) | z | n | vv | cc) & 0x20u32) == cpsr & 0x20u32,
        ((cpsr & 0x0fffffffu32) | z | n | vv | cc) & 0x40000000u32 == z,
        ((cpsr & 0x0fffffffu32) | z | n | vv | cc) & 0x80000000u32 == n,
        ((cpsr & 0x0fffffffu32) | z | n | vv | cc) & 0x10000000u32 == vv,
        ((cpsr & 0x0fffffffu32) | z | n | vv | cc) & 0x20000000u32 == cc,
        ((cpsr & 0x0fffffffu32) | z | n | vv | cc) & 0x0fffffffu32 == cpsr & 0x0fffffffu32,
{
}

/// Writing the flags keeps the mode bits, so a valid state stays valid.
pub proof fn lemma_flags_keep_mode(cpsr: u32, res: u32, v: bool, c: bool)
    ensures
        cpsr_with_flags(cpsr, res, v, c) & 0x1f == cpsr & 0x1f,
        cpsr_with_flags(cpsr, res, v, c) & 0x20 == cpsr & 0x20,
{
    lemma_flags_read_back(cpsr, res, v, c);
}

/// Setting or clearing the Thumb bit keeps the mode bits.
pub proof fn lemma_thumb_keeps_mode(cpsr: u32, is_thumb: bool)
    ensures
        cpsr_with_thumb(cpsr, is_thumb) & 0x1f == cpsr & 0x1f,
        t_flag(cpsr_with_thumb(cpsr, is_thumb)) == is_thumb,
{
    super::lemma_status_word(cpsr);
}

/// Changing the overflow flag keeps the mode and Thumb bits.
pub proof fn lemma_v_keeps_mode(cpsr: u32, v: bool)
    ensures
        cpsr_with_v(cpsr, v) & 0x1f == cpsr & 0x1f,
        cpsr_with_v(cpsr, v) & 0x20 == cpsr & 0x20,
        v_flag(cpsr_with_v(cpsr, v)) == v,
        c_flag(cpsr_with_v(cpsr, v)) == c_flag(cpsr),
{
    super::lemma_status_word(cpsr);
}

/// The flags that `update_cpsr` writes read back as given.
pub proof fn lemma_flags_read_back(cpsr: u32, res: u32, v: bool, c: bool)
    ensures
        z_flag(cpsr_with_flags(cpsr, res, v, c)) == (res == 0),
        n_flag(cpsr_with_flags(cpsr, res, v, c)) == (res >= 0x8000_0000),
        v_flag(cpsr_with_flags(cpsr, res, v, c)) == v,
        c_flag(cpsr_with_flags(cpsr, res, v, c)) == c,
        cpsr_with_flags(cpsr, res, v, c) & 0x0fffffff == cpsr & 0x0fffffff,
        cpsr_with_flags(cpsr, res, v, c) & 0x1f == cpsr & 0x1f,
        cpsr_with_flags(cpsr, res, v, c) & 0x20 == cpsr & 0x20,
{
    let z: u32 = if res == 0 { CPSR_Z } else { 0 };
    let n: u32 = if res >= 0x8000_0000 { CPSR_N } else { 0 };
    let vv: u32 = if v { CPSR_V } else { 0 };
    let cc: u32 = if c { CPSR_C } else { 0 };
    lemma_flag_merge(cpsr, z, n, vv, cc);
}

impl Default for CPU {
    fn default() -> (r: Self)
        ensures
            r@ == CPU::initial_view(0, 0, 0),
    {
        CPU::new(0, 0, 0)
    }
}

impl CPU {
    /// The state that `new` builds.
    pub open spec fn initial_view(initial_pc: u32, initial_sp: u32, init_cycles: u32) -> CpuView {
        CpuView {
            regs: seq![0u32, 0, 0, 0, 0, 0, 0, 0, 0, 0, 0, 0, 0, initial_sp, 0, initial_pc],
            fiq: seq![0u32, 0, 0, 0, 0, initial_sp, 0],
            svc: seq![initial_sp, 0u32],
            abt: seq![initial_sp, 0u32],
            irq: seq![initial_sp, 0u32],
            und: seq![initial_sp, 0u32],
            cpsr: 0x1f,
            psr: seq![0x1fu32, 0, 0, 0, 0, 0],
            decode: 0,
            inst_addr: 0,
            cycles: init_cycles,
        }
    }

    pub fn new(initial_pc: u32, initial_sp: u32, init_cycles: u32) -> (r: Self)
        ensures
            r@ == CPU::initial_view(initial_pc, initial_sp, init_cycles),
            r@.valid(),
    {
        let r = Self {
            registers: [0, 0, 0, 0, 0, 0, 0, 0, 0, 0, 0, 0, 0, initial_sp, 0, initial_pc],
            fiq_banked_gen_regs: [0, 0, 0, 0, 0, initial_sp, 0],
            svc_banked_regs: [initial_sp, 0],
            abt_banked_regs: [initial_sp, 0],
            irq_banked_regs: [initial_sp, 0],
            und_banked_regs: [initial_sp, 0],
            psr: [0x1f, 0, 0, 0, 0, 0],
            cpsr: 0x1f,
            decode: 0x0,
            inst_addr: 0x0,
            cycles: init_cycles,
        };
        proof {
            crate::utils::lemma_word_fields(0x1f, 0);
        }
        assert(r@ =~= CPU::initial_view(initial_pc, initial_sp, init_cycles));
        r
    }

    /// The program counter, r15 of the unbanked file.
    pub fn pc(&self) -> (r: usize)
        ensures
            r == self.registers@[PC as int] as usize,
    {
        self.registers[PC] as usize
    }

    /// Whether the mode bits of the status word name one of the seven modes, which reading
    /// registers and status words needs.
    pub fn has_valid_mode(&self) -> (r: bool)
        ensures
            r == self@.valid(),
    {
        let m = self.cpsr & 0x1f;
        m == 0x10 || m == 0x11 || m == 0x12 || m == 0x13 || m == 0x17 || m == 0x1b || m == 0x1f
    }

    pub fn instruction_address(&self) -> (r: usize)
        ensures
            r == self.inst_addr,
    {
        self.inst_addr
    }

    /// Adds to the cycle counter, which wraps.
    pub fn add_cycles(&mut self, cycles: u32)
        ensures
            final(self)@ == old(self)@.add_cycles(cycles),
    {
        self.cycles = self.cycles.wrapping_add(cycles);
    }

    pub fn cycles(&self) -> (r: u32)
        ensures
            r == self.cycles,
    {
        self.cycles
    }

    pub fn get_register(&self, rn: usize) -> (r: u32)
        requires
            rn < 16,
            self@.valid(),
        ensures
            r == self@.reg(rn as int),
    {
        let mode = CpuMode::from(self.cpsr);
        if rn == 15 || (rn < 13 && !((mode == CpuMode::FIQ) && rn > 8)) {
            return self.registers[rn];
        }
        match mode {
            CpuMode::FIQ => self.fiq_banked_gen_regs[rn - 8],
            CpuMode::Supervisor => self.svc_banked_regs[rn - 13],
            CpuMode::IRQ => self.irq_banked_regs[rn - 13],
            CpuMode::Abort => self.abt_banked_regs[rn - 13],
            CpuMode::Undefined => self.und_banked_regs[rn - 13],
            CpuMode::User | CpuMode::System => self.registers[rn],
        }
    }

    pub fn set_register(&mut self, rn: usize, value: u32)
        requires
            rn < 16,
            old(self)@.valid(),
        ensures
            final(self)@ == old(self)@.set_reg(rn as int, value),
    {
        let mode = CpuMode::from(self.cpsr);
        if rn == 15 || (rn < 13 && !((mode == CpuMode::FIQ) && rn > 8)) {
            self.registers[rn] = value;
            return;
        }
        match mode {
            CpuMode::FIQ => self.fiq_banked_gen_regs[rn - 8] = value,
            CpuMode::Supervisor => self.svc_banked_regs[rn - 13] = value,
            CpuMode::Abort => self.abt_banked_regs[rn - 13] = value,
            CpuMode::IRQ => self.irq_banked_regs[rn - 13] = value,
            CpuMode::Undefined => self.und_banked_regs[rn - 13] = value,
            CpuMode::User | CpuMode::System => self.registers[rn] = value,
        }
    }

    /// The saved status word of the current mode, or the status word in User and System mode.
    pub fn get_psr(&self) -> (r: u32)
        requires
            self@.valid(),
        ensures
            r == self@.psr_value(),
    {
        let mode = CpuMode::from(self.cpsr);
        match mode {
            CpuMode::User | CpuMode::System => self.cpsr,
            CpuMode::FIQ => self.psr[0],
            CpuMode::Supervisor => self.psr[1],
            CpuMode::IRQ => self.psr[2],
            CpuMode::Abort => self.psr[3],
            CpuMode::Undefined => self.psr[4],
        }
    }

    /// Writes the saved status word of the current mode; User and System mode have none, and
    /// there the call changes nothing.
    pub fn set_psr(&mut self, value: u32)
        requires
            old(self)@.valid(),
        ensures
            final(self)@ == old(self)@.set_psr_value(value),
    {
        let mode = CpuMode::from(self.cpsr);
        match mode {
            CpuMode::User | CpuMode::System => {},
            CpuMode::FIQ => self.psr[0] = value,
            CpuMode::Supervisor => self.psr[1] = value,
            CpuMode::IRQ => self.psr[2] = value,
            CpuMode::Abort => self.psr[3] = value,
            CpuMode::Undefined => self.psr[4] = value,
        }
    }

    /// Sets N and Z from `res`, V from `v` and C from `c`, keeping the other status bits.
    pub fn update_cpsr(&mut self, res: u32, v: bool, c: bool)
        ensures
            final(self)@ == old(self)@.with_flags(res, v, c),
            final(self)@.valid() == old(self)@.valid(),
            final(self)@.is_thumb() == old(self)@.is_thumb(),
            final(self)@.mode() == old(self)@.mode(),
    {
        let zero = if res == 0 { CPSR_Z } else { 0 };
        let neg = if super::is_signed(res) { CPSR_N } else { 0 };
        let over = if v { CPSR_V } else { 0 };
        let carry = if c { CPSR_C } else { 0 };
        proof {
            crate::utils::lemma_word_fields(res, 0);
            lemma_flags_keep_mode(self.cpsr, res, v, c);
        }
        self.cpsr &= 0x0fffffff;
        self.cpsr |= zero;
        self.cpsr |= neg;
        self.cpsr |= over;
        self.cpsr |= carry;
    }

    pub fn update_thumb(&mut self, is_thumb: bool)
        ensures
            final(self)@ == old(self)@.with_cpsr(cpsr_with_thumb(old(self).cpsr, is_thumb)),
            final(self)@.valid() == old(self)@.valid(),
            final(self)@.mode() == old(self)@.mode(),
            final(self)@.is_thumb() == is_thumb,
    {
        proof {
            lemma_thumb_keeps_mode(self.cpsr, is_thumb);
        }
        if is_thumb {
            self.cpsr |= CPSR_T;
        } else {
            self.cpsr &= !CPSR_T;
        }
    }

    pub fn is_thumb_mode(&self) -> (r: bool)
        ensures
            r == self@.is_thumb(),
    {
        self.cpsr & CPSR_T == CPSR_T
    }

    /// The carry flag.
    pub fn c_status(&self) -> (r: bool)
        ensures
            r == c_flag(self.cpsr),
    {
        self.cpsr & CPSR_C == CPSR_C
    }

    /// The overflow flag.
    pub fn v_status(&self) -> (r: bool)
        ensures
            r == v_flag(self.cpsr),
    {
        self.cpsr & CPSR_V == CPSR_V
    }

    /// Sets or clears the overflow flag alone.
    pub fn set_v_status(&mut self, v: bool)
        ensures
            final(self)@ == old(self)@.with_cpsr(cpsr_with_v(old(self).cpsr, v)),
            final(self)@.valid() == old(self)@.valid(),
            final(self)@.mode() == old(self)@.mode(),
            final(self)@.is_thumb() == old(self)@.is_thumb(),
    {
        proof {
            lemma_v_keeps_mode(self.cpsr, v);
        }
        if v {
            self.cpsr |= CPSR_V;
        } else {
            self.cpsr &= !CPSR_V;
        }
    }
}

} // verus!

verus! {

/// Every register file the view holds has the length of the hardware's.
pub open spec fn view_wf(v: CpuView) -> bool {
    v.regs.len() == 16 && v.fiq.len() == 7 && v.svc.len() == 2 && v.abt.len() == 2
        && v.irq.len() == 2 && v.und.len() == 2 && v.psr.len() == 6
}

/// Reading a register gives back what was last written to it in the same mode.
pub proof fn lemma_register_read_after_write(cpu: CPU, rn: int, value: u32)
    requires
        cpu@.valid(),
        0 <= rn < 16,
    ensures
        cpu@.set_reg(rn, value).reg(rn) == value,
        cpu@.set_reg(rn, value).cpsr == cpu@.cpsr,
{
}

/// Writing one register leaves every other register, as the same mode sees it, unchanged.
pub proof fn lemma_register_write_frame(cpu: CPU, rn: int, rm: int, value: u32)
    requires
        cpu@.valid(),
        0 <= rn < 16,
        0 <= rm < 16,
        rn != rm,
    ensures
        cpu@.set_reg(rn, value).reg(rm) == cpu@.reg(rm),
{
}

/// The flags that `update_cpsr` sets read back through the flag tests, and the Thumb bit
/// that `update_thumb` sets reads back through `is_thumb`.
pub proof fn lemma_status_read_back(cpu: CPU, res: u32, v: bool, c: bool, is_thumb: bool)
    ensures
        z_flag(cpu@.with_flags(res, v, c).cpsr) == (res == 0),
        n_flag(cpu@.with_flags(res, v, c).cpsr) == (res >= 0x8000_0000),
        v_flag(cpu@.with_flags(res, v, c).cpsr) == v,
        c_flag(cpu@.with_flags(res, v, c).cpsr) == c,
        cpu@.with_cpsr(cpsr_with_thumb(cpu.cpsr, is_thumb)).is_thumb() == is_thumb,
{
    lemma_flags_read_back(cpu.cpsr, res, v, c);
    lemma_thumb_keeps_mode(cpu.cpsr, is_thumb);
}

} // verus!

verus! {

use super::{condition_holds, conditional_from_code, machine, Conditional, Machine, Operation};
use super::arm::{decode_arm_spec, decode_as_arm};
use super::thumb::{decode_as_thumb, decode_thumb_spec};
use super::system::{halfword_of, read_spec, SystemMemory};

/// The state after running instruction word `inst`: in ARM state a failed condition costs
/// one cycle and otherwise the decoded instruction runs; in Thumb state the decoded
/// instruction runs, and a word that fails to decode changes nothing.
pub open spec fn execute_spec(s: Machine, inst: u32) -> Machine {
    if !s.cpu.is_thumb() {
        if !condition_holds(conditional_from_code(inst >> 28), s.cpu.cpsr) {
            s.add_cycles(1)
        } else {
            decode_arm_spec(inst).effect(s)
        }
    } else {
        match decode_thumb_spec(inst) {
            Ok(op) => op.effect(s),
            Err(_) => s,
        }
    }
}

/// Whether running `inst` from `s` completes.
pub open spec fn execute_ok(s: Machine, inst: u32) -> bool {
    if !s.cpu.is_thumb() {
        !condition_holds(conditional_from_code(inst >> 28), s.cpu.cpsr) || decode_arm_spec(inst).runs_ok(s)
    } else {
        match decode_thumb_spec(inst) {
            Ok(op) => op.runs_ok(s),
            Err(_) => true,
        }
    }
}

/// The instruction word fetched at the PC: a halfword in Thumb state, a word in ARM state,
/// 0 when the read fails.
pub open spec fn fetch_spec(s: Machine) -> u32 {
    let pc = s.cpu.regs[15] as usize;
    match read_spec(s.mem, pc) {
        Ok(w) => if s.cpu.is_thumb() { halfword_of(w, pc) } else { w },
        Err(_) => 0,
    }
}

/// The pipeline step of `tick` before execution: the fetched word replaces the decoded one,
/// the instruction address becomes the PC, and the PC advances by one instruction.
pub open spec fn fetched(s: Machine) -> Machine {
    let pc = s.cpu.regs[15];
    let step: u32 = if s.cpu.is_thumb() { 2 } else { 4 };
    let c = CpuView { regs: s.cpu.regs.update(15, (pc + step) as u32), ..s.cpu.with_decode(fetch_spec(s), pc as usize) };
    Machine { cpu: c, ..s }
}

/// The state after one `tick`: the previously fetched instruction runs after the fetch.
pub open spec fn tick_spec(s: Machine) -> Machine {
    execute_spec(fetched(s), s.cpu.decode)
}

/// Whether one `tick` from `s` completes: the PC must not overflow and the instruction must
/// run.
pub open spec fn tick_ok(s: Machine) -> bool {
    let step: u32 = if s.cpu.is_thumb() { 2 } else { 4 };
    s.cpu.regs[15] + step <= u32::MAX && execute_ok(fetched(s), s.cpu.decode)
}

/// The state after `k` ticks.
pub open spec fn ticks(s: Machine, k: nat) -> Machine
    decreases k,
{
    if k == 0 {
        s
    } else {
        tick_spec(ticks(s, (k - 1) as nat))
    }
}

/// Cycles counted from `s0` to `s`, by subtracting the counters.
pub open spec fn elapsed(s0: Machine, s: Machine) -> int {
    s.cpu.cycles - s0.cpu.cycles
}

/// `tick_for_cycles` from `s0` stops after exactly `k` ticks: before each of them fewer than
/// `n` cycles have passed and the tick completes, after the last at least `n` have; the
/// counter never falls below its start, where the subtraction would underflow.
pub open spec fn runs_for_cycles(s0: Machine, n: u32, k: nat) -> bool {
    &&& forall|i: nat| i < k ==> 0 <= #[trigger] elapsed(s0, ticks(s0, i)) < n && tick_ok(ticks(s0, i))
        && ticks(s0, i).valid()
    &&& elapsed(s0, ticks(s0, k)) >= n
}

impl CPU {
    /// Runs instruction word `inst`, fetched from `_i_addr`.
    pub fn run_instruction(&mut self, ram: &mut SystemMemory, inst: u32, _i_addr: usize)
        requires
            machine(old(self), old(ram)).valid(),
            execute_ok(machine(old(self), old(ram)), inst),
        ensures
            machine(final(self), final(ram)) == execute_spec(machine(old(self), old(ram)), inst),
    {
        if !self.is_thumb_mode() {
            let cond = Conditional::from(inst);
            if !cond.should_run(self.cpsr) {
                self.add_cycles(1);
                return;
            }
            match decode_as_arm(inst) {
                Ok(op) => op.run(self, ram),
                Err(_) => {},
            }
        } else {
            match decode_as_thumb(inst) {
                Ok(op) => op.run(self, ram),
                Err(_) => {},
            }
        }
    }

    /// Whether `tick` can run from this state: the mode is valid and the tick completes
    /// (`tick_ok`).
    pub fn can_tick(&self, ram: &mut SystemMemory) -> (r: bool)
        ensures
            final(ram)@ == old(ram)@,
            r == (machine(self, old(ram)).valid() && tick_ok(machine(self, old(ram)))),
    {
        proof {
            super::system::lemma_view_regions(*ram);
        }
        if !self.has_valid_mode() {
            return false;
        }
        let pc = self.registers[PC];
        let thumb = self.is_thumb_mode();
        let step: u32 = if thumb { 2 } else { 4 };
        if pc as u64 + step as u64 > u32::MAX as u64 {
            return false;
        }
        let next_inst = if thumb {
            ram.read_halfword(pc as usize)
        } else {
            ram.read_word(pc as usize)
        };
        let fetched_word = match next_inst {
            Ok(i) => i,
            Err(_) => 0,
        };
        let mut next = CPU {
            registers: self.registers,
            fiq_banked_gen_regs: self.fiq_banked_gen_regs,
            svc_banked_regs: self.svc_banked_regs,
            abt_banked_regs: self.abt_banked_regs,
            irq_banked_regs: self.irq_banked_regs,
            und_banked_regs: self.und_banked_regs,
            cpsr: self.cpsr,
            psr: self.psr,
            decode: fetched_word,
            inst_addr: pc as usize,
            cycles: self.cycles,
        };
        next.registers[PC] = pc + step;
        assert(machine(&next, ram) == fetched(machine(self, old(ram))));
        let inst = self.decode;
        if !thumb {
            if !Conditional::from(inst).should_run(next.cpsr) {
                return true;
            }
            match decode_as_arm(inst) {
                Ok(op) => op.can_run(&next, ram),
                Err(_) => true,
            }
        } else {
            match decode_as_thumb(inst) {
                Ok(op) => op.can_run(&next, ram),
                Err(_) => true,
            }
        }
    }

    /// Fetches the next instruction and runs the one fetched before.
    pub fn tick(&mut self, ram: &mut SystemMemory)
        requires
            machine(old(self), old(ram)).valid(),
            tick_ok(machine(old(self), old(ram))),
        ensures
            machine(final(self), final(ram)) == tick_spec(machine(old(self), old(ram))),
    {
        let inst = self.decode;
        let i_addr = self.inst_addr;
        self.inst_addr = self.pc();
        let next_inst = if self.is_thumb_mode() {
            ram.read_halfword(self.pc())
        } else {
            ram.read_word(self.pc())
        };
        self.decode = match next_inst {
            Ok(i) => i,
            Err(_) => 0,
        };
        let step: u32 = if !self.is_thumb_mode() { 4 } else { 2 };
        self.registers[PC] = self.registers[PC] + step;
        proof {
            assert(machine(self, ram) == fetched(machine(old(self), old(ram))));
        }
        self.run_instruction(ram, inst, i_addr);
    }

    /// Ticks until at least `num_of_cycles` cycles have passed.
    pub fn tick_for_cycles(&mut self, ram: &mut SystemMemory, num_of_cycles: u32)
        requires
            machine(old(self), old(ram)).valid(),
            exists|k: nat| runs_for_cycles(machine(old(self), old(ram)), num_of_cycles, k),
        ensures
            exists|k: nat|
                runs_for_cycles(machine(old(self), old(ram)), num_of_cycles, k) && machine(final(self), final(ram))
                    == ticks(machine(old(self), old(ram)), k),
    {
        let ghost s0 = machine(self, ram);
        assert(ticks(s0, 0) == s0);
        let ghost k = choose|k: nat| runs_for_cycles(s0, num_of_cycles, k);
        let old_cycles = self.cycles;
        let mut i: Ghost<nat> = Ghost(0);
        while self.cycles - old_cycles < num_of_cycles
            invariant
                runs_for_cycles(s0, num_of_cycles, k),
                s0.cpu.cycles == old_cycles,
                i@ <= k,
                machine(self, ram) == ticks(s0, i@),
                i@ < k ==> machine(self, ram).valid(),
                self.cycles >= old_cycles,
            decreases k - i@,
        {
            proof {
                if i@ == k {
                    assert(elapsed(s0, ticks(s0, k)) >= num_of_cycles);
                    assert(false);
                }
                assert(0 <= elapsed(s0, ticks(s0, i@)) < num_of_cycles && tick_ok(ticks(s0, i@)));
            }
            self.tick(ram);
            proof {
                i@ = i@ + 1;
                if i@ < k {
                    assert(0 <= elapsed(s0, ticks(s0, i@)));
                } else {
                    assert(elapsed(s0, ticks(s0, k)) >= num_of_cycles);
                }
            }
        }
        proof {
            if i@ < k {
                assert(elapsed(s0, ticks(s0, i@)) < num_of_cycles);
            }
        }
    }
}

} // verus!
