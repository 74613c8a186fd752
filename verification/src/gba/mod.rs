pub mod arm;
pub mod cpu;
pub mod debugger;
pub mod dma;
pub mod error;
pub mod instructions;
pub mod mapped_io;
pub mod system;
pub mod thumb;
pub mod utils;

use vstd::prelude::*;
use cpu::{CPU, CpuView};
use system::{read_spec, write_spec, SystemMemory};

verus! {

pub const CPSR_N: u32 = 0x80000000;
pub const CPSR_Z: u32 = 0x40000000;
pub const CPSR_C: u32 = 0x20000000;
pub const CPSR_V: u32 = 0x10000000;
pub const CPSR_T: u32 = 0x20;

/// Negative flag of a status word.
pub open spec fn n_flag(cpsr: u32) -> bool {
    cpsr & CPSR_N == CPSR_N
}

/// Zero flag of a status word.
pub open spec fn z_flag(cpsr: u32) -> bool {
    cpsr & CPSR_Z == CPSR_Z
}

/// Carry flag of a status word.
pub open spec fn c_flag(cpsr: u32) -> bool {
    cpsr & CPSR_C == CPSR_C
}

/// Overflow flag of a status word.
pub open spec fn v_flag(cpsr: u32) -> bool {
    cpsr & CPSR_V == CPSR_V
}

/// Thumb-state flag of a status word.
pub open spec fn t_flag(cpsr: u32) -> bool {
    cpsr & CPSR_T == CPSR_T
}

/// Facts about the bits of a status word: a flag reads as clear exactly when masking it
/// out gives zero; the GE test of `should_run` compares the N bit with itself; setting or
/// clearing T or V keeps the mode bits.
pub proof fn lemma_status_word(cpsr: u32)
    by (bit_vector)
    ensures
        ((cpsr & 0x80000000u32) == 0) == !((cpsr & 0x80000000u32) == 0x80000000u32),
        ((cpsr & 0x40000000u32) == 0) == !((cpsr & 0x40000000u32) == 0x40000000u32),
        ((cpsr & 0x20000000u32) == 0) == !((cpsr & 0x20000000u32) == 0x20000000u32),
        ((cpsr & 0x10000000u32) == 0) == !((cpsr & 0x10000000u32) == 0x10000000u32),
        ((cpsr & 0x20u32) == 0) == !((cpsr & 0x20u32) == 0x20u32),
        (cpsr & 0x80000000u32) == (cpsr & (0x10000000u32 << 3u32)),
        ((cpsr & 0x80000000u32) != ((cpsr & 0x10000000u32) << 3u32)) == (((cpsr & 0x80000000u32)
            == 0x80000000u32) != ((cpsr & 0x10000000u32) == 0x10000000u32)),
        ((cpsr & 0x20000000u32) >> 29u32) <= 1,
        (cpsr | 0x20u32) & 0x1fu32 == cpsr & 0x1fu32,
        (cpsr & !0x20u32) & 0x1fu32 == cpsr & 0x1fu32,
        (cpsr | 0x20u32) & 0x20u32 == 0x20u32,
        (cpsr & !0x20u32) & 0x20u32 != 0x20u32,
        (cpsr | 0x10000000u32) & 0x1fu32 == cpsr & 0x1fu32,
        (cpsr & !0x10000000u32) & 0x1fu32 == cpsr & 0x1fu32,
        (cpsr | 0x10000000u32) & 0x20u32 == cpsr & 0x20u32,
        (cpsr & !0x10000000u32) & 0x20u32 == cpsr & 0x20u32,
        (cpsr | 0x10000000u32) & 0x10000000u32 == 0x10000000u32,
        (cpsr & !0x10000000u32) & 0x10000000u32 != 0x10000000u32,
        ((cpsr | 0x10000000u32) & 0x20000000u32 == 0x20000000u32) == (cpsr & 0x20000000u32
            == 0x20000000u32),
        ((cpsr & !0x10000000u32) & 0x20000000u32 == 0x20000000u32) == (cpsr & 0x20000000u32
            == 0x20000000u32),
{
}

/// Each flag of a status word is one bit: N bit 31, Z bit 30, C bit 29, V bit 28.
pub proof fn lemma_flag_bits(cpsr: u32)
    by (bit_vector)
    ensures
        (cpsr & 0x80000000u32 == 0x80000000u32) == ((cpsr >> 31u32) & 1 == 1),
        (cpsr & 0x40000000u32 == 0x40000000u32) == ((cpsr >> 30u32) & 1 == 1),
        (cpsr & 0x20000000u32 == 0x20000000u32) == ((cpsr >> 29u32) & 1 == 1),
        (cpsr & 0x10000000u32 == 0x10000000u32) == ((cpsr >> 28u32) & 1 == 1),
        (cpsr & 0x20000000u32 == 0x20000000u32) == ((cpsr & 0x20000000u32) >> 29u32 == 1),
{
}

/// A flag reads as clear exactly when masking it out gives zero.
pub proof fn lemma_flag_clear(cpsr: u32)
    ensures
        ((cpsr & CPSR_N) == 0) == !n_flag(cpsr),
        ((cpsr & CPSR_Z) == 0) == !z_flag(cpsr),
        ((cpsr & CPSR_C) == 0) == !c_flag(cpsr),
        ((cpsr & CPSR_V) == 0) == !v_flag(cpsr),
        ((cpsr & CPSR_T) == 0) == !t_flag(cpsr),
{
    lemma_status_word(cpsr);
}

/// The two's-complement negation of a negative word is its magnitude.
pub proof fn lemma_negate(num: u32, r: u32)
    by (bit_vector)
    requires
        r == (!num).wrapping_add(1u32),
        num >= 0x8000_0000,
    ensures
        r == (0x1_0000_0000 - num) as u32,
{
}

/// Bits past the width of a register list are clear.
pub proof fn lemma_high_bits_clear(bitmap: u32, e: u32)
    by (bit_vector)
    requires
        e < 31,
    ensures
        bitmap <= 0xffff && e >= 16 ==> (bitmap >> e) & 1 != 1,
        bitmap <= 0xff && e >= 8 ==> (bitmap >> e) & 1 != 1,
{
}

/// The condition field of an ARM instruction.
#[derive(Debug, PartialEq, Eq, Structural, Clone, Copy)]
pub enum Conditional {
    EQ,
    NE,
    CS,
    CC,
    MI,
    PL,
    VS,
    VC,
    HI,
    LS,
    GE,
    LT,
    GT,
    LE,
    AL,
    NV,
}

/// The condition that a 4-bit code names.
pub open spec fn conditional_from_code(code: u32) -> Conditional {
    if code == 0 {
        Conditional::EQ
    } else if code == 1 {
        Conditional::NE
    } else if code == 2 {
        Conditional::CS
    } else if code == 3 {
        Conditional::CC
    } else if code == 4 {
        Conditional::MI
    } else if code == 5 {
        Conditional::PL
    } else if code == 6 {
        Conditional::VS
    } else if code == 7 {
        Conditional::VC
    } else if code == 8 {
        Conditional::HI
    } else if code == 9 {
        Conditional::LS
    } else if code == 10 {
        Conditional::GE
    } else if code == 11 {
        Conditional::LT
    } else if code == 12 {
        Conditional::GT
    } else if code == 13 {
        Conditional::LE
    } else if code == 14 {
        Conditional::AL
    } else {
        Conditional::NV
    }
}

/// Whether an instruction under condition `cond` runs with status word `cpsr`, as this
/// emulator decides it. Its GE test compares the N bit with itself and so always holds,
/// which makes GT a test of Z clear and LE a test of Z set; LS requires C clear and Z set.
pub open spec fn condition_holds(cond: Conditional, cpsr: u32) -> bool {
    match cond {
        Conditional::EQ => z_flag(cpsr),
        Conditional::NE => !z_flag(cpsr),
        Conditional::CS => c_flag(cpsr),
        Conditional::CC => !c_flag(cpsr),
        Conditional::MI => n_flag(cpsr),
        Conditional::PL => !n_flag(cpsr),
        Conditional::VS => v_flag(cpsr),
        Conditional::VC => !v_flag(cpsr),
        Conditional::HI => c_flag(cpsr) && !z_flag(cpsr),
        Conditional::LS => !c_flag(cpsr) && z_flag(cpsr),
        Conditional::GE => true,
        Conditional::LT => n_flag(cpsr) != v_flag(cpsr),
        Conditional::GT => !z_flag(cpsr),
        Conditional::LE => z_flag(cpsr),
        Conditional::AL => true,
        Conditional::NV => false,
    }
}

/// Each condition and its opposite code disagree on every status word (the equal, carry,
/// negative, overflow and greater-than pairs); `AL` always holds and `NV` never does.
pub proof fn lemma_opposite_conditions(cpsr: u32)
    ensures
        condition_holds(Conditional::EQ, cpsr) != condition_holds(Conditional::NE, cpsr),
        condition_holds(Conditional::CS, cpsr) != condition_holds(Conditional::CC, cpsr),
        condition_holds(Conditional::MI, cpsr) != condition_holds(Conditional::PL, cpsr),
        condition_holds(Conditional::VS, cpsr) != condition_holds(Conditional::VC, cpsr),
        condition_holds(Conditional::GT, cpsr) != condition_holds(Conditional::LE, cpsr),
        condition_holds(Conditional::AL, cpsr),
        !condition_holds(Conditional::NV, cpsr),
{
}

/// What each condition tests, read from the four flag bits of the status word (N bit 31,
/// Z bit 30, C bit 29, V bit 28): EQ/NE Z set/clear, CS/CC C set/clear, MI/PL N set/clear,
/// VS/VC V set/clear, HI C set and Z clear, LS C clear and Z set, LT N different from V.
/// The GE test compares the N bit with itself and so holds on every status word, which
/// leaves GT testing Z clear and LE testing Z set; AL always holds and NV never does.
pub proof fn law_condition_flags(cpsr: u32)
    ensures
        ({
            let n = (cpsr >> 31u32) & 1 == 1;
            let z = (cpsr >> 30u32) & 1 == 1;
            let c = (cpsr >> 29u32) & 1 == 1;
            let v = (cpsr >> 28u32) & 1 == 1;
            &&& condition_holds(Conditional::EQ, cpsr) == z
            &&& condition_holds(Conditional::NE, cpsr) == !z
            &&& condition_holds(Conditional::CS, cpsr) == c
            &&& condition_holds(Conditional::CC, cpsr) == !c
            &&& condition_holds(Conditional::MI, cpsr) == n
            &&& condition_holds(Conditional::PL, cpsr) == !n
            &&& condition_holds(Conditional::VS, cpsr) == v
            &&& condition_holds(Conditional::VC, cpsr) == !v
            &&& condition_holds(Conditional::HI, cpsr) == (c && !z)
            &&& condition_holds(Conditional::LS, cpsr) == (!c && z)
            &&& condition_holds(Conditional::GE, cpsr)
            &&& condition_holds(Conditional::LT, cpsr) == (n != v)
            &&& condition_holds(Conditional::GT, cpsr) == !z
            &&& condition_holds(Conditional::LE, cpsr) == z
            &&& condition_holds(Conditional::AL, cpsr)
            &&& !condition_holds(Conditional::NV, cpsr)
        }),
{
    lemma_flag_bits(cpsr);
}

impl Conditional {
    /// The condition in the top four bits of an instruction.
    pub fn from(instruction: u32) -> (r: Conditional)
        ensures
            r == conditional_from_code(instruction >> 28),
    {
        let conditional = instruction >> 28;
        match conditional {
            0 => Conditional::EQ,
            1 => Conditional::NE,
            2 => Conditional::CS,
            3 => Conditional::CC,
            4 => Conditional::MI,
            5 => Conditional::PL,
            6 => Conditional::VS,
            7 => Conditional::VC,
            8 => Conditional::HI,
            9 => Conditional::LS,
            10 => Conditional::GE,
            11 => Conditional::LT,
            12 => Conditional::GT,
            13 => Conditional::LE,
            14 => Conditional::AL,
            _ => Conditional::NV,
        }
    }

    pub fn should_run(&self, cpsr: u32) -> (r: bool)
        ensures
            r == condition_holds(*self, cpsr),
    {
        proof {
            lemma_flag_clear(cpsr);
            lemma_status_word(cpsr);
        }
        match self {
            Conditional::EQ => (cpsr & CPSR_Z) == CPSR_Z,
            Conditional::NE => (cpsr & CPSR_Z) == 0,
            Conditional::CS => (cpsr & CPSR_C) == CPSR_C,
            Conditional::CC => (cpsr & CPSR_C) == 0,
            Conditional::MI => (cpsr & CPSR_N) == CPSR_N,
            Conditional::PL => (cpsr & CPSR_N) == 0,
            Conditional::VS => (cpsr & CPSR_V) == CPSR_V,
            Conditional::VC => (cpsr & CPSR_V) == 0,
            Conditional::HI => (cpsr & CPSR_C) == CPSR_C && (cpsr & CPSR_Z) == 0,
            Conditional::LS => (cpsr & CPSR_C) == 0 && (cpsr & CPSR_Z) == CPSR_Z,
            Conditional::GE => (cpsr & CPSR_N) == (cpsr & CPSR_V << 3),
            Conditional::LT => (cpsr & CPSR_N) != ((cpsr & CPSR_V) << 3),
            Conditional::GT => (cpsr & CPSR_Z) == 0 && (cpsr & CPSR_N == cpsr & CPSR_V << 3),
            Conditional::LE => (cpsr & CPSR_Z) == CPSR_Z || (cpsr & CPSR_N != cpsr & CPSR_V << 3),
            Conditional::AL => true,
            _ => false,
        }
    }
}

/// Sign bit of a 32-bit word.
pub open spec fn is_signed_spec(num: u32) -> bool {
    num & 0x8000_0000 == 0x8000_0000
}

/// The magnitude of a word read as a two's-complement number; the most negative value,
/// whose magnitude does not fit, gives 0.
pub open spec fn abs_value_spec(num: u32) -> u32 {
    if is_signed_spec(num) {
        if num == 0x8000_0000 {
            0
        } else {
            (0x1_0000_0000 - num) as u32
        }
    } else {
        num
    }
}

pub fn get_abs_int_value(num: u32) -> (r: u32)
    ensures
        r == abs_value_spec(num),
{
    proof {
        crate::utils::lemma_word_fields(num, 0);
    }
    if num & 1 << 31 == 1 << 31 {
        if num == 0x8000_0000 {
            0
        } else {
            let r = (!num).wrapping_add(1);
            proof {
                lemma_negate(num, r);
            }
            r
        }
    } else {
        num
    }
}

pub fn is_signed(num: u32) -> (r: bool)
    ensures
        r == is_signed_spec(num),
{
    proof {
        crate::utils::lemma_word_fields(num, 0);
    }
    num & 1 << 31 == 1 << 31
}

/// Bit 31 of a 64-bit intermediate, the sign of its low word.
pub open spec fn sign31(x: u64) -> bool {
    (x >> 31) & 1 == 1
}

/// Overflow of `o1 + o2 = res` judged by bit 31 of each.
pub open spec fn v_from_add_spec(o1: u64, o2: u64, res: u64) -> bool {
    sign31(o1) == sign31(o2) && sign31(o1) != sign31(res)
}

/// Overflow of `o1 - o2 = res` as this emulator judges it from bit 31 of each: the second
/// operand and the result agree in sign while the first differs from the result.
pub open spec fn v_from_sub_spec(o1: u64, o2: u64, res: u64) -> bool {
    sign31(o2) == sign31(res) && sign31(o1) != sign31(res)
}

pub fn get_v_from_add(o1: u64, o2: u64, res: u64) -> (r: bool)
    ensures
        r == v_from_add_spec(o1, o2, res),
{
    let o1_sign = (o1 >> 31) & 1 == 1;
    let o2_sign = (o2 >> 31) & 1 == 1;
    let res_sign = (res >> 31) & 1 == 1;
    (o1_sign == o2_sign) && (o1_sign != res_sign)
}

pub fn get_v_from_sub(o1: u64, o2: u64, res: u64) -> (r: bool)
    ensures
        r == v_from_sub_spec(o1, o2, res),
{
    let o1_sign = (o1 >> 31) & 1 == 1;
    let o2_sign = (o2 >> 31) & 1 == 1;
    let res_sign = (res >> 31) & 1 == 1;
    (o2_sign == res_sign) && (o1_sign != res_sign)
}

/// `o1 + o2 + carry` as a 33-bit sum, with the overflow flag of the addition.
pub fn add_nums(o1: u32, o2: u32, carry: bool) -> (r: (u64, bool))
    ensures
        r.0 == o1 + o2 + (if carry { 1int } else { 0int }),
        r.1 == v_from_add_spec(o1 as u64, o2 as u64, r.0),
{
    let lhs = o1 as u64;
    let rhs = o2 as u64;
    let c: u64 = if carry { 1 } else { 0 };
    let res = lhs + rhs + c;
    (res, get_v_from_add(lhs, rhs, res))
}

/// `o1 - o2` computed as `o1 + !o2 + 1 (+ carry)` in 64 bits; bit 32 of the sum is the ARM
/// carry (no borrow) of the subtraction.
pub fn subtract_nums(o1: u32, o2: u32, carry: bool) -> (r: (u64, bool))
    ensures
        r.0 == o1 + (0xffff_ffff - o2) + 1 + (if carry { 1int } else { 0int }),
        r.1 == v_from_sub_spec(o1 as u64, (0xffff_ffff - o2) as u64, r.0),
{
    let lhs = o1 as u64;
    let not_o2 = !o2;
    proof {
        crate::utils::lemma_word_fields(o2, 0);
    }
    let rhs = not_o2 as u64;
    let c: u64 = if carry { 1 } else { 0 };
    let res = lhs + rhs + c + 1;
    (res, get_v_from_sub(lhs, rhs, res))
}

/// The positions `0..31` of the set bits of `bitmap`, in increasing order. Bit 31 is never
/// reported.
pub open spec fn set_bits_below(bitmap: u32, n: int) -> Seq<u32>
    decreases n,
{
    if n <= 0 {
        Seq::empty()
    } else if (bitmap >> ((n - 1) as u32)) & 1 == 1 {
        set_bits_below(bitmap, n - 1).push((n - 1) as u32)
    } else {
        set_bits_below(bitmap, n - 1)
    }
}

/// The list holds at most `n` positions, each below `n`, each a set bit of the bitmap, in
/// strictly increasing order; and every set bit below `n` is in it.
pub proof fn lemma_set_bits_below(bitmap: u32, n: int)
    requires
        0 <= n <= 32,
    ensures
        set_bits_below(bitmap, n).len() <= n,
        forall|i: int|
            0 <= i < set_bits_below(bitmap, n).len() ==> #[trigger] set_bits_below(bitmap, n)[i] < n
                && (bitmap >> set_bits_below(bitmap, n)[i]) & 1 == 1,
        forall|i: int, j: int|
            0 <= i < j < set_bits_below(bitmap, n).len() ==> set_bits_below(bitmap, n)[i]
                < set_bits_below(bitmap, n)[j],
        forall|b: u32| b < n && (bitmap >> b) & 1 == 1 ==> set_bits_below(bitmap, n).contains(b),
    decreases n,
{
    if n > 0 {
        lemma_set_bits_below(bitmap, n - 1);
        let prev = set_bits_below(bitmap, n - 1);
        if (bitmap >> ((n - 1) as u32)) & 1 == 1 {
            let cur = prev.push((n - 1) as u32);
            assert(cur[cur.len() - 1] == (n - 1) as u32);
            assert forall|b: u32| b < n && (bitmap >> b) & 1 == 1 implies cur.contains(b) by {
                if b < n - 1 {
                    assert(prev.contains(b));
                    let k = choose|k: int| 0 <= k < prev.len() && prev[k] == b;
                    assert(cur[k] == b);
                } else {
                    assert(cur[cur.len() - 1] == b);
                }
            }
        } else {
            assert forall|b: u32| b < n && (bitmap >> b) & 1 == 1 implies prev.contains(b) by {
                if b == n - 1 {
                    assert(false);
                } else {
                    assert(prev.contains(b));
                }
            }
        }
    }
}

/// The set bits of a 16-bit register list name registers.
pub proof fn lemma_register_list(bitmap: u32)
    requires
        bitmap <= 0xffff,
    ensures
        set_bits_below(bitmap, 31).len() <= 16,
        forall|i: int|
            0 <= i < set_bits_below(bitmap, 31).len() ==> #[trigger] set_bits_below(bitmap, 31)[i] < 16,
{
    lemma_set_bits_below(bitmap, 31);
    let l = set_bits_below(bitmap, 31);
    assert forall|i: int| 0 <= i < l.len() implies #[trigger] l[i] < 16 by {
        let e = l[i];
        if e >= 16 {
            lemma_high_bits_clear(bitmap, e);
        }
    }
    lemma_set_bits_below(bitmap, 16);
    assert forall|i: int| 0 <= i < l.len() implies l.subrange(0, l.len() as int)[i] == l[i] by {}
    lemma_list_bounded_len(l, 16);
}

/// The set bits of an 8-bit register list name low registers.
pub proof fn lemma_low_register_list(bitmap: u32)
    requires
        bitmap <= 0xff,
    ensures
        forall|i: int|
            0 <= i < set_bits_below(bitmap, 31).len() ==> #[trigger] set_bits_below(bitmap, 31)[i] < 8,
{
    lemma_set_bits_below(bitmap, 31);
    let l = set_bits_below(bitmap, 31);
    assert forall|i: int| 0 <= i < l.len() implies #[trigger] l[i] < 8 by {
        let e = l[i];
        if e >= 8 {
            lemma_high_bits_clear(bitmap, e);
        }
    }
}

/// A strictly increasing list of values below `n` has at most `n` entries.
proof fn lemma_list_bounded_len(l: Seq<u32>, n: int)
    requires
        0 <= n,
        forall|i: int| 0 <= i < l.len() ==> #[trigger] l[i] < n,
        forall|i: int, j: int| 0 <= i < j < l.len() ==> l[i] < l[j],
    ensures
        l.len() <= n,
    decreases l.len(),
{
    if l.len() > 0 {
        let front = l.drop_last();
        assert forall|i: int| 0 <= i < front.len() implies #[trigger] front[i] < l[l.len() - 1] by {
            assert(front[i] == l[i]);
        }
        lemma_list_bounded_len(front, l[l.len() - 1] as int);
    }
}

/// Whether `x` is in `v`.
pub fn contains_u32(v: &Vec<u32>, x: u32) -> (r: bool)
    ensures
        r == v@.contains(x),
{
    let mut i: usize = 0;
    while i < v.len()
        invariant
            i <= v.len(),
            forall|j: int| 0 <= j < i ==> v@[j] != x,
        decreases v.len() - i,
    {
        if v[i] == x {
            return true;
        }
        i += 1;
    }
    false
}

pub fn bit_map_to_array(bitmap: u32) -> (arr: Vec<u32>)
    ensures
        arr@ == set_bits_below(bitmap, 31),
{
    let mut arr: Vec<u32> = Vec::new();
    let mut i: u32 = 0;
    while i < 31
        invariant
            i <= 31,
            arr@ == set_bits_below(bitmap, i as int),
        decreases 31 - i,
    {
        if (bitmap >> i) & 1 == 1 {
            arr.push(i);
        }
        i += 1;
    }
    arr
}

/// The state an instruction acts on: the processor and the memory regions.
#[verifier::ext_equal]
pub struct Machine {
    pub cpu: CpuView,
    pub mem: Seq<Seq<u32>>,
}

/// The machine state of a processor and a memory.
pub open spec fn machine(cpu: &CPU, mem: &SystemMemory) -> Machine {
    Machine { cpu: cpu@, mem: mem@ }
}

/// The word at `address`, or 0 where the read fails.
pub open spec fn read_or_zero(m: Seq<Seq<u32>>, address: usize) -> u32 {
    match read_spec(m, address) {
        Ok(w) => w,
        Err(_) => 0,
    }
}

/// The regions after a write whose failure is ignored.
pub open spec fn write_or_keep(m: Seq<Seq<u32>>, address: usize, block: u32, mask: u32) -> Seq<Seq<u32>> {
    match write_spec(m, address, block, mask) {
        Ok(m2) => m2,
        Err(_) => m,
    }
}

impl Machine {
    pub open spec fn reg(self, rn: int) -> u32 {
        self.cpu.reg(rn)
    }

    pub open spec fn set_reg(self, rn: int, value: u32) -> Machine {
        Machine { cpu: self.cpu.set_reg(rn, value), ..self }
    }

    pub open spec fn add_cycles(self, n: u32) -> Machine {
        Machine { cpu: self.cpu.add_cycles(n), ..self }
    }

    pub open spec fn with_cpu(self, cpu: CpuView) -> Machine {
        Machine { cpu, ..self }
    }

    pub open spec fn write(self, address: usize, block: u32, mask: u32) -> Machine {
        Machine { mem: write_or_keep(self.mem, address, block, mask), ..self }
    }

    pub open spec fn valid(self) -> bool {
        self.cpu.valid() && self.mem.len() == system::REGIONS
    }
}

/// An instruction of either instruction set.
pub trait Operation {
    /// Whether `run` completes from state `s`: on the other states the operation cannot
    /// complete, for instance because an address computation overflows.
    spec fn runs_ok(&self, s: Machine) -> bool;

    /// The state after running the instruction from `s`.
    spec fn effect(&self, s: Machine) -> Machine;

    fn run(&self, cpu: &mut CPU, mem: &mut SystemMemory)
        requires
            machine(old(cpu), old(mem)).valid(),
            self.runs_ok(machine(old(cpu), old(mem))),
        ensures
            machine(final(cpu), final(mem)) == self.effect(machine(old(cpu), old(mem))),
    ;
}

} // verus!
