use crate::gba::cpu::CPU;
use crate::memory::{Memory, MemoryError};
use std::collections::HashMap;
use vstd::prelude::*;

verus! {

broadcast use vstd::std_specs::hash::group_hash_axioms;

pub const WORD: u32 = 0xffffffff;

pub const HALFWORD: u32 = 0xffff;

pub const BYTE: u32 = 0xff;

/// One recorded instruction test: the state before and after, the bus transactions, the
/// opcode and where it sits.
#[derive(Debug)]
pub struct Test {
    pub initial: CpuState,
    pub end: CpuState,
    pub transactions: Vec<Transaction>,
    pub opcode: u32,
    pub base_addr: u32,
}

/// The outcome of a test: the opcode and index when it can be run, the index when it is
/// skipped (odd opcodes).
pub fn run_test(t: Test, idx: usize) -> (r: Result<(u32, usize), (bool, usize)>)
    ensures
        r == (if t.opcode & 0x1 == 1 {
            Err::<(u32, usize), (bool, usize)>((false, idx))
        } else {
            Ok((t.opcode, idx))
        }),
{
    if t.opcode & 0x1 == 1 {
        Err((false, idx))
    } else {
        Ok((t.opcode, idx))
    }
}

/// A recorded processor state.
#[derive(Debug, Clone, Copy)]
pub struct CpuState {
    pub registers: [u32; 16],
    pub r_fiq: [u32; 7],
    pub r_svc: [u32; 2],
    pub r_abt: [u32; 2],
    pub r_irq: [u32; 2],
    pub r_und: [u32; 2],
    pub cpsr: u32,
    pub spsr: [u32; 5],
    pub pipeline: [usize; 2],
    pub access: u32,
}

impl CPU {
    /// The processor in a recorded state: its registers, banks and status words, the
    /// instruction address from the first pipeline slot, no cycles counted.
    pub open spec fn loaded_from(self, value: CpuState) -> bool {
        &&& self.registers@ == value.registers@
        &&& self.fiq_banked_gen_regs@ == value.r_fiq@
        &&& self.svc_banked_regs@ == value.r_svc@
        &&& self.abt_banked_regs@ == value.r_abt@
        &&& self.irq_banked_regs@ == value.r_irq@
        &&& self.und_banked_regs@ == value.r_und@
        &&& self.cpsr == value.cpsr
        &&& self.psr@ == value.spsr@.push(0)
        &&& self.decode == 0
        &&& self.inst_addr == value.pipeline[0]
        &&& self.cycles == 0
    }

    pub fn from(value: CpuState) -> (r: CPU)
        ensures
            r.loaded_from(value),
    {
        let s = value.spsr;
        let r = CPU {
            registers: value.registers,
            fiq_banked_gen_regs: value.r_fiq,
            svc_banked_regs: value.r_svc,
            abt_banked_regs: value.r_abt,
            irq_banked_regs: value.r_irq,
            und_banked_regs: value.r_und,
            cpsr: value.cpsr,
            psr: [s[0], s[1], s[2], s[3], s[4], 0],
            decode: 0,
            inst_addr: value.pipeline[0],
            cycles: 0,
        };
        assert(r.psr@ =~= value.spsr@.push(0));
        r
    }
}

/// A bus transaction: its kind (0 and 1 reads, 2 a write), size in bytes, address and data.
#[derive(Debug, PartialEq, Eq, Structural, Clone, Copy)]
pub struct Transaction {
    pub kind: u32,
    pub size: u32,
    pub addr: usize,
    pub data: u32,
    pub cycle: u32,
    pub access: u32,
}

/// A sparse memory of words, keyed by word index; missing words read as 0.
#[derive(Debug)]
pub struct TestMemory {
    pub memory: HashMap<usize, u32>,
}

impl View for TestMemory {
    type V = Map<usize, u32>;

    open spec fn view(&self) -> Map<usize, u32> {
        self.memory@
    }
}

/// The word read at `address`: the entry for `address >> 2`, or 0.
pub open spec fn word_at(m: Map<usize, u32>, address: usize) -> u32 {
    if m.contains_key(address >> 2usize) {
        m[address >> 2usize]
    } else {
        0
    }
}

/// The memory after writing `block` under `mask` at `address`: the lanes of `mask`, shifted
/// to the byte offset of `address`, replace those of the word read there, stored under the
/// word index of the low 24 address bits.
pub open spec fn written(m: Map<usize, u32>, address: usize, block: u32, mask: u32) -> Map<usize, u32> {
    let shift = (address & 0x3) * 8;
    let old = word_at(m, address);
    m.insert((address & 0xffffff) >> 2usize, (old & !(mask << shift)) | ((block & mask) << shift))
}

/// The memory after transaction `t`, when its size is 4, 2 or 1 bytes.
pub open spec fn transacted(m: Map<usize, u32>, t: Transaction) -> Map<usize, u32> {
    if t.size == 4 {
        written(m, t.addr, t.data, WORD)
    } else if t.size == 2 {
        written(m, t.addr, t.data, HALFWORD)
    } else if t.size == 1 {
        written(m, t.addr, t.data, BYTE)
    } else {
        m
    }
}

/// Whether a transaction is a read (kinds 0 and 1) or, with `writes`, a write (kind 2).
pub open spec fn selected(t: Transaction, writes: bool) -> bool {
    if writes {
        t.kind == 2
    } else {
        t.kind == 1 || t.kind == 0
    }
}

/// The memory after the selected transactions of `ts`, in order.
pub open spec fn replay(m: Map<usize, u32>, ts: Seq<Transaction>, writes: bool) -> Map<usize, u32>
    decreases ts.len(),
{
    if ts.len() == 0 {
        m
    } else {
        let m1 = replay(m, ts.drop_last(), writes);
        if selected(ts.last(), writes) {
            transacted(m1, ts.last())
        } else {
            m1
        }
    }
}

/// The word index of an aligned address below 2^24 is the same under both keys.
pub proof fn lemma_low_address_key(address: usize, old: u32, block: u32)
    by (bit_vector)
    requires
        address & 0x3 == 0,
        address < 0x1000000,
    ensures
        (address & 0xffffff) >> 2usize == address >> 2usize,
        (address & 0x3) * 8 == 0,
        (old & !(0xffffffffu32 << 0usize)) | ((block & 0xffffffffu32) << 0usize) == block,
{
}

/// Reading a word back after writing it gives what was written, for aligned addresses below
/// 2^24, where the read key (the address shifted by two) and the write key (its low 24 bits
/// shifted by two) agree.
pub proof fn lemma_read_after_write(m: Map<usize, u32>, address: usize, block: u32)
    requires
        address & 0x3 == 0,
        address < 0x1000000,
    ensures
        word_at(written(m, address, block, WORD), address) == block,
{
    lemma_low_address_key(address, word_at(m, address), block);
}

impl TestMemory {
    /// A memory holding what the read transactions of a test read.
    pub fn new(transactions: Vec<Transaction>) -> (r: TestMemory)
        ensures
            r@ == replay(Map::empty(), transactions@, false),
    {
        let mut x = TestMemory { memory: HashMap::new() };
        x.replay_transactions(&transactions, false);
        x
    }

    /// Applies the write transactions of a test.
    pub fn apply_write_transactions(&mut self, transactions: Vec<Transaction>)
        ensures
            final(self)@ == replay(old(self)@, transactions@, true),
    {
        self.replay_transactions(&transactions, true);
    }

    fn replay_transactions(&mut self, transactions: &Vec<Transaction>, writes: bool)
        ensures
            final(self)@ == replay(old(self)@, transactions@, writes),
    {
        let ghost start = self@;
        let mut i: usize = 0;
        while i < transactions.len()
            invariant
                i <= transactions.len(),
                self@ == replay(start, transactions@.take(i as int), writes),
            decreases transactions.len() - i,
        {
            let t = transactions[i];
            assert(transactions@.take(i as int + 1).drop_last() =~= transactions@.take(i as int));
            let chosen = if writes {
                t.kind == 2
            } else {
                t.kind == 1 || t.kind == 0
            };
            if chosen {
                if t.size == 4 {
                    let _ = self.write_word(t.addr, t.data);
                } else if t.size == 2 {
                    let _ = self.write_halfword(t.addr, t.data);
                } else if t.size == 1 {
                    let _ = self.write_byte(t.addr, t.data);
                }
            }
            i += 1;
        }
        assert(transactions@.take(i as int) =~= transactions@);
    }

    fn write_with_mask(&mut self, address: usize, block: u32, mask: u32) -> (r: Result<
        (),
        MemoryError,
    >)
        ensures
            r is Ok,
            final(self)@ == written(old(self)@, address, block, mask),
    {
        proof {
            crate::gba::system::lemma_address_bits(address);
        }
        let i = (address & 0xffffff) >> 2;
        let shift = (address & 0x3) * 8;
        let old_data = self.read_word(address)?;
        let new_data = (old_data & !(mask << shift)) | ((block & mask) << shift);
        self.memory.insert(i, new_data);
        Ok(())
    }
}

impl Memory for TestMemory {
    fn write_word(&mut self, address: usize, block: u32) -> (r: Result<(), MemoryError>)
        ensures
            r is Ok,
            final(self)@ == written(old(self)@, address, block, WORD),
    {
        self.write_with_mask(address, block, WORD)?;
        Ok(())
    }

    fn write_halfword(&mut self, address: usize, block: u32) -> (r: Result<(), MemoryError>)
        ensures
            r is Ok,
            final(self)@ == written(old(self)@, address, block, HALFWORD),
    {
        self.write_with_mask(address, block, HALFWORD)?;
        Ok(())
    }

    fn write_byte(&mut self, address: usize, block: u32) -> (r: Result<(), MemoryError>)
        ensures
            r is Ok,
            final(self)@ == written(old(self)@, address, block, BYTE),
    {
        self.write_with_mask(address, block, BYTE)?;
        Ok(())
    }

    fn read_word(&self, address: usize) -> (r: Result<u32, MemoryError>)
        ensures
            r == Ok::<u32, MemoryError>(word_at(self@, address)),
    {
        let addr_key = address >> 2;
        let data = match self.memory.get(&addr_key) {
            Some(v) => *v,
            None => 0,
        };
        Ok(data)
    }

    fn read_halfword(&self, address: usize) -> (r: Result<u32, MemoryError>)
        ensures
            r == Ok::<u32, MemoryError>(word_at(self@, address) >> ((address & 0b10) * 8) as u32),
    {
        proof {
            crate::gba::system::lemma_address_bits(address);
        }
        let shift = address & 0b10;
        let data = self.read_word(address)?;
        let res = data >> (shift as u32 * 8);
        Ok(res)
    }

    fn read_byte(&self, address: usize) -> (r: Result<u32, MemoryError>)
        ensures
            r == Ok::<u32, MemoryError>(word_at(self@, address) >> ((address & 0b11) * 8) as u32),
    {
        proof {
            crate::gba::system::lemma_address_bits(address);
        }
        let shift = address & 0b11;
        let data = self.read_word(address)?;
        let res = data >> (shift as u32 * 8);
        Ok(res)
    }

    fn read_byte_sign_ex(&self, address: usize) -> (r: Result<u32, MemoryError>)
        ensures
            r == Ok::<u32, MemoryError>(
                ((((word_at(self@, address) >> ((address & 0b11) * 8) as u32) as i32) << 24u32)
                    >> 24u32) as u32,
            ),
    {
        let res = self.read_byte(address)? as i32;
        Ok(((res << 24) >> 24) as u32)
    }

    fn read_halfword_sign_ex(&self, address: usize) -> (r: Result<u32, MemoryError>)
        ensures
            r == Ok::<u32, MemoryError>(
                ((((word_at(self@, address) >> ((address & 0b10) * 8) as u32) as i32) << 16u32)
                    >> 16u32) as u32,
            ),
    {
        let res = self.read_halfword(address)? as i32;
        Ok(((res << 16) >> 16) as u32)
    }
}

} // verus!
