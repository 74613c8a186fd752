pub use crate::memory::MemoryError;
use crate::memory::{sign_extend8, sign_extend16, sign_extend_byte, sign_extend_halfword};
use super::dma::DmaControl;
use vstd::prelude::*;

verus! {

const KILOBYTE: usize = 1024;
pub const WORD: u32 = 0xffffffff;
pub const HALFWORD: u32 = 0xffff;
pub const BYTE: u32 = 0xff;

pub const INTERNAL_DMA_CONTROL_0: usize = 0x0000ba;
pub const INTERNAL_DMA_CONTROL_1: usize = 0x0000c6;
pub const INTERNAL_DMA_CONTROL_2: usize = 0x0000d2;
pub const INTERNAL_DMA_CONTROL_3: usize = 0x0000de;

/// The number of memory regions.
pub const REGIONS: usize = 9;

/// The memory type of an address, its bits 24..27.
pub open spec fn mem_type(address: usize) -> usize {
    (address >> 24) & 0xf
}

/// The word index of an address inside its region.
pub open spec fn word_index(address: usize) -> usize {
    (address & 0xffffff) >> 2
}

fn address_shift(addr: usize) -> (r: usize)
    ensures
        r == word_index(addr),
{
    (addr & 0xffffff) >> 2
}

/// The region that an address maps to: BIOS, on-board WRAM, on-chip WRAM, I/O registers,
/// palette RAM, VRAM, OAM, game pak ROM, cartridge RAM; `None` for unmapped addresses.
pub open spec fn region_of(address: usize) -> Option<int> {
    let t = mem_type(address);
    if t == 0 {
        Some(0)
    } else if t == 2 {
        Some(1)
    } else if t == 3 {
        Some(2)
    } else if t == 4 {
        Some(3)
    } else if t == 5 {
        Some(4)
    } else if t == 6 {
        Some(5)
    } else if t == 7 {
        Some(6)
    } else if 8 <= t <= 0xd {
        Some(7)
    } else if t == 0xe {
        Some(8)
    } else {
        None
    }
}

/// Wait states of an 8- or 16-bit access to `address`.
pub open spec fn cycles_8_16_spec(address: usize) -> u32 {
    let t = mem_type(address);
    if t == 2 {
        3
    } else if 8 <= t <= 0xe {
        5
    } else {
        1
    }
}

/// Wait states of a 32-bit access to `address`; cartridge RAM has none.
pub open spec fn cycles_32_spec(address: usize) -> u32 {
    let t = mem_type(address);
    if t == 2 {
        6
    } else if t == 5 || t == 6 {
        2
    } else if 8 <= t <= 0xd {
        8
    } else {
        1
    }
}

pub fn read_cycles_per_8_16(address: usize) -> (r: u32)
    ensures
        r == cycles_8_16_spec(address),
{
    let mem_type = address >> 24 & 0xf;
    match mem_type {
        0x0 | 0x3 | 0x4 | 0x7 => 1,
        0x2 => 3,
        0x5 | 0x6 => 1,
        0x8 | 0x9 | 0xa | 0xb | 0xc | 0xd => 5,
        0xe => 5,
        _ => 1,
    }
}

/// Cartridge RAM (memory type 0xe) has no 32-bit access time, so it is not accepted.
pub fn read_cycles_per_32(address: usize) -> (r: u32)
    requires
        mem_type(address) != 0xe,
    ensures
        r == cycles_32_spec(address),
{
    let mem_type = address >> 24 & 0xf;
    match mem_type {
        0x2 => 6,
        0x5 | 0x6 => 2,
        0x8 | 0x9 | 0xa | 0xb | 0xc | 0xd => 8,
        _ => 1,
    }
}

/// The bits of the registers at `addr` that writes cannot change.
pub open spec fn readonly_mask_spec(addr: usize) -> Option<u32> {
    if addr == 0x4000004 {
        Some(0xff0043u32)
    } else if addr == 0x4000080 {
        Some(0x88000000u32)
    } else if addr == 0x4000084 {
        Some(0x0000000bu32)
    } else {
        None
    }
}

/// The word stored after writing `block` under `mask` at `address` over `old`: the lanes
/// that `mask` covers, shifted to the byte offset of `address`, are replaced, and read-only
/// bits keep their old value.
pub open spec fn merged_word(old: u32, address: usize, block: u32, mask: u32) -> u32 {
    let write_only_block = match readonly_mask_spec(address) {
        Some(ro) => old & ro | block & !ro,
        None => block,
    };
    let shift = ((address & 0x3) * 8) as u32;
    (old & !(mask << shift)) | ((write_only_block & mask) << shift)
}

/// Reading the word that holds `address` from the regions `m`.
pub open spec fn read_spec(m: Seq<Seq<u32>>, address: usize) -> Result<u32, MemoryError> {
    match region_of(address) {
        None => Err(MemoryError::MapNotFound(address)),
        Some(r) => if word_index(address) >= m[r].len() {
            Err(MemoryError::OutOfBounds(address, word_index(address)))
        } else {
            Ok(m[r][word_index(address) as int])
        },
    }
}

/// The halfword at `address`: the upper half of its word when bit 1 is set.
pub open spec fn halfword_of(word: u32, address: usize) -> u32 {
    (word >> (((address & 0b10) * 8) as u32)) & 0xffff
}

/// The byte at `address` within its word.
pub open spec fn byte_of(word: u32, address: usize) -> u32 {
    (word >> (((address & 0b11) * 8) as u32)) & 0xff
}

/// The lanes of a little-endian word: the byte at an address is byte `address % 4` of the
/// word counted from the least significant end, and the halfword is the low half for the
/// first two bytes of the word and the high half for the last two.
pub proof fn law_word_lanes(word: u32, address: usize)
    ensures
        byte_of(word, address) == if address % 4 == 0 {
            word % 0x100
        } else if address % 4 == 1 {
            word / 0x100 % 0x100
        } else if address % 4 == 2 {
            word / 0x1_0000 % 0x100
        } else {
            word / 0x100_0000 % 0x100
        },
        halfword_of(word, address) == if address % 4 < 2 {
            word % 0x1_0000
        } else {
            word / 0x1_0000
        },
{
    assert(byte_of(word, address) == if address % 4 == 0 {
        word % 0x100
    } else if address % 4 == 1 {
        word / 0x100 % 0x100
    } else if address % 4 == 2 {
        word / 0x1_0000 % 0x100
    } else {
        word / 0x100_0000 % 0x100
    } && halfword_of(word, address) == if address % 4 < 2 {
        word % 0x1_0000
    } else {
        word / 0x1_0000
    }) by (bit_vector);
}

/// Byte offsets within a word and the shifts they select.
pub proof fn lemma_address_bits(address: usize)
    by (bit_vector)
    ensures
        address & 0x3 <= 3,
        address & 0b10 <= 2,
        address & 0b11 <= 3,
        address & 0x1 == 0 ==> ((address & 0x3) * 8) as u32 == ((address & 0b10) * 8) as u32,
        address & 0x1 == 0 ==> (((address & 0x3) * 8) as u32 == 0 || ((address & 0x3) * 8) as u32 == 16),
        ((address & 0x3) * 8) as u32 == 0 || ((address & 0x3) * 8) as u32 == 8 || ((address & 0x3) * 8) as u32
            == 16 || ((address & 0x3) * 8) as u32 == 24,
        address & 0x3 == 0 ==> ((address & 0x3) * 8) as u32 == 0,
        (address == 0x4000004 || address == 0x4000080 || address == 0x4000084) ==> ((address & 0x3) * 8) as u32 == 0,
        address == 0x4000088 ==> (address >> 24usize) & 0xf == 4 && (address & 0xffffff) >> 2 == 0x22
            && ((address & 0x3) * 8) as u32 == 0,
{
}

/// Reading back a lane of a word after merging a block into it.
pub proof fn lemma_lanes(old: u32, block: u32, ro: u32, shift: u32)
    by (bit_vector)
    ensures
        shift == 0 ==> (old & !(0xffffffffu32 << shift)) | ((block & 0xffffffffu32) << shift) == block,
        (shift == 0 || shift == 16) ==> (((old & !(0xffffu32 << shift)) | ((block & 0xffffu32) << shift))
            >> shift) & 0xffff == block & 0xffff,
        (shift == 0 || shift == 8 || shift == 16 || shift == 24) ==> (((old & !(0xffu32 << shift)) | ((
        block & 0xffu32) << shift)) >> shift) & 0xff == block & 0xff,
        shift == 0 ==> ((old & !(0xffffffffu32 << shift)) | (((old & ro | block & !ro) & 0xffffffffu32)
            << shift)) & ro == old & ro,
{
}

/// A halfword lane holds 16 bits and a byte lane 8.
pub proof fn lemma_lane_bounds(word: u32, address: usize)
    ensures
        halfword_of(word, address) <= 0xffff,
        byte_of(word, address) <= 0xff,
{
    crate::utils::lemma_word_fields(word, ((address & 0b10) * 8) as u32);
    crate::utils::lemma_word_fields(word, ((address & 0b11) * 8) as u32);
}

/// The regions after writing `block` under `mask` at `address`, or the error of reading there.
pub open spec fn write_spec(m: Seq<Seq<u32>>, address: usize, block: u32, mask: u32) -> Result<
    Seq<Seq<u32>>,
    MemoryError,
> {
    match read_spec(m, address) {
        Err(e) => Err(e),
        Ok(old) => {
            let r = region_of(address)->0;
            Ok(m.update(r, m[r].update(word_index(address) as int, merged_word(old, address, block, mask))))
        },
    }
}

/// Byte `i` of `bytes`, or 0 past its end.
pub open spec fn byte_or_zero(bytes: Seq<u8>, i: int) -> int {
    if i < bytes.len() {
        bytes[i] as int
    } else {
        0
    }
}

/// The little-endian words of `bytes`, the last one padded with zero bytes.
pub open spec fn le_words(bytes: Seq<u8>) -> Seq<u32> {
    Seq::new(
        (bytes.len() + 3) as nat / 4,
        |k: int|
            (byte_or_zero(bytes, 4 * k) + 0x100 * byte_or_zero(bytes, 4 * k + 1) + 0x10000
                * byte_or_zero(bytes, 4 * k + 2) + 0x1000000 * byte_or_zero(bytes, 4 * k + 3)) as u32,
    )
}

/// Packs a ROM image into the words the memory holds.
pub fn words_from_le_bytes(bytes: &[u8]) -> (r: Vec<u32>)
    ensures
        r@ == le_words(bytes@),
{
    let n = bytes.len();
    let mut words: Vec<u32> = Vec::new();
    let mut i: usize = 0;
    while i < n
        invariant
            n == bytes@.len(),
            i <= n,
            i % 4 == 0 || i == n,
            words@.len() == (i + 3) / 4,
            forall|k: int| 0 <= k < words@.len() ==> #[trigger] words@[k] == le_words(bytes@)[k],
        decreases n - i,
    {
        let b0: u32 = bytes[i] as u32;
        let b1: u32 = if n - i > 1 { bytes[i + 1] as u32 } else { 0 };
        let b2: u32 = if n - i > 2 { bytes[i + 2] as u32 } else { 0 };
        let b3: u32 = if n - i > 3 { bytes[i + 3] as u32 } else { 0 };
        words.push(b0 + 0x100 * b1 + 0x10000 * b2 + 0x1000000 * b3);
        if n - i > 4 {
            i += 4;
        } else {
            i = n;
        }
    }
    assert(words@ =~= le_words(bytes@));
    words
}

/// The memory map of the system, one vector of words per region.
pub struct SystemMemory {
    system_rom: Vec<u32>,
    ewram: Vec<u32>,
    iwram: Vec<u32>,
    io_ram: Vec<u32>,
    pal_ram: Vec<u32>,
    vram: Vec<u32>,
    oam: Vec<u32>,
    pak_rom: Vec<u32>,
    cart_ram: Vec<u32>,
}

impl View for SystemMemory {
    type V = Seq<Seq<u32>>;

    closed spec fn view(&self) -> Seq<Seq<u32>> {
        seq![
            self.system_rom@,
            self.ewram@,
            self.iwram@,
            self.io_ram@,
            self.pal_ram@,
            self.vram@,
            self.oam@,
            self.pak_rom@,
            self.cart_ram@,
        ]
    }
}

/// A region of `n` zero words.
pub open spec fn zeros(n: nat) -> Seq<u32> {
    Seq::new(n, |i: int| 0u32)
}

fn zeroed(n: usize) -> (v: Vec<u32>)
    ensures
        v@ == zeros(n as nat),
{
    let v = vec![0u32; n];
    assert(v@ =~= zeros(n as nat));
    v
}

/// Region sizes in words of the memory that `default` builds.
pub open spec fn default_sizes() -> Seq<nat> {
    seq![16 * 1024, 256 * 1024, 0x1000000, 1024, 1024, 96 * 1024, 1024, 16, 16]
}

/// A memory of zero words with region sizes `sizes`.
pub open spec fn zeroed_regions(sizes: Seq<nat>) -> Seq<Seq<u32>> {
    Seq::new(9, |r: int| zeros(sizes[r]))
}

impl Default for SystemMemory {
    fn default() -> (r: Self)
        ensures
            r@ == zeroed_regions(default_sizes()),
    {
        let r = Self {
            system_rom: zeroed(16 * KILOBYTE),
            ewram: zeroed(256 * KILOBYTE),
            iwram: zeroed(0x1000000),
            io_ram: zeroed(1 * KILOBYTE),
            pal_ram: zeroed(1 * KILOBYTE),
            vram: zeroed(96 * KILOBYTE),
            oam: zeroed(1 * KILOBYTE),
            pak_rom: zeroed(16 * 1),
            cart_ram: zeroed(16 * 1),
        };
        assert(r@ =~= zeroed_regions(default_sizes()));
        r
    }
}

impl SystemMemory {
    /// The default memory with the word at 0x4000088 set to 0x200.
    pub fn new() -> (r: Self)
        ensures
            r@ == zeroed_regions(default_sizes()).update(3, zeros(1024).update(0x22, 0x200)),
    {
        let mut x = Self::default();
        let _ = x.write_word(0x4000088, 0x200);
        proof {
            lemma_address_bits(0x4000088);
            lemma_lanes(0, 0x200, 0, 0);
            assert(readonly_mask_spec(0x4000088) is None);
        }
        assert(x@ =~= zeroed_regions(default_sizes()).update(3, zeros(1024).update(0x22, 0x200)));
        x
    }

    /// A memory of 1024 zero words in every region, for exercising instructions.
    pub fn test() -> (r: Self)
        ensures
            r@ == zeroed_regions(Seq::new(9, |i: int| 1024nat)),
    {
        let r = Self {
            system_rom: zeroed(KILOBYTE),
            ewram: zeroed(KILOBYTE),
            iwram: zeroed(KILOBYTE),
            io_ram: zeroed(KILOBYTE),
            pal_ram: zeroed(KILOBYTE),
            vram: zeroed(KILOBYTE),
            oam: zeroed(KILOBYTE),
            pak_rom: zeroed(KILOBYTE),
            cart_ram: zeroed(KILOBYTE),
        };
        assert(r@ =~= zeroed_regions(Seq::new(9, |i: int| 1024nat)));
        r
    }

    /// Like `test`, with a game pak region of 0x10000 words.
    pub fn test_pak_ram() -> (r: Self)
        ensures
            r@ == zeroed_regions(Seq::new(9, |i: int| 1024nat).update(7, 0x10000nat)),
    {
        let r = Self {
            system_rom: zeroed(KILOBYTE),
            ewram: zeroed(KILOBYTE),
            iwram: zeroed(KILOBYTE),
            io_ram: zeroed(KILOBYTE),
            pal_ram: zeroed(KILOBYTE),
            vram: zeroed(KILOBYTE),
            oam: zeroed(KILOBYTE),
            pak_rom: zeroed(0x10000),
            cart_ram: zeroed(KILOBYTE),
        };
        assert(r@ =~= zeroed_regions(Seq::new(9, |i: int| 1024nat).update(7, 0x10000nat)));
        r
    }

    pub fn copy_bios(&mut self, bios: Vec<u32>)
        ensures
            final(self)@ == old(self)@.update(0, bios@),
    {
        self.system_rom = bios;
        assert(self@ =~= old(self)@.update(0, bios@));
    }

    pub fn copy_game_pak(&mut self, game_pak: Vec<u32>)
        ensures
            final(self)@ == old(self)@.update(7, game_pak@),
    {
        self.pak_rom = game_pak;
        assert(self@ =~= old(self)@.update(7, game_pak@));
    }

    fn get_readonly_mask(&self, addr: usize) -> (r: Option<u32>)
        ensures
            r == readonly_mask_spec(addr),
    {
        match addr {
            0x4000004 => Some(0xff0043),
            0x4000080 => Some(0x88000000),
            0x4000084 => Some(0x0000000b),
            _ => None,
        }
    }

    /// The region that `address` maps to.
    fn memory_map(&self, address: usize) -> (r: Result<usize, MemoryError>)
        ensures
            match region_of(address) {
                Some(i) => r == Ok::<usize, MemoryError>(i as usize),
                None => r == Err::<usize, MemoryError>(MemoryError::MapNotFound(address)),
            },
    {
        let mem_type = address >> 24 & 0xf;
        match mem_type {
            0x0 => Ok(0),
            0x2 => Ok(1),
            0x3 => Ok(2),
            0x4 => Ok(3),
            0x5 => Ok(4),
            0x6 => Ok(5),
            0x7 => Ok(6),
            0x8 | 0x9 | 0xa | 0xb | 0xc | 0xd => Ok(7),
            0xe => Ok(8),
            _ => Err(MemoryError::MapNotFound(address)),
        }
    }

    /// The number of words in region `r`.
    pub fn region_len(&self, r: usize) -> (n: usize)
        requires
            r < REGIONS,
        ensures
            n == self@[r as int].len(),
    {
        match r {
            0 => self.system_rom.len(),
            1 => self.ewram.len(),
            2 => self.iwram.len(),
            3 => self.io_ram.len(),
            4 => self.pal_ram.len(),
            5 => self.vram.len(),
            6 => self.oam.len(),
            7 => self.pak_rom.len(),
            _ => self.cart_ram.len(),
        }
    }

    fn load(&self, r: usize, i: usize) -> (v: u32)
        requires
            r < REGIONS,
            i < self@[r as int].len(),
        ensures
            v == self@[r as int][i as int],
    {
        match r {
            0 => self.system_rom[i],
            1 => self.ewram[i],
            2 => self.iwram[i],
            3 => self.io_ram[i],
            4 => self.pal_ram[i],
            5 => self.vram[i],
            6 => self.oam[i],
            7 => self.pak_rom[i],
            _ => self.cart_ram[i],
        }
    }

    fn store(&mut self, r: usize, i: usize, v: u32)
        requires
            r < REGIONS,
            i < old(self)@[r as int].len(),
        ensures
            final(self)@ == old(self)@.update(r as int, old(self)@[r as int].update(i as int, v)),
    {
        match r {
            0 => self.system_rom.set(i, v),
            1 => self.ewram.set(i, v),
            2 => self.iwram.set(i, v),
            3 => self.io_ram.set(i, v),
            4 => self.pal_ram.set(i, v),
            5 => self.vram.set(i, v),
            6 => self.oam.set(i, v),
            7 => self.pak_rom.set(i, v),
            _ => self.cart_ram.set(i, v),
        }
        assert(self@ =~= old(self)@.update(r as int, old(self)@[r as int].update(i as int, v)));
    }

    pub fn write_word(&mut self, address: usize, block: u32) -> (r: Result<(), MemoryError>)
        ensures
            match write_spec(old(self)@, address, block, WORD) {
                Ok(m) => r is Ok && final(self)@ == m,
                Err(e) => r == Err::<(), MemoryError>(e) && final(self)@ == old(self)@,
            },
    {
        self.write_with_mask(address, block, WORD)?;
        Ok(())
    }

    pub fn write_halfword(&mut self, address: usize, block: u32) -> (r: Result<(), MemoryError>)
        ensures
            match write_spec(old(self)@, address, block, HALFWORD) {
                Ok(m) => r is Ok && final(self)@ == m,
                Err(e) => r == Err::<(), MemoryError>(e) && final(self)@ == old(self)@,
            },
    {
        self.write_with_mask(address, block, HALFWORD)?;
        Ok(())
    }

    pub fn write_byte(&mut self, address: usize, block: u32) -> (r: Result<(), MemoryError>)
        ensures
            match write_spec(old(self)@, address, block, BYTE) {
                Ok(m) => r is Ok && final(self)@ == m,
                Err(e) => r == Err::<(), MemoryError>(e) && final(self)@ == old(self)@,
            },
    {
        self.write_with_mask(address, block, BYTE)?;
        Ok(())
    }

    fn write_with_mask(&mut self, address: usize, block: u32, mask: u32) -> (r: Result<(), MemoryError>)
        ensures
            match write_spec(old(self)@, address, block, mask) {
                Ok(m) => r is Ok && final(self)@ == m,
                Err(e) => r == Err::<(), MemoryError>(e) && final(self)@ == old(self)@,
            },
    {
        let i = (address & 0xffffff) >> 2;
        proof {
            lemma_address_bits(address);
        }
        let shift = ((address & 0x3) * 8) as u32;
        let old_data = self.read_from_mem(address)?;
        let write_only_block = if let Some(readonly_mask) = self.get_readonly_mask(address) {
            old_data & readonly_mask | block & !readonly_mask
        } else {
            block
        };
        let new_data = (old_data & !(mask << shift)) | ((write_only_block & mask) << shift);
        let ram = self.memory_map(address)?;
        if i >= self.region_len(ram) {
            Err(MemoryError::OutOfBounds(address, i))
        } else {
            self.store(ram, i, new_data);
            Ok(())
        }
    }

    pub fn read_word(&mut self, address: usize) -> (r: Result<u32, MemoryError>)
        ensures
            r == read_spec(old(self)@, address),
            final(self)@ == old(self)@,
    {
        let res = self.read_from_mem(address)?;
        Ok(res)
    }

    pub fn read_halfword(&mut self, address: usize) -> (r: Result<u32, MemoryError>)
        ensures
            r == match read_spec(old(self)@, address) {
                Ok(w) => Ok(halfword_of(w, address)),
                Err(e) => Err::<u32, MemoryError>(e),
            },
            final(self)@ == old(self)@,
    {
        let res = self.read_from_mem(address)?;
        let shift = address & 0b10;
        proof {
            lemma_address_bits(address);
        }
        Ok(res >> ((shift * 8) as u32) & 0xffff)
    }

    pub fn read_halfword_sign_ex(&mut self, address: usize) -> (r: Result<u32, MemoryError>)
        ensures
            r == match read_spec(old(self)@, address) {
                Ok(w) => Ok(sign_extend16(halfword_of(w, address))),
                Err(e) => Err::<u32, MemoryError>(e),
            },
            final(self)@ == old(self)@,
    {
        let res = self.read_halfword(address)?;
        proof {
            lemma_lane_bounds(read_spec(old(self)@, address)->Ok_0, address);
        }
        Ok(sign_extend_halfword(res))
    }

    pub fn read_byte(&mut self, address: usize) -> (r: Result<u32, MemoryError>)
        ensures
            r == match read_spec(old(self)@, address) {
                Ok(w) => Ok(byte_of(w, address)),
                Err(e) => Err::<u32, MemoryError>(e),
            },
            final(self)@ == old(self)@,
    {
        let res = self.read_from_mem(address)?;
        let shift = address & 0b11;
        proof {
            lemma_address_bits(address);
        }
        Ok(res >> ((shift * 8) as u32) & 0xff)
    }

    pub fn read_byte_sign_ex(&mut self, address: usize) -> (r: Result<u32, MemoryError>)
        ensures
            r == match read_spec(old(self)@, address) {
                Ok(w) => Ok(sign_extend8(byte_of(w, address))),
                Err(e) => Err::<u32, MemoryError>(e),
            },
            final(self)@ == old(self)@,
    {
        let res = self.read_byte(address)?;
        proof {
            lemma_lane_bounds(read_spec(old(self)@, address)->Ok_0, address);
        }
        Ok(sign_extend_byte(res))
    }

    pub fn read_from_mem(&mut self, address: usize) -> (r: Result<u32, MemoryError>)
        ensures
            r == read_spec(old(self)@, address),
            final(self)@ == old(self)@,
    {
        let ram = self.memory_map(address)?;
        let mem_address = address_shift(address);
        if mem_address >= self.region_len(ram) {
            Err(MemoryError::OutOfBounds(address, mem_address))
        } else {
            Ok(self.load(ram, mem_address))
        }
    }

    /// Whether any of the four DMA channels is enabled.
    pub fn is_dma_enabled(&self) -> (r: bool)
        requires
            self@[3].len() > INTERNAL_DMA_CONTROL_3,
        ensures
            r == (super::dma::dma_enabled_spec(self@[3][INTERNAL_DMA_CONTROL_0 as int])
                || super::dma::dma_enabled_spec(self@[3][INTERNAL_DMA_CONTROL_1 as int])
                || super::dma::dma_enabled_spec(self@[3][INTERNAL_DMA_CONTROL_2 as int])
                || super::dma::dma_enabled_spec(self@[3][INTERNAL_DMA_CONTROL_3 as int])),
    {
        let mut enabled = false;
        enabled = DmaControl::from(self.io_ram[INTERNAL_DMA_CONTROL_0]).dma_enabled || enabled;
        enabled = DmaControl::from(self.io_ram[INTERNAL_DMA_CONTROL_1]).dma_enabled || enabled;
        enabled = DmaControl::from(self.io_ram[INTERNAL_DMA_CONTROL_2]).dma_enabled || enabled;
        enabled = DmaControl::from(self.io_ram[INTERNAL_DMA_CONTROL_3]).dma_enabled || enabled;
        enabled
    }

    /// The I/O registers, one word each.
    pub fn get_io_ram(&mut self) -> (r: &mut Vec<u32>)
        ensures
            r@ == old(self)@[3],
            final(self)@ == old(self)@.update(3, final(r)@),
    {
        &mut self.io_ram
    }

    /// Object attribute memory.
    pub fn get_oam(&self) -> (r: &Vec<u32>)
        ensures
            r@ == self@[6],
    {
        &self.oam
    }

    /// Palette RAM.
    pub fn get_palette_ram_slice(&self) -> (r: &Vec<u32>)
        ensures
            r@ == self@[4],
    {
        &self.pal_ram
    }
}

} // verus!

verus! {

/// The view of a memory always holds its nine regions.
pub proof fn lemma_view_regions(mem: SystemMemory)
    ensures
        mem@.len() == REGIONS,
{
}

/// Where a successful write leaves the word it wrote.
pub proof fn lemma_write_lands(m: Seq<Seq<u32>>, address: usize, block: u32, mask: u32)
    requires
        m.len() == REGIONS,
        write_spec(m, address, block, mask) is Ok,
    ensures
        read_spec(write_spec(m, address, block, mask)->Ok_0, address) == Ok::<u32, MemoryError>(
            merged_word(read_spec(m, address)->Ok_0, address, block, mask),
        ),
{
    let r = region_of(address)->0;
    let i = word_index(address) as int;
    let new = merged_word(read_spec(m, address)->Ok_0, address, block, mask);
    let m2 = write_spec(m, address, block, mask)->Ok_0;
    assert(0 <= r < 9);
    assert(m2 == m.update(r, m[r].update(i, new)));
    assert(m2[r] == m[r].update(i, new));
    assert(m2[r][i] == new);
}

/// A write fails exactly when a read of the same address fails, with the same error, and
/// then leaves memory unchanged.
pub proof fn lemma_write_fails_as_read(m: Seq<Seq<u32>>, address: usize, block: u32, mask: u32)
    ensures
        write_spec(m, address, block, mask) is Err <==> read_spec(m, address) is Err,
        read_spec(m, address) is Err ==> write_spec(m, address, block, mask)->Err_0 == read_spec(
            m,
            address,
        )->Err_0,
{
}

/// A word written at an aligned, writable address reads back whole.
pub proof fn lemma_word_read_after_write(m: Seq<Seq<u32>>, address: usize, block: u32)
    requires
        m.len() == REGIONS,
        write_spec(m, address, block, WORD) is Ok,
        readonly_mask_spec(address) is None,
        address & 0x3 == 0,
    ensures
        read_spec(write_spec(m, address, block, WORD)->Ok_0, address) == Ok::<u32, MemoryError>(block),
{
    lemma_write_lands(m, address, block, WORD);
    let old = read_spec(m, address)->Ok_0;
    lemma_address_bits(address);
    lemma_lanes(old, block, 0, ((address & 0x3) * 8) as u32);
}

/// A halfword written at an even, writable address reads back as its low 16 bits.
pub proof fn lemma_halfword_read_after_write(m: Seq<Seq<u32>>, address: usize, block: u32)
    requires
        m.len() == REGIONS,
        write_spec(m, address, block, HALFWORD) is Ok,
        readonly_mask_spec(address) is None,
        address & 0x1 == 0,
    ensures
        read_spec(write_spec(m, address, block, HALFWORD)->Ok_0, address) matches Ok(w)
            && halfword_of(w, address) == block & 0xffff,
{
    lemma_write_lands(m, address, block, HALFWORD);
    let old = read_spec(m, address)->Ok_0;
    lemma_address_bits(address);
    lemma_lanes(old, block, 0, ((address & 0x3) * 8) as u32);
}

/// A byte written at a writable address reads back as its low 8 bits.
pub proof fn lemma_byte_read_after_write(m: Seq<Seq<u32>>, address: usize, block: u32)
    requires
        m.len() == REGIONS,
        write_spec(m, address, block, BYTE) is Ok,
        readonly_mask_spec(address) is None,
    ensures
        read_spec(write_spec(m, address, block, BYTE)->Ok_0, address) matches Ok(w)
            && byte_of(w, address) == block & 0xff,
{
    lemma_write_lands(m, address, block, BYTE);
    let old = read_spec(m, address)->Ok_0;
    lemma_address_bits(address);
    lemma_lanes(old, block, 0, ((address & 0x3) * 8) as u32);
}

/// Merging a byte into one lane of a word leaves every other byte lane as it was.
pub proof fn lemma_other_lanes_kept(old: u32, block: u32, s: u32, t: u32)
    by (bit_vector)
    requires
        s == 0 || s == 8 || s == 16 || s == 24,
        t == 0 || t == 8 || t == 16 || t == 24,
        s != t,
    ensures
        (((old & !(0xffu32 << s)) | ((block & 0xffu32) << s)) >> t) & 0xff == (old >> t) & 0xff,
{
}

/// A byte written at a writable address leaves the other three bytes of its word as they
/// were: a byte store changes one byte lane and no other.
pub proof fn lemma_byte_write_keeps_other_bytes(
    m: Seq<Seq<u32>>,
    address: usize,
    block: u32,
    other: usize,
)
    requires
        m.len() == REGIONS,
        write_spec(m, address, block, BYTE) is Ok,
        readonly_mask_spec(address) is None,
        region_of(other) == region_of(address),
        word_index(other) == word_index(address),
        other & 0x3 != address & 0x3,
    ensures
        read_spec(m, other) is Ok,
        read_spec(write_spec(m, address, block, BYTE)->Ok_0, other) matches Ok(w) && byte_of(w, other)
            == byte_of(read_spec(m, other)->Ok_0, other),
{
    lemma_write_lands(m, address, block, BYTE);
    let old = read_spec(m, address)->Ok_0;
    let m2 = write_spec(m, address, block, BYTE)->Ok_0;
    assert(read_spec(m, other) == Ok::<u32, MemoryError>(old));
    assert(read_spec(m2, other) == read_spec(m2, address));
    lemma_address_bits(address);
    lemma_address_bits(other);
    let s = ((address & 0x3) * 8) as u32;
    let t = ((other & 0x3) * 8) as u32;
    assert(s != t);
    lemma_other_lanes_kept(old, block, s, t);
}

/// A write changes no word but the one that holds its address.
pub proof fn lemma_write_frame(m: Seq<Seq<u32>>, address: usize, block: u32, mask: u32, other: usize)
    requires
        m.len() == REGIONS,
        write_spec(m, address, block, mask) is Ok,
        region_of(other) != region_of(address) || word_index(other) != word_index(address),
    ensures
        read_spec(write_spec(m, address, block, mask)->Ok_0, other) == read_spec(m, other),
{
    let r = region_of(address)->0;
    let i = word_index(address) as int;
    let new = merged_word(read_spec(m, address)->Ok_0, address, block, mask);
    let m2 = write_spec(m, address, block, mask)->Ok_0;
    assert(m2 == m.update(r, m[r].update(i, new)));
    if let Some(ro) = region_of(other) {
        if ro == r {
            assert(m2[ro] == m[r].update(i, new));
        } else {
            assert(m2[ro] == m[ro]);
        }
    }
}

/// The read-only bits of a status register keep their value through any word write.
pub proof fn lemma_readonly_bits_kept(m: Seq<Seq<u32>>, address: usize, block: u32)
    requires
        m.len() == REGIONS,
        write_spec(m, address, block, WORD) is Ok,
        readonly_mask_spec(address) is Some,
    ensures
        read_spec(write_spec(m, address, block, WORD)->Ok_0, address) matches Ok(w)
            && w & readonly_mask_spec(address)->0 == read_spec(m, address)->Ok_0
            & readonly_mask_spec(address)->0,
{
    lemma_write_lands(m, address, block, WORD);
    let old = read_spec(m, address)->Ok_0;
    let ro = readonly_mask_spec(address)->0;
    lemma_address_bits(address);
    lemma_lanes(old, block, ro, ((address & 0x3) * 8) as u32);
}

} // verus!
