pub mod bg_control;
pub mod color_effect;
pub mod disp_control;
pub mod oam_attribute;
pub mod window_control;

use crate::gba::system::{byte_of, read_spec, write_spec, MemoryError, SystemMemory, BYTE};
use crate::utils::io_registers::{DISP_STAT, V_COUNT};
use crate::utils::Bitable;
use bg_control::{bg_control, bg_control_address, BgControl};
use disp_control::{display_control, DisplayControl, DISP_CONTROL};
use oam_attribute::{
    get_palettes, obj_color, parameter_sets, shape_field, Colors, OamAttribute,
    RotationScaleParameter, RotationScaleParameterBuilder,
};
use vstd::prelude::*;

verus! {

pub const V_BLANK_FLAG: u32 = 0b00000001;

pub const H_BLANK_FLAG: u32 = 0b00000010;

pub const V_COUNTER_FLAG: u32 = 0b00000100;

pub const BASE_OAM: u32 = 0x6010000;

pub const HEIGHT: usize = 160;

pub const WIDTH: usize = 240;

/// The I/O word that holds the register at `addr`.
pub open spec fn io_index(addr: usize) -> int {
    ((addr >> 2usize) & 0xffff) as int
}

/// The regions after or-ing `flag` into the I/O word of `addr`.
pub open spec fn with_io_bits(m: Seq<Seq<u32>>, addr: usize, flag: u32) -> Seq<Seq<u32>> {
    m.update(3, m[3].update(io_index(addr), m[3][io_index(addr)] | flag))
}

/// The regions after clearing `flag` in the I/O word of `addr`.
pub open spec fn without_io_bits(m: Seq<Seq<u32>>, addr: usize, flag: u32) -> Seq<Seq<u32>> {
    m.update(3, m[3].update(io_index(addr), m[3][io_index(addr)] & !flag))
}

/// The status and line counter registers share I/O word 1.
pub proof fn lemma_status_registers()
    by (bit_vector)
    ensures
        (0x4000004usize >> 2usize) & 0xffff == 1,
        (0x4000006usize >> 24usize) & 0xf == 4,
        (0x4000006usize & 0xffffff) >> 2usize == 1,
{
}

fn io_word_index(addr: usize) -> (r: usize)
    ensures
        r == io_index(addr),
{
    (addr >> 2) & 0xffff
}

fn set_bit_high(ram: &mut SystemMemory, addr: usize, flag: u32)
    requires
        io_index(addr) < old(ram)@[3].len(),
    ensures
        final(ram)@ == with_io_bits(old(ram)@, addr, flag),
{
    let idx = io_word_index(addr);
    let io_ram = ram.get_io_ram();
    let v = io_ram[idx] | flag;
    io_ram.set(idx, v);
    assert(final(ram)@ =~= with_io_bits(old(ram)@, addr, flag));
}

fn set_bit_low(ram: &mut SystemMemory, addr: usize, flag: u32)
    requires
        io_index(addr) < old(ram)@[3].len(),
    ensures
        final(ram)@ == without_io_bits(old(ram)@, addr, flag),
{
    let idx = io_word_index(addr);
    let io_ram = ram.get_io_ram();
    let v = io_ram[idx] & !flag;
    io_ram.set(idx, v);
    assert(final(ram)@ =~= without_io_bits(old(ram)@, addr, flag));
}

/// The drawing unit: a clock, the position of the beam, a frame counter and the frame
/// buffer of RGBA bytes.
pub struct PPU {
    old_cycle: u32,
    h_count: u32,
    v_count: u32,
    frame: u32,
    next_frame: Vec<u8>,
}

/// The state of the drawing unit as plain values.
pub struct PpuView {
    pub old_cycle: u32,
    pub h_count: u32,
    pub v_count: u32,
    pub frame: u32,
    pub next_frame: Seq<u8>,
}

impl View for PPU {
    type V = PpuView;

    closed spec fn view(&self) -> PpuView {
        PpuView {
            old_cycle: self.old_cycle,
            h_count: self.h_count,
            v_count: self.v_count,
            frame: self.frame,
            next_frame: self.next_frame@,
        }
    }
}

/// The size of the frame buffer: four bytes for each pixel of the screen.
pub open spec fn frame_len() -> nat {
    (HEIGHT * WIDTH * 4) as nat
}

impl PpuView {
    /// The beam is on one of the 228 lines and the frame buffer covers the screen.
    pub open spec fn wf(self) -> bool {
        self.v_count < 228 && self.next_frame.len() == frame_len()
    }
}

/// A new line: the line counter advances, raising the V-blank flag at line 160, lowering
/// it at 226 and wrapping to 0 at 228, which ends a frame; then the counter is written to the
/// V count register. Reports whether a frame ended.
pub open spec fn v_step(p: PpuView, m: Seq<Seq<u32>>) -> (PpuView, Seq<Seq<u32>>, bool) {
    let v = p.v_count + 1;
    let m1 = if v == 160 {
        with_io_bits(m, DISP_STAT, V_BLANK_FLAG)
    } else if v == 226 {
        without_io_bits(m, DISP_STAT, V_BLANK_FLAG)
    } else {
        m
    };
    let p1 = if v == 228 {
        PpuView { v_count: 0, frame: (p.frame + 1) as u32, ..p }
    } else {
        PpuView { v_count: v as u32, ..p }
    };
    match write_spec(m1, V_COUNT, p1.v_count, BYTE) {
        Ok(m2) => (p1, m2, p1.v_count == 0),
        Err(_) => (p1, m1, false),
    }
}

/// `d` more cycles of the beam: crossing dot 240 raises the H-blank flag; crossing dot 308
/// lowers it and starts a new line (`v_step`).
pub open spec fn h_step(p: PpuView, d: u32, m: Seq<Seq<u32>>) -> (PpuView, Seq<Seq<u32>>, bool) {
    let next_h = p.h_count + d;
    if p.h_count < 240 && next_h >= 240 {
        (PpuView { h_count: next_h as u32, ..p }, with_io_bits(m, DISP_STAT, H_BLANK_FLAG), false)
    } else if p.h_count < 308 && next_h >= 308 {
        v_step(
            PpuView { h_count: (next_h - 308) as u32, ..p },
            without_io_bits(m, DISP_STAT, H_BLANK_FLAG),
        )
    } else {
        (PpuView { h_count: next_h as u32, ..p }, m, false)
    }
}

/// A tick at CPU cycle `cycle`: the unit runs at a quarter of the CPU clock; nothing happens
/// until that count moves, then the beam advances by the difference (`h_step`).
pub open spec fn tick_spec(p: PpuView, m: Seq<Seq<u32>>, cycle: u32) -> (
    PpuView,
    Seq<Seq<u32>>,
    bool,
) {
    let c = cycle / 4;
    if c == p.old_cycle {
        (p, m, false)
    } else {
        h_step(PpuView { old_cycle: c as u32, ..p }, (c - p.old_cycle) as u32, m)
    }
}

/// What a tick needs so that no counter overflows: the clock does not run backwards, the
/// dot counter stays within 32 bits, the frame counter can advance, and the status word is
/// there.
pub open spec fn tick_ok(p: PpuView, m: Seq<Seq<u32>>, cycle: u32) -> bool {
    &&& cycle / 4 >= p.old_cycle
    &&& p.h_count + (cycle / 4 - p.old_cycle) <= u32::MAX
    &&& p.frame < u32::MAX
    &&& m.len() == 9
    &&& m[3].len() > 1
}

/// A tick reports a completed frame exactly when it advances the frame counter by one, and
/// otherwise leaves the counter alone; the beam stays on one of the 228 lines and the clock
/// moves to a quarter of the CPU cycle.
pub proof fn lemma_tick_reports_frames(p: PpuView, m: Seq<Seq<u32>>, cycle: u32)
    requires
        p.wf(),
        tick_ok(p, m, cycle),
    ensures
        ({
            let (q, m2, done) = tick_spec(p, m, cycle);
            &&& done <==> q.frame == p.frame + 1
            &&& !done ==> q.frame == p.frame
            &&& q.wf()
            &&& q.old_cycle == cycle / 4
            &&& m2.len() == 9
            &&& m2[3].len() == m[3].len()
        }),
{
    lemma_status_registers();
}

impl Default for PPU {
    fn default() -> (r: Self)
        ensures
            r@.old_cycle == 0,
            r@.h_count == 0,
            r@.v_count == 0,
            r@.frame == 0,
            r@.next_frame == Seq::new(frame_len(), |i: int| 255u8),
    {
        let r = PPU {
            old_cycle: 0,
            h_count: 0,
            v_count: 0,
            frame: 0,
            next_frame: vec![255; HEIGHT * WIDTH * 4],
        };
        assert(r@.next_frame =~= Seq::new(frame_len(), |i: int| 255u8));
        r
    }
}

impl PPU {
    /// The number of frames completed.
    pub fn frame(&self) -> (r: u32)
        ensures
            r == self@.frame,
    {
        self.frame
    }

    /// Whether `tick` can be called at CPU cycle `cycle`.
    pub fn can_tick(&self, cycle: u32, ram: &SystemMemory) -> (r: bool)
        ensures
            r == (self@.wf() && tick_ok(self@, ram@, cycle)),
    {
        proof {
            crate::gba::system::lemma_view_regions(*ram);
            crate::utils::lemma_word_fields(cycle, 2);
            assert(cycle >> 2u32 == cycle / 4) by (bit_vector);
        }
        let c = cycle >> 2;
        self.v_count < 228 && self.next_frame.len() == HEIGHT * WIDTH * 4 && c >= self.old_cycle
            && self.h_count as u64 + (c - self.old_cycle) as u64 <= u32::MAX as u64
            && self.frame < u32::MAX && ram.region_len(3) > 1
    }

    /// Advances to CPU cycle `cycle`; returns whether a frame was completed.
    pub fn tick(&mut self, cycle: u32, ram: &mut SystemMemory) -> (r: bool)
        requires
            old(self)@.wf(),
            tick_ok(old(self)@, old(ram)@, cycle),
        ensures
            (final(self)@, final(ram)@, r) == tick_spec(old(self)@, old(ram)@, cycle),
            final(self)@.wf(),
    {
        proof {
            crate::utils::lemma_word_fields(cycle, 2);
            assert(cycle >> 2u32 == cycle / 4) by (bit_vector);
        }
        if cycle >> 2 == self.old_cycle {
            return false;
        }
        let delta_cycle = (cycle >> 2) - self.old_cycle;
        self.old_cycle = cycle >> 2;
        match self.update_io_registers(delta_cycle, ram) {
            Ok(b) => b,
            Err(_) => false,
        }
    }

    fn update_io_registers(&mut self, d_cycle: u32, ram: &mut SystemMemory) -> (r: Result<
        bool,
        MemoryError,
    >)
        requires
            old(self)@.wf(),
            old(self)@.h_count + d_cycle <= u32::MAX,
            old(self)@.frame < u32::MAX,
            old(ram)@.len() == 9,
            old(ram)@[3].len() > 1,
        ensures
            ({
                let (p, m, b) = h_step(old(self)@, d_cycle, old(ram)@);
                final(self)@ == p && final(ram)@ == m && r == Ok::<bool, MemoryError>(b)
            }),
            final(self)@.wf(),
    {
        let new_v = self.update_h_count(d_cycle, ram);
        if new_v {
            self.update_v_count(ram)
        } else {
            Ok(false)
        }
    }

    fn update_h_count(&mut self, d_cycle: u32, ram: &mut SystemMemory) -> (r: bool)
        requires
            old(self)@.wf(),
            old(self)@.h_count + d_cycle <= u32::MAX,
            old(ram)@.len() == 9,
            old(ram)@[3].len() > 1,
        ensures
            final(self)@.wf(),
            final(self)@.old_cycle == old(self)@.old_cycle,
            final(self)@.v_count == old(self)@.v_count,
            final(self)@.frame == old(self)@.frame,
            final(self)@.next_frame == old(self)@.next_frame,
            final(ram)@.len() == 9,
            final(ram)@[3].len() == old(ram)@[3].len(),
            ({
                let next_h = old(self)@.h_count + d_cycle;
                if old(self)@.h_count < 240 && next_h >= 240 {
                    final(self)@.h_count == next_h && !r && final(ram)@ == with_io_bits(
                        old(ram)@,
                        DISP_STAT,
                        H_BLANK_FLAG,
                    )
                } else if old(self)@.h_count < 308 && next_h >= 308 {
                    final(self)@.h_count == next_h - 308 && r && final(ram)@ == without_io_bits(
                        old(ram)@,
                        DISP_STAT,
                        H_BLANK_FLAG,
                    )
                } else {
                    final(self)@.h_count == next_h && !r && final(ram)@ == old(ram)@
                }
            }),
    {
        proof {
            lemma_status_registers();
        }
        let next_h_count = self.h_count + d_cycle;
        if self.h_count < 240 && next_h_count >= 240 {
            self.h_count = next_h_count;
            set_bit_high(ram, DISP_STAT, H_BLANK_FLAG);
            false
        } else if self.h_count < 308 && next_h_count >= 308 {
            self.h_count = next_h_count - 308;
            set_bit_low(ram, DISP_STAT, H_BLANK_FLAG);
            true
        } else {
            self.h_count = next_h_count;
            false
        }
    }

    fn update_v_count(&mut self, ram: &mut SystemMemory) -> (r: Result<bool, MemoryError>)
        requires
            old(self)@.wf(),
            old(self)@.frame < u32::MAX,
            old(ram)@.len() == 9,
            old(ram)@[3].len() > 1,
        ensures
            ({
                let (p, m, b) = v_step(old(self)@, old(ram)@);
                final(self)@ == p && final(ram)@ == m && r == Ok::<bool, MemoryError>(b)
            }),
            final(self)@.wf(),
    {
        proof {
            lemma_status_registers();
        }
        self.v_count += 1;
        if self.v_count == 160 {
            set_bit_high(ram, DISP_STAT, V_BLANK_FLAG);
        } else if self.v_count == 226 {
            set_bit_low(ram, DISP_STAT, V_BLANK_FLAG);
        } else if self.v_count == 228 {
            self.frame += 1;
            self.v_count = 0;
        }
        let res = ram.write_byte(V_COUNT, self.v_count);
        match res {
            Ok(_) => Ok(self.v_count == 0),
            Err(e) => Err(e),
        }
    }
}

// Drawing a frame.

/// The byte index in the frame buffer of pixel (`x`, `y`).
pub open spec fn buffer_index(x: int, y: int) -> int {
    x * 4 + y * (WIDTH * 4) as int
}

pub fn euclid_to_buffer_idx(x: usize, y: usize) -> (r: usize)
    requires
        buffer_index(x as int, y as int) <= usize::MAX,
    ensures
        r == buffer_index(x as int, y as int),
{
    let bytes_in_row = WIDTH * 4;
    (x * 4) + (y * bytes_in_row)
}

/// The address of the byte holding pixel (`x`, `y`) of a 16-colour object whose tiles start at
/// `tile_base`: two pixels to a byte, four bytes to a tile row, 0x40 bytes to a tile, 0x400
/// bytes to a row of tiles.
pub open spec fn pixel_address_16(x: u32, y: u32, tile_base: u32) -> int {
    tile_base + ((x % 8) >> 1u32) + (x >> 3u32) * 0x40 + 0x4 * (y % 8) + 0x400 * (y >> 3u32)
}

/// The address of pixel (`x`, `y`) of a 256-colour object: one pixel to a byte, eight bytes to
/// a tile row.
pub open spec fn pixel_address_256(x: u32, y: u32, tile_base: u32) -> int {
    tile_base + x % 8 + (x >> 3u32) * 0x40 + 0x8 * (y % 8) + 0x400 * (y >> 3u32)
}

/// Where a tile pixel lies. Tiles are 0x40 bytes apart across and 0x400 bytes apart down;
/// within a tile a 16-colour pixel (x, y) lies in the byte `4 * y + x / 2`, each row taking
/// four bytes and each byte two pixels, and a 256-colour pixel in the byte `8 * y + x`, each
/// row taking eight bytes. A 16-colour tile thus spans 32 bytes and a 256-colour one 64.
pub proof fn law_tile_pixel_addresses(x: u32, y: u32, tile_base: u32)
    ensures
        pixel_address_16(x, y, tile_base) == tile_base + 0x40 * (x / 8) + 0x400 * (y / 8) + 4 * (y
            % 8) + (x % 8) / 2,
        pixel_address_256(x, y, tile_base) == tile_base + 0x40 * (x / 8) + 0x400 * (y / 8) + 8 * (y
            % 8) + x % 8,
        x < 8 && y < 8 ==> pixel_address_16(x, y, tile_base) == tile_base + 4 * y + x / 2
            && tile_base <= pixel_address_16(x, y, tile_base) < tile_base + 32,
        x < 8 && y < 8 ==> pixel_address_256(x, y, tile_base) == tile_base + 8 * y + x
            && tile_base <= pixel_address_256(x, y, tile_base) < tile_base + 64,
{
    assert((x % 8) >> 1u32 == (x % 8) / 2 && x >> 3u32 == x / 8 && y >> 3u32 == y / 8)
        by (bit_vector);
}

/// A 16-colour pixel takes the low four bits of its byte when `x` is even and the high four
/// when it is odd.
pub proof fn law_color_id_16_nibbles(m: Seq<Seq<u32>>, x: u32, y: u32, tile_base: u32)
    ensures
        ({
            let b = byte_at_spec(m, pixel_address_16(x, y, tile_base) as usize);
            color_id_16(m, x, y, tile_base) == if x % 2 == 0 {
                b % 16
            } else {
                (b / 16) % 16
            }
        }),
{
    let b = byte_at_spec(m, pixel_address_16(x, y, tile_base) as usize);
    assert((x & 1 == 0) == (x % 2 == 0) && b & 0xf == b % 16 && (b >> 4u32) & 0xf == (b / 16) % 16)
        by (bit_vector);
}

/// The byte at `address` in the regions `m`.
pub open spec fn byte_at_spec(m: Seq<Seq<u32>>, address: usize) -> u32 {
    byte_of(read_spec(m, address)->Ok_0, address)
}

/// The palette index of a pixel of a 16-colour object: the low nibble of its byte for even
/// `x`, the high nibble for odd `x`.
pub open spec fn color_id_16(m: Seq<Seq<u32>>, x: u32, y: u32, tile_base: u32) -> usize {
    let b = byte_at_spec(m, pixel_address_16(x, y, tile_base) as usize);
    if x & 1 == 0 {
        (b & 0xf) as usize
    } else {
        ((b >> 4u32) & 0xf) as usize
    }
}

pub fn get_color_id_16_palette_2d(x: u32, y: u32, tile_base: u32, ram: &mut SystemMemory) -> (r:
    usize)
    requires
        pixel_address_16(x, y, tile_base) <= u32::MAX,
        read_spec(old(ram)@, pixel_address_16(x, y, tile_base) as usize) is Ok,
    ensures
        final(ram)@ == old(ram)@,
        r == color_id_16(old(ram)@, x, y, tile_base),
        r < 16,
{
    let idx = tile_base + ((x % 8) >> 1) + ((x >> 3) * 0x40) + (0x4 * (y % 8)) + (0x400 * (y
        >> 3));
    let pixel_byte = match ram.read_byte(idx as usize) {
        Ok(b) => b,
        Err(_) => 0,
    };
    proof {
        crate::utils::lemma_word_fields(pixel_byte, 4);
    }
    if x & 1 == 0 {
        (pixel_byte & 0xf) as usize
    } else {
        ((pixel_byte >> 4) & 0xf) as usize
    }
}

/// The colour index of a pixel of a 256-colour object: its byte.
pub open spec fn color_id_256(m: Seq<Seq<u32>>, x: u32, y: u32, tile_base: u32) -> usize {
    byte_at_spec(m, pixel_address_256(x, y, tile_base) as usize) as usize
}

pub fn get_color_id_256_colors_2d(x: u32, y: u32, tile_base: u32, ram: &mut SystemMemory) -> (r:
    usize)
    requires
        pixel_address_256(x, y, tile_base) <= u32::MAX,
        read_spec(old(ram)@, pixel_address_256(x, y, tile_base) as usize) is Ok,
    ensures
        final(ram)@ == old(ram)@,
        r == color_id_256(old(ram)@, x, y, tile_base),
        r < 256,
{
    let idx = tile_base + x % 8 + ((x >> 3) * 0x40) + (0x8 * (y % 8)) + (0x400 * (y >> 3));
    let pixel_byte = match ram.read_byte(idx as usize) {
        Ok(b) => b,
        Err(_) => 0,
    };
    proof {
        crate::gba::system::lemma_lane_bounds(
            read_spec(old(ram)@, pixel_address_256(x, y, tile_base) as usize)->Ok_0,
            idx as usize,
        );
    }
    pixel_byte as usize
}

/// Where the tiles of an object start.
pub open spec fn tile_base_of(obj: OamAttribute) -> u32 {
    (BASE_OAM + obj.character_name * 32) as u32
}

/// The colour of pixel (`x`, `y`) of `obj`, with palette RAM `pal`: for a 256-colour object
/// the colour its byte selects, none (transparent) for colour 0; for a 16-colour object
/// the colour of its palette that its nibble selects.
pub open spec fn pixel_color(m: Seq<Seq<u32>>, pal: Seq<u32>, obj: OamAttribute, x: u32, y: u32) -> Option<
    (u8, u8, u8),
> {
    let tb = tile_base_of(obj);
    if obj.colors {
        let c = color_id_256(m, x, y, tb);
        if c == 0 {
            None
        } else {
            Some(obj_color(pal, c as int))
        }
    } else {
        Some(obj_color(pal, 16 * obj.palette_idx + color_id_16(m, x, y, tb)))
    }
}

/// Writes an RGB colour at byte `i` of the frame, when it fits.
pub open spec fn put_pixel(f: Seq<u8>, i: int, c: (u8, u8, u8)) -> Seq<u8> {
    if i + 2 <= f.len() {
        f.update(i, c.0).update(i + 1, c.1).update(i + 2, c.2)
    } else {
        f
    }
}

/// Draws pixels (`x`, 0) to (`x`, `n` - 1) of `obj` over `f`.
pub open spec fn draw_column(
    f: Seq<u8>,
    m: Seq<Seq<u32>>,
    pal: Seq<u32>,
    obj: OamAttribute,
    x: u32,
    n: nat,
) -> Seq<u8>
    decreases n,
{
    if n == 0 {
        f
    } else {
        let y = (n - 1) as u32;
        let f1 = draw_column(f, m, pal, obj, x, (n - 1) as nat);
        match pixel_color(m, pal, obj, x, y) {
            None => f1,
            Some(c) => put_pixel(f1, buffer_index((x + obj.x_coord) as int, (y + obj.y_coord) as int), c),
        }
    }
}

/// Draws the first `n` columns of `obj` over `f`, each as tall as the object's width.
pub open spec fn draw_columns(f: Seq<u8>, m: Seq<Seq<u32>>, pal: Seq<u32>, obj: OamAttribute, n: nat) -> Seq<
    u8,
>
    decreases n,
{
    if n == 0 {
        f
    } else {
        draw_column(
            draw_columns(f, m, pal, obj, (n - 1) as nat),
            m,
            pal,
            obj,
            (n - 1) as u32,
            obj.obj_shape.w as nat,
        )
    }
}

/// Draws `objs` over `f` in order, each over its height in columns.
pub open spec fn draw_objects(f: Seq<u8>, m: Seq<Seq<u32>>, pal: Seq<u32>, objs: Seq<OamAttribute>) -> Seq<
    u8,
>
    decreases objs.len(),
{
    if objs.len() == 0 {
        f
    } else {
        let obj = objs.last();
        draw_columns(draw_objects(f, m, pal, objs.drop_last()), m, pal, obj, obj.obj_shape.h as nat)
    }
}

/// Whether entry `k` of object attribute memory `oam` holds an object to draw.
pub open spec fn entry_shown(oam: Seq<u32>, k: int) -> bool {
    oam[2 * k] != 0 && oam[2 * k + 1] & 0xffff != 0
}

/// The objects among the first `n` entries of `oam`, in order.
pub open spec fn oam_objects(oam: Seq<u32>, n: nat) -> Seq<OamAttribute>
    decreases n,
{
    if n == 0 {
        seq![]
    } else {
        let k = n - 1;
        let prev = oam_objects(oam, k as nat);
        if entry_shown(oam, k) {
            prev.push(OamAttribute::decoded(oam.subrange(2 * k, 2 * k + 2)))
        } else {
            prev
        }
    }
}

/// The rotation parameter halves of the first `n` entries of `oam`.
pub open spec fn oam_parameters(oam: Seq<u32>, n: nat) -> Seq<u32> {
    Seq::new(n, |k: int| (oam[2 * k + 1] >> 16u32) & 0xffff)
}

/// What reading object attribute memory needs: whole parameter sets, and a shape on every
/// entry that is shown.
pub open spec fn oam_ok(oam: Seq<u32>) -> bool {
    &&& oam.len() % 8 == 0
    &&& forall|k: int| 0 <= k < oam.len() / 2 && #[trigger] entry_shown(oam, k) ==> shape_field(oam[2 * k]) != 3
}

/// The objects to draw and the rotation parameter sets of object attribute memory.
pub fn get_objs_and_params(ram: &mut SystemMemory, display_control: &DisplayControl) -> (r: (
    Vec<OamAttribute>,
    Vec<RotationScaleParameter>,
))
    requires
        oam_ok(old(ram)@[6]),
    ensures
        final(ram)@ == old(ram)@,
        r.0@ == oam_objects(old(ram)@[6], (old(ram)@[6].len() / 2) as nat),
        r.1@ == parameter_sets(oam_parameters(old(ram)@[6], (old(ram)@[6].len() / 2) as nat)),
{
    let oam = ram.get_oam();
    let ghost words = oam@;
    let n = oam.len() / 2;
    let mut objs: Vec<OamAttribute> = Vec::new();
    let mut param_builder = RotationScaleParameterBuilder::new();
    let mut k: usize = 0;
    while k < n
        invariant
            words == oam@,
            oam_ok(words),
            n == words.len() / 2,
            k <= n,
            words.len() == oam.len(),
            objs@ == oam_objects(words, k as nat),
            param_builder@ == oam_parameters(words, k as nat),
        decreases n - k,
    {
        assert(2 * k + 1 < words.len());
        let w0 = oam[2 * k];
        let w1 = oam[2 * k + 1];
        if w0 != 0 && (w1 & 0xffff) != 0 {
            assert(entry_shown(words, k as int));
            let pair = [w0, w1];
            assert(pair@ =~= words.subrange(2 * k as int, 2 * k as int + 2));
            objs.push(OamAttribute::from(&pair));
        }
        param_builder.add_parameter(w1);
        k += 1;
        assert(param_builder@ =~= oam_parameters(words, k as nat));
    }
    let params = param_builder.build();
    (objs, params)
}

/// The backgrounds that background mode `mode` can show, each when its display bit is set.
pub open spec fn shown_bgs(dc: DisplayControl) -> Seq<usize> {
    let b0: Seq<usize> = if dc.display_bg0 { seq![0usize] } else { seq![] };
    let b1: Seq<usize> = if dc.display_bg1 { seq![1usize] } else { seq![] };
    let b2: Seq<usize> = if dc.display_bg2 { seq![2usize] } else { seq![] };
    let b3: Seq<usize> = if dc.display_bg3 { seq![3usize] } else { seq![] };
    if dc.bg_mode == 0 {
        b0 + b1 + b2 + b3
    } else if dc.bg_mode == 1 {
        b0 + b1 + b2
    } else if dc.bg_mode == 2 {
        b2 + b3
    } else {
        b2
    }
}

/// Reading the control register of background `n`.
pub open spec fn read_bg(m: Seq<Seq<u32>>, n: usize) -> Result<BgControl, MemoryError> {
    match read_spec(m, bg_control_address(n)) {
        Ok(w) => Ok(BgControl::decoded(crate::gba::system::halfword_of(w, bg_control_address(n)))),
        Err(e) => Err(e),
    }
}

/// Reading the control registers of backgrounds `ids` in order, stopping at the first error.
pub open spec fn read_bgs(m: Seq<Seq<u32>>, ids: Seq<usize>) -> Result<Seq<BgControl>, MemoryError>
    decreases ids.len(),
{
    if ids.len() == 0 {
        Ok(seq![])
    } else {
        match read_bgs(m, ids.drop_last()) {
            Err(e) => Err(e),
            Ok(prev) => match read_bg(m, ids.last()) {
                Ok(b) => Ok(prev.push(b)),
                Err(e) => Err(e),
            },
        }
    }
}

/// The control registers of the backgrounds the display shows; background modes go up to
/// 5.
pub fn get_bgs(disp_control: &DisplayControl, ram: &mut SystemMemory) -> (r: Result<
    Vec<BgControl>,
    MemoryError,
>)
    requires
        disp_control.bg_mode <= 5,
    ensures
        final(ram)@ == old(ram)@,
        match read_bgs(old(ram)@, shown_bgs(*disp_control)) {
            Ok(b) => r is Ok && r->Ok_0@ == b,
            Err(e) => r == Err::<Vec<BgControl>, MemoryError>(e),
        },
{
    let mut ids: Vec<usize> = Vec::new();
    let dc = disp_control;
    match dc.bg_mode {
        0 => {
            if dc.display_bg0 { ids.push(0); }
            if dc.display_bg1 { ids.push(1); }
            if dc.display_bg2 { ids.push(2); }
            if dc.display_bg3 { ids.push(3); }
        },
        1 => {
            if dc.display_bg0 { ids.push(0); }
            if dc.display_bg1 { ids.push(1); }
            if dc.display_bg2 { ids.push(2); }
        },
        2 => {
            if dc.display_bg2 { ids.push(2); }
            if dc.display_bg3 { ids.push(3); }
        },
        _ => {
            if dc.display_bg2 { ids.push(2); }
        },
    }
    assert(ids@ =~= shown_bgs(*disp_control));
    let ghost m = ram@;
    let mut bgs: Vec<BgControl> = Vec::new();
    let mut i: usize = 0;
    while i < ids.len()
        invariant
            m == old(ram)@,
            ram@ == m,
            ids@ == shown_bgs(*disp_control),
            forall|j: int| 0 <= j < ids.len() ==> #[trigger] ids@[j] < 4,
            i <= ids.len(),
            read_bgs(m, ids@.take(i as int)) == Ok::<Seq<BgControl>, MemoryError>(bgs@),
        decreases ids.len() - i,
    {
        assert(ids@.take(i as int + 1).drop_last() =~= ids@.take(i as int));
        match bg_control(ram, ids[i]) {
            Ok(b) => bgs.push(b),
            Err(e) => {
                assert(read_bgs(m, ids@.take(i as int + 1)) == Err::<Seq<BgControl>, MemoryError>(e));
                proof {
                    lemma_read_bgs_error(m, ids@, i as int + 1);
                }
                return Err(e);
            },
        }
        i += 1;
    }
    assert(ids@.take(i as int) =~= ids@);
    Ok(bgs)
}

/// Bounds of the fields of an object attribute word.
pub proof fn lemma_attribute_fields(v: u32)
    by (bit_vector)
    ensures
        v & 0x3ff <= 0x3ff,
        v & 0x1ff <= 0x1ff,
        v & 0xff <= 0xff,
        (v >> 12u32) & 0b111 < 8,
{
}

/// The fields of every object read from attribute memory are within their bit widths.
pub proof fn lemma_oam_object_bounds(oam: Seq<u32>, n: nat)
    requires
        n <= oam.len() / 2,
    ensures
        forall|k: int|
            0 <= k < oam_objects(oam, n).len() ==> {
                let o = #[trigger] oam_objects(oam, n)[k];
                &&& o.character_name <= 0x3ff
                &&& o.x_coord <= 0x1ff
                &&& o.y_coord <= 0xff
                &&& o.palette_idx < 8
                &&& o.obj_shape.w <= 64
                &&& o.obj_shape.h <= 64
            },
    decreases n,
{
    if n > 0 {
        let k = n - 1;
        lemma_oam_object_bounds(oam, k as nat);
        lemma_attribute_fields(oam[2 * k]);
        lemma_attribute_fields(oam[2 * k + 1]);
        let e = oam.subrange(2 * k, 2 * k + 2);
        assert(e[0] == oam[2 * k] && e[1] == oam[2 * k + 1]);
    }
}

/// Whether pixel (`x`, `y`) of `obj` can be read: its address fits 32 bits and is mapped.
pub open spec fn pixel_readable(m: Seq<Seq<u32>>, obj: OamAttribute, x: u32, y: u32) -> bool {
    let tb = tile_base_of(obj);
    let a = if obj.colors {
        pixel_address_256(x, y, tb)
    } else {
        pixel_address_16(x, y, tb)
    };
    a <= u32::MAX && read_spec(m, a as usize) is Ok
}

/// Every pixel of every object in `objs` can be read.
pub open spec fn objects_readable(m: Seq<Seq<u32>>, objs: Seq<OamAttribute>) -> bool {
    forall|k: int, x: u32, y: u32|
        0 <= k < objs.len() && x < objs[k].obj_shape.h && y < objs[k].obj_shape.w
            ==> #[trigger] pixel_readable(m, objs[k], x, y)
}

/// The display control register in the regions `m`.
pub open spec fn display_control_of(m: Seq<Seq<u32>>) -> DisplayControl {
    DisplayControl::decoded(read_spec(m, DISP_CONTROL)->Ok_0)
}

/// The objects a frame draws: those of attribute memory when objects are displayed.
pub open spec fn frame_objects(m: Seq<Seq<u32>>) -> Seq<OamAttribute> {
    if display_control_of(m).display_obj {
        oam_objects(m[6], (m[6].len() / 2) as nat)
    } else {
        seq![]
    }
}

/// What drawing a frame needs: a readable display
/// control register with a background mode up to 5, readable background control registers,
/// the object palettes, and, when objects are displayed, well-formed attribute memory whose
/// objects' pixels can all be read.
pub open spec fn frame_ok(m: Seq<Seq<u32>>) -> bool {
    &&& m.len() == 9
    &&& read_spec(m, DISP_CONTROL) is Ok
    &&& display_control_of(m).bg_mode <= 5
    &&& read_bgs(m, shown_bgs(display_control_of(m))) is Ok
    &&& m[4].len() >= 256
    &&& display_control_of(m).display_obj ==> oam_ok(m[6])
    &&& objects_readable(m, frame_objects(m))
}

impl PPU {
    /// Draws the objects over the frame buffer and returns a copy of it. Each object is
    /// drawn column by column in its own colours (`draw_objects`); pixels that fall past the
    /// end of the buffer are dropped.
    pub fn get_next_frame(&mut self, ram: &mut SystemMemory) -> (r: Vec<u8>)
        requires
            old(self)@.wf(),
            frame_ok(old(ram)@),
        ensures
            final(ram)@ == old(ram)@,
            final(self)@ == (PpuView {
                next_frame: draw_objects(
                    old(self)@.next_frame,
                    old(ram)@,
                    old(ram)@[4],
                    frame_objects(old(ram)@),
                ),
                ..old(self)@
            }),
            r@ == final(self)@.next_frame,
    {
        let ghost m = ram@;
        let ghost f0 = self.next_frame@;
        let disp_control = match display_control(ram) {
            Ok(d) => d,
            Err(_) => DisplayControl::from(0),
        };
        let _ = get_bgs(&disp_control, ram);
        let (objects, _) = if disp_control.display_obj {
            get_objs_and_params(ram, &disp_control)
        } else {
            (Vec::new(), Vec::new())
        };
        assert(objects@ =~= frame_objects(m));
        proof {
            if disp_control.display_obj {
                lemma_oam_object_bounds(m[6], (m[6].len() / 2) as nat);
            }
        }
        let palettes = get_palettes(ram);
        let ghost pal = m[4];
        let mut i: usize = 0;
        while i < objects.len()
            invariant
                ram@ == m,
                frame_ok(m),
                pal == m[4],
                palettes.read_from(pal),
                objects@ == frame_objects(m),
                forall|k: int|
                    0 <= k < objects@.len() ==> {
                        let o = #[trigger] objects@[k];
                        &&& o.character_name <= 0x3ff
                        &&& o.x_coord <= 0x1ff
                        &&& o.y_coord <= 0xff
                        &&& o.palette_idx < 8
                        &&& o.obj_shape.w <= 64
                        &&& o.obj_shape.h <= 64
                    },
                i <= objects.len(),
                self.next_frame@.len() == frame_len(),
                self.next_frame@ == draw_objects(f0, m, pal, objects@.take(i as int)),
                self.old_cycle == old(self).old_cycle,
                self.h_count == old(self).h_count,
                self.v_count == old(self).v_count,
                self.frame == old(self).frame,
            decreases objects.len() - i,
        {
            let obj = objects[i];
            assert(objects@.take(i as int + 1).drop_last() =~= objects@.take(i as int));
            let palette = palettes.get_palette(obj.palette_idx);
            let tile_base = BASE_OAM + obj.character_name * 32;
            let ghost before = self.next_frame@;
            let mut x: u32 = 0;
            while x < obj.obj_shape.h
                invariant
                    ram@ == m,
                    frame_ok(m),
                    pal == m[4],
                    palettes.read_from(pal),
                    objects@ == frame_objects(m),
                    0 <= i < objects.len(),
                    obj == objects@[i as int],
                    obj.character_name <= 0x3ff,
                    obj.x_coord <= 0x1ff,
                    obj.y_coord <= 0xff,
                    obj.palette_idx < 8,
                    obj.obj_shape.w <= 64,
                    obj.obj_shape.h <= 64,
                    tile_base == tile_base_of(obj),
                    palette@ == palettes.palettes_view()[obj.palette_idx as int],
                    x <= obj.obj_shape.h,
                    self.next_frame@.len() == frame_len(),
                    self.next_frame@ == draw_columns(before, m, pal, obj, x as nat),
                    self.old_cycle == old(self).old_cycle,
                    self.h_count == old(self).h_count,
                    self.v_count == old(self).v_count,
                    self.frame == old(self).frame,
                decreases obj.obj_shape.h - x,
            {
                let ghost col = self.next_frame@;
                let mut y: u32 = 0;
                while y < obj.obj_shape.w
                    invariant
                        ram@ == m,
                        frame_ok(m),
                        pal == m[4],
                        palettes.read_from(pal),
                        objects@ == frame_objects(m),
                        0 <= i < objects.len(),
                        obj == objects@[i as int],
                        obj.character_name <= 0x3ff,
                        obj.x_coord <= 0x1ff,
                        obj.y_coord <= 0xff,
                        obj.palette_idx < 8,
                        obj.obj_shape.w <= 64,
                        obj.obj_shape.h <= 64,
                        tile_base == tile_base_of(obj),
                        palette@ == palettes.palettes_view()[obj.palette_idx as int],
                        x < obj.obj_shape.h,
                        y <= obj.obj_shape.w,
                        self.next_frame@.len() == frame_len(),
                        self.next_frame@ == draw_column(col, m, pal, obj, x, y as nat),
                        self.old_cycle == old(self).old_cycle,
                        self.h_count == old(self).h_count,
                        self.v_count == old(self).v_count,
                        self.frame == old(self).frame,
                    decreases obj.obj_shape.w - y,
                {
                    assert(pixel_readable(m, objects@[i as int], x, y));
                    let color: Option<(u8, u8, u8)> = if obj.colors {
                        let c_idx = get_color_id_256_colors_2d(x, y, tile_base, ram);
                        if c_idx == 0 {
                            None
                        } else {
                            Some(palettes.get_256_color(c_idx))
                        }
                    } else {
                        let c_idx = get_color_id_16_palette_2d(x, y, tile_base, ram);
                        assert(palettes.palettes_view()[obj.palette_idx as int][c_idx as int]
                            == obj_color(pal, 16 * obj.palette_idx + c_idx));
                        Some(palette[c_idx])
                    };
                    assert(color == pixel_color(m, pal, obj, x, y));
                    if let Some((r, g, b)) = color {
                        let xx = (x + obj.x_coord) as usize;
                        let yy = (y + obj.y_coord) as usize;
                        let buffer_idx = euclid_to_buffer_idx(xx, yy);
                        assert(buffer_idx == 4 * (xx + 240 * yy));
                        if buffer_idx + 2 <= self.next_frame.len() {
                            self.next_frame.set(buffer_idx, r);
                            self.next_frame.set(buffer_idx + 1, g);
                            self.next_frame.set(buffer_idx + 2, b);
                        }
                    }
                    y += 1;
                }
                x += 1;
            }
            i += 1;
        }
        assert(objects@.take(i as int) =~= objects@);
        self.next_frame.clone()
    }
}

/// The mosaic sizes of backgrounds and objects, each one less than its four-bit field.
#[derive(Debug, PartialEq, Eq, Structural, Clone, Copy)]
pub struct Mosaic {
    pub bg_h: i32,
    pub bg_v: i32,
    pub obj_h: i32,
    pub obj_v: i32,
}

impl Mosaic {
    pub fn from(value: u32) -> (r: Self)
        ensures
            r.bg_h == ((value >> 0u32) & 0xf) - 1,
            r.bg_v == ((value >> 4u32) & 0xf) - 1,
            r.obj_h == ((value >> 8u32) & 0xf) - 1,
            r.obj_v == ((value >> 12u32) & 0xf) - 1,
    {
        Mosaic {
            bg_h: (value.half_byte_at(0) as i32) - 1,
            bg_v: (value.half_byte_at(4) as i32) - 1,
            obj_h: (value.half_byte_at(8) as i32) - 1,
            obj_v: (value.half_byte_at(12) as i32) - 1,
        }
    }
}

/// Whether pixel (`x`, `y`) of `obj` can be read.
fn pixel_ok(ram: &mut SystemMemory, obj: &OamAttribute, x: u32, y: u32) -> (r: bool)
    requires
        obj.character_name <= 0x3ff,
    ensures
        final(ram)@ == old(ram)@,
        r == pixel_readable(old(ram)@, *obj, x, y),
{
    let tb: u64 = BASE_OAM as u64 + obj.character_name as u64 * 32;
    let a: u64 = if obj.colors {
        tb + (x % 8) as u64 + (x >> 3) as u64 * 0x40 + 0x8 * (y % 8) as u64 + 0x400 * (y >> 3) as u64
    } else {
        tb + ((x % 8) >> 1) as u64 + (x >> 3) as u64 * 0x40 + 0x4 * (y % 8) as u64 + 0x400 * (y
            >> 3) as u64
    };
    if a > u32::MAX as u64 {
        return false;
    }
    ram.read_byte(a as usize).is_ok()
}

/// Whether `get_next_frame` can draw from the memory as it is now (`frame_ok`).
pub fn frame_ready(ram: &mut SystemMemory) -> (r: bool)
    ensures
        final(ram)@ == old(ram)@,
        r == frame_ok(old(ram)@),
{
    proof {
        crate::gba::system::lemma_view_regions(*ram);
    }
    let ghost m = ram@;
    let dc = match display_control(ram) {
        Ok(d) => d,
        Err(_) => {
            return false;
        },
    };
    if dc.bg_mode > 5 {
        return false;
    }
    if get_bgs(&dc, ram).is_err() {
        return false;
    }
    if ram.region_len(4) < 256 {
        return false;
    }
    if !dc.display_obj {
        assert(frame_objects(m) =~= Seq::<OamAttribute>::empty());
        return true;
    }
    let oam_len = ram.region_len(6);
    if oam_len % 8 != 0 {
        return false;
    }
    let mut k: usize = 0;
    while k < oam_len / 2
        invariant
            ram@ == m,
            m == old(ram)@,
            dc == display_control_of(m),
            dc.display_obj,
            m.len() == 9,
            oam_len == m[6].len(),
            oam_len % 8 == 0,
            k <= oam_len / 2,
            forall|j: int| 0 <= j < k && #[trigger] entry_shown(m[6], j) ==> shape_field(m[6][2 * j]) != 3,
        decreases oam_len / 2 - k,
    {
        let w0 = ram.get_oam()[2 * k];
        let w1 = ram.get_oam()[2 * k + 1];
        if w0 != 0 && (w1 & 0xffff) != 0 && (w0 >> 14) & 0b11 == 3 {
            assert(entry_shown(m[6], k as int));
            return false;
        }
        k += 1;
    }
    assert(oam_ok(m[6]));
    let (objects, _) = get_objs_and_params(ram, &dc);
    proof {
        lemma_oam_object_bounds(m[6], (m[6].len() / 2) as nat);
    }
    assert(objects@ == frame_objects(m));
    let mut i: usize = 0;
    while i < objects.len()
        invariant
            ram@ == m,
            m == old(ram)@,
            objects@ == frame_objects(m),
            forall|j: int| 0 <= j < objects@.len() ==> (#[trigger] objects@[j]).character_name <= 0x3ff,
            i <= objects.len(),
            forall|j: int, x: u32, y: u32|
                0 <= j < i && x < objects@[j].obj_shape.h && y < objects@[j].obj_shape.w
                    ==> #[trigger] pixel_readable(m, objects@[j], x, y),
        decreases objects.len() - i,
    {
        let obj = objects[i];
        assert(obj.character_name <= 0x3ff);
        let mut x: u32 = 0;
        while x < obj.obj_shape.h
            invariant
                ram@ == m,
                m == old(ram)@,
                objects@ == frame_objects(m),
                i < objects.len(),
                obj == objects@[i as int],
                obj.character_name <= 0x3ff,
                x <= obj.obj_shape.h,
                forall|xx: u32, y: u32|
                    xx < x && y < obj.obj_shape.w ==> #[trigger] pixel_readable(m, obj, xx, y),
            decreases obj.obj_shape.h - x,
        {
            let mut y: u32 = 0;
            while y < obj.obj_shape.w
                invariant
                    ram@ == m,
                    m == old(ram)@,
                    objects@ == frame_objects(m),
                    i < objects.len(),
                    obj == objects@[i as int],
                    obj.character_name <= 0x3ff,
                    x < obj.obj_shape.h,
                    y <= obj.obj_shape.w,
                    forall|xx: u32, yy: u32|
                        xx < x && yy < obj.obj_shape.w ==> #[trigger] pixel_readable(m, obj, xx, yy),
                    forall|yy: u32| yy < y ==> #[trigger] pixel_readable(m, obj, x, yy),
                decreases obj.obj_shape.w - y,
            {
                if !pixel_ok(ram, &obj, x, y) {
                    assert(!objects_readable(m, frame_objects(m)));
                    return false;
                }
                y += 1;
            }
            x += 1;
        }
        i += 1;
    }
    true
}

/// Once reading a prefix of the backgrounds fails, reading them all fails the same way.
proof fn lemma_read_bgs_error(m: Seq<Seq<u32>>, ids: Seq<usize>, i: int)
    requires
        0 <= i <= ids.len(),
        read_bgs(m, ids.take(i)) is Err,
    ensures
        read_bgs(m, ids) == read_bgs(m, ids.take(i)),
    decreases ids.len() - i,
{
    if i < ids.len() {
        assert(ids.take(i + 1).drop_last() =~= ids.take(i));
        lemma_read_bgs_error(m, ids, i + 1);
    } else {
        assert(ids.take(i) =~= ids);
    }
}

} // verus!
