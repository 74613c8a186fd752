use crate::gba::system::{halfword_of, read_spec, MemoryError, SystemMemory};
use crate::utils::{bit_of, Bitable};
use vstd::prelude::*;

verus! {

/// A background control register.
#[derive(Debug, PartialEq, Eq, Structural, Clone, Copy)]
pub struct BgControl {
    pub bg_priority: u32,
    pub character_base_block: usize,
    pub mosaic: bool,
    pub pallete: bool,
    pub screen_base_block: usize,
    pub display_area_wraparound: bool,
    pub screen_size: u32,
}

impl BgControl {
    pub open spec fn decoded(value: u32) -> Self {
        BgControl {
            bg_priority: value & 0b11,
            character_base_block: ((value >> 2u32) & 0b11) as usize,
            mosaic: bit_of(value, 6),
            pallete: bit_of(value, 7),
            screen_base_block: ((value >> 8u32) & 0x1f) as usize,
            display_area_wraparound: bit_of(value, 13),
            screen_size: (value >> 14u32) & 0b11,
        }
    }

    pub fn from(value: u32) -> (r: Self)
        ensures
            r == Self::decoded(value),
    {
        BgControl {
            bg_priority: value & 0b11,
            character_base_block: ((value >> 2) & 0b11) as usize,
            mosaic: value.bit_is_high(6),
            pallete: value.bit_is_high(7),
            screen_base_block: ((value >> 8) & 0x1f) as usize,
            display_area_wraparound: value.bit_is_high(13),
            screen_size: (value >> 14) & 0b11,
        }
    }
}

/// The address of the control register of background `n`: four halfwords from 0x4000008.
pub open spec fn bg_control_address(n: usize) -> usize {
    (0x4000008 + 2 * n) as usize
}

/// Reads the control register of background `n`, a halfword.
pub fn bg_control(ram: &mut SystemMemory, n: usize) -> (r: Result<BgControl, MemoryError>)
    requires
        n < 4,
    ensures
        final(ram)@ == old(ram)@,
        r == match read_spec(old(ram)@, bg_control_address(n)) {
            Ok(w) => Ok(BgControl::decoded(halfword_of(w, bg_control_address(n)))),
            Err(e) => Err::<BgControl, MemoryError>(e),
        },
{
    let data = ram.read_halfword(0x4000008 + 2 * n)?;
    Ok(BgControl::from(data))
}

/// A background's scroll offsets, nine bits each.
#[derive(Debug, PartialEq, Eq, Structural, Clone, Copy)]
pub struct BgOffset {
    pub x: u32,
    pub y: u32,
}

impl BgOffset {
    pub fn from(value: u32) -> (r: Self)
        ensures
            r.x == value & 0x1ff,
            r.y == (value >> 16u32) & 0x1ff,
    {
        BgOffset { x: value & 0x1ff, y: (value >> 16) & 0x1ff }
    }
}

/// The rotation and scaling registers of a background.
#[derive(Debug, PartialEq, Eq, Structural, Clone, Copy)]
pub struct BgRotScale {
    pub ref_x: u32,
    pub ref_y: u32,
    pub dx: u32,
    pub dmx: u32,
    pub dy: u32,
    pub dmy: u32,
}

impl BgRotScale {
    pub fn from(value: &[u32; 4]) -> (r: Self)
        ensures
            r.dx == value[0] & 0xffff,
            r.dmx == (value[0] >> 16u32) & 0xffff,
            r.dy == value[1] & 0xffff,
            r.dmy == (value[1] >> 16u32) & 0xffff,
            r.ref_x == value[2] & 0xfffffff,
            r.ref_y == value[3] & 0xfffffff,
    {
        let r = BgRotScale {
            dx: value[0].halfword_at(0),
            dmx: value[0].halfword_at(16),
            dy: value[1].halfword_at(0),
            dmy: value[1].halfword_at(16),
            ref_x: value[2] & 0xfffffff,
            ref_y: value[3] & 0xfffffff,
        };
        proof {
            crate::utils::lemma_word_fields(value[0], 0);
            crate::utils::lemma_word_fields(value[1], 0);
        }
        r
    }
}

} // verus!
