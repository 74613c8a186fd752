use crate::gba::system::{read_spec, MemoryError, SystemMemory};
use crate::utils::{bit_of, Bitable};
use vstd::prelude::*;

verus! {

pub const DISP_CONTROL: usize = 0x4000000;

pub const DISP_STAT: usize = 0x4000004;

/// The display control register: background mode and what is shown.
#[derive(Debug, PartialEq, Eq, Structural, Clone, Copy)]
pub struct DisplayControl {
    pub bg_mode: u32,
    pub gbc_mode: bool,
    pub display_frame_select: bool,
    pub h_blank_interval_free: bool,
    pub obj_character_mapping: bool,
    pub forced_blank: bool,
    pub display_bg0: bool,
    pub display_bg1: bool,
    pub display_bg2: bool,
    pub display_bg3: bool,
    pub display_obj: bool,
    pub display_window0: bool,
    pub display_window1: bool,
    pub display_window_obj: bool,
}

impl DisplayControl {
    pub open spec fn decoded(value: u32) -> Self {
        DisplayControl {
            bg_mode: value & 0b111,
            gbc_mode: bit_of(value, 3),
            display_frame_select: bit_of(value, 4),
            h_blank_interval_free: bit_of(value, 5),
            obj_character_mapping: bit_of(value, 6),
            forced_blank: bit_of(value, 7),
            display_bg0: bit_of(value, 8),
            display_bg1: bit_of(value, 9),
            display_bg2: bit_of(value, 10),
            display_bg3: bit_of(value, 11),
            display_obj: bit_of(value, 12),
            display_window0: bit_of(value, 13),
            display_window1: bit_of(value, 14),
            display_window_obj: bit_of(value, 15),
        }
    }

    pub fn from(value: u32) -> (r: Self)
        ensures
            r == Self::decoded(value),
    {
        DisplayControl {
            bg_mode: value & 0b111,
            gbc_mode: value.bit_is_high(3),
            display_frame_select: value.bit_is_high(4),
            h_blank_interval_free: value.bit_is_high(5),
            obj_character_mapping: value.bit_is_high(6),
            forced_blank: value.bit_is_high(7),
            display_bg0: value.bit_is_high(8),
            display_bg1: value.bit_is_high(9),
            display_bg2: value.bit_is_high(10),
            display_bg3: value.bit_is_high(11),
            display_obj: value.bit_is_high(12),
            display_window0: value.bit_is_high(13),
            display_window1: value.bit_is_high(14),
            display_window_obj: value.bit_is_high(15),
        }
    }
}

/// The display status register: blanking flags, interrupt enables and the line counters.
#[derive(Debug, PartialEq, Eq, Structural, Clone, Copy)]
pub struct DisplayStat {
    pub v_blank: bool,
    pub h_blank: bool,
    pub v_counter: bool,
    pub v_blank_irq: bool,
    pub h_blank_irq: bool,
    pub v_counter_irq: bool,
    pub v_count_setting: u32,
    pub v_count: u32,
}

impl DisplayStat {
    pub open spec fn decoded(value: u32) -> Self {
        DisplayStat {
            v_blank: bit_of(value, 0),
            h_blank: bit_of(value, 1),
            v_counter: bit_of(value, 2),
            v_blank_irq: bit_of(value, 3),
            h_blank_irq: bit_of(value, 4),
            v_counter_irq: bit_of(value, 5),
            v_count_setting: (value >> 8u32) & 0xff,
            v_count: (value >> 16u32) & 0xff,
        }
    }

    pub fn from(value: u32) -> (r: Self)
        ensures
            r == Self::decoded(value),
    {
        DisplayStat {
            v_blank: value.bit_is_high(0),
            h_blank: value.bit_is_high(1),
            v_counter: value.bit_is_high(2),
            v_blank_irq: value.bit_is_high(3),
            h_blank_irq: value.bit_is_high(4),
            v_counter_irq: value.bit_is_high(5),
            v_count_setting: value.byte_at(8),
            v_count: value.byte_at(16),
        }
    }
}

/// Reads the display control register.
pub fn display_control(ram: &mut SystemMemory) -> (r: Result<DisplayControl, MemoryError>)
    ensures
        final(ram)@ == old(ram)@,
        r == match read_spec(old(ram)@, DISP_CONTROL) {
            Ok(w) => Ok(DisplayControl::decoded(w)),
            Err(e) => Err::<DisplayControl, MemoryError>(e),
        },
{
    let data = ram.read_word(DISP_CONTROL)?;
    Ok(DisplayControl::from(data))
}

/// Reads the display status register.
pub fn display_stat(ram: &mut SystemMemory) -> (r: Result<DisplayStat, MemoryError>)
    ensures
        final(ram)@ == old(ram)@,
        r == match read_spec(old(ram)@, DISP_STAT) {
            Ok(w) => Ok(DisplayStat::decoded(w)),
            Err(e) => Err::<DisplayStat, MemoryError>(e),
        },
{
    let data = ram.read_word(DISP_STAT)?;
    Ok(DisplayStat::from(data))
}

} // verus!
