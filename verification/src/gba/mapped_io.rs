use crate::utils::{bit_of, Bitable};
use vstd::prelude::*;

verus! {

/// The master interrupt enable: bit 0 of its register.
#[derive(Debug, PartialEq, Eq, Structural, Clone, Copy)]
pub struct InterruptMasterEnable(pub bool);

impl InterruptMasterEnable {
    pub fn from(value: u32) -> (r: Self)
        ensures
            r.0 == bit_of(value, 0),
    {
        InterruptMasterEnable(value.bit_is_high(0))
    }
}

/// The interrupt sources of the enable and request registers, one bit each from bit 0 up.
#[derive(Debug, PartialEq, Eq, Structural, Clone, Copy)]
pub struct InterruptEnableOrRequest {
    pub lcd_v_blank: bool,
    pub lcd_h_blank: bool,
    pub lcd_v_counter_match: bool,
    pub timer_0_overflow: bool,
    pub timer_1_overflow: bool,
    pub timer_2_overflow: bool,
    pub timer_3_overflow: bool,
    pub serial_communication: bool,
    pub dma_0: bool,
    pub dma_1: bool,
    pub dma_2: bool,
    pub dma_3: bool,
    pub keypad: bool,
    pub game_pak: bool,
}

impl InterruptEnableOrRequest {
    pub open spec fn decoded(value: u32) -> Self {
        InterruptEnableOrRequest {
            lcd_v_blank: bit_of(value, 0),
            lcd_h_blank: bit_of(value, 1),
            lcd_v_counter_match: bit_of(value, 2),
            timer_0_overflow: bit_of(value, 3),
            timer_1_overflow: bit_of(value, 4),
            timer_2_overflow: bit_of(value, 5),
            timer_3_overflow: bit_of(value, 6),
            serial_communication: bit_of(value, 7),
            dma_0: bit_of(value, 8),
            dma_1: bit_of(value, 9),
            dma_2: bit_of(value, 10),
            dma_3: bit_of(value, 11),
            keypad: bit_of(value, 12),
            game_pak: bit_of(value, 13),
        }
    }

    pub fn from(value: u32) -> (r: Self)
        ensures
            r == Self::decoded(value),
    {
        InterruptEnableOrRequest {
            lcd_v_blank: value.bit_is_high(0),
            lcd_h_blank: value.bit_is_high(1),
            lcd_v_counter_match: value.bit_is_high(2),
            timer_0_overflow: value.bit_is_high(3),
            timer_1_overflow: value.bit_is_high(4),
            timer_2_overflow: value.bit_is_high(5),
            timer_3_overflow: value.bit_is_high(6),
            serial_communication: value.bit_is_high(7),
            dma_0: value.bit_is_high(8),
            dma_1: value.bit_is_high(9),
            dma_2: value.bit_is_high(10),
            dma_3: value.bit_is_high(11),
            keypad: value.bit_is_high(12),
            game_pak: value.bit_is_high(13),
        }
    }
}

} // verus!
