use crate::utils::{bit_of, Bitable};
use vstd::prelude::*;

verus! {

/// A DMA control register.
pub struct DmaControl {
    pub destination_control: u32,
    pub source_control: u32,
    pub dma_repeat: bool,
    pub dma_tfx_type: bool,
    pub gma_pak_drq: bool,
    pub dma_start_timing: u32,
    pub irq: bool,
    pub dma_enabled: bool,
}

/// Whether a DMA control word enables its channel: its bit 15.
pub open spec fn dma_enabled_spec(value: u32) -> bool {
    bit_of(value, 15)
}

impl DmaControl {
    pub fn from(value: u32) -> (r: Self)
        ensures
            r.destination_control == (value >> 5) & 0b11,
            r.source_control == (value >> 7) & 0b11,
            r.dma_repeat == bit_of(value, 9),
            r.dma_tfx_type == bit_of(value, 10),
            r.gma_pak_drq == bit_of(value, 11),
            r.dma_start_timing == (value >> 12) & 0b11,
            r.irq == bit_of(value, 14),
            r.dma_enabled == dma_enabled_spec(value),
    {
        DmaControl {
            destination_control: (value >> 5) & 0b11,
            source_control: (value >> 7) & 0b11,
            dma_repeat: value.bit_is_high(9),
            dma_tfx_type: value.bit_is_high(10),
            gma_pak_drq: value.bit_is_high(11),
            dma_start_timing: (value >> 12) & 0b11,
            irq: value.bit_is_high(14),
            dma_enabled: value.bit_is_high(15),
        }
    }
}

} // verus!
