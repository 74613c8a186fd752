use crate::utils::{bit_of, Bitable};
use vstd::prelude::*;

verus! {

/// The edges of a window, from its horizontal and vertical registers.
#[derive(Debug, PartialEq, Eq, Structural, Clone, Copy)]
pub struct WindowDimensions {
    pub left: u32,
    pub right: u32,
    pub top: u32,
    pub bottom: u32,
}

impl WindowDimensions {
    pub fn from(value: (u32, u32)) -> (r: Self)
        ensures
            r.left == (value.0 >> 8u32) & 0xff,
            r.right == (value.0 >> 0u32) & 0xff,
            r.bottom == (value.1 >> 0u32) & 0xff,
            r.top == (value.1 >> 8u32) & 0xff,
    {
        WindowDimensions {
            left: value.0.byte_at(8),
            right: value.0.byte_at(0),
            bottom: value.1.byte_at(0),
            top: value.1.byte_at(8),
        }
    }
}

/// What shows inside one window.
#[derive(Debug, PartialEq, Eq, Structural, Clone, Copy)]
pub struct InternalWindowCnt {
    pub bg0: bool,
    pub bg1: bool,
    pub bg2: bool,
    pub bg3: bool,
    pub obj: bool,
    pub color_special: bool,
}

impl InternalWindowCnt {
    pub open spec fn decoded(value: u32) -> Self {
        InternalWindowCnt {
            bg0: bit_of(value, 0),
            bg1: bit_of(value, 1),
            bg2: bit_of(value, 2),
            bg3: bit_of(value, 3),
            obj: bit_of(value, 4),
            color_special: bit_of(value, 5),
        }
    }

    pub fn from(value: u32) -> (r: Self)
        ensures
            r == Self::decoded(value),
    {
        InternalWindowCnt {
            bg0: value.bit_is_high(0),
            bg1: value.bit_is_high(1),
            bg2: value.bit_is_high(2),
            bg3: value.bit_is_high(3),
            obj: value.bit_is_high(4),
            color_special: value.bit_is_high(5),
        }
    }
}

/// The window control registers: a byte each for window 0, window 1, outside and the object
/// window.
#[derive(Debug, PartialEq, Eq, Structural, Clone, Copy)]
pub struct WindowCnt {
    pub window_0: InternalWindowCnt,
    pub window_1: InternalWindowCnt,
    pub outside: InternalWindowCnt,
    pub obj: InternalWindowCnt,
}

impl WindowCnt {
    pub fn from(value: u32) -> (r: Self)
        ensures
            r.window_0 == InternalWindowCnt::decoded(value),
            r.window_1 == InternalWindowCnt::decoded(value >> 8u32),
            r.outside == InternalWindowCnt::decoded(value >> 16u32),
            r.obj == InternalWindowCnt::decoded(value >> 24u32),
    {
        WindowCnt {
            window_0: InternalWindowCnt::from(value),
            window_1: InternalWindowCnt::from(value >> 8),
            outside: InternalWindowCnt::from(value >> 16),
            obj: InternalWindowCnt::from(value >> 24),
        }
    }
}

} // verus!
