use vstd::prelude::*;

verus! {

/// Display status register.
pub const DISP_STAT: usize = 0x4000004;

/// Vertical line counter register.
pub const V_COUNT: usize = 0x4000006;

} // verus!
