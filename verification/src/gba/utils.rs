use vstd::prelude::*;

verus! {

/// Cycles of a block transfer of `entries` registers: a load takes two more, or four when
/// it loads the PC; a store takes one more.
pub open spec fn stm_ldm_cycles_spec(cycles_per_entry: u32, entries: u32, load: bool, is_pc: bool) -> int {
    cycles_per_entry * entries + if load {
        if is_pc {
            4int
        } else {
            2int
        }
    } else {
        1int
    }
}

pub fn calc_cycles_for_stm_ldm(cycles_per_entry: u32, entries: u32, load: bool, is_pc: bool) -> (r: u32)
    requires
        cycles_per_entry * entries + 4 <= u32::MAX,
    ensures
        r == stm_ldm_cycles_spec(cycles_per_entry, entries, load, is_pc),
{
    if load {
        if is_pc {
            (cycles_per_entry * entries) + 4
        } else {
            (cycles_per_entry * entries) + 2
        }
    } else {
        (cycles_per_entry * entries) + 1
    }
}

} // verus!
