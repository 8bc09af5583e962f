use vstd::prelude::*;

verus! {

pub const T_CYCLES_PER_M_CYCLE: u32 = 4;

/// Clock cycles of `n` machine cycles.
pub fn m_cycles(n: u32) -> (r: u32)
    requires
        n * T_CYCLES_PER_M_CYCLE <= u32::MAX,
    ensures
        r == n * T_CYCLES_PER_M_CYCLE,
{
    n * T_CYCLES_PER_M_CYCLE
}

/// Clock cycles of one bus access.
pub fn bus_access() -> (r: u32)
    ensures
        r == T_CYCLES_PER_M_CYCLE,
{
    m_cycles(1)
}

/// Clock cycles of one idle machine cycle while halted.
pub fn halt_idle() -> (r: u32)
    ensures
        r == T_CYCLES_PER_M_CYCLE,
{
    m_cycles(1)
}

} // verus!
