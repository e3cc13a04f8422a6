//! Register values the CPU hands over in halves.

use vstd::prelude::*;

verus! {

/// A 64-bit value from its EDX:EAX halves (RDMSR, RDTSC).
pub fn join_halves(low: u32, high: u32) -> (r: u64)
    ensures
        r == low as int + high as int * 0x1_0000_0000,
{
    let r = ((high as u64) << 32u64) | (low as u64);
    assert(r == low as int + high as int * 0x1_0000_0000) by (bit_vector)
        requires
            r == ((high as u64) << 32u64) | (low as u64),
    ;
    r
}

/// The EAX and EDX halves for WRMSR.
pub fn split_halves(value: u64) -> (r: (u32, u32))
    ensures
        r.0 as int + r.1 as int * 0x1_0000_0000 == value,
{
    let low = value as u32;
    let high = (value >> 32u64) as u32;
    assert(low as int + high as int * 0x1_0000_0000 == value) by (bit_vector)
        requires
            low == value as u32,
            high == (value >> 32u64) as u32,
    ;
    (low, high)
}

/// Long mode is available when CPUID 0x8000_0001 sets EDX bit 29.
pub fn long_mode_supported(edx: u32) -> (r: bool)
    ensures
        r == (edx & 0x2000_0000 != 0),
{
    edx & 0x2000_0000 != 0
}

} // verus!
