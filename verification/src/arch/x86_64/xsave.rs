//! The XSAVE area for SSE and AVX state.

use vstd::prelude::*;

verus! {

pub const XSAVE_AREA_SIZE: usize = 4096;
pub const XCR0_SSE: u64 = 2;
pub const XCR0_AVX: u64 = 4;

pub struct ExtendedState {
    pub data: Vec<u8>,
}

impl ExtendedState {
    pub fn zeroed() -> (r: Self)
        ensures
            r.data@.len() == XSAVE_AREA_SIZE,
            forall|i: int| 0 <= i < XSAVE_AREA_SIZE ==> #[trigger] r.data@[i] == 0,
    {
        let mut data: Vec<u8> = Vec::new();
        let mut i: usize = 0;
        while i < XSAVE_AREA_SIZE
            invariant
                0 <= i <= XSAVE_AREA_SIZE,
                data@.len() == i,
                forall|j: int| 0 <= j < i ==> #[trigger] data@[j] == 0,
            decreases XSAVE_AREA_SIZE - i,
        {
            data.push(0);
            i = i + 1;
        }
        ExtendedState { data }
    }
}

/// XCR0 for the state the kernel saves: SSE always, AVX when the processor
/// reports it (CPUID leaf 0xD, sub-leaf 1, ECX bit 2).
pub fn xcr0_for(ecx_leaf_d: u32) -> (r: u64)
    ensures
        r == (if ecx_leaf_d & 4 != 0 { XCR0_SSE | XCR0_AVX } else { XCR0_SSE }),
{
    let mut xcr0 = XCR0_SSE;
    if ecx_leaf_d & 4 != 0 {
        xcr0 = xcr0 | XCR0_AVX;
    }
    xcr0
}

} // verus!
