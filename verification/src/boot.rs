//! Boot information: the Limine protocol's answers, normalized.

pub mod info;
pub mod limine;

use vstd::prelude::*;
use crate::boot::info::BootInfo;
use crate::acpi::tables::RsdpLocation;
use crate::boot::limine::{memmap_usable, spec_region, FramebufferInfo, LimineBootInfo, LimineMemmapEntry};

verus! {

/// The boot description from the bootloader's answers, or `None` when a
/// required answer (HHDM, kernel address, a memory map that fits with every
/// entry given) is missing.
pub fn parse_limine(
    hhdm_offset: Option<u64>,
    kernel_physical_base: Option<u64>,
    rsdp_address: Option<u64>,
    memmap: Option<&[Option<LimineMemmapEntry>]>,
    cmdline: Option<Vec<u8>>,
    bsp_lapic_id: Option<u32>,
    framebuffer: Option<FramebufferInfo>,
) -> (r: Option<BootInfo>)
    ensures
        (hhdm_offset is None || kernel_physical_base is None || !memmap_usable(match memmap {
            Some(m) => Some(m@),
            None => None::<Seq<Option<LimineMemmapEntry>>>,
        })) <==> r is None,
        r matches Some(b) ==> {
            &&& b.hhdm_offset == hhdm_offset->Some_0
            &&& b.kernel_physical_base == kernel_physical_base->Some_0
            &&& b.rsdp == match rsdp_address { Some(a) => Some(RsdpLocation { raw: a }), None => None::<RsdpLocation> }
            &&& b.memory_map@.len() == memmap->Some_0@.len()
            &&& forall|i: int| 0 <= i < memmap->Some_0@.len() ==> #[trigger] b.memory_map@[i] == spec_region(memmap->Some_0@[i]->Some_0)
            &&& b.cmdline == cmdline
            &&& b.framebuffer == framebuffer
            &&& b.bsp_lapic_id == match bsp_lapic_id { Some(id) => id, None => 0 }
        },
{
    let raw = LimineBootInfo::from_responses(hhdm_offset, kernel_physical_base, rsdp_address, memmap, cmdline, bsp_lapic_id, framebuffer)?;
    Some(BootInfo::from_limine(raw))
}

} // verus!
