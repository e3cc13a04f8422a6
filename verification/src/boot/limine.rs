//! Limine protocol values: request identifiers, memory kinds and the
//! framebuffer and memory-map answers taken as plain values.

use vstd::prelude::*;
use crate::arch::memory::PhysAddr;
use crate::acpi::tables::RsdpLocation;
use crate::boot::info::{MemoryKind, MemoryRegion};

verus! {

pub const LIMINE_COMMON_MAGIC_0: u64 = 0xc7b1dd30df4c8b88;
pub const LIMINE_COMMON_MAGIC_1: u64 = 0x0a82e883a194f07b;
/// The memory map holds at most this many regions.
pub const MAX_MEMORY_REGIONS: usize = 256;

/// A request identifier: the common magic followed by the request's own two words.
pub fn request_id(part2: u64, part3: u64) -> (r: [u64; 4])
    ensures
        r@ == seq![LIMINE_COMMON_MAGIC_0, LIMINE_COMMON_MAGIC_1, part2, part3],
{
    let r = [LIMINE_COMMON_MAGIC_0, LIMINE_COMMON_MAGIC_1, part2, part3];
    assert(r@ =~= seq![LIMINE_COMMON_MAGIC_0, LIMINE_COMMON_MAGIC_1, part2, part3]);
    r
}

#[derive(Clone, Copy, Debug, PartialEq, Eq, Structural)]
pub struct FramebufferInfo {
    pub width: u32,
    pub height: u32,
    pub pitch: u32,
    pub bpp: u16,
    pub virt_addr: u64,
    /// Limine memory model: 0 = RGB, 1 = BGR.
    pub memory_model: u8,
}

/// The bootloader's answers, before normalization.
pub struct LimineBootInfo {
    pub hhdm_offset: u64,
    pub kernel_physical_base: u64,
    pub rsdp: Option<RsdpLocation>,
    pub memory_map: Vec<MemoryRegion>,
    pub cmdline: Option<Vec<u8>>,
    pub bsp_lapic_id: u32,
    pub framebuffer: Option<FramebufferInfo>,
}

pub open spec fn spec_mem_kind(kind: u64) -> MemoryKind {
    if kind == 0 {
        MemoryKind::Usable
    } else if kind == 1 {
        MemoryKind::Reserved
    } else if kind == 2 {
        MemoryKind::AcpiReclaimable
    } else if kind == 3 {
        MemoryKind::AcpiNvs
    } else if kind == 4 {
        MemoryKind::BadMemory
    } else if kind == 5 {
        MemoryKind::BootloaderReclaimable
    } else {
        MemoryKind::Unknown
    }
}

pub fn limine_mem_kind(kind: u64) -> (r: MemoryKind)
    ensures
        r == spec_mem_kind(kind),
{
    match kind {
        0 => MemoryKind::Usable,
        1 => MemoryKind::Reserved,
        2 => MemoryKind::AcpiReclaimable,
        3 => MemoryKind::AcpiNvs,
        4 => MemoryKind::BadMemory,
        5 => MemoryKind::BootloaderReclaimable,
        _ => MemoryKind::Unknown,
    }
}

/// One memory-map entry as the bootloader gives it.
#[derive(Clone, Copy, Debug, PartialEq, Eq, Structural)]
pub struct LimineMemmapEntry {
    pub base: u64,
    pub length: u64,
    pub kind: u64,
}

/// The region a memory-map entry describes.
pub open spec fn spec_region(e: LimineMemmapEntry) -> MemoryRegion {
    MemoryRegion { start: PhysAddr(e.base), length: e.length, kind: spec_mem_kind(e.kind) }
}

/// Whether every entry of a memory map was given (no null entry pointer).
pub open spec fn all_present(entries: Seq<Option<LimineMemmapEntry>>) -> bool {
    forall|i: int| 0 <= i < entries.len() ==> #[trigger] entries[i] is Some
}

/// Whether a memory-map answer can be used: it was given, it fits the
/// table, and none of its entries is missing.
pub open spec fn memmap_usable(memmap: Option<Seq<Option<LimineMemmapEntry>>>) -> bool {
    match memmap {
        Some(e) => e.len() <= MAX_MEMORY_REGIONS && all_present(e),
        None => false,
    }
}

/// The regions of a memory map, one per entry, in order; a map longer than
/// the table holds, or one with a missing entry, is refused.
pub fn parse_memory_map(entries: &[Option<LimineMemmapEntry>]) -> (r: Option<Vec<MemoryRegion>>)
    ensures
        r is None <==> !memmap_usable(Some(entries@)),
        r matches Some(m) ==> m@.len() == entries@.len()
            && forall|i: int| 0 <= i < entries@.len() ==> #[trigger] m@[i] == spec_region(entries@[i]->Some_0),
{
    if entries.len() > MAX_MEMORY_REGIONS {
        return None;
    }
    let mut map: Vec<MemoryRegion> = Vec::new();
    let mut i: usize = 0;
    while i < entries.len()
        invariant
            0 <= i <= entries@.len(),
            entries@.len() <= MAX_MEMORY_REGIONS,
            map@.len() == i,
            forall|j: int| 0 <= j < i ==> #[trigger] entries@[j] is Some,
            forall|j: int| 0 <= j < i ==> #[trigger] map@[j] == spec_region(entries@[j]->Some_0),
        decreases entries@.len() - i,
    {
        let e = match entries[i] {
            Some(e) => e,
            None => return None,
        };
        map.push(MemoryRegion { start: PhysAddr::new(e.base), length: e.length, kind: limine_mem_kind(e.kind) });
        i = i + 1;
    }
    Some(map)
}

/// The first framebuffer, unless it is unmapped or has no area.
pub fn parse_framebuffer(address: u64, width: u64, height: u64, pitch: u64, bpp: u16, memory_model: u8) -> (r: Option<FramebufferInfo>)
    ensures
        (address == 0 || width == 0 || height == 0) ==> r.is_none(),
        !(address == 0 || width == 0 || height == 0) ==> r == Some(FramebufferInfo {
            width: width as u32,
            height: height as u32,
            pitch: pitch as u32,
            bpp,
            virt_addr: address,
            memory_model,
        }),
{
    if address == 0 || width == 0 || height == 0 {
        return None;
    }
    Some(FramebufferInfo {
        width: width as u32,
        height: height as u32,
        pitch: pitch as u32,
        bpp,
        virt_addr: address,
        memory_model,
    })
}

impl LimineBootInfo {
    /// Puts the bootloader's answers together: the HHDM offset, the kernel's
    /// physical base and a memory map that fits, with every entry present,
    /// are required; the RSDP, the
    /// command line and the framebuffer may be missing; the BSP's LAPIC id
    /// is 0 without an SMP answer.
    pub fn from_responses(
        hhdm_offset: Option<u64>,
        kernel_physical_base: Option<u64>,
        rsdp_address: Option<u64>,
        memmap: Option<&[Option<LimineMemmapEntry>]>,
        cmdline: Option<Vec<u8>>,
        bsp_lapic_id: Option<u32>,
        framebuffer: Option<FramebufferInfo>,
    ) -> (r: Option<Self>)
        ensures
            (hhdm_offset is None || kernel_physical_base is None || !memmap_usable(match memmap {
                Some(m) => Some(m@),
                None => None::<Seq<Option<LimineMemmapEntry>>>,
            })) <==> r is None,
            r matches Some(b) ==> {
                &&& b.hhdm_offset == hhdm_offset->Some_0
                &&& b.kernel_physical_base == kernel_physical_base->Some_0
                &&& b.rsdp == match rsdp_address { Some(a) => Some(RsdpLocation { raw: a }), None => None::<RsdpLocation> }
                &&& b.memory_map@.len() == memmap->Some_0@.len()
                &&& forall|i: int| 0 <= i < memmap->Some_0@.len() ==> #[trigger] b.memory_map@[i] == spec_region(memmap->Some_0@[i]->Some_0)
                &&& b.cmdline == cmdline
                &&& b.bsp_lapic_id == match bsp_lapic_id { Some(id) => id, None => 0 }
                &&& b.framebuffer == framebuffer
            },
    {
        let hhdm = match hhdm_offset {
            Some(h) => h,
            None => return None,
        };
        let kbase = match kernel_physical_base {
            Some(k) => k,
            None => return None,
        };
        let rsdp = match rsdp_address {
            Some(a) => Some(RsdpLocation::from_limine(a)),
            None => None,
        };
        let memory_map = match memmap {
            Some(entries) => match parse_memory_map(entries) {
                Some(m) => m,
                None => return None,
            },
            None => return None,
        };
        let bsp = match bsp_lapic_id {
            Some(id) => id,
            None => 0,
        };
        Some(LimineBootInfo { hhdm_offset: hhdm, kernel_physical_base: kbase, rsdp, memory_map, cmdline, bsp_lapic_id: bsp, framebuffer })
    }
}

} // verus!
