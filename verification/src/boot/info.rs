//! Boot information independent of the bootloader protocol.

use vstd::prelude::*;
use crate::arch::memory::{PhysAddr, spec_phys_to_virt};
use crate::acpi::tables::{madt_reachable, tables_from_firmware, AcpiTables, FirmwareMemory, RsdpLocation};
use crate::boot::limine::{FramebufferInfo, LimineBootInfo};

verus! {

#[derive(Clone, Copy, Debug, PartialEq, Eq, Structural)]
pub enum MemoryKind {
    Usable,
    Reserved,
    AcpiReclaimable,
    AcpiNvs,
    BadMemory,
    BootloaderReclaimable,
    Unknown,
}

#[derive(Clone, Copy, Debug, PartialEq, Eq, Structural)]
pub struct MemoryRegion {
    pub start: PhysAddr,
    pub length: u64,
    pub kind: MemoryKind,
}

/// Normalized boot information.
pub struct BootInfo {
    pub hhdm_offset: u64,
    pub kernel_physical_base: u64,
    pub rsdp: Option<RsdpLocation>,
    pub memory_map: Vec<MemoryRegion>,
    pub cmdline: Option<Vec<u8>>,
    pub bsp_lapic_id: u32,
    pub framebuffer: Option<FramebufferInfo>,
}

impl BootInfo {
    pub fn from_limine(raw: LimineBootInfo) -> (r: Self)
        ensures
            r.hhdm_offset == raw.hhdm_offset,
            r.kernel_physical_base == raw.kernel_physical_base,
            r.rsdp == raw.rsdp,
            r.memory_map@ == raw.memory_map@,
            r.cmdline == raw.cmdline,
            r.bsp_lapic_id == raw.bsp_lapic_id,
            r.framebuffer == raw.framebuffer,
    {
        BootInfo {
            hhdm_offset: raw.hhdm_offset,
            kernel_physical_base: raw.kernel_physical_base,
            rsdp: raw.rsdp,
            memory_map: raw.memory_map,
            cmdline: raw.cmdline,
            bsp_lapic_id: raw.bsp_lapic_id,
            framebuffer: raw.framebuffer,
        }
    }

    pub fn phys_to_virt(&self, phys: PhysAddr) -> (r: u64)
        ensures
            r == spec_phys_to_virt(self.hhdm_offset, phys.0),
    {
        phys.0.wrapping_add(self.hhdm_offset)
    }

    pub fn virt_to_phys(&self, virt: u64) -> (r: Option<PhysAddr>)
        ensures
            virt >= self.hhdm_offset ==> r == Some(PhysAddr((virt - self.hhdm_offset) as u64)),
            virt < self.hhdm_offset ==> r.is_none(),
    {
        if virt >= self.hhdm_offset {
            Some(PhysAddr::new(virt - self.hhdm_offset))
        } else {
            None
        }
    }

    /// The firmware's tables, when the bootloader found an RSDP and the MADT
    /// it leads to can be read from `mem`.
    pub fn acpi_tables(&self, mem: &FirmwareMemory) -> (r: Option<AcpiTables>)
        ensures
            r is Some <==> (self.rsdp matches Some(p) && madt_reachable(*mem, self.hhdm_offset, p)),
            r matches Some(t) ==> self.rsdp == Some(t.rsdp) && tables_from_firmware(*mem, self.hhdm_offset, t.rsdp, t),
    {
        match self.rsdp {
            Some(rsdp) => AcpiTables::from_rsdp(rsdp, self.hhdm_offset, mem),
            None => None,
        }
    }
}

/// A physical address taken into the direct map and back is unchanged,
/// whenever the direct map does not wrap past 2^64.
pub proof fn lemma_boot_direct_map_roundtrip(hhdm: u64, phys: u64)
    requires
        phys + hhdm <= u64::MAX,
    ensures
        spec_phys_to_virt(hhdm, phys) >= hhdm,
        (spec_phys_to_virt(hhdm, phys) - hhdm) as u64 == phys,
{
}

} // verus!
