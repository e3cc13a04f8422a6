//! ACPI tables: RSDP discovery, MADT, FADT, DSDT and SRAT.

pub mod dsdt;
pub mod fadt;
pub mod madt;
pub mod power;
pub mod srat;
pub mod tables;

use vstd::prelude::*;
use crate::arch::memory::PhysAddr;
use crate::boot::info::BootInfo;
use crate::acpi::tables::{madt_reachable, tables_from_firmware, AcpiTables, FirmwareMemory, RsdpLocation};
use crate::acpi::madt::Madt;
use crate::acpi::fadt::Fadt;
use crate::acpi::dsdt::Dsdt;
use crate::acpi::srat::Srat;

verus! {

/// The ACPI state the kernel keeps after boot.
pub struct AcpiContext {
    pub tables: AcpiTables,
}

impl AcpiContext {
    pub fn tables(&self) -> (r: &AcpiTables)
        ensures
            r == &self.tables,
    {
        &self.tables
    }

    pub fn madt(&self) -> (r: &Madt)
        ensures
            r == &self.tables.madt,
    {
        self.tables.madt()
    }

    pub fn fadt(&self) -> (r: Option<&Fadt>)
        ensures
            match r {
                Some(x) => self.tables.fadt == Some(*x),
                None => self.tables.fadt.is_none(),
            },
    {
        self.tables.fadt()
    }

    pub fn dsdt(&self) -> (r: Option<&Dsdt>)
        ensures
            match r {
                Some(x) => self.tables.dsdt == Some(*x),
                None => self.tables.dsdt.is_none(),
            },
    {
        self.tables.dsdt()
    }

    pub fn srat(&self) -> (r: Option<&Srat>)
        ensures
            match r {
                Some(x) => self.tables.srat == Some(*x),
                None => self.tables.srat.is_none(),
            },
    {
        self.tables.srat()
    }

    pub fn local_apic_address(&self) -> (r: PhysAddr)
        ensures
            r.0 == self.tables.madt@.local_apic_address,
    {
        self.madt().local_apic_address()
    }
}

/// The context set up at boot: the firmware's tables (MADT, and FADT, DSDT
/// and SRAT where found) when the bootloader gave an RSDP and its MADT can be
/// read; otherwise the default single-CPU tables for the boot CPU, keeping
/// the bootloader's RSDP location.
pub fn init(boot: &BootInfo, mem: &FirmwareMemory) -> (r: AcpiContext)
    ensures
        (boot.rsdp matches Some(p) && madt_reachable(*mem, boot.hhdm_offset, p))
            ==> r.tables.rsdp == boot.rsdp->Some_0 && tables_from_firmware(*mem, boot.hhdm_offset, r.tables.rsdp, r.tables),
        !(boot.rsdp matches Some(p) && madt_reachable(*mem, boot.hhdm_offset, p)) ==> {
            &&& r.tables.hhdm == boot.hhdm_offset
            &&& r.tables.rsdp == (match boot.rsdp { Some(p) => p, None => RsdpLocation { raw: 0 } })
            &&& r.tables.madt@ == Madt::qemu_default_view(boot.bsp_lapic_id)
            &&& r.tables.fadt.is_none()
            &&& r.tables.dsdt.is_none()
            &&& r.tables.srat.is_none()
        },
{
    match boot.acpi_tables(mem) {
        Some(t) => AcpiContext { tables: t },
        None => AcpiContext { tables: AcpiTables::fallback(boot.bsp_lapic_id, boot.rsdp, boot.hhdm_offset) },
    }
}

} // verus!
