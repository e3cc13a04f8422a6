//! FADT: PM timer, DSDT location and feature flags.

use vstd::prelude::*;
use crate::arch::memory::{PhysAddr, VirtAddr, phys_to_virt, spec_phys_to_virt};
use crate::bytes::{le32, le64, read_u32, read_u64};

verus! {

/// Bytes of the FADT layout this kernel reads (through `X_GPE1_BLK`).
pub const FADT_LEN: usize = 236;
pub const OFF_DSDT: usize = 40;
pub const OFF_PM_TMR_BLK: usize = 76;
pub const OFF_PM_TMR_LEN: usize = 91;
pub const OFF_FLAGS: usize = 112;
pub const OFF_X_DSDT: usize = 132;
/// Address field of the `X_PM_TMR_BLK` generic address structure.
pub const OFF_X_PM_TMR_ADDRESS: usize = 204;
/// The ACPI PM timer runs at 3.579545 MHz.
pub const PM_TIMER_HZ: u32 = 3_579_545;
/// FADT flag: the reset register is supported.
pub const FLAG_RESET_REG_SUP: u32 = 1 << 10;

pub struct Fadt {
    pub hhdm: u64,
    pub pm_timer_block: Option<PhysAddr>,
    pub pm_timer_length: u8,
    pub dsdt_phys: Option<PhysAddr>,
    pub flags: u32,
}

/// The PM timer block: the 32-bit field when set, else the extended address.
pub open spec fn spec_pm_timer(t: Seq<u8>) -> Option<PhysAddr> {
    if le32(t, OFF_PM_TMR_BLK as int) != 0 {
        Some(PhysAddr(le32(t, OFF_PM_TMR_BLK as int) as u64))
    } else if le64(t, OFF_X_PM_TMR_ADDRESS as int) != 0 {
        Some(PhysAddr(le64(t, OFF_X_PM_TMR_ADDRESS as int) as u64))
    } else {
        None
    }
}

/// The DSDT: the 64-bit field when set, else the 32-bit one.
pub open spec fn spec_dsdt(t: Seq<u8>) -> Option<PhysAddr> {
    if le64(t, OFF_X_DSDT as int) != 0 {
        Some(PhysAddr(le64(t, OFF_X_DSDT as int) as u64))
    } else if le32(t, OFF_DSDT as int) != 0 {
        Some(PhysAddr(le32(t, OFF_DSDT as int) as u64))
    } else {
        None
    }
}

impl Fadt {
    /// Reads a FADT from its bytes, which hold at least the full layout.
    pub fn parse(hhdm: u64, table: &[u8]) -> (r: Self)
        requires
            table.len() >= FADT_LEN,
        ensures
            r.hhdm == hhdm,
            r.pm_timer_block == spec_pm_timer(table@),
            r.pm_timer_length == table@[OFF_PM_TMR_LEN as int],
            r.dsdt_phys == spec_dsdt(table@),
            r.flags == le32(table@, OFF_FLAGS as int),
    {
        let pm_tmr_blk = read_u32(table, OFF_PM_TMR_BLK);
        let x_pm_tmr = read_u64(table, OFF_X_PM_TMR_ADDRESS);
        let pm_timer = if pm_tmr_blk != 0 {
            Some(PhysAddr(pm_tmr_blk as u64))
        } else if x_pm_tmr != 0 {
            Some(PhysAddr(x_pm_tmr))
        } else {
            None
        };
        let x_dsdt = read_u64(table, OFF_X_DSDT);
        let dsdt = read_u32(table, OFF_DSDT);
        let dsdt_phys = if x_dsdt != 0 {
            Some(PhysAddr(x_dsdt))
        } else if dsdt != 0 {
            Some(PhysAddr(dsdt as u64))
        } else {
            None
        };
        Fadt {
            hhdm,
            pm_timer_block: pm_timer,
            pm_timer_length: table[OFF_PM_TMR_LEN],
            dsdt_phys,
            flags: read_u32(table, OFF_FLAGS),
        }
    }

    pub fn dsdt_address(&self) -> (r: Option<PhysAddr>)
        ensures
            r == self.dsdt_phys,
    {
        self.dsdt_phys
    }

    pub fn timer_frequency_hz(&self) -> (r: Option<u32>)
        ensures
            r == (if self.pm_timer_block.is_some() { Some(PM_TIMER_HZ) } else { None::<u32> }),
    {
        if self.pm_timer_block.is_some() {
            Some(PM_TIMER_HZ)
        } else {
            None
        }
    }

    pub fn reset_supported(&self) -> (r: bool)
        ensures
            r == (self.flags & FLAG_RESET_REG_SUP != 0),
    {
        self.flags & FLAG_RESET_REG_SUP != 0
    }

    /// Where the PM timer register is mapped, if the FADT names one.
    pub fn pm_timer_virt(&self) -> (r: Option<VirtAddr>)
        ensures
            r == (match self.pm_timer_block {
                Some(p) => Some(VirtAddr(spec_phys_to_virt(self.hhdm, p.0))),
                None => None::<VirtAddr>,
            }),
    {
        match self.pm_timer_block {
            Some(p) => Some(phys_to_virt(self.hhdm, p)),
            None => None,
        }
    }
}

/// The PM timer counts in its low 24 bits.
pub fn pm_timer_value(raw: u32) -> (r: u32)
    ensures
        r == raw % 0x0100_0000,
{
    let r = raw & 0x00FF_FFFF;
    assert(raw & 0x00FF_FFFF == raw % 0x0100_0000) by (bit_vector);
    r
}

} // verus!
