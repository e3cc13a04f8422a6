//! ACPI power management: the port writes for S5 (power off) and reset.

use vstd::prelude::*;

verus! {

/// PM1 control value to enter a sleep state: SLP_TYP in bits 10-12, SLP_EN.
pub open spec fn spec_pm1_value(slp_typ: u8) -> u16 {
    (((slp_typ as u16) << 10u16) | 0x2000u16) as u16
}

pub fn pm1_value(slp_typ: u8) -> (r: u16)
    ensures
        r == spec_pm1_value(slp_typ),
{
    ((slp_typ as u16) << 10u16) | 0x2000u16
}

/// The writes that power the machine off: PM1a, then PM1b when present;
/// `None` when the FADT's PM1a block or the DSDT's `_S5` values are missing.
pub fn shutdown_writes(pm1a: Option<u16>, pm1b: Option<u16>, s5: Option<(u8, u8)>) -> (r: Option<Vec<(u16, u16)>>)
    ensures
        (pm1a is None || s5 is None) <==> r is None,
        r matches Some(w) ==> {
            let (a, b) = s5->Some_0;
            &&& w@.len() == if pm1b is Some { 2int } else { 1int }
            &&& w@[0] == (pm1a->Some_0, spec_pm1_value(a))
            &&& pm1b is Some ==> w@[1] == (pm1b->Some_0, spec_pm1_value(b))
        },
{
    let (slp_a, slp_b) = match s5 {
        Some(v) => v,
        None => return None,
    };
    let port_a = match pm1a {
        Some(p) => p,
        None => return None,
    };
    let mut w: Vec<(u16, u16)> = Vec::new();
    w.push((port_a, pm1_value(slp_a)));
    if let Some(port_b) = pm1b {
        w.push((port_b, pm1_value(slp_b)));
    }
    Some(w)
}

/// Generic address space id of system I/O.
pub const ADDRESS_SPACE_IO: u8 = 1;
/// The 8042's command port, its input-buffer-full bit, and the pulse-reset command.
pub const KBC_PORT: u16 = 0x64;
pub const KBC_INPUT_FULL: u8 = 0x02;
pub const KBC_RESET: u8 = 0xFE;

/// How a reboot is attempted first: through the FADT reset register when it
/// is an I/O port (port, value), else not at all (`None`), leaving the 8042.
pub fn reset_via_register(space: Option<u8>, address: u64, value: u8) -> (r: Option<(u16, u8)>)
    ensures
        space == Some(ADDRESS_SPACE_IO) ==> r == Some((address as u16, value)),
        space != Some(ADDRESS_SPACE_IO) ==> r is None,
{
    match space {
        Some(s) => if s == ADDRESS_SPACE_IO { Some((address as u16, value)) } else { None },
        None => None,
    }
}

/// The 8042 takes a command once its input buffer is empty.
pub fn kbc_ready(status: u8) -> (r: bool)
    ensures
        r == (status & KBC_INPUT_FULL == 0),
{
    status & KBC_INPUT_FULL == 0
}

} // verus!
