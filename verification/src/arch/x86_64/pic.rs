//! The legacy 8259 pair, remapped and fully masked so that external
//! interrupts arrive through the IOAPIC.

use vstd::prelude::*;

verus! {

pub const MASTER_CMD: u16 = 0x20;
pub const MASTER_DATA: u16 = 0x21;
pub const SLAVE_CMD: u16 = 0xA0;
pub const SLAVE_DATA: u16 = 0xA1;
pub const ICW1_INIT: u8 = 0x11;
pub const ICW4_8086: u8 = 0x01;

/// The port writes: initialise the master at vector 0x20 with the slave on
/// line 2, the slave at 0x28, both in 8086 mode, then mask every line.
pub fn disable_sequence() -> (r: Vec<(u16, u8)>)
    ensures
        r@ == seq![(0x20u16, 0x11u8), (0x21u16, 0x20u8), (0x20u16, 0x04u8), (0x21u16, 0x01u8),
            (0xA0u16, 0x11u8), (0xA1u16, 0x28u8), (0xA0u16, 0x02u8), (0xA1u16, 0x01u8),
            (0x21u16, 0xFFu8), (0xA1u16, 0xFFu8)],
{
    let mut v: Vec<(u16, u8)> = Vec::new();
    v.push((MASTER_CMD, ICW1_INIT));
    v.push((MASTER_DATA, 0x20));
    v.push((MASTER_CMD, 0x04));
    v.push((MASTER_DATA, ICW4_8086));
    v.push((SLAVE_CMD, ICW1_INIT));
    v.push((SLAVE_DATA, 0x28));
    v.push((SLAVE_CMD, 0x02));
    v.push((SLAVE_DATA, ICW4_8086));
    v.push((MASTER_DATA, 0xFF));
    v.push((SLAVE_DATA, 0xFF));
    assert(v@ =~= seq![(0x20u16, 0x11u8), (0x21u16, 0x20u8), (0x20u16, 0x04u8), (0x21u16, 0x01u8),
        (0xA0u16, 0x11u8), (0xA1u16, 0x28u8), (0xA0u16, 0x02u8), (0xA1u16, 0x01u8),
        (0x21u16, 0xFFu8), (0xA1u16, 0xFFu8)]);
    v
}

} // verus!
