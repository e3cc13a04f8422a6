//! Local APIC programming. Each operation yields the register writes to
//! perform, in order, at offsets from the APIC's MMIO base.

use vstd::prelude::*;
use crate::arch::memory::{PhysAddr, VirtAddr, phys_to_virt, spec_phys_to_virt};

verus! {

pub const IA32_APIC_BASE: u32 = 0x1B;
pub const APIC_BASE_ENABLE: u64 = 0x800;
pub const APIC_ID: u32 = 0x20;
pub const APIC_SPURIOUS: u32 = 0xF0;
pub const APIC_EOI: u32 = 0xB0;
pub const APIC_ERROR: u32 = 0x280;
pub const APIC_ICR_LOW: u32 = 0x300;
pub const APIC_ICR_HIGH: u32 = 0x310;
pub const APIC_LVT_TIMER: u32 = 0x320;
pub const APIC_LVT_PERF: u32 = 0x340;
pub const APIC_LVT_LINT0: u32 = 0x350;
pub const APIC_LVT_LINT1: u32 = 0x360;
pub const APIC_LVT_ERROR: u32 = 0x370;
pub const APIC_TIMER_INIT: u32 = 0x380;
pub const APIC_TIMER_DIVIDE: u32 = 0x3E0;
/// Typical QEMU APIC bus frequency.
pub const APIC_BUS_HZ: u32 = 1_000_000_000;
pub const TIMER_MODE_PERIODIC: u32 = 0x2_0000;
pub const TIMER_VECTOR: u32 = 32;
pub const LVT_MASKED: u32 = 0x1_0000;
pub const TIMER_DIVIDE_16: u32 = 0x3;
/// Spurious vector 0xFF with the APIC software-enable bit.
pub const SPURIOUS_ENABLE: u32 = 0x1FF;
pub const ICR_DELIVERY_PENDING: u32 = 0x1000;
pub const ICR_LEVEL_ASSERT: u32 = 0x4000;
pub const ICR_INIT: u32 = 0x500;
pub const ICR_STARTUP: u32 = 0x600;
/// Timer ticks per millisecond at the bus frequency divided by 16.
pub const TICKS_PER_MS: u32 = 62_500;

#[derive(Clone, Copy, Debug, PartialEq, Eq, Structural)]
pub struct LapicWrite {
    pub offset: u32,
    pub value: u32,
}

pub open spec fn w(offset: u32, value: u32) -> LapicWrite {
    LapicWrite { offset, value }
}

/// What the kernel remembers of the local APICs.
#[derive(Clone, Copy, Debug, PartialEq, Eq, Structural)]
pub struct LapicState {
    pub mmio: Option<VirtAddr>,
    pub bsp_lapic_id: u32,
    pub timer_ticks_per_ms: u32,
}

/// Bring-up of one local APIC: the new `IA32_APIC_BASE` value and the
/// register writes that follow it.
pub struct LapicSetup {
    pub apic_base_msr: u64,
    pub writes: Vec<LapicWrite>,
}

/// Enable the APIC, mask the performance and LINT lines, mask error
/// interrupts and clear the error status.
pub open spec fn spec_setup_writes() -> Seq<LapicWrite> {
    seq![
        w(APIC_SPURIOUS, SPURIOUS_ENABLE),
        w(APIC_LVT_PERF, LVT_MASKED),
        w(APIC_LVT_LINT0, LVT_MASKED),
        w(APIC_LVT_LINT1, LVT_MASKED),
        w(APIC_LVT_ERROR, LVT_MASKED),
        w(APIC_ERROR, 0),
    ]
}

pub open spec fn spec_prepare_writes() -> Seq<LapicWrite> {
    seq![
        w(APIC_TIMER_DIVIDE, TIMER_DIVIDE_16),
        w(APIC_LVT_TIMER, LVT_MASKED | TIMER_VECTOR | TIMER_MODE_PERIODIC),
        w(APIC_TIMER_INIT, TICKS_PER_MS),
    ]
}

fn setup(apic_base_msr: u64) -> (r: LapicSetup)
    ensures
        r.apic_base_msr == apic_base_msr | APIC_BASE_ENABLE,
        r.writes@ == spec_setup_writes(),
{
    let mut writes: Vec<LapicWrite> = Vec::new();
    enable_local_apic(&mut writes);
    mask_legacy_lvt_lines(&mut writes);
    configure_error_lvt(&mut writes);
    assert(writes@ =~= spec_setup_writes());
    LapicSetup { apic_base_msr: apic_base_msr | APIC_BASE_ENABLE, writes }
}

fn enable_local_apic(writes: &mut Vec<LapicWrite>)
    ensures
        final(writes)@ == old(writes)@.push(w(APIC_SPURIOUS, SPURIOUS_ENABLE)),
{
    writes.push(LapicWrite { offset: APIC_SPURIOUS, value: SPURIOUS_ENABLE });
}

fn mask_legacy_lvt_lines(writes: &mut Vec<LapicWrite>)
    ensures
        final(writes)@ == old(writes)@ + seq![w(APIC_LVT_PERF, LVT_MASKED), w(APIC_LVT_LINT0, LVT_MASKED), w(APIC_LVT_LINT1, LVT_MASKED)],
{
    writes.push(LapicWrite { offset: APIC_LVT_PERF, value: LVT_MASKED });
    writes.push(LapicWrite { offset: APIC_LVT_LINT0, value: LVT_MASKED });
    writes.push(LapicWrite { offset: APIC_LVT_LINT1, value: LVT_MASKED });
    assert(writes@ =~= old(writes)@ + seq![w(APIC_LVT_PERF, LVT_MASKED), w(APIC_LVT_LINT0, LVT_MASKED), w(APIC_LVT_LINT1, LVT_MASKED)]);
}

fn configure_error_lvt(writes: &mut Vec<LapicWrite>)
    ensures
        final(writes)@ == old(writes)@ + seq![w(APIC_LVT_ERROR, LVT_MASKED), w(APIC_ERROR, 0)],
{
    writes.push(LapicWrite { offset: APIC_LVT_ERROR, value: LVT_MASKED });
    writes.push(LapicWrite { offset: APIC_ERROR, value: 0 });
    assert(writes@ =~= old(writes)@ + seq![w(APIC_LVT_ERROR, LVT_MASKED), w(APIC_ERROR, 0)]);
}

impl LapicState {
    pub fn new() -> (r: Self)
        ensures
            r.mmio.is_none(),
            r.bsp_lapic_id == 0,
            r.timer_ticks_per_ms == 0,
    {
        LapicState { mmio: None, bsp_lapic_id: 0, timer_ticks_per_ms: 0 }
    }
}

/// Boot CPU bring-up: maps the APIC at `apic_phys` through the direct map,
/// records the boot CPU's APIC id and enables the APIC.
pub fn init_bsp(state: &mut LapicState, apic_phys: PhysAddr, hhdm: u64, bsp_id: u32, apic_base_msr: u64) -> (r: LapicSetup)
    ensures
        final(state).mmio == Some(VirtAddr(spec_phys_to_virt(hhdm, apic_phys.0))),
        final(state).bsp_lapic_id == bsp_id,
        final(state).timer_ticks_per_ms == old(state).timer_ticks_per_ms,
        r.apic_base_msr == apic_base_msr | APIC_BASE_ENABLE,
        r.writes@ == spec_setup_writes(),
{
    state.mmio = Some(phys_to_virt(hhdm, apic_phys));
    state.bsp_lapic_id = bsp_id;
    setup(apic_base_msr)
}

/// Application processor bring-up of its own local APIC.
pub fn init_ap(apic_base_msr: u64) -> (r: LapicSetup)
    ensures
        r.apic_base_msr == apic_base_msr | APIC_BASE_ENABLE,
        r.writes@ == spec_setup_writes(),
{
    setup(apic_base_msr)
}

/// The APIC id in bits 24..32 of the ID register.
pub fn current_lapic_id(id_register: u32) -> (r: u32)
    ensures
        r == id_register / 0x100_0000,
        r < 256,
{
    let r = (id_register >> 24) & 0xFF;
    assert((id_register >> 24) & 0xFF == id_register / 0x100_0000) by (bit_vector);
    r
}

pub fn send_eoi() -> (r: LapicWrite)
    ensures
        r == w(APIC_EOI, 0),
{
    LapicWrite { offset: APIC_EOI, value: 0 }
}

/// Programs a masked periodic timer of one millisecond (divide by 16).
pub fn prepare_timer(state: &mut LapicState) -> (r: Vec<LapicWrite>)
    ensures
        r@ == spec_prepare_writes(),
        final(state).timer_ticks_per_ms == TICKS_PER_MS,
        final(state).mmio == old(state).mmio,
        final(state).bsp_lapic_id == old(state).bsp_lapic_id,
{
    let ticks = APIC_BUS_HZ / 16 / 1000;
    let mut r: Vec<LapicWrite> = Vec::new();
    r.push(LapicWrite { offset: APIC_TIMER_DIVIDE, value: TIMER_DIVIDE_16 });
    r.push(LapicWrite { offset: APIC_LVT_TIMER, value: LVT_MASKED | TIMER_VECTOR | TIMER_MODE_PERIODIC });
    r.push(LapicWrite { offset: APIC_TIMER_INIT, value: ticks });
    state.timer_ticks_per_ms = ticks;
    assert(r@ =~= spec_prepare_writes());
    r
}

/// Starts the periodic timer, unmasked. The count is the one known on entry
/// (at least 1): when the timer was never prepared it is prepared first, and
/// this start still uses a count of 1.
pub fn start_timer(state: &mut LapicState) -> (r: Vec<LapicWrite>)
    ensures
        ({
            let ticks = old(state).timer_ticks_per_ms;
            let tail = seq![
                w(APIC_TIMER_DIVIDE, TIMER_DIVIDE_16),
                w(APIC_LVT_TIMER, TIMER_VECTOR | TIMER_MODE_PERIODIC),
                w(APIC_TIMER_INIT, if ticks >= 1 { ticks } else { 1 }),
            ];
            &&& ticks == 0 ==> r@ == spec_prepare_writes() + tail && final(state).timer_ticks_per_ms == TICKS_PER_MS
            &&& ticks != 0 ==> r@ == tail && final(state).timer_ticks_per_ms == ticks
        }),
        final(state).mmio == old(state).mmio,
        final(state).bsp_lapic_id == old(state).bsp_lapic_id,
{
    let ticks = state.timer_ticks_per_ms;
    let mut r: Vec<LapicWrite> = if ticks == 0 { prepare_timer(state) } else { Vec::new() };
    let ghost before = r@;
    r.push(LapicWrite { offset: APIC_TIMER_DIVIDE, value: TIMER_DIVIDE_16 });
    r.push(LapicWrite { offset: APIC_LVT_TIMER, value: TIMER_VECTOR | TIMER_MODE_PERIODIC });
    r.push(LapicWrite { offset: APIC_TIMER_INIT, value: if ticks >= 1 { ticks } else { 1 } });
    assert(r@ =~= before + seq![
        w(APIC_TIMER_DIVIDE, TIMER_DIVIDE_16),
        w(APIC_LVT_TIMER, TIMER_VECTOR | TIMER_MODE_PERIODIC),
        w(APIC_TIMER_INIT, if ticks >= 1 { ticks } else { 1 }),
    ]);
    r
}

pub fn calibrate_timer(state: &mut LapicState) -> (r: Vec<LapicWrite>)
    ensures
        r@ == spec_prepare_writes(),
        final(state).timer_ticks_per_ms == TICKS_PER_MS,
        final(state).mmio == old(state).mmio,
        final(state).bsp_lapic_id == old(state).bsp_lapic_id,
{
    prepare_timer(state)
}

/// Prepares the timer unless the boot CPU already did.
pub fn calibrate_timer_ap(state: &mut LapicState) -> (r: Vec<LapicWrite>)
    ensures
        old(state).timer_ticks_per_ms == 0 ==> r@ == spec_prepare_writes() && final(state).timer_ticks_per_ms == TICKS_PER_MS,
        old(state).timer_ticks_per_ms != 0 ==> r@.len() == 0 && *final(state) == *old(state),
        final(state).mmio == old(state).mmio,
        final(state).bsp_lapic_id == old(state).bsp_lapic_id,
{
    if state.timer_ticks_per_ms == 0 {
        prepare_timer(state)
    } else {
        Vec::new()
    }
}

/// Whether the interrupt command register still reports a pending delivery.
pub fn icr_pending(icr_low: u32) -> (r: bool)
    ensures
        r == (icr_low & ICR_DELIVERY_PENDING != 0),
{
    icr_low & ICR_DELIVERY_PENDING != 0
}

/// The destination field of the interrupt command register.
pub open spec fn icr_destination(destination: u32) -> u32 {
    destination << 24
}

/// A fixed-delivery IPI with `vector`, level-asserted when `level`; sent once
/// no delivery is pending.
pub fn send_ipi(destination: u32, vector: u8, level: bool) -> (r: Vec<LapicWrite>)
    ensures
        r@ == seq![
            w(APIC_ICR_HIGH, icr_destination(destination)),
            w(APIC_ICR_LOW, if level { vector as u32 | ICR_LEVEL_ASSERT } else { vector as u32 }),
        ],
{
    let mut low = vector as u32;
    if level {
        low = low | ICR_LEVEL_ASSERT;
    }
    let mut r: Vec<LapicWrite> = Vec::new();
    r.push(LapicWrite { offset: APIC_ICR_HIGH, value: destination << 24 });
    r.push(LapicWrite { offset: APIC_ICR_LOW, value: low });
    assert(r@ =~= seq![
        w(APIC_ICR_HIGH, icr_destination(destination)),
        w(APIC_ICR_LOW, if level { vector as u32 | ICR_LEVEL_ASSERT } else { vector as u32 }),
    ]);
    r
}

pub fn send_init_ipi(destination: u32) -> (r: Vec<LapicWrite>)
    ensures
        r@ == seq![w(APIC_ICR_HIGH, icr_destination(destination)), w(APIC_ICR_LOW, ICR_INIT)],
{
    let mut r: Vec<LapicWrite> = Vec::new();
    r.push(LapicWrite { offset: APIC_ICR_HIGH, value: destination << 24 });
    r.push(LapicWrite { offset: APIC_ICR_LOW, value: ICR_INIT });
    assert(r@ =~= seq![w(APIC_ICR_HIGH, icr_destination(destination)), w(APIC_ICR_LOW, ICR_INIT)]);
    r
}

/// A startup IPI: the AP starts in real mode at page `vector`.
pub fn send_sipi(destination: u32, vector: u8) -> (r: Vec<LapicWrite>)
    ensures
        r@ == seq![w(APIC_ICR_HIGH, icr_destination(destination)), w(APIC_ICR_LOW, ICR_STARTUP | vector as u32)],
{
    let mut r: Vec<LapicWrite> = Vec::new();
    r.push(LapicWrite { offset: APIC_ICR_HIGH, value: destination << 24 });
    r.push(LapicWrite { offset: APIC_ICR_LOW, value: ICR_STARTUP | (vector as u32) });
    assert(r@ =~= seq![w(APIC_ICR_HIGH, icr_destination(destination)), w(APIC_ICR_LOW, ICR_STARTUP | vector as u32)]);
    r
}

pub fn bsp_lapic_id(state: &LapicState) -> (r: u32)
    ensures
        r == state.bsp_lapic_id,
{
    state.bsp_lapic_id
}

pub fn set_bsp_lapic_id(state: &mut LapicState, id: u32)
    ensures
        *final(state) == (LapicState { bsp_lapic_id: id, ..*old(state) }),
{
    state.bsp_lapic_id = id;
}

/// A SIPI's vector and an INIT keep the delivery mode apart: the startup
/// command word carries its page number in the low byte.
pub proof fn lemma_sipi_vector(vector: u8)
    ensures
        (ICR_STARTUP | vector as u32) & 0xFF == vector,
        (ICR_STARTUP | vector as u32) & 0x700 == ICR_STARTUP,
{
    assert((0x600u32 | vector as u32) & 0xFF == vector as u32) by (bit_vector);
    assert((0x600u32 | vector as u32) & 0x700 == 0x600u32) by (bit_vector);
}

} // verus!
