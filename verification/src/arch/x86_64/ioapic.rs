//! I/O APIC discovery from the MADT and redirection-table programming.

use vstd::prelude::*;
use crate::arch::memory::{VirtAddr, phys_to_virt, spec_phys_to_virt};
use crate::acpi::AcpiContext;
use crate::acpi::madt::{IoApicEntry, InterruptOverrideEntry};

verus! {

pub const IOAPIC_REDIRECT: u32 = 0x10;
pub const MAX_IOAPICS: usize = 8;
pub const MAX_IRQS: usize = 256;
/// Redirection entries assumed per I/O APIC (its version register is not read at boot).
pub const DEFAULT_REDIRECTIONS: u8 = 24;

#[derive(Clone, Copy, Debug, PartialEq, Eq, Structural)]
pub struct IoApic {
    pub mmio: VirtAddr,
    pub id: u8,
    pub gsi_base: u32,
    pub max_redirections: u8,
}

#[derive(Clone, Copy, Debug, PartialEq, Eq, Structural)]
pub struct IrqOverride {
    pub gsi: u32,
    pub vector: u8,
}

/// A register write through an I/O APIC's index/data window.
#[derive(Clone, Copy, Debug, PartialEq, Eq, Structural)]
pub struct IoApicWrite {
    pub reg: u32,
    pub value: u32,
}

/// The I/O APICs found and the vector each global interrupt is overridden to.
pub struct IoApicState {
    pub ioapics: Vec<IoApic>,
    pub overrides: Vec<Option<IrqOverride>>,
}

impl IoApicState {
    pub open spec fn wf(&self) -> bool {
        self.ioapics@.len() <= MAX_IOAPICS && self.overrides@.len() == MAX_IRQS
    }
}

/// The controllers kept from the MADT's list: those at a nonzero address,
/// mapped through the direct map, with 24 entries each.
pub open spec fn kept_ioapics(entries: Seq<IoApicEntry>, hhdm: u64) -> Seq<IoApic>
    decreases entries.len(),
{
    if entries.len() == 0 {
        Seq::empty()
    } else {
        let rest = kept_ioapics(entries.drop_last(), hhdm);
        let e = entries.last();
        if e.address.0 == 0 || rest.len() >= MAX_IOAPICS {
            rest
        } else {
            rest.push(IoApic {
                mmio: VirtAddr(spec_phys_to_virt(hhdm, e.address.0)),
                id: e.io_apic_id,
                gsi_base: e.global_system_interrupt_base,
                max_redirections: DEFAULT_REDIRECTIONS,
            })
        }
    }
}

/// The vector an ISA override routes to: 32 plus the line, lines of 16 and
/// above taken modulo 224.
pub open spec fn override_vector(irq: u8) -> u8 {
    if irq < 16 { (32 + irq) as u8 } else { (32 + irq % 224) as u8 }
}

/// The override table after the MADT's overrides: a later override of the
/// same global interrupt replaces an earlier one; interrupts of 256 and up
/// are not kept.
pub open spec fn override_table(ovs: Seq<InterruptOverrideEntry>) -> Seq<Option<IrqOverride>>
    decreases ovs.len(),
{
    if ovs.len() == 0 {
        Seq::new(MAX_IRQS as nat, |i: int| None)
    } else {
        let t = override_table(ovs.drop_last());
        let o = ovs.last();
        if (o.global_system_interrupt as int) < MAX_IRQS {
            t.update(o.global_system_interrupt as int, Some(IrqOverride { gsi: o.global_system_interrupt, vector: override_vector(o.irq) }))
        } else {
            t
        }
    }
}

proof fn lemma_override_table_len(ovs: Seq<InterruptOverrideEntry>)
    ensures
        override_table(ovs).len() == MAX_IRQS,
    decreases ovs.len(),
{
    if ovs.len() > 0 {
        lemma_override_table_len(ovs.drop_last());
    }
}

/// The I/O APICs and interrupt overrides the MADT describes.
pub fn discover_from_acpi(ctx: &AcpiContext, hhdm: u64) -> (r: IoApicState)
    ensures
        r.wf(),
        r.ioapics@ == kept_ioapics(ctx.tables.madt@.io_apics, hhdm),
        r.overrides@ == override_table(ctx.tables.madt@.overrides),
{
    let entries = ctx.madt().io_apics();
    let mut ioapics: Vec<IoApic> = Vec::new();
    let mut i: usize = 0;
    while i < entries.len()
        invariant
            0 <= i <= entries@.len(),
            ioapics@ == kept_ioapics(entries@.subrange(0, i as int), hhdm),
            ioapics@.len() <= MAX_IOAPICS,
        decreases entries@.len() - i,
    {
        let e = entries[i];
        assert(entries@.subrange(0, i + 1).drop_last() =~= entries@.subrange(0, i as int));
        if e.address.0 != 0 && ioapics.len() < MAX_IOAPICS {
            ioapics.push(IoApic {
                mmio: phys_to_virt(hhdm, e.address),
                id: e.io_apic_id,
                gsi_base: e.global_system_interrupt_base,
                max_redirections: DEFAULT_REDIRECTIONS,
            });
        }
        i = i + 1;
    }
    assert(entries@.subrange(0, entries@.len() as int) =~= entries@);

    let ovs = ctx.madt().interrupt_overrides();
    let mut overrides: Vec<Option<IrqOverride>> = Vec::new();
    let mut k: usize = 0;
    while k < MAX_IRQS
        invariant
            0 <= k <= MAX_IRQS,
            overrides@.len() == k,
            forall|j: int| 0 <= j < k ==> #[trigger] overrides@[j].is_none(),
        decreases MAX_IRQS - k,
    {
        overrides.push(None);
        k = k + 1;
    }
    assert(overrides@ =~= override_table(ovs@.subrange(0, 0)));
    let mut j: usize = 0;
    while j < ovs.len()
        invariant
            0 <= j <= ovs@.len(),
            overrides@ == override_table(ovs@.subrange(0, j as int)),
        decreases ovs@.len() - j,
    {
        let o = ovs[j];
        assert(ovs@.subrange(0, j + 1).drop_last() =~= ovs@.subrange(0, j as int));
        proof {
            lemma_override_table_len(ovs@.subrange(0, j as int));
        }
        let vector: u8 = if o.irq < 16 { 32 + o.irq } else { 32 + (o.irq as u32 % 224) as u8 };
        let idx = o.global_system_interrupt as usize;
        if (o.global_system_interrupt as u64) < MAX_IRQS as u64 {
            overrides.set(idx, Some(IrqOverride { gsi: o.global_system_interrupt, vector }));
        }
        j = j + 1;
    }
    assert(ovs@.subrange(0, ovs@.len() as int) =~= ovs@);
    proof {
        lemma_override_table_len(ovs@);
    }
    IoApicState { ioapics, overrides }
}

/// The vector for global interrupt `gsi` on `pin`: its override if any, else
/// 32 plus the pin modulo 224.
pub fn resolve_vector(state: &IoApicState, gsi: u32, pin: u8) -> (r: u8)
    requires
        state.wf(),
        gsi < MAX_IRQS,
    ensures
        r == (match state.overrides@[gsi as int] {
            Some(o) => o.vector,
            None => (32 + pin % 224) as u8,
        }),
{
    match state.overrides[gsi as usize] {
        Some(o) => o.vector,
        None => 32 + (pin % 224),
    }
}

/// Routes `pin` to `vector` on the boot CPU: high word first, then low word.
pub fn set_redirection(pin: u8, vector: u8) -> (r: Vec<IoApicWrite>)
    ensures
        r@ == seq![
            IoApicWrite { reg: (IOAPIC_REDIRECT + 2 * pin + 1) as u32, value: 0 },
            IoApicWrite { reg: (IOAPIC_REDIRECT + 2 * pin) as u32, value: vector as u32 },
        ],
{
    let low = IOAPIC_REDIRECT + (pin as u32 * 2);
    let high = low + 1;
    let mut r: Vec<IoApicWrite> = Vec::new();
    r.push(IoApicWrite { reg: high, value: 0 });
    r.push(IoApicWrite { reg: low, value: vector as u32 });
    assert(r@ =~= seq![
        IoApicWrite { reg: (IOAPIC_REDIRECT + 2 * pin + 1) as u32, value: 0 },
        IoApicWrite { reg: (IOAPIC_REDIRECT + 2 * pin) as u32, value: vector as u32 },
    ]);
    r
}

/// Routes line `irq` to `vector` on the first I/O APIC that has an entry for
/// it: that controller's index and the writes to make through it.
pub fn remap_irq(state: &IoApicState, irq: u8, vector: u8) -> (r: Option<(usize, Vec<IoApicWrite>)>)
    ensures
        match r {
            Some((i, writes)) => 0 <= i < state.ioapics@.len()
                && (irq as int) < state.ioapics@[i as int].max_redirections
                && (forall|j: int| 0 <= j < i ==> (irq as int) >= #[trigger] state.ioapics@[j].max_redirections)
                && writes@ == seq![
                    IoApicWrite { reg: (IOAPIC_REDIRECT + 2 * irq + 1) as u32, value: 0 },
                    IoApicWrite { reg: (IOAPIC_REDIRECT + 2 * irq) as u32, value: vector as u32 },
                ],
            None => forall|j: int| 0 <= j < state.ioapics@.len() ==> (irq as int) >= #[trigger] state.ioapics@[j].max_redirections,
        },
{
    let mut idx: usize = 0;
    while idx < state.ioapics.len()
        invariant
            0 <= idx <= state.ioapics@.len(),
            forall|j: int| 0 <= j < idx ==> (irq as int) >= #[trigger] state.ioapics@[j].max_redirections,
        decreases state.ioapics@.len() - idx,
    {
        if (irq as u32) < state.ioapics[idx].max_redirections as u32 {
            return Some((idx, set_redirection(irq, vector)));
        }
        idx = idx + 1;
    }
    None
}

} // verus!
