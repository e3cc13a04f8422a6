//! SMP bring-up bookkeeping: the CPU table built from the MADT (or the
//! bootloader's CPU list) and the online state of each CPU.

use vstd::prelude::*;
use crate::acpi::madt::LocalApicEntry;

verus! {

pub const MAX_CPUS: usize = 256;
pub const TRAMPOLINE_PHYS: u64 = 0x1000;
/// The startup IPI vector: the trampoline's page number.
pub const TRAMPOLINE_SIPI_VECTOR: u8 = 1;

#[derive(Clone, Copy, Debug, PartialEq, Eq, Structural)]
pub struct CpuRecord {
    pub lapic_id: u32,
    pub processor_id: u32,
    pub cpu_index: u32,
    pub online: bool,
}

/// A CPU as the bootloader lists it.
#[derive(Clone, Copy, Debug, PartialEq, Eq, Structural)]
pub struct LimineCpu {
    pub processor_id: u32,
    pub lapic_id: u32,
}

/// The bootloader's SMP answer: the boot CPU's APIC id and the CPUs.
pub struct LimineSmp {
    pub bsp_lapic_id: u32,
    pub cpus: Vec<LimineCpu>,
}

pub struct SmpState {
    pub table: Vec<Option<CpuRecord>>,
    pub cpu_count: u32,
    pub online_count: u32,
    pub bsp_lapic: u32,
    pub current_cpu: u32,
    pub ready: bool,
}

impl SmpState {
    pub open spec fn wf(&self) -> bool {
        self.table@.len() == MAX_CPUS && self.cpu_count <= MAX_CPUS
    }
}

/// The records the MADT gives: one per enabled local APIC, in order,
/// numbered from 0, at most 256; the boot CPU's is online.
pub open spec fn madt_records(lapics: Seq<LocalApicEntry>, bsp: u32) -> Seq<CpuRecord>
    decreases lapics.len(),
{
    if lapics.len() == 0 {
        Seq::empty()
    } else {
        let rest = madt_records(lapics.drop_last(), bsp);
        let l = lapics.last();
        if !l.enabled || rest.len() >= MAX_CPUS {
            rest
        } else {
            rest.push(CpuRecord {
                lapic_id: l.apic_id as u32,
                processor_id: l.processor_id as u32,
                cpu_index: rest.len() as u32,
                online: l.apic_id as u32 == bsp,
            })
        }
    }
}

/// The records the bootloader's list gives, at most 256.
pub open spec fn limine_records(cpus: Seq<LimineCpu>, bsp: u32) -> Seq<CpuRecord> {
    let n = if cpus.len() > MAX_CPUS { MAX_CPUS as int } else { cpus.len() as int };
    Seq::new(n as nat, |i: int| CpuRecord {
        lapic_id: cpus[i].lapic_id,
        processor_id: cpus[i].processor_id,
        cpu_index: i as u32,
        online: cpus[i].lapic_id == bsp,
    })
}

/// The CPUs the kernel brings up: from the MADT's enabled local APICs; when
/// there are none, from the bootloader's list; when that is empty too, the
/// boot CPU alone.
pub open spec fn spec_cpu_records(lapics: Option<Seq<LocalApicEntry>>, limine: Option<(u32, Seq<LimineCpu>)>, bsp: u32) -> Seq<CpuRecord> {
    let from_madt = match lapics { Some(l) => madt_records(l, bsp), None => Seq::empty() };
    if from_madt.len() > 0 {
        from_madt
    } else {
        let from_limine = match limine { Some((b, c)) => limine_records(c, b), None => Seq::empty() };
        if from_limine.len() > 0 {
            from_limine
        } else {
            seq![CpuRecord { lapic_id: bsp, processor_id: 0, cpu_index: 0, online: true }]
        }
    }
}

/// The boot CPU's APIC id after the table is built: the bootloader's SMP
/// answer replaces the one from its boot information when the list is used.
pub open spec fn spec_bsp_after(lapics: Option<Seq<LocalApicEntry>>, limine: Option<(u32, Seq<LimineCpu>)>, bsp: u32) -> u32 {
    let from_madt = match lapics { Some(l) => madt_records(l, bsp), None => Seq::empty() };
    if from_madt.len() == 0 && limine.is_some() { limine.unwrap().0 } else { bsp }
}

proof fn lemma_madt_records_shape(lapics: Seq<LocalApicEntry>, bsp: u32)
    ensures
        madt_records(lapics, bsp).len() <= MAX_CPUS,
        forall|i: int| 0 <= i < madt_records(lapics, bsp).len() ==> #[trigger] madt_records(lapics, bsp)[i].cpu_index == i,
    decreases lapics.len(),
{
    if lapics.len() > 0 {
        lemma_madt_records_shape(lapics.drop_last(), bsp);
    }
}

fn empty_table() -> (r: Vec<Option<CpuRecord>>)
    ensures
        r@.len() == MAX_CPUS,
        forall|i: int| 0 <= i < MAX_CPUS ==> #[trigger] r@[i].is_none(),
{
    let mut t: Vec<Option<CpuRecord>> = Vec::new();
    let mut i: usize = 0;
    while i < MAX_CPUS
        invariant
            0 <= i <= MAX_CPUS,
            t@.len() == i,
            forall|j: int| 0 <= j < i ==> #[trigger] t@[j].is_none(),
        decreases MAX_CPUS - i,
    {
        t.push(None);
        i = i + 1;
    }
    t
}

/// Builds the CPU table: the records of `spec_cpu_records` in slots
/// `0..count`, every other slot empty; one CPU online, not yet ready.
pub fn build_cpu_table(bsp_from_limine: u32, local_apics: Option<&[LocalApicEntry]>, limine: Option<&LimineSmp>) -> (r: SmpState)
    ensures
        r.wf(),
        ({
            let recs = spec_cpu_records(
                match local_apics { Some(l) => Some(l@), None => None },
                match limine { Some(s) => Some((s.bsp_lapic_id, s.cpus@)), None => None },
                bsp_from_limine,
            );
            &&& r.cpu_count == recs.len()
            &&& forall|i: int| 0 <= i < recs.len() ==> #[trigger] r.table@[i] == Some(recs[i])
            &&& forall|i: int| recs.len() <= i < MAX_CPUS ==> #[trigger] r.table@[i].is_none()
        }),
        r.bsp_lapic == spec_bsp_after(
            match local_apics { Some(l) => Some(l@), None => None },
            match limine { Some(s) => Some((s.bsp_lapic_id, s.cpus@)), None => None },
            bsp_from_limine,
        ),
        r.online_count == 1,
        r.current_cpu == 0,
        !r.ready,
{
    let mut table = empty_table();
    let mut bsp = bsp_from_limine;
    let mut index: usize = 0;
    let ghost lap: Seq<LocalApicEntry> = match local_apics { Some(l) => l@, None => Seq::empty() };
    if let Some(lapics) = local_apics {
        let mut i: usize = 0;
        while i < lapics.len()
            invariant
                0 <= i <= lapics@.len(),
                table@.len() == MAX_CPUS,
                index == madt_records(lapics@.subrange(0, i as int), bsp_from_limine).len(),
                index <= MAX_CPUS,
                forall|j: int| 0 <= j < index ==> #[trigger] table@[j] == Some(madt_records(lapics@.subrange(0, i as int), bsp_from_limine)[j]),
                forall|j: int| index <= j < MAX_CPUS ==> #[trigger] table@[j].is_none(),
            decreases lapics@.len() - i,
        {
            let l = lapics[i];
            assert(lapics@.subrange(0, i + 1).drop_last() =~= lapics@.subrange(0, i as int));
            proof {
                lemma_madt_records_shape(lapics@.subrange(0, i as int), bsp_from_limine);
            }
            if l.enabled && index < MAX_CPUS {
                table.set(index, Some(CpuRecord {
                    lapic_id: l.apic_id as u32,
                    processor_id: l.processor_id as u32,
                    cpu_index: index as u32,
                    online: l.apic_id as u32 == bsp_from_limine,
                }));
                index = index + 1;
            }
            i = i + 1;
        }
        assert(lapics@.subrange(0, lapics@.len() as int) =~= lapics@);
    }
    if index == 0 {
        if let Some(smp) = limine {
            bsp = smp.bsp_lapic_id;
            let mut i: usize = 0;
            while i < smp.cpus.len() && i < MAX_CPUS
                invariant
                    0 <= i <= MAX_CPUS,
                    i <= smp.cpus@.len(),
                    table@.len() == MAX_CPUS,
                    index == i,
                    forall|j: int| 0 <= j < i ==> #[trigger] table@[j] == Some(limine_records(smp.cpus@, smp.bsp_lapic_id)[j]),
                    forall|j: int| i <= j < MAX_CPUS ==> #[trigger] table@[j].is_none(),
                decreases MAX_CPUS - i,
            {
                let c = smp.cpus[i];
                table.set(i, Some(CpuRecord {
                    lapic_id: c.lapic_id,
                    processor_id: c.processor_id,
                    cpu_index: i as u32,
                    online: c.lapic_id == smp.bsp_lapic_id,
                }));
                i = i + 1;
                index = i;
            }
        }
    }
    if index == 0 {
        table.set(0, Some(CpuRecord { lapic_id: bsp_from_limine, processor_id: 0, cpu_index: 0, online: true }));
        index = 1;
    }
    SmpState { table, cpu_count: index as u32, online_count: 1, bsp_lapic: bsp, current_cpu: 0, ready: false }
}

pub fn bsp_lapic_id(state: &SmpState) -> (r: u32)
    ensures
        r == state.bsp_lapic,
{
    state.bsp_lapic
}

pub fn current_cpu_index(state: &SmpState) -> (r: u32)
    ensures
        r == state.current_cpu,
{
    state.current_cpu
}

/// The number of CPUs, at least one.
pub fn cpu_count(state: &SmpState) -> (r: u32)
    ensures
        r == (if state.cpu_count >= 1 { state.cpu_count } else { 1 }),
        r >= 1,
{
    if state.cpu_count >= 1 { state.cpu_count } else { 1 }
}

pub fn cpu_online(state: &SmpState, cpu_index: u32) -> (r: bool)
    requires
        state.wf(),
        cpu_index < MAX_CPUS,
    ensures
        r == (match state.table@[cpu_index as int] { Some(rec) => rec.online, None => false }),
{
    match state.table[cpu_index as usize] {
        Some(rec) => rec.online,
        None => false,
    }
}

/// A slot holding a CPU other than the boot CPU.
pub open spec fn is_ap_slot(slot: Option<CpuRecord>, bsp: u32) -> bool {
    slot matches Some(rec) && rec.lapic_id != bsp
}

/// Marks the table ready and picks the application processors to wake: the
/// records of slots `0..count` other than the boot CPU's, in order. The
/// current CPU becomes the boot CPU's index.
pub fn bootstrap_application_processors(state: &mut SmpState) -> (r: Vec<CpuRecord>)
    requires
        old(state).wf(),
    ensures
        final(state).wf(),
        final(state).ready,
        final(state).table == old(state).table,
        final(state).cpu_count == old(state).cpu_count,
        final(state).online_count == old(state).online_count,
        final(state).bsp_lapic == old(state).bsp_lapic,
        forall|k: int| 0 <= k < r@.len() ==> #[trigger] r@[k].lapic_id != old(state).bsp_lapic
            && exists|i: int| 0 <= i < old(state).cpu_count && old(state).table@[i] == Some(#[trigger] r@[k]),
        forall|i: int| 0 <= i < old(state).cpu_count && is_ap_slot(#[trigger] old(state).table@[i], old(state).bsp_lapic)
            ==> r@.contains(old(state).table@[i].unwrap()),
{
    state.ready = true;
    let mut aps: Vec<CpuRecord> = Vec::new();
    let count = state.cpu_count as usize;
    let bsp = state.bsp_lapic;
    let mut idx: usize = 0;
    while idx < count
        invariant
            0 <= idx <= count,
            count == state.cpu_count,
            count <= MAX_CPUS,
            state.table@.len() == MAX_CPUS,
            state.table == old(state).table,
            state.cpu_count == old(state).cpu_count,
            state.online_count == old(state).online_count,
            state.bsp_lapic == old(state).bsp_lapic,
            bsp == state.bsp_lapic,
            state.ready,
            forall|k: int| 0 <= k < aps@.len() ==> #[trigger] aps@[k].lapic_id != bsp
                && exists|i: int| 0 <= i < count && state.table@[i] == Some(#[trigger] aps@[k]),
            forall|i: int| 0 <= i < idx && is_ap_slot(#[trigger] state.table@[i], bsp)
                ==> aps@.contains(state.table@[i].unwrap()),
        decreases count - idx,
    {
        match state.table[idx] {
            Some(record) => {
                if record.lapic_id == bsp {
                    state.current_cpu = record.cpu_index;
                } else {
                    let ghost before = aps@;
                    aps.push(record);
                    assert(aps@[aps@.len() - 1] == record);
                    assert forall|i: int| 0 <= i < idx + 1 && is_ap_slot(#[trigger] state.table@[i], bsp)
                        implies aps@.contains(state.table@[i].unwrap()) by {
                        if i < idx {
                            if let Some(rec) = state.table@[i] {
                                if rec.lapic_id != bsp {
                                    let k = choose|k: int| 0 <= k < before.len() && before[k] == rec;
                                    assert(aps@[k] == rec);
                                }
                            }
                        } else {
                            assert(aps@[aps@.len() - 1] == record);
                        }
                    }
                    assert forall|k: int| 0 <= k < aps@.len() implies #[trigger] aps@[k].lapic_id != bsp
                        && exists|i: int| 0 <= i < count && state.table@[i] == Some(#[trigger] aps@[k]) by {
                        if k < before.len() {
                            assert(aps@[k] == before[k]);
                        } else {
                            assert(state.table@[idx as int] == Some(aps@[k]));
                        }
                    }
                }
            },
            None => {},
        }
        idx = idx + 1;
    }
    aps
}

/// An application processor reports in: it becomes the current CPU, its
/// record is marked online and the online count goes up by one.
pub fn mark_ap_online(state: &mut SmpState, cpu_index: u32)
    requires
        old(state).wf(),
        cpu_index < MAX_CPUS,
    ensures
        final(state).wf(),
        final(state).current_cpu == cpu_index,
        final(state).online_count == old(state).online_count.wrapping_add(1),
        final(state).table@ == (match old(state).table@[cpu_index as int] {
            Some(rec) => old(state).table@.update(cpu_index as int, Some(CpuRecord { online: true, ..rec })),
            None => old(state).table@,
        }),
        final(state).cpu_count == old(state).cpu_count,
        final(state).bsp_lapic == old(state).bsp_lapic,
        final(state).ready == old(state).ready,
{
    state.current_cpu = cpu_index;
    match state.table[cpu_index as usize] {
        Some(rec) => {
            state.table.set(cpu_index as usize, Some(CpuRecord { online: true, ..rec }));
        },
        None => {},
    }
    state.online_count = state.online_count.wrapping_add(1);
}

} // verus!
