//! Task state segments: kernel entry stacks and the double-fault stack per CPU.

use vstd::prelude::*;
use crate::arch::x86_64::smp::MAX_CPUS;

verus! {

/// The segment's size in bytes minus one.
pub const TSS_LIMIT: u16 = 103;
/// Bytes of each kernel entry stack.
pub const KERNEL_STACK_SIZE: u64 = 16384;
/// Bytes of each double-fault stack.
pub const DF_STACK_SIZE: u64 = 8192;

#[derive(Clone, Copy, Debug, PartialEq, Eq, Structural)]
pub struct TaskStateSegment {
    pub rsp0: u64,
    pub rsp1: u64,
    pub rsp2: u64,
    pub ist1: u64,
    pub ist2: u64,
    pub ist3: u64,
    pub ist4: u64,
    pub ist5: u64,
    pub ist6: u64,
    pub ist7: u64,
    pub iomap_base: u16,
}

pub open spec fn zero_tss() -> TaskStateSegment {
    TaskStateSegment { rsp0: 0, rsp1: 0, rsp2: 0, ist1: 0, ist2: 0, ist3: 0, ist4: 0, ist5: 0, ist6: 0, ist7: 0, iomap_base: 0 }
}

impl TaskStateSegment {
    pub fn zeroed() -> (r: Self)
        ensures
            r == zero_tss(),
    {
        TaskStateSegment { rsp0: 0, rsp1: 0, rsp2: 0, ist1: 0, ist2: 0, ist3: 0, ist4: 0, ist5: 0, ist6: 0, ist7: 0, iomap_base: 0 }
    }

    /// Ready for use: no I/O permission map, the kernel stack for ring-0
    /// entry and interrupt stack 1 for double faults.
    pub fn init(&mut self, kernel_stack_top: u64, df_stack_top: u64)
        ensures
            *final(self) == (TaskStateSegment {
                iomap_base: (TSS_LIMIT + 1) as u16,
                rsp0: kernel_stack_top,
                ist1: df_stack_top,
                ..*old(self)
            }),
    {
        self.iomap_base = TSS_LIMIT + 1;
        self.rsp0 = kernel_stack_top;
        self.ist1 = df_stack_top;
    }
}

/// The boot CPU's segment and one per application processor.
pub struct TssTable {
    pub bsp: TaskStateSegment,
    pub aps: Vec<TaskStateSegment>,
}

impl TssTable {
    pub open spec fn wf(&self) -> bool {
        self.aps@.len() == MAX_CPUS
    }

    pub fn new() -> (r: Self)
        ensures
            r.wf(),
            r.bsp == zero_tss(),
            forall|i: int| 0 <= i < MAX_CPUS ==> #[trigger] r.aps@[i] == zero_tss(),
    {
        let mut aps: Vec<TaskStateSegment> = Vec::new();
        let mut i: usize = 0;
        while i < MAX_CPUS
            invariant
                0 <= i <= MAX_CPUS,
                aps@.len() == i,
                forall|j: int| 0 <= j < i ==> #[trigger] aps@[j] == zero_tss(),
            decreases MAX_CPUS - i,
        {
            aps.push(TaskStateSegment::zeroed());
            i = i + 1;
        }
        TssTable { bsp: TaskStateSegment::zeroed(), aps }
    }
}

pub fn init_bsp(table: &mut TssTable, kernel_stack_top: u64, df_stack_top: u64)
    ensures
        final(table).bsp == (TaskStateSegment {
            iomap_base: (TSS_LIMIT + 1) as u16,
            rsp0: kernel_stack_top,
            ist1: df_stack_top,
            ..old(table).bsp
        }),
        final(table).aps == old(table).aps,
{
    table.bsp.init(kernel_stack_top, df_stack_top);
}

pub fn init_ap(table: &mut TssTable, cpu_index: u32, kernel_stack_top: u64, df_stack_top: u64)
    requires
        old(table).wf(),
        cpu_index < MAX_CPUS,
    ensures
        final(table).wf(),
        final(table).bsp == old(table).bsp,
        final(table).aps@ == old(table).aps@.update(cpu_index as int, TaskStateSegment {
            iomap_base: (TSS_LIMIT + 1) as u16,
            rsp0: kernel_stack_top,
            ist1: df_stack_top,
            ..old(table).aps@[cpu_index as int]
        }),
{
    let idx = cpu_index as usize;
    let mut t = table.aps[idx];
    t.init(kernel_stack_top, df_stack_top);
    table.aps.set(idx, t);
}

/// Sets the ring-0 entry stack of a CPU: CPU 0 is the boot CPU; indices past
/// the table are ignored.
pub fn set_rsp0(table: &mut TssTable, cpu_index: u32, rsp0: u64)
    requires
        old(table).wf(),
    ensures
        final(table).wf(),
        cpu_index == 0 ==> final(table).bsp == (TaskStateSegment { rsp0, ..old(table).bsp }) && final(table).aps == old(table).aps,
        0 < cpu_index < MAX_CPUS ==> final(table).bsp == old(table).bsp
            && final(table).aps@ == old(table).aps@.update(cpu_index as int, TaskStateSegment { rsp0, ..old(table).aps@[cpu_index as int] }),
        cpu_index >= MAX_CPUS ==> final(table).bsp == old(table).bsp && final(table).aps == old(table).aps,
{
    if cpu_index == 0 {
        table.bsp.rsp0 = rsp0;
    } else {
        let idx = cpu_index as usize;
        if idx < MAX_CPUS {
            let mut t = table.aps[idx];
            t.rsp0 = rsp0;
            table.aps.set(idx, t);
        }
    }
}

/// Whether the canary word at the bottom of a kernel stack shows an
/// overflow: it is set and differs from the expected value.
pub fn stack_smashed(stack_bottom: u64, expected: u64) -> (r: bool)
    ensures
        r == (stack_bottom != 0 && stack_bottom != expected),
{
    stack_bottom != 0 && stack_bottom != expected
}

} // verus!
