//! Interrupt descriptor table: one gate per vector.

use vstd::prelude::*;
use crate::arch::x86_64::gdt::SEL_KERNEL_CODE;
use crate::arch::x86_64::interrupts::{
    frame_vector, handle_exception, handle_irq, irq_steps, spec_exception_report, ExceptionOutcome, InterruptFrame,
    IrqStep, IrqTable,
};

verus! {

pub const GATE_INTERRUPT: u8 = 0x8E;
pub const GATE_TRAP: u8 = 0x8F;
pub const IDT_ENTRIES: usize = 256;

#[derive(Clone, Copy, Debug, PartialEq, Eq, Structural)]
pub struct IdtEntry {
    pub offset_low: u16,
    pub selector: u16,
    pub ist: u8,
    pub type_attr: u8,
    pub offset_mid: u16,
    pub offset_high: u32,
    pub zero: u32,
}

/// The IDT descriptor that routes a vector to `handler` on the kernel code segment.
pub open spec fn spec_gate(handler: u64, ist: u8, trap: bool) -> IdtEntry {
    IdtEntry {
        offset_low: handler as u16,
        selector: SEL_KERNEL_CODE,
        ist,
        type_attr: if trap { GATE_TRAP } else { GATE_INTERRUPT },
        offset_mid: (handler >> 16) as u16,
        offset_high: (handler >> 32) as u32,
        zero: 0,
    }
}

/// The gates `init` installs: double fault (8) on interrupt stack 1, debug
/// (1) and breakpoint (3) as trap gates, all others as interrupt gates.
pub open spec fn spec_vector_gate(vector: int, handler: u64) -> IdtEntry {
    spec_gate(handler, if vector == 8 { 1 } else { 0 }, vector == 1 || vector == 3)
}

pub fn set_gate(idt: &mut Vec<IdtEntry>, vector: u8, handler: u64, ist: u8, trap: bool)
    requires
        old(idt)@.len() == IDT_ENTRIES,
    ensures
        final(idt)@ == old(idt)@.update(vector as int, spec_gate(handler, ist, trap)),
{
    idt.set(
        vector as usize,
        IdtEntry {
            offset_low: handler as u16,
            selector: SEL_KERNEL_CODE,
            ist,
            type_attr: if trap { GATE_TRAP } else { GATE_INTERRUPT },
            offset_mid: (handler >> 16) as u16,
            offset_high: (handler >> 32) as u32,
            zero: 0,
        },
    );
}

/// The table for the stubs at `vector_table[v]`, one gate per vector.
pub fn init(vector_table: &[u64]) -> (r: Vec<IdtEntry>)
    requires
        vector_table@.len() == IDT_ENTRIES,
    ensures
        r@.len() == IDT_ENTRIES,
        forall|v: int| 0 <= v < IDT_ENTRIES ==> #[trigger] r@[v] == spec_vector_gate(v, vector_table@[v]),
{
    let mut idt: Vec<IdtEntry> = Vec::new();
    let mut i: usize = 0;
    while i < IDT_ENTRIES
        invariant
            0 <= i <= IDT_ENTRIES,
            idt@.len() == i,
        decreases IDT_ENTRIES - i,
    {
        idt.push(IdtEntry { offset_low: 0, selector: 0, ist: 0, type_attr: 0, offset_mid: 0, offset_high: 0, zero: 0 });
        i = i + 1;
    }
    let mut vector: usize = 0;
    while vector < IDT_ENTRIES
        invariant
            0 <= vector <= IDT_ENTRIES,
            vector_table@.len() == IDT_ENTRIES,
            idt@.len() == IDT_ENTRIES,
            forall|v: int| 0 <= v < vector ==> #[trigger] idt@[v] == spec_vector_gate(v, vector_table@[v]),
        decreases IDT_ENTRIES - vector,
    {
        let ist: u8 = if vector == 8 { 1 } else { 0 };
        let trap = vector == 1 || vector == 3;
        set_gate(&mut idt, vector as u8, vector_table[vector], ist, trap);
        vector = vector + 1;
    }
    idt
}

/// A gate's three offset fields put back together give the handler address.
pub proof fn lemma_gate_offset(handler: u64, ist: u8, trap: bool)
    ensures
        ({
            let g = spec_gate(handler, ist, trap);
            (g.offset_low as u64) | ((g.offset_mid as u64) << 16) | ((g.offset_high as u64) << 32) == handler
        }),
{
    assert(((handler as u16) as u64) | ((((handler >> 16) as u16) as u64) << 16)
        | ((((handler >> 32) as u32) as u64) << 32) == handler) by (bit_vector);
}


/// Entry from the exception stubs: see `handle_exception`.
pub fn report_exception(frame: &InterruptFrame, cr2: u64, cr3: u64) -> (r: ExceptionOutcome)
    ensures
        frame_vector(*frame) == 14 ==> r == (ExceptionOutcome::PageFault { error_code: frame.error_code }),
        frame_vector(*frame) != 14 ==> (r matches ExceptionOutcome::Fatal { report }
            && report@ == spec_exception_report(frame_vector(*frame), frame.error_code, frame.rip, cr2, cr3)),
{
    handle_exception(frame, cr2, cr3)
}

/// Entry from the IRQ stubs: the steps that answer the frame's vector
/// (see `handle_irq`).
pub fn report_irq<H: Copy>(table: &IrqTable<H>, frame: &InterruptFrame) -> (r: Vec<IrqStep<H>>)
    requires
        table.wf(),
    ensures
        r@ == irq_steps(table.slots(), frame_vector(*frame)),
{
    handle_irq(table, frame)
}

} // verus!
