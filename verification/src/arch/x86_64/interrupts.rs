//! Interrupt frames, IRQ handler dispatch and exception names.

use vstd::prelude::*;
use vstd::string::StringSliceAdditionalSpecFns;
use crate::bytes::append_slice;
use crate::text::{dec_u64, hex_u64, hex16, spec_dec, spec_hex, spec_hex_min};

verus! {

/// External interrupts start at this vector.
pub const IRQ_BASE: u8 = 32;
/// Handler slots for vectors 32 through 255.
pub const IRQ_SLOTS: usize = 224;

/// Register frame pushed by the interrupt stub.
#[derive(Clone, Copy, Debug, PartialEq, Eq, Structural)]
pub struct InterruptFrame {
    pub r15: u64,
    pub r14: u64,
    pub r13: u64,
    pub r12: u64,
    pub r11: u64,
    pub r10: u64,
    pub r9: u64,
    pub r8: u64,
    pub rdi: u64,
    pub rsi: u64,
    pub rbp: u64,
    pub rbx: u64,
    pub rdx: u64,
    pub rcx: u64,
    pub rax: u64,
    pub vector: u64,
    pub error_code: u64,
    pub rip: u64,
    pub cs: u64,
    pub rflags: u64,
    pub rsp: u64,
    pub ss: u64,
}

/// Handlers for the external interrupt lines, one slot per line.
pub struct IrqTable<H> {
    handlers: Vec<Option<H>>,
}

impl<H: Copy> IrqTable<H> {
    pub closed spec fn slots(&self) -> Seq<Option<H>> {
        self.handlers@
    }

    pub open spec fn wf(&self) -> bool {
        self.slots().len() == IRQ_SLOTS
    }

    pub fn new() -> (r: Self)
        ensures
            r.wf(),
            forall|i: int| 0 <= i < IRQ_SLOTS ==> #[trigger] r.slots()[i].is_none(),
    {
        let mut handlers: Vec<Option<H>> = Vec::new();
        let mut i: usize = 0;
        while i < IRQ_SLOTS
            invariant
                0 <= i <= IRQ_SLOTS,
                handlers@.len() == i,
                forall|j: int| 0 <= j < i ==> #[trigger] handlers@[j].is_none(),
            decreases IRQ_SLOTS - i,
        {
            handlers.push(None);
            i = i + 1;
        }
        IrqTable { handlers }
    }
}

/// The low byte of a frame's vector, as the dispatcher reads it.
pub open spec fn frame_vector(frame: InterruptFrame) -> u8 {
    (frame.vector % 256) as u8
}

/// Installs `handler` for line `irq`.
pub fn register_irq_handler<H: Copy>(table: &mut IrqTable<H>, irq: u8, handler: H)
    requires
        old(table).wf(),
        irq < IRQ_SLOTS,
    ensures
        final(table).wf(),
        final(table).slots() == old(table).slots().update(irq as int, Some(handler)),
{
    table.handlers.set(irq as usize, Some(handler));
}

/// One step of answering an external interrupt.
#[derive(Clone, Copy, Debug, PartialEq, Eq)]
pub enum IrqStep<H> {
    /// Run the handler registered for the line.
    Run(H),
    /// Signal end-of-interrupt to the local APIC.
    EndOfInterrupt,
}

/// The handler registered for the line of `vector`: line `vector - 32`,
/// none below vector 32.
pub open spec fn irq_handler<H>(slots: Seq<Option<H>>, vector: u8) -> Option<H> {
    if vector >= IRQ_BASE { slots[vector - IRQ_BASE] } else { None }
}

/// The steps that answer an interrupt at `vector`: the line's handler, when
/// one is registered, then the end-of-interrupt.
pub open spec fn irq_steps<H>(slots: Seq<Option<H>>, vector: u8) -> Seq<IrqStep<H>> {
    match irq_handler(slots, vector) {
        Some(h) => seq![IrqStep::Run(h), IrqStep::EndOfInterrupt],
        None => seq![IrqStep::EndOfInterrupt],
    }
}

/// Every interrupt is answered by exactly one end-of-interrupt, as the last
/// step; before it, the line's registered handler runs once, and no handler
/// runs when none is registered (or below vector 32).
pub proof fn lemma_irq_steps<H>(slots: Seq<Option<H>>, vector: u8)
    ensures
        ({
            let s = irq_steps(slots, vector);
            &&& s.len() >= 1
            &&& s.last() == IrqStep::<H>::EndOfInterrupt
            &&& forall|i: int| 0 <= i < s.len() - 1 ==> (#[trigger] s[i]) is Run
            &&& match irq_handler(slots, vector) {
                Some(h) => s.len() == 2 && s[0] == IrqStep::Run(h),
                None => s.len() == 1,
            }
        }),
{
}

/// The steps for the frame's vector: the handler registered for line
/// `vector - 32`, if any, then the local APIC's end-of-interrupt, which is
/// sent in every case.
pub fn handle_irq<H: Copy>(table: &IrqTable<H>, frame: &InterruptFrame) -> (r: Vec<IrqStep<H>>)
    requires
        table.wf(),
    ensures
        r@ == irq_steps(table.slots(), frame_vector(*frame)),
{
    let vector = (frame.vector % 256) as u8;
    let mut steps: Vec<IrqStep<H>> = Vec::new();
    if vector >= IRQ_BASE {
        let irq = vector - IRQ_BASE;
        if (irq as usize) < IRQ_SLOTS {
            if let Some(h) = table.handlers[irq as usize] {
                steps.push(IrqStep::Run(h));
            }
        }
    }
    steps.push(IrqStep::EndOfInterrupt);
    proof {
        assert(steps@ =~= irq_steps(table.slots(), frame_vector(*frame)));
    }
    steps
}

/// Whether a vector is a processor exception rather than an external interrupt.
pub fn is_exception(vector: u8) -> (r: bool)
    ensures
        r == (vector < IRQ_BASE),
{
    vector < IRQ_BASE
}

pub open spec fn spec_exception_name(vector: u8) -> &'static str {
    if vector == 0 {
        "Divide Error"
    } else if vector == 1 {
        "Debug"
    } else if vector == 2 {
        "NMI"
    } else if vector == 3 {
        "Breakpoint"
    } else if vector == 4 {
        "Overflow"
    } else if vector == 5 {
        "Bound Range"
    } else if vector == 6 {
        "Invalid Opcode"
    } else if vector == 7 {
        "Device Not Available"
    } else if vector == 8 {
        "Double Fault"
    } else if vector == 9 {
        "Coprocessor Segment Overrun"
    } else if vector == 10 {
        "Invalid TSS"
    } else if vector == 11 {
        "Segment Not Present"
    } else if vector == 12 {
        "Stack-Segment Fault"
    } else if vector == 13 {
        "General Protection Fault"
    } else if vector == 14 {
        "Page Fault"
    } else if vector == 15 {
        "Reserved"
    } else if vector == 16 {
        "x87 FP Exception"
    } else if vector == 17 {
        "Alignment Check"
    } else if vector == 18 {
        "Machine Check"
    } else if vector == 19 {
        "SIMD FP Exception"
    } else if vector == 20 {
        "Virtualization Exception"
    } else if vector == 21 {
        "Control Protection Exception"
    } else {
        "Reserved/Exception"
    }
}

/// The architectural name of an exception vector.
pub fn exception_name(vector: u8) -> (r: &'static str)
    ensures
        r == spec_exception_name(vector),
{
    match vector {
        0 => "Divide Error",
        1 => "Debug",
        2 => "NMI",
        3 => "Breakpoint",
        4 => "Overflow",
        5 => "Bound Range",
        6 => "Invalid Opcode",
        7 => "Device Not Available",
        8 => "Double Fault",
        9 => "Coprocessor Segment Overrun",
        10 => "Invalid TSS",
        11 => "Segment Not Present",
        12 => "Stack-Segment Fault",
        13 => "General Protection Fault",
        14 => "Page Fault",
        15 => "Reserved",
        16 => "x87 FP Exception",
        17 => "Alignment Check",
        18 => "Machine Check",
        19 => "SIMD FP Exception",
        20 => "Virtualization Exception",
        21 => "Control Protection Exception",
        _ => "Reserved/Exception",
    }
}


/// What to do about a processor exception.
pub enum ExceptionOutcome {
    /// A page fault: the fault handler decides, from the error code.
    PageFault { error_code: u64 },
    /// Any other exception: print the report, then halt.
    Fatal { report: Vec<u8> },
}

/// The report printed for a fatal exception: the vector with its name, the
/// error code, and RIP, CR2 and CR3 as 16 hex digits.
pub open spec fn spec_exception_report(vector: u8, error_code: u64, rip: u64, cr2: u64, cr3: u64) -> Seq<u8> {
    "\n=== CPU EXCEPTION ===\nVector: ".spec_bytes() + spec_dec(vector as nat) + " (".spec_bytes()
        + spec_exception_name(vector).spec_bytes() + ")\nError code: 0x".spec_bytes() + spec_hex_min(error_code as nat)
        + "\nRIP: 0x".spec_bytes() + spec_hex(rip as nat, 16) + "\nCR2: 0x".spec_bytes() + spec_hex(cr2 as nat, 16)
        + "\nCR3: 0x".spec_bytes() + spec_hex(cr3 as nat, 16) + "\n".spec_bytes()
}

/// The vector of an exception frame: page faults go to the fault handler,
/// anything else is reported (with the faulting address `cr2` and the page
/// table root `cr3` read at the time) before the CPU halts.
pub fn handle_exception(frame: &InterruptFrame, cr2: u64, cr3: u64) -> (r: ExceptionOutcome)
    ensures
        frame_vector(*frame) == 14 ==> r == (ExceptionOutcome::PageFault { error_code: frame.error_code }),
        frame_vector(*frame) != 14 ==> (r matches ExceptionOutcome::Fatal { report }
            && report@ == spec_exception_report(frame_vector(*frame), frame.error_code, frame.rip, cr2, cr3)),
{
    let vector = (frame.vector % 256) as u8;
    if vector == 14 {
        return ExceptionOutcome::PageFault { error_code: frame.error_code };
    }
    let mut out: Vec<u8> = Vec::new();
    append_slice(&mut out, "\n=== CPU EXCEPTION ===\nVector: ".as_bytes());
    let v = dec_u64(vector as u64);
    append_slice(&mut out, v.as_slice());
    append_slice(&mut out, " (".as_bytes());
    append_slice(&mut out, exception_name(vector).as_bytes());
    append_slice(&mut out, ")\nError code: 0x".as_bytes());
    let e = hex_u64(frame.error_code);
    append_slice(&mut out, e.as_slice());
    append_slice(&mut out, "\nRIP: 0x".as_bytes());
    let h = hex16(frame.rip);
    append_slice(&mut out, h.as_slice());
    append_slice(&mut out, "\nCR2: 0x".as_bytes());
    let h = hex16(cr2);
    append_slice(&mut out, h.as_slice());
    append_slice(&mut out, "\nCR3: 0x".as_bytes());
    let h = hex16(cr3);
    append_slice(&mut out, h.as_slice());
    append_slice(&mut out, "\n".as_bytes());
    ExceptionOutcome::Fatal { report: out }
}

} // verus!
