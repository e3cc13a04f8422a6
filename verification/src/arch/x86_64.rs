//! x86-64: segment and interrupt descriptors, APIC programming, SMP
//! bring-up, system-call MSRs and the CMOS clock.

pub mod context;
pub mod cpu;
pub mod features;
pub mod gdt;
pub mod idt;
pub mod interrupts;
pub mod ioapic;
pub mod lapic;
pub mod pic;
pub mod rtc;
pub mod smp;
pub mod syscall;
pub mod trampoline;
pub mod tss;
pub mod xsave;
