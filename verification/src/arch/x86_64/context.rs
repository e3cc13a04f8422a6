//! Saved CPU register context and the interrupt-return frames built from it.

use vstd::prelude::*;
use crate::arch::x86_64::gdt::{SEL_KERNEL_CODE, SEL_KERNEL_DATA, SEL_USER_CODE, SEL_USER_DATA};
use crate::arch::x86_64::interrupts::InterruptFrame;

verus! {

/// RFLAGS with interrupts enabled and the reserved bit 1 set.
pub const RFLAGS_IF: u64 = 0x202;

#[derive(Clone, Copy, Debug, PartialEq, Eq, Structural)]
pub struct CpuContext {
    pub r15: u64,
    pub r14: u64,
    pub r13: u64,
    pub r12: u64,
    pub r11: u64,
    pub r10: u64,
    pub r9: u64,
    pub r8: u64,
    pub rdi: u64,
    pub rsi: u64,
    pub rbp: u64,
    pub rbx: u64,
    pub rdx: u64,
    pub rcx: u64,
    pub rax: u64,
    pub rip: u64,
    pub cs: u64,
    pub rflags: u64,
    pub rsp: u64,
    pub ss: u64,
}

/// The context holds exactly the registers of the frame.
pub open spec fn same_registers(c: CpuContext, f: InterruptFrame) -> bool {
    &&& c.r15 == f.r15 && c.r14 == f.r14 && c.r13 == f.r13 && c.r12 == f.r12
    &&& c.r11 == f.r11 && c.r10 == f.r10 && c.r9 == f.r9 && c.r8 == f.r8
    &&& c.rdi == f.rdi && c.rsi == f.rsi && c.rbp == f.rbp && c.rbx == f.rbx
    &&& c.rdx == f.rdx && c.rcx == f.rcx && c.rax == f.rax
    &&& c.rip == f.rip && c.cs == f.cs && c.rflags == f.rflags && c.rsp == f.rsp && c.ss == f.ss
}

/// All general registers zero, kernel segments, interrupts enabled.
pub open spec fn spec_empty() -> CpuContext {
    CpuContext {
        r15: 0,
        r14: 0,
        r13: 0,
        r12: 0,
        r11: 0,
        r10: 0,
        r9: 0,
        r8: 0,
        rdi: 0,
        rsi: 0,
        rbp: 0,
        rbx: 0,
        rdx: 0,
        rcx: 0,
        rax: 0,
        rip: 0,
        cs: SEL_KERNEL_CODE as u64,
        rflags: RFLAGS_IF,
        rsp: 0,
        ss: SEL_KERNEL_DATA as u64,
    }
}

impl CpuContext {
    pub fn empty() -> (r: Self)
        ensures
            r == spec_empty(),
    {
        CpuContext {
            r15: 0,
            r14: 0,
            r13: 0,
            r12: 0,
            r11: 0,
            r10: 0,
            r9: 0,
            r8: 0,
            rdi: 0,
            rsi: 0,
            rbp: 0,
            rbx: 0,
            rdx: 0,
            rcx: 0,
            rax: 0,
            rip: 0,
            cs: SEL_KERNEL_CODE as u64,
            rflags: RFLAGS_IF,
            rsp: 0,
            ss: SEL_KERNEL_DATA as u64,
        }
    }

    pub fn from_interrupt(frame: &InterruptFrame) -> (r: Self)
        ensures
            same_registers(r, *frame),
    {
        CpuContext {
            r15: frame.r15,
            r14: frame.r14,
            r13: frame.r13,
            r12: frame.r12,
            r11: frame.r11,
            r10: frame.r10,
            r9: frame.r9,
            r8: frame.r8,
            rdi: frame.rdi,
            rsi: frame.rsi,
            rbp: frame.rbp,
            rbx: frame.rbx,
            rdx: frame.rdx,
            rcx: frame.rcx,
            rax: frame.rax,
            rip: frame.rip,
            cs: frame.cs,
            rflags: frame.rflags,
            rsp: frame.rsp,
            ss: frame.ss,
        }
    }

    /// Overwrites the frame's registers with this context; the vector and
    /// error code stay as they were.
    pub fn write_interrupt(&self, frame: &mut InterruptFrame)
        ensures
            same_registers(*self, *final(frame)),
            final(frame).vector == old(frame).vector,
            final(frame).error_code == old(frame).error_code,
    {
        frame.r15 = self.r15;
        frame.r14 = self.r14;
        frame.r13 = self.r13;
        frame.r12 = self.r12;
        frame.r11 = self.r11;
        frame.r10 = self.r10;
        frame.r9 = self.r9;
        frame.r8 = self.r8;
        frame.rdi = self.rdi;
        frame.rsi = self.rsi;
        frame.rbp = self.rbp;
        frame.rbx = self.rbx;
        frame.rdx = self.rdx;
        frame.rcx = self.rcx;
        frame.rax = self.rax;
        frame.rip = self.rip;
        frame.cs = self.cs;
        frame.rflags = self.rflags;
        frame.rsp = self.rsp;
        frame.ss = self.ss;
    }

    /// A kernel thread that starts at `entry` on the stack ending at `stack_top`.
    pub fn init_kernel_thread(stack_top: u64, entry: u64) -> (r: Self)
        ensures
            r == (CpuContext { rsp: stack_top, rip: entry, ..spec_empty() }),
    {
        let mut ctx = Self::empty();
        ctx.rsp = stack_top;
        ctx.rip = entry;
        ctx.cs = SEL_KERNEL_CODE as u64;
        ctx.ss = SEL_KERNEL_DATA as u64;
        ctx.rflags = RFLAGS_IF;
        ctx
    }

    /// A user thread entered in ring 3 at `entry` with stack `user_stack`.
    pub fn init_user_thread(user_stack: u64, entry: u64) -> (r: Self)
        ensures
            r == (CpuContext {
                rsp: user_stack,
                rip: entry,
                cs: SEL_USER_CODE as u64,
                ss: SEL_USER_DATA as u64,
                ..spec_empty()
            }),
    {
        let mut ctx = Self::empty();
        ctx.rsp = user_stack;
        ctx.rip = entry;
        ctx.cs = SEL_USER_CODE as u64;
        ctx.ss = SEL_USER_DATA as u64;
        ctx.rflags = RFLAGS_IF;
        ctx
    }
}

/// Saving the registers of a frame and writing them back gives the frame's
/// registers again.
pub proof fn lemma_save_restore(c: CpuContext, f: InterruptFrame, g: InterruptFrame)
    requires
        same_registers(c, f),
        same_registers(c, g),
    ensures
        g.r15 == f.r15 && g.rax == f.rax && g.rip == f.rip && g.rsp == f.rsp && g.rflags == f.rflags
            && g.cs == f.cs && g.ss == f.ss,
{
}


/// The general-purpose part of saving a thread on interrupt: the context
/// takes the frame's registers. (The extended FPU/SIMD state is saved by the
/// caller with `xsave`.)
pub fn save_thread_context(ctx: &mut CpuContext, frame: &InterruptFrame)
    ensures
        same_registers(*final(ctx), *frame),
{
    *ctx = CpuContext::from_interrupt(frame);
}

/// The general-purpose part of resuming a thread: the frame that `iretq`
/// returns through takes the context's registers; the vector and error code
/// stay. (The extended state is restored by the caller with `xrstor`.)
pub fn restore_thread_context(ctx: &CpuContext, frame: &mut InterruptFrame)
    ensures
        same_registers(*ctx, *final(frame)),
        final(frame).vector == old(frame).vector,
        final(frame).error_code == old(frame).error_code,
{
    ctx.write_interrupt(frame);
}

} // verus!
