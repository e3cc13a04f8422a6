//! SYSCALL/SYSRET setup: the MSR values and the per-CPU kernel stacks.

use vstd::prelude::*;
use crate::arch::x86_64::gdt::{kernel_code_selector, user_data_selector, SEL_KERNEL_CODE, SEL_KERNEL_DATA, SEL_USER_CODE, SEL_USER_DATA};

verus! {

pub const IA32_EFER: u32 = 0xC000_0080;
pub const IA32_STAR: u32 = 0xC000_0081;
pub const IA32_LSTAR: u32 = 0xC000_0082;
pub const IA32_FMASK: u32 = 0xC000_0084;
pub const EFER_SCE: u64 = 1;
/// RFLAGS.IF: interrupts stay masked on syscall entry.
pub const FMASK_IF: u64 = 0x200;
pub const MAX_KSTACKS: usize = 256;

/// Register frame saved on syscall entry.
#[derive(Clone, Copy, Debug, PartialEq, Eq, Structural)]
pub struct SyscallFrame {
    pub r15: u64,
    pub r14: u64,
    pub r13: u64,
    pub r12: u64,
    pub r11: u64,
    pub r10: u64,
    pub r9: u64,
    pub r8: u64,
    pub rbp: u64,
    pub rbx: u64,
    pub rdx: u64,
    pub rsi: u64,
    pub rdi: u64,
    pub rax: u64,
    pub user_rsp: u64,
    pub user_rflags: u64,
    pub user_rip: u64,
}

#[derive(Clone, Copy, Debug, PartialEq, Eq, Structural)]
pub struct MsrWrite {
    pub msr: u32,
    pub value: u64,
}

/// STAR: in bits 48..64 the SYSRET selector base, eight below the user data
/// selector (SYSRET to 64-bit mode loads SS from base + 8 and CS from
/// base + 16, both at RPL 3); in bits 32..48 the SYSCALL selector, the
/// kernel code selector (SYSCALL loads CS from it and SS eight above). Bits
/// 0..32 (the legacy entry point) stay zero.
pub open spec fn spec_star(kcs: u64, uds: u64) -> u64 {
    ((((uds & 0xFFFC) - 8) as u64) << 48) | ((kcs & 0xFFFC) << 32)
}

/// The MSR writes that enable SYSCALL: EFER.SCE, STAR, the entry point and
/// the flag mask.
pub fn init_msrs(efer: u64, syscall_entry: u64) -> (r: Vec<MsrWrite>)
    ensures
        r@ == seq![
            MsrWrite { msr: IA32_EFER, value: efer | EFER_SCE },
            MsrWrite { msr: IA32_STAR, value: spec_star(SEL_KERNEL_CODE as u64, SEL_USER_DATA as u64) },
            MsrWrite { msr: IA32_LSTAR, value: syscall_entry },
            MsrWrite { msr: IA32_FMASK, value: FMASK_IF },
        ],
{
    let kcs = kernel_code_selector() as u64;
    let uds = user_data_selector() as u64;
    assert(uds & 0xFFFC == 0x18) by (bit_vector)
        requires
            uds == 0x1B;
    let star = (((uds & 0xFFFC) - 8) << 48) | ((kcs & 0xFFFC) << 32);
    let mut r: Vec<MsrWrite> = Vec::new();
    r.push(MsrWrite { msr: IA32_EFER, value: efer | EFER_SCE });
    r.push(MsrWrite { msr: IA32_STAR, value: star });
    r.push(MsrWrite { msr: IA32_LSTAR, value: syscall_entry });
    r.push(MsrWrite { msr: IA32_FMASK, value: FMASK_IF });
    assert(r@ =~= seq![
        MsrWrite { msr: IA32_EFER, value: efer | EFER_SCE },
        MsrWrite { msr: IA32_STAR, value: spec_star(SEL_KERNEL_CODE as u64, SEL_USER_DATA as u64) },
        MsrWrite { msr: IA32_LSTAR, value: syscall_entry },
        MsrWrite { msr: IA32_FMASK, value: FMASK_IF },
    ]);
    r
}

/// With the boot GDT, STAR is 0x0010_0008_0000_0000: SYSCALL loads CS 0x08
/// (kernel code) and SS 0x10 (kernel data); SYSRET to 64-bit mode loads
/// CS 0x23 (user code) and SS 0x1B (user data).
pub proof fn lemma_star_selectors()
    ensures
        spec_star(SEL_KERNEL_CODE as u64, SEL_USER_DATA as u64) == 0x0010_0008_0000_0000u64,
        (spec_star(SEL_KERNEL_CODE as u64, SEL_USER_DATA as u64) >> 32) & 0xFFFF == SEL_KERNEL_CODE,
        ((spec_star(SEL_KERNEL_CODE as u64, SEL_USER_DATA as u64) >> 32) & 0xFFFF) + 8 == SEL_KERNEL_DATA,
        ((((spec_star(SEL_KERNEL_CODE as u64, SEL_USER_DATA as u64) >> 48) & 0xFFFF) + 16) as u64) | 3 == SEL_USER_CODE,
        ((((spec_star(SEL_KERNEL_CODE as u64, SEL_USER_DATA as u64) >> 48) & 0xFFFF) + 8) as u64) | 3 == SEL_USER_DATA,
{
    assert({
        &&& ((((0x1Bu64 & 0xFFFC) - 8) as u64) << 48) | ((0x08u64 & 0xFFFC) << 32) == 0x0010_0008_0000_0000u64
        &&& (0x0010_0008_0000_0000u64 >> 32) & 0xFFFF == 0x08
        &&& (0x0010_0008_0000_0000u64 >> 48) & 0xFFFF == 0x10
        &&& ((0x10u64 + 16) as u64) | 3 == 0x23
        &&& ((0x10u64 + 8) as u64) | 3 == 0x1B
    }) by (bit_vector);
}

/// The kernel stack top of each CPU, used on syscall entry.
pub struct KstackTable {
    tops: Vec<u64>,
}

impl KstackTable {
    pub closed spec fn view(&self) -> Seq<u64> {
        self.tops@
    }

    pub fn new() -> (r: Self)
        ensures
            r.view().len() == MAX_KSTACKS,
            forall|i: int| 0 <= i < MAX_KSTACKS ==> #[trigger] r.view()[i] == 0,
    {
        let mut tops: Vec<u64> = Vec::new();
        let mut i: usize = 0;
        while i < MAX_KSTACKS
            invariant
                0 <= i <= MAX_KSTACKS,
                tops@.len() == i,
                forall|j: int| 0 <= j < i ==> #[trigger] tops@[j] == 0,
            decreases MAX_KSTACKS - i,
        {
            tops.push(0);
            i = i + 1;
        }
        KstackTable { tops }
    }
}

pub fn set_kstack(table: &mut KstackTable, cpu: u32, top: u64)
    requires
        old(table).view().len() == MAX_KSTACKS,
        cpu < MAX_KSTACKS,
    ensures
        final(table).view() == old(table).view().update(cpu as int, top),
{
    table.tops.set(cpu as usize, top);
}

pub fn percpu_kstack(table: &KstackTable, cpu: usize) -> (r: u64)
    requires
        table.view().len() == MAX_KSTACKS,
        cpu < MAX_KSTACKS,
    ensures
        r == table.view()[cpu as int],
{
    table.tops[cpu]
}

} // verus!
