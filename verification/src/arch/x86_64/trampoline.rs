//! The AP bootstrap page copied to physical 0x1000 for INIT-SIPI-SIPI, with
//! the CR3, CPU index, APIC id and stack it is patched with.

use vstd::prelude::*;
use crate::bytes::{le16, le64, le_bytes16, le_bytes64, splice, u16_le_bytes, u64_le_bytes, write_bytes, lemma_le64_roundtrip, lemma_le16_roundtrip};

verus! {

pub const TRAMPOLINE_SIZE: usize = 4096;
pub const CR3_OFFSET: usize = 0x140;
pub const CPU_INDEX_OFFSET: usize = 0x148;
pub const LAPIC_ID_OFFSET: usize = 0x150;
pub const STACK_OFFSET: usize = 0x158;
pub const GDT_OFFSET: usize = 0x100;
pub const GDTR_OFFSET: usize = 0x130;

pub struct TrampolinePage {
    pub data: Vec<u8>,
}

impl TrampolinePage {
    pub open spec fn wf(&self) -> bool {
        self.data@.len() == TRAMPOLINE_SIZE
    }

    pub fn zeroed() -> (r: Self)
        ensures
            r.wf(),
            forall|i: int| 0 <= i < TRAMPOLINE_SIZE ==> #[trigger] r.data@[i] == 0,
    {
        let mut data: Vec<u8> = Vec::new();
        let mut i: usize = 0;
        while i < TRAMPOLINE_SIZE
            invariant
                0 <= i <= TRAMPOLINE_SIZE,
                data@.len() == i,
                forall|j: int| 0 <= j < i ==> #[trigger] data@[j] == 0,
            decreases TRAMPOLINE_SIZE - i,
        {
            data.push(0);
            i = i + 1;
        }
        TrampolinePage { data }
    }
}

pub fn image_size() -> (r: usize)
    ensures
        r == TRAMPOLINE_SIZE,
{
    TRAMPOLINE_SIZE
}

fn write_u16(page: &mut TrampolinePage, off: usize, value: u16)
    requires
        old(page).wf(),
        off + 2 <= TRAMPOLINE_SIZE,
    ensures
        final(page).wf(),
        final(page).data@ == splice(old(page).data@, off as int, le_bytes16(value)),
{
    let b = u16_le_bytes(value);
    write_bytes(&mut page.data, off, b.as_slice());
}

fn write_u64(page: &mut TrampolinePage, off: usize, value: u64)
    requires
        old(page).wf(),
        off + 8 <= TRAMPOLINE_SIZE,
    ensures
        final(page).wf(),
        final(page).data@ == splice(old(page).data@, off as int, le_bytes64(value)),
{
    proof {
        lemma_le64_roundtrip(value);
    }
    let b = u64_le_bytes(value);
    write_bytes(&mut page.data, off, b.as_slice());
}

/// A written field reads back as written, and bytes outside it are unchanged.
proof fn lemma_splice64(s: Seq<u8>, off: int, v: u64)
    requires
        0 <= off,
        off + 8 <= s.len(),
    ensures
        le64(splice(s, off, le_bytes64(v)), off) == v,
        splice(s, off, le_bytes64(v)).len() == s.len(),
        forall|i: int| 0 <= i < s.len() && (i < off || i >= off + 8) ==> #[trigger] splice(s, off, le_bytes64(v))[i] == s[i],
{
    lemma_le64_roundtrip(v);
    let t = splice(s, off, le_bytes64(v));
    let b = le_bytes64(v);
    assert(t[off] == b[0] && t[off + 1] == b[1] && t[off + 2] == b[2] && t[off + 3] == b[3]);
    assert(t[off + 4] == b[4] && t[off + 5] == b[5] && t[off + 6] == b[6] && t[off + 7] == b[7]);
}

/// Writes the real-mode stub (cli; hlt), the bootstrap GDT at 0x100 and the
/// GDTR at 0x130.
pub fn init_template(page: &mut TrampolinePage)
    requires
        old(page).wf(),
    ensures
        final(page).wf(),
        final(page).data@[0] == 0xFA,
        final(page).data@[1] == 0xF4,
        le64(final(page).data@, 0x108) == 0x00AF9A000000FFFF,
        le64(final(page).data@, 0x110) == 0x00CF92000000FFFF,
        le64(final(page).data@, 0x118) == 0x0020980000000000,
        le16(final(page).data@, 0x130) == 0x2F,
        le64(final(page).data@, 0x132) == 0x1100,
{
    page.data.set(0, 0xFA);
    page.data.set(1, 0xF4);
    write_u64(page, GDT_OFFSET, 0);
    let ghost a = page.data@;
    write_u64(page, 0x108, 0x00AF9A000000FFFF);
    let ghost b = page.data@;
    write_u64(page, 0x110, 0x00CF92000000FFFF);
    let ghost c = page.data@;
    write_u64(page, 0x118, 0x0020980000000000);
    let ghost d = page.data@;
    write_u16(page, GDTR_OFFSET, 0x2F);
    let ghost e = page.data@;
    write_u64(page, 0x132, 0x1100);
    proof {
        lemma_splice64(a, 0x108, 0x00AF9A000000FFFF);
        lemma_splice64(b, 0x110, 0x00CF92000000FFFF);
        lemma_splice64(c, 0x118, 0x0020980000000000);
        lemma_splice64(e, 0x132, 0x1100);
        lemma_le16_roundtrip(0x2F);
        let f = page.data@;
        assert(f[0] == 0xFA && f[1] == 0xF4);
        assert(le64(f, 0x108) == le64(b, 0x108));
        assert(le64(f, 0x110) == le64(c, 0x110));
        assert(le64(f, 0x118) == le64(d, 0x118));
        assert(e[0x130] == 0x2F && e[0x131] == 0);
        assert(le16(f, 0x130) == le16(e, 0x130));
    }
}

/// Patches the values one AP starts with: page-table root, CPU index, APIC
/// id and stack top, at 0x140, 0x148, 0x150 and 0x158.
pub fn patch(page: &mut TrampolinePage, cr3: u64, cpu_index: u64, lapic_id: u64, stack_top: u64)
    requires
        old(page).wf(),
    ensures
        final(page).wf(),
        le64(final(page).data@, CR3_OFFSET as int) == cr3,
        le64(final(page).data@, CPU_INDEX_OFFSET as int) == cpu_index,
        le64(final(page).data@, LAPIC_ID_OFFSET as int) == lapic_id,
        le64(final(page).data@, STACK_OFFSET as int) == stack_top,
        forall|i: int| 0 <= i < CR3_OFFSET || STACK_OFFSET + 8 <= i < TRAMPOLINE_SIZE
            ==> #[trigger] final(page).data@[i] == old(page).data@[i],
{
    let ghost s0 = page.data@;
    write_u64(page, CR3_OFFSET, cr3);
    let ghost s1 = page.data@;
    write_u64(page, CPU_INDEX_OFFSET, cpu_index);
    let ghost s2 = page.data@;
    write_u64(page, LAPIC_ID_OFFSET, lapic_id);
    let ghost s3 = page.data@;
    write_u64(page, STACK_OFFSET, stack_top);
    proof {
        lemma_splice64(s0, CR3_OFFSET as int, cr3);
        lemma_splice64(s1, CPU_INDEX_OFFSET as int, cpu_index);
        lemma_splice64(s2, LAPIC_ID_OFFSET as int, lapic_id);
        lemma_splice64(s3, STACK_OFFSET as int, stack_top);
        let f = page.data@;
        assert(le64(f, CR3_OFFSET as int) == le64(s1, CR3_OFFSET as int));
        assert(le64(f, CPU_INDEX_OFFSET as int) == le64(s2, CPU_INDEX_OFFSET as int));
        assert(le64(f, LAPIC_ID_OFFSET as int) == le64(s3, LAPIC_ID_OFFSET as int));
    }
}

} // verus!
