//! Global descriptor table: the flat long-mode segments and the TSS descriptor.

use vstd::prelude::*;

verus! {

pub const SEL_NULL: u16 = 0x00;
pub const SEL_KERNEL_CODE: u16 = 0x08;
pub const SEL_KERNEL_DATA: u16 = 0x10;
/// User data selector: GDT slot 3 at privilege level 3.
pub const SEL_USER_DATA: u16 = 0x1B;
/// User code selector: GDT slot 4 at privilege level 3.
pub const SEL_USER_CODE: u16 = 0x23;
pub const SEL_TSS: u16 = 0x28;

pub const ACC_PRESENT: u8 = 0x80;
pub const ACC_RING0_CODE: u8 = 0x9A;
pub const ACC_RING0_DATA: u8 = 0x92;
pub const ACC_RING3_CODE: u8 = 0xFA;
pub const ACC_RING3_DATA: u8 = 0xF2;
pub const ACC_TSS_AVAILABLE: u8 = 0x89;
pub const FLAGS_GRANULARITY: u8 = 0x80;
pub const FLAGS_LONG_MODE: u8 = 0x20;
pub const FLAGS_SIZE_32: u8 = 0x40;

#[derive(Clone, Copy, Debug, PartialEq, Eq, Structural)]
pub struct SegmentDescriptor {
    pub limit_low: u16,
    pub base_low: u16,
    pub base_mid: u8,
    pub access: u8,
    pub limit_high_flags: u8,
    pub base_high: u8,
}

#[derive(Clone, Copy, Debug, PartialEq, Eq, Structural)]
pub struct TssDescriptor {
    pub limit_low: u16,
    pub base_low: u16,
    pub base_mid: u8,
    pub access: u8,
    pub limit_high_flags: u8,
    pub base_high: u8,
    pub base_upper: u32,
    pub reserved: u32,
}

/// The table: null, kernel code, kernel data, user data, user code, TSS.
#[derive(Clone, Copy, Debug, PartialEq, Eq, Structural)]
pub struct Gdt {
    pub null: SegmentDescriptor,
    pub kernel_code: SegmentDescriptor,
    pub kernel_data: SegmentDescriptor,
    pub user_data: SegmentDescriptor,
    pub user_code: SegmentDescriptor,
    pub tss: TssDescriptor,
}

pub open spec fn zero_segment() -> SegmentDescriptor {
    SegmentDescriptor { limit_low: 0, base_low: 0, base_mid: 0, access: 0, limit_high_flags: 0, base_high: 0 }
}

pub open spec fn zero_tss() -> TssDescriptor {
    TssDescriptor {
        limit_low: 0,
        base_low: 0,
        base_mid: 0,
        access: 0,
        limit_high_flags: 0,
        base_high: 0,
        base_upper: 0,
        reserved: 0,
    }
}

fn zero_segment_exec() -> (r: SegmentDescriptor)
    ensures
        r == zero_segment(),
{
    SegmentDescriptor { limit_low: 0, base_low: 0, base_mid: 0, access: 0, limit_high_flags: 0, base_high: 0 }
}

/// The all-zero table the static tables start as.
pub fn empty_gdt() -> (r: Gdt)
    ensures
        r.null == zero_segment(),
        r.kernel_code == zero_segment(),
        r.kernel_data == zero_segment(),
        r.user_data == zero_segment(),
        r.user_code == zero_segment(),
        r.tss == zero_tss(),
{
    Gdt {
        null: zero_segment_exec(),
        kernel_code: zero_segment_exec(),
        kernel_data: zero_segment_exec(),
        user_data: zero_segment_exec(),
        user_code: zero_segment_exec(),
        tss: TssDescriptor {
            limit_low: 0,
            base_low: 0,
            base_mid: 0,
            access: 0,
            limit_high_flags: 0,
            base_high: 0,
            base_upper: 0,
            reserved: 0,
        },
    }
}

pub open spec fn spec_code_segment(ring0: bool) -> SegmentDescriptor {
    SegmentDescriptor {
        limit_low: 0,
        base_low: 0,
        base_mid: 0,
        access: if ring0 { ACC_RING0_CODE } else { ACC_RING3_CODE },
        limit_high_flags: FLAGS_GRANULARITY | FLAGS_LONG_MODE,
        base_high: 0,
    }
}

pub open spec fn spec_data_segment(ring0: bool) -> SegmentDescriptor {
    SegmentDescriptor {
        limit_low: 0xffff,
        base_low: 0,
        base_mid: 0,
        access: if ring0 { ACC_RING0_DATA } else { ACC_RING3_DATA },
        limit_high_flags: FLAGS_GRANULARITY | FLAGS_SIZE_32,
        base_high: 0,
    }
}

/// A 64-bit code segment, present, for ring 0 or ring 3.
pub fn make_code_segment(ring0: bool) -> (r: SegmentDescriptor)
    ensures
        r == spec_code_segment(ring0),
{
    let access = ACC_PRESENT | if ring0 { ACC_RING0_CODE } else { ACC_RING3_CODE };
    assert((ACC_PRESENT | ACC_RING0_CODE) == ACC_RING0_CODE && (ACC_PRESENT | ACC_RING3_CODE) == ACC_RING3_CODE) by (bit_vector);
    SegmentDescriptor {
        limit_low: 0,
        base_low: 0,
        base_mid: 0,
        access,
        limit_high_flags: FLAGS_GRANULARITY | FLAGS_LONG_MODE,
        base_high: 0,
    }
}

/// A flat data segment, present, for ring 0 or ring 3.
pub fn make_data_segment(ring0: bool) -> (r: SegmentDescriptor)
    ensures
        r == spec_data_segment(ring0),
{
    let access = ACC_PRESENT | if ring0 { ACC_RING0_DATA } else { ACC_RING3_DATA };
    assert((ACC_PRESENT | ACC_RING0_DATA) == ACC_RING0_DATA && (ACC_PRESENT | ACC_RING3_DATA) == ACC_RING3_DATA) by (bit_vector);
    SegmentDescriptor {
        limit_low: 0xffff,
        base_low: 0,
        base_mid: 0,
        access,
        limit_high_flags: FLAGS_GRANULARITY | FLAGS_SIZE_32,
        base_high: 0,
    }
}

pub open spec fn spec_tss_descriptor(base: u64, limit: u32) -> TssDescriptor {
    TssDescriptor {
        limit_low: (limit & 0xffff) as u16,
        base_low: (base & 0xffff) as u16,
        base_mid: ((base >> 16) & 0xff) as u8,
        access: ACC_TSS_AVAILABLE,
        limit_high_flags: ((limit >> 16) & 0xf) as u8 | FLAGS_GRANULARITY,
        base_high: ((base >> 24) & 0xff) as u8,
        base_upper: (base >> 32) as u32,
        reserved: 0,
    }
}

/// An available 64-bit TSS descriptor for the segment at `base` with `limit`.
pub fn make_tss_descriptor(base: u64, limit: u32) -> (r: TssDescriptor)
    ensures
        r == spec_tss_descriptor(base, limit),
{
    TssDescriptor {
        limit_low: (limit & 0xffff) as u16,
        base_low: (base & 0xffff) as u16,
        base_mid: ((base >> 16) & 0xff) as u8,
        access: ACC_TSS_AVAILABLE,
        limit_high_flags: ((limit >> 16) & 0xf) as u8 | FLAGS_GRANULARITY,
        base_high: ((base >> 24) & 0xff) as u8,
        base_upper: (base >> 32) as u32,
        reserved: 0,
    }
}

/// The TSS descriptor keeps the whole base and the low 20 bits of the limit.
pub proof fn lemma_tss_descriptor_fields(base: u64, limit: u32)
    ensures
        ({
            let d = spec_tss_descriptor(base, limit);
            &&& (d.base_low as u64) | ((d.base_mid as u64) << 16) | ((d.base_high as u64) << 24)
                | ((d.base_upper as u64) << 32) == base
            &&& (d.limit_low as u32) | (((d.limit_high_flags & 0xf) as u32) << 16) == limit & 0xf_ffff
            &&& d.limit_high_flags & FLAGS_GRANULARITY != 0
        }),
{
    assert((((base & 0xffff) as u16) as u64) | (((((base >> 16) & 0xff) as u8) as u64) << 16)
        | (((((base >> 24) & 0xff) as u8) as u64) << 24) | ((((base >> 32) as u32) as u64) << 32) == base)
        by (bit_vector);
    assert((((limit & 0xffff) as u16) as u32) | (((((((limit >> 16) & 0xf) as u8) | 0x80u8) & 0xf) as u32) << 16)
        == limit & 0xf_ffff) by (bit_vector);
    assert((((((limit >> 16) & 0xf) as u8) | 0x80u8) & 0x80u8) != 0) by (bit_vector);
}

pub open spec fn spec_populated(tss_base: u64, tss_limit: u32) -> Gdt {
    Gdt {
        null: zero_segment(),
        kernel_code: spec_code_segment(true),
        kernel_data: spec_data_segment(true),
        user_data: spec_data_segment(false),
        user_code: spec_code_segment(false),
        tss: spec_tss_descriptor(tss_base, tss_limit),
    }
}

/// Fills every slot of `gdt`: the flat kernel and user segments and the TSS.
pub fn populate_gdt(gdt: &mut Gdt, tss_base: u64, tss_limit: u32)
    ensures
        *final(gdt) == spec_populated(tss_base, tss_limit),
{
    gdt.null = zero_segment_exec();
    gdt.kernel_code = make_code_segment(true);
    gdt.kernel_data = make_data_segment(true);
    gdt.user_data = make_data_segment(false);
    gdt.user_code = make_code_segment(false);
    gdt.tss = make_tss_descriptor(tss_base, tss_limit);
}

pub fn kernel_code_selector() -> (r: u16)
    ensures
        r == SEL_KERNEL_CODE,
{
    SEL_KERNEL_CODE
}

pub fn kernel_data_selector() -> (r: u16)
    ensures
        r == SEL_KERNEL_DATA,
{
    SEL_KERNEL_DATA
}

pub fn user_code_selector() -> (r: u16)
    ensures
        r == SEL_USER_CODE,
{
    SEL_USER_CODE
}

pub fn user_data_selector() -> (r: u16)
    ensures
        r == SEL_USER_DATA,
{
    SEL_USER_DATA
}

/// Each selector indexes its slot of the table, and the user selectors carry
/// requested privilege level 3 while the kernel ones carry 0.
pub proof fn lemma_selectors_name_slots()
    ensures
        SEL_KERNEL_CODE / 8 == 1 && SEL_KERNEL_CODE % 4 == 0,
        SEL_KERNEL_DATA / 8 == 2 && SEL_KERNEL_DATA % 4 == 0,
        SEL_USER_DATA / 8 == 3 && SEL_USER_DATA % 4 == 3,
        SEL_USER_CODE / 8 == 4 && SEL_USER_CODE % 4 == 3,
        SEL_TSS / 8 == 5 && SEL_TSS % 4 == 0,
{
}

/// The eight bytes a segment descriptor occupies in memory, low byte first.
pub open spec fn segment_bytes(d: SegmentDescriptor) -> Seq<u8> {
    seq![
        (d.limit_low % 0x100) as u8, (d.limit_low / 0x100) as u8,
        (d.base_low % 0x100) as u8, (d.base_low / 0x100) as u8,
        d.base_mid, d.access, d.limit_high_flags, d.base_high,
    ]
}

pub open spec fn tss_bytes(d: TssDescriptor) -> Seq<u8> {
    segment_bytes(SegmentDescriptor {
        limit_low: d.limit_low,
        base_low: d.base_low,
        base_mid: d.base_mid,
        access: d.access,
        limit_high_flags: d.limit_high_flags,
        base_high: d.base_high,
    }) + crate::bytes::le_bytes32(d.base_upper) + crate::bytes::le_bytes32(d.reserved)
}

pub open spec fn gdt_bytes(g: Gdt) -> Seq<u8> {
    segment_bytes(g.null) + segment_bytes(g.kernel_code) + segment_bytes(g.kernel_data)
        + segment_bytes(g.user_data) + segment_bytes(g.user_code) + tss_bytes(g.tss)
}

fn push_segment(out: &mut Vec<u8>, d: SegmentDescriptor)
    ensures
        final(out)@ == old(out)@ + segment_bytes(d),
{
    out.push((d.limit_low % 0x100) as u8);
    out.push((d.limit_low / 0x100) as u8);
    out.push((d.base_low % 0x100) as u8);
    out.push((d.base_low / 0x100) as u8);
    out.push(d.base_mid);
    out.push(d.access);
    out.push(d.limit_high_flags);
    out.push(d.base_high);
    assert(out@ =~= old(out)@ + segment_bytes(d));
}

impl Gdt {
    /// The table as the processor reads it: 56 bytes, packed.
    pub fn to_bytes(&self) -> (r: Vec<u8>)
        ensures
            r@ == gdt_bytes(*self),
            r@.len() == 56,
    {
        let mut out: Vec<u8> = Vec::new();
        push_segment(&mut out, self.null);
        push_segment(&mut out, self.kernel_code);
        push_segment(&mut out, self.kernel_data);
        push_segment(&mut out, self.user_data);
        push_segment(&mut out, self.user_code);
        let t = self.tss;
        push_segment(
            &mut out,
            SegmentDescriptor {
                limit_low: t.limit_low,
                base_low: t.base_low,
                base_mid: t.base_mid,
                access: t.access,
                limit_high_flags: t.limit_high_flags,
                base_high: t.base_high,
            },
        );
        let mut upper = crate::bytes::u32_le_bytes(t.base_upper);
        out.append(&mut upper);
        let mut reserved = crate::bytes::u32_le_bytes(t.reserved);
        out.append(&mut reserved);
        assert(out@ =~= gdt_bytes(*self));
        out
    }
}

} // verus!
