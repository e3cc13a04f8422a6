//! CPU security features (NX, SMEP, SMAP, UMIP): detection from CPUID and
//! the control-register values that enable them.

use vstd::prelude::*;

verus! {

pub const EFER_MSR: u32 = 0xC000_0080;
pub const EFER_NXE: u64 = 0x800;
pub const CR4_UMIP: u64 = 0x800;
pub const CR4_SMEP: u64 = 0x10_0000;
pub const CR4_SMAP: u64 = 0x20_0000;

#[derive(Clone, Copy, Debug, PartialEq, Eq, Structural)]
pub struct CpuSecurityFeatures {
    pub nxe: bool,
    pub smep: bool,
    pub smap: bool,
    pub umip: bool,
}

/// The CPUID words detection reads: leaf 1 ECX, leaf 0x8000_0001 EDX, and
/// leaf 7 sub-leaf 0 EBX and ECX.
#[derive(Clone, Copy, Debug, PartialEq, Eq, Structural)]
pub struct CpuidWords {
    pub ecx_1: u32,
    pub edx_8000_0001: u32,
    pub ebx_7: u32,
    pub ecx_7: u32,
}

/// Whether detection consults leaf 7: only when leaf 1 ECX bit 27 is set.
pub open spec fn reads_leaf7(ecx_1: u32) -> bool {
    ecx_1 & (1u32 << 27) != 0
}

/// NX from 0x8000_0001 EDX bit 20; SMEP, SMAP from leaf 7 EBX bits 7 and 20
/// and UMIP from leaf 7 ECX bit 2, when leaf 7 is consulted.
pub open spec fn spec_detect(c: CpuidWords) -> CpuSecurityFeatures {
    CpuSecurityFeatures {
        nxe: c.edx_8000_0001 & (1u32 << 20) != 0,
        smep: reads_leaf7(c.ecx_1) && c.ebx_7 & (1u32 << 7) != 0,
        smap: reads_leaf7(c.ecx_1) && c.ebx_7 & (1u32 << 20) != 0,
        umip: reads_leaf7(c.ecx_1) && c.ecx_7 & (1u32 << 2) != 0,
    }
}

pub fn detect(c: CpuidWords) -> (r: CpuSecurityFeatures)
    ensures
        r == spec_detect(c),
{
    let mut feats = CpuSecurityFeatures { nxe: false, smep: false, smap: false, umip: false };
    feats.nxe = c.edx_8000_0001 & (1u32 << 20) != 0;
    if c.ecx_1 & (1u32 << 27) != 0 {
        feats.smep = c.ebx_7 & (1u32 << 7) != 0;
        feats.smap = c.ebx_7 & (1u32 << 20) != 0;
        feats.umip = c.ecx_7 & (1u32 << 2) != 0;
    }
    feats
}

/// The control-register changes that enable the detected features.
#[derive(Clone, Copy, Debug, PartialEq, Eq, Structural)]
pub struct FeatureRegisters {
    /// A new EFER to write, when NX is supported and not yet enabled.
    pub efer: Option<u64>,
    pub cr4: u64,
}

pub open spec fn set_or_clear(v: u64, bit: u64, on: bool) -> u64 {
    if on { v | bit } else { v & !bit }
}

/// EFER.NXE is set when NX is supported and clear; CR4's SMEP, SMAP and
/// UMIP bits follow the features, each set or cleared.
pub fn enable(feats: &mut CpuSecurityFeatures, efer: u64, cr4: u64) -> (r: FeatureRegisters)
    ensures
        *final(feats) == *old(feats),
        r.efer == (if old(feats).nxe && efer & EFER_NXE == 0 { Some(efer | EFER_NXE) } else { None::<u64> }),
        r.cr4 == set_or_clear(set_or_clear(set_or_clear(cr4, CR4_SMEP, old(feats).smep), CR4_SMAP, old(feats).smap), CR4_UMIP, old(feats).umip),
{
    let mut new_efer = None;
    if feats.nxe {
        if efer & EFER_NXE == 0 {
            new_efer = Some(efer | EFER_NXE);
        }
    } else {
        feats.nxe = false;
    }
    let mut cr4 = cr4;
    if feats.smep {
        cr4 = cr4 | CR4_SMEP;
    } else {
        cr4 = cr4 & !CR4_SMEP;
    }
    if feats.smap {
        cr4 = cr4 | CR4_SMAP;
    } else {
        cr4 = cr4 & !CR4_SMAP;
    }
    if feats.umip {
        cr4 = cr4 | CR4_UMIP;
    } else {
        cr4 = cr4 & !CR4_UMIP;
    }
    FeatureRegisters { efer: new_efer, cr4 }
}

/// After enabling, CR4 reports exactly the detected SMEP, SMAP and UMIP.
pub proof fn lemma_enable_cr4(cr4: u64, f: CpuSecurityFeatures)
    ensures
        ({
            let v = set_or_clear(set_or_clear(set_or_clear(cr4, CR4_SMEP, f.smep), CR4_SMAP, f.smap), CR4_UMIP, f.umip);
            &&& (v & CR4_SMEP != 0) == f.smep
            &&& (v & CR4_SMAP != 0) == f.smap
            &&& (v & CR4_UMIP != 0) == f.umip
        }),
{
    let smep = f.smep;
    let smap = f.smap;
    let umip = f.umip;
    let v1 = set_or_clear(cr4, CR4_SMEP, smep);
    let v2 = set_or_clear(v1, CR4_SMAP, smap);
    let v3 = set_or_clear(v2, CR4_UMIP, umip);
    assert((v3 & 0x10_0000u64 != 0) == smep && (v3 & 0x20_0000u64 != 0) == smap && (v3 & 0x800u64 != 0) == umip) by (bit_vector)
        requires
            v1 == (if smep { cr4 | 0x10_0000u64 } else { cr4 & !0x10_0000u64 }),
            v2 == (if smap { v1 | 0x20_0000u64 } else { v1 & !0x20_0000u64 }),
            v3 == (if umip { v2 | 0x800u64 } else { v2 & !0x800u64 }),
    ;
}

} // verus!
