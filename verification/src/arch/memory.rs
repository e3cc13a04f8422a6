//! Physical and virtual addresses, and the higher-half direct map (HHDM).

use vstd::prelude::*;
use vstd::arithmetic::power2::pow2;
use vstd::arithmetic::div_mod::{lemma_fundamental_div_mod, lemma_mod_multiples_basic};
use vstd::bits::{low_bits_mask, lemma_u64_low_bits_mask_is_mod};

verus! {

/// Whether `a` is a power of two that fits in 64 bits.
pub open spec fn is_pow2(a: u64) -> bool {
    exists|k: nat| k < 64 && a == pow2(k)
}

/// A physical address.
#[derive(Clone, Copy, Debug, PartialEq, Eq, Structural, PartialOrd, Ord, Hash)]
pub struct PhysAddr(pub u64);

impl PhysAddr {
    pub fn new(addr: u64) -> (r: Self)
        ensures
            r.0 == addr,
    {
        PhysAddr(addr)
    }

    pub fn as_u64(self) -> (r: u64)
        ensures
            r == self.0,
    {
        self.0
    }

    /// Clears the bits below `align`; for a power of two this rounds down.
    pub fn align_down(self, align: u64) -> (r: Self)
        requires
            align > 0,
        ensures
            r.0 == self.0 & !((align - 1) as u64),
            is_pow2(align) ==> r.0 == self.0 - self.0 % align,
    {
        proof {
            lemma_align_down_pow2(self.0, align);
        }
        PhysAddr(self.0 & !(align - 1))
    }

    /// Rounds up to the next multiple of a power-of-two `align`.
    pub fn align_up(self, align: u64) -> (r: Self)
        requires
            align > 0,
            self.0 + align - 1 <= u64::MAX,
        ensures
            r.0 == ((self.0 + align - 1) as u64) & !((align - 1) as u64),
            is_pow2(align) ==> r.0 % align == 0 && self.0 <= r.0 && r.0 < self.0 + align,
    {
        let sum = self.0 + (align - 1);
        proof {
            lemma_align_down_pow2(sum, align);
            if is_pow2(align) {
                lemma_round_down_multiple(sum as int, align as int);
            }
        }
        PhysAddr(sum & !(align - 1))
    }

    pub fn is_null(self) -> (r: bool)
        ensures
            r == (self.0 == 0),
    {
        self.0 == 0
    }
}

/// Rounding down by masking equals subtracting the remainder, for a power-of-two alignment.
pub proof fn lemma_align_down_pow2(x: u64, align: u64)
    requires
        align > 0,
    ensures
        is_pow2(align) ==> (x & !((align - 1) as u64)) == x - x % align,
{
    let m = (align - 1) as u64;
    assert((x & !m) == x - (x & m) && (x & m) <= x) by (bit_vector);
    if is_pow2(align) {
        let k = choose|k: nat| k < 64 && align == pow2(k);
        lemma_u64_low_bits_mask_is_mod(x, k);
        assert(low_bits_mask(k) == pow2(k) - 1);
    }
}

/// `s - s % a` is a multiple of `a` no more than `a - 1` below `s`.
pub proof fn lemma_round_down_multiple(s: int, a: int)
    requires
        a > 0,
        s >= 0,
    ensures
        (s - s % a) % a == 0,
        0 <= s % a < a,
{
    lemma_fundamental_div_mod(s, a);
    lemma_mod_multiples_basic(s / a, a);
    assert(s - s % a == (s / a) * a) by (nonlinear_arith)
        requires
            s == a * (s / a) + s % a,
    ;
}

/// A virtual address.
#[derive(Clone, Copy, Debug, PartialEq, Eq, Structural, PartialOrd, Ord, Hash)]
pub struct VirtAddr(pub u64);

impl VirtAddr {
    pub fn new(addr: u64) -> (r: Self)
        ensures
            r.0 == addr,
    {
        VirtAddr(addr)
    }

    pub fn as_u64(self) -> (r: u64)
        ensures
            r == self.0,
    {
        self.0
    }
}

/// The direct-map address of `phys`: `phys + hhdm`, wrapping at 2^64.
pub open spec fn spec_phys_to_virt(hhdm: u64, phys: u64) -> u64 {
    ((phys + hhdm) % 0x1_0000_0000_0000_0000) as u64
}

pub fn phys_to_virt(hhdm: u64, phys: PhysAddr) -> (r: VirtAddr)
    ensures
        r.0 == spec_phys_to_virt(hhdm, phys.0),
{
    VirtAddr(phys.0.wrapping_add(hhdm))
}

/// Inverse of the direct map: defined only for addresses at or above `hhdm`.
pub fn virt_to_phys(hhdm: u64, virt: VirtAddr) -> (r: Option<PhysAddr>)
    ensures
        virt.0 >= hhdm ==> r == Some(PhysAddr((virt.0 - hhdm) as u64)),
        virt.0 < hhdm ==> r.is_none(),
{
    if virt.0 >= hhdm {
        Some(PhysAddr(virt.0 - hhdm))
    } else {
        None
    }
}

/// Mapping a physical address into the direct map and back gives it back,
/// whenever the mapping does not wrap past 2^64.
pub proof fn lemma_direct_map_roundtrip(hhdm: u64, phys: u64)
    requires
        phys + hhdm <= u64::MAX,
    ensures
        spec_phys_to_virt(hhdm, phys) >= hhdm,
        (spec_phys_to_virt(hhdm, phys) - hhdm) as u64 == phys,
{
}

} // verus!
