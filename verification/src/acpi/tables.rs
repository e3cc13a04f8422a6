//! RSDP location, the root table walk and the set of tables the kernel keeps.

use vstd::prelude::*;
use crate::arch::memory::{PhysAddr, VirtAddr, phys_to_virt, spec_phys_to_virt};
use crate::bytes::{copy_bytes, le32, le64, read_u32, read_u64};
use crate::acpi::madt::{Madt, MadtView, spec_parse_madt, MADT_HEADER_LEN, MAX_MADT_LEN};
use crate::acpi::fadt::{Fadt, FADT_LEN, OFF_FLAGS, OFF_PM_TMR_LEN, spec_dsdt, spec_pm_timer};
use crate::acpi::dsdt::{Dsdt, SDT_HEADER_LEN};
use crate::acpi::srat::{Srat, SratView, spec_parse_srat, SRAT_HEADER_LEN};

verus! {

/// Longer tables are taken for corrupt firmware data.
pub const MAX_ACPI_TABLE_LEN: u32 = 0x10_0000;
/// At most this many root-table entries are examined.
pub const MAX_ROOT_ENTRIES: usize = 64;
pub const RSDP_LEN: usize = 36;

/// Where the bootloader found the RSDP: a physical or a direct-map address.
#[derive(Clone, Copy, Debug, PartialEq, Eq, Structural)]
pub struct RsdpLocation {
    pub raw: u64,
}

/// The virtual address of an ACPI pointer: kept when already in the direct
/// map, else mapped through it.
pub open spec fn spec_acpi_ptr(hhdm: u64, addr: u64) -> u64 {
    if addr >= hhdm {
        addr
    } else {
        spec_phys_to_virt(hhdm, addr)
    }
}

fn acpi_ptr(hhdm: u64, addr: u64) -> (r: VirtAddr)
    ensures
        r.0 == spec_acpi_ptr(hhdm, addr),
{
    if addr >= hhdm {
        VirtAddr::new(addr)
    } else {
        phys_to_virt(hhdm, PhysAddr::new(addr))
    }
}

impl RsdpLocation {
    pub fn from_limine(raw: u64) -> (r: Self)
        ensures
            r.raw == raw,
    {
        RsdpLocation { raw }
    }

    pub fn resolve_virt(&self, hhdm: u64) -> (r: VirtAddr)
        ensures
            r.0 == spec_acpi_ptr(hhdm, self.raw),
    {
        acpi_ptr(hhdm, self.raw)
    }

    /// The RSDP's virtual address under the boot direct-map offset `hhdm`.
    pub fn virt(&self, hhdm: u64) -> (r: VirtAddr)
        ensures
            r.0 == spec_acpi_ptr(hhdm, self.raw),
    {
        self.resolve_virt(hhdm)
    }

    /// The RSDP's physical address: a direct-map address has `hhdm` taken off.
    pub fn address(&self, hhdm: u64) -> (r: PhysAddr)
        ensures
            r.0 == (if self.raw >= hhdm { (self.raw - hhdm) as u64 } else { self.raw }),
    {
        if self.raw >= hhdm {
            PhysAddr::new(self.raw - hhdm)
        } else {
            PhysAddr::new(self.raw)
        }
    }
}

/// A window of memory: `bytes` as they lie from virtual address `base` on.
pub struct MemoryWindow {
    pub base: u64,
    pub bytes: Vec<u8>,
}

/// A snapshot of the memory that holds the firmware's tables.
pub struct FirmwareMemory {
    pub windows: Vec<MemoryWindow>,
}

pub open spec fn covers(w: MemoryWindow, addr: int, len: int) -> bool {
    w.base <= addr && addr + len <= w.base + w.bytes@.len() && len >= 0
}

/// The `len` bytes at `addr`, from the first window that holds them all.
pub open spec fn read_from(ws: Seq<MemoryWindow>, i: int, addr: int, len: int) -> Option<Seq<u8>>
    decreases ws.len() - i,
{
    if i < 0 || i >= ws.len() {
        None
    } else if covers(ws[i], addr, len) {
        Some(ws[i].bytes@.subrange(addr - ws[i].base, addr - ws[i].base + len))
    } else {
        read_from(ws, i + 1, addr, len)
    }
}

impl FirmwareMemory {
    pub open spec fn spec_read(&self, addr: int, len: int) -> Option<Seq<u8>> {
        read_from(self.windows@, 0, addr, len)
    }

    /// The `len` bytes at `addr`, when the snapshot holds them.
    pub fn read(&self, addr: u64, len: usize) -> (r: Option<&[u8]>)
        ensures
            match r {
                Some(s) => self.spec_read(addr as int, len as int) == Some(s@) && s@.len() == len,
                None => self.spec_read(addr as int, len as int).is_none(),
            },
    {
        let mut i: usize = 0;
        while i < self.windows.len()
            invariant
                0 <= i <= self.windows@.len(),
                read_from(self.windows@, i as int, addr as int, len as int) == self.spec_read(addr as int, len as int),
            decreases self.windows@.len() - i,
        {
            let w = &self.windows[i];
            if w.base <= addr && addr - w.base <= w.bytes.len() as u64 && len <= w.bytes.len() - (addr - w.base) as usize {
                let start = (addr - w.base) as usize;
                let s = w.bytes.as_slice();
                return Some(&s[start..start + len]);
            }
            i = i + 1;
        }
        None
    }
}

/// Whether the bytes of `data` sum to zero modulo 256, as a valid table's do.
pub open spec fn byte_sum(s: Seq<u8>) -> int
    decreases s.len(),
{
    if s.len() == 0 {
        0
    } else {
        byte_sum(s.drop_last()) + s.last()
    }
}

pub fn acpi_checksum(data: &[u8]) -> (r: bool)
    ensures
        r == (byte_sum(data@) % 256 == 0),
{
    let mut acc: u8 = 0;
    let mut i: usize = 0;
    while i < data.len()
        invariant
            0 <= i <= data@.len(),
            acc == byte_sum(data@.subrange(0, i as int)) % 256,
        decreases data@.len() - i,
    {
        assert(data@.subrange(0, i + 1).drop_last() =~= data@.subrange(0, i as int));
        acc = acc.wrapping_add(data[i]);
        i = i + 1;
    }
    assert(data@.subrange(0, data@.len() as int) =~= data@);
    acc == 0
}

/// The root table the RSDP names: the XSDT for revision 2 and later when
/// its address is set, else the RSDT.
pub open spec fn spec_root_table(hhdm: u64, rsdp: Seq<u8>) -> u64 {
    if rsdp[15] >= 2 && le64(rsdp, 24) != 0 {
        spec_acpi_ptr(hhdm, le64(rsdp, 24) as u64)
    } else {
        spec_acpi_ptr(hhdm, le32(rsdp, 16) as u64)
    }
}

pub fn locate_xsdt(hhdm: u64, rsdp_virt: VirtAddr, mem: &FirmwareMemory) -> (r: Option<VirtAddr>)
    ensures
        match mem.spec_read(rsdp_virt.0 as int, RSDP_LEN as int) {
            Some(rsdp) => r == Some(VirtAddr(spec_root_table(hhdm, rsdp))),
            None => r.is_none(),
        },
{
    let rsdp = match mem.read(rsdp_virt.0, RSDP_LEN) {
        Some(s) => s,
        None => return None,
    };
    let revision = rsdp[15];
    let xsdt_address = read_u64(rsdp, 24);
    if revision >= 2 && xsdt_address != 0 {
        return Some(acpi_ptr(hhdm, xsdt_address));
    }
    let rsdt_address = read_u32(rsdp, 16);
    Some(acpi_ptr(hhdm, rsdt_address as u64))
}

/// Whether a table header's length field lies in the accepted range.
pub open spec fn header_len_ok(h: Seq<u8>) -> bool {
    SDT_HEADER_LEN <= le32(h, 4) <= MAX_ACPI_TABLE_LEN
}

/// How many root entries are examined: what the length allows, at most 64.
pub open spec fn root_entry_count(len: int, entry_size: int) -> int {
    let n = (len - SDT_HEADER_LEN) / entry_size;
    if n > MAX_ROOT_ENTRIES { MAX_ROOT_ENTRIES as int } else { n }
}

/// The address stored in root entry `i`.
pub open spec fn root_entry(entries: Seq<u8>, i: int, xsdt: bool) -> u64 {
    if xsdt { le64(entries, 8 * i) as u64 } else { le32(entries, 4 * i) as u64 }
}

/// Whether the table at `addr` is readable, sane in length and signed `sig`.
pub open spec fn table_matches(mem: FirmwareMemory, hhdm: u64, addr: u64, sig: Seq<u8>) -> bool {
    &&& addr != 0
    &&& mem.spec_read(spec_acpi_ptr(hhdm, addr) as int, SDT_HEADER_LEN as int) matches Some(h)
    &&& header_len_ok(h)
    &&& h.subrange(0, 4) == sig
}

/// The first of entries `i..count` that names a matching table.
pub open spec fn find_in_entries(
    mem: FirmwareMemory,
    hhdm: u64,
    entries: Seq<u8>,
    xsdt: bool,
    i: int,
    count: int,
    sig: Seq<u8>,
) -> Option<u64>
    decreases count - i,
{
    if i >= count || i < 0 {
        None
    } else if table_matches(mem, hhdm, root_entry(entries, i, xsdt), sig) {
        Some(spec_acpi_ptr(hhdm, root_entry(entries, i, xsdt)))
    } else {
        find_in_entries(mem, hhdm, entries, xsdt, i + 1, count, sig)
    }
}

/// The table signed `sig` that the root table at `root` lists, if any.
pub open spec fn spec_find_table(mem: FirmwareMemory, hhdm: u64, root: u64, sig: Seq<u8>) -> Option<u64> {
    match mem.spec_read(root as int, SDT_HEADER_LEN as int) {
        None => None,
        Some(h) => if !header_len_ok(h) {
            None
        } else {
            let xsdt = h.subrange(0, 4) == seq![0x58u8, 0x53, 0x44, 0x54];
            let size = if xsdt { 8int } else { 4int };
            let count = root_entry_count(le32(h, 4), size);
            if root + SDT_HEADER_LEN > u64::MAX {
                None
            } else {
            match mem.spec_read(root + SDT_HEADER_LEN, count * size) {
                None => None,
                Some(entries) => find_in_entries(mem, hhdm, entries, xsdt, 0, count, sig),
            }
            }
        },
    }
}

fn same4(a: &[u8], b: &[u8; 4]) -> (r: bool)
    requires
        a@.len() >= 4,
    ensures
        r == (a@.subrange(0, 4) == b@),
{
    let r = a[0] == b[0] && a[1] == b[1] && a[2] == b[2] && a[3] == b[3];
    if r {
        assert(a@.subrange(0, 4) =~= b@);
    } else {
        assert(a@.subrange(0, 4) != b@) by {
            if a@.subrange(0, 4) == b@ {
                assert(a@.subrange(0, 4)[0] == a@[0] && a@.subrange(0, 4)[1] == a@[1]);
                assert(a@.subrange(0, 4)[2] == a@[2] && a@.subrange(0, 4)[3] == a@[3]);
            }
        }
    }
    r
}

/// Finds the table signed `signature` among the entries of the root table at `sdt`.
pub fn find_table(hhdm: u64, sdt: VirtAddr, signature: &[u8; 4], mem: &FirmwareMemory) -> (r: Option<VirtAddr>)
    ensures
        r == (match spec_find_table(*mem, hhdm, sdt.0, signature@) {
            Some(v) => Some(VirtAddr(v)),
            None => None::<VirtAddr>,
        }),
{
    let header = match mem.read(sdt.0, SDT_HEADER_LEN) {
        Some(h) => h,
        None => return None,
    };
    let length = read_u32(header, 4);
    if length < SDT_HEADER_LEN as u32 || length > MAX_ACPI_TABLE_LEN {
        return None;
    }
    let xsdt_sig: [u8; 4] = [0x58, 0x53, 0x44, 0x54];
    let is_xsdt = same4(header, &xsdt_sig);
    assert(xsdt_sig@ =~= seq![0x58u8, 0x53, 0x44, 0x54]);
    let size: usize = if is_xsdt { 8 } else { 4 };
    let mut count = (length as usize - SDT_HEADER_LEN) / size;
    if count > MAX_ROOT_ENTRIES {
        count = MAX_ROOT_ENTRIES;
    }
    if sdt.0 > u64::MAX - SDT_HEADER_LEN as u64 {
        return None;
    }
    let entries = match mem.read(sdt.0 + SDT_HEADER_LEN as u64, count * size) {
        Some(e) => e,
        None => return None,
    };
    assert(count as int == root_entry_count(le32(header@, 4), size as int));
    assert(spec_find_table(*mem, hhdm, sdt.0, signature@)
        == find_in_entries(*mem, hhdm, entries@, is_xsdt, 0, count as int, signature@));
    let mut i: usize = 0;
    while i < count
        invariant
            0 <= i <= count <= MAX_ROOT_ENTRIES,
            entries@.len() == count * size,
            size == 8 || size == 4,
            is_xsdt == (size == 8),
            find_in_entries(*mem, hhdm, entries@, is_xsdt, i as int, count as int, signature@)
                == spec_find_table(*mem, hhdm, sdt.0, signature@),
        decreases count - i,
    {
        let addr = if is_xsdt { read_u64(entries, i * 8) } else { read_u32(entries, i * 4) as u64 };
        if addr != 0 {
            let virt = acpi_ptr(hhdm, addr);
            match mem.read(virt.0, SDT_HEADER_LEN) {
                Some(hdr) => {
                    let len = read_u32(hdr, 4);
                    if len >= SDT_HEADER_LEN as u32 && len <= MAX_ACPI_TABLE_LEN && same4(hdr, signature) {
                        assert(addr == root_entry(entries@, i as int, is_xsdt));
                        assert(table_matches(*mem, hhdm, addr, signature@));
                        assert(find_in_entries(*mem, hhdm, entries@, is_xsdt, i as int, count as int, signature@)
                            == Some(virt.0));
                        return Some(virt);
                    }
                },
                None => {},
            }
        }
        i = i + 1;
    }
    None
}



/// The bytes of a table at `virt`: the larger of its length field and
/// `min_len`, plus `slack` bytes; none when the snapshot disagrees with
/// itself about the length field.
pub open spec fn spec_table_bytes(mem: FirmwareMemory, virt: int, min_len: int, slack: int) -> Option<Seq<u8>> {
    match mem.spec_read(virt, SDT_HEADER_LEN as int) {
        None => None,
        Some(h) => {
            let n = if le32(h, 4) >= min_len { le32(h, 4) } else { min_len };
            if n + slack > usize::MAX {
                None
            } else {
                match mem.spec_read(virt, n + slack) {
                    Some(b) => if le32(b, 4) == le32(h, 4) { Some(b) } else { None },
                    None => None,
                }
            }
        },
    }
}

fn read_table<'a>(mem: &'a FirmwareMemory, virt: VirtAddr, min_len: u32, slack: u32) -> (r: Option<&'a [u8]>)
    requires
        SDT_HEADER_LEN <= min_len <= MAX_ACPI_TABLE_LEN,
        slack <= 256,
    ensures
        match r {
            Some(b) => spec_table_bytes(*mem, virt.0 as int, min_len as int, slack as int) == Some(b@)
                && b@.len() >= SDT_HEADER_LEN && b@.len() >= min_len + slack
                && (le32(b@, 4) >= min_len ==> b@.len() == le32(b@, 4) + slack)
                && (le32(b@, 4) < min_len ==> b@.len() == min_len + slack),
            None => spec_table_bytes(*mem, virt.0 as int, min_len as int, slack as int).is_none(),
        },
{
    let header = match mem.read(virt.0, SDT_HEADER_LEN) {
        Some(h) => h,
        None => return None,
    };
    let length = read_u32(header, 4);
    let n: u64 = if length >= min_len { length as u64 } else { min_len as u64 };
    if n + slack as u64 > usize::MAX as u64 {
        return None;
    }
    match mem.read(virt.0, (n + slack as u64) as usize) {
        Some(b) => {
            if read_u32(b, 4) != length {
                return None;
            }
            Some(b)
        },
        None => None,
    }
}

/// The root table named by the RSDP at `rsdp`, when readable.
pub open spec fn spec_root(mem: FirmwareMemory, hhdm: u64, rsdp: RsdpLocation) -> Option<u64> {
    match mem.spec_read(spec_acpi_ptr(hhdm, rsdp.raw) as int, RSDP_LEN as int) {
        Some(b) => Some(spec_root_table(hhdm, b)),
        None => None,
    }
}

/// The tables the kernel keeps.
pub struct AcpiTables {
    pub hhdm: u64,
    pub rsdp: RsdpLocation,
    pub madt: Madt,
    pub fadt: Option<Fadt>,
    pub dsdt: Option<Dsdt>,
    pub srat: Option<Srat>,
}

/// Whether the MADT can be read through the RSDP at `rsdp`.
pub open spec fn madt_reachable(mem: FirmwareMemory, hhdm: u64, rsdp: RsdpLocation) -> bool {
    &&& spec_root(mem, hhdm, rsdp) matches Some(root)
    &&& spec_find_table(mem, hhdm, root, seq![0x41u8, 0x50, 0x49, 0x43]) matches Some(m)
    &&& spec_table_bytes(mem, m as int, MADT_HEADER_LEN as int, 0) is Some
}

/// The FADT read from its bytes `b` under the direct-map offset `hhdm`.
pub open spec fn spec_fadt(hhdm: u64, b: Seq<u8>) -> Fadt {
    Fadt {
        hhdm,
        pm_timer_block: spec_pm_timer(b),
        pm_timer_length: b[OFF_PM_TMR_LEN as int],
        dsdt_phys: spec_dsdt(b),
        flags: le32(b, OFF_FLAGS as int) as u32,
    }
}

/// `t` holds the tables read through the RSDP at `rsdp`: the MADT parsed
/// from its bytes; the FADT where the root table names one whose bytes can
/// be read; the DSDT that FADT points at, where its bytes can be read; and
/// the SRAT where the root table names one whose bytes can be read.
pub open spec fn tables_from_firmware(mem: FirmwareMemory, hhdm: u64, rsdp: RsdpLocation, t: AcpiTables) -> bool {
    &&& t.hhdm == hhdm
    &&& t.rsdp == rsdp
    &&& spec_root(mem, hhdm, rsdp) matches Some(root)
    &&& spec_find_table(mem, hhdm, root, seq![0x41u8, 0x50, 0x49, 0x43]) matches Some(m)
    &&& spec_table_bytes(mem, m as int, MADT_HEADER_LEN as int, 0) matches Some(b)
    &&& t.madt@ == spec_parse_madt(b)
    &&& t.fadt == match spec_find_table(mem, hhdm, root, seq![0x46u8, 0x41, 0x43, 0x50]) {
        Some(v) => match mem.spec_read(v as int, FADT_LEN as int) {
            Some(fb) => Some(spec_fadt(hhdm, fb)),
            None => None::<Fadt>,
        },
        None => None::<Fadt>,
    }
    &&& match t.fadt {
        Some(f) => match f.dsdt_phys {
            Some(p) => match spec_table_bytes(mem, spec_phys_to_virt(hhdm, p.0) as int, SDT_HEADER_LEN as int, 0) {
                Some(db) => t.dsdt matches Some(d) && d.bytes() == db,
                None => t.dsdt is None,
            },
            None => t.dsdt is None,
        },
        None => t.dsdt is None,
    }
    &&& match spec_find_table(mem, hhdm, root, seq![0x53u8, 0x52, 0x41, 0x54]) {
        Some(a) => match spec_table_bytes(mem, a as int, SRAT_HEADER_LEN as int, 0) {
            Some(sb) => t.srat matches Some(s) && s@ == spec_parse_srat(sb),
            None => t.srat is None,
        },
        None => t.srat is None,
    }
}

impl AcpiTables {
    /// The tables reachable from the RSDP: the MADT is required; FADT, DSDT
    /// and SRAT are kept when found.
    pub fn from_rsdp(rsdp: RsdpLocation, hhdm: u64, mem: &FirmwareMemory) -> (r: Option<Self>)
        ensures
            r is Some <==> madt_reachable(*mem, hhdm, rsdp),
            match r {
                Some(t) => tables_from_firmware(*mem, hhdm, rsdp, t),
                None => spec_root(*mem, hhdm, rsdp).is_none()
                    || spec_find_table(*mem, hhdm, spec_root(*mem, hhdm, rsdp).unwrap(), seq![0x41u8, 0x50, 0x49, 0x43]).is_none()
                    || spec_table_bytes(
                        *mem,
                        spec_find_table(*mem, hhdm, spec_root(*mem, hhdm, rsdp).unwrap(), seq![0x41u8, 0x50, 0x49, 0x43]).unwrap() as int,
                        MADT_HEADER_LEN as int,
                        0,
                    ).is_none(),
            },
    {
        let rsdp_virt = rsdp.resolve_virt(hhdm);
        let root = match locate_xsdt(hhdm, rsdp_virt, mem) {
            Some(x) => x,
            None => return None,
        };
        let apic: [u8; 4] = [0x41, 0x50, 0x49, 0x43];
        let facp: [u8; 4] = [0x46, 0x41, 0x43, 0x50];
        let srat_sig: [u8; 4] = [0x53, 0x52, 0x41, 0x54];
        assert(apic@ =~= seq![0x41u8, 0x50, 0x49, 0x43]);
        assert(facp@ =~= seq![0x46u8, 0x41, 0x43, 0x50]);
        assert(srat_sig@ =~= seq![0x53u8, 0x52, 0x41, 0x54]);
        let madt_at = match find_table(hhdm, root, &apic, mem) {
            Some(v) => v,
            None => return None,
        };
        let madt = match read_table(mem, madt_at, MADT_HEADER_LEN as u32, 0) {
            Some(b) => Madt::parse(b),
            None => return None,
        };
        let fadt = match find_table(hhdm, root, &facp, mem) {
            Some(v) => match mem.read(v.0, FADT_LEN) {
                Some(b) => Some(Fadt::parse(hhdm, b)),
                None => None,
            },
            None => None,
        };
        let dsdt = match &fadt {
            Some(f) => match f.dsdt_address() {
                Some(phys) => {
                    let virt = phys_to_virt(hhdm, phys);
                    match read_table(mem, virt, SDT_HEADER_LEN as u32, 0) {
                        Some(b) => Some(Dsdt::parse(copy_bytes(b))),
                        None => None,
                    }
                },
                None => None,
            },
            None => None,
        };
        let srat = match find_table(hhdm, root, &srat_sig, mem) {
            Some(v) => match read_table(mem, v, SRAT_HEADER_LEN as u32, 0) {
                Some(b) => Some(Srat::parse(b)),
                None => None,
            },
            None => None,
        };
        Some(AcpiTables { hhdm, rsdp, madt, fadt, dsdt, srat })
    }

    /// The tables used when the firmware's cannot be read: QEMU's default MADT.
    pub fn fallback(bsp_lapic_id: u32, rsdp: Option<RsdpLocation>, hhdm: u64) -> (r: Self)
        ensures
            r.hhdm == hhdm,
            r.rsdp == (match rsdp { Some(p) => p, None => RsdpLocation { raw: 0 } }),
            r.madt@ == Madt::qemu_default_view(bsp_lapic_id),
            r.fadt.is_none(),
            r.dsdt.is_none(),
            r.srat.is_none(),
    {
        let rsdp = match rsdp {
            Some(p) => p,
            None => RsdpLocation::from_limine(0),
        };
        AcpiTables {
            hhdm,
            rsdp,
            madt: Madt::qemu_default(bsp_lapic_id),
            fadt: None,
            dsdt: None,
            srat: None,
        }
    }

    pub fn madt(&self) -> (r: &Madt)
        ensures
            r == &self.madt,
    {
        &self.madt
    }

    pub fn fadt(&self) -> (r: Option<&Fadt>)
        ensures
            match r {
                Some(x) => self.fadt == Some(*x),
                None => self.fadt.is_none(),
            },
    {
        self.fadt.as_ref()
    }

    pub fn dsdt(&self) -> (r: Option<&Dsdt>)
        ensures
            match r {
                Some(x) => self.dsdt == Some(*x),
                None => self.dsdt.is_none(),
            },
    {
        self.dsdt.as_ref()
    }

    pub fn srat(&self) -> (r: Option<&Srat>)
        ensures
            match r {
                Some(x) => self.srat == Some(*x),
                None => self.srat.is_none(),
            },
    {
        self.srat.as_ref()
    }
}

/// Whether the table at physical address `phys` has a sane length and a
/// zero byte sum over that length.
pub fn validate_table(hhdm: u64, phys: PhysAddr, mem: &FirmwareMemory) -> (r: bool)
    ensures
        r == (match mem.spec_read(spec_phys_to_virt(hhdm, phys.0) as int, SDT_HEADER_LEN as int) {
            Some(h) => header_len_ok(h) && match mem.spec_read(spec_phys_to_virt(hhdm, phys.0) as int, le32(h, 4)) {
                Some(b) => byte_sum(b) % 256 == 0,
                None => false,
            },
            None => false,
        }),
{
    let virt = phys_to_virt(hhdm, phys);
    let header = match mem.read(virt.0, SDT_HEADER_LEN) {
        Some(h) => h,
        None => return false,
    };
    let length = read_u32(header, 4);
    if length < SDT_HEADER_LEN as u32 || length > MAX_ACPI_TABLE_LEN {
        return false;
    }
    match mem.read(virt.0, length as usize) {
        Some(b) => acpi_checksum(b),
        None => false,
    }
}
} // verus!
