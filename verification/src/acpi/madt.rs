//! MADT (APIC table): local APICs, I/O APICs and interrupt source overrides.

use vstd::prelude::*;
use crate::arch::memory::PhysAddr;
use crate::bytes::{le16, le32, le64, read_u16, read_u32, read_u64};

verus! {

/// Bytes of the MADT header, including the local APIC address and flags.
pub const MADT_HEADER_LEN: usize = 44;
/// Longer MADTs are taken for corrupt firmware data.
pub const MAX_MADT_LEN: u32 = 65536;
pub const MAX_LOCAL_APICS: usize = 256;
pub const MAX_IO_APICS: usize = 8;
pub const MAX_INTERRUPT_OVERRIDES: usize = 64;
pub const DEFAULT_LOCAL_APIC_ADDRESS: u64 = 0xFEE0_0000;
pub const DEFAULT_IO_APIC_ADDRESS: u64 = 0xFEC0_0000;

pub const TYPE_LOCAL_APIC: u8 = 0;
pub const TYPE_IO_APIC: u8 = 1;
pub const TYPE_INTERRUPT_OVERRIDE: u8 = 2;
pub const TYPE_LOCAL_APIC_ADDRESS_OVERRIDE: u8 = 5;

#[derive(Clone, Copy, Debug, PartialEq, Eq, Structural)]
pub struct LocalApicEntry {
    pub processor_id: u8,
    pub apic_id: u8,
    pub enabled: bool,
}

#[derive(Clone, Copy, Debug, PartialEq, Eq, Structural)]
pub struct IoApicEntry {
    pub io_apic_id: u8,
    pub address: PhysAddr,
    pub global_system_interrupt_base: u32,
}

#[derive(Clone, Copy, Debug, PartialEq, Eq, Structural)]
pub struct InterruptOverrideEntry {
    pub bus: u8,
    pub irq: u8,
    pub global_system_interrupt: u32,
    pub flags: u16,
}

/// What a MADT says: the local APIC base and the three entry lists.
pub struct MadtView {
    pub local_apic_address: u64,
    pub local_apics: Seq<LocalApicEntry>,
    pub io_apics: Seq<IoApicEntry>,
    pub overrides: Seq<InterruptOverrideEntry>,
}

impl MadtView {
    /// The lists never exceed the fixed capacities of the table.
    pub open spec fn wf(self) -> bool {
        &&& self.local_apics.len() <= MAX_LOCAL_APICS
        &&& self.io_apics.len() <= MAX_IO_APICS
        &&& self.overrides.len() <= MAX_INTERRUPT_OVERRIDES
    }
}

/// The table before any entry is read.
pub open spec fn madt_empty(local_apic_address: u64) -> MadtView {
    MadtView {
        local_apic_address,
        local_apics: Seq::empty(),
        io_apics: Seq::empty(),
        overrides: Seq::empty(),
    }
}

/// The effect of the entry at `off` on the table read so far. Entries that
/// are too short, of other types, or beyond a full list leave it unchanged.
pub open spec fn madt_step(t: Seq<u8>, off: int, m: MadtView) -> MadtView {
    let ty = t[off];
    let len = t[off + 1] as int;
    if ty == TYPE_LOCAL_APIC && len >= 8 {
        if m.local_apics.len() < MAX_LOCAL_APICS {
            MadtView {
                local_apics: m.local_apics.push(
                    LocalApicEntry { processor_id: t[off + 2], apic_id: t[off + 3], enabled: t[off + 4] % 2 == 1 },
                ),
                ..m
            }
        } else {
            m
        }
    } else if ty == TYPE_IO_APIC && len >= 12 {
        if m.io_apics.len() < MAX_IO_APICS {
            MadtView {
                io_apics: m.io_apics.push(
                    IoApicEntry {
                        io_apic_id: t[off + 2],
                        address: PhysAddr(le32(t, off + 4) as u64),
                        global_system_interrupt_base: le32(t, off + 8) as u32,
                    },
                ),
                ..m
            }
        } else {
            m
        }
    } else if ty == TYPE_INTERRUPT_OVERRIDE && len >= 10 {
        if m.overrides.len() < MAX_INTERRUPT_OVERRIDES {
            MadtView {
                overrides: m.overrides.push(
                    InterruptOverrideEntry {
                        bus: t[off + 2],
                        irq: t[off + 3],
                        global_system_interrupt: le32(t, off + 4) as u32,
                        flags: le16(t, off + 8) as u16,
                    },
                ),
                ..m
            }
        } else {
            m
        }
    } else if ty == TYPE_LOCAL_APIC_ADDRESS_OVERRIDE && len >= 12 {
        MadtView { local_apic_address: le64(t, off + 4) as u64, ..m }
    } else {
        m
    }
}

/// Reads the entries from `off` up to `end`; a record with a length below 2
/// or running past `end` ends the walk.
pub open spec fn madt_walk(t: Seq<u8>, off: int, end: int, m: MadtView) -> MadtView
    decreases end - off,
{
    if off + 2 > end || off < 0 {
        m
    } else {
        let len = t[off + 1] as int;
        if len < 2 || off + len > end {
            m
        } else {
            madt_walk(t, off + len, end, madt_step(t, off, m))
        }
    }
}

/// The table described by the bytes `t`: an out-of-range length field gives
/// the empty table at the default local APIC address.
pub open spec fn spec_parse_madt(t: Seq<u8>) -> MadtView {
    let len = le32(t, 4);
    if len < MADT_HEADER_LEN || len > MAX_MADT_LEN {
        madt_empty(DEFAULT_LOCAL_APIC_ADDRESS)
    } else {
        madt_walk(t, MADT_HEADER_LEN as int, len, madt_empty(le32(t, 36) as u64))
    }
}

pub struct Madt {
    local_apic_address: PhysAddr,
    local_apics: Vec<LocalApicEntry>,
    io_apics: Vec<IoApicEntry>,
    interrupt_overrides: Vec<InterruptOverrideEntry>,
}

impl View for Madt {
    type V = MadtView;

    closed spec fn view(&self) -> MadtView {
        MadtView {
            local_apic_address: self.local_apic_address.0,
            local_apics: self.local_apics@,
            io_apics: self.io_apics@,
            overrides: self.interrupt_overrides@,
        }
    }
}

proof fn lemma_bit0(b: u8)
    ensures
        (b & 1 != 0) == (b % 2 == 1),
{
    assert((b & 1 != 0) == (b % 2 == 1)) by (bit_vector);
}

impl Madt {
    fn empty(local_apic_address: u64) -> (r: Self)
        ensures
            r@ == madt_empty(local_apic_address),
    {
        let r = Madt {
            local_apic_address: PhysAddr(local_apic_address),
            local_apics: Vec::new(),
            io_apics: Vec::new(),
            interrupt_overrides: Vec::new(),
        };
        assert(r@ =~= madt_empty(local_apic_address));
        r
    }

    pub open spec fn qemu_default_view(bsp_lapic_id: u32) -> MadtView {
        MadtView {
            local_apic_address: DEFAULT_LOCAL_APIC_ADDRESS,
            local_apics: seq![LocalApicEntry { processor_id: 0, apic_id: bsp_lapic_id as u8, enabled: true }],
            io_apics: seq![IoApicEntry { io_apic_id: 0, address: PhysAddr(DEFAULT_IO_APIC_ADDRESS), global_system_interrupt_base: 0 }],
            overrides: Seq::empty(),
        }
    }

    /// The table QEMU's firmware would give a single-CPU machine: the boot
    /// CPU's local APIC and one I/O APIC at the standard addresses.
    pub fn qemu_default(bsp_lapic_id: u32) -> (r: Self)
        ensures
            r@.wf(),
            r@ == Self::qemu_default_view(bsp_lapic_id),
            r@.local_apic_address == DEFAULT_LOCAL_APIC_ADDRESS,
            r@.local_apics == seq![LocalApicEntry { processor_id: 0, apic_id: bsp_lapic_id as u8, enabled: true }],
            r@.io_apics == seq![IoApicEntry { io_apic_id: 0, address: PhysAddr(DEFAULT_IO_APIC_ADDRESS), global_system_interrupt_base: 0 }],
            r@.overrides == Seq::<InterruptOverrideEntry>::empty(),
    {
        let mut madt = Madt::empty(DEFAULT_LOCAL_APIC_ADDRESS);
        madt.local_apics.push(LocalApicEntry { processor_id: 0, apic_id: bsp_lapic_id as u8, enabled: true });
        madt.io_apics.push(
            IoApicEntry { io_apic_id: 0, address: PhysAddr(DEFAULT_IO_APIC_ADDRESS), global_system_interrupt_base: 0 },
        );
        assert(madt@ =~= Self::qemu_default_view(bsp_lapic_id));
        madt
    }

    /// Reads a MADT from its bytes. `table` starts at the table's signature;
    /// when the length field is in range, `table` holds at least that many bytes.
    pub fn parse(table: &[u8]) -> (r: Self)
        requires
            table.len() >= MADT_HEADER_LEN,
            MADT_HEADER_LEN <= le32(table@, 4) <= MAX_MADT_LEN ==> le32(table@, 4) <= table.len(),
        ensures
            r@ == spec_parse_madt(table@),
            r@.wf(),
    {
        let length = read_u32(table, 4);
        if length < MADT_HEADER_LEN as u32 || length > MAX_MADT_LEN {
            return Madt::empty(DEFAULT_LOCAL_APIC_ADDRESS);
        }
        let mut madt = Madt::empty(read_u32(table, 36) as u64);
        let end = length as usize;
        let mut offset: usize = MADT_HEADER_LEN;
        while offset + 2 <= end
            invariant
                MADT_HEADER_LEN <= offset,
                end as int == le32(table@, 4),
                MADT_HEADER_LEN <= offset <= end,
                end <= table.len(),
                end <= MAX_MADT_LEN,
                madt_walk(table@, offset as int, end as int, madt@) == spec_parse_madt(table@),
                madt@.wf(),
            decreases end - offset,
        {
            let entry_type = table[offset];
            let entry_length = table[offset + 1] as usize;
            if entry_length < 2 || offset + entry_length > end {
                return madt;
            }
            let ghost before = madt@;
            if entry_type == TYPE_LOCAL_APIC && entry_length >= 8 {
                if madt.local_apics.len() < MAX_LOCAL_APICS {
                    let flags = table[offset + 4];
                    proof {
                        lemma_bit0(flags);
                    }
                    madt.local_apics.push(
                        LocalApicEntry {
                            processor_id: table[offset + 2],
                            apic_id: table[offset + 3],
                            enabled: flags & 1 != 0,
                        },
                    );
                }
            } else if entry_type == TYPE_IO_APIC && entry_length >= 12 {
                if madt.io_apics.len() < MAX_IO_APICS {
                    let address = read_u32(table, offset + 4);
                    let gsi_base = read_u32(table, offset + 8);
                    madt.io_apics.push(
                        IoApicEntry {
                            io_apic_id: table[offset + 2],
                            address: PhysAddr(address as u64),
                            global_system_interrupt_base: gsi_base,
                        },
                    );
                }
            } else if entry_type == TYPE_INTERRUPT_OVERRIDE && entry_length >= 10 {
                if madt.interrupt_overrides.len() < MAX_INTERRUPT_OVERRIDES {
                    let gsi = read_u32(table, offset + 4);
                    let flags = read_u16(table, offset + 8);
                    madt.interrupt_overrides.push(
                        InterruptOverrideEntry {
                            bus: table[offset + 2],
                            irq: table[offset + 3],
                            global_system_interrupt: gsi,
                            flags,
                        },
                    );
                }
            } else if entry_type == TYPE_LOCAL_APIC_ADDRESS_OVERRIDE && entry_length >= 12 {
                madt.local_apic_address = PhysAddr(read_u64(table, offset + 4));
            }
            assert(madt@ =~= madt_step(table@, offset as int, before));
            offset = offset + entry_length;
        }
        madt
    }

    pub fn local_apic_address(&self) -> (r: PhysAddr)
        ensures
            r.0 == self@.local_apic_address,
    {
        self.local_apic_address
    }

    pub fn local_apics(&self) -> (r: &[LocalApicEntry])
        ensures
            r@ == self@.local_apics,
    {
        self.local_apics.as_slice()
    }

    pub fn io_apics(&self) -> (r: &[IoApicEntry])
        ensures
            r@ == self@.io_apics,
    {
        self.io_apics.as_slice()
    }

    pub fn interrupt_overrides(&self) -> (r: &[InterruptOverrideEntry])
        ensures
            r@ == self@.overrides,
    {
        self.interrupt_overrides.as_slice()
    }
}

/// The Interrupt Source Override record of the ACPI MADT layout at `o` in
/// `t` holds `e`: type 2, at least 10 bytes, the bus at byte 2, the source
/// IRQ at byte 3, the global system interrupt in bytes 4..8 and the flags in
/// bytes 8..10, little-endian.
pub open spec fn override_record(t: Seq<u8>, o: int, e: InterruptOverrideEntry) -> bool {
    &&& t[o] == 2
    &&& t[o + 1] >= 10
    &&& e.bus == t[o + 2]
    &&& e.irq == t[o + 3]
    &&& e.global_system_interrupt as int == t[o + 4] + t[o + 5] * 0x100 + t[o + 6] * 0x1_0000 + t[o + 7] * 0x100_0000
    &&& e.flags as int == t[o + 8] + t[o + 9] * 0x100
}

/// The Processor Local APIC record at `o` holds `e`: type 0, at least 8
/// bytes, the processor id at byte 2, the APIC id at byte 3, enabled when
/// bit 0 of the flags (byte 4) is set.
pub open spec fn local_apic_record(t: Seq<u8>, o: int, e: LocalApicEntry) -> bool {
    &&& t[o] == 0
    &&& t[o + 1] >= 8
    &&& e.processor_id == t[o + 2]
    &&& e.apic_id == t[o + 3]
    &&& e.enabled == (t[o + 4] % 2 == 1)
}

/// The I/O APIC record at `o` holds `e`: type 1, at least 12 bytes, the id
/// at byte 2, the address in bytes 4..8 and the interrupt base in 8..12.
pub open spec fn io_apic_record(t: Seq<u8>, o: int, e: IoApicEntry) -> bool {
    &&& t[o] == 1
    &&& t[o + 1] >= 12
    &&& e.io_apic_id == t[o + 2]
    &&& e.address.0 as int == t[o + 4] + t[o + 5] * 0x100 + t[o + 6] * 0x1_0000 + t[o + 7] * 0x100_0000
    &&& e.global_system_interrupt_base as int == t[o + 8] + t[o + 9] * 0x100 + t[o + 10] * 0x1_0000 + t[o + 11] * 0x100_0000
}

/// Some override record lying inside `[MADT_HEADER_LEN, end)` holds `e`.
pub open spec fn override_in(t: Seq<u8>, end: int, e: InterruptOverrideEntry) -> bool {
    exists|o: int| MADT_HEADER_LEN <= o && o + t[o + 1] <= end && #[trigger] override_record(t, o, e)
}

/// Some local APIC record lying inside `[MADT_HEADER_LEN, end)` holds `e`.
pub open spec fn local_apic_in(t: Seq<u8>, end: int, e: LocalApicEntry) -> bool {
    exists|o: int| MADT_HEADER_LEN <= o && o + t[o + 1] <= end && #[trigger] local_apic_record(t, o, e)
}

/// Some I/O APIC record lying inside `[MADT_HEADER_LEN, end)` holds `e`.
pub open spec fn io_apic_in(t: Seq<u8>, end: int, e: IoApicEntry) -> bool {
    exists|o: int| MADT_HEADER_LEN <= o && o + t[o + 1] <= end && #[trigger] io_apic_record(t, o, e)
}

/// Every entry of `m` comes from a record of its kind lying inside
/// `[MADT_HEADER_LEN, end)`.
spec fn entries_from_records(t: Seq<u8>, end: int, m: MadtView) -> bool {
    &&& forall|k: int| 0 <= k < m.overrides.len() ==> override_in(t, end, #[trigger] m.overrides[k])
    &&& forall|k: int| 0 <= k < m.local_apics.len() ==> local_apic_in(t, end, #[trigger] m.local_apics[k])
    &&& forall|k: int| 0 <= k < m.io_apics.len() ==> io_apic_in(t, end, #[trigger] m.io_apics[k])
}

proof fn lemma_le_bytes(t: Seq<u8>, o: int)
    ensures
        le32(t, o) == t[o] + t[o + 1] * 0x100 + t[o + 2] * 0x1_0000 + t[o + 3] * 0x100_0000,
        0 <= le32(t, o) < 0x1_0000_0000,
        le16(t, o) == t[o] + t[o + 1] * 0x100,
        0 <= le16(t, o) < 0x1_0000,
{
}

proof fn lemma_step_from_records(t: Seq<u8>, off: int, end: int, m: MadtView)
    requires
        entries_from_records(t, end, m),
        MADT_HEADER_LEN <= off,
        off + 2 <= end,
        off + t[off + 1] <= end,
    ensures
        entries_from_records(t, end, madt_step(t, off, m)),
{
    let m2 = madt_step(t, off, m);
    lemma_le_bytes(t, off + 4);
    lemma_le_bytes(t, off + 8);
    assert forall|k: int| 0 <= k < m2.overrides.len() implies override_in(t, end, #[trigger] m2.overrides[k]) by {
        if k < m.overrides.len() {
            assert(m2.overrides[k] == m.overrides[k]);
        } else {
            assert(override_record(t, off, m2.overrides[k]));
        }
    }
    assert forall|k: int| 0 <= k < m2.local_apics.len() implies local_apic_in(t, end, #[trigger] m2.local_apics[k]) by {
        if k < m.local_apics.len() {
            assert(m2.local_apics[k] == m.local_apics[k]);
        } else {
            assert(local_apic_record(t, off, m2.local_apics[k]));
        }
    }
    assert forall|k: int| 0 <= k < m2.io_apics.len() implies io_apic_in(t, end, #[trigger] m2.io_apics[k]) by {
        if k < m.io_apics.len() {
            assert(m2.io_apics[k] == m.io_apics[k]);
        } else {
            assert(io_apic_record(t, off, m2.io_apics[k]));
        }
    }
}

proof fn lemma_walk_from_records(t: Seq<u8>, off: int, end: int, m: MadtView)
    requires
        entries_from_records(t, end, m),
        MADT_HEADER_LEN <= off,
    ensures
        entries_from_records(t, end, madt_walk(t, off, end, m)),
    decreases end - off,
{
    if !(off + 2 > end || off < 0) {
        let len = t[off + 1] as int;
        if !(len < 2 || off + len > end) {
            lemma_step_from_records(t, off, end, m);
            lemma_walk_from_records(t, off + len, end, madt_step(t, off, m));
        }
    }
}

/// What `Madt::parse` lists comes from the table's bytes, in the ACPI MADT
/// record layout: every interrupt source override, local APIC and I/O APIC
/// it reports is a record of that type lying inside the table's length, with
/// each field read at its place in the record (for an override: the bus at
/// byte 2 and the IRQ at byte 3). When the first record after the header
/// is an override, a local APIC or an I/O APIC that lies inside the table,
/// it is the first entry of its list.
pub proof fn lemma_madt_entries_are_records(t: Seq<u8>)
    requires
        t.len() >= MADT_HEADER_LEN,
        MADT_HEADER_LEN <= le32(t, 4) <= MAX_MADT_LEN ==> le32(t, 4) <= t.len(),
    ensures
        ({
            let m = spec_parse_madt(t);
            let len = le32(t, 4);
            &&& forall|k: int| 0 <= k < m.overrides.len() ==> override_in(t, len, #[trigger] m.overrides[k])
            &&& forall|k: int| 0 <= k < m.local_apics.len() ==> local_apic_in(t, len, #[trigger] m.local_apics[k])
            &&& forall|k: int| 0 <= k < m.io_apics.len() ==> io_apic_in(t, len, #[trigger] m.io_apics[k])
            &&& (len <= MAX_MADT_LEN && MADT_HEADER_LEN + 10 <= len && t[44] == 2 && 10 <= t[45] && 44 + t[45] <= len)
                ==> m.overrides.len() >= 1 && override_record(t, 44, m.overrides[0])
            &&& (len <= MAX_MADT_LEN && MADT_HEADER_LEN + 8 <= len && t[44] == 0 && 8 <= t[45] && 44 + t[45] <= len)
                ==> m.local_apics.len() >= 1 && local_apic_record(t, 44, m.local_apics[0])
            &&& (len <= MAX_MADT_LEN && MADT_HEADER_LEN + 12 <= len && t[44] == 1 && 12 <= t[45] && 44 + t[45] <= len)
                ==> m.io_apics.len() >= 1 && io_apic_record(t, 44, m.io_apics[0])
        }),
{
    let len = le32(t, 4);
    if MADT_HEADER_LEN <= len <= MAX_MADT_LEN {
        let m0 = madt_empty(le32(t, 36) as u64);
        lemma_walk_from_records(t, MADT_HEADER_LEN as int, len, m0);
        if t[45] >= 2 && 44 + t[45] <= len {
            let m1 = madt_step(t, 44, m0);
            lemma_le_bytes(t, 48);
            lemma_le_bytes(t, 52);
            assert(madt_walk(t, 44, len, m0) == madt_walk(t, 44 + t[45], len, m1));
            lemma_walk_keeps_prefix(t, 44 + t[45], len, m1);
        }
    }
}

/// Reading more records only appends to the lists.
proof fn lemma_walk_keeps_prefix(t: Seq<u8>, off: int, end: int, m: MadtView)
    ensures
        ({
            let w = madt_walk(t, off, end, m);
            &&& m.overrides.len() <= w.overrides.len()
            &&& forall|k: int| 0 <= k < m.overrides.len() ==> w.overrides[k] == m.overrides[k]
            &&& m.local_apics.len() <= w.local_apics.len()
            &&& forall|k: int| 0 <= k < m.local_apics.len() ==> w.local_apics[k] == m.local_apics[k]
            &&& m.io_apics.len() <= w.io_apics.len()
            &&& forall|k: int| 0 <= k < m.io_apics.len() ==> w.io_apics[k] == m.io_apics[k]
        }),
    decreases end - off,
{
    if !(off + 2 > end || off < 0) {
        let len = t[off + 1] as int;
        if !(len < 2 || off + len > end) {
            let m1 = madt_step(t, off, m);
            lemma_walk_keeps_prefix(t, off + len, end, m1);
            assert forall|k: int| 0 <= k < m.overrides.len() implies m1.overrides[k] == m.overrides[k] by {}
            assert forall|k: int| 0 <= k < m.local_apics.len() implies m1.local_apics[k] == m.local_apics[k] by {}
            assert forall|k: int| 0 <= k < m.io_apics.len() implies m1.io_apics[k] == m.io_apics[k] by {}
        }
    }
}

} // verus!
