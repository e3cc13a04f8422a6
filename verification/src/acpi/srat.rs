//! SRAT: memory affinity of physical ranges to NUMA nodes.

use vstd::prelude::*;
use crate::arch::memory::PhysAddr;
use crate::bytes::{le16, le32, le64, read_u16, read_u32, read_u64};

verus! {

/// Bytes of the SRAT header (standard header, table revision, reserved).
pub const SRAT_HEADER_LEN: usize = 48;
pub const MAX_MEMORY_AFFINITIES: usize = 64;
pub const TYPE_MEMORY_AFFINITY: u8 = 1;

#[derive(Clone, Copy, Debug, PartialEq, Eq, Structural)]
pub struct MemoryAffinity {
    pub base: PhysAddr,
    pub length: u64,
    pub node: u16,
}

/// What a SRAT says: the memory ranges and the number of nodes they name.
pub struct SratView {
    pub memory: Seq<MemoryAffinity>,
    pub nodes: u16,
}

/// The node a memory-affinity record names: the low 12 bits of its domain field.
pub open spec fn affinity_node(t: Seq<u8>, off: int) -> u16 {
    (le16(t, off + 6) % 0x1000) as u16
}

/// One record at `off`: a memory-affinity record of at least 24 bytes that
/// lies inside the bytes at hand is kept while there is room; any other
/// record is passed over.
pub open spec fn srat_step(t: Seq<u8>, off: int, s: SratView) -> SratView {
    if t[off] == TYPE_MEMORY_AFFINITY && t[off + 1] >= 24 && off + 24 <= t.len() && s.memory.len() < MAX_MEMORY_AFFINITIES {
        let node = affinity_node(t, off);
        SratView {
            memory: s.memory.push(
                MemoryAffinity {
                    base: PhysAddr(le64(t, off + 8) as u64),
                    length: le64(t, off + 16) as u64,
                    node,
                },
            ),
            nodes: if s.nodes >= node + 1 { s.nodes } else { (node + 1) as u16 },
        }
    } else {
        s
    }
}

/// Reads records from `off` while two bytes remain before `end`; a record
/// length of zero ends the walk.
pub open spec fn srat_walk(t: Seq<u8>, off: int, end: int, s: SratView) -> SratView
    decreases end + 256 - off,
{
    if off + 2 > end || off < 0 {
        s
    } else {
        let len = t[off + 1] as int;
        if len == 0 {
            s
        } else {
            srat_walk(t, off + len, end, srat_step(t, off, s))
        }
    }
}

/// The number of nodes a list of memory ranges names: one more than the
/// highest node among them, and at least one.
pub open spec fn node_span(mem: Seq<MemoryAffinity>) -> int
    decreases mem.len(),
{
    if mem.len() == 0 {
        1
    } else {
        let rest = node_span(mem.drop_last());
        let n = mem.last().node + 1;
        if rest >= n { rest } else { n }
    }
}

/// The node count of a view is the span of its ranges' nodes, each below 4096.
pub open spec fn nodes_consistent(s: SratView) -> bool {
    &&& s.nodes == node_span(s.memory)
    &&& forall|i: int| 0 <= i < s.memory.len() ==> (#[trigger] s.memory[i]).node < 0x1000
}

/// The span is at least one, above every node, and at most 4096 when every
/// node is below 4096.
pub proof fn lemma_node_span_bounds(mem: Seq<MemoryAffinity>)
    ensures
        node_span(mem) >= 1,
        forall|i: int| 0 <= i < mem.len() ==> (#[trigger] mem[i]).node < node_span(mem),
        (forall|i: int| 0 <= i < mem.len() ==> (#[trigger] mem[i]).node < 0x1000) ==> node_span(mem) <= 0x1000,
    decreases mem.len(),
{
    if mem.len() > 0 {
        let rest = mem.drop_last();
        lemma_node_span_bounds(rest);
        assert forall|i: int| 0 <= i < mem.len() implies (#[trigger] mem[i]).node < node_span(mem) by {
            if i < mem.len() - 1 {
                assert(mem[i] == rest[i]);
            }
        }
        if forall|i: int| 0 <= i < mem.len() ==> (#[trigger] mem[i]).node < 0x1000 {
            assert forall|i: int| 0 <= i < rest.len() implies (#[trigger] rest[i]).node < 0x1000 by {
                assert(rest[i] == mem[i]);
            }
            assert(mem[mem.len() - 1].node < 0x1000);
        }
    }
}

proof fn lemma_step_consistent(t: Seq<u8>, off: int, s: SratView)
    requires
        nodes_consistent(s),
    ensures
        nodes_consistent(srat_step(t, off, s)),
{
    if t[off] == TYPE_MEMORY_AFFINITY && t[off + 1] >= 24 && off + 24 <= t.len() && s.memory.len() < MAX_MEMORY_AFFINITIES {
        let after = srat_step(t, off, s);
        assert(after.memory.drop_last() =~= s.memory);
        assert(affinity_node(t, off) < 0x1000);
        assert forall|i: int| 0 <= i < after.memory.len() implies (#[trigger] after.memory[i]).node < 0x1000 by {
            if i < s.memory.len() {
                assert(after.memory[i] == s.memory[i]);
            }
        }
    }
}

proof fn lemma_walk_consistent(t: Seq<u8>, off: int, end: int, s: SratView)
    requires
        nodes_consistent(s),
    ensures
        nodes_consistent(srat_walk(t, off, end, s)),
    decreases end + 256 - off,
{
    if !(off + 2 > end || off < 0) {
        let len = t[off + 1] as int;
        if len != 0 {
            lemma_step_consistent(t, off, s);
            lemma_walk_consistent(t, off + len, end, srat_step(t, off, s));
        }
    }
}

pub open spec fn spec_parse_srat(t: Seq<u8>) -> SratView {
    srat_walk(t, SRAT_HEADER_LEN as int, le32(t, 4), SratView { memory: Seq::empty(), nodes: 1 })
}

pub struct Srat {
    memory: Vec<MemoryAffinity>,
    nodes: u16,
}

impl View for Srat {
    type V = SratView;

    closed spec fn view(&self) -> SratView {
        SratView { memory: self.memory@, nodes: self.nodes }
    }
}

impl Srat {
    /// Reads a SRAT from its bytes: the records from the end of the header up
    /// to the table's length. A memory-affinity record that runs past the
    /// bytes at hand is passed over.
    pub fn parse(table: &[u8]) -> (r: Self)
        requires
            table.len() >= SRAT_HEADER_LEN,
            le32(table@, 4) <= table.len(),
        ensures
            r@ == spec_parse_srat(table@),
            r@.memory.len() <= MAX_MEMORY_AFFINITIES,
            1 <= r@.nodes <= 0x1000,
            r@.nodes == node_span(r@.memory),
            forall|i: int| 0 <= i < r@.memory.len() ==> (#[trigger] r@.memory[i]).node < 0x1000 && r@.memory[i].node < r@.nodes,
    {
        proof {
            let init = SratView { memory: Seq::empty(), nodes: 1 };
            lemma_walk_consistent(table@, SRAT_HEADER_LEN as int, le32(table@, 4), init);
            lemma_node_span_bounds(spec_parse_srat(table@).memory);
        }
        let mut srat = Srat { memory: Vec::new(), nodes: 1 };
        let end = read_u32(table, 4) as u64;
        let mut offset: u64 = SRAT_HEADER_LEN as u64;
        proof {
            assert(srat@ =~= SratView { memory: Seq::empty(), nodes: 1 });
        }
        while offset + 2 <= end
            invariant
                SRAT_HEADER_LEN <= offset <= end + 255,
                end as int == le32(table@, 4),
                end <= table.len(),
                srat_walk(table@, offset as int, end as int, srat@) == spec_parse_srat(table@),
                srat@.memory.len() <= MAX_MEMORY_AFFINITIES,
                srat@.nodes >= 1,
                1 <= spec_parse_srat(table@).nodes <= 0x1000,
                spec_parse_srat(table@).nodes == node_span(spec_parse_srat(table@).memory),
                forall|i: int| 0 <= i < spec_parse_srat(table@).memory.len()
                    ==> (#[trigger] spec_parse_srat(table@).memory[i]).node < 0x1000
                        && spec_parse_srat(table@).memory[i].node < spec_parse_srat(table@).nodes,
            decreases end + 256 - offset,
        {
            let off = offset as usize;
            let kind = table[off];
            let len = table[off + 1];
            if len == 0 {
                return srat;
            }
            let ghost before = srat@;
            if kind == TYPE_MEMORY_AFFINITY && len >= 24 && table.len() >= 24 && off <= table.len() - 24 && srat.memory.len() < MAX_MEMORY_AFFINITIES {
                let base = read_u64(table, off + 8);
                let length = read_u64(table, off + 16);
                let raw = read_u16(table, off + 6);
                let node = raw & 0x0FFF;
                assert(raw & 0x0FFF == raw % 0x1000) by (bit_vector);
                srat.memory.push(MemoryAffinity { base: PhysAddr(base), length, node });
                if srat.nodes < node + 1 {
                    srat.nodes = node + 1;
                }
            }
            assert(srat@ =~= srat_step(table@, off as int, before));
            offset = offset + len as u64;
        }
        srat
    }

    pub fn memory_affinities(&self) -> (r: &[MemoryAffinity])
        ensures
            r@ == self@.memory,
    {
        self.memory.as_slice()
    }

    pub fn node_count(&self) -> (r: u32)
        ensures
            r == self@.nodes,
    {
        self.nodes as u32
    }
}

} // verus!
