//! NVMe: command encoding, queue bookkeeping and identify data for namespace 1.
//!
//! Register access and DMA memory stay with the caller; this module decides
//! what is written where and reads the controller's answers.

use vstd::prelude::*;
use crate::bytes::{le64, read_u64};
use crate::fs::block::{BlockError, BLOCK_SIZE};
use crate::fs::names::{is_utf8, utf8_ok};

verus! {

pub const QUEUE_DEPTH: u16 = 64;

pub const REG_CAP: u32 = 0x00;
pub const REG_CC: u32 = 0x14;
pub const REG_CSTS: u32 = 0x1C;
pub const REG_AQA: u32 = 0x24;
pub const REG_ASQ: u32 = 0x28;
pub const REG_ACQ: u32 = 0x30;

pub const CC_EN: u32 = 1;
pub const CSTS_RDY: u32 = 1;
/// First doorbell register.
pub const DOORBELL_BASE: u32 = 0x1000;

pub const ADMIN_OPC_CREATE_IO_CQ: u8 = 0x05;
pub const ADMIN_OPC_CREATE_IO_SQ: u8 = 0x01;
pub const ADMIN_OPC_IDENTIFY: u8 = 0x06;

pub const NVM_OPC_WRITE: u8 = 0x01;
pub const NVM_OPC_READ: u8 = 0x02;

#[derive(Clone, Copy, Debug, PartialEq, Eq, Structural)]
pub struct SubmissionEntry {
    pub cdw0: u32,
    pub nsid: u32,
    pub cdw2: u32,
    pub cdw3: u32,
    pub mptr: u64,
    pub prp1: u64,
    pub prp2: u64,
    pub cdw10: u32,
    pub cdw11: u32,
    pub cdw12: u32,
    pub cdw13: u32,
    pub cdw14: u32,
    pub cdw15: u32,
}

#[derive(Clone, Copy, Debug, PartialEq, Eq, Structural)]
pub struct CompletionEntry {
    pub dw0: u32,
    pub dw1: u32,
    pub sq_head: u16,
    pub sq_id: u16,
    pub cid: u16,
    pub status: u16,
}

pub open spec fn zero_entry() -> SubmissionEntry {
    SubmissionEntry { cdw0: 0, nsid: 0, cdw2: 0, cdw3: 0, mptr: 0, prp1: 0, prp2: 0,
        cdw10: 0, cdw11: 0, cdw12: 0, cdw13: 0, cdw14: 0, cdw15: 0 }
}

impl SubmissionEntry {
    pub fn zeroed() -> (r: Self)
        ensures
            r == zero_entry(),
    {
        SubmissionEntry { cdw0: 0, nsid: 0, cdw2: 0, cdw3: 0, mptr: 0, prp1: 0, prp2: 0,
            cdw10: 0, cdw11: 0, cdw12: 0, cdw13: 0, cdw14: 0, cdw15: 0 }
    }
}

/// IDENTIFY of namespace 1 (CNS 0) into the page at `buf_phys`.
pub fn identify_namespace(buf_phys: u64) -> (r: SubmissionEntry)
    ensures
        r == (SubmissionEntry { cdw0: ADMIN_OPC_IDENTIFY as u32, nsid: 1, prp1: buf_phys, cdw10: 0, ..zero_entry() }),
{
    SubmissionEntry { cdw0: ADMIN_OPC_IDENTIFY as u32, nsid: 1, prp1: buf_phys, cdw10: 0, ..SubmissionEntry::zeroed() }
}

/// IDENTIFY of the controller (CNS 1) into the page at `buf_phys`.
pub fn identify_controller(buf_phys: u64) -> (r: SubmissionEntry)
    ensures
        r == (SubmissionEntry { cdw0: ADMIN_OPC_IDENTIFY as u32, nsid: 0, prp1: buf_phys, cdw10: 1, ..zero_entry() }),
{
    SubmissionEntry { cdw0: ADMIN_OPC_IDENTIFY as u32, nsid: 0, prp1: buf_phys, cdw10: 1, ..SubmissionEntry::zeroed() }
}

/// Creates I/O completion queue 1 of `QUEUE_DEPTH` entries, physically contiguous.
pub fn create_io_cq(cq_phys: u64) -> (r: SubmissionEntry)
    ensures
        r == (SubmissionEntry { cdw0: ADMIN_OPC_CREATE_IO_CQ as u32, prp1: cq_phys,
            cdw10: 0x003F_0001, cdw11: 1, ..zero_entry() }),
{
    assert((63u32 << 16u32) | 1u32 == 0x003F_0001u32) by (bit_vector);
    SubmissionEntry { cdw0: ADMIN_OPC_CREATE_IO_CQ as u32, prp1: cq_phys,
        cdw10: ((QUEUE_DEPTH as u32 - 1) << 16u32) | 1, cdw11: 1, ..SubmissionEntry::zeroed() }
}

/// Creates I/O submission queue 1, tied to completion queue 1.
pub fn create_io_sq(sq_phys: u64) -> (r: SubmissionEntry)
    ensures
        r == (SubmissionEntry { cdw0: ADMIN_OPC_CREATE_IO_SQ as u32, prp1: sq_phys,
            cdw10: 0x003F_0001, cdw11: 0x0001_0001, ..zero_entry() }),
{
    assert((63u32 << 16u32) | 1u32 == 0x003F_0001u32) by (bit_vector);
    assert((1u32 << 16u32) | 1u32 == 0x0001_0001u32) by (bit_vector);
    SubmissionEntry { cdw0: ADMIN_OPC_CREATE_IO_SQ as u32, prp1: sq_phys,
        cdw10: ((QUEUE_DEPTH as u32 - 1) << 16u32) | 1, cdw11: (1u32 << 16u32) | 1, ..SubmissionEntry::zeroed() }
}

/// READ or WRITE of `count` (at least 1) logical blocks from `lba` on
/// namespace 1, through the buffer at `buf_phys`.
pub fn transfer_entry(lba: u64, count: u16, write: bool, buf_phys: u64) -> (r: SubmissionEntry)
    requires
        count >= 1,
    ensures
        r == (SubmissionEntry {
            cdw0: if write { NVM_OPC_WRITE as u32 } else { NVM_OPC_READ as u32 },
            nsid: 1,
            prp1: buf_phys,
            cdw10: lba as u32,
            cdw11: (lba >> 32u64) as u32,
            cdw12: (count - 1) as u32,
            ..zero_entry()
        }),
{
    SubmissionEntry {
        cdw0: if write { NVM_OPC_WRITE as u32 } else { NVM_OPC_READ as u32 },
        nsid: 1,
        prp1: buf_phys,
        cdw10: lba as u32,
        cdw11: (lba >> 32u64) as u32,
        cdw12: (count - 1) as u32,
        ..SubmissionEntry::zeroed()
    }
}

/// Doorbell stride in bytes: 4 shifted by CAP.DSTRD (bits 32..35).
pub fn doorbell_stride(cap: u64) -> (r: u32)
    ensures
        r == 1u32 << (2 + ((cap >> 32u64) & 0xF)) as u32,
        4 <= r <= 131072,
{
    let dstrd = ((cap >> 32u64) & 0xF) as u32;
    assert(((cap >> 32u64) & 0xF) <= 15) by (bit_vector);
    let shift = 2 + dstrd;
    assert(4 <= 1u32 << shift <= 131072) by (bit_vector)
        requires
            2 <= shift <= 17,
    ;
    1u32 << shift
}

/// Doorbell offsets: admin SQ, admin CQ, I/O SQ, I/O CQ.
pub fn doorbells(stride: u32) -> (r: (u32, u32, u32, u32))
    requires
        stride <= 131072,
    ensures
        r == (DOORBELL_BASE, (DOORBELL_BASE + stride) as u32, (DOORBELL_BASE + 2 * stride) as u32,
            (DOORBELL_BASE + 3 * stride) as u32),
{
    (DOORBELL_BASE, DOORBELL_BASE + stride, DOORBELL_BASE + 2 * stride, DOORBELL_BASE + 3 * stride)
}

/// AQA: both admin queues `QUEUE_DEPTH` entries (zero-based sizes).
pub fn admin_queue_attrs() -> (r: u32)
    ensures
        r == 0x003F_003F,
{
    let d = QUEUE_DEPTH as u32 - 1;
    assert((63u32 << 16u32) | 63u32 == 0x003F_003Fu32) by (bit_vector);
    (d << 16u32) | d
}

/// CC to enable the controller: 64-byte SQ and 16-byte CQ entries, 4 KiB
/// pages, NVM command set.
pub fn enable_config() -> (r: u32)
    ensures
        r == 0x0046_0001,
{
    assert((6u32 << 16u32) | (4u32 << 20u32) | 1u32 == 0x0046_0001u32) by (bit_vector);
    (6u32 << 16u32) | (4u32 << 20u32) | CC_EN
}

/// CC with the enable bit cleared.
pub fn disable_config(cc: u32) -> (r: u32)
    ensures
        r == cc & !CC_EN,
{
    cc & !CC_EN
}

pub fn is_ready(csts: u32) -> (r: bool)
    ensures
        r == (csts & CSTS_RDY != 0),
{
    csts & CSTS_RDY != 0
}

/// One submission and completion queue pair as the driver tracks it.
#[derive(Clone, Copy, Debug, PartialEq, Eq, Structural)]
pub struct QueueState {
    pub depth: u16,
    pub sq_tail: u16,
    pub cq_head: u16,
    pub phase: u16,
}

impl QueueState {
    pub open spec fn wf(self) -> bool {
        &&& self.depth > 0
        &&& self.sq_tail < self.depth
        &&& self.cq_head < self.depth
        &&& self.phase <= 1
    }

    /// An empty pair of `QUEUE_DEPTH` entries expecting phase 1.
    pub fn new() -> (r: Self)
        ensures
            r.wf(),
            r == (QueueState { depth: QUEUE_DEPTH, sq_tail: 0, cq_head: 0, phase: 1 }),
    {
        QueueState { depth: QUEUE_DEPTH, sq_tail: 0, cq_head: 0, phase: 1 }
    }

    /// Queues `entry` at the tail, tagged with the tail slot as its command
    /// id; returns the id, the tagged entry and the new tail for the doorbell.
    pub fn submit(&mut self, entry: SubmissionEntry) -> (r: (u16, SubmissionEntry, u16))
        requires
            old(self).wf(),
        ensures
            final(self).wf(),
            r.0 == old(self).sq_tail,
            r.1 == (SubmissionEntry { cdw0: (entry.cdw0 & 0xFFFF) | ((old(self).sq_tail as u32) << 16u32), ..entry }),
            r.2 == final(self).sq_tail,
            *final(self) == (QueueState { sq_tail: ((old(self).sq_tail + 1) % (old(self).depth as int)) as u16, ..*old(self) }),
    {
        let cid = self.sq_tail;
        let tagged = SubmissionEntry { cdw0: (entry.cdw0 & 0xFFFF) | ((cid as u32) << 16u32), ..entry };
        self.sq_tail = ((self.sq_tail as u32 + 1) % (self.depth as u32)) as u16;
        (cid, tagged, self.sq_tail)
    }

    /// Looks at the completion slot under the head. When its phase bit is
    /// the expected one the entry is consumed: the head moves on (the phase
    /// flips when it wraps) and the result is the entry, or `Io` for a
    /// nonzero status code. `None` means the controller has not answered yet.
    pub fn complete(&mut self, entry: CompletionEntry) -> (r: Option<Result<CompletionEntry, BlockError>>)
        requires
            old(self).wf(),
        ensures
            final(self).wf(),
            (entry.status & 1) != old(self).phase ==> r is None && *final(self) == *old(self),
            (entry.status & 1) == old(self).phase ==> {
                let head = ((old(self).cq_head + 1) % (old(self).depth as int)) as u16;
                &&& final(self).cq_head == head
                &&& final(self).phase == if head == 0 { (1 - old(self).phase) as u16 } else { old(self).phase }
                &&& final(self).sq_tail == old(self).sq_tail
                &&& final(self).depth == old(self).depth
                &&& r == Some(if (entry.status >> 1u16) & 0xFF != 0 {
                        Err::<CompletionEntry, BlockError>(BlockError::Io)
                    } else {
                        Ok::<CompletionEntry, BlockError>(entry)
                    })
            },
    {
        if (entry.status & 1) != self.phase {
            return None;
        }
        self.cq_head = ((self.cq_head as u32 + 1) % (self.depth as u32)) as u16;
        if self.cq_head == 0 {
            self.phase = 1 - self.phase;
        }
        if (entry.status >> 1u16) & 0xFF != 0 {
            return Some(Err(BlockError::Io));
        }
        Some(Ok(entry))
    }
}

/// Consuming one completion per slot, a full lap of the queue brings the
/// head back to 0 with the expected phase flipped once.
pub proof fn lemma_phase_flips_per_lap(depth: u16, head: u16)
    requires
        depth > 0,
        head < depth,
    ensures
        (head + 1) % (depth as int) == 0 <==> head == depth - 1,
{
    if head + 1 == depth {
        vstd::arithmetic::div_mod::lemma_mod_self_0(depth as int);
    } else {
        vstd::arithmetic::div_mod::lemma_small_mod((head + 1) as nat, depth as nat);
    }
}

/// Namespace size and logical block size from an IDENTIFY NAMESPACE page:
/// NSZE at byte 0, the LBA format chosen by FLBAS (byte 26, low nibble),
/// whose LBADS is byte 2 of its 4-byte entry at 128; blocks are at least
/// 512 bytes.
pub open spec fn spec_ns_geometry(page: Seq<u8>) -> (u64, u32) {
    let idx = (page[26] & 0x0F) as int;
    let lbads = page[128 + idx * 4 + 2] & 0x1F;
    let shift = if lbads < 9 { 9u8 } else { lbads };
    (le64(page, 0) as u64, 1u32 << shift as u32)
}

pub fn ns_geometry(page: &[u8]) -> (r: (u64, u32))
    requires
        page@.len() >= 192,
    ensures
        r == spec_ns_geometry(page@),
        512 <= r.1 <= 0x8000_0000,
{
    let nsze = read_u64(page, 0);
    let flbas = page[26];
    assert(flbas & 0x0F <= 15) by (bit_vector);
    let idx = (flbas & 0x0F) as usize;
    let fmt = page[128 + idx * 4 + 2];
    assert(fmt & 0x1F <= 31) by (bit_vector);
    let lbads = fmt & 0x1F;
    let shift: u8 = if lbads < 9 { 9 } else { lbads };
    assert(512 <= 1u32 << shift as u32 <= 0x8000_0000) by (bit_vector)
        requires
            9 <= shift <= 31,
    ;
    (nsze, 1u32 << shift as u32)
}

/// Blocks of `BLOCK_SIZE` in a namespace of `lba_count` blocks of `lba_size`.
pub fn device_blocks(lba_count: u64, lba_size: u32) -> (r: u64)
    requires
        lba_count as int * lba_size as int <= u64::MAX,
    ensures
        r == (lba_count as int * lba_size as int) / (BLOCK_SIZE as int),
{
    lba_count * (lba_size as u64) / (BLOCK_SIZE as u64)
}

/// The logical block and count that cover device block `block`, when the
/// logical block size divides `BLOCK_SIZE`.
pub fn block_lba(block: u64, lba_size: u32) -> (r: (u64, u16))
    requires
        lba_size > 0,
        (BLOCK_SIZE as int) % (lba_size as int) == 0,
        block as int * (BLOCK_SIZE as int / lba_size as int) <= u64::MAX,
    ensures
        r.0 == block as int * (BLOCK_SIZE as int / lba_size as int),
        r.1 == BLOCK_SIZE as int / lba_size as int,
{
    let per = (BLOCK_SIZE as u32) / lba_size;
    assert(per <= 4096) by (nonlinear_arith)
        requires
            per == 4096u32 / lba_size,
            lba_size > 0,
    ;
    (block * (per as u64), per as u16)
}

/// ASCII white space: tab, line feed, vertical tab, form feed, carriage
/// return and space.
pub open spec fn is_trim_space(b: u8) -> bool {
    b == 0x20 || (0x09 <= b && b <= 0x0D)
}

/// The three-byte UTF-8 encodings of white space: U+1680, U+2000 to U+200A,
/// U+2028, U+2029, U+202F, U+205F and U+3000.
pub open spec fn is_space3(a: u8, b: u8, c: u8) -> bool {
    ||| a == 0xE1 && b == 0x9A && c == 0x80
    ||| a == 0xE2 && b == 0x80 && ((0x80 <= c && c <= 0x8A) || c == 0xA8 || c == 0xA9 || c == 0xAF)
    ||| a == 0xE2 && b == 0x81 && c == 0x9F
    ||| a == 0xE3 && b == 0x80 && c == 0x80
}

/// The byte length of the white-space character (as `char::is_whitespace`
/// defines it) that ends just before `n` in UTF-8 text `s`, or 0.
pub open spec fn space_before(s: Seq<u8>, n: int) -> int {
    if n >= 1 && is_trim_space(s[n - 1]) {
        1
    } else if n >= 2 && s[n - 2] == 0xC2 && (s[n - 1] == 0x85 || s[n - 1] == 0xA0) {
        2
    } else if n >= 3 && is_space3(s[n - 3], s[n - 2], s[n - 1]) {
        3
    } else {
        0
    }
}

/// The byte length of the white-space character that starts at `i` and
/// ends by `end`, or 0.
pub open spec fn space_at(s: Seq<u8>, i: int, end: int) -> int {
    if i + 1 <= end && is_trim_space(s[i]) {
        1
    } else if i + 2 <= end && s[i] == 0xC2 && (s[i + 1] == 0x85 || s[i + 1] == 0xA0) {
        2
    } else if i + 3 <= end && is_space3(s[i], s[i + 1], s[i + 2]) {
        3
    } else {
        0
    }
}

/// Length of `s` up to `n` after dropping trailing white space.
pub open spec fn trailing_space(s: Seq<u8>, n: int) -> int
    decreases n,
{
    if n <= 0 {
        0
    } else if space_before(s, n) > 0 {
        trailing_space(s, n - space_before(s, n))
    } else {
        n
    }
}

/// First index at or after `i`, before `end`, where no white space starts.
pub open spec fn leading_space(s: Seq<u8>, i: int, end: int) -> int
    decreases end - i,
{
    if i >= end {
        end
    } else if space_at(s, i, end) > 0 {
        leading_space(s, i + space_at(s, i, end), end)
    } else {
        i
    }
}

/// Length of `s` up to `n` after dropping trailing NUL bytes.
pub open spec fn trailing_nul(s: Seq<u8>, n: int) -> int
    decreases n,
{
    if n <= 0 {
        0
    } else if s[n - 1] == 0 {
        trailing_nul(s, n - 1)
    } else {
        n
    }
}

/// The controller's model name: 40 bytes at offset 24 of the IDENTIFY
/// CONTROLLER page, as text when they are UTF-8 (else empty), with trailing
/// NULs removed and then white space removed from both ends.
pub open spec fn spec_model(page: Seq<u8>) -> Seq<u8> {
    let raw = page.subrange(24, 64);
    if !is_utf8(raw) {
        Seq::empty()
    } else {
        let no_nul = raw.subrange(0, trailing_nul(raw, 40));
        let end = trailing_space(no_nul, no_nul.len() as int);
        let start = leading_space(no_nul, 0, end);
        no_nul.subrange(start, end)
    }
}

fn trim_space(b: u8) -> (r: bool)
    ensures
        r == is_trim_space(b),
{
    b == 0x20 || (0x09 <= b && b <= 0x0D)
}

fn space3(a: u8, b: u8, c: u8) -> (r: bool)
    ensures
        r == is_space3(a, b, c),
{
    (a == 0xE1 && b == 0x9A && c == 0x80)
        || (a == 0xE2 && b == 0x80 && ((0x80 <= c && c <= 0x8A) || c == 0xA8 || c == 0xA9 || c == 0xAF))
        || (a == 0xE2 && b == 0x81 && c == 0x9F)
        || (a == 0xE3 && b == 0x80 && c == 0x80)
}

fn space_len_before(s: &Vec<u8>, n: usize) -> (r: usize)
    requires
        n <= s@.len(),
    ensures
        r == space_before(s@, n as int),
{
    if n >= 1 && trim_space(s[n - 1]) {
        1
    } else if n >= 2 && s[n - 2] == 0xC2 && (s[n - 1] == 0x85 || s[n - 1] == 0xA0) {
        2
    } else if n >= 3 && space3(s[n - 3], s[n - 2], s[n - 1]) {
        3
    } else {
        0
    }
}

fn space_len_at(s: &Vec<u8>, i: usize, end: usize) -> (r: usize)
    requires
        i <= end <= s@.len(),
    ensures
        r == space_at(s@, i as int, end as int),
{
    if end - i >= 1 && trim_space(s[i]) {
        1
    } else if end - i >= 2 && s[i] == 0xC2 && (s[i + 1] == 0x85 || s[i + 1] == 0xA0) {
        2
    } else if end - i >= 3 && space3(s[i], s[i + 1], s[i + 2]) {
        3
    } else {
        0
    }
}

pub fn controller_model(page: &[u8]) -> (r: Vec<u8>)
    requires
        page@.len() >= 64,
    ensures
        r@ == spec_model(page@),
{
    let ghost raw = page@.subrange(24, 64);
    let (head, _) = page.split_at(64);
    let (_, field) = head.split_at(24);
    assert(field@ =~= raw);
    if !utf8_ok(field) {
        return Vec::new();
    }
    let mut n: usize = 40;
    while n > 0 && field[n - 1] == 0
        invariant
            0 <= n <= 40,
            field@ == raw,
            raw.len() == 40,
            trailing_nul(raw, n as int) == trailing_nul(raw, 40),
        decreases n,
    {
        n = n - 1;
    }
    let mut text: Vec<u8> = Vec::new();
    let mut k: usize = 0;
    while k < n
        invariant
            0 <= k <= n <= 40,
            field@ == raw,
            raw.len() == 40,
            text@ == raw.subrange(0, k as int),
        decreases n - k,
    {
        text.push(field[k]);
        assert(text@ =~= raw.subrange(0, k + 1));
        k = k + 1;
    }
    let ghost no_nul = text@;
    let mut end: usize = n;
    loop
        invariant
            0 <= end <= n,
            text@ == no_nul,
            no_nul.len() == n,
            trailing_space(no_nul, end as int) == trailing_space(no_nul, n as int),
        ensures
            trailing_space(no_nul, n as int) == end,
            0 <= end <= n,
        decreases end,
    {
        if end == 0 {
            break;
        }
        let w = space_len_before(&text, end);
        if w == 0 {
            break;
        }
        end = end - w;
    }
    let mut start: usize = 0;
    loop
        invariant
            0 <= start <= end <= n,
            text@ == no_nul,
            no_nul.len() == n,
            leading_space(no_nul, start as int, end as int) == leading_space(no_nul, 0, end as int),
        ensures
            leading_space(no_nul, 0, end as int) == start,
            0 <= start <= end,
        decreases end - start,
    {
        if start >= end {
            break;
        }
        let w = space_len_at(&text, start, end);
        if w == 0 {
            break;
        }
        start = start + w;
    }
    let mut out: Vec<u8> = Vec::new();
    let mut k: usize = start;
    while k < end
        invariant
            start <= k <= end <= n,
            text@ == no_nul,
            no_nul.len() == n,
            out@ == no_nul.subrange(start as int, k as int),
        decreases end - k,
    {
        out.push(text[k]);
        assert(out@ =~= no_nul.subrange(start as int, k + 1));
        k = k + 1;
    }
    proof {
        if n > 0 {
            assert(raw[n - 1] != 0);
        }
        assert(no_nul == raw.subrange(0, trailing_nul(raw, 40)));
    }
    out
}

/// Polls of CSTS while waiting for the disabled controller to drop RDY.
pub const IDLE_POLLS: u32 = 500000;
/// Polls of CSTS while waiting for the enabled controller to raise RDY.
pub const READY_POLLS: u32 = 2000000;

/// Why bringing a controller up stopped.
#[derive(Clone, Copy, Debug, PartialEq, Eq, Structural)]
pub enum NvmeInitError {
    NoMemory,
    NotReady,
    IdentifyFailed,
    CreateCqFailed,
    CreateSqFailed,
}

/// The steps of bringing a controller up, in order.
#[derive(Clone, Copy, Debug, PartialEq, Eq, Structural)]
pub enum InitPhase {
    ReadCap,
    ReadCc,
    Disable,
    WaitIdle,
    AllocAdminSq,
    AllocAdminCq,
    SetAdmin,
    Enable,
    WaitReady,
    AllocIdBuf,
    IdentifyNs,
    ReadNs,
    IdentifyCtrl,
    ReadCtrl,
    AllocIoSq,
    AllocIoCq,
    CreateCq,
    CreateSq,
    AllocBounce,
    Done,
    Failed(NvmeInitError),
}

/// What the driver asks of the controller or the memory allocator next.
#[derive(Clone, Copy, Debug, PartialEq, Eq, Structural)]
pub enum NvmeAction {
    /// Read the 64-bit CAP register.
    ReadCap,
    /// Read CC.
    ReadCc,
    /// Read CSTS.
    ReadCsts,
    /// Write CC.
    WriteCc(u32),
    /// Allocate one zeroed DMA page; answered with its physical address.
    AllocPage,
    /// Write ASQ, ACQ and AQA.
    SetAdminQueues { asq: u64, acq: u64, aqa: u32 },
    /// Submit on the admin queue and wait for the completion.
    Admin(SubmissionEntry),
    /// Read the 4096 bytes of the page at this physical address.
    ReadPage(u64),
    /// The controller is up.
    Finished,
    /// Bring-up gave up.
    Failed(NvmeInitError),
}

/// The answer to the last action.
pub enum NvmeEvent {
    Register(u64),
    Written,
    Page(Option<u64>),
    Completed(bool),
    Data(Vec<u8>),
}

/// Bring-up of one controller: where it stands, and what it has learned.
pub struct NvmeInit {
    pub phase: InitPhase,
    pub polls: u32,
    pub cc: u32,
    pub stride: u32,
    pub admin_sq: u64,
    pub admin_cq: u64,
    pub id_buf: u64,
    pub io_sq: u64,
    pub io_cq: u64,
    pub bounce: u64,
    pub lba_count: u64,
    pub lba_size: u32,
    pub model: Vec<u8>,
}

pub struct InitView {
    pub phase: InitPhase,
    pub polls: u32,
    pub cc: u32,
    pub stride: u32,
    pub admin_sq: u64,
    pub admin_cq: u64,
    pub id_buf: u64,
    pub io_sq: u64,
    pub io_cq: u64,
    pub bounce: u64,
    pub lba_count: u64,
    pub lba_size: u32,
    pub model: Seq<u8>,
}

impl View for NvmeInit {
    type V = InitView;

    open spec fn view(&self) -> InitView {
        InitView {
            phase: self.phase,
            polls: self.polls,
            cc: self.cc,
            stride: self.stride,
            admin_sq: self.admin_sq,
            admin_cq: self.admin_cq,
            id_buf: self.id_buf,
            io_sq: self.io_sq,
            io_cq: self.io_cq,
            bounce: self.bounce,
            lba_count: self.lba_count,
            lba_size: self.lba_size,
            model: self.model@,
        }
    }
}

/// The action each phase asks for.
pub open spec fn spec_action(s: InitView) -> NvmeAction {
    match s.phase {
        InitPhase::ReadCap => NvmeAction::ReadCap,
        InitPhase::ReadCc => NvmeAction::ReadCc,
        InitPhase::Disable => NvmeAction::WriteCc(s.cc),
        InitPhase::WaitIdle => NvmeAction::ReadCsts,
        InitPhase::AllocAdminSq => NvmeAction::AllocPage,
        InitPhase::AllocAdminCq => NvmeAction::AllocPage,
        InitPhase::SetAdmin => NvmeAction::SetAdminQueues { asq: s.admin_sq, acq: s.admin_cq, aqa: 0x003F_003F },
        InitPhase::Enable => NvmeAction::WriteCc(0x0046_0001),
        InitPhase::WaitReady => NvmeAction::ReadCsts,
        InitPhase::AllocIdBuf => NvmeAction::AllocPage,
        InitPhase::IdentifyNs => NvmeAction::Admin(SubmissionEntry { cdw0: ADMIN_OPC_IDENTIFY as u32, nsid: 1,
            prp1: s.id_buf, cdw10: 0, ..zero_entry() }),
        InitPhase::ReadNs => NvmeAction::ReadPage(s.id_buf),
        InitPhase::IdentifyCtrl => NvmeAction::Admin(SubmissionEntry { cdw0: ADMIN_OPC_IDENTIFY as u32, nsid: 0,
            prp1: s.id_buf, cdw10: 1, ..zero_entry() }),
        InitPhase::ReadCtrl => NvmeAction::ReadPage(s.id_buf),
        InitPhase::AllocIoSq => NvmeAction::AllocPage,
        InitPhase::AllocIoCq => NvmeAction::AllocPage,
        InitPhase::CreateCq => NvmeAction::Admin(SubmissionEntry { cdw0: ADMIN_OPC_CREATE_IO_CQ as u32,
            prp1: s.io_cq, cdw10: 0x003F_0001, cdw11: 1, ..zero_entry() }),
        InitPhase::CreateSq => NvmeAction::Admin(SubmissionEntry { cdw0: ADMIN_OPC_CREATE_IO_SQ as u32,
            prp1: s.io_sq, cdw10: 0x003F_0001, cdw11: 0x0001_0001, ..zero_entry() }),
        InitPhase::AllocBounce => NvmeAction::AllocPage,
        InitPhase::Done => NvmeAction::Finished,
        InitPhase::Failed(e) => NvmeAction::Failed(e),
    }
}

/// Whether `ev` is the kind of answer `a` gets (pages come whole).
pub open spec fn answers(a: NvmeAction, ev: NvmeEvent) -> bool {
    match a {
        NvmeAction::ReadCap | NvmeAction::ReadCc | NvmeAction::ReadCsts => ev is Register,
        NvmeAction::WriteCc(_) | NvmeAction::SetAdminQueues { .. } => ev is Written,
        NvmeAction::AllocPage => ev is Page,
        NvmeAction::Admin(_) => ev is Completed,
        NvmeAction::ReadPage(_) => ev matches NvmeEvent::Data(d) && d@.len() == 4096,
        NvmeAction::Finished | NvmeAction::Failed(_) => false,
    }
}

/// The phase after an allocation: the next one, or out of memory.
pub open spec fn after_alloc(s: InitView, page: Option<u64>, next: InitPhase) -> InitView {
    match page {
        Some(_) => InitView { phase: next, ..s },
        None => InitView { phase: InitPhase::Failed(NvmeInitError::NoMemory), ..s },
    }
}

/// The transition on an answer: the register values, pages and command
/// outcomes the bring-up takes in, and where it goes from there.
pub open spec fn spec_feed(s: InitView, ev: NvmeEvent) -> InitView {
    match (s.phase, ev) {
        (InitPhase::ReadCap, NvmeEvent::Register(cap)) =>
            InitView { phase: InitPhase::ReadCc, stride: 1u32 << (2 + ((cap >> 32u64) & 0xF)) as u32, ..s },
        (InitPhase::ReadCc, NvmeEvent::Register(v)) =>
            InitView { phase: InitPhase::Disable, cc: (v as u32) & !CC_EN, ..s },
        (InitPhase::Disable, _) => InitView { phase: InitPhase::WaitIdle, polls: 0, ..s },
        (InitPhase::WaitIdle, NvmeEvent::Register(v)) =>
            if (v as u32) & CSTS_RDY == 0 || s.polls + 1 >= IDLE_POLLS {
                InitView { phase: InitPhase::AllocAdminSq, ..s }
            } else {
                InitView { polls: (s.polls + 1) as u32, ..s }
            },
        (InitPhase::AllocAdminSq, NvmeEvent::Page(p)) =>
            after_alloc(InitView { admin_sq: if p is Some { p->0 } else { s.admin_sq }, ..s }, p, InitPhase::AllocAdminCq),
        (InitPhase::AllocAdminCq, NvmeEvent::Page(p)) =>
            after_alloc(InitView { admin_cq: if p is Some { p->0 } else { s.admin_cq }, ..s }, p, InitPhase::SetAdmin),
        (InitPhase::SetAdmin, _) => InitView { phase: InitPhase::Enable, ..s },
        (InitPhase::Enable, _) => InitView { phase: InitPhase::WaitReady, polls: 0, ..s },
        (InitPhase::WaitReady, NvmeEvent::Register(v)) =>
            if (v as u32) & CSTS_RDY != 0 {
                InitView { phase: InitPhase::AllocIdBuf, ..s }
            } else if s.polls + 1 >= READY_POLLS {
                InitView { phase: InitPhase::Failed(NvmeInitError::NotReady), ..s }
            } else {
                InitView { polls: (s.polls + 1) as u32, ..s }
            },
        (InitPhase::AllocIdBuf, NvmeEvent::Page(p)) =>
            after_alloc(InitView { id_buf: if p is Some { p->0 } else { s.id_buf }, ..s }, p, InitPhase::IdentifyNs),
        (InitPhase::IdentifyNs, NvmeEvent::Completed(ok)) =>
            InitView { phase: if ok { InitPhase::ReadNs } else { InitPhase::Failed(NvmeInitError::IdentifyFailed) }, ..s },
        (InitPhase::ReadNs, NvmeEvent::Data(d)) =>
            InitView { phase: InitPhase::IdentifyCtrl, lba_count: spec_ns_geometry(d@).0,
                lba_size: spec_ns_geometry(d@).1, ..s },
        (InitPhase::IdentifyCtrl, _) => InitView { phase: InitPhase::ReadCtrl, ..s },
        (InitPhase::ReadCtrl, NvmeEvent::Data(d)) =>
            InitView { phase: InitPhase::AllocIoSq, model: spec_model(d@), ..s },
        (InitPhase::AllocIoSq, NvmeEvent::Page(p)) =>
            after_alloc(InitView { io_sq: if p is Some { p->0 } else { s.io_sq }, ..s }, p, InitPhase::AllocIoCq),
        (InitPhase::AllocIoCq, NvmeEvent::Page(p)) =>
            after_alloc(InitView { io_cq: if p is Some { p->0 } else { s.io_cq }, ..s }, p, InitPhase::CreateCq),
        (InitPhase::CreateCq, NvmeEvent::Completed(ok)) =>
            InitView { phase: if ok { InitPhase::CreateSq } else { InitPhase::Failed(NvmeInitError::CreateCqFailed) }, ..s },
        (InitPhase::CreateSq, NvmeEvent::Completed(ok)) =>
            InitView { phase: if ok { InitPhase::AllocBounce } else { InitPhase::Failed(NvmeInitError::CreateSqFailed) }, ..s },
        (InitPhase::AllocBounce, NvmeEvent::Page(p)) =>
            after_alloc(InitView { bounce: if p is Some { p->0 } else { s.bounce }, ..s }, p, InitPhase::Done),
        _ => s,
    }
}

/// Steps left at most before the bring-up ends: each step takes one, and
/// the two CSTS waits take at most their poll limits.
pub open spec fn remaining(s: InitView) -> int {
    match s.phase {
        InitPhase::ReadCap => 2500017,
        InitPhase::ReadCc => 2500016,
        InitPhase::Disable => 2500015,
        InitPhase::WaitIdle => IDLE_POLLS - s.polls + 2000014,
        InitPhase::AllocAdminSq => 2000014,
        InitPhase::AllocAdminCq => 2000013,
        InitPhase::SetAdmin => 2000012,
        InitPhase::Enable => 2000011,
        InitPhase::WaitReady => READY_POLLS - s.polls + 10,
        InitPhase::AllocIdBuf => 10,
        InitPhase::IdentifyNs => 9,
        InitPhase::ReadNs => 8,
        InitPhase::IdentifyCtrl => 7,
        InitPhase::ReadCtrl => 6,
        InitPhase::AllocIoSq => 5,
        InitPhase::AllocIoCq => 4,
        InitPhase::CreateCq => 3,
        InitPhase::CreateSq => 2,
        InitPhase::AllocBounce => 1,
        InitPhase::Done => 0,
        InitPhase::Failed(_) => 0,
    }
}

impl NvmeInit {
    pub open spec fn wf(&self) -> bool {
        &&& self.phase == InitPhase::WaitIdle ==> self.polls < IDLE_POLLS
        &&& self.phase == InitPhase::WaitReady ==> self.polls < READY_POLLS
    }

    pub fn new() -> (r: Self)
        ensures
            r.wf(),
            r.phase == InitPhase::ReadCap,
            r.model@.len() == 0,
    {
        NvmeInit { phase: InitPhase::ReadCap, polls: 0, cc: 0, stride: 4, admin_sq: 0, admin_cq: 0, id_buf: 0,
            io_sq: 0, io_cq: 0, bounce: 0, lba_count: 0, lba_size: 512, model: Vec::new() }
    }

    /// What to do next.
    pub fn action(&self) -> (r: NvmeAction)
        ensures
            r == spec_action(self@),
    {
        match self.phase {
            InitPhase::ReadCap => NvmeAction::ReadCap,
            InitPhase::ReadCc => NvmeAction::ReadCc,
            InitPhase::Disable => NvmeAction::WriteCc(self.cc),
            InitPhase::WaitIdle => NvmeAction::ReadCsts,
            InitPhase::AllocAdminSq => NvmeAction::AllocPage,
            InitPhase::AllocAdminCq => NvmeAction::AllocPage,
            InitPhase::SetAdmin => NvmeAction::SetAdminQueues { asq: self.admin_sq, acq: self.admin_cq,
                aqa: admin_queue_attrs() },
            InitPhase::Enable => NvmeAction::WriteCc(enable_config()),
            InitPhase::WaitReady => NvmeAction::ReadCsts,
            InitPhase::AllocIdBuf => NvmeAction::AllocPage,
            InitPhase::IdentifyNs => NvmeAction::Admin(identify_namespace(self.id_buf)),
            InitPhase::ReadNs => NvmeAction::ReadPage(self.id_buf),
            InitPhase::IdentifyCtrl => NvmeAction::Admin(identify_controller(self.id_buf)),
            InitPhase::ReadCtrl => NvmeAction::ReadPage(self.id_buf),
            InitPhase::AllocIoSq => NvmeAction::AllocPage,
            InitPhase::AllocIoCq => NvmeAction::AllocPage,
            InitPhase::CreateCq => NvmeAction::Admin(create_io_cq(self.io_cq)),
            InitPhase::CreateSq => NvmeAction::Admin(create_io_sq(self.io_sq)),
            InitPhase::AllocBounce => NvmeAction::AllocPage,
            InitPhase::Done => NvmeAction::Finished,
            InitPhase::Failed(e) => NvmeAction::Failed(e),
        }
    }

    /// Takes the answer to `action()` and moves on.
    pub fn feed(&mut self, ev: NvmeEvent)
        requires
            old(self).wf(),
            answers(spec_action(old(self)@), ev),
        ensures
            final(self).wf(),
            final(self)@ == spec_feed(old(self)@, ev),
            remaining(final(self)@) < remaining(old(self)@),
    {
        match (self.phase, ev) {
            (InitPhase::ReadCap, NvmeEvent::Register(cap)) => {
                self.stride = doorbell_stride(cap);
                self.phase = InitPhase::ReadCc;
            },
            (InitPhase::ReadCc, NvmeEvent::Register(v)) => {
                self.cc = disable_config(v as u32);
                self.phase = InitPhase::Disable;
            },
            (InitPhase::Disable, _) => {
                self.polls = 0;
                self.phase = InitPhase::WaitIdle;
            },
            (InitPhase::WaitIdle, NvmeEvent::Register(v)) => {
                if !is_ready(v as u32) || self.polls + 1 >= IDLE_POLLS {
                    self.phase = InitPhase::AllocAdminSq;
                } else {
                    self.polls = self.polls + 1;
                }
            },
            (InitPhase::AllocAdminSq, NvmeEvent::Page(p)) => match p {
                Some(a) => {
                    self.admin_sq = a;
                    self.phase = InitPhase::AllocAdminCq;
                },
                None => self.phase = InitPhase::Failed(NvmeInitError::NoMemory),
            },
            (InitPhase::AllocAdminCq, NvmeEvent::Page(p)) => match p {
                Some(a) => {
                    self.admin_cq = a;
                    self.phase = InitPhase::SetAdmin;
                },
                None => self.phase = InitPhase::Failed(NvmeInitError::NoMemory),
            },
            (InitPhase::SetAdmin, _) => self.phase = InitPhase::Enable,
            (InitPhase::Enable, _) => {
                self.polls = 0;
                self.phase = InitPhase::WaitReady;
            },
            (InitPhase::WaitReady, NvmeEvent::Register(v)) => {
                if is_ready(v as u32) {
                    self.phase = InitPhase::AllocIdBuf;
                } else if self.polls + 1 >= READY_POLLS {
                    self.phase = InitPhase::Failed(NvmeInitError::NotReady);
                } else {
                    self.polls = self.polls + 1;
                }
            },
            (InitPhase::AllocIdBuf, NvmeEvent::Page(p)) => match p {
                Some(a) => {
                    self.id_buf = a;
                    self.phase = InitPhase::IdentifyNs;
                },
                None => self.phase = InitPhase::Failed(NvmeInitError::NoMemory),
            },
            (InitPhase::IdentifyNs, NvmeEvent::Completed(ok)) => {
                self.phase = if ok { InitPhase::ReadNs } else { InitPhase::Failed(NvmeInitError::IdentifyFailed) };
            },
            (InitPhase::ReadNs, NvmeEvent::Data(d)) => {
                let (count, size) = ns_geometry(d.as_slice());
                self.lba_count = count;
                self.lba_size = size;
                self.phase = InitPhase::IdentifyCtrl;
            },
            (InitPhase::IdentifyCtrl, _) => self.phase = InitPhase::ReadCtrl,
            (InitPhase::ReadCtrl, NvmeEvent::Data(d)) => {
                self.model = controller_model(d.as_slice());
                self.phase = InitPhase::AllocIoSq;
            },
            (InitPhase::AllocIoSq, NvmeEvent::Page(p)) => match p {
                Some(a) => {
                    self.io_sq = a;
                    self.phase = InitPhase::AllocIoCq;
                },
                None => self.phase = InitPhase::Failed(NvmeInitError::NoMemory),
            },
            (InitPhase::AllocIoCq, NvmeEvent::Page(p)) => match p {
                Some(a) => {
                    self.io_cq = a;
                    self.phase = InitPhase::CreateCq;
                },
                None => self.phase = InitPhase::Failed(NvmeInitError::NoMemory),
            },
            (InitPhase::CreateCq, NvmeEvent::Completed(ok)) => {
                self.phase = if ok { InitPhase::CreateSq } else { InitPhase::Failed(NvmeInitError::CreateCqFailed) };
            },
            (InitPhase::CreateSq, NvmeEvent::Completed(ok)) => {
                self.phase = if ok { InitPhase::AllocBounce } else { InitPhase::Failed(NvmeInitError::CreateSqFailed) };
            },
            (InitPhase::AllocBounce, NvmeEvent::Page(p)) => match p {
                Some(a) => {
                    self.bounce = a;
                    self.phase = InitPhase::Done;
                },
                None => self.phase = InitPhase::Failed(NvmeInitError::NoMemory),
            },
            _ => {},
        }
    }
}

} // verus!
