//! AHCI/SATA: port checks, command list and FIS encoding, IDENTIFY data.
//!
//! Register access and DMA memory stay with the caller; this module decides
//! what is written and reads the device's answers. Transfers are LBA48 DMA
//! of whole 4 KiB blocks (8 sectors of 512 bytes).

use vstd::prelude::*;
use crate::fs::block::{BlockError, BLOCK_SIZE};

verus! {

pub const SATA_SECTOR_SIZE: usize = 512;
pub const SECTORS_PER_BLOCK: usize = 8;

pub const HBA_CAP: u32 = 0x00;
pub const HBA_GHC: u32 = 0x04;
pub const HBA_IS: u32 = 0x08;
pub const HBA_PI: u32 = 0x0C;
pub const HBA_VS: u32 = 0x10;
pub const GHC_AE: u32 = 0x8000_0000;
pub const GHC_HR: u32 = 1;

pub const P_CLB: u32 = 0x00;
pub const P_CLBU: u32 = 0x04;
pub const P_FB: u32 = 0x08;
pub const P_FBU: u32 = 0x0C;
pub const P_IS: u32 = 0x10;
pub const P_IE: u32 = 0x14;
pub const P_CMD: u32 = 0x18;
pub const P_TFD: u32 = 0x20;
pub const P_SIG: u32 = 0x24;
pub const P_SSTS: u32 = 0x28;
pub const P_SERR: u32 = 0x30;
pub const P_CI: u32 = 0x38;

pub const PCMD_ST: u32 = 0x0001;
pub const PCMD_FRE: u32 = 0x0010;
pub const PCMD_FR: u32 = 0x4000;
pub const PCMD_CR: u32 = 0x8000;

pub const SIG_ATA: u32 = 0x0000_0101;

pub const ATA_CMD_IDENTIFY: u8 = 0xEC;
pub const ATA_CMD_READ_DMA_EXT: u8 = 0x25;
pub const ATA_CMD_WRITE_DMA_EXT: u8 = 0x35;
pub const FIS_TYPE_REG_H2D: u8 = 0x27;
/// Length of a host-to-device register FIS in dwords.
pub const FIS_H2D_DWORDS: u16 = 5;
/// Task-file error bit, and the port interrupt status bit for a task-file error.
pub const TFD_ERR: u32 = 1;
pub const IS_TFES: u32 = 0x4000_0000;

/// Register block of port `port_idx` under the HBA's registers at `mmio`.
pub fn port_base(mmio: u64, port_idx: u8) -> (r: u64)
    requires
        mmio + 0x100 + 255 * 0x80 <= u64::MAX,
    ensures
        r == mmio + 0x100 + port_idx * 0x80,
{
    mmio + 0x100 + (port_idx as u64) * 0x80
}

/// A port is used when a device is present with the link up (DET 3, IPM 1)
/// and its signature is that of an ATA disk.
pub fn port_usable(ssts: u32, sig: u32) -> (r: bool)
    ensures
        r == ((ssts & 0x0F) == 3 && ((ssts >> 8u32) & 0x0F) == 1 && sig == SIG_ATA),
{
    let det = ssts & 0x0F;
    let ipm = (ssts >> 8u32) & 0x0F;
    det == 3 && ipm == 1 && sig == SIG_ATA
}

/// PxCMD with the command engine and FIS receive turned off.
pub fn stopped_cmd(cmd: u32) -> (r: u32)
    ensures
        r == cmd & !(PCMD_ST | PCMD_FRE),
{
    cmd & !(PCMD_ST | PCMD_FRE)
}

/// PxCMD with FIS receive and the command engine turned on.
pub fn started_cmd(cmd: u32) -> (r: u32)
    ensures
        r == cmd | PCMD_FRE | PCMD_ST,
{
    cmd | PCMD_FRE | PCMD_ST
}

/// Both engines have stopped running.
pub fn engines_idle(cmd: u32) -> (r: bool)
    ensures
        r == (cmd & (PCMD_FR | PCMD_CR) == 0),
{
    cmd & (PCMD_FR | PCMD_CR) == 0
}

/// The command list engine is still running.
pub fn list_running(cmd: u32) -> (r: bool)
    ensures
        r == (cmd & PCMD_CR != 0),
{
    cmd & PCMD_CR != 0
}

/// GHC with AHCI mode enabled.
pub fn ahci_enabled(ghc: u32) -> (r: u32)
    ensures
        r == ghc | GHC_AE,
{
    ghc | GHC_AE
}

/// Layout of a port's DMA page: command list at its start, received FIS at
/// 1 KiB, command table at 2 KiB.
pub fn dma_layout(page_phys: u64) -> (r: (u64, u64))
    requires
        page_phys + 2048 <= u64::MAX,
    ensures
        r == ((page_phys + 1024) as u64, (page_phys + 2048) as u64),
{
    (page_phys + 1024, page_phys + 2048)
}

/// The ports that the PI register says are implemented, in order.
pub fn implemented_ports(pi: u32) -> (r: Vec<u8>)
    ensures
        forall|k: int| 0 <= k < r@.len() ==> r@[k] < 32 && (pi >> (#[trigger] r@[k]) as u32) & 1 == 1,
        forall|k: int, l: int| 0 <= k < l < r@.len() ==> r@[k] < r@[l],
        forall|p: u8| p < 32 && (pi >> p as u32) & 1 == 1 ==> r@.contains(p),
{
    let mut out: Vec<u8> = Vec::new();
    let mut p: u8 = 0;
    while p < 32
        invariant
            0 <= p <= 32,
            forall|k: int| 0 <= k < out@.len() ==> out@[k] < p && (pi >> (#[trigger] out@[k]) as u32) & 1 == 1,
            forall|k: int, l: int| 0 <= k < l < out@.len() ==> out@[k] < out@[l],
            forall|q: u8| q < p && (pi >> q as u32) & 1 == 1 ==> out@.contains(q),
        decreases 32 - p,
    {
        let ghost before = out@;
        if (pi >> p as u32) & 1 == 1 {
            out.push(p);
            assert(out@[out@.len() - 1] == p);
        }
        proof {
            assert forall|q: u8| q < p + 1 && (pi >> q as u32) & 1 == 1 implies out@.contains(q) by {
                if q == p {
                    assert(out@[out@.len() - 1] == p);
                } else {
                    assert(before.contains(q));
                    let k = choose|k: int| 0 <= k < before.len() && before[k] == q;
                    assert(out@[k] == q);
                }
            }
        }
        p = p + 1;
    }
    out
}

#[derive(Clone, Copy, Debug, PartialEq, Eq, Structural)]
pub struct CommandHeader {
    pub flags: u16,
    pub prdt_length: u16,
    pub prd_byte_count: u32,
    pub command_table_base_lo: u32,
    pub command_table_base_hi: u32,
}

/// Header of command slot 0: an H2D FIS, the write bit for writes, one
/// PRD entry, and the command table's address.
pub fn command_header(write: bool, table_phys: u64) -> (r: CommandHeader)
    ensures
        r == (CommandHeader {
            flags: if write { 5u16 | 0x40u16 } else { 5u16 },
            prdt_length: 1,
            prd_byte_count: 0,
            command_table_base_lo: table_phys as u32,
            command_table_base_hi: (table_phys >> 32u64) as u32,
        }),
{
    let mut flags: u16 = FIS_H2D_DWORDS & 0x1F;
    assert(5u16 & 0x1Fu16 == 5u16) by (bit_vector);
    if write {
        flags = flags | 0x40;
    }
    CommandHeader {
        flags,
        prdt_length: 1,
        prd_byte_count: 0,
        command_table_base_lo: table_phys as u32,
        command_table_base_hi: (table_phys >> 32u64) as u32,
    }
}

#[derive(Clone, Copy, Debug, PartialEq, Eq, Structural)]
pub struct PrdtEntry {
    pub data_base_lo: u32,
    pub data_base_hi: u32,
    pub reserved: u32,
    /// Bits 0-21: byte count minus one; bit 31: interrupt on completion.
    pub dbc_i: u32,
}

/// One PRD entry for `bytes` (1 to 4 MiB) at `data_phys`, interrupting on completion.
pub fn prdt_entry(data_phys: u64, bytes: u32) -> (r: PrdtEntry)
    requires
        1 <= bytes <= 0x40_0000,
    ensures
        r == (PrdtEntry {
            data_base_lo: data_phys as u32,
            data_base_hi: (data_phys >> 32u64) as u32,
            reserved: 0,
            dbc_i: ((bytes - 1) as u32) | 0x8000_0000u32,
        }),
{
    PrdtEntry {
        data_base_lo: data_phys as u32,
        data_base_hi: (data_phys >> 32u64) as u32,
        reserved: 0,
        dbc_i: (bytes - 1) | 0x8000_0000,
    }
}

/// The command FIS of a 48-bit DMA read or write of `sectors` from `lba`,
/// in a zeroed 64-byte area.
pub open spec fn spec_rw_fis(lba: u64, sectors: u16, write: bool) -> Seq<u8> {
    Seq::new(64, |i: int|
        if i == 0 { FIS_TYPE_REG_H2D }
        else if i == 1 { 0x80u8 }
        else if i == 2 { if write { ATA_CMD_WRITE_DMA_EXT } else { ATA_CMD_READ_DMA_EXT } }
        else if i == 4 { lba as u8 }
        else if i == 5 { (lba >> 8u64) as u8 }
        else if i == 6 { (lba >> 16u64) as u8 }
        else if i == 7 { 0x40u8 }
        else if i == 8 { (lba >> 24u64) as u8 }
        else if i == 9 { (lba >> 32u64) as u8 }
        else if i == 10 { (lba >> 40u64) as u8 }
        else if i == 12 { sectors as u8 }
        else if i == 13 { (sectors >> 8u16) as u8 }
        else { 0u8 })
}

pub fn rw_fis(lba: u64, sectors: u16, write: bool) -> (r: Vec<u8>)
    ensures
        r@ == spec_rw_fis(lba, sectors, write),
{
    let mut f: Vec<u8> = vec![0u8; 64];
    f.set(0, FIS_TYPE_REG_H2D);
    f.set(1, 0x80);
    f.set(2, if write { ATA_CMD_WRITE_DMA_EXT } else { ATA_CMD_READ_DMA_EXT });
    f.set(4, lba as u8);
    f.set(5, (lba >> 8u64) as u8);
    f.set(6, (lba >> 16u64) as u8);
    f.set(7, 0x40);
    f.set(8, (lba >> 24u64) as u8);
    f.set(9, (lba >> 32u64) as u8);
    f.set(10, (lba >> 40u64) as u8);
    f.set(12, sectors as u8);
    f.set(13, (sectors >> 8u16) as u8);
    assert(f@ =~= spec_rw_fis(lba, sectors, write));
    f
}

/// The command FIS of ATA IDENTIFY DEVICE.
pub fn identify_fis() -> (r: Vec<u8>)
    ensures
        r@.len() == 64,
        r@[0] == FIS_TYPE_REG_H2D && r@[1] == 0x80 && r@[2] == ATA_CMD_IDENTIFY,
        forall|i: int| 3 <= i < 64 ==> r@[i] == 0,
{
    let mut f: Vec<u8> = vec![0u8; 64];
    f.set(0, FIS_TYPE_REG_H2D);
    f.set(1, 0x80);
    f.set(2, ATA_CMD_IDENTIFY);
    f
}

/// One look at a running command: the slot's CI bit clear means done (an
/// error when the task-file error status is set); a task-file error while
/// it runs fails it; otherwise keep waiting (`None`).
pub fn command_status(ci: u32, is: u32, tfd: u32) -> (r: Option<Result<(), BlockError>>)
    ensures
        ci & 1 == 0 ==> r == Some(if is & IS_TFES != 0 { Err::<(), BlockError>(BlockError::Io) } else { Ok::<(), BlockError>(()) }),
        ci & 1 != 0 && tfd & TFD_ERR != 0 ==> r == Some(Err::<(), BlockError>(BlockError::Io)),
        ci & 1 != 0 && tfd & TFD_ERR == 0 ==> r is None,
{
    if ci & 1 == 0 {
        if is & IS_TFES != 0 {
            return Some(Err(BlockError::Io));
        }
        return Some(Ok(()));
    }
    if tfd & TFD_ERR != 0 {
        return Some(Err(BlockError::Io));
    }
    None
}

/// Looks at the port registers before a command is given up on.
pub const COMMAND_POLLS: u32 = 50_000_000;

/// The wait for a command after `polls` earlier looks, on this look's
/// registers: what `command_status` decides, and when it would still wait,
/// an I/O error once this is look number `COMMAND_POLLS`.
pub fn command_wait(polls: u32, ci: u32, is: u32, tfd: u32) -> (r: Option<Result<(), BlockError>>)
    ensures
        ci & 1 == 0 ==> r == Some(if is & IS_TFES != 0 { Err::<(), BlockError>(BlockError::Io) } else { Ok::<(), BlockError>(()) }),
        ci & 1 != 0 && tfd & TFD_ERR != 0 ==> r == Some(Err::<(), BlockError>(BlockError::Io)),
        ci & 1 != 0 && tfd & TFD_ERR == 0 ==> r == if polls as int + 1 >= COMMAND_POLLS {
            Some(Err::<(), BlockError>(BlockError::Io))
        } else {
            None::<Result<(), BlockError>>
        },
{
    match command_status(ci, is, tfd) {
        Some(result) => Some(result),
        None => if polls >= COMMAND_POLLS - 1 { Some(Err(BlockError::Io)) } else { None },
    }
}

/// Sector count from IDENTIFY data: the LBA48 count (words 100-103) when
/// nonzero, else the LBA28 count (words 60-61).
pub open spec fn spec_sector_count(words: Seq<u16>) -> u64 {
    let lba48 = words[100] as int + words[101] as int * 0x1_0000 + words[102] as int * 0x1_0000_0000
        + words[103] as int * 0x1_0000_0000_0000;
    let lba28 = words[60] as int + words[61] as int * 0x1_0000;
    if lba48 != 0 { lba48 as u64 } else { lba28 as u64 }
}

pub fn sector_count(words: &[u16]) -> (r: u64)
    requires
        words@.len() >= 104,
    ensures
        r == spec_sector_count(words@),
{
    let w100 = words[100] as u64;
    let w101 = words[101] as u64;
    let w102 = words[102] as u64;
    let w103 = words[103] as u64;
    let lba48 = w100 | (w101 << 16u64) | (w102 << 32u64) | (w103 << 48u64);
    assert(lba48 == w100 + w101 * 0x1_0000 + w102 * 0x1_0000_0000 + w103 * 0x1_0000_0000_0000) by (bit_vector)
        requires
            lba48 == w100 | (w101 << 16u64) | (w102 << 32u64) | (w103 << 48u64),
            w100 < 0x10000, w101 < 0x10000, w102 < 0x10000, w103 < 0x10000,
    ;
    let w60 = words[60] as u64;
    let w61 = words[61] as u64;
    let lba28 = w60 | (w61 << 16u64);
    assert(lba28 == w60 + w61 * 0x1_0000) by (bit_vector)
        requires
            lba28 == w60 | (w61 << 16u64),
            w60 < 0x10000, w61 < 0x10000,
    ;
    if lba48 != 0 { lba48 } else { lba28 }
}

/// Bytes that `str::trim` strips from text whose characters are all below
/// U+0100: the ASCII white space, NEL and NO-BREAK SPACE.
pub open spec fn is_latin1_space(b: u8) -> bool {
    b == 0x20 || (0x09 <= b && b <= 0x0D) || b == 0x85 || b == 0xA0
}

/// The model string of IDENTIFY data: words 27..47, each high byte first,
/// each byte read as the character of that code, trimmed.
pub open spec fn model_raw(words: Seq<u16>) -> Seq<u8> {
    Seq::new(40, |i: int| if i % 2 == 0 { (words[27 + i / 2] >> 8u16) as u8 } else { (words[27 + i / 2] & 0xFF) as u8 })
}

pub open spec fn trim_end(s: Seq<u8>, n: int) -> int
    decreases n,
{
    if n <= 0 { 0 } else if is_latin1_space(s[n - 1]) { trim_end(s, n - 1) } else { n }
}

pub open spec fn trim_start(s: Seq<u8>, i: int, end: int) -> int
    decreases end - i,
{
    if i >= end { end } else if is_latin1_space(s[i]) { trim_start(s, i + 1, end) } else { i }
}

pub open spec fn spec_model(words: Seq<u16>) -> Seq<u8> {
    let raw = model_raw(words);
    let end = trim_end(raw, 40);
    raw.subrange(trim_start(raw, 0, end), end)
}

fn latin1_space(b: u8) -> (r: bool)
    ensures
        r == is_latin1_space(b),
{
    b == 0x20 || (0x09 <= b && b <= 0x0D) || b == 0x85 || b == 0xA0
}

/// The model string as character codes (each below 256).
pub fn identify_model(words: &[u16]) -> (r: Vec<u8>)
    requires
        words@.len() >= 47,
    ensures
        r@ == spec_model(words@),
{
    let ghost raw = model_raw(words@);
    let mut bytes: Vec<u8> = Vec::new();
    let mut i: usize = 27;
    while i < 47
        invariant
            27 <= i <= 47,
            words@.len() >= 47,
            raw == model_raw(words@),
            bytes@ == raw.subrange(0, 2 * (i - 27)),
        decreases 47 - i,
    {
        let w = words[i];
        bytes.push((w >> 8u16) as u8);
        bytes.push((w & 0xFF) as u8);
        assert(bytes@ =~= raw.subrange(0, 2 * (i + 1 - 27))) by {
            assert(raw[2 * (i - 27)] == (w >> 8u16) as u8);
            assert(raw[2 * (i - 27) + 1] == (w & 0xFF) as u8);
        }
        i = i + 1;
    }
    assert(bytes@ =~= raw);
    let mut end: usize = 40;
    while end > 0 && latin1_space(bytes[end - 1])
        invariant
            0 <= end <= 40,
            bytes@ == raw,
            raw.len() == 40,
            trim_end(raw, end as int) == trim_end(raw, 40),
        decreases end,
    {
        end = end - 1;
    }
    let mut start: usize = 0;
    while start < end && latin1_space(bytes[start])
        invariant
            0 <= start <= end <= 40,
            bytes@ == raw,
            raw.len() == 40,
            trim_start(raw, start as int, end as int) == trim_start(raw, 0, end as int),
        decreases end - start,
    {
        start = start + 1;
    }
    let mut out: Vec<u8> = Vec::new();
    let mut k: usize = start;
    while k < end
        invariant
            start <= k <= end <= 40,
            bytes@ == raw,
            raw.len() == 40,
            out@ == raw.subrange(start as int, k as int),
        decreases end - k,
    {
        out.push(bytes[k]);
        assert(out@ =~= raw.subrange(start as int, k + 1));
        k = k + 1;
    }
    out
}

/// A SATA port as the driver knows it once identified.
pub struct AhciPort {
    pub mmio: u64,
    pub port_idx: u8,
    pub sector_count: u64,
    pub model: Vec<u8>,
    pub cmd_table_phys: u64,
    pub bounce_phys: u64,
}

impl AhciPort {
    /// Whole 4 KiB blocks on the disk.
    pub fn block_count(&self) -> (r: u64)
        ensures
            r == self.sector_count / (SECTORS_PER_BLOCK as u64),
    {
        self.sector_count / (SECTORS_PER_BLOCK as u64)
    }

    /// The first sector of `block`, or `OutOfRange` past the disk's end.
    pub fn block_lba(&self, block: u64) -> (r: Result<u64, BlockError>)
        ensures
            block >= self.sector_count / 8 ==> r == Err::<u64, BlockError>(BlockError::OutOfRange),
            block < self.sector_count / 8 ==> r == Ok::<u64, BlockError>((block * 8) as u64),
    {
        if block >= self.block_count() {
            return Err(BlockError::OutOfRange);
        }
        assert(block * 8 <= self.sector_count) by (nonlinear_arith)
            requires
                block < self.sector_count / 8,
        ;
        Ok(block * (SECTORS_PER_BLOCK as u64))
    }

    /// Disk size in MiB.
    pub fn size_mib(&self) -> (r: u64)
        requires
            self.sector_count * 512 <= u64::MAX,
        ensures
            r == self.sector_count * 512 / 0x10_0000,
    {
        self.sector_count * 512 / 0x10_0000
    }
}

/// The 4 KiB written for a block: `buf` up to the block's size, then zeros.
pub fn bounce_image(buf: &[u8]) -> (r: Vec<u8>)
    ensures
        r@.len() == BLOCK_SIZE,
        forall|i: int| 0 <= i < BLOCK_SIZE ==> #[trigger] r@[i] == if i < buf@.len() { buf@[i] } else { 0u8 },
{
    let mut out: Vec<u8> = vec![0u8; BLOCK_SIZE];
    let n = if buf.len() < BLOCK_SIZE { buf.len() } else { BLOCK_SIZE };
    let mut i: usize = 0;
    while i < n
        invariant
            0 <= i <= n,
            n <= BLOCK_SIZE,
            n == (if buf@.len() < BLOCK_SIZE { buf@.len() as int } else { BLOCK_SIZE as int }),
            out@.len() == BLOCK_SIZE,
            forall|j: int| 0 <= j < i ==> #[trigger] out@[j] == buf@[j],
            forall|j: int| i <= j < BLOCK_SIZE ==> #[trigger] out@[j] == 0,
        decreases n - i,
    {
        out.set(i, buf[i]);
        i = i + 1;
    }
    out
}

/// Reads of PxCMD while waiting for the engines to stop, before going on.
pub const STOP_POLLS: u32 = 1_000_000;

/// Why bringing a port up stopped.
#[derive(Clone, Copy, Debug, PartialEq, Eq, Structural)]
pub enum PortInitError {
    /// No ATA disk with its link up behind the port.
    NoDevice,
    /// No DMA page (or one the command table cannot follow).
    NoMemory,
    /// The IDENTIFY command failed.
    IdentifyFailed,
}

/// The steps of bringing a port up, in order.
#[derive(Clone, Copy, Debug, PartialEq, Eq, Structural)]
pub enum PortPhase {
    ReadStatus,
    ReadSignature,
    ReadCmd,
    Stop,
    WaitIdle,
    AllocCmdList,
    AllocBounce,
    SetClb,
    SetClbu,
    SetFb,
    SetFbu,
    ClearSerr,
    ClearIs,
    WaitListStopped,
    ReadCmdForStart,
    Start,
    ClearIsAgain,
    Identify,
    Done,
    Failed(PortInitError),
}

/// What the driver asks of the port or the memory allocator next.
#[derive(Clone, Copy, Debug, PartialEq, Eq, Structural)]
pub enum PortAction {
    /// Read the port register at this offset.
    Read(u32),
    /// Write the value to the port register at this offset.
    Write(u32, u32),
    /// Allocate one zeroed DMA page; answered with its physical address.
    AllocPage,
    /// Run IDENTIFY through slot 0 of the command list at `cmd_list_phys`
    /// into the page at `bounce_phys`; answered with the 256 words read.
    Identify { cmd_list_phys: u64, bounce_phys: u64 },
    /// The port is up.
    Finished,
    /// Bring-up gave up.
    Failed(PortInitError),
}

/// The answer to the last action.
pub enum PortEvent {
    Register(u32),
    Written,
    Page(Option<u64>),
    Identified(Option<Vec<u16>>),
}

/// Bring-up of one port: where it stands, and what it has learned.
pub struct PortInit {
    pub phase: PortPhase,
    pub polls: u32,
    pub ssts: u32,
    pub cmd: u32,
    pub cmd_list: u64,
    pub bounce: u64,
    pub sector_count: u64,
    pub model: Vec<u8>,
}

pub struct PortInitView {
    pub phase: PortPhase,
    pub polls: u32,
    pub ssts: u32,
    pub cmd: u32,
    pub cmd_list: u64,
    pub bounce: u64,
    pub sector_count: u64,
    pub model: Seq<u8>,
}

impl View for PortInit {
    type V = PortInitView;

    open spec fn view(&self) -> PortInitView {
        PortInitView {
            phase: self.phase,
            polls: self.polls,
            ssts: self.ssts,
            cmd: self.cmd,
            cmd_list: self.cmd_list,
            bounce: self.bounce,
            sector_count: self.sector_count,
            model: self.model@,
        }
    }
}

/// The action each phase asks for.
pub open spec fn spec_port_action(s: PortInitView) -> PortAction {
    match s.phase {
        PortPhase::ReadStatus => PortAction::Read(P_SSTS),
        PortPhase::ReadSignature => PortAction::Read(P_SIG),
        PortPhase::ReadCmd => PortAction::Read(P_CMD),
        PortPhase::Stop => PortAction::Write(P_CMD, s.cmd & !(PCMD_ST | PCMD_FRE)),
        PortPhase::WaitIdle => PortAction::Read(P_CMD),
        PortPhase::AllocCmdList => PortAction::AllocPage,
        PortPhase::AllocBounce => PortAction::AllocPage,
        PortPhase::SetClb => PortAction::Write(P_CLB, (s.cmd_list % 0x1_0000_0000) as u32),
        PortPhase::SetClbu => PortAction::Write(P_CLBU, (s.cmd_list / 0x1_0000_0000) as u32),
        PortPhase::SetFb => PortAction::Write(P_FB, ((s.cmd_list + 1024) % 0x1_0000_0000) as u32),
        PortPhase::SetFbu => PortAction::Write(P_FBU, ((s.cmd_list + 1024) / 0x1_0000_0000) as u32),
        PortPhase::ClearSerr => PortAction::Write(P_SERR, 0xFFFF_FFFF),
        PortPhase::ClearIs => PortAction::Write(P_IS, 0xFFFF_FFFF),
        PortPhase::WaitListStopped => PortAction::Read(P_CMD),
        PortPhase::ReadCmdForStart => PortAction::Read(P_CMD),
        PortPhase::Start => PortAction::Write(P_CMD, s.cmd | PCMD_FRE | PCMD_ST),
        PortPhase::ClearIsAgain => PortAction::Write(P_IS, 0xFFFF_FFFF),
        PortPhase::Identify => PortAction::Identify { cmd_list_phys: s.cmd_list, bounce_phys: s.bounce },
        PortPhase::Done => PortAction::Finished,
        PortPhase::Failed(e) => PortAction::Failed(e),
    }
}

/// Whether `ev` is the kind of answer `a` gets (IDENTIFY data comes whole).
pub open spec fn port_answers(a: PortAction, ev: PortEvent) -> bool {
    match a {
        PortAction::Read(_) => ev is Register,
        PortAction::Write(_, _) => ev is Written,
        PortAction::AllocPage => ev is Page,
        PortAction::Identify { .. } => ev matches PortEvent::Identified(w) && (w matches Some(v) ==> v@.len() == 256),
        PortAction::Finished | PortAction::Failed(_) => false,
    }
}

/// The transition on an answer: the register values, pages and IDENTIFY
/// data the bring-up takes in, and where it goes from there. A port whose
/// link or signature is not an ATA disk's is given up; the wait for the
/// engines to stop ends after `STOP_POLLS` reads whatever they say; the wait
/// for the command list to stop lasts as long as it runs.
pub open spec fn spec_port_feed(s: PortInitView, ev: PortEvent) -> PortInitView {
    match (s.phase, ev) {
        (PortPhase::ReadStatus, PortEvent::Register(v)) => PortInitView { phase: PortPhase::ReadSignature, ssts: v, ..s },
        (PortPhase::ReadSignature, PortEvent::Register(v)) =>
            if (s.ssts & 0x0F) == 3 && ((s.ssts >> 8u32) & 0x0F) == 1 && v == SIG_ATA {
                PortInitView { phase: PortPhase::ReadCmd, ..s }
            } else {
                PortInitView { phase: PortPhase::Failed(PortInitError::NoDevice), ..s }
            },
        (PortPhase::ReadCmd, PortEvent::Register(v)) => PortInitView { phase: PortPhase::Stop, cmd: v, ..s },
        (PortPhase::Stop, _) => PortInitView { phase: PortPhase::WaitIdle, polls: 0, ..s },
        (PortPhase::WaitIdle, PortEvent::Register(v)) =>
            if v & (PCMD_FR | PCMD_CR) == 0 || s.polls + 1 >= STOP_POLLS {
                PortInitView { phase: PortPhase::AllocCmdList, ..s }
            } else {
                PortInitView { polls: (s.polls + 1) as u32, ..s }
            },
        (PortPhase::AllocCmdList, PortEvent::Page(p)) => match p {
            Some(a) => if a <= u64::MAX - 2048 {
                PortInitView { phase: PortPhase::AllocBounce, cmd_list: a, ..s }
            } else {
                PortInitView { phase: PortPhase::Failed(PortInitError::NoMemory), ..s }
            },
            None => PortInitView { phase: PortPhase::Failed(PortInitError::NoMemory), ..s },
        },
        (PortPhase::AllocBounce, PortEvent::Page(p)) => match p {
            Some(a) => PortInitView { phase: PortPhase::SetClb, bounce: a, ..s },
            None => PortInitView { phase: PortPhase::Failed(PortInitError::NoMemory), ..s },
        },
        (PortPhase::SetClb, _) => PortInitView { phase: PortPhase::SetClbu, ..s },
        (PortPhase::SetClbu, _) => PortInitView { phase: PortPhase::SetFb, ..s },
        (PortPhase::SetFb, _) => PortInitView { phase: PortPhase::SetFbu, ..s },
        (PortPhase::SetFbu, _) => PortInitView { phase: PortPhase::ClearSerr, ..s },
        (PortPhase::ClearSerr, _) => PortInitView { phase: PortPhase::ClearIs, ..s },
        (PortPhase::ClearIs, _) => PortInitView { phase: PortPhase::WaitListStopped, ..s },
        (PortPhase::WaitListStopped, PortEvent::Register(v)) =>
            if v & PCMD_CR != 0 { s } else { PortInitView { phase: PortPhase::ReadCmdForStart, ..s } },
        (PortPhase::ReadCmdForStart, PortEvent::Register(v)) => PortInitView { phase: PortPhase::Start, cmd: v, ..s },
        (PortPhase::Start, _) => PortInitView { phase: PortPhase::ClearIsAgain, ..s },
        (PortPhase::ClearIsAgain, _) => PortInitView { phase: PortPhase::Identify, ..s },
        (PortPhase::Identify, PortEvent::Identified(w)) => match w {
            Some(words) => PortInitView {
                phase: PortPhase::Done,
                sector_count: spec_sector_count(words@),
                model: spec_model(words@),
                ..s
            },
            None => PortInitView { phase: PortPhase::Failed(PortInitError::IdentifyFailed), ..s },
        },
        _ => s,
    }
}

impl PortInit {
    /// The wait for the engines counts its reads below `STOP_POLLS`, and a
    /// command list page leaves room for the received FIS and the table.
    pub open spec fn wf(&self) -> bool {
        &&& self.phase == PortPhase::WaitIdle ==> self.polls < STOP_POLLS
        &&& self.cmd_list <= u64::MAX - 2048
    }

    pub fn new() -> (r: Self)
        ensures
            r.wf(),
            r.phase == PortPhase::ReadStatus,
            r.model@.len() == 0,
            r.polls == 0 && r.ssts == 0 && r.cmd == 0 && r.cmd_list == 0 && r.bounce == 0 && r.sector_count == 0,
    {
        PortInit { phase: PortPhase::ReadStatus, polls: 0, ssts: 0, cmd: 0, cmd_list: 0, bounce: 0, sector_count: 0,
            model: Vec::new() }
    }

    /// What to do next.
    pub fn action(&self) -> (r: PortAction)
        requires
            self.wf(),
        ensures
            r == spec_port_action(self@),
    {
        match self.phase {
            PortPhase::ReadStatus => PortAction::Read(P_SSTS),
            PortPhase::ReadSignature => PortAction::Read(P_SIG),
            PortPhase::ReadCmd => PortAction::Read(P_CMD),
            PortPhase::Stop => PortAction::Write(P_CMD, stopped_cmd(self.cmd)),
            PortPhase::WaitIdle => PortAction::Read(P_CMD),
            PortPhase::AllocCmdList => PortAction::AllocPage,
            PortPhase::AllocBounce => PortAction::AllocPage,
            PortPhase::SetClb => PortAction::Write(P_CLB, (self.cmd_list % 0x1_0000_0000) as u32),
            PortPhase::SetClbu => PortAction::Write(P_CLBU, (self.cmd_list / 0x1_0000_0000) as u32),
            PortPhase::SetFb => PortAction::Write(P_FB, ((self.cmd_list + 1024) % 0x1_0000_0000) as u32),
            PortPhase::SetFbu => PortAction::Write(P_FBU, ((self.cmd_list + 1024) / 0x1_0000_0000) as u32),
            PortPhase::ClearSerr => PortAction::Write(P_SERR, 0xFFFF_FFFF),
            PortPhase::ClearIs => PortAction::Write(P_IS, 0xFFFF_FFFF),
            PortPhase::WaitListStopped => PortAction::Read(P_CMD),
            PortPhase::ReadCmdForStart => PortAction::Read(P_CMD),
            PortPhase::Start => PortAction::Write(P_CMD, started_cmd(self.cmd)),
            PortPhase::ClearIsAgain => PortAction::Write(P_IS, 0xFFFF_FFFF),
            PortPhase::Identify => PortAction::Identify { cmd_list_phys: self.cmd_list, bounce_phys: self.bounce },
            PortPhase::Done => PortAction::Finished,
            PortPhase::Failed(e) => PortAction::Failed(e),
        }
    }

    /// Takes the answer to `action()` and moves on.
    pub fn feed(&mut self, ev: PortEvent)
        requires
            old(self).wf(),
            port_answers(spec_port_action(old(self)@), ev),
        ensures
            final(self).wf(),
            final(self)@ == spec_port_feed(old(self)@, ev),
    {
        match (self.phase, ev) {
            (PortPhase::ReadStatus, PortEvent::Register(v)) => {
                self.ssts = v;
                self.phase = PortPhase::ReadSignature;
            },
            (PortPhase::ReadSignature, PortEvent::Register(v)) => {
                if port_usable(self.ssts, v) {
                    self.phase = PortPhase::ReadCmd;
                } else {
                    self.phase = PortPhase::Failed(PortInitError::NoDevice);
                }
            },
            (PortPhase::ReadCmd, PortEvent::Register(v)) => {
                self.cmd = v;
                self.phase = PortPhase::Stop;
            },
            (PortPhase::Stop, _) => {
                self.polls = 0;
                self.phase = PortPhase::WaitIdle;
            },
            (PortPhase::WaitIdle, PortEvent::Register(v)) => {
                if engines_idle(v) || self.polls + 1 >= STOP_POLLS {
                    self.phase = PortPhase::AllocCmdList;
                } else {
                    self.polls = self.polls + 1;
                }
            },
            (PortPhase::AllocCmdList, PortEvent::Page(p)) => match p {
                Some(a) => {
                    if a <= u64::MAX - 2048 {
                        self.cmd_list = a;
                        self.phase = PortPhase::AllocBounce;
                    } else {
                        self.phase = PortPhase::Failed(PortInitError::NoMemory);
                    }
                },
                None => self.phase = PortPhase::Failed(PortInitError::NoMemory),
            },
            (PortPhase::AllocBounce, PortEvent::Page(p)) => match p {
                Some(a) => {
                    self.bounce = a;
                    self.phase = PortPhase::SetClb;
                },
                None => self.phase = PortPhase::Failed(PortInitError::NoMemory),
            },
            (PortPhase::SetClb, _) => self.phase = PortPhase::SetClbu,
            (PortPhase::SetClbu, _) => self.phase = PortPhase::SetFb,
            (PortPhase::SetFb, _) => self.phase = PortPhase::SetFbu,
            (PortPhase::SetFbu, _) => self.phase = PortPhase::ClearSerr,
            (PortPhase::ClearSerr, _) => self.phase = PortPhase::ClearIs,
            (PortPhase::ClearIs, _) => self.phase = PortPhase::WaitListStopped,
            (PortPhase::WaitListStopped, PortEvent::Register(v)) => {
                if !list_running(v) {
                    self.phase = PortPhase::ReadCmdForStart;
                }
            },
            (PortPhase::ReadCmdForStart, PortEvent::Register(v)) => {
                self.cmd = v;
                self.phase = PortPhase::Start;
            },
            (PortPhase::Start, _) => self.phase = PortPhase::ClearIsAgain,
            (PortPhase::ClearIsAgain, _) => self.phase = PortPhase::Identify,
            (PortPhase::Identify, PortEvent::Identified(w)) => match w {
                Some(words) => {
                    self.sector_count = sector_count(words.as_slice());
                    self.model = identify_model(words.as_slice());
                    self.phase = PortPhase::Done;
                },
                None => self.phase = PortPhase::Failed(PortInitError::IdentifyFailed),
            },
            _ => {},
        }
    }
}

} // verus!
