//! FAT32 on a block device: the formatter, 8.3 names, and the single-file
//! root directory the driver keeps.
//!
//! Sectors are 512 bytes and clusters 8 sectors, so a cluster is one device
//! block; cluster arithmetic wraps as the release build does.

use vstd::prelude::*;
use crate::bytes::{splice, write_bytes};
use crate::fs::block::{overlay, BlockDevice, BLOCK_SIZE};
use crate::fs::names::{is_utf8, utf8_ok};
use crate::fs::vfs::inode::{FileType, InodeAttr, InodeId, InodeMode};
use crate::fs::vfs::superblock::{DirEntry, FileSystem, FsError};

verus! {

pub const SECTOR_SIZE: usize = 512;
pub const SECTORS_PER_CLUSTER: u8 = 8;
pub const CLUSTER_SIZE: usize = 4096;
pub const FAT32_EOC: u32 = 0x0FFF_FFF8;
pub const ROOT_CLUSTER: u32 = 2;
/// The file the formatter leaves in the root directory, and its content.
pub const README_CLUSTER: u32 = 3;
pub const README_SIZE: u32 = 13;

/// The BIOS parameter block fields the formatter sets.
#[derive(Clone, Copy, Debug, PartialEq, Eq, Structural)]
pub struct FatBpb {
    pub bytes_per_sector: u16,
    pub sectors_per_cluster: u8,
    pub reserved_sectors: u16,
    pub num_fats: u8,
    pub root_entry_count: u16,
    pub total_sectors_16: u16,
    pub media: u8,
    pub sectors_per_fat_16: u16,
    pub sectors_per_track: u16,
    pub num_heads: u16,
    pub hidden_sectors: u32,
    pub total_sectors_32: u32,
    pub sectors_per_fat_32: u32,
    pub ext_flags: u16,
    pub fs_version: u16,
    pub root_cluster: u32,
    pub fs_info: u16,
    pub backup_boot: u16,
}

/// The formatter's BPB for a disk of `total_sectors` sectors.
pub open spec fn spec_bpb(total_sectors: u32) -> FatBpb {
    FatBpb {
        bytes_per_sector: 512,
        sectors_per_cluster: 8,
        reserved_sectors: 32,
        num_fats: 2,
        root_entry_count: 0,
        total_sectors_16: 0,
        media: 0xF8,
        sectors_per_fat_16: 0,
        sectors_per_track: 63,
        num_heads: 255,
        hidden_sectors: 0,
        total_sectors_32: total_sectors,
        sectors_per_fat_32: 64,
        ext_flags: 0,
        fs_version: 0,
        root_cluster: 2,
        fs_info: 1,
        backup_boot: 6,
    }
}

pub open spec fn le_u16(v: u16) -> Seq<u8> {
    seq![(v & 0xFF) as u8, (v >> 8u16) as u8]
}

pub open spec fn le_u32(v: u32) -> Seq<u8> {
    seq![(v & 0xFF) as u8, ((v >> 8u32) & 0xFF) as u8, ((v >> 16u32) & 0xFF) as u8, (v >> 24u32) as u8]
}

/// The boot sector's first 52 bytes: jump, OEM name "THEOS   ", then the BPB
/// fields little-endian and packed.
pub open spec fn bpb_bytes(b: FatBpb) -> Seq<u8> {
    seq![0xEBu8, 0x58u8, 0x90u8] + seq![0x54u8, 0x48u8, 0x45u8, 0x4fu8, 0x53u8, 0x20u8, 0x20u8, 0x20u8]
        + le_u16(b.bytes_per_sector) + seq![b.sectors_per_cluster] + le_u16(b.reserved_sectors) + seq![b.num_fats]
        + le_u16(b.root_entry_count) + le_u16(b.total_sectors_16) + seq![b.media] + le_u16(b.sectors_per_fat_16)
        + le_u16(b.sectors_per_track) + le_u16(b.num_heads) + le_u32(b.hidden_sectors) + le_u32(b.total_sectors_32)
        + le_u32(b.sectors_per_fat_32) + le_u16(b.ext_flags) + le_u16(b.fs_version) + le_u32(b.root_cluster)
        + le_u16(b.fs_info) + le_u16(b.backup_boot)
}

/// The boot sector: the BPB, zeros, and the 0x55 0xAA signature.
pub open spec fn boot_sector(b: FatBpb) -> Seq<u8> {
    Seq::new(512, |i: int| if i < 52 { bpb_bytes(b)[i] } else if i == 510 { 0x55u8 } else if i == 511 { 0xAAu8 } else { 0u8 })
}

fn push_u16(out: &mut Vec<u8>, v: u16)
    ensures
        final(out)@ == old(out)@ + le_u16(v),
{
    out.push((v & 0xFF) as u8);
    out.push((v >> 8u16) as u8);
    assert(final(out)@ =~= old(out)@ + le_u16(v));
}

fn push_u32(out: &mut Vec<u8>, v: u32)
    ensures
        final(out)@ == old(out)@ + le_u32(v),
{
    out.push((v & 0xFF) as u8);
    out.push(((v >> 8u32) & 0xFF) as u8);
    out.push(((v >> 16u32) & 0xFF) as u8);
    out.push((v >> 24u32) as u8);
    assert(final(out)@ =~= old(out)@ + le_u32(v));
}

pub fn encode_boot_sector(b: &FatBpb) -> (r: Vec<u8>)
    ensures
        r@ == boot_sector(*b),
{
    let mut h: Vec<u8> = Vec::new();
    h.push(0xEB); h.push(0x58); h.push(0x90);
    h.push(0x54); h.push(0x48); h.push(0x45); h.push(0x4f); h.push(0x53); h.push(0x20); h.push(0x20); h.push(0x20);
    assert(h@ =~= seq![0xEBu8, 0x58u8, 0x90u8] + seq![0x54u8, 0x48u8, 0x45u8, 0x4fu8, 0x53u8, 0x20u8, 0x20u8, 0x20u8]);
    push_u16(&mut h, b.bytes_per_sector);
    h.push(b.sectors_per_cluster);
    push_u16(&mut h, b.reserved_sectors);
    h.push(b.num_fats);
    push_u16(&mut h, b.root_entry_count);
    push_u16(&mut h, b.total_sectors_16);
    h.push(b.media);
    push_u16(&mut h, b.sectors_per_fat_16);
    push_u16(&mut h, b.sectors_per_track);
    push_u16(&mut h, b.num_heads);
    push_u32(&mut h, b.hidden_sectors);
    push_u32(&mut h, b.total_sectors_32);
    push_u32(&mut h, b.sectors_per_fat_32);
    push_u16(&mut h, b.ext_flags);
    push_u16(&mut h, b.fs_version);
    push_u32(&mut h, b.root_cluster);
    push_u16(&mut h, b.fs_info);
    push_u16(&mut h, b.backup_boot);
    assert(h@ =~= bpb_bytes(*b));
    let mut s: Vec<u8> = vec![0u8; SECTOR_SIZE];
    let mut i: usize = 0;
    while i < 52
        invariant
            0 <= i <= 52,
            h@ == bpb_bytes(*b),
            h@.len() == 52,
            s@.len() == 512,
            forall|j: int| 0 <= j < i ==> #[trigger] s@[j] == h@[j],
            forall|j: int| i <= j < 512 ==> #[trigger] s@[j] == 0,
        decreases 52 - i,
    {
        s.set(i, h[i]);
        i = i + 1;
    }
    s.set(510, 0x55);
    s.set(511, 0xAA);
    assert(s@ =~= boot_sector(*b));
    s
}

/// ASCII upper case of a byte.
pub open spec fn upper(b: u8) -> u8 {
    if 0x61 <= b && b <= 0x7A { (b - 0x20) as u8 } else { b }
}

/// The part of `s` before the first `.` from `i` on (the whole rest if none).
pub open spec fn field_end(s: Seq<u8>, i: int) -> int
    decreases s.len() - i,
{
    if i >= s.len() || i < 0 { s.len() as int } else if s[i] == 0x2eu8 { i } else { field_end(s, i + 1) }
}

/// The 8.3 name of `name`: the text before the first dot as the base and
/// the text between the first and second dots as the extension, cut to 8
/// and 3 bytes, upper-cased, space padded. A name that is not UTF-8 is
/// taken as "FILE".
pub open spec fn spec_short_name(name: Seq<u8>) -> Seq<u8> {
    let s = if is_utf8(name) { name } else { seq![0x46u8, 0x49u8, 0x4cu8, 0x45u8] };
    let be = field_end(s, 0);
    let base = s.subrange(0, be);
    let ext = if be < s.len() { s.subrange(be + 1, field_end(s, be + 1)) } else { Seq::empty() };
    Seq::new(11, |i: int|
        if i < 8 { if i < base.len() { upper(base[i]) } else { 0x20u8 } }
        else { if i - 8 < ext.len() { upper(ext[i - 8]) } else { 0x20u8 } })
}

fn to_upper(b: u8) -> (r: u8)
    ensures
        r == upper(b),
{
    if 0x61 <= b && b <= 0x7A { b - 0x20 } else { b }
}

fn find_dot(s: &[u8], from: usize) -> (r: usize)
    requires
        from <= s@.len(),
    ensures
        r == field_end(s@, from as int),
        from <= r <= s@.len(),
{
    let mut i = from;
    while i < s.len() && s[i] != 0x2e
        invariant
            from <= i <= s@.len(),
            field_end(s@, i as int) == field_end(s@, from as int),
        decreases s@.len() - i,
    {
        i = i + 1;
    }
    i
}

pub fn short_name(name: &[u8]) -> (r: Vec<u8>)
    ensures
        r@ == spec_short_name(name@),
{
    let file: Vec<u8> = vec![0x46u8, 0x49u8, 0x4cu8, 0x45u8];
    let valid = utf8_ok(name);
    let s: &[u8] = if valid { name } else { file.as_slice() };
    assert(s@ == if is_utf8(name@) { name@ } else { seq![0x46u8, 0x49u8, 0x4cu8, 0x45u8] });
    let be = find_dot(s, 0);
    let (ext_start, ext_end) = if be < s.len() {
        let ee = find_dot(s, be + 1);
        (be + 1, ee)
    } else {
        (be, be)
    };
    let mut out: Vec<u8> = vec![0x20u8; 11];
    let mut i: usize = 0;
    while i < 8 && i < be
        invariant
            0 <= i <= 8,
            i <= be,
            be <= s@.len(),
            out@.len() == 11,
            forall|j: int| 0 <= j < i ==> #[trigger] out@[j] == upper(s@[j]),
            forall|j: int| i <= j < 11 ==> #[trigger] out@[j] == 0x20u8,
        decreases 8 - i,
    {
        out.set(i, to_upper(s[i]));
        i = i + 1;
    }
    proof {
        assert forall|j: int| 0 <= j < 8 implies #[trigger] out@[j] == if j < be { upper(s@[j]) } else { 0x20u8 } by {
            if j < i {
                assert(out@[j] == upper(s@[j]));
            }
        }
    }
    let ghost ext = if be < s@.len() { s@.subrange(be + 1, field_end(s@, be + 1)) } else { Seq::<u8>::empty() };
    assert(ext.len() == ext_end - ext_start);
    let mut k: usize = 0;
    while k < 3 && k < ext_end - ext_start
        invariant
            0 <= k <= 3,
            k <= ext_end - ext_start,
            ext_start <= ext_end <= s@.len(),
            ext.len() == ext_end - ext_start,
            forall|j: int| 0 <= j < ext.len() ==> #[trigger] ext[j] == s@[ext_start + j],
            out@.len() == 11,
            forall|j: int| 0 <= j < 8 ==> #[trigger] out@[j] == if j < be { upper(s@[j]) } else { 0x20u8 },
            forall|j: int| 0 <= j < k ==> #[trigger] out@[8 + j] == upper(s@[ext_start + j]),
            forall|j: int| 8 + k <= j < 11 ==> #[trigger] out@[j] == 0x20u8,
        decreases 3 - k,
    {
        out.set(8 + k, to_upper(s[ext_start + k]));
        k = k + 1;
    }
    proof {
        let sp = spec_short_name(name@);
        assert(k == 3 || k == ext.len());
        assert forall|j: int| 0 <= j < 11 implies #[trigger] out@[j] == sp[j] by {
            if j >= 8 && j - 8 < k {
                assert(out@[8 + (j - 8)] == upper(s@[ext_start + (j - 8)]));
                assert(ext[j - 8] == s@[ext_start + (j - 8)]);
            }
        }
        assert(out@ =~= sp);
    }
    out
}

/// A 32-byte directory entry: an archive file named `short` starting at
/// `cluster`, of `size` bytes, with all times zero.
pub open spec fn dir_entry_bytes(short: Seq<u8>, cluster: u32, size: u32) -> Seq<u8> {
    short + seq![0x20u8, 0u8, 0u8, 0u8, 0u8, 0u8, 0u8, 0u8, 0u8] + le_u16((cluster >> 16u32) as u16)
        + seq![0u8, 0u8, 0u8, 0u8] + le_u16((cluster & 0xFFFF) as u16) + le_u32(size)
}

pub fn encode_dir_entry(short: &Vec<u8>, cluster: u32, size: u32) -> (r: Vec<u8>)
    requires
        short@.len() == 11,
    ensures
        r@ == dir_entry_bytes(short@, cluster, size),
        r@.len() == 32,
{
    let mut e: Vec<u8> = Vec::new();
    let mut i: usize = 0;
    while i < 11
        invariant
            0 <= i <= 11,
            short@.len() == 11,
            e@ == short@.subrange(0, i as int),
        decreases 11 - i,
    {
        e.push(short[i]);
        assert(e@ =~= short@.subrange(0, i + 1));
        i = i + 1;
    }
    assert(short@.subrange(0, 11) =~= short@);
    e.push(0x20);
    let mut z: usize = 0;
    while z < 8
        invariant
            0 <= z <= 8,
            e@ == short@ + seq![0x20u8] + Seq::new(z as nat, |j: int| 0u8),
        decreases 8 - z,
    {
        e.push(0);
        assert(e@ =~= short@ + seq![0x20u8] + Seq::new((z + 1) as nat, |j: int| 0u8));
        z = z + 1;
    }
    push_u16(&mut e, (cluster >> 16u32) as u16);
    e.push(0); e.push(0); e.push(0); e.push(0);
    push_u16(&mut e, (cluster & 0xFFFF) as u16);
    push_u32(&mut e, size);
    assert(e@ =~= dir_entry_bytes(short@, cluster, size));
    e
}

/// The cluster the formatter writes to clusters 2 and 3: the README entry,
/// then its text "Hello, FAT32!", then zeros.
pub open spec fn root_cluster_image() -> Seq<u8> {
    let entry = dir_entry_bytes(seq![0x52u8, 0x45u8, 0x41u8, 0x44u8, 0x4du8, 0x45u8, 0x20u8, 0x20u8, 0x54u8, 0x58u8, 0x54u8], 3, 13);
    let text = seq![0x48u8, 0x65u8, 0x6cu8, 0x6cu8, 0x6fu8, 0x2cu8, 0x20u8, 0x46u8, 0x41u8, 0x54u8, 0x33u8, 0x32u8, 0x21u8];
    Seq::new(4096, |i: int| if i < 32 { entry[i] } else if i < 45 { text[i - 32] } else { 0u8 })
}

/// Device block of a cluster under the formatter's layout (32 reserved
/// sectors, two FATs of 64 sectors), with wrapping arithmetic.
pub open spec fn spec_cluster_block(cluster: u32) -> u64 {
    (160u64.wrapping_add(((cluster as u64).wrapping_sub(2)).wrapping_mul(8))) / 8
}

pub fn cluster_block(cluster: u32) -> (r: u64)
    ensures
        r == spec_cluster_block(cluster),
{
    let data_start: u64 = 32 + 2 * 64;
    data_start.wrapping_add(((cluster as u64).wrapping_sub(2)).wrapping_mul(SECTORS_PER_CLUSTER as u64)) / ((BLOCK_SIZE / SECTOR_SIZE) as u64)
}

pub struct Fat32Fs<D> {
    mount_id: u32,
    device_id: u32,
    dev: D,
    bpb: FatBpb,
    next_cluster: u32,
}

impl<D: BlockDevice> Fat32Fs<D> {
    pub closed spec fn mount(&self) -> u32 {
        self.mount_id
    }

    pub closed spec fn device(&self) -> D {
        self.dev
    }

    pub closed spec fn params(&self) -> FatBpb {
        self.bpb
    }

    pub closed spec fn next_free(&self) -> u32 {
        self.next_cluster
    }

    /// Hands the device back.
    pub fn into_device(self) -> (r: D)
        ensures
            r == self.device(),
    {
        self.dev
    }

    /// Block of `cluster` under this filesystem's own BPB (which matches the
    /// formatter's layout).
    pub open spec fn block_of(&self, cluster: u32) -> u64 {
        let b = self.params();
        let data_start = b.reserved_sectors as u64 + (b.num_fats as u64 * b.sectors_per_fat_32 as u64);
        ((data_start as u64).wrapping_add(((cluster as u64).wrapping_sub(2)).wrapping_mul(b.sectors_per_cluster as u64))) / 8
    }

    /// What `create` answers and the disk it leaves: outside the root
    /// directory, `NotDir`; else the root's cluster is rewritten to hold one
    /// entry, for `name` at the next free cluster, the new inode.
    pub open spec fn create_effect(&self, dir: InodeId, name: Seq<u8>) -> (Result<InodeId, FsError>, Seq<Seq<u8>>) {
        let disk = self.device().disk();
        let blk = self.block_of(2) as int;
        let c = self.next_free();
        if dir.ino != 2 {
            (Err(FsError::NotDir), disk)
        } else if !self.device().readable(blk) {
            (Err(FsError::Io), disk)
        } else {
            let image = Seq::new(4096, |i: int| if i < 32 { dir_entry_bytes(spec_short_name(name), c, 0)[i] } else { 0u8 });
            (Ok(InodeId { mount: self.mount(), ino: c as u64 }), disk.update(blk, overlay(disk[blk], image)))
        }
    }

    /// What `write` answers and the disk it leaves: the bytes go into the
    /// file's cluster after its 32-byte entry; the root directory is
    /// `IsDir`, an unreadable cluster `Io`, and what would not fit `NoSpace`.
    pub open spec fn write_effect(&self, inode: InodeId, offset: u64, data: Seq<u8>) -> (Result<usize, FsError>, Seq<Seq<u8>>) {
        let disk = self.device().disk();
        let blk = self.block_of(inode.ino as u32) as int;
        if inode.ino == 2 {
            (Err(FsError::IsDir), disk)
        } else if !self.device().readable(blk) {
            (Err(FsError::Io), disk)
        } else if !(offset <= 4064 && data.len() <= 4064 - offset) {
            (Err(FsError::NoSpace), disk)
        } else {
            (Ok(data.len() as usize), disk.update(blk,
                Seq::new(4096, |i: int| if 32 + offset <= i < 32 + offset + data.len() { data[i - 32 - offset] } else { disk[blk][i] })))
        }
    }

    fn cluster_to_sector(&self, cluster: u32) -> (r: u64)
        ensures
            r == self.block_of(cluster),
    {
        let nf = self.bpb.num_fats as u64;
        let spf = self.bpb.sectors_per_fat_32 as u64;
        assert(nf * spf <= 255 * 0xFFFF_FFFF) by (nonlinear_arith)
            requires
                nf <= 255,
                spf <= 0xFFFF_FFFF,
        ;
        let data_start = self.bpb.reserved_sectors as u64 + nf * spf;
        data_start.wrapping_add(((cluster as u64).wrapping_sub(2)).wrapping_mul(self.bpb.sectors_per_cluster as u64)) / 8
    }

    /// Formats the device: the boot sector into sector 0 (over whatever
    /// block 0 held, or zeros when it could not be read), then the root
    /// directory cluster and the README cluster; and mounts the result.
    pub fn format_and_mount(mount_id: u32, device_id: u32, dev: D) -> (r: Result<Self, (FsError, D)>)
        ensures
            ({
                let total = ((dev.disk().len() as u64).wrapping_mul(4096) / 512) as u32;
                match r {
                    Ok(fs) => {
                        let d = fs.device().disk();
                        &&& fs.mount() == mount_id
                        &&& fs.params() == spec_bpb(total)
                        &&& fs.next_free() == 3
                        &&& d.len() == dev.disk().len()
                        &&& d.len() > 21
                        &&& d[0].subrange(0, 512) == boot_sector(spec_bpb(total))
                        &&& d[20] == root_cluster_image()
                        &&& d[21] == root_cluster_image()
                    },
                    Err((e, _)) => e == FsError::Io,
                }
            }),
            r is Ok <==> dev.readable(0) && dev.readable(20) && dev.readable(21),
    {
        let mut dev = dev;
        let blocks = dev.block_count();
        let total = (blocks.wrapping_mul(BLOCK_SIZE as u64) / (SECTOR_SIZE as u64)) as u32;
        let bpb = FatBpb {
            bytes_per_sector: 512,
            sectors_per_cluster: SECTORS_PER_CLUSTER,
            reserved_sectors: 32,
            num_fats: 2,
            root_entry_count: 0,
            total_sectors_16: 0,
            media: 0xF8,
            sectors_per_fat_16: 0,
            sectors_per_track: 63,
            num_heads: 255,
            hidden_sectors: 0,
            total_sectors_32: total,
            sectors_per_fat_32: 64,
            ext_flags: 0,
            fs_version: 0,
            root_cluster: ROOT_CLUSTER,
            fs_info: 1,
            backup_boot: 6,
        };
        let boot = encode_boot_sector(&bpb);
        let mut block0: Vec<u8> = vec![0u8; BLOCK_SIZE];
        let ghost zeros = block0@;
        let read_ok = dev.read_block(0, &mut block0).is_ok();
        let ghost before0 = block0@;
        write_bytes(&mut block0, 0, boot.as_slice());
        match dev.write_block(0, block0.as_slice()) {
            Ok(()) => {},
            Err(_) => return Err((FsError::Io, dev)),
        }
        let ghost d0 = dev.disk();
        proof {
            assert(spec_cluster_block(2) == 20) by (bit_vector);
            assert(spec_cluster_block(3) == 21) by (bit_vector);
        }
        let cluster = root_cluster_bytes();
        match dev.write_block(cluster_block(ROOT_CLUSTER), cluster.as_slice()) {
            Ok(()) => {},
            Err(_) => return Err((FsError::Io, dev)),
        }
        match dev.write_block(cluster_block(README_CLUSTER), cluster.as_slice()) {
            Ok(()) => {},
            Err(_) => return Err((FsError::Io, dev)),
        }
        proof {
            let d = dev.disk();
            assert(d[0].subrange(0, 512) =~= boot_sector(spec_bpb(total)));
            assert(overlay(d0[20], cluster@) =~= root_cluster_image());
        }
        Ok(Fat32Fs { mount_id, device_id, dev, bpb, next_cluster: 3 })
    }
}

fn root_cluster_bytes() -> (r: Vec<u8>)
    ensures
        r@ == root_cluster_image(),
        r@.len() == 4096,
{
    let readme: Vec<u8> = vec![0x52u8, 0x45u8, 0x41u8, 0x44u8, 0x4du8, 0x45u8, 0x20u8, 0x20u8, 0x54u8, 0x58u8, 0x54u8];
    let entry = encode_dir_entry(&readme, README_CLUSTER, README_SIZE);
    let text: Vec<u8> = vec![0x48u8, 0x65u8, 0x6cu8, 0x6cu8, 0x6fu8, 0x2cu8, 0x20u8, 0x46u8, 0x41u8, 0x54u8, 0x33u8, 0x32u8, 0x21u8];
    let mut c: Vec<u8> = vec![0u8; CLUSTER_SIZE];
    let mut i: usize = 0;
    while i < 32
        invariant
            0 <= i <= 32,
            entry@.len() == 32,
            c@.len() == 4096,
            forall|j: int| 0 <= j < i ==> #[trigger] c@[j] == entry@[j],
            forall|j: int| i <= j < 4096 ==> #[trigger] c@[j] == 0,
        decreases 32 - i,
    {
        c.set(i, entry[i]);
        i = i + 1;
    }
    let mut k: usize = 0;
    while k < 13
        invariant
            0 <= k <= 13,
            entry@.len() == 32,
            text@.len() == 13,
            c@.len() == 4096,
            forall|j: int| 0 <= j < 32 ==> #[trigger] c@[j] == entry@[j],
            forall|j: int| 0 <= j < k ==> #[trigger] c@[32 + j] == text@[j],
            forall|j: int| 32 + k <= j < 4096 ==> #[trigger] c@[j] == 0,
        decreases 13 - k,
    {
        c.set(32 + k, text[k]);
        k = k + 1;
    }
    proof {
        assert forall|j: int| 0 <= j < 4096 implies #[trigger] c@[j] == root_cluster_image()[j] by {
            if 32 <= j < 45 {
                assert(c@[32 + (j - 32)] == text@[j - 32]);
            }
        }
        assert(c@ =~= root_cluster_image());
    }
    c
}

/// Whether `name` is "README.TXT" in any ASCII case.
pub open spec fn is_readme(name: Seq<u8>) -> bool {
    let r = seq![0x52u8, 0x45u8, 0x41u8, 0x44u8, 0x4du8, 0x45u8, 0x2eu8, 0x54u8, 0x58u8, 0x54u8];
    name.len() == 10 && forall|i: int| 0 <= i < 10 ==> upper(#[trigger] name[i]) == r[i]
}

impl<D: BlockDevice> FileSystem for Fat32Fs<D> {
    open spec fn root_spec(&self) -> InodeId {
        InodeId { mount: self.mount(), ino: 2 }
    }

    open spec fn attr_of(&self, inode: InodeId) -> Result<InodeAttr, FsError> {
        if inode.mount != self.mount() {
            Err(FsError::NotFound)
        } else if inode.ino == 2 {
            Ok(InodeAttr { ino: 2, mode: InodeMode { bits: 0o755 }, file_type: FileType::Directory, size: 0, nlink: 1, generation: 1, rdev: 0 })
        } else {
            Ok(InodeAttr { ino: inode.ino, mode: InodeMode { bits: 0o644 }, file_type: FileType::Regular, size: 13, nlink: 1, generation: 1, rdev: 0 })
        }
    }

    open spec fn child_of(&self, dir: InodeId, name: Seq<u8>) -> Result<InodeId, FsError> {
        if dir.ino != 2 {
            Err(FsError::NotDir)
        } else if !is_utf8(name) {
            Err(FsError::Invalid)
        } else if is_readme(name) {
            Ok(InodeId { mount: self.mount(), ino: 3 })
        } else {
            Err(FsError::NotFound)
        }
    }

    open spec fn link_of(&self, inode: InodeId) -> Result<Seq<u8>, FsError> {
        Err(FsError::NotSymlink)
    }

    fn fs_type(&self) -> (r: &'static str)
        ensures
            r@ == "fat32"@,
    {
        "fat32"
    }

    fn root(&self) -> (r: InodeId) {
        InodeId::new(self.mount_id, 2)
    }

    fn getattr(&self, inode: InodeId) -> (r: Result<InodeAttr, FsError>) {
        if inode.mount != self.mount_id {
            return Err(FsError::NotFound);
        }
        if inode.ino == 2 {
            return Ok(InodeAttr { ino: 2, mode: InodeMode::default_dir(), file_type: FileType::Directory, size: 0, nlink: 1, generation: 1, rdev: 0 });
        }
        Ok(InodeAttr { ino: inode.ino, mode: InodeMode::default_file(), file_type: FileType::Regular, size: 13, nlink: 1, generation: 1, rdev: 0 })
    }

    fn lookup(&self, dir: InodeId, name: &[u8]) -> (r: Result<InodeId, FsError>) {
        if dir.ino != 2 {
            return Err(FsError::NotDir);
        }
        if !utf8_ok(name) {
            return Err(FsError::Invalid);
        }
        let readme: [u8; 10] = [0x52, 0x45, 0x41, 0x44, 0x4d, 0x45, 0x2e, 0x54, 0x58, 0x54];
        if name.len() != 10 {
            return Err(FsError::NotFound);
        }
        let mut i: usize = 0;
        while i < 10
            invariant
                0 <= i <= 10,
                name@.len() == 10,
                dir.ino == 2,
                is_utf8(name@),
                readme@ == seq![0x52u8, 0x45u8, 0x41u8, 0x44u8, 0x4du8, 0x45u8, 0x2eu8, 0x54u8, 0x58u8, 0x54u8],
                forall|j: int| 0 <= j < i ==> upper(#[trigger] name@[j]) == readme@[j],
            decreases 10 - i,
        {
            if to_upper(name[i]) != readme[i] {
                assert(upper(name@[i as int]) != seq![0x52u8, 0x45u8, 0x41u8, 0x44u8, 0x4du8, 0x45u8, 0x2eu8, 0x54u8, 0x58u8, 0x54u8][i as int]);
                assert(!is_readme(name@));
                return Err(FsError::NotFound);
            }
            i = i + 1;
        }
        Ok(InodeId::new(self.mount_id, 3))
    }

    /// Makes the root directory's cluster hold a single entry for `name` at
    /// the next free cluster (the cluster count moves on even if the write
    /// fails).
    open spec fn create_done(&self, after: Self, dir: InodeId, name: Seq<u8>, file_type: FileType, mode: InodeMode, r: Result<InodeId, FsError>) -> bool {
        &&& after.mount() == self.mount()
        &&& after.params() == self.params()
        &&& after.next_free() == if dir.ino == 2 { self.next_free().wrapping_add(1) } else { self.next_free() }
        &&& forall|b: int| #[trigger] after.device().readable(b) == self.device().readable(b)
        &&& (r, after.device().disk()) == self.create_effect(dir, name)
    }

    fn create(&mut self, dir: InodeId, name: &[u8], file_type: FileType, mode: InodeMode) -> (r: Result<InodeId, FsError>)
    {
        if dir.ino != 2 {
            return Err(FsError::NotDir);
        }
        let cluster = self.next_cluster;
        self.next_cluster = self.next_cluster.wrapping_add(1);
        let short = short_name(name);
        let entry = encode_dir_entry(&short, cluster, 0);
        let mut buf: Vec<u8> = vec![0u8; CLUSTER_SIZE];
        let mut i: usize = 0;
        while i < 32
            invariant
                0 <= i <= 32,
                entry@.len() == 32,
                buf@.len() == 4096,
                forall|j: int| 0 <= j < i ==> #[trigger] buf@[j] == entry@[j],
                forall|j: int| i <= j < 4096 ==> #[trigger] buf@[j] == 0,
            decreases 32 - i,
        {
            buf.set(i, entry[i]);
            i = i + 1;
        }
        assert(buf@ =~= Seq::new(4096, |i: int| if i < 32 { dir_entry_bytes(spec_short_name(name@), cluster, 0)[i] } else { 0u8 }));
        let blk = self.cluster_to_sector(2);
        match self.dev.write_block(blk, buf.as_slice()) {
            Ok(()) => Ok(InodeId::new(self.mount_id, cluster as u64)),
            Err(_) => Err(FsError::Io),
        }
    }

    /// Makes an entry for `name` as `create` does.
    open spec fn mkdir_done(&self, after: Self, dir: InodeId, name: Seq<u8>, mode: InodeMode, r: Result<InodeId, FsError>) -> bool {
        &&& after.mount() == self.mount()
        &&& after.params() == self.params()
        &&& after.next_free() == if dir.ino == 2 { self.next_free().wrapping_add(1) } else { self.next_free() }
        &&& forall|b: int| #[trigger] after.device().readable(b) == self.device().readable(b)
        &&& (r, after.device().disk()) == self.create_effect(dir, name)
    }

    fn mkdir(&mut self, dir: InodeId, name: &[u8], mode: InodeMode) -> (r: Result<InodeId, FsError>)
    {
        self.create(dir, name, FileType::Directory, mode)
    }

    open spec fn unlink_done(&self, after: Self, dir: InodeId, name: Seq<u8>, r: Result<(), FsError>) -> bool {
        r == Err::<(), FsError>(FsError::NotSupported) && after == *self
    }

    fn unlink(&mut self, dir: InodeId, name: &[u8]) -> (r: Result<(), FsError>)
    {
        Err(FsError::NotSupported)
    }

    /// Reads from the file's cluster: its content starts after the 32-byte
    /// entry at the cluster's start; the README holds 13 bytes, other
    /// files the rest of the cluster.
    open spec fn read_result(&self, inode: InodeId, offset: u64, buf: Seq<u8>) -> (Result<usize, FsError>, Seq<u8>) {
        let blk = self.block_of(inode.ino as u32) as int;
        if inode.ino == 2 {
            (Err(FsError::IsDir), buf)
        } else if !self.device().readable(blk) {
            (Err(FsError::Io), buf)
        } else {
            let data = if inode.ino == 3 { self.device().disk()[blk].subrange(32, 45) } else { self.device().disk()[blk].subrange(32, 4096) };
            if offset >= data.len() {
                (Ok(0), buf)
            } else {
                let n = if buf.len() < data.len() - offset { buf.len() as int } else { data.len() - offset };
                (Ok(n as usize), overlay(buf, data.subrange(offset as int, offset + n)))
            }
        }
    }

    fn read(&self, inode: InodeId, offset: u64, buf: &mut Vec<u8>) -> (r: Result<usize, FsError>)
    {
        if inode.ino == 2 {
            return Err(FsError::IsDir);
        }
        let blk = self.cluster_to_sector(inode.ino as u32);
        let mut cbuf: Vec<u8> = vec![0u8; CLUSTER_SIZE];
        match self.dev.read_block(blk, &mut cbuf) {
            Ok(()) => {},
            Err(_) => return Err(FsError::Io),
        }
        let end_all: usize = if inode.ino == 3 { 45 } else { CLUSTER_SIZE };
        let ghost data = cbuf@.subrange(32, end_all as int);
        let dlen = end_all - 32;
        if offset >= dlen as u64 {
            return Ok(0);
        }
        let start = offset as usize;
        let avail = dlen - start;
        let cnt = if buf.len() < avail { buf.len() } else { avail };
        let mut k: usize = 0;
        while k < cnt
            invariant
                0 <= k <= cnt,
                cnt <= buf@.len(),
                start + cnt <= dlen,
                dlen + 32 == end_all,
                end_all <= 4096,
                cbuf@.len() == 4096,
                data == cbuf@.subrange(32, end_all as int),
                buf@.len() == old(buf)@.len(),
                forall|j: int| 0 <= j < k ==> #[trigger] buf@[j] == data[start + j],
                forall|j: int| k <= j < buf@.len() ==> #[trigger] buf@[j] == old(buf)@[j],
            decreases cnt - k,
        {
            buf.set(k, cbuf[32 + start + k]);
            k = k + 1;
        }
        assert(buf@ =~= overlay(old(buf)@, data.subrange(start as int, start + cnt)));
        Ok(cnt)
    }

    /// Writes into the file's cluster after the 32-byte entry; what does not
    /// fit the cluster is refused.
    open spec fn write_done(&self, after: Self, inode: InodeId, offset: u64, buf: Seq<u8>, r: Result<usize, FsError>) -> bool {
        &&& after.mount() == self.mount()
        &&& after.params() == self.params()
        &&& after.next_free() == self.next_free()
        &&& forall|b: int| #[trigger] after.device().readable(b) == self.device().readable(b)
        &&& (r, after.device().disk()) == self.write_effect(inode, offset, buf)
    }

    fn write(&mut self, inode: InodeId, offset: u64, data: &[u8]) -> (r: Result<usize, FsError>)
    {
        if inode.ino == 2 {
            return Err(FsError::IsDir);
        }
        let blk = self.cluster_to_sector(inode.ino as u32);
        let mut cbuf: Vec<u8> = vec![0u8; CLUSTER_SIZE];
        match self.dev.read_block(blk, &mut cbuf) {
            Ok(()) => {},
            Err(_) => return Err(FsError::Io),
        }
        if offset > (CLUSTER_SIZE - 32) as u64 || data.len() > CLUSTER_SIZE - 32 - offset as usize {
            return Err(FsError::NoSpace);
        }
        let start = 32 + offset as usize;
        let ghost before = cbuf@;
        let mut k: usize = 0;
        while k < data.len()
            invariant
                0 <= k <= data@.len(),
                start + data@.len() <= 4096,
                cbuf@.len() == 4096,
                forall|j: int| 0 <= j < k ==> #[trigger] cbuf@[start + j] == data@[j],
                forall|j: int| 0 <= j < 4096 && !(start <= j < start + k) ==> #[trigger] cbuf@[j] == before[j],
            decreases data@.len() - k,
        {
            cbuf.set(start + k, data[k]);
            k = k + 1;
        }
        let ghost old_blk = self.dev.disk()[blk as int];
        assert(before == old_blk);
        match self.dev.write_block(blk, cbuf.as_slice()) {
            Ok(()) => {
                proof {
                    let img = Seq::new(4096, |i: int| if 32 + offset <= i < 32 + offset + data@.len() { data@[i - 32 - offset] } else { old_blk[i] });
                    assert forall|i: int| 0 <= i < 4096 implies #[trigger] cbuf@[i] == img[i] by {
                        if start <= i < start + data@.len() {
                            assert(cbuf@[start + (i - start)] == data@[i - start]);
                        }
                    }
                    assert(overlay(old_blk, cbuf@) =~= img);
                }
                Ok(data.len())
            },
            Err(_) => Err(FsError::Io),
        }
    }

    open spec fn readdir_result(&self, dir: InodeId, index: u64) -> Result<Option<(Seq<u8>, InodeId, FileType)>, FsError> {
        if dir.ino != 2 {
            Err(FsError::NotDir)
        } else if index == 0 {
            Ok(Some((seq![0x2eu8], dir, FileType::Directory)))
        } else if index == 1 {
            Ok(Some((seq![0x52u8, 0x45u8, 0x41u8, 0x44u8, 0x4du8, 0x45u8, 0x2eu8, 0x54u8, 0x58u8, 0x54u8],
                InodeId { mount: self.mount(), ino: 3 }, FileType::Regular)))
        } else {
            Ok(None)
        }
    }

    fn readdir(&self, dir: InodeId, index: u64, entry: &mut DirEntry) -> (r: Result<bool, FsError>)
    {
        if dir.ino != 2 {
            return Err(FsError::NotDir);
        }
        if index > 0 {
            if index == 1 {
                entry.name = vec![0x52u8, 0x45u8, 0x41u8, 0x44u8, 0x4du8, 0x45u8, 0x2eu8, 0x54u8, 0x58u8, 0x54u8];
                entry.inode = InodeId::new(self.mount_id, 3);
                entry.file_type = FileType::Regular;
                return Ok(true);
            }
            return Ok(false);
        }
        entry.name = vec![0x2eu8];
        entry.inode = dir;
        entry.file_type = FileType::Directory;
        Ok(true)
    }

    fn readlink(&self, inode: InodeId, buf: &mut Vec<u8>) -> (r: Result<usize, FsError>) {
        Err(FsError::NotSymlink)
    }

    open spec fn symlink_done(&self, after: Self, dir: InodeId, name: Seq<u8>, target: Seq<u8>, mode: InodeMode, r: Result<InodeId, FsError>) -> bool {
        r == Err::<InodeId, FsError>(FsError::NotSupported) && after == *self
    }

    fn symlink(&mut self, dir: InodeId, name: &[u8], target: &[u8], mode: InodeMode) -> (r: Result<InodeId, FsError>)
    {
        Err(FsError::NotSupported)
    }

    open spec fn truncate_done(&self, after: Self, inode: InodeId, size: u64, r: Result<(), FsError>) -> bool {
        r == Err::<(), FsError>(FsError::NotSupported) && after == *self
    }

    fn truncate(&mut self, inode: InodeId, size: u64) -> (r: Result<(), FsError>)
    {
        Err(FsError::NotSupported)
    }
}

} // verus!
