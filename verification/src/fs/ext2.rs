//! ext2 on a block device: superblock, inode and directory-entry layouts,
//! the formatter, and the driver's inode, lookup and file-block logic.
//!
//! The driver handles the geometry its formatter writes: 4 KiB blocks, the
//! inode table at block 5 with 128-byte inode slots, and twelve direct
//! block pointers per inode. Inode arithmetic is 32-bit and wraps as the
//! release build does; slots or entries that would reach past a block are
//! refused rather than read or written.

use vstd::prelude::*;
use crate::bytes::{
    append_slice, le16, le32, le_bytes16, le_bytes32, lemma_le16_roundtrip, lemma_le32_roundtrip, read_u16, read_u32, splice,
    u16_le_bytes, u32_le_bytes, write_bytes,
};
use crate::fs::block::{overlay, BlockDevice, BLOCK_SIZE};
use crate::fs::names::{is_utf8, name_eq, utf8_ok};
use crate::fs::vfs::inode::{FileType, InodeAttr, InodeId, InodeMode};
use crate::fs::vfs::superblock::{DirEntry, FileSystem, FsError};

verus! {

pub const EXT2_MAGIC: u16 = 0xEF53;
pub const ROOT_INO: u32 = 2;
pub const INODES_PER_GROUP: u32 = 128;
pub const BLOCKS_PER_GROUP: u32 = 4096;
pub const INODE_TABLE_BLOCK: u32 = 5;
pub const INODE_SIZE: u32 = 128;
/// Bytes of an inode the driver keeps: mode, size, block count, 12 pointers.
pub const INODE_RAW_LEN: usize = 58;
pub const SUPER_RAW_LEN: usize = 34;
pub const ROOT_DIR_BLOCK: u32 = 10;
pub const DIRECT_BLOCKS: usize = 12;

#[derive(Clone, Copy, Debug, PartialEq, Eq, Structural)]
pub struct Ext2Super {
    pub inodes_count: u32,
    pub blocks_count: u32,
    pub free_blocks: u32,
    pub free_inodes: u32,
    pub first_data_block: u32,
    pub log_block_size: u32,
    pub blocks_per_group: u32,
    pub inodes_per_group: u32,
    pub magic: u16,
}

/// The superblock's first 34 bytes, little-endian and packed.
pub open spec fn super_bytes(s: Ext2Super) -> Seq<u8> {
    le_bytes32(s.inodes_count) + le_bytes32(s.blocks_count) + le_bytes32(s.free_blocks) + le_bytes32(s.free_inodes)
        + le_bytes32(s.first_data_block) + le_bytes32(s.log_block_size) + le_bytes32(s.blocks_per_group)
        + le_bytes32(s.inodes_per_group) + le_bytes16(s.magic)
}

pub fn encode_super(s: &Ext2Super) -> (r: Vec<u8>)
    ensures
        r@ == super_bytes(*s),
{
    let mut out: Vec<u8> = Vec::new();
    append_slice(&mut out, u32_le_bytes(s.inodes_count).as_slice());
    append_slice(&mut out, u32_le_bytes(s.blocks_count).as_slice());
    append_slice(&mut out, u32_le_bytes(s.free_blocks).as_slice());
    append_slice(&mut out, u32_le_bytes(s.free_inodes).as_slice());
    append_slice(&mut out, u32_le_bytes(s.first_data_block).as_slice());
    append_slice(&mut out, u32_le_bytes(s.log_block_size).as_slice());
    append_slice(&mut out, u32_le_bytes(s.blocks_per_group).as_slice());
    append_slice(&mut out, u32_le_bytes(s.inodes_per_group).as_slice());
    append_slice(&mut out, u16_le_bytes(s.magic).as_slice());
    out
}

/// An inode as the driver keeps it.
pub struct Ext2Inode {
    pub mode: u16,
    pub size: u32,
    pub blocks: u32,
    pub block: Vec<u32>,
}

pub struct InodeView {
    pub mode: u16,
    pub size: u32,
    pub blocks: u32,
    pub block: Seq<u32>,
}

impl View for Ext2Inode {
    type V = InodeView;

    open spec fn view(&self) -> InodeView {
        InodeView { mode: self.mode, size: self.size, blocks: self.blocks, block: self.block@ }
    }
}

/// The inode stored at `off` in `b`.
pub open spec fn inode_at(b: Seq<u8>, off: int) -> InodeView {
    InodeView {
        mode: le16(b, off) as u16,
        size: le32(b, off + 2) as u32,
        blocks: le32(b, off + 6) as u32,
        block: Seq::new(12, |k: int| le32(b, off + 10 + 4 * k) as u32),
    }
}

pub open spec fn pointers_bytes(p: Seq<u32>) -> Seq<u8>
    decreases p.len(),
{
    if p.len() == 0 { Seq::empty() } else { pointers_bytes(p.drop_last()) + le_bytes32(p.last()) }
}

/// The 58 bytes an inode is stored as.
pub open spec fn inode_bytes(v: InodeView) -> Seq<u8> {
    le_bytes16(v.mode) + le_bytes32(v.size) + le_bytes32(v.blocks) + pointers_bytes(v.block)
}

proof fn lemma_pointers_len(p: Seq<u32>)
    ensures
        pointers_bytes(p).len() == 4 * p.len(),
    decreases p.len(),
{
    if p.len() > 0 {
        lemma_pointers_len(p.drop_last());
    }
}

proof fn lemma_pointers_at(p: Seq<u32>, k: int)
    requires
        0 <= k < p.len(),
    ensures
        pointers_bytes(p).subrange(4 * k, 4 * k + 4) == le_bytes32(p[k]),
    decreases p.len(),
{
    lemma_pointers_len(p.drop_last());
    let pre = pointers_bytes(p.drop_last());
    if k == p.len() - 1 {
        assert(pointers_bytes(p).subrange(4 * k, 4 * k + 4) =~= le_bytes32(p[k]));
    } else {
        lemma_pointers_at(p.drop_last(), k);
        assert(pointers_bytes(p).subrange(4 * k, 4 * k + 4) =~= pre.subrange(4 * k, 4 * k + 4));
    }
}

/// Reading an inode back from where it was just written gives it back.
pub proof fn lemma_inode_roundtrip(b: Seq<u8>, off: int, v: InodeView)
    requires
        v.block.len() == 12,
        0 <= off,
        off + INODE_RAW_LEN <= b.len(),
    ensures
        inode_at(splice(b, off, inode_bytes(v)), off) == v,
{
    let e = inode_bytes(v);
    lemma_pointers_len(v.block);
    let nb = splice(b, off, e);
    assert(e.len() == 58);
    assert forall|i: int| 0 <= i < 58 implies #[trigger] nb[off + i] == e[i] by {}
    lemma_le16_roundtrip(v.mode);
    lemma_le32_roundtrip(v.size);
    lemma_le32_roundtrip(v.blocks);
    assert(le16(nb, off) == le16(e, 0));
    assert(le32(nb, off + 2) == le32(le_bytes32(v.size), 0));
    assert(le32(nb, off + 6) == le32(le_bytes32(v.blocks), 0));
    assert forall|k: int| 0 <= k < 12 implies #[trigger] (le32(nb, off + 10 + 4 * k) as u32) == v.block[k] by {
        lemma_pointers_at(v.block, k);
        lemma_le32_roundtrip(v.block[k]);
        let q = pointers_bytes(v.block);
        assert(q[4 * k] == le_bytes32(v.block[k])[0]);
        assert(q[4 * k + 1] == le_bytes32(v.block[k])[1]);
        assert(q[4 * k + 2] == le_bytes32(v.block[k])[2]);
        assert(q[4 * k + 3] == le_bytes32(v.block[k])[3]);
        assert(e[10 + 4 * k] == q[4 * k]);
        assert(e[10 + 4 * k + 1] == q[4 * k + 1]);
        assert(e[10 + 4 * k + 2] == q[4 * k + 2]);
        assert(e[10 + 4 * k + 3] == q[4 * k + 3]);
    }
    assert(inode_at(nb, off).block =~= v.block);
}

pub fn encode_inode(v: &Ext2Inode) -> (r: Vec<u8>)
    requires
        v.block@.len() == 12,
    ensures
        r@ == inode_bytes(v@),
        r@.len() == INODE_RAW_LEN,
{
    let mut out: Vec<u8> = Vec::new();
    append_slice(&mut out, u16_le_bytes(v.mode).as_slice());
    append_slice(&mut out, u32_le_bytes(v.size).as_slice());
    append_slice(&mut out, u32_le_bytes(v.blocks).as_slice());
    let ghost head = out@;
    let mut k: usize = 0;
    while k < DIRECT_BLOCKS
        invariant
            0 <= k <= 12,
            v.block@.len() == 12,
            out@ == head + pointers_bytes(v.block@.subrange(0, k as int)),
        decreases 12 - k,
    {
        assert(v.block@.subrange(0, k + 1).drop_last() =~= v.block@.subrange(0, k as int));
        append_slice(&mut out, u32_le_bytes(v.block[k]).as_slice());
        assert(out@ =~= head + pointers_bytes(v.block@.subrange(0, k + 1)));
        k = k + 1;
    }
    assert(v.block@.subrange(0, 12) =~= v.block@);
    proof {
        lemma_pointers_len(v.block@);
    }
    out
}

/// Decodes the inode at `off` of a block.
pub fn decode_inode(b: &[u8], off: usize) -> (r: Ext2Inode)
    requires
        off + INODE_RAW_LEN <= b@.len(),
    ensures
        r@ == inode_at(b@, off as int),
        r.block@.len() == 12,
{
    let blen = b.len();
    assert(off + INODE_RAW_LEN <= blen);
    let mode = read_u16(b, off);
    let size = read_u32(b, off + 2);
    let blocks = read_u32(b, off + 6);
    let mut block: Vec<u32> = Vec::new();
    let mut k: usize = 0;
    while k < DIRECT_BLOCKS
        invariant
            0 <= k <= 12,
            off + INODE_RAW_LEN <= b@.len(),
            blen == b@.len(),
            block@.len() == k,
            forall|j: int| 0 <= j < k ==> #[trigger] block@[j] == le32(b@, off + 10 + 4 * j) as u32,
        decreases 12 - k,
    {
        block.push(read_u32(b, off + 10 + 4 * k));
        k = k + 1;
    }
    let r = Ext2Inode { mode, size, blocks, block };
    assert(r@.block =~= inode_at(b@, off as int).block);
    r
}

/// The file type an inode's mode says.
pub open spec fn spec_mode_type(mode: u16) -> FileType {
    let t = mode & 0xF000;
    if t == 0x4000 { FileType::Directory }
    else if t == 0xA000 { FileType::Symlink }
    else if t == 0x2000 { FileType::CharDev }
    else if t == 0x6000 { FileType::BlockDev }
    else { FileType::Regular }
}

pub fn mode_to_type(mode: u16) -> (r: FileType)
    ensures
        r == spec_mode_type(mode),
{
    let t = mode & 0xF000;
    if t == 0x4000 { FileType::Directory }
    else if t == 0xA000 { FileType::Symlink }
    else if t == 0x2000 { FileType::CharDev }
    else if t == 0x6000 { FileType::BlockDev }
    else { FileType::Regular }
}

/// Where inode `ino` sits: the block of the inode table and the offset in it.
pub open spec fn spec_inode_location(ino: u32) -> (u32, int) {
    let t = ino.wrapping_sub(1).wrapping_mul(INODE_SIZE);
    (INODE_TABLE_BLOCK.wrapping_add(t / 4096), (t % 4096) as int)
}

pub fn inode_location(ino: u32) -> (r: (u32, usize))
    ensures
        (r.0, r.1 as int) == spec_inode_location(ino),
        r.1 + INODE_RAW_LEN <= BLOCK_SIZE,
{
    let t = ino.wrapping_sub(1).wrapping_mul(INODE_SIZE);
    let off = (t % 4096) as usize;
    assert(t % 4096 <= 3968) by (bit_vector)
        requires
            t == ino.wrapping_sub(1).wrapping_mul(128u32),
    ;
    (INODE_TABLE_BLOCK.wrapping_add(t / 4096), off)
}

/// Length of a directory entry for a name of `len` bytes: header and name,
/// rounded up to 4.
pub open spec fn rec_len_for(len: int) -> int {
    (8 + len + 3) / 4 * 4
}

/// A directory entry's bytes: inode, record length, name length, type, name.
pub open spec fn dir_entry_bytes(ino: u32, name: Seq<u8>, file_type: u8) -> Seq<u8> {
    le_bytes32(ino) + le_bytes16(rec_len_for(name.len() as int) as u16) + seq![name.len() as u8, file_type] + name
}

/// Writes a directory entry at `off` and moves `off` past its record.
pub fn write_dir_entry(block: &mut Vec<u8>, off: &mut usize, ino: u32, name: &[u8], file_type: u8)
    requires
        *old(off) + 8 + old(block)@.len() <= usize::MAX,
        *old(off) + 8 + name@.len() <= old(block)@.len(),
        name@.len() <= 255,
    ensures
        final(block)@ == splice(old(block)@, *old(off) as int, dir_entry_bytes(ino, name@, file_type)),
        *final(off) == *old(off) + rec_len_for(name@.len() as int),
{
    let n = name.len();
    let rec = (8 + n + 3) / 4 * 4;
    let mut e: Vec<u8> = Vec::new();
    append_slice(&mut e, u32_le_bytes(ino).as_slice());
    append_slice(&mut e, u16_le_bytes(rec as u16).as_slice());
    e.push(n as u8);
    e.push(file_type);
    append_slice(&mut e, name);
    assert(e@ =~= dir_entry_bytes(ino, name@, file_type));
    write_bytes(block, *off, e.as_slice());
    *off = *off + rec;
}

/// The inode number `name` leads to in a directory block whose entries take
/// the first `size` bytes; the scan stops at an entry with inode 0, and at an
/// entry that would reach past the block or has record length 0.
pub open spec fn dir_find(b: Seq<u8>, size: int, name: Seq<u8>, off: int) -> Option<u32>
    decreases size - off,
{
    if off < 0 || off >= size || off + 8 > b.len() {
        None
    } else if le32(b, off) == 0 {
        None
    } else {
        let nlen = b[off + 6] as int;
        let rec = le16(b, off + 4);
        if off + 8 + nlen > b.len() {
            None
        } else if b.subrange(off + 8, off + 8 + nlen) == name {
            Some(le32(b, off) as u32)
        } else if rec <= 0 || off + rec >= size {
            None
        } else {
            dir_find(b, size, name, off + rec)
        }
    }
}

/// The `index`-th entry of a directory block: its name and inode.
pub open spec fn dir_nth(b: Seq<u8>, size: int, index: int, off: int) -> Option<(Seq<u8>, u32)>
    decreases size - off,
{
    if off < 0 || off >= size || off + 8 > b.len() {
        None
    } else if le32(b, off) == 0 {
        None
    } else {
        let nlen = b[off + 6] as int;
        let rec = le16(b, off + 4);
        if off + 8 + nlen > b.len() {
            None
        } else if index == 0 {
            Some((b.subrange(off + 8, off + 8 + nlen), le32(b, off) as u32))
        } else if rec <= 0 || off + rec >= size {
            None
        } else {
            dir_nth(b, size, index - 1, off + rec)
        }
    }
}

fn find_in_dir(b: &Vec<u8>, size: usize, name: &[u8]) -> (r: Option<u32>)
    ensures
        r == dir_find(b@, size as int, name@, 0),
{
    let blen = b.len();
    let mut off: usize = 0;
    while off < size && off < blen && blen - off >= 8
        invariant
            blen == b@.len(),
            dir_find(b@, size as int, name@, off as int) == dir_find(b@, size as int, name@, 0),
        decreases blen - off,
    {
        let ino = read_u32(b.as_slice(), off);
        if ino == 0 {
            return None;
        }
        let nlen = b[off + 6] as usize;
        let rec = read_u16(b.as_slice(), off + 4) as usize;
        if nlen > blen - off - 8 {
            return None;
        }
        let (head, _) = b.as_slice().split_at(off + 8 + nlen);
        let (_, ename) = head.split_at(off + 8);
        assert(ename@ =~= b@.subrange(off + 8, off + 8 + nlen));
        if name_eq(ename, name) {
            return Some(ino);
        }
        if rec == 0 {
            return None;
        }
        if rec >= size - off {
            return None;
        }
        if rec >= blen - off {
            assert(dir_find(b@, size as int, name@, off + rec) is None);
            return None;
        }
        off = off + rec;
    }
    None
}

fn nth_in_dir(b: &Vec<u8>, size: usize, index: u64) -> (r: Option<(Vec<u8>, u32)>)
    ensures
        r matches Some((n, i)) ==> dir_nth(b@, size as int, index as int, 0) == Some((n@, i)),
        r is None ==> dir_nth(b@, size as int, index as int, 0) is None,
{
    let blen = b.len();
    let mut off: usize = 0;
    let mut i: u64 = index;
    while off < size && off < blen && blen - off >= 8
        invariant
            blen == b@.len(),
            dir_nth(b@, size as int, i as int, off as int) == dir_nth(b@, size as int, index as int, 0),
        decreases blen - off,
    {
        let ino = read_u32(b.as_slice(), off);
        if ino == 0 {
            return None;
        }
        let nlen = b[off + 6] as usize;
        let rec = read_u16(b.as_slice(), off + 4) as usize;
        if nlen > blen - off - 8 {
            return None;
        }
        if i == 0 {
            let mut n: Vec<u8> = Vec::new();
            let mut k: usize = 0;
            while k < nlen
                invariant
                    0 <= k <= nlen,
                    off + 8 + nlen <= blen,
                    blen == b@.len(),
                    n@ == b@.subrange(off + 8, off + 8 + k),
                decreases nlen - k,
            {
                n.push(b[off + 8 + k]);
                assert(n@ =~= b@.subrange(off + 8, off + 8 + k + 1));
                k = k + 1;
            }
            return Some((n, ino));
        }
        if rec == 0 {
            return None;
        }
        if rec >= size - off {
            return None;
        }
        if rec >= blen - off {
            assert(dir_nth(b@, size as int, i - 1, off + rec) is None);
            return None;
        }
        i = i - 1;
        off = off + rec;
    }
    None
}

pub struct Ext2Fs<D> {
    mount_id: u32,
    device_id: u32,
    dev: D,
    sb: Ext2Super,
}

/// The formatter's superblock for a disk of `blocks` blocks.
pub open spec fn spec_super(blocks: u32) -> Ext2Super {
    Ext2Super {
        inodes_count: INODES_PER_GROUP,
        blocks_count: blocks,
        free_blocks: blocks.wrapping_sub(10),
        free_inodes: 126,
        first_data_block: 1,
        log_block_size: 2,
        blocks_per_group: if BLOCKS_PER_GROUP < blocks { BLOCKS_PER_GROUP } else { blocks },
        inodes_per_group: INODES_PER_GROUP,
        magic: EXT2_MAGIC,
    }
}

/// The root directory's inode: a 4 KiB directory (mode 040755) in block 10.
pub open spec fn root_inode() -> InodeView {
    InodeView { mode: 0x41ED, size: 4096, blocks: 1, block: Seq::new(12, |k: int| if k == 0 { 10u32 } else { 0u32 }) }
}

impl<D: BlockDevice> Ext2Fs<D> {
    pub closed spec fn mount(&self) -> u32 {
        self.mount_id
    }

    pub closed spec fn device(&self) -> D {
        self.dev
    }

    pub closed spec fn superblock(&self) -> Ext2Super {
        self.sb
    }

    /// The inode stored for `ino`, or `Io` when its table block cannot be read.
    pub open spec fn raw_inode(&self, ino: u32) -> Result<InodeView, FsError> {
        let (blk, off) = spec_inode_location(ino);
        if !self.device().readable(blk as int) {
            Err(FsError::Io)
        } else {
            Ok(inode_at(self.device().disk()[blk as int], off))
        }
    }

    fn read_inode_raw(&self, ino: u32) -> (r: Result<Ext2Inode, FsError>)
        ensures
            match self.raw_inode(ino) {
                Ok(v) => r is Ok && r->Ok_0@ == v && r->Ok_0.block@.len() == 12,
                Err(e) => r == Err::<Ext2Inode, FsError>(e),
            },
    {
        let (blk, off) = inode_location(ino);
        let mut buf: Vec<u8> = vec![0u8; BLOCK_SIZE];
        match self.dev.read_block(blk as u64, &mut buf) {
            Ok(()) => {},
            Err(_) => return Err(FsError::Io),
        }
        assert(buf@ =~= self.device().disk()[blk as int]);
        Ok(decode_inode(buf.as_slice(), off))
    }

    fn write_inode_raw(&mut self, ino: u32, inode: &Ext2Inode) -> (r: Result<(), FsError>)
        requires
            inode.block@.len() == 12,
        ensures
            final(self).mount() == old(self).mount(),
            final(self).superblock() == old(self).superblock(),
            r is Ok ==> {
                let (blk, off) = spec_inode_location(ino);
                &&& old(self).device().readable(blk as int)
                &&& final(self).device().disk() == old(self).device().disk().update(blk as int,
                        splice(old(self).device().disk()[blk as int], off, inode_bytes(inode@)))
            },
            r is Err ==> r == Err::<(), FsError>(FsError::Io) && final(self).device().disk() == old(self).device().disk(),
            r is Ok <==> old(self).device().readable(spec_inode_location(ino).0 as int),
            forall|b: int| #[trigger] final(self).device().readable(b) == old(self).device().readable(b),
    {
        let (blk, off) = inode_location(ino);
        let mut buf: Vec<u8> = vec![0u8; BLOCK_SIZE];
        match self.dev.read_block(blk as u64, &mut buf) {
            Ok(()) => {},
            Err(_) => return Err(FsError::Io),
        }
        let ghost old_blk = self.dev.disk()[blk as int];
        assert(buf@ =~= old_blk);
        let bytes = encode_inode(inode);
        write_bytes(&mut buf, off, bytes.as_slice());
        match self.dev.write_block(blk as u64, buf.as_slice()) {
            Ok(()) => {
                assert(overlay(old_blk, buf@) =~= buf@);
                Ok(())
            },
            Err(_) => Err(FsError::Io),
        }
    }

    /// Formats the device (superblock into block 1 at byte 1024, root
    /// directory block 10 with `.` and `..`, root inode 2 into the inode
    /// table) and mounts it.
    pub fn format_and_mount(mount_id: u32, device_id: u32, dev: D) -> (r: Result<Self, (FsError, D)>)
        ensures
            match r {
                Ok(fs) => {
                    let blocks = dev.disk().len() as u32;
                    let d = fs.device().disk();
                    &&& fs.mount() == mount_id
                    &&& fs.superblock() == spec_super(blocks)
                    &&& d.len() == dev.disk().len()
                    &&& d[1].subrange(1024, 1024 + SUPER_RAW_LEN) == super_bytes(spec_super(blocks))
                    &&& d[10] == splice(splice(Seq::new(4096, |i: int| 0u8), 0, dir_entry_bytes(2, seq![0x2eu8], 1)), 12,
                            dir_entry_bytes(2, seq![0x2eu8, 0x2eu8], 1))
                    &&& inode_at(d[5], 128) == root_inode()
                },
                Err((e, _)) => e == FsError::Io,
            },
            r is Ok <==> dev.readable(1) && dev.readable(INODE_TABLE_BLOCK as int) && dev.readable(ROOT_DIR_BLOCK as int),
    {
        let mut dev = dev;
        let blocks = dev.block_count() as u32;
        let sb = Ext2Super {
            inodes_count: INODES_PER_GROUP,
            blocks_count: blocks,
            free_blocks: blocks.wrapping_sub(10),
            free_inodes: INODES_PER_GROUP - 2,
            first_data_block: 1,
            log_block_size: 2,
            blocks_per_group: if BLOCKS_PER_GROUP < blocks { BLOCKS_PER_GROUP } else { blocks },
            inodes_per_group: INODES_PER_GROUP,
            magic: EXT2_MAGIC,
        };
        let mut sbuf: Vec<u8> = vec![0u8; BLOCK_SIZE];
        let sbytes = encode_super(&sb);
        write_bytes(&mut sbuf, 1024, sbytes.as_slice());
        match dev.write_block(1, sbuf.as_slice()) {
            Ok(()) => {},
            Err(_) => return Err((FsError::Io, dev)),
        }
        let mut dir: Vec<u8> = vec![0u8; BLOCK_SIZE];
        let mut off: usize = 0;
        let dot: [u8; 1] = [0x2e];
        let dotdot: [u8; 2] = [0x2e, 0x2e];
        assert(dir@ =~= Seq::new(4096, |i: int| 0u8));
        assert(dot@ =~= seq![0x2eu8]);
        assert(dotdot@ =~= seq![0x2eu8, 0x2eu8]);
        write_dir_entry(&mut dir, &mut off, 2, &dot, 1);
        write_dir_entry(&mut dir, &mut off, 2, &dotdot, 1);
        let ghost d1 = dev.disk();
        match dev.write_block(ROOT_DIR_BLOCK as u64, dir.as_slice()) {
            Ok(()) => {},
            Err(_) => return Err((FsError::Io, dev)),
        }
        let mut tbl: Vec<u8> = vec![0u8; BLOCK_SIZE];
        match dev.read_block(INODE_TABLE_BLOCK as u64, &mut tbl) {
            Ok(()) => {},
            Err(_) => return Err((FsError::Io, dev)),
        }
        let ghost d2 = dev.disk();
        assert(tbl@ =~= d2[5]);
        let mut ptrs: Vec<u32> = vec![0u32; DIRECT_BLOCKS];
        ptrs.set(0, ROOT_DIR_BLOCK);
        let root = Ext2Inode { mode: 0x41ED, size: BLOCK_SIZE as u32, blocks: 1, block: ptrs };
        assert(root@.block =~= root_inode().block);
        assert(root@ == root_inode());
        let rbytes = encode_inode(&root);
        write_bytes(&mut tbl, 128, rbytes.as_slice());
        match dev.write_block(INODE_TABLE_BLOCK as u64, tbl.as_slice()) {
            Ok(()) => {},
            Err(_) => return Err((FsError::Io, dev)),
        }
        let fs = Ext2Fs { mount_id, device_id, dev, sb };
        proof {
            let d = fs.device().disk();
            assert(d[1].subrange(1024, 1024 + SUPER_RAW_LEN) =~= super_bytes(spec_super(blocks)));
            assert(d[10] =~= splice(splice(Seq::new(4096, |i: int| 0u8), 0, dir_entry_bytes(2, seq![0x2eu8], 1)), 12,
                dir_entry_bytes(2, seq![0x2eu8, 0x2eu8], 1)));
            assert(spec_inode_location(2) == (5u32, 128int)) by {
                assert(2u32.wrapping_sub(1).wrapping_mul(128u32) == 128u32) by (bit_vector);
            }
            assert(overlay(d2[5], tbl@) =~= tbl@);
            lemma_inode_roundtrip(d2[5], 128, root@);
        }
        Ok(fs)
    }

    /// What `read` delivers from file position `pos` on, at most `want`
    /// bytes, and the error that stopped it, if any: runs within a block,
    /// inside the file's size and its first twelve blocks, up to the first
    /// unallocated pointer; `Io` at a block on the way that cannot be read,
    /// after the runs before it.
    pub open spec fn read_runs(dev: D, v: InodeView, pos: int, want: int) -> (Seq<u8>, Option<FsError>)
        decreases want,
    {
        if want <= 0 || pos >= v.size || pos / 4096 >= 12 || v.block[pos / 4096] == 0 {
            (Seq::empty(), None)
        } else {
            let bn = v.block[pos / 4096] as int;
            if !dev.readable(bn) {
                (Seq::empty(), Some(FsError::Io))
            } else {
                let start = pos % 4096;
                let in_block = 4096 - start;
                let left = v.size - pos;
                let take = if in_block < want { if in_block < left { in_block } else { left } } else { if want < left { want } else { left } };
                let (rest, err) = Self::read_runs(dev, v, pos + take, want - take);
                (dev.disk()[bn].subrange(start, start + take) + rest, err)
            }
        }
    }
}

/// The pointers and disk after writing `data` from index `done` at file
/// position `pos`, one block-sized run at a time through the twelve direct
/// pointers `ptrs`; an unallocated pointer (0) is given block `fresh`. A
/// run past the twelfth block is `NoSpace`, an unreadable block `Io`; the
/// runs written before stay written.
pub open spec fn write_runs<D: BlockDevice>(dev: D, disk: Seq<Seq<u8>>, ptrs: Seq<u32>, fresh: u32, data: Seq<u8>, done: int, pos: u64)
    -> (Result<Seq<u32>, FsError>, Seq<Seq<u8>>)
    decreases data.len() - done,
{
    if done >= data.len() {
        (Ok(ptrs), disk)
    } else if pos / 4096 >= 12 {
        (Err(FsError::NoSpace), disk)
    } else {
        let idx = (pos / 4096) as int;
        let p = if ptrs[idx] == 0 { ptrs.update(idx, fresh) } else { ptrs };
        let bn = p[idx] as int;
        if !dev.readable(bn) {
            (Err(FsError::Io), disk)
        } else {
            let start = (pos % 4096) as int;
            let take = if 4096 - start < data.len() - done { 4096 - start } else { data.len() - done };
            let blk = splice(disk[bn], start, data.subrange(done, done + take));
            write_runs(dev, disk.update(bn, blk), p, fresh, data, done + take, pos.wrapping_add(take as u64))
        }
    }
}

/// What `write` answers and the disk it leaves: the runs of `write_runs`
/// from `offset`, then the inode stored back with the new pointers and a
/// size of the larger of its old size and the end of the write.
pub open spec fn write_effect<D: BlockDevice>(dev: D, fresh: u32, ino: u32, offset: u64, data: Seq<u8>)
    -> (Result<usize, FsError>, Seq<Seq<u8>>)
{
    let (blk, off) = spec_inode_location(ino);
    if !dev.readable(blk as int) {
        (Err(FsError::Io), dev.disk())
    } else {
        let v = inode_at(dev.disk()[blk as int], off);
        match write_runs(dev, dev.disk(), v.block, fresh, data, 0, offset) {
            (Err(e), d) => (Err(e), d),
            (Ok(ptrs), d) => {
                let end = offset.wrapping_add(data.len() as u64);
                let size = (if end > v.size as u64 { end } else { v.size as u64 }) as u32;
                let nv = InodeView { size, block: ptrs, ..v };
                (Ok(data.len() as usize), d.update(blk as int, splice(d[blk as int], off, inode_bytes(nv))))
            },
        }
    }
}

/// What `truncate` answers and the disk it leaves: the inode stored back
/// with its size set (cut to 32 bits), its blocks untouched.
pub open spec fn truncate_effect<D: BlockDevice>(dev: D, ino: u32, size: u64) -> (Result<(), FsError>, Seq<Seq<u8>>) {
    let (blk, off) = spec_inode_location(ino);
    if !dev.readable(blk as int) {
        (Err(FsError::Io), dev.disk())
    } else {
        let v = inode_at(dev.disk()[blk as int], off);
        (Ok(()), dev.disk().update(blk as int, splice(dev.disk()[blk as int], off, inode_bytes(InodeView { size: size as u32, ..v }))))
    }
}

/// A new inode as `create` stores it: the given mode, nothing allocated.
pub open spec fn empty_inode(mode: u16) -> InodeView {
    InodeView { mode, size: 0, blocks: 0, block: Seq::new(12, |k: int| 0u32) }
}

/// What `create` answers and the disk it leaves: the inode numbered
/// `new_ino` (the free-inode count) is stored empty first; then an entry
/// for `name` is appended at the directory's recorded size in the
/// directory's first block, refused when it would not fit the block.
pub open spec fn create_effect<D: BlockDevice>(dev: D, mount: u32, new_ino: u32, dir: u32, name: Seq<u8>, file_type: FileType, mode: u16)
    -> (Result<InodeId, FsError>, Seq<Seq<u8>>)
{
    let disk = dev.disk();
    let (nb, noff) = spec_inode_location(new_ino);
    let type_bits: u16 = if file_type == FileType::Directory { 0x4000 } else { 0x8000 };
    if !dev.readable(nb as int) {
        (Err(FsError::Io), disk)
    } else {
        let d1 = disk.update(nb as int, splice(disk[nb as int], noff, inode_bytes(empty_inode(type_bits | mode))));
        let (db, doff) = spec_inode_location(dir);
        if !dev.readable(db as int) {
            (Err(FsError::Io), d1)
        } else {
            let v = inode_at(d1[db as int], doff);
            let b0 = v.block[0] as int;
            if !dev.readable(b0) {
                (Err(FsError::Io), d1)
            } else if !is_utf8(name) {
                (Err(FsError::Invalid), d1)
            } else if name.len() > 255 || v.size > 4096 || name.len() + 8 > 4096 - v.size {
                (Err(FsError::NoSpace), d1)
            } else {
                (Ok(InodeId { mount, ino: new_ino as u64 }),
                    d1.update(b0, splice(d1[b0], v.size as int, dir_entry_bytes(new_ino, name, 1))))
            }
        }
    }
}

/// The attributes ext2 reports for an inode it stores.
pub open spec fn ext2_attr(ino: u64, v: InodeView) -> InodeAttr {
    InodeAttr {
        ino,
        mode: InodeMode { bits: (v.mode & 0o7777) & 0o777 },
        file_type: spec_mode_type(v.mode),
        size: v.size as u64,
        nlink: 1,
        generation: 1,
        rdev: 0,
    }
}

impl<D: BlockDevice> FileSystem for Ext2Fs<D> {
    open spec fn root_spec(&self) -> InodeId {
        InodeId { mount: self.mount(), ino: ROOT_INO as u64 }
    }

    open spec fn attr_of(&self, inode: InodeId) -> Result<InodeAttr, FsError> {
        if inode.mount != self.mount() {
            Err(FsError::NotFound)
        } else {
            match self.raw_inode(inode.ino as u32) {
                Err(e) => Err(e),
                Ok(v) => Ok(ext2_attr(inode.ino, v)),
            }
        }
    }

    open spec fn child_of(&self, dir: InodeId, name: Seq<u8>) -> Result<InodeId, FsError> {
        match self.raw_inode(dir.ino as u32) {
            Err(e) => Err(e),
            Ok(v) => if v.mode & 0xF000 != 0x4000 {
                Err(FsError::NotDir)
            } else if !self.device().readable(v.block[0] as int) {
                Err(FsError::Io)
            } else {
                match dir_find(self.device().disk()[v.block[0] as int], v.size as int, name, 0) {
                    Some(i) => Ok(InodeId { mount: self.mount(), ino: i as u64 }),
                    None => Err(FsError::NotFound),
                }
            },
        }
    }

    open spec fn link_of(&self, inode: InodeId) -> Result<Seq<u8>, FsError> {
        Err(FsError::NotSymlink)
    }

    fn fs_type(&self) -> (r: &'static str)
        ensures
            r@ == "ext2"@,
    {
        "ext2"
    }

    fn root(&self) -> (r: InodeId) {
        InodeId::new(self.mount_id, ROOT_INO as u64)
    }

    fn getattr(&self, inode: InodeId) -> (r: Result<InodeAttr, FsError>) {
        if inode.mount != self.mount_id {
            return Err(FsError::NotFound);
        }
        let raw = self.read_inode_raw(inode.ino as u32)?;
        Ok(InodeAttr {
            ino: inode.ino,
            mode: InodeMode::from_bits_truncate(raw.mode & 0o7777),
            file_type: mode_to_type(raw.mode),
            size: raw.size as u64,
            nlink: 1,
            generation: 1,
            rdev: 0,
        })
    }

    fn lookup(&self, dir: InodeId, name: &[u8]) -> (r: Result<InodeId, FsError>) {
        let raw = self.read_inode_raw(dir.ino as u32)?;
        if raw.mode & 0xF000 != 0x4000 {
            return Err(FsError::NotDir);
        }
        let mut buf: Vec<u8> = vec![0u8; BLOCK_SIZE];
        match self.dev.read_block(raw.block[0] as u64, &mut buf) {
            Ok(()) => {},
            Err(_) => return Err(FsError::Io),
        }
        assert(buf@ =~= self.device().disk()[raw@.block[0] as int]);
        match find_in_dir(&buf, raw.size as usize, name) {
            Some(i) => Ok(InodeId::new(self.mount_id, i as u64)),
            None => Err(FsError::NotFound),
        }
    }

    /// Takes the next free inode number (counting down), stores an empty
    /// inode for it, and appends its entry after the directory's recorded
    /// size in the directory's first block; an entry that would not fit the
    /// block is refused.
    open spec fn create_done(&self, after: Self, dir: InodeId, name: Seq<u8>, file_type: FileType, mode: InodeMode, r: Result<InodeId, FsError>) -> bool {
        &&& after.mount() == self.mount()
        &&& after.superblock() == (Ext2Super { free_inodes: self.superblock().free_inodes.wrapping_sub(1), ..self.superblock() })
        &&& forall|b: int| #[trigger] after.device().readable(b) == self.device().readable(b)
        &&& (r, after.device().disk()) == create_effect(self.device(), self.mount(), self.superblock().free_inodes, dir.ino as u32,
                name, file_type, mode.bits)
    }

    fn create(&mut self, dir: InodeId, name: &[u8], file_type: FileType, mode: InodeMode) -> (r: Result<InodeId, FsError>)
    {
        let new_ino = self.sb.free_inodes;
        self.sb.free_inodes = self.sb.free_inodes.wrapping_sub(1);
        let type_bits: u16 = match file_type {
            FileType::Directory => 0x4000,
            _ => 0x8000,
        };
        let ptrs: Vec<u32> = vec![0u32; DIRECT_BLOCKS];
        let inode = Ext2Inode { mode: type_bits | mode.bits(), size: 0, blocks: 0, block: ptrs };
        assert(inode@.block =~= empty_inode(type_bits | mode.bits).block);
        assert(inode@ == empty_inode(type_bits | mode.bits));
        self.write_inode_raw(new_ino, &inode)?;
        let dir_raw = self.read_inode_raw(dir.ino as u32)?;
        let mut buf: Vec<u8> = vec![0u8; BLOCK_SIZE];
        match self.dev.read_block(dir_raw.block[0] as u64, &mut buf) {
            Ok(()) => {},
            Err(_) => return Err(FsError::Io),
        }
        let ghost blk = self.device().disk()[dir_raw.block[0] as int];
        assert(buf@ =~= blk);
        let mut off = dir_raw.size as usize;
        if !utf8_ok(name) {
            return Err(FsError::Invalid);
        }
        if name.len() > 255 || off > BLOCK_SIZE || name.len() + 8 > BLOCK_SIZE - off {
            return Err(FsError::NoSpace);
        }
        write_dir_entry(&mut buf, &mut off, new_ino, name, 1);
        assert(overlay(blk, buf@) =~= buf@);
        match self.dev.write_block(dir_raw.block[0] as u64, buf.as_slice()) {
            Ok(()) => Ok(InodeId::new(self.mount_id, new_ino as u64)),
            Err(_) => Err(FsError::Io),
        }
    }

    open spec fn mkdir_done(&self, after: Self, dir: InodeId, name: Seq<u8>, mode: InodeMode, r: Result<InodeId, FsError>) -> bool {
        &&& after.mount() == self.mount()
        &&& after.superblock() == (Ext2Super { free_inodes: self.superblock().free_inodes.wrapping_sub(1), ..self.superblock() })
        &&& forall|b: int| #[trigger] after.device().readable(b) == self.device().readable(b)
        &&& (r, after.device().disk()) == create_effect(self.device(), self.mount(), self.superblock().free_inodes, dir.ino as u32,
                name, FileType::Directory, mode.bits)
    }

    fn mkdir(&mut self, dir: InodeId, name: &[u8], mode: InodeMode) -> (r: Result<InodeId, FsError>)
    {
        self.create(dir, name, FileType::Directory, mode)
    }

    open spec fn unlink_done(&self, after: Self, dir: InodeId, name: Seq<u8>, r: Result<(), FsError>) -> bool {
        r == Err::<(), FsError>(FsError::NotSupported) && after == *self
    }

    fn unlink(&mut self, dir: InodeId, name: &[u8]) -> (r: Result<(), FsError>)
    {
        Err(FsError::NotSupported)
    }

    /// Reads from the file's direct blocks, up to its size and the first
    /// unallocated pointer.
    open spec fn read_result(&self, inode: InodeId, offset: u64, buf: Seq<u8>) -> (Result<usize, FsError>, Seq<u8>) {
        match self.raw_inode(inode.ino as u32) {
            Err(e) => (Err(e), buf),
            Ok(v) => {
                let (bytes, err) = Self::read_runs(self.device(), v, offset as int, buf.len() as int);
                (match err {
                    None => Ok(bytes.len() as usize),
                    Some(e) => Err(e),
                }, overlay(buf, bytes))
            },
        }
    }

    fn read(&self, inode: InodeId, offset: u64, buf: &mut Vec<u8>) -> (r: Result<usize, FsError>)
    {
        let raw = self.read_inode_raw(inode.ino as u32)?;
        let ghost v = raw@;
        if offset >= raw.size as u64 {
            assert(overlay(old(buf)@, Seq::<u8>::empty()) =~= old(buf)@);
            return Ok(0);
        }
        let mut done: usize = 0;
        let mut pos: u64 = offset;
        let total = buf.len();
        while done < total && pos < raw.size as u64
            invariant
                done <= total,
                total == old(buf)@.len(),
                buf@.len() == total,
                raw@ == v,
                raw.block@.len() == 12,
                self.raw_inode(inode.ino as u32) == Ok::<InodeView, FsError>(v),
                pos <= v.size,
                pos == offset + done,
                forall|j: int| done <= j < total ==> #[trigger] buf@[j] == old(buf)@[j],
                Self::read_runs(self.device(), v, offset as int, total as int).0
                    == buf@.subrange(0, done as int) + Self::read_runs(self.device(), v, pos as int, total - done).0,
                Self::read_runs(self.device(), v, offset as int, total as int).1
                    == Self::read_runs(self.device(), v, pos as int, total - done).1,
            ensures
                Self::read_runs(self.device(), v, offset as int, total as int) == (buf@.subrange(0, done as int), None::<FsError>),
                forall|j: int| done <= j < total ==> #[trigger] buf@[j] == old(buf)@[j],
                buf@.len() == total,
                done <= total,
            decreases total - done,
        {
            let idx = pos / 4096;
            if idx >= 12 {
                assert(buf@.subrange(0, done as int) + Seq::<u8>::empty() =~= buf@.subrange(0, done as int));
                break;
            }
            let bn = raw.block[idx as usize];
            if bn == 0 {
                assert(buf@.subrange(0, done as int) + Seq::<u8>::empty() =~= buf@.subrange(0, done as int));
                break;
            }
            let mut bbuf: Vec<u8> = vec![0u8; BLOCK_SIZE];
            match self.dev.read_block(bn as u64, &mut bbuf) {
                Ok(()) => {},
                Err(_) => {
                    proof {
                        assert(buf@.subrange(0, done as int) + Seq::<u8>::empty() =~= buf@.subrange(0, done as int));
                        assert(buf@ =~= overlay(old(buf)@, buf@.subrange(0, done as int)));
                    }
                    return Err(FsError::Io);
                },
            }
            let ghost blk = self.device().disk()[bn as int];
            assert(bbuf@ =~= blk);
            let start = (pos % 4096) as usize;
            let in_block = BLOCK_SIZE - start;
            let want = total - done;
            let left = (raw.size as u64 - pos) as usize;
            let take = if in_block < want { if in_block < left { in_block } else { left } } else { if want < left { want } else { left } };
            let ghost before = buf@;
            let mut k: usize = 0;
            while k < take
                invariant
                    0 <= k <= take,
                    done + take <= total,
                    start + take <= BLOCK_SIZE,
                    bbuf@ == blk,
                    blk.len() == BLOCK_SIZE,
                    buf@.len() == total,
                    before.len() == total,
                    forall|j: int| 0 <= j < done ==> #[trigger] buf@[j] == before[j],
                    forall|j: int| 0 <= j < k ==> #[trigger] buf@[done + j] == blk[start + j],
                    forall|j: int| done + k <= j < total ==> #[trigger] buf@[j] == before[j],
                decreases take - k,
            {
                buf.set(done + k, bbuf[start + k]);
                k = k + 1;
            }
            proof {
                let pre = before.subrange(0, done as int);
                let b = blk.subrange(start as int, start + take);
                assert(pre =~= buf@.subrange(0, done as int)) by {
                    assert forall|j: int| 0 <= j < done implies #[trigger] pre[j] == buf@.subrange(0, done as int)[j] by {
                        assert(buf@[j] == before[j]);
                    }
                }
                assert(buf@.subrange(0, done + take) =~= pre + b) by {
                    assert forall|j: int| done <= j < done + take implies #[trigger] buf@[j] == (pre + b)[j] by {
                        assert(buf@[done + (j - done)] == blk[start + (j - done)]);
                    }
                }
                let rest = Self::read_runs(self.device(), v, pos + take, total - done - take).0;
                assert(pre + (b + rest) =~= (pre + b) + rest);
            }
            done = done + take;
            pos = pos + take as u64;
        }
        assert(buf@ =~= overlay(old(buf)@, buf@.subrange(0, done as int)));
        Ok(done)
    }

    /// Writes through the file's direct blocks, giving an unallocated
    /// pointer the superblock's free-block count as its block; past the
    /// twelfth block the write is refused. The size becomes the larger of
    /// the old size and the end of the write. Blocks written before a
    /// failure stay written (see `write_effect`).
    open spec fn write_done(&self, after: Self, inode: InodeId, offset: u64, buf: Seq<u8>, r: Result<usize, FsError>) -> bool {
        &&& after.mount() == self.mount()
        &&& after.superblock() == self.superblock()
        &&& forall|b: int| #[trigger] after.device().readable(b) == self.device().readable(b)
        &&& (r, after.device().disk()) == write_effect(self.device(), self.superblock().free_blocks, inode.ino as u32, offset, buf)
    }

    fn write(&mut self, inode: InodeId, offset: u64, data: &[u8]) -> (r: Result<usize, FsError>)
    {
        let mut raw = self.read_inode_raw(inode.ino as u32)?;
        let ghost v0 = raw@;
        let ghost dev0 = self.device();
        let ghost fresh = self.sb.free_blocks;
        let mut done: usize = 0;
        let mut pos: u64 = offset;
        let dlen = data.len();
        while done < data.len()
            invariant
                done <= data@.len(),
                dlen == data@.len(),
                raw.block@.len() == 12,
                raw@ == (InodeView { block: raw.block@, ..v0 }),
                self.mount() == old(self).mount(),
                self.superblock() == old(self).superblock(),
                dev0 == old(self).device(),
                old(self).raw_inode(inode.ino as u32) == Ok::<InodeView, FsError>(v0),
                fresh == old(self).superblock().free_blocks,
                forall|b: int| #[trigger] self.device().readable(b) == dev0.readable(b),
                write_runs(dev0, self.device().disk(), raw.block@, fresh, data@, done as int, pos)
                    == write_runs(dev0, dev0.disk(), v0.block, fresh, data@, 0, offset),
            decreases data@.len() - done,
        {
            let idx = pos / 4096;
            if idx >= 12 {
                return Err(FsError::NoSpace);
            }
            if raw.block[idx as usize] == 0 {
                raw.block.set(idx as usize, self.sb.free_blocks);
            }
            let bn = raw.block[idx as usize];
            let mut bbuf: Vec<u8> = vec![0u8; BLOCK_SIZE];
            let ghost zeros = bbuf@;
            match self.dev.read_block(bn as u64, &mut bbuf) {
                Ok(()) => {},
                Err(_) => return Err(FsError::Io),
            }
            let ghost orig = self.device().disk()[bn as int];
            assert(bbuf@ =~= orig);
            let start = (pos % 4096) as usize;
            let in_block = BLOCK_SIZE - start;
            let want = data.len() - done;
            let take = if in_block < want { in_block } else { want };
            let mut k: usize = 0;
            while k < take
                invariant
                    0 <= k <= take,
                    done + take <= data@.len(),
                    dlen == data@.len(),
                    start + take <= BLOCK_SIZE,
                    orig.len() == BLOCK_SIZE,
                    bbuf@ == splice(orig, start as int, data@.subrange(done as int, done + k)),
                decreases take - k,
            {
                bbuf.set(start + k, data[done + k]);
                assert(bbuf@ =~= splice(orig, start as int, data@.subrange(done as int, done + k + 1)));
                k = k + 1;
            }
            match self.dev.write_block(bn as u64, bbuf.as_slice()) {
                Ok(()) => {},
                Err(_) => return Err(FsError::Io),
            }
            assert(overlay(orig, bbuf@) =~= bbuf@);
            done = done + take;
            pos = pos.wrapping_add(take as u64);
        }
        let end = offset.wrapping_add(done as u64);
        let new_size = (if end > raw.size as u64 { end } else { raw.size as u64 }) as u32;
        raw.size = new_size;
        self.write_inode_raw(inode.ino as u32, &raw)?;
        Ok(done)
    }

    open spec fn readdir_result(&self, dir: InodeId, index: u64) -> Result<Option<(Seq<u8>, InodeId, FileType)>, FsError> {
        match self.raw_inode(dir.ino as u32) {
            Err(e) => Err(e),
            Ok(v) => if !self.device().readable(v.block[0] as int) {
                Err(FsError::Io)
            } else {
                match dir_nth(self.device().disk()[v.block[0] as int], v.size as int, index as int, 0) {
                    Some((name, ino)) => Ok(Some((name, InodeId { mount: self.mount(), ino: ino as u64 }, FileType::Regular))),
                    None => Ok(None),
                }
            },
        }
    }

    fn readdir(&self, dir: InodeId, index: u64, entry: &mut DirEntry) -> (r: Result<bool, FsError>)
    {
        let raw = self.read_inode_raw(dir.ino as u32)?;
        let mut buf: Vec<u8> = vec![0u8; BLOCK_SIZE];
        match self.dev.read_block(raw.block[0] as u64, &mut buf) {
            Ok(()) => {},
            Err(_) => return Err(FsError::Io),
        }
        assert(buf@ =~= self.device().disk()[raw@.block[0] as int]);
        match nth_in_dir(&buf, raw.size as usize, index) {
            Some((n, i)) => {
                entry.name = n;
                entry.inode = InodeId::new(self.mount_id, i as u64);
                entry.file_type = FileType::Regular;
                Ok(true)
            },
            None => Ok(false),
        }
    }

    fn readlink(&self, inode: InodeId, buf: &mut Vec<u8>) -> (r: Result<usize, FsError>) {
        Err(FsError::NotSymlink)
    }

    open spec fn symlink_done(&self, after: Self, dir: InodeId, name: Seq<u8>, target: Seq<u8>, mode: InodeMode, r: Result<InodeId, FsError>) -> bool {
        r == Err::<InodeId, FsError>(FsError::NotSupported) && after == *self
    }

    fn symlink(&mut self, dir: InodeId, name: &[u8], target: &[u8], mode: InodeMode) -> (r: Result<InodeId, FsError>)
    {
        Err(FsError::NotSupported)
    }

    /// Records `size` (kept to 32 bits) as the file's size; blocks stay.
    open spec fn truncate_done(&self, after: Self, inode: InodeId, size: u64, r: Result<(), FsError>) -> bool {
        &&& after.mount() == self.mount()
        &&& after.superblock() == self.superblock()
        &&& forall|b: int| #[trigger] after.device().readable(b) == self.device().readable(b)
        &&& after.device().disk() == truncate_effect(self.device(), inode.ino as u32, size).1
        &&& match truncate_effect(self.device(), inode.ino as u32, size).0 {
            Ok(_) => r is Ok,
            Err(e) => r == Err::<(), FsError>(e),
        }
    }

    #[verifier::spinoff_prover]
    fn truncate(&mut self, inode: InodeId, size: u64) -> (r: Result<(), FsError>)
    {
        let mut raw = self.read_inode_raw(inode.ino as u32)?;
        let ghost v = raw@;
        raw.size = size as u32;
        assert(raw@ == (InodeView { size: size as u32, ..v }));
        let ghost dev0 = self.device();
        let r = self.write_inode_raw(inode.ino as u32, &raw);
        assert(self.device().disk() == truncate_effect(dev0, inode.ino as u32, size).1);
        r
    }
}

/// What `getattr` reports for an inode of this filesystem is read from the
/// inode stored on disk: the permission bits are the stored mode's low nine
/// bits (a stored 0x41ED, a directory with 0o755, reports 0o755), the size
/// is the stored size, and the file type is the stored mode's type nibble
/// (0x4 directory, 0x8 regular file, 0xA symlink). An inode of another
/// mount is `NotFound`, and an unreadable inode block the read's error.
pub proof fn lemma_getattr_from_stored_inode<D: BlockDevice>(fs: Ext2Fs<D>, inode: InodeId)
    ensures
        inode.mount != fs.mount() ==> fs.attr_of(inode) == Err::<InodeAttr, FsError>(FsError::NotFound),
        inode.mount == fs.mount() ==> match fs.raw_inode(inode.ino as u32) {
            Err(e) => fs.attr_of(inode) == Err::<InodeAttr, FsError>(e),
            Ok(v) => fs.attr_of(inode) matches Ok(a) && {
                &&& a.ino == inode.ino
                &&& a.mode.bits == v.mode & 0o777u16
                &&& a.size == v.size
                &&& (v.mode & 0xF000u16 == 0x4000u16 ==> a.file_type == FileType::Directory)
                &&& (v.mode & 0xF000u16 == 0x8000u16 ==> a.file_type == FileType::Regular)
                &&& (v.mode & 0xF000u16 == 0xA000u16 ==> a.file_type == FileType::Symlink)
            },
        },
{
    if let Ok(v) = fs.raw_inode(inode.ino as u32) {
        let m = v.mode;
        assert((m & 0o7777u16) & 0o777u16 == m & 0o777u16) by (bit_vector);
    }
}

} // verus!
