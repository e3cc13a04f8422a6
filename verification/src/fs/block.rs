//! Block devices and the write-through buffer cache in front of them.

pub mod ahci;
pub mod nvme;
pub mod ramdisk;

use vstd::prelude::*;

verus! {

pub const BLOCK_SIZE: usize = 4096;
pub const CACHE_SLOTS: usize = 64;

#[derive(Clone, Copy, Debug, PartialEq, Eq, Structural)]
pub enum BlockError {
    OutOfRange,
    Io,
}

/// `dst` with its first bytes replaced by `src`, as far as both reach.
pub open spec fn overlay(dst: Seq<u8>, src: Seq<u8>) -> Seq<u8> {
    Seq::new(dst.len(), |i: int| if i < src.len() { src[i] } else { dst[i] })
}

/// A device of fixed-size blocks. `disk` is its content, block by block.
pub trait BlockDevice {
    spec fn disk(&self) -> Seq<Seq<u8>>;

    /// Whether a read of block `block` succeeds in the device's present state.
    spec fn readable(&self, block: int) -> bool;

    fn block_size(&self) -> (r: usize)
        ensures
            r == BLOCK_SIZE,
    {
        BLOCK_SIZE
    }

    fn block_count(&self) -> (r: u64)
        ensures
            r == self.disk().len(),
    ;

    /// Copies as much of `block` as fits into `buf`.
    fn read_block(&self, block: u64, buf: &mut Vec<u8>) -> (r: Result<(), BlockError>)
        ensures
            final(buf)@.len() == old(buf)@.len(),
            r is Ok <==> self.readable(block as int),
            r is Ok ==> (block as int) < self.disk().len() && self.disk()[block as int].len() == BLOCK_SIZE
                && final(buf)@ == overlay(old(buf)@, self.disk()[block as int]),
    ;

    /// Writes as much of `buf` as fits a block over the start of `block`;
    /// a failed write leaves the disk as it was. A write succeeds exactly
    /// where a read would, and changes no block's readability.
    fn write_block(&mut self, block: u64, buf: &[u8]) -> (r: Result<(), BlockError>)
        ensures
            r is Ok <==> old(self).readable(block as int),
            forall|b: int| #[trigger] final(self).readable(b) == old(self).readable(b),
            r is Ok ==> (block as int) < old(self).disk().len() && old(self).disk()[block as int].len() == BLOCK_SIZE
                && final(self).disk() == old(self).disk().update(block as int, overlay(old(self).disk()[block as int], buf@)),
            r is Err ==> final(self).disk() == old(self).disk(),
    ;
}

pub struct CacheEntry {
    pub device_id: u32,
    pub block: u64,
    pub data: Vec<u8>,
    pub dirty: bool,
    pub valid: bool,
}

impl CacheEntry {
    pub fn empty() -> (r: Self)
        ensures
            r.device_id == u32::MAX && r.block == 0 && !r.dirty && !r.valid,
            r.data@.len() == BLOCK_SIZE,
    {
        CacheEntry { device_id: u32::MAX, block: 0, data: vec![0u8; BLOCK_SIZE], dirty: false, valid: false }
    }
}

/// Holds copies of recently used blocks; slots are reused round-robin.
pub struct BufferCache {
    entries: Vec<CacheEntry>,
    next: usize,
}

/// Every valid entry of `device_id` holds the device's present content, and
/// no block of it is cached twice.
pub open spec fn coherent<D: BlockDevice>(entries: Seq<CacheEntry>, device_id: u32, dev: D) -> bool {
    &&& forall|i: int| 0 <= i < entries.len() && (#[trigger] entries[i]).valid && entries[i].device_id == device_id ==> {
        &&& (entries[i].block as int) < dev.disk().len()
        &&& entries[i].data@ == dev.disk()[entries[i].block as int]
    }
    &&& forall|i: int, j: int| 0 <= i < entries.len() && 0 <= j < entries.len()
        && (#[trigger] entries[i]).valid && (#[trigger] entries[j]).valid
        && entries[i].device_id == device_id && entries[j].device_id == device_id
        && entries[i].block == entries[j].block ==> i == j
}

/// The first valid entry for `(device_id, block)`.
pub open spec fn found(entries: Seq<CacheEntry>, device_id: u32, block: u64, k: int) -> bool {
    &&& 0 <= k < entries.len()
    &&& entries[k].valid && entries[k].device_id == device_id && entries[k].block == block
    &&& forall|j: int| 0 <= j < k ==> !(#[trigger] entries[j].valid && entries[j].device_id == device_id && entries[j].block == block)
}

impl BufferCache {
    pub closed spec fn slots(&self) -> Seq<CacheEntry> {
        self.entries@
    }

    pub closed spec fn cursor(&self) -> int {
        self.next as int
    }

    pub open spec fn wf(&self) -> bool {
        &&& self.slots().len() == CACHE_SLOTS
        &&& 0 <= self.cursor() < CACHE_SLOTS
        &&& forall|i: int| 0 <= i < CACHE_SLOTS ==> (#[trigger] self.slots()[i]).data@.len() == BLOCK_SIZE
    }

    pub fn new() -> (r: Self)
        ensures
            r.wf(),
            r.cursor() == 0,
            forall|i: int| 0 <= i < CACHE_SLOTS ==> !(#[trigger] r.slots()[i]).valid,
    {
        let mut entries: Vec<CacheEntry> = Vec::new();
        let mut i: usize = 0;
        while i < CACHE_SLOTS
            invariant
                0 <= i <= CACHE_SLOTS,
                entries@.len() == i,
                forall|j: int| 0 <= j < i ==> !(#[trigger] entries@[j]).valid && entries@[j].data@.len() == BLOCK_SIZE,
            decreases CACHE_SLOTS - i,
        {
            entries.push(CacheEntry::empty());
            i = i + 1;
        }
        BufferCache { entries, next: 0 }
    }

    /// The first valid slot holding `block` of `device_id`.
    fn find(&self, device_id: u32, block: u64) -> (r: Option<usize>)
        requires
            self.wf(),
        ensures
            r matches Some(k) ==> found(self.slots(), device_id, block, k as int),
            r is None ==> forall|j: int| 0 <= j < CACHE_SLOTS ==> !(#[trigger] self.slots()[j].valid
                && self.slots()[j].device_id == device_id && self.slots()[j].block == block),
    {
        let mut i: usize = 0;
        while i < CACHE_SLOTS
            invariant
                0 <= i <= CACHE_SLOTS,
                self.wf(),
                forall|j: int| 0 <= j < i ==> !(#[trigger] self.slots()[j].valid
                    && self.slots()[j].device_id == device_id && self.slots()[j].block == block),
            decreases CACHE_SLOTS - i,
        {
            let e = &self.entries[i];
            if e.valid && e.device_id == device_id && e.block == block {
                return Some(i);
            }
            i = i + 1;
        }
        None
    }

    /// Takes the slot under the cursor and moves the cursor on; a dirty slot
    /// loses its dirty mark (its content already went to the device).
    fn evict_slot(&mut self) -> (r: usize)
        requires
            old(self).wf(),
        ensures
            final(self).wf(),
            r == old(self).cursor(),
            final(self).cursor() == (old(self).cursor() + 1) % (CACHE_SLOTS as int),
            final(self).slots() == old(self).slots().update(r as int, CacheEntry { dirty: false, ..old(self).slots()[r as int] }),
    {
        let slot = self.next;
        self.next = (self.next + 1) % CACHE_SLOTS;
        if self.entries[slot].dirty {
            self.entries[slot].dirty = false;
        }
        proof {
            assert(self.slots() =~= old(self).slots().update(slot as int, CacheEntry { dirty: false, ..old(self).slots()[slot as int] }));
        }
        slot
    }
}

/// Copies `min(dst.len(), src.len())` bytes from the start of `src` over `dst`.
fn copy_prefix(dst: &mut Vec<u8>, src: &[u8])
    ensures
        final(dst)@ == overlay(old(dst)@, src@),
{
    let n = if dst.len() < src.len() { dst.len() } else { src.len() };
    let mut i: usize = 0;
    while i < n
        invariant
            0 <= i <= n,
            n <= dst@.len(),
            n <= src@.len(),
            n == (if old(dst)@.len() < src@.len() { old(dst)@.len() } else { src@.len() }),
            dst@.len() == old(dst)@.len(),
            forall|j: int| 0 <= j < i ==> #[trigger] dst@[j] == src@[j],
            forall|j: int| i <= j < dst@.len() ==> #[trigger] dst@[j] == old(dst)@[j],
        decreases n - i,
    {
        dst.set(i, src[i]);
        i = i + 1;
    }
    assert(dst@ =~= overlay(old(dst)@, src@));
}

/// Reads `block` of the device known as `device_id` into `buf`, from the
/// cache when it holds the block, else from the device into a freshly taken
/// slot. With a cache coherent for the device, the bytes are the device's
/// own and the cache stays coherent.
pub fn read_block<D: BlockDevice>(cache: &mut BufferCache, dev: &D, device_id: u32, block: u64, buf: &mut Vec<u8>) -> (r: Result<(), BlockError>)
    requires
        old(cache).wf(),
    ensures
        final(cache).wf(),
        final(buf)@.len() == old(buf)@.len(),
        coherent(old(cache).slots(), device_id, *dev) && r is Ok ==> {
            &&& (block as int) < dev.disk().len()
            &&& final(buf)@ == overlay(old(buf)@, dev.disk()[block as int])
            &&& coherent(final(cache).slots(), device_id, *dev)
        },
        (exists|k: int| found(old(cache).slots(), device_id, block, k)) ==> r is Ok
            && final(cache).slots() == old(cache).slots(),
        r is Ok <==> (exists|k: int| found(old(cache).slots(), device_id, block, k)) || dev.readable(block as int),
        forall|k: int| #[trigger] found(old(cache).slots(), device_id, block, k)
            ==> final(buf)@ == overlay(old(buf)@, old(cache).slots()[k].data@),
        !(exists|k: int| found(old(cache).slots(), device_id, block, k)) && r is Ok
            ==> final(buf)@ == overlay(old(buf)@, dev.disk()[block as int]),
{
    if let Some(idx) = cache.find(device_id, block) {
        copy_prefix(buf, cache.entries[idx].data.as_slice());
        return Ok(());
    }
    let slot = cache.evict_slot();
    let ghost mid = cache.slots();
    dev.read_block(block, &mut cache.entries[slot].data)?;
    cache.entries[slot].device_id = device_id;
    cache.entries[slot].block = block;
    cache.entries[slot].valid = true;
    cache.entries[slot].dirty = false;
    copy_prefix(buf, cache.entries[slot].data.as_slice());
    proof {
        assert(cache.slots()[slot as int].data@ == overlay(mid[slot as int].data@, dev.disk()[block as int]));
        assert(cache.slots()[slot as int].data@ =~= dev.disk()[block as int]);
    }
    Ok(())
}

/// Writes `buf` through to the device; a cached copy of the block is
/// updated first and marked dirty. With a cache coherent for the device, a
/// successful write keeps it coherent.
pub fn write_block<D: BlockDevice>(cache: &mut BufferCache, dev: &mut D, device_id: u32, block: u64, buf: &[u8]) -> (r: Result<(), BlockError>)
    requires
        old(cache).wf(),
    ensures
        final(cache).wf(),
        r is Ok ==> (block as int) < old(dev).disk().len()
            && final(dev).disk() == old(dev).disk().update(block as int, overlay(old(dev).disk()[block as int], buf@)),
        r is Err ==> final(dev).disk() == old(dev).disk(),
        r is Ok <==> old(dev).readable(block as int),
        forall|b: int| #[trigger] final(dev).readable(b) == old(dev).readable(b),
        coherent(old(cache).slots(), device_id, *old(dev)) && r is Ok ==> coherent(final(cache).slots(), device_id, *final(dev)),
        !(exists|k: int| found(old(cache).slots(), device_id, block, k)) ==> final(cache).slots() == old(cache).slots(),
{
    if let Some(idx) = cache.find(device_id, block) {
        copy_prefix(&mut cache.entries[idx].data, buf);
        cache.entries[idx].dirty = true;
    }
    dev.write_block(block, buf)?;
    Ok(())
}

/// Writes every dirty cached block of `device_id` back to the device and
/// clears its dirty mark; write errors are ignored.
pub fn flush_device<D: BlockDevice>(cache: &mut BufferCache, dev: &mut D, device_id: u32)
    requires
        old(cache).wf(),
    ensures
        final(cache).wf(),
        final(cache).slots().len() == old(cache).slots().len(),
        forall|i: int| 0 <= i < CACHE_SLOTS ==> {
            let e = #[trigger] final(cache).slots()[i];
            let o = old(cache).slots()[i];
            &&& e.device_id == o.device_id && e.block == o.block && e.valid == o.valid && e.data == o.data
            &&& e.dirty == (o.dirty && !(o.valid && o.device_id == device_id))
        },
{
    let mut i: usize = 0;
    while i < CACHE_SLOTS
        invariant
            0 <= i <= CACHE_SLOTS,
            cache.wf(),
            old(cache).wf(),
            forall|j: int| 0 <= j < i ==> {
                let e = #[trigger] cache.slots()[j];
                let o = old(cache).slots()[j];
                &&& e.device_id == o.device_id && e.block == o.block && e.valid == o.valid && e.data == o.data
                &&& e.dirty == (o.dirty && !(o.valid && o.device_id == device_id))
            },
            forall|j: int| i <= j < CACHE_SLOTS ==> #[trigger] cache.slots()[j] == old(cache).slots()[j],
        decreases CACHE_SLOTS - i,
    {
        let e = &cache.entries[i];
        if e.valid && e.device_id == device_id && e.dirty {
            let _ = dev.write_block(e.block, e.data.as_slice());
            cache.entries[i].dirty = false;
        }
        i = i + 1;
    }
}

/// What a read gives back after a write of the same block: the written
/// bytes, as far as both the read buffer and the written data reach.
pub proof fn lemma_read_after_write(before: Seq<Seq<u8>>, block: int, data: Seq<u8>, buf: Seq<u8>)
    requires
        0 <= block < before.len(),
        before[block].len() == BLOCK_SIZE,
        buf.len() <= data.len(),
        data.len() <= BLOCK_SIZE,
    ensures
        ({
            let after = before.update(block, overlay(before[block], data));
            overlay(buf, after[block]) == data.subrange(0, buf.len() as int)
        }),
{
    let after = before.update(block, overlay(before[block], data));
    assert(overlay(buf, after[block]) =~= data.subrange(0, buf.len() as int));
}

/// A block written through a cache that agrees with the device reads back
/// as the written bytes: after a successful `write_block`, the cache still
/// agrees with the device and the block is readable, so `read_block` gives
/// the written data over the start of the buffer. After a failed write of a
/// block the cache did not hold, cache and device are as they were, so a
/// read gives the block's previous bytes.
pub proof fn lemma_cached_write_then_read<D: BlockDevice>(
    c0: Seq<CacheEntry>,
    c1: Seq<CacheEntry>,
    dev0: D,
    dev1: D,
    device_id: u32,
    block: u64,
    data: Seq<u8>,
    r: Result<(), BlockError>,
    buf: Seq<u8>,
)
    requires
        coherent(c0, device_id, dev0),
        data.len() == BLOCK_SIZE,
        buf.len() <= BLOCK_SIZE,
        r is Ok ==> (block as int) < dev0.disk().len()
            && dev1.disk() == dev0.disk().update(block as int, overlay(dev0.disk()[block as int], data)),
        r is Err ==> dev1.disk() == dev0.disk(),
        r is Ok <==> dev0.readable(block as int),
        forall|b: int| #[trigger] dev1.readable(b) == dev0.readable(b),
        coherent(c0, device_id, dev0) && r is Ok ==> coherent(c1, device_id, dev1),
        !(exists|k: int| found(c0, device_id, block, k)) ==> c1 == c0,
        forall|b: int| dev0.readable(b) ==> 0 <= b < dev0.disk().len() && (#[trigger] dev0.disk()[b]).len() == BLOCK_SIZE,
    ensures
        r is Ok ==> {
            &&& coherent(c1, device_id, dev1)
            &&& dev1.readable(block as int)
            &&& overlay(buf, dev1.disk()[block as int]) == data.subrange(0, buf.len() as int)
        },
        r is Err && !(exists|k: int| found(c0, device_id, block, k)) ==> {
            &&& coherent(c1, device_id, dev1)
            &&& c1 == c0
            &&& dev1.disk() == dev0.disk()
        },
{
    if r is Ok {
        assert(dev0.readable(block as int));
        lemma_read_after_write(dev0.disk(), block as int, data, buf);
    }
}

} // verus!
