//! A block device held in memory.

use vstd::prelude::*;
use crate::fs::block::{overlay, BlockDevice, BlockError, BLOCK_SIZE};

verus! {

/// Size of each of the two RAM disks made at boot: 16 MiB.
pub const RAMDISK_BYTES: u64 = 16777216;

pub struct RamDisk {
    blocks: u64,
    bytes: Vec<u8>,
}

/// Block `b` of a byte image.
pub open spec fn block_of(bytes: Seq<u8>, b: int) -> Seq<u8> {
    bytes.subrange(b * BLOCK_SIZE, b * BLOCK_SIZE + BLOCK_SIZE)
}

impl RamDisk {
    #[verifier::type_invariant]
    spec fn wf(self) -> bool {
        self.bytes@.len() == self.blocks * BLOCK_SIZE
    }

    pub closed spec fn block_total(&self) -> nat {
        self.blocks as nat
    }

    pub closed spec fn bytes_view(&self) -> Seq<u8> {
        self.bytes@
    }

    /// A zeroed disk of `size_bytes` rounded up to whole blocks.
    pub fn new(size_bytes: u64) -> (r: Option<Self>)
        requires
            size_bytes as int + BLOCK_SIZE <= usize::MAX,
        ensures
            r is Some,
            r matches Some(d) ==> {
                &&& d.block_total() == (size_bytes as int + BLOCK_SIZE - 1) / (BLOCK_SIZE as int)
                &&& d.disk().len() == d.block_total()
                &&& forall|b: int, i: int| 0 <= b < d.disk().len() && 0 <= i < BLOCK_SIZE ==> #[trigger] d.disk()[b][i] == 0
            },
    {
        let blocks = size_bytes / (BLOCK_SIZE as u64) + if size_bytes % (BLOCK_SIZE as u64) == 0 { 0 } else { 1 };
        assert(blocks == (size_bytes as int + BLOCK_SIZE - 1) / (BLOCK_SIZE as int));
        assert(blocks * BLOCK_SIZE <= size_bytes + BLOCK_SIZE) by (nonlinear_arith)
            requires
                blocks == size_bytes / 4096 + if size_bytes % 4096 == 0 { 0u64 } else { 1u64 },
        ;
        let len: usize = (blocks as usize) * BLOCK_SIZE;
        let bytes: Vec<u8> = vec![0u8; len];
        let d = RamDisk { blocks, bytes };
        proof {
            assert forall|b: int, i: int| 0 <= b < d.disk().len() && 0 <= i < BLOCK_SIZE implies #[trigger] d.disk()[b][i] == 0 by {
                assert(0 <= b * BLOCK_SIZE + i < len) by (nonlinear_arith)
                    requires
                        0 <= b < blocks,
                        0 <= i < 4096,
                        len == blocks * 4096,
                ;
            }
        }
        Some(d)
    }

    /// Byte offset of `block`, or `None` past the end of the disk.
    fn block_offset(&self, block: u64) -> (r: Option<usize>)
        ensures
            (block as int) >= self.block_total() ==> r is None,
            (block as int) < self.block_total() ==> r is Some && r->Some_0 as int == block as int * BLOCK_SIZE
                && block as int * BLOCK_SIZE + BLOCK_SIZE <= self.bytes_view().len(),
            self.bytes_view().len() == self.block_total() * BLOCK_SIZE,
    {
        proof {
            use_type_invariant(self);
        }
        if block >= self.blocks {
            return None;
        }
        let total: usize = self.bytes.len();
        proof {
            assert(block * 4096 + 4096 <= self.blocks * 4096) by (nonlinear_arith)
                requires
                    block < self.blocks,
            ;
            assert(total == self.bytes@.len());
            assert(block <= usize::MAX);
        }
        let b: usize = block as usize;
        assert(b == block);
        let off: usize = b * BLOCK_SIZE;
        Some(off)
    }
}

impl BlockDevice for RamDisk {
    open spec fn disk(&self) -> Seq<Seq<u8>> {
        Seq::new(self.block_total(), |b: int| block_of(self.bytes_view(), b))
    }

    open spec fn readable(&self, block: int) -> bool {
        0 <= block < self.block_total()
    }

    fn block_count(&self) -> (r: u64) {
        self.blocks
    }

    fn read_block(&self, block: u64, buf: &mut Vec<u8>) -> (r: Result<(), BlockError>) {
        proof {
            use_type_invariant(self);
        }
        let off = match self.block_offset(block) {
            Some(o) => o,
            None => return Err(BlockError::OutOfRange),
        };
        let n = if buf.len() < BLOCK_SIZE { buf.len() } else { BLOCK_SIZE };
        let mut i: usize = 0;
        while i < n
            invariant
                0 <= i <= n,
                n <= BLOCK_SIZE,
                n <= buf@.len(),
                n == (if old(buf)@.len() < BLOCK_SIZE { old(buf)@.len() as int } else { BLOCK_SIZE as int }),
                buf@.len() == old(buf)@.len(),
                off + BLOCK_SIZE <= self.bytes_view().len(),
                off as int == block as int * BLOCK_SIZE,
                forall|j: int| 0 <= j < i ==> #[trigger] buf@[j] == self.bytes_view()[off + j],
                forall|j: int| i <= j < buf@.len() ==> #[trigger] buf@[j] == old(buf)@[j],
            decreases n - i,
        {
            buf.set(i, self.bytes[off + i]);
            i = i + 1;
        }
        assert(buf@ =~= overlay(old(buf)@, self.disk()[block as int]));
        Ok(())
    }

    fn write_block(&mut self, block: u64, buf: &[u8]) -> (r: Result<(), BlockError>) {
        proof {
            use_type_invariant(&*self);
        }
        let off = match self.block_offset(block) {
            Some(o) => o,
            None => return Err(BlockError::OutOfRange),
        };
        let n = if buf.len() < BLOCK_SIZE { buf.len() } else { BLOCK_SIZE };
        let mut i: usize = 0;
        while i < n
            invariant
                0 <= i <= n,
                n <= BLOCK_SIZE,
                n <= buf@.len(),
                self.blocks == old(self).blocks,
                self.bytes_view().len() == old(self).bytes_view().len(),
                self.bytes_view().len() == self.block_total() * BLOCK_SIZE,
                n == (if buf@.len() < BLOCK_SIZE { buf@.len() as int } else { BLOCK_SIZE as int }),
                off + BLOCK_SIZE <= self.bytes_view().len(),
                off as int == block as int * BLOCK_SIZE,
                forall|j: int| 0 <= j < i ==> #[trigger] self.bytes_view()[off + j] == buf@[j],
                forall|j: int| 0 <= j < self.bytes_view().len() && !(off <= j < off + i) ==> #[trigger] self.bytes_view()[j] == old(self).bytes_view()[j],
            decreases n - i,
        {
            self.bytes[off + i] = buf[i];
            i = i + 1;
        }
        proof {
            let nd = old(self).disk().update(block as int, overlay(old(self).disk()[block as int], buf@));
            assert forall|b: int| 0 <= b < self.disk().len() implies #[trigger] self.disk()[b] =~= nd[b] by {
                if b == block {
                    assert forall|k: int| 0 <= k < BLOCK_SIZE implies self.disk()[b][k] == nd[b][k] by {
                        if k < n {
                            assert(self.bytes_view()[off + k] == buf@[k]);
                        }
                    }
                } else {
                    assert forall|k: int| 0 <= k < BLOCK_SIZE implies self.disk()[b][k] == nd[b][k] by {
                        assert(b * BLOCK_SIZE + k < off || b * BLOCK_SIZE + k >= off + BLOCK_SIZE) by (nonlinear_arith)
                            requires
                                b != block,
                                off == block * 4096,
                                0 <= k < 4096,
                                0 <= b,
                        ;
                    }
                }
            }
            assert(self.disk() =~= nd);
        }
        Ok(())
    }
}

} // verus!
