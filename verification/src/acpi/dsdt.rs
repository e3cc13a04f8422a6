//! DSDT: the AML byte stream and a minimal name scan.

use vstd::prelude::*;
use crate::bytes::{le32, read_u32};

verus! {

pub const SDT_HEADER_LEN: usize = 36;

/// The DSDT as the bytes of the table, from its signature on.
pub struct Dsdt {
    table: Vec<u8>,
    length: u32,
}

impl Dsdt {
    /// The table's bytes. The length field never exceeds them.
    pub closed spec fn bytes(&self) -> Seq<u8> {
        self.table@
    }

    pub closed spec fn length(&self) -> u32 {
        self.length
    }

    pub closed spec fn wf(&self) -> bool {
        self.length <= self.table@.len() && self.table@.len() >= SDT_HEADER_LEN
    }

    /// The AML that follows the header, up to the table's length.
    pub open spec fn spec_aml(&self) -> Seq<u8> {
        if self.length() <= SDT_HEADER_LEN {
            Seq::empty()
        } else {
            self.bytes().subrange(SDT_HEADER_LEN as int, self.length() as int)
        }
    }

    /// Takes a DSDT from its bytes; they cover at least its length field's worth.
    pub fn parse(table: Vec<u8>) -> (r: Self)
        requires
            table.len() >= SDT_HEADER_LEN,
            le32(table@, 4) <= table.len(),
        ensures
            r.wf(),
            r.bytes() == table@,
            r.length() == le32(table@, 4),
    {
        let length = read_u32(table.as_slice(), 4);
        Dsdt { table, length }
    }

    pub fn aml(&self) -> (r: &[u8])
        requires
            self.wf(),
        ensures
            r@ == self.spec_aml(),
    {
        if self.length as usize <= SDT_HEADER_LEN {
            return &[];
        }
        let s = self.table.as_slice();
        &s[SDT_HEADER_LEN..self.length as usize]
    }

    pub fn signature(&self) -> (r: [u8; 4])
        requires
            self.wf(),
        ensures
            r@ == self.bytes().subrange(0, 4),
    {
        let r = [self.table[0], self.table[1], self.table[2], self.table[3]];
        assert(r@ =~= self.bytes().subrange(0, 4));
        r
    }

    /// The offset into the AML of the first occurrence of `name`, if any.
    pub fn find_named_opregion(&self, name: &[u8; 4]) -> (r: Option<u32>)
        requires
            self.wf(),
        ensures
            match r {
                Some(i) => i + 4 <= self.spec_aml().len()
                    && self.spec_aml().subrange(i as int, i + 4) == name@
                    && forall|j: int| 0 <= j < i ==> #[trigger] self.spec_aml().subrange(j, j + 4) != name@,
                None => forall|j: int| 0 <= j && j + 4 <= self.spec_aml().len()
                    ==> #[trigger] self.spec_aml().subrange(j, j + 4) != name@,
            },
    {
        let aml = self.aml();
        let mut i: usize = 0;
        while aml.len() - i >= 4
            invariant
                aml@ == self.spec_aml(),
                aml@.len() <= u32::MAX,
                i <= aml@.len(),
                forall|j: int| 0 <= j < i ==> #[trigger] aml@.subrange(j, j + 4) != name@,
            decreases aml.len() - i,
        {
            if aml[i] == name[0] && aml[i + 1] == name[1] && aml[i + 2] == name[2] && aml[i + 3] == name[3] {
                assert(aml@.subrange(i as int, i + 4) =~= name@);
                return Some(i as u32);
            }
            assert(aml@.subrange(i as int, i + 4) != name@) by {
                if aml@.subrange(i as int, i + 4) == name@ {
                    assert(aml@.subrange(i as int, i + 4)[0] == aml@[i as int]);
                    assert(aml@.subrange(i as int, i + 4)[1] == aml@[i + 1]);
                    assert(aml@.subrange(i as int, i + 4)[2] == aml@[i + 2]);
                    assert(aml@.subrange(i as int, i + 4)[3] == aml@[i + 3]);
                }
            }
            i = i + 1;
        }
        None
    }
}

} // verus!
