//! Open files and their access modes.

use vstd::prelude::*;
use crate::fs::fd::{OpenFlags, O_RDWR, O_WRONLY};
use crate::fs::vfs::inode::InodeId;

verus! {

#[derive(Clone, Copy, Debug, PartialEq, Eq, Structural)]
pub struct OpenFile {
    pub inode: InodeId,
    pub offset: u64,
    pub flags: OpenFlags,
    pub generation: u64,
}

#[derive(Clone, Copy, Debug, PartialEq, Eq, Structural)]
pub enum FileMode {
    Read,
    Write,
    ReadWrite,
}

pub open spec fn spec_file_mode(flags: OpenFlags) -> FileMode {
    if flags.bits & O_RDWR == O_RDWR {
        FileMode::ReadWrite
    } else if flags.bits & O_WRONLY == O_WRONLY {
        FileMode::Write
    } else {
        FileMode::Read
    }
}

impl From<OpenFlags> for FileMode {
    fn from(flags: OpenFlags) -> (r: Self) {
        if flags.contains(OpenFlags { bits: O_RDWR }) {
            FileMode::ReadWrite
        } else if flags.contains(OpenFlags { bits: O_WRONLY }) {
            FileMode::Write
        } else {
            FileMode::Read
        }
    }
}

impl vstd::std_specs::convert::FromSpecImpl<OpenFlags> for FileMode {
    open spec fn obeys_from_spec() -> bool {
        true
    }

    open spec fn from_spec(flags: OpenFlags) -> FileMode {
        spec_file_mode(flags)
    }
}

} // verus!
