//! POSIX error numbers the filesystem errors map to.

use vstd::prelude::*;
use crate::fs::vfs::superblock::FsError;

verus! {

#[derive(Clone, Copy, Debug, PartialEq, Eq, Structural)]
pub enum Errno {
    EPERM,
    ENOENT,
    EIO,
    EACCES,
    EEXIST,
    ENOTDIR,
    EISDIR,
    EINVAL,
    ENOSPC,
    ENOSYS,
    ELOOP,
}

impl Errno {
    /// The Linux number of the error.
    pub fn code(self) -> (r: i32)
        ensures
            r == spec_errno_code(self),
    {
        match self {
            Errno::EPERM => 1,
            Errno::ENOENT => 2,
            Errno::EIO => 5,
            Errno::EACCES => 13,
            Errno::EEXIST => 17,
            Errno::ENOTDIR => 20,
            Errno::EISDIR => 21,
            Errno::EINVAL => 22,
            Errno::ENOSPC => 28,
            Errno::ENOSYS => 38,
            Errno::ELOOP => 40,
        }
    }
}

pub open spec fn spec_errno_code(e: Errno) -> i32 {
    match e {
        Errno::EPERM => 1,
        Errno::ENOENT => 2,
        Errno::EIO => 5,
        Errno::EACCES => 13,
        Errno::EEXIST => 17,
        Errno::ENOTDIR => 20,
        Errno::EISDIR => 21,
        Errno::EINVAL => 22,
        Errno::ENOSPC => 28,
        Errno::ENOSYS => 38,
        Errno::ELOOP => 40,
    }
}

pub open spec fn spec_fs_err_to_errno(err: FsError) -> Errno {
    match err {
        FsError::NotFound => Errno::ENOENT,
        FsError::Exists => Errno::EEXIST,
        FsError::NotDir => Errno::ENOTDIR,
        FsError::IsDir => Errno::EISDIR,
        FsError::NotFile => Errno::EINVAL,
        FsError::NotSymlink => Errno::EINVAL,
        FsError::Invalid => Errno::EINVAL,
        FsError::Io => Errno::EIO,
        FsError::NoSpace => Errno::ENOSPC,
        FsError::NotSupported => Errno::ENOSYS,
        FsError::TooManyLinks => Errno::ELOOP,
        FsError::AccessDenied => Errno::EACCES,
    }
}

/// The error number a filesystem error is reported to user space as.
pub fn fs_err_to_errno(err: FsError) -> (r: Errno)
    ensures
        r == spec_fs_err_to_errno(err),
{
    match err {
        FsError::NotFound => Errno::ENOENT,
        FsError::Exists => Errno::EEXIST,
        FsError::NotDir => Errno::ENOTDIR,
        FsError::IsDir => Errno::EISDIR,
        FsError::NotFile => Errno::EINVAL,
        FsError::NotSymlink => Errno::EINVAL,
        FsError::Invalid => Errno::EINVAL,
        FsError::Io => Errno::EIO,
        FsError::NoSpace => Errno::ENOSPC,
        FsError::NotSupported => Errno::ENOSYS,
        FsError::TooManyLinks => Errno::ELOOP,
        FsError::AccessDenied => Errno::EACCES,
    }
}

} // verus!
