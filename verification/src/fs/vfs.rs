//! Virtual filesystem core: inodes, dentries, mounts, path walk, file ops.

pub mod dentry;
pub mod file;
pub mod inode;
pub mod mount;
pub mod ops;
pub mod path;
pub mod superblock;
