//! Verified core of the Theory OS kernel: the decisions, encodings and
//! table walks of the kernel, stated over plain values. Hardware access and
//! global state live outside this crate and hand their values in.

pub mod arch;
pub mod audio;
pub mod boot;
pub mod bytes;
pub mod console;
pub mod acpi;

pub mod fs;
pub mod text;
