//! Architecture layer: addresses, descriptor tables, interrupt routing and
//! the x86-64 register-level encodings.

pub mod memory;
pub mod x86_64;
