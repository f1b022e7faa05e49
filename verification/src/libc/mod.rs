//! The C library routines offered to guest code.

pub mod string;
pub mod libkern;
pub mod mach;
pub mod errno;
pub mod signal;
pub mod iconv;
pub mod clocale;
pub mod mmap;
pub mod crypto;
