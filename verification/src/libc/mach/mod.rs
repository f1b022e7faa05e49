//! Mach kernel interfaces.

pub mod thread_info;
