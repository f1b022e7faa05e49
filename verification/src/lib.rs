//! Verified core of a guest-environment emulator for iPhone OS apps: guest
//! memory, the C library routines it offers to guest code, and the Core
//! Foundation / Core Graphics / UIKit object logic behind them.
#![allow(non_snake_case)]
#![allow(non_upper_case_globals)]
#![allow(non_camel_case_types)]

pub mod mem;
pub mod environment;
pub mod libc;
pub mod objc;
pub mod image;
pub mod frameworks;
