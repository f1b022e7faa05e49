//! `libkern` headers.

pub mod os_atomic;
