//! Core Foundation: C interfaces over the same objects as Foundation.

use vstd::prelude::*;
use crate::objc::id;

pub mod cf_type;
pub mod cf_array;
pub mod cf_bundle;
pub mod cf_run_loop;
pub mod cf_socket;
pub mod time;

verus! {

/// A signed count or index.
pub type CFIndex = i32;
/// A hash value.
pub type CFHashCode = u32;
/// Any Core Foundation object.
pub type CFTypeRef = id;

/// A range of indices: `length` of them from `location`.
#[derive(Clone, Copy)]
pub struct CFRange {
    pub location: CFIndex,
    pub length: CFIndex,
}

} // verus!
