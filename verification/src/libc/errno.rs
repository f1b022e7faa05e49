//! `errno.h` values (as on iPhone OS).

use vstd::prelude::*;

verus! {

pub const E2BIG: i32 = 7;
pub const EINVAL: i32 = 22;

} // verus!
