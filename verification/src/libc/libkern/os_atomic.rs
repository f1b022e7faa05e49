//! `libkern/OSAtomic.h`: atomic operations on guest memory.
//!
//! Guest code runs on one host thread and host routines are never
//! interrupted, so each of these is atomic as written.

use vstd::prelude::*;
use crate::environment::{Environment, only_mem_changed};
use crate::mem::{spec_read_u32, spec_read_u64, to_i32, from_i32, to_i64, from_i64, wrote_u32, wrote_u64, GuestISize};

verus! {

/// A spin lock word: 0 when free.
pub type OSSpinLock = i32;


/// The signed 32-bit value at `p`.
pub open spec fn i32_at(m: Seq<u8>, p: u32) -> int {
    to_i32(spec_read_u32(m, p as int))
}

/// The signed 64-bit value at `p`.
pub open spec fn i64_at(m: Seq<u8>, p: u32) -> int {
    to_i64(spec_read_u64(m, p as int))
}

/// The unsigned 32-bit value (or guest pointer) at `p`.
pub open spec fn u32_at(m: Seq<u8>, p: u32) -> int {
    spec_read_u32(m, p as int)
}

/// `OSAtomicAdd32Barrier`: adds `the_amount` to the 32-bit value at
/// `the_value` and returns the sum.
pub fn OSAtomicAdd32Barrier(env: &mut Environment, the_amount: i32, the_value: u32) -> (r: i32)
    requires
        old(env).wf(),
        the_value + 4 <= old(env).mem@.len(),
        i32::MIN <= i32_at(old(env).mem@, the_value) + the_amount <= i32::MAX,
    ensures
        only_mem_changed(old(env), final(env)),
        r == i32_at(old(env).mem@, the_value) + the_amount,
        wrote_u32(old(env).mem@, final(env).mem@, the_value as int, from_i32(r as int)),
{
    let curr = env.mem.read_i32(the_value);
    let new = curr + the_amount;
    env.mem.write_i32(the_value, new);
    new
}

/// `OSAtomicAdd32`: same as [OSAtomicAdd32Barrier].
pub fn OSAtomicAdd32(env: &mut Environment, amount: i32, value_ptr: u32) -> (r: i32)
    requires
        old(env).wf(),
        value_ptr + 4 <= old(env).mem@.len(),
        i32::MIN <= i32_at(old(env).mem@, value_ptr) + amount <= i32::MAX,
    ensures
        only_mem_changed(old(env), final(env)),
        r == i32_at(old(env).mem@, value_ptr) + amount,
        wrote_u32(old(env).mem@, final(env).mem@, value_ptr as int, from_i32(r as int)),
{
    OSAtomicAdd32Barrier(env, amount, value_ptr)
}

/// `OSAtomicCompareAndSwap32Barrier`: if the 32-bit value at `the_value`
/// is `old_value`, replaces it with `new_value` and returns true; else
/// leaves it and returns false.
pub fn OSAtomicCompareAndSwap32Barrier(env: &mut Environment, old_value: i32, new_value: i32, the_value: u32) -> (r: bool)
    requires
        old(env).wf(),
        the_value + 4 <= old(env).mem@.len(),
    ensures
        only_mem_changed(old(env), final(env)),
        r == (i32_at(old(env).mem@, the_value) == old_value),
        r ==> wrote_u32(old(env).mem@, final(env).mem@, the_value as int, from_i32(new_value as int)),
        !r ==> final(env).mem@ == old(env).mem@,
{
    if old_value == env.mem.read_i32(the_value) {
        env.mem.write_i32(the_value, new_value);
        true
    } else {
        false
    }
}

/// `OSAtomicCompareAndSwap32`: same as [OSAtomicCompareAndSwap32Barrier].
pub fn OSAtomicCompareAndSwap32(env: &mut Environment, old_value: i32, new_value: i32, the_value: u32) -> (r: bool)
    requires
        old(env).wf(),
        the_value + 4 <= old(env).mem@.len(),
    ensures
        only_mem_changed(old(env), final(env)),
        r == (i32_at(old(env).mem@, the_value) == old_value),
        r ==> wrote_u32(old(env).mem@, final(env).mem@, the_value as int, from_i32(new_value as int)),
        !r ==> final(env).mem@ == old(env).mem@,
{
    OSAtomicCompareAndSwap32Barrier(env, old_value, new_value, the_value)
}

/// `OSAtomicCompareAndSwapIntBarrier`: same as [OSAtomicCompareAndSwap32Barrier].
pub fn OSAtomicCompareAndSwapIntBarrier(env: &mut Environment, old_value: i32, new_value: i32, the_value: u32) -> (r: bool)
    requires
        old(env).wf(),
        the_value + 4 <= old(env).mem@.len(),
    ensures
        only_mem_changed(old(env), final(env)),
        r == (i32_at(old(env).mem@, the_value) == old_value),
        r ==> wrote_u32(old(env).mem@, final(env).mem@, the_value as int, from_i32(new_value as int)),
        !r ==> final(env).mem@ == old(env).mem@,
{
    OSAtomicCompareAndSwap32Barrier(env, old_value, new_value, the_value)
}

/// `OSAtomicCompareAndSwapInt`: same as [OSAtomicCompareAndSwap32Barrier].
pub fn OSAtomicCompareAndSwapInt(env: &mut Environment, old_value: i32, new_value: i32, the_value: u32) -> (r: bool)
    requires
        old(env).wf(),
        the_value + 4 <= old(env).mem@.len(),
    ensures
        only_mem_changed(old(env), final(env)),
        r == (i32_at(old(env).mem@, the_value) == old_value),
        r ==> wrote_u32(old(env).mem@, final(env).mem@, the_value as int, from_i32(new_value as int)),
        !r ==> final(env).mem@ == old(env).mem@,
{
    OSAtomicCompareAndSwap32Barrier(env, old_value, new_value, the_value)
}

/// `OSAtomicCompareAndSwapPtrBarrier`: compare-and-swap of the guest
/// pointer at `the_value`.
pub fn OSAtomicCompareAndSwapPtrBarrier(env: &mut Environment, old_value: u32, new_value: u32, the_value: u32) -> (r: bool)
    requires
        old(env).wf(),
        the_value + 4 <= old(env).mem@.len(),
    ensures
        only_mem_changed(old(env), final(env)),
        r == (u32_at(old(env).mem@, the_value) == old_value),
        r ==> wrote_u32(old(env).mem@, final(env).mem@, the_value as int, new_value as int),
        !r ==> final(env).mem@ == old(env).mem@,
{
    if old_value == env.mem.read_u32(the_value) {
        env.mem.write_u32(the_value, new_value);
        true
    } else {
        false
    }
}

/// `OSAtomicCompareAndSwapPtr`: same as [OSAtomicCompareAndSwapPtrBarrier].
pub fn OSAtomicCompareAndSwapPtr(env: &mut Environment, old_value: u32, new_value: u32, the_value: u32) -> (r: bool)
    requires
        old(env).wf(),
        the_value + 4 <= old(env).mem@.len(),
    ensures
        only_mem_changed(old(env), final(env)),
        r == (u32_at(old(env).mem@, the_value) == old_value),
        r ==> wrote_u32(old(env).mem@, final(env).mem@, the_value as int, new_value as int),
        !r ==> final(env).mem@ == old(env).mem@,
{
    OSAtomicCompareAndSwapPtrBarrier(env, old_value, new_value, the_value)
}

/// `OSAtomicIncrement32Barrier`: adds one to the 32-bit value at `value` and returns the result.
pub fn OSAtomicIncrement32Barrier(env: &mut Environment, value: u32) -> (r: i32)
    requires
        old(env).wf(),
        value + 4 <= old(env).mem@.len(),
        i32_at(old(env).mem@, value) + 1 <= i32::MAX,
    ensures
        only_mem_changed(old(env), final(env)),
        r == i32_at(old(env).mem@, value) + 1,
        wrote_u32(old(env).mem@, final(env).mem@, value as int, from_i32(r as int)),
{
    let v = env.mem.read_i32(value) + 1;
    env.mem.write_i32(value, v);
    v
}

/// `OSAtomicIncrement32`: same as [OSAtomicIncrement32Barrier].
pub fn OSAtomicIncrement32(env: &mut Environment, value: u32) -> (r: i32)
    requires
        old(env).wf(),
        value + 4 <= old(env).mem@.len(),
        i32_at(old(env).mem@, value) + 1 <= i32::MAX,
    ensures
        only_mem_changed(old(env), final(env)),
        r == i32_at(old(env).mem@, value) + 1,
        wrote_u32(old(env).mem@, final(env).mem@, value as int, from_i32(r as int)),
{
    OSAtomicIncrement32Barrier(env, value)
}

/// `OSAtomicDecrement32Barrier`: subtracts one from the 32-bit value at `value` and returns the result.
pub fn OSAtomicDecrement32Barrier(env: &mut Environment, value: u32) -> (r: i32)
    requires
        old(env).wf(),
        value + 4 <= old(env).mem@.len(),
        i32::MIN <= i32_at(old(env).mem@, value) - 1,
    ensures
        only_mem_changed(old(env), final(env)),
        r == i32_at(old(env).mem@, value) - 1,
        wrote_u32(old(env).mem@, final(env).mem@, value as int, from_i32(r as int)),
{
    let v = env.mem.read_i32(value) - 1;
    env.mem.write_i32(value, v);
    v
}

/// `OSAtomicDecrement32`: same as [OSAtomicDecrement32Barrier].
pub fn OSAtomicDecrement32(env: &mut Environment, value: u32) -> (r: i32)
    requires
        old(env).wf(),
        value + 4 <= old(env).mem@.len(),
        i32::MIN <= i32_at(old(env).mem@, value) - 1,
    ensures
        only_mem_changed(old(env), final(env)),
        r == i32_at(old(env).mem@, value) - 1,
        wrote_u32(old(env).mem@, final(env).mem@, value as int, from_i32(r as int)),
{
    OSAtomicDecrement32Barrier(env, value)
}

/// `OSAtomicAdd64Barrier`: adds `amount` to the 64-bit value at `value`
/// and returns the sum.
pub fn OSAtomicAdd64Barrier(env: &mut Environment, amount: i64, value: u32) -> (r: i64)
    requires
        old(env).wf(),
        value + 8 <= old(env).mem@.len(),
        i64::MIN <= i64_at(old(env).mem@, value) + amount <= i64::MAX,
    ensures
        only_mem_changed(old(env), final(env)),
        r == i64_at(old(env).mem@, value) + amount,
        wrote_u64(old(env).mem@, final(env).mem@, value as int, from_i64(r as int)),
{
    let v = env.mem.read_i64(value) + amount;
    env.mem.write_i64(value, v);
    v
}

/// `OSAtomicAdd64`: same as [OSAtomicAdd64Barrier].
pub fn OSAtomicAdd64(env: &mut Environment, amount: i64, value: u32) -> (r: i64)
    requires
        old(env).wf(),
        value + 8 <= old(env).mem@.len(),
        i64::MIN <= i64_at(old(env).mem@, value) + amount <= i64::MAX,
    ensures
        only_mem_changed(old(env), final(env)),
        r == i64_at(old(env).mem@, value) + amount,
        wrote_u64(old(env).mem@, final(env).mem@, value as int, from_i64(r as int)),
{
    OSAtomicAdd64Barrier(env, amount, value)
}

/// `OSAtomicCompareAndSwap64Barrier`: compare-and-swap of the 64-bit value
/// at `value`.
pub fn OSAtomicCompareAndSwap64Barrier(env: &mut Environment, old_value: i64, new_value: i64, value: u32) -> (r: bool)
    requires
        old(env).wf(),
        value + 8 <= old(env).mem@.len(),
    ensures
        only_mem_changed(old(env), final(env)),
        r == (i64_at(old(env).mem@, value) == old_value),
        r ==> wrote_u64(old(env).mem@, final(env).mem@, value as int, from_i64(new_value as int)),
        !r ==> final(env).mem@ == old(env).mem@,
{
    if env.mem.read_i64(value) == old_value {
        env.mem.write_i64(value, new_value);
        true
    } else {
        false
    }
}

/// `OSAtomicCompareAndSwap64`: same as [OSAtomicCompareAndSwap64Barrier].
pub fn OSAtomicCompareAndSwap64(env: &mut Environment, old_value: i64, new_value: i64, value: u32) -> (r: bool)
    requires
        old(env).wf(),
        value + 8 <= old(env).mem@.len(),
    ensures
        only_mem_changed(old(env), final(env)),
        r == (i64_at(old(env).mem@, value) == old_value),
        r ==> wrote_u64(old(env).mem@, final(env).mem@, value as int, from_i64(new_value as int)),
        !r ==> final(env).mem@ == old(env).mem@,
{
    OSAtomicCompareAndSwap64Barrier(env, old_value, new_value, value)
}

/// `OSAtomicTestAndSet`: sets bit `bit` of the 32-bit value at `value`;
/// returns whether it was set before.
pub fn OSAtomicTestAndSet(env: &mut Environment, bit: u32, value: u32) -> (r: bool)
    requires
        old(env).wf(),
        value + 4 <= old(env).mem@.len(),
        bit < 32,
    ensures
        only_mem_changed(old(env), final(env)),
        r == (u32_at(old(env).mem@, value) as u32 & (1u32 << bit) != 0),
        wrote_u32(old(env).mem@, final(env).mem@, value as int,
            (u32_at(old(env).mem@, value) as u32 | (1u32 << bit)) as int),
{
    let mask = 1u32 << bit;
    let cur = env.mem.read_u32(value);
    let was_set = cur & mask != 0;
    env.mem.write_u32(value, cur | mask);
    was_set
}

/// `OSAtomicTestAndClear`: clears bit `bit` of the 32-bit value at
/// `value`; returns whether it was set before.
pub fn OSAtomicTestAndClear(env: &mut Environment, bit: u32, value: u32) -> (r: bool)
    requires
        old(env).wf(),
        value + 4 <= old(env).mem@.len(),
        bit < 32,
    ensures
        only_mem_changed(old(env), final(env)),
        r == (u32_at(old(env).mem@, value) as u32 & (1u32 << bit) != 0),
        wrote_u32(old(env).mem@, final(env).mem@, value as int,
            (u32_at(old(env).mem@, value) as u32 & !(1u32 << bit)) as int),
{
    let mask = 1u32 << bit;
    let cur = env.mem.read_u32(value);
    let was_set = cur & mask != 0;
    env.mem.write_u32(value, cur & !mask);
    was_set
}

/// `OSAtomicOr32`: ORs `mask` into the 32-bit value at `value`; returns the result.
pub fn OSAtomicOr32(env: &mut Environment, mask: u32, value: u32) -> (r: u32)
    requires
        old(env).wf(),
        value + 4 <= old(env).mem@.len(),
    ensures
        only_mem_changed(old(env), final(env)),
        r == (u32_at(old(env).mem@, value) as u32 | mask),
        wrote_u32(old(env).mem@, final(env).mem@, value as int, r as int),
{
    let cur = env.mem.read_u32(value);
    let new = cur | mask;
    env.mem.write_u32(value, new);
    new
}

/// `OSAtomicAnd32`: ANDs `mask` into the 32-bit value at `value`; returns the result.
pub fn OSAtomicAnd32(env: &mut Environment, mask: u32, value: u32) -> (r: u32)
    requires
        old(env).wf(),
        value + 4 <= old(env).mem@.len(),
    ensures
        only_mem_changed(old(env), final(env)),
        r == (u32_at(old(env).mem@, value) as u32 & mask),
        wrote_u32(old(env).mem@, final(env).mem@, value as int, r as int),
{
    let cur = env.mem.read_u32(value);
    let new = cur & mask;
    env.mem.write_u32(value, new);
    new
}

/// `OSAtomicXor32`: XORs `mask` into the 32-bit value at `value`; returns the result.
pub fn OSAtomicXor32(env: &mut Environment, mask: u32, value: u32) -> (r: u32)
    requires
        old(env).wf(),
        value + 4 <= old(env).mem@.len(),
    ensures
        only_mem_changed(old(env), final(env)),
        r == (u32_at(old(env).mem@, value) as u32 ^ mask),
        wrote_u32(old(env).mem@, final(env).mem@, value as int, r as int),
{
    let cur = env.mem.read_u32(value);
    let new = cur ^ mask;
    env.mem.write_u32(value, new);
    new
}

/// `OSAtomicIncrement64Barrier`: adds one to the 64-bit value at `value` and returns the result.
pub fn OSAtomicIncrement64Barrier(env: &mut Environment, value: u32) -> (r: i64)
    requires
        old(env).wf(),
        value + 8 <= old(env).mem@.len(),
        i64_at(old(env).mem@, value) + 1 <= i64::MAX,
    ensures
        only_mem_changed(old(env), final(env)),
        r == i64_at(old(env).mem@, value) + 1,
        wrote_u64(old(env).mem@, final(env).mem@, value as int, from_i64(r as int)),
{
    let v = env.mem.read_i64(value) + 1;
    env.mem.write_i64(value, v);
    v
}

/// `OSAtomicIncrement64`: same as [OSAtomicIncrement64Barrier].
pub fn OSAtomicIncrement64(env: &mut Environment, value: u32) -> (r: i64)
    requires
        old(env).wf(),
        value + 8 <= old(env).mem@.len(),
        i64_at(old(env).mem@, value) + 1 <= i64::MAX,
    ensures
        only_mem_changed(old(env), final(env)),
        r == i64_at(old(env).mem@, value) + 1,
        wrote_u64(old(env).mem@, final(env).mem@, value as int, from_i64(r as int)),
{
    OSAtomicIncrement64Barrier(env, value)
}

/// `OSAtomicDecrement64Barrier`: subtracts one from the 64-bit value at `value` and returns the result.
pub fn OSAtomicDecrement64Barrier(env: &mut Environment, value: u32) -> (r: i64)
    requires
        old(env).wf(),
        value + 8 <= old(env).mem@.len(),
        i64::MIN <= i64_at(old(env).mem@, value) - 1,
    ensures
        only_mem_changed(old(env), final(env)),
        r == i64_at(old(env).mem@, value) - 1,
        wrote_u64(old(env).mem@, final(env).mem@, value as int, from_i64(r as int)),
{
    let v = env.mem.read_i64(value) - 1;
    env.mem.write_i64(value, v);
    v
}

/// `OSAtomicDecrement64`: same as [OSAtomicDecrement64Barrier].
pub fn OSAtomicDecrement64(env: &mut Environment, value: u32) -> (r: i64)
    requires
        old(env).wf(),
        value + 8 <= old(env).mem@.len(),
        i64::MIN <= i64_at(old(env).mem@, value) - 1,
    ensures
        only_mem_changed(old(env), final(env)),
        r == i64_at(old(env).mem@, value) - 1,
        wrote_u64(old(env).mem@, final(env).mem@, value as int, from_i64(r as int)),
{
    OSAtomicDecrement64Barrier(env, value)
}

/// `OSAtomicAddPtrBarrier`: adds `amount` to the guest pointer at `value`,
/// wrapping around; returns the new pointer.
pub fn OSAtomicAddPtrBarrier(env: &mut Environment, amount: GuestISize, value: u32) -> (r: u32)
    requires
        old(env).wf(),
        value + 4 <= old(env).mem@.len(),
    ensures
        only_mem_changed(old(env), final(env)),
        r == (u32_at(old(env).mem@, value) + amount) % 0x1_0000_0000,
        wrote_u32(old(env).mem@, final(env).mem@, value as int, r as int),
{
    let cur = env.mem.read_u32(value);
    let new = cur.wrapping_add_signed(amount);
    env.mem.write_u32(value, new);
    new
}

/// `OSAtomicAddPtr`: same as [OSAtomicAddPtrBarrier].
pub fn OSAtomicAddPtr(env: &mut Environment, amount: GuestISize, value: u32) -> (r: u32)
    requires
        old(env).wf(),
        value + 4 <= old(env).mem@.len(),
    ensures
        only_mem_changed(old(env), final(env)),
        r == (u32_at(old(env).mem@, value) + amount) % 0x1_0000_0000,
        wrote_u32(old(env).mem@, final(env).mem@, value as int, r as int),
{
    OSAtomicAddPtrBarrier(env, amount, value)
}

/// `OSSpinLockLock`: takes the lock at `lock`. Nothing else can hold it
/// while guest code runs, so it is simply marked taken.
pub fn OSSpinLockLock(env: &mut Environment, lock: u32)
    requires
        old(env).wf(),
        lock + 4 <= old(env).mem@.len(),
    ensures
        only_mem_changed(old(env), final(env)),
        wrote_u32(old(env).mem@, final(env).mem@, lock as int, 1),
{
    let cur = env.mem.read_i32(lock);
    if cur == 0 {
        env.mem.write_i32(lock, 1);
    } else {
        env.mem.write_i32(lock, 1);
    }
}

/// `OSSpinLockTry`: takes the lock at `lock` if it is free; returns
/// whether it did.
pub fn OSSpinLockTry(env: &mut Environment, lock: u32) -> (r: bool)
    requires
        old(env).wf(),
        lock + 4 <= old(env).mem@.len(),
    ensures
        only_mem_changed(old(env), final(env)),
        r == (i32_at(old(env).mem@, lock) == 0),
        r ==> wrote_u32(old(env).mem@, final(env).mem@, lock as int, 1),
        !r ==> final(env).mem@ == old(env).mem@,
{
    let cur = env.mem.read_i32(lock);
    if cur == 0 {
        env.mem.write_i32(lock, 1);
        true
    } else {
        false
    }
}

/// `OSSpinLockUnlock`: frees the lock at `lock`.
pub fn OSSpinLockUnlock(env: &mut Environment, lock: u32)
    requires
        old(env).wf(),
        lock + 4 <= old(env).mem@.len(),
    ensures
        only_mem_changed(old(env), final(env)),
        wrote_u32(old(env).mem@, final(env).mem@, lock as int, 0),
{
    env.mem.write_i32(lock, 0);
}

/// `OSSpinLockLockBarrier`: same as [OSSpinLockLock].
pub fn OSSpinLockLockBarrier(env: &mut Environment, lock: u32)
    requires
        old(env).wf(),
        lock + 4 <= old(env).mem@.len(),
    ensures
        only_mem_changed(old(env), final(env)),
        wrote_u32(old(env).mem@, final(env).mem@, lock as int, 1),
{
    OSSpinLockLock(env, lock)
}

/// `OSSpinLockUnlockBarrier`: same as [OSSpinLockUnlock].
pub fn OSSpinLockUnlockBarrier(env: &mut Environment, lock: u32)
    requires
        old(env).wf(),
        lock + 4 <= old(env).mem@.len(),
    ensures
        only_mem_changed(old(env), final(env)),
        wrote_u32(old(env).mem@, final(env).mem@, lock as int, 0),
{
    OSSpinLockUnlock(env, lock)
}

/// `OSSpinLockTryBarrier`: same as [OSSpinLockTry].
pub fn OSSpinLockTryBarrier(env: &mut Environment, lock: u32) -> (r: bool)
    requires
        old(env).wf(),
        lock + 4 <= old(env).mem@.len(),
    ensures
        only_mem_changed(old(env), final(env)),
        r == (i32_at(old(env).mem@, lock) == 0),
        r ==> wrote_u32(old(env).mem@, final(env).mem@, lock as int, 1),
        !r ==> final(env).mem@ == old(env).mem@,
{
    OSSpinLockTry(env, lock)
}

/// `OSMemoryBarrier`: nothing to order on a single host thread.
pub fn OSMemoryBarrier(env: &mut Environment)
    ensures
        *final(env) == *old(env),
{
}

/// `OSAtomicBarrier`: nothing to order on a single host thread.
pub fn OSAtomicBarrier(env: &mut Environment)
    ensures
        *final(env) == *old(env),
{
}

/// After a successful compare-and-swap stores `new_value`, the word reads
/// back as `new_value`.
pub proof fn law_swap_then_read(m0: Seq<u8>, m1: Seq<u8>, p: u32, new_value: i32)
    requires
        wrote_u32(m0, m1, p as int, from_i32(new_value as int)),
    ensures
        i32_at(m1, p) == new_value,
{
}

/// A lock just taken (`OSSpinLockLock`, or a successful `OSSpinLockTry`)
/// is not free, so `OSSpinLockTry` on it fails.
pub proof fn law_locked_then_try_fails(m0: Seq<u8>, m1: Seq<u8>, lock: u32)
    requires
        wrote_u32(m0, m1, lock as int, 1),
    ensures
        i32_at(m1, lock) != 0,
{
}

/// A lock just released (`OSSpinLockUnlock`) is free, so `OSSpinLockTry`
/// on it succeeds.
pub proof fn law_unlocked_then_try_succeeds(m0: Seq<u8>, m1: Seq<u8>, lock: u32)
    requires
        wrote_u32(m0, m1, lock as int, 0),
    ensures
        i32_at(m1, lock) == 0,
{
}

} // verus!
