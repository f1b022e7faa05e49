//! `CFSocket`: sockets are not backed by anything yet; creating one gives
//! null, and the other calls answer as a socket that never connects.

use vstd::prelude::*;
use super::CFTypeRef;
use super::cf_array::{CFAllocatorRef, kCFAllocatorDefault};
use crate::environment::Environment;
use crate::objc::nil;

verus! {

/// `CFSocketCreate`: null (with the default allocator, the only one
/// supported).
pub fn CFSocketCreate(
    env: &mut Environment,
    allocator: CFAllocatorRef,
    protocol_family: i32,
    type_: i32,
    protocol: i32,
    flags: u32,
    callout: u32,
    context: u32,
) -> (r: CFTypeRef)
    requires
        allocator == kCFAllocatorDefault,
    ensures
        *final(env) == *old(env),
        r == nil,
{
    nil
}

/// `CFSocketInvalidate`: does nothing.
pub fn CFSocketInvalidate(env: &mut Environment, socket: CFTypeRef)
    ensures
        *final(env) == *old(env),
{
}

/// `CFSocketIsValid`: any socket but null.
pub fn CFSocketIsValid(env: &mut Environment, socket: CFTypeRef) -> (r: bool)
    ensures
        *final(env) == *old(env),
        r == (socket != nil),
{
    socket != nil
}

/// `CFSocketGetNative`: -1, there being no native socket.
pub fn CFSocketGetNative(env: &mut Environment, socket: CFTypeRef) -> (r: i32)
    ensures
        *final(env) == *old(env),
        r == -1,
{
    -1
}

/// `CFSocketSetAddress`: success (0).
pub fn CFSocketSetAddress(env: &mut Environment, socket: CFTypeRef, address: CFTypeRef) -> (r: i32)
    ensures
        *final(env) == *old(env),
        r == 0,
{
    0
}

/// `CFSocketSendData`: success (0). The timeout (a `CFTimeInterval`) is
/// given by its bit pattern and not looked at.
pub fn CFSocketSendData(env: &mut Environment, socket: CFTypeRef, address: CFTypeRef, data: CFTypeRef, timeout: u64) -> (r: i32)
    ensures
        *final(env) == *old(env),
        r == 0,
{
    0
}

/// `CFSocketDisableCallBacks`: does nothing.
pub fn CFSocketDisableCallBacks(env: &mut Environment, socket: CFTypeRef, callback_types: u32)
    ensures
        *final(env) == *old(env),
{
}

/// `CFSocketEnableCallBacks`: does nothing.
pub fn CFSocketEnableCallBacks(env: &mut Environment, socket: CFTypeRef, callback_types: u32)
    ensures
        *final(env) == *old(env),
{
}

/// `CFSocketCopyAddress`: null.
pub fn CFSocketCopyAddress(env: &mut Environment, socket: CFTypeRef) -> (r: CFTypeRef)
    ensures
        *final(env) == *old(env),
        r == nil,
{
    nil
}

/// `CFSocketCopyPeerAddress`: null.
pub fn CFSocketCopyPeerAddress(env: &mut Environment, socket: CFTypeRef) -> (r: CFTypeRef)
    ensures
        *final(env) == *old(env),
        r == nil,
{
    nil
}

} // verus!
