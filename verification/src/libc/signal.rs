//! `signal.h`: signals are not delivered; every call succeeds with no
//! effect beyond clearing `errno`.

use vstd::prelude::*;
use crate::environment::{Environment, others_unchanged};

verus! {

/// Only `errno` changes, and it becomes 0.
pub open spec fn cleared_errno(e1: &Environment, e2: &Environment) -> bool {
    &&& e2.errno == 0
    &&& e2.mem == e1.mem
    &&& e2.libc_state == e1.libc_state
    &&& others_unchanged(e1, e2)
}

/// `sigaction`: accepted and ignored.
pub fn sigaction(env: &mut Environment, signum: i32, act: u32, oldact: u32) -> (r: i32)
    ensures
        cleared_errno(old(env), final(env)),
        r == 0,
{
    env.errno = 0;
    0
}

/// `signal`: accepted and ignored; returns a null previous handler.
pub fn signal(env: &mut Environment, signum: i32, handler: u32) -> (r: u32)
    ensures
        cleared_errno(old(env), final(env)),
        r == 0,
{
    env.errno = 0;
    0
}

/// `sigprocmask`: accepted and ignored.
pub fn sigprocmask(env: &mut Environment, how: i32, set: u32, oldset: u32) -> (r: i32)
    ensures
        cleared_errno(old(env), final(env)),
        r == 0,
{
    env.errno = 0;
    0
}

/// `sigemptyset`: accepted; the set is left as it is.
pub fn sigemptyset(env: &mut Environment, set: u32) -> (r: i32)
    ensures
        cleared_errno(old(env), final(env)),
        r == 0,
{
    env.errno = 0;
    0
}

/// `sigfillset`: accepted; the set is left as it is.
pub fn sigfillset(env: &mut Environment, set: u32) -> (r: i32)
    ensures
        cleared_errno(old(env), final(env)),
        r == 0,
{
    env.errno = 0;
    0
}

/// `sigaddset`: accepted; the set is left as it is.
pub fn sigaddset(env: &mut Environment, set: u32, signum: i32) -> (r: i32)
    ensures
        cleared_errno(old(env), final(env)),
        r == 0,
{
    env.errno = 0;
    0
}

/// `sigdelset`: accepted; the set is left as it is.
pub fn sigdelset(env: &mut Environment, set: u32, signum: i32) -> (r: i32)
    ensures
        cleared_errno(old(env), final(env)),
        r == 0,
{
    env.errno = 0;
    0
}

/// `sigismember`: no signal is ever a member (0).
pub fn sigismember(env: &mut Environment, set: u32, signum: i32) -> (r: i32)
    ensures
        cleared_errno(old(env), final(env)),
        r == 0,
{
    env.errno = 0;
    0
}

/// `sigpending`: accepted; nothing is written.
pub fn sigpending(env: &mut Environment, set: u32) -> (r: i32)
    ensures
        cleared_errno(old(env), final(env)),
        r == 0,
{
    env.errno = 0;
    0
}

/// `sigsuspend`: returns -1 at once.
pub fn sigsuspend(env: &mut Environment, mask: u32) -> (r: i32)
    ensures
        cleared_errno(old(env), final(env)),
        r == -1,
{
    env.errno = 0;
    -1
}

} // verus!
