//! `CFRunLoop`: here the same objects as `NSRunLoop`.
//!
//! Running a run loop hands control to the host's event loop and its
//! timers, so the loops themselves are driven from outside the library;
//! what is kept here is which run loop belongs to which thread and the
//! answers that need no running.

use vstd::prelude::*;
use super::CFTypeRef;
use crate::environment::{Environment, only_objects_changed};
use crate::objc::{id, nil, HostObject, Object};
use crate::frameworks::foundation::{is_string, string_of, check_key, get_static_str};

verus! {

pub type CFRunLoopRef = CFTypeRef;
pub type CFRunLoopMode = CFTypeRef;

/// `"kCFRunLoopDefaultMode"`.
pub open spec fn default_mode() -> Seq<u8> {
    seq![107u8, 67, 70, 82, 117, 110, 76, 111, 111, 112, 68, 101, 102, 97, 117, 108, 116, 77, 111, 100, 101]
}

/// `"kCFRunLoopCommonModes"`.
pub open spec fn common_modes() -> Seq<u8> {
    seq![107u8, 67, 70, 82, 117, 110, 76, 111, 111, 112, 67, 111, 109, 109, 111, 110, 77, 111, 100, 101, 115]
}

fn default_mode_bytes() -> (v: Vec<u8>)
    ensures
        v@ == default_mode(),
{
    vec![107u8, 67, 70, 82, 117, 110, 76, 111, 111, 112, 68, 101, 102, 97, 117, 108, 116, 77, 111, 100, 101]
}

fn common_modes_bytes() -> (v: Vec<u8>)
    ensures
        v@ == common_modes(),
{
    vec![107u8, 67, 70, 82, 117, 110, 76, 111, 111, 112, 67, 111, 109, 109, 111, 110, 77, 111, 100, 101, 115]
}

/// The run loop recorded for `thread` among `loops`, if any.
pub open spec fn loop_of(loops: Seq<(u32, id)>, thread: u32) -> Option<id>
    decreases loops.len(),
{
    if loops.len() == 0 {
        None
    } else if loops.last().0 == thread {
        Some(loops.last().1)
    } else {
        loop_of(loops.drop_last(), thread)
    }
}

/// The run loop `CFRunLoopGetMain` returns when the main run loop is
/// `main` (nil before the first call) and the store holds `n` objects:
/// the one made before, or a new one.
pub open spec fn main_run_loop_after(main: id, n: nat) -> id {
    if main != nil { main } else { (n + 1) as id }
}

/// `CFRunLoopGetMain` gives the same run loop on every call: once a call
/// has returned `r`, the next call, whatever the store has grown to,
/// returns `r` again.
pub proof fn law_main_run_loop_stable(main: id, n1: nat, n2: nat)
    requires
        main == nil ==> n1 + 1 < u32::MAX,
    ensures
        main_run_loop_after(main, n1) != nil,
        main_run_loop_after(main_run_loop_after(main, n1), n2) == main_run_loop_after(main, n1),
{
}

/// `CFRunLoopGetMain`: the main thread's run loop, made (static) on first
/// use.
pub fn CFRunLoopGetMain(env: &mut Environment) -> (r: CFRunLoopRef)
    requires
        old(env).wf(),
        old(env).framework_state.main_run_loop == nil ==> old(env).objc.has_room(),
    ensures
        only_objects_changed(old(env), final(env)),
        r != nil,
        final(env).framework_state.main_run_loop == r,
        r == main_run_loop_after(old(env).framework_state.main_run_loop, old(env).objc.objects@.len()),
        old(env).framework_state.main_run_loop != nil ==> r == old(env).framework_state.main_run_loop
            && *final(env) == *old(env),
        old(env).framework_state.main_run_loop == nil ==> {
            &&& r == old(env).objc.objects@.len() + 1
            &&& final(env).objc.objects@ == old(env).objc.objects@.push(Some(Object {
                    retain_count: u32::MAX,
                    is_static: true,
                    host: HostObject::RunLoop,
                }))
            &&& final(env).framework_state == (crate::frameworks::FrameworkState { main_run_loop: r, ..old(env).framework_state })
        },
{
    if env.framework_state.main_run_loop != nil {
        return env.framework_state.main_run_loop;
    }
    let l = env.objc.alloc_static_object(HostObject::RunLoop);
    env.framework_state.main_run_loop = l;
    l
}

/// `CFRunLoopGetCurrent`: the running thread's run loop: the main one on
/// the main thread (thread 0), else the thread's own, made (static) on
/// first use.
pub fn CFRunLoopGetCurrent(env: &mut Environment) -> (r: CFRunLoopRef)
    requires
        old(env).wf(),
        old(env).current_thread == 0 && old(env).framework_state.main_run_loop == nil ==> old(env).objc.has_room(),
        old(env).current_thread != 0 && loop_of(old(env).framework_state.thread_run_loops@, old(env).current_thread) is None
            ==> old(env).objc.has_room(),
    ensures
        only_objects_changed(old(env), final(env)),
        old(env).current_thread == 0 ==> {
            &&& old(env).framework_state.main_run_loop != nil ==> r == old(env).framework_state.main_run_loop
                && *final(env) == *old(env)
            &&& old(env).framework_state.main_run_loop == nil ==> {
                &&& r == old(env).objc.objects@.len() + 1
                &&& final(env).objc.objects@ == old(env).objc.objects@.push(Some(Object {
                        retain_count: u32::MAX,
                        is_static: true,
                        host: HostObject::RunLoop,
                    }))
                &&& final(env).framework_state == (crate::frameworks::FrameworkState { main_run_loop: r, ..old(env).framework_state })
            }
        },
        old(env).current_thread != 0 ==> match loop_of(old(env).framework_state.thread_run_loops@, old(env).current_thread) {
            Some(l) => r == l && *final(env) == *old(env),
            None => {
                &&& r == old(env).objc.objects@.len() + 1
                &&& final(env).objc.objects@ == old(env).objc.objects@.push(Some(Object {
                        retain_count: u32::MAX,
                        is_static: true,
                        host: HostObject::RunLoop,
                    }))
                &&& final(env).framework_state.thread_run_loops@
                    == old(env).framework_state.thread_run_loops@.push((old(env).current_thread, r))
                &&& final(env).framework_state.main_run_loop == old(env).framework_state.main_run_loop
                &&& loop_of(final(env).framework_state.thread_run_loops@, old(env).current_thread) == Some(r)
            },
        },
{
    if env.current_thread == 0 {
        return CFRunLoopGetMain(env);
    }
    let t = env.current_thread;
    let n = env.framework_state.thread_run_loops.len();
    let mut i: usize = n;
    assert(env.framework_state.thread_run_loops@.take(n as int) =~= env.framework_state.thread_run_loops@);
    while i > 0
        invariant
            t != 0,
            old(env).wf(),
            i <= n,
            n == env.framework_state.thread_run_loops@.len(),
            t == env.current_thread,
            *env == *old(env),
            loop_of(env.framework_state.thread_run_loops@, t)
                == loop_of(env.framework_state.thread_run_loops@.take(i as int), t),
        decreases i,
    {
        let ghost loops = env.framework_state.thread_run_loops@;
        assert(loops.take(i as int).drop_last() =~= loops.take(i - 1));
        let entry = env.framework_state.thread_run_loops[i - 1];
        if entry.0 == t {
            return entry.1;
        }
        i = i - 1;
    }
    assert(env.framework_state.thread_run_loops@.take(0) =~= Seq::<(u32, id)>::empty());
    let l = env.objc.alloc_static_object(HostObject::RunLoop);
    env.framework_state.thread_run_loops.push((t, l));
    l
}

/// Whether `mode` is one of the two modes run loops support here, the
/// default mode and the common modes; `CFRunLoopRunInMode` accepts no
/// other.
pub fn CFRunLoopModeIsSupported(env: &Environment, mode: CFRunLoopMode) -> (r: bool)
    ensures
        r == (is_string(&env.objc, mode) && (string_of(&env.objc, mode) == default_mode()
            || string_of(&env.objc, mode) == common_modes())),
{
    let d = default_mode_bytes();
    let c = common_modes_bytes();
    check_key(&env.objc, mode, d.as_slice()) || check_key(&env.objc, mode, c.as_slice())
}

/// `CFRunLoopStop`: does nothing; run loops have no stop flag here.
pub fn CFRunLoopStop(env: &mut Environment, run_loop: CFRunLoopRef)
    ensures
        *final(env) == *old(env),
{
}

/// `CFRunLoopWakeUp`: does nothing; a run loop is never asleep here.
pub fn CFRunLoopWakeUp(env: &mut Environment, run_loop: CFRunLoopRef)
    ensures
        *final(env) == *old(env),
{
}

/// `CFRunLoopIsWaiting`: never.
pub fn CFRunLoopIsWaiting(env: &mut Environment, run_loop: CFRunLoopRef) -> (r: bool)
    ensures
        *final(env) == *old(env),
        !r,
{
    false
}

/// `CFRunLoopCopyCurrentMode`: the static string of the default mode.
pub fn CFRunLoopCopyCurrentMode(env: &mut Environment, run_loop: CFRunLoopRef) -> (r: CFRunLoopMode)
    requires
        old(env).wf(),
        old(env).objc.has_room(),
    ensures
        only_objects_changed(old(env), final(env)),
        final(env).framework_state == old(env).framework_state,
        is_string(&final(env).objc, r),
        final(env).objc.obj(r).is_static,
        string_of(&final(env).objc, r) == default_mode(),
        old(env).objc.live(r) ==> final(env).objc.objects@ == old(env).objc.objects@,
        final(env).objc.objects@ == old(env).objc.objects@ || (r == old(env).objc.objects@.len() + 1
            && final(env).objc.objects@ == old(env).objc.objects@.push(Some(Object {
                retain_count: u32::MAX,
                is_static: true,
                host: HostObject::String(final(env).objc.host_of(r)->String_0),
            }))),
{
    let d = default_mode_bytes();
    get_static_str(&mut env.objc, d.as_slice())
}

/// `CFRunLoopAddCommonMode`: does nothing.
pub fn CFRunLoopAddCommonMode(env: &mut Environment, run_loop: CFRunLoopRef, mode: CFRunLoopMode)
    ensures
        *final(env) == *old(env),
{
}

/// `CFRunLoopContainsSource`: never.
pub fn CFRunLoopContainsSource(env: &mut Environment, run_loop: CFRunLoopRef, source: CFTypeRef, mode: CFRunLoopMode) -> (r: bool)
    ensures
        *final(env) == *old(env),
        !r,
{
    false
}

} // verus!
