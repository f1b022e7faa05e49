//! The state that every guest-callable routine works on.

use vstd::prelude::*;
use crate::mem::{Mem, lists_block, lists_start};
use crate::libc;
use crate::objc::{ObjC, nil};
use crate::frameworks::FrameworkState;
use crate::frameworks::core_foundation::cf_bundle::BundleData;
use crate::frameworks::core_graphics::cg_color::CGColorState;
use std::collections::HashMap;

verus! {

/// A guest thread, as far as the routines here look at it.
pub struct Thread {
    /// Whether the thread is running (or merely stopped).
    pub active: bool,
}

/// Per-module state of the C library.
pub struct LibcState {
    pub string: libc::string::State,
    pub clocale: libc::clocale::State,
    pub mmap: libc::mmap::State,
}

/// Everything a guest-callable routine may read or change.
pub struct Environment {
    pub mem: Mem,
    pub libc_state: LibcState,
    /// The guest's `errno`.
    pub errno: i32,
    pub threads: Vec<Thread>,
    /// Index (and Mach port) of the thread that is running.
    pub current_thread: u32,
    /// The Objective-C objects.
    pub objc: ObjC,
    pub framework_state: FrameworkState,
}

/// The threads, the objects and the frameworks' state are left as they
/// were.
pub open spec fn others_unchanged(e1: &Environment, e2: &Environment) -> bool {
    &&& e2.threads@ == e1.threads@
    &&& e2.current_thread == e1.current_thread
    &&& e2.objc.objects@ == e1.objc.objects@
    &&& e2.framework_state == e1.framework_state
}

/// Only the objects may have changed.
pub open spec fn only_objc_changed(e1: &Environment, e2: &Environment) -> bool {
    &&& only_objects_changed(e1, e2)
    &&& e2.framework_state == e1.framework_state
}

/// Only the objects and the frameworks' state may have changed.
pub open spec fn only_objects_changed(e1: &Environment, e2: &Environment) -> bool {
    &&& e2.wf()
    &&& e2.mem == e1.mem
    &&& e2.errno == e1.errno
    &&& e2.libc_state == e1.libc_state
    &&& e2.threads@ == e1.threads@
    &&& e2.current_thread == e1.current_thread
}

/// Everything but the contents of guest memory is left as it was.
pub open spec fn only_mem_changed(e1: &Environment, e2: &Environment) -> bool {
    &&& e2.wf()
    &&& e2.mem.heap_top() == e1.mem.heap_top()
    &&& e2.errno == e1.errno
    &&& e2.libc_state == e1.libc_state
    &&& others_unchanged(e1, e2)
}

/// Everything but the contents of guest memory and its allocator is left
/// as it was.
pub open spec fn only_mem_and_heap_changed(e1: &Environment, e2: &Environment) -> bool {
    &&& e2.wf()
    &&& e2.errno == e1.errno
    &&& e2.libc_state == e1.libc_state
    &&& others_unchanged(e1, e2)
}

impl Environment {
    /// Memory is well formed; every mapping is a live block of its length;
    /// every locale string starts a live block of its own, which no
    /// mapping and no other category shares.
    pub open spec fn wf(&self) -> bool {
        let maps = self.libc_state.mmap.allocations@;
        let locs = self.libc_state.clocale.locale@;
        &&& self.mem.wf()
        &&& forall|a: u32| #[trigger] maps.contains_key(a) ==> lists_block(self.mem.blocks(), a as int, maps[a] as int)
        &&& forall|c: i32| #[trigger] locs.contains_key(c) ==> lists_start(self.mem.blocks(), locs[c] as int)
        &&& forall|a: u32, c: i32| #[trigger] maps.contains_key(a) && #[trigger] locs.contains_key(c) ==> locs[c] != a
        &&& forall|c: i32, d: i32| #[trigger] locs.contains_key(c) && #[trigger] locs.contains_key(d) && c != d ==> locs[c] != locs[d]
    }

    /// A fresh environment with `mem_size` bytes of zeroed guest memory and
    /// a single running thread.
    pub fn new(mem_size: u32) -> (env: Environment)
        requires
            1 <= mem_size < 0xffff_ffff,
        ensures
            env.wf(),
            env.mem@ == Seq::new(mem_size as nat, |i: int| 0u8),
            env.mem.heap_top() == 1,
            env.errno == 0,
            env.threads@.len() == 1,
            env.threads@[0].active,
            env.current_thread == 0,
            env.libc_state.string.strtok is None,
            env.libc_state.clocale.locale@ == Map::<i32, u32>::empty(),
            env.libc_state.clocale.lconv is None,
            env.libc_state.mmap.allocations@ == Map::<u32, u32>::empty(),
            env.objc.objects@ == Seq::<Option<crate::objc::Object>>::empty(),
            env.framework_state.main_bundle == nil,
            env.framework_state.main_run_loop == nil,
            env.framework_state.next_sound_id == 1,
    {
        let mut threads: Vec<Thread> = Vec::new();
        threads.push(Thread { active: true });
        Environment {
            mem: Mem::new(mem_size),
            libc_state: LibcState {
                string: libc::string::State { strtok: None },
                clocale: libc::clocale::State { locale: HashMap::new(), lconv: None },
                mmap: libc::mmap::State { allocations: HashMap::new() },
            },
            errno: 0,
            threads,
            current_thread: 0,
            objc: ObjC::new(),
            framework_state: FrameworkState {
                main_bundle: nil,
                app_bundle: BundleData { info: nil, localized_info: nil, localizations: Vec::new() },
                preferred_languages: Vec::new(),
                main_run_loop: nil,
                thread_run_loops: Vec::new(),
                cg_color: CGColorState { constant_white: None, constant_black: None, constant_clear: None },
                next_sound_id: 1,
            },
        }
    }
}

} // verus!
