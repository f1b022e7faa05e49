//! `mach/thread_info.h` and related thread and task calls.

use vstd::prelude::*;
use crate::environment::{Environment, only_mem_changed, only_mem_and_heap_changed};
use crate::mem::{spec_read_u32, put_u32, put_words, law_put_words_read_back};

verus! {

pub type kern_return_t = i32;
pub const KERN_SUCCESS: kern_return_t = 0;
pub const KERN_FAILURE: kern_return_t = 5;

pub type mach_port_t = u32;
pub type natural_t = u32;
pub type integer_t = i32;
pub type mach_msg_type_number_t = natural_t;

pub type thread_inspect_t = mach_port_t;
pub type thread_flavor_t = natural_t;
pub type thread_t = mach_port_t;
pub type task_t = u32;

pub type policy_t = i32;
pub const POLICY_TIMESHARE: policy_t = 1;

pub const THREAD_BASIC_INFO: thread_flavor_t = 3;
pub const THREAD_SCHED_TIMESHARE_INFO: thread_flavor_t = 10;

pub const TH_STATE_RUNNING: integer_t = 1;
pub const TH_STATE_STOPPED: integer_t = 2;

/// Number of `integer_t` words in a `thread_basic_info` record.
pub const THREAD_BASIC_INFO_COUNT: u32 = 10;

/// Number of `integer_t` words in a `policy_timeshare_info` record.
pub const POLICY_TIMESHARE_INFO_COUNT: u32 = 5;

/// The port name by which a task refers to itself.
pub const MACH_TASK_SELF: mach_port_t = 0x103;


/// The words of the record `thread_info` writes for `flavor` about a
/// thread that is (or is not) `active`: a `thread_basic_info` (user and
/// system time 0, CPU usage 0, time-sharing policy, run state, then zero
/// flags, suspend count and sleep time) or an all-zero
/// `policy_timeshare_info`.
pub open spec fn info_words(flavor: u32, active: bool) -> Seq<u32> {
    if flavor == THREAD_BASIC_INFO {
        seq![0u32, 0u32, 0u32, 0u32, 0u32, 1u32, if active { 1u32 } else { 2u32 }, 0u32, 0u32, 0u32]
    } else {
        seq![0u32, 0u32, 0u32, 0u32, 0u32]
    }
}

/// The `thread_basic_info` record `thread_info` writes reports the
/// thread's run state at byte 24: `TH_STATE_RUNNING` exactly when the
/// thread is active, `TH_STATE_STOPPED` otherwise; the time-sharing policy
/// at byte 20; and zero in every other word.
pub proof fn law_thread_run_state(m: Seq<u8>, out: int, active: bool)
    requires
        0 <= out,
        out + 4 * THREAD_BASIC_INFO_COUNT <= m.len(),
    ensures
        ({
            let m2 = put_words(m, out, info_words(THREAD_BASIC_INFO, active));
            &&& spec_read_u32(m2, out + 24) == if active { TH_STATE_RUNNING } else { TH_STATE_STOPPED }
            &&& spec_read_u32(m2, out + 20) == POLICY_TIMESHARE
            &&& forall|k: int| 0 <= k < 10 && k != 5 && k != 6 ==> #[trigger] spec_read_u32(m2, out + 4 * k) == 0
        }),
{
    let ws = info_words(THREAD_BASIC_INFO, active);
    assert forall|k: int| 0 <= k < 10 implies #[trigger] spec_read_u32(put_words(m, out, ws), out + 4 * k) == ws[k] by {
        law_put_words_read_back(m, out, ws, k);
    }
    assert(spec_read_u32(put_words(m, out, ws), out + 4 * 6) == ws[6]);
    assert(spec_read_u32(put_words(m, out, ws), out + 4 * 5) == ws[5]);
}

/// `thread_info`: writes the record of kind `flavor` about thread
/// `target_act` to `thread_info_out`. The caller's buffer size, read from
/// `thread_info_out_count`, must be the record's size; only the basic and
/// the time-sharing scheduling records exist.
pub fn thread_info(
    env: &mut Environment,
    target_act: thread_inspect_t,
    flavor: thread_flavor_t,
    thread_info_out: u32,
    thread_info_out_count: u32,
) -> (r: kern_return_t)
    requires
        old(env).wf(),
        target_act < old(env).threads@.len(),
        thread_info_out_count + 4 <= old(env).mem@.len(),
        flavor == THREAD_BASIC_INFO || flavor == THREAD_SCHED_TIMESHARE_INFO,
        spec_read_u32(old(env).mem@, thread_info_out_count as int)
            == info_words(flavor, true).len(),
        thread_info_out + 4 * info_words(flavor, true).len() <= old(env).mem@.len(),
    ensures
        only_mem_changed(old(env), final(env)),
        final(env).mem.heap_top() == old(env).mem.heap_top(),
        r == KERN_SUCCESS,
        final(env).mem@ == put_words(old(env).mem@, thread_info_out as int,
            info_words(flavor, old(env).threads@[target_act as int].active)),
{
    let active = env.threads[target_act as usize].active;
    let out_size_available = env.mem.read_u32(thread_info_out_count);
    let mut words: Vec<u32> = Vec::new();
    if flavor == THREAD_BASIC_INFO {
        words.push(0); // user time: seconds
        words.push(0); // user time: microseconds
        words.push(0); // system time: seconds
        words.push(0); // system time: microseconds
        words.push(0); // CPU usage
        words.push(1); // policy: time-sharing
        words.push(if active { 1 } else { 2 }); // run state
        words.push(0); // flags
        words.push(0); // suspend count
        words.push(0); // sleep time
    } else {
        words.push(0); // max priority
        words.push(0); // base priority
        words.push(0); // current priority
        words.push(0); // depressed
        words.push(0); // depress priority
    }
    assert(words@ =~= info_words(flavor, active));
    env.mem.write_words(thread_info_out, words.as_slice());
    KERN_SUCCESS
}

/// `thread_policy_set`: accepted and ignored.
pub fn thread_policy_set(env: &mut Environment, thread: thread_t, flavor: natural_t, policy_info: u32, count: mach_msg_type_number_t) -> (r: kern_return_t)
    ensures
        *final(env) == *old(env),
        r == KERN_SUCCESS,
{
    KERN_SUCCESS
}

/// `thread_resume`: always succeeds, changes nothing.
pub fn thread_resume(env: &mut Environment, thread: thread_t) -> (r: kern_return_t)
    ensures
        *final(env) == *old(env),
        r == KERN_SUCCESS,
{
    KERN_SUCCESS
}

/// `thread_suspend`: always succeeds, changes nothing.
pub fn thread_suspend(env: &mut Environment, thread: thread_t) -> (r: kern_return_t)
    ensures
        *final(env) == *old(env),
        r == KERN_SUCCESS,
{
    KERN_SUCCESS
}

/// `thread_terminate`: accepted and ignored.
pub fn thread_terminate(env: &mut Environment, thread: thread_t) -> (r: kern_return_t)
    ensures
        *final(env) == *old(env),
        r == KERN_SUCCESS,
{
    KERN_SUCCESS
}

/// `thread_get_state`: always succeeds, writes nothing.
pub fn thread_get_state(env: &mut Environment, thread: thread_t, flavor: natural_t, state: u32, count: u32) -> (r: kern_return_t)
    ensures
        *final(env) == *old(env),
        r == KERN_SUCCESS,
{
    KERN_SUCCESS
}

/// `thread_set_state`: always succeeds, changes nothing.
pub fn thread_set_state(env: &mut Environment, thread: thread_t, flavor: natural_t, state: u32, count: mach_msg_type_number_t) -> (r: kern_return_t)
    ensures
        *final(env) == *old(env),
        r == KERN_SUCCESS,
{
    KERN_SUCCESS
}

/// `thread_abort`: always succeeds, changes nothing.
pub fn thread_abort(env: &mut Environment, thread: thread_t) -> (r: kern_return_t)
    ensures
        *final(env) == *old(env),
        r == KERN_SUCCESS,
{
    KERN_SUCCESS
}

/// `thread_abort_safely`: always succeeds, changes nothing.
pub fn thread_abort_safely(env: &mut Environment, thread: thread_t) -> (r: kern_return_t)
    ensures
        *final(env) == *old(env),
        r == KERN_SUCCESS,
{
    KERN_SUCCESS
}

/// `thread_get_exception_ports`: always succeeds, writes nothing.
pub fn thread_get_exception_ports(
    env: &mut Environment,
    thread: thread_t,
    mask: u32,
    masks: u32,
    count: u32,
    ports: u32,
    behaviors: u32,
    flavors: u32,
) -> (r: kern_return_t)
    ensures
        *final(env) == *old(env),
        r == KERN_SUCCESS,
{
    KERN_SUCCESS
}

/// `mach_task_self`: the port of the current task.
pub fn mach_task_self(env: &Environment) -> (r: mach_port_t)
    ensures
        r == MACH_TASK_SELF,
{
    MACH_TASK_SELF
}

/// The port numbers of `n` threads: 0, 1, ... (a thread's port is its
/// index).
pub open spec fn thread_ports(n: nat) -> Seq<u32> {
    Seq::new(n, |i: int| i as u32)
}

/// `task_threads`: for the current task only, allocates an array of the
/// ports of all threads and writes its address to `threads_out` and its
/// length to `thread_count_out`; any other task gets `KERN_FAILURE`.
pub fn task_threads(env: &mut Environment, task: task_t, threads_out: u32, thread_count_out: u32) -> (r: kern_return_t)
    requires
        old(env).wf(),
        task == MACH_TASK_SELF ==> {
            &&& threads_out + 4 <= old(env).mem@.len()
            &&& thread_count_out + 4 <= old(env).mem@.len()
            &&& old(env).mem.heap_top() + 4 * old(env).threads@.len() <= old(env).mem@.len()
        },
    ensures
        only_mem_and_heap_changed(old(env), final(env)),
        task != MACH_TASK_SELF ==> r == KERN_FAILURE && *final(env) == *old(env),
        task == MACH_TASK_SELF ==> {
            let array = old(env).mem.heap_top();
            let n = old(env).threads@.len();
            &&& r == KERN_SUCCESS
            &&& final(env).mem.heap_top() == array + 4 * n
            &&& final(env).mem@ == put_u32(put_u32(
                    put_words(old(env).mem@, array, thread_ports(n)),
                    threads_out as int, array), thread_count_out as int, n as int)
        },
{
    if task != mach_task_self(env) {
        return KERN_FAILURE;
    }
    proof { env.mem.lemma_wf(); }
    let count = env.threads.len() as u32;
    let array = env.mem.allocate(4 * count);
    let mut ports: Vec<u32> = Vec::new();
    let mut i: u32 = 0;
    while i < count
        invariant
            i <= count,
            ports@ == thread_ports(i as nat),
        decreases count - i,
    {
        ports.push(i);
        i = i + 1;
        assert(ports@ =~= thread_ports(i as nat));
    }
    env.mem.write_words(array, ports.as_slice());
    env.mem.write_u32(threads_out, array);
    env.mem.write_u32(thread_count_out, count);
    KERN_SUCCESS
}

/// `mach_thread_self`: the port of the running thread.
pub fn mach_thread_self(env: &Environment) -> (r: mach_port_t)
    ensures
        r == env.current_thread,
{
    env.current_thread
}

/// `mach_port_deallocate`: always succeeds; port rights are not tracked.
pub fn mach_port_deallocate(env: &mut Environment, task: mach_port_t, name: mach_port_t) -> (r: kern_return_t)
    ensures
        *final(env) == *old(env),
        r == KERN_SUCCESS,
{
    KERN_SUCCESS
}

} // verus!
