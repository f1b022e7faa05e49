use touchhle::environment::Environment;
use touchhle::libc::clocale::{setlocale, localeconv, LC_ALL, LC_NUMERIC, LC_TIME, LC_MESSAGES};
use touchhle::libc::errno::{EINVAL, E2BIG};
use touchhle::libc::iconv::{iconv_open, iconv, iconv_close};
use touchhle::libc::libkern::os_atomic::{
    OSAtomicAdd32, OSAtomicCompareAndSwap32, OSAtomicIncrement32, OSAtomicDecrement32, OSAtomicAdd64,
    OSAtomicCompareAndSwap64, OSAtomicTestAndSet, OSAtomicTestAndClear, OSAtomicOr32, OSAtomicAnd32,
    OSAtomicXor32, OSAtomicAddPtr, OSSpinLockLock, OSSpinLockTry, OSSpinLockUnlock,
};
use touchhle::libc::mach::thread_info::{
    thread_info, task_threads, mach_task_self, mach_thread_self, KERN_SUCCESS, KERN_FAILURE,
    THREAD_BASIC_INFO, THREAD_BASIC_INFO_COUNT, TH_STATE_RUNNING, POLICY_TIMESHARE,
};
use touchhle::libc::mmap::{mmap, munmap, mmap_reads_file, MAP_ANON, MAP_PRIVATE, MAP_SHARED};
use touchhle::libc::signal::{sigaddset, sigprocmask};

fn env() -> Environment {
    Environment::new(0x10000)
}

fn put(env: &mut Environment, s: &[u8]) -> u32 {
    let p = env.mem.allocate(s.len() as u32 + 1);
    env.mem.write_bytes(p, s);
    env.mem.write_u8(p + s.len() as u32, 0);
    p
}

#[test]
fn atomic_add_increment_decrement() {
    let mut e = env();
    let p = e.mem.allocate(4);
    e.mem.write_i32(p, 40);
    assert_eq!(OSAtomicAdd32(&mut e, 2, p), 42);
    assert_eq!(OSAtomicIncrement32(&mut e, p), 43);
    assert_eq!(OSAtomicDecrement32(&mut e, p), 42);
    assert_eq!(OSAtomicAdd32(&mut e, -50, p), -8);
    assert_eq!(e.mem.read_i32(p), -8);
}

#[test]
fn compare_and_swap_only_on_match() {
    let mut e = env();
    let p = e.mem.allocate(4);
    e.mem.write_i32(p, 7);
    assert!(!OSAtomicCompareAndSwap32(&mut e, 6, 9, p));
    assert_eq!(e.mem.read_i32(p), 7);
    assert!(OSAtomicCompareAndSwap32(&mut e, 7, 9, p));
    assert_eq!(e.mem.read_i32(p), 9);
}

#[test]
fn atomic_64_bit() {
    let mut e = env();
    let p = e.mem.allocate(8);
    e.mem.write_i64(p, 1 << 40);
    assert_eq!(OSAtomicAdd64(&mut e, 1, p), (1 << 40) + 1);
    assert!(OSAtomicCompareAndSwap64(&mut e, (1 << 40) + 1, -1, p));
    assert_eq!(e.mem.read_i64(p), -1);
}

#[test]
fn test_and_set_sets_and_reports_a_bit() {
    let mut e = env();
    let p = e.mem.allocate(4);
    e.mem.write_u32(p, 0);
    assert!(!OSAtomicTestAndSet(&mut e, 0, p));
    assert_eq!(e.mem.read_u32(p), 1);
    assert!(OSAtomicTestAndSet(&mut e, 0, p));
    assert!(OSAtomicTestAndClear(&mut e, 0, p));
    assert_eq!(e.mem.read_u8(p), 0);
}

#[test]
fn atomic_bit_operations_return_the_new_value() {
    let mut e = env();
    let p = e.mem.allocate(4);
    e.mem.write_u32(p, 0b1100);
    assert_eq!(OSAtomicOr32(&mut e, 0b0011, p), 0b1111);
    assert_eq!(OSAtomicAnd32(&mut e, 0b0110, p), 0b0110);
    assert_eq!(OSAtomicXor32(&mut e, 0b0101, p), 0b0011);
}

#[test]
fn atomic_add_ptr_wraps() {
    let mut e = env();
    let p = e.mem.allocate(4);
    e.mem.write_u32(p, 5);
    assert_eq!(OSAtomicAddPtr(&mut e, -6, p), u32::MAX);
}

#[test]
fn spin_lock_lock_try_unlock() {
    let mut e = env();
    let l = e.mem.allocate(4);
    e.mem.write_i32(l, 0);
    assert!(OSSpinLockTry(&mut e, l));
    assert!(!OSSpinLockTry(&mut e, l));
    OSSpinLockUnlock(&mut e, l);
    assert!(OSSpinLockTry(&mut e, l));
    OSSpinLockUnlock(&mut e, l);
    OSSpinLockLock(&mut e, l);
    assert!(!OSSpinLockTry(&mut e, l));
}

#[test]
fn setlocale_records_and_queries() {
    let mut e = env();
    let first = setlocale(&mut e, LC_NUMERIC, 0);
    assert_eq!(e.mem.cstr_at(first), b"C".to_vec());
    let fr = put(&mut e, b"fr_FR");
    let set = setlocale(&mut e, LC_NUMERIC, fr);
    assert_eq!(e.mem.cstr_at(set), b"fr_FR".to_vec());
    let again = setlocale(&mut e, LC_NUMERIC, 0);
    assert_eq!(again, set);
    let all = setlocale(&mut e, LC_ALL, 0);
    assert_eq!(e.mem.cstr_at(all), b"C".to_vec());
}

#[test]
fn setlocale_all_sets_every_category() {
    let mut e = env();
    let fr = put(&mut e, b"fr_FR");
    let numeric = setlocale(&mut e, LC_NUMERIC, fr);
    let us = put(&mut e, b"en_US");
    let all = setlocale(&mut e, LC_ALL, us);
    assert_eq!(e.mem.cstr_at(all), b"en_US".to_vec());
    for c in [LC_NUMERIC, LC_TIME, LC_MESSAGES] {
        let q = setlocale(&mut e, c, 0);
        assert_eq!(e.mem.cstr_at(q), b"en_US".to_vec());
        assert_ne!(q, numeric);
    }
    let de = put(&mut e, b"de_DE");
    setlocale(&mut e, LC_TIME, de);
    let q = setlocale(&mut e, LC_TIME, 0);
    assert_eq!(e.mem.cstr_at(q), b"de_DE".to_vec());
    let q = setlocale(&mut e, LC_NUMERIC, 0);
    assert_eq!(e.mem.cstr_at(q), b"en_US".to_vec());
}

#[test]
fn localeconv_is_the_c_locale() {
    let mut e = env();
    let conv = localeconv(&mut e);
    let dp = e.mem.read_u32(conv);
    assert_eq!(e.mem.cstr_at(dp), b".".to_vec());
    let ts = e.mem.read_u32(conv + 4);
    assert_eq!(e.mem.cstr_at(ts), b"".to_vec());
    assert_eq!(e.mem.read_bytes(conv + 40, 8), vec![0xffu8; 8]);
}

#[test]
fn localeconv_allocates_once() {
    let mut e = env();
    let first = localeconv(&mut e);
    let top = e.mem.heap_top_exec();
    let second = localeconv(&mut e);
    assert_eq!(first, second);
    assert_eq!(e.mem.heap_top_exec(), top);
}

#[test]
fn iconv_copies_and_reports_too_big() {
    let mut e = env();
    let cd = iconv_open(&mut e, 0, 0);
    let input = put(&mut e, b"abc");
    let out = e.mem.allocate(8);
    let inbuf = e.mem.allocate(4);
    let outbuf = e.mem.allocate(4);
    let inleft = e.mem.allocate(4);
    let outleft = e.mem.allocate(4);
    e.mem.write_u32(inbuf, input);
    e.mem.write_u32(outbuf, out);
    e.mem.write_u32(inleft, 3);
    e.mem.write_u32(outleft, 8);
    assert_eq!(iconv(&mut e, cd, inbuf, inleft, outbuf, outleft), 0);
    assert_eq!(e.mem.read_bytes(out, 3), b"abc".to_vec());
    assert_eq!(e.mem.read_u32(inleft), 0);
    assert_eq!(e.mem.read_u32(outleft), 5);
    assert_eq!(e.mem.read_u32(outbuf), out + 3);

    e.mem.write_u32(inbuf, input);
    e.mem.write_u32(outbuf, out);
    e.mem.write_u32(inleft, 3);
    e.mem.write_u32(outleft, 2);
    assert_eq!(iconv(&mut e, cd, inbuf, inleft, outbuf, outleft), u32::MAX);
    assert_eq!(e.errno, E2BIG);

    assert_eq!(iconv(&mut e, 0, inbuf, inleft, outbuf, outleft), u32::MAX);
    assert_eq!(e.errno, EINVAL);
    assert_eq!(iconv_close(&mut e, cd), 0);
}

#[test]
fn mmap_anonymous_is_zeroed_and_unmaps() {
    let mut e = env();
    let filler = e.mem.allocate(16);
    e.mem.write_bytes(filler, &[0xaa; 16]);
    let p = mmap(&mut e, 0, 64, 3, MAP_ANON | MAP_PRIVATE, -1, 0, &[]);
    assert_ne!(p, 0);
    assert_eq!(e.mem.read_bytes(p, 64), vec![0u8; 64]);
    assert_eq!(munmap(&mut e, p, 64), 0);
    assert_eq!(munmap(&mut e, p, 64), -1);
    assert_eq!(e.errno, EINVAL);
}

#[test]
fn mmap_of_a_file_holds_its_bytes_then_zeros() {
    let mut e = env();
    assert!(mmap_reads_file(8, MAP_SHARED, 3, 0));
    let p = mmap(&mut e, 0, 8, 1, MAP_SHARED, 3, 0, b"hey");
    assert_eq!(e.mem.read_bytes(p, 8), vec![b'h', b'e', b'y', 0, 0, 0, 0, 0]);
}

#[test]
fn mmap_rejects_bad_arguments() {
    let mut e = env();
    assert_eq!(mmap(&mut e, 0, 0, 0, MAP_PRIVATE, -1, 0, &[]), 0);
    assert_eq!(e.errno, EINVAL);
    assert_eq!(mmap(&mut e, 0, 16, 0, MAP_PRIVATE, 3, 100, &[]), 0);
    assert_eq!(e.errno, EINVAL);
    assert_eq!(mmap(&mut e, 0, 16, 0, MAP_ANON, -1, 0, &[]), 0);
    assert_eq!(e.errno, EINVAL);
    assert!(!mmap_reads_file(16, MAP_PRIVATE, -1, 0));
    assert_eq!(mmap(&mut e, 0, 16, 0, MAP_PRIVATE, -1, 0, &[]), 0);
    assert_eq!(e.errno, EINVAL);
    assert_eq!(munmap(&mut e, 1234, 0), -1);
    assert!(!mmap_reads_file(16, MAP_SHARED | MAP_PRIVATE, 3, 0));
    assert_eq!(mmap(&mut e, 0, 16, 0, MAP_ANON | MAP_SHARED | MAP_PRIVATE, -1, 0, &[]), 0);
    assert_eq!(e.errno, EINVAL);
}

#[test]
fn failed_file_mmap_allocates_nothing() {
    let mut e = env();
    let top = e.mem.heap_top_exec();
    assert_eq!(mmap(&mut e, 0, 32, 0, MAP_PRIVATE, -1, 0, &[]), 0);
    assert_eq!(e.errno, EINVAL);
    assert_eq!(e.mem.heap_top_exec(), top);
}

#[test]
fn munmap_of_the_last_mapping_gives_its_memory_back() {
    let mut e = env();
    let top = e.mem.heap_top_exec();
    let p = mmap(&mut e, 0, 128, 3, MAP_ANON | MAP_PRIVATE, -1, 0, &[]);
    assert_eq!(p, top);
    assert_eq!(e.mem.heap_top_exec(), top + 128);
    assert_eq!(munmap(&mut e, p, 128), 0);
    assert_eq!(e.mem.heap_top_exec(), top);
    let q = mmap(&mut e, 0, 16, 3, MAP_ANON | MAP_PRIVATE, -1, 0, &[]);
    assert_eq!(q, p);
}

#[test]
fn mappings_do_not_overlap() {
    let mut e = env();
    let p = mmap(&mut e, 0, 100, 3, MAP_ANON | MAP_PRIVATE, -1, 0, &[]);
    let q = mmap(&mut e, 0, 50, 3, MAP_ANON | MAP_PRIVATE, -1, 0, &[]);
    assert!(p + 100 <= q);
    assert_eq!(munmap(&mut e, p, 100), 0);
    let r = mmap(&mut e, 0, 10, 3, MAP_ANON | MAP_PRIVATE, -1, 0, &[]);
    assert!(q + 50 <= r);
}

#[test]
fn thread_info_reports_a_running_thread() {
    let mut e = env();
    let out = e.mem.allocate(4 * THREAD_BASIC_INFO_COUNT);
    let count = e.mem.allocate(4);
    e.mem.write_u32(count, THREAD_BASIC_INFO_COUNT);
    assert_eq!(thread_info(&mut e, 0, THREAD_BASIC_INFO, out, count), KERN_SUCCESS);
    assert_eq!(e.mem.read_i32(out + 20), POLICY_TIMESHARE);
    assert_eq!(e.mem.read_i32(out + 24), TH_STATE_RUNNING);
}

#[test]
fn task_threads_lists_every_thread() {
    let mut e = env();
    let me = mach_task_self(&e);
    let list = e.mem.allocate(4);
    let count = e.mem.allocate(4);
    assert_eq!(task_threads(&mut e, me, list, count), KERN_SUCCESS);
    assert_eq!(e.mem.read_u32(count), 1);
    let array = e.mem.read_u32(list);
    assert_eq!(e.mem.read_u32(array), 0);
    assert_eq!(task_threads(&mut e, me + 1, list, count), KERN_FAILURE);
    assert_eq!(mach_thread_self(&e), 0);
}

#[test]
fn signal_calls_succeed_and_clear_errno() {
    let mut e = env();
    e.errno = 5;
    assert_eq!(sigaddset(&mut e, 0, 2), 0);
    assert_eq!(e.errno, 0);
    assert_eq!(sigprocmask(&mut e, 0, 0, 0), 0);
}
