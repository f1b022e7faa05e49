//! `sys/mman.h`: `mmap` copies the whole mapped range into fresh guest
//! memory; writes are never carried back to the file.

use vstd::prelude::*;
use std::collections::HashMap;
use crate::environment::{Environment, others_unchanged};
use crate::libc::errno::EINVAL;
use crate::mem::{written, filled, freed, lists_block, lists_start, lemma_listed_below};
use crate::mem::{GuestUSize, PAGE_SIZE};

verus! {

pub const MAP_FILE: i32 = 0x0000;
pub const MAP_SHARED: i32 = 0x0001;
pub const MAP_PRIVATE: i32 = 0x0002;
pub const MAP_ANON: i32 = 0x1000;

/// A file offset.
pub type off_t = i64;

/// A file descriptor.
pub type FileDescriptor = i32;

/// Mapping state: the length of each live mapping by its address.
pub struct State {
    pub allocations: HashMap<u32, GuestUSize>,
}

/// The live mappings.
pub open spec fn mappings(env: &Environment) -> Map<u32, GuestUSize> {
    env.libc_state.mmap.allocations@
}

/// Only memory, the allocator, `errno` and the mappings may have changed.
pub open spec fn rest_unchanged(e1: &Environment, e2: &Environment) -> bool {
    &&& e2.wf()
    &&& e2.libc_state.string == e1.libc_state.string
    &&& e2.libc_state.clocale == e1.libc_state.clocale
    &&& others_unchanged(e1, e2)
}

/// The arguments `mmap` refuses with `EINVAL` before doing anything: an
/// empty length, an offset off a page boundary, or other than exactly one
/// of `MAP_SHARED` and `MAP_PRIVATE`.
pub open spec fn mmap_args_invalid(len: u32, flags: i32, offset: i64) -> bool {
    ||| len == 0
    ||| (offset as int) % (PAGE_SIZE as int) != 0
    ||| (flags & MAP_SHARED == 0) == (flags & MAP_PRIVATE == 0)
}

/// Whether `mmap` accepts these arguments (and so allocates `len` bytes).
pub fn mmap_args_valid(len: GuestUSize, flags: i32, offset: off_t) -> (r: bool)
    ensures
        r == !mmap_args_invalid(len, flags, offset),
{
    len != 0 && offset % 4096 == 0 && (flags & MAP_SHARED == 0) != (flags & MAP_PRIVATE == 0)
}

/// Whether a call of `mmap` with these arguments reads from the file: the
/// arguments are valid, the mapping is not anonymous and `fd` is not
/// negative. The caller reads at most `len` bytes at `offset` before
/// calling [mmap] and hands them over.
pub fn mmap_reads_file(len: GuestUSize, flags: i32, fd: FileDescriptor, offset: off_t) -> (r: bool)
    ensures
        r == (!mmap_args_invalid(len, flags, offset) && flags & MAP_ANON == 0 && fd >= 0),
{
    len != 0 && offset % (PAGE_SIZE as i64) == 0 && (flags & MAP_SHARED == 0) != (flags & MAP_PRIVATE == 0)
        && flags & MAP_ANON == 0 && fd >= 0
}

/// `mmap`: maps `len` bytes. An anonymous mapping is zero-filled; a file
/// mapping holds `file_data` (the bytes read from `fd` at `offset`, at most
/// `len`) followed by zeros. The address hint and protection are ignored.
/// Invalid arguments, or a file mapping with a negative `fd`, give
/// `EINVAL` and null.
pub fn mmap(
    env: &mut Environment,
    addr: u32,
    len: GuestUSize,
    prot: i32,
    flags: i32,
    fd: FileDescriptor,
    offset: off_t,
    file_data: &[u8],
) -> (r: u32)
    requires
        old(env).wf(),
        file_data@.len() <= len,
        !mmap_args_invalid(len, flags, offset) ==> old(env).mem.heap_top() + len <= old(env).mem@.len(),
    ensures
        rest_unchanged(old(env), final(env)),
        mmap_args_invalid(len, flags, offset) ==> {
            &&& r == 0
            &&& final(env).errno == EINVAL
            &&& final(env).mem == old(env).mem
            &&& mappings(final(env)) == mappings(old(env))
        },
        !mmap_args_invalid(len, flags, offset) && flags & MAP_ANON == 0 && fd < 0 ==> {
            &&& r == 0
            &&& final(env).errno == EINVAL
            &&& final(env).mem == old(env).mem
            &&& mappings(final(env)) == mappings(old(env))
        },
        !mmap_args_invalid(len, flags, offset) && (flags & MAP_ANON != 0 || fd >= 0) ==> {
            let p = old(env).mem.heap_top();
            &&& r == p
            &&& r != 0
            &&& final(env).errno == 0
            &&& final(env).mem.heap_top() == p + len
            &&& final(env).mem.blocks() == old(env).mem.blocks().push((r, len))
            &&& mappings(final(env)) == mappings(old(env)).insert(p as u32, len)
            &&& forall|a: u32| #[trigger] mappings(old(env)).contains_key(a) ==> a + mappings(old(env))[a] <= r
            &&& flags & MAP_ANON != 0 ==> final(env).mem@ == filled(old(env).mem@, p, len as int, 0)
            &&& flags & MAP_ANON == 0 ==> final(env).mem@ == written(old(env).mem@, p,
                    file_data@ + Seq::new((len - file_data@.len()) as nat, |i: int| 0u8))
        },
{
    broadcast use vstd::std_specs::hash::group_hash_axioms;
    env.errno = 0;
    if len == 0 {
        env.errno = EINVAL;
        return 0;
    }
    if offset % (PAGE_SIZE as i64) != 0 {
        env.errno = EINVAL;
        return 0;
    }
    let is_anon = (flags & MAP_ANON) != 0;
    let is_shared = (flags & MAP_SHARED) != 0;
    let is_private = (flags & MAP_PRIVATE) != 0;
    if is_shared == is_private {
        env.errno = EINVAL;
        return 0;
    }
    if !is_anon && fd < 0 {
        env.errno = EINVAL;
        return 0;
    }
    proof {
        env.mem.lemma_wf();
        lemma_listed_below(env.mem.blocks(), env.mem.heap_top());
        assert forall|a: u32| #[trigger] mappings(old(env)).contains_key(a) implies a + mappings(old(env))[a] <= env.mem.heap_top() by {
            assert(lists_block(env.mem.blocks(), a as int, mappings(old(env))[a] as int));
        }
        assert forall|c: i32| #[trigger] env.libc_state.clocale.locale@.contains_key(c) implies env.libc_state.clocale.locale@[c] != env.mem.heap_top() by {
            assert(lists_start(env.mem.blocks(), env.libc_state.clocale.locale@[c] as int));
        }
    }
    let ptr = env.mem.allocate(len);
    env.libc_state.mmap.allocations.insert(ptr, len);
    if is_anon {
        env.mem.fill(ptr, len, 0);
        return ptr;
    }
    let mut data: Vec<u8> = Vec::new();
    let mut i: usize = 0;
    while i < file_data.len()
        invariant
            i <= file_data@.len(),
            data@ == file_data@.take(i as int),
        decreases file_data@.len() - i,
    {
        data.push(file_data[i]);
        i = i + 1;
        assert(data@ =~= file_data@.take(i as int));
    }
    let mut k: u32 = file_data.len() as u32;
    while k < len
        invariant
            file_data@.len() <= k <= len,
            data@ == file_data@ + Seq::new((k - file_data@.len()) as nat, |j: int| 0u8),
        decreases len - k,
    {
        data.push(0);
        k = k + 1;
        assert(data@ =~= file_data@ + Seq::new((k - file_data@.len()) as nat, |j: int| 0u8));
    }
    env.mem.write_bytes(ptr, data.as_slice());
    ptr
}

/// `munmap`: ends the mapping at `addr`, whatever `len` (a partial unmap
/// ends the whole mapping). A zero `len` or an address that is not a
/// mapping gives `EINVAL` and -1.
pub fn munmap(env: &mut Environment, addr: u32, len: GuestUSize) -> (r: i32)
    requires
        old(env).wf(),
    ensures
        rest_unchanged(old(env), final(env)),
        (len == 0 || !mappings(old(env)).contains_key(addr)) ==> {
            &&& r == -1
            &&& final(env).errno == EINVAL
            &&& final(env).mem == old(env).mem
            &&& mappings(final(env)) == mappings(old(env))
        },
        len != 0 && mappings(old(env)).contains_key(addr) ==> {
            &&& r == 0
            &&& final(env).errno == 0
            &&& mappings(final(env)) == mappings(old(env)).remove(addr)
            &&& freed(old(env).mem, final(env).mem, addr as int)
            &&& !lists_start(final(env).mem.blocks(), addr as int)
        },
{
    broadcast use vstd::std_specs::hash::group_hash_axioms;
    env.errno = 0;
    if len == 0 {
        env.errno = EINVAL;
        return -1;
    }
    if !env.libc_state.mmap.allocations.contains_key(&addr) {
        env.errno = EINVAL;
        return -1;
    }
    proof {
        assert(lists_block(env.mem.blocks(), addr as int, mappings(old(env))[addr] as int));
    }
    env.mem.free(addr);
    env.libc_state.mmap.allocations.remove(&addr);
    proof {
        assert(mappings(env) =~= mappings(old(env)).remove(addr));
    }
    0
}

/// `munmap` of the address a successful `mmap` returned gives back the
/// mappings as they were before.
pub proof fn law_map_then_unmap(maps: Map<u32, GuestUSize>, p: u32, len: GuestUSize)
    requires
        !maps.contains_key(p),
    ensures
        maps.insert(p, len).contains_key(p),
        maps.insert(p, len).remove(p) == maps,
{
    assert(maps.insert(p, len).remove(p) =~= maps);
}

} // verus!
