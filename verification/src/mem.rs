//! Guest memory: a flat byte array addressed by 32-bit guest pointers.
//!
//! Multi-byte values are stored little-endian, as on the guest CPU. Fresh
//! memory is handed out from the top of the heap; the allocator keeps the
//! list of live blocks, and freeing the highest block lowers the top again.

use vstd::prelude::*;

verus! {

/// Unsigned size type of the guest (32-bit).
pub type GuestUSize = u32;

/// Signed size type of the guest (32-bit).
pub type GuestISize = i32;

/// A guest pointer: an address into [Mem]. Address 0 is the null pointer.
pub type Ptr = u32;

/// The null guest pointer.
pub const NULL: u32 = 0;

/// Size of a guest memory page.
pub const PAGE_SIZE: u32 = 4096;

/// Little-endian value of four bytes.
pub open spec fn le_u32(b0: u8, b1: u8, b2: u8, b3: u8) -> int {
    b0 + 256 * b1 + 65536 * b2 + 16777216 * b3
}

/// The 32-bit little-endian unsigned value stored at `a` in `m`.
pub open spec fn spec_read_u32(m: Seq<u8>, a: int) -> int {
    le_u32(m[a], m[a + 1], m[a + 2], m[a + 3])
}

/// The 64-bit little-endian unsigned value stored at `a` in `m`.
pub open spec fn spec_read_u64(m: Seq<u8>, a: int) -> int {
    spec_read_u32(m, a) + 4294967296 * spec_read_u32(m, a + 4)
}

/// Two's-complement reading of a 32-bit unsigned value.
pub open spec fn to_i32(u: int) -> int {
    if u >= 0x8000_0000 { u - 0x1_0000_0000 } else { u }
}

/// Two's-complement encoding of a 32-bit signed value.
pub open spec fn from_i32(v: int) -> int {
    if v < 0 { v + 0x1_0000_0000 } else { v }
}

/// Two's-complement reading of a 64-bit unsigned value.
pub open spec fn to_i64(u: int) -> int {
    if u >= 0x8000_0000_0000_0000 { u - 0x1_0000_0000_0000_0000 } else { u }
}

/// Two's-complement encoding of a 64-bit signed value.
pub open spec fn from_i64(v: int) -> int {
    if v < 0 { v + 0x1_0000_0000_0000_0000 } else { v }
}

/// `m` with the four bytes at `a` set to `v` (0 <= v < 2^32), little-endian.
pub open spec fn put_u32(m: Seq<u8>, a: int, v: int) -> Seq<u8> {
    m.update(a, (v % 256) as u8)
        .update(a + 1, ((v / 256) % 256) as u8)
        .update(a + 2, ((v / 65536) % 256) as u8)
        .update(a + 3, (v / 16777216) as u8)
}

/// `m` with the words `ws` written one after another from `a`.
pub open spec fn put_words(m: Seq<u8>, a: int, ws: Seq<u32>) -> Seq<u8>
    decreases ws.len(),
{
    if ws.len() == 0 {
        m
    } else {
        put_u32(put_words(m, a, ws.drop_last()), a + 4 * (ws.len() - 1), ws.last() as int)
    }
}

/// The `n` little-endian words stored one after another from `a`.
pub open spec fn words_at(m: Seq<u8>, a: int, n: nat) -> Seq<u32> {
    Seq::new(n, |i: int| spec_read_u32(m, a + 4 * i) as u32)
}

/// `m2` is `m1` with the four bytes at `a` holding `v` little-endian.
pub open spec fn wrote_u32(m1: Seq<u8>, m2: Seq<u8>, a: int, v: int) -> bool {
    &&& m2.len() == m1.len()
    &&& spec_read_u32(m2, a) == v
    &&& forall|i: int| 0 <= i < m1.len() && !(a <= i < a + 4) ==> #[trigger] m2[i] == m1[i]
}

/// `m2` is `m1` with the eight bytes at `a` holding `v` little-endian.
pub open spec fn wrote_u64(m1: Seq<u8>, m2: Seq<u8>, a: int, v: int) -> bool {
    &&& m2.len() == m1.len()
    &&& spec_read_u64(m2, a) == v
    &&& forall|i: int| 0 <= i < m1.len() && !(a <= i < a + 8) ==> #[trigger] m2[i] == m1[i]
}

/// `m2` is `m1` with `bytes` written starting at `a`.
pub open spec fn wrote_bytes(m1: Seq<u8>, m2: Seq<u8>, a: int, bytes: Seq<u8>) -> bool {
    &&& m2.len() == m1.len()
    &&& forall|i: int| 0 <= i < bytes.len() ==> #[trigger] m2[a + i] == bytes[i]
    &&& forall|i: int| 0 <= i < m1.len() && !(a <= i < a + bytes.len()) ==> #[trigger] m2[i] == m1[i]
}

/// Memory `m` with the `n` bytes at `a` set to `v`.
pub open spec fn filled(m: Seq<u8>, a: int, n: int, v: u8) -> Seq<u8> {
    m.subrange(0, a) + Seq::new(n as nat, |i: int| v) + m.subrange(a + n, m.len() as int)
}

/// Memory `m` with `data` written at `a`.
pub open spec fn written(m: Seq<u8>, a: int, data: Seq<u8>) -> Seq<u8> {
    m.subrange(0, a) + data + m.subrange(a + data.len(), m.len() as int)
}

/// There is a NUL-terminated string of `n` non-NUL bytes at `p`.
pub open spec fn is_cstr(m: Seq<u8>, p: int, n: int) -> bool {
    &&& 0 <= p
    &&& 0 <= n
    &&& p + n < m.len()
    &&& m[p + n] == 0
    &&& forall|i: int| p <= i < p + n ==> #[trigger] m[i] != 0
}

/// A NUL terminator is found in `m` at or after `p`.
pub open spec fn has_cstr(m: Seq<u8>, p: int) -> bool {
    exists|n: int| #[trigger] is_cstr(m, p, n)
}

/// Length of the C string at `p` (meaningful when [has_cstr] holds).
pub open spec fn cstr_len(m: Seq<u8>, p: int) -> int {
    choose|n: int| #[trigger] is_cstr(m, p, n)
}

/// The bytes of the C string at `p`, without its terminator.
pub open spec fn cstr(m: Seq<u8>, p: int) -> Seq<u8> {
    m.subrange(p, p + cstr_len(m, p))
}

/// A C string has one length only.
pub proof fn lemma_cstr_unique(m: Seq<u8>, p: int, n1: int, n2: int)
    requires
        is_cstr(m, p, n1),
        is_cstr(m, p, n2),
    ensures
        n1 == n2,
{
    if n1 < n2 {
        assert(m[p + n1] != 0);
    } else if n2 < n1 {
        assert(m[p + n2] != 0);
    }
}

/// The chosen length is the length.
pub proof fn lemma_cstr_len(m: Seq<u8>, p: int, n: int)
    requires
        is_cstr(m, p, n),
    ensures
        has_cstr(m, p),
        cstr_len(m, p) == n,
        cstr(m, p) == m.subrange(p, p + n),
{
    assert(has_cstr(m, p));
    lemma_cstr_unique(m, p, n, cstr_len(m, p));
}

/// A 32-bit word written to memory is read back, and every word that
/// does not overlap it reads as before.
pub proof fn law_read_after_write_u32(m1: Seq<u8>, m2: Seq<u8>, a: int, v: int, b: int)
    requires
        wrote_u32(m1, m2, a, v),
        0 <= b,
        b + 4 <= m1.len(),
        b + 4 <= a || a + 4 <= b,
    ensures
        spec_read_u32(m2, a) == v,
        spec_read_u32(m2, b) == spec_read_u32(m1, b),
{
    assert(m2[b] == m1[b] && m2[b + 1] == m1[b + 1] && m2[b + 2] == m1[b + 2] && m2[b + 3] == m1[b + 3]);
}

/// A word put at `a` reads back at `a`, and the bytes elsewhere stay.
pub proof fn lemma_put_u32_read(m: Seq<u8>, a: int, v: int)
    requires
        0 <= a,
        a + 4 <= m.len(),
        0 <= v < 0x1_0000_0000,
    ensures
        put_u32(m, a, v).len() == m.len(),
        spec_read_u32(put_u32(m, a, v), a) == v,
        forall|i: int| 0 <= i < m.len() && !(a <= i < a + 4) ==> #[trigger] put_u32(m, a, v)[i] == m[i],
{
    let m2 = put_u32(m, a, v);
    let b0 = (v % 256) as u8;
    let b1 = ((v / 256) % 256) as u8;
    let b2 = ((v / 65536) % 256) as u8;
    let b3 = (v / 16777216) as u8;
    assert(m2[a] == b0 && m2[a + 1] == b1 && m2[a + 2] == b2 && m2[a + 3] == b3);
    assert(le_u32(b0, b1, b2, b3) == v) by (nonlinear_arith)
        requires
            b0 == v % 256,
            b1 == (v / 256) % 256,
            b2 == (v / 65536) % 256,
            b3 == v / 16777216,
            0 <= v < 0x1_0000_0000,
    ;
}

/// Each of the words put one after another from `a` reads back at its
/// place.
pub proof fn law_put_words_read_back(m: Seq<u8>, a: int, ws: Seq<u32>, i: int)
    requires
        0 <= a,
        a + 4 * ws.len() <= m.len(),
        0 <= i < ws.len(),
    ensures
        put_words(m, a, ws).len() == m.len(),
        spec_read_u32(put_words(m, a, ws), a + 4 * i) == ws[i],
    decreases ws.len(),
{
    let n = ws.len() - 1;
    let inner = put_words(m, a, ws.drop_last());
    lemma_put_words_len(m, a, ws.drop_last());
    lemma_put_u32_read(inner, a + 4 * n, ws.last() as int);
    if i < n {
        law_put_words_read_back(m, a, ws.drop_last(), i);
        let m2 = put_words(m, a, ws);
        assert(m2[a + 4 * i] == inner[a + 4 * i]);
        assert(m2[a + 4 * i + 1] == inner[a + 4 * i + 1]);
        assert(m2[a + 4 * i + 2] == inner[a + 4 * i + 2]);
        assert(m2[a + 4 * i + 3] == inner[a + 4 * i + 3]);
    }
}

/// Putting words keeps the length of memory.
proof fn lemma_put_words_len(m: Seq<u8>, a: int, ws: Seq<u32>)
    requires
        0 <= a,
        a + 4 * ws.len() <= m.len(),
    ensures
        put_words(m, a, ws).len() == m.len(),
    decreases ws.len(),
{
    if ws.len() > 0 {
        lemma_put_words_len(m, a, ws.drop_last());
    }
}

/// A string written with its terminator is read back as that string.
pub proof fn law_string_written_read_back(m: Seq<u8>, p: int, s: Seq<u8>)
    requires
        0 <= p,
        p + s.len() + 1 <= m.len(),
        forall|i: int| 0 <= i < s.len() ==> #[trigger] s[i] != 0,
    ensures
        has_cstr(written(m, p, s + seq![0u8]), p),
        cstr(written(m, p, s + seq![0u8]), p) == s,
{
    let m2 = written(m, p, s + seq![0u8]);
    assert forall|i: int| p <= i < p + s.len() implies #[trigger] m2[i] != 0 by {
        assert(m2[i] == (s + seq![0u8])[i - p]);
    }
    assert(m2[p + s.len()] == 0);
    assert(is_cstr(m2, p, s.len() as int));
    lemma_cstr_len(m2, p, s.len() as int);
    assert(m2.subrange(p, p + s.len()) =~= s);
}

/// A string and its terminator found in place make a C string there.
pub proof fn lemma_cstr_in_place(m: Seq<u8>, p: int, s: Seq<u8>)
    requires
        0 <= p,
        p + s.len() + 1 <= m.len(),
        m.subrange(p, p + s.len() + 1) == s + seq![0u8],
        forall|i: int| 0 <= i < s.len() ==> #[trigger] s[i] != 0,
    ensures
        is_cstr(m, p, s.len() as int),
        cstr(m, p) == s,
{
    assert forall|i: int| p <= i < p + s.len() implies #[trigger] m[i] != 0 by {
        assert(m[i] == m.subrange(p, p + s.len() + 1)[i - p]);
        assert(m[i] == (s + seq![0u8])[i - p]);
    }
    assert(m[p + s.len()] == m.subrange(p, p + s.len() + 1)[s.len() as int]);
    assert(m[p + s.len()] == (s + seq![0u8])[s.len() as int]);
    lemma_cstr_len(m, p, s.len() as int);
    assert(m.subrange(p, p + s.len()) =~= s);
}

/// Guest memory with its allocator.
pub struct Mem {
    bytes: Vec<u8>,
    next: u32,
    /// The live blocks, as (start, size), in order of address.
    live: Vec<(u32, u32)>,
}

/// The live blocks `bs` are non-empty, lie in `[1, top)` and follow one
/// another in order of address without overlapping.
pub open spec fn blocks_wf(bs: Seq<(u32, u32)>, top: int) -> bool {
    &&& forall|i: int| 0 <= i < bs.len() ==> 1 <= (#[trigger] bs[i]).0 && bs[i].1 > 0 && bs[i].0 + bs[i].1 <= top
    &&& forall|i: int, j: int| 0 <= i < j < bs.len() ==> (#[trigger] bs[i]).0 + bs[i].1 <= (#[trigger] bs[j]).0
}

/// Whether a block of `n` bytes starting at `a` is among the blocks `bs`.
pub open spec fn lists_block(bs: Seq<(u32, u32)>, a: int, n: int) -> bool {
    exists|i: int| 0 <= i < bs.len() && (#[trigger] bs[i]).0 == a && bs[i].1 == n
}

/// Whether one of the blocks `bs` starts at `a`.
pub open spec fn lists_start(bs: Seq<(u32, u32)>, a: int) -> bool {
    exists|i: int| 0 <= i < bs.len() && (#[trigger] bs[i]).0 == a
}

/// A new block keeps every listed block listed.
pub proof fn lemma_lists_push(bs: Seq<(u32, u32)>, x: (u32, u32))
    ensures
        forall|a: int, n: int| lists_block(bs, a, n) ==> #[trigger] lists_block(bs.push(x), a, n),
        forall|a: int| lists_start(bs, a) ==> #[trigger] lists_start(bs.push(x), a),
        lists_block(bs.push(x), x.0 as int, x.1 as int),
        lists_start(bs.push(x), x.0 as int),
        forall|a: int| #[trigger] lists_start(bs.push(x), a) ==> lists_start(bs, a) || a == x.0,
{
    assert forall|a: int| #[trigger] lists_start(bs.push(x), a) implies lists_start(bs, a) || a == x.0 by {
        let i = choose|i: int| 0 <= i < bs.push(x).len() && (#[trigger] bs.push(x)[i]).0 == a;
        if i < bs.len() {
            assert(bs.push(x)[i] == bs[i]);
        }
    }
    assert forall|a: int, n: int| lists_block(bs, a, n) implies #[trigger] lists_block(bs.push(x), a, n) by {
        let i = choose|i: int| 0 <= i < bs.len() && (#[trigger] bs[i]).0 == a && bs[i].1 == n;
        assert(bs.push(x)[i] == bs[i]);
    }
    assert forall|a: int| lists_start(bs, a) implies #[trigger] lists_start(bs.push(x), a) by {
        let i = choose|i: int| 0 <= i < bs.len() && (#[trigger] bs[i]).0 == a;
        assert(bs.push(x)[i] == bs[i]);
    }
    assert(bs.push(x)[bs.len() as int] == x);
}

/// Taking out the block at `i` keeps every block with another start listed.
pub proof fn lemma_lists_remove(bs: Seq<(u32, u32)>, i: int)
    requires
        0 <= i < bs.len(),
    ensures
        forall|a: int, n: int| a != bs[i].0 && lists_block(bs, a, n) ==> #[trigger] lists_block(bs.remove(i), a, n),
        forall|a: int| a != bs[i].0 && lists_start(bs, a) ==> #[trigger] lists_start(bs.remove(i), a),
        forall|a: int| #[trigger] lists_start(bs.remove(i), a) ==> lists_start(bs, a),
{
    assert forall|a: int| #[trigger] lists_start(bs.remove(i), a) implies lists_start(bs, a) by {
        let j = choose|j: int| 0 <= j < bs.remove(i).len() && (#[trigger] bs.remove(i)[j]).0 == a;
        if j < i {
            assert(bs.remove(i)[j] == bs[j]);
        } else {
            assert(bs.remove(i)[j] == bs[j + 1]);
        }
    }
    assert forall|a: int, n: int| a != bs[i].0 && lists_block(bs, a, n) implies #[trigger] lists_block(bs.remove(i), a, n) by {
        let j = choose|j: int| 0 <= j < bs.len() && (#[trigger] bs[j]).0 == a && bs[j].1 == n;
        if j < i {
            assert(bs.remove(i)[j] == bs[j]);
        } else {
            assert(bs.remove(i)[j - 1] == bs[j]);
        }
    }
    assert forall|a: int| a != bs[i].0 && lists_start(bs, a) implies #[trigger] lists_start(bs.remove(i), a) by {
        let j = choose|j: int| 0 <= j < bs.len() && (#[trigger] bs[j]).0 == a;
        if j < i {
            assert(bs.remove(i)[j] == bs[j]);
        } else {
            assert(bs.remove(i)[j - 1] == bs[j]);
        }
    }
}

/// A listed block lies below the top and no two blocks share a start.
pub proof fn lemma_listed_below(bs: Seq<(u32, u32)>, top: int)
    requires
        blocks_wf(bs, top),
    ensures
        forall|a: int, n: int| #[trigger] lists_block(bs, a, n) ==> 1 <= a && a + n <= top,
        forall|a: int| #[trigger] lists_start(bs, a) ==> 1 <= a < top,
        forall|i: int, j: int| 0 <= i < bs.len() && 0 <= j < bs.len() && (#[trigger] bs[i]).0 == (#[trigger] bs[j]).0 ==> i == j,
{
    assert forall|i: int, j: int| 0 <= i < bs.len() && 0 <= j < bs.len() && (#[trigger] bs[i]).0 == (#[trigger] bs[j]).0 implies i == j by {
        if i < j {
            assert(bs[i].0 + bs[i].1 <= bs[j].0);
        } else if j < i {
            assert(bs[j].0 + bs[j].1 <= bs[i].0);
        }
    }
}

/// The result of allocating `size` bytes at `p` in `m0`, giving `m1`: the
/// block starts at the old heap top, which rises by `size`; the contents
/// stay; an empty request records no block.
pub open spec fn allocated(m0: Mem, m1: Mem, size: int, p: int) -> bool {
    &&& p == m0.heap_top()
    &&& m1.heap_top() == m0.heap_top() + size
    &&& m1@ == m0@
    &&& m1.blocks() == if size > 0 { m0.blocks().push((p as u32, size as u32)) } else { m0.blocks() }
}

/// The result of freeing the block that starts at `p` in `m0`, giving `m1`:
/// no block starts there, so nothing changes; or the block leaves the list,
/// and if it was the highest one the heap top falls back to its start. The
/// contents stay.
pub open spec fn freed(m0: Mem, m1: Mem, p: int) -> bool {
    &&& m1@ == m0@
    &&& (forall|i: int| 0 <= i < m0.blocks().len() ==> (#[trigger] m0.blocks()[i]).0 != p) ==> {
        &&& m1.blocks() == m0.blocks()
        &&& m1.heap_top() == m0.heap_top()
    }
    &&& forall|i: int| 0 <= i < m0.blocks().len() && (#[trigger] m0.blocks()[i]).0 == p ==> {
        &&& m1.blocks() == m0.blocks().remove(i)
        &&& m1.heap_top() == if i == m0.blocks().len() - 1 { p } else { m0.heap_top() }
    }
}

/// Freeing a block right after allocating it gives back memory as it
/// was: the same live blocks and the same heap top.
pub proof fn law_allocate_then_free(m0: Mem, m1: Mem, m2: Mem, size: int, p: int)
    requires
        m1.wf(),
        size > 0,
        allocated(m0, m1, size, p),
        freed(m1, m2, p),
    ensures
        m2.blocks() == m0.blocks(),
        m2.heap_top() == m0.heap_top(),
        m2@ == m0@,
{
    let bs = m1.blocks();
    let i = bs.len() - 1;
    assert(bs[i].0 == p);
    assert(bs.remove(i) =~= m0.blocks());
}

impl View for Mem {
    type V = Seq<u8>;

    closed spec fn view(&self) -> Seq<u8> {
        self.bytes@
    }
}

impl Mem {
    /// The allocator's mark lies inside memory, address 0 is never handed
    /// out, and every address plus one still fits in a `u32`.
    pub closed spec fn wf(self) -> bool {
        &&& 1 <= self.next <= self.bytes@.len()
        &&& self.bytes@.len() < 0xffff_ffff
        &&& blocks_wf(self.live@, self.next as int)
    }

    /// The live blocks, as (start, size), in order of address.
    pub closed spec fn blocks(self) -> Seq<(u32, u32)> {
        self.live@
    }

    /// Whether a live block of `n` bytes starts at `a`.
    pub open spec fn has_block(self, a: int, n: int) -> bool {
        exists|i: int| 0 <= i < self.blocks().len() && #[trigger] self.blocks()[i] == (a as u32, n as u32)
    }

    /// The live blocks are well formed.
    pub proof fn lemma_blocks_wf(self)
        requires
            self.wf(),
        ensures
            blocks_wf(self.blocks(), self.heap_top()),
    {
    }

    /// What well-formedness promises to every user.
    pub proof fn lemma_wf(self)
        requires
            self.wf(),
        ensures
            1 <= self.heap_top() <= self@.len(),
            self@.len() < 0xffff_ffff,
            blocks_wf(self.blocks(), self.heap_top()),
    {
    }

    /// First address that the allocator has not handed out yet.
    pub closed spec fn heap_top(self) -> int {
        self.next as int
    }

    /// Creates `size` bytes of zeroed guest memory. Address 0 is reserved
    /// so that no allocation is ever null.
    pub fn new(size: u32) -> (m: Mem)
        requires
            1 <= size < 0xffff_ffff,
        ensures
            m@ == Seq::new(size as nat, |i: int| 0u8),
            m.heap_top() == 1,
            m.blocks() == Seq::<(u32, u32)>::empty(),
            m.wf(),
    {
        let mut bytes: Vec<u8> = Vec::new();
        let mut i: u32 = 0;
        while i < size
            invariant
                i <= size,
                bytes@ == Seq::new(i as nat, |k: int| 0u8),
            decreases size - i,
        {
            bytes.push(0);
            i = i + 1;
        }
        Mem { bytes, next: 1, live: Vec::new() }
    }

    /// Total size of guest memory in bytes.
    pub fn len(&self) -> (n: u32)
        requires
            self.wf(),
        ensures
            n == self@.len(),
    {
        self.bytes.len() as u32
    }

    /// First address that the allocator has not handed out yet.
    pub fn heap_top_exec(&self) -> (n: u32)
        requires
            self.wf(),
        ensures
            n == self.heap_top(),
    {
        self.next
    }

    /// Reserves `size` fresh bytes at the heap top and returns their
    /// address. The contents are left as they are.
    pub fn allocate(&mut self, size: u32) -> (p: u32)
        requires
            old(self).wf(),
            old(self).heap_top() + size <= old(self)@.len(),
        ensures
            final(self).wf(),
            p != 0,
            final(self).heap_top() == old(self).heap_top() + size,
            final(self)@ == old(self)@,
            allocated(*old(self), *final(self), size as int, p as int),
            forall|a: int, n: int| lists_block(old(self).blocks(), a, n) ==> #[trigger] lists_block(final(self).blocks(), a, n),
            forall|a: int| lists_start(old(self).blocks(), a) ==> #[trigger] lists_start(final(self).blocks(), a),
            size > 0 ==> lists_block(final(self).blocks(), p as int, size as int),
            size > 0 ==> lists_start(final(self).blocks(), p as int),
            forall|a: int| #[trigger] lists_start(final(self).blocks(), a) ==> lists_start(old(self).blocks(), a) || a == p,
    {
        let p = self.next;
        proof {
            lemma_lists_push(self.live@, (p, size));
        }
        self.next = self.next + size;
        if size > 0 {
            self.live.push((p, size));
        }
        p
    }

    /// Gives back the block that starts at `p`; freeing the highest block
    /// lowers the heap top to its start, so the space is handed out again.
    /// An address where no block starts is ignored.
    pub fn free(&mut self, p: u32)
        requires
            old(self).wf(),
        ensures
            final(self).wf(),
            freed(*old(self), *final(self), p as int),
            forall|a: int, n: int| a != p && lists_block(old(self).blocks(), a, n) ==> #[trigger] lists_block(final(self).blocks(), a, n),
            forall|a: int| a != p && lists_start(old(self).blocks(), a) ==> #[trigger] lists_start(final(self).blocks(), a),
            forall|n: int| !#[trigger] lists_block(final(self).blocks(), p as int, n),
            !lists_start(final(self).blocks(), p as int),
            forall|a: int| #[trigger] lists_start(final(self).blocks(), a) ==> lists_start(old(self).blocks(), a),
    {
        let n = self.live.len();
        let mut i: usize = 0;
        while i < n
            invariant
                n == self.live@.len(),
                i <= n,
                self.wf(),
                self.live@ == old(self).live@,
                self.next == old(self).next,
                self.bytes@ == old(self).bytes@,
                forall|k: int| 0 <= k < i ==> (#[trigger] self.live@[k]).0 != p,
            decreases n - i,
        {
            if self.live[i].0 == p {
                let ghost bs = self.live@;
                let ghost top = self.next as int;
                proof {
                    lemma_lists_remove(bs, i as int);
                    lemma_listed_below(bs, top);
                }
                if i + 1 == n {
                    self.next = p;
                }
                self.live.remove(i);
                proof {
                    let bs2 = self.live@;
                    assert(bs2 =~= bs.remove(i as int));
                    assert forall|k: int| 0 <= k < bs2.len() implies 1 <= (#[trigger] bs2[k]).0 && bs2[k].1 > 0
                        && bs2[k].0 + bs2[k].1 <= self.next by {
                        if k < i {
                            assert(bs2[k] == bs[k]);
                            if i + 1 == n {
                                assert(bs[k].0 + bs[k].1 <= bs[i as int].0);
                            }
                        } else {
                            assert(bs2[k] == bs[k + 1]);
                        }
                    }
                    assert forall|a: int, b: int| 0 <= a < b < bs2.len() implies (#[trigger] bs2[a]).0 + bs2[a].1 <= (#[trigger] bs2[b]).0 by {
                        let a0 = if a < i { a } else { a + 1 };
                        let b0 = if b < i { b } else { b + 1 };
                        assert(bs2[a] == bs[a0] && bs2[b] == bs[b0]);
                        assert(bs[a0].0 + bs[a0].1 <= bs[b0].0);
                    }
                    assert forall|k: int| 0 <= k < bs.len() && (#[trigger] bs[k]).0 == p implies k == i by {
                        if k < i {
                        } else if k > i {
                            assert(bs[i as int].0 + bs[i as int].1 <= bs[k].0);
                        }
                    }
                }
                return;
            }
            i = i + 1;
        }
    }


    pub fn read_u8(&self, a: u32) -> (v: u8)
        requires
            self.wf(),
            a < self@.len(),
        ensures
            v == self@[a as int],
    {
        self.bytes[a as usize]
    }

    pub fn write_u8(&mut self, a: u32, v: u8)
        requires
            old(self).wf(),
            a < old(self)@.len(),
        ensures
            final(self).wf(),
            final(self)@ == old(self)@.update(a as int, v),
            final(self).heap_top() == old(self).heap_top(),
            final(self).blocks() == old(self).blocks(),
    {
        self.bytes.set(a as usize, v);
    }

    pub fn read_u32(&self, a: u32) -> (v: u32)
        requires
            self.wf(),
            a + 4 <= self@.len(),
        ensures
            v == spec_read_u32(self@, a as int),
    {
        let i = a as usize;
        let b0 = self.bytes[i] as u32;
        let b1 = self.bytes[i + 1] as u32;
        let b2 = self.bytes[i + 2] as u32;
        let b3 = self.bytes[i + 3] as u32;
        b0 + b1 * 256 + b2 * 65536 + b3 * 16777216
    }

    pub fn write_u32(&mut self, a: u32, v: u32)
        requires
            old(self).wf(),
            a + 4 <= old(self)@.len(),
        ensures
            final(self).wf(),
            wrote_u32(old(self)@, final(self)@, a as int, v as int),
            final(self)@ == put_u32(old(self)@, a as int, v as int),
            final(self).heap_top() == old(self).heap_top(),
            final(self).blocks() == old(self).blocks(),
    {
        let i = a as usize;
        let b0 = (v % 256) as u8;
        let b1 = ((v / 256) % 256) as u8;
        let b2 = ((v / 65536) % 256) as u8;
        let b3 = (v / 16777216) as u8;
        assert(le_u32(b0, b1, b2, b3) == v) by (nonlinear_arith)
            requires
                b0 == v % 256,
                b1 == (v / 256) % 256,
                b2 == (v / 65536) % 256,
                b3 == v / 16777216,
        ;
        self.bytes.set(i, b0);
        self.bytes.set(i + 1, b1);
        self.bytes.set(i + 2, b2);
        self.bytes.set(i + 3, b3);
    }

    pub fn read_i32(&self, a: u32) -> (v: i32)
        requires
            self.wf(),
            a + 4 <= self@.len(),
        ensures
            v == to_i32(spec_read_u32(self@, a as int)),
    {
        let u = self.read_u32(a);
        if u >= 0x8000_0000 {
            (u as i64 - 0x1_0000_0000) as i32
        } else {
            u as i32
        }
    }

    pub fn write_i32(&mut self, a: u32, v: i32)
        requires
            old(self).wf(),
            a + 4 <= old(self)@.len(),
        ensures
            final(self).wf(),
            wrote_u32(old(self)@, final(self)@, a as int, from_i32(v as int)),
            to_i32(from_i32(v as int)) == v,
            final(self).heap_top() == old(self).heap_top(),
            final(self).blocks() == old(self).blocks(),
    {
        let u: u32 = if v < 0 { (v as i64 + 0x1_0000_0000) as u32 } else { v as u32 };
        self.write_u32(a, u);
    }

    pub fn read_u64(&self, a: u32) -> (v: u64)
        requires
            self.wf(),
            a + 8 <= self@.len(),
        ensures
            v == spec_read_u64(self@, a as int),
    {
        let lo = self.read_u32(a) as u64;
        let hi = self.read_u32(a + 4) as u64;
        lo + hi * 4294967296
    }

    pub fn write_u64(&mut self, a: u32, v: u64)
        requires
            old(self).wf(),
            a + 8 <= old(self)@.len(),
        ensures
            final(self).wf(),
            wrote_u64(old(self)@, final(self)@, a as int, v as int),
            final(self).heap_top() == old(self).heap_top(),
            final(self).blocks() == old(self).blocks(),
    {
        let lo = (v % 4294967296) as u32;
        let hi = (v / 4294967296) as u32;
        let ghost m0 = self@;
        self.write_u32(a, lo);
        let ghost m1 = self@;
        self.write_u32(a + 4, hi);
        assert(spec_read_u32(self@, a as int) == lo) by {
            assert(self@[a as int] == m1[a as int]);
            assert(self@[a + 1] == m1[a + 1]);
            assert(self@[a + 2] == m1[a + 2]);
            assert(self@[a + 3] == m1[a + 3]);
        }
        assert(lo + 4294967296 * hi == v) by (nonlinear_arith)
            requires lo == v % 4294967296, hi == v / 4294967296;
    }

    pub fn read_i64(&self, a: u32) -> (v: i64)
        requires
            self.wf(),
            a + 8 <= self@.len(),
        ensures
            v == to_i64(spec_read_u64(self@, a as int)),
    {
        let u = self.read_u64(a);
        if u >= 0x8000_0000_0000_0000 {
            (u as i128 - 0x1_0000_0000_0000_0000) as i64
        } else {
            u as i64
        }
    }

    pub fn write_i64(&mut self, a: u32, v: i64)
        requires
            old(self).wf(),
            a + 8 <= old(self)@.len(),
        ensures
            final(self).wf(),
            wrote_u64(old(self)@, final(self)@, a as int, from_i64(v as int)),
            to_i64(from_i64(v as int)) == v,
            final(self).heap_top() == old(self).heap_top(),
            final(self).blocks() == old(self).blocks(),
    {
        let u: u64 = if v < 0 { (v as i128 + 0x1_0000_0000_0000_0000) as u64 } else { v as u64 };
        self.write_u64(a, u);
    }


    /// Writes the words `ws` one after another from `a`.
    /// The `n` words stored one after another from `a`.
    pub fn read_words(&self, a: u32, n: u32) -> (v: Vec<u32>)
        requires
            self.wf(),
            a + 4 * n <= self@.len(),
        ensures
            v@ == words_at(self@, a as int, n as nat),
    {
        let mut v: Vec<u32> = Vec::new();
        let mut i: u32 = 0;
        while i < n
            invariant
                self.wf(),
                a + 4 * n <= self@.len(),
                i <= n,
                v@ == words_at(self@, a as int, i as nat),
            decreases n - i,
        {
            let w = self.read_u32(a + 4 * i);
            v.push(w);
            i = i + 1;
            assert(v@ =~= words_at(self@, a as int, i as nat));
        }
        v
    }

    pub fn write_words(&mut self, a: u32, ws: &[u32])
        requires
            old(self).wf(),
            a + 4 * ws@.len() <= old(self)@.len(),
        ensures
            final(self).wf(),
            final(self)@ == put_words(old(self)@, a as int, ws@),
            final(self)@.len() == old(self)@.len(),
            final(self).heap_top() == old(self).heap_top(),
            final(self).blocks() == old(self).blocks(),
    {
        let ghost m0 = self@;
        let n = ws.len();
        let mut i: usize = 0;
        let mut p: u32 = a;
        while i < n
            invariant
                self.wf(),
                n == ws@.len(),
                a + 4 * n <= m0.len() < 0xffff_ffff,
                self.heap_top() == old(self).heap_top(),
                self.blocks() == old(self).blocks(),
                i <= n,
                i < n ==> p == a + 4 * i,
                self@ == put_words(m0, a as int, ws@.take(i as int)),
                self@.len() == m0.len(),
            decreases n - i,
        {
            self.write_u32(p, ws[i]);
            proof {
                assert(ws@.take(i + 1).drop_last() =~= ws@.take(i as int));
            }
            i = i + 1;
            if i < n {
                p = p + 4;
            }
        }
        assert(ws@.take(n as int) =~= ws@);
    }

    /// Length of the C string at `p`.
    pub fn strlen(&self, p: u32) -> (n: u32)
        requires
            self.wf(),
            has_cstr(self@, p as int),
        ensures
            is_cstr(self@, p as int, n as int),
            n == cstr_len(self@, p as int),
    {
        let ghost len = cstr_len(self@, p as int);
        proof { lemma_cstr_len(self@, p as int, len); }
        let mut i: u32 = p;
        while self.bytes[i as usize] != 0
            invariant
                self.wf(),
                is_cstr(self@, p as int, len),
                p <= i <= p + len,
                forall|k: int| p <= k < i ==> #[trigger] self@[k] != 0,
            decreases p + len - i,
        {
            i = i + 1;
        }
        i - p
    }

    /// Copy of the C string at `p`, without its terminator.
    pub fn cstr_at(&self, p: u32) -> (v: Vec<u8>)
        requires
            self.wf(),
            has_cstr(self@, p as int),
        ensures
            v@ == cstr(self@, p as int),
            is_cstr(self@, p as int, v@.len() as int),
    {
        let n = self.strlen(p);
        self.read_bytes(p, n)
    }

    /// Copy of the `n` bytes at `a`.
    pub fn read_bytes(&self, a: u32, n: u32) -> (v: Vec<u8>)
        requires
            self.wf(),
            a + n <= self@.len(),
        ensures
            v@ == self@.subrange(a as int, a + n),
    {
        let mut v: Vec<u8> = Vec::new();
        let mut i: u32 = 0;
        while i < n
            invariant
                self.wf(),
                a + n <= self@.len(),
                i <= n,
                v@ == self@.subrange(a as int, a + i),
            decreases n - i,
        {
            v.push(self.bytes[(a + i) as usize]);
            i = i + 1;
            assert(v@ =~= self@.subrange(a as int, a + i));
        }
        v
    }

    /// Writes `data` starting at `a`.
    pub fn write_bytes(&mut self, a: u32, data: &[u8])
        requires
            old(self).wf(),
            a + data@.len() <= old(self)@.len(),
        ensures
            final(self).wf(),
            final(self)@ == old(self)@.subrange(0, a as int) + data@
                + old(self)@.subrange(a + data@.len(), old(self)@.len() as int),
            wrote_bytes(old(self)@, final(self)@, a as int, data@),
            final(self).heap_top() == old(self).heap_top(),
            final(self).blocks() == old(self).blocks(),
    {
        let ghost m0 = self@;
        let n = data.len();
        let mut i: usize = 0;
        while i < n
            invariant
                self.wf(),
                n == data@.len(),
                a + n <= m0.len(),
                self@.len() == m0.len(),
                self.heap_top() == old(self).heap_top(),
                self.blocks() == old(self).blocks(),
                i <= n,
                forall|k: int| 0 <= k < i ==> #[trigger] self@[a + k] == data@[k],
                forall|k: int| 0 <= k < m0.len() && !(a <= k < a + i) ==> #[trigger] self@[k] == m0[k],
            decreases n - i,
        {
            self.bytes.set(a as usize + i, data[i]);
            i = i + 1;
        }
        assert(self@ =~= m0.subrange(0, a as int) + data@ + m0.subrange(a + data@.len(), m0.len() as int)) by {
            assert forall|k: int| 0 <= k < self@.len() implies self@[k] == (m0.subrange(0, a as int) + data@
                + m0.subrange(a + data@.len(), m0.len() as int))[k] by {
                if a <= k < a + n {
                    assert(self@[a + (k - a)] == data@[k - a]);
                }
            }
        }
    }

    /// Sets the `n` bytes at `a` to `v`.
    pub fn fill(&mut self, a: u32, n: u32, v: u8)
        requires
            old(self).wf(),
            a + n <= old(self)@.len(),
        ensures
            final(self).wf(),
            final(self)@ == old(self)@.subrange(0, a as int) + Seq::new(n as nat, |i: int| v)
                + old(self)@.subrange(a + n, old(self)@.len() as int),
            final(self).heap_top() == old(self).heap_top(),
            final(self).blocks() == old(self).blocks(),
    {
        let ghost m0 = self@;
        let mut i: u32 = 0;
        while i < n
            invariant
                self.wf(),
                a + n <= m0.len(),
                self@.len() == m0.len(),
                self.heap_top() == old(self).heap_top(),
                self.blocks() == old(self).blocks(),
                i <= n,
                forall|k: int| a <= k < a + i ==> #[trigger] self@[k] == v,
                forall|k: int| 0 <= k < m0.len() && !(a <= k < a + i) ==> #[trigger] self@[k] == m0[k],
            decreases n - i,
        {
            self.bytes.set((a + i) as usize, v);
            i = i + 1;
        }
        assert(self@ =~= m0.subrange(0, a as int) + Seq::new(n as nat, |i: int| v)
            + m0.subrange(a + n, m0.len() as int));
    }

    /// Allocates a copy of `s` followed by a NUL terminator.
    pub fn alloc_and_write_cstr(&mut self, s: &[u8]) -> (p: u32)
        requires
            old(self).wf(),
            old(self).heap_top() + s@.len() + 1 <= old(self)@.len(),
            forall|i: int| 0 <= i < s@.len() ==> #[trigger] s@[i] != 0,
        ensures
            final(self).wf(),
            p == old(self).heap_top(),
            p != 0,
            final(self).heap_top() == old(self).heap_top() + s@.len() + 1,
            final(self).blocks() == old(self).blocks().push((p, (s@.len() + 1) as u32)),
            forall|a: int, n: int| lists_block(old(self).blocks(), a, n) ==> #[trigger] lists_block(final(self).blocks(), a, n),
            forall|a: int| lists_start(old(self).blocks(), a) ==> #[trigger] lists_start(final(self).blocks(), a),
            lists_start(final(self).blocks(), p as int),
            forall|a: int| #[trigger] lists_start(final(self).blocks(), a) ==> lists_start(old(self).blocks(), a) || a == p,
            final(self)@ == old(self)@.subrange(0, p as int) + s@ + seq![0u8]
                + old(self)@.subrange(p + s@.len() + 1, old(self)@.len() as int),
            is_cstr(final(self)@, p as int, s@.len() as int),
            cstr(final(self)@, p as int) == s@,
    {
        let n = s.len() as u32;
        let p = self.allocate(n + 1);
        let ghost m0 = self@;
        self.write_bytes(p, s);
        self.write_u8(p + n, 0);
        assert(self@ =~= m0.subrange(0, p as int) + s@ + seq![0u8]
            + m0.subrange(p + s@.len() + 1, m0.len() as int));
        assert(is_cstr(self@, p as int, n as int));
        proof { lemma_cstr_len(self@, p as int, n as int); }
        assert(self@.subrange(p as int, p + n) =~= s@);
        p
    }
}

} // verus!

verus! {

/// [has_cstr] for a guest pointer.
pub open spec fn has_cstr_at(m: Seq<u8>, p: u32) -> bool {
    has_cstr(m, p as int)
}

/// [cstr] for a guest pointer.
pub open spec fn cstr_at(m: Seq<u8>, p: u32) -> Seq<u8> {
    cstr(m, p as int)
}

/// [cstr_len] for a guest pointer.
pub open spec fn cstr_len_at(m: Seq<u8>, p: u32) -> int {
    cstr_len(m, p as int)
}

} // verus!
