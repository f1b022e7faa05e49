//! `string.h`: byte-string and memory routines on guest memory.

use vstd::prelude::*;
use vstd::std_specs::bits::{u32_trailing_zeros, u64_trailing_zeros};
use crate::environment::{Environment, others_unchanged};
use crate::mem::{Mem, is_cstr, has_cstr, has_cstr_at, spec_read_u32, cstr, cstr_at, cstr_len, cstr_len_at, lemma_cstr_len, wrote_u32, GuestUSize, filled, written};

verus! {

/// State kept between calls of `strtok`.
pub struct State {
    /// Where the next `strtok(NULL, ..)` call resumes; `None` before the
    /// first call and after the string ran out.
    pub strtok: Option<u32>,
}

/// ASCII lower-casing, as `u8::to_ascii_lowercase` does it.
pub open spec fn lower(c: u8) -> u8 {
    if 65 <= c <= 90 { (c + 32) as u8 } else { c }
}

/// ASCII lower-casing of one byte.
pub fn to_ascii_lower(c: u8) -> (r: u8)
    ensures
        r == lower(c),
{
    if c >= 65 && c <= 90 { c + 32 } else { c }
}

/// A byte as compared: lower-cased when the comparison ignores case.
pub open spec fn folded(c: u8, ignore_case: bool) -> u8 {
    if ignore_case { lower(c) } else { c }
}

/// Computes [folded].
pub fn fold_byte(c: u8, ignore_case: bool) -> (r: u8)
    ensures
        r == folded(c, ignore_case),
{
    if ignore_case { to_ascii_lower(c) } else { c }
}

/// -1, 0 or 1 after the sign of `x`.
pub open spec fn sign(x: int) -> i32 {
    if x < 0 { -1i32 } else if x > 0 { 1i32 } else { 0i32 }
}

/// `k` is where a comparison of the strings at `a` and `b`, looking at no
/// more than `n` bytes, stops: the bytes before `k` agree and are not NUL,
/// and at `k` they differ, or `a` ends, or the `n`th byte is reached.
pub open spec fn stops_at(m: Seq<u8>, a: int, b: int, n: int, ignore_case: bool, k: int) -> bool {
    &&& 0 <= k < n
    &&& forall|i: int| #![trigger m[a + i]] 0 <= i < k ==>
        folded(m[a + i], ignore_case) == folded(m[b + i], ignore_case) && m[a + i] != 0
    &&& (folded(m[a + k], ignore_case) != folded(m[b + k], ignore_case) || m[a + k] == 0 || k == n - 1)
}

/// Order of the strings at `a` and `b` over at most `n` bytes: -1, 0 or 1.
pub open spec fn str_order(m: Seq<u8>, a: u32, b: u32, n: int, ignore_case: bool) -> i32 {
    if n <= 0 {
        0
    } else {
        let k = choose|k: int| stops_at(m, a as int, b as int, n, ignore_case, k);
        sign(folded(m[a + k], ignore_case) - folded(m[b + k], ignore_case))
    }
}

/// [str_order] over at most `n` bytes.
pub open spec fn str_order_n(m: Seq<u8>, a: u32, b: u32, n: u32, ignore_case: bool) -> i32 {
    str_order(m, a, b, n as int, ignore_case)
}

/// [str_order] with no limit but the end of memory.
pub open spec fn str_order_all(m: Seq<u8>, a: u32, b: u32, ignore_case: bool) -> i32 {
    str_order(m, a, b, m.len() as int, ignore_case)
}

/// A comparison stops at one place only.
pub proof fn lemma_stops_unique(m: Seq<u8>, a: int, b: int, n: int, ic: bool, k1: int, k2: int)
    requires
        stops_at(m, a, b, n, ic, k1),
        stops_at(m, a, b, n, ic, k2),
    ensures
        k1 == k2,
{
    if k1 < k2 {
        assert(m[a + k1] == m[a + k1]);
    } else if k2 < k1 {
        assert(m[a + k2] == m[a + k2]);
    }
}

/// ASCII lower-casing gives NUL only for NUL.
proof fn lemma_folded_zero(c: u8, ic: bool)
    ensures
        (folded(c, ic) == 0) == (c == 0),
{
}

/// A comparison that got to position `i` with every earlier byte agreeing
/// stops somewhere from `i` on.
proof fn lemma_stop_from(m: Seq<u8>, a: int, b: int, n: int, ic: bool, i: int, la: int) -> (k: int)
    requires
        0 <= i < n,
        is_cstr(m, a, la),
        i <= la,
        forall|j: int| #![trigger m[a + j]] 0 <= j < i ==>
            folded(m[a + j], ic) == folded(m[b + j], ic) && m[a + j] != 0,
    ensures
        stops_at(m, a, b, n, ic, k),
    decreases la - i,
{
    if folded(m[a + i], ic) != folded(m[b + i], ic) || m[a + i] == 0 || i == n - 1 {
        i
    } else {
        assert(i < la);
        lemma_stop_from(m, a, b, n, ic, i + 1, la)
    }
}

/// Where a comparison of `a` with `b` stops, the comparison of `b` with
/// `a` stops too.
proof fn lemma_stops_symmetric(m: Seq<u8>, a: int, b: int, n: int, ic: bool, k: int)
    requires
        stops_at(m, a, b, n, ic, k),
    ensures
        stops_at(m, b, a, n, ic, k),
{
    assert forall|i: int| #![trigger m[b + i]] 0 <= i < k implies
        folded(m[b + i], ic) == folded(m[a + i], ic) && m[b + i] != 0 by {
        assert(folded(m[a + i], ic) == folded(m[b + i], ic) && m[a + i] != 0);
        lemma_folded_zero(m[a + i], ic);
        lemma_folded_zero(m[b + i], ic);
    }
    lemma_folded_zero(m[a + k], ic);
    lemma_folded_zero(m[b + k], ic);
}

/// A comparison of two strings in memory stops somewhere.
proof fn lemma_stop_exists(m: Seq<u8>, a: u32, b: u32, ic: bool) -> (k: int)
    requires
        has_cstr_at(m, a),
    ensures
        stops_at(m, a as int, b as int, m.len() as int, ic, k),
{
    let la = cstr_len(m, a as int);
    lemma_cstr_len(m, a as int, choose|n: int| #[trigger] is_cstr(m, a as int, n));
    lemma_stop_from(m, a as int, b as int, m.len() as int, ic, 0, la)
}

/// Comparing strings is antisymmetric: the order of `a` against `b` is the
/// negation of that of `b` against `a`, with or without case.
pub proof fn law_string_order_antisymmetric(m: Seq<u8>, a: u32, b: u32, ignore_case: bool)
    requires
        has_cstr_at(m, a),
        has_cstr_at(m, b),
    ensures
        str_order_all(m, a, b, ignore_case) == -str_order_all(m, b, a, ignore_case),
{
    let n = m.len() as int;
    let k = lemma_stop_exists(m, a, b, ignore_case);
    lemma_stops_symmetric(m, a as int, b as int, n, ignore_case, k);
    let k1 = choose|k: int| stops_at(m, a as int, b as int, n, ignore_case, k);
    let k2 = choose|k: int| stops_at(m, b as int, a as int, n, ignore_case, k);
    lemma_stops_unique(m, a as int, b as int, n, ignore_case, k, k1);
    lemma_stops_unique(m, b as int, a as int, n, ignore_case, k, k2);
}

/// A string compares equal to itself, with or without case.
pub proof fn law_string_order_reflexive(m: Seq<u8>, a: u32, ignore_case: bool)
    requires
        has_cstr_at(m, a),
    ensures
        str_order_all(m, a, a, ignore_case) == 0,
{
    let n = m.len() as int;
    let k = lemma_stop_exists(m, a, a, ignore_case);
    let k1 = choose|k: int| stops_at(m, a as int, a as int, n, ignore_case, k);
    lemma_stops_unique(m, a as int, a as int, n, ignore_case, k, k1);
}

/// The bytes of `s`, each as compared (lower-cased when case is ignored).
pub open spec fn folded_bytes(s: Seq<u8>, ignore_case: bool) -> Seq<u8> {
    Seq::new(s.len(), |i: int| folded(s[i], ignore_case))
}

/// Two strings compare equal exactly when they hold the same bytes (with
/// case ignored, the same bytes once lower-cased).
pub proof fn law_string_order_zero_iff_equal(m: Seq<u8>, a: u32, b: u32, ignore_case: bool)
    requires
        has_cstr_at(m, a),
        has_cstr_at(m, b),
    ensures
        (str_order_all(m, a, b, ignore_case) == 0)
            == (folded_bytes(cstr_at(m, a), ignore_case) == folded_bytes(cstr_at(m, b), ignore_case)),
{
    let n = m.len() as int;
    let ic = ignore_case;
    let la = cstr_len(m, a as int);
    let lb = cstr_len(m, b as int);
    lemma_cstr_len(m, a as int, choose|k: int| #[trigger] is_cstr(m, a as int, k));
    lemma_cstr_len(m, b as int, choose|k: int| #[trigger] is_cstr(m, b as int, k));
    let k = lemma_stop_exists(m, a, b, ic);
    let k1 = choose|k: int| stops_at(m, a as int, b as int, n, ic, k);
    lemma_stops_unique(m, a as int, b as int, n, ic, k, k1);
    let fa = folded_bytes(cstr_at(m, a), ic);
    let fb = folded_bytes(cstr_at(m, b), ic);
    // The comparison stops no later than the end of `a`.
    if k > la {
        assert(m[a + la] != 0);
    }
    assert(k <= la);
    if lb < k {
        assert(folded(m[a + lb], ic) == folded(m[b + lb], ic) && m[a + lb] != 0);
        lemma_folded_zero(m[a + lb], ic);
        lemma_folded_zero(m[b + lb], ic);
    }
    assert(k <= lb);
    if str_order_all(m, a, b, ic) == 0 {
        assert(folded(m[a + k], ic) == folded(m[b + k], ic));
        if k < la {
            assert(a + k < a + la);
            assert(m[a + k] != 0);
        }
        assert(k == la);
        lemma_folded_zero(m[a + k], ic);
        lemma_folded_zero(m[b + k], ic);
        assert(m[b + k] == 0);
        if k < lb {
            assert(m[b + k] != 0);
        }
        assert(la == lb);
        assert forall|i: int| 0 <= i < fa.len() implies fa[i] == fb[i] by {
            assert(folded(m[a + i], ic) == folded(m[b + i], ic));
        }
        assert(fa =~= fb);
    }
    if fa == fb {
        assert(fa.len() == la && fb.len() == lb);
        assert(la == lb);
        assert forall|i: int| #![trigger m[a + i]] 0 <= i < la implies
            folded(m[a + i], ic) == folded(m[b + i], ic) && m[a + i] != 0 by {
            assert(fa[i] == fb[i]);
        }
        assert(m[a + la] == 0 && m[b + la] == 0);
        assert(stops_at(m, a as int, b as int, n, ic, la));
        lemma_stops_unique(m, a as int, b as int, n, ic, k, la);
    }
}

/// Compares the strings at `a` and `b` byte by byte, at most `n` bytes,
/// optionally ignoring ASCII case.
pub fn compare_strings(mem: &Mem, a: u32, b: u32, n: u32, ignore_case: bool) -> (r: i32)
    requires
        mem.wf(),
        has_cstr_at(mem@, a),
        has_cstr_at(mem@, b),
    ensures
        r == str_order(mem@, a, b, n as int, ignore_case),
{
    if n == 0 {
        return 0;
    }
    let ghost m = mem@;
    let ghost la = cstr_len(m, a as int);
    let ghost lb = cstr_len(m, b as int);
    proof {
        lemma_cstr_len(m, a as int, la);
        lemma_cstr_len(m, b as int, lb);
        mem.lemma_wf();
    }
    let mut o: u32 = 0;
    loop
        invariant
            mem.wf(),
            m == mem@,
            is_cstr(m, a as int, la),
            is_cstr(m, b as int, lb),
            m.len() < 0xffff_ffff,
            0 < n,
            o < n,
            o <= la,
            o <= lb,
            forall|i: int| #![trigger m[a + i]] 0 <= i < o ==>
                folded(m[a + i], ignore_case) == folded(m[b + i], ignore_case) && m[a + i] != 0,
        decreases n - o,
    {
        let ca0 = mem.read_u8(a + o);
        let cb0 = mem.read_u8(b + o);
        let ca = if ignore_case { to_ascii_lower(ca0) } else { ca0 };
        let cb = if ignore_case { to_ascii_lower(cb0) } else { cb0 };
        if ca != cb || ca == 0 || o == n - 1 {
            proof {
                assert(stops_at(m, a as int, b as int, n as int, ignore_case, o as int));
                let k = choose|k: int| stops_at(m, a as int, b as int, n as int, ignore_case, k);
                lemma_stops_unique(m, a as int, b as int, n as int, ignore_case, o as int, k);
            }
            if ca < cb {
                return -1;
            } else if ca > cb {
                return 1;
            } else {
                return 0;
            }
        }
        proof {
            assert(m[a + o] != 0);
            assert(m[b + o] != 0);
        }
        o = o + 1;
    }
}

/// `k` is the first of the `n` positions at which the bytes at `a` and
/// at `b` differ.
pub open spec fn first_diff(m: Seq<u8>, a: int, b: int, n: int, k: int) -> bool {
    &&& 0 <= k < n
    &&& m[a + k] != m[b + k]
    &&& forall|i: int| #![trigger m[a + i]] 0 <= i < k ==> m[a + i] == m[b + i]
}

/// Order of the `n` bytes at `a` and at `b`: -1, 0 or 1 after the first
/// byte that differs.
pub open spec fn mem_order(m: Seq<u8>, a: u32, b: u32, n: u32) -> i32 {
    if m.subrange(a as int, a + n) == m.subrange(b as int, b + n) {
        0
    } else {
        let k = choose|k: int| first_diff(m, a as int, b as int, n as int, k);
        sign(m[a + k] - m[b + k])
    }
}

/// After `n` bytes are copied from `src` to a region that does not overlap
/// it, comparing the two regions finds them equal.
pub proof fn law_copied_bytes_compare_equal(m: Seq<u8>, dest: u32, src: u32, n: u32)
    requires
        dest + n <= m.len(),
        src + n <= m.len(),
        dest + n <= src || src + n <= dest,
    ensures
        mem_order(written(m, dest as int, m.subrange(src as int, src + n)), dest, src, n) == 0,
{
    let m2 = written(m, dest as int, m.subrange(src as int, src + n));
    assert(m2.subrange(dest as int, dest + n) =~= m2.subrange(src as int, src + n));
}

/// Compares `n` bytes at `a` and `b`.
pub fn compare_bytes(mem: &Mem, a: u32, b: u32, n: u32) -> (r: i32)
    requires
        mem.wf(),
        a + n <= mem@.len(),
        b + n <= mem@.len(),
    ensures
        r == mem_order(mem@, a, b, n),
{
    let ghost m = mem@;
    proof { mem.lemma_wf(); }
    let mut i: u32 = 0;
    while i < n
        invariant
            mem.wf(),
            m == mem@,
            m.len() < 0xffff_ffff,
            a + n <= m.len(),
            b + n <= m.len(),
            i <= n,
            forall|j: int| #![trigger m[a + j]] 0 <= j < i ==> m[a + j] == m[b + j],
        decreases n - i,
    {
        let x = mem.read_u8(a + i);
        let y = mem.read_u8(b + i);
        if x != y {
            proof {
                assert(m.subrange(a as int, a + n)[i as int] != m.subrange(b as int, b + n)[i as int]);
                assert(first_diff(m, a as int, b as int, n as int, i as int));
                let k = choose|k: int| first_diff(m, a as int, b as int, n as int, k);
                assert(k == i) by {
                    if k < i { assert(m[a + k] == m[b + k]); }
                    if i < k { assert(m[a + i] == m[b + i]); }
                }
            }
            if x < y {
                return -1;
            } else {
                return 1;
            }
        }
        i = i + 1;
    }
    assert forall|j: int| 0 <= j < n implies #[trigger] m.subrange(a as int, a + n)[j]
        == m.subrange(b as int, b + n)[j] by {
        assert(m[a + j] == m[b + j]);
    }
    assert(m.subrange(a as int, a + n) =~= m.subrange(b as int, b + n));
    0
}

/// `strlen`: length of the string at `s`.
pub fn strlen(env: &Environment, s: u32) -> (n: u32)
    requires
        env.wf(),
        has_cstr_at(env.mem@, s),
    ensures
        n == cstr_len_at(env.mem@, s),
        is_cstr(env.mem@, s as int, n as int),
{
    env.mem.strlen(s)
}

/// `strcmp`: -1, 0 or 1 as the string at `a` sorts before, equal to or
/// after the string at `b`, comparing bytes as unsigned.
pub fn strcmp(env: &Environment, a: u32, b: u32) -> (r: i32)
    requires
        env.wf(),
        has_cstr_at(env.mem@, a),
        has_cstr_at(env.mem@, b),
    ensures
        r == str_order_all(env.mem@, a, b, false),
{
    let n = env.mem.len();
    compare_strings(&env.mem, a, b, n, false)
}

/// `strncmp`: like `strcmp`, looking at no more than `n` bytes.
pub fn strncmp(env: &Environment, a: u32, b: u32, n: u32) -> (r: i32)
    requires
        env.wf(),
        has_cstr_at(env.mem@, a),
        has_cstr_at(env.mem@, b),
    ensures
        r == str_order_n(env.mem@, a, b, n, false),
{
    compare_strings(&env.mem, a, b, n, false)
}

/// `strcasecmp`: like `strcmp`, ignoring ASCII case.
pub fn strcasecmp(env: &Environment, a: u32, b: u32) -> (r: i32)
    requires
        env.wf(),
        has_cstr_at(env.mem@, a),
        has_cstr_at(env.mem@, b),
    ensures
        r == str_order_all(env.mem@, a, b, true),
{
    let n = env.mem.len();
    compare_strings(&env.mem, a, b, n, true)
}

/// `strncasecmp`: like `strncmp`, ignoring ASCII case.
pub fn strncasecmp(env: &Environment, a: u32, b: u32, n: u32) -> (r: i32)
    requires
        env.wf(),
        has_cstr_at(env.mem@, a),
        has_cstr_at(env.mem@, b),
    ensures
        r == str_order_n(env.mem@, a, b, n, true),
{
    compare_strings(&env.mem, a, b, n, true)
}

/// `memcmp`: -1, 0 or 1 after the first of `size` bytes at `a` and `b`
/// that differ.
pub fn memcmp(env: &Environment, a: u32, b: u32, size: u32) -> (r: i32)
    requires
        env.wf(),
        a + size <= env.mem@.len(),
        b + size <= env.mem@.len(),
    ensures
        r == mem_order(env.mem@, a, b, size),
{
    compare_bytes(&env.mem, a, b, size)
}


/// The first `k` bytes of `s` all lie in `set` (when `inside`) or all lie
/// outside it, and the byte at `k`, if there is one, does not.
pub open spec fn run(s: Seq<u8>, set: Seq<u8>, inside: bool, k: int) -> bool {
    &&& 0 <= k <= s.len()
    &&& forall|i: int| 0 <= i < k ==> set.contains(#[trigger] s[i]) == inside
    &&& k < s.len() ==> set.contains(s[k]) != inside
}

/// Length of the longest prefix of `s` in (or out of) `set`.
pub open spec fn run_len(s: Seq<u8>, set: Seq<u8>, inside: bool) -> int {
    choose|k: int| run(s, set, inside, k)
}

/// The run has one length only, and [run_len] is it.
pub proof fn lemma_run_len(s: Seq<u8>, set: Seq<u8>, inside: bool, k: int)
    requires
        run(s, set, inside, k),
    ensures
        run_len(s, set, inside) == k,
{
    let j = run_len(s, set, inside);
    assert(run(s, set, inside, j));
    if j < k {
        assert(set.contains(s[j]) == inside);
    } else if k < j {
        assert(set.contains(s[k]) == inside);
    }
}

/// Whether `c` occurs in `set`.
pub fn contains_byte(set: &[u8], c: u8) -> (r: bool)
    ensures
        r == set@.contains(c),
{
    let mut i: usize = 0;
    while i < set.len()
        invariant
            i <= set@.len(),
            forall|j: int| 0 <= j < i ==> set@[j] != c,
        decreases set@.len() - i,
    {
        if set[i] == c {
            return true;
        }
        i = i + 1;
    }
    false
}

/// Length of the run of bytes of `s`, from `start` on, that lie in (or
/// outside) `set`.
pub fn run_length_from(s: &[u8], start: usize, set: &[u8], inside: bool) -> (k: usize)
    requires
        start <= s@.len(),
    ensures
        start + k <= s@.len(),
        run(s@.skip(start as int), set@, inside, k as int),
        run_len(s@.skip(start as int), set@, inside) == k,
{
    let ghost t = s@.skip(start as int);
    let mut i: usize = start;
    while i < s.len() && contains_byte(set, s[i]) == inside
        invariant
            start <= i <= s@.len(),
            t == s@.skip(start as int),
            forall|j: int| 0 <= j < i - start ==> set@.contains(#[trigger] t[j]) == inside,
        decreases s@.len() - i,
    {
        assert(t[i - start] == s@[i as int]);
        i = i + 1;
    }
    proof {
        if i < s@.len() {
            assert(t[i - start] == s@[i as int]);
        }
        lemma_run_len(t, set@, inside, (i - start) as int);
    }
    i - start
}

/// `strspn`: length of the leading part of the string at `s` made of
/// bytes of the string at `accept`.
pub fn strspn(env: &Environment, s: u32, accept: u32) -> (n: u32)
    requires
        env.wf(),
        has_cstr_at(env.mem@, s),
        has_cstr_at(env.mem@, accept),
    ensures
        n == run_len(cstr_at(env.mem@, s), cstr_at(env.mem@, accept), true),
{
    let str = env.mem.cstr_at(s);
    let set = env.mem.cstr_at(accept);
    proof { lemma_cstr_len(env.mem@, s as int, str@.len() as int); env.mem.lemma_wf(); }
    let k = run_length_from(str.as_slice(), 0, set.as_slice(), true);
    assert(str@.skip(0) =~= str@);
    k as u32
}

/// `strcspn`: length of the leading part of the string at `s` made of
/// bytes not in the string at `charset`.
pub fn strcspn(env: &Environment, s: u32, charset: u32) -> (n: u32)
    requires
        env.wf(),
        has_cstr_at(env.mem@, s),
        has_cstr_at(env.mem@, charset),
    ensures
        n == run_len(cstr_at(env.mem@, s), cstr_at(env.mem@, charset), false),
{
    let str = env.mem.cstr_at(s);
    let set = env.mem.cstr_at(charset);
    proof { lemma_cstr_len(env.mem@, s as int, str@.len() as int); env.mem.lemma_wf(); }
    let k = run_length_from(str.as_slice(), 0, set.as_slice(), false);
    assert(str@.skip(0) =~= str@);
    k as u32
}

/// `strpbrk`: the first byte of the string at `s` that occurs in the
/// string at `accept`, or null.
pub fn strpbrk(env: &Environment, s: u32, accept: u32) -> (r: u32)
    requires
        env.wf(),
        has_cstr_at(env.mem@, s),
        has_cstr_at(env.mem@, accept),
    ensures
        ({
            let k = run_len(cstr_at(env.mem@, s), cstr_at(env.mem@, accept), false);
            r == if k == cstr_len_at(env.mem@, s) { 0 } else { s + k }
        }),
{
    let str = env.mem.cstr_at(s);
    let set = env.mem.cstr_at(accept);
    proof { lemma_cstr_len(env.mem@, s as int, str@.len() as int); env.mem.lemma_wf(); }
    let k = run_length_from(str.as_slice(), 0, set.as_slice(), false);
    assert(str@.skip(0) =~= str@);
    if k == str.len() {
        0
    } else {
        s + k as u32
    }
}

/// Where a token search over the bytes `str` with separators `set` puts
/// the token: it starts after the leading separators ...
pub open spec fn token_start(str: Seq<u8>, set: Seq<u8>) -> int {
    run_len(str, set, true)
}

/// ... and runs up to the next separator or the end.
pub open spec fn token_len(str: Seq<u8>, set: Seq<u8>) -> int {
    run_len(str.skip(token_start(str, set)), set, false)
}

/// Finds the token in the string at `p`: its offset from `p` and its
/// length, as [token_start] and [token_len] say.
fn find_token(mem: &Mem, p: u32, sep: u32) -> (res: (u32, u32, u32))
    requires
        mem.wf(),
        has_cstr_at(mem@, p),
        has_cstr_at(mem@, sep),
    ensures
        res.0 == token_start(cstr_at(mem@, p), cstr_at(mem@, sep)),
        res.0 < cstr_len_at(mem@, p) ==> res.1 == token_len(cstr_at(mem@, p), cstr_at(mem@, sep)),
        res.2 == cstr_len_at(mem@, p),
        res.0 <= cstr_len_at(mem@, p),
        res.0 + res.1 <= cstr_len_at(mem@, p),
        p + cstr_len_at(mem@, p) < mem@.len(),
        is_cstr(mem@, p as int, cstr_len_at(mem@, p)),
{
    let str = mem.cstr_at(p);
    let set = mem.cstr_at(sep);
    proof { lemma_cstr_len(mem@, p as int, str@.len() as int); mem.lemma_wf(); }
    let lead = run_length_from(str.as_slice(), 0, set.as_slice(), true);
    assert(str@.skip(0) =~= str@);
    if lead == str.len() {
        return (lead as u32, 0, lead as u32);
    }
    let tl = run_length_from(str.as_slice(), lead, set.as_slice(), false);
    (lead as u32, tl as u32, str.len() as u32)
}

/// `strtok`: splits the string at `s` (or, when `s` is null, the rest of
/// the string of the previous call) into tokens separated by bytes of the
/// string at `sep`. The token found is NUL-terminated in place and
/// returned; null when none is left, and again on every later call with
/// a null `s`.
pub fn strtok(env: &mut Environment, s: u32, sep: u32) -> (r: u32)
    requires
        old(env).wf(),
        ({
            let p = if s != 0 { s } else if old(env).libc_state.string.strtok is Some {
                old(env).libc_state.string.strtok->0
            } else {
                0
            };
            p != 0 ==> has_cstr_at(old(env).mem@, p) && has_cstr_at(old(env).mem@, sep)
        }),
    ensures
        final(env).wf(),
        others_unchanged(old(env), final(env)),
        final(env).mem.heap_top() == old(env).mem.heap_top(),
        final(env).errno == old(env).errno,
        ({
            let m = old(env).mem@;
            let p = if s != 0 { s } else if old(env).libc_state.string.strtok is Some {
                old(env).libc_state.string.strtok->0
            } else {
                0
            };
            let str = cstr_at(m, p);
            let set = cstr_at(m, sep);
            let lead = token_start(str, set);
            let tl = token_len(str, set);
            if p == 0 || lead == str.len() {
                &&& r == 0
                &&& final(env).libc_state.string.strtok is None
                &&& final(env).mem@ == m
            } else if lead + tl < str.len() {
                &&& r == p + lead
                &&& final(env).mem@ == m.update(p + lead + tl, 0u8)
                &&& final(env).libc_state.string.strtok == Some((p + lead + tl + 1) as u32)
            } else {
                &&& r == p + lead
                &&& final(env).mem@ == m
                &&& final(env).libc_state.string.strtok == Some(0u32)
            }
        }),
{
    proof { env.mem.lemma_wf(); }
    let p = if s == 0 {
        let state = match env.libc_state.string.strtok {
            Some(resume) => resume,
            None => 0,
        };
        if state == 0 {
            env.libc_state.string.strtok = None;
            return 0;
        }
        state
    } else {
        s
    };
    let (lead, tl, len) = find_token(&env.mem, p, sep);
    if lead == len {
        env.libc_state.string.strtok = None;
        return 0;
    }
    let end = p + lead + tl;
    if lead + tl == len {
        env.libc_state.string.strtok = Some(0);
    } else {
        env.mem.write_u8(end, 0);
        env.libc_state.string.strtok = Some(end + 1);
    }
    p + lead
}

/// `strtok_r`: like `strtok`, with the resume point kept in guest memory
/// at `saveptr` instead of in hidden state.
pub fn strtok_r(env: &mut Environment, s: u32, sep: u32, saveptr: u32) -> (r: u32)
    requires
        old(env).wf(),
        s == 0 ==> saveptr + 4 <= old(env).mem@.len(),
        ({
            let m = old(env).mem@;
            let p = if s == 0 { spec_read_u32(m, saveptr as int) } else { s as int };
            p != 0 ==> has_cstr(m, p) && has_cstr_at(m, sep) && saveptr + 4 <= m.len()
        }),
    ensures
        final(env).wf(),
        others_unchanged(old(env), final(env)),
        final(env).mem.heap_top() == old(env).mem.heap_top(),
        final(env).errno == old(env).errno,
        final(env).libc_state == old(env).libc_state,
        ({
            let m = old(env).mem@;
            let p = if s == 0 { spec_read_u32(m, saveptr as int) } else { s as int };
            let str = cstr(m, p);
            let set = cstr_at(m, sep);
            let lead = token_start(str, set);
            let tl = token_len(str, set);
            if p == 0 {
                &&& r == 0
                &&& final(env).mem@ == m
            } else if lead == str.len() {
                &&& r == 0
                &&& wrote_u32(m, final(env).mem@, saveptr as int, 0)
            } else if lead + tl < str.len() {
                &&& r == p + lead
                &&& wrote_u32(m.update(p + lead + tl, 0u8), final(env).mem@, saveptr as int, p + lead + tl + 1)
            } else {
                &&& r == p + lead
                &&& wrote_u32(m, final(env).mem@, saveptr as int, 0)
            }
        }),
{
    proof { env.mem.lemma_wf(); }
    let p = if s == 0 { env.mem.read_u32(saveptr) } else { s };
    if p == 0 {
        return 0;
    }
    let (lead, tl, len) = find_token(&env.mem, p, sep);
    if lead == len {
        env.mem.write_u32(saveptr, 0);
        return 0;
    }
    let end = p + lead + tl;
    if lead + tl == len {
        env.mem.write_u32(saveptr, 0);
    } else {
        env.mem.write_u8(end, 0);
        env.mem.write_u32(saveptr, end + 1);
    }
    p + lead
}

/// `strsep`: takes the token at the front of the string pointed to by the
/// pointer at `stringp`, ending at the first byte of the string at `delim`.
/// The delimiter is overwritten with NUL and `*stringp` moves past it (or
/// becomes null at the end of the string). Returns the old `*stringp`.
pub fn strsep(env: &mut Environment, stringp: u32, delim: u32) -> (r: u32)
    requires
        old(env).wf(),
        stringp + 4 <= old(env).mem@.len(),
        ({
            let m = old(env).mem@;
            let p = spec_read_u32(m, stringp as int);
            p != 0 ==> has_cstr(m, p) && has_cstr_at(m, delim)
        }),
    ensures
        final(env).wf(),
        others_unchanged(old(env), final(env)),
        final(env).mem.heap_top() == old(env).mem.heap_top(),
        final(env).errno == old(env).errno,
        final(env).libc_state == old(env).libc_state,
        ({
            let m = old(env).mem@;
            let p = spec_read_u32(m, stringp as int);
            let str = cstr(m, p);
            let k = run_len(str, cstr_at(m, delim), false);
            &&& r == p
            &&& p == 0 ==> final(env).mem@ == m
            &&& p != 0 && k == str.len() ==> wrote_u32(m, final(env).mem@, stringp as int, 0)
            &&& p != 0 && k < str.len() ==> wrote_u32(m.update(p + k, 0u8), final(env).mem@,
                stringp as int, p + k + 1)
        }),
{
    let p = env.mem.read_u32(stringp);
    if p == 0 {
        return 0;
    }
    let str = env.mem.cstr_at(p);
    let set = env.mem.cstr_at(delim);
    proof { lemma_cstr_len(env.mem@, p as int, str@.len() as int); env.mem.lemma_wf(); }
    let k = run_length_from(str.as_slice(), 0, set.as_slice(), false);
    assert(str@.skip(0) =~= str@);
    if k == str.len() {
        env.mem.write_u32(stringp, 0);
    } else {
        env.mem.write_u8(p + k as u32, 0);
        env.mem.write_u32(stringp, p + k as u32 + 1);
    }
    p
}


/// `k` is the first of the `n` bytes at `a` equal to `c`.
pub open spec fn first_byte(m: Seq<u8>, a: int, n: int, c: u8, k: int) -> bool {
    &&& 0 <= k < n
    &&& m[a + k] == c
    &&& forall|i: int| #![trigger m[a + i]] 0 <= i < k ==> m[a + i] != c
}

/// `k` is the last of the `n` bytes at `a` equal to `c`.
pub open spec fn last_byte(m: Seq<u8>, a: int, n: int, c: u8, k: int) -> bool {
    &&& 0 <= k < n
    &&& m[a + k] == c
    &&& forall|i: int| #![trigger m[a + i]] k < i < n ==> m[a + i] != c
}

/// Address of the first of the `n` bytes at `a` equal to `c`, or 0.
pub open spec fn find_first(m: Seq<u8>, a: u32, n: u32, c: u8) -> u32 {
    if exists|k: int| #[trigger] first_byte(m, a as int, n as int, c, k) {
        (a + choose|k: int| first_byte(m, a as int, n as int, c, k)) as u32
    } else {
        0
    }
}

/// Address of the last of the `n` bytes at `a` equal to `c`, or 0.
pub open spec fn find_last(m: Seq<u8>, a: u32, n: u32, c: u8) -> u32 {
    if exists|k: int| #[trigger] last_byte(m, a as int, n as int, c, k) {
        (a + choose|k: int| last_byte(m, a as int, n as int, c, k)) as u32
    } else {
        0
    }
}

/// Searches `n` bytes at `a` forwards for `c`.
fn scan_forward(mem: &Mem, a: u32, n: u32, c: u8) -> (r: u32)
    requires
        mem.wf(),
        a + n <= mem@.len(),
    ensures
        r == find_first(mem@, a, n, c),
{
    let ghost m = mem@;
    proof { mem.lemma_wf(); }
    let mut i: u32 = 0;
    while i < n
        invariant
            mem.wf(),
            m == mem@,
            a + n <= m.len() < 0xffff_ffff,
            i <= n,
            forall|j: int| #![trigger m[a + j]] 0 <= j < i ==> m[a + j] != c,
        decreases n - i,
    {
        if mem.read_u8(a + i) == c {
            proof {
                assert(first_byte(m, a as int, n as int, c, i as int));
                let k = choose|k: int| first_byte(m, a as int, n as int, c, k);
                assert(k == i) by {
                    if k < i { assert(m[a + k] != c); }
                    if i < k { assert(m[a + i] != c); }
                }
            }
            return a + i;
        }
        i = i + 1;
    }
    assert(!exists|k: int| #[trigger] first_byte(m, a as int, n as int, c, k)) by {
        if exists|k: int| #[trigger] first_byte(m, a as int, n as int, c, k) {
            let k = choose|k: int| first_byte(m, a as int, n as int, c, k);
            assert(m[a + k] != c);
        }
    }
    0
}

/// Searches `n` bytes at `a` backwards for `c`.
fn scan_backward(mem: &Mem, a: u32, n: u32, c: u8) -> (r: u32)
    requires
        mem.wf(),
        a + n <= mem@.len(),
    ensures
        r == find_last(mem@, a, n, c),
{
    let ghost m = mem@;
    proof { mem.lemma_wf(); }
    let mut i: u32 = n;
    while i > 0
        invariant
            mem.wf(),
            m == mem@,
            a + n <= m.len() < 0xffff_ffff,
            i <= n,
            forall|j: int| #![trigger m[a + j]] i <= j < n ==> m[a + j] != c,
        decreases i,
    {
        i = i - 1;
        if mem.read_u8(a + i) == c {
            proof {
                assert(last_byte(m, a as int, n as int, c, i as int));
                let k = choose|k: int| last_byte(m, a as int, n as int, c, k);
                assert(k == i) by {
                    if k < i { assert(m[a + i] != c); }
                    if i < k { assert(m[a + k] != c); }
                }
            }
            return a + i;
        }
    }
    assert(!exists|k: int| #[trigger] last_byte(m, a as int, n as int, c, k)) by {
        if exists|k: int| #[trigger] last_byte(m, a as int, n as int, c, k) {
            let k = choose|k: int| last_byte(m, a as int, n as int, c, k);
            assert(m[a + k] != c);
        }
    }
    0
}

/// `memchr`: the first of `size` bytes at `s` equal to `c` (as a byte),
/// or null.
pub fn memchr(env: &Environment, s: u32, c: i32, size: GuestUSize) -> (r: u32)
    requires
        env.wf(),
        s + size <= env.mem@.len(),
    ensures
        r == find_first(env.mem@, s, size, c as u8),
{
    scan_forward(&env.mem, s, size, c as u8)
}

/// `memrchr`: the last of `n` bytes at `s` equal to `c` (as a byte), or
/// null.
pub fn memrchr(env: &Environment, s: u32, c: i32, n: GuestUSize) -> (r: u32)
    requires
        env.wf(),
        s + n <= env.mem@.len(),
    ensures
        r == find_last(env.mem@, s, n, c as u8),
{
    scan_backward(&env.mem, s, n, c as u8)
}

/// Memory after copying `k` bytes from `src` to `dest` one at a time, each
/// read after the previous one was written.
pub open spec fn copy_steps(m: Seq<u8>, dest: int, src: int, k: nat) -> Seq<u8>
    decreases k,
{
    if k == 0 {
        m
    } else {
        let prev = copy_steps(m, dest, src, (k - 1) as nat);
        prev.update(dest + k - 1, prev[src + k - 1])
    }
}

/// Copying bytes one at a time keeps the length of memory.
pub proof fn lemma_copy_steps_len(m: Seq<u8>, dest: int, src: int, k: nat)
    requires
        0 <= dest,
        dest + k <= m.len(),
    ensures
        copy_steps(m, dest, src, k).len() == m.len(),
    decreases k,
{
    if k > 0 {
        lemma_copy_steps_len(m, dest, src, (k - 1) as nat);
    }
}

/// `k` is the first step of a byte-by-byte copy that copies `c`.
pub open spec fn copies_at(m: Seq<u8>, dest: int, src: int, n: int, c: u8, k: int) -> bool {
    &&& 0 <= k < n
    &&& copy_steps(m, dest, src, k as nat)[src + k] == c
    &&& forall|i: int| 0 <= i < k ==> #[trigger] copy_steps(m, dest, src, i as nat)[src + i] != c
}

/// `memccpy`: copies bytes from `src` to `dest`, one at a time, until the
/// byte `c` has been copied or `n` bytes have; returns the address after
/// the copy of `c` in `dest`, or null when `c` was not met.
pub fn memccpy(env: &mut Environment, dest: u32, src: u32, c: i32, n: GuestUSize) -> (r: u32)
    requires
        old(env).wf(),
        dest + n <= old(env).mem@.len(),
        src + n <= old(env).mem@.len(),
    ensures
        final(env).wf(),
        others_unchanged(old(env), final(env)),
        final(env).mem.heap_top() == old(env).mem.heap_top(),
        final(env).errno == old(env).errno,
        final(env).libc_state == old(env).libc_state,
        ({
            let m = old(env).mem@;
            if exists|k: int| #[trigger] copies_at(m, dest as int, src as int, n as int, c as u8, k) {
                let k = choose|k: int| #[trigger] copies_at(m, dest as int, src as int, n as int, c as u8, k);
                &&& r == dest + k + 1
                &&& final(env).mem@ == copy_steps(m, dest as int, src as int, (k + 1) as nat)
            } else {
                &&& r == 0
                &&& final(env).mem@ == copy_steps(m, dest as int, src as int, n as nat)
            }
        }),
{
    let ghost m = env.mem@;
    proof { env.mem.lemma_wf(); }
    let b = c as u8;
    let mut i: u32 = 0;
    while i < n
        invariant
            env.wf(),
            env.mem.heap_top() == old(env).mem.heap_top(),
            env.errno == old(env).errno,
            env.libc_state == old(env).libc_state,
            others_unchanged(old(env), env),
            m == old(env).mem@,
            b == c as u8,
            dest + n <= m.len() < 0xffff_ffff,
            src + n <= m.len(),
            i <= n,
            env.mem@ == copy_steps(m, dest as int, src as int, i as nat),
            forall|j: int| 0 <= j < i ==> #[trigger] copy_steps(m, dest as int, src as int, j as nat)[src + j] != b,
        decreases n - i,
    {
        proof { lemma_copy_steps_len(m, dest as int, src as int, i as nat); }
        let byte = env.mem.read_u8(src + i);
        env.mem.write_u8(dest + i, byte);
        if byte == b {
            proof {
                assert(copies_at(m, dest as int, src as int, n as int, b, i as int));
                let k = choose|k: int| #[trigger] copies_at(m, dest as int, src as int, n as int, b, k);
                assert(k == i) by {
                    if k < i { assert(copy_steps(m, dest as int, src as int, k as nat)[src + k] != b); }
                    if i < k { assert(copy_steps(m, dest as int, src as int, i as nat)[src + i] != b); }
                }
            }
            return dest + i + 1;
        }
        i = i + 1;
    }
    assert(!exists|k: int| #[trigger] copies_at(m, dest as int, src as int, n as int, b, k)) by {
        if exists|k: int| #[trigger] copies_at(m, dest as int, src as int, n as int, b, k) {
            let k = choose|k: int| #[trigger] copies_at(m, dest as int, src as int, n as int, b, k);
            assert(copy_steps(m, dest as int, src as int, k as nat)[src + k] != b);
        }
    }
    0
}

/// Memory-level `memset` with a limit: the `count` bytes at `dest` become
/// `ch`; `count` may not exceed the destination size `dest_count`.
fn memset_checked(env: &mut Environment, dest: u32, ch: u8, count: u32, dest_count: u32) -> (r: u32)
    requires
        old(env).wf(),
        dest + count <= old(env).mem@.len(),
        count <= dest_count,
    ensures
        final(env).wf(),
        others_unchanged(old(env), final(env)),
        final(env).mem.heap_top() == old(env).mem.heap_top(),
        final(env).errno == old(env).errno,
        final(env).libc_state == old(env).libc_state,
        final(env).mem@ == filled(old(env).mem@, dest as int, count as int, ch),
        r == dest,
{
    env.mem.fill(dest, count, ch);
    dest
}

/// `memset`: sets `count` bytes at `dest` to `ch` (as a byte); returns
/// `dest`.
pub fn memset(env: &mut Environment, dest: u32, ch: i32, count: GuestUSize) -> (r: u32)
    requires
        old(env).wf(),
        dest + count <= old(env).mem@.len(),
    ensures
        final(env).wf(),
        others_unchanged(old(env), final(env)),
        final(env).mem.heap_top() == old(env).mem.heap_top(),
        final(env).errno == old(env).errno,
        final(env).libc_state == old(env).libc_state,
        final(env).mem@ == filled(old(env).mem@, dest as int, count as int, ch as u8),
        r == dest,
{
    memset_checked(env, dest, ch as u8, count, GuestUSize::MAX)
}

/// `__memset_chk`: `memset` that the caller promises fits `dest_count`
/// bytes; a larger `count` would abort.
pub fn __memset_chk(env: &mut Environment, dest: u32, ch: i32, count: GuestUSize, dest_count: GuestUSize) -> (r: u32)
    requires
        old(env).wf(),
        dest + count <= old(env).mem@.len(),
        count <= dest_count,
    ensures
        final(env).wf(),
        others_unchanged(old(env), final(env)),
        final(env).mem.heap_top() == old(env).mem.heap_top(),
        final(env).errno == old(env).errno,
        final(env).libc_state == old(env).libc_state,
        final(env).mem@ == filled(old(env).mem@, dest as int, count as int, ch as u8),
        r == dest,
{
    memset_checked(env, dest, ch as u8, count, dest_count)
}

/// `bzero`: zeroes `count` bytes at `dest`.
pub fn bzero(env: &mut Environment, dest: u32, count: GuestUSize)
    requires
        old(env).wf(),
        dest + count <= old(env).mem@.len(),
    ensures
        final(env).wf(),
        others_unchanged(old(env), final(env)),
        final(env).mem.heap_top() == old(env).mem.heap_top(),
        final(env).errno == old(env).errno,
        final(env).libc_state == old(env).libc_state,
        final(env).mem@ == filled(old(env).mem@, dest as int, count as int, 0),
{
    memset(env, dest, 0, count);
}

/// `explicit_bzero`: zeroes `n` bytes at `s`, byte by byte.
pub fn explicit_bzero(env: &mut Environment, s: u32, n: GuestUSize)
    requires
        old(env).wf(),
        s + n <= old(env).mem@.len(),
    ensures
        final(env).wf(),
        others_unchanged(old(env), final(env)),
        final(env).mem.heap_top() == old(env).mem.heap_top(),
        final(env).errno == old(env).errno,
        final(env).libc_state == old(env).libc_state,
        final(env).mem@ == filled(old(env).mem@, s as int, n as int, 0),
{
    let ghost m = env.mem@;
    proof { env.mem.lemma_wf(); }
    let mut p: u32 = s;
    let mut i: u32 = 0;
    while i < n
        invariant
            env.wf(),
            env.mem.heap_top() == old(env).mem.heap_top(),
            env.errno == old(env).errno,
            env.libc_state == old(env).libc_state,
            others_unchanged(old(env), env),
            m == old(env).mem@,
            s + n <= m.len() < 0xffff_ffff,
            i <= n,
            p == s + i,
            env.mem@.len() == m.len(),
            forall|k: int| s <= k < s + i ==> #[trigger] env.mem@[k] == 0,
            forall|k: int| 0 <= k < m.len() && !(s <= k < s + i) ==> #[trigger] env.mem@[k] == m[k],
        decreases n - i,
    {
        env.mem.write_u8(p, 0);
        p = p + 1;
        i = i + 1;
    }
    assert(env.mem@ =~= filled(m, s as int, n as int, 0));
}

/// Memory-level `memmove` with a limit: the `size` bytes at `src`, as they
/// were before the call, end up at `dest`; `size` may not exceed the
/// destination size `dest_size`.
fn memmove_checked(env: &mut Environment, dest: u32, src: u32, size: u32, dest_size: u32) -> (r: u32)
    requires
        old(env).wf(),
        dest + size <= old(env).mem@.len(),
        src + size <= old(env).mem@.len(),
        size <= dest_size,
    ensures
        final(env).wf(),
        others_unchanged(old(env), final(env)),
        final(env).mem.heap_top() == old(env).mem.heap_top(),
        final(env).errno == old(env).errno,
        final(env).libc_state == old(env).libc_state,
        final(env).mem@ == written(old(env).mem@, dest as int,
            old(env).mem@.subrange(src as int, src + size)),
        r == dest,
{
    let data = env.mem.read_bytes(src, size);
    env.mem.write_bytes(dest, data.as_slice());
    dest
}

/// `memcpy`: copies `size` bytes from `src` to `dest`; returns `dest`.
/// Overlapping ranges are copied as if through a buffer.
pub fn memcpy(env: &mut Environment, dest: u32, src: u32, size: GuestUSize) -> (r: u32)
    requires
        old(env).wf(),
        dest + size <= old(env).mem@.len(),
        src + size <= old(env).mem@.len(),
    ensures
        final(env).wf(),
        others_unchanged(old(env), final(env)),
        final(env).mem.heap_top() == old(env).mem.heap_top(),
        final(env).errno == old(env).errno,
        final(env).libc_state == old(env).libc_state,
        final(env).mem@ == written(old(env).mem@, dest as int,
            old(env).mem@.subrange(src as int, src + size)),
        r == dest,
{
    memmove_checked(env, dest, src, size, GuestUSize::MAX)
}

/// `__memcpy_chk`: `memcpy` that the caller promises fits `dest_size`.
pub fn __memcpy_chk(env: &mut Environment, dest: u32, src: u32, size: GuestUSize, dest_size: GuestUSize) -> (r: u32)
    requires
        old(env).wf(),
        dest + size <= old(env).mem@.len(),
        src + size <= old(env).mem@.len(),
        size <= dest_size,
    ensures
        final(env).wf(),
        others_unchanged(old(env), final(env)),
        final(env).mem.heap_top() == old(env).mem.heap_top(),
        final(env).errno == old(env).errno,
        final(env).libc_state == old(env).libc_state,
        final(env).mem@ == written(old(env).mem@, dest as int,
            old(env).mem@.subrange(src as int, src + size)),
        r == dest,
{
    memmove_checked(env, dest, src, size, dest_size)
}

/// `memmove`: copies `size` bytes from `src` to `dest`, correctly for
/// overlapping ranges; returns `dest`.
pub fn memmove(env: &mut Environment, dest: u32, src: u32, size: GuestUSize) -> (r: u32)
    requires
        old(env).wf(),
        dest + size <= old(env).mem@.len(),
        src + size <= old(env).mem@.len(),
    ensures
        final(env).wf(),
        others_unchanged(old(env), final(env)),
        final(env).mem.heap_top() == old(env).mem.heap_top(),
        final(env).errno == old(env).errno,
        final(env).libc_state == old(env).libc_state,
        final(env).mem@ == written(old(env).mem@, dest as int,
            old(env).mem@.subrange(src as int, src + size)),
        r == dest,
{
    memmove_checked(env, dest, src, size, GuestUSize::MAX)
}

/// `__memmove_chk`: `memmove` that the caller promises fits `dest_size`.
pub fn __memmove_chk(env: &mut Environment, dest: u32, src: u32, size: GuestUSize, dest_size: GuestUSize) -> (r: u32)
    requires
        old(env).wf(),
        dest + size <= old(env).mem@.len(),
        src + size <= old(env).mem@.len(),
        size <= dest_size,
    ensures
        final(env).wf(),
        others_unchanged(old(env), final(env)),
        final(env).mem.heap_top() == old(env).mem.heap_top(),
        final(env).errno == old(env).errno,
        final(env).libc_state == old(env).libc_state,
        final(env).mem@ == written(old(env).mem@, dest as int,
            old(env).mem@.subrange(src as int, src + size)),
        r == dest,
{
    memmove_checked(env, dest, src, size, dest_size)
}


/// The string at `p` has `k` bytes before a NUL, or `k` is `n` and the
/// first `n` bytes at `p` are all non-NUL.
pub open spec fn is_strn(m: Seq<u8>, p: int, n: int, k: int) -> bool {
    &&& 0 <= k <= n
    &&& 0 <= p
    &&& p + k <= m.len()
    &&& forall|i: int| p <= i < p + k ==> #[trigger] m[i] != 0
    &&& k < n ==> p + k < m.len() && m[p + k] == 0
}

/// The bytes at `p` can be read up to a NUL or up to `n` of them.
pub open spec fn has_strn(m: Seq<u8>, p: u32, n: u32) -> bool {
    exists|k: int| #[trigger] is_strn(m, p as int, n as int, k)
}

/// `strnlen`: the number of bytes at `p` before a NUL, at most `n`.
pub open spec fn strn_len(m: Seq<u8>, p: u32, n: u32) -> int {
    choose|k: int| #[trigger] is_strn(m, p as int, n as int, k)
}

/// Computes [strn_len].
fn bounded_strlen(mem: &Mem, p: u32, n: u32) -> (k: u32)
    requires
        mem.wf(),
        has_strn(mem@, p, n),
    ensures
        k == strn_len(mem@, p, n),
        is_strn(mem@, p as int, n as int, k as int),
{
    let ghost m = mem@;
    let ghost kk = strn_len(m, p, n);
    proof { mem.lemma_wf(); }
    let mut i: u32 = 0;
    while i < n && mem.read_u8(p + i) != 0
        invariant
            mem.wf(),
            m == mem@,
            m.len() < 0xffff_ffff,
            is_strn(m, p as int, n as int, kk),
            0 <= i <= kk,
            forall|j: int| p <= j < p + i ==> #[trigger] m[j] != 0,
        decreases n - i,
    {
        proof {
            if i == kk {
                assert(m[p + kk] == 0);
            }
        }
        i = i + 1;
    }
    proof {
        assert(is_strn(m, p as int, n as int, i as int));
        if i < kk {
            assert(m[p + i] != 0);
        }
    }
    i
}

/// Memory after `strncpy(dest, src, n)`: the string at `src`, cut at `n`
/// bytes, then NULs up to `n` bytes, written at `dest`.
pub open spec fn strncpy_result(m: Seq<u8>, dest: u32, src: u32, n: u32) -> Seq<u8> {
    let k = strn_len(m, src, n);
    written(m, dest as int, m.subrange(src as int, src + k) + Seq::new((n - k) as nat, |i: int| 0u8))
}

/// `strncpy`: copies the string at `src`, at most `n` bytes of it, to
/// `dest` and pads with NULs to `n` bytes; returns `dest`.
pub fn strncpy(env: &mut Environment, dest: u32, src: u32, size: GuestUSize) -> (r: u32)
    requires
        old(env).wf(),
        dest + size <= old(env).mem@.len(),
        has_strn(old(env).mem@, src, size),
    ensures
        final(env).wf(),
        others_unchanged(old(env), final(env)),
        final(env).mem.heap_top() == old(env).mem.heap_top(),
        final(env).errno == old(env).errno,
        final(env).libc_state == old(env).libc_state,
        final(env).mem@ == strncpy_result(old(env).mem@, dest, src, size),
        r == dest,
{
    let ghost m = env.mem@;
    let k = bounded_strlen(&env.mem, src, size);
    let mut data = env.mem.read_bytes(src, k);
    let mut i: u32 = k;
    while i < size
        invariant
            k <= i <= size,
            data@ == m.subrange(src as int, src + k) + Seq::new((i - k) as nat, |j: int| 0u8),
        decreases size - i,
    {
        data.push(0);
        i = i + 1;
        assert(data@ =~= m.subrange(src as int, src + k) + Seq::new((i - k) as nat, |j: int| 0u8));
    }
    env.mem.write_bytes(dest, data.as_slice());
    dest
}

/// `stpncpy`: `strncpy`, returning the address in `dest` after the copied
/// bytes: `dest` plus the length of the string at `src` (measured after
/// the copy), at most `n`.
pub fn stpncpy(env: &mut Environment, dest: u32, src: u32, n: GuestUSize) -> (r: u32)
    requires
        old(env).wf(),
        dest + n <= old(env).mem@.len(),
        has_strn(old(env).mem@, src, n),
        has_cstr_at(strncpy_result(old(env).mem@, dest, src, n), src),
    ensures
        final(env).wf(),
        others_unchanged(old(env), final(env)),
        final(env).mem.heap_top() == old(env).mem.heap_top(),
        final(env).errno == old(env).errno,
        final(env).libc_state == old(env).libc_state,
        final(env).mem@ == strncpy_result(old(env).mem@, dest, src, n),
        r == dest + if cstr_len_at(final(env).mem@, src) < n { cstr_len_at(final(env).mem@, src) } else { n as int },
{
    proof { env.mem.lemma_wf(); }
    strncpy(env, dest, src, n);
    let len = env.mem.strlen(src);
    if len < n { dest + len } else { dest + n }
}

/// Copies the string at `src` with its NUL to `dest`, failing if that
/// would take more than `size` bytes.
fn copy_string(env: &mut Environment, dest: u32, src: u32, size: u32) -> (len: u32)
    requires
        old(env).wf(),
        has_cstr_at(old(env).mem@, src),
        cstr_len_at(old(env).mem@, src) + 1 <= size,
        dest + cstr_len_at(old(env).mem@, src) + 1 <= old(env).mem@.len(),
    ensures
        final(env).wf(),
        others_unchanged(old(env), final(env)),
        final(env).mem.heap_top() == old(env).mem.heap_top(),
        final(env).errno == old(env).errno,
        final(env).libc_state == old(env).libc_state,
        final(env).mem@ == written(old(env).mem@, dest as int, cstr_at(old(env).mem@, src) + seq![0u8]),
        len == cstr_len_at(old(env).mem@, src),
{
    let mut data = env.mem.cstr_at(src);
    proof { lemma_cstr_len(env.mem@, src as int, data@.len() as int); env.mem.lemma_wf(); }
    let len = data.len() as u32;
    data.push(0);
    env.mem.write_bytes(dest, data.as_slice());
    len
}

/// `strcpy`: copies the string at `src`, with its NUL, to `dest`; returns
/// `dest`.
pub fn strcpy(env: &mut Environment, dest: u32, src: u32) -> (r: u32)
    requires
        old(env).wf(),
        has_cstr_at(old(env).mem@, src),
        dest + cstr_len_at(old(env).mem@, src) + 1 <= old(env).mem@.len(),
    ensures
        final(env).wf(),
        others_unchanged(old(env), final(env)),
        final(env).mem.heap_top() == old(env).mem.heap_top(),
        final(env).errno == old(env).errno,
        final(env).libc_state == old(env).libc_state,
        final(env).mem@ == written(old(env).mem@, dest as int, cstr_at(old(env).mem@, src) + seq![0u8]),
        r == dest,
{
    proof { env.mem.lemma_wf(); }
    copy_string(env, dest, src, GuestUSize::MAX);
    dest
}

/// `__strcpy_chk`: `strcpy` that the caller promises fits `size` bytes.
pub fn __strcpy_chk(env: &mut Environment, dest: u32, src: u32, size: GuestUSize) -> (r: u32)
    requires
        old(env).wf(),
        has_cstr_at(old(env).mem@, src),
        cstr_len_at(old(env).mem@, src) + 1 <= size,
        dest + cstr_len_at(old(env).mem@, src) + 1 <= old(env).mem@.len(),
    ensures
        final(env).wf(),
        others_unchanged(old(env), final(env)),
        final(env).mem.heap_top() == old(env).mem.heap_top(),
        final(env).errno == old(env).errno,
        final(env).libc_state == old(env).libc_state,
        final(env).mem@ == written(old(env).mem@, dest as int, cstr_at(old(env).mem@, src) + seq![0u8]),
        r == dest,
{
    copy_string(env, dest, src, size);
    dest
}

/// `stpcpy`: `strcpy`, returning the address of the copied NUL.
pub fn stpcpy(env: &mut Environment, dest: u32, src: u32) -> (r: u32)
    requires
        old(env).wf(),
        has_cstr_at(old(env).mem@, src),
        dest + cstr_len_at(old(env).mem@, src) + 1 <= old(env).mem@.len(),
    ensures
        final(env).wf(),
        others_unchanged(old(env), final(env)),
        final(env).mem.heap_top() == old(env).mem.heap_top(),
        final(env).errno == old(env).errno,
        final(env).libc_state == old(env).libc_state,
        final(env).mem@ == written(old(env).mem@, dest as int, cstr_at(old(env).mem@, src) + seq![0u8]),
        r == dest + cstr_len_at(old(env).mem@, src),
{
    proof { env.mem.lemma_wf(); }
    let len = env.mem.strlen(src);
    copy_string(env, dest, src, GuestUSize::MAX);
    dest + len
}

/// Appends the string at `src` to the string at `dest`, failing if the
/// result with its NUL would take more than `size` bytes.
fn append_string(env: &mut Environment, dest: u32, src: u32, size: u32)
    requires
        old(env).wf(),
        has_cstr_at(old(env).mem@, dest),
        has_cstr_at(old(env).mem@, src),
        cstr_len_at(old(env).mem@, dest) + cstr_len_at(old(env).mem@, src) + 1 <= size,
        dest + cstr_len_at(old(env).mem@, dest) + cstr_len_at(old(env).mem@, src) + 1 <= old(env).mem@.len(),
    ensures
        final(env).wf(),
        others_unchanged(old(env), final(env)),
        final(env).mem.heap_top() == old(env).mem.heap_top(),
        final(env).errno == old(env).errno,
        final(env).libc_state == old(env).libc_state,
        final(env).mem@ == written(old(env).mem@, dest + cstr_len_at(old(env).mem@, dest),
            cstr_at(old(env).mem@, src) + seq![0u8]),
{
    proof { env.mem.lemma_wf(); }
    let dl = env.mem.strlen(dest);
    copy_string(env, dest + dl, src, size - dl);
}

/// `strcat`: appends the string at `src` to the string at `dest`; returns
/// `dest`.
pub fn strcat(env: &mut Environment, dest: u32, src: u32) -> (r: u32)
    requires
        old(env).wf(),
        has_cstr_at(old(env).mem@, dest),
        has_cstr_at(old(env).mem@, src),
        dest + cstr_len_at(old(env).mem@, dest) + cstr_len_at(old(env).mem@, src) + 1 <= old(env).mem@.len(),
    ensures
        final(env).wf(),
        others_unchanged(old(env), final(env)),
        final(env).mem.heap_top() == old(env).mem.heap_top(),
        final(env).errno == old(env).errno,
        final(env).libc_state == old(env).libc_state,
        final(env).mem@ == written(old(env).mem@, dest + cstr_len_at(old(env).mem@, dest),
            cstr_at(old(env).mem@, src) + seq![0u8]),
        r == dest,
{
    proof { env.mem.lemma_wf(); }
    append_string(env, dest, src, GuestUSize::MAX);
    dest
}

/// `__strcat_chk`: `strcat` that the caller promises fits `size` bytes.
pub fn __strcat_chk(env: &mut Environment, dest: u32, src: u32, size: GuestUSize) -> (r: u32)
    requires
        old(env).wf(),
        has_cstr_at(old(env).mem@, dest),
        has_cstr_at(old(env).mem@, src),
        cstr_len_at(old(env).mem@, dest) + cstr_len_at(old(env).mem@, src) + 1 <= size,
        dest + cstr_len_at(old(env).mem@, dest) + cstr_len_at(old(env).mem@, src) + 1 <= old(env).mem@.len(),
    ensures
        final(env).wf(),
        others_unchanged(old(env), final(env)),
        final(env).mem.heap_top() == old(env).mem.heap_top(),
        final(env).errno == old(env).errno,
        final(env).libc_state == old(env).libc_state,
        final(env).mem@ == written(old(env).mem@, dest + cstr_len_at(old(env).mem@, dest),
            cstr_at(old(env).mem@, src) + seq![0u8]),
        r == dest,
{
    append_string(env, dest, src, size);
    dest
}

/// `strncat`: appends at most `n` bytes of the string at `s2`, then a
/// NUL, to the string at `s1`; returns `s1`.
pub fn strncat(env: &mut Environment, s1: u32, s2: u32, n: GuestUSize) -> (r: u32)
    requires
        old(env).wf(),
        has_cstr_at(old(env).mem@, s1),
        has_strn(old(env).mem@, s2, n),
        s1 + cstr_len_at(old(env).mem@, s1) + strn_len(old(env).mem@, s2, n) + 1 <= old(env).mem@.len(),
    ensures
        final(env).wf(),
        others_unchanged(old(env), final(env)),
        final(env).mem.heap_top() == old(env).mem.heap_top(),
        final(env).errno == old(env).errno,
        final(env).libc_state == old(env).libc_state,
        final(env).mem@ == written(old(env).mem@, s1 + cstr_len_at(old(env).mem@, s1),
            old(env).mem@.subrange(s2 as int, s2 + strn_len(old(env).mem@, s2, n)) + seq![0u8]),
        r == s1,
{
    proof { env.mem.lemma_wf(); }
    let dl = env.mem.strlen(s1);
    let k = bounded_strlen(&env.mem, s2, n);
    let mut data = env.mem.read_bytes(s2, k);
    data.push(0);
    env.mem.write_bytes(s1 + dl, data.as_slice());
    s1
}

/// `strdup`: a freshly allocated copy of the string at `src`.
pub fn strdup(env: &mut Environment, src: u32) -> (r: u32)
    requires
        old(env).wf(),
        has_cstr_at(old(env).mem@, src),
        old(env).mem.heap_top() + cstr_len_at(old(env).mem@, src) + 1 <= old(env).mem@.len(),
    ensures
        final(env).wf(),
        others_unchanged(old(env), final(env)),
        r == old(env).mem.heap_top(),
        r != 0,
        final(env).mem.heap_top() == old(env).mem.heap_top() + cstr_len_at(old(env).mem@, src) + 1,
        final(env).mem@ == written(old(env).mem@, r as int, cstr_at(old(env).mem@, src) + seq![0u8]),
        final(env).errno == old(env).errno,
        final(env).libc_state == old(env).libc_state,
{
    let data = env.mem.cstr_at(src);
    proof { lemma_cstr_len(env.mem@, src as int, data@.len() as int); }
    let ghost m = env.mem@;
    let p = env.mem.alloc_and_write_cstr(data.as_slice());
    assert(env.mem@ =~= written(m, p as int, data@ + seq![0u8]));
    p
}

/// `strlcpy`: copies as much of the string at `src` as fits in `size`
/// bytes with a NUL (nothing when `size` is 0); returns the length of the
/// string at `src`.
pub fn strlcpy(env: &mut Environment, dst: u32, src: u32, size: GuestUSize) -> (r: u32)
    requires
        old(env).wf(),
        has_cstr_at(old(env).mem@, src),
        dst + size <= old(env).mem@.len(),
    ensures
        final(env).wf(),
        others_unchanged(old(env), final(env)),
        final(env).mem.heap_top() == old(env).mem.heap_top(),
        final(env).errno == old(env).errno,
        final(env).libc_state == old(env).libc_state,
        r == cstr_len_at(old(env).mem@, src),
        size == 0 ==> final(env).mem@ == old(env).mem@,
        size > 0 ==> final(env).mem@ == written(old(env).mem@, dst as int,
            cstr_at(old(env).mem@, src).take(if r < size { r as int } else { size - 1 }) + seq![0u8]),
{
    let s = env.mem.cstr_at(src);
    proof { lemma_cstr_len(env.mem@, src as int, s@.len() as int); env.mem.lemma_wf(); }
    let len = s.len() as u32;
    if size > 0 {
        let c = if len < size { len } else { size - 1 };
        let mut data: Vec<u8> = Vec::new();
        let mut i: u32 = 0;
        while i < c
            invariant
                i <= c,
                c <= len,
                len == s@.len(),
                data@ == s@.take(i as int),
            decreases c - i,
        {
            data.push(s[i as usize]);
            i = i + 1;
            assert(data@ =~= s@.take(i as int));
        }
        data.push(0);
        env.mem.write_bytes(dst, data.as_slice());
    }
    len
}

/// `strchr`: the first byte `c` in the string at `s`, counting its NUL
/// (so `c == 0` finds the end), or null.
pub fn strchr(env: &Environment, s: u32, c: u8) -> (r: u32)
    requires
        env.wf(),
        has_cstr_at(env.mem@, s),
    ensures
        r == find_first(env.mem@, s, (cstr_len_at(env.mem@, s) + 1) as u32, c),
{
    proof { env.mem.lemma_wf(); }
    let len = env.mem.strlen(s);
    scan_forward(&env.mem, s, len + 1, c)
}

/// `strrchr`: the last byte `c` in the string at `s`, counting its NUL,
/// or null.
pub fn strrchr(env: &Environment, s: u32, c: u8) -> (r: u32)
    requires
        env.wf(),
        has_cstr_at(env.mem@, s),
    ensures
        r == find_last(env.mem@, s, (cstr_len_at(env.mem@, s) + 1) as u32, c),
{
    proof { env.mem.lemma_wf(); }
    let len = env.mem.strlen(s);
    scan_backward(&env.mem, s, len + 1, c)
}


/// `nd` occurs in `h` at `i` (bytes compared after [folded]).
pub open spec fn occurs(h: Seq<u8>, nd: Seq<u8>, ignore_case: bool, i: int) -> bool {
    &&& 0 <= i
    &&& i + nd.len() <= h.len()
    &&& forall|j: int| 0 <= j < nd.len() ==> folded(#[trigger] h[i + j], ignore_case) == folded(nd[j], ignore_case)
}

/// `i` is the first place where `nd` occurs in `h`.
pub open spec fn first_occurrence(h: Seq<u8>, nd: Seq<u8>, ignore_case: bool, i: int) -> bool {
    &&& occurs(h, nd, ignore_case, i)
    &&& forall|k: int| 0 <= k < i ==> !#[trigger] occurs(h, nd, ignore_case, k)
}

/// Address of the first occurrence of `nd` in `h`, where `h` lies at
/// `base`, or 0 when it does not occur.
pub open spec fn search(h: Seq<u8>, nd: Seq<u8>, ignore_case: bool, base: u32) -> u32 {
    if exists|i: int| #[trigger] first_occurrence(h, nd, ignore_case, i) {
        (base + choose|i: int| #[trigger] first_occurrence(h, nd, ignore_case, i)) as u32
    } else {
        0
    }
}

/// Finds the first occurrence of `nd` in `h`.
pub fn find_occurrence(h: &[u8], nd: &[u8], ignore_case: bool) -> (res: Option<usize>)
    ensures
        match res {
            Some(i) => first_occurrence(h@, nd@, ignore_case, i as int),
            None => !exists|i: int| #[trigger] occurs(h@, nd@, ignore_case, i),
        },
{
    if nd.len() > h.len() {
        assert(!exists|i: int| #[trigger] occurs(h@, nd@, ignore_case, i));
        return None;
    }
    let hl = h.len();
    let last = hl - nd.len();
    let mut i: usize = 0;
    while i <= last
        invariant
            hl == h@.len(),
            last == h@.len() - nd@.len(),
            nd@.len() <= h@.len(),
            forall|k: int| 0 <= k < i ==> !#[trigger] occurs(h@, nd@, ignore_case, k),
        decreases last + 1 - i,
    {
        let mut j: usize = 0;
        while j < nd.len() && fold_byte(h[i + j], ignore_case) == fold_byte(nd[j], ignore_case)
            invariant
                i <= last,
                hl == h@.len(),
                last == h@.len() - nd@.len(),
                nd@.len() <= h@.len(),
                j <= nd@.len(),
                forall|t: int| 0 <= t < j ==> folded(#[trigger] h@[i + t], ignore_case) == folded(nd@[t], ignore_case),
            decreases nd@.len() - j,
        {
            j = j + 1;
        }
        let matched = j == nd.len();
        if matched {
            return Some(i);
        }
        proof {
            assert(!occurs(h@, nd@, ignore_case, i as int)) by {
                assert(folded(h@[i + j], ignore_case) != folded(nd@[j as int], ignore_case));
            }
        }
        i = i + 1;
    }
    assert forall|k: int| !#[trigger] occurs(h@, nd@, ignore_case, k) by {
        if 0 <= k < i {
        }
    }
    None
}

/// Turns the result of [find_occurrence] on bytes at `base` into an
/// address.
fn occurrence_address(h: &[u8], nd: &[u8], ignore_case: bool, base: u32, res: Option<usize>) -> (r: u32)
    requires
        base + h@.len() < 0xffff_ffff,
        match res {
            Some(i) => first_occurrence(h@, nd@, ignore_case, i as int),
            None => !exists|i: int| #[trigger] occurs(h@, nd@, ignore_case, i),
        },
    ensures
        r == search(h@, nd@, ignore_case, base),
{
    match res {
        Some(i) => {
            proof {
                let j = choose|j: int| #[trigger] first_occurrence(h@, nd@, ignore_case, j);
                assert(j == i) by {
                    if j < i { assert(!occurs(h@, nd@, ignore_case, j)); }
                    if i < j { assert(!occurs(h@, nd@, ignore_case, i as int)); }
                }
            }
            base + i as u32
        },
        None => 0,
    }
}

/// `strstr`: the first occurrence of the string at `substring` in the
/// string at `string`, or null; an empty `substring` is found at once.
pub fn strstr(env: &Environment, string: u32, substring: u32) -> (r: u32)
    requires
        env.wf(),
        has_cstr_at(env.mem@, string),
        has_cstr_at(env.mem@, substring),
    ensures
        r == search(cstr_at(env.mem@, string), cstr_at(env.mem@, substring), false, string),
{
    let h = env.mem.cstr_at(string);
    let nd = env.mem.cstr_at(substring);
    proof { env.mem.lemma_wf(); }
    let res = find_occurrence(h.as_slice(), nd.as_slice(), false);
    occurrence_address(h.as_slice(), nd.as_slice(), false, string, res)
}

/// `strcasestr`: `strstr` ignoring ASCII case.
pub fn strcasestr(env: &Environment, haystack: u32, needle: u32) -> (r: u32)
    requires
        env.wf(),
        has_cstr_at(env.mem@, haystack),
        has_cstr_at(env.mem@, needle),
    ensures
        r == search(cstr_at(env.mem@, haystack), cstr_at(env.mem@, needle), true, haystack),
{
    let h = env.mem.cstr_at(haystack);
    let nd = env.mem.cstr_at(needle);
    proof { env.mem.lemma_wf(); }
    let res = find_occurrence(h.as_slice(), nd.as_slice(), true);
    occurrence_address(h.as_slice(), nd.as_slice(), true, haystack, res)
}

/// `memmem`: the first occurrence of the `needle_len` bytes at `needle`
/// within the `haystack_len` bytes at `haystack`, or null; an empty
/// needle is found at once.
pub fn memmem(env: &Environment, haystack: u32, haystack_len: GuestUSize, needle: u32, needle_len: GuestUSize) -> (r: u32)
    requires
        env.wf(),
        haystack + haystack_len <= env.mem@.len(),
        needle + needle_len <= env.mem@.len(),
    ensures
        r == search(env.mem@.subrange(haystack as int, haystack + haystack_len),
            env.mem@.subrange(needle as int, needle + needle_len), false, haystack),
{
    let h = env.mem.read_bytes(haystack, haystack_len);
    let nd = env.mem.read_bytes(needle, needle_len);
    proof { env.mem.lemma_wf(); }
    let res = find_occurrence(h.as_slice(), nd.as_slice(), false);
    occurrence_address(h.as_slice(), nd.as_slice(), false, haystack, res)
}


/// Memory after `memset_pattern*`: the first `len - len % pl` bytes at
/// `b` become copies of the `pl` pattern bytes (as read at the start), and
/// the rest is copied byte by byte from the pattern as memory then holds it.
pub open spec fn pattern_fill_result(m: Seq<u8>, b: u32, pattern: u32, len: u32, pl: u32) -> Seq<u8> {
    let tmp = m.subrange(pattern as int, pattern + pl);
    let blocks = len - len % pl;
    let m1 = written(m, b as int, Seq::new(blocks as nat, |j: int| tmp[j % (pl as int)]));
    copy_steps(m1, b + blocks, pattern as int, (len % pl) as nat)
}

/// Fills `len` bytes at `b` with repeats of the `pattern_len` bytes at
/// `pattern`; `pattern_len` is 4, 8 or 16.
pub fn memset_pattern_inner(env: &mut Environment, b: u32, pattern: u32, len: GuestUSize, pattern_len: GuestUSize)
    requires
        old(env).wf(),
        pattern_len == 4 || pattern_len == 8 || pattern_len == 16,
        pattern + pattern_len <= old(env).mem@.len(),
        b + len <= old(env).mem@.len(),
    ensures
        final(env).wf(),
        others_unchanged(old(env), final(env)),
        final(env).mem.heap_top() == old(env).mem.heap_top(),
        final(env).errno == old(env).errno,
        final(env).libc_state == old(env).libc_state,
        final(env).mem@ == pattern_fill_result(old(env).mem@, b, pattern, len, pattern_len),
{
    proof { env.mem.lemma_wf(); }
    let tmp = env.mem.read_bytes(pattern, pattern_len);
    assert(len % pattern_len <= len) by (nonlinear_arith)
        requires
            pattern_len > 0,
    ;
    let blocks = len - len % pattern_len;
    let mut data: Vec<u8> = Vec::new();
    let mut j: u32 = 0;
    while j < blocks
        invariant
            j <= blocks,
            blocks <= len,
            tmp@.len() == pattern_len,
            pattern_len == 4 || pattern_len == 8 || pattern_len == 16,
            data@ == Seq::new(j as nat, |t: int| tmp@[t % (pattern_len as int)]),
        decreases blocks - j,
    {
        data.push(tmp[(j % pattern_len) as usize]);
        j = j + 1;
        assert(data@ =~= Seq::new(j as nat, |t: int| tmp@[t % (pattern_len as int)]));
    }
    env.mem.write_bytes(b, data.as_slice());
    let ghost m1 = env.mem@;
    let target = b + blocks;
    let rem = len % pattern_len;
    let mut i: u32 = 0;
    while i < rem
        invariant
            env.wf(),
            env.mem.heap_top() == old(env).mem.heap_top(),
            env.errno == old(env).errno,
            env.libc_state == old(env).libc_state,
            others_unchanged(old(env), env),
            m1.len() == old(env).mem@.len() < 0xffff_ffff,
            target + rem == b + len,
            b + len <= m1.len(),
            pattern + pattern_len <= m1.len(),
            rem < pattern_len,
            i <= rem,
            env.mem@ == copy_steps(m1, target as int, pattern as int, i as nat),
        decreases rem - i,
    {
        proof { lemma_copy_steps_len(m1, target as int, pattern as int, i as nat); }
        let byte = env.mem.read_u8(pattern + i);
        env.mem.write_u8(target + i, byte);
        i = i + 1;
    }
}

/// `memset_pattern4`: fills `len` bytes at `b` with repeats of the 4
/// bytes at `pattern4`.
pub fn memset_pattern4(env: &mut Environment, b: u32, pattern4: u32, len: GuestUSize)
    requires
        old(env).wf(),
        pattern4 + 4 <= old(env).mem@.len(),
        b + len <= old(env).mem@.len(),
    ensures
        final(env).wf(),
        others_unchanged(old(env), final(env)),
        final(env).mem.heap_top() == old(env).mem.heap_top(),
        final(env).errno == old(env).errno,
        final(env).libc_state == old(env).libc_state,
        final(env).mem@ == pattern_fill_result(old(env).mem@, b, pattern4, len, 4),
{
    memset_pattern_inner(env, b, pattern4, len, 4)
}

/// `memset_pattern8`: fills `len` bytes at `b` with repeats of the 8
/// bytes at `pattern8`.
pub fn memset_pattern8(env: &mut Environment, b: u32, pattern8: u32, len: GuestUSize)
    requires
        old(env).wf(),
        pattern8 + 8 <= old(env).mem@.len(),
        b + len <= old(env).mem@.len(),
    ensures
        final(env).wf(),
        others_unchanged(old(env), final(env)),
        final(env).mem.heap_top() == old(env).mem.heap_top(),
        final(env).errno == old(env).errno,
        final(env).libc_state == old(env).libc_state,
        final(env).mem@ == pattern_fill_result(old(env).mem@, b, pattern8, len, 8),
{
    memset_pattern_inner(env, b, pattern8, len, 8)
}

/// `memset_pattern16`: fills `len` bytes at `b` with repeats of the 16
/// bytes at `pattern16`.
pub fn memset_pattern16(env: &mut Environment, b: u32, pattern16: u32, len: GuestUSize)
    requires
        old(env).wf(),
        pattern16 + 16 <= old(env).mem@.len(),
        b + len <= old(env).mem@.len(),
    ensures
        final(env).wf(),
        others_unchanged(old(env), final(env)),
        final(env).mem.heap_top() == old(env).mem.heap_top(),
        final(env).errno == old(env).errno,
        final(env).libc_state == old(env).libc_state,
        final(env).mem@ == pattern_fill_result(old(env).mem@, b, pattern16, len, 16),
{
    memset_pattern_inner(env, b, pattern16, len, 16)
}

/// Find-first-set of a 32-bit value: 0 for 0, else one more than the
/// index of the lowest set bit.
pub open spec fn spec_ffs32(x: i32) -> i32 {
    if x == 0 { 0 } else { (u32_trailing_zeros(x as u32) + 1) as i32 }
}

/// Find-first-set of a 64-bit value.
pub open spec fn spec_ffs64(x: i64) -> i32 {
    if x == 0 { 0 } else { (u64_trailing_zeros(x as u64) + 1) as i32 }
}

/// Index (from 1) of the lowest set bit of `x`, or 0.
pub fn ffs_impl(x: i32) -> (r: i32)
    ensures
        r == spec_ffs32(x),
{
    if x == 0 {
        0
    } else {
        let u = x as u32;
        let t = u.trailing_zeros();
        proof { vstd::std_specs::bits::axiom_u32_trailing_zeros(u); }
        t as i32 + 1
    }
}

/// Index (from 1) of the lowest set bit of the 64-bit `x`, or 0.
pub fn ffsl_impl(x: i64) -> (r: i32)
    ensures
        r == spec_ffs64(x),
{
    if x == 0 {
        0
    } else {
        let u = x as u64;
        let t = u.trailing_zeros();
        proof { vstd::std_specs::bits::axiom_u64_trailing_zeros(u); }
        t as i32 + 1
    }
}

/// Same as [ffsl_impl].
pub fn ffsll_impl(x: i64) -> (r: i32)
    ensures
        r == spec_ffs64(x),
{
    ffsl_impl(x)
}

/// `ffs`.
pub fn ffs(env: &Environment, x: i32) -> (r: i32)
    ensures
        r == spec_ffs32(x),
{
    ffs_impl(x)
}

/// `ffsl` (`long` is 32 bits on the guest, but the argument is taken as
/// 64 bits wide).
pub fn ffsl(env: &Environment, x: i64) -> (r: i32)
    ensures
        r == spec_ffs64(x),
{
    ffsl_impl(x)
}

/// `ffsll`.
pub fn ffsll(env: &Environment, x: i64) -> (r: i32)
    ensures
        r == spec_ffs64(x),
{
    ffsll_impl(x)
}

} // verus!
