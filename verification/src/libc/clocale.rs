//! `clocale.h`: locale names per category, and the C locale's `lconv`.

use vstd::prelude::*;
use std::collections::HashMap;
use crate::environment::{Environment, others_unchanged};
use crate::mem::{has_cstr_at, cstr_at, cstr_len_at, is_cstr, put_words, lemma_cstr_len};
use crate::mem::{written, law_string_written_read_back, lists_start, lists_block, lemma_listed_below, lemma_cstr_in_place};

verus! {

pub type LocaleCategory = i32;
pub const LC_ALL: LocaleCategory = 0;
pub const LC_COLLATE: LocaleCategory = 1;
pub const LC_CTYPE: LocaleCategory = 2;
pub const LC_MONETARY: LocaleCategory = 3;
pub const LC_NUMERIC: LocaleCategory = 4;
pub const LC_TIME: LocaleCategory = 5;
pub const LC_MESSAGES: LocaleCategory = 6;

/// Locale state: the guest string naming the locale of each category
/// that has been set or asked for, and the `lconv` once `localeconv` has
/// made it.
pub struct State {
    pub locale: HashMap<LocaleCategory, u32>,
    pub lconv: Option<u32>,
}

/// The locale strings by category.
pub open spec fn locales(env: &Environment) -> Map<LocaleCategory, u32> {
    env.libc_state.clocale.locale@
}

/// Only memory, the allocator and the locale table may have changed.
pub open spec fn rest_unchanged(e1: &Environment, e2: &Environment) -> bool {
    &&& e2.wf()
    &&& e2.errno == e1.errno
    &&& e2.libc_state.string == e1.libc_state.string
    &&& e2.libc_state.mmap == e1.libc_state.mmap
    &&& others_unchanged(e1, e2)
}

/// The locale table after a call of `setlocale` on `category` that
/// returned `r`, where a set locale string takes `size` bytes: setting
/// `LC_ALL` records copies one after another from `r` for every category;
/// setting another category, or the first query of a category, records
/// `r`; any other query leaves the table as it was.
pub open spec fn locale_table_after(
    locs: Map<LocaleCategory, u32>,
    category: LocaleCategory,
    set: bool,
    r: u32,
    size: u32,
) -> Map<LocaleCategory, u32> {
    if set && category == LC_ALL {
        locs.union_prefer_right(all_category_entries(r, size, 7))
    } else if set || !locs.contains_key(category) {
        locs.insert(category, r)
    } else {
        locs
    }
}

/// A run of `setlocale` calls: `tables[i + 1]` is the table after call
/// `i`, which was on category `calls[i].0`, set a locale when `calls[i].1`,
/// returned `calls[i].2` and, when it set one, copied `calls[i].3` bytes.
pub open spec fn locale_run(tables: Seq<Map<LocaleCategory, u32>>, calls: Seq<(LocaleCategory, bool, u32, u32)>) -> bool {
    &&& tables.len() == calls.len() + 1
    &&& forall|i: int| 0 <= i < calls.len() ==> tables[i + 1]
        == locale_table_after(#[trigger] tables[i], calls[i].0, calls[i].1, calls[i].2, calls[i].3)
}

/// Whether `call` sets the locale of `category`: it sets that category,
/// or all of them.
pub open spec fn sets_category(call: (LocaleCategory, bool, u32, u32), category: LocaleCategory) -> bool {
    call.1 && (call.0 == category || call.0 == LC_ALL)
}

/// The string a setting `call` records for `category`.
pub open spec fn recorded_for(call: (LocaleCategory, bool, u32, u32), category: LocaleCategory) -> u32 {
    if call.0 == LC_ALL { (call.2 + category * call.3) as u32 } else { call.2 }
}

/// Across any run of `setlocale` calls, a category's entry is the string
/// its latest setting call (on that category or on `LC_ALL`) recorded,
/// whatever was set or asked for the other categories and however often
/// it was queried since; so a query of it (which returns the entry)
/// returns that string.
pub proof fn law_query_returns_latest_set(
    tables: Seq<Map<LocaleCategory, u32>>,
    calls: Seq<(LocaleCategory, bool, u32, u32)>,
    category: LocaleCategory,
    j: int,
)
    requires
        locale_run(tables, calls),
        LC_ALL <= category <= LC_MESSAGES,
        0 <= j < calls.len(),
        sets_category(calls[j], category),
        forall|i: int| j < i < calls.len() ==> !sets_category(#[trigger] calls[i], category),
    ensures
        tables.last().contains_key(category),
        tables.last()[category] == recorded_for(calls[j], category),
{
    lemma_entry_kept(tables, calls, category, j, calls.len() as int);
}

/// Call `i` of a run, with the memory and heap top before and after it:
/// it does not lower the heap top, leaves memory below it as it was, and,
/// when it sets a locale, leaves the set string `strs[i]` at every entry it
/// records, ending below the new heap top.
pub open spec fn locale_mem_step(
    calls: Seq<(LocaleCategory, bool, u32, u32)>,
    mems: Seq<Seq<u8>>,
    tops: Seq<int>,
    strs: Seq<Seq<u8>>,
    i: int,
) -> bool {
    &&& tops[i] <= tops[i + 1]
    &&& mems[i + 1].len() == mems[i].len()
    &&& forall|x: int| 0 <= x < tops[i] ==> #[trigger] mems[i + 1][x] == mems[i][x]
    &&& forall|c: LocaleCategory| LC_ALL <= c <= LC_MESSAGES && #[trigger] sets_category(calls[i], c) ==> {
        let p = recorded_for(calls[i], c);
        &&& is_cstr(mems[i + 1], p as int, strs[i].len() as int)
        &&& cstr_at(mems[i + 1], p) == strs[i]
        &&& p + strs[i].len() < tops[i + 1]
    }
}

/// A run of `setlocale` calls ([locale_run]) with the memory and heap top
/// before and after each call, each call as [locale_mem_step] says.
pub open spec fn locale_mem_run(
    tables: Seq<Map<LocaleCategory, u32>>,
    calls: Seq<(LocaleCategory, bool, u32, u32)>,
    mems: Seq<Seq<u8>>,
    tops: Seq<int>,
    strs: Seq<Seq<u8>>,
) -> bool {
    &&& locale_run(tables, calls)
    &&& mems.len() == tables.len()
    &&& tops.len() == tables.len()
    &&& strs.len() == calls.len()
    &&& forall|i: int| 0 <= i < calls.len() ==> #[trigger] locale_mem_step(calls, mems, tops, strs, i)
}

/// Across any run of `setlocale` calls, a query of a category returns a
/// string that reads as the one its latest setting call (on that category
/// or on `LC_ALL`) was given, whatever was set or asked for since.
pub proof fn law_query_reads_latest_set_string(
    tables: Seq<Map<LocaleCategory, u32>>,
    calls: Seq<(LocaleCategory, bool, u32, u32)>,
    mems: Seq<Seq<u8>>,
    tops: Seq<int>,
    strs: Seq<Seq<u8>>,
    category: LocaleCategory,
    j: int,
)
    requires
        locale_mem_run(tables, calls, mems, tops, strs),
        LC_ALL <= category <= LC_MESSAGES,
        0 <= j < calls.len(),
        sets_category(calls[j], category),
        forall|i: int| j < i < calls.len() ==> !sets_category(#[trigger] calls[i], category),
    ensures
        tables.last().contains_key(category),
        tables.last()[category] == recorded_for(calls[j], category),
        has_cstr_at(mems.last(), tables.last()[category]),
        cstr_at(mems.last(), tables.last()[category]) == strs[j],
{
    lemma_entry_kept(tables, calls, category, j, calls.len() as int);
    assert(locale_mem_step(calls, mems, tops, strs, j));
    lemma_string_kept(calls, mems, tops, strs, category, j, calls.len() as int);
}

/// The string a setting call `j` left for `category` reads the same after
/// every later call of the run.
proof fn lemma_string_kept(
    calls: Seq<(LocaleCategory, bool, u32, u32)>,
    mems: Seq<Seq<u8>>,
    tops: Seq<int>,
    strs: Seq<Seq<u8>>,
    category: LocaleCategory,
    j: int,
    i: int,
)
    requires
        mems.len() == calls.len() + 1,
        tops.len() == calls.len() + 1,
        strs.len() == calls.len(),
        forall|k: int| 0 <= k < calls.len() ==> #[trigger] locale_mem_step(calls, mems, tops, strs, k),
        LC_ALL <= category <= LC_MESSAGES,
        0 <= j < i <= calls.len(),
        sets_category(calls[j], category),
    ensures
        is_cstr(mems[i], recorded_for(calls[j], category) as int, strs[j].len() as int),
        cstr_at(mems[i], recorded_for(calls[j], category)) == strs[j],
        recorded_for(calls[j], category) + strs[j].len() < tops[i],
    decreases i,
{
    let p = recorded_for(calls[j], category) as int;
    let n = strs[j].len() as int;
    assert(locale_mem_step(calls, mems, tops, strs, j));
    if i - 1 > j {
        lemma_string_kept(calls, mems, tops, strs, category, j, i - 1);
        assert(locale_mem_step(calls, mems, tops, strs, i - 1));
        let m0 = mems[i - 1];
        let m1 = mems[i];
        assert forall|x: int| p <= x <= p + n implies #[trigger] m1[x] == m0[x] by {
            assert(x < tops[i - 1]);
        }
        assert forall|x: int| p <= x < p + n implies #[trigger] m1[x] != 0 by {
            assert(m1[x] == m0[x]);
        }
        assert(is_cstr(m1, p, n));
        lemma_cstr_len(m0, p, n);
        lemma_cstr_len(m1, p, n);
        assert(m1.subrange(p, p + n) =~= m0.subrange(p, p + n));
    }
}

/// The entry of `category` after call `i` is the one its setting call `j`
/// recorded, when no call between them set it.
proof fn lemma_entry_kept(
    tables: Seq<Map<LocaleCategory, u32>>,
    calls: Seq<(LocaleCategory, bool, u32, u32)>,
    category: LocaleCategory,
    j: int,
    i: int,
)
    requires
        locale_run(tables, calls),
        LC_ALL <= category <= LC_MESSAGES,
        0 <= j < i <= calls.len(),
        sets_category(calls[j], category),
        forall|k: int| j < k < calls.len() ==> !sets_category(#[trigger] calls[k], category),
    ensures
        tables[i].contains_key(category),
        tables[i][category] == recorded_for(calls[j], category),
    decreases i,
{
    let c = calls[i - 1];
    assert(tables[i] == locale_table_after(tables[i - 1], c.0, c.1, c.2, c.3));
    if i - 1 > j {
        lemma_entry_kept(tables, calls, category, j, i - 1);
        assert(!sets_category(c, category));
    } else {
        if c.0 == LC_ALL {
            assert(all_category_entries(c.2, c.3, 7).contains_key(category));
        }
    }
}

/// The heap top starts no live block, so it is neither a mapping nor a
/// recorded locale string.
proof fn lemma_fresh_start(env: &Environment)
    requires
        env.wf(),
    ensures
        !lists_start(env.mem.blocks(), env.mem.heap_top()),
        forall|a: u32| #[trigger] env.libc_state.mmap.allocations@.contains_key(a) ==> a + env.libc_state.mmap.allocations@[a] <= env.mem.heap_top(),
        forall|c: i32| #[trigger] locales(env).contains_key(c) ==> locales(env)[c] < env.mem.heap_top(),
{
    env.mem.lemma_wf();
    lemma_listed_below(env.mem.blocks(), env.mem.heap_top());
    assert forall|a: u32| #[trigger] env.libc_state.mmap.allocations@.contains_key(a) implies a + env.libc_state.mmap.allocations@[a] <= env.mem.heap_top() by {
        assert(lists_block(env.mem.blocks(), a as int, env.libc_state.mmap.allocations@[a] as int));
    }
    assert forall|c: i32| #[trigger] locales(env).contains_key(c) implies locales(env)[c] < env.mem.heap_top() by {
        assert(lists_start(env.mem.blocks(), locales(env)[c] as int));
    }
}

/// Records a fresh copy of the non-empty string `s` as the locale of
/// `category`, and gives back the block of the string it replaces.
fn record_locale(env: &mut Environment, category: LocaleCategory, s: &Vec<u8>) -> (r: u32)
    requires
        old(env).wf(),
        s@.len() > 0,
        forall|i: int| 0 <= i < s@.len() ==> #[trigger] s@[i] != 0,
        old(env).mem.heap_top() + s@.len() + 1 <= old(env).mem@.len(),
    ensures
        rest_unchanged(old(env), final(env)),
        r == old(env).mem.heap_top(),
        final(env).mem.heap_top() == r + s@.len() + 1,
        final(env).mem@ == written(old(env).mem@, r as int, s@ + seq![0u8]),
        locales(final(env)) == locales(old(env)).insert(category, r),
        locales(old(env)).contains_key(category) ==>
            !lists_start(final(env).mem.blocks(), locales(old(env))[category] as int),
        forall|a: int| #[trigger] lists_start(final(env).mem.blocks(), a) ==>
            lists_start(old(env).mem.blocks(), a) || a == r,
{
    broadcast use vstd::std_specs::hash::group_hash_axioms;
    let ghost m = env.mem@;
    proof {
        lemma_fresh_start(env);
    }
    let new_locale = env.mem.alloc_and_write_cstr(s.as_slice());
    assert(env.mem@ =~= written(m, new_locale as int, s@ + seq![0u8]));
    let ghost top1 = env.mem.heap_top();
    let old_locale = env.libc_state.clocale.locale.insert(category, new_locale);
    match old_locale {
        Some(p) => {
            proof {
                let bs = env.mem.blocks();
                assert(lists_start(old(env).mem.blocks(), p as int));
                assert(lists_start(bs, p as int));
                env.mem.lemma_blocks_wf();
                lemma_listed_below(bs, env.mem.heap_top());
                assert(bs.last().0 == new_locale);
                assert forall|i: int| 0 <= i < bs.len() && (#[trigger] bs[i]).0 == p implies i != bs.len() - 1 by {
                }
            }
            env.mem.free(p);
            proof {
                assert(env.mem.heap_top() == top1);
            }
        },
        None => {},
    }
    new_locale
}

/// The entries `LC_ALL` records for the first `n` categories: copies of
/// `size` bytes each, one after another from `start`.
pub open spec fn all_category_entries(start: u32, size: u32, n: int) -> Map<LocaleCategory, u32> {
    Map::new(|k: LocaleCategory| 0 <= k < n, |k: LocaleCategory| (start + k * size) as u32)
}

/// `setlocale`: with a (non-empty) `locale` string, records a fresh copy
/// of it as the locale of `category`, giving back the block of the string
/// it replaces; `LC_ALL` does so for every category, `LC_ALL` itself
/// first, each with a copy of its own. With null, only queries (the first
/// query of a category records "C"). Returns the category's locale string.
pub fn setlocale(env: &mut Environment, category: LocaleCategory, locale: u32) -> (r: u32)
    requires
        old(env).wf(),
        LC_ALL <= category <= LC_MESSAGES,
        locale != 0 ==> {
            &&& has_cstr_at(old(env).mem@, locale)
            &&& cstr_len_at(old(env).mem@, locale) != 0
            &&& old(env).mem.heap_top() + (if category == LC_ALL { 7int } else { 1int })
                    * (cstr_len_at(old(env).mem@, locale) + 1) <= old(env).mem@.len()
        },
        locale == 0 && !locales(old(env)).contains_key(category) ==>
            old(env).mem.heap_top() + 2 <= old(env).mem@.len(),
    ensures
        rest_unchanged(old(env), final(env)),
        locales(final(env)).contains_key(category),
        r == locales(final(env))[category],
        locales(final(env)) == locale_table_after(locales(old(env)), category, locale != 0, r,
            (cstr_len_at(old(env).mem@, locale) + 1) as u32),
        final(env).mem.heap_top() >= old(env).mem.heap_top(),
        final(env).mem@.len() == old(env).mem@.len(),
        forall|i: int| 0 <= i < old(env).mem.heap_top() ==> #[trigger] final(env).mem@[i] == old(env).mem@[i],
        locale != 0 ==> forall|c: LocaleCategory| LC_ALL <= c <= LC_MESSAGES
            && #[trigger] sets_category((category, true, r, (cstr_len_at(old(env).mem@, locale) + 1) as u32), c) ==> {
            let s = cstr_at(old(env).mem@, locale);
            let p = recorded_for((category, true, r, (s.len() + 1) as u32), c);
            &&& is_cstr(final(env).mem@, p as int, s.len() as int)
            &&& cstr_at(final(env).mem@, p) == s
            &&& p + s.len() < final(env).mem.heap_top()
        },
        locale != 0 && category != LC_ALL ==> {
            let s = cstr_at(old(env).mem@, locale);
            &&& r == old(env).mem.heap_top()
            &&& final(env).mem.heap_top() == r + s.len() + 1
            &&& final(env).mem@ == written(old(env).mem@, r as int, s + seq![0u8])
            &&& locales(final(env)) == locales(old(env)).insert(category, r)
            &&& locales(old(env)).contains_key(category) ==>
                    !lists_start(final(env).mem.blocks(), locales(old(env))[category] as int)
        },
        locale != 0 && category == LC_ALL ==> {
            let s = cstr_at(old(env).mem@, locale);
            let size = s.len() + 1;
            let top = old(env).mem.heap_top();
            &&& r == top
            &&& final(env).mem.heap_top() == top + 7 * size
            &&& locales(final(env)) == locales(old(env)).union_prefer_right(all_category_entries(r, size as u32, 7))
            &&& forall|k: int| 0 <= k < 7 ==>
                    #[trigger] final(env).mem@.subrange(top + k * size, top + (k + 1) * size) == s + seq![0u8]
            &&& final(env).mem@.len() == old(env).mem@.len()
            &&& forall|i: int| 0 <= i < old(env).mem@.len() && !(top <= i < top + 7 * size) ==>
                    #[trigger] final(env).mem@[i] == old(env).mem@[i]
            &&& forall|k: LocaleCategory| 0 <= k < 7 && #[trigger] locales(old(env)).contains_key(k) ==>
                    !lists_start(final(env).mem.blocks(), locales(old(env))[k] as int)
        },
        locale == 0 && locales(old(env)).contains_key(category) ==> {
            &&& r == locales(old(env))[category]
            &&& final(env).mem == old(env).mem
            &&& locales(final(env)) == locales(old(env))
        },
        locale == 0 && !locales(old(env)).contains_key(category) ==> {
            &&& r == old(env).mem.heap_top()
            &&& final(env).mem.heap_top() == r + 2
            &&& final(env).mem@ == written(old(env).mem@, r as int, seq![67u8, 0u8])
            &&& locales(final(env)) == locales(old(env)).insert(category, r)
        },
{
    broadcast use vstd::std_specs::hash::group_hash_axioms;
    if locale != 0 {
        let locale_cstr = env.mem.cstr_at(locale);
        let ghost s = cstr_at(old(env).mem@, locale);
        proof {
            let m = old(env).mem@;
            lemma_cstr_len(m, locale as int, choose|k: int| #[trigger] is_cstr(m, locale as int, k));
            assert forall|i: int| 0 <= i < s.len() implies #[trigger] s[i] != 0 by {
                assert(s[i] == m[locale + i]);
            }
        }
        if category != LC_ALL {
            let ghost m = env.mem@;
            let r = record_locale(env, category, &locale_cstr);
            proof {
                assert(env.mem@.subrange(r as int, r + s.len() + 1) =~= s + seq![0u8]);
                lemma_cstr_in_place(env.mem@, r as int, s);
                assert forall|i: int| 0 <= i < old(env).mem.heap_top() implies #[trigger] env.mem@[i] == m[i] by {
                    assert(env.mem@[i] == m.subrange(0, r as int)[i]);
                }
            }
            return r;
        }
        let ghost top = env.mem.heap_top();
        let ghost size = s.len() + 1;
        let ghost m0 = env.mem@;
        let ghost locs0 = locales(env);
        let ghost blocks0 = env.mem.blocks();
        proof {
            lemma_fresh_start(env);
        }
        let mut k: i32 = 0;
        let mut first: u32 = 0;
        while k < 7
            invariant
                0 <= k <= 7,
                locale_cstr@ == s,
                s.len() > 0,
                forall|i: int| 0 <= i < s.len() ==> #[trigger] s[i] != 0,
                size == s.len() + 1,
                top == old(env).mem.heap_top(),
                top + 7 * size <= m0.len(),
                m0 == old(env).mem@,
                locs0 == locales(old(env)),
                blocks0 == old(env).mem.blocks(),
                forall|c: i32| #[trigger] locs0.contains_key(c) ==> locs0[c] < top,
                rest_unchanged(old(env), env),
                env.mem.heap_top() == top + k * size,
                env.mem@.len() == m0.len(),
                k > 0 ==> first == top,
                locales(env) == locs0.union_prefer_right(all_category_entries(top as u32, size as u32, k as int)),
                forall|j: int| 0 <= j < k ==>
                    #[trigger] env.mem@.subrange(top + j * size, top + (j + 1) * size) == s + seq![0u8],
                forall|i: int| 0 <= i < m0.len() && !(top <= i < top + k * size) ==> #[trigger] env.mem@[i] == m0[i],
                forall|c: LocaleCategory| 0 <= c < k && #[trigger] locs0.contains_key(c) ==>
                    !lists_start(env.mem.blocks(), locs0[c] as int),
                forall|a: int| #[trigger] lists_start(env.mem.blocks(), a) ==> lists_start(blocks0, a) || a >= top,
            decreases 7 - k,
        {
            let ghost e0 = *env;
            let ghost mk = env.mem@;
            let ghost locs_k = locales(env);
            proof {
                assert(env.mem.heap_top() + s.len() + 1 <= mk.len()) by (nonlinear_arith)
                    requires
                        env.mem.heap_top() == top + k * size,
                        top + 7 * size <= mk.len(),
                        k < 7,
                        size == s.len() + 1,
                ;
                assert(locs_k.contains_key(k) ==> locs_k[k] == locs0[k]) by {
                    if locs_k.contains_key(k) {
                        assert(!all_category_entries(top as u32, size as u32, k as int).contains_key(k));
                    }
                }
            }
            let p = record_locale(env, k, &locale_cstr);
            proof {
                let at = top + k * size;
                assert(p == at);
                assert(env.mem@ == written(mk, at, s + seq![0u8]));
                assert(at + size <= mk.len()) by (nonlinear_arith)
                    requires
                        at == top + k * size,
                        top + 7 * size <= mk.len(),
                        k < 7,
                ;
                assert((top + (k + 1) * size) == at + size) by (nonlinear_arith)
                    requires at == top + k * size;
                assert forall|j: int| 0 <= j < k + 1 implies
                    #[trigger] env.mem@.subrange(top + j * size, top + (j + 1) * size) == s + seq![0u8] by {
                    if j == k {
                        assert(env.mem@.subrange(at, at + size) =~= s + seq![0u8]);
                    } else {
                        assert(top + (j + 1) * size <= at) by (nonlinear_arith)
                            requires j < k, at == top + k * size, size > 0;
                        assert(0 <= top + j * size) by (nonlinear_arith)
                            requires j >= 0, top >= 0, size > 0;
                        let lo = top + j * size;
                        let hi = top + (j + 1) * size;
                        assert forall|x: int| lo <= x < hi implies #[trigger] env.mem@[x] == mk[x] by {
                            assert(x < at);
                            assert(env.mem@[x] == mk.subrange(0, at)[x]);
                        }
                        assert(0 <= lo <= hi) by (nonlinear_arith)
                            requires lo == top + j * size, hi == top + (j + 1) * size, j >= 0, top >= 0, size > 0;
                        assert(hi <= at);
                        assert(env.mem@.len() == mk.len());
                        assert(env.mem@.subrange(lo, hi) =~= mk.subrange(lo, hi));
                    }
                }
                assert forall|i: int| 0 <= i < m0.len() && !(top <= i < top + (k + 1) * size) implies #[trigger] env.mem@[i] == m0[i] by {
                    assert(env.mem@[i] == mk[i]);
                }
                assert(locales(env) =~= locs0.union_prefer_right(all_category_entries(top as u32, size as u32, k + 1)));
                assert forall|c: LocaleCategory| 0 <= c < k + 1 && #[trigger] locs0.contains_key(c) implies
                    !lists_start(env.mem.blocks(), locs0[c] as int) by {
                    if c < k {
                        if lists_start(env.mem.blocks(), locs0[c] as int) {
                            assert(lists_start(e0.mem.blocks(), locs0[c] as int) || locs0[c] == p);
                        }
                    }
                }
                assert forall|a: int| #[trigger] lists_start(env.mem.blocks(), a) implies lists_start(blocks0, a) || a >= top by {
                    assert(lists_start(e0.mem.blocks(), a) || a == p);
                }
            }
            if k == 0 {
                first = p;
            }
            k = k + 1;
        }
        proof {
            assert(size == cstr_len_at(old(env).mem@, locale) + 1);
            let mf = env.mem@;
            assert forall|c: LocaleCategory| LC_ALL <= c <= LC_MESSAGES
                && #[trigger] sets_category((category, true, first, size as u32), c) implies {
                let p = recorded_for((category, true, first, size as u32), c);
                &&& is_cstr(mf, p as int, s.len() as int)
                &&& cstr_at(mf, p) == s
                &&& p + s.len() < env.mem.heap_top()
            } by {
                let at = top + c * size;
                assert(at + size <= top + 7 * size) by (nonlinear_arith)
                    requires 0 <= c <= 6, at == top + c * size, size > 0;
                assert(at + size == top + (c + 1) * size) by (nonlinear_arith)
                    requires at == top + c * size;
                assert(0 <= at) by (nonlinear_arith)
                    requires at == top + c * size, c >= 0, top >= 0, size > 0;
                assert(mf.subrange(top + c * size, top + (c + 1) * size) == s + seq![0u8]);
                assert(first == top);
                env.mem.lemma_wf();
                assert(size < u32::MAX);
                assert((size as u32) as int == size);
                assert(at < u32::MAX);
                assert(recorded_for((category, true, first, size as u32), c) == at);
                lemma_cstr_in_place(mf, at, s);
            }
        }
        first
    } else {
        if env.libc_state.clocale.locale.contains_key(&category) {
            let p = *env.libc_state.clocale.locale.get(&category).unwrap();
            p
        } else {
            let mut c: Vec<u8> = Vec::new();
            c.push(67); // 'C'
            let ghost m = env.mem@;
            proof {
                lemma_fresh_start(env);
            }
            let default_locale = env.mem.alloc_and_write_cstr(c.as_slice());
            assert(env.mem@ =~= written(m, default_locale as int, seq![67u8, 0u8]));
            env.libc_state.clocale.locale.insert(category, default_locale);
            default_locale
        }
    }
}

/// Size in bytes of a guest `lconv`: ten string pointers and eight
/// one-byte fields.
pub const LCONV_SIZE: u32 = 48;

/// The numeric formatting conventions of a locale, as the guest sees them:
/// ten guest pointers to strings, then eight signed bytes.
pub struct lconv {
    pub decimal_point: u32,
    pub thousands_sep: u32,
    pub grouping: u32,
    pub int_curr_symbol: u32,
    pub currency_symbol: u32,
    pub mon_decimal_point: u32,
    pub mon_thousands_sep: u32,
    pub mon_grouping: u32,
    pub positive_sign: u32,
    pub negative_sign: u32,
    pub int_frac_digits: i8,
    pub frac_digits: i8,
    pub p_cs_precedes: i8,
    pub p_sep_by_space: i8,
    pub n_cs_precedes: i8,
    pub n_sep_by_space: i8,
    pub p_sign_posn: i8,
    pub n_sign_posn: i8,
}

impl lconv {
    /// The ten string pointers, in field order.
    pub open spec fn pointers(&self) -> Seq<u32> {
        seq![self.decimal_point, self.thousands_sep, self.grouping, self.int_curr_symbol,
            self.currency_symbol, self.mon_decimal_point, self.mon_thousands_sep, self.mon_grouping,
            self.positive_sign, self.negative_sign]
    }

    /// The eight one-byte fields, in field order, as stored.
    pub open spec fn flags(&self) -> Seq<u8> {
        seq![self.int_frac_digits as u8, self.frac_digits as u8, self.p_cs_precedes as u8,
            self.p_sep_by_space as u8, self.n_cs_precedes as u8, self.n_sep_by_space as u8,
            self.p_sign_posn as u8, self.n_sign_posn as u8]
    }

    /// Writes the `lconv` to guest memory at `a`.
    pub fn write_to(&self, env: &mut Environment, a: u32)
        requires
            old(env).wf(),
            a + LCONV_SIZE <= old(env).mem@.len(),
        ensures
            rest_unchanged(old(env), final(env)),
            final(env).errno == old(env).errno,
            final(env).libc_state == old(env).libc_state,
            final(env).mem.heap_top() == old(env).mem.heap_top(),
            final(env).mem@ == written(put_words(old(env).mem@, a as int, self.pointers()), a + 40, self.flags()),
    {
        proof { env.mem.lemma_wf(); }
        let ptrs: Vec<u32> = vec![self.decimal_point, self.thousands_sep, self.grouping, self.int_curr_symbol,
            self.currency_symbol, self.mon_decimal_point, self.mon_thousands_sep, self.mon_grouping,
            self.positive_sign, self.negative_sign];
        assert(ptrs@ =~= self.pointers());
        env.mem.write_words(a, ptrs.as_slice());
        let flags: Vec<u8> = vec![self.int_frac_digits as u8, self.frac_digits as u8, self.p_cs_precedes as u8,
            self.p_sep_by_space as u8, self.n_cs_precedes as u8, self.n_sep_by_space as u8,
            self.p_sign_posn as u8, self.n_sign_posn as u8];
        assert(flags@ =~= self.flags());
        env.mem.write_bytes(a + 40, flags.as_slice());
    }
}

/// The strings of the C locale's `lconv`, one after another: "." for the
/// decimal point and nine empty strings.
pub open spec fn lconv_strings() -> Seq<u8> {
    seq![46u8, 0u8, 0u8, 0u8, 0u8, 0u8, 0u8, 0u8, 0u8, 0u8, 0u8]
}

/// Addresses of the ten strings when they start at `h`.
pub open spec fn lconv_string_ptrs(h: int) -> Seq<u32> {
    seq![h as u32, (h + 2) as u32, (h + 3) as u32, (h + 4) as u32, (h + 5) as u32,
        (h + 6) as u32, (h + 7) as u32, (h + 8) as u32, (h + 9) as u32, (h + 10) as u32]
}

/// `localeconv`: on the first call, allocates the C locale's strings (one
/// after another) and an `lconv` that points to them, with every numeric
/// field -1, once for the whole process; returns the `lconv`'s address,
/// the same on every call.
pub fn localeconv(env: &mut Environment) -> (r: u32)
    requires
        old(env).wf(),
        old(env).libc_state.clocale.lconv is None ==>
            old(env).mem.heap_top() + 11 + LCONV_SIZE <= old(env).mem@.len(),
    ensures
        rest_unchanged(old(env), final(env)),
        locales(final(env)) == locales(old(env)),
        final(env).libc_state.clocale.lconv == Some(r),
        old(env).libc_state.clocale.lconv matches Some(p) ==> r == p && *final(env) == *old(env),
        old(env).libc_state.clocale.lconv is None ==> {
            let h = old(env).mem.heap_top();
            &&& r == h + 11
            &&& final(env).mem.heap_top() == h + 11 + LCONV_SIZE
            &&& final(env).mem@ == written(put_words(written(old(env).mem@, h, lconv_strings()),
                    h + 11, lconv_string_ptrs(h)), h + 51, Seq::new(8, |i: int| 0xffu8))
        },
{
    if let Some(p) = env.libc_state.clocale.lconv {
        return p;
    }
    proof { env.mem.lemma_wf(); }
    let strs = env.mem.allocate(11);
    let bytes: Vec<u8> = vec![46u8, 0, 0, 0, 0, 0, 0, 0, 0, 0, 0];
    assert(bytes@ =~= lconv_strings());
    env.mem.write_bytes(strs, bytes.as_slice());
    let conv = lconv {
        decimal_point: strs,
        thousands_sep: strs + 2,
        grouping: strs + 3,
        int_curr_symbol: strs + 4,
        currency_symbol: strs + 5,
        mon_decimal_point: strs + 6,
        mon_thousands_sep: strs + 7,
        mon_grouping: strs + 8,
        positive_sign: strs + 9,
        negative_sign: strs + 10,
        int_frac_digits: -1,
        frac_digits: -1,
        p_cs_precedes: -1,
        p_sep_by_space: -1,
        n_cs_precedes: -1,
        n_sep_by_space: -1,
        p_sign_posn: -1,
        n_sign_posn: -1,
    };
    assert(conv.pointers() =~= lconv_string_ptrs(strs as int));
    assert(conv.flags() =~= Seq::new(8, |i: int| 0xffu8)) by {
        assert((-1i8) as u8 == 0xffu8) by (bit_vector);
    }
    let at = env.mem.allocate(LCONV_SIZE);
    conv.write_to(env, at);
    env.libc_state.clocale.lconv = Some(at);
    at
}

/// After `setlocale` records the locale string `loc` for a category, a
/// query of that category (a null locale) returns the recorded pointer,
/// and the string there is the one that was set.
pub proof fn law_set_then_query(
    m0: Seq<u8>,
    m1: Seq<u8>,
    locs0: Map<LocaleCategory, u32>,
    locs1: Map<LocaleCategory, u32>,
    category: LocaleCategory,
    loc: u32,
    r: u32,
)
    requires
        has_cstr_at(m0, loc),
        r + cstr_len_at(m0, loc) + 1 <= m0.len(),
        m1 == written(m0, r as int, cstr_at(m0, loc) + seq![0u8]),
        locs1 == locs0.insert(category, r),
    ensures
        locs1.contains_key(category),
        locs1[category] == r,
        has_cstr_at(m1, r),
        cstr_at(m1, r) == cstr_at(m0, loc),
{
    let s = cstr_at(m0, loc);
    lemma_cstr_len(m0, loc as int, choose|k: int| #[trigger] is_cstr(m0, loc as int, k));
    assert forall|i: int| 0 <= i < s.len() implies #[trigger] s[i] != 0 by {
        assert(s[i] == m0[loc + i]);
    }
    law_string_written_read_back(m0, r as int, s);
}

} // verus!
