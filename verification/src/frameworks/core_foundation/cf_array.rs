//! `CFArray` and `CFMutableArray`: the same objects as `NSArray` and
//! `NSMutableArray`.

use vstd::prelude::*;
use super::{CFIndex, CFRange, CFTypeRef};
use crate::environment::{Environment, only_objc_changed, only_mem_changed};
use crate::mem::{put_words, words_at};
use crate::objc::{id, nil, ObjC, retained, released, released_seq};
use crate::frameworks::foundation::{
    is_array, items_of, array_flags_in, array_updated, new_array_in, new_array, array_parts,
    set_array_items, retain_each, retained_all, can_retain_all, lemma_retained_all_len,
    objects_equal, first_equal_at, first_equal, lemma_first_equal_unique, is_equal,
};

verus! {

pub type CFArrayRef = CFTypeRef;
pub type CFMutableArrayRef = CFTypeRef;
pub type CFAllocatorRef = CFTypeRef;

/// The default allocator, the only one supported.
pub const kCFAllocatorDefault: CFAllocatorRef = 0;

/// Whether the array `o` is mutable.
pub open spec fn is_mutable(objc: &ObjC, o: id) -> bool {
    array_flags_in(objc.objects@, o).0
}

/// Whether the array `o` retains its items.
pub open spec fn retains_items(objc: &ObjC, o: id) -> bool {
    array_flags_in(objc.objects@, o).1
}

/// `CFArrayCreateMutable`: a new, empty mutable array that does not
/// retain its items (no callbacks are supported).
pub fn CFArrayCreateMutable(
    env: &mut Environment,
    allocator: CFAllocatorRef,
    capacity: CFIndex,
    callbacks: u32,
) -> (r: CFMutableArrayRef)
    requires
        old(env).wf(),
        allocator == kCFAllocatorDefault,
        capacity == 0,
        callbacks == 0,
        old(env).objc.has_room(),
    ensures
        only_objc_changed(old(env), final(env)),
        r == old(env).objc.objects@.len() + 1,
        new_array_in(old(env).objc.objects@, final(env).objc.objects@, Seq::empty(), true, false),
{
    let empty: Vec<id> = Vec::new();
    assert(empty@ =~= Seq::<id>::empty());
    new_array(&mut env.objc, empty, true, false)
}

/// `CFArrayCreateMutableCopy`: a new mutable array with the same items,
/// each retained once more.
pub fn CFArrayCreateMutableCopy(
    env: &mut Environment,
    allocator: CFAllocatorRef,
    capacity: CFIndex,
    array: CFArrayRef,
) -> (r: CFMutableArrayRef)
    requires
        old(env).wf(),
        allocator == kCFAllocatorDefault,
        capacity == 0,
        is_array(&old(env).objc, array),
        can_retain_all(&old(env).objc, items_of(&old(env).objc, array)),
        old(env).objc.has_room(),
    ensures
        only_objc_changed(old(env), final(env)),
        r == old(env).objc.objects@.len() + 1,
        new_array_in(retained_all(old(env).objc.objects@, items_of(&old(env).objc, array)),
            final(env).objc.objects@, items_of(&old(env).objc, array), true, true),
{
    let (items, _, _) = array_parts(&env.objc, array);
    retain_each(&mut env.objc, &items);
    proof { lemma_retained_all_len(old(env).objc.objects@, items@); }
    new_array(&mut env.objc, items, true, true)
}

/// The ids `CFArrayCreate` puts in its array: the `n` words at `values`,
/// none when `n` is not positive.
pub open spec fn create_values(m: Seq<u8>, values: u32, n: CFIndex) -> Seq<id> {
    if n > 0 { words_at(m, values as int, n as nat) } else { Seq::empty() }
}

/// `CFArrayCreate`: a new immutable array of the `num_values` objects
/// whose ids are stored at `values`, each retained.
pub fn CFArrayCreate(
    env: &mut Environment,
    allocator: CFAllocatorRef,
    values: u32,
    num_values: CFIndex,
    callbacks: u32,
) -> (r: CFArrayRef)
    requires
        old(env).wf(),
        allocator == kCFAllocatorDefault,
        callbacks == 0,
        old(env).objc.has_room(),
        num_values > 0 ==> values + 4 * num_values <= old(env).mem@.len(),
        can_retain_all(&old(env).objc, create_values(old(env).mem@, values, num_values)),
    ensures
        only_objc_changed(old(env), final(env)),
        r == old(env).objc.objects@.len() + 1,
        ({
            let vals = create_values(old(env).mem@, values, num_values);
            new_array_in(retained_all(old(env).objc.objects@, vals), final(env).objc.objects@, vals, false, true)
        }),
{
    let items = if num_values > 0 {
        env.mem.read_words(values, num_values as u32)
    } else {
        Vec::new()
    };
    assert(items@ =~= create_values(old(env).mem@, values, num_values));
    retain_each(&mut env.objc, &items);
    proof { lemma_retained_all_len(old(env).objc.objects@, items@); }
    new_array(&mut env.objc, items, false, true)
}

/// `CFArrayCreateCopy`: an immutable array is its own copy, retained once
/// more; a mutable one is copied into a new immutable array, its items
/// retained.
pub fn CFArrayCreateCopy(env: &mut Environment, allocator: CFAllocatorRef, array: CFArrayRef) -> (r: CFArrayRef)
    requires
        old(env).wf(),
        allocator == kCFAllocatorDefault,
        is_array(&old(env).objc, array),
        !is_mutable(&old(env).objc, array) ==> old(env).objc.can_retain(array),
        is_mutable(&old(env).objc, array) ==> can_retain_all(&old(env).objc, items_of(&old(env).objc, array))
            && old(env).objc.has_room(),
    ensures
        only_objc_changed(old(env), final(env)),
        !is_mutable(&old(env).objc, array) ==> r == array
            && final(env).objc.objects@ == retained(old(env).objc.objects@, array),
        is_mutable(&old(env).objc, array) ==> r == old(env).objc.objects@.len() + 1
            && new_array_in(retained_all(old(env).objc.objects@, items_of(&old(env).objc, array)),
                final(env).objc.objects@, items_of(&old(env).objc, array), false, true),
{
    let (items, mutable, _) = array_parts(&env.objc, array);
    if !mutable {
        return env.objc.retain(array);
    }
    retain_each(&mut env.objc, &items);
    proof { lemma_retained_all_len(old(env).objc.objects@, items@); }
    new_array(&mut env.objc, items, false, true)
}

/// `CFArrayGetCount`: the number of items (0 for null).
pub fn CFArrayGetCount(env: &mut Environment, array: CFArrayRef) -> (r: CFIndex)
    requires
        array == nil || is_array(&old(env).objc, array),
        array != nil ==> items_of(&old(env).objc, array).len() <= i32::MAX,
    ensures
        *final(env) == *old(env),
        r == if array == nil { 0 } else { items_of(&old(env).objc, array).len() as int },
{
    if array == nil {
        return 0;
    }
    let (items, _, _) = array_parts(&env.objc, array);
    items.len() as CFIndex
}

/// `CFArrayGetValueAtIndex`: the item at `idx`.
pub fn CFArrayGetValueAtIndex(env: &mut Environment, array: CFArrayRef, idx: CFIndex) -> (r: u32)
    requires
        is_array(&old(env).objc, array),
        0 <= idx < items_of(&old(env).objc, array).len(),
    ensures
        *final(env) == *old(env),
        r == items_of(&old(env).objc, array)[idx as int],
{
    let (items, _, _) = array_parts(&env.objc, array);
    items[idx as usize]
}

/// `CFArrayGetValues`: writes the items of `range` one after another to
/// `values`.
pub fn CFArrayGetValues(env: &mut Environment, array: CFArrayRef, range: CFRange, values: u32)
    requires
        old(env).wf(),
        is_array(&old(env).objc, array),
        range.length > 0 ==> {
            &&& 0 <= range.location
            &&& range.location + range.length <= items_of(&old(env).objc, array).len()
            &&& values + 4 * range.length <= old(env).mem@.len()
        },
    ensures
        only_mem_changed(old(env), final(env)),
        range.length <= 0 ==> final(env).mem@ == old(env).mem@,
        range.length > 0 ==> final(env).mem@ == put_words(old(env).mem@, values as int,
            items_of(&old(env).objc, array).subrange(range.location as int, range.location + range.length)),
{
    if range.length <= 0 {
        return;
    }
    let (items, _, _) = array_parts(&env.objc, array);
    let start = range.location as usize;
    let count = range.length as usize;
    let mut out: Vec<u32> = Vec::new();
    let mut i: usize = 0;
    while i < count
        invariant
            i <= count,
            count == range.length,
            start == range.location,
            start + count <= items@.len(),
            out@ == items@.subrange(start as int, start + i),
        decreases count - i,
    {
        out.push(items[start + i]);
        i = i + 1;
        assert(out@ =~= items@.subrange(start as int, start + i));
    }
    env.mem.write_words(values, out.as_slice());
}

/// `CFArrayAppendValue`: adds `value` at the end of a mutable array,
/// retaining it if the array retains its items.
pub fn CFArrayAppendValue(env: &mut Environment, array: CFMutableArrayRef, value: u32)
    requires
        old(env).wf(),
        is_array(&old(env).objc, array),
        is_mutable(&old(env).objc, array),
        value != nil,
        retains_items(&old(env).objc, array) ==> old(env).objc.can_retain(value),
    ensures
        only_objc_changed(old(env), final(env)),
        ({
            let s0 = old(env).objc.objects@;
            let mid = if retains_items(&old(env).objc, array) { retained(s0, value) } else { s0 };
            array_updated(mid, final(env).objc.objects@, array, items_of(&old(env).objc, array).push(value))
        }),
{
    let (mut items, _, retains) = array_parts(&env.objc, array);
    if retains {
        env.objc.retain(value);
    }
    items.push(value);
    set_array_items(&mut env.objc, array, items);
}

/// `CFArrayInsertValueAtIndex`: inserts `value` before the item at `idx`
/// (at the end when `idx` is the count), retaining it if the array retains
/// its items.
pub fn CFArrayInsertValueAtIndex(env: &mut Environment, array: CFMutableArrayRef, idx: CFIndex, value: u32)
    requires
        old(env).wf(),
        is_array(&old(env).objc, array),
        is_mutable(&old(env).objc, array),
        0 <= idx <= items_of(&old(env).objc, array).len(),
        value != nil,
        retains_items(&old(env).objc, array) ==> old(env).objc.can_retain(value),
    ensures
        only_objc_changed(old(env), final(env)),
        ({
            let s0 = old(env).objc.objects@;
            let mid = if retains_items(&old(env).objc, array) { retained(s0, value) } else { s0 };
            array_updated(mid, final(env).objc.objects@, array, items_of(&old(env).objc, array).insert(idx as int, value))
        }),
{
    let (mut items, _, retains) = array_parts(&env.objc, array);
    if retains {
        env.objc.retain(value);
    }
    items.insert(idx as usize, value);
    set_array_items(&mut env.objc, array, items);
}

/// `CFArraySetValueAtIndex`: puts `value` in place of the item at `idx`;
/// a retaining array retains the new item first and releases the old one
/// last.
pub fn CFArraySetValueAtIndex(env: &mut Environment, array: CFMutableArrayRef, idx: CFIndex, value: u32)
    requires
        old(env).wf(),
        is_array(&old(env).objc, array),
        is_mutable(&old(env).objc, array),
        0 <= idx < items_of(&old(env).objc, array).len(),
        value != nil,
        retains_items(&old(env).objc, array) ==> old(env).objc.can_retain(value),
    ensures
        only_objc_changed(old(env), final(env)),
        ({
            let s0 = old(env).objc.objects@;
            let items = items_of(&old(env).objc, array);
            if retains_items(&old(env).objc, array) {
                exists|m: Seq<Option<crate::objc::Object>>|
                    #[trigger] array_updated(retained(s0, value), m, array, items.update(idx as int, value))
                    && released(m, final(env).objc.objects@, items[idx as int])
            } else {
                array_updated(s0, final(env).objc.objects@, array, items.update(idx as int, value))
            }
        }),
{
    let (mut items, _, retains) = array_parts(&env.objc, array);
    if retains {
        env.objc.retain(value);
    }
    let prev = items[idx as usize];
    items.set(idx as usize, value);
    set_array_items(&mut env.objc, array, items);
    if retains {
        let ghost m = env.objc.objects@;
        env.objc.release(prev);
        assert(array_updated(retained(old(env).objc.objects@, value), m, array,
            items_of(&old(env).objc, array).update(idx as int, value)));
    }
}

/// `CFArrayRemoveValueAtIndex`: removes the item at `idx`, releasing it if
/// the array retains its items.
pub fn CFArrayRemoveValueAtIndex(env: &mut Environment, array: CFMutableArrayRef, idx: CFIndex)
    requires
        old(env).wf(),
        is_array(&old(env).objc, array),
        is_mutable(&old(env).objc, array),
        0 <= idx < items_of(&old(env).objc, array).len(),
    ensures
        only_objc_changed(old(env), final(env)),
        ({
            let s0 = old(env).objc.objects@;
            let items = items_of(&old(env).objc, array);
            exists|m: Seq<Option<crate::objc::Object>>|
                #[trigger] array_updated(s0, m, array, items.remove(idx as int))
                && if retains_items(&old(env).objc, array) {
                    released(m, final(env).objc.objects@, items[idx as int])
                } else {
                    final(env).objc.objects@ == m
                }
        }),
{
    let (mut items, _, retains) = array_parts(&env.objc, array);
    let prev = items.remove(idx as usize);
    set_array_items(&mut env.objc, array, items);
    let ghost m = env.objc.objects@;
    if retains {
        env.objc.release(prev);
    }
    assert(array_updated(old(env).objc.objects@, m, array, items_of(&old(env).objc, array).remove(idx as int)));
}

/// `CFArrayRemoveAllValues`: empties a mutable array, then releases the
/// old items in order if the array retains its items.
pub fn CFArrayRemoveAllValues(env: &mut Environment, array: CFMutableArrayRef)
    requires
        old(env).wf(),
        is_array(&old(env).objc, array),
        is_mutable(&old(env).objc, array),
    ensures
        only_objc_changed(old(env), final(env)),
        ({
            let s0 = old(env).objc.objects@;
            let items = items_of(&old(env).objc, array);
            exists|m: Seq<Option<crate::objc::Object>>|
                #[trigger] array_updated(s0, m, array, Seq::empty())
                && if retains_items(&old(env).objc, array) {
                    released_seq(m, final(env).objc.objects@, items)
                } else {
                    final(env).objc.objects@ == m
                }
        }),
{
    let (_, _, retains) = array_parts(&env.objc, array);
    let empty: Vec<id> = Vec::new();
    assert(empty@ =~= Seq::<id>::empty());
    let prev = set_array_items(&mut env.objc, array, empty);
    let ghost m = env.objc.objects@;
    if retains {
        env.objc.release_each(&prev);
    }
    assert(array_updated(old(env).objc.objects@, m, array, Seq::empty()));
}

/// The range `range` lies within the array `array`.
pub open spec fn range_valid(objc: &ObjC, array: id, range: CFRange) -> bool {
    0 <= range.location && 0 <= range.length
        && range.location + range.length <= items_of(objc, array).len()
        && range.location + range.length <= i32::MAX
}

/// What `CFArrayGetFirstIndexOfValue` returns: the index of the first item
/// in `range` equal to `value`, or -1.
pub open spec fn first_index_of(objc: &ObjC, array: id, range: CFRange, value: u32) -> int {
    let s = items_of(objc, array).subrange(range.location as int, range.location + range.length);
    let j = first_equal(objc, s, value);
    if j < s.len() { range.location + j } else { -1 }
}

/// `CFArrayGetFirstIndexOfValue`: the index of the first item in `range`
/// equal (by `isEqual:`) to `value`, or -1 when there is none.
pub fn CFArrayGetFirstIndexOfValue(env: &mut Environment, array: CFArrayRef, range: CFRange, value: u32) -> (r: CFIndex)
    requires
        is_array(&old(env).objc, array),
        range_valid(&old(env).objc, array, range),
    ensures
        *final(env) == *old(env),
        r == first_index_of(&old(env).objc, array, range, value),
{
    let (items, _, _) = array_parts(&env.objc, array);
    let ghost s = items@.subrange(range.location as int, range.location + range.length);
    let start = range.location as usize;
    let count = range.length as usize;
    let mut j: usize = 0;
    while j < count
        invariant
            j <= count,
            count == range.length,
            start == range.location,
            start + count <= items@.len(),
            start + count <= i32::MAX,
            items@ == items_of(&env.objc, array),
            s == items@.subrange(start as int, start + count),
            forall|k: int| 0 <= k < j ==> !objects_equal(&env.objc, #[trigger] s[k], value),
        decreases count - j,
    {
        if is_equal(&env.objc, items[start + j], value) {
            proof {
                assert(first_equal_at(&env.objc, s, value, j as int));
                lemma_first_equal_unique(&env.objc, s, value, j as int);
            }
            return (start + j) as CFIndex;
        }
        j = j + 1;
    }
    proof {
        assert(first_equal_at(&env.objc, s, value, count as int));
        lemma_first_equal_unique(&env.objc, s, value, count as int);
    }
    -1
}

/// `CFArrayContainsValue`: whether some item in `range` equals `value`.
pub fn CFArrayContainsValue(env: &mut Environment, array: CFArrayRef, range: CFRange, value: u32) -> (r: bool)
    requires
        is_array(&old(env).objc, array),
        range_valid(&old(env).objc, array, range),
    ensures
        *final(env) == *old(env),
        r == (first_index_of(&old(env).objc, array, range, value) != -1),
{
    CFArrayGetFirstIndexOfValue(env, array, range, value) != -1
}

/// After `CFArrayAppendValue`, the array is one longer and its last item
/// is the value appended.
pub proof fn law_append_then_last(s0: Seq<Option<crate::objc::Object>>, s1: Seq<Option<crate::objc::Object>>, array: id, items: Seq<id>, value: u32)
    requires
        array_updated(s0, s1, array, items.push(value)),
    ensures
        crate::frameworks::foundation::items_in(s1, array).len() == items.len() + 1,
        crate::frameworks::foundation::items_in(s1, array).last() == value,
{
}

/// Removing the item at `idx` right after inserting one there gives back
/// the items as they were.
pub proof fn law_insert_then_remove(items: Seq<id>, idx: int, value: u32)
    requires
        0 <= idx <= items.len(),
    ensures
        items.insert(idx, value).remove(idx) == items,
{
    assert(items.insert(idx, value).remove(idx) =~= items);
}

} // verus!
