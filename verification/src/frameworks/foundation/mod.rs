//! Foundation's strings, arrays and dictionaries, as the other frameworks
//! use them.

use vstd::prelude::*;
use crate::objc::{id, nil, ObjC, HostObject, Object, retained, copy_ids};

verus! {

pub type NSUInteger = u32;
pub type NSInteger = i32;

/// `o` is a live string.
pub open spec fn is_string(objc: &ObjC, o: id) -> bool {
    objc.live(o) && objc.host_of(o) is String
}

/// The bytes of the string `o`.
pub open spec fn string_of(objc: &ObjC, o: id) -> Seq<u8> {
    match objc.host_of(o) {
        HostObject::String(b) => b@,
        _ => Seq::empty(),
    }
}

/// `o` names a live object of the store `s`.
pub open spec fn live_in(s: Seq<Option<Object>>, o: id) -> bool {
    1 <= o <= s.len() && s[o - 1] is Some
}

/// `o` is a live array in the store `s`.
pub open spec fn is_array_in(s: Seq<Option<Object>>, o: id) -> bool {
    live_in(s, o) && s[o - 1]->0.host is Array
}

/// The items of the array `o` in the store `s`.
pub open spec fn items_in(s: Seq<Option<Object>>, o: id) -> Seq<id> {
    match s[o - 1]->0.host {
        HostObject::Array { items, .. } => items@,
        _ => Seq::empty(),
    }
}

/// Whether the array `o` in the store `s` is mutable, and whether it
/// retains its items.
pub open spec fn array_flags_in(s: Seq<Option<Object>>, o: id) -> (bool, bool) {
    match s[o - 1]->0.host {
        HostObject::Array { mutable, retains_items, .. } => (mutable, retains_items),
        _ => (false, false),
    }
}

/// `o` is a live array.
pub open spec fn is_array(objc: &ObjC, o: id) -> bool {
    is_array_in(objc.objects@, o)
}

/// The items of the array `o`.
pub open spec fn items_of(objc: &ObjC, o: id) -> Seq<id> {
    items_in(objc.objects@, o)
}

/// `s1` is `s0` with the items of the array `o` replaced by `items`, and
/// nothing else changed.
pub open spec fn array_updated(s0: Seq<Option<Object>>, s1: Seq<Option<Object>>, o: id, items: Seq<id>) -> bool {
    &&& s1.len() == s0.len()
    &&& is_array_in(s0, o)
    &&& is_array_in(s1, o)
    &&& s1[o - 1]->0.retain_count == s0[o - 1]->0.retain_count
    &&& s1[o - 1]->0.is_static == s0[o - 1]->0.is_static
    &&& items_in(s1, o) == items
    &&& array_flags_in(s1, o) == array_flags_in(s0, o)
    &&& forall|i: int| 0 <= i < s1.len() && i != o - 1 ==> #[trigger] s1[i] == s0[i]
}

/// A new store entry: an array with these items and flags, one reference.
pub open spec fn new_array_in(s0: Seq<Option<Object>>, s1: Seq<Option<Object>>, items: Seq<id>, mutable: bool, retains: bool) -> bool {
    let o = (s0.len() + 1) as id;
    &&& s1.len() == s0.len() + 1
    &&& s1.take(s0.len() as int) == s0
    &&& is_array_in(s1, o)
    &&& s1[o - 1]->0.retain_count == 1
    &&& !s1[o - 1]->0.is_static
    &&& items_in(s1, o) == items
    &&& array_flags_in(s1, o) == (mutable, retains)
}

/// Replaces the items of the array `o`, returning the old ones.
pub fn set_array_items(objc: &mut ObjC, o: id, items: Vec<id>) -> (prev: Vec<id>)
    requires
        is_array(old(objc), o),
    ensures
        prev@ == items_of(old(objc), o),
        array_updated(old(objc).objects@, final(objc).objects@, o, items@),
{
    let h = objc.replace_host(o, HostObject::Plain);
    match h {
        HostObject::Array { items: prev, mutable, retains_items } => {
            objc.replace_host(o, HostObject::Array { items, mutable, retains_items });
            prev
        },
        _ => vstd::pervasive::unreached(),
    }
}

/// A copy of the items of the array `o` and its flags.
pub fn array_parts(objc: &ObjC, o: id) -> (r: (Vec<id>, bool, bool))
    requires
        is_array(objc, o),
    ensures
        r.0@ == items_of(objc, o),
        (r.1, r.2) == array_flags_in(objc.objects@, o),
{
    match objc.host(o) {
        HostObject::Array { items, mutable, retains_items } => (copy_ids(items), *mutable, *retains_items),
        _ => vstd::pervasive::unreached(),
    }
}

/// Whether `o` is a live array.
pub fn check_array(objc: &ObjC, o: id) -> (r: bool)
    ensures
        r == is_array(objc, o),
{
    if !objc.is_live(o) {
        return false;
    }
    match objc.host(o) {
        HostObject::Array { .. } => true,
        _ => false,
    }
}

/// `o` is a live dictionary.
pub open spec fn is_dictionary(objc: &ObjC, o: id) -> bool {
    objc.live(o) && objc.host_of(o) is Dictionary
}

/// `isEqual:` as far as the classes here define it: strings are equal when
/// their bytes are, any other object only to itself, and `nil` to nothing.
pub open spec fn objects_equal(objc: &ObjC, a: id, b: id) -> bool {
    a != nil && (a == b || (is_string(objc, a) && is_string(objc, b) && string_of(objc, a) == string_of(objc, b)))
}

/// `idx` is the first position in `s` holding an object equal to `key`,
/// or `s.len()` when there is none.
pub open spec fn first_equal_at(objc: &ObjC, s: Seq<id>, key: id, idx: int) -> bool {
    &&& 0 <= idx <= s.len()
    &&& forall|j: int| 0 <= j < idx ==> !objects_equal(objc, #[trigger] s[j], key)
    &&& idx < s.len() ==> objects_equal(objc, s[idx], key)
}

/// Whether two byte strings are equal.
pub fn bytes_equal(a: &[u8], b: &[u8]) -> (r: bool)
    ensures
        r == (a@ == b@),
{
    if a.len() != b.len() {
        return false;
    }
    let mut i: usize = 0;
    while i < a.len()
        invariant
            a@.len() == b@.len(),
            i <= a@.len(),
            forall|j: int| 0 <= j < i ==> a@[j] == b@[j],
        decreases a@.len() - i,
    {
        if a[i] != b[i] {
            return false;
        }
        i = i + 1;
    }
    assert(a@ =~= b@);
    true
}

/// A copy of the bytes of the string `o`.
pub fn to_rust_string(objc: &ObjC, o: id) -> (v: Vec<u8>)
    requires
        is_string(objc, o),
    ensures
        v@ == string_of(objc, o),
{
    match objc.host(o) {
        HostObject::String(b) => {
            let mut v: Vec<u8> = Vec::new();
            let mut i: usize = 0;
            while i < b.len()
                invariant
                    i <= b@.len(),
                    v@ == b@.take(i as int),
                decreases b@.len() - i,
            {
                v.push(b[i]);
                i = i + 1;
                assert(v@ =~= b@.take(i as int));
            }
            assert(b@.take(b@.len() as int) =~= b@);
            v
        },
        _ => vstd::pervasive::unreached(),
    }
}

/// Whether `o` is a live string.
pub fn check_string(objc: &ObjC, o: id) -> (r: bool)
    ensures
        r == is_string(objc, o),
{
    if !objc.is_live(o) {
        return false;
    }
    match objc.host(o) {
        HostObject::String(_) => true,
        _ => false,
    }
}

/// `isEqual:` of `a` and `b`; see [objects_equal].
pub fn is_equal(objc: &ObjC, a: id, b: id) -> (r: bool)
    ensures
        r == objects_equal(objc, a, b),
{
    if a == nil {
        return false;
    }
    if a == b {
        return true;
    }
    if !check_string(objc, a) || !check_string(objc, b) {
        return false;
    }
    match (objc.host(a), objc.host(b)) {
        (HostObject::String(x), HostObject::String(y)) => bytes_equal(x.as_slice(), y.as_slice()),
        _ => false,
    }
}

/// `isEqualToString:` of two strings.
pub fn is_equal_to_string(objc: &ObjC, a: id, b: id) -> (r: bool)
    requires
        is_string(objc, a),
        is_string(objc, b),
    ensures
        r == (string_of(objc, a) == string_of(objc, b)),
{
    match (objc.host(a), objc.host(b)) {
        (HostObject::String(x), HostObject::String(y)) => bytes_equal(x.as_slice(), y.as_slice()),
        _ => vstd::pervasive::unreached(),
    }
}

/// A new string holding `bytes`, with one reference held by the caller.
pub fn from_rust_string(objc: &mut ObjC, bytes: Vec<u8>) -> (o: id)
    requires
        old(objc).has_room(),
    ensures
        o == old(objc).objects@.len() + 1,
        final(objc).objects@ == old(objc).objects@.push(Some(Object {
            retain_count: 1,
            is_static: false,
            host: HostObject::String(bytes),
        })),
{
    objc.alloc_object(HostObject::String(bytes))
}

/// The static string object whose bytes are `s`, made on first use.
pub fn get_static_str(objc: &mut ObjC, s: &[u8]) -> (o: id)
    requires
        old(objc).has_room(),
    ensures
        final(objc).live(o),
        final(objc).obj(o).is_static,
        is_string(final(objc), o),
        string_of(final(objc), o) == s@,
        final(objc).objects@ == old(objc).objects@ || (o == old(objc).objects@.len() + 1
            && final(objc).objects@ == old(objc).objects@.push(Some(Object {
                retain_count: u32::MAX,
                is_static: true,
                host: HostObject::String(final(objc).host_of(o)->String_0),
            }))),
        old(objc).live(o) ==> final(objc).objects@ == old(objc).objects@,
{
    let n = objc.objects.len();
    let mut i: usize = 0;
    while i < n
        invariant
            n == objc.objects@.len(),
            objc.objects@ == old(objc).objects@,
            old(objc).has_room(),
            i <= n,
        decreases n - i,
    {
        match &objc.objects[i] {
            Some(obj) => {
                if obj.is_static {
                    match &obj.host {
                        HostObject::String(b) => {
                            if bytes_equal(b.as_slice(), s) {
                                return (i + 1) as u32;
                            }
                        },
                        _ => {},
                    }
                }
            },
            None => {},
        }
        i = i + 1;
    }
    let mut bytes: Vec<u8> = Vec::new();
    let mut k: usize = 0;
    while k < s.len()
        invariant
            k <= s@.len(),
            bytes@ == s@.take(k as int),
        decreases s@.len() - k,
    {
        bytes.push(s[k]);
        k = k + 1;
        assert(bytes@ =~= s@.take(k as int));
    }
    assert(s@.take(s@.len() as int) =~= s@);
    objc.alloc_static_object(HostObject::String(bytes))
}

/// A new immutable array that takes over one reference to each of `items`
/// (the caller's), with one reference to the array held by the caller.
pub fn array_from_vec(objc: &mut ObjC, items: Vec<id>) -> (o: id)
    requires
        old(objc).has_room(),
    ensures
        o == old(objc).objects@.len() + 1,
        new_array_in(old(objc).objects@, final(objc).objects@, items@, false, true),
{
    new_array(objc, items, false, true)
}

/// A new array with these items and flags, with one reference held by the
/// caller; it takes over no references to the items.
pub fn new_array(objc: &mut ObjC, items: Vec<id>, mutable: bool, retains_items: bool) -> (o: id)
    requires
        old(objc).has_room(),
    ensures
        o == old(objc).objects@.len() + 1,
        new_array_in(old(objc).objects@, final(objc).objects@, items@, mutable, retains_items),
{
    let o = objc.alloc_object(HostObject::Array { items, mutable, retains_items });
    assert(objc.objects@.take(old(objc).objects@.len() as int) =~= old(objc).objects@);
    o
}

/// The store after retaining each of `items` in turn.
pub open spec fn retained_all(s: Seq<Option<Object>>, items: Seq<id>) -> Seq<Option<Object>>
    decreases items.len(),
{
    if items.len() == 0 {
        s
    } else {
        retained(retained_all(s, items.drop_last()), items.last())
    }
}

/// Retaining a list of objects leaves the store's size as it was.
pub proof fn lemma_retained_all_len(s: Seq<Option<Object>>, items: Seq<id>)
    ensures
        retained_all(s, items).len() == s.len(),
    decreases items.len(),
{
    if items.len() > 0 {
        lemma_retained_all_len(s, items.drop_last());
    }
}

/// Retaining a list of objects leaves every slot's kind and data as it
/// was.
pub proof fn lemma_retained_all_host(s: Seq<Option<Object>>, items: Seq<id>, k: int)
    requires
        0 <= k < s.len(),
    ensures
        (retained_all(s, items)[k] is Some) == (s[k] is Some),
        s[k] is Some ==> {
            &&& retained_all(s, items)[k]->0.host == s[k]->0.host
            &&& retained_all(s, items)[k]->0.is_static == s[k]->0.is_static
        },
    decreases items.len(),
{
    lemma_retained_all_len(s, items);
    if items.len() > 0 {
        lemma_retained_all_host(s, items.drop_last(), k);
        lemma_retained_all_len(s, items.drop_last());
    }
}

/// Retaining a list of objects leaves every slot's kind and data as it was
/// and raises each count by at most the length of the list.
pub proof fn lemma_retained_all(s: Seq<Option<Object>>, items: Seq<id>, k: int)
    requires
        0 <= k < s.len(),
        s[k] is Some && !s[k]->0.is_static ==> s[k]->0.retain_count + items.len() <= u32::MAX,
    ensures
        (retained_all(s, items)[k] is Some) == (s[k] is Some),
        s[k] is Some ==> {
            &&& retained_all(s, items)[k]->0.host == s[k]->0.host
            &&& retained_all(s, items)[k]->0.is_static == s[k]->0.is_static
            &&& s[k]->0.retain_count <= retained_all(s, items)[k]->0.retain_count
            &&& !s[k]->0.is_static ==> retained_all(s, items)[k]->0.retain_count <= s[k]->0.retain_count + items.len()
            &&& s[k]->0.is_static ==> retained_all(s, items)[k]->0.retain_count == s[k]->0.retain_count
        },
    decreases items.len(),
{
    lemma_retained_all_len(s, items);
    if items.len() > 0 {
        lemma_retained_all(s, items.drop_last(), k);
        lemma_retained_all_len(s, items.drop_last());
    }
}

/// No retain of any of `items` can overflow, whichever order they come in.
pub open spec fn can_retain_all(objc: &ObjC, items: Seq<id>) -> bool {
    forall|j: int| 0 <= j < items.len() && #[trigger] objc.counted(items[j])
        ==> objc.obj(items[j]).retain_count + items.len() < u32::MAX
}

/// Retains each of `items` in turn.
pub fn retain_each(objc: &mut ObjC, items: &Vec<id>)
    requires
        can_retain_all(old(objc), items@),
    ensures
        final(objc).objects@ == retained_all(old(objc).objects@, items@),
{
    let ghost s0 = objc.objects@;
    let mut i: usize = 0;
    while i < items.len()
        invariant
            i <= items@.len(),
            s0 == old(objc).objects@,
            can_retain_all(old(objc), items@),
            objc.objects@ == retained_all(s0, items@.take(i as int)),
        decreases items@.len() - i,
    {
        let o = items[i];
        proof {
            lemma_retained_all_len(s0, items@.take(i as int));
            assert(items@[i as int] == o);
            if 1 <= o <= s0.len() {
                let k = o - 1;
                if s0[k] is Some && !s0[k]->0.is_static {
                    assert(old(objc).counted(items@[i as int]));
                }
                lemma_retained_all(s0, items@.take(i as int), k);
            }
        }
        objc.retain(o);
        i = i + 1;
        assert(items@.take(i as int).drop_last() =~= items@.take(i - 1));
    }
    assert(items@.take(items@.len() as int) =~= items@);
}

} // verus!

verus! {

/// The keys of the dictionary `o`.
pub open spec fn keys_of(objc: &ObjC, o: id) -> Seq<id> {
    match objc.host_of(o) {
        HostObject::Dictionary { keys, .. } => keys@,
        _ => Seq::empty(),
    }
}

/// The values of the dictionary `o`.
pub open spec fn values_of(objc: &ObjC, o: id) -> Seq<id> {
    match objc.host_of(o) {
        HostObject::Dictionary { values, .. } => values@,
        _ => Seq::empty(),
    }
}

/// A well-formed dictionary: as many values as keys.
pub open spec fn is_dict_wf(objc: &ObjC, o: id) -> bool {
    is_dictionary(objc, o) && keys_of(objc, o).len() == values_of(objc, o).len()
}

/// `k` is a string key with the bytes `key`.
pub open spec fn key_matches(objc: &ObjC, k: id, key: Seq<u8>) -> bool {
    is_string(objc, k) && string_of(objc, k) == key
}

/// `idx` is the first position of `keys` whose key is the string `key`, or
/// `keys.len()` when none is.
pub open spec fn first_key_at(objc: &ObjC, keys: Seq<id>, key: Seq<u8>, idx: int) -> bool {
    &&& 0 <= idx <= keys.len()
    &&& forall|j: int| 0 <= j < idx ==> !key_matches(objc, #[trigger] keys[j], key)
    &&& idx < keys.len() ==> key_matches(objc, keys[idx], key)
}

/// `objectForKey:` with a string key: the value under the first key equal
/// to `key`, `nil` when there is none or the dictionary is `nil`.
pub open spec fn lookup(objc: &ObjC, dict: id, key: Seq<u8>) -> id {
    if dict == nil {
        nil
    } else if first_key(objc, keys_of(objc, dict), key) < keys_of(objc, dict).len() {
        values_of(objc, dict)[first_key(objc, keys_of(objc, dict), key)]
    } else {
        nil
    }
}

/// The first position of `keys` whose key is the string `key`, or
/// `keys.len()`.
pub open spec fn first_key(objc: &ObjC, keys: Seq<id>, key: Seq<u8>) -> int {
    choose|j: int| first_key_at(objc, keys, key, j)
}

/// The first position holding the key is unique.
proof fn lemma_first_key_unique(objc: &ObjC, keys: Seq<id>, key: Seq<u8>, j: int)
    requires
        first_key_at(objc, keys, key, j),
    ensures
        first_key(objc, keys, key) == j,
{
    let k = first_key(objc, keys, key);
    assert(first_key_at(objc, keys, key, k));
    if k < j {
        assert(!key_matches(objc, keys[k], key));
    } else if j < k {
        assert(!key_matches(objc, keys[j], key));
    }
}

/// Whether `k` is a string with the bytes `key`.
pub fn check_key(objc: &ObjC, k: id, key: &[u8]) -> (r: bool)
    ensures
        r == key_matches(objc, k, key@),
{
    if !check_string(objc, k) {
        return false;
    }
    match objc.host(k) {
        HostObject::String(b) => bytes_equal(b.as_slice(), key),
        _ => false,
    }
}

/// Computes [lookup].
pub fn dictionary_lookup(objc: &ObjC, dict: id, key: &[u8]) -> (r: id)
    requires
        dict == nil || is_dict_wf(objc, dict),
    ensures
        r == lookup(objc, dict, key@),
{
    if dict == nil {
        return nil;
    }
    match objc.host(dict) {
        HostObject::Dictionary { keys, values } => {
            let mut j: usize = 0;
            while j < keys.len()
                invariant
                    dict != nil,
                    j <= keys@.len(),
                    keys@ == keys_of(objc, dict),
                    values@ == values_of(objc, dict),
                    keys@.len() == values@.len(),
                    forall|k: int| 0 <= k < j ==> !key_matches(objc, #[trigger] keys@[k], key@),
                decreases keys@.len() - j,
            {
                if check_key(objc, keys[j], key) {
                    proof {
                        assert(keys_of(objc, dict) == keys@);
                        assert(first_key_at(objc, keys_of(objc, dict), key@, j as int));
                        lemma_first_key_unique(objc, keys_of(objc, dict), key@, j as int);
                        assert(values_of(objc, dict)[j as int] == values@[j as int]);


                    }
                    return values[j];
                }
                j = j + 1;
            }
            proof { lemma_first_key_unique(objc, keys_of(objc, dict), key@, j as int); }
            nil
        },
        _ => vstd::pervasive::unreached(),
    }
}

/// A new dictionary of `keys` and `values` side by side, taking over one
/// reference to each (the caller's), with one reference to the dictionary
/// held by the caller.
pub fn new_dictionary(objc: &mut ObjC, keys: Vec<id>, values: Vec<id>) -> (o: id)
    requires
        old(objc).has_room(),
        keys@.len() == values@.len(),
    ensures
        o == old(objc).objects@.len() + 1,
        final(objc).objects@.len() == old(objc).objects@.len() + 1,
        final(objc).objects@.take(old(objc).objects@.len() as int) == old(objc).objects@,
        is_dict_wf(final(objc), o),
        final(objc).obj(o).retain_count == 1,
        !final(objc).obj(o).is_static,
        keys_of(final(objc), o) == keys@,
        values_of(final(objc), o) == values@,
{
    let o = objc.alloc_object(HostObject::Dictionary { keys, values });
    assert(objc.objects@.take(old(objc).objects@.len() as int) =~= old(objc).objects@);
    o
}

/// The first position of `keys` holding an object equal to `key`, or
/// `keys.len()`.
pub open spec fn first_equal(objc: &ObjC, keys: Seq<id>, key: id) -> int {
    choose|j: int| first_equal_at(objc, keys, key, j)
}

/// `objectForKey:`: the value under the first key equal (by `isEqual:`) to
/// `key`, `nil` when there is none or the dictionary is `nil`.
pub open spec fn lookup_object(objc: &ObjC, dict: id, key: id) -> id {
    if dict == nil {
        nil
    } else if first_equal(objc, keys_of(objc, dict), key) < keys_of(objc, dict).len() {
        values_of(objc, dict)[first_equal(objc, keys_of(objc, dict), key)]
    } else {
        nil
    }
}

/// The first position holding an equal object is unique.
pub proof fn lemma_first_equal_unique(objc: &ObjC, s: Seq<id>, key: id, j: int)
    requires
        first_equal_at(objc, s, key, j),
    ensures
        first_equal(objc, s, key) == j,
{
    let k = first_equal(objc, s, key);
    assert(first_equal_at(objc, s, key, k));
    if k < j {
        assert(!objects_equal(objc, s[k], key));
    } else if j < k {
        assert(!objects_equal(objc, s[j], key));
    }
}

/// Computes [lookup_object].
pub fn dictionary_get(objc: &ObjC, dict: id, key: id) -> (r: id)
    requires
        dict == nil || is_dict_wf(objc, dict),
    ensures
        r == lookup_object(objc, dict, key),
{
    if dict == nil {
        return nil;
    }
    match objc.host(dict) {
        HostObject::Dictionary { keys, values } => {
            let mut j: usize = 0;
            while j < keys.len()
                invariant
                    dict != nil,
                    j <= keys@.len(),
                    keys@ == keys_of(objc, dict),
                    values@ == values_of(objc, dict),
                    keys@.len() == values@.len(),
                    forall|k: int| 0 <= k < j ==> !objects_equal(objc, #[trigger] keys@[k], key),
                decreases keys@.len() - j,
            {
                if is_equal(objc, keys[j], key) {
                    proof {
                        assert(first_equal_at(objc, keys_of(objc, dict), key, j as int));
                        lemma_first_equal_unique(objc, keys_of(objc, dict), key, j as int);
                    }
                    return values[j];
                }
                j = j + 1;
            }
            proof { lemma_first_equal_unique(objc, keys_of(objc, dict), key, j as int); }
            nil
        },
        _ => vstd::pervasive::unreached(),
    }
}

} // verus!
