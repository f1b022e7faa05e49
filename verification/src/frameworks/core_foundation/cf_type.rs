//! `CFType`: the functions that work on any Core Foundation object.

use vstd::prelude::*;
use super::{CFHashCode, CFIndex, CFTypeRef};
use crate::environment::{Environment, only_objc_changed};
use crate::objc::{id, nil, ObjC, HostObject, Object, retained, released};
use crate::frameworks::foundation::{is_string, string_of, to_rust_string, check_string, is_equal_to_string};

verus! {

/// The hash of a string: its bytes as a polynomial in 31, modulo 2^32.
pub open spec fn string_hash(s: Seq<u8>) -> u32
    decreases s.len(),
{
    if s.len() == 0 {
        0
    } else {
        ((string_hash(s.drop_last()) * 31 + s.last()) % 0x1_0000_0000) as u32
    }
}

/// `hash` of an object: 0 for `nil`, [string_hash] of a string's bytes, the
/// object's own id for anything else.
pub open spec fn hash_of(objc: &ObjC, o: id) -> u32 {
    if o == nil {
        0
    } else if is_string(objc, o) {
        string_hash(string_of(objc, o))
    } else {
        o
    }
}

/// Computes [string_hash].
pub fn hash_bytes(s: &[u8]) -> (h: u32)
    ensures
        h == string_hash(s@),
{
    let mut h: u32 = 0;
    let mut i: usize = 0;
    while i < s.len()
        invariant
            i <= s@.len(),
            h == string_hash(s@.take(i as int)),
        decreases s@.len() - i,
    {
        proof {
            assert(s@.take(i + 1).drop_last() =~= s@.take(i as int));
        }
        h = ((h as u64 * 31 + s[i] as u64) % 0x1_0000_0000) as u32;
        i = i + 1;
    }
    assert(s@.take(s@.len() as int) =~= s@);
    h
}

/// The lowercase hexadecimal digit for `d` (below 16).
pub open spec fn hex_digit(d: int) -> u8 {
    if d < 10 { (48 + d) as u8 } else { (87 + d) as u8 }
}

/// The last `n` hexadecimal digits of `v`, most significant first.
pub open spec fn hex_digits(v: u32, n: nat) -> Seq<u8>
    decreases n,
{
    if n == 0 {
        Seq::empty()
    } else {
        hex_digits(v / 16, (n - 1) as nat).push(hex_digit((v % 16) as int))
    }
}

/// Computes [hex_digits].
fn hex_digits_of(v: u32, n: u32) -> (r: Vec<u8>)
    ensures
        r@ == hex_digits(v, n as nat),
    decreases n,
{
    if n == 0 {
        Vec::new()
    } else {
        let mut r = hex_digits_of(v / 16, n - 1);
        let d = v % 16;
        r.push(if d < 10 { 48 + d as u8 } else { 87 + d as u8 });
        r
    }
}

/// The text `description` gives: a string's own bytes; for any other
/// object `<0x` and its id in eight hexadecimal digits, then `>`.
pub open spec fn description_text(objc: &ObjC, o: id) -> Seq<u8> {
    if is_string(objc, o) {
        string_of(objc, o)
    } else {
        seq![60u8, 48u8, 120u8] + hex_digits(o, 8) + seq![62u8]
    }
}

/// Computes [description_text] of a live object.
pub fn description(objc: &ObjC, o: id) -> (v: Vec<u8>)
    requires
        objc.live(o),
    ensures
        v@ == description_text(objc, o),
{
    if check_string(objc, o) {
        to_rust_string(objc, o)
    } else {
        let mut v: Vec<u8> = vec![60u8, 48u8, 120u8];
        let digits = hex_digits_of(o, 8);
        let mut i: usize = 0;
        while i < digits.len()
            invariant
                i <= digits@.len(),
                v@ == seq![60u8, 48u8, 120u8] + digits@.take(i as int),
            decreases digits@.len() - i,
        {
            v.push(digits[i]);
            i = i + 1;
            assert(v@ =~= seq![60u8, 48u8, 120u8] + digits@.take(i as int));
        }
        v.push(62u8);
        assert(digits@.take(digits@.len() as int) =~= digits@);
        assert(v@ =~= seq![60u8, 48u8, 120u8] + digits@ + seq![62u8]);
        v
    }
}

/// `CFRetain`: one more reference to the (non-null) object, which is
/// returned.
pub fn CFRetain(env: &mut Environment, object: CFTypeRef) -> (r: CFTypeRef)
    requires
        old(env).wf(),
        object != nil,
        old(env).objc.live(object),
        old(env).objc.can_retain(object),
    ensures
        only_objc_changed(old(env), final(env)),
        final(env).objc.objects@ == retained(old(env).objc.objects@, object),
        r == object,
{
    env.objc.retain(object)
}

/// `CFRelease`: one reference fewer; an object whose last reference this
/// was is deallocated.
pub fn CFRelease(env: &mut Environment, object: CFTypeRef)
    requires
        old(env).wf(),
    ensures
        only_objc_changed(old(env), final(env)),
        released(old(env).objc.objects@, final(env).objc.objects@, object),
{
    env.objc.release(object)
}

/// `CFGetRetainCount`: the retain count, as a signed index (0 for null).
pub fn CFGetRetainCount(env: &mut Environment, object: CFTypeRef) -> (r: CFIndex)
    requires
        object == nil || old(env).objc.live(object),
    ensures
        *final(env) == *old(env),
        r == (if object == nil { 0 } else { old(env).objc.obj(object).retain_count }) as i32,
{
    let count = env.objc.retain_count(object);
    count as CFIndex
}

/// `CFEqual`: an object equals itself; otherwise both must be strings,
/// equal when their bytes are.
pub fn CFEqual(env: &mut Environment, object1: CFTypeRef, object2: CFTypeRef) -> (r: bool)
    requires
        object1 != object2 ==> is_string(&old(env).objc, object1) && is_string(&old(env).objc, object2),
    ensures
        *final(env) == *old(env),
        r == (object1 == object2 || string_of(&old(env).objc, object1) == string_of(&old(env).objc, object2)),
{
    if object1 == object2 {
        return true;
    }
    is_equal_to_string(&env.objc, object1, object2)
}

/// `CFHash`; see [hash_of].
pub fn CFHash(env: &mut Environment, object: CFTypeRef) -> (r: CFHashCode)
    requires
        object == nil || old(env).objc.live(object),
    ensures
        *final(env) == *old(env),
        r == hash_of(&old(env).objc, object),
{
    if object == nil {
        return 0;
    }
    match env.objc.host(object) {
        HostObject::String(b) => hash_bytes(b.as_slice()),
        _ => object,
    }
}

/// `CFShow`: the text to print for the object: `None` for null, else its
/// description.
pub fn CFShow(env: &mut Environment, object: CFTypeRef) -> (r: Option<Vec<u8>>)
    requires
        object == nil || old(env).objc.live(object),
    ensures
        *final(env) == *old(env),
        object == nil ==> r is None,
        object != nil ==> (r matches Some(v) && v@ == description_text(&old(env).objc, object)),
{
    if object == nil {
        return None;
    }
    Some(description(&env.objc, object))
}

/// `CFCopyDescription`: null for null; for a string, the string itself
/// with one more reference; for any other object, a new string holding its
/// description, with one reference held by the caller.
pub fn CFCopyDescription(env: &mut Environment, object: CFTypeRef) -> (r: CFTypeRef)
    requires
        old(env).wf(),
        object == nil || old(env).objc.live(object),
        object != nil ==> old(env).objc.can_retain(object) && old(env).objc.has_room(),
    ensures
        only_objc_changed(old(env), final(env)),
        object == nil ==> r == nil && final(env).objc.objects@ == old(env).objc.objects@,
        object != nil && is_string(&old(env).objc, object) ==> r == object
            && final(env).objc.objects@ == retained(old(env).objc.objects@, object),
        object != nil && !is_string(&old(env).objc, object) ==> {
            &&& r == old(env).objc.objects@.len() + 1
            &&& final(env).objc.objects@ == old(env).objc.objects@.push(Some(Object {
                    retain_count: 1,
                    is_static: false,
                    host: HostObject::String(final(env).objc.host_of(r)->String_0),
                }))
            &&& string_of(&final(env).objc, r) == description_text(&old(env).objc, object)
        },
{
    if object == nil {
        return nil;
    }
    if check_string(&env.objc, object) {
        return env.objc.retain(object);
    }
    let text = description(&env.objc, object);
    env.objc.alloc_object(HostObject::String(text))
}

/// `CFGetAllocator`: the default allocator, null.
pub fn CFGetAllocator(env: &mut Environment, object: CFTypeRef) -> (r: CFTypeRef)
    ensures
        *final(env) == *old(env),
        r == nil,
{
    nil
}

/// `CFMakeCollectable`: the object itself (there is no garbage collector).
pub fn CFMakeCollectable(env: &mut Environment, object: CFTypeRef) -> (r: CFTypeRef)
    ensures
        *final(env) == *old(env),
        r == object,
{
    object
}

/// `CFIsCollectable`: never.
pub fn CFIsCollectable(env: &mut Environment, object: CFTypeRef) -> (r: bool)
    ensures
        *final(env) == *old(env),
        !r,
{
    false
}

/// `CFGetRetainCountNullable`: 0 for null, else the retain count as a
/// signed index.
pub fn CFGetRetainCountNullable(env: &mut Environment, object: CFTypeRef) -> (r: CFIndex)
    requires
        object == nil || old(env).objc.live(object),
    ensures
        *final(env) == *old(env),
        r == (if object == nil { 0 } else { old(env).objc.obj(object).retain_count }) as i32,
{
    if object == nil {
        0
    } else {
        let count = env.objc.retain_count(object);
        count as CFIndex
    }
}

/// Objects `CFEqual` finds equal have the same `CFHash`.
pub proof fn law_equal_objects_hash_equal(objc: &ObjC, a: id, b: id)
    requires
        a != nil,
        b != nil,
        a == b || (is_string(objc, a) && is_string(objc, b) && string_of(objc, a) == string_of(objc, b)),
    ensures
        hash_of(objc, a) == hash_of(objc, b),
{
}

} // verus!
