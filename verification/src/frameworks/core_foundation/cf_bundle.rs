//! `CFBundle`: here the same objects as `NSBundle`.

use vstd::prelude::*;
use super::CFTypeRef;
use super::cf_array::CFArrayRef;
use crate::environment::{Environment, only_objc_changed, only_objects_changed};
use crate::objc::{id, nil, ObjC, HostObject, Object, retained};
use crate::frameworks::foundation::{
    is_string, string_of, is_array, items_of, is_dict_wf, lookup, dictionary_lookup, to_rust_string,
    array_from_vec, array_parts, new_array_in, retain_each, retained_all, can_retain_all,
    lemma_retained_all_len, check_key, get_static_str, lookup_object, dictionary_get,
};

verus! {

/// What a bundle knows of itself: its information dictionaries and the
/// localizations listed in its `Info.plist`.
pub struct BundleData {
    pub info: id,
    pub localized_info: id,
    pub localizations: Vec<Vec<u8>>,
}

pub type CFBundleRef = CFTypeRef;
pub type CFStringRef = CFTypeRef;

/// `"CFBundleVersion"`.
pub open spec fn version_key() -> Seq<u8> {
    seq![67u8, 70, 66, 117, 110, 100, 108, 101, 86, 101, 114, 115, 105, 111, 110]
}

/// `"CFBundleIdentifier"`.
pub open spec fn identifier_key() -> Seq<u8> {
    seq![67u8, 70, 66, 117, 110, 100, 108, 101, 73, 100, 101, 110, 116, 105, 102, 105, 101, 114]
}

/// `"CFBundleDevelopmentRegion"`.
pub open spec fn development_region_key() -> Seq<u8> {
    seq![67u8, 70, 66, 117, 110, 100, 108, 101, 68, 101, 118, 101, 108, 111, 112, 109, 101, 110, 116,
        82, 101, 103, 105, 111, 110]
}

/// `"en"`.
pub open spec fn english() -> Seq<u8> {
    seq![101u8, 110]
}

/// The views of a list of byte vectors.
pub open spec fn views(v: Seq<Vec<u8>>) -> Seq<Seq<u8>> {
    Seq::new(v.len(), |k: int| v[k]@)
}

/// `o` is a live bundle.
pub open spec fn is_bundle(objc: &ObjC, o: id) -> bool {
    objc.live(o) && objc.host_of(o) is Bundle
}

/// What the bundle `b` knows of itself: its own data, or the application's
/// for the main bundle.
pub open spec fn bundle_data(env: &Environment, b: id) -> BundleData {
    match env.objc.host_of(b) {
        HostObject::Bundle(Some(d)) => d,
        _ => env.framework_state.app_bundle,
    }
}

/// The localizations of bundle data, as byte strings.
pub open spec fn localizations_of(d: BundleData) -> Seq<Seq<u8>> {
    views(d.localizations@)
}

/// The user's preferred languages, as byte strings.
pub open spec fn preferred_languages(env: &Environment) -> Seq<Seq<u8>> {
    views(env.framework_state.preferred_languages@)
}

/// A bundle whose information dictionaries are usable.
pub open spec fn bundle_wf(env: &Environment, b: id) -> bool {
    &&& is_bundle(&env.objc, b)
    &&& bundle_data(env, b).info == nil || is_dict_wf(&env.objc, bundle_data(env, b).info)
    &&& bundle_data(env, b).localized_info == nil || is_dict_wf(&env.objc, bundle_data(env, b).localized_info)
}

/// The bundle's information dictionary and localized one.
fn bundle_dicts(env: &Environment, b: id) -> (r: (id, id))
    requires
        is_bundle(&env.objc, b),
    ensures
        r.0 == bundle_data(env, b).info,
        r.1 == bundle_data(env, b).localized_info,
{
    match env.objc.host(b) {
        HostObject::Bundle(Some(d)) => (d.info, d.localized_info),
        HostObject::Bundle(None) => (env.framework_state.app_bundle.info, env.framework_state.app_bundle.localized_info),
        _ => vstd::pervasive::unreached(),
    }
}

/// A copy of a list of byte strings.
fn copy_strings(v: &Vec<Vec<u8>>) -> (r: Vec<Vec<u8>>)
    ensures
        views(r@) == views(v@),
{
    let mut r: Vec<Vec<u8>> = Vec::new();
    let mut i: usize = 0;
    while i < v.len()
        invariant
            i <= v@.len(),
            r@.len() == i,
            forall|k: int| 0 <= k < i ==> (#[trigger] r@[k])@ == v@[k]@,
        decreases v@.len() - i,
    {
        let s = &v[i];
        let mut c: Vec<u8> = Vec::new();
        let mut k: usize = 0;
        while k < s.len()
            invariant
                k <= s@.len(),
                c@ == s@.take(k as int),
            decreases s@.len() - k,
        {
            c.push(s[k]);
            k = k + 1;
            assert(c@ =~= s@.take(k as int));
        }
        assert(s@.take(s@.len() as int) =~= s@);
        r.push(c);
        i = i + 1;
    }
    assert(views(r@) =~= views(v@));
    r
}

/// The localizations the bundle `b` knows of.
fn bundle_localizations(env: &Environment, b: id) -> (r: Vec<Vec<u8>>)
    requires
        is_bundle(&env.objc, b),
    ensures
        views(r@) == localizations_of(bundle_data(env, b)),
{
    match env.objc.host(b) {
        HostObject::Bundle(Some(d)) => copy_strings(&d.localizations),
        HostObject::Bundle(None) => copy_strings(&env.framework_state.app_bundle.localizations),
        _ => vstd::pervasive::unreached(),
    }
}

/// `CFBundleGetMainBundle`: the application's bundle, made (static) on
/// first use.
pub fn CFBundleGetMainBundle(env: &mut Environment) -> (r: CFBundleRef)
    requires
        old(env).wf(),
        old(env).framework_state.main_bundle == nil ==> old(env).objc.has_room(),
    ensures
        only_objects_changed(old(env), final(env)),
        old(env).framework_state.main_bundle != nil ==> r == old(env).framework_state.main_bundle
            && *final(env) == *old(env),
        old(env).framework_state.main_bundle == nil ==> {
            &&& r == old(env).objc.objects@.len() + 1
            &&& final(env).objc.objects@ == old(env).objc.objects@.push(Some(Object {
                    retain_count: u32::MAX,
                    is_static: true,
                    host: HostObject::Bundle(None),
                }))
            &&& final(env).framework_state == (crate::frameworks::FrameworkState { main_bundle: r, ..old(env).framework_state })
        },
{
    if env.framework_state.main_bundle != nil {
        return env.framework_state.main_bundle;
    }
    let b = env.objc.alloc_static_object(HostObject::Bundle(None));
    env.framework_state.main_bundle = b;
    b
}

/// `CFBundleGetValueForInfoDictionaryKey`: the value under `key` in the
/// bundle's information dictionary, or null.
pub fn CFBundleGetValueForInfoDictionaryKey(env: &mut Environment, bundle: CFBundleRef, key: CFStringRef) -> (r: CFTypeRef)
    requires
        bundle_wf(old(env), bundle),
    ensures
        *final(env) == *old(env),
        r == lookup_object(&old(env).objc, bundle_data(old(env), bundle).info, key),
{
    let (info, _) = bundle_dicts(env, bundle);
    dictionary_get(&env.objc, info, key)
}

/// Decimal digits only.
pub open spec fn all_digits(p: Seq<u8>) -> bool {
    forall|i: int| 0 <= i < p.len() ==> 48 <= #[trigger] p[i] <= 57
}

/// The value of a string of decimal digits.
pub open spec fn digits_value(p: Seq<u8>) -> nat
    decreases p.len(),
{
    if p.len() == 0 {
        0
    } else {
        digits_value(p.drop_last()) * 10 + (p.last() - 48) as nat
    }
}

/// The digits of an unsigned number: without one leading `+`.
pub open spec fn unsigned_digits(p: Seq<u8>) -> Seq<u8> {
    if p.len() > 0 && p[0] == 43 { p.skip(1) } else { p }
}

/// `str::parse::<u32>`: an optional `+`, then one or more decimal digits
/// whose value fits.
pub open spec fn parse_u32(p: Seq<u8>) -> Option<u32> {
    let d = unsigned_digits(p);
    if d.len() > 0 && all_digits(d) && digits_value(d) <= u32::MAX {
        Some(digits_value(d) as u32)
    } else {
        None
    }
}

/// `str::split` on the byte `sep`: the pieces between separators, empty
/// ones included.
pub open spec fn split_on(s: Seq<u8>, sep: u8) -> Seq<Seq<u8>>
    decreases s.len(),
{
    if s.len() == 0 {
        seq![Seq::empty()]
    } else {
        let parts = split_on(s.drop_last(), sep);
        if s.last() == sep {
            parts.push(Seq::empty())
        } else {
            parts.update(parts.len() - 1, parts.last().push(s.last()))
        }
    }
}

/// A split always has at least one piece.
pub proof fn lemma_split_nonempty(s: Seq<u8>, sep: u8)
    ensures
        split_on(s, sep).len() >= 1,
    decreases s.len(),
{
    if s.len() > 0 {
        lemma_split_nonempty(s.drop_last(), sep);
    }
}

/// The version parts of a bundle version string.
pub open spec fn version_parts(s: Seq<u8>) -> Seq<Seq<u8>> {
    split_on(s, 46)
}

/// A bundle version `CFBundleGetVersionNumber` accepts: at most three
/// dot-separated numbers, the first at most 99, the others at most 9.
pub open spec fn version_ok(s: Seq<u8>) -> bool {
    let p = version_parts(s);
    &&& p.len() <= 3
    &&& parse_u32(p[0]) matches Some(v) && v <= 99
    &&& p.len() >= 2 ==> (parse_u32(p[1]) matches Some(v) && v <= 9)
    &&& p.len() == 3 ==> (parse_u32(p[2]) matches Some(v) && v <= 9)
}

/// The packed version number: bit 15 set, the major version's tens and
/// units in bits 28 and 24 up, the minor version from bit 20 and the
/// bug-fix version from bit 16.
pub open spec fn version_number(s: Seq<u8>) -> u32 {
    let p = version_parts(s);
    let major = parse_u32(p[0])->0;
    let minor: int = if p.len() >= 2 { parse_u32(p[1])->0 as int } else { 0 };
    let bug_fix: int = if p.len() == 3 { parse_u32(p[2])->0 as int } else { 0 };
    (0x8000 + (major / 10) * 0x1000_0000 + (major % 10) * 0x100_0000 + minor * 0x10_0000
        + bug_fix * 0x1_0000) as u32
}

/// The packed version number holds each part of an accepted version in a
/// field of its own: bits 0 to 15 are 0x8000; bits 16 to 19 the third
/// part (0 when there is none), whatever the second is; bits 20 to 23 the
/// second part (0 when there is none); bits 24 to 27 and 28 to 31 the
/// units and tens of the first.
pub proof fn law_version_number_fields(s: Seq<u8>)
    requires
        version_ok(s),
    ensures
        ({
            let p = version_parts(s);
            let v = version_number(s) as int;
            let major = parse_u32(p[0])->0 as int;
            &&& v % 0x1_0000 == 0x8000
            &&& (v / 0x1_0000) % 16 == if p.len() == 3 { parse_u32(p[2])->0 as int } else { 0 }
            &&& (v / 0x10_0000) % 16 == if p.len() >= 2 { parse_u32(p[1])->0 as int } else { 0 }
            &&& (v / 0x100_0000) % 16 == major % 10
            &&& v / 0x1000_0000 == major / 10
        }),
{
    let p = version_parts(s);
    let major = parse_u32(p[0])->0 as int;
    let a = major / 10;
    let b = major % 10;
    let c: int = if p.len() >= 2 { parse_u32(p[1])->0 as int } else { 0 };
    let d: int = if p.len() == 3 { parse_u32(p[2])->0 as int } else { 0 };
    let total = 0x8000 + a * 0x1000_0000 + b * 0x100_0000 + c * 0x10_0000 + d * 0x1_0000;
    assert(0 <= a <= 9 && 0 <= b <= 9 && 0 <= c <= 9 && 0 <= d <= 9);
    assert(0 <= total < 0x1_0000_0000);
    assert(version_number(s) as int == total);
    assert(total % 0x1_0000 == 0x8000 && total / 0x1_0000 == d + 16 * c + 256 * b + 4096 * a) by (nonlinear_arith)
        requires
            total == 0x8000 + 0x1_0000 * (d + 16 * c + 256 * b + 4096 * a),
            0 <= d + 16 * c + 256 * b + 4096 * a,
    ;
    let q = d + 16 * c + 256 * b + 4096 * a;
    assert(q % 16 == d && q / 16 == c + 16 * b + 256 * a) by (nonlinear_arith)
        requires q == d + 16 * (c + 16 * b + 256 * a), 0 <= d < 16, 0 <= c + 16 * b + 256 * a;
    assert(total / 0x10_0000 == c + 16 * b + 256 * a) by (nonlinear_arith)
        requires total == 0x8000 + 0x1_0000 * d + 0x10_0000 * (c + 16 * b + 256 * a), 0 <= d <= 9,
            0 <= c + 16 * b + 256 * a;
    assert((c + 16 * b + 256 * a) % 16 == c) by (nonlinear_arith)
        requires 0 <= c <= 9, 0 <= b, 0 <= a;
    assert(total / 0x100_0000 == b + 16 * a) by (nonlinear_arith)
        requires total == 0x8000 + 0x1_0000 * d + 0x10_0000 * c + 0x100_0000 * (b + 16 * a), 0 <= d <= 9,
            0 <= c <= 9, 0 <= b + 16 * a;
    assert((b + 16 * a) % 16 == b) by (nonlinear_arith)
        requires 0 <= b <= 9, 0 <= a;
    assert(total / 0x1000_0000 == a) by (nonlinear_arith)
        requires total == 0x8000 + 0x1_0000 * d + 0x10_0000 * c + 0x100_0000 * b + 0x1000_0000 * a, 0 <= d <= 9,
            0 <= c <= 9, 0 <= b <= 9, 0 <= a;
}

/// Computes [parse_u32].
pub fn parse_u32_bytes(p: &[u8]) -> (r: Option<u32>)
    ensures
        r == parse_u32(p@),
{
    let mut start: usize = 0;
    if p.len() > 0 && p[0] == 43 {
        start = 1;
    }
    let ghost d = unsigned_digits(p@);
    assert(d =~= p@.skip(start as int));
    if start >= p.len() {
        return None;
    }
    let mut v: u64 = 0;
    let mut overflow = false;
    let mut i: usize = start;
    while i < p.len()
        invariant
            start <= i <= p@.len(),
            d == p@.skip(start as int),
            d == unsigned_digits(p@),
            all_digits(p@.subrange(start as int, i as int)),
            !overflow ==> v == digits_value(p@.subrange(start as int, i as int)) && v <= u32::MAX,
            overflow ==> digits_value(p@.subrange(start as int, i as int)) > u32::MAX,
        decreases p@.len() - i,
    {
        let c = p[i];
        if c < 48 || c > 57 {
            proof {
                assert(d[i - start] == c);
            }
            return None;
        }
        let ghost prev = p@.subrange(start as int, i as int);
        proof {
            assert(p@.subrange(start as int, i + 1).drop_last() =~= prev);
        }
        if !overflow {
            v = v * 10 + (c - 48) as u64;
            if v > 0xffff_ffff {
                overflow = true;
            }
        }
        i = i + 1;
    }
    assert(p@.subrange(start as int, p@.len() as int) =~= d);
    if overflow {
        None
    } else {
        Some(v as u32)
    }
}

/// Splits `s` on the byte `sep`; see [split_on].
pub fn split_bytes(s: &[u8], sep: u8) -> (r: Vec<Vec<u8>>)
    ensures
        views(r@) == split_on(s@, sep),
{
    let mut parts: Vec<Vec<u8>> = Vec::new();
    let mut cur: Vec<u8> = Vec::new();
    let mut i: usize = 0;
    while i < s.len()
        invariant
            i <= s@.len(),
            views(parts@).push(cur@) == split_on(s@.take(i as int), sep),
        decreases s@.len() - i,
    {
        proof {
            assert(s@.take(i + 1).drop_last() =~= s@.take(i as int));
            lemma_split_nonempty(s@.take(i as int), sep);
        }
        let c = s[i];
        if c == sep {
            let done = cur;
            parts.push(done);
            cur = Vec::new();
            proof {
                assert(views(parts@).push(cur@)
                    =~= split_on(s@.take(i as int), sep).push(Seq::empty()));
            }
        } else {
            cur.push(c);
            proof {
                let before = split_on(s@.take(i as int), sep);
                assert(views(parts@).push(cur@)
                    =~= before.update(before.len() - 1, before.last().push(c)));
            }
        }
        i = i + 1;
    }
    parts.push(cur);
    assert(s@.take(s@.len() as int) =~= s@);
    parts
}

/// `CFBundleGetVersionNumber`: the packed form of the bundle's
/// `CFBundleVersion` string; see [version_number].
pub fn CFBundleGetVersionNumber(env: &mut Environment, bundle: CFBundleRef) -> (r: u32)
    requires
        bundle_wf(old(env), bundle),
        is_string(&old(env).objc, lookup(&old(env).objc, bundle_data(old(env), bundle).info, version_key())),
        version_ok(string_of(&old(env).objc, lookup(&old(env).objc, bundle_data(old(env), bundle).info, version_key()))),
    ensures
        *final(env) == *old(env),
        r == version_number(string_of(&old(env).objc, lookup(&old(env).objc, bundle_data(old(env), bundle).info, version_key()))),
{
    let (info, _) = bundle_dicts(env, bundle);
    let key: Vec<u8> = vec![67u8, 70, 66, 117, 110, 100, 108, 101, 86, 101, 114, 115, 105, 111, 110];
    assert(key@ == version_key());
    let vers = dictionary_lookup(&env.objc, info, key.as_slice());
    let text = to_rust_string(&env.objc, vers);
    let parts = split_bytes(text.as_slice(), 46);
    let ghost p = version_parts(text@);
    proof {
        lemma_split_nonempty(text@, 46);
        assert(views(parts@) == p);
        assert(parts@.len() == p.len());
        assert(views(parts@)[0] == parts@[0]@);
        if p.len() >= 2 {
            assert(views(parts@)[1] == parts@[1]@);
        }
        if p.len() == 3 {
            assert(views(parts@)[2] == parts@[2]@);
        }
    }
    let major = parse_u32_bytes(parts[0].as_slice()).unwrap();
    let mut result: u32 = 0x8000 + (major / 10) * 0x1000_0000 + (major % 10) * 0x100_0000;
    if parts.len() >= 2 {
        let minor = parse_u32_bytes(parts[1].as_slice()).unwrap();
        result = result + minor * 0x10_0000;
    }
    if parts.len() == 3 {
        let bug_fix = parse_u32_bytes(parts[2].as_slice()).unwrap();
        result = result + bug_fix * 0x1_0000;
    }
    result
}

/// The ids of `n` objects made one after another into a store of `len`.
pub open spec fn fresh_ids(len: nat, n: nat) -> Seq<id> {
    Seq::new(n, |k: int| (len + k + 1) as id)
}

/// `s1` is `s0` followed by new strings holding `texts`, one reference
/// each.
pub open spec fn new_strings_in(s0: Seq<Option<Object>>, s1: Seq<Option<Object>>, texts: Seq<Seq<u8>>) -> bool {
    &&& s1.len() == s0.len() + texts.len()
    &&& s1.take(s0.len() as int) == s0
    &&& forall|k: int| 0 <= k < texts.len() ==> {
        let slot = #[trigger] s1[s0.len() + k];
        &&& slot is Some
        &&& slot->0.retain_count == 1
        &&& !slot->0.is_static
        &&& slot->0.host matches HostObject::String(b) && b@ == texts[k]
    }
}

/// `CFBundleCopyBundleLocalizations`: a new array of new strings, one for
/// each localization the bundle lists.
pub fn CFBundleCopyBundleLocalizations(env: &mut Environment, bundle: CFBundleRef) -> (r: CFArrayRef)
    requires
        old(env).wf(),
        is_bundle(&old(env).objc, bundle),
        old(env).objc.objects@.len() + localizations_of(bundle_data(old(env), bundle)).len() + 2 < u32::MAX,
    ensures
        only_objc_changed(old(env), final(env)),
        ({
            let s0 = old(env).objc.objects@;
            let texts = localizations_of(bundle_data(old(env), bundle));
            let mid = final(env).objc.objects@.take((s0.len() + texts.len()) as int);
            &&& r == s0.len() + texts.len() + 1
            &&& new_strings_in(s0, mid, texts)
            &&& new_array_in(mid, final(env).objc.objects@, fresh_ids(s0.len(), texts.len()), false, true)
        }),
{
    let locs = bundle_localizations(env, bundle);
    let ghost s0 = env.objc.objects@;
    let ghost texts = views(locs@);
    assert(s0.take(s0.len() as int) =~= s0);
    assert(views(locs@) =~= texts.subrange(0, locs@.len() as int));
    let mut ids: Vec<id> = Vec::new();
    assert(ids@ =~= fresh_ids(s0.len(), 0));
    let mut locs = locs;
    let mut i: usize = 0;
    let n = locs.len();
    let mut rest: Vec<Vec<u8>> = Vec::new();
    while locs.len() > 0
        invariant
            n == texts.len(),
            i + locs@.len() == n,
            views(locs@) == texts.subrange(i as int, n as int),
            s0.len() + n + 2 < u32::MAX,
            env.objc.objects@.len() == s0.len() + i,
            new_strings_in(s0, env.objc.objects@, texts.take(i as int)),
            ids@ == fresh_ids(s0.len(), i as nat),
            only_objc_changed(old(env), env),
            s0 == old(env).objc.objects@,
        decreases locs@.len(),
    {
        let ghost old_locs = locs@;
        proof {
            assert(views(old_locs)[0] == old_locs[0]@);
            assert(texts.subrange(i as int, n as int)[0] == texts[i as int]);
        }
        let s = locs.remove(0);
        proof {
            assert(s@ == texts[i as int]);
            assert forall|k: int| 0 <= k < locs@.len() implies
                #[trigger] views(locs@)[k] == texts.subrange(i + 1, n as int)[k] by {
                assert(views(old_locs)[k + 1] == old_locs[k + 1]@);
                assert(texts.subrange(i as int, n as int)[k + 1] == texts[i + 1 + k]);
            }
            assert(views(locs@) =~= texts.subrange(i + 1, n as int));
        }
        let ghost before = env.objc.objects@;
        let o = env.objc.alloc_object(HostObject::String(s));
        ids.push(o);
        i = i + 1;
        proof {
            assert(ids@ =~= fresh_ids(s0.len(), i as nat));
            let s1 = env.objc.objects@;
            assert(s1.take(s0.len() as int) =~= s0) by {
                assert(before.take(s0.len() as int) == s0);
            }
            assert forall|k: int| 0 <= k < texts.take(i as int).len() implies {
                let slot = #[trigger] s1[s0.len() + k];
                &&& slot is Some
                &&& slot->0.retain_count == 1
                &&& !slot->0.is_static
                &&& slot->0.host matches HostObject::String(b) && b@ == texts.take(i as int)[k]
            } by {
                if k < i - 1 {
                    assert(s1[s0.len() + k] == before[s0.len() + k]);
                    assert(texts.take(i - 1)[k] == texts.take(i as int)[k]);
                }
            }
        }
    }
    let ghost mid = env.objc.objects@;
    let r = array_from_vec(&mut env.objc, ids);
    proof {
        assert(texts.take(n as int) =~= texts);
        assert(env.objc.objects@.take((s0.len() + n) as int) =~= mid);
    }
    r
}

/// The items of `items` whose strings are among `prefs`, in order.
pub open spec fn preferred_in(objc: &ObjC, items: Seq<id>, prefs: Seq<Seq<u8>>) -> Seq<id>
    decreases items.len(),
{
    if items.len() == 0 {
        Seq::empty()
    } else {
        preferred_in(objc, items.drop_last(), prefs) + if prefs.contains(string_of(objc, items.last())) {
            seq![items.last()]
        } else {
            Seq::empty()
        }
    }
}

/// What `CFBundleCopyPreferredLocalizationsFromArray` puts in its result
/// when the array is not empty: the localizations the user prefers, then
/// the first one as a fallback.
pub open spec fn preferred_result(env: &Environment, loc_array: id) -> Seq<id> {
    let items = items_of(&env.objc, loc_array);
    preferred_in(&env.objc, items, preferred_languages(env)).push(items[0])
}

/// Whether the string `o` is one of `prefs`.
fn is_preferred(objc: &ObjC, o: id, prefs: &Vec<Vec<u8>>) -> (r: bool)
    requires
        is_string(objc, o),
    ensures
        r == views(prefs@).contains(string_of(objc, o)),
{
    let ghost ps = views(prefs@);
    let mut j: usize = 0;
    while j < prefs.len()
        invariant
            j <= prefs@.len(),
            ps == views(prefs@),
            is_string(objc, o),
            forall|k: int| 0 <= k < j ==> ps[k] != string_of(objc, o),
        decreases prefs@.len() - j,
    {
        if check_key(objc, o, prefs[j].as_slice()) {
            assert(ps[j as int] == string_of(objc, o));
            return true;
        }
        j = j + 1;
    }
    proof {
        if ps.contains(string_of(objc, o)) {
            let k = choose|k: int| 0 <= k < ps.len() && ps[k] == string_of(objc, o);
            assert(ps[k] != string_of(objc, o));
        }
    }
    false
}

/// `CFBundleCopyPreferredLocalizationsFromArray`: a new array of the
/// localizations in `loc_array` that the user prefers, followed by the
/// first of them as a fallback, each retained; from an empty array, just
/// the static string `"en"`.
pub fn CFBundleCopyPreferredLocalizationsFromArray(env: &mut Environment, loc_array: CFArrayRef) -> (r: CFArrayRef)
    requires
        old(env).wf(),
        is_array(&old(env).objc, loc_array),
        forall|k: int| 0 <= k < items_of(&old(env).objc, loc_array).len()
            ==> is_string(&old(env).objc, #[trigger] items_of(&old(env).objc, loc_array)[k]),
        items_of(&old(env).objc, loc_array).len() > 0 ==> can_retain_all(&old(env).objc, preferred_result(old(env), loc_array)),
        old(env).objc.objects@.len() + 2 < u32::MAX,
    ensures
        only_objc_changed(old(env), final(env)),
        ({
            let s0 = old(env).objc.objects@;
            let s1 = final(env).objc.objects@;
            if items_of(&old(env).objc, loc_array).len() > 0 {
                let res = preferred_result(old(env), loc_array);
                &&& r == s0.len() + 1
                &&& new_array_in(retained_all(s0, res), s1, res, false, true)
            } else {
                let mid = s1.take(s1.len() - 1);
                let en = items_of(&final(env).objc, r)[0];
                &&& r == s1.len()
                &&& new_array_in(mid, s1, seq![en], false, true)
                &&& is_string(&final(env).objc, en)
                &&& string_of(&final(env).objc, en) == english()
                &&& final(env).objc.obj(en).is_static
                &&& (mid == s0 || mid == s0.push(Some(Object {
                        retain_count: u32::MAX,
                        is_static: true,
                        host: HostObject::String(final(env).objc.host_of(en)->String_0),
                    })))
            }
        }),
{
    let (items, _, _) = array_parts(&env.objc, loc_array);
    let ghost prefs = preferred_languages(env);
    let mut result: Vec<id> = Vec::new();
    let mut i: usize = 0;
    while i < items.len()
        invariant
            i <= items@.len(),
            items@ == items_of(&env.objc, loc_array),
            prefs == preferred_languages(env),
            forall|k: int| 0 <= k < items@.len() ==> is_string(&env.objc, #[trigger] items@[k]),
            result@ == preferred_in(&env.objc, items@.take(i as int), prefs),
        decreases items@.len() - i,
    {
        let loc = items[i];
        assert(is_string(&env.objc, items@[i as int]));
        if is_preferred(&env.objc, loc, &env.framework_state.preferred_languages) {
            result.push(loc);
        }
        i = i + 1;
        proof {
            assert(items@.take(i as int).drop_last() =~= items@.take(i - 1));
            assert(items@.take(i as int).last() == loc);
        }
    }
    assert(items@.take(items@.len() as int) =~= items@);
    if items.len() > 0 {
        result.push(items[0]);
        retain_each(&mut env.objc, &result);
        proof { lemma_retained_all_len(old(env).objc.objects@, result@); }
        array_from_vec(&mut env.objc, result)
    } else {
        let en_bytes: Vec<u8> = vec![101u8, 110];
        let en = get_static_str(&mut env.objc, en_bytes.as_slice());
        let ghost mid = env.objc.objects@;
        let mut one: Vec<id> = Vec::new();
        one.push(en);
        let r = array_from_vec(&mut env.objc, one);
        proof {
            assert(env.objc.objects@.take(env.objc.objects@.len() - 1) =~= mid);
            assert(one@ =~= seq![en]);
            assert(env.objc.objects@[en - 1] == mid[en - 1]);
        }
        r
    }
}

/// `copy` of a string (or null): the string itself, retained.
fn copy_string(env: &mut Environment, s: id) -> (r: id)
    requires
        old(env).wf(),
        s == nil || is_string(&old(env).objc, s),
        old(env).objc.can_retain(s),
    ensures
        only_objc_changed(old(env), final(env)),
        r == s,
        final(env).objc.objects@ == retained(old(env).objc.objects@, s),
{
    env.objc.retain(s)
}

/// `CFBundleGetIdentifier`: the `CFBundleIdentifier` string from the
/// bundle's information dictionary, copied (that is, retained), or null.
pub fn CFBundleGetIdentifier(env: &mut Environment, bundle: CFBundleRef) -> (r: CFStringRef)
    requires
        old(env).wf(),
        bundle_wf(old(env), bundle),
        ({
            let v = lookup(&old(env).objc, bundle_data(old(env), bundle).info, identifier_key());
            v == nil || (is_string(&old(env).objc, v) && old(env).objc.can_retain(v))
        }),
    ensures
        only_objc_changed(old(env), final(env)),
        r == lookup(&old(env).objc, bundle_data(old(env), bundle).info, identifier_key()),
        final(env).objc.objects@ == retained(old(env).objc.objects@, r),
{
    let (info, _) = bundle_dicts(env, bundle);
    let key: Vec<u8> = vec![67u8, 70, 66, 117, 110, 100, 108, 101, 73, 100, 101, 110, 116, 105, 102, 105, 101, 114];
    assert(key@ == identifier_key());
    let ident = dictionary_lookup(&env.objc, info, key.as_slice());
    if ident == nil {
        return nil;
    }
    copy_string(env, ident)
}

/// `CFBundleGetInfoDictionary`: the bundle's information dictionary,
/// retained, or null.
pub fn CFBundleGetInfoDictionary(env: &mut Environment, bundle: CFBundleRef) -> (r: CFTypeRef)
    requires
        old(env).wf(),
        is_bundle(&old(env).objc, bundle),
        old(env).objc.can_retain(bundle_data(old(env), bundle).info),
    ensures
        only_objc_changed(old(env), final(env)),
        r == bundle_data(old(env), bundle).info,
        final(env).objc.objects@ == retained(old(env).objc.objects@, r),
{
    let (info, _) = bundle_dicts(env, bundle);
    if info == nil {
        return nil;
    }
    env.objc.retain(info)
}

/// `CFBundleGetLocalInfoDictionary`: the bundle's localized information
/// dictionary, retained, or null.
pub fn CFBundleGetLocalInfoDictionary(env: &mut Environment, bundle: CFBundleRef) -> (r: CFTypeRef)
    requires
        old(env).wf(),
        is_bundle(&old(env).objc, bundle),
        old(env).objc.can_retain(bundle_data(old(env), bundle).localized_info),
    ensures
        only_objc_changed(old(env), final(env)),
        r == bundle_data(old(env), bundle).localized_info,
        final(env).objc.objects@ == retained(old(env).objc.objects@, r),
{
    let (_, local) = bundle_dicts(env, bundle);
    if local == nil {
        return nil;
    }
    env.objc.retain(local)
}

/// `CFBundleGetDevelopmentRegion`: the `CFBundleDevelopmentRegion` string
/// from the bundle's information dictionary, copied (that is, retained), or
/// null.
pub fn CFBundleGetDevelopmentRegion(env: &mut Environment, bundle: CFBundleRef) -> (r: CFStringRef)
    requires
        old(env).wf(),
        bundle_wf(old(env), bundle),
        ({
            let v = lookup(&old(env).objc, bundle_data(old(env), bundle).info, development_region_key());
            v == nil || (is_string(&old(env).objc, v) && old(env).objc.can_retain(v))
        }),
    ensures
        only_objc_changed(old(env), final(env)),
        r == lookup(&old(env).objc, bundle_data(old(env), bundle).info, development_region_key()),
        final(env).objc.objects@ == retained(old(env).objc.objects@, r),
{
    let (info, _) = bundle_dicts(env, bundle);
    let key: Vec<u8> = vec![67u8, 70, 66, 117, 110, 100, 108, 101, 68, 101, 118, 101, 108, 111, 112, 109, 101, 110, 116,
        82, 101, 103, 105, 111, 110];
    assert(key@ == development_region_key());
    let val = dictionary_lookup(&env.objc, info, key.as_slice());
    if val == nil {
        return nil;
    }
    copy_string(env, val)
}

/// `CFBundleIsExecutableLoaded`: always, as for the main bundle.
pub fn CFBundleIsExecutableLoaded(env: &mut Environment, bundle: CFBundleRef) -> (r: bool)
    ensures
        *final(env) == *old(env),
        r,
{
    true
}

/// `CFBundleLoadExecutable`: succeeds.
pub fn CFBundleLoadExecutable(env: &mut Environment, bundle: CFBundleRef) -> (r: bool)
    ensures
        *final(env) == *old(env),
        r,
{
    true
}

/// `CFBundleUnloadExecutable`: succeeds.
pub fn CFBundleUnloadExecutable(env: &mut Environment, bundle: CFBundleRef) -> (r: bool)
    ensures
        *final(env) == *old(env),
        r,
{
    true
}

} // verus!
