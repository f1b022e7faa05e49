use touchhle::environment::Environment;
use touchhle::objc::{nil, HostObject};
use touchhle::frameworks::foundation::{from_rust_string, new_dictionary, get_static_str, to_rust_string};
use touchhle::frameworks::core_foundation::CFRange;
use touchhle::frameworks::core_foundation::cf_type::{
    CFRetain, CFRelease, CFGetRetainCount, CFEqual, CFHash, CFShow, CFCopyDescription, CFGetAllocator,
    CFMakeCollectable, CFIsCollectable, CFGetRetainCountNullable,
};
use touchhle::frameworks::core_foundation::cf_array::{
    CFArrayCreateMutable, CFArrayCreateMutableCopy, CFArrayCreate, CFArrayCreateCopy, CFArrayGetCount,
    CFArrayGetValueAtIndex, CFArrayGetValues, CFArrayAppendValue, CFArrayInsertValueAtIndex,
    CFArraySetValueAtIndex, CFArrayRemoveValueAtIndex, CFArrayRemoveAllValues, CFArrayContainsValue,
    CFArrayGetFirstIndexOfValue, kCFAllocatorDefault,
};
use touchhle::frameworks::core_foundation::cf_bundle::{
    BundleData, CFBundleGetMainBundle, CFBundleGetValueForInfoDictionaryKey, CFBundleGetVersionNumber,
    CFBundleCopyBundleLocalizations, CFBundleCopyPreferredLocalizationsFromArray, CFBundleGetIdentifier,
    CFBundleGetInfoDictionary, CFBundleGetDevelopmentRegion, CFBundleIsExecutableLoaded, parse_u32_bytes,
    split_bytes,
};
use touchhle::frameworks::core_foundation::cf_run_loop::{
    CFRunLoopGetMain, CFRunLoopGetCurrent, CFRunLoopCopyCurrentMode, CFRunLoopIsWaiting,
    CFRunLoopModeIsSupported,
};
use touchhle::frameworks::core_foundation::cf_socket::{CFSocketCreate, CFSocketIsValid, CFSocketGetNative};
use touchhle::frameworks::core_foundation::time::{calendar_time_of, CFTimeZoneCopySystem, CFTimeZoneGetSecondsFromGMT, SECS_FROM_UNIX_TO_APPLE_EPOCHS};

fn env() -> Environment {
    Environment::new(0x10000)
}

fn string(e: &mut Environment, s: &[u8]) -> u32 {
    from_rust_string(&mut e.objc, s.to_vec())
}

fn text(e: &Environment, o: u32) -> Vec<u8> {
    to_rust_string(&e.objc, o)
}

#[test]
fn retain_then_release_restores_the_count() {
    let mut e = env();
    let s = string(&mut e, b"x");
    assert_eq!(CFGetRetainCount(&mut e, s), 1);
    assert_eq!(CFRetain(&mut e, s), s);
    assert_eq!(CFGetRetainCount(&mut e, s), 2);
    CFRelease(&mut e, s);
    assert_eq!(CFGetRetainCount(&mut e, s), 1);
    assert!(e.objc.is_live(s));
    CFRelease(&mut e, s);
    assert!(!e.objc.is_live(s));
}

#[test]
fn releasing_an_array_releases_its_items() {
    let mut e = env();
    let a = string(&mut e, b"a");
    let b = string(&mut e, b"b");
    let arr = touchhle::frameworks::foundation::array_from_vec(&mut e.objc, vec![a, b]);
    CFRetain(&mut e, b);
    CFRelease(&mut e, arr);
    assert!(!e.objc.is_live(arr));
    assert!(!e.objc.is_live(a));
    assert!(e.objc.is_live(b));
    assert_eq!(CFGetRetainCount(&mut e, b), 1);
}

#[test]
fn static_strings_ignore_release() {
    let mut e = env();
    let s = get_static_str(&mut e.objc, b"en");
    assert_eq!(get_static_str(&mut e.objc, b"en"), s);
    CFRelease(&mut e, s);
    assert!(e.objc.is_live(s));
    assert_eq!(CFGetRetainCount(&mut e, s), -1);
}

#[test]
fn equal_strings_hash_alike() {
    let mut e = env();
    let a = string(&mut e, b"hello");
    let b = string(&mut e, b"hello");
    let c = string(&mut e, b"world");
    assert!(CFEqual(&mut e, a, b));
    assert!(!CFEqual(&mut e, a, c));
    assert_eq!(CFHash(&mut e, a), CFHash(&mut e, b));
    let plain = e.objc.alloc_object(HostObject::Plain);
    assert!(CFEqual(&mut e, plain, plain));
    assert_eq!(CFHash(&mut e, plain), plain);
    assert_eq!(CFHash(&mut e, nil), 0);
}

#[test]
fn string_hash_value() {
    let mut e = env();
    let s = string(&mut e, b"ab");
    assert_eq!(CFHash(&mut e, s), 97 * 31 + 98);
}

#[test]
fn descriptions() {
    let mut e = env();
    let s = string(&mut e, b"text");
    assert_eq!(CFShow(&mut e, s), Some(b"text".to_vec()));
    assert_eq!(CFShow(&mut e, nil), None);
    let plain = e.objc.alloc_object(HostObject::Plain);
    assert_eq!(CFShow(&mut e, plain), Some(format!("<0x{:08x}>", plain).into_bytes()));
    assert_eq!(CFCopyDescription(&mut e, s), s);
    assert_eq!(CFGetRetainCount(&mut e, s), 2);
    let d = CFCopyDescription(&mut e, plain);
    assert_eq!(text(&e, d), format!("<0x{:08x}>", plain).into_bytes());
    assert_eq!(CFCopyDescription(&mut e, nil), nil);
}

#[test]
fn trivial_type_functions() {
    let mut e = env();
    let s = string(&mut e, b"x");
    assert_eq!(CFGetAllocator(&mut e, s), nil);
    assert_eq!(CFMakeCollectable(&mut e, s), s);
    assert!(!CFIsCollectable(&mut e, s));
    assert_eq!(CFGetRetainCountNullable(&mut e, nil), 0);
    assert_eq!(CFGetRetainCountNullable(&mut e, s), 1);
}

#[test]
fn mutable_array_append_insert_set_remove() {
    let mut e = env();
    let arr = CFArrayCreateMutable(&mut e, kCFAllocatorDefault, 0, 0);
    let a = string(&mut e, b"a");
    let b = string(&mut e, b"b");
    let c = string(&mut e, b"c");
    CFArrayAppendValue(&mut e, arr, a);
    CFArrayAppendValue(&mut e, arr, c);
    CFArrayInsertValueAtIndex(&mut e, arr, 1, b);
    assert_eq!(CFArrayGetCount(&mut e, arr), 3);
    assert_eq!(CFArrayGetValueAtIndex(&mut e, arr, 1), b);
    assert_eq!(CFGetRetainCount(&mut e, a), 1);
    CFArraySetValueAtIndex(&mut e, arr, 0, c);
    assert_eq!(CFArrayGetValueAtIndex(&mut e, arr, 0), c);
    CFArrayRemoveValueAtIndex(&mut e, arr, 1);
    assert_eq!(CFArrayGetCount(&mut e, arr), 2);
    CFArrayRemoveAllValues(&mut e, arr);
    assert_eq!(CFArrayGetCount(&mut e, arr), 0);
    assert!(e.objc.is_live(a));
}

#[test]
fn copies_retain_their_items() {
    let mut e = env();
    let a = string(&mut e, b"a");
    let m = CFArrayCreateMutable(&mut e, kCFAllocatorDefault, 0, 0);
    CFArrayAppendValue(&mut e, m, a);
    let copy = CFArrayCreateMutableCopy(&mut e, kCFAllocatorDefault, 0, m);
    assert_eq!(CFGetRetainCount(&mut e, a), 2);
    let frozen = CFArrayCreateCopy(&mut e, kCFAllocatorDefault, copy);
    assert_ne!(frozen, copy);
    assert_eq!(CFGetRetainCount(&mut e, a), 3);
    let again = CFArrayCreateCopy(&mut e, kCFAllocatorDefault, frozen);
    assert_eq!(again, frozen);
    assert_eq!(CFGetRetainCount(&mut e, frozen), 2);
    CFArrayRemoveAllValues(&mut e, copy);
    assert_eq!(CFGetRetainCount(&mut e, a), 2);
}

#[test]
fn create_from_guest_values_and_get_values() {
    let mut e = env();
    let a = string(&mut e, b"a");
    let b = string(&mut e, b"b");
    let vals = e.mem.allocate(8);
    e.mem.write_u32(vals, a);
    e.mem.write_u32(vals + 4, b);
    let arr = CFArrayCreate(&mut e, kCFAllocatorDefault, vals, 2, 0);
    assert_eq!(CFArrayGetCount(&mut e, arr), 2);
    assert_eq!(CFGetRetainCount(&mut e, b), 2);
    let out = e.mem.allocate(8);
    CFArrayGetValues(&mut e, arr, CFRange { location: 1, length: 1 }, out);
    assert_eq!(e.mem.read_u32(out), b);
    let empty = CFArrayCreate(&mut e, kCFAllocatorDefault, 0, 0, 0);
    assert_eq!(CFArrayGetCount(&mut e, empty), 0);
    assert_eq!(CFArrayGetCount(&mut e, nil), 0);
}

#[test]
fn first_index_of_value_uses_equality() {
    let mut e = env();
    let a = string(&mut e, b"a");
    let b = string(&mut e, b"b");
    let b2 = string(&mut e, b"b");
    let arr = touchhle::frameworks::foundation::array_from_vec(&mut e.objc, vec![a, b, a]);
    let all = CFRange { location: 0, length: 3 };
    assert_eq!(CFArrayGetFirstIndexOfValue(&mut e, arr, all, b2), 1);
    assert_eq!(CFArrayGetFirstIndexOfValue(&mut e, arr, CFRange { location: 1, length: 2 }, a), 2);
    let z = string(&mut e, b"z");
    assert_eq!(CFArrayGetFirstIndexOfValue(&mut e, arr, all, z), -1);
    assert!(!CFArrayContainsValue(&mut e, arr, all, z));
    assert!(CFArrayContainsValue(&mut e, arr, all, a));
}

fn bundle_env(version: &[u8]) -> (Environment, u32) {
    let mut e = env();
    let k1 = string(&mut e, b"CFBundleVersion");
    let v1 = string(&mut e, version);
    let k2 = string(&mut e, b"CFBundleIdentifier");
    let v2 = string(&mut e, b"com.example.app");
    let k3 = string(&mut e, b"CFBundleDevelopmentRegion");
    let v3 = string(&mut e, b"English");
    let info = new_dictionary(&mut e.objc, vec![k1, k2, k3], vec![v1, v2, v3]);
    e.framework_state.app_bundle = BundleData {
        info,
        localized_info: nil,
        localizations: vec![b"en".to_vec(), b"fr".to_vec(), b"de".to_vec()],
    };
    let b = CFBundleGetMainBundle(&mut e);
    (e, b)
}

#[test]
fn main_bundle_is_made_once() {
    let (mut e, b) = bundle_env(b"1.0");
    assert_eq!(CFBundleGetMainBundle(&mut e), b);
    assert!(CFBundleIsExecutableLoaded(&mut e, b));
}

#[test]
fn version_numbers_pack_the_parts() {
    let (mut e, b) = bundle_env(b"1.2.3");
    assert_eq!(CFBundleGetVersionNumber(&mut e, b), 0x0123_8000);
    let (mut e, b) = bundle_env(b"42");
    assert_eq!(CFBundleGetVersionNumber(&mut e, b), 0x4200_8000);
    let (mut e, b) = bundle_env(b"+9.07");
    assert_eq!(CFBundleGetVersionNumber(&mut e, b), 0x0970_8000);
}

#[test]
fn version_parts_parse_as_rust_does() {
    assert_eq!(parse_u32_bytes(b"12"), Some(12));
    assert_eq!(parse_u32_bytes(b"+7"), Some(7));
    assert_eq!(parse_u32_bytes(b"+"), None);
    assert_eq!(parse_u32_bytes(b""), None);
    assert_eq!(parse_u32_bytes(b"-1"), None);
    assert_eq!(parse_u32_bytes(b"4294967295"), Some(u32::MAX));
    assert_eq!(parse_u32_bytes(b"4294967296"), None);
    assert_eq!(split_bytes(b"1..2", b'.'), vec![b"1".to_vec(), vec![], b"2".to_vec()]);
    assert_eq!(split_bytes(b"", b'.'), vec![Vec::<u8>::new()]);
}

#[test]
fn info_dictionary_lookups() {
    let (mut e, b) = bundle_env(b"1.0");
    let key = string(&mut e, b"CFBundleIdentifier");
    let v = CFBundleGetValueForInfoDictionaryKey(&mut e, b, key);
    assert_eq!(text(&e, v), b"com.example.app".to_vec());
    let ident = CFBundleGetIdentifier(&mut e, b);
    assert_eq!(ident, v);
    assert_eq!(CFGetRetainCount(&mut e, v), 2);
    let region = CFBundleGetDevelopmentRegion(&mut e, b);
    assert_eq!(text(&e, region), b"English".to_vec());
    let missing = string(&mut e, b"Nope");
    assert_eq!(CFBundleGetValueForInfoDictionaryKey(&mut e, b, missing), nil);
    let info = CFBundleGetInfoDictionary(&mut e, b);
    assert_eq!(CFGetRetainCount(&mut e, info), 2);
}

#[test]
fn bundle_localizations_become_strings() {
    let (mut e, b) = bundle_env(b"1.0");
    let arr = CFBundleCopyBundleLocalizations(&mut e, b);
    assert_eq!(CFArrayGetCount(&mut e, arr), 3);
    let second = CFArrayGetValueAtIndex(&mut e, arr, 1);
    assert_eq!(text(&e, second), b"fr".to_vec());
}

#[test]
fn preferred_localizations_then_fallback() {
    let (mut e, _) = bundle_env(b"1.0");
    e.framework_state.preferred_languages = vec![b"de".to_vec(), b"fr".to_vec()];
    let en = string(&mut e, b"en");
    let fr = string(&mut e, b"fr");
    let de = string(&mut e, b"de");
    let locs = touchhle::frameworks::foundation::array_from_vec(&mut e.objc, vec![en, fr, de]);
    let r = CFBundleCopyPreferredLocalizationsFromArray(&mut e, locs);
    assert_eq!(CFArrayGetCount(&mut e, r), 3);
    assert_eq!(CFArrayGetValueAtIndex(&mut e, r, 0), fr);
    assert_eq!(CFArrayGetValueAtIndex(&mut e, r, 1), de);
    assert_eq!(CFArrayGetValueAtIndex(&mut e, r, 2), en);
    assert_eq!(CFGetRetainCount(&mut e, en), 2);

    let empty = touchhle::frameworks::foundation::array_from_vec(&mut e.objc, vec![]);
    let r2 = CFBundleCopyPreferredLocalizationsFromArray(&mut e, empty);
    assert_eq!(CFArrayGetCount(&mut e, r2), 1);
    let only = CFArrayGetValueAtIndex(&mut e, r2, 0);
    assert_eq!(text(&e, only), b"en".to_vec());
}

#[test]
fn run_loops_by_thread() {
    let mut e = env();
    let main = CFRunLoopGetMain(&mut e);
    assert_eq!(CFRunLoopGetCurrent(&mut e), main);
    e.threads.push(touchhle::environment::Thread { active: true });
    e.current_thread = 1;
    let other = CFRunLoopGetCurrent(&mut e);
    assert_ne!(other, main);
    assert_eq!(CFRunLoopGetCurrent(&mut e), other);
    assert_eq!(CFRunLoopGetMain(&mut e), main);
    assert!(!CFRunLoopIsWaiting(&mut e, main));
    let mode = CFRunLoopCopyCurrentMode(&mut e, main);
    assert_eq!(text(&e, mode), b"kCFRunLoopDefaultMode".to_vec());
    assert!(CFRunLoopModeIsSupported(&e, mode));
    let other_mode = string(&mut e, b"UITrackingRunLoopMode");
    assert!(!CFRunLoopModeIsSupported(&e, other_mode));
}

#[test]
fn sockets_and_time_zones() {
    let mut e = env();
    assert_eq!(CFSocketCreate(&mut e, kCFAllocatorDefault, 2, 1, 0, 0, 0, 0), nil);
    assert!(!CFSocketIsValid(&mut e, nil));
    assert!(CFSocketIsValid(&mut e, 5));
    assert_eq!(CFSocketGetNative(&mut e, 5), -1);
    assert_eq!(CFTimeZoneCopySystem(&mut e), nil);
    assert_eq!(CFTimeZoneGetSecondsFromGMT(&mut e, nil, 0), 0);
    assert_eq!(SECS_FROM_UNIX_TO_APPLE_EPOCHS, 978_307_200);
}

#[test]
fn insert_then_remove_gives_back_the_items() {
    let mut e = env();
    let arr = CFArrayCreateMutable(&mut e, kCFAllocatorDefault, 0, 0);
    let a = string(&mut e, b"a");
    let b = string(&mut e, b"b");
    let x = string(&mut e, b"x");
    CFArrayAppendValue(&mut e, arr, a);
    CFArrayAppendValue(&mut e, arr, b);
    CFArrayInsertValueAtIndex(&mut e, arr, 1, x);
    assert_eq!(CFArrayGetValueAtIndex(&mut e, arr, 1), x);
    CFArrayRemoveValueAtIndex(&mut e, arr, 1);
    assert_eq!(CFArrayGetCount(&mut e, arr), 2);
    assert_eq!(CFArrayGetValueAtIndex(&mut e, arr, 0), a);
    assert_eq!(CFArrayGetValueAtIndex(&mut e, arr, 1), b);
    let last = CFArrayGetCount(&mut e, arr) - 1;
    assert_eq!(CFArrayGetValueAtIndex(&mut e, arr, last), b);
}

#[test]
fn calendar_time_of_known_moments() {
    let t = calendar_time_of(0);
    assert_eq!((t.year, t.month, t.day, t.hours, t.minutes, t.seconds), (1970, 1, 1, 0, 0, 0));
    let t = calendar_time_of(SECS_FROM_UNIX_TO_APPLE_EPOCHS);
    assert_eq!((t.year, t.month, t.day, t.hours, t.minutes, t.seconds), (2001, 1, 1, 0, 0, 0));
    // 29 February 2000, 12:34:56 GMT.
    let t = calendar_time_of(951_827_696);
    assert_eq!((t.year, t.month, t.day, t.hours, t.minutes, t.seconds), (2000, 2, 29, 12, 34, 56));
    // 31 December 1999, 23:59:59 GMT.
    let t = calendar_time_of(946_684_799);
    assert_eq!((t.year, t.month, t.day, t.hours, t.minutes, t.seconds), (1999, 12, 31, 23, 59, 59));
}
