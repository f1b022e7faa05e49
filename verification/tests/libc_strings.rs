use touchhle::environment::Environment;
use touchhle::libc::string::{
    strlen, strcmp, strncmp, strcasecmp, strncasecmp, memcmp, strspn, strcspn, strpbrk, strtok,
    strtok_r, strsep, memchr, memrchr, memccpy, memset, bzero, memcpy, memmove, strncpy, strcpy,
    stpcpy, strcat, strncat, strdup, strlcpy, strchr, strrchr, strstr, strcasestr, memmem,
    memset_pattern4, ffs, ffsl, ffsll,
};

fn env() -> Environment {
    Environment::new(0x4000)
}

/// Copies `s` and a terminating NUL into fresh guest memory.
fn put(env: &mut Environment, s: &[u8]) -> u32 {
    let p = env.mem.allocate(s.len() as u32 + 1);
    env.mem.write_bytes(p, s);
    env.mem.write_u8(p + s.len() as u32, 0);
    p
}

fn string_at(env: &Environment, p: u32) -> Vec<u8> {
    env.mem.cstr_at(p)
}

#[test]
fn strlen_counts_bytes_before_nul() {
    let mut e = env();
    let p = put(&mut e, b"hello");
    assert_eq!(strlen(&e, p), 5);
    let q = put(&mut e, b"");
    assert_eq!(strlen(&e, q), 0);
}

#[test]
fn strcmp_orders_and_is_antisymmetric() {
    let mut e = env();
    let a = put(&mut e, b"abc");
    let b = put(&mut e, b"abd");
    let c = put(&mut e, b"ab");
    assert_eq!(strcmp(&e, a, b), -1);
    assert_eq!(strcmp(&e, b, a), 1);
    assert_eq!(strcmp(&e, a, a), 0);
    assert_eq!(strcmp(&e, c, a), -1);
    assert_eq!(strcmp(&e, a, c), 1);
}

#[test]
fn strcmp_compares_bytes_unsigned() {
    let mut e = env();
    let a = put(&mut e, &[0x80]);
    let b = put(&mut e, &[0x01]);
    assert_eq!(strcmp(&e, a, b), 1);
}

#[test]
fn strncmp_stops_after_n() {
    let mut e = env();
    let a = put(&mut e, b"abcX");
    let b = put(&mut e, b"abcY");
    assert_eq!(strncmp(&e, a, b, 3), 0);
    assert_eq!(strncmp(&e, a, b, 4), -1);
    assert_eq!(strncmp(&e, a, b, 0), 0);
}

#[test]
fn strcasecmp_ignores_ascii_case() {
    let mut e = env();
    let a = put(&mut e, b"HeLLo");
    let b = put(&mut e, b"hello");
    let c = put(&mut e, b"help");
    assert_eq!(strcasecmp(&e, a, b), 0);
    assert_eq!(strcasecmp(&e, a, c), -1);
    assert_eq!(strncasecmp(&e, a, c, 3), 0);
}

#[test]
fn memcmp_after_memcpy_is_zero() {
    let mut e = env();
    let src = put(&mut e, b"0123456789");
    let dst = e.mem.allocate(10);
    assert_eq!(memcpy(&mut e, dst, src, 10), dst);
    assert_eq!(memcmp(&e, dst, src, 10), 0);
    e.mem.write_u8(dst + 4, b'x');
    assert_eq!(memcmp(&e, dst, src, 10), 1);
    assert_eq!(memcmp(&e, src, dst, 10), -1);
}

#[test]
fn memmove_handles_overlap() {
    let mut e = env();
    let p = put(&mut e, b"abcdef");
    memmove(&mut e, p + 2, p, 4);
    assert_eq!(string_at(&e, p), b"ababcd".to_vec());
}

#[test]
fn strspn_and_strcspn() {
    let mut e = env();
    let s = put(&mut e, b"aabbcxy");
    let ab = put(&mut e, b"ab");
    let xy = put(&mut e, b"yx");
    assert_eq!(strspn(&e, s, ab), 4);
    assert_eq!(strcspn(&e, s, xy), 5);
    assert_eq!(strpbrk(&e, s, xy), s + 5);
    let none = put(&mut e, b"q");
    assert_eq!(strpbrk(&e, s, none), 0);
}

#[test]
fn strtok_splits_tokens() {
    let mut e = env();
    let s = put(&mut e, b"  one,two  three");
    let sep = put(&mut e, b" ,");
    let t1 = strtok(&mut e, s, sep);
    assert_eq!(string_at(&e, t1), b"one".to_vec());
    let t2 = strtok(&mut e, 0, sep);
    assert_eq!(string_at(&e, t2), b"two".to_vec());
    let t3 = strtok(&mut e, 0, sep);
    assert_eq!(string_at(&e, t3), b"three".to_vec());
    assert_eq!(strtok(&mut e, 0, sep), 0);
    assert_eq!(strtok(&mut e, 0, sep), 0);
}

#[test]
fn strtok_with_nothing_started_gives_null() {
    let mut e = env();
    let sep = put(&mut e, b",");
    let before = e.mem.read_bytes(0, 64);
    assert_eq!(strtok(&mut e, 0, sep), 0);
    assert_eq!(strtok(&mut e, 0, sep), 0);
    assert_eq!(e.mem.read_bytes(0, 64), before);
}

#[test]
fn strtok_r_keeps_its_place_in_saveptr() {
    let mut e = env();
    let s = put(&mut e, b"a:b");
    let sep = put(&mut e, b":");
    let save = e.mem.allocate(4);
    let t1 = strtok_r(&mut e, s, sep, save);
    assert_eq!(string_at(&e, t1), b"a".to_vec());
    let t2 = strtok_r(&mut e, 0, sep, save);
    assert_eq!(string_at(&e, t2), b"b".to_vec());
    assert_eq!(strtok_r(&mut e, 0, sep, save), 0);
}

#[test]
fn strsep_returns_empty_fields() {
    let mut e = env();
    let s = put(&mut e, b"a,,b");
    let delim = put(&mut e, b",");
    let sp = e.mem.allocate(4);
    e.mem.write_u32(sp, s);
    let f1 = strsep(&mut e, sp, delim);
    assert_eq!(string_at(&e, f1), b"a".to_vec());
    let f2 = strsep(&mut e, sp, delim);
    assert_eq!(string_at(&e, f2), b"".to_vec());
    let f3 = strsep(&mut e, sp, delim);
    assert_eq!(string_at(&e, f3), b"b".to_vec());
    assert_eq!(e.mem.read_u32(sp), 0);
}

#[test]
fn memchr_and_memrchr_find_first_and_last() {
    let mut e = env();
    let s = put(&mut e, b"abcabc");
    assert_eq!(memchr(&e, s, b'b' as i32, 6), s + 1);
    assert_eq!(memrchr(&e, s, b'b' as i32, 6), s + 4);
    assert_eq!(memchr(&e, s, b'z' as i32, 6), 0);
}

#[test]
fn memccpy_stops_after_the_byte() {
    let mut e = env();
    let src = put(&mut e, b"hello world");
    let dst = e.mem.allocate(12);
    let r = memccpy(&mut e, dst, src, b' ' as i32, 11);
    assert_eq!(r, dst + 6);
    assert_eq!(e.mem.read_bytes(dst, 6), b"hello ".to_vec());
    let none = memccpy(&mut e, dst, src, b'z' as i32, 5);
    assert_eq!(none, 0);
}

#[test]
fn memset_and_bzero_fill() {
    let mut e = env();
    let p = e.mem.allocate(8);
    memset(&mut e, p, 0x41, 8);
    assert_eq!(e.mem.read_bytes(p, 8), vec![0x41u8; 8]);
    bzero(&mut e, p + 2, 3);
    assert_eq!(e.mem.read_bytes(p, 8), vec![0x41, 0x41, 0, 0, 0, 0x41, 0x41, 0x41]);
}

#[test]
fn strncpy_pads_with_nul() {
    let mut e = env();
    let src = put(&mut e, b"ab");
    let dst = e.mem.allocate(5);
    memset(&mut e, dst, 0x7f, 5);
    strncpy(&mut e, dst, src, 5);
    assert_eq!(e.mem.read_bytes(dst, 5), vec![b'a', b'b', 0, 0, 0]);
}

#[test]
fn strcpy_stpcpy_strcat_strncat() {
    let mut e = env();
    let src = put(&mut e, b"foo");
    let dst = e.mem.allocate(16);
    assert_eq!(strcpy(&mut e, dst, src), dst);
    assert_eq!(string_at(&e, dst), b"foo".to_vec());
    let end = stpcpy(&mut e, dst, src);
    assert_eq!(end, dst + 3);
    let bar = put(&mut e, b"bar");
    strcat(&mut e, dst, bar);
    assert_eq!(string_at(&e, dst), b"foobar".to_vec());
    let baz = put(&mut e, b"bazzz");
    strncat(&mut e, dst, baz, 3);
    assert_eq!(string_at(&e, dst), b"foobarbaz".to_vec());
}

#[test]
fn strdup_copies_into_fresh_memory() {
    let mut e = env();
    let src = put(&mut e, b"copy me");
    let d = strdup(&mut e, src);
    assert_ne!(d, src);
    assert_eq!(string_at(&e, d), b"copy me".to_vec());
}

#[test]
fn strlcpy_truncates_and_returns_source_length() {
    let mut e = env();
    let src = put(&mut e, b"abcdef");
    let dst = e.mem.allocate(4);
    assert_eq!(strlcpy(&mut e, dst, src, 4), 6);
    assert_eq!(string_at(&e, dst), b"abc".to_vec());
}

#[test]
fn strchr_and_strrchr() {
    let mut e = env();
    let s = put(&mut e, b"a.b.c");
    assert_eq!(strchr(&e, s, b'.'), s + 1);
    assert_eq!(strrchr(&e, s, b'.'), s + 3);
    assert_eq!(strchr(&e, s, b'z'), 0);
    assert_eq!(strchr(&e, s, 0), s + 5);
}

#[test]
fn strstr_strcasestr_memmem() {
    let mut e = env();
    let h = put(&mut e, b"Hello World");
    let n = put(&mut e, b"World");
    let lower = put(&mut e, b"world");
    let empty = put(&mut e, b"");
    assert_eq!(strstr(&e, h, n), h + 6);
    assert_eq!(strstr(&e, h, lower), 0);
    assert_eq!(strcasestr(&e, h, lower), h + 6);
    assert_eq!(strstr(&e, h, empty), h);
    assert_eq!(memmem(&e, h, 11, n, 5), h + 6);
}

#[test]
fn memset_pattern4_repeats_the_pattern() {
    let mut e = env();
    let pat = e.mem.allocate(4);
    e.mem.write_bytes(pat, &[1, 2, 3, 4]);
    let dst = e.mem.allocate(10);
    memset_pattern4(&mut e, dst, pat, 10);
    assert_eq!(e.mem.read_bytes(dst, 10), vec![1, 2, 3, 4, 1, 2, 3, 4, 1, 2]);
}

#[test]
fn ffs_finds_lowest_set_bit() {
    let e = env();
    assert_eq!(ffs(&e, 0), 0);
    assert_eq!(ffs(&e, 1), 1);
    assert_eq!(ffs(&e, 8), 4);
    assert_eq!(ffs(&e, i32::MIN), 32);
    assert_eq!(ffsl(&e, 1 << 40), 41);
    assert_eq!(ffsll(&e, 0), 0);
}
