use touchhle::environment::Environment;
use touchhle::libc::crypto::{
    CC_MD5, CC_SHA1, CC_SHA224, CC_SHA256, CC_SHA384, CC_SHA512, CCHmac, CCKeyDerivationPBKDF, CCCrypt,
    kCCHmacAlgSHA1, kCCHmacAlgSHA256, kCCHmacAlgMD5, kCCPBKDF2, kCCPRFHmacSHA1, kCCPRFHmacSHA256,
    kCCSuccess, kCCParamError, kCCDecodeError, kCCEncrypt, kCCDecrypt, kCCAlgorithmAES128,
    kCCOptionPKCS7Padding,
};

fn env() -> Environment {
    Environment::new(0x10000)
}

fn put(env: &mut Environment, s: &[u8]) -> u32 {
    let p = env.mem.allocate(s.len() as u32 + 1);
    env.mem.write_bytes(p, s);
    p
}

fn hex(s: &str) -> Vec<u8> {
    (0..s.len()).step_by(2).map(|i| u8::from_str_radix(&s[i..i + 2], 16).unwrap()).collect()
}

#[test]
fn md5_of_abc() {
    let mut e = env();
    let d = put(&mut e, b"abc");
    let md = e.mem.allocate(16);
    assert_eq!(CC_MD5(&mut e, d, 3, md), md);
    assert_eq!(e.mem.read_bytes(md, 16), hex("900150983cd24fb0d6963f7d28e17f72"));
}

#[test]
fn sha1_of_abc() {
    let mut e = env();
    let d = put(&mut e, b"abc");
    let md = e.mem.allocate(20);
    CC_SHA1(&mut e, d, 3, md);
    assert_eq!(e.mem.read_bytes(md, 20), hex("a9993e364706816aba3e25717850c26c9cd0d89d"));
}

#[test]
fn sha2_family_of_abc() {
    let mut e = env();
    let d = put(&mut e, b"abc");
    let md = e.mem.allocate(64);
    CC_SHA224(&mut e, d, 3, md);
    assert_eq!(e.mem.read_bytes(md, 28), hex("23097d223405d8228642a477bda255b32aadbce4bda0b3f7e36c9da7"));
    CC_SHA256(&mut e, d, 3, md);
    assert_eq!(e.mem.read_bytes(md, 32), hex("ba7816bf8f01cfea414140de5dae2223b00361a396177a9cb410ff61f20015ad"));
    CC_SHA384(&mut e, d, 3, md);
    assert_eq!(e.mem.read_bytes(md, 48), hex("cb00753f45a35e8bb5a03d699ac65007272c32ab0eded1631a8b605a43ff5bed8086072ba1e7cc2358baeca134c825a7"));
    CC_SHA512(&mut e, d, 3, md);
    assert_eq!(e.mem.read_bytes(md, 64), hex("ddaf35a193617abacc417349ae20413112e6fa4e89a97ea20a9eeee64b55d39a2192992a274fc1a836ba3c23a3feebbd454d4423643ce80e2a9ac94fa54ca49f"));
}

#[test]
fn digest_of_nothing() {
    let mut e = env();
    let md = e.mem.allocate(32);
    CC_SHA256(&mut e, md, 0, md);
    assert_eq!(e.mem.read_bytes(md, 32), hex("e3b0c44298fc1c149afbf4c8996fb92427ae41e4649b934ca495991b7852b855"));
}

#[test]
fn hmac_sha1_and_sha256() {
    let mut e = env();
    let key = put(&mut e, b"Jefe");
    let data = put(&mut e, b"what do ya want for nothing?");
    let out = e.mem.allocate(32);
    CCHmac(&mut e, kCCHmacAlgSHA256, key, 4, data, 28, out);
    assert_eq!(e.mem.read_bytes(out, 32), hex("5bdcc146bf60754e6a042426089575c75a003f089d2739839dec58b964ec3843"));
    CCHmac(&mut e, kCCHmacAlgSHA1, key, 4, data, 28, out);
    assert_eq!(e.mem.read_bytes(out, 20), hex("effcdf6ae5eb2fa2d27416d5f184df9c259a7c79"));
}

#[test]
fn hmac_with_unsupported_algorithm_writes_nothing() {
    let mut e = env();
    let key = put(&mut e, b"k");
    let out = e.mem.allocate(16);
    e.mem.write_bytes(out, &[7u8; 16]);
    CCHmac(&mut e, kCCHmacAlgMD5, key, 1, key, 1, out);
    assert_eq!(e.mem.read_bytes(out, 16), vec![7u8; 16]);
}

#[test]
fn pbkdf2_sha1_and_sha256() {
    let mut e = env();
    let pw = put(&mut e, b"password");
    let salt = put(&mut e, b"salt");
    let out = e.mem.allocate(32);
    assert_eq!(CCKeyDerivationPBKDF(&mut e, kCCPBKDF2, pw, 8, salt, 4, kCCPRFHmacSHA1, 1, out, 20), kCCSuccess);
    assert_eq!(e.mem.read_bytes(out, 20), hex("0c60c80f961f0e71f3a9b524af6012062fe037a6"));
    assert_eq!(CCKeyDerivationPBKDF(&mut e, kCCPBKDF2, pw, 8, salt, 4, kCCPRFHmacSHA256, 1, out, 32), kCCSuccess);
    assert_eq!(e.mem.read_bytes(out, 32), hex("120fb6cffcf8b32c43e7225256c4f837a86548c92ccc35480805987cb70be17b"));
}

#[test]
fn pbkdf2_rejects_unknown_algorithms() {
    let mut e = env();
    let pw = put(&mut e, b"password");
    let out = e.mem.allocate(4);
    assert_eq!(CCKeyDerivationPBKDF(&mut e, 1, pw, 8, pw, 8, kCCPRFHmacSHA1, 1, out, 4), kCCParamError);
    assert_eq!(CCKeyDerivationPBKDF(&mut e, kCCPBKDF2, pw, 8, pw, 8, 9, 1, out, 4), kCCParamError);
}

fn aes_setup(e: &mut Environment) -> (u32, u32) {
    let key = put(e, &hex("000102030405060708090a0b0c0d0e0f"));
    let iv = put(e, &hex("f0f1f2f3f4f5f6f7f8f9fafbfcfdfeff"));
    (key, iv)
}

#[test]
fn aes_encrypts_the_documented_vector() {
    let mut e = env();
    let (key, iv) = aes_setup(&mut e);
    let input = put(&mut e, b"Hello world!");
    let out = e.mem.allocate(32);
    let moved = e.mem.allocate(4);
    let r = CCCrypt(&mut e, kCCEncrypt, kCCAlgorithmAES128, kCCOptionPKCS7Padding, key, 16, iv, input, 12,
        out, 32, moved);
    assert_eq!(r, kCCSuccess);
    assert_eq!(e.mem.read_u32(moved), 16);
    assert_eq!(e.mem.read_bytes(out, 16), hex("1b7a4c403124ae2fb52bedc534d82fa8"));
}

#[test]
fn aes_decrypt_undoes_encrypt() {
    let mut e = env();
    let (key, iv) = aes_setup(&mut e);
    let input = put(&mut e, b"sixteen byte msg");
    let cipher = e.mem.allocate(32);
    let plain = e.mem.allocate(32);
    let moved = e.mem.allocate(4);
    assert_eq!(CCCrypt(&mut e, kCCEncrypt, kCCAlgorithmAES128, 0, key, 16, iv, input, 16, cipher, 32, moved), kCCSuccess);
    assert_eq!(e.mem.read_u32(moved), 32);
    assert_eq!(CCCrypt(&mut e, kCCDecrypt, kCCAlgorithmAES128, 0, key, 16, iv, cipher, 32, plain, 32, moved), kCCSuccess);
    assert_eq!(e.mem.read_u32(moved), 16);
    assert_eq!(e.mem.read_bytes(plain, 16), b"sixteen byte msg".to_vec());
}

#[test]
fn aes_with_null_iv_uses_zeros() {
    let mut e = env();
    let (key, _) = aes_setup(&mut e);
    let zeros = e.mem.allocate(16);
    e.mem.write_bytes(zeros, &[0u8; 16]);
    let input = put(&mut e, b"abc");
    let a = e.mem.allocate(16);
    let b = e.mem.allocate(16);
    let moved = e.mem.allocate(4);
    CCCrypt(&mut e, kCCEncrypt, kCCAlgorithmAES128, 0, key, 16, 0, input, 3, a, 16, moved);
    CCCrypt(&mut e, kCCEncrypt, kCCAlgorithmAES128, 0, key, 16, zeros, input, 3, b, 16, moved);
    assert_eq!(e.mem.read_bytes(a, 16), e.mem.read_bytes(b, 16));
}

#[test]
fn aes_bad_padding_is_a_decode_error() {
    let mut e = env();
    let (key, iv) = aes_setup(&mut e);
    let input = put(&mut e, b"sixteen byte msg");
    let cipher = e.mem.allocate(32);
    let moved = e.mem.allocate(4);
    CCCrypt(&mut e, kCCEncrypt, kCCAlgorithmAES128, 0, key, 16, iv, input, 16, cipher, 32, moved);
    // Flipping a bit of the first block flips the same bit of the last
    // plaintext byte, the padding length: 0x10 becomes 0x11.
    let b = e.mem.read_u8(cipher + 15);
    e.mem.write_u8(cipher + 15, b ^ 0x01);
    let out = e.mem.allocate(32);
    e.mem.write_bytes(out, &[9u8; 32]);
    let r = CCCrypt(&mut e, kCCDecrypt, kCCAlgorithmAES128, 0, key, 16, iv, cipher, 32, out, 32, moved);
    assert_eq!(r, kCCDecodeError);
    assert_eq!(e.mem.read_bytes(out, 32), vec![9u8; 32]);
}

#[test]
fn aes_decrypt_of_partial_blocks_is_a_decode_error() {
    let mut e = env();
    let (key, iv) = aes_setup(&mut e);
    let cipher = put(&mut e, b"not whole blocks");
    let out = e.mem.allocate(32);
    let moved = e.mem.allocate(4);
    let r = CCCrypt(&mut e, kCCDecrypt, kCCAlgorithmAES128, 0, key, 16, iv, cipher, 15, out, 32, moved);
    assert_eq!(r, kCCDecodeError);
}

#[test]
fn crypt_rejects_other_algorithms_and_operations() {
    let mut e = env();
    let (key, iv) = aes_setup(&mut e);
    let buf = e.mem.allocate(32);
    assert_eq!(CCCrypt(&mut e, kCCEncrypt, 1, 0, key, 16, iv, buf, 0, buf, 32, buf), kCCParamError);
    assert_eq!(CCCrypt(&mut e, 7, kCCAlgorithmAES128, 0, key, 16, iv, buf, 0, buf, 32, buf), kCCParamError);
}
