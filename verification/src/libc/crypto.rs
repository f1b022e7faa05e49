//! CommonCrypto: digests, HMAC, PBKDF2 and AES-128-CBC over guest memory.
//!
//! The primitives themselves come from the `md5`, `sha1`, `sha2`, `hmac`,
//! `pbkdf2`, `aes` and `block-modes` crates; what is verified here is which
//! bytes of guest memory go into them, which algorithm each selector picks,
//! where the results land and what the routines return.

use vstd::prelude::*;
use crate::environment::{Environment, only_mem_changed};
use crate::mem::{put_u32, written};
use hmac::Mac;
use sha2::Digest;
use block_modes::BlockMode;

verus! {

pub type CCHmacAlgorithm = u32;
pub const kCCHmacAlgSHA1: CCHmacAlgorithm = 0;
pub const kCCHmacAlgMD5: CCHmacAlgorithm = 1;
pub const kCCHmacAlgSHA256: CCHmacAlgorithm = 2;
pub const kCCHmacAlgSHA384: CCHmacAlgorithm = 3;
pub const kCCHmacAlgSHA512: CCHmacAlgorithm = 4;

pub type CCPBKDFAlgorithm = u32;
pub type CCPseudoRandomAlgorithm = u32;
pub const kCCPBKDF2: CCPBKDFAlgorithm = 2;
pub const kCCPRFHmacSHA1: CCPseudoRandomAlgorithm = 1;
pub const kCCPRFHmacSHA256: CCPseudoRandomAlgorithm = 2;

pub type CCCryptorStatus = i32;
pub const kCCSuccess: CCCryptorStatus = 0;
pub const kCCParamError: CCCryptorStatus = -4300;
pub const kCCDecodeError: CCCryptorStatus = -4304;

pub type CCAlgorithm = u32;
pub type CCOptions = u32;
pub type CCOperation = u32;
pub const kCCEncrypt: CCOperation = 0;
pub const kCCDecrypt: CCOperation = 1;
pub const kCCAlgorithmAES128: CCAlgorithm = 0;
pub const kCCOptionPKCS7Padding: CCOptions = 1;

/// The MD5 digest of a byte string.
pub uninterp spec fn md5_digest(data: Seq<u8>) -> Seq<u8>;
/// The SHA-1 digest of a byte string.
pub uninterp spec fn sha1_digest(data: Seq<u8>) -> Seq<u8>;
/// The SHA-224 digest of a byte string.
pub uninterp spec fn sha224_digest(data: Seq<u8>) -> Seq<u8>;
/// The SHA-256 digest of a byte string.
pub uninterp spec fn sha256_digest(data: Seq<u8>) -> Seq<u8>;
/// The SHA-384 digest of a byte string.
pub uninterp spec fn sha384_digest(data: Seq<u8>) -> Seq<u8>;
/// The SHA-512 digest of a byte string.
pub uninterp spec fn sha512_digest(data: Seq<u8>) -> Seq<u8>;
/// The HMAC-SHA1 of `data` under `key`.
pub uninterp spec fn hmac_sha1(key: Seq<u8>, data: Seq<u8>) -> Seq<u8>;
/// The HMAC-SHA256 of `data` under `key`.
pub uninterp spec fn hmac_sha256(key: Seq<u8>, data: Seq<u8>) -> Seq<u8>;
/// The `len`-byte PBKDF2 key with HMAC-SHA1 as its pseudo-random function.
pub uninterp spec fn pbkdf2_hmac_sha1(password: Seq<u8>, salt: Seq<u8>, rounds: u32, len: nat) -> Seq<u8>;
/// The `len`-byte PBKDF2 key with HMAC-SHA256 as its pseudo-random function.
pub uninterp spec fn pbkdf2_hmac_sha256(password: Seq<u8>, salt: Seq<u8>, rounds: u32, len: nat) -> Seq<u8>;
/// AES-128 in CBC mode with PKCS#7 padding: the ciphertext of `plain`.
pub uninterp spec fn aes128_cbc_encrypt(key: Seq<u8>, iv: Seq<u8>, plain: Seq<u8>) -> Seq<u8>;
/// AES-128 in CBC mode with PKCS#7 padding: the plaintext of `cipher`, or
/// `None` where its length is not whole blocks or its padding is malformed.
pub uninterp spec fn aes128_cbc_decrypt(key: Seq<u8>, iv: Seq<u8>, cipher: Seq<u8>) -> Option<Seq<u8>>;

/// `md5::compute`: the 16-byte MD5 digest of `data`.
#[verifier::external_body]
fn md5_compute(data: &[u8]) -> (r: Vec<u8>)
    ensures
        r@ == md5_digest(data@),
        r@.len() == 16,
{
    md5::compute(data).0.to_vec()
}

/// `sha1::Sha1::digest`: the 20-byte SHA-1 digest of `data`.
#[verifier::external_body]
fn sha1_compute(data: &[u8]) -> (r: Vec<u8>)
    ensures
        r@ == sha1_digest(data@),
        r@.len() == 20,
{
    sha1::Sha1::digest(data).to_vec()
}

/// `sha2::Sha224::digest`: the 28-byte SHA-224 digest of `data`.
#[verifier::external_body]
fn sha224_compute(data: &[u8]) -> (r: Vec<u8>)
    ensures
        r@ == sha224_digest(data@),
        r@.len() == 28,
{
    sha2::Sha224::digest(data).to_vec()
}

/// `sha2::Sha256::digest`: the 32-byte SHA-256 digest of `data`.
#[verifier::external_body]
fn sha256_compute(data: &[u8]) -> (r: Vec<u8>)
    ensures
        r@ == sha256_digest(data@),
        r@.len() == 32,
{
    sha2::Sha256::digest(data).to_vec()
}

/// `sha2::Sha384::digest`: the 48-byte SHA-384 digest of `data`.
#[verifier::external_body]
fn sha384_compute(data: &[u8]) -> (r: Vec<u8>)
    ensures
        r@ == sha384_digest(data@),
        r@.len() == 48,
{
    sha2::Sha384::digest(data).to_vec()
}

/// `sha2::Sha512::digest`: the 64-byte SHA-512 digest of `data`.
#[verifier::external_body]
fn sha512_compute(data: &[u8]) -> (r: Vec<u8>)
    ensures
        r@ == sha512_digest(data@),
        r@.len() == 64,
{
    sha2::Sha512::digest(data).to_vec()
}

/// `hmac::Hmac<sha1::Sha1>`: the 20-byte HMAC-SHA1 of `data` under `key`
/// (HMAC takes keys of any length, so creating it never fails).
#[verifier::external_body]
fn hmac_sha1_compute(key: &[u8], data: &[u8]) -> (r: Vec<u8>)
    ensures
        r@ == hmac_sha1(key@, data@),
        r@.len() == 20,
{
    let mut mac = hmac::Hmac::<sha1::Sha1>::new_from_slice(key).unwrap();
    mac.update(data);
    mac.finalize().into_bytes().to_vec()
}

/// `hmac::Hmac<sha2::Sha256>`: the 32-byte HMAC-SHA256 of `data` under
/// `key`.
#[verifier::external_body]
fn hmac_sha256_compute(key: &[u8], data: &[u8]) -> (r: Vec<u8>)
    ensures
        r@ == hmac_sha256(key@, data@),
        r@.len() == 32,
{
    let mut mac = hmac::Hmac::<sha2::Sha256>::new_from_slice(key).unwrap();
    mac.update(data);
    mac.finalize().into_bytes().to_vec()
}

/// `pbkdf2::pbkdf2_hmac::<sha1::Sha1>`: fills a buffer of `len` bytes with
/// the derived key.
#[verifier::external_body]
fn pbkdf2_sha1_compute(password: &[u8], salt: &[u8], rounds: u32, len: u32) -> (r: Vec<u8>)
    ensures
        r@ == pbkdf2_hmac_sha1(password@, salt@, rounds, len as nat),
        r@.len() == len,
{
    let mut out = vec![0u8; len as usize];
    pbkdf2::pbkdf2_hmac::<sha1::Sha1>(password, salt, rounds, &mut out);
    out
}

/// `pbkdf2::pbkdf2_hmac::<sha2::Sha256>`: fills a buffer of `len` bytes
/// with the derived key.
#[verifier::external_body]
fn pbkdf2_sha256_compute(password: &[u8], salt: &[u8], rounds: u32, len: u32) -> (r: Vec<u8>)
    ensures
        r@ == pbkdf2_hmac_sha256(password@, salt@, rounds, len as nat),
        r@.len() == len,
{
    let mut out = vec![0u8; len as usize];
    pbkdf2::pbkdf2_hmac::<sha2::Sha256>(password, salt, rounds, &mut out);
    out
}

/// `block_modes::Cbc::<aes::Aes128, Pkcs7>::encrypt_vec`: the plaintext
/// padded to the next whole block (a full block of padding when it already
/// ends on one) and encrypted; decrypting it with the same key and IV gives
/// the plaintext back, as the crate's documentation shows. Creating the
/// cipher fails, and is left out, unless key and IV are 16 bytes each.
#[verifier::external_body]
fn aes128_cbc_encrypt_compute(key: &[u8], iv: &[u8], plain: &[u8]) -> (r: Vec<u8>)
    requires
        key@.len() == 16,
        iv@.len() == 16,
    ensures
        r@ == aes128_cbc_encrypt(key@, iv@, plain@),
        r@.len() == 16 * (plain@.len() / 16) + 16,
        aes128_cbc_decrypt(key@, iv@, r@) == Some(plain@),
{
    let cipher = block_modes::Cbc::<aes::Aes128, block_modes::block_padding::Pkcs7>::new_from_slices(key, iv).unwrap();
    cipher.encrypt_vec(plain)
}

/// `block_modes::Cbc::<aes::Aes128, Pkcs7>::decrypt_vec`: the ciphertext
/// decrypted and unpadded, or `None` where it is not whole blocks or its
/// padding is malformed. The plaintext is shorter than the ciphertext: at
/// least one byte of padding is removed.
#[verifier::external_body]
fn aes128_cbc_decrypt_compute(key: &[u8], iv: &[u8], cipher: &[u8]) -> (r: Option<Vec<u8>>)
    requires
        key@.len() == 16,
        iv@.len() == 16,
    ensures
        aes128_cbc_decrypt(key@, iv@, cipher@) == (match r {
            Some(v) => Some(v@),
            None => None::<Seq<u8>>,
        }),
        r matches Some(v) ==> v@.len() < cipher@.len(),
        cipher@.len() % 16 != 0 ==> r is None,
{
    let c = block_modes::Cbc::<aes::Aes128, block_modes::block_padding::Pkcs7>::new_from_slices(key, iv).unwrap();
    c.decrypt_vec(cipher).ok()
}

/// The bytes `[p, p + n)` of memory `m`.
pub open spec fn bytes_at(m: Seq<u8>, p: u32, n: u32) -> Seq<u8> {
    m.subrange(p as int, p + n)
}

/// `CC_MD5`: writes the 16-byte MD5 digest of the `len` bytes at `data` to
/// `md` and returns `md`.
pub fn CC_MD5(env: &mut Environment, data: u32, len: u32, md: u32) -> (r: u32)
    requires
        old(env).wf(),
        data + len <= old(env).mem@.len(),
        md + 16 <= old(env).mem@.len(),
    ensures
        only_mem_changed(old(env), final(env)),
        r == md,
        md5_digest(bytes_at(old(env).mem@, data, len)).len() == 16,
        final(env).mem@ == written(old(env).mem@, md as int, md5_digest(bytes_at(old(env).mem@, data, len))),
{
    let input = env.mem.read_bytes(data, len);
    let digest = md5_compute(input.as_slice());
    env.mem.write_bytes(md, digest.as_slice());
    md
}

/// `CC_SHA1`: writes the 20-byte SHA-1 digest of the `len` bytes at `data`
/// to `md` and returns `md`.
pub fn CC_SHA1(env: &mut Environment, data: u32, len: u32, md: u32) -> (r: u32)
    requires
        old(env).wf(),
        data + len <= old(env).mem@.len(),
        md + 20 <= old(env).mem@.len(),
    ensures
        only_mem_changed(old(env), final(env)),
        r == md,
        sha1_digest(bytes_at(old(env).mem@, data, len)).len() == 20,
        final(env).mem@ == written(old(env).mem@, md as int, sha1_digest(bytes_at(old(env).mem@, data, len))),
{
    let input = env.mem.read_bytes(data, len);
    let digest = sha1_compute(input.as_slice());
    env.mem.write_bytes(md, digest.as_slice());
    md
}

/// `CC_SHA224`: writes the 28-byte SHA-224 digest of the `len` bytes at
/// `data` to `md` and returns `md`.
pub fn CC_SHA224(env: &mut Environment, data: u32, len: u32, md: u32) -> (r: u32)
    requires
        old(env).wf(),
        data + len <= old(env).mem@.len(),
        md + 28 <= old(env).mem@.len(),
    ensures
        only_mem_changed(old(env), final(env)),
        r == md,
        sha224_digest(bytes_at(old(env).mem@, data, len)).len() == 28,
        final(env).mem@ == written(old(env).mem@, md as int, sha224_digest(bytes_at(old(env).mem@, data, len))),
{
    let input = env.mem.read_bytes(data, len);
    let digest = sha224_compute(input.as_slice());
    env.mem.write_bytes(md, digest.as_slice());
    md
}

/// `CC_SHA256`: writes the 32-byte SHA-256 digest of the `len` bytes at
/// `data` to `md` and returns `md`.
pub fn CC_SHA256(env: &mut Environment, data: u32, len: u32, md: u32) -> (r: u32)
    requires
        old(env).wf(),
        data + len <= old(env).mem@.len(),
        md + 32 <= old(env).mem@.len(),
    ensures
        only_mem_changed(old(env), final(env)),
        r == md,
        sha256_digest(bytes_at(old(env).mem@, data, len)).len() == 32,
        final(env).mem@ == written(old(env).mem@, md as int, sha256_digest(bytes_at(old(env).mem@, data, len))),
{
    let input = env.mem.read_bytes(data, len);
    let digest = sha256_compute(input.as_slice());
    env.mem.write_bytes(md, digest.as_slice());
    md
}

/// `CC_SHA384`: writes the 48-byte SHA-384 digest of the `len` bytes at
/// `data` to `md` and returns `md`.
pub fn CC_SHA384(env: &mut Environment, data: u32, len: u32, md: u32) -> (r: u32)
    requires
        old(env).wf(),
        data + len <= old(env).mem@.len(),
        md + 48 <= old(env).mem@.len(),
    ensures
        only_mem_changed(old(env), final(env)),
        r == md,
        sha384_digest(bytes_at(old(env).mem@, data, len)).len() == 48,
        final(env).mem@ == written(old(env).mem@, md as int, sha384_digest(bytes_at(old(env).mem@, data, len))),
{
    let input = env.mem.read_bytes(data, len);
    let digest = sha384_compute(input.as_slice());
    env.mem.write_bytes(md, digest.as_slice());
    md
}

/// `CC_SHA512`: writes the 64-byte SHA-512 digest of the `len` bytes at
/// `data` to `md` and returns `md`.
pub fn CC_SHA512(env: &mut Environment, data: u32, len: u32, md: u32) -> (r: u32)
    requires
        old(env).wf(),
        data + len <= old(env).mem@.len(),
        md + 64 <= old(env).mem@.len(),
    ensures
        only_mem_changed(old(env), final(env)),
        r == md,
        sha512_digest(bytes_at(old(env).mem@, data, len)).len() == 64,
        final(env).mem@ == written(old(env).mem@, md as int, sha512_digest(bytes_at(old(env).mem@, data, len))),
{
    let input = env.mem.read_bytes(data, len);
    let digest = sha512_compute(input.as_slice());
    env.mem.write_bytes(md, digest.as_slice());
    md
}

/// The number of bytes `CCHmac` writes for `alg`: 20 for SHA-1, 32 for
/// SHA-256, none for the algorithms it does not support.
pub open spec fn hmac_out_len(alg: CCHmacAlgorithm) -> int {
    if alg == kCCHmacAlgSHA1 { 20 } else if alg == kCCHmacAlgSHA256 { 32 } else { 0 }
}

/// `CCHmac`: writes the HMAC of the `data_len` bytes at `data` under the
/// `key_len` bytes at `key` to `mac_out`. SHA-1 and SHA-256 are supported;
/// any other algorithm leaves memory as it was.
pub fn CCHmac(
    env: &mut Environment,
    alg: CCHmacAlgorithm,
    key: u32,
    key_len: u32,
    data: u32,
    data_len: u32,
    mac_out: u32,
)
    requires
        old(env).wf(),
        key + key_len <= old(env).mem@.len(),
        data + data_len <= old(env).mem@.len(),
        mac_out + hmac_out_len(alg) <= old(env).mem@.len(),
    ensures
        only_mem_changed(old(env), final(env)),
        ({
            let k = bytes_at(old(env).mem@, key, key_len);
            let d = bytes_at(old(env).mem@, data, data_len);
            &&& alg == kCCHmacAlgSHA1 ==> hmac_sha1(k, d).len() == 20
                && final(env).mem@ == written(old(env).mem@, mac_out as int, hmac_sha1(k, d))
            &&& alg == kCCHmacAlgSHA256 ==> hmac_sha256(k, d).len() == 32
                && final(env).mem@ == written(old(env).mem@, mac_out as int, hmac_sha256(k, d))
            &&& hmac_out_len(alg) == 0 ==> final(env).mem@ == old(env).mem@
        }),
{
    let k = env.mem.read_bytes(key, key_len);
    let d = env.mem.read_bytes(data, data_len);
    if alg == kCCHmacAlgSHA1 {
        let mac = hmac_sha1_compute(k.as_slice(), d.as_slice());
        env.mem.write_bytes(mac_out, mac.as_slice());
    } else if alg == kCCHmacAlgSHA256 {
        let mac = hmac_sha256_compute(k.as_slice(), d.as_slice());
        env.mem.write_bytes(mac_out, mac.as_slice());
    }
}

/// `CCKeyDerivationPBKDF`: derives `derived_key_len` bytes at `derived_key`
/// from the password and salt in memory with PBKDF2 over HMAC-SHA1 or
/// HMAC-SHA256 (chosen by `prf`) and returns `kCCSuccess`. Any other
/// algorithm or pseudo-random function gives `kCCParamError` and leaves
/// memory as it was.
pub fn CCKeyDerivationPBKDF(
    env: &mut Environment,
    alg: CCPBKDFAlgorithm,
    password: u32,
    password_len: u32,
    salt: u32,
    salt_len: u32,
    prf: CCPseudoRandomAlgorithm,
    rounds: u32,
    derived_key: u32,
    derived_key_len: u32,
) -> (r: CCCryptorStatus)
    requires
        old(env).wf(),
        alg == kCCPBKDF2 ==> {
            &&& password + password_len <= old(env).mem@.len()
            &&& salt + salt_len <= old(env).mem@.len()
            &&& derived_key + derived_key_len <= old(env).mem@.len()
        },
    ensures
        only_mem_changed(old(env), final(env)),
        (alg != kCCPBKDF2 || (prf != kCCPRFHmacSHA1 && prf != kCCPRFHmacSHA256)) ==> {
            &&& r == kCCParamError
            &&& final(env).mem@ == old(env).mem@
        },
        ({
            let p = bytes_at(old(env).mem@, password, password_len);
            let s = bytes_at(old(env).mem@, salt, salt_len);
            &&& alg == kCCPBKDF2 && prf == kCCPRFHmacSHA1 ==> {
                &&& r == kCCSuccess
                &&& pbkdf2_hmac_sha1(p, s, rounds, derived_key_len as nat).len() == derived_key_len
                &&& final(env).mem@ == written(old(env).mem@, derived_key as int,
                        pbkdf2_hmac_sha1(p, s, rounds, derived_key_len as nat))
            }
            &&& alg == kCCPBKDF2 && prf == kCCPRFHmacSHA256 ==> {
                &&& r == kCCSuccess
                &&& pbkdf2_hmac_sha256(p, s, rounds, derived_key_len as nat).len() == derived_key_len
                &&& final(env).mem@ == written(old(env).mem@, derived_key as int,
                        pbkdf2_hmac_sha256(p, s, rounds, derived_key_len as nat))
            }
        }),
{
    if alg != kCCPBKDF2 {
        return kCCParamError;
    }
    let p = env.mem.read_bytes(password, password_len);
    let s = env.mem.read_bytes(salt, salt_len);
    if prf == kCCPRFHmacSHA1 {
        let key = pbkdf2_sha1_compute(p.as_slice(), s.as_slice(), rounds, derived_key_len);
        env.mem.write_bytes(derived_key, key.as_slice());
    } else if prf == kCCPRFHmacSHA256 {
        let key = pbkdf2_sha256_compute(p.as_slice(), s.as_slice(), rounds, derived_key_len);
        env.mem.write_bytes(derived_key, key.as_slice());
    } else {
        return kCCParamError;
    }
    kCCSuccess
}

/// The IV `CCCrypt` uses: the 16 bytes at `iv`, or zeros when `iv` is null.
pub open spec fn iv_bytes(m: Seq<u8>, iv: u32) -> Seq<u8> {
    if iv == 0 { Seq::new(16, |i: int| 0u8) } else { bytes_at(m, iv, 16) }
}

/// The length of the ciphertext of `n` plaintext bytes: padded to the next
/// whole 16-byte block, a full block of padding when `n` is already whole.
pub open spec fn padded_len(n: u32) -> int {
    16 * (n / 16) + 16
}

/// `CCCrypt` with AES-128 in CBC mode and PKCS#7 padding (the only
/// algorithm and padding supported; `options` is not looked at). The
/// `data_in_len` bytes at `data_in` are encrypted or decrypted with the
/// 16-byte key at `key` and the IV at `iv` (zeros when null); the result is
/// written to `data_out` and its length to `data_out_moved`. Another
/// algorithm or operation gives `kCCParamError`; ciphertext that is not
/// whole blocks, or whose padding turns out malformed, gives
/// `kCCDecodeError`. Either way memory is left as it was. Input and output
/// are separate buffers: the input is read before anything is written.
pub fn CCCrypt(
    env: &mut Environment,
    op: CCOperation,
    alg: CCAlgorithm,
    options: CCOptions,
    key: u32,
    key_len: u32,
    iv: u32,
    data_in: u32,
    data_in_len: u32,
    data_out: u32,
    data_out_available: u32,
    data_out_moved: u32,
) -> (r: CCCryptorStatus)
    requires
        old(env).wf(),
        alg == kCCAlgorithmAES128 ==> {
            &&& key_len == 16
            &&& key + 16 <= old(env).mem@.len()
            &&& iv != 0 ==> iv + 16 <= old(env).mem@.len()
            &&& data_in + data_in_len <= old(env).mem@.len()
            &&& data_out + data_out_available <= old(env).mem@.len()
            &&& op == kCCEncrypt ==> padded_len(data_in_len) <= data_out_available
            &&& op == kCCDecrypt ==> data_in_len <= data_out_available
            &&& (op == kCCEncrypt || op == kCCDecrypt) ==> data_out_moved + 4 <= old(env).mem@.len()
        },
    ensures
        only_mem_changed(old(env), final(env)),
        (alg != kCCAlgorithmAES128 || (op != kCCEncrypt && op != kCCDecrypt)) ==> {
            &&& r == kCCParamError
            &&& final(env).mem@ == old(env).mem@
        },
        ({
            let m = old(env).mem@;
            let k = bytes_at(m, key, 16);
            let v = iv_bytes(m, iv);
            let input = bytes_at(m, data_in, data_in_len);
            &&& alg == kCCAlgorithmAES128 && op == kCCEncrypt ==> {
                let out = aes128_cbc_encrypt(k, v, input);
                &&& r == kCCSuccess
                &&& out.len() == padded_len(data_in_len)
                &&& aes128_cbc_decrypt(k, v, out) == Some(input)
                &&& final(env).mem@ == put_u32(written(m, data_out as int, out), data_out_moved as int, out.len() as int)
            }
            &&& alg == kCCAlgorithmAES128 && op == kCCDecrypt ==> match aes128_cbc_decrypt(k, v, input) {
                Some(out) => {
                    &&& r == kCCSuccess
                    &&& out.len() < data_in_len
                    &&& data_in_len % 16 == 0
                    &&& final(env).mem@ == put_u32(written(m, data_out as int, out), data_out_moved as int, out.len() as int)
                },
                None => {
                    &&& r == kCCDecodeError
                    &&& final(env).mem@ == m
                },
            }
        }),
{
    if alg != kCCAlgorithmAES128 {
        return kCCParamError;
    }
    let k = env.mem.read_bytes(key, key_len);
    let v = if iv == 0 {
        let mut zeros: Vec<u8> = Vec::new();
        let mut i: u32 = 0;
        while i < 16
            invariant
                i <= 16,
                zeros@ == Seq::new(i as nat, |j: int| 0u8),
            decreases 16 - i,
        {
            zeros.push(0);
            i = i + 1;
            assert(zeros@ =~= Seq::new(i as nat, |j: int| 0u8));
        }
        zeros
    } else {
        env.mem.read_bytes(iv, 16)
    };
    let input = env.mem.read_bytes(data_in, data_in_len);
    let out = if op == kCCEncrypt {
        aes128_cbc_encrypt_compute(k.as_slice(), v.as_slice(), input.as_slice())
    } else if op == kCCDecrypt {
        match aes128_cbc_decrypt_compute(k.as_slice(), v.as_slice(), input.as_slice()) {
            Some(plain) => plain,
            None => {
                return kCCDecodeError;
            },
        }
    } else {
        return kCCParamError;
    };
    proof {
        assert(padded_len(data_in_len) == 16 * (data_in_len / 16) + 16);
    }
    env.mem.write_bytes(data_out, out.as_slice());
    env.mem.write_u32(data_out_moved, out.len() as u32);
    kCCSuccess
}

} // verus!
