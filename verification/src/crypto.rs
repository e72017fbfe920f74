//! Hashes, message authentication codes, random bytes and zeroizing storage of outside crates.
//!
//! The values of the hashes and codes are named, not described: equal inputs give equal outputs,
//! and nothing more is claimed of them.

use aes::Aes128;
use cmac::Cmac;
use hmac::Hmac;
use hmac::Mac;
use md4::Md4;
use md5::Md5;
use sha2::Digest;
use sha2::Sha256;
use sha2::Sha512;
use subtle::ConstantTimeEq;
use vstd::prelude::*;
use zeroize::Zeroizing;

verus! {

/// The SHA-512 digest of `input`.
pub uninterp spec fn sha512_of(input: Seq<u8>) -> Seq<u8>;

/// The HMAC-SHA256 code of `input` under `key`.
pub uninterp spec fn hmac_sha256_of(key: Seq<u8>, input: Seq<u8>) -> Seq<u8>;

/// The AES-128-CMAC code of `input` under `key`.
pub uninterp spec fn aes_cmac_of(key: Seq<u8>, input: Seq<u8>) -> Seq<u8>;

/// The HMAC-MD5 code of `input` under `key`.
pub uninterp spec fn hmac_md5_of(key: Seq<u8>, input: Seq<u8>) -> Seq<u8>;

/// The MD4 digest of `input`.
pub uninterp spec fn md4_of(input: Seq<u8>) -> Seq<u8>;

/// `sha2::Sha512::digest`: a function of the input bytes alone, 64 bytes long.
#[verifier::external_body]
pub(crate) fn sha512(input: &[u8]) -> (r: [u8; 64])
    ensures
        r@ == sha512_of(input@),
        r@.len() == 64,
{
    Sha512::digest(input).into()
}

/// `hmac::Hmac<sha2::Sha256>`: accepts a key of any length; the code is 32 bytes long and a
/// function of the key and the input.
#[verifier::external_body]
pub(crate) fn hmac_sha256(key: &[u8], input: &[u8]) -> (r: Option<[u8; 32]>)
    ensures
        r is Some,
        r->0@ == hmac_sha256_of(key@, input@),
{
    let mut mac = <Hmac<Sha256> as Mac>::new_from_slice(key).ok()?;
    mac.update(input);
    Some(mac.finalize().into_bytes().into())
}

/// `cmac::Cmac<aes::Aes128>`: accepts a key of exactly 16 bytes; the code is 16 bytes long and a
/// function of the key and the input.
#[verifier::external_body]
pub(crate) fn aes_cmac(key: &[u8], input: &[u8]) -> (r: Option<[u8; 16]>)
    ensures
        r is Some <==> key@.len() == 16,
        r is Some ==> r->0@ == aes_cmac_of(key@, input@),
{
    let mut mac = <Cmac<Aes128> as Mac>::new_from_slice(key).ok()?;
    mac.update(input);
    Some(mac.finalize().into_bytes().into())
}

/// `hmac::Hmac<md5::Md5>`: accepts a key of any length; the code is 16 bytes long and a function
/// of the key and the input.
#[verifier::external_body]
pub(crate) fn hmac_md5_code(key: &[u8], input: &[u8]) -> (r: Option<[u8; 16]>)
    ensures
        r is Some,
        r->0@ == hmac_md5_of(key@, input@),
{
    let mut mac = <Hmac<Md5> as Mac>::new_from_slice(key).ok()?;
    mac.update(input);
    Some(mac.finalize().into_bytes().into())
}

/// `md4::Md4::digest`: a function of the input bytes alone, 16 bytes long.
#[verifier::external_body]
pub(crate) fn md4(input: &[u8]) -> (r: [u8; 16])
    ensures
        r@ == md4_of(input@),
{
    Md4::digest(input).into()
}

/// `subtle::ConstantTimeEq::ct_eq` on byte slices: whether they are equal.
#[verifier::external_body]
pub(crate) fn constant_time_eq(a: &[u8], b: &[u8]) -> (r: bool)
    ensures
        r == (a@ == b@),
{
    a.ct_eq(b).into()
}

/// `getrandom::fill` on a buffer of `n` bytes: `None` when the random source fails, and otherwise
/// `n` bytes of which nothing is claimed.
#[verifier::external_body]
pub(crate) fn random_bytes(n: usize) -> (r: Option<Vec<u8>>)
    ensures
        r is Some ==> r->0@.len() == n,
{
    let mut buffer = vec![0u8; n];
    match getrandom::fill(&mut buffer) {
        Ok(()) => Some(buffer),
        Err(_) => None,
    }
}

/// Byte storage that is overwritten with zeros when it is dropped.
#[verifier::external_body]
pub struct ZeroizingBytes {
    inner: Zeroizing<Vec<u8>>,
}

/// The bytes that a `ZeroizingBytes` holds.
pub uninterp spec fn zeroizing_bytes(z: ZeroizingBytes) -> Seq<u8>;

/// `zeroize::Zeroizing::new` on a byte vector: holds the bytes it was given.
#[verifier::external_body]
pub(crate) fn zeroizing_bytes_new(bytes: Vec<u8>) -> (r: ZeroizingBytes)
    ensures
        zeroizing_bytes(r) == bytes@,
{
    ZeroizingBytes { inner: Zeroizing::new(bytes) }
}

/// `zeroize::Zeroizing::deref` on a byte vector: the bytes it holds.
#[verifier::external_body]
pub(crate) fn zeroizing_bytes_get(z: &ZeroizingBytes) -> (r: &[u8])
    ensures
        r@ == zeroizing_bytes(*z),
{
    z.inner.as_slice()
}

/// Text storage that is overwritten with zeros when it is dropped.
#[verifier::external_body]
pub struct ZeroizingText {
    inner: Zeroizing<String>,
}

/// The text that a `ZeroizingText` holds.
pub uninterp spec fn zeroizing_text(z: ZeroizingText) -> Seq<char>;

/// `zeroize::Zeroizing::new` on a string: holds the text it was given.
#[verifier::external_body]
pub(crate) fn zeroizing_text_new(text: String) -> (r: ZeroizingText)
    ensures
        zeroizing_text(r) == text@,
{
    ZeroizingText { inner: Zeroizing::new(text) }
}

/// `zeroize::Zeroizing::deref` on a string: the text it holds.
#[verifier::external_body]
pub(crate) fn zeroizing_text_get(z: &ZeroizingText) -> (r: &str)
    ensures
        r@ == zeroizing_text(*z),
{
    z.inner.as_str()
}

} // verus!
