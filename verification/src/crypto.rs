//! The calls into the hashing, password and randomness crates, each behind a
//! trusted item whose contract states what the crate's source shows.

use vstd::prelude::*;

use argon2::password_hash::{rand_core::OsRng, PasswordHash, PasswordHasher, PasswordVerifier, SaltString};
use argon2::Argon2;
use base64::Engine;
use hmac::{Hmac, Mac};
use rand::RngCore;
use sha2::{Digest, Sha256};

verus! {

/// The HMAC-SHA256 tag of `msg` under `key`.
pub uninterp spec fn hmac_sha256(key: Seq<u8>, msg: Seq<u8>) -> Seq<u8>;

/// The SHA-256 digest of `data`.
pub uninterp spec fn sha256(data: Seq<u8>) -> Seq<u8>;

/// Whether `password` matches the PHC-format argon2 hash `hash`: `None` when
/// `hash` does not parse, else whether verification succeeds.
pub uninterp spec fn argon2_verify(password: Seq<u8>, hash: Seq<char>) -> Option<bool>;

/// The bytes that standard (padded) base64 decoding gives for `text`, `None`
/// when it is not valid base64.
pub uninterp spec fn base64_standard_decode(text: Seq<char>) -> Option<Seq<u8>>;

/// The standard (padded) base64 text of `bytes`.
pub uninterp spec fn base64_standard_encode(bytes: Seq<u8>) -> Seq<char>;

/// The bytes that URL-safe unpadded base64 decoding gives for `text`, `None`
/// when it is not valid.
pub uninterp spec fn base64_url_nopad_decode(text: Seq<char>) -> Option<Seq<u8>>;

/// `hmac::Hmac::<Sha256>::new_from_slice`, `update` and `finalize`: the tag of
/// `msg` under `key`. The crate's `new_from_slice` for HMAC hashes an over-long
/// key and pads a short one, so it never fails; the tag is the 32-byte SHA-256
/// output size.
#[verifier::external_body]
pub fn hmac_sha256_tag(key: &[u8], msg: &[u8]) -> (r: Option<Vec<u8>>)
    ensures
        r is Some,
        r matches Some(t) ==> t@ == hmac_sha256(key@, msg@) && t@.len() == 32,
{
    let mut mac = <Hmac<Sha256> as Mac>::new_from_slice(key).ok()?;
    mac.update(msg);
    Some(mac.finalize().into_bytes().to_vec())
}

/// `sha2::Sha256::digest`: the 32-byte SHA-256 digest of `data`.
#[verifier::external_body]
pub fn sha256_digest(data: &[u8]) -> (r: Vec<u8>)
    ensures
        r@ == sha256(data@),
        r@.len() == 32,
{
    Sha256::digest(data).to_vec()
}

/// `argon2::PasswordHash::new` followed by `Argon2::default().verify_password`.
/// An empty hash string is refused by the parser (its first check), so it gives
/// `None`.
#[verifier::external_body]
pub fn argon2_check(password: &[u8], hash: &str) -> (r: Option<bool>)
    ensures
        r == argon2_verify(password@, hash@),
        hash@.len() == 0 ==> r is None,
{
    let parsed = PasswordHash::new(hash).ok()?;
    Some(Argon2::default().verify_password(password, &parsed).is_ok())
}

/// `Argon2::default().hash_password` with a fresh random salt from the OS
/// generator, as a PHC string; `None` when hashing fails. The salt is random,
/// so nothing is stated of the text itself; what is stated is that the string
/// verifies the password it was made from: `PasswordHash::new` parses the PHC
/// string the crate wrote, and `verify_password` recomputes the hash from the
/// salt, algorithm, version and parameters recorded in it and compares.
/// With the default parameters and a generated 16-byte salt, the crate's only
/// refusal is a password longer than `argon2::MAX_PWD_LEN` (`0xFFFFFFFF`
/// bytes), so hashing succeeds exactly on passwords within that length.
#[verifier::external_body]
pub fn argon2_hash(password: &[u8]) -> (r: Option<String>)
    ensures
        r is Some <==> password@.len() <= 0xFFFF_FFFF,
        r matches Some(h) ==> argon2_verify(password@, h@) == Some(true),
{
    let salt = SaltString::generate(&mut OsRng);
    Argon2::default().hash_password(password, &salt).ok().map(|h| h.to_string())
}

/// `rand::thread_rng().fill_bytes` on `n` zeroed bytes: `n` random bytes.
#[verifier::external_body]
pub fn random_bytes(n: usize) -> (r: Vec<u8>)
    ensures
        r@.len() == n,
{
    let mut v = vec![0u8; n];
    rand::thread_rng().fill_bytes(&mut v);
    v
}

/// `rand::thread_rng().next_u64`: a random 64-bit number.
#[verifier::external_body]
pub fn random_u64() -> (r: u64)
{
    rand::thread_rng().next_u64()
}

/// `base64::engine::general_purpose::STANDARD.decode`.
#[verifier::external_body]
pub fn decode_base64_standard(text: &str) -> (r: Option<Vec<u8>>)
    ensures
        r matches Some(b) ==> base64_standard_decode(text@) == Some(b@),
        r is None ==> base64_standard_decode(text@) is None,
{
    base64::engine::general_purpose::STANDARD.decode(text).ok()
}

/// `base64::engine::general_purpose::STANDARD.encode`.
#[verifier::external_body]
pub fn encode_base64_standard(bytes: &[u8]) -> (r: String)
    ensures
        r@ == base64_standard_encode(bytes@),
{
    base64::engine::general_purpose::STANDARD.encode(bytes)
}

/// `base64::engine::general_purpose::URL_SAFE_NO_PAD.decode`.
#[verifier::external_body]
pub fn decode_base64_url_nopad(text: &str) -> (r: Option<Vec<u8>>)
    ensures
        r matches Some(b) ==> base64_url_nopad_decode(text@) == Some(b@),
        r is None ==> base64_url_nopad_decode(text@) is None,
{
    base64::engine::general_purpose::URL_SAFE_NO_PAD.decode(text).ok()
}

} // verus!
