//! Checksums, digests and randomness, as outside crates provide them.
use ring::rand::SecureRandom;
use subtle::ConstantTimeEq;
use vstd::prelude::*;

verus! {

/// The largest input of SHA-256 in bytes: its length in bits is a 64 bit number.
pub const MAX_DIGEST_INPUT: u64 = 0x1fff_ffff_ffff_ffff;

/// The bytes that an HMAC digests ahead of its message.
pub const HMAC_BLOCK: u64 = 64;

/// The CRC-32C of a byte string.
pub uninterp spec fn crc32c_of(data: Seq<u8>) -> u32;

/// The HMAC-SHA-256 of a message under a key.
pub uninterp spec fn hmac_sha256_of(key: Seq<u8>, message: Seq<u8>) -> Seq<u8>;

/// The SHA-256 digest of a byte string.
pub uninterp spec fn sha256_of(data: Seq<u8>) -> Seq<u8>;

/// `crc32c::crc32c`: the CRC-32C of the data, which depends on the data alone.
#[verifier::external_body]
pub(crate) fn crc32c(data: &[u8]) -> (checksum: u32)
    ensures
        checksum == crc32c_of(data@),
{
    crc32c::crc32c(data)
}

/// `ring::hmac::sign` with `HMAC_SHA256` and a key made of `key`: a tag of 32 bytes that
/// depends on the key and the message alone. Inputs that are too long for SHA-256 make it
/// panic and are left out.
#[verifier::external_body]
pub(crate) fn hmac_sha256(key: &[u8], message: &[u8]) -> (tag: Vec<u8>)
    requires
        key@.len() <= MAX_DIGEST_INPUT,
        message@.len() + HMAC_BLOCK <= MAX_DIGEST_INPUT,
    ensures
        tag@ == hmac_sha256_of(key@, message@),
        tag@.len() == 32,
{
    let key = ring::hmac::Key::new(ring::hmac::HMAC_SHA256, key);
    ring::hmac::sign(&key, message).as_ref().to_vec()
}

/// `ring::digest::digest` with `SHA256`: a digest of 32 bytes that depends on the data
/// alone. Data that is too long for SHA-256 makes it panic and is left out.
#[verifier::external_body]
pub(crate) fn sha256(data: &[u8]) -> (digest: Vec<u8>)
    requires
        data@.len() <= MAX_DIGEST_INPUT,
    ensures
        digest@ == sha256_of(data@),
        digest@.len() == 32,
{
    ring::digest::digest(&ring::digest::SHA256, data).as_ref().to_vec()
}

/// `ring::rand::SystemRandom::fill` on four bytes. They are random, and the system may
/// have none, so nothing is claimed of them.
#[verifier::external_body]
pub(crate) fn random_bytes() -> (random: Option<[u8; 4]>)
{
    let mut bytes: [u8; 4] = [0; 4];
    match ring::rand::SystemRandom::new().fill(&mut bytes) {
        Ok(()) => Some(bytes),
        Err(_) => None,
    }
}

/// `subtle::ConstantTimeEq::ct_eq` on two byte slices: whether they have the same length
/// and the same bytes.
#[verifier::external_body]
pub(crate) fn constant_time_equal(left: &[u8], right: &[u8]) -> (same: bool)
    ensures
        same == (left@ == right@),
{
    left.ct_eq(right).into()
}

}
