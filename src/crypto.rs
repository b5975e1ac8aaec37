//! The cryptographic primitives this library relies on, all provided by `ring`.
//!
//! Each item here is trusted: its contract restates what `ring` documents or
//! what its source shows, and nothing more.

use ring::rand::SecureRandom;
use vstd::prelude::*;

verus! {

/// Longest plaintext, in bytes, that AES-GCM seals: `(2^39 - 256) / 8`.
pub const AES_GCM_MAX_INPUT: u64 = 68_719_476_704;

/// Longest salt or secret, in bytes, that the key derivation accepts: well below the
/// 2^61 bytes at which SHA-512 refuses its input.
pub const KDF_MAX_INPUT: u64 = 0x1000_0000_0000_0000;

/// Length in bytes of an AES-GCM authentication tag.
pub const TAG_LEN: usize = 16;

/// Whether AES-GCM accepts a plaintext and associated data of these lengths.
pub open spec fn sealable(plaintext_len: nat, aad_len: nat) -> bool {
    plaintext_len <= AES_GCM_MAX_INPUT && aad_len < 0x2000_0000_0000_0000
}

#[verifier::external_type_specification]
#[verifier::external_body]
pub struct ExUnspecified(ring::error::Unspecified);

/// The `out_len` bytes that PBKDF2 with HMAC-SHA512 derives from `secret` and `salt`
/// in `iterations` rounds.
pub uninterp spec fn pbkdf2_hmac_sha512(
    iterations: u32,
    salt: Seq<u8>,
    secret: Seq<u8>,
    out_len: nat,
) -> Seq<u8>;

/// Ciphertext followed by tag, as AES-256-GCM seals `plaintext`.
pub uninterp spec fn aes_256_gcm_seal(
    key: Seq<u8>,
    nonce: Seq<u8>,
    aad: Seq<u8>,
    plaintext: Seq<u8>,
) -> Seq<u8>;

/// The plaintext that AES-256-GCM recovers from `sealed`, or `None` when the tag
/// does not authenticate it.
pub uninterp spec fn aes_256_gcm_open(
    key: Seq<u8>,
    nonce: Seq<u8>,
    aad: Seq<u8>,
    sealed: Seq<u8>,
) -> Option<Seq<u8>>;

/// Relies on `ring::pbkdf2::derive` with `PBKDF2_HMAC_SHA512`: it fills a 32-byte output
/// with the key derived from the iteration count, the salt and the secret alone. It
/// panics only on astronomically long inputs, which `requires` rules out.
#[verifier::external_body]
pub(crate) fn pbkdf2_sha512_32(iterations: u32, salt: &[u8], secret: &[u8]) -> (r: [u8; 32])
    requires
        iterations > 0,
        salt@.len() <= KDF_MAX_INPUT,
        secret@.len() <= KDF_MAX_INPUT,
    ensures
        r@ == pbkdf2_hmac_sha512(iterations, salt@, secret@, 32),
{
    let rounds = std::num::NonZeroU32::new(iterations).unwrap();
    let mut out = [0u8; 32];
    ring::pbkdf2::derive(ring::pbkdf2::PBKDF2_HMAC_SHA512, rounds, salt, secret, &mut out);
    out
}

/// Relies on `ring::rand::SystemRandom::fill`: it overwrites `dest` with bytes from the
/// operating system's secure generator, or reports that it could not. Nothing is
/// promised of the bytes.
#[verifier::external_body]
pub(crate) fn system_random_fill(dest: &mut Vec<u8>) -> (r: Result<(), ring::error::Unspecified>)
    ensures
        final(dest)@.len() == old(dest)@.len(),
{
    ring::rand::SystemRandom::new().fill(dest.as_mut_slice())
}

/// Relies on `ring::aead::LessSafeKey::seal_in_place_append_tag` with `AES_256_GCM`: on
/// success the buffer holds the ciphertext followed by the 16-byte tag. It fails only
/// when the plaintext is longer than AES-GCM allows or the associated data is 2^61
/// bytes or more.
#[verifier::external_body]
pub(crate) fn aes_gcm_seal(
    key: &[u8; 32],
    nonce: [u8; 12],
    aad: &[u8],
    in_out: &mut Vec<u8>,
) -> (r: Result<(), ring::error::Unspecified>)
    ensures
        r is Ok ==> final(in_out)@ == aes_256_gcm_seal(key@, nonce@, aad@, old(in_out)@),
        r is Ok ==> final(in_out)@.len() == old(in_out)@.len() + TAG_LEN,
        r is Err ==> !sealable(old(in_out)@.len(), aad@.len()),
{
    let unbound = ring::aead::UnboundKey::new(&ring::aead::AES_256_GCM, key)?;
    let nonce = ring::aead::Nonce::assume_unique_for_key(nonce);
    ring::aead::LessSafeKey::new(unbound).seal_in_place_append_tag(
        nonce,
        ring::aead::Aad::from(aad),
        in_out,
    )
}

/// Relies on `ring::aead::LessSafeKey::open_in_place` with `AES_256_GCM`: it checks the
/// 16-byte tag at the end of the input and, when it authenticates, returns the plaintext,
/// one tag shorter than the input; input shorter than a tag is refused. Input that opens
/// is exactly what sealing its plaintext produces, since AES-GCM's encryption is
/// deterministic and the tag it computes is the one just checked. What sealing
/// produced under the same key, nonce and associated data opens to the sealed plaintext
/// (for every input that sealing accepts).
#[verifier::external_body]
pub(crate) fn aes_gcm_open(
    key: &[u8; 32],
    nonce: [u8; 12],
    aad: &[u8],
    in_out: Vec<u8>,
) -> (r: Result<Vec<u8>, ring::error::Unspecified>)
    ensures
        r matches Ok(p) ==> aes_256_gcm_open(key@, nonce@, aad@, in_out@) == Some(p@),
        r is Err ==> aes_256_gcm_open(key@, nonce@, aad@, in_out@) is None,
        r matches Ok(p) ==> p@.len() + TAG_LEN == in_out@.len(),
        r matches Ok(p) ==> aes_256_gcm_seal(key@, nonce@, aad@, p@) == in_out@,
        in_out@.len() < TAG_LEN ==> r is Err,
        r is Err ==> forall|p: Seq<u8>|
            sealable(p.len(), aad@.len()) ==> #[trigger] aes_256_gcm_seal(key@, nonce@, aad@, p)
                != in_out@,
        r matches Ok(q) ==> forall|p: Seq<u8>|
            sealable(p.len(), aad@.len()) && #[trigger] aes_256_gcm_seal(key@, nonce@, aad@, p)
                == in_out@ ==> q@ == p,
{
    let mut in_out = in_out;
    let unbound = ring::aead::UnboundKey::new(&ring::aead::AES_256_GCM, key)?;
    let nonce = ring::aead::Nonce::assume_unique_for_key(nonce);
    let key = ring::aead::LessSafeKey::new(unbound);
    let len = key.open_in_place(nonce, ring::aead::Aad::from(aad), &mut in_out)?.len();
    in_out.truncate(len);
    Ok(in_out)
}

} // verus!
