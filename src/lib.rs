//! Credential-derived key management and per-record authenticated encryption for a
//! local, single-user encrypted journal.
//!
//! A user name and password, salted with the database's salt, derive a credential key
//! ([`CredentialGuard`]). That key only wraps and unwraps the database's random data
//! key; once unwrapped, the data key lives in a [`DataGuard`], which seals and opens
//! records bound to their identifiers. [`Unlock`] drives the whole verification,
//! including first-use provisioning and a bounded number of attempts.
//!
//! Stored format: a sealed record or wrapped key is the ciphertext, the 16-byte tag,
//! then a 16-byte nonce field holding the 12 nonce bytes that AES-GCM receives followed
//! by 4 zero bytes. Opening checks the zero bytes, so that every stored byte is
//! authenticated. Data written in a format that kept random bytes there is refused: its
//! wrapped key does not unwrap, which reads as invalid credentials.

mod bytes;
mod crypto;
mod entry;
mod laws;
mod record;
mod security;
mod unlock;
mod uuid;

pub use bytes::{le_bytes, le_value, pow256, u128_from_le_bytes, u128_to_le_bytes};
pub use crypto::{aes_256_gcm_open, aes_256_gcm_seal, pbkdf2_hmac_sha512, sealable, AES_GCM_MAX_INPUT, KDF_MAX_INPUT, TAG_LEN};
pub use entry::{is_blank_entry, white_space};
pub use laws::{lemma_altered_nonce_padding_rejected, lemma_derivation_deterministic, lemma_distinct_ids_bind_distinct_data, lemma_retry_matches_fresh_guard, lemma_user_salt_binds_username};
pub use record::{lemma_bytes_record_round_trip, lemma_string_record_round_trip, Open, Seal};
pub use security::{
    aead_nonce, credential_key, credential_state, credentials_fit, derive_key_from_credentials,
    generate_db_salt, open_in_place, opened_bytes, seal_in_place, seal_with_nonce,
    sealed_bytes, nonce_padding, stored_nonce, stored_nonce_value, unwrapped_key, user_salt, CredentialGuard, CredentialState, DataGuard, DbSalt,
    Key, Nonce, OpenError, UnspecifiedError, AEAD_NONCE_BOUND, AEAD_NONCE_LEN, KDF_ITERATIONS, KEY_LEN, NONCE_LEN,
    SALT_LEN,
};
pub use unlock::{provisioned, salt_from_bytes, should_retry, Unlock, UnlockState, UnlockStep, MAX_ATTEMPTS};
pub use uuid::{hex_digit_value, hex_value, id_digits, is_hex_digit, parsed_id, uuid_bytes, Ided, ParseIdError, Uuid};

use vstd::prelude::*;

verus! {

/// The formats for printing out entries.
#[derive(Debug, PartialEq, Eq, Copy, Clone, Structural)]
pub enum Format {
    Default,
    Toml,
}

} // verus!
