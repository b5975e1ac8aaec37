//! Properties that relate several operations of the library.

use crate::bytes::{lemma_le_value_of_le_bytes, lemma_pow256_16};
use crate::security::{
    credential_key, credential_state, nonce_padding, opened_bytes, sealed_bytes, stored_nonce,
    unwrapped_key, user_salt, AEAD_NONCE_LEN, NONCE_LEN,
};
use crate::bytes::lemma_le_bytes_len;
use crate::crypto::TAG_LEN;
use crate::uuid::{uuid_bytes, Uuid};
use vstd::prelude::*;
use vstd::utf8::{decode_utf8, encode_utf8, encode_utf8_decode_utf8};

verus! {

/// Key derivation is deterministic: deriving twice from the same database salt, user
/// name and password gives the same key.
pub proof fn lemma_derivation_deterministic(
    db_salt: Seq<u8>,
    username: Seq<char>,
    password: Seq<char>,
    first: Seq<u8>,
    second: Seq<u8>,
)
    requires
        first == credential_key(db_salt, username, password),
        second == credential_key(db_salt, username, password),
    ensures
        first == second,
{
}

/// Different user names give different PBKDF2 salts under the same database salt, so
/// two users with one password do not share a key derivation input.
pub proof fn lemma_user_salt_binds_username(db_salt: Seq<u8>, name1: Seq<char>, name2: Seq<char>)
    requires
        name1 != name2,
    ensures
        user_salt(db_salt, name1) != user_salt(db_salt, name2),
{
    if user_salt(db_salt, name1) == user_salt(db_salt, name2) {
        let e1 = encode_utf8(name1);
        let e2 = encode_utf8(name2);
        assert(e1 =~= user_salt(db_salt, name1).subrange(db_salt.len() as int, user_salt(db_salt, name1).len() as int));
        assert(e2 =~= user_salt(db_salt, name2).subrange(db_salt.len() as int, user_salt(db_salt, name2).len() as int));
        encode_utf8_decode_utf8(name1);
        encode_utf8_decode_utf8(name2);
        assert(decode_utf8(e1) == decode_utf8(e2));
    }
}

/// Retrying after a failed unwrap needs no salt: a guard handed back by the failure and
/// given new credentials holds what a guard freshly built from the database salt and
/// those credentials holds, and unwraps any wrapped key exactly as that guard does.
pub proof fn lemma_retry_matches_fresh_guard(
    db_salt: Seq<u8>,
    wrong_username: Seq<char>,
    wrong_password: Seq<char>,
    username: Seq<char>,
    password: Seq<char>,
    wrapped_key: Seq<u8>,
)
    requires
        unwrapped_key(credential_key(db_salt, wrong_username, wrong_password), wrapped_key) is None,
    ensures
        ({
            let failed = credential_state(db_salt, wrong_username, wrong_password);
            let retried = credential_state(failed.salt, username, password);
            &&& retried == credential_state(db_salt, username, password)
            &&& unwrapped_key(retried.key, wrapped_key) == unwrapped_key(
                credential_key(db_salt, username, password),
                wrapped_key,
            )
        }),
{
}

/// Records with different identifiers are sealed and opened with different associated
/// data, so what was sealed for one identifier is checked against another's bytes when
/// opened under that other identifier.
pub proof fn lemma_distinct_ids_bind_distinct_data(first: Uuid, second: Uuid)
    requires
        first@ != second@,
    ensures
        uuid_bytes(first@) != uuid_bytes(second@),
{
    lemma_pow256_16();
    lemma_le_value_of_le_bytes(first@ as nat, 16);
    lemma_le_value_of_le_bytes(second@ as nat, 16);
}

/// Altering any byte of the zero padding that ends a sealed record's nonce field makes
/// opening fail, whatever the key, nonce, associated data and plaintext.
pub proof fn lemma_altered_nonce_padding_rejected(
    key: Seq<u8>,
    n: u128,
    aad: Seq<u8>,
    plaintext: Seq<u8>,
    i: int,
    b: u8,
)
    requires
        sealed_bytes(key, n, aad, plaintext).len() - (NONCE_LEN - AEAD_NONCE_LEN) <= i
            < sealed_bytes(key, n, aad, plaintext).len(),
        b != sealed_bytes(key, n, aad, plaintext)[i],
    ensures
        opened_bytes(key, aad, sealed_bytes(key, n, aad, plaintext).update(i, b)) is Err,
{
    let sealed = sealed_bytes(key, n, aad, plaintext);
    let altered = sealed.update(i, b);
    let len = sealed.len();
    lemma_le_bytes_len(n as nat, NONCE_LEN as nat);
    let pad_start = len - (NONCE_LEN - AEAD_NONCE_LEN);
    assert(sealed.subrange(pad_start, len as int) =~= nonce_padding()) by {
        assert(stored_nonce(n).subrange(12, 16) =~= nonce_padding());
    }
    assert(altered.subrange(pad_start, len as int)[i - pad_start] == b);
    assert(nonce_padding()[i - pad_start] == 0u8);
    assert(sealed[i] == 0u8);
    if len >= NONCE_LEN + TAG_LEN {
        assert(altered.subrange(len - NONCE_LEN + AEAD_NONCE_LEN, len as int) != nonce_padding());
    }
}

} // verus!
