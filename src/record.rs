//! Values that can be stored as sealed records.

use crate::crypto::{AES_GCM_MAX_INPUT, TAG_LEN};
use crate::security::{
    opened_bytes, sealed_bytes, stored_nonce_value, DataGuard, OpenError, UnspecifiedError,
    NONCE_LEN,
};
use crate::uuid::{uuid_bytes, Uuid};
use vstd::prelude::*;
use vstd::utf8::{decode_utf8, encode_utf8, encode_utf8_decode_utf8, encode_utf8_valid_utf8, valid_utf8};

verus! {

/// Relies on `String::from_utf8`: it accepts exactly the valid UTF-8 byte strings, and
/// the string holds the characters they encode.
#[verifier::external_body]
fn string_from_utf8(bytes: Vec<u8>) -> (r: Option<String>)
    ensures
        r is Some <==> valid_utf8(bytes@),
        r matches Some(s) ==> s@ == decode_utf8(bytes@),
{
    String::from_utf8(bytes).ok()
}

/// A type that can be encrypted.
pub trait Seal: Sized {
    /// The bytes that stand for the value.
    spec fn plain_bytes(&self) -> Seq<u8>;

    /// The value as bytes.
    fn into_bytes(self) -> (r: Vec<u8>)
        ensures
            r@ == self.plain_bytes(),
    ;

    /// Seals the value as the record `uuid`.
    fn seal(self, uuid: Uuid, guard: &mut DataGuard) -> (r: Result<Vec<u8>, UnspecifiedError>)
        ensures
            *final(guard) == *old(guard),
            r matches Ok(c) ==> exists|n: u128|
                #[trigger] sealed_bytes(old(guard)@, n, uuid_bytes(uuid@), self.plain_bytes())
                    == c@,
            r matches Ok(c) ==> c@.len() == self.plain_bytes().len() + TAG_LEN + NONCE_LEN,
            r is Ok ==> self.plain_bytes().len() <= AES_GCM_MAX_INPUT,
    {
        let bytes = self.into_bytes();
        guard.seal_in_place(uuid, bytes)
    }
}

/// A type that can be decrypted.
pub trait Open: Sized {
    /// Whether `bytes` stand for some value.
    spec fn decodable(bytes: Seq<u8>) -> bool;

    /// Whether `bytes` stand for `v`.
    spec fn stands_for(bytes: Seq<u8>, v: Self) -> bool;

    /// The value that the bytes stand for.
    fn from_bytes(bytes: Vec<u8>) -> (r: Result<Self, UnspecifiedError>)
        ensures
            r is Ok <==> Self::decodable(bytes@),
            r matches Ok(v) ==> Self::stands_for(bytes@, v),
    ;

    /// Opens the record `uuid` and decodes it.
    fn open(uuid: Uuid, ciphertext: Vec<u8>, guard: &mut DataGuard) -> (r: Result<Self, OpenError>)
        ensures
            *final(guard) == *old(guard),
            r matches Ok(v) ==> opened_bytes(old(guard)@, uuid_bytes(uuid@), ciphertext@) matches Ok(
                p,
            ) && Self::stands_for(p, v),
            r matches Err(e) ==> opened_bytes(old(guard)@, uuid_bytes(uuid@), ciphertext@) == Err::<
                Seq<u8>,
                OpenError,
            >(e) || (opened_bytes(old(guard)@, uuid_bytes(uuid@), ciphertext@) matches Ok(p)
                && !Self::decodable(p)),
            r matches Ok(v) ==> exists|p: Seq<u8>|
                #[trigger] sealed_bytes(
                    old(guard)@,
                    stored_nonce_value(ciphertext@),
                    uuid_bytes(uuid@),
                    p,
                ) == ciphertext@ && Self::stands_for(p, v),
            forall|n: u128, p: Seq<u8>|
                p.len() <= AES_GCM_MAX_INPUT && #[trigger] sealed_bytes(
                    old(guard)@,
                    n,
                    uuid_bytes(uuid@),
                    p,
                ) == ciphertext@ ==> (if Self::decodable(p) {
                    r matches Ok(v) && Self::stands_for(p, v)
                } else {
                    r is Err
                }),
    {
        let plaintext = guard.open_in_place(uuid, ciphertext)?;
        let ghost bytes = plaintext@;
        match Self::from_bytes(plaintext) {
            Ok(v) => {
                assert(Self::stands_for(bytes, v));
                Ok(v)
            },
            Err(e) => Err(OpenError::Unspecified(e)),
        }
    }
}

impl Seal for Vec<u8> {
    open spec fn plain_bytes(&self) -> Seq<u8> {
        self@
    }

    fn into_bytes(self) -> (r: Vec<u8>) {
        self
    }
}

impl Open for Vec<u8> {
    open spec fn decodable(bytes: Seq<u8>) -> bool {
        true
    }

    open spec fn stands_for(bytes: Seq<u8>, v: Self) -> bool {
        v@ == bytes
    }

    fn from_bytes(bytes: Vec<u8>) -> (r: Result<Self, UnspecifiedError>) {
        Ok(bytes)
    }
}

impl Seal for String {
    open spec fn plain_bytes(&self) -> Seq<u8> {
        encode_utf8(self@)
    }

    fn into_bytes(self) -> (r: Vec<u8>) {
        let mut bytes: Vec<u8> = Vec::new();
        bytes.extend_from_slice(self.as_str().as_bytes());
        assert(bytes@ =~= encode_utf8(self@));
        bytes
    }
}

impl Open for String {
    open spec fn decodable(bytes: Seq<u8>) -> bool {
        valid_utf8(bytes)
    }

    open spec fn stands_for(bytes: Seq<u8>, v: Self) -> bool {
        v@ == decode_utf8(bytes)
    }

    fn from_bytes(bytes: Vec<u8>) -> (r: Result<Self, UnspecifiedError>) {
        match string_from_utf8(bytes) {
            Some(s) => Ok(s),
            None => Err(UnspecifiedError {  }),
        }
    }
}

/// A string sealed as a record reads back as the same string: its bytes decode, and
/// they stand for nothing but the string.
pub proof fn lemma_string_record_round_trip(s: String, v: String)
    ensures
        <String as Open>::decodable(s.plain_bytes()),
        <String as Open>::stands_for(s.plain_bytes(), v) ==> v@ == s@,
{
    encode_utf8_valid_utf8(s@);
    encode_utf8_decode_utf8(s@);
}

/// A byte vector sealed as a record reads back as the same bytes.
pub proof fn lemma_bytes_record_round_trip(b: Vec<u8>, v: Vec<u8>)
    ensures
        <Vec<u8> as Open>::decodable(b.plain_bytes()),
        <Vec<u8> as Open>::stands_for(b.plain_bytes(), v) ==> v@ == b@,
{
}

} // verus!
