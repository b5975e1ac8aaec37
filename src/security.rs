//! Key derivation, authenticated encryption of records, and the two guards that hold
//! the keys: the credential guard, which only wraps and unwraps the data key, and the
//! data guard, which seals and opens records.

use crate::bytes::{
    array_from_vec, le_bytes, le_value, lemma_le_bytes_len, lemma_le_bytes_of_value,
    lemma_le_value_bound, lemma_pow256_16,
    u128_from_le_bytes, u128_to_le_bytes,
};
use crate::crypto::{
    aes_256_gcm_open, aes_256_gcm_seal, aes_gcm_open, aes_gcm_seal, pbkdf2_hmac_sha512,
    pbkdf2_sha512_32, sealable, system_random_fill, AES_GCM_MAX_INPUT, KDF_MAX_INPUT, TAG_LEN,
};
use crate::uuid::{uuid_bytes, Uuid};
use vstd::prelude::*;
use vstd::utf8::encode_utf8;

verus! {

/// Length in bytes of an encryption key, as AES-256-GCM needs it.
pub const KEY_LEN: usize = 32;

/// An encryption key.
pub type Key = [u8; KEY_LEN];

/// Length in bytes of the database salt.
pub const SALT_LEN: usize = 16;

/// The database portion of the salt used to derive keys from user names and passwords.
pub type DbSalt = [u8; SALT_LEN];

/// Length in bytes of an encoded nonce.
pub const NONCE_LEN: usize = 16;

/// Length in bytes of the nonce that AES-GCM takes: the first bytes of an encoded nonce.
pub const AEAD_NONCE_LEN: usize = 12;

/// One more than the largest nonce value that fits the AES-GCM nonce: `2^96`.
pub const AEAD_NONCE_BOUND: u128 = 0x1_0000_0000_0000_0000_0000_0000;

/// PBKDF2 rounds spent deriving a credential key.
pub const KDF_ITERATIONS: u32 = 100_000;

/// An intentionally ambiguous error.
#[derive(Debug, PartialEq, Eq, Structural)]
pub struct UnspecifiedError {}

impl From<ring::error::Unspecified> for UnspecifiedError {
    fn from(_e: ring::error::Unspecified) -> (r: Self) {
        UnspecifiedError {}
    }
}

impl vstd::std_specs::convert::FromSpecImpl<ring::error::Unspecified> for UnspecifiedError {
    open spec fn obeys_from_spec() -> bool {
        true
    }

    open spec fn from_spec(v: ring::error::Unspecified) -> Self {
        UnspecifiedError {}
    }
}

/// Why sealed bytes could not be opened.
#[derive(Debug, PartialEq, Eq, Structural)]
pub enum OpenError {
    /// Too short to hold a nonce and an authentication tag: the stored bytes are damaged.
    Malformed,
    /// Wrong key, wrong record identifier, or altered bytes, deliberately not told apart.
    Unspecified(UnspecifiedError),
}

/// A number used once: one is drawn for every sealing operation.
#[derive(Debug, Clone, Copy)]
pub struct Nonce(u128);

impl View for Nonce {
    type V = u128;

    closed spec fn view(&self) -> u128 {
        self.0
    }
}

/// The nonce that AES-GCM receives for nonce value `n`: the first bytes of its encoding.
pub open spec fn aead_nonce(n: u128) -> Seq<u8> {
    le_bytes(n as nat, NONCE_LEN as nat).subrange(0, AEAD_NONCE_LEN as int)
}

/// The salt that PBKDF2 receives: the database salt followed by the user name's UTF-8 bytes.
pub open spec fn user_salt(db_salt: Seq<u8>, username: Seq<char>) -> Seq<u8> {
    db_salt + encode_utf8(username)
}

/// The key derived from the database salt, a user name and a password.
pub open spec fn credential_key(db_salt: Seq<u8>, username: Seq<char>, password: Seq<char>) -> Seq<
    u8,
> {
    pbkdf2_hmac_sha512(
        KDF_ITERATIONS,
        user_salt(db_salt, username),
        encode_utf8(password),
        KEY_LEN as nat,
    )
}

/// User name and password short enough for the key derivation.
pub open spec fn credentials_fit(username: Seq<char>, password: Seq<char>) -> bool {
    &&& encode_utf8(username).len() + SALT_LEN <= KDF_MAX_INPUT
    &&& encode_utf8(password).len() <= KDF_MAX_INPUT
}

/// The bytes that fill a stored nonce field after the nonce AES-GCM receives.
pub open spec fn nonce_padding() -> Seq<u8> {
    seq![0u8, 0u8, 0u8, 0u8]
}

/// The nonce field stored for nonce value `n`: the bytes AES-GCM receives, then zero
/// padding, so that every stored byte is checked when the record is opened.
pub open spec fn stored_nonce(n: u128) -> Seq<u8> {
    aead_nonce(n) + nonce_padding()
}

/// The nonce value that stored bytes `sealed` carry in their last 16 bytes.
pub open spec fn stored_nonce_value(sealed: Seq<u8>) -> u128 {
    le_value(sealed.subrange(sealed.len() - NONCE_LEN, sealed.len() as int)) as u128
}

/// The stored form of `plaintext` sealed under `key` with nonce value `n` and associated
/// data `aad`: ciphertext, authentication tag, then the stored nonce field.
pub open spec fn sealed_bytes(key: Seq<u8>, n: u128, aad: Seq<u8>, plaintext: Seq<u8>) -> Seq<u8> {
    aes_256_gcm_seal(key, aead_nonce(n), aad, plaintext) + stored_nonce(n)
}

/// What opening the stored bytes `sealed` under `key` with associated data `aad` yields.
pub open spec fn opened_bytes(key: Seq<u8>, aad: Seq<u8>, sealed: Seq<u8>) -> Result<
    Seq<u8>,
    OpenError,
> {
    let len = sealed.len();
    if len < NONCE_LEN + TAG_LEN {
        Err(OpenError::Malformed)
    } else if sealed.subrange(len - NONCE_LEN + AEAD_NONCE_LEN, len as int) != nonce_padding() {
        Err(OpenError::Unspecified(UnspecifiedError {  }))
    } else {
        let body = sealed.subrange(0, len - NONCE_LEN);
        let nonce = sealed.subrange(len - NONCE_LEN, len - NONCE_LEN + AEAD_NONCE_LEN);
        match aes_256_gcm_open(key, nonce, aad, body) {
            Some(p) => Ok(p),
            None => Err(OpenError::Unspecified(UnspecifiedError {  })),
        }
    }
}

/// The data key that the wrapped key `wrapped` holds under `credential_key`, if any.
pub open spec fn unwrapped_key(credential_key: Seq<u8>, wrapped: Seq<u8>) -> Option<Seq<u8>> {
    match opened_bytes(credential_key, Seq::empty(), wrapped) {
        Ok(k) => if k.len() == KEY_LEN {
            Some(k)
        } else {
            None
        },
        Err(_) => None,
    }
}

impl Nonce {
    /// Draws a new nonce from the system's secure random generator, keeping the low 96
    /// bits: all that AES-GCM receives.
    pub fn random() -> (r: Result<Nonce, UnspecifiedError>)
        ensures
            r matches Ok(n) ==> n@ < AEAD_NONCE_BOUND,
    {
        let mut buf: Vec<u8> = vec![0u8; NONCE_LEN];
        match system_random_fill(&mut buf) {
            Ok(()) => {
                let bytes: [u8; NONCE_LEN] = array_from_vec(&buf);
                Ok(Nonce::from_drawn(bytes))
            },
            Err(e) => Err(UnspecifiedError::from(e)),
        }
    }

    /// The nonce made from 16 randomly drawn bytes: the number they encode, least
    /// significant first, cut to the 96 bits that AES-GCM receives.
    pub fn from_drawn(bytes: [u8; NONCE_LEN]) -> (r: Nonce)
        ensures
            r@ == le_value(bytes@) % (AEAD_NONCE_BOUND as nat),
            r@ < AEAD_NONCE_BOUND,
    {
        let drawn = Nonce::from_le_bytes(bytes);
        Nonce(drawn.0 % AEAD_NONCE_BOUND)
    }

    /// Encodes the nonce as bytes, least significant first.
    pub fn to_le_bytes(&self) -> (r: [u8; NONCE_LEN])
        ensures
            le_value(r@) == self@,
            r@ == le_bytes(self@ as nat, NONCE_LEN as nat),
    {
        u128_to_le_bytes(self.0)
    }

    /// Decodes a nonce from bytes, least significant first.
    pub fn from_le_bytes(bytes: [u8; NONCE_LEN]) -> (r: Self)
        ensures
            r@ == le_value(bytes@),
            le_bytes(r@ as nat, NONCE_LEN as nat) == bytes@,
    {
        proof {
            lemma_le_bytes_of_value(bytes@);
        }
        Nonce(u128_from_le_bytes(bytes))
    }

    /// The number of bytes that encode a nonce.
    pub fn len() -> (r: usize)
        ensures
            r == NONCE_LEN,
    {
        NONCE_LEN
    }

    /// The nonce that AES-GCM receives: the first bytes of the encoding.
    fn aead_bytes(&self) -> (r: [u8; AEAD_NONCE_LEN])
        ensures
            r@ == aead_nonce(self@),
    {
        let full = self.to_le_bytes();
        let mut r = [0u8; AEAD_NONCE_LEN];
        let mut i: usize = 0;
        while i < AEAD_NONCE_LEN
            invariant
                i <= AEAD_NONCE_LEN,
                r@.len() == AEAD_NONCE_LEN,
                full@.len() == NONCE_LEN,
                forall|j: int| 0 <= j < i ==> r@[j] == full@[j],
            decreases AEAD_NONCE_LEN - i,
        {
            r[i] = full[i];
            i = i + 1;
        }
        assert(r@ =~= full@.subrange(0, AEAD_NONCE_LEN as int));
        r
    }
}

/// Draws a random database salt. It need not be secret, but it must stay the same for
/// the database's lifetime.
pub fn generate_db_salt() -> (r: Result<DbSalt, UnspecifiedError>) {
    let mut buf: Vec<u8> = vec![0u8; SALT_LEN];
    match system_random_fill(&mut buf) {
        Ok(()) => Ok(array_from_vec(&buf)),
        Err(e) => Err(UnspecifiedError::from(e)),
    }
}

/// Derives a key from the database's salt and the user's name and password: PBKDF2 with
/// HMAC-SHA512 over the password, salted with the database salt followed by the name.
pub fn derive_key_from_credentials(db_salt: &DbSalt, username: &str, password: &str) -> (r: Key)
    requires
        credentials_fit(username@, password@),
    ensures
        r@ == credential_key(db_salt@, username@, password@),
{
    let name = username.as_bytes();
    let mut salt: Vec<u8> = Vec::with_capacity(SALT_LEN);
    salt.extend_from_slice(db_salt.as_slice());
    salt.extend_from_slice(name);
    assert(salt@ =~= user_salt(db_salt@, username@));
    pbkdf2_sha512_32(KDF_ITERATIONS, salt.as_slice(), password.as_bytes())
}

/// Encrypts `plaintext` under `key` with the given nonce and binds `aad` to it; the
/// result is the ciphertext followed by the authentication tag.
pub fn seal_with_nonce(key: &Key, aad: &[u8], nonce: &Nonce, plaintext: Vec<u8>) -> (r: Result<
    Vec<u8>,
    UnspecifiedError,
>)
    ensures
        r is Ok <==> sealable(plaintext@.len(), aad@.len()),
        r matches Ok(c) ==> c@ == aes_256_gcm_seal(key@, aead_nonce(nonce@), aad@, plaintext@),
        r matches Ok(c) ==> c@.len() == plaintext@.len() + TAG_LEN,
{
    let mut in_out = plaintext;
    let plain_len = in_out.len();
    if plain_len as u64 > AES_GCM_MAX_INPUT || aad.len() as u64 >= 0x2000_0000_0000_0000 {
        return Err(UnspecifiedError {  });
    }
    match aes_gcm_seal(key, nonce.aead_bytes(), aad, &mut in_out) {
        Ok(()) => Ok(in_out),
        Err(e) => Err(UnspecifiedError::from(e)),
    }
}

/// Encrypts `plaintext` under `key` with a freshly drawn nonce and binds `aad` to it.
/// Returns the nonce and the ciphertext followed by the authentication tag.
pub fn seal_in_place(key: &Key, aad: &[u8], plaintext: Vec<u8>) -> (r: Result<
    (Nonce, Vec<u8>),
    UnspecifiedError,
>)
    ensures
        r matches Ok((n, c)) ==> c@ == aes_256_gcm_seal(key@, aead_nonce(n@), aad@, plaintext@),
        r matches Ok((n, c)) ==> c@.len() == plaintext@.len() + TAG_LEN,
        r is Ok ==> sealable(plaintext@.len(), aad@.len()),
{
    let nonce = Nonce::random()?;
    let sealed = seal_with_nonce(key, aad, &nonce, plaintext)?;
    Ok((nonce, sealed))
}

/// Decrypts the ciphertext-and-tag `ciphertext` under `key` with the given nonce and
/// associated data; any mismatch gives the one undifferentiated error.
pub fn open_in_place(key: &Key, aad: &[u8], nonce: Nonce, ciphertext: Vec<u8>) -> (r: Result<
    Vec<u8>,
    UnspecifiedError,
>)
    ensures
        r matches Ok(p) ==> aes_256_gcm_open(key@, aead_nonce(nonce@), aad@, ciphertext@) == Some(
            p@,
        ),
        r is Err ==> aes_256_gcm_open(key@, aead_nonce(nonce@), aad@, ciphertext@) is None,
        r matches Ok(p) ==> p@.len() + TAG_LEN == ciphertext@.len(),
        r matches Ok(p) ==> aes_256_gcm_seal(key@, aead_nonce(nonce@), aad@, p@) == ciphertext@,
        forall|p: Seq<u8>|
            sealable(p.len(), aad@.len()) && #[trigger] aes_256_gcm_seal(
                key@,
                aead_nonce(nonce@),
                aad@,
                p,
            ) == ciphertext@ ==> (r matches Ok(q) && q@ == p),
{
    match aes_gcm_open(key, nonce.aead_bytes(), aad, ciphertext) {
        Ok(p) => Ok(p),
        Err(e) => Err(UnspecifiedError::from(e)),
    }
}

/// Splits stored bytes into the ciphertext-and-tag and the nonce field at the end.
fn split_nonce(sealed: Vec<u8>) -> (r: (Vec<u8>, [u8; NONCE_LEN]))
    requires
        sealed@.len() >= NONCE_LEN,
    ensures
        r.0@ == sealed@.subrange(0, sealed@.len() - NONCE_LEN),
        r.1@ == sealed@.subrange(sealed@.len() - NONCE_LEN, sealed@.len() as int),
{
    let mut body = sealed;
    let at = body.len() - NONCE_LEN;
    let tail = body.split_off(at);
    (body, array_from_vec(&tail))
}

/// Seals `plaintext` under `key` with the given nonce and associated data, and appends
/// the stored nonce field: the stored form of a record.
fn seal_appending_nonce(key: &Key, aad: &[u8], nonce: &Nonce, plaintext: Vec<u8>) -> (r: Result<
    Vec<u8>,
    UnspecifiedError,
>)
    ensures
        r is Ok <==> sealable(plaintext@.len(), aad@.len()),
        r matches Ok(c) ==> c@ == sealed_bytes(key@, nonce@, aad@, plaintext@),
        r matches Ok(c) ==> c@.len() == plaintext@.len() + TAG_LEN + NONCE_LEN,
{
    let mut sealed = seal_with_nonce(key, aad, nonce, plaintext)?;
    let ghost body = sealed@;
    let used = nonce.aead_bytes();
    let padding: [u8; 4] = [0, 0, 0, 0];
    sealed.extend_from_slice(used.as_slice());
    sealed.extend_from_slice(padding.as_slice());
    proof {
        lemma_le_bytes_len(nonce@ as nat, NONCE_LEN as nat);
        assert(padding@ =~= nonce_padding());
        assert(sealed@ =~= body + stored_nonce(nonce@));
    }
    Ok(sealed)
}

/// Opens the stored form of a record: splits off the nonce field, checks its padding,
/// then authenticates and decrypts the rest.
fn open_appended_nonce(key: &Key, aad: &[u8], sealed: Vec<u8>) -> (r: Result<Vec<u8>, OpenError>)
    ensures
        r matches Ok(p) ==> opened_bytes(key@, aad@, sealed@) == Ok::<Seq<u8>, OpenError>(p@),
        r matches Err(e) ==> opened_bytes(key@, aad@, sealed@) == Err::<Seq<u8>, OpenError>(e),
        r matches Ok(p) ==> sealed_bytes(key@, stored_nonce_value(sealed@), aad@, p@) == sealed@,
        forall|n: u128, p: Seq<u8>|
            sealable(p.len(), aad@.len()) && #[trigger] sealed_bytes(key@, n, aad@, p) == sealed@
                ==> (r matches Ok(q) && q@ == p),
{
    let len = sealed.len();
    if len < NONCE_LEN {
        proof {
            assert forall|n: u128, p: Seq<u8>| #[trigger]
                sealed_bytes(key@, n, aad@, p) != sealed@ by {
                lemma_le_bytes_len(n as nat, NONCE_LEN as nat);
            }
        }
        return Err(OpenError::Malformed);
    }
    let ghost whole = sealed@;
    let (body, tail) = split_nonce(sealed);
    proof {
        assert forall|n: u128, p: Seq<u8>| #[trigger] sealed_bytes(key@, n, aad@, p) == whole
            implies body@ == aes_256_gcm_seal(key@, aead_nonce(n), aad@, p) && tail@
            == stored_nonce(n) by {
            lemma_le_bytes_len(n as nat, NONCE_LEN as nat);
            let c = aes_256_gcm_seal(key@, aead_nonce(n), aad@, p);
            assert(whole.subrange(0, len - NONCE_LEN) =~= c);
            assert(whole.subrange(len - NONCE_LEN, len as int) =~= stored_nonce(n));
        }
    }
    if tail[12] != 0 || tail[13] != 0 || tail[14] != 0 || tail[15] != 0 {
        proof {
            assert(tail@.subrange(12, 16) != nonce_padding()) by {
                if tail@.subrange(12, 16) == nonce_padding() {
                    assert(tail@[12] == tail@.subrange(12, 16)[0]);
                    assert(tail@[13] == tail@.subrange(12, 16)[1]);
                    assert(tail@[14] == tail@.subrange(12, 16)[2]);
                    assert(tail@[15] == tail@.subrange(12, 16)[3]);
                }
            }
            assert(whole.subrange(len - NONCE_LEN + AEAD_NONCE_LEN, len as int) =~= tail@.subrange(
                12,
                16,
            ));
            assert forall|n: u128, p: Seq<u8>| #[trigger]
                sealed_bytes(key@, n, aad@, p) != whole by {
                if sealed_bytes(key@, n, aad@, p) == whole {
                    lemma_le_bytes_len(n as nat, NONCE_LEN as nat);
                    assert(stored_nonce(n).subrange(12, 16) =~= nonce_padding());
                }
            }
        }
        if len < NONCE_LEN + TAG_LEN {
            return Err(OpenError::Malformed);
        } else {
            return Err(OpenError::Unspecified(UnspecifiedError {  }));
        }
    }
    let nonce = Nonce::from_le_bytes(tail);
    proof {
        lemma_le_value_bound(tail@);
        lemma_pow256_16();
        assert(nonce@ == stored_nonce_value(whole));
        lemma_le_bytes_len(nonce@ as nat, NONCE_LEN as nat);
        assert(aead_nonce(nonce@) =~= tail@.subrange(0, AEAD_NONCE_LEN as int));
        assert(tail@.subrange(12, 16) =~= nonce_padding()) by {
            assert(tail@.subrange(12, 16) =~= seq![tail@[12], tail@[13], tail@[14], tail@[15]]);
        }
        assert(stored_nonce(nonce@) =~= tail@);
        assert(whole.subrange(len - NONCE_LEN + AEAD_NONCE_LEN, len as int) =~= tail@.subrange(
            12,
            16,
        ));
        assert(whole.subrange(len - NONCE_LEN, len - NONCE_LEN + AEAD_NONCE_LEN) =~= tail@.subrange(
            0,
            12,
        ));
        assert(whole =~= body@ + tail@);
        assert forall|n: u128, p: Seq<u8>| #[trigger] sealed_bytes(key@, n, aad@, p) == whole
            implies aes_256_gcm_seal(key@, aead_nonce(nonce@), aad@, p) == body@ by {
            lemma_le_bytes_len(n as nat, NONCE_LEN as nat);
            assert(aead_nonce(n) =~= stored_nonce(n).subrange(0, 12));
        }
    }
    match open_in_place(key, aad, nonce, body) {
        Ok(p) => {
            assert(sealed_bytes(key@, nonce@, aad@, p@) == whole);
            Ok(p)
        },
        Err(_) => {
            if len < NONCE_LEN + TAG_LEN {
                Err(OpenError::Malformed)
            } else {
                Err(OpenError::Unspecified(UnspecifiedError {  }))
            }
        },
    }
}

/// What a credential guard holds: the database salt and the key derived from it and
/// the credentials.
pub struct CredentialState {
    pub salt: Seq<u8>,
    pub key: Seq<u8>,
}

/// The state of a guard built from the database salt and a user's name and password.
pub open spec fn credential_state(salt: Seq<u8>, username: Seq<char>, password: Seq<char>) -> CredentialState {
    CredentialState { salt, key: credential_key(salt, username, password) }
}

/// Verifies the user's name and password: its key only wraps and unwraps the data key.
#[derive(Debug)]
pub struct CredentialGuard {
    /// The database's unique salt.
    salt: DbSalt,
    /// The key derived from the user's name and password.
    credential_key: Key,
}

impl View for CredentialGuard {
    type V = CredentialState;

    closed spec fn view(&self) -> CredentialState {
        CredentialState { salt: self.salt@, key: self.credential_key@ }
    }
}

impl CredentialGuard {
    /// Builds a guard from the database's salt and the user's name and password.
    pub fn new(salt: DbSalt, username: &str, password: &str) -> (r: CredentialGuard)
        requires
            credentials_fit(username@, password@),
        ensures
            r@ == credential_state(salt@, username@, password@),
    {
        let key = derive_key_from_credentials(&salt, username, password);
        CredentialGuard { salt, credential_key: key }
    }

    /// Replaces the credentials, keeping the salt, so that unwrapping can be tried again.
    pub fn update_credentials(&mut self, username: &str, password: &str)
        requires
            credentials_fit(username@, password@),
        ensures
            final(self)@ == credential_state(old(self)@.salt, username@, password@),
    {
        self.credential_key = derive_key_from_credentials(&self.salt, username, password);
    }

    /// Tries to unwrap the data key with the current credentials. On success the guard
    /// is consumed into a data guard; on failure it is handed back unchanged, ready for
    /// other credentials.
    pub fn try_decrypt_key(self, encrypted_key: Vec<u8>) -> (r: Result<DataGuard, Self>)
        ensures
            r matches Ok(d) ==> unwrapped_key(self@.key, encrypted_key@) == Some(d@),
            r matches Err(g) ==> g == self && unwrapped_key(self@.key, encrypted_key@) is None,
            r matches Ok(d) ==> sealed_bytes(
                self@.key,
                stored_nonce_value(encrypted_key@),
                Seq::empty(),
                d@,
            ) == encrypted_key@,
            forall|n: u128, k: Seq<u8>|
                k.len() == KEY_LEN && #[trigger] sealed_bytes(self@.key, n, Seq::empty(), k)
                    == encrypted_key@ ==> (r matches Ok(d) && d@ == k),
    {
        let empty: [u8; 0] = [];
        assert(empty@ =~= Seq::<u8>::empty());
        let opened = open_appended_nonce(&self.credential_key, empty.as_slice(), encrypted_key);
        match opened {
            Ok(key) => {
                if key.len() == KEY_LEN {
                    let key: Key = array_from_vec(&key);
                    Ok(DataGuard { guard: self, key })
                } else {
                    Err(self)
                }
            },
            Err(_) => Err(self),
        }
    }

    /// Wraps `data_key` under the credentials with the given nonce: the bytes to store.
    pub fn wrap_key(&self, data_key: &Key, nonce: &Nonce) -> (r: Vec<u8>)
        ensures
            r@ == sealed_bytes(self@.key, nonce@, Seq::empty(), data_key@),
            r@.len() == KEY_LEN + TAG_LEN + NONCE_LEN,
    {
        let empty: [u8; 0] = [];
        assert(empty@ =~= Seq::<u8>::empty());
        let mut plaintext: Vec<u8> = Vec::new();
        plaintext.extend_from_slice(data_key.as_slice());
        assert(plaintext@ =~= data_key@);
        match seal_appending_nonce(&self.credential_key, empty.as_slice(), nonce, plaintext) {
            Ok(w) => w,
            Err(_) => {
                assert(false);
                Vec::new()
            },
        }
    }

    /// Generates a random data key and wraps it under the credentials. Only for a
    /// database that has no key yet: a second key would orphan every stored record.
    pub fn generate_encrypted_key(&self) -> (r: Result<Vec<u8>, UnspecifiedError>)
        ensures
            r matches Ok(w) ==> exists|n: u128, k: Seq<u8>|
                k.len() == KEY_LEN && #[trigger] sealed_bytes(self@.key, n, Seq::empty(), k) == w@,
            r matches Ok(w) ==> w@.len() == KEY_LEN + TAG_LEN + NONCE_LEN,
    {
        let mut buf: Vec<u8> = vec![0u8; KEY_LEN];
        match system_random_fill(&mut buf) {
            Ok(()) => {},
            Err(e) => return Err(UnspecifiedError::from(e)),
        }
        let data_key: Key = array_from_vec(&buf);
        let nonce = Nonce::random()?;
        Ok(self.wrap_key(&data_key, &nonce))
    }
}

/// Seals and opens records with the data key. Only a credential guard whose
/// credentials unwrapped that key can produce one.
#[derive(Debug)]
pub struct DataGuard {
    guard: CredentialGuard,
    key: Key,
}

impl View for DataGuard {
    type V = Seq<u8>;

    /// The data key.
    closed spec fn view(&self) -> Seq<u8> {
        self.key@
    }
}

impl DataGuard {
    /// Seals `plaintext` for the record `uuid` with the given nonce: ciphertext, tag, nonce.
    pub fn seal_with_nonce(&self, uuid: Uuid, plaintext: Vec<u8>, nonce: &Nonce) -> (r: Result<
        Vec<u8>,
        UnspecifiedError,
    >)
        ensures
            r is Ok <==> plaintext@.len() <= AES_GCM_MAX_INPUT,
            r matches Ok(c) ==> c@ == sealed_bytes(self@, nonce@, uuid_bytes(uuid@), plaintext@),
            r matches Ok(c) ==> c@.len() == plaintext@.len() + TAG_LEN + NONCE_LEN,
    {
        let aad = uuid.to_bytes();
        seal_appending_nonce(&self.key, aad.as_slice(), nonce, plaintext)
    }

    /// Seals `plaintext` for the record `uuid` with a freshly drawn nonce: ciphertext,
    /// tag, nonce. The identifier is bound as associated data.
    pub fn seal_in_place(&mut self, uuid: Uuid, plaintext: Vec<u8>) -> (r: Result<
        Vec<u8>,
        UnspecifiedError,
    >)
        ensures
            *final(self) == *old(self),
            r matches Ok(c) ==> exists|n: u128|
                #[trigger] sealed_bytes(old(self)@, n, uuid_bytes(uuid@), plaintext@) == c@,
            r is Ok ==> plaintext@.len() <= AES_GCM_MAX_INPUT,
            r matches Ok(c) ==> c@.len() == plaintext@.len() + TAG_LEN + NONCE_LEN,
    {
        let nonce = Nonce::random()?;
        self.seal_with_nonce(uuid, plaintext, &nonce)
    }

    /// Opens what was sealed for the record `uuid`. Bytes too short for a nonce and a tag
    /// are reported as malformed; every other failure is the one undifferentiated error.
    pub fn open_in_place(&mut self, uuid: Uuid, ciphertext: Vec<u8>) -> (r: Result<
        Vec<u8>,
        OpenError,
    >)
        ensures
            *final(self) == *old(self),
            r matches Ok(p) ==> opened_bytes(old(self)@, uuid_bytes(uuid@), ciphertext@) == Ok::<
                Seq<u8>,
                OpenError,
            >(p@),
            r matches Err(e) ==> opened_bytes(old(self)@, uuid_bytes(uuid@), ciphertext@) == Err::<
                Seq<u8>,
                OpenError,
            >(e),
            r matches Ok(p) ==> sealed_bytes(
                old(self)@,
                stored_nonce_value(ciphertext@),
                uuid_bytes(uuid@),
                p@,
            ) == ciphertext@,
            forall|n: u128, p: Seq<u8>|
                p.len() <= AES_GCM_MAX_INPUT && #[trigger] sealed_bytes(
                    old(self)@,
                    n,
                    uuid_bytes(uuid@),
                    p,
                ) == ciphertext@ ==> (r matches Ok(q) && q@ == p),
    {
        let aad = uuid.to_bytes();
        open_appended_nonce(&self.key, aad.as_slice(), ciphertext)
    }
}

} // verus!
