use jarida::{
    derive_key_from_credentials, generate_db_salt, AEAD_NONCE_BOUND, AEAD_NONCE_LEN, open_in_place, seal_in_place, seal_with_nonce,
    CredentialGuard, Nonce, OpenError, Uuid, KEY_LEN, NONCE_LEN, TAG_LEN,
};

fn nonce_of(v: u128) -> Nonce {
    Nonce::from_le_bytes(v.to_le_bytes())
}

fn record_id(v: u128) -> Uuid {
    Uuid::from_bytes(v.to_le_bytes())
}

fn unlocked(salt: [u8; 16], username: &str, password: &str) -> (Vec<u8>, jarida::DataGuard) {
    let guard = CredentialGuard::new(salt, username, password);
    let wrapped = guard.generate_encrypted_key().unwrap();
    let data_guard = guard.try_decrypt_key(wrapped.clone()).unwrap();
    (wrapped, data_guard)
}

#[test]
fn seal_and_open() {
    let message = b"Hello, World";
    let username = "username";
    let password = "password";
    let salt = generate_db_salt().unwrap();
    let credential_key = derive_key_from_credentials(&salt, username, password);

    let data = message.to_vec();
    let (nonce, ciphertext) = seal_in_place(&credential_key, &[], data).unwrap();
    let extracted = open_in_place(&credential_key, &[], nonce, ciphertext).unwrap();
    assert_eq!(message, &*extracted);
}

#[test]
fn aes_gcm_known_answers() {
    let key = [0u8; KEY_LEN];
    let empty = seal_with_nonce(&key, &[], &nonce_of(0), Vec::new()).unwrap();
    assert_eq!(
        empty,
        vec![
            0x53, 0x0f, 0x8a, 0xfb, 0xc7, 0x45, 0x36, 0xb9, 0xa9, 0x63, 0xb4, 0xf1, 0xc4, 0xcb,
            0x73, 0x8b
        ]
    );
    let block = seal_with_nonce(&key, &[], &nonce_of(0), vec![0u8; 16]).unwrap();
    assert_eq!(
        block,
        vec![
            0xce, 0xa7, 0x40, 0x3d, 0x4d, 0x60, 0x6b, 0x6e, 0x07, 0x4e, 0xc5, 0xd3, 0xba, 0xf3,
            0x9d, 0x18, 0xd0, 0xd1, 0xc8, 0xa7, 0x99, 0x99, 0x6b, 0xf0, 0x26, 0x5b, 0x98, 0xb5,
            0xd4, 0x8a, 0xb9, 0x19
        ]
    );
}

#[test]
fn seal_with_nonce_is_deterministic_and_encrypts() {
    let key = [7u8; KEY_LEN];
    let plaintext = b"journal entry".to_vec();
    let a = seal_with_nonce(&key, b"id", &nonce_of(42), plaintext.clone()).unwrap();
    let b = seal_with_nonce(&key, b"id", &nonce_of(42), plaintext.clone()).unwrap();
    let c = seal_with_nonce(&key, b"id", &nonce_of(43), plaintext.clone()).unwrap();
    assert_eq!(a, b);
    assert_ne!(a, c);
    assert_eq!(a.len(), plaintext.len() + TAG_LEN);
    assert_ne!(&a[..plaintext.len()], &plaintext[..]);
}

#[test]
fn open_with_wrong_nonce_or_aad_fails() {
    let key = [9u8; KEY_LEN];
    let (nonce, ciphertext) = seal_in_place(&key, b"aad", b"secret".to_vec()).unwrap();
    let other = Nonce::from_le_bytes({
        let mut b = nonce.to_le_bytes();
        b[0] ^= 1;
        b
    });
    assert!(open_in_place(&key, b"aad", other, ciphertext.clone()).is_err());
    assert!(open_in_place(&key, b"other", nonce, ciphertext.clone()).is_err());
    assert_eq!(open_in_place(&key, b"aad", nonce, ciphertext).unwrap(), b"secret".to_vec());
}

#[test]
fn nonce_encoding() {
    let n = nonce_of(0x0102);
    let bytes = n.to_le_bytes();
    assert_eq!(bytes[0], 0x02);
    assert_eq!(bytes[1], 0x01);
    assert!(bytes[2..].iter().all(|b| *b == 0));
    let all: [u8; 16] = [0xff; 16];
    assert_eq!(Nonce::from_le_bytes(all).to_le_bytes(), all);
    assert_eq!(Nonce::len(), 16);
    assert_eq!(Nonce::len(), NONCE_LEN);
}

#[test]
fn record_round_trip() {
    let (_, mut data_guard) = unlocked([1u8; 16], "alice", "correct-horse");
    for plaintext in [Vec::new(), b"x".to_vec(), vec![0xAB; 1000]] {
        let id = record_id(77);
        let sealed = data_guard.seal_in_place(id, plaintext.clone()).unwrap();
        assert_eq!(sealed.len(), plaintext.len() + TAG_LEN + NONCE_LEN);
        assert_eq!(data_guard.open_in_place(id, sealed).unwrap(), plaintext);
    }
}

#[test]
fn record_seal_with_given_nonce_is_exact() {
    let (_, data_guard) = unlocked([2u8; 16], "alice", "pw");
    let id = record_id(5);
    let a = data_guard.seal_with_nonce(id, b"abc".to_vec(), &nonce_of(1)).unwrap();
    let b = data_guard.seal_with_nonce(id, b"abc".to_vec(), &nonce_of(1)).unwrap();
    assert_eq!(a, b);
    assert_eq!(&a[a.len() - NONCE_LEN..], &1u128.to_le_bytes()[..]);
}

#[test]
fn tampering_is_detected() {
    let (_, mut data_guard) = unlocked([3u8; 16], "alice", "correct-horse");
    let id = record_id(1);
    let plaintext = b"Dear diary".to_vec();
    let sealed = data_guard.seal_in_place(id, plaintext.clone()).unwrap();
    for i in 0..sealed.len() {
        for bit in 0..8 {
            let mut altered = sealed.clone();
            altered[i] ^= 1 << bit;
            let result = data_guard.open_in_place(id, altered);
            assert!(
                matches!(result, Err(OpenError::Unspecified(_))),
                "byte {} bit {} went unnoticed",
                i,
                bit
            );
        }
    }
    assert!(data_guard.open_in_place(record_id(2), sealed.clone()).is_err());
    assert_eq!(data_guard.open_in_place(id, sealed).unwrap(), plaintext);
}

#[test]
fn altered_wrapped_key_does_not_unwrap() {
    let salt = [10u8; 16];
    let wrapped = CredentialGuard::new(salt, "alice", "pw").generate_encrypted_key().unwrap();
    let mut guard = CredentialGuard::new(salt, "alice", "pw");
    for i in 0..wrapped.len() {
        for bit in 0..8 {
            let mut altered = wrapped.clone();
            altered[i] ^= 1 << bit;
            guard = match guard.try_decrypt_key(altered) {
                Ok(_) => panic!("byte {} bit {} went unnoticed", i, bit),
                Err(g) => g,
            };
        }
    }
    assert!(guard.try_decrypt_key(wrapped).is_ok());
}

#[test]
fn stored_nonce_field_ends_in_zero_padding() {
    let (_, mut data_guard) = unlocked([11u8; 16], "alice", "pw");
    let id = record_id(9);
    let high = Nonce::from_le_bytes([0xff; 16]);
    let sealed = data_guard.seal_with_nonce(id, b"abc".to_vec(), &high).unwrap();
    let field = &sealed[sealed.len() - NONCE_LEN..];
    assert_eq!(&field[..AEAD_NONCE_LEN], &[0xff; 12][..]);
    assert_eq!(&field[AEAD_NONCE_LEN..], &[0u8; 4][..]);
    assert_eq!(data_guard.open_in_place(id, sealed.clone()).unwrap(), b"abc".to_vec());
    let mut altered = sealed;
    let last = altered.len() - 1;
    altered[last] = 1;
    assert!(matches!(
        data_guard.open_in_place(id, altered),
        Err(OpenError::Unspecified(_))
    ));
    for _ in 0..1000 {
        let n = Nonce::random().unwrap();
        assert!(u128::from_le_bytes(n.to_le_bytes()) < AEAD_NONCE_BOUND);
    }
}

#[test]
fn short_input_is_malformed() {
    let (_, mut data_guard) = unlocked([4u8; 16], "alice", "pw");
    let id = record_id(1);
    for len in [0usize, 1, 15, 16, 31] {
        let result = data_guard.open_in_place(id, vec![0u8; len]);
        assert_eq!(result, Err(OpenError::Malformed));
    }
    let result = data_guard.open_in_place(id, vec![0u8; 32]);
    assert!(matches!(result, Err(OpenError::Unspecified(_))));
}

#[test]
fn substituted_record_id_fails() {
    let (_, mut data_guard) = unlocked([5u8; 16], "alice", "correct-horse");
    let r1 = Uuid::from_bytes(*b"r1\0\0\0\0\0\0\0\0\0\0\0\0\0\0");
    let r2 = Uuid::from_bytes(*b"r2\0\0\0\0\0\0\0\0\0\0\0\0\0\0");
    let sealed = data_guard.seal_in_place(r1, b"entry".to_vec()).unwrap();
    assert!(matches!(
        data_guard.open_in_place(r2, sealed.clone()),
        Err(OpenError::Unspecified(_))
    ));
    assert_eq!(data_guard.open_in_place(r1, sealed).unwrap(), b"entry".to_vec());
}

#[test]
fn nonces_do_not_collide() {
    let mut seen = std::collections::HashSet::new();
    for _ in 0..100_000 {
        let nonce = Nonce::random().unwrap();
        assert!(seen.insert(nonce.to_le_bytes()));
    }
}

#[test]
fn kdf_is_deterministic_and_separates_inputs() {
    let salt = [6u8; 16];
    let a = derive_key_from_credentials(&salt, "alice", "pass");
    let b = derive_key_from_credentials(&salt, "alice", "pass");
    assert_eq!(a, b);
    assert_eq!(a.len(), KEY_LEN);
    assert_ne!(a, derive_key_from_credentials(&salt, "alice", "pass2"));
    assert_ne!(a, derive_key_from_credentials(&salt, "bob", "pass"));
    assert_ne!(a, derive_key_from_credentials(&[7u8; 16], "alice", "pass"));
    assert_ne!(&a[..4], b"pass");
}

#[test]
fn failed_unwrap_returns_guard_for_retry() {
    let salt = [8u8; 16];
    let wrapped = CredentialGuard::new(salt, "alice", "right").generate_encrypted_key().unwrap();
    let guard = CredentialGuard::new(salt, "alice", "wrong");
    let mut guard = match guard.try_decrypt_key(wrapped.clone()) {
        Ok(_) => panic!("wrong credentials unwrapped the key"),
        Err(g) => g,
    };
    guard.update_credentials("alice", "right");
    assert!(guard.try_decrypt_key(wrapped).is_ok());
}

#[test]
fn wrapped_key_layout() {
    let guard = CredentialGuard::new([9u8; 16], "u", "p");
    let wrapped = guard.wrap_key(&[1u8; KEY_LEN], &nonce_of(3));
    assert_eq!(wrapped.len(), KEY_LEN + TAG_LEN + NONCE_LEN);
    assert_eq!(&wrapped[wrapped.len() - NONCE_LEN..], &3u128.to_le_bytes()[..]);
    assert_ne!(&wrapped[..KEY_LEN], &[1u8; KEY_LEN][..]);
    assert!(guard.try_decrypt_key(wrapped).is_ok());
}

#[test]
fn short_wrapped_key_does_not_unwrap() {
    let guard = CredentialGuard::new([9u8; 16], "u", "p");
    let guard = match guard.try_decrypt_key(vec![1, 2, 3]) {
        Ok(_) => panic!("garbage unwrapped"),
        Err(g) => g,
    };
    assert!(guard.try_decrypt_key(Vec::new()).is_err());
}

#[test]
fn uuid_bytes_round_trip() {
    let bytes: [u8; 16] = [1, 2, 3, 4, 5, 6, 7, 8, 9, 10, 11, 12, 13, 14, 15, 16];
    assert_eq!(Uuid::from_bytes(bytes).to_bytes(), bytes);
    assert_eq!(record_id(0x0a0b).to_bytes()[..2], [0x0b, 0x0a]);
    let a = Uuid::random().unwrap();
    assert_eq!(Uuid::from_bytes(a.to_bytes()), a);
}

#[test]
fn drawn_bytes_give_their_low_96_bits() {
    let mut bytes = [0u8; 16];
    bytes[0] = 0x2a;
    bytes[11] = 0x01;
    bytes[12] = 0xff;
    bytes[15] = 0x80;
    let n = Nonce::from_drawn(bytes);
    let expected = u128::from_le_bytes(bytes) % AEAD_NONCE_BOUND;
    assert_eq!(u128::from_le_bytes(n.to_le_bytes()), expected);
    assert_eq!(n.to_le_bytes()[12..], [0u8; 4]);
    assert_eq!(n.to_le_bytes()[..12], bytes[..12]);
    let a = Nonce::from_drawn([1u8; 16]).to_le_bytes();
    let b = Nonce::from_drawn([2u8; 16]).to_le_bytes();
    assert_ne!(a, b);
}
