use jarida::{
    salt_from_bytes, should_retry, CredentialGuard, Format, Ided, Open, OpenError, Seal, Unlock,
    UnlockStep, Uuid, MAX_ATTEMPTS,
};

const SALT: [u8; 16] = *b"0123456789abcdef";

fn unlock(stored: Vec<u8>, username: &str, password: &str) -> (Unlock, Option<Vec<u8>>) {
    Unlock::begin(CredentialGuard::new(SALT, username, password), stored).unwrap()
}

#[test]
fn provision_then_reopen_end_to_end() {
    // First session: nothing stored yet.
    let (session, fresh) = unlock(Vec::new(), "alice", "correct-horse");
    let wrapped = fresh.expect("a new database gets a wrapped key");
    assert!(!wrapped.is_empty());
    let id = Uuid::from_bytes([42u8; 16]);
    let sealed = match session.attempt() {
        UnlockStep::Unlocked(mut data_guard) => {
            data_guard.seal_in_place(id, b"first entry".to_vec()).unwrap()
        }
        _ => panic!("provisioning credentials must unlock"),
    };

    // Second session with the same credentials and the stored key.
    let (session, fresh) = unlock(wrapped.clone(), "alice", "correct-horse");
    assert!(fresh.is_none());
    match session.attempt() {
        UnlockStep::Unlocked(mut data_guard) => {
            assert_eq!(data_guard.open_in_place(id, sealed).unwrap(), b"first entry".to_vec());
        }
        _ => panic!("same credentials must unlock"),
    }

    // Third session with a wrong password, three times.
    let (mut session, _) = unlock(wrapped, "alice", "wrong");
    let mut failures = 0;
    loop {
        match session.attempt() {
            UnlockStep::Unlocked(_) => panic!("wrong password unlocked"),
            UnlockStep::Retry(mut next) => {
                failures += 1;
                assert_eq!(next.failures(), failures);
                next.update_credentials("alice", "wrong");
                session = next;
            }
            UnlockStep::Exhausted => {
                failures += 1;
                break;
            }
        }
    }
    assert_eq!(failures, MAX_ATTEMPTS);
    assert_eq!(MAX_ATTEMPTS, 3);
}

#[test]
fn retry_with_corrected_credentials_unlocks() {
    let (_, fresh) = unlock(Vec::new(), "alice", "correct-horse");
    let wrapped = fresh.unwrap();
    let (session, _) = unlock(wrapped, "alice", "typo");
    match session.attempt() {
        UnlockStep::Retry(mut next) => {
            next.update_credentials("alice", "correct-horse");
            assert!(matches!(next.attempt(), UnlockStep::Unlocked(_)));
        }
        _ => panic!("a wrong password leaves attempts"),
    }
}

#[test]
fn wrong_username_does_not_unlock() {
    let (_, fresh) = unlock(Vec::new(), "alice", "correct-horse");
    let (session, _) = unlock(fresh.unwrap(), "bob", "correct-horse");
    assert!(matches!(session.attempt(), UnlockStep::Retry(_)));
}

#[test]
fn retry_decisions() {
    assert!(should_retry(1, 3, false));
    assert!(should_retry(2, 3, false));
    assert!(!should_retry(3, 3, false));
    assert!(!should_retry(1, 3, true));
    assert!(!should_retry(1, 0, false));
    assert!(!should_retry(1, 1, false));
}

#[test]
fn stored_salt_must_have_sixteen_bytes() {
    assert_eq!(salt_from_bytes(&SALT.to_vec()), Some(SALT));
    assert_eq!(salt_from_bytes(&vec![1u8; 15]), None);
    assert_eq!(salt_from_bytes(&vec![1u8; 17]), None);
    assert_eq!(salt_from_bytes(&Vec::new()), None);
}

#[test]
fn strings_and_bytes_seal_as_records() {
    let (session, _) = unlock(Vec::new(), "alice", "pw");
    let mut guard = match session.attempt() {
        UnlockStep::Unlocked(g) => g,
        _ => panic!("fresh database must unlock"),
    };
    let id = Uuid::from_bytes([3u8; 16]);
    let sealed = String::from("héllo").seal(id, &mut guard).unwrap();
    assert_eq!(<String as Open>::open(id, sealed, &mut guard).unwrap(), "héllo");
    let sealed = vec![0xffu8, 0xfe].seal(id, &mut guard).unwrap();
    assert_eq!(<Vec<u8> as Open>::open(id, sealed.clone(), &mut guard).unwrap(), vec![0xff, 0xfe]);
    assert!(matches!(
        <String as Open>::open(id, sealed, &mut guard),
        Err(OpenError::Unspecified(_))
    ));
    assert_eq!(Seal::into_bytes(String::from("ab")), b"ab".to_vec());
    assert!(<String as Open>::from_bytes(vec![0xc3]).is_err());
}

#[test]
fn ided_and_format() {
    let item = Ided { uuid: Uuid::from_bytes([0u8; 16]), data: 5 };
    assert_eq!(item.data, 5);
    assert_ne!(Format::Default, Format::Toml);
}
