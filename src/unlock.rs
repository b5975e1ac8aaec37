//! The credential verification protocol: from a stored salt and wrapped key and the
//! user's credentials to a data guard, with first-use provisioning and a bounded
//! number of attempts. Prompting is left to the caller, which hands each new pair of
//! credentials to the session.

use crate::bytes::array_from_vec;
use crate::security::{
    credential_state, credentials_fit, sealed_bytes, unwrapped_key, CredentialGuard,
    CredentialState, DataGuard, DbSalt, UnspecifiedError, KEY_LEN, SALT_LEN,
};
use vstd::prelude::*;

verus! {

/// How many times the credentials may be tried before unlocking fails for good.
pub const MAX_ATTEMPTS: u32 = 3;

/// Whether a step should run again: it has just failed, and it has run fewer than
/// `max` times.
pub fn should_retry(runs: usize, max: usize, succeeded: bool) -> (r: bool)
    ensures
        r == (!succeeded && runs < max),
{
    !succeeded && runs < max
}

/// The database salt read back from storage, if it has the right length.
pub fn salt_from_bytes(bytes: &Vec<u8>) -> (r: Option<DbSalt>)
    ensures
        r is Some <==> bytes@.len() == SALT_LEN,
        r matches Some(s) ==> s@ == bytes@,
{
    if bytes.len() == SALT_LEN {
        Some(array_from_vec(bytes))
    } else {
        None
    }
}

/// `wrapped` is some data key sealed under `credential_key`.
pub open spec fn provisioned(credential_key: Seq<u8>, wrapped: Seq<u8>) -> bool {
    exists|n: u128, k: Seq<u8>|
        k.len() == KEY_LEN && #[trigger] sealed_bytes(credential_key, n, Seq::empty(), k)
            == wrapped
}

/// What an unlock session holds: the credentials being tried, the wrapped data key,
/// and how many attempts have failed.
pub struct UnlockState {
    pub credentials: CredentialState,
    pub wrapped_key: Seq<u8>,
    pub failures: nat,
}

/// An unlock in progress.
pub struct Unlock {
    guard: CredentialGuard,
    wrapped_key: Vec<u8>,
    failures: u32,
}

impl View for Unlock {
    type V = UnlockState;

    closed spec fn view(&self) -> UnlockState {
        UnlockState {
            credentials: self.guard@,
            wrapped_key: self.wrapped_key@,
            failures: self.failures as nat,
        }
    }
}

/// What one attempt leads to.
pub enum UnlockStep {
    /// The credentials unwrapped the data key.
    Unlocked(DataGuard),
    /// The credentials were wrong and attempts remain: update them and try again.
    Retry(Unlock),
    /// The last allowed attempt failed.
    Exhausted,
}

impl Unlock {
    /// Starts a session with `guard` against the stored wrapped key. When nothing is
    /// stored yet, a data key is generated and wrapped under the guard's credentials;
    /// it is returned for the caller to store.
    pub fn begin(guard: CredentialGuard, stored_key: Vec<u8>) -> (r: Result<
        (Unlock, Option<Vec<u8>>),
        UnspecifiedError,
    >)
        ensures
            r matches Ok((u, _)) ==> u@.credentials == guard@ && u@.failures == 0,
            r matches Ok((u, fresh)) ==> (fresh is None <==> stored_key@.len() > 0),
            r matches Ok((u, None)) ==> u@.wrapped_key == stored_key@,
            r matches Ok((u, Some(w))) ==> u@.wrapped_key == w@ && provisioned(guard@.key, w@),
            stored_key@.len() > 0 ==> r is Ok,
    {
        if stored_key.len() > 0 {
            Ok((Unlock { guard, wrapped_key: stored_key, failures: 0 }, None))
        } else {
            let wrapped = guard.generate_encrypted_key()?;
            let stored = wrapped.clone();
            assert(stored@ == wrapped@);
            Ok((Unlock { guard, wrapped_key: wrapped, failures: 0 }, Some(stored)))
        }
    }

    /// The number of attempts that have failed so far.
    pub fn failures(&self) -> (r: u32)
        ensures
            r == self@.failures,
    {
        self.failures
    }

    /// Tries the current credentials against the wrapped key.
    pub fn attempt(self) -> (r: UnlockStep)
        ensures
            r matches UnlockStep::Unlocked(d) ==> unwrapped_key(
                self@.credentials.key,
                self@.wrapped_key,
            ) == Some(d@),
            !(r is Unlocked) ==> unwrapped_key(self@.credentials.key, self@.wrapped_key) is None,
            r matches UnlockStep::Retry(u) ==> u@ == (UnlockState {
                credentials: self@.credentials,
                wrapped_key: self@.wrapped_key,
                failures: self@.failures + 1,
            }),
            r is Retry <==> !(r is Unlocked) && self@.failures + 1 < MAX_ATTEMPTS,
            r is Exhausted <==> !(r is Unlocked) && self@.failures + 1 >= MAX_ATTEMPTS,
            provisioned(self@.credentials.key, self@.wrapped_key) ==> r is Unlocked,
    {
        let Unlock { guard, wrapped_key, failures } = self;
        let attempt_key = wrapped_key.clone();
        assert(attempt_key@ == wrapped_key@);
        match guard.try_decrypt_key(attempt_key) {
            Ok(data_guard) => UnlockStep::Unlocked(data_guard),
            Err(guard) => {
                if failures < MAX_ATTEMPTS - 1 {
                    UnlockStep::Retry(Unlock { guard, wrapped_key, failures: failures + 1 })
                } else {
                    UnlockStep::Exhausted
                }
            },
        }
    }

    /// Replaces the credentials to try, keeping the salt, the wrapped key and the count
    /// of failed attempts.
    pub fn update_credentials(&mut self, username: &str, password: &str)
        requires
            credentials_fit(username@, password@),
        ensures
            final(self)@ == (UnlockState {
                credentials: credential_state(old(self)@.credentials.salt, username@, password@),
                wrapped_key: old(self)@.wrapped_key,
                failures: old(self)@.failures,
            }),
    {
        self.guard.update_credentials(username, password);
    }
}

} // verus!
