//! Credential storage in the platform Secret Service, behind the injectable
//! [`SecretBackend`] seam, with a session-only fallback.
//!
//! The store keeps one credential under fixed coordinates and never holds the
//! secret beyond the call that stores or resolves it.
use vstd::prelude::*;
use crate::provider::credential::{
    CredentialError, CredentialReference, CredentialStatus, CredentialStore, CredentialValue,
    InMemoryCredentialStore,
};
use crate::text::{is_blank_seq, text_eq};

verus! {

pub const KEYRING_SERVICE: &'static str = "dev.brainroot.experiment";

pub const KEYRING_ACCOUNT: &'static str = "default";

pub const SMOKE_SERVICE: &'static str = "brainroot-smoke-test";

pub const SMOKE_ACCOUNT: &'static str = "smoke";

/// A secret storage service addressed by service and account names. What it
/// answers depends on the service, so no contract is stated here.
pub trait SecretBackend {
    fn get(&self, service: &str, account: &str) -> Result<Option<String>, CredentialError>;

    fn set(&self, service: &str, account: &str, secret: &str) -> Result<(), CredentialError>;

    fn delete(&self, service: &str, account: &str) -> Result<(), CredentialError>;
}

/// The status that a backend's answer for the credential's coordinates means.
pub open spec fn answer_status(answer: Result<Option<Seq<char>>, CredentialError>) -> CredentialStatus {
    match answer {
        Ok(Some(_)) => CredentialStatus::Configured,
        Ok(None) => CredentialStatus::NotConfigured,
        Err(_) => CredentialStatus::Unavailable,
    }
}

/// A backend answer, with the secret taken by its text.
pub open spec fn answer_view(answer: Result<Option<String>, CredentialError>) -> Result<
    Option<Seq<char>>,
    CredentialError,
> {
    match answer {
        Ok(Some(s)) => Ok(Some(s@)),
        Ok(None) => Ok(None),
        Err(e) => Err(e),
    }
}

/// The status for a backend's answer.
pub fn status_of(answer: &Result<Option<String>, CredentialError>) -> (r: CredentialStatus)
    ensures
        r == answer_status(answer_view(*answer)),
{
    match answer {
        Ok(Some(_)) => CredentialStatus::Configured,
        Ok(None) => CredentialStatus::NotConfigured,
        Err(_) => CredentialStatus::Unavailable,
    }
}

/// The resolution of a backend's answer: the stored secret when there is a
/// usable one, `NotConfigured` when there is none, the backend's error else.
pub fn resolution_of(answer: Result<Option<String>, CredentialError>) -> (r: Result<
    CredentialValue,
    CredentialError,
>)
    ensures
        answer matches Ok(Some(s)) ==> {
            &&& (r is Err <==> is_blank_seq(s@))
            &&& (r matches Ok(v) ==> v@ == s@)
            &&& (r matches Err(e) ==> e == CredentialError::Empty)
        },
        answer is Ok && answer->Ok_0 is None ==> r == Err::<CredentialValue, CredentialError>(
            CredentialError::NotConfigured,
        ),
        answer matches Err(e) ==> r == Err::<CredentialValue, CredentialError>(e),
{
    match answer {
        Ok(Some(secret)) => CredentialValue::new(secret.as_str()),
        Ok(None) => Err(CredentialError::NotConfigured),
        Err(e) => Err(e),
    }
}

/// How a call into the platform keyring failed: no entry under the given
/// coordinates, or anything else (a locked, missing or refusing service).
#[derive(Debug, Clone, Copy, PartialEq, Eq, Structural)]
pub enum KeyringFailure {
    NoEntry,
    Other,
}

/// A keyring read in a backend's terms: a missing entry is no secret, and any
/// other failure leaves the backend unavailable.
pub fn keyring_get_answer(outcome: Result<String, KeyringFailure>) -> (r: Result<
    Option<String>,
    CredentialError,
>)
    ensures
        outcome matches Ok(s) ==> (r matches Ok(Some(t)) && t@ == s@),
        outcome == Err::<String, KeyringFailure>(KeyringFailure::NoEntry) ==> r matches Ok(None),
        outcome == Err::<String, KeyringFailure>(KeyringFailure::Other) ==> r == Err::<
            Option<String>,
            CredentialError,
        >(CredentialError::BackendUnavailable),
{
    match outcome {
        Ok(secret) => Ok(Some(secret)),
        Err(KeyringFailure::NoEntry) => Ok(None),
        Err(KeyringFailure::Other) => Err(CredentialError::BackendUnavailable),
    }
}

/// A keyring write in a backend's terms: every failure leaves the backend
/// unavailable.
pub fn keyring_set_answer(outcome: Result<(), KeyringFailure>) -> (r: Result<(), CredentialError>)
    ensures
        outcome is Ok ==> r is Ok,
        outcome is Err ==> r == Err::<(), CredentialError>(CredentialError::BackendUnavailable),
{
    match outcome {
        Ok(()) => Ok(()),
        Err(_) => Err(CredentialError::BackendUnavailable),
    }
}

/// A keyring removal in a backend's terms: removing a missing entry succeeds,
/// and any other failure leaves the backend unavailable.
pub fn keyring_delete_answer(outcome: Result<(), KeyringFailure>) -> (r: Result<(), CredentialError>)
    ensures
        r is Ok <==> (outcome is Ok || outcome == Err::<(), KeyringFailure>(KeyringFailure::NoEntry)),
        r is Err ==> r == Err::<(), CredentialError>(CredentialError::BackendUnavailable),
{
    match outcome {
        Ok(()) | Err(KeyringFailure::NoEntry) => Ok(()),
        Err(KeyringFailure::Other) => Err(CredentialError::BackendUnavailable),
    }
}

/// The credential store kept in a Secret Service backend under the fixed
/// coordinates [`KEYRING_SERVICE`] and [`KEYRING_ACCOUNT`].
pub struct SecretServiceCredentialStore<B: SecretBackend> {
    backend: B,
}

impl<B: SecretBackend> SecretServiceCredentialStore<B> {
    pub fn new(backend: B) -> (r: Self)
        ensures
            r.backend() == backend,
    {
        SecretServiceCredentialStore { backend }
    }

    pub closed spec fn backend(&self) -> B {
        self.backend
    }

    /// Whether the backend answers for the credential's coordinates; a locked
    /// or missing Secret Service counts as unavailable.
    pub fn is_available(&self) -> (r: bool) {
        self.backend.get(KEYRING_SERVICE, KEYRING_ACCOUNT).is_ok()
    }

    /// Only the fixed account can be named.
    fn account_matches(reference: &CredentialReference) -> (r: Result<(), CredentialError>)
        ensures
            r is Ok <==> reference@ == KEYRING_ACCOUNT@,
            r matches Err(e) ==> e == CredentialError::UnknownReference,
    {
        if text_eq(reference.as_str(), KEYRING_ACCOUNT) {
            Ok(())
        } else {
            Err(CredentialError::UnknownReference)
        }
    }
}

impl<B: SecretBackend> CredentialStore for SecretServiceCredentialStore<B> {
    fn status(&self) -> (r: CredentialStatus) {
        status_of(&self.backend.get(KEYRING_SERVICE, KEYRING_ACCOUNT))
    }

    fn reference(&self) -> (r: Option<CredentialReference>)
        ensures
            r matches Some(x) ==> x@ == KEYRING_ACCOUNT@,
    {
        match self.status() {
            CredentialStatus::Configured => match CredentialReference::new(KEYRING_ACCOUNT) {
                Ok(reference) => Some(reference),
                Err(_) => None,
            },
            CredentialStatus::NotConfigured | CredentialStatus::Unavailable => None,
        }
    }

    fn resolve(&self, reference: &CredentialReference) -> (r: Result<
        CredentialValue,
        CredentialError,
    >)
        ensures
            reference@ != KEYRING_ACCOUNT@ ==> r == Err::<CredentialValue, CredentialError>(
                CredentialError::UnknownReference,
            ),
    {
        match Self::account_matches(reference) {
            Ok(()) => resolution_of(self.backend.get(KEYRING_SERVICE, KEYRING_ACCOUNT)),
            Err(e) => Err(e),
        }
    }

    fn set(&mut self, reference: CredentialReference, value: CredentialValue) -> (r: Result<
        (),
        CredentialError,
    >)
        ensures
            reference@ != KEYRING_ACCOUNT@ ==> r == Err::<(), CredentialError>(
                CredentialError::UnknownReference,
            ),
            final(self).backend() == old(self).backend(),
    {
        match Self::account_matches(&reference) {
            Ok(()) => self.backend.set(KEYRING_SERVICE, KEYRING_ACCOUNT, value.expose_to_core()),
            Err(e) => Err(e),
        }
    }
}

/// The store chosen for the platform: the Secret Service one when its
/// backend answers, else the session-only one.
pub enum SelectedStore<B: SecretBackend> {
    SecretService(SecretServiceCredentialStore<B>),
    SessionOnly(InMemoryCredentialStore),
}

impl<B: SecretBackend> CredentialStore for SelectedStore<B> {
    fn status(&self) -> (r: CredentialStatus)
        ensures
            self matches SelectedStore::SessionOnly(s) ==> r == crate::provider::credential::entries_status(s@),
    {
        match self {
            SelectedStore::SecretService(s) => s.status(),
            SelectedStore::SessionOnly(s) => s.status(),
        }
    }

    fn reference(&self) -> (r: Option<CredentialReference>)
        ensures
            self matches SelectedStore::SessionOnly(s) ==> (s@.len() == 0 ==> r is None),
            self matches SelectedStore::SessionOnly(s) ==> (s@.len() > 0 ==> (r matches Some(x)
                && x@ == s@[0].0)),
            self is SecretService ==> (r matches Some(x) ==> x@ == KEYRING_ACCOUNT@),
    {
        match self {
            SelectedStore::SecretService(s) => s.reference(),
            SelectedStore::SessionOnly(s) => s.reference(),
        }
    }

    fn resolve(&self, reference: &CredentialReference) -> (r: Result<
        CredentialValue,
        CredentialError,
    >)
        ensures
            self matches SelectedStore::SessionOnly(s) ==> (r matches Ok(v)
                ==> crate::provider::credential::lookup(s@, reference@) == Some(v@)),
            self matches SelectedStore::SessionOnly(s) ==> (r is Err
                <==> crate::provider::credential::lookup(s@, reference@) is None),
            self is SecretService && reference@ != KEYRING_ACCOUNT@ ==> r == Err::<
                CredentialValue,
                CredentialError,
            >(CredentialError::UnknownReference),
    {
        match self {
            SelectedStore::SecretService(s) => s.resolve(reference),
            SelectedStore::SessionOnly(s) => s.resolve(reference),
        }
    }

    fn set(&mut self, reference: CredentialReference, value: CredentialValue) -> (r: Result<
        (),
        CredentialError,
    >)
        ensures
            *old(self) is SessionOnly ==> *final(self) is SessionOnly && r is Ok,
            *old(self) matches SelectedStore::SessionOnly(s) ==> (*final(self) matches SelectedStore::SessionOnly(t)
                && t@ == crate::provider::credential::stored(s@, reference@, value@)),
            *old(self) is SecretService ==> *final(self) is SecretService,
            *old(self) is SecretService && reference@ != KEYRING_ACCOUNT@ ==> r == Err::<
                (),
                CredentialError,
            >(CredentialError::UnknownReference),
    {
        match self {
            SelectedStore::SecretService(s) => s.set(reference, value),
            SelectedStore::SessionOnly(s) => s.set(reference, value),
        }
    }
}

/// The store a backend's answer for the credential's coordinates selects:
/// the Secret Service store over `backend` when it answered, whatever it
/// held; an empty session-only store when it failed.
pub fn store_for_answer<B: SecretBackend>(
    backend: B,
    answer: &Result<Option<String>, CredentialError>,
) -> (r: SelectedStore<B>)
    ensures
        r is SecretService <==> answer is Ok,
        r matches SelectedStore::SecretService(s) ==> s.backend() == backend,
        r matches SelectedStore::SessionOnly(s) ==> s@.len() == 0,
{
    match answer {
        Ok(_) => SelectedStore::SecretService(SecretServiceCredentialStore::new(backend)),
        Err(_) => SelectedStore::SessionOnly(InMemoryCredentialStore::new()),
    }
}

/// Picks the Secret Service store when `backend` answers for the
/// credential's coordinates, otherwise an empty session-only store.
pub fn select_store<B: SecretBackend>(backend: B) -> (r: SelectedStore<B>)
    ensures
        r matches SelectedStore::SecretService(s) ==> s.backend() == backend,
        r matches SelectedStore::SessionOnly(s) ==> s@.len() == 0,
{
    let answer = backend.get(KEYRING_SERVICE, KEYRING_ACCOUNT);
    store_for_answer(backend, &answer)
}

} // verus!
