use brainroot::provider::secret_service::{store_for_answer, SelectedStore};
use brainroot::provider::credential::{
    CredentialError, CredentialReference, CredentialStatus, CredentialStore, CredentialValue,
};
use brainroot::provider::secret_service::{
    keyring_delete_answer, keyring_get_answer, keyring_set_answer, select_store, KeyringFailure,
    SecretBackend, SecretServiceCredentialStore, KEYRING_ACCOUNT, KEYRING_SERVICE,
};
use std::sync::Mutex;


const FAKE_SECRET: &str = "fake-secret-value";

#[derive(Default)]
struct FakeBackend {
    unavailable: bool,
    entries: Mutex<Vec<(String, String, String)>>,
}

impl FakeBackend {
    fn unavailable() -> Self {
        Self {
            unavailable: true,
            ..Self::default()
        }
    }
}

impl SecretBackend for FakeBackend {
    fn get(&self, service: &str, account: &str) -> Result<Option<String>, CredentialError> {
        if self.unavailable {
            return Err(CredentialError::BackendUnavailable);
        }
        Ok(self
            .entries
            .lock()
            .expect("fake lock is not poisoned")
            .iter()
            .find(|(stored_service, stored_account, _)| {
                stored_service == service && stored_account == account
            })
            .map(|(_, _, secret)| secret.clone()))
    }

    fn set(&self, service: &str, account: &str, secret: &str) -> Result<(), CredentialError> {
        if self.unavailable {
            return Err(CredentialError::BackendUnavailable);
        }
        self.entries
            .lock()
            .expect("fake lock is not poisoned")
            .push((service.to_string(), account.to_string(), secret.to_string()));
        Ok(())
    }

    fn delete(&self, service: &str, account: &str) -> Result<(), CredentialError> {
        if self.unavailable {
            return Err(CredentialError::BackendUnavailable);
        }
        self.entries
            .lock()
            .expect("fake lock is not poisoned")
            .retain(|(stored_service, stored_account, _)| {
                !(stored_service == service && stored_account == account)
            });
        Ok(())
    }
}

fn reference() -> CredentialReference {
    CredentialReference::new(KEYRING_ACCOUNT).expect("valid reference")
}

fn value() -> CredentialValue {
    CredentialValue::new(FAKE_SECRET).expect("valid value")
}

#[test]
fn empty_backend_is_not_configured() {
    let mut store = SecretServiceCredentialStore::new(FakeBackend::default());

    assert_eq!(store.status(), CredentialStatus::NotConfigured);
    assert!(store.reference() == None);
}

#[test]
fn configured_backend_reports_and_resolves() {
    let mut store = SecretServiceCredentialStore::new(FakeBackend::default());
    store.set(reference(), value()).expect("store accepts");

    assert_eq!(store.status(), CredentialStatus::Configured);
    assert!(store.reference() == Some(reference()));
    assert_eq!(
        store
            .resolve(&reference())
            .expect("resolves")
            .expose_to_core(),
        FAKE_SECRET
    );
}

#[test]
fn failed_backend_reports_unavailable() {
    let mut store = SecretServiceCredentialStore::new(FakeBackend::unavailable());

    assert_eq!(store.status(), CredentialStatus::Unavailable);
    assert!(store.reference() == None);
}

#[test]
fn set_persists_the_documented_coordinates() {
    let mut store = SecretServiceCredentialStore::new(FakeBackend::default());
    store.set(reference(), value()).expect("store accepts");

    assert_eq!(store.status(), CredentialStatus::Configured);
}

#[test]
fn secret_service_unknown_reference_is_rejected() {
    let mut store = SecretServiceCredentialStore::new(FakeBackend::default());
    let other = CredentialReference::new("other").expect("valid reference");

    assert!(store.resolve(&other) == Err(CredentialError::UnknownReference));
    assert_eq!(
        store.set(other, value()),
        Err(CredentialError::UnknownReference)
    );
}

#[test]
fn not_configured_resolve_is_rejected() {
    let mut store = SecretServiceCredentialStore::new(FakeBackend::default());

    assert!(store.resolve(&reference()) == Err(CredentialError::NotConfigured));
}

#[test]
fn unavailable_backend_errors_on_set_and_resolve() {
    let mut store = SecretServiceCredentialStore::new(FakeBackend::unavailable());

    assert!(store.resolve(&reference()) == Err(CredentialError::BackendUnavailable));
    assert_eq!(
        store.set(reference(), value()),
        Err(CredentialError::BackendUnavailable)
    );
}

#[test]
fn select_store_falls_back_to_session_only() {
    let unavailable = select_store(FakeBackend::unavailable());
    assert_eq!(unavailable.status(), CredentialStatus::NotConfigured);
    assert!(unavailable.reference() == None);

    let mut secret_service = select_store(FakeBackend::default());
    assert_eq!(secret_service.status(), CredentialStatus::NotConfigured);
    secret_service
        .set(reference(), value())
        .expect("selected store accepts");
    assert_eq!(secret_service.status(), CredentialStatus::Configured);
}


#[test]
fn coordinates_are_the_documented_ones() {
    assert_eq!(KEYRING_SERVICE, "dev.brainroot.experiment");
    assert_eq!(KEYRING_ACCOUNT, "default");
}

#[test]
fn blank_stored_secret_resolves_as_empty() {
    let backend = FakeBackend::default();
    backend
        .set(KEYRING_SERVICE, KEYRING_ACCOUNT, "   ")
        .expect("fake accepts");
    let store = SecretServiceCredentialStore::new(backend);
    assert!(store.resolve(&reference()) == Err(CredentialError::Empty));
    assert_eq!(store.status(), CredentialStatus::Configured);
}

#[test]
fn keyring_answers_map_missing_entries_and_failures() {
    assert!(keyring_get_answer(Ok(String::from("s3cret"))) == Ok(Some(String::from("s3cret"))));
    assert!(keyring_get_answer(Err(KeyringFailure::NoEntry)) == Ok(None));
    assert!(
        keyring_get_answer(Err(KeyringFailure::Other)) == Err(CredentialError::BackendUnavailable)
    );
    assert!(keyring_set_answer(Ok(())) == Ok(()));
    assert!(keyring_set_answer(Err(KeyringFailure::NoEntry)) == Err(CredentialError::BackendUnavailable));
    assert!(keyring_delete_answer(Ok(())) == Ok(()));
    assert!(keyring_delete_answer(Err(KeyringFailure::NoEntry)) == Ok(()));
    assert!(
        keyring_delete_answer(Err(KeyringFailure::Other)) == Err(CredentialError::BackendUnavailable)
    );
}

#[test]
fn an_answering_backend_selects_the_secret_service_store() {
    let chosen = store_for_answer(FakeBackend::default(), &Ok(None));
    assert!(matches!(chosen, SelectedStore::SecretService(_)));
    let chosen = store_for_answer(FakeBackend::default(), &Ok(Some("x".to_string())));
    assert!(matches!(chosen, SelectedStore::SecretService(_)));
    let chosen = store_for_answer(FakeBackend::default(), &Err(CredentialError::BackendUnavailable));
    match chosen {
        SelectedStore::SessionOnly(store) => assert_eq!(store.status(), CredentialStatus::NotConfigured),
        SelectedStore::SecretService(_) => panic!("a failed answer selects the session store"),
    }
}
