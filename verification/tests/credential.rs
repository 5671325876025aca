use brainroot::provider::credential::{
    AuthorizationHeader, CredentialError, CredentialReference, CredentialStatus, CredentialStore,
    CredentialValue, InMemoryCredentialStore, ProviderState,
};

const FAKE_SECRET: &str = "fake-secret-value";

fn fake_value() -> CredentialValue {
    CredentialValue::new(FAKE_SECRET).expect("fake value is valid")
}

#[test]
fn empty_store_is_not_configured() {
    let store = InMemoryCredentialStore::new();

    assert_eq!(store.status(), CredentialStatus::NotConfigured);
    assert!(store.reference() == None);
    let reference = CredentialReference::new("default").expect("valid reference");
    assert!(store.resolve(&reference) == Err(CredentialError::UnknownReference));
}

#[test]
fn stored_credential_is_configured_and_resolves() {
    let mut store = InMemoryCredentialStore::new();
    let reference = CredentialReference::new("default").expect("valid reference");
    store
        .set(reference.clone(), fake_value())
        .expect("session store accepts");

    assert_eq!(store.status(), CredentialStatus::Configured);
    assert!(store.reference() == Some(reference.clone()));
    let value = store.resolve(&reference).expect("resolves");
    assert_eq!(value.expose_to_core(), FAKE_SECRET);
}

#[test]
fn clearing_returns_to_not_configured() {
    let mut store = InMemoryCredentialStore::new();
    let reference = CredentialReference::new("default").expect("valid reference");
    store
        .set(reference, fake_value())
        .expect("session store accepts");
    store.clear();

    assert_eq!(store.status(), CredentialStatus::NotConfigured);
}

#[test]
fn credential_unknown_reference_is_rejected() {
    let mut store = InMemoryCredentialStore::new();
    store
        .set(
            CredentialReference::new("default").expect("valid reference"),
            fake_value(),
        )
        .expect("session store accepts");
    let other = CredentialReference::new("other").expect("valid reference");

    assert!(store.resolve(&other) == Err(CredentialError::UnknownReference));
    assert!(!CredentialError::UnknownReference.message().is_empty());
}

#[test]
fn empty_value_is_rejected() {
    assert!(CredentialValue::new("   ") == Err(CredentialError::Empty));
    assert!(CredentialReference::new("") == Err(CredentialError::Empty));
}

#[test]
fn credential_debug_is_redacted() {
    let rendered = fake_value().redacted();

    assert!(rendered.contains("[redacted]"));
    assert!(!rendered.contains(FAKE_SECRET));
}

#[test]
fn authorization_header_debug_is_redacted() {
    let header = AuthorizationHeader::bearer(&fake_value());
    let rendered = header.redacted();

    assert!(rendered.contains("[redacted]"));
    assert!(!rendered.contains(FAKE_SECRET));
    assert_eq!(header.expose_to_core(), format!("Bearer {FAKE_SECRET}"));
}

#[test]
fn reference_debug_is_redacted() {
    let rendered = CredentialReference::new("default").expect("valid").redacted();

    assert!(rendered.contains("[redacted]"));
    assert!(!rendered.contains("default"));
}

#[test]
fn provider_state_tracks_status() {
    let state = ProviderState::new();
    assert_eq!(state.credential_status(), CredentialStatus::NotConfigured);

    let reference = CredentialReference::new("default").expect("valid reference");
    state
        .set_credential(reference.clone(), fake_value())
        .expect("session store accepts");

    assert_eq!(state.credential_status(), CredentialStatus::Configured);
    assert!(state.credential_reference() == Some(reference.clone()));
    assert_eq!(
        state
            .resolve(&reference)
            .expect("resolves")
            .expose_to_core(),
        FAKE_SECRET
    );
}

#[test]
fn provider_state_clones_share_the_core_only_store() {
    let state = ProviderState::new();
    let worker_state = state.clone();
    let reference = CredentialReference::new("default").expect("valid reference");

    state
        .set_credential(reference.clone(), fake_value())
        .expect("session store accepts");

    assert_eq!(
        worker_state.credential_status(),
        CredentialStatus::Configured
    );
    assert_eq!(
        worker_state
            .resolve(&reference)
            .expect("shared store resolves")
            .expose_to_core(),
        FAKE_SECRET
    );
}

#[test]
fn credential_error_messages_are_plain() {
    assert_eq!(
        CredentialError::NotConfigured.message(),
        "No credential is configured for this provider."
    );
    assert_eq!(
        CredentialError::BackendUnavailable.message(),
        "The credential store is not available on this system."
    );
    assert_eq!(
        CredentialError::Empty.message(),
        "The credential value must not be empty."
    );
}

#[test]
fn setting_again_replaces_and_moves_the_reference_last() {
    let mut store = InMemoryCredentialStore::new();
    let first = CredentialReference::new("first").expect("valid");
    let second = CredentialReference::new("second").expect("valid");
    store.set(first.clone(), fake_value()).expect("accepts");
    store
        .set(second.clone(), CredentialValue::new("other").expect("valid"))
        .expect("accepts");
    assert!(store.reference() == Some(first.clone()));
    store
        .set(first.clone(), CredentialValue::new("newer").expect("valid"))
        .expect("accepts");
    assert_eq!(store.resolve(&first).expect("resolves").expose_to_core(), "newer");
    assert_eq!(store.resolve(&second).expect("resolves").expose_to_core(), "other");
    assert!(store.reference() == Some(second));
}

#[test]
fn references_compare_by_text() {
    let a = CredentialReference::new("default").expect("valid");
    let b = CredentialReference::new("default").expect("valid");
    let c = CredentialReference::new("other").expect("valid");
    assert!(a.same_as(&b));
    assert!(!a.same_as(&c));
    assert_eq!(a.as_str(), "default");
}

#[test]
fn boxed_store_is_shared_like_a_plain_one() {
    let state = ProviderState::with_boxed_store(Box::new(InMemoryCredentialStore::new()));
    assert_eq!(state.credential_status(), CredentialStatus::NotConfigured);
    let reference = CredentialReference::new("default").expect("valid reference");
    let handle = state.clone();
    handle.set_credential(reference.clone(), fake_value()).expect("stored");
    assert_eq!(state.credential_status(), CredentialStatus::Configured);
    assert!(state.resolve(&reference).expect("resolves") == fake_value());
}
