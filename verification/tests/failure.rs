use brainroot::provider::contract::ErrorCode;
use brainroot::provider::failure::{GoFailure, TransportError};


/// One representative per user-visible outcome; `402`/`403` share a case.
fn distinct_cases() -> Vec<GoFailure> {
    vec![
        GoFailure::InvalidKey { status: 401 },
        GoFailure::SubscriptionUnavailable { status: 403 },
        GoFailure::UnsupportedModel { status: 404 },
        GoFailure::UsageLimitReached { status: 429 },
        GoFailure::ProviderFailure { status: 500 },
        GoFailure::ProviderFailure { status: 418 },
        GoFailure::Timeout,
        GoFailure::NetworkUnavailable,
        GoFailure::MalformedResponse,
    ]
}

#[test]
fn status_table_matches_the_documented_mapping() {
    assert_eq!(
        GoFailure::from_status(401),
        GoFailure::InvalidKey { status: 401 }
    );
    assert_eq!(
        GoFailure::from_status(402),
        GoFailure::SubscriptionUnavailable { status: 402 }
    );
    assert_eq!(
        GoFailure::from_status(403),
        GoFailure::SubscriptionUnavailable { status: 403 }
    );
    assert_eq!(
        GoFailure::from_status(404),
        GoFailure::UnsupportedModel { status: 404 }
    );
    assert_eq!(
        GoFailure::from_status(429),
        GoFailure::UsageLimitReached { status: 429 }
    );
}

#[test]
fn server_and_unknown_statuses_stay_provider_failures() {
    for status in [400, 418, 500, 503, 599] {
        assert_eq!(
            GoFailure::from_status(status),
            GoFailure::ProviderFailure { status }
        );
    }
}

#[test]
fn each_case_uses_an_existing_neutral_code() {
    assert_eq!(
        GoFailure::from_status(401).code(),
        ErrorCode::AuthenticationFailed
    );
    assert_eq!(
        GoFailure::from_status(403).code(),
        ErrorCode::AuthenticationFailed
    );
    assert_eq!(GoFailure::from_status(404).code(), ErrorCode::InvalidInput);
    assert_eq!(GoFailure::from_status(429).code(), ErrorCode::RateLimited);
    assert_eq!(
        GoFailure::from_status(500).code(),
        ErrorCode::ProviderUnavailable
    );
    assert_eq!(GoFailure::Timeout.code(), ErrorCode::TimedOut);
    assert_eq!(
        GoFailure::NetworkUnavailable.code(),
        ErrorCode::ProviderUnavailable
    );
    assert_eq!(
        GoFailure::MalformedResponse.code(),
        ErrorCode::MalformedResponse
    );
}

#[test]
fn messages_are_plain_language_and_distinct() {
    let messages: Vec<String> = distinct_cases().iter().map(GoFailure::message).collect();

    assert!(messages.iter().all(|message| !message.is_empty()));
    let mut unique = messages.clone();
    unique.sort();
    unique.dedup();
    assert_eq!(unique.len(), messages.len(), "{messages:?}");

    assert!(messages[0].contains("rejected the credential"));
    assert!(messages[1].contains("subscription"));
    assert!(messages[2].contains("not available"));
    assert!(messages[3].contains("usage limit"));
    assert!(messages[4].contains("temporarily unavailable"));
    assert!(messages[5].contains("418"));

    assert_eq!(
        GoFailure::from_status(402).message(),
        GoFailure::from_status(403).message()
    );
}

#[test]
fn failure_messages_are_exact() {
    assert_eq!(
        GoFailure::from_status(418).message(),
        "The provider answered with status 418. Try again."
    );
    assert_eq!(
        GoFailure::Timeout.message(),
        "The provider took too long to respond. Try again."
    );
    assert_eq!(
        GoFailure::from_status(503).message(),
        "The provider is temporarily unavailable. Try again shortly."
    );
}

#[test]
fn transport_errors_classify_by_status_then_kind() {
    assert_eq!(
        GoFailure::from_transport(TransportError::Status(401)),
        GoFailure::InvalidKey { status: 401 }
    );
    assert_eq!(
        GoFailure::from_transport(TransportError::Status(503)),
        GoFailure::ProviderFailure { status: 503 }
    );
    assert_eq!(GoFailure::from_transport(TransportError::Timeout), GoFailure::Timeout);
    assert_eq!(
        GoFailure::from_transport(TransportError::Other),
        GoFailure::NetworkUnavailable
    );
}
