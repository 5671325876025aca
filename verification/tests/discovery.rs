use brainroot::provider::contract::ErrorCode;
use brainroot::provider::credential::CredentialValue;
use brainroot::provider::discovery::{
    cache_ttl, parse_models, CatalogState, DiscoveryClient, HttpTransport, ModelCache,
    ModelPrivacy, PrivacyDisclosure, ProtocolEndpoint, BRAINROOT_USER_AGENT, MODELS_URL,
    MAX_PRIVACY_DISCLOSURE_BYTES,
};
use brainroot::provider::failure::GoFailure;
use std::cell::RefCell;
use std::time::Duration;


const FIXTURE: &str = r#"{
    "data": [
        {
            "id": "glm-5.3",
            "name": "GLM 5.3",
            "endpoint": "https://opencode.ai/zen/go/v1/chat/completions",
            "context": 200000,
            "limit": { "output": 65536 },
            "vendor": { "family": "glm" },
            "privacy": { "training": "Not used", "retention": "0 days" }
        },
        {
            "id": "minimax-m3",
            "endpoint": "https://opencode.ai/zen/go/v1/messages"
        },
        {
            "id": "gpt-5.6-luna",
            "name": "GPT 5.6 Luna",
            "endpoint": "https://opencode.ai/zen/go/v1/responses"
        },
        {
            "id": "unsupported",
            "name": "Unsupported",
            "endpoint": "https://example.com/v2/complete"
        }
    ]
}"#;

type RecordedRequest = (String, Vec<(String, String)>);

struct FakeTransport {
    response: Result<String, GoFailure>,
    requests: RefCell<Vec<RecordedRequest>>,
}

impl FakeTransport {
    fn returning(body: &str) -> Self {
        Self {
            response: Ok(body.to_string()),
            requests: RefCell::new(Vec::new()),
        }
    }

    fn failing(error: GoFailure) -> Self {
        Self {
            response: Err(error),
            requests: RefCell::new(Vec::new()),
        }
    }
}

impl HttpTransport for FakeTransport {
    fn get(&self, url: &str, headers: &[(&str, &str)]) -> Result<String, GoFailure> {
        self.requests.borrow_mut().push((
            url.to_string(),
            headers
                .iter()
                .map(|(name, value)| (name.to_string(), value.to_string()))
                .collect(),
        ));
        self.response.clone()
    }
}

fn credential() -> CredentialValue {
    CredentialValue::new("fake-secret-value").expect("valid credential")
}

#[test]
fn parses_models_and_ignores_unknown_fields() {
    let mut client = DiscoveryClient::new(FakeTransport::returning(FIXTURE));
    let models = client.fetch(&credential()).expect("fixture parses");

    assert_eq!(models.len(), 3);
    assert_eq!(models[0].id.as_str(), "glm-5.3");
    assert_eq!(models[0].display_name, "GLM 5.3");
    assert_eq!(models[0].endpoint, Some(ProtocolEndpoint::ChatCompletions));
    assert_eq!(
        models[0].privacy,
        ModelPrivacy {
            training: PrivacyDisclosure::Stated("Not used".to_string()),
            retention: PrivacyDisclosure::Stated("0 days".to_string()),
        }
    );
}

#[test]
fn filters_unknown_endpoints_and_falls_back_to_id() {
    let mut client = DiscoveryClient::new(FakeTransport::returning(FIXTURE));
    let models = client.fetch(&credential()).expect("fixture parses");

    assert!(models
        .iter()
        .all(|model| model.id.as_str() != "unsupported"));
    let minimax = models
        .iter()
        .find(|model| model.id.as_str() == "minimax-m3")
        .expect("minimax present");
    assert_eq!(minimax.display_name, "minimax-m3");
    assert_eq!(minimax.endpoint, Some(ProtocolEndpoint::Messages));
    assert_eq!(minimax.privacy, ModelPrivacy::unknown());
}

#[test]
fn absent_or_partial_privacy_stays_explicitly_unknown() {
    let body = r#"{"data":[
        {"id":"a","endpoint":"https://opencode.ai/zen/go/v1/chat/completions"},
        {"id":"b","endpoint":"https://opencode.ai/zen/go/v1/chat/completions",
         "privacy":{"training":"Not used"}}
    ]}"#;
    let mut client = DiscoveryClient::new(FakeTransport::returning(body));
    let models = client.fetch(&credential()).expect("fixture parses");

    assert_eq!(models[0].privacy, ModelPrivacy::unknown());
    assert_eq!(
        models[1].privacy.training,
        PrivacyDisclosure::Stated("Not used".to_string())
    );
    assert_eq!(models[1].privacy.retention, PrivacyDisclosure::Unknown);
}

#[test]
fn mistyped_empty_or_oversized_privacy_is_unknown() {
    let oversized = "p".repeat(MAX_PRIVACY_DISCLOSURE_BYTES + 1);
    let body = format!(
        r#"{{"data":[
            {{"id":"a","endpoint":"https://opencode.ai/zen/go/v1/chat/completions",
              "privacy":{{"training":7,"retention":"  ","extra":true}}}},
            {{"id":"b","endpoint":"https://opencode.ai/zen/go/v1/chat/completions",
              "privacy":{{"training":"{oversized}"}}}},
            {{"id":"c","endpoint":"https://opencode.ai/zen/go/v1/chat/completions",
              "privacy":"not an object"}}
        ]}}"#
    );
    let mut client = DiscoveryClient::new(FakeTransport::returning(&body));
    let models = client.fetch(&credential()).expect("fixture parses");

    assert!(models
        .iter()
        .all(|model| model.privacy == ModelPrivacy::unknown()));
}

#[test]
fn accepts_a_bare_array_shape() {
    let body =
        r#"[{"id":"glm-5.3","endpoint":"https://opencode.ai/zen/go/v1/chat/completions"}]"#;
    let mut client = DiscoveryClient::new(FakeTransport::returning(body));
    let models = client.fetch(&credential()).expect("array parses");

    assert_eq!(models.len(), 1);
}

#[test]
fn unauthorized_maps_to_a_typed_error() {
    let mut client = DiscoveryClient::new(FakeTransport::failing(GoFailure::from_status(401)));
    let error = client.fetch(&credential()).expect_err("unauthorized");

    assert_eq!(error.code(), ErrorCode::AuthenticationFailed);
    assert!(error.message().contains("rejected the credential"));
}

#[test]
fn rate_limit_timeout_and_network_failures_stay_distinct() {
    let mut limited = DiscoveryClient::new(FakeTransport::failing(GoFailure::from_status(429)));
    let error = limited.fetch(&credential()).expect_err("rate limited");
    assert_eq!(error.code(), ErrorCode::RateLimited);
    assert!(error.message().contains("usage limit"));

    let mut timed_out = DiscoveryClient::new(FakeTransport::failing(GoFailure::Timeout));
    assert_eq!(
        timed_out.fetch(&credential()).expect_err("timeout").code(),
        ErrorCode::TimedOut
    );

    let mut offline = DiscoveryClient::new(FakeTransport::failing(GoFailure::NetworkUnavailable));
    let error = offline.fetch(&credential()).expect_err("offline");
    assert_eq!(error.code(), ErrorCode::ProviderUnavailable);
    assert!(error.message().contains("could not be reached"));
}

#[test]
fn malformed_json_is_rejected() {
    let mut client = DiscoveryClient::new(FakeTransport::returning("not json"));
    assert_eq!(
        client.fetch(&credential()),
        Err(GoFailure::MalformedResponse)
    );
}

#[test]
fn cache_is_empty_before_store() {
    let cache = ModelCache::new();

    assert_eq!(cache.state(Duration::ZERO), CatalogState::Empty);
}

#[test]
fn cache_is_fresh_within_ttl_and_stale_after() {
    let mut client = DiscoveryClient::new(FakeTransport::returning(FIXTURE));
    let models = client.fetch(&credential()).expect("fixture parses");
    let mut cache = ModelCache::new();
    cache.store(Duration::from_secs(100), models);

    assert!(matches!(
        cache.state(Duration::from_secs(100) + cache_ttl()),
        CatalogState::Fresh(_)
    ));
    assert!(matches!(
        cache.state(Duration::from_secs(100) + cache_ttl() + Duration::from_secs(1)),
        CatalogState::Stale(_)
    ));
}

#[test]
fn cache_handles_backwards_time_as_fresh() {
    let mut client = DiscoveryClient::new(FakeTransport::returning(FIXTURE));
    let models = client.fetch(&credential()).expect("fixture parses");
    let mut cache = ModelCache::new();
    cache.store(Duration::from_secs(100), models);

    assert!(matches!(
        cache.state(Duration::from_secs(90)),
        CatalogState::Fresh(_)
    ));
}

#[test]
fn clearing_returns_to_empty() {
    let mut client = DiscoveryClient::new(FakeTransport::returning(FIXTURE));
    let models = client.fetch(&credential()).expect("fixture parses");
    let mut cache = ModelCache::new();
    cache.store(Duration::ZERO, models);
    cache.clear();

    assert_eq!(cache.state(Duration::ZERO), CatalogState::Empty);
}

#[test]
fn transport_receives_the_bearer_header_and_user_agent_is_constant() {
    let mut client = DiscoveryClient::new(FakeTransport::returning(FIXTURE));
    let _ = client.fetch(&credential()).expect("fixture parses");

    let requests = client.transport.requests.borrow().clone();
    assert_eq!(requests.len(), 1);
    assert_eq!(requests[0].0, MODELS_URL);

    let authorization = requests[0]
        .1
        .iter()
        .find(|(name, _)| name == "Authorization")
        .expect("authorization header present");
    assert!(authorization.1.starts_with("Bearer "));
    assert!(BRAINROOT_USER_AGENT.starts_with("brainroot/"));
}

#[test]
fn endpoint_urls_ignore_queries_and_trailing_slashes() {
    assert_eq!(
        ProtocolEndpoint::from_url("https://opencode.ai/zen/go/v1/chat/completions/?x=1"),
        Some(ProtocolEndpoint::ChatCompletions)
    );
    assert_eq!(
        ProtocolEndpoint::from_url("https://opencode.ai/zen/go/v1/responses//"),
        Some(ProtocolEndpoint::Responses)
    );
    assert_eq!(
        ProtocolEndpoint::from_url("https://opencode.ai/x?path=/messages"),
        None
    );
    assert_eq!(ProtocolEndpoint::from_url(""), None);
    assert_eq!(ProtocolEndpoint::ChatCompletions.as_str(), "chat_completions");
    assert_eq!(ProtocolEndpoint::Messages.as_str(), "messages");
}

#[test]
fn payload_without_an_entry_list_is_malformed() {
    assert_eq!(parse_models("{}"), Err(GoFailure::MalformedResponse));
    assert_eq!(parse_models("{\"data\":{}}"), Err(GoFailure::MalformedResponse));
    assert_eq!(parse_models("7"), Err(GoFailure::MalformedResponse));
    assert_eq!(parse_models("[]").expect("empty list").len(), 0);
}

#[test]
fn privacy_text_is_trimmed_and_bounded_at_the_limit() {
    let at_limit = "p".repeat(MAX_PRIVACY_DISCLOSURE_BYTES);
    let body = format!(
        "[{{\"id\":\"a\",\"endpoint\":\"https://x/v1/messages\",\"privacy\":{{\"training\":\"  {at_limit}  \",\"retention\":\" 1 day \"}}}}]"
    );
    let models = parse_models(&body).expect("parses");
    assert_eq!(models[0].privacy.training, PrivacyDisclosure::Stated(at_limit));
    assert_eq!(models[0].privacy.retention, PrivacyDisclosure::Stated("1 day".to_string()));
}

#[test]
fn entries_without_a_valid_id_are_skipped() {
    let body = "[{\"id\":\"  \",\"endpoint\":\"https://x/v1/messages\"},{\"id\":7,\"endpoint\":\"https://x/v1/messages\"},\"text\",{\"id\":\"ok\",\"endpoint\":\"https://x/v1/messages\",\"name\":5}]";
    let models = parse_models(body).expect("parses");
    assert_eq!(models.len(), 1);
    assert_eq!(models[0].id.as_str(), "ok");
    assert_eq!(models[0].display_name, "ok");
}

#[test]
fn cache_ttl_is_fifteen_minutes() {
    assert_eq!(cache_ttl(), Duration::from_secs(15 * 60));
}

#[test]
fn an_answer_is_parsed_and_a_failure_passed_on() {
    let models = brainroot::provider::discovery::models_from_answer(Ok(
        r#"{"data":[{"id":"glm-5.3-flash","name":"GLM","endpoint":"https://opencode.ai/zen/go/v1/chat/completions"}]}"#
            .to_string(),
    ))
    .expect("parses");
    assert_eq!(models.len(), 1);
    assert_eq!(models[0].id.as_str(), "glm-5.3-flash");
    assert!(
        brainroot::provider::discovery::models_from_answer(Err(GoFailure::Timeout))
            == Err(GoFailure::Timeout)
    );
    assert!(brainroot::provider::discovery::models_from_answer(Ok("not json".to_string())).is_err());
}
