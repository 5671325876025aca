use brainroot::features::agent_host::catalog::{catalog_fetch_failure, match_entry};
use brainroot::features::agent_host::decisions::{
    host_fault, judge_probe, prompt_request_body, running_status, session_request_body,
    sidecar_get_failure, sidecar_post_failure, stopped_status, HostFault, ProbeVerdict, TurnStream,
};
use brainroot::features::agent_host::{
    basic_auth_value, classify_frame, encode_base64, error_for_status, extract_models,
    host_error, parse_health, plain_string, session_id_of, truncate_name, validate_port,
    validate_prompt, validate_selection, AgentHostStatus, AgentModelSelection, AgentStreamEvent,
    FrameOutcome, MAX_VERSION_CHARS,
};
use brainroot::provider::contract::{limits, ErrorCode};
use brainroot::provider::failure::TransportError;
use serde_json::Value;

fn json(text: &str) -> Value {
    serde_json::from_str(text).expect("valid json")
}

#[test]
fn base64_known_vectors() {
    assert_eq!(encode_base64(b""), "");
    assert_eq!(encode_base64(b"f"), "Zg==");
    assert_eq!(encode_base64(b"fo"), "Zm8=");
    assert_eq!(encode_base64(b"foo"), "Zm9v");
    assert_eq!(encode_base64(b"Man"), "TWFu");
}

#[test]
fn base64_longer_vectors_and_length() {
    assert_eq!(encode_base64(b"foob"), "Zm9vYg==");
    assert_eq!(encode_base64(b"fooba"), "Zm9vYmE=");
    assert_eq!(encode_base64(b"foobar"), "Zm9vYmFy");
    assert_eq!(encode_base64(&[0xff, 0xfe, 0xfd]), "//79");
    for n in 0..20usize {
        let input = vec![b'x'; n];
        assert_eq!(encode_base64(&input).len(), 4 * ((n + 2) / 3));
    }
}

#[test]
fn basic_auth_encodes_the_opencode_user() {
    assert_eq!(basic_auth_value("secret"), "b3BlbmNvZGU6c2VjcmV0");
}

#[test]
fn port_zero_rejected() {
    assert!(validate_port(0).is_err());
    assert_eq!(validate_port(4099).unwrap(), 4099);
}

#[test]
fn auth_mapping_401() {
    assert_eq!(error_for_status(401).code, ErrorCode::AuthenticationFailed);
}

#[test]
fn status_mapping_covers_rate_limits_and_the_rest() {
    assert_eq!(error_for_status(429).code, ErrorCode::RateLimited);
    assert_eq!(error_for_status(500).code, ErrorCode::ProviderUnavailable);
    assert_eq!(error_for_status(403).code, ErrorCode::ProviderUnavailable);
}

#[test]
fn health_parsing_trims_version() {
    let long = format!("{{\"healthy\":true,\"version\":\"{}\"}}", "v".repeat(200));
    let version = parse_health(&long).unwrap();
    assert_eq!(version.chars().count(), MAX_VERSION_CHARS);
    assert!(parse_health("{\"healthy\":false,\"version\":\"1\"}").is_err());
    assert!(parse_health("not-json").is_err());
}

#[test]
fn health_requires_both_fields_with_their_types() {
    assert_eq!(parse_health("{\"healthy\":true,\"version\":\"1.2\"}").unwrap(), "1.2");
    assert_eq!(parse_health("[true,\"1.2\"]").unwrap(), "1.2");
    assert_eq!(
        parse_health("{\"healthy\":true}").unwrap_err().code,
        ErrorCode::MalformedResponse
    );
    assert_eq!(
        parse_health("{\"healthy\":\"yes\",\"version\":\"1\"}").unwrap_err().code,
        ErrorCode::MalformedResponse
    );
    assert_eq!(
        parse_health("{\"healthy\":true,\"version\":\"   \"}").unwrap_err().message,
        "The sidecar answered without a version."
    );
    assert_eq!(
        parse_health("{\"healthy\":false,\"version\":\"1\"}").unwrap_err().code,
        ErrorCode::ProviderUnavailable
    );
}

#[test]
fn status_never_carries_secret() {
    let status = AgentHostStatus {
        running: true,
        port: 4099,
        version: Some("1.18.31".to_string()),
        pid: Some(1),
    };
    let debug = format!("{status:?}");
    assert!(!debug.contains("sk-"));
    assert!(!debug.contains("password"));
}

#[test]
fn models_reject_missing_catalog() {
    assert!(extract_models("{}").is_err());
    assert!(extract_models("not-json").is_err());
}

#[test]
fn models_keep_ids_and_drop_secrets_from_a_well_formed_answer() {
    let body = r#"{"providers":[{"id":"acme","name":"Acme","key":"sk-live-secret","models":{"fast":{"id":"acme-fast","name":"Acme Fast","apiKey":"sk-other"},"alias":{"name":"Alias Only"}}}]}"#;
    let models = extract_models(body).unwrap();
    assert_eq!(models.len(), 2);
    assert_eq!(models[0].provider_id, "acme");
    assert_eq!(models[0].provider_name, "Acme");
    assert_eq!(models[0].model_id, "alias");
    assert_eq!(models[0].model_name, "Alias Only");
    assert_eq!(models[1].model_id, "acme-fast");
    assert_eq!(models[1].model_name, "Acme Fast");
    let rendered = format!("{models:?}");
    assert!(!rendered.contains("sk-live-secret"));
    assert!(!rendered.contains("sk-other"));
}

#[test]
fn models_are_capped_at_five_hundred() {
    let mut entries = Vec::new();
    for i in 0..600 {
        entries.push(format!("\"m{i:04}\":{{}}"));
    }
    let body = format!(
        "{{\"providers\":[{{\"id\":\"p\",\"models\":{{{}}}}},{{\"id\":\"q\",\"models\":{{\"z\":{{}}}}}}]}}",
        entries.join(",")
    );
    let models = extract_models(&body).unwrap();
    assert_eq!(models.len(), 500);
    assert!(models.iter().all(|model| model.provider_id == "p"));
    assert_eq!(models[0].model_id, "m0000");
    assert_eq!(models[499].model_id, "m0499");
}

#[test]
fn frames_accept_both_sidecar_generations() {
    let v2 = json(
        r#"{"id":"evt_1","type":"message.part.delta","data":{"sessionID":"ses_abc","messageID":"msg_1","partID":"prt_1","field":"text","delta":"hi"}}"#,
    );
    assert_eq!(classify_frame("ses_abc", &v2), FrameOutcome::TextDelta("hi".to_string()));
    let v1 = json(r#"{"id":"evt_2","type":"session.idle","properties":{"sessionID":"ses_abc"}}"#);
    assert_eq!(classify_frame("ses_abc", &v1), FrameOutcome::Done);
}

#[test]
fn frames_ignore_foreign_sessions_and_non_text() {
    let foreign = json(
        r#"{"id":"evt_3","type":"message.part.delta","data":{"sessionID":"ses_other","messageID":"msg_1","partID":"prt_1","field":"text","delta":"hi"}}"#,
    );
    assert_eq!(classify_frame("ses_abc", &foreign), FrameOutcome::Ignored);
    let reasoning = json(
        r#"{"id":"evt_4","type":"message.part.delta","data":{"sessionID":"ses_abc","messageID":"msg_1","partID":"prt_2","field":"reasoning","delta":"hmm"}}"#,
    );
    assert_eq!(classify_frame("ses_abc", &reasoning), FrameOutcome::Ignored);
    let unknown = json(r#"{"id":"evt_5","type":"server.connected"}"#);
    assert_eq!(classify_frame("ses_abc", &unknown), FrameOutcome::Ignored);
}

#[test]
fn frames_report_session_errors() {
    let error = json(r#"{"id":"evt_6","type":"session.error","data":{"sessionID":"ses_abc","message":"boom"}}"#);
    assert_eq!(classify_frame("ses_abc", &error), FrameOutcome::Failed("boom".to_string()));
    let fallback = json(r#"{"type":"session.error","data":{"sessionID":"ses_abc","error":"  bad  "}}"#);
    assert_eq!(classify_frame("ses_abc", &fallback), FrameOutcome::Failed("bad".to_string()));
    let silent = json(r#"{"type":"session.error","data":{"sessionID":"ses_abc","message":7}}"#);
    assert_eq!(
        classify_frame("ses_abc", &silent),
        FrameOutcome::Failed("The sidecar turn failed.".to_string())
    );
}

#[test]
fn prompt_validation_bounds_input() {
    assert!(validate_prompt("  ").is_err());
    assert!(validate_prompt("hello").is_ok());
    assert!(validate_prompt(&"x".repeat(limits::MAX_USER_MESSAGE_BYTES + 1)).is_err());
    assert_eq!(session_id_of(r#"{"id":"ses_123"}"#).unwrap(), "ses_123");
    assert!(session_id_of(r#"{"id":"nope"}"#).is_err());
}

#[test]
fn prompts_are_trimmed_and_cut_by_characters() {
    assert_eq!(validate_prompt("  hi  ").unwrap(), "hi");
    let wide = "é".repeat(8000);
    assert_eq!(validate_prompt(&wide).unwrap().chars().count(), 8000);
    assert_eq!(
        validate_prompt("  ").unwrap_err().message,
        "The prompt must not be empty."
    );
}

#[test]
fn names_are_trimmed_cut_and_nonempty() {
    assert_eq!(truncate_name("  x  "), "x");
    assert_eq!(truncate_name(&"n".repeat(300)).chars().count(), 200);
    assert_eq!(plain_string(&json("\"  Acme \"")), Some("Acme".to_string()));
    assert_eq!(plain_string(&json("\"   \"")), None);
    assert_eq!(plain_string(&json("5")), None);
}

#[test]
fn selection_is_validated_by_shape() {
    let selection = validate_selection(" acme ", " fast ").unwrap();
    assert_eq!(
        selection,
        AgentModelSelection {
            provider_id: "acme".to_string(),
            model_id: "fast".to_string()
        }
    );
    assert_eq!(validate_selection("", "fast").unwrap_err().code, ErrorCode::InvalidInput);
    assert_eq!(
        validate_selection(&"é".repeat(150), "fast").unwrap_err().message,
        "The provider or model identifier is too long."
    );
}

#[test]
fn request_bodies_are_exact_json() {
    assert_eq!(session_request_body("hello"), "{\"title\":\"hello\"}");
    let long = "t".repeat(100);
    let body: Value = serde_json::from_str(&session_request_body(&long)).unwrap();
    assert_eq!(body["title"].as_str().unwrap().len(), 64);
    assert_eq!(
        prompt_request_body("hi \"there\"", None),
        "{\"parts\":[{\"text\":\"hi \\\"there\\\"\",\"type\":\"text\"}]}"
    );
    let selection = AgentModelSelection {
        provider_id: "acme".to_string(),
        model_id: "fast".to_string(),
    };
    assert_eq!(
        prompt_request_body("hi", Some(&selection)),
        "{\"model\":{\"modelID\":\"fast\",\"providerID\":\"acme\"},\"parts\":[{\"text\":\"hi\",\"type\":\"text\"}]}"
    );
}

#[test]
fn readiness_probes_are_judged() {
    assert_eq!(
        judge_probe(Ok("1.0".to_string())),
        ProbeVerdict::Ready("1.0".to_string())
    );
    assert!(matches!(
        judge_probe(Err(error_for_status(401))),
        ProbeVerdict::Fatal(_)
    ));
    assert!(matches!(
        judge_probe(Err(error_for_status(429))),
        ProbeVerdict::Fatal(_)
    ));
    assert!(matches!(
        judge_probe(Err(host_error(ErrorCode::TimedOut, "later"))),
        ProbeVerdict::Pending(_)
    ));
}

#[test]
fn a_turn_ends_exactly_once() {
    let mut turn = TurnStream::new("ses_abc");
    assert_eq!(
        turn.started(),
        AgentStreamEvent::Started {
            session: "ses_abc".to_string()
        }
    );
    assert_eq!(turn.on_line(": comment"), None);
    assert_eq!(turn.on_line("data:   "), None);
    assert_eq!(turn.on_line("data: {not json"), None);
    let chunk = turn.on_line(
        r#"data: {"type":"message.part.delta","data":{"sessionID":"ses_abc","delta":"hi"}}"#,
    );
    assert_eq!(
        chunk,
        Some(AgentStreamEvent::TextChunk {
            session: "ses_abc".to_string(),
            text: "hi".to_string()
        })
    );
    let done = turn.on_line(r#"data: {"type":"session.idle","properties":{"sessionID":"ses_abc"}}"#);
    assert_eq!(
        done,
        Some(AgentStreamEvent::Completed {
            session: "ses_abc".to_string()
        })
    );
    assert!(turn.is_ended());
    assert_eq!(
        turn.on_line(r#"data: {"type":"session.idle","properties":{"sessionID":"ses_abc"}}"#),
        None
    );
    assert_eq!(turn.cancel(), None);
    assert_eq!(turn.end_of_stream(false), None);
}

#[test]
fn a_turn_that_stops_early_fails_or_is_cancelled() {
    let mut turn = TurnStream::new("ses_x");
    match turn.end_of_stream(false) {
        Some(AgentStreamEvent::Failed { error, .. }) => {
            assert_eq!(error.message, "The sidecar stream ended before completion.")
        }
        other => panic!("expected a failure, got {other:?}"),
    }
    let mut turn = TurnStream::new("ses_x");
    assert_eq!(
        turn.end_of_stream(true),
        Some(AgentStreamEvent::Cancelled {
            session: "ses_x".to_string()
        })
    );
}

fn ids(list: &[&str]) -> Vec<String> {
    list.iter().map(|id| id.to_string()).collect()
}

#[test]
fn matching_prefers_exact_then_slug() {
    let catalog = ids(&["acme/fast", "other/fast"]);
    assert_eq!(match_entry("acme/fast", &catalog), Some(0));
    assert_eq!(match_entry("fast", &catalog), Some(0));
    assert_eq!(match_entry("unknown-xyz", &catalog), None);
}

#[test]
fn matching_ignores_case_and_falls_back_to_containment() {
    let catalog = ids(&["vendor/Big-Model-Pro", "ACME/Fast"]);
    assert_eq!(match_entry("  acme/FAST ", &catalog), Some(1));
    assert_eq!(match_entry("fast", &catalog), Some(1));
    assert_eq!(match_entry("big-model", &catalog), Some(0));
    assert_eq!(match_entry("x/vendor/big-model-pro/y", &catalog), Some(0));
    assert_eq!(match_entry("   ", &catalog), None);
    assert_eq!(match_entry("fast", &[]), None);
}

#[test]
fn matching_takes_the_earliest_tier_over_the_earliest_entry() {
    let catalog = ids(&["fast-extra", "acme/fast", "fast"]);
    assert_eq!(match_entry("fast", &catalog), Some(2));
    let catalog = ids(&["fast-extra", "acme/fast"]);
    assert_eq!(match_entry("fast", &catalog), Some(1));
}

#[test]
fn sidecar_and_catalog_failures_are_classified() {
    let e = sidecar_get_failure(TransportError::Status(401));
    assert_eq!(e.code, ErrorCode::AuthenticationFailed);
    let e = sidecar_get_failure(TransportError::Timeout);
    assert_eq!((e.code, e.message.as_str()), (ErrorCode::TimedOut, "The sidecar request timed out."));
    let e = sidecar_post_failure(TransportError::Status(404));
    assert_eq!(
        e.message,
        "The sidecar session is gone. Send again to start a fresh one."
    );
    let e = sidecar_post_failure(TransportError::Status(400));
    assert_eq!(e.code, ErrorCode::InvalidInput);
    let e = sidecar_post_failure(TransportError::Status(429));
    assert_eq!(e.code, ErrorCode::RateLimited);
    let e = sidecar_post_failure(TransportError::Other);
    assert_eq!(e.message, "The sidecar is unreachable. Start it and try again.");
    let e = catalog_fetch_failure(TransportError::Other);
    assert_eq!(
        (e.code, e.message.as_str()),
        (
            ErrorCode::ProviderUnavailable,
            "The public catalog is unreachable. Check the network and try again."
        )
    );
    assert_eq!(host_fault(HostFault::TurnRunning).code, ErrorCode::InvalidState);
    assert_eq!(
        host_fault(HostFault::NotRunning).message,
        "The sidecar is not running. Start it and try again."
    );
}

#[test]
fn statuses_carry_only_redacted_fields() {
    assert!(
        stopped_status(4099)
            == AgentHostStatus { running: false, port: 4099, version: None, pid: None }
    );
    assert!(
        running_status(4099, "1.2.3", 42)
            == AgentHostStatus {
                running: true,
                port: 4099,
                version: Some("1.2.3".to_string()),
                pid: Some(42)
            }
    );
}
