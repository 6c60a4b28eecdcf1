use safehouse::envelope::{from_event_json, to_event_content, Inbound};
use safehouse::json::Json;
use safehouse::send::{build_send_envelope, send_reply};

fn j(text: &str) -> Json {
    Json::parse(text).unwrap()
}

const META: &str = r#"{
    "schema": "completion-v1",
    "agent": "writer_agent",
    "repo": "rjwalters/safehouse",
    "ref": "https://github.com/rjwalters/safehouse/pull/99",
    "result": "success",
    "started_at": "2026-07-29T10:00:00Z",
    "completed_at": "2026-07-29T10:05:00Z"
}"#;

#[test]
fn build_send_envelope_stamps_from_the_authenticated_persona() {
    let req = j(r#"{"to": "research_agent", "body": "hi"}"#);
    let env = build_send_envelope("writer_agent", &req).unwrap().env;
    assert_eq!(env.from, "writer_agent");
    assert_eq!(env.to, "research_agent");
    assert_eq!(env.kind, "chat");
    assert_eq!(env.body, "hi");
}

#[test]
fn build_send_envelope_ignores_a_spoofed_from_field() {
    let req = j(r#"{"to": "research_agent", "body": "hi", "from": "admin"}"#);
    let env = build_send_envelope("writer_agent", &req).unwrap().env;
    assert_eq!(env.from, "writer_agent");
}

#[test]
fn build_send_envelope_requires_to_and_body() {
    assert!(build_send_envelope("writer_agent", &j(r#"{"body": "hi"}"#)).is_err());
    assert!(build_send_envelope("writer_agent", &j(r#"{"to": "research_agent"}"#)).is_err());
}

#[test]
fn build_send_envelope_degrades_unknown_type_to_chat() {
    let req = j(r#"{"to": "research_agent", "body": "hi", "type": "smoke_signal"}"#);
    let env = build_send_envelope("writer_agent", &req).unwrap().env;
    assert_eq!(env.kind, "chat");
    assert_eq!(env.body, "hi");
    assert_eq!(env.to, "research_agent");
}

#[test]
fn build_send_envelope_reports_the_degraded_from_type() {
    let req = j(r#"{"to": "research_agent", "body": "hi", "type": "smoke_signal"}"#);
    let built = build_send_envelope("writer_agent", &req).unwrap();
    assert_eq!(built.env.kind, "chat");
    assert_eq!(built.degraded_from.as_deref(), Some("smoke_signal"));
}

#[test]
fn build_send_envelope_reports_no_degrade_for_a_known_type() {
    for req in [
        r#"{"to": "research_agent", "body": "hi", "type": "digest"}"#,
        r#"{"to": "research_agent", "body": "hi", "type": "chat"}"#,
        r#"{"to": "research_agent", "body": "hi"}"#,
    ] {
        let built = build_send_envelope("writer_agent", &j(req)).unwrap();
        assert_eq!(built.degraded_from, None, "req {req} must not degrade");
    }
}

#[test]
fn send_reply_surfaces_a_degrade_to_the_caller() {
    let honored = send_reply("$evt", "!room:h", "digest", None);
    assert_eq!(honored.get_bool("ok"), Some(true));
    assert_eq!(honored.get_str("event_id"), Some("$evt"));
    assert_eq!(honored.get_str("room_id"), Some("!room:h"));
    assert_eq!(honored.get_str("type"), Some("digest"));
    assert!(
        honored.get("degraded_from").is_none(),
        "an honored send must not claim a degrade"
    );

    let degraded = send_reply("$evt", "!room:h", "chat", Some("smoke_signal"));
    assert_eq!(degraded.get_str("type"), Some("chat"));
    assert_eq!(degraded.get_str("degraded_from"), Some("smoke_signal"));
    assert_eq!(degraded.get_bool("ok"), Some(true));
    assert_eq!(degraded.get_str("event_id"), Some("$evt"));
}

#[test]
fn build_send_envelope_accepts_digest() {
    let req = j(r#"{"to": "*", "body": "3 PRs merged, 1 blocked.", "type": "digest"}"#);
    let env = build_send_envelope("writer_agent", &req).unwrap().env;
    assert_eq!(env.kind, "digest");
    assert_eq!(env.from, "writer_agent");
}

#[test]
fn build_send_envelope_rejects_meta_on_an_unknown_type() {
    let req = j(
        r#"{
            "to": "*",
            "body": "hi",
            "type": "smoke_signal",
            "meta": {"schema": "smoke-v1"}
        }"#,
    );
    let msg = build_send_envelope("writer_agent", &req).unwrap_err();
    assert!(msg.contains("only valid for type"), "was {msg:?}");
    assert!(msg.contains("smoke_signal"), "was {msg:?}");
}

#[test]
fn build_send_envelope_defaults_type_to_chat() {
    let env = build_send_envelope("writer_agent", &j(r#"{"to": "research_agent", "body": "hi"}"#))
        .unwrap()
        .env;
    assert_eq!(env.kind, "chat");
}

#[test]
fn build_send_envelope_rejects_malformed_task_id() {
    let req = j(r#"{"to": "research_agent", "body": "hi", "task_id": "not-valid!"}"#);
    assert!(build_send_envelope("writer_agent", &req).is_err());
}

#[test]
fn build_send_envelope_carries_the_wake_hint_through() {
    let req = j(r#"{"to": "research_agent", "body": "hi", "wake": true}"#);
    let env = build_send_envelope("writer_agent", &req).unwrap().env;
    assert_eq!(env.wake, Some(true));
}

#[test]
fn build_send_envelope_defaults_wake_to_none_when_absent() {
    let env = build_send_envelope("writer_agent", &j(r#"{"to": "research_agent", "body": "hi"}"#))
        .unwrap()
        .env;
    assert_eq!(env.wake, None);
}

#[test]
fn build_send_envelope_accepts_well_formed_task_id() {
    let req = j(r#"{"to": "research_agent", "body": "hi", "task_id": "source_check_1"}"#);
    let env = build_send_envelope("writer_agent", &req).unwrap().env;
    assert_eq!(env.task_id.as_deref(), Some("source_check_1"));
}

#[test]
fn build_send_envelope_carries_valid_completion_meta_intact() {
    let req = j(&format!(
        r#"{{"to": "*", "body": "shipped it", "type": "completion", "meta": {META}}}"#
    ));
    let env = build_send_envelope("writer_agent", &req).unwrap().env;
    assert_eq!(env.kind, "completion");
    let meta = env.meta.unwrap();
    assert_eq!(meta.get_str("schema"), Some("completion-v1"));
    assert_eq!(meta.get_str("repo"), Some("rjwalters/safehouse"));
}

#[test]
fn build_send_envelope_rejects_completion_without_meta() {
    let req = j(r#"{"to": "*", "body": "shipped it", "type": "completion"}"#);
    let err = build_send_envelope("writer_agent", &req).unwrap_err();
    assert!(err.contains("requires a `meta`"));
}

#[test]
fn build_send_envelope_rejects_completion_with_invalid_meta() {
    let meta = META.replace("completion-v1", "wrong-schema");
    let req = j(&format!(
        r#"{{"to": "*", "body": "shipped it", "type": "completion", "meta": {meta}}}"#
    ));
    let err = build_send_envelope("writer_agent", &req).unwrap_err();
    assert!(err.contains("invalid completion-v1 meta"));
}

#[test]
fn build_send_envelope_rejects_meta_on_non_completion_type() {
    let req = j(&format!(
        r#"{{"to": "research_agent", "body": "hi", "type": "chat", "meta": {META}}}"#
    ));
    let err = build_send_envelope("writer_agent", &req).unwrap_err();
    assert!(err.contains("only valid for type"));
}

#[test]
fn build_send_envelope_non_completion_without_meta_is_unaffected() {
    let env = build_send_envelope("writer_agent", &j(r#"{"to": "research_agent", "body": "hi"}"#))
        .unwrap()
        .env;
    assert!(env.meta.is_none());
}

#[test]
fn a_message_without_a_body_is_not_sent() {
    let req = j(r#"{"to": "research_agent", "body": ""}"#);
    assert_eq!(
        build_send_envelope("writer_agent", &req).unwrap_err(),
        "send requires a non-empty `body`"
    );
}

#[test]
fn a_message_is_read_as_it_was_sent() {
    let req = j(&format!(
        r#"{{"to": "*", "body": "shipped it", "type": "completion", "meta": {META}}}"#
    ));
    let built = build_send_envelope("writer_agent", &req).unwrap();
    let content = to_event_content(&built.env, None);
    match from_event_json(&content, "@bot:x", &[], None) {
        Inbound::Envelope(env, unknown) => {
            assert_eq!(env.from, "writer_agent");
            assert_eq!(env.to, "*");
            assert_eq!(env.kind, "completion");
            assert_eq!(env.body, "shipped it");
            assert!(env.meta.is_some());
            assert!(unknown.is_none());
        }
        other => panic!("expected Envelope, got {other:?}"),
    }
}
