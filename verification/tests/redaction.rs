use safehouse::json::Json;
use safehouse::redaction::redact;

fn j(text: &str) -> Json {
    Json::parse(text).unwrap()
}

fn completion_meta() -> Json {
    j(r#"{
        "schema": "completion-v1",
        "agent": "writer_agent",
        "repo": "rjwalters/safehouse",
        "ref": "https://github.com/rjwalters/safehouse/pull/99",
        "result": "success",
        "started_at": "2026-07-29T10:00:00Z",
        "completed_at": "2026-07-29T10:05:00Z"
    }"#)
}

#[test]
fn redact_strips_matches_from_every_string_field() {
    let meta = j(
        r#"{
            "schema": "completion-v1",
            "agent": "secret_agent",
            "repo": "acme/secret-repo",
            "ref": "https://internal.acme.example/pr/1",
            "nested": { "note": "contains secret token here" },
            "list": ["secret", "clean"]
        }"#,
    );
    let out = redact(&meta, &["secret".to_owned(), "acme".to_owned()]);
    assert_eq!(out.get_str("agent"), Some("[REDACTED]_agent"));
    assert_eq!(out.get_str("repo"), Some("[REDACTED]/[REDACTED]-repo"));
    assert_eq!(out.get_str("ref"), Some("https://internal.[REDACTED].example/pr/1"));
    assert_eq!(out.get("nested").unwrap().get_str("note"), Some("contains [REDACTED] token here"));
    let list = out.get("list").unwrap().as_array().unwrap();
    assert_eq!(list[0].as_str(), Some("[REDACTED]"));
    assert_eq!(list[1].as_str(), Some("clean"));
    assert_eq!(out.get_str("schema"), Some("completion-v1"));
}

#[test]
fn redact_with_no_patterns_is_identity() {
    let meta = completion_meta();
    assert_eq!(redact(&meta, &[]).print(), meta.print());
}

#[test]
fn redact_ignores_empty_patterns() {
    let meta = j(r#"{ "agent": "writer" }"#);
    assert_eq!(redact(&meta, &[String::new()]).print(), meta.print());
}

#[test]
fn values_that_are_no_texts_stay() {
    let meta = j(r#"{"n":1,"big":-2.5,"t":true,"z":null,"a":[1,"x"]}"#);
    let out = redact(&meta, &["x".to_owned(), "1".to_owned()]);
    assert_eq!(out.print(), r#"{"a":[1,"[REDACTED]"],"big":-2.5,"n":1,"t":true,"z":null}"#);
}

#[test]
fn the_names_of_fields_stay() {
    let out = redact(&j(r#"{"secret":"a secret"}"#), &["secret".to_owned()]);
    assert_eq!(out.print(), r#"{"secret":"a [REDACTED]"}"#);
}

#[test]
fn matches_are_found_left_to_right() {
    let out = redact(&j(r#""aaa""#), &["aa".to_owned()]);
    assert_eq!(out.as_str(), Some("[REDACTED]a"));
}
