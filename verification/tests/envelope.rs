use safehouse::envelope::{
    broadcast, degrade_unknown_type, envelope_json, from_event_json, html_escape, ingest, known_types,
    parse_envelope, render, synthesize_for_human, thread_relation, thread_root_from_content,
    to_event_content, unknown_persona_ack, valid_persona, Envelope, Inbound, DAEMON_PERSONA,
    ENVELOPE_KEY, SUPPORTED_VERSION,
};
use safehouse::json::Json;

fn j(text: &str) -> Json {
    Json::parse(text).unwrap()
}

fn personas() -> Vec<String> {
    vec!["research_agent".to_owned(), "writer_agent".to_owned()]
}

fn envelope_content(v: u64) -> Json {
    j(&format!(
        r#"{{
            "msgtype": "m.text",
            "body": "writer-agent → research-agent · handoff\nconfirm sources",
            "{ENVELOPE_KEY}": {{
                "v": {v},
                "from": "writer_agent",
                "to": "research_agent",
                "type": "handoff",
                "body": "confirm sources"
            }}
        }}"#
    ))
}

fn env(from: &str, to: &str, kind: &str, body: &str) -> Envelope {
    Envelope {
        v: 1,
        from: from.to_owned(),
        to: to.to_owned(),
        kind: kind.to_owned(),
        task_id: None,
        body: body.to_owned(),
        wake: None,
        meta: None,
        rest: Vec::new(),
    }
}

fn human_in_thread(body: &str, thread_agent: Option<&str>) -> Envelope {
    let content = Json::Object(vec![("body".to_owned(), Json::Text(body.to_owned()))]);
    match from_event_json(&content, "@robb:safehouse.local", &personas(), thread_agent) {
        Inbound::Envelope(env, _unknown) => env,
        other => panic!("expected Envelope, got {other:?}"),
    }
}

fn human(body: &str) -> Envelope {
    human_in_thread(body, None)
}

#[test]
fn supported_version_parses_to_envelope() {
    let content = envelope_content(u64::from(SUPPORTED_VERSION));
    match from_event_json(&content, "@robb:safehouse.local", &personas(), None) {
        Inbound::Envelope(env, unknown) => {
            assert_eq!(env.v, SUPPORTED_VERSION);
            assert_eq!(env.from, "writer_agent");
            assert_eq!(env.to, "research_agent");
            assert_eq!(env.kind, "handoff");
            assert_eq!(env.body, "confirm sources");
            assert!(unknown.is_none());
        }
        other => panic!("expected Envelope, got {other:?}"),
    }
}

#[test]
fn future_version_is_not_dispatched() {
    let content = envelope_content(2);
    match from_event_json(&content, "@robb:safehouse.local", &personas(), None) {
        Inbound::UnsupportedVersion(v) => assert_eq!(v, 2),
        other => panic!("expected UnsupportedVersion(2), got {other:?}"),
    }
}

#[test]
fn large_future_version_preserved_without_truncation() {
    let big = u64::from(u32::MAX) + 5;
    let content = envelope_content(big);
    match from_event_json(&content, "@robb:safehouse.local", &personas(), None) {
        Inbound::UnsupportedVersion(v) => assert_eq!(v, big),
        other => panic!("expected UnsupportedVersion({big}), got {other:?}"),
    }
}

#[test]
fn addressed_human_message_synthesizes_envelope() {
    let content = j(r#"{ "msgtype": "m.text", "body": "@research-agent confirm the source list" }"#);
    match from_event_json(&content, "@robb:safehouse.local", &personas(), None) {
        Inbound::Envelope(env, unknown) => {
            assert_eq!(env.v, SUPPORTED_VERSION);
            assert_eq!(env.from, "@robb:safehouse.local");
            assert_eq!(env.to, "research_agent");
            assert_eq!(env.kind, "chat");
            assert_eq!(env.body, "confirm the source list");
            assert!(unknown.is_none());
        }
        other => panic!("expected Envelope, got {other:?}"),
    }
}

#[test]
fn unaddressed_human_message_broadcasts() {
    let content = j(r#"{ "msgtype": "m.text", "body": "hmm, the timeline looks off" }"#);
    match from_event_json(&content, "@robb:safehouse.local", &personas(), None) {
        Inbound::Envelope(env, unknown) => {
            assert_eq!(env.to, "*");
            assert_eq!(env.kind, "chat");
            assert_eq!(env.body, "hmm, the timeline looks off");
            assert!(unknown.is_none());
        }
        other => panic!("expected Envelope, got {other:?}"),
    }
}

#[test]
fn valid_persona_accepts_lowercase_digits_underscore() {
    assert!(valid_persona("writer_agent"));
    assert!(valid_persona("agent1"));
    assert!(valid_persona("a"));
    assert!(valid_persona("a_b_c_123"));
}

#[test]
fn valid_persona_rejects_empty() {
    assert!(!valid_persona(""));
}

#[test]
fn valid_persona_rejects_too_long() {
    let ok = "a".repeat(64);
    let too_long = "a".repeat(65);
    assert!(valid_persona(&ok));
    assert!(!valid_persona(&too_long));
}

#[test]
fn valid_persona_rejects_uppercase() {
    assert!(!valid_persona("Writer_Agent"));
}

#[test]
fn valid_persona_rejects_hyphen() {
    assert!(!valid_persona("writer-agent"));
}

#[test]
fn valid_persona_rejects_whitespace_and_symbols() {
    assert!(!valid_persona("writer agent"));
    assert!(!valid_persona("writer.agent"));
    assert!(!valid_persona("@writer_agent"));
}

#[test]
fn render_chat_omits_type_suffix() {
    let (plain, html) = render(&env("writer_agent", "research_agent", "chat", "hi"));
    assert_eq!(plain, "writer-agent → research-agent\nhi");
    assert_eq!(html, "<b>writer-agent → research-agent</b><br/>hi");
}

#[test]
fn render_non_chat_includes_type_suffix() {
    let (plain, html) = render(&env("writer_agent", "research_agent", "handoff", "go"));
    assert_eq!(plain, "writer-agent → research-agent · handoff\ngo");
    assert_eq!(
        html,
        "<b>writer-agent → research-agent</b> · <i>handoff</i><br/>go"
    );
}

#[test]
fn render_hyphenates_underscored_personas() {
    let (plain, _) = render(&env("writer_agent", "research_agent", "task", "x"));
    assert!(plain.starts_with("writer-agent → research-agent"));
}

#[test]
fn render_broadcast_target_as_everyone() {
    let (plain, html) = render(&env("writer_agent", "*", "chat", "hi all"));
    assert!(plain.starts_with("writer-agent → everyone\n"));
    assert!(html.starts_with("<b>writer-agent → everyone</b><br/>"));
}

#[test]
fn render_passes_matrix_user_ids_through_unhyphenated() {
    let (plain, _) = render(&env("@robb:safehouse.local", "writer_agent", "chat", "hi"));
    assert!(plain.starts_with("@robb:safehouse.local → writer-agent"));
}

#[test]
fn render_html_escapes_body_and_type() {
    let (_, html) = render(&env("writer_agent", "research_agent", "<task>", "a & b <tag>"));
    assert!(html.contains("&lt;task&gt;"));
    assert!(html.contains("a &amp; b &lt;tag&gt;"));
    assert!(!html.contains("<tag>"));
}

#[test]
fn render_plain_body_not_html_escaped() {
    let (plain, _) = render(&env("writer_agent", "research_agent", "chat", "a & b <tag>"));
    assert!(plain.ends_with("a & b <tag>"));
}

#[test]
fn from_event_json_passes_through_explicit_envelope() {
    let content = j(&format!(
        r#"{{
            "msgtype": "m.text",
            "body": "irrelevant — agents read the envelope, not this",
            "{ENVELOPE_KEY}": {{
                "v": 1,
                "from": "writer_agent",
                "to": "research_agent",
                "type": "handoff",
                "task_id": "source_check",
                "body": "Need the source list confirmed."
            }}
        }}"#
    ));
    match from_event_json(&content, "@robb:safehouse.local", &[], None) {
        Inbound::Envelope(env, unknown) => {
            assert_eq!(env.v, 1);
            assert_eq!(env.from, "writer_agent");
            assert_eq!(env.to, "research_agent");
            assert_eq!(env.kind, "handoff");
            assert_eq!(env.task_id.as_deref(), Some("source_check"));
            assert_eq!(env.body, "Need the source list confirmed.");
            assert!(unknown.is_none());
        }
        other => panic!("expected Envelope, got {other:?}"),
    }
}

#[test]
fn from_event_json_malformed_envelope_falls_back_to_synthesis() {
    let content = j(&format!(
        r#"{{
            "body": "hmm, the timeline looks off",
            "{ENVELOPE_KEY}": {{ "v": 1, "from": "someone" }}
        }}"#
    ));
    match from_event_json(&content, "@robb:safehouse.local", &[], None) {
        Inbound::Envelope(env, unknown) => {
            assert_eq!(env.from, "@robb:safehouse.local");
            assert_eq!(env.to, "*");
            assert_eq!(env.kind, "chat");
            assert_eq!(env.body, "hmm, the timeline looks off");
            assert!(unknown.is_none());
        }
        other => panic!("expected Envelope, got {other:?}"),
    }
}

#[test]
fn from_event_json_no_body_field_defaults_to_empty() {
    let content = j("{}");
    match from_event_json(&content, "@robb:safehouse.local", &[], None) {
        Inbound::Envelope(env, _unknown) => {
            assert_eq!(env.body, "");
            assert_eq!(env.to, "*");
        }
        other => panic!("expected Envelope, got {other:?}"),
    }
}

#[test]
fn known_persona_address_unchanged() {
    let (env, unknown) = synthesize_for_human(
        "@robb:safehouse.local",
        "@research-agent confirm the source list",
        &personas(),
        None,
    );
    assert_eq!(env.to, "research_agent");
    assert_eq!(env.body, "confirm the source list");
    assert_eq!(env.kind, "chat");
    assert_eq!(env.from, "@robb:safehouse.local");
    assert!(unknown.is_none());
}

#[test]
fn known_persona_address_with_colon_unchanged() {
    let (env, unknown) = synthesize_for_human(
        "@robb:safehouse.local",
        "@research-agent: hello",
        &personas(),
        None,
    );
    assert_eq!(env.to, "research_agent");
    assert_eq!(env.body, "hello");
    assert!(unknown.is_none());
}

#[test]
fn unknown_persona_flagged_for_ack() {
    let (env, unknown) = synthesize_for_human(
        "@robb:safehouse.local",
        "@typo-agent do the thing",
        &personas(),
        None,
    );
    assert_eq!(env.to, "*");
    assert_eq!(env.kind, "chat");
    assert_eq!(env.body, "@typo-agent do the thing");
    assert_eq!(unknown.as_deref(), Some("typo-agent"));
}

#[test]
fn unaddressed_broadcast_unaffected() {
    let (env, unknown) = synthesize_for_human(
        "@robb:safehouse.local",
        "hmm, the timeline looks off",
        &personas(),
        None,
    );
    assert_eq!(env.to, "*");
    assert_eq!(env.from, "@robb:safehouse.local");
    assert_eq!(env.body, "hmm, the timeline looks off");
    assert_eq!(env.task_id, None);
    assert!(unknown.is_none());
}

#[test]
fn bare_at_sign_is_not_an_unknown_address() {
    let (env, unknown) =
        synthesize_for_human("@robb:safehouse.local", "@ hello", &personas(), None);
    assert_eq!(env.to, "*");
    assert_eq!(env.body, "@ hello");
    assert!(unknown.is_none());
}

#[test]
fn existing_envelope_never_flags_unknown_persona() {
    let content = j(&format!(
        r#"{{
            "body": "irrelevant rendered text",
            "{ENVELOPE_KEY}": {{
                "v": 1,
                "from": "writer_agent",
                "to": "does_not_exist",
                "type": "chat",
                "body": "hi"
            }}
        }}"#
    ));
    match from_event_json(&content, "@safehoused-hosta:server", &personas(), None) {
        Inbound::Envelope(env, unknown) => {
            assert_eq!(env.from, "writer_agent");
            assert_eq!(env.to, "does_not_exist");
            assert!(unknown.is_none());
        }
        other => panic!("expected Envelope, got {other:?}"),
    }
}

#[test]
fn unknown_persona_ack_names_token_and_lists_personas() {
    let ack = unknown_persona_ack("@robb:safehouse.local", "typo-agent", &personas());
    assert_eq!(ack.from, DAEMON_PERSONA);
    assert_eq!(ack.to, "@robb:safehouse.local");
    assert_eq!(ack.kind, "ack");
    assert!(ack.body.contains("@typo-agent"));
    assert!(ack.body.contains("research-agent"));
    assert!(ack.body.contains("writer-agent"));
}

#[test]
fn unknown_persona_ack_with_no_personas_configured() {
    let ack = unknown_persona_ack("@robb:safehouse.local", "anything", &[]);
    assert!(ack.body.contains("none configured"));
}

#[test]
fn synthesize_explicit_address_comma_suffix() {
    let env = human("@research_agent, confirm the source list");
    assert_eq!(env.to, "research_agent");
    assert_eq!(env.body, "confirm the source list");
}

#[test]
fn synthesize_explicit_address_no_trailing_body() {
    let env = human("@research_agent");
    assert_eq!(env.to, "research_agent");
    assert_eq!(env.body, "");
}

#[test]
fn synthesize_explicit_address_colon_no_trailing_body() {
    let env = human("@research_agent:");
    assert_eq!(env.to, "research_agent");
    assert_eq!(env.body, "");
}

#[test]
fn thread_reply_routes_to_thread_agent_without_token() {
    let env = human_in_thread("confirm the source list", Some("research_agent"));
    assert_eq!(env.to, "research_agent");
    assert_eq!(env.from, "@robb:safehouse.local");
    assert_eq!(env.kind, "chat");
    assert_eq!(env.body, "confirm the source list");
}

#[test]
fn explicit_address_overrides_thread_agent() {
    let env = human_in_thread("@writer-agent status?", Some("research_agent"));
    assert_eq!(env.to, "writer_agent");
    assert_eq!(env.body, "status?");
}

#[test]
fn no_token_and_no_thread_agent_still_broadcasts() {
    let env = human_in_thread("hmm, the timeline looks off", None);
    assert_eq!(env.to, "*");
    assert_eq!(env.kind, "chat");
}

#[test]
fn to_event_content_without_relation_omits_relates_to() {
    let content = to_event_content(&env("writer_agent", "research_agent", "chat", "hi"), None);
    assert!(content.get("m.relates_to").is_none());
}

#[test]
fn to_event_content_with_relation_embeds_it() {
    let relation = thread_relation("$root", "$latest");
    let content = to_event_content(
        &env("writer_agent", "research_agent", "task", "go"),
        Some(relation),
    );
    let relates_to = content
        .get("m.relates_to")
        .expect("m.relates_to must be present");
    assert_eq!(relates_to.get_str("rel_type"), Some("m.thread"));
    assert_eq!(relates_to.get_str("event_id"), Some("$root"));
    assert_eq!(relates_to.get_bool("is_falling_back"), Some(true));
    assert_eq!(
        relates_to.get("m.in_reply_to").unwrap().get_str("event_id"),
        Some("$latest")
    );
}

#[test]
fn thread_relation_shape_matches_spec() {
    let relation = thread_relation("$abc", "$abc");
    assert_eq!(relation.get_str("rel_type"), Some("m.thread"));
    assert_eq!(relation.get_str("event_id"), Some("$abc"));
    assert_eq!(
        relation.get("m.in_reply_to").unwrap().get_str("event_id"),
        Some("$abc")
    );
}

#[test]
fn thread_root_from_content_extracts_thread_relation() {
    let content = Json::Object(vec![
        ("body".to_owned(), Json::Text("confirm the source list".to_owned())),
        ("m.relates_to".to_owned(), thread_relation("$root", "$latest")),
    ]);
    assert_eq!(thread_root_from_content(&content).as_deref(), Some("$root"));
}

#[test]
fn thread_root_from_content_ignores_non_thread_relations() {
    let content = j(
        r#"{
            "body": "a plain reply",
            "m.relates_to": { "rel_type": "m.reference", "event_id": "$other" }
        }"#,
    );
    assert!(thread_root_from_content(&content).is_none());
}

#[test]
fn thread_root_from_content_none_when_absent() {
    let content = j(r#"{ "body": "no relation here" }"#);
    assert!(thread_root_from_content(&content).is_none());
}

#[test]
fn the_types_are_known_in_order() {
    assert_eq!(
        known_types(),
        vec!["chat", "task", "handoff", "ack", "completion", "digest"]
    );
}

#[test]
fn unknown_types_degrade_to_chat() {
    assert_eq!(degrade_unknown_type("smoke_signal"), "chat");
    assert_eq!(degrade_unknown_type(""), "chat");
    for kind in known_types() {
        assert_eq!(degrade_unknown_type(&kind), kind);
    }
}

#[test]
fn escaped_text_holds_no_markup() {
    assert_eq!(html_escape("a & b < c > d \" '"), "a &amp; b &lt; c &gt; d \" '");
    assert_eq!(html_escape("&lt;"), "&amp;lt;");
    assert_eq!(html_escape(""), "");
}

#[test]
fn an_envelope_survives_its_wire_form() {
    let mut sent = env("writer_agent", "*", "completion", "done — ✓");
    sent.task_id = Some("t1".to_owned());
    sent.wake = Some(false);
    sent.meta = Some(j(r#"{"schema":"completion-v1"}"#));
    let back = parse_envelope(&envelope_json(&sent)).unwrap();
    assert_eq!(back.v, 1);
    assert_eq!(back.from, "writer_agent");
    assert_eq!(back.to, "*");
    assert_eq!(back.kind, "completion");
    assert_eq!(back.task_id.as_deref(), Some("t1"));
    assert_eq!(back.body, "done — ✓");
    assert_eq!(back.wake, Some(false));
    assert_eq!(back.meta.unwrap().print(), r#"{"schema":"completion-v1"}"#);
}

#[test]
fn the_wire_form_leaves_out_what_is_missing() {
    let wire = envelope_json(&env("a", "b", "chat", "hi"));
    assert_eq!(
        wire.print(),
        r#"{"body":"hi","from":"a","to":"b","type":"chat","v":1}"#
    );
}

#[test]
fn an_event_gives_back_the_envelope_it_was_made_of() {
    let sent = env("writer_agent", "research_agent", "task", "go");
    let content = to_event_content(&sent, Some(thread_relation("$root", "$latest")));
    assert_eq!(thread_root_from_content(&content).as_deref(), Some("$root"));
    match from_event_json(&content, "@bot:x", &personas(), None) {
        Inbound::Envelope(env, unknown) => {
            assert_eq!(env.from, "writer_agent");
            assert_eq!(env.to, "research_agent");
            assert_eq!(env.kind, "task");
            assert_eq!(env.body, "go");
            assert!(unknown.is_none());
        }
        other => panic!("expected Envelope, got {other:?}"),
    }
}

#[test]
fn what_is_taken_in_is_settled() {
    // An unknown type is read as chat; a second reading changes nothing.
    let once = ingest(env("a", "*", "smoke_signal", "hi"));
    assert_eq!(once.kind, "chat");
    assert_eq!(once.wake, Some(false));
    let twice = ingest(once);
    assert_eq!(twice.kind, "chat");
    assert_eq!(twice.wake, Some(false));
}

#[test]
fn a_completion_without_its_meta_is_read_as_chat() {
    let read = ingest(env("a", "b", "completion", "done"));
    assert_eq!(read.kind, "chat");
    assert!(read.meta.is_none());
}

#[test]
fn wake_follows_the_way_a_message_was_addressed() {
    assert_eq!(human("@research-agent hi").wake, Some(true));
    assert_eq!(human("hi all").wake, Some(false));
    assert_eq!(human_in_thread("hi", Some("research_agent")).wake, None);
    assert_eq!(broadcast("@robb:x", "hi").wake, Some(false));
}

#[test]
fn an_envelope_that_is_no_object_is_passed_over() {
    assert!(parse_envelope(&j("[1, \"a\", \"b\", \"chat\", null, \"hi\"]")).is_none());
    assert!(parse_envelope(&j("null")).is_none());
    assert!(parse_envelope(&j(r#"{"v":1,"from":"a","to":"b","type":"chat"}"#)).is_none());
    assert!(parse_envelope(&j(r#"{"v":4294967296,"from":"a","to":"b","type":"chat","body":""}"#)).is_none());
}

#[test]
fn fields_that_are_not_understood_are_passed_on() {
    let content = j(&format!(
        r#"{{"body":"x","{ENVELOPE_KEY}":{{"v":1,"from":"a","to":"b","type":"chat","body":"hi","in_reply_to":"t0","next":{{"deep":[1]}},"task_id":null}}}}"#
    ));
    match from_event_json(&content, "@bot:x", &personas(), None) {
        Inbound::Envelope(env, unknown) => {
            assert!(unknown.is_none());
            assert_eq!(env.rest.len(), 2);
            assert_eq!(
                envelope_json(&env).print(),
                r#"{"body":"hi","from":"a","in_reply_to":"t0","next":{"deep":[1]},"to":"b","type":"chat","v":1}"#
            );
            let again = parse_envelope(&envelope_json(&env.clone())).unwrap();
            assert_eq!(envelope_json(&again).print(), envelope_json(&env).print());
        }
        other => panic!("expected Envelope, got {other:?}"),
    }
}
