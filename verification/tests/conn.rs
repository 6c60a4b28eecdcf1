use safehouse::conn::{error_reply, on_close, on_line, op_reply, ConnState, DaemonIdentity, LineStep};
use safehouse::envelope::{known_types, to_event_content, Envelope};
use safehouse::inbound::{on_message, Arrival, MessageOutcome};
use safehouse::json::Json;
use safehouse::mailbox::Mailbox;
use safehouse::ops::{plan_op, Action};
use safehouse::registry::Registry;
use safehouse::replies::run_check;

/// A connection to a daemon that has joined no room.
struct Conn {
    registry: Registry,
    state: ConnState,
    me: DaemonIdentity,
}

fn spawn_conn(personas: &[&str]) -> Conn {
    Conn {
        registry: Registry::new(personas.iter().map(|p| p.to_string()).collect(), Mailbox::new()),
        state: ConnState { conn_id: None, persona: None },
        me: DaemonIdentity { user_id: Some("@bot:x".to_owned()), device_id: Some("DEV".to_owned()) },
    }
}

impl Conn {
    fn send_at(&mut self, line: &str, now: u64) -> Json {
        match on_line(&mut self.registry, &mut self.state, line, &self.me, now) {
            LineStep::Reply(reply) => reply,
            LineStep::Run { op, req, persona } => {
                let plan = plan_op(&op, &req, &persona, &[], &[], self.registry.threads());
                let result = match plan {
                    Ok(Action::Check { advance, limit }) => {
                        Ok(run_check(&mut self.registry, &persona, advance, limit))
                    }
                    Ok(other) => panic!("nothing to carry out {other:?} with"),
                    Err(message) => Err(message),
                };
                op_reply(&req, result)
            }
            LineStep::Nothing => panic!("no reply to {line:?}"),
        }
    }

    fn send(&mut self, line: &str) -> Json {
        self.send_at(line, 0)
    }
}

fn env_to(from: &str, to: &str) -> Envelope {
    Envelope {
        v: 1,
        from: from.to_owned(),
        to: to.to_owned(),
        kind: "chat".to_owned(),
        task_id: None,
        body: "hi".to_owned(),
        wake: None,
        meta: None,
        rest: Vec::new(),
    }
}

fn types(reply: &Json) -> Vec<String> {
    reply
        .get("known_types")
        .unwrap()
        .as_array()
        .unwrap()
        .iter()
        .map(|t| t.as_str().unwrap().to_owned())
        .collect()
}

fn messages(reply: &Json) -> usize {
    reply.get("messages").unwrap().as_array().unwrap().len()
}

#[test]
fn hello_accepts_allowlisted_persona() {
    let mut conn = spawn_conn(&["writer_agent"]);
    let reply = conn.send(r#"{"op": "hello", "persona": "writer_agent"}"#);
    assert_eq!(reply.get_bool("ok"), Some(true));
}

#[test]
fn hello_rejects_persona_not_in_allowlist() {
    let mut conn = spawn_conn(&["writer_agent"]);
    let reply = conn.send(r#"{"op": "hello", "persona": "research_agent"}"#);
    assert_eq!(reply.get_bool("ok"), Some(false));
    assert!(reply.get_str("error").unwrap().contains("not in allowlist"));
}

#[test]
fn hello_rejects_syntactically_invalid_persona_even_if_configured() {
    let mut conn = spawn_conn(&["Bad-Name"]);
    let reply = conn.send(r#"{"op": "hello", "persona": "Bad-Name"}"#);
    assert_eq!(reply.get_bool("ok"), Some(false));
}

#[test]
fn hello_requires_persona_field() {
    let mut conn = spawn_conn(&["writer_agent"]);
    let reply = conn.send(r#"{"op": "hello"}"#);
    assert_eq!(reply.get_bool("ok"), Some(false));
    assert!(reply.get_str("error").unwrap().contains("requires persona"));
}

#[test]
fn hello_advertises_known_types() {
    let mut conn = spawn_conn(&["writer_agent"]);
    let reply = conn.send(r#"{"op": "hello", "persona": "writer_agent"}"#);
    assert_eq!(types(&reply), known_types());
    assert!(types(&reply).contains(&"digest".to_owned()));
}

#[test]
fn status_advertises_known_types_before_hello() {
    let mut conn = spawn_conn(&["writer_agent"]);
    let reply = conn.send(r#"{"op": "status"}"#);
    assert_eq!(types(&reply), known_types());
}

#[test]
fn status_is_queryable_before_hello() {
    let mut conn = spawn_conn(&["writer_agent"]);
    let reply = conn.send(r#"{"op": "status"}"#);
    assert_eq!(reply.get_bool("ok"), Some(true));
}

#[test]
fn status_reports_null_fields_before_anything_has_happened() {
    let mut conn = spawn_conn(&["writer_agent"]);
    let reply = conn.send(r#"{"op": "status"}"#);
    assert_eq!(reply.get_bool("connected"), Some(true));
    assert!(reply.get("last_event_received_secs_ago").unwrap().is_null());
    assert!(reply.get("last_sync_completed_secs_ago").unwrap().is_null());
    assert!(reply.get("retry_attempt").unwrap().is_null());
    assert!(reply.get("retry_backoff_secs").unwrap().is_null());
}

#[test]
fn status_reflects_recorded_event_and_sync_timestamps() {
    let mut conn = spawn_conn(&["writer_agent"]);
    let now = 1_000_900_000_000;
    conn.registry.record_event_received(now);
    conn.registry.record_sync_completed(now);
    let reply = conn.send_at(r#"{"op": "status"}"#, now);
    assert_eq!(reply.get_bool("connected"), Some(true));
    assert_eq!(reply.get_u64("last_event_received_secs_ago"), Some(0));
    assert_eq!(reply.get_u64("last_sync_completed_secs_ago"), Some(0));
    let reply = conn.send_at(r#"{"op": "status"}"#, now + 7_999_999_999);
    assert_eq!(reply.get_u64("last_event_received_secs_ago"), Some(7));
}

#[test]
fn status_surfaces_an_in_progress_retry_attempt() {
    let mut conn = spawn_conn(&["writer_agent"]);
    conn.registry.record_retry_attempt(3, 8);
    let reply = conn.send(r#"{"op": "status"}"#);
    assert_eq!(
        reply.get_bool("connected"),
        Some(false),
        "an in-progress retry means not currently connected"
    );
    assert_eq!(reply.get_u64("retry_attempt"), Some(3));
    assert_eq!(reply.get_u64("retry_backoff_secs"), Some(8));
}

#[test]
fn status_a_completed_sync_clears_a_stale_retry_state() {
    let mut conn = spawn_conn(&["writer_agent"]);
    conn.registry.record_retry_attempt(2, 4);
    conn.registry.record_sync_completed(0);
    let reply = conn.send(r#"{"op": "status"}"#);
    assert_eq!(reply.get_bool("connected"), Some(true));
    assert!(reply.get("retry_attempt").unwrap().is_null());
    assert!(reply.get("retry_backoff_secs").unwrap().is_null());
}

#[test]
fn ops_before_hello_are_rejected() {
    let mut conn = spawn_conn(&["writer_agent"]);
    let reply = conn.send(r#"{"op": "list_rooms"}"#);
    assert_eq!(reply.get_bool("ok"), Some(false));
    assert_eq!(reply.get_str("error"), Some("hello first"));
}

#[test]
fn bad_json_line_gets_an_error_reply_and_the_connection_survives() {
    let mut conn = spawn_conn(&["writer_agent"]);
    let reply = conn.send("not json");
    assert_eq!(reply.get_bool("ok"), Some(false));
    assert!(reply.get_str("error").unwrap().contains("bad json"));
    let reply = conn.send(r#"{"op": "hello", "persona": "writer_agent"}"#);
    assert_eq!(reply.get_bool("ok"), Some(true));
}

#[test]
fn unknown_op_after_hello_returns_an_error() {
    let mut conn = spawn_conn(&["writer_agent"]);
    conn.send(r#"{"op": "hello", "persona": "writer_agent"}"#);
    let reply = conn.send(r#"{"op": "not_a_real_op"}"#);
    assert_eq!(reply.get_bool("ok"), Some(false));
    assert!(reply.get_str("error").unwrap().contains("unknown op"));
}

#[test]
fn invite_requires_user_field() {
    let mut conn = spawn_conn(&["writer_agent"]);
    conn.send(r#"{"op": "hello", "persona": "writer_agent"}"#);
    let reply = conn.send(r#"{"op": "invite", "room": "!x:y"}"#);
    assert_eq!(reply.get_bool("ok"), Some(false));
    assert!(reply.get_str("error").unwrap().contains("requires `user`"));
}

#[test]
fn invite_rejects_malformed_user_id() {
    let mut conn = spawn_conn(&["writer_agent"]);
    conn.send(r#"{"op": "hello", "persona": "writer_agent"}"#);
    let reply = conn.send(r#"{"op": "invite", "room": "!x:y", "user": "not-a-user-id"}"#);
    assert_eq!(reply.get_bool("ok"), Some(false));
    assert!(reply.get_str("error").unwrap().contains("invalid user id"));
}

#[test]
fn invite_reports_unknown_room() {
    let mut conn = spawn_conn(&["writer_agent"]);
    conn.send(r#"{"op": "hello", "persona": "writer_agent"}"#);
    let reply = conn.send(r#"{"op": "invite", "room": "!nope:x", "user": "@new-bot:example.org"}"#);
    assert_eq!(reply.get_bool("ok"), Some(false));
    assert!(reply.get_str("error").unwrap().contains("no joined room matching"));
}

#[test]
fn reply_echoes_the_request_id() {
    let mut conn = spawn_conn(&["writer_agent"]);
    let reply = conn.send(r#"{"op": "hello", "persona": "writer_agent", "id": 42}"#);
    assert_eq!(reply.get_u64("id"), Some(42));
}

#[test]
fn dispatch_skips_only_the_authoring_persona_on_own_events() {
    let mut conn = spawn_conn(&["writer_agent"]);
    conn.send(r#"{"op": "hello", "persona": "writer_agent"}"#);
    let id = conn.state.conn_id.unwrap();
    assert!(
        conn.registry.dispatch(true, "writer_agent").is_empty(),
        "the authoring persona must not hear its own event"
    );
    assert_eq!(conn.registry.dispatch(true, "research_agent"), vec![id]);
    assert_eq!(conn.registry.dispatch(false, "writer_agent"), vec![id]);

    let arrival = Arrival {
        own_user: Some("@bot:x"),
        room_id: "!room:x",
        room_name: None,
        event_id: "$1",
        sender: "@bot:x",
        content: to_event_content(&env_to("research_agent", "writer_agent"), None),
    };
    match on_message(&mut conn.registry, &arrival) {
        MessageOutcome::Dispatched(d) => {
            assert_eq!(d.to, vec![id], "a different author's own-event should still be delivered");
            let pushed = Json::parse(&d.line).unwrap();
            assert_eq!(pushed.get_str("event"), Some("message"));
            assert!(pushed.get("id").is_none(), "pushed events carry no `id`");
        }
        MessageOutcome::Unsupported { version, .. } => panic!("version {version}"),
    }
}

#[test]
fn check_delivers_exactly_what_was_missed_while_disconnected() {
    let mut conn = spawn_conn(&["writer_agent"]);
    for i in 0..3 {
        conn.registry
            .mailbox_deliver(
                false,
                "!room:x",
                &format!("$event{i}"),
                "@robb:x",
                &env_to("@robb:x", "writer_agent"),
            )
            .unwrap();
    }
    conn.send(r#"{"op": "hello", "persona": "writer_agent"}"#);
    let reply = conn.send(r#"{"op": "check"}"#);
    assert_eq!(reply.get_bool("ok"), Some(true));
    assert_eq!(messages(&reply), 3);
    let reply = conn.send(r#"{"op": "check"}"#);
    assert_eq!(messages(&reply), 0);
}

#[test]
fn check_peek_mode_does_not_advance_the_cursor() {
    let mut conn = spawn_conn(&["writer_agent"]);
    conn.registry
        .mailbox_deliver(false, "!room:x", "$1", "@robb:x", &env_to("@robb:x", "writer_agent"))
        .unwrap();
    conn.send(r#"{"op": "hello", "persona": "writer_agent"}"#);

    let reply = conn.send(r#"{"op": "check", "peek": true}"#);
    assert_eq!(messages(&reply), 1);
    assert_eq!(reply.get_bool("advanced"), Some(false));

    let reply = conn.send(r#"{"op": "check", "peek": true}"#);
    assert_eq!(messages(&reply), 1, "a repeated peek must be idempotent");

    let reply = conn.send(r#"{"op": "check"}"#);
    assert_eq!(messages(&reply), 1);
    assert_eq!(reply.get_bool("advanced"), Some(true));
}

#[test]
fn check_respects_limit() {
    let mut conn = spawn_conn(&["writer_agent"]);
    for i in 0..3 {
        conn.registry
            .mailbox_deliver(
                false,
                "!room:x",
                &format!("$event{i}"),
                "@robb:x",
                &env_to("@robb:x", "writer_agent"),
            )
            .unwrap();
    }
    conn.send(r#"{"op": "hello", "persona": "writer_agent"}"#);
    let reply = conn.send(r#"{"op": "check", "limit": 2}"#);
    assert_eq!(messages(&reply), 2);
    let reply = conn.send(r#"{"op": "check"}"#);
    assert_eq!(messages(&reply), 1, "the remaining unread message must still be there");
}

#[test]
fn a_blank_line_comes_to_nothing() {
    let mut conn = spawn_conn(&["writer_agent"]);
    let step = on_line(&mut conn.registry, &mut conn.state, "  \t", &conn.me, 0);
    assert!(matches!(step, LineStep::Nothing));
}

#[test]
fn an_operation_runs_as_the_persona_of_the_connection() {
    let mut conn = spawn_conn(&["writer_agent"]);
    conn.send(r#"{"op": "hello", "persona": "writer_agent"}"#);
    let line = r#"{"op": "send", "persona": "research_agent", "from": "admin"}"#;
    match on_line(&mut conn.registry, &mut conn.state, line, &conn.me, 0) {
        LineStep::Run { op, persona, .. } => {
            assert_eq!(op, "send");
            assert_eq!(persona, "writer_agent");
        }
        other => panic!("expected an operation, got {other:?}"),
    }
}

#[test]
fn a_closed_connection_hears_nothing() {
    let mut conn = spawn_conn(&["writer_agent"]);
    conn.send(r#"{"op": "hello", "persona": "writer_agent"}"#);
    assert_eq!(conn.registry.dispatch(false, "x").len(), 1);
    on_close(&mut conn.registry, &conn.state);
    assert!(conn.registry.dispatch(false, "x").is_empty());
}

#[test]
fn an_error_tells_what_went_wrong() {
    assert_eq!(error_reply("no").print(), r#"{"error":"no","ok":false}"#);
    let req = Json::parse(r#"{"id":"abc"}"#).unwrap();
    assert_eq!(op_reply(&req, Err("no".to_owned())).print(), r#"{"error":"no","id":"abc","ok":false}"#);
}
