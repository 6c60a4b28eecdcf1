use std::path::PathBuf;

use safehouse::egress::{Egress, EgressConfig};
use safehouse::envelope::{to_event_content, Envelope, ENVELOPE_KEY};
use safehouse::inbound::{
    content_from_raw, feed_message, feed_redaction, on_invite, on_message, on_redaction, redaction_target,
    unsupported_notice, Arrival, FeedStep, InviteDecision, MessageOutcome,
};
use safehouse::json::Json;
use safehouse::mailbox::Mailbox;
use safehouse::registry::Registry;
use safehouse::threads::{replay_thread_events, ThreadState};

fn j(text: &str) -> Json {
    Json::parse(text).unwrap()
}

fn personas() -> Vec<String> {
    vec!["writer_agent".to_owned(), "research_agent".to_owned()]
}

fn env(from: &str, to: &str, kind: &str, task_id: Option<&str>) -> Envelope {
    Envelope {
        v: 1,
        from: from.to_owned(),
        to: to.to_owned(),
        kind: kind.to_owned(),
        task_id: task_id.map(str::to_owned),
        body: "go".to_owned(),
        wake: None,
        meta: None,
        rest: Vec::new(),
    }
}

fn arrival<'a>(event_id: &'a str, sender: &'a str, content: Json) -> Arrival<'a> {
    Arrival {
        own_user: Some("@bot:x"),
        room_id: "!room:x",
        room_name: Some("fleet".to_owned()),
        event_id,
        sender,
        content,
    }
}

fn future_content() -> Json {
    j(&format!(
        r#"{{"body": "x", "{ENVELOPE_KEY}": {{"v": 9, "from": "a", "to": "*", "type": "chat", "body": "x"}}}}"#
    ))
}

#[test]
fn a_message_goes_to_those_it_is_for() {
    let mut registry = Registry::new(personas(), Mailbox::new());
    let id = registry.connect("research_agent").unwrap();
    let content = to_event_content(&env("remote_agent", "research_agent", "task", Some("t")), None);
    match on_message(&mut registry, &arrival("$1", "@other:x", content)) {
        MessageOutcome::Dispatched(d) => {
            assert_eq!(d.env.to, "research_agent");
            assert_eq!(d.to, vec![id]);
            let line = j(&d.line);
            assert!(line.get("event").is_some());
            assert!(line.get("id").is_none(), "pushed events carry no `id`");
            assert_eq!(line.get_str("sender"), Some("@other:x"));
            assert_eq!(line.get("envelope").unwrap().get_str("from"), Some("remote_agent"));
            let deliveries = match d.deliveries {
                Ok(deliveries) => deliveries,
                Err(full) => panic!("{full:?}"),
            };
            assert_eq!(deliveries.len(), 1);
            assert_eq!(deliveries[0].persona, "research_agent");
            assert!(d.ack.is_none());
        }
        MessageOutcome::Unsupported { .. } => panic!("expected a dispatch"),
    }
    assert_eq!(registry.threads().root_for_task("t").as_deref(), Some("$1"));
    let mail = registry.check("research_agent", true, None);
    assert_eq!(mail.len(), 1);
    assert_eq!(mail[0].sender, "@other:x");
    assert_eq!(mail[0].envelope.from, "remote_agent");
    assert!(registry.check("writer_agent", true, None).is_empty());
}

#[test]
fn an_unknown_address_is_answered_in_the_room() {
    let mut registry = Registry::new(personas(), Mailbox::new());
    let content = j(r#"{"body": "@typo-agent do it"}"#);
    match on_message(&mut registry, &arrival("$1", "@robb:x", content)) {
        MessageOutcome::Dispatched(d) => {
            let ack = d.ack.unwrap();
            let body = ack.get(ENVELOPE_KEY).unwrap().get_str("body").unwrap().to_owned();
            assert!(body.contains("@typo-agent"));
        }
        MessageOutcome::Unsupported { .. } => panic!("expected a dispatch"),
    }
}

#[test]
fn a_version_that_is_not_understood_goes_nowhere() {
    let mut registry = Registry::new(personas(), Mailbox::new());
    registry.connect("writer_agent").unwrap();
    match on_message(&mut registry, &arrival("$1", "@evil:x", future_content())) {
        MessageOutcome::Unsupported { version, notice } => {
            assert_eq!(version, 9);
            let notice = notice.unwrap();
            let body = notice.get(ENVELOPE_KEY).unwrap().get_str("body").unwrap().to_owned();
            assert!(body.contains("@evil:x"));
            assert!(body.contains("version 9"));
        }
        MessageOutcome::Dispatched(_) => panic!("expected no dispatch"),
    }
    assert!(registry.check("writer_agent", true, None).is_empty());
    // The same sender at the same version is told of once.
    match on_message(&mut registry, &arrival("$2", "@evil:x", future_content())) {
        MessageOutcome::Unsupported { notice, .. } => assert!(notice.is_none()),
        MessageOutcome::Dispatched(_) => panic!("expected no dispatch"),
    }
}

#[test]
fn the_notice_is_understood_by_daemons_like_this_one() {
    let mut registry = Registry::new(personas(), Mailbox::new());
    let notice = to_event_content(&unsupported_notice(Some("@bot:x"), "@evil:x", 9), None);
    match on_message(&mut registry, &arrival("$1", "@bot:x", notice)) {
        MessageOutcome::Dispatched(d) => {
            assert_eq!(d.env.kind, "ack");
            assert!(d.ack.is_none());
        }
        MessageOutcome::Unsupported { .. } => panic!("a notice must not call forth another"),
    }
    assert_eq!(unsupported_notice(None, "@evil:x", 9).from, "safehoused");
}

#[test]
fn live_events_and_replayed_ones_leave_the_same_threads() {
    let content = to_event_content(&env("writer_agent", "research_agent", "task", Some("t")), None);
    let mut registry = Registry::new(personas(), Mailbox::new());
    on_message(&mut registry, &arrival("$root", "@other:x", content.clone()));

    let event = Json::Object(vec![
        ("type".to_owned(), Json::Text("m.room.message".to_owned())),
        ("event_id".to_owned(), Json::Text("$root".to_owned())),
        ("sender".to_owned(), Json::Text("@other:x".to_owned())),
        ("content".to_owned(), content),
    ]);
    let mut replayed = ThreadState::default();
    replay_thread_events(&mut replayed, &personas(), &[event]);
    assert_eq!(registry.threads().root_for_task("t"), replayed.root_for_task("t"));
    assert_eq!(registry.threads().latest_in_thread("$root"), replayed.latest_in_thread("$root"));
    assert_eq!(registry.threads().target_for_thread("$root"), replayed.target_for_thread("$root"));
    assert_eq!(replayed.target_for_thread("$root").as_deref(), Some("research_agent"));
}

#[test]
fn the_content_is_read_out_of_the_event() {
    assert_eq!(content_from_raw(r#"{"content":{"body":"hi"}}"#).get_str("body"), Some("hi"));
    assert!(content_from_raw(r#"{"type":"x"}"#).is_null());
    assert!(content_from_raw("not json").is_null());
}

fn completion() -> Envelope {
    let mut e = env("writer_agent", "*", "completion", None);
    e.meta = Some(j(
        r#"{
            "schema": "completion-v1",
            "agent": "writer_agent",
            "repo": "r",
            "ref": "x",
            "result": "success",
            "started_at": "2026-07-29T10:00:00Z",
            "completed_at": "2026-07-29T10:05:00Z"
        }"#,
    ));
    e
}

fn egress() -> Egress {
    Egress::open(EgressConfig {
        rooms: vec!["!r:x".to_owned()],
        deny_patterns: vec!["secret".to_owned()],
        delay_seconds: 10,
        sink_path: Some(PathBuf::from("/tmp/sink.jsonl")),
        sink_url: None,
    })
    .unwrap()
}

#[test]
fn an_edit_takes_back_what_waits() {
    let mut feed = egress();
    let plain = j(r#"{"body":"done"}"#);
    let id = match feed_message(&mut feed, "!r:x", "$1", &plain, &completion(), 1_000) {
        FeedStep::Considered(Ok(seen)) => seen.inserted.unwrap(),
        other => panic!("expected a row, got {other:?}"),
    };
    let edit = j(r#"{"m.relates_to":{"rel_type":"m.replace","event_id":"$1"}}"#);
    match feed_message(&mut feed, "!r:x", "$2", &edit, &completion(), 1_001) {
        FeedStep::Retracted(row) => assert_eq!(row, Some(id)),
        other => panic!("expected a retraction, got {other:?}"),
    }
    assert!(feed.row(id).unwrap().retracted);
    assert!(feed.due(5_000).is_empty());
}

#[test]
fn a_redaction_takes_back_what_waits() {
    let mut feed = egress();
    let plain = j(r#"{"body":"done"}"#);
    feed_message(&mut feed, "!r:x", "$1", &plain, &completion(), 1_000);
    feed_message(&mut feed, "!r:x", "$2", &plain, &completion(), 1_000);
    assert_eq!(feed_redaction(&mut feed, "!r:x", &j(r#"{"redacts":"$1"}"#)), Some(1));
    assert_eq!(on_redaction(&mut feed, "!r:x", r#"{"content":{"redacts":"$2"}}"#), Some(2));
    assert_eq!(on_redaction(&mut feed, "!r:x", r#"{"redacts":"$3"}"#), None);
    assert_eq!(on_redaction(&mut feed, "!other:x", r#"{"redacts":"$1"}"#), None);
    assert_eq!(on_redaction(&mut feed, "!r:x", "not json"), None);
    assert!(feed.due(5_000).is_empty());
}

#[test]
fn the_target_of_a_redaction_stands_in_either_place() {
    assert_eq!(redaction_target(&j(r#"{"redacts":"$a"}"#)).as_deref(), Some("$a"));
    assert_eq!(redaction_target(&j(r#"{"content":{"redacts":"$b"}}"#)).as_deref(), Some("$b"));
    assert!(redaction_target(&j(r#"{"content":{}}"#)).is_none());
}

#[test]
fn an_invitation_is_taken_from_whom_the_list_says() {
    let list = Some(vec!["@robb:x".to_owned()]);
    assert_eq!(on_invite(Some("@bot:x"), "@bot:x", true, "@robb:x", &list), InviteDecision::Join);
    assert_eq!(on_invite(Some("@bot:x"), "@bot:x", true, "@eve:x", &list), InviteDecision::Decline);
    assert_eq!(on_invite(Some("@bot:x"), "@bot:x", true, "@eve:x", &None), InviteDecision::Join);
    assert_eq!(on_invite(Some("@bot:x"), "@other:x", true, "@robb:x", &None), InviteDecision::Ignore);
    assert_eq!(on_invite(Some("@bot:x"), "@bot:x", false, "@robb:x", &None), InviteDecision::Ignore);
    assert_eq!(on_invite(None, "@bot:x", true, "@robb:x", &None), InviteDecision::Ignore);
}
