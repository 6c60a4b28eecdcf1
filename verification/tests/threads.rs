use safehouse::envelope::{thread_relation, Envelope, ENVELOPE_KEY};
use safehouse::json::Json;
use safehouse::threads::{event_content, event_sender, message, replay_thread_events, ThreadState};

fn j(text: &str) -> Json {
    Json::parse(text).unwrap()
}

fn personas() -> Vec<String> {
    vec!["writer_agent".to_owned(), "research_agent".to_owned()]
}

fn thread_env(to: &str, task_id: Option<&str>) -> Envelope {
    Envelope {
        v: 1,
        from: "writer_agent".to_owned(),
        to: to.to_owned(),
        kind: "task".to_owned(),
        task_id: task_id.map(str::to_owned),
        body: "go".to_owned(),
        wake: None,
        meta: None,
        rest: Vec::new(),
    }
}

fn agent_event(event_id: &str, root: Option<&str>, to: &str, task_id: Option<&str>) -> Json {
    let task = task_id.map_or("null".to_owned(), |t| format!("{t:?}"));
    let relation = root.map_or(String::new(), |root| {
        format!(r#""m.relates_to": {},"#, thread_relation(root, root).print())
    });
    j(&format!(
        r#"{{
            "type": "m.room.message",
            "event_id": "{event_id}",
            "sender": "@safehoused:x",
            "content": {{
                "msgtype": "m.text",
                {relation}
                "body": "rendered text agents never read",
                "{ENVELOPE_KEY}": {{
                    "v": 1,
                    "from": "writer_agent",
                    "to": "{to}",
                    "type": "task",
                    "task_id": {task},
                    "body": "go"
                }}
            }}
        }}"#
    ))
}

fn human_thread_reply(event_id: &str, root: &str, body: &str) -> Json {
    j(&format!(
        r#"{{
            "type": "m.room.message",
            "event_id": "{event_id}",
            "sender": "@robb:x",
            "content": {{
                "msgtype": "m.text",
                "body": "{body}",
                "m.relates_to": {}
            }}
        }}"#,
        thread_relation(root, root).print()
    ))
}

#[test]
fn replay_rebuilds_task_root_and_thread_target() {
    let mut threads = ThreadState::default();
    let events = vec![agent_event("$root", None, "research_agent", Some("t"))];
    replay_thread_events(&mut threads, &personas(), &events);

    assert_eq!(threads.root_for_task("t").as_deref(), Some("$root"));
    assert_eq!(threads.target_for_thread("$root").as_deref(), Some("research_agent"));
    assert_eq!(threads.latest_in_thread("$root").as_deref(), Some("$root"));
}

#[test]
fn replay_after_restart_restores_untokened_reply_routing() {
    let mut threads = ThreadState::default();
    let events = vec![
        agent_event("$root", None, "research_agent", Some("t")),
        agent_event("$reply1", Some("$root"), "writer_agent", Some("t")),
        human_thread_reply("$reply2", "$root", "and one more thing"),
    ];
    replay_thread_events(&mut threads, &personas(), &events);

    assert_eq!(threads.target_for_thread("$root").as_deref(), Some("writer_agent"));
    assert_eq!(threads.latest_in_thread("$root").as_deref(), Some("$reply2"));
    assert_eq!(
        threads.root_for_task("t").as_deref(),
        Some("$root"),
        "the first root seen for a task_id must never be overwritten"
    );
}

#[test]
fn replay_skips_unsupported_versions_and_non_messages() {
    let mut threads = ThreadState::default();
    let unsupported = j(&format!(
        r#"{{
            "type": "m.room.message",
            "event_id": "$bad",
            "sender": "@evil:remote",
            "content": {{
                "body": "rendered",
                "{ENVELOPE_KEY}": {{
                    "v": 2,
                    "from": "writer_agent",
                    "to": "research_agent",
                    "type": "task",
                    "task_id": "t",
                    "body": "go"
                }}
            }}
        }}"#
    ));
    let reaction = j(
        r#"{
            "type": "m.reaction",
            "event_id": "$react",
            "sender": "@robb:x",
            "content": { "m.relates_to": { "rel_type": "m.annotation", "event_id": "$x" } }
        }"#,
    );
    replay_thread_events(&mut threads, &personas(), &[unsupported, reaction]);

    assert!(threads.root_for_task("t").is_none());
    assert!(threads.target_for_thread("$bad").is_none());
}

#[test]
fn replay_ignores_events_missing_an_event_id() {
    let mut threads = ThreadState::default();
    let malformed = j(
        r#"{
            "type": "m.room.message",
            "sender": "@robb:x",
            "content": { "body": "no event id here" }
        }"#,
    );
    replay_thread_events(&mut threads, &personas(), &[malformed]);
    assert!(threads.target_for_thread("$anything").is_none());
}

#[test]
fn thread_state_records_root_the_first_time_a_task_id_is_seen() {
    let mut threads = ThreadState::default();
    assert!(threads.root_for_task("source_check").is_none());
    threads.observe("$root", "$root", &thread_env("research_agent", Some("source_check")));
    assert_eq!(threads.root_for_task("source_check").as_deref(), Some("$root"));
}

#[test]
fn thread_state_never_overwrites_an_established_root() {
    let mut threads = ThreadState::default();
    threads.observe("$root", "$root", &thread_env("research_agent", Some("source_check")));
    threads.observe("$root", "$reply1", &thread_env("writer_agent", Some("source_check")));
    assert_eq!(threads.root_for_task("source_check").as_deref(), Some("$root"));
    threads.observe("$other", "$reply2", &thread_env("writer_agent", Some("source_check")));
    assert_eq!(threads.root_for_task("source_check").as_deref(), Some("$root"));
}

#[test]
fn thread_state_tracks_latest_event_in_thread() {
    let mut threads = ThreadState::default();
    threads.observe("$root", "$root", &thread_env("research_agent", Some("t")));
    assert_eq!(threads.latest_in_thread("$root").as_deref(), Some("$root"));
    threads.observe("$root", "$reply1", &thread_env("writer_agent", Some("t")));
    assert_eq!(threads.latest_in_thread("$root").as_deref(), Some("$reply1"));
}

#[test]
fn thread_state_tracks_last_addressed_persona_for_thread_replies() {
    let mut threads = ThreadState::default();
    threads.observe("$root", "$root", &thread_env("research_agent", Some("t")));
    assert_eq!(threads.target_for_thread("$root").as_deref(), Some("research_agent"));
    threads.observe("$root", "$reply1", &thread_env("writer_agent", Some("t")));
    assert_eq!(threads.target_for_thread("$root").as_deref(), Some("writer_agent"));
}

#[test]
fn thread_state_ignores_broadcast_and_matrix_user_targets() {
    let mut threads = ThreadState::default();
    threads.observe("$root", "$root", &thread_env("*", None));
    assert!(threads.target_for_thread("$root").is_none());
    threads.observe("$root", "$root", &thread_env("@robb:safehouse.local", None));
    assert!(threads.target_for_thread("$root").is_none());
}

#[test]
fn replay_in_two_parts_is_replay_of_the_whole() {
    let events = vec![
        agent_event("$root", None, "research_agent", Some("t")),
        agent_event("$reply1", Some("$root"), "writer_agent", Some("t")),
        human_thread_reply("$reply2", "$root", "and one more thing"),
    ];
    let mut parts = ThreadState::default();
    replay_thread_events(&mut parts, &personas(), &events[..1]);
    replay_thread_events(&mut parts, &personas(), &events[1..]);
    assert_eq!(parts.target_for_thread("$root").as_deref(), Some("writer_agent"));
    assert_eq!(parts.latest_in_thread("$root").as_deref(), Some("$reply2"));
    assert_eq!(parts.root_for_task("t").as_deref(), Some("$root"));
}

#[test]
fn the_parts_of_an_event_may_be_missing() {
    let event = human_thread_reply("$1", "$root", "hi");
    assert!(message(&event));
    assert_eq!(event_sender(&event), "@robb:x");
    assert_eq!(event_content(&event).get_str("body"), Some("hi"));
    let bare = j(r#"{"type":"m.reaction"}"#);
    assert!(!message(&bare));
    assert_eq!(event_sender(&bare), "");
    assert!(event_content(&bare).is_null());
}
