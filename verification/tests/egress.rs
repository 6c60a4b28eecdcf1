use std::path::PathBuf;

use safehouse::egress::{
    edit_target, is_allowlisted, retry_backoff_secs, sink_outcome, validate_egress_config, Attempt, Egress,
    EgressConfig, PendingRow, PublishedRecord, Sink, SinkOutcome, SinkResponse, MAX_PUBLISH_ATTEMPTS,
};
use safehouse::envelope::Envelope;
use safehouse::json::Json;
use safehouse::redaction::redact;

fn j(text: &str) -> Json {
    Json::parse(text).unwrap()
}

fn completion_meta() -> Json {
    j(r#"{
        "schema": "completion-v1",
        "agent": "writer_agent",
        "repo": "rjwalters/safehouse",
        "ref": "https://github.com/rjwalters/safehouse/pull/99",
        "result": "success",
        "started_at": "2026-07-29T10:00:00Z",
        "completed_at": "2026-07-29T10:05:00Z"
    }"#)
}

/// The meta with one field set to a text, or taken out.
fn with_field(name: &str, value: Option<&str>) -> Json {
    match completion_meta() {
        Json::Object(fields) => {
            let mut kept: Vec<(String, Json)> = fields.into_iter().filter(|(n, _)| n != name).collect();
            if let Some(value) = value {
                kept.push((name.to_owned(), Json::Text(value.to_owned())));
            }
            Json::Object(kept)
        }
        other => panic!("expected an object, got {other:?}"),
    }
}

fn env(kind: &str, meta: Option<Json>) -> Envelope {
    Envelope {
        v: 1,
        from: "writer_agent".to_owned(),
        to: "*".to_owned(),
        kind: kind.to_owned(),
        task_id: None,
        body: "done".to_owned(),
        wake: None,
        meta,
        rest: Vec::new(),
    }
}

fn config(rooms: &[&str], deny: &[&str], delay_seconds: u64, sink: PathBuf) -> EgressConfig {
    EgressConfig {
        rooms: rooms.iter().map(|s| (*s).to_owned()).collect(),
        deny_patterns: deny.iter().map(|s| (*s).to_owned()).collect(),
        delay_seconds,
        sink_path: Some(sink),
        sink_url: None,
    }
}

fn http_config(rooms: &[&str], deny: &[&str], delay_seconds: u64, url: String) -> EgressConfig {
    EgressConfig {
        rooms: rooms.iter().map(|s| (*s).to_owned()).collect(),
        deny_patterns: deny.iter().map(|s| (*s).to_owned()).collect(),
        delay_seconds,
        sink_path: None,
        sink_url: Some(url),
    }
}

fn sink_path() -> PathBuf {
    PathBuf::from("/tmp/sink.jsonl")
}

fn open(rooms: &[&str], deny: &[&str]) -> Egress {
    Egress::open(config(rooms, deny, 0, sink_path())).unwrap()
}

/// One poll at `now`: every due row is handed to a sink that gives `response`.
/// Returns what was published and what the sink was handed.
fn poll(egress: &mut Egress, now: i64, response: SinkResponse) -> (Vec<PublishedRecord>, Vec<String>) {
    let due = egress.due(now);
    let posts = due.iter().map(|row| row.record.to_json().print()).collect();
    let attempts: Vec<Attempt> = due
        .iter()
        .map(|row| Attempt { id: row.id, outcome: sink_outcome(response) })
        .collect();
    (egress.publish_due(now, &attempts), posts)
}

#[test]
fn is_allowlisted_accepts_well_formed_completion() {
    assert!(is_allowlisted(&env("completion", Some(completion_meta()))));
}

#[test]
fn is_allowlisted_rejects_completion_with_no_meta() {
    assert!(!is_allowlisted(&env("completion", None)));
}

#[test]
fn is_allowlisted_rejects_completion_with_malformed_meta() {
    let meta = with_field("schema", Some("something-else"));
    assert!(!is_allowlisted(&env("completion", Some(meta))));

    let missing = with_field("repo", None);
    assert!(!is_allowlisted(&env("completion", Some(missing))));

    let bad_ts = with_field("started_at", Some("last tuesday"));
    assert!(!is_allowlisted(&env("completion", Some(bad_ts))));
}

#[test]
fn is_allowlisted_rejects_every_non_completion_type() {
    for kind in ["chat", "task", "handoff", "ack"] {
        assert!(
            !is_allowlisted(&env(kind, Some(completion_meta()))),
            "type {kind:?} must never be allowlisted"
        );
        assert!(!is_allowlisted(&env(kind, None)));
    }
}

#[test]
fn config_guard_rejects_rooms_without_deny_patterns() {
    let cfg = config(&["!room:x"], &[], 0, PathBuf::from("/tmp/sink.jsonl"));
    assert!(validate_egress_config(&cfg).is_err());
}

#[test]
fn config_guard_accepts_rooms_with_deny_patterns() {
    let cfg = config(&["!room:x"], &["secret"], 0, PathBuf::from("/tmp/sink.jsonl"));
    assert!(validate_egress_config(&cfg).is_ok());
}

#[test]
fn config_guard_accepts_empty_rooms_even_without_deny_patterns() {
    let cfg = config(&[], &[], 0, PathBuf::from("/tmp/sink.jsonl"));
    assert!(validate_egress_config(&cfg).is_ok());
}

#[test]
fn config_guard_rejects_no_sink_configured() {
    let cfg = EgressConfig {
        rooms: vec![],
        deny_patterns: vec![],
        delay_seconds: 0,
        sink_path: None,
        sink_url: None,
    };
    assert!(validate_egress_config(&cfg).is_err());
}

#[test]
fn config_guard_accepts_sink_url_alone() {
    let cfg = http_config(&[], &[], 0, "https://example.com/feed".to_owned());
    assert!(validate_egress_config(&cfg).is_ok());
}

#[test]
fn edit_target_extracts_replace_relation() {
    let content = j(
        r#"{
            "body": "* edited",
            "m.relates_to": { "rel_type": "m.replace", "event_id": "$orig" }
        }"#,
    );
    assert_eq!(edit_target(&content).as_deref(), Some("$orig"));
}

#[test]
fn edit_target_ignores_non_replace_relations() {
    let thread = j(r#"{ "m.relates_to": { "rel_type": "m.thread", "event_id": "$root" } }"#);
    assert!(edit_target(&thread).is_none());
    assert!(edit_target(&j(r#"{ "body": "no relation" }"#)).is_none());
}

#[test]
fn consider_ignores_rooms_not_in_the_allowlist() {
    let mut egress = open(&["!allowed:x"], &["secret"]);
    let seen = egress
        .consider("!other:x", "$1", &env("completion", Some(completion_meta())), 1_000)
        .unwrap();
    assert!(!seen.queued, "a room outside the allowlist must never queue");
}

#[test]
fn consider_ignores_non_feed_eligible_envelopes() {
    let mut egress = open(&["!r:x"], &["secret"]);
    assert!(!egress.consider("!r:x", "$1", &env("chat", None), 1_000).unwrap().queued);
    assert!(!egress.consider("!r:x", "$2", &env("completion", None), 1_000).unwrap().queued);
}

#[test]
fn publish_only_after_delay_elapses() {
    let mut egress = open(&["!r:x"], &["nothing"]);
    let payload = redact(&completion_meta(), &["nothing".to_owned()]);
    egress.enqueue("!r:x", "$1", 1_000, payload).unwrap();

    let (early, written) = poll(&mut egress, 999, SinkResponse::FileWritten);
    assert!(early.is_empty(), "must not publish before publish_after");
    assert!(written.is_empty(), "sink must not be written before the delay");

    let (due, written) = poll(&mut egress, 1_000, SinkResponse::FileWritten);
    assert_eq!(due.len(), 1);
    assert_eq!(due[0].event_id, "$1");
    assert_eq!(written.len(), 1);
    let line = j(&written[0]);
    assert_eq!(line.get_str("room_id"), Some("!r:x"));
    assert_eq!(line.get_str("event_id"), Some("$1"));
    assert_eq!(line.get("payload").unwrap().get_str("schema"), Some("completion-v1"));

    let (again, written) = poll(&mut egress, 2_000, SinkResponse::FileWritten);
    assert!(again.is_empty(), "a published row must never re-emit");
    assert!(written.is_empty());
}

#[test]
fn retraction_inside_the_window_suppresses_publish() {
    let mut egress = open(&["!r:x"], &["nothing"]);
    egress.enqueue("!r:x", "$src", 1_000, completion_meta()).unwrap();
    assert!(egress.retract("!r:x", "$src").is_some());
    let (due, written) = poll(&mut egress, 5_000, SinkResponse::FileWritten);
    assert!(due.is_empty(), "a retracted completion must never publish");
    assert!(written.is_empty(), "the sink must stay empty for a retraction");
}

#[test]
fn retraction_of_unrelated_event_does_not_suppress() {
    let mut egress = open(&["!r:x"], &["nothing"]);
    egress.enqueue("!r:x", "$src", 1_000, completion_meta()).unwrap();
    assert!(egress.retract("!r:x", "$unrelated").is_none());
    let (due, _) = poll(&mut egress, 5_000, SinkResponse::FileWritten);
    assert_eq!(due.len(), 1, "unrelated retraction must not suppress");
}

#[test]
fn consider_redacts_before_queuing() {
    let mut egress = open(&["!r:x"], &["rjwalters"]);
    assert!(egress
        .consider("!r:x", "$1", &env("completion", Some(completion_meta())), 1_000)
        .unwrap()
        .queued);
    let (due, _) = poll(&mut egress, 1_010, SinkResponse::FileWritten);
    assert_eq!(due.len(), 1);
    assert_eq!(due[0].payload.get_str("repo"), Some("[REDACTED]/safehouse"));
    assert!(!due[0].payload.get_str("ref").unwrap().contains("rjwalters"));
}

fn pending(id: u64, event_id: &str, attempts: i64) -> PendingRow {
    PendingRow {
        id,
        room_id: "!r:x".to_owned(),
        event_id: event_id.to_owned(),
        publish_after: 1_000,
        payload: completion_meta(),
        retracted: false,
        published: false,
        failed: false,
        attempts,
    }
}

#[test]
fn buffer_is_durable_across_reopen() {
    let mut egress = open(&["!r:x"], &["nothing"]);
    let payload = redact(&completion_meta(), &["nothing".to_owned()]);
    let id = egress.enqueue("!r:x", "$1", 1_000, payload).unwrap().unwrap();
    let row = egress.row(id).unwrap();
    let stored = PendingRow {
        id: row.id,
        room_id: row.room_id.clone(),
        event_id: row.event_id.clone(),
        publish_after: row.publish_after,
        payload: Json::parse(&row.payload.print()).unwrap(),
        retracted: row.retracted,
        published: row.published,
        failed: row.failed,
        attempts: row.attempts,
    };
    let mut reopened = open(&["!r:x"], &["nothing"]);
    assert!(reopened.restore(vec![stored], id + 1));
    let (due, _) = poll(&mut reopened, 2_000, SinkResponse::FileWritten);
    assert_eq!(due.len(), 1, "a buffered row must survive a restart");
}

#[test]
fn duplicate_enqueue_is_ignored() {
    let mut egress = open(&["!r:x"], &["nothing"]);
    assert!(egress.enqueue("!r:x", "$1", 1_000, completion_meta()).unwrap().is_some());
    assert!(egress.enqueue("!r:x", "$1", 1_000, completion_meta()).unwrap().is_none());
    let (due, _) = poll(&mut egress, 2_000, SinkResponse::FileWritten);
    assert_eq!(due.len(), 1, "the same source event must queue at most once");
}

fn open_http() -> Egress {
    Egress::open(http_config(&["!r:x"], &["nothing"], 0, "http://127.0.0.1:1".to_owned())).unwrap()
}

#[test]
fn http_sink_posts_expected_payload_only_after_delay() {
    let mut egress = open_http();
    egress.enqueue("!r:x", "$1", 1_000, completion_meta()).unwrap();

    let (early, posts) = poll(&mut egress, 999, SinkResponse::Status(200));
    assert!(early.is_empty());
    assert!(posts.is_empty(), "must not POST early");

    let (due, posts) = poll(&mut egress, 1_000, SinkResponse::Status(200));
    assert_eq!(due.len(), 1);
    assert_eq!(posts.len(), 1);
    let body = j(&posts[0]);
    assert_eq!(body.get_str("room_id"), Some("!r:x"));
    assert_eq!(body.get_str("event_id"), Some("$1"));
    assert_eq!(body.get("payload").unwrap().get_str("schema"), Some("completion-v1"));
}

#[test]
fn http_sink_5xx_triggers_bounded_retry_then_succeeds() {
    let mut egress = open_http();
    egress.enqueue("!r:x", "$1", 1_000, completion_meta()).unwrap();
    let mut made = 0;

    let (due, posts) = poll(&mut egress, 1_000, SinkResponse::Status(500));
    made += posts.len();
    assert!(due.is_empty());
    let (due, posts) = poll(&mut egress, 1_000_000, SinkResponse::Status(500));
    made += posts.len();
    assert!(due.is_empty(), "attempt 2 (still 500) must not publish");
    let (due, posts) = poll(&mut egress, 2_000_000, SinkResponse::Status(200));
    made += posts.len();
    assert_eq!(due.len(), 1, "attempt 3 (200) must publish");
    assert_eq!(made, 3, "exactly 3 POSTs total");
}

#[test]
fn http_sink_4xx_does_not_retry() {
    let mut egress = open_http();
    egress.enqueue("!r:x", "$1", 1_000, completion_meta()).unwrap();

    let (due, posts) = poll(&mut egress, 1_000, SinkResponse::Status(400));
    assert!(due.is_empty(), "a 4xx must not count as published");
    assert_eq!(posts.len(), 1, "exactly one attempt made");

    let (due, posts) = poll(&mut egress, 1_000_000, SinkResponse::Status(400));
    assert!(due.is_empty());
    assert!(posts.is_empty(), "a 4xx row must never be retried, even much later");
}

#[test]
fn http_sink_gives_up_after_max_attempts_on_repeated_5xx() {
    let mut egress = open_http();
    egress.enqueue("!r:x", "$1", 1_000, completion_meta()).unwrap();

    let mut now = 1_000i64;
    let mut made = 0;
    for _ in 0..MAX_PUBLISH_ATTEMPTS {
        let (due, posts) = poll(&mut egress, now, SinkResponse::Status(500));
        made += posts.len() as i64;
        assert!(due.is_empty());
        now += 1_000_000;
    }
    assert_eq!(made, MAX_PUBLISH_ATTEMPTS, "must stop at the attempt cap");

    let (due, posts) = poll(&mut egress, now, SinkResponse::Status(500));
    assert!(due.is_empty());
    assert!(posts.is_empty(), "a failed row must never be retried again");
}

#[test]
fn http_sink_unreachable_does_not_hang_or_crash() {
    let mut egress = open_http();
    egress.enqueue("!r:x", "$1", 1_000, completion_meta()).unwrap();
    let (due, _) = poll(&mut egress, 1_000, SinkResponse::TransportError);
    assert!(due.is_empty(), "an unreachable sink must not count as published");
}

#[test]
fn http_sink_failure_does_not_block_consider_on_other_rooms() {
    let mut egress = open_http();
    egress.enqueue("!r:x", "$stuck", 1_000, completion_meta()).unwrap();
    poll(&mut egress, 1_000, SinkResponse::Status(500));
    let seen = egress
        .consider("!r:x", "$new", &env("completion", Some(completion_meta())), 1_000)
        .unwrap();
    assert!(seen.queued);
}

#[test]
fn the_delay_before_a_retry_doubles() {
    assert_eq!(retry_backoff_secs(1), 2);
    assert_eq!(retry_backoff_secs(4), 16);
    assert_eq!(retry_backoff_secs(0), 2);
    assert_eq!(retry_backoff_secs(-7), 2);
    assert_eq!(retry_backoff_secs(i64::MAX), 60);
}

#[test]
fn a_retry_waits_for_its_delay() {
    let mut egress = open_http();
    let id = egress.enqueue("!r:x", "$1", 1_000, completion_meta()).unwrap().unwrap();
    assert!(egress.record_outcome(id, SinkOutcome::Retryable, 1_000).is_none());
    let row = egress.row(id).unwrap();
    assert_eq!(row.attempts, 1);
    assert_eq!(row.publish_after, 1_002);
    assert!(egress.due(1_001).is_empty());
    assert_eq!(egress.due(1_002).len(), 1);
}

#[test]
fn each_response_of_the_sink_has_its_meaning() {
    assert_eq!(sink_outcome(SinkResponse::FileWritten), SinkOutcome::Published);
    assert_eq!(sink_outcome(SinkResponse::FileError), SinkOutcome::Terminal);
    assert_eq!(sink_outcome(SinkResponse::Status(204)), SinkOutcome::Published);
    assert_eq!(sink_outcome(SinkResponse::Status(404)), SinkOutcome::Terminal);
    assert_eq!(sink_outcome(SinkResponse::Status(503)), SinkOutcome::Retryable);
    assert_eq!(sink_outcome(SinkResponse::TransportError), SinkOutcome::Retryable);
}

#[test]
fn a_row_that_was_settled_stays_settled() {
    let mut egress = open_http();
    let id = egress.enqueue("!r:x", "$1", 1_000, completion_meta()).unwrap().unwrap();
    assert!(egress.record_outcome(id, SinkOutcome::Published, 1_000).is_some());
    assert!(egress.record_outcome(id, SinkOutcome::Published, 1_000).is_none());
    assert!(egress.record_outcome(id, SinkOutcome::Terminal, 1_000).is_none());
    assert!(!egress.row(id).unwrap().failed);
    assert!(egress.record_outcome(99, SinkOutcome::Published, 1_000).is_none());
}

#[test]
fn the_delay_is_counted_from_when_a_completion_was_seen() {
    let mut egress = Egress::open(config(&["!r:x"], &["nothing"], 30, sink_path())).unwrap();
    let seen = egress
        .consider("!r:x", "$1", &env("completion", Some(completion_meta())), 1_000)
        .unwrap();
    assert_eq!(egress.row(seen.inserted.unwrap()).unwrap().publish_after, 1_030);
}

#[test]
fn the_buffer_takes_back_only_rows_that_fit() {
    assert!(!open(&["!r:x"], &["n"]).restore(vec![pending(2, "$1", 0), pending(1, "$2", 0)], 3));
    assert!(!open(&["!r:x"], &["n"]).restore(vec![pending(1, "$1", 0), pending(2, "$1", 0)], 3));
    assert!(!open(&["!r:x"], &["n"]).restore(vec![pending(3, "$1", 0)], 3));
}

#[test]
fn a_full_buffer_says_so() {
    let mut egress = open(&["!r:x"], &["nothing"]);
    assert!(egress.restore(Vec::new(), 9_223_372_036_854_775_808));
    assert!(egress.enqueue("!r:x", "$1", 1_000, completion_meta()).is_err());
    assert!(egress
        .consider("!r:x", "$1", &env("completion", Some(completion_meta())), 1_000)
        .is_err());
}

#[test]
fn a_url_goes_before_a_path() {
    let mut both = config(&[], &[], 0, sink_path());
    both.sink_url = Some("https://example.com/feed".to_owned());
    match Egress::open(both).unwrap().sink() {
        Sink::Http(url) => assert_eq!(url, "https://example.com/feed"),
        other => panic!("expected the URL, got {other:?}"),
    }
    match open(&[], &[]).sink() {
        Sink::File(path) => assert_eq!(path, &sink_path()),
        other => panic!("expected the file, got {other:?}"),
    }
}

#[test]
fn an_unsound_config_is_not_opened() {
    assert!(Egress::open(config(&["!r:x"], &[], 0, sink_path())).is_err());
}

#[test]
fn only_listed_rooms_feed() {
    let egress = open(&["!r:x"], &["nothing"]);
    assert!(egress.is_egress_room("!r:x"));
    assert!(!egress.is_egress_room("!other:x"));
}

#[test]
fn over_all_that_happens_an_event_is_published_once() {
    let mut egress = open(&["!r:x"], &["nothing"]);
    let mut published: Vec<String> = Vec::new();
    for round in 0..4 {
        for event in ["$1", "$2", "$3"] {
            egress.enqueue("!r:x", event, 1_000, completion_meta()).unwrap();
        }
        if round == 0 {
            assert_eq!(egress.retract("!r:x", "$2"), Some(2));
        }
        let response = if round == 0 { SinkResponse::Status(503) } else { SinkResponse::Status(200) };
        let (records, _) = poll(&mut egress, 2_000 + 100 * round, response);
        published.extend(records.into_iter().map(|r| r.event_id));
    }
    assert_eq!(published, vec!["$1", "$3"]);
    assert_eq!(egress.retract("!r:x", "$1"), None, "what is published is not taken back");
}

#[test]
fn a_stored_row_out_of_tries_is_tried_once_more() {
    for attempts in [MAX_PUBLISH_ATTEMPTS, 100, i64::MAX] {
        let mut egress = open(&["!r:x"], &["n"]);
        assert!(egress.restore(vec![pending(1, "$1", attempts)], 2));
        let (records, posts) = poll(&mut egress, 2_000, SinkResponse::Status(503));
        assert!(records.is_empty());
        assert_eq!(posts.len(), 1);
        assert!(egress.row(1).unwrap().failed);
        assert!(egress.due(5_000).is_empty());

        let mut egress = open(&["!r:x"], &["n"]);
        assert!(egress.restore(vec![pending(1, "$1", attempts)], 2));
        assert_eq!(poll(&mut egress, 2_000, SinkResponse::Status(200)).0.len(), 1);
    }
}

#[test]
fn a_stored_count_of_tries_below_zero_is_counted_on() {
    let mut egress = open(&["!r:x"], &["n"]);
    assert!(egress.restore(vec![pending(1, "$1", -1)], 2));
    poll(&mut egress, 2_000, SinkResponse::Status(503));
    let row = egress.row(1).unwrap();
    assert_eq!((row.attempts, row.publish_after, row.failed), (0, 2_002, false));
}

#[test]
fn egress_rooms_without_deny_patterns_is_a_boot_error() {
    let egress = config(&["!feed:example"], &[], 0, PathBuf::from("/tmp/feed.jsonl"));
    assert!(validate_egress_config(&egress).is_err());
}

#[test]
fn egress_block_without_any_sink_is_a_boot_error() {
    let mut egress = config(&["!feed:example"], &["secret"], 0, PathBuf::from("/tmp/feed.jsonl"));
    egress.sink_path = None;
    assert!(validate_egress_config(&egress).is_err());
}
