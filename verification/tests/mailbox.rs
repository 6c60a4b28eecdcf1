use safehouse::envelope::Envelope;
use safehouse::json::Json;
use safehouse::mailbox::{
    heartbeat, is_ephemeral_body, read_stored_envelope, store_envelope, Mailbox, MailboxEntry, MailboxRow,
};

fn env(from: &str, to: &str, body: &str) -> Envelope {
    Envelope {
        v: 1,
        from: from.to_owned(),
        to: to.to_owned(),
        kind: "chat".to_owned(),
        task_id: None,
        body: body.to_owned(),
        wake: None,
        meta: None,
        rest: Vec::new(),
    }
}

fn row(seq: u64, persona: &str, body: &str) -> MailboxRow {
    MailboxRow {
        seq,
        persona: persona.to_owned(),
        entry: MailboxEntry {
            room_id: "!room:x".to_owned(),
            event_id: format!("$event{seq}"),
            sender: "@robb:x".to_owned(),
            envelope: env("@robb:x", persona, body),
        },
    }
}

fn bodies(entries: &[MailboxEntry]) -> Vec<String> {
    entries.iter().map(|e| e.envelope.body.clone()).collect()
}

#[test]
fn check_returns_exactly_what_was_missed_oldest_first() {
    let mut mailbox = Mailbox::new();
    for i in 0..3 {
        mailbox
            .deliver(
                "writer_agent",
                "!room:x",
                &format!("$event{i}"),
                "@robb:x",
                &env("@robb:x", "writer_agent", &format!("msg {i}")),
            )
            .unwrap();
    }
    let unread = mailbox.check("writer_agent", true, None);
    assert_eq!(bodies(&unread), vec!["msg 0", "msg 1", "msg 2"]);
}

#[test]
fn second_immediate_check_returns_none() {
    let mut mailbox = Mailbox::new();
    mailbox
        .deliver("writer_agent", "!room:x", "$1", "@robb:x", &env("@robb:x", "writer_agent", "hi"))
        .unwrap();
    let first = mailbox.check("writer_agent", true, None);
    assert_eq!(first.len(), 1);
    let second = mailbox.check("writer_agent", true, None);
    assert!(second.is_empty(), "second immediate check must be empty");
}

#[test]
fn peek_does_not_advance_the_cursor() {
    let mut mailbox = Mailbox::new();
    mailbox
        .deliver("writer_agent", "!room:x", "$1", "@robb:x", &env("@robb:x", "writer_agent", "hi"))
        .unwrap();
    let peek1 = mailbox.check("writer_agent", false, None);
    let peek2 = mailbox.check("writer_agent", false, None);
    assert_eq!(peek1.len(), 1);
    assert_eq!(peek2.len(), 1, "a repeated peek must be idempotent");
    let real = mailbox.check("writer_agent", true, None);
    assert_eq!(real.len(), 1);
    let after = mailbox.check("writer_agent", true, None);
    assert!(after.is_empty());
}

#[test]
fn limit_caps_results_and_cursor_only_advances_past_what_was_returned() {
    let mut mailbox = Mailbox::new();
    for i in 0..5 {
        mailbox
            .deliver(
                "writer_agent",
                "!room:x",
                &format!("$event{i}"),
                "@robb:x",
                &env("@robb:x", "writer_agent", &format!("msg {i}")),
            )
            .unwrap();
    }
    let first = mailbox.check("writer_agent", true, Some(2));
    assert_eq!(first.len(), 2);
    assert_eq!(first[0].envelope.body, "msg 0");
    assert_eq!(first[1].envelope.body, "msg 1");

    let rest = mailbox.check("writer_agent", true, None);
    assert_eq!(bodies(&rest), vec!["msg 2", "msg 3", "msg 4"]);
}

#[test]
fn mailboxes_are_independent_per_persona() {
    let mut mailbox = Mailbox::new();
    mailbox
        .deliver(
            "writer_agent",
            "!room:x",
            "$1",
            "@robb:x",
            &env("@robb:x", "writer_agent", "for writer"),
        )
        .unwrap();
    mailbox
        .deliver(
            "research_agent",
            "!room:x",
            "$2",
            "@robb:x",
            &env("@robb:x", "research_agent", "for research"),
        )
        .unwrap();
    let writer = mailbox.check("writer_agent", true, None);
    assert_eq!(writer.len(), 1);
    assert_eq!(writer[0].envelope.body, "for writer");

    let research = mailbox.check("research_agent", true, None);
    assert_eq!(research.len(), 1);
    assert_eq!(research[0].envelope.body, "for research");
}

fn claim_env(issue: u32) -> Envelope {
    Envelope {
        v: 1,
        from: "loom_daemon".to_owned(),
        to: "*".to_owned(),
        kind: "task".to_owned(),
        task_id: Some(issue.to_string()),
        body: format!(
            r#"{{"loom_claim":1,"kind":"advertise","issue":{issue},"repo":"r","host":"h"}}"#
        ),
        wake: None,
        meta: None,
        rest: Vec::new(),
    }
}

#[test]
fn is_ephemeral_body_matches_only_the_marker_shape() {
    assert!(is_ephemeral_body(
        r#"{"loom_claim":1,"kind":"advertise","issue":5,"repo":"r","host":"h"}"#
    ));
    assert!(!is_ephemeral_body("hmm, the timeline looks off"));
    assert!(!is_ephemeral_body(r#"{"foo":"bar"}"#));
    assert!(!is_ephemeral_body("[1,2,3]"));
}

#[test]
fn ephemeral_loom_claim_broadcasts_are_never_persisted() {
    let mut mailbox = Mailbox::new();
    mailbox
        .deliver("loom_builder_1", "!room:x", "$claim1", "@loom:x", &claim_env(60))
        .unwrap();
    let unread = mailbox.check("loom_builder_1", true, None);
    assert!(
        unread.is_empty(),
        "a loom_claim heartbeat must never land in a persona's durable mailbox"
    );
}

#[test]
fn json_body_without_the_marker_is_persisted_normally() {
    let mut mailbox = Mailbox::new();
    mailbox
        .deliver(
            "writer_agent",
            "!room:x",
            "$1",
            "@robb:x",
            &env("@robb:x", "writer_agent", r#"{"foo":"bar"}"#),
        )
        .unwrap();
    let unread = mailbox.check("writer_agent", true, None);
    assert_eq!(
        unread.len(),
        1,
        "only the exact loom_claim marker shape is treated as ephemeral"
    );
}

#[test]
fn gc_drops_rows_already_covered_by_the_cursor() {
    let mut mailbox = Mailbox::new();
    for i in 0..3 {
        mailbox
            .deliver(
                "writer_agent",
                "!room:x",
                &format!("$event{i}"),
                "@robb:x",
                &env("@robb:x", "writer_agent", &format!("msg {i}")),
            )
            .unwrap();
    }
    mailbox.check("writer_agent", true, None);
    let delivery = mailbox
        .deliver(
            "writer_agent",
            "!room:x",
            "$event3",
            "@robb:x",
            &env("@robb:x", "writer_agent", "msg 3"),
        )
        .unwrap();
    assert_eq!(delivery.dropped.len(), 3);
    assert_eq!(
        mailbox.row_count("writer_agent"),
        1,
        "already-consumed rows are garbage-collected on the next delivery"
    );
    let unread = mailbox.check("writer_agent", true, None);
    assert_eq!(unread.len(), 1);
    assert_eq!(unread[0].envelope.body, "msg 3");
}

#[test]
fn bounded_retention_caps_an_unconsumed_backlog() {
    let mut mailbox = Mailbox::new();
    for i in 0..10 {
        mailbox
            .deliver(
                "loom_builder_1",
                "!room:x",
                &format!("$event{i}"),
                "@robb:x",
                &env("@robb:x", "loom_builder_1", &format!("msg {i}")),
            )
            .unwrap();
    }
    mailbox.gc_persona("loom_builder_1", 3);
    let remaining = mailbox.check("loom_builder_1", false, None);
    assert_eq!(
        bodies(&remaining),
        vec!["msg 7", "msg 8", "msg 9"],
        "the cap keeps only the most recent rows, dropping the oldest excess"
    );
}

#[test]
fn a_live_consumer_never_hits_the_retention_cap() {
    let mut mailbox = Mailbox::new();
    for round in 0..5 {
        mailbox
            .deliver(
                "writer_agent",
                "!room:x",
                &format!("$event{round}"),
                "@robb:x",
                &env("@robb:x", "writer_agent", &format!("msg {round}")),
            )
            .unwrap();
        let unread = mailbox.check("writer_agent", true, None);
        assert_eq!(unread.len(), 1);
        assert_eq!(unread[0].envelope.body, format!("msg {round}"));
    }
    let after = mailbox.check("writer_agent", true, None);
    assert!(after.is_empty());
}

#[test]
fn survives_a_restart_mid_gap() {
    // What was written through before the restart is what the mailbox is
    // restored from after it.
    let mut stored: Vec<(u64, String)> = Vec::new();
    {
        let mut mailbox = Mailbox::new();
        for i in 0..3 {
            let sent = env("@robb:x", "writer_agent", &format!("missed {i}"));
            let delivery =
                mailbox.deliver("writer_agent", "!room:x", &format!("$event{i}"), "@robb:x", &sent).unwrap();
            stored.push((delivery.stored.unwrap(), store_envelope(&sent)));
        }
    }
    let next = stored.last().unwrap().0 + 1;
    let rows: Vec<MailboxRow> = stored
        .iter()
        .map(|(seq, text)| {
            let mut row = row(*seq, "writer_agent", "");
            row.entry.envelope = read_stored_envelope(text).unwrap();
            row
        })
        .collect();
    let mut reopened = Mailbox::restore(rows, next).unwrap();
    let unread = reopened.check("writer_agent", true, None);
    assert_eq!(bodies(&unread), vec!["missed 0", "missed 1", "missed 2"]);

    let second = reopened.check("writer_agent", true, None);
    assert!(second.is_empty());
}

#[test]
fn a_restored_cursor_counts() {
    let rows: Vec<MailboxRow> = (1..=3).map(|i| row(i, "writer_agent", &format!("msg {i}"))).collect();
    let mut mailbox = Mailbox::restore(rows, 4).unwrap();
    mailbox.restore_cursor("writer_agent", 2);
    assert_eq!(mailbox.cursor("writer_agent"), 2);
    assert_eq!(bodies(&mailbox.check("writer_agent", true, None)), vec!["msg 3"]);
    assert_eq!(mailbox.cursor("writer_agent"), 3);
    assert_eq!(mailbox.cursor("research_agent"), 0);
}

#[test]
fn a_cursor_ahead_of_the_rows_is_taken() {
    let mut mailbox = Mailbox::restore(vec![row(1, "a", "x")], 2).unwrap();
    mailbox.restore_cursor("a", 2);
    assert_eq!(mailbox.cursor("a"), 2);
    assert!(mailbox.check("a", false, None).is_empty());
    mailbox.deliver("a", "!r:x", "$2", "@s:x", &env("@s:x", "a", "second")).unwrap();
    assert!(mailbox.check("a", false, None).is_empty(), "its number counts as read");
    mailbox.deliver("a", "!r:x", "$3", "@s:x", &env("@s:x", "a", "third")).unwrap();
    assert_eq!(bodies(&mailbox.check("a", true, None)), vec!["third"]);
}

#[test]
fn rows_out_of_order_are_not_restored() {
    assert!(Mailbox::restore(vec![row(2, "a", "x"), row(1, "a", "y")], 3).is_none());
    assert!(Mailbox::restore(vec![row(5, "a", "x")], 5).is_none());
    assert!(Mailbox::restore(vec![row(5, "a", "x")], 6).is_some());
}

#[test]
fn a_full_mailbox_says_so() {
    assert!(Mailbox::restore(Vec::new(), u64::MAX).is_none());
    let mut mailbox = Mailbox::restore(Vec::new(), 9_223_372_036_854_775_808).unwrap();
    assert!(mailbox.deliver("a", "!r:x", "$1", "@s:x", &env("@s:x", "a", "hi")).is_err());
    assert_eq!(mailbox.row_count("a"), 0);
}

#[test]
fn a_sweep_tells_what_it_dropped() {
    let rows: Vec<MailboxRow> = (1..=4).map(|i| row(i, "a", &format!("msg {i}"))).collect();
    let mut mailbox = Mailbox::restore(rows, 5).unwrap();
    assert_eq!(mailbox.gc_persona("a", 3), vec![1]);
    assert_eq!(mailbox.gc_persona("a", 3), Vec::<u64>::new());
    assert_eq!(mailbox.gc_persona("b", 0), Vec::<u64>::new());
    assert_eq!(mailbox.row_count("a"), 3);
}

#[test]
fn a_limit_of_none_hands_out_nothing() {
    let mut mailbox = Mailbox::restore(vec![row(1, "a", "x")], 2).unwrap();
    assert!(mailbox.check("a", true, Some(0)).is_empty());
    assert_eq!(mailbox.check("a", true, None).len(), 1);
}

#[test]
fn the_marker_is_what_makes_a_heartbeat() {
    assert!(heartbeat(&Json::parse(r#"{"loom_claim":null}"#).unwrap()));
    assert!(!heartbeat(&Json::parse(r#"["loom_claim"]"#).unwrap()));
    assert!(!heartbeat(&Json::parse(r#""loom_claim""#).unwrap()));
}

#[test]
fn a_stored_envelope_is_read_back() {
    let mut sent = env("writer_agent", "*", "line one\nline \"two\" → ✓ \u{1}");
    sent.kind = "completion".to_owned();
    sent.task_id = Some("t1".to_owned());
    sent.wake = Some(true);
    sent.meta = Some(Json::parse(r#"{"a":[1,-9223372036854775808,{"b":null}],"c":18446744073709551615}"#).unwrap());
    let stored = store_envelope(&sent);
    let back = read_stored_envelope(&stored).unwrap();
    assert_eq!(back.body, sent.body);
    assert_eq!(back.task_id, sent.task_id);
    assert_eq!(back.wake, Some(true));
    assert_eq!(store_envelope(&back), stored);
    assert!(read_stored_envelope("not json").is_none());
    assert!(read_stored_envelope("{}").is_none());
}

#[test]
fn a_stored_envelope_with_fractions_is_read() {
    for number in ["1.5", "-0.0", "1e16", "1.5e-7", "5e-324", "9.5e307"] {
        let mut sent = env("writer_agent", "*", "done");
        sent.task_id = Some("t1".to_owned());
        sent.meta = Some(Json::parse(&format!(r#"{{"a":[{number},2],"b":"x"}}"#)).unwrap());
        let back = read_stored_envelope(&store_envelope(&sent)).unwrap();
        assert_eq!(back.body, "done");
        assert_eq!(back.task_id, sent.task_id);
        let meta = back.meta.unwrap();
        assert_eq!(meta.get_str("b"), Some("x"));
        let list = meta.get("a").unwrap().as_array().unwrap();
        assert!(matches!(list[0], Json::Number(_)), "{number}");
        assert_eq!(list[0].as_u64(), None, "{number}");
        assert_eq!(list[1].as_u64(), Some(2));
    }
}

#[test]
fn what_an_envelope_passes_on_is_stored_with_it() {
    let mut sent = env("writer_agent", "*", "done");
    sent.rest = vec![("in_reply_to".to_owned(), Json::text("t0")), ("x".to_owned(), Json::unsigned(7))];
    let back = read_stored_envelope(&store_envelope(&sent)).unwrap();
    assert_eq!(store_envelope(&back), store_envelope(&sent));
    assert_eq!(back.rest.len(), 2);
}

#[test]
fn a_value_nested_as_deep_as_may_be_is_read_back() {
    let deep = format!("{}{}", "[".repeat(127), "]".repeat(127));
    assert_eq!(Json::parse(&deep).unwrap().print(), deep);
    assert!(Json::parse(&format!("[{deep}]")).is_err());
}
