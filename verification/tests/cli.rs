use safehouse::cli::{
    build_check_op, build_cli_op, build_list_rooms_op, build_read_op, build_send_op, build_status_op,
    flag_u64, flag_value, parse_u64, read_command_line, Invocation,
};
use safehouse::json::Json;

fn args(v: &[&str]) -> Vec<String> {
    v.iter().map(|s| s.to_string()).collect()
}

fn same(op: &Json, text: &str) {
    assert_eq!(op.print(), Json::parse(text).unwrap().print());
}

#[test]
fn unrecognized_subcommand_falls_through() {
    assert!(build_cli_op("not-a-subcommand", &[]).unwrap().is_none());
    assert!(build_cli_op("--help", &[]).unwrap().is_none());
}

#[test]
fn read_defaults_to_no_room_or_limit() {
    let op = build_read_op(&[]).unwrap();
    same(&op, r#"{"op": "read"}"#);
}

#[test]
fn read_parses_room_and_limit() {
    let op = build_read_op(&args(&["--room", "fleet-ops", "--limit", "5"])).unwrap();
    same(&op, r#"{"op": "read", "room": "fleet-ops", "limit": 5}"#);
}

#[test]
fn read_rejects_unknown_flag() {
    assert!(build_read_op(&args(&["--bogus"])).is_err());
}

#[test]
fn read_rejects_non_numeric_limit() {
    assert!(build_read_op(&args(&["--limit", "not-a-number"])).is_err());
}

#[test]
fn send_requires_to_and_body() {
    assert!(build_send_op(&[]).is_err());
    assert!(build_send_op(&args(&["--to", "research_agent"])).is_err());
    assert!(build_send_op(&args(&["--body", "hi"])).is_err());
}

#[test]
fn send_builds_full_op() {
    let op = build_send_op(&args(&[
        "--to",
        "research_agent",
        "--body",
        "status?",
        "--type",
        "task",
        "--task-id",
        "abc123",
        "--room",
        "fleet-ops",
        "--wake",
    ]))
    .unwrap();
    same(
        &op,
        r#"{
            "op": "send",
            "to": "research_agent",
            "body": "status?",
            "type": "task",
            "task_id": "abc123",
            "room": "fleet-ops",
            "wake": true
        }"#,
    );
}

#[test]
fn send_rejects_unknown_message_type() {
    let err = build_send_op(&args(&[
        "--to",
        "x",
        "--body",
        "hi",
        "--type",
        "not-a-real-type",
    ]))
    .unwrap_err();
    assert!(err.contains("--type"));
}

#[test]
fn check_defaults_to_peek_true() {
    let op = build_check_op(&[]).unwrap();
    same(&op, r#"{"op": "check", "peek": true}"#);
}

#[test]
fn check_consume_flips_peek_false() {
    let op = build_check_op(&args(&["--consume"])).unwrap();
    same(&op, r#"{"op": "check", "peek": false}"#);
}

#[test]
fn check_explicit_peek_flag_stays_peek_true() {
    let op = build_check_op(&args(&["--peek"])).unwrap();
    same(&op, r#"{"op": "check", "peek": true}"#);
}

#[test]
fn check_parses_limit() {
    let op = build_check_op(&args(&["--limit", "10"])).unwrap();
    same(&op, r#"{"op": "check", "peek": true, "limit": 10}"#);
}

#[test]
fn list_rooms_takes_no_arguments() {
    same(&build_list_rooms_op(&[]).unwrap(), r#"{"op": "list_rooms"}"#);
    assert!(build_list_rooms_op(&args(&["--room", "x"])).is_err());
}

#[test]
fn status_takes_no_arguments() {
    same(&build_status_op(&[]).unwrap(), r#"{"op": "status"}"#);
    assert!(build_status_op(&args(&["--bogus"])).is_err());
}

#[test]
fn build_cli_op_dispatches_by_subcommand() {
    same(&build_cli_op("list-rooms", &[]).unwrap().unwrap(), r#"{"op": "list_rooms"}"#);
    same(
        &build_cli_op("read", &args(&["--room", "x"])).unwrap().unwrap(),
        r#"{"op": "read", "room": "x"}"#,
    );
    same(&build_cli_op("status", &[]).unwrap().unwrap(), r#"{"op": "status"}"#);
}

#[test]
fn numbers_are_read_as_the_language_reads_them() {
    for s in [
        "0",
        "7",
        "+7",
        "007",
        "18446744073709551615",
        "18446744073709551616",
        "99999999999999999999999",
        "",
        "+",
        "-1",
        " 1",
        "1 ",
        "1_0",
        "0x1",
        "٣",
    ] {
        assert_eq!(parse_u64(s), s.parse::<u64>().ok(), "{s:?}");
    }
}

#[test]
fn a_flag_takes_what_stands_behind_it() {
    let list = args(&["--room", "x", "--limit"]);
    let mut i: usize = 0;
    assert_eq!(flag_value(&list, &mut i, "--room").unwrap(), "x");
    assert_eq!(i, 2);
    assert!(flag_value(&list, &mut i, "--limit").unwrap_err().contains("--limit"));
    i = 0;
    assert!(flag_u64(&list, &mut i, "--limit").unwrap_err().contains("\"x\""));
    assert_eq!(i, 2, "a value that is no number is passed over");
    assert!(flag_u64(&list, &mut i, "--limit").unwrap_err().contains("requires a value"));
    assert_eq!(i, 2);
}

#[test]
fn each_command_line_has_its_reading() {
    assert!(matches!(read_command_line(&[]), Invocation::Serve));
    assert!(matches!(read_command_line(&args(&["--help"])), Invocation::Help));
    assert!(matches!(read_command_line(&args(&["--version"])), Invocation::Version));
    assert!(matches!(read_command_line(&args(&["check"])), Invocation::Run { .. }));
    assert!(matches!(read_command_line(&args(&["check", "--bogus"])), Invocation::Fail(_)));
    assert!(matches!(read_command_line(&args(&["bogus"])), Invocation::UnknownSubcommand(_)));
}
