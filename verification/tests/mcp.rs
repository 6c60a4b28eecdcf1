use safehouse::json::Json;
use safehouse::mcp::{
    build_tool_op, check_hello, finish_call, hello_request, number_request, read_daemon_line, reply_ok, serve_frame,
    serve_line, sort_daemon_value, tool_definitions, tool_result_json, DaemonLine, FrameStep,
};

fn j(text: &str) -> Json {
    Json::parse(text).unwrap()
}

fn reply(line: &str) -> Json {
    match serve_line(line, "1.2.3") {
        FrameStep::Reply(frame) => frame,
        other => panic!("expected a frame, got {other:?}"),
    }
}

#[test]
fn every_listed_tool_is_served_with_its_arguments() {
    let tools = tool_definitions();
    let tools = tools.as_array().unwrap();
    assert_eq!(tools.len(), 6);
    for tool in tools {
        let name = tool.get_str("name").unwrap();
        let schema = tool.get("inputSchema").unwrap();
        let arguments: Vec<String> = match schema.get("properties").unwrap() {
            Json::Object(fields) => fields.iter().map(|(n, _)| n.clone()).collect(),
            other => panic!("expected an object, got {other:?}"),
        };
        let given: Vec<String> = arguments.iter().map(|a| format!("{a:?}:1")).collect();
        let msg = j(&format!(
            r#"{{"params":{{"name":{name:?},"arguments":{{{}}}}}}}"#,
            given.join(",")
        ));
        let op = build_tool_op(&msg).unwrap();
        for a in &arguments {
            assert_eq!(op.get_u64(a), Some(1), "{name} hands on {a}");
        }
    }
}

#[test]
fn a_tool_call_becomes_a_request() {
    let msg = j(
        r#"{"params":{"name":"safehouse_send","arguments":{"to":"a","body":"b","room":null,"bogus":1}}}"#,
    );
    assert_eq!(build_tool_op(&msg).unwrap().print(), r#"{"body":"b","op":"send","to":"a"}"#);
    assert_eq!(
        build_tool_op(&j(r#"{"params":{"name":"safehouse_check"}}"#)).unwrap().print(),
        r#"{"op":"check"}"#
    );
    assert_eq!(build_tool_op(&j(r#"{"params":{"name":"x"}}"#)).unwrap_err(), "unknown tool: x");
    assert_eq!(build_tool_op(&j("{}")).unwrap_err(), "unknown tool: ");
}

#[test]
fn the_first_frame_is_answered_with_the_version() {
    let frame = reply(r#"{"jsonrpc":"2.0","id":1,"method":"initialize","params":{"protocolVersion":"2024-11-05"}}"#);
    assert_eq!(
        frame.print(),
        r#"{"id":1,"jsonrpc":"2.0","result":{"capabilities":{"tools":{}},"protocolVersion":"2024-11-05","serverInfo":{"name":"safehouse-mcp","version":"1.2.3"}}}"#
    );
    let frame = reply(r#"{"id":1,"method":"initialize"}"#);
    assert_eq!(frame.get("result").unwrap().get_str("protocolVersion"), Some("2025-06-18"));
}

#[test]
fn pings_and_lists_are_answered() {
    assert_eq!(reply(r#"{"id":"a","method":"ping"}"#).print(), r#"{"id":"a","jsonrpc":"2.0","result":{}}"#);
    let frame = reply(r#"{"id":2,"method":"tools/list"}"#);
    assert_eq!(frame.get("result").unwrap().get("tools").unwrap().as_array().unwrap().len(), 6);
}

#[test]
fn unknown_methods_and_tools_are_errors() {
    assert_eq!(
        reply(r#"{"id":3,"method":"bogus"}"#).print(),
        r#"{"error":{"code":-32601,"message":"method not found: bogus"},"id":3,"jsonrpc":"2.0"}"#
    );
    assert_eq!(
        reply(r#"{"id":3,"method":"tools/call","params":{"name":"x"}}"#).get("error").unwrap().get_str("message"),
        Some("unknown tool: x")
    );
}

#[test]
fn notifications_and_noise_are_passed_over() {
    for line in ["", "   ", "not json", r#"{"method":"ping"}"#, "[]"] {
        assert!(matches!(serve_line(line, "1"), FrameStep::Nothing), "{line:?}");
    }
}

#[test]
fn a_call_is_handed_to_the_daemon() {
    let msg = j(r#"{"id":7,"method":"tools/call","params":{"name":"safehouse_list_rooms","arguments":{}}}"#);
    match serve_frame(&msg, "1") {
        FrameStep::Call { id, op } => {
            assert_eq!(id.as_u64(), Some(7));
            assert_eq!(op.print(), r#"{"op":"list_rooms"}"#);
            let done = finish_call(&id, Ok(j(r#"{"ok":true}"#)));
            assert_eq!(done.get_u64("id"), Some(7));
            let result = done.get("result").unwrap();
            assert_eq!(result.get_bool("isError"), Some(false));
            let text = result.get("content").unwrap().as_array().unwrap()[0].get_str("text").unwrap().to_owned();
            assert_eq!(text, "{\n  \"ok\": true\n}");
            let failed = finish_call(&id, Err("no daemon".to_owned()));
            assert_eq!(failed.get("result").unwrap().get_bool("isError"), Some(true));
            let refused = finish_call(&id, Ok(j(r#"{"ok":false}"#)));
            assert_eq!(refused.get("result").unwrap().get_bool("isError"), Some(true));
        }
        other => panic!("expected a call, got {other:?}"),
    }
    assert_eq!(
        tool_result_json("x", true).print(),
        r#"{"content":[{"text":"x","type":"text"}],"isError":true}"#
    );
}

#[test]
fn the_persona_is_named_first() {
    assert_eq!(hello_request("a").print(), r#"{"id":0,"op":"hello","persona":"a"}"#);
    assert!(check_hello(&j(r#"{"ok":true}"#), "a").is_ok());
    assert_eq!(
        check_hello(&j(r#"{"ok":false,"error":"nope"}"#), "a").unwrap_err(),
        "daemon rejected persona \"a\": nope"
    );
    assert_eq!(check_hello(&j("{}"), "a").unwrap_err(), "daemon rejected persona \"a\": unknown error");
    assert!(!reply_ok(&j(r#"{"ok":"true"}"#)));
}

#[test]
fn a_request_is_numbered() {
    assert_eq!(number_request(j(r#"{"op":"x","id":9}"#)).unwrap().print(), r#"{"id":1,"op":"x"}"#);
    assert!(number_request(j("[]")).is_none());
}

#[test]
fn pushed_events_are_told_from_replies() {
    assert!(matches!(sort_daemon_value(j(r#"{"event":null}"#)), DaemonLine::Push));
    assert!(matches!(sort_daemon_value(j("[]")), DaemonLine::Reply(_)));
    assert!(matches!(read_daemon_line(r#"{"event":{}}"#), DaemonLine::Push));
    assert!(matches!(read_daemon_line(r#"{"ok":true}"#), DaemonLine::Reply(_)));
    match read_daemon_line("nope") {
        DaemonLine::Bad(message) => assert!(message.starts_with("bad reply from daemon: ")),
        other => panic!("expected an error, got {other:?}"),
    }
}
