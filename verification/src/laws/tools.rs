//! The agents' tools: which there are, the requests that they make, and the frames
//! that ask for them.
use vstd::prelude::*;
use vstd::string::*;

use crate::json;
use crate::json::Tree;
use crate::mcp;
use crate::mcp::{FrameView, ToolView};
use crate::text;

verus! {

/// Whether the request is for the operation and has, of the arguments, those of
/// these names that are there and not null; and nothing else.
pub open spec fn hands_on(request: Tree, op: Seq<char>, args: Tree, names: Seq<Seq<char>>) -> bool {
    &&& json::text_field(request, "op"@) == Some(op)
    &&& forall|name: Seq<char>|
        #![trigger json::field(request, name)]
        name != "op"@ ==> json::field(request, name) == if names.contains(name) && json::field(args, name)
            != Some(Tree::Null) {
            json::field(args, name)
        } else {
            None
        }
}

proof fn lemma_with_arguments(op: Seq<char>, args: Tree, names: Seq<Seq<char>>)
    requires
        !names.contains("op"@),
    ensures
        hands_on(
            Tree::Object(mcp::with_arguments(Map::empty().insert("op"@, Tree::Text(op)), args, names)),
            op,
            args,
            names,
        ),
    decreases names.len(),
{
    let start = Map::empty().insert("op"@, Tree::Text(op));
    let request = Tree::Object(mcp::with_arguments(start, args, names));
    if names.len() > 0 {
        let front = names.drop_last();
        let last = names.last();
        assert(names[names.len() - 1] == last);
        assert forall|k: int| 0 <= k < front.len() implies front[k] != "op"@ by {
            assert(names[k] == front[k]);
        }
        lemma_with_arguments(op, args, front);
        let before = Tree::Object(mcp::with_arguments(start, args, front));
        assert forall|name: Seq<char>| #![trigger json::field(request, name)] name != "op"@ implies json::field(
            request,
            name,
        ) == if names.contains(name) && json::field(args, name) != Some(Tree::Null) {
            json::field(args, name)
        } else {
            None
        } by {
            assert(json::field(before, name) == if front.contains(name) && json::field(args, name) != Some(Tree::Null) {
                json::field(args, name)
            } else {
                None
            });
            if front.contains(name) {
                let k = choose|k: int| 0 <= k < front.len() && front[k] == name;
                assert(names[k] == name);
            }
            if names.contains(name) && name != last {
                let k = choose|k: int| 0 <= k < names.len() && names[k] == name;
                assert(front[k] == name);
            }
        }
        assert(json::text_field(before, "op"@) == Some(op));
    }
}

/// What the call hands to the tool.
pub open spec fn handed_arguments(msg: Tree) -> Tree {
    match json::field(msg, "params"@) {
        Some(params) => match json::field(params, "arguments"@) {
            Some(args) => args,
            None => Tree::Object(Map::empty()),
        },
        None => Tree::Object(Map::empty()),
    }
}

/// Whether the frame calls the tool of the name.
pub open spec fn calls(msg: Tree, name: Seq<char>) -> bool {
    json::field(msg, "params"@) matches Some(params) && json::field(params, "name"@) == Some(Tree::Text(name))
}

/// Each tool makes the request of its operation, with its arguments; there are six
/// of them, and a call of any other is told so.
pub proof fn law_what_the_tools_ask_for(msg: Tree, other: Seq<char>)
    ensures
        calls(msg, "safehouse_send"@) ==> (mcp::tool_request(msg) matches Ok(request) && hands_on(
            request,
            "send"@,
            handed_arguments(msg),
            seq!["to"@, "body"@, "type"@, "task_id"@, "room"@, "wake"@],
        )),
        calls(msg, "safehouse_create_room"@) ==> (mcp::tool_request(msg) matches Ok(request) && hands_on(
            request,
            "create_room"@,
            handed_arguments(msg),
            seq!["name"@, "invite"@, "space"@, "parent"@],
        )),
        calls(msg, "safehouse_add_to_space"@) ==> (mcp::tool_request(msg) matches Ok(request) && hands_on(
            request,
            "add_to_space"@,
            handed_arguments(msg),
            seq!["space"@, "room"@],
        )),
        calls(msg, "safehouse_list_rooms"@) ==> (mcp::tool_request(msg) matches Ok(request) && hands_on(
            request,
            "list_rooms"@,
            handed_arguments(msg),
            seq![],
        )),
        calls(msg, "safehouse_read"@) ==> (mcp::tool_request(msg) matches Ok(request) && hands_on(
            request,
            "read"@,
            handed_arguments(msg),
            seq!["room"@, "limit"@],
        )),
        calls(msg, "safehouse_check"@) ==> (mcp::tool_request(msg) matches Ok(request) && hands_on(
            request,
            "check"@,
            handed_arguments(msg),
            seq!["peek"@, "limit"@],
        )),
        calls(msg, other) && other != "safehouse_send"@ && other != "safehouse_create_room"@ && other
            != "safehouse_add_to_space"@ && other != "safehouse_list_rooms"@ && other != "safehouse_read"@ && other
            != "safehouse_check"@ ==> mcp::tool_request(msg) == Err::<Tree, Seq<char>>("unknown tool: "@ + other),
{
    reveal_strlit("safehouse_send");
    reveal_strlit("safehouse_create_room");
    reveal_strlit("safehouse_add_to_space");
    reveal_strlit("safehouse_list_rooms");
    reveal_strlit("safehouse_read");
    reveal_strlit("safehouse_check");
    assert("safehouse_send"@.len() == 14 && "safehouse_create_room"@.len() == 21 && "safehouse_add_to_space"@.len() == 22 && "safehouse_list_rooms"@.len() == 20);
    assert("safehouse_read"@.len() == 14 && "safehouse_check"@.len() == 15);
    assert("safehouse_send"@[10] == 's' && "safehouse_read"@[10] == 'r');
    reveal_strlit("op");
    reveal_strlit("to");
    reveal_strlit("body");
    reveal_strlit("type");
    reveal_strlit("task_id");
    reveal_strlit("room");
    reveal_strlit("wake");
    reveal_strlit("name");
    reveal_strlit("invite");
    reveal_strlit("space");
    reveal_strlit("parent");
    reveal_strlit("limit");
    reveal_strlit("peek");
    assert("op"@.len() == 2 && "to"@.len() == 2 && "body"@.len() == 4 && "type"@.len() == 4);
    assert("task_id"@.len() == 7 && "room"@.len() == 4 && "wake"@.len() == 4 && "name"@.len() == 4);
    assert("invite"@.len() == 6 && "space"@.len() == 5 && "parent"@.len() == 6 && "limit"@.len() == 5);
    assert("peek"@.len() == 4);
    assert("op"@[0] == 'o' && "to"@[0] == 't' && "body"@[0] == 'b' && "type"@[0] == 't');
    assert("room"@[0] == 'r' && "wake"@[0] == 'w' && "name"@[0] == 'n' && "peek"@[0] == 'p');
    assert("invite"@[0] == 'i' && "parent"@[0] == 'p' && "space"@[0] == 's' && "limit"@[0] == 'l');
    let args = handed_arguments(msg);
    assert(mcp::call_arguments(msg) == args);
    lemma_with_arguments("send"@, args, seq!["to"@, "body"@, "type"@, "task_id"@, "room"@, "wake"@]);
    lemma_with_arguments("create_room"@, args, seq!["name"@, "invite"@, "space"@, "parent"@]);
    lemma_with_arguments("add_to_space"@, args, seq!["space"@, "room"@]);
    lemma_with_arguments("list_rooms"@, args, seq![]);
    lemma_with_arguments("read"@, args, seq!["room"@, "limit"@]);
    lemma_with_arguments("check"@, args, seq!["peek"@, "limit"@]);
}

/// Whether the definition is that of a tool of the name with these arguments, each
/// of its kind, of which these are required.
pub open spec fn defines(
    tool: Tree,
    name: Seq<char>,
    args: Seq<(Seq<char>, Seq<char>)>,
    required: Seq<Seq<char>>,
) -> bool {
    &&& json::text_field(tool, "name"@) == Some(name)
    &&& json::text_field(tool, "description"@) is Some
    &&& json::field(tool, "inputSchema"@) matches Some(schema) && {
        &&& json::text_field(schema, "type"@) == Some("object"@)
        &&& required.len() > 0 ==> json::field(schema, "required"@) == Some(json::texts_tree(required))
        &&& required.len() == 0 ==> json::field(schema, "required"@) is None
        &&& json::field(schema, "properties"@) matches Some(Tree::Object(properties)) && {
            &&& forall|k: int|
                0 <= k < args.len() ==> (properties.dom().contains((#[trigger] args[k]).0) && json::text_field(
                    properties[args[k].0],
                    "type"@,
                ) == Some(args[k].1))
            &&& forall|arg: Seq<char>| #[trigger]
                properties.dom().contains(arg) ==> exists|k: int| 0 <= k < args.len() && (#[trigger] args[k]).0 == arg
        }
    }
}

proof fn lemma_definition(tool: ToolView, args: Seq<(Seq<char>, Seq<char>)>)
    requires
        tool.args.len() == args.len(),
        forall|k: int|
            0 <= k < args.len() ==> (#[trigger] args[k]).0 == tool.args[k].name && args[k].1 == tool.args[k].kind,
        forall|a: int, b: int| 0 <= a < b < args.len() ==> (#[trigger] args[a]).0 != (#[trigger] args[b]).0,
    ensures
        defines(mcp::tool_tree(tool), tool.name, args, tool.required),
{
    reveal_strlit("name");
    reveal_strlit("description");
    reveal_strlit("inputSchema");
    reveal_strlit("type");
    reveal_strlit("required");
    reveal_strlit("properties");
    reveal_strlit("enum");
    reveal_strlit("items");
    assert("name"@.len() == 4 && "description"@.len() == 11 && "inputSchema"@.len() == 11 && "type"@.len() == 4);
    assert("required"@.len() == 8 && "properties"@.len() == 10 && "enum"@.len() == 4 && "items"@.len() == 5);
    assert("name"@[0] == 'n' && "type"@[0] == 't' && "enum"@[0] == 'e' && "description"@[0] == 'd');
    assert("inputSchema"@[0] == 'i');
    let pairs = seq![
        ("name"@, Tree::Text(tool.name)),
        ("description"@, Tree::Text(tool.description)),
        ("inputSchema"@, json::object(mcp::schema_pairs(tool))),
    ];
    assert(pairs[0].0 == "name"@ && pairs[1].0 == "description"@ && pairs[2].0 == "inputSchema"@);
    json::lemma_object_fields(pairs);
    let schema = mcp::schema_pairs(tool);
    assert(schema[0] == ("type"@, Tree::Text("object"@)) && schema[1] == ("properties"@, mcp::args_tree(tool.args)));
    assert(tool.required.len() > 0 ==> schema[2] == ("required"@, json::texts_tree(tool.required)));
    json::lemma_object_fields(schema);
    let listed = Seq::new(
        tool.args.len(),
        |i: int| (tool.args[i].name, json::object(mcp::arg_pairs(tool.args[i]))),
    );
    assert forall|a: int, b: int| 0 <= a < b < listed.len() implies (#[trigger] listed[a]).0 != (
    #[trigger] listed[b]).0 by {
        assert(args[a].0 != args[b].0);
    }
    json::lemma_object_fields(listed);
    let properties = json::field_map(listed);
    assert forall|k: int| 0 <= k < args.len() implies (properties.dom().contains((#[trigger] args[k]).0)
        && json::text_field(properties[args[k].0], "type"@) == Some(args[k].1)) by {
        assert(listed[k].0 == args[k].0);
        assert(json::field(json::object(listed), listed[k].0) == Some(listed[k].1));
        let arg = mcp::arg_pairs(tool.args[k]);
        assert(arg[0] == ("type"@, Tree::Text(tool.args[k].kind)));
        assert forall|i: int| 0 < i < arg.len() implies (#[trigger] arg[i]).0 != "type"@ by {}
        json::lemma_field_map_found(arg, "type"@, 0);
    }
    assert forall|arg: Seq<char>| #[trigger] properties.dom().contains(arg) implies exists|k: int|
        0 <= k < args.len() && (#[trigger] args[k]).0 == arg by {
        json::lemma_field_map_value(listed, arg);
        let k = choose|k: int| 0 <= k < listed.len() && #[trigger] listed[k] == (arg, properties[arg]);
        assert(args[k].0 == arg);
    }
}

/// The tools that are offered, each with its arguments, their kinds, and those that
/// it cannot do without.
pub proof fn law_which_tools_are_offered()
    ensures
        mcp::tools_tree() matches Tree::Array(tools) && {
            &&& tools.len() == 6
            &&& defines(
                tools[0],
                "safehouse_send"@,
                seq![
                    ("to"@, "string"@),
                    ("body"@, "string"@),
                    ("type"@, "string"@),
                    ("task_id"@, "string"@),
                    ("room"@, "string"@),
                    ("wake"@, "boolean"@),
                ],
                seq!["to"@, "body"@],
            )
            &&& defines(
                tools[1],
                "safehouse_create_room"@,
                seq![("name"@, "string"@), ("invite"@, "array"@), ("space"@, "boolean"@), ("parent"@, "string"@)],
                seq!["name"@],
            )
            &&& defines(
                tools[2],
                "safehouse_add_to_space"@,
                seq![("space"@, "string"@), ("room"@, "string"@)],
                seq!["space"@, "room"@],
            )
            &&& defines(tools[3], "safehouse_list_rooms"@, seq![], seq![])
            &&& defines(tools[4], "safehouse_read"@, seq![("room"@, "string"@), ("limit"@, "integer"@)], seq![])
            &&& defines(tools[5], "safehouse_check"@, seq![("peek"@, "boolean"@), ("limit"@, "integer"@)], seq![])
        },
{
    reveal_strlit("to");
    reveal_strlit("body");
    reveal_strlit("type");
    reveal_strlit("task_id");
    reveal_strlit("room");
    reveal_strlit("wake");
    reveal_strlit("name");
    reveal_strlit("invite");
    reveal_strlit("space");
    reveal_strlit("parent");
    reveal_strlit("limit");
    reveal_strlit("peek");
    assert("to"@.len() == 2 && "body"@.len() == 4 && "type"@.len() == 4 && "task_id"@.len() == 7);
    assert("room"@.len() == 4 && "wake"@.len() == 4 && "name"@.len() == 4 && "invite"@.len() == 6);
    assert("space"@.len() == 5 && "parent"@.len() == 6 && "limit"@.len() == 5 && "peek"@.len() == 4);
    assert("body"@[0] == 'b' && "type"@[0] == 't' && "room"@[0] == 'r' && "wake"@[0] == 'w');
    assert("name"@[0] == 'n' && "peek"@[0] == 'p' && "invite"@[0] == 'i' && "parent"@[0] == 'p');
    assert("space"@[0] == 's' && "limit"@[0] == 'l');
    let table = mcp::tool_table();
    lemma_definition(
        table[0],
        seq![
            ("to"@, "string"@),
            ("body"@, "string"@),
            ("type"@, "string"@),
            ("task_id"@, "string"@),
            ("room"@, "string"@),
            ("wake"@, "boolean"@),
        ],
    );
    lemma_definition(
        table[1],
        seq![("name"@, "string"@), ("invite"@, "array"@), ("space"@, "boolean"@), ("parent"@, "string"@)],
    );
    lemma_definition(table[2], seq![("space"@, "string"@), ("room"@, "string"@)]);
    lemma_definition(table[3], seq![]);
    lemma_definition(table[4], seq![("room"@, "string"@), ("limit"@, "integer"@)]);
    lemma_definition(table[5], seq![("peek"@, "boolean"@), ("limit"@, "integer"@)]);
}

/// The type of a message is offered as a choice of the five that an agent sends.
pub proof fn law_types_are_offered()
    ensures
        mcp::tool_table()[0].args[2].name == "type"@,
        mcp::tool_table()[0].args[2].choices == seq!["chat"@, "task"@, "handoff"@, "ack"@, "digest"@],
        json::field(json::object(mcp::arg_pairs(mcp::tool_table()[0].args[2])), "enum"@) == Some(
            json::texts_tree(seq!["chat"@, "task"@, "handoff"@, "ack"@, "digest"@]),
        ),
{
    reveal_strlit("type");
    reveal_strlit("enum");
    reveal_strlit("items");
    reveal_strlit("description");
    reveal_strlit("string");
    reveal_strlit("array");
    assert("type"@.len() == 4 && "enum"@.len() == 4 && "items"@.len() == 5 && "description"@.len() == 11);
    assert("string"@.len() == 6 && "array"@.len() == 5);
    assert("type"@[0] == 't' && "enum"@[0] == 'e' && "items"@[0] == 'i' && "array"@[0] == 'a');
    let arg = mcp::tool_table()[0].args[2];
    let pairs = mcp::arg_pairs(arg);
    assert(pairs[0].0 == "type"@ && pairs[1] == ("enum"@, json::texts_tree(arg.choices)) && pairs[2].0
        == "description"@);
    json::lemma_object_fields(pairs);
}

/// Whether the frame answers with the result.
pub open spec fn answers(frame: Tree, id: Tree, result: Tree) -> bool {
    &&& json::text_field(frame, "jsonrpc"@) == Some("2.0"@)
    &&& json::field(frame, "id"@) == Some(id)
    &&& json::field(frame, "result"@) == Some(result)
    &&& json::field(frame, "error"@) is None
}

/// Whether the frame answers that it cannot be done.
pub open spec fn fails(frame: Tree, id: Tree, message: Seq<char>) -> bool {
    &&& json::text_field(frame, "jsonrpc"@) == Some("2.0"@)
    &&& json::field(frame, "id"@) == Some(id)
    &&& json::field(frame, "result"@) is None
    &&& json::field(frame, "error"@) matches Some(error) && {
        &&& json::field(error, "code"@) == Some(Tree::Number(json::NumberView::Other("-"@ + text::decimal(32601))))
        &&& json::text_field(error, "message"@) == Some(message)
    }
}

proof fn lemma_frames(id: Tree, result: Tree, message: Seq<char>)
    ensures
        answers(json::object(mcp::result_pairs(id, result)), id, result),
        fails(json::object(mcp::failure_pairs(id, message)), id, message),
{
    reveal_strlit("jsonrpc");
    reveal_strlit("id");
    reveal_strlit("result");
    reveal_strlit("error");
    reveal_strlit("code");
    reveal_strlit("message");
    assert("jsonrpc"@.len() == 7 && "id"@.len() == 2 && "result"@.len() == 6 && "error"@.len() == 5);
    assert("code"@.len() == 4 && "message"@.len() == 7);
    assert("jsonrpc"@[0] == 'j' && "message"@[0] == 'm');
    let done = mcp::result_pairs(id, result);
    assert(done[0].0 == "jsonrpc"@ && done[1].0 == "id"@ && done[2].0 == "result"@);
    json::lemma_object_fields(done);
    let failed = mcp::failure_pairs(id, message);
    assert(failed[0].0 == "jsonrpc"@ && failed[1].0 == "id"@ && failed[2].0 == "error"@);
    json::lemma_object_fields(failed);
    let error = seq![("code"@, json::signed_tree(mcp::METHOD_NOT_FOUND)), ("message"@, Tree::Text(message))];
    assert(error[0].0 == "code"@ && error[1].0 == "message"@);
    json::lemma_object_fields(error);
}

/// What a frame comes to: one without an id nothing; a start, a ping and a list of
/// the tools an answer; a call of a tool the request to the daemon; and any other
/// method that there is none.
pub proof fn law_what_a_frame_is(msg: Tree, version: Seq<char>, id: Tree)
    ensures
        json::field(msg, "id"@) is None ==> mcp::frame_served(msg, version) == FrameView::Nothing,
        json::field(msg, "id"@) == Some(id) ==> ({
            let step = mcp::frame_served(msg, version);
            let method = match json::field(msg, "method"@) {
                Some(Tree::Text(method)) => method,
                _ => Seq::empty(),
            };
            &&& method == "initialize"@ ==> (step matches FrameView::Reply(frame) && (json::field(
                frame,
                "result"@,
            ) matches Some(result) && answers(frame, id, result) && starts(result, msg, version)))
            &&& method == "ping"@ ==> (step matches FrameView::Reply(frame) && answers(
                frame,
                id,
                Tree::Object(Map::empty()),
            ))
            &&& method == "tools/list"@ ==> (step matches FrameView::Reply(frame) && (json::field(
                frame,
                "result"@,
            ) matches Some(result) && answers(frame, id, result) && json::field(result, "tools"@) == Some(
                mcp::tools_tree(),
            )))
            &&& method == "tools/call"@ ==> match mcp::tool_request(msg) {
                Ok(request) => step == FrameView::Call { id, op: request },
                Err(message) => step matches FrameView::Reply(frame) && fails(frame, id, message),
            }
            &&& method != "initialize"@ && method != "ping"@ && method != "tools/list"@ && method != "tools/call"@ ==> (
            step matches FrameView::Reply(frame) && fails(frame, id, "method not found: "@ + method))
        }),
{
    reveal_strlit("initialize");
    reveal_strlit("ping");
    reveal_strlit("tools/list");
    reveal_strlit("tools/call");
    assert("initialize"@.len() == 10 && "ping"@.len() == 4 && "tools/list"@.len() == 10 && "tools/call"@.len() == 10);
    assert("initialize"@[0] == 'i' && "tools/list"@[0] == 't' && "tools/call"@[0] == 't' && "tools/list"@[6] == 'l');
    assert("tools/call"@[6] == 'c');
    if json::field(msg, "id"@) == Some(id) {
        let method = mcp::frame_method(msg);
        let begun = json::object(mcp::initialize_pairs(msg, version));
        lemma_frames(id, begun, "method not found: "@ + method);
        lemma_starts(msg, version);
        let empty = json::object(seq![]);
        assert(empty == Tree::Object(Map::<Seq<char>, Tree>::empty()));
        lemma_frames(id, empty, method);
        let pairs = seq![("tools"@, mcp::tools_tree())];
        assert(pairs[0].0 == "tools"@);
        json::lemma_object_fields(pairs);
        lemma_frames(id, json::object(pairs), method);
        match mcp::tool_request(msg) {
            Err(message) => lemma_frames(id, empty, message),
            _ => {},
        }
    }
}

/// Whether the result tells a client that starts the protocol, which is its own
/// where it names one, and the server.
pub open spec fn starts(result: Tree, msg: Tree, version: Seq<char>) -> bool {
    &&& json::field(result, "protocolVersion"@) == Some(
        match json::field(msg, "params"@) {
            Some(params) => match json::field(params, "protocolVersion"@) {
                Some(own) => own,
                None => Tree::Text("2025-06-18"@),
            },
            None => Tree::Text("2025-06-18"@),
        },
    )
    &&& json::field(result, "capabilities"@) matches Some(capabilities) && json::field(capabilities, "tools"@)
        == Some(Tree::Object(Map::empty()))
    &&& json::field(result, "serverInfo"@) matches Some(info) && {
        &&& json::text_field(info, "name"@) == Some("safehouse-mcp"@)
        &&& json::text_field(info, "version"@) == Some(version)
    }
}

proof fn lemma_starts(msg: Tree, version: Seq<char>)
    ensures
        starts(json::object(mcp::initialize_pairs(msg, version)), msg, version),
{
    reveal_strlit("protocolVersion");
    reveal_strlit("capabilities");
    reveal_strlit("serverInfo");
    reveal_strlit("tools");
    reveal_strlit("name");
    reveal_strlit("version");
    assert("protocolVersion"@.len() == 15 && "capabilities"@.len() == 12 && "serverInfo"@.len() == 10 && "tools"@.len() == 5);
    assert("name"@.len() == 4 && "version"@.len() == 7);
    let pairs = mcp::initialize_pairs(msg, version);
    assert(pairs[0].0 == "protocolVersion"@ && pairs[1].0 == "capabilities"@ && pairs[2].0 == "serverInfo"@);
    json::lemma_object_fields(pairs);
    let capabilities = seq![("tools"@, json::object(seq![]))];
    assert(capabilities[0].0 == "tools"@);
    json::lemma_object_fields(capabilities);
    assert(json::object(seq![]) == Tree::Object(Map::<Seq<char>, Tree>::empty()));
    let info = seq![("name"@, Tree::Text("safehouse-mcp"@)), ("version"@, Tree::Text(version))];
    assert(info[0].0 == "name"@ && info[1].0 == "version"@);
    json::lemma_object_fields(info);
}

/// A line that is blank, or not JSON, is passed over; any other is a frame.
pub proof fn law_which_lines_are_frames(line: Seq<char>, version: Seq<char>)
    ensures
        text::trimmed(line).len() == 0 ==> mcp::frame_line_served(line, version) == FrameView::Nothing,
        text::trimmed(line).len() > 0 ==> match json::parsed(line) {
            Ok(msg) => mcp::frame_line_served(line, version) == mcp::frame_served(msg, version),
            Err(_) => mcp::frame_line_served(line, version) == FrameView::Nothing,
        },
{
}

/// A tool call gives back the daemon's reply as text, and tells of an error unless
/// the reply says that all went well; where there is no reply, it gives back why.
pub proof fn law_what_a_call_gives_back(reply: Tree, message: Seq<char>)
    ensures
        gives_back(
            mcp::tool_result(Ok(reply)),
            json::printed_pretty(reply),
            json::field(reply, "ok"@) != Some(Tree::Bool(true)),
        ),
        gives_back(mcp::tool_result(Err(message)), message, true),
{
    lemma_gives_back(json::printed_pretty(reply), !mcp::is_ok(reply));
    lemma_gives_back(message, true);
}

/// Whether the result is the text, and tells of an error or not.
pub open spec fn gives_back(result: Tree, shown: Seq<char>, is_error: bool) -> bool {
    &&& json::bool_field(result, "isError"@) == Some(is_error)
    &&& json::field(result, "content"@) matches Some(Tree::Array(items)) && {
        &&& items.len() == 1
        &&& json::text_field(items[0], "type"@) == Some("text"@)
        &&& json::text_field(items[0], "text"@) == Some(shown)
    }
}

proof fn lemma_gives_back(shown: Seq<char>, is_error: bool)
    ensures
        gives_back(json::object(mcp::tool_result_pairs(shown, is_error)), shown, is_error),
{
    reveal_strlit("content");
    reveal_strlit("isError");
    reveal_strlit("type");
    reveal_strlit("text");
    assert("content"@.len() == 7 && "isError"@.len() == 7 && "type"@.len() == 4 && "text"@.len() == 4);
    assert("content"@[0] == 'c' && "isError"@[0] == 'i' && "type"@[1] == 'y' && "text"@[1] == 'e');
    let pairs = mcp::tool_result_pairs(shown, is_error);
    assert(pairs[0].0 == "content"@ && pairs[1].0 == "isError"@);
    json::lemma_object_fields(pairs);
    let item = seq![("type"@, Tree::Text("text"@)), ("text"@, Tree::Text(shown))];
    assert(item[0].0 == "type"@ && item[1].0 == "text"@);
    json::lemma_object_fields(item);
}

/// The daemon is greeted as the persona, and then asked under another number, with
/// the request as it is.
pub proof fn law_what_the_daemon_is_asked(persona: Seq<char>, fields: Map<Seq<char>, Tree>, name: Seq<char>)
    ensures
        ({
            let hello = json::object(mcp::hello_request_pairs(persona));
            &&& json::text_field(hello, "op"@) == Some("hello"@)
            &&& json::text_field(hello, "persona"@) == Some(persona)
            &&& json::unsigned_field(hello, "id"@) == Some(0u64)
        }),
        mcp::numbered(Tree::Object(fields)) matches Some(request) && {
            &&& json::unsigned_field(request, "id"@) == Some(1u64)
            &&& name != "id"@ ==> json::field(request, name) == json::field(Tree::Object(fields), name)
        },
{
    reveal_strlit("id");
    reveal_strlit("op");
    reveal_strlit("persona");
    assert("id"@.len() == 2 && "op"@.len() == 2 && "persona"@.len() == 7);
    assert("id"@[0] == 'i' && "op"@[0] == 'o');
    let pairs = mcp::hello_request_pairs(persona);
    assert(pairs[0].0 == "id"@ && pairs[1].0 == "op"@ && pairs[2].0 == "persona"@);
    json::lemma_object_fields(pairs);
}

/// What the daemon says: that all went well, or else why the persona is not let in;
/// and what has an event is no reply.
pub proof fn law_what_the_daemon_says(reply: Tree, persona: Seq<char>)
    ensures
        mcp::is_ok(reply) <==> json::field(reply, "ok"@) == Some(Tree::Bool(true)),
        mcp::hello_refusal(reply, persona) is None <==> json::field(reply, "ok"@) == Some(Tree::Bool(true)),
        json::field(reply, "ok"@) != Some(Tree::Bool(true)) ==> mcp::hello_refusal(reply, persona) == Some(
            "daemon rejected persona "@ + text::debug_text(persona) + ": "@ + match json::field(reply, "error"@) {
                Some(Tree::Text(error)) => error,
                _ => "unknown error"@,
            },
        ),
        mcp::is_push(reply) <==> json::field(reply, "event"@) is Some,
{
}

/// A list of texts, as an argument, is defined as one.
pub proof fn law_lists_are_defined(name: Seq<char>, description: Seq<char>)
    ensures
        ({
            let arg = json::object(mcp::arg_pairs(mcp::plain(name, "array"@, description)));
            &&& json::text_field(arg, "type"@) == Some("array"@)
            &&& json::field(arg, "items"@) matches Some(items) && json::text_field(items, "type"@) == Some("string"@)
            &&& json::text_field(arg, "description"@) == Some(description)
            &&& json::field(arg, "enum"@) is None
        }),
{
    reveal_strlit("type");
    reveal_strlit("items");
    reveal_strlit("description");
    reveal_strlit("enum");
    assert("type"@.len() == 4 && "items"@.len() == 5 && "description"@.len() == 11 && "enum"@.len() == 4);
    assert("type"@[0] == 't' && "enum"@[0] == 'e');
    let pairs = mcp::arg_pairs(mcp::plain(name, "array"@, description));
    assert(pairs[0].0 == "type"@ && pairs[1].0 == "items"@ && pairs[2].0 == "description"@);
    json::lemma_object_fields(pairs);
    let items = seq![("type"@, Tree::Text("string"@))];
    assert(items[0].0 == "type"@);
    json::lemma_object_fields(items);
}

/// The call of a tool is answered, under its id, with the daemon's reply as text, or
/// with why there is none.
pub proof fn law_calls_are_answered(id: Tree, reply: Tree, message: Seq<char>)
    ensures
        answers(mcp::call_answer(id, Ok(reply)), id, mcp::tool_result(Ok(reply))),
        answers(mcp::call_answer(id, Err(message)), id, mcp::tool_result(Err(message))),
{
    lemma_frames(id, mcp::tool_result(Ok(reply)), message);
    lemma_frames(id, mcp::tool_result(Err(message)), message);
}

} // verus!
