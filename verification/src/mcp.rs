//! The agents' tool server: the tools there are, the frames that ask for them,
//! and the conversation with the daemon that a tool call is.
use vstd::prelude::*;
use vstd::string::*;

use crate::envelope;
use crate::json;
use crate::json::{Json, Tree};
use crate::text;
use crate::text::{chars_of, debug_form, same, trim};

verus! {

/// The tool that sends a message.
pub const SEND_DESCRIPTION: &'static str =
    "Send a message into a safehouse room. The daemon stamps your persona as the sender; `to` is a persona (e.g. research_agent), a Matrix user id, or \"*\" for room broadcast. Types: chat (conversational), task (unit of work, use task_id), handoff (transfer of responsibility), ack (completion), digest (periodic narration that expects no reply).";

/// The tool that creates a room.
pub const CREATE_ROOM_DESCRIPTION: &'static str =
    "Create a new safehouse room, optionally inviting Matrix users (e.g. the human's account). Message rooms are encrypted; pass space=true to create a Matrix Space (m.space) container instead — Spaces hold rooms, not messages, and are left unencrypted. Pass parent (a Space's id/name/alias) to create the new room already linked under that Space.";

/// The tool that puts a room into a space.
pub const ADD_TO_SPACE_DESCRIPTION: &'static str =
    "Link an already-joined room into a Space (m.space), setting the reciprocal m.space.child/m.space.parent state. Idempotent: linking an already-linked room is a no-op success, never an error or a duplicate.";

/// The tool that lists the rooms.
pub const LIST_ROOMS_DESCRIPTION: &'static str =
    "List joined safehouse rooms with their ids, names, and encryption state. Each entry also carries `type` (\"space\" for an m.space container, else \"room\") and `parent_space` (the room id of its confirmed parent Space, or null) so clients can render/verify the Space hierarchy.";

/// The tool that reads a room.
pub const READ_DESCRIPTION: &'static str =
    "Read recent messages from a safehouse room, newest last. Each message carries its envelope (from/to/type/task_id/body); human messages get a synthesized envelope.";

/// The tool that checks the mailbox.
pub const CHECK_DESCRIPTION: &'static str =
    "Check your mailbox: unread envelopes addressed to you (`to: <your persona>` or broadcasts), oldest first, since you last checked. Call this on your own cadence, like checking your phone — no agent needs to stay connected to receive. By default this advances your read cursor so a repeat call returns nothing new; pass peek=true to look without consuming. Survives daemon restarts: anything you missed while the daemon (or you) were down is still here.";

/// The `room` of a message or of a read.
pub const ROOM_DESCRIPTION: &'static str =
    "Room id, name, or alias; optional when only one room is joined. An ambiguous name/alias (matching more than one joined room) is an error, never a guess";

/// The `wake` of a message.
pub const WAKE_DESCRIPTION: &'static str =
    "Advisory hint only — the daemon never acts on it. For optional external wakers deciding whether to nudge the recipient.";

/// The `space` of a room to create.
pub const SPACE_DESCRIPTION: &'static str =
    "Create a Matrix Space (m.space) container instead of a message room (default false)";

/// The `parent` of a room to create.
pub const PARENT_DESCRIPTION: &'static str =
    "Existing Space (id, name, or alias) to create this room under — sets the m.space.child/m.space.parent relationship";

/// The `peek` of a check.
pub const PEEK_DESCRIPTION: &'static str =
    "If true, don't advance the read cursor — a repeated peek returns the same unread set (default false)";

/// The `limit` of a check.
pub const CHECK_LIMIT_DESCRIPTION: &'static str =
    "Max envelopes to return (oldest unread first); unset returns everything unread";

/// An argument of a tool.
pub struct ArgView {
    pub name: Seq<char>,
    pub kind: Seq<char>,
    pub description: Seq<char>,
    /// The values that it can have, when it is one of some texts.
    pub choices: Seq<Seq<char>>,
}

/// A tool.
pub struct ToolView {
    pub name: Seq<char>,
    pub description: Seq<char>,
    pub args: Seq<ArgView>,
    pub required: Seq<Seq<char>>,
}

/// An argument without a choice of values.
pub open spec fn plain(name: Seq<char>, kind: Seq<char>, description: Seq<char>) -> ArgView {
    ArgView { name, kind, description, choices: Seq::empty() }
}

/// The tools.
pub open spec fn tool_table() -> Seq<ToolView> {
    seq![
        ToolView {
            name: "safehouse_send"@,
            description: SEND_DESCRIPTION@,
            args: seq![
                plain("to"@, "string"@, "Target persona, Matrix user id, or \"*\""@),
                plain("body"@, "string"@, "Message content (plain text)"@),
                ArgView {
                    name: "type"@,
                    kind: "string"@,
                    description: "Message type (default chat)"@,
                    choices: seq!["chat"@, "task"@, "handoff"@, "ack"@, "digest"@],
                },
                plain("task_id"@, "string"@, "Stable task identifier, [A-Za-z0-9_]"@),
                plain("room"@, "string"@, ROOM_DESCRIPTION@),
                plain("wake"@, "boolean"@, WAKE_DESCRIPTION@),
            ],
            required: seq!["to"@, "body"@],
        },
        ToolView {
            name: "safehouse_create_room"@,
            description: CREATE_ROOM_DESCRIPTION@,
            args: seq![
                plain("name"@, "string"@, "Room name"@),
                plain("invite"@, "array"@, "Matrix user ids to invite"@),
                plain("space"@, "boolean"@, SPACE_DESCRIPTION@),
                plain("parent"@, "string"@, PARENT_DESCRIPTION@),
            ],
            required: seq!["name"@],
        },
        ToolView {
            name: "safehouse_add_to_space"@,
            description: ADD_TO_SPACE_DESCRIPTION@,
            args: seq![
                plain("space"@, "string"@, "The Space (id, name, or alias) to add the room to"@),
                plain("room"@, "string"@, "The room (id, name, or alias) to link under the Space"@),
            ],
            required: seq!["space"@, "room"@],
        },
        ToolView {
            name: "safehouse_list_rooms"@,
            description: LIST_ROOMS_DESCRIPTION@,
            args: seq![],
            required: seq![],
        },
        ToolView {
            name: "safehouse_read"@,
            description: READ_DESCRIPTION@,
            args: seq![
                plain("room"@, "string"@, ROOM_DESCRIPTION@),
                plain("limit"@, "integer"@, "Max messages (default 20, cap 100)"@),
            ],
            required: seq![],
        },
        ToolView {
            name: "safehouse_check"@,
            description: CHECK_DESCRIPTION@,
            args: seq![
                plain("peek"@, "boolean"@, PEEK_DESCRIPTION@),
                plain("limit"@, "integer"@, CHECK_LIMIT_DESCRIPTION@),
            ],
            required: seq![],
        },
    ]
}

/// The fields of an argument in a tool's definition. An array is one of texts.
pub open spec fn arg_pairs(arg: ArgView) -> Seq<(Seq<char>, Tree)> {
    seq![("type"@, Tree::Text(arg.kind))] + (if arg.choices.len() > 0 {
        seq![("enum"@, json::texts_tree(arg.choices))]
    } else {
        Seq::empty()
    }) + (if arg.kind == "array"@ {
        seq![("items"@, json::object(seq![("type"@, Tree::Text("string"@))]))]
    } else {
        Seq::empty()
    }) + seq![("description"@, Tree::Text(arg.description))]
}

/// The arguments in a tool's definition.
pub open spec fn args_tree(args: Seq<ArgView>) -> Tree {
    json::object(Seq::new(args.len(), |i: int| (args[i].name, json::object(arg_pairs(args[i])))))
}

/// The fields of the schema in a tool's definition.
pub open spec fn schema_pairs(tool: ToolView) -> Seq<(Seq<char>, Tree)> {
    seq![("type"@, Tree::Text("object"@)), ("properties"@, args_tree(tool.args))] + (if tool.required.len() > 0 {
        seq![("required"@, json::texts_tree(tool.required))]
    } else {
        Seq::empty()
    })
}

/// The definition of a tool.
pub open spec fn tool_tree(tool: ToolView) -> Tree {
    json::object(
        seq![
            ("name"@, Tree::Text(tool.name)),
            ("description"@, Tree::Text(tool.description)),
            ("inputSchema"@, json::object(schema_pairs(tool))),
        ],
    )
}

/// The definitions of the tools.
pub open spec fn tools_tree() -> Tree {
    Tree::Array(Seq::new(tool_table().len(), |i: int| tool_tree(tool_table()[i])))
}

/// An argument of a tool, in its definition.
fn define_arg(name: &str, kind: &str, description: &str) -> (r: (String, Json))
    ensures
        r.0@ == name@,
        r.1@ == json::object(arg_pairs(plain(name@, kind@, description@))),
{
    let mut fields = vec![json::pair("type", Json::text(kind))];
    if same(kind, "array") {
        let items = vec![json::pair("type", Json::text("string"))];
        proof {
            assert(json::tree_pairs(items@) =~= seq![("type"@, Tree::Text("string"@))]);
        }
        fields.push(json::pair("items", Json::Object(items)));
    }
    fields.push(json::pair("description", Json::text(description)));
    proof {
        assert(json::tree_pairs(fields@) =~= arg_pairs(plain(name@, kind@, description@)));
    }
    (name.to_owned(), Json::Object(fields))
}

/// The type of a message, in the definition of the tool that sends it.
fn define_type_arg() -> (r: (String, Json))
    ensures
        r.0@ == "type"@,
        r.1@ == json::object(arg_pairs(tool_table()[0].args[2])),
{
    let choices = vec![
        "chat".to_owned(),
        "task".to_owned(),
        "handoff".to_owned(),
        "ack".to_owned(),
        "digest".to_owned(),
    ];
    let ghost arg = tool_table()[0].args[2];
    proof {
        assert(text::views(choices@) =~= arg.choices);
        reveal_strlit("string");
        reveal_strlit("array");
        assert("string"@.len() == 6 && "array"@.len() == 5);
    }
    let fields = vec![
        json::pair("type", Json::text("string")),
        json::pair("enum", Json::texts(choices.as_slice())),
        json::pair("description", Json::text("Message type (default chat)")),
    ];
    proof {
        assert(json::tree_pairs(fields@) =~= arg_pairs(arg));
    }
    ("type".to_owned(), Json::Object(fields))
}

/// A tool's definition, made of its arguments' definitions.
fn define_tool(
    name: &str,
    description: &str,
    args: Vec<(String, Json)>,
    required: &[String],
    Ghost(tool): Ghost<ToolView>,
) -> (j: Json)
    requires
        tool.name == name@,
        tool.description == description@,
        tool.required == text::views(required@),
        args@.len() == tool.args.len(),
        forall|i: int|
            0 <= i < args@.len() ==> (#[trigger] args@[i]).0@ == tool.args[i].name && args@[i].1@
                == json::object(arg_pairs(tool.args[i])),
    ensures
        j@ == tool_tree(tool),
{
    proof {
        assert(json::tree_pairs(args@) =~= Seq::new(
            tool.args.len(),
            |i: int| (tool.args[i].name, json::object(arg_pairs(tool.args[i]))),
        ));
    }
    let mut schema = vec![json::pair("type", Json::text("object")), json::pair("properties", Json::Object(args))];
    if required.len() > 0 {
        schema.push(json::pair("required", Json::texts(required)));
    }
    proof {
        assert(json::tree_pairs(schema@) =~= schema_pairs(tool));
    }
    let fields = vec![
        json::pair("name", Json::text(name)),
        json::pair("description", Json::text(description)),
        json::pair("inputSchema", Json::Object(schema)),
    ];
    proof {
        assert(json::tree_pairs(fields@) =~= seq![
            ("name"@, Tree::Text(tool.name)),
            ("description"@, Tree::Text(tool.description)),
            ("inputSchema"@, json::object(schema_pairs(tool))),
        ]);
    }
    Json::Object(fields)
}

/// The definitions of the tools.
pub fn tool_definitions() -> (j: Json)
    ensures
        j@ == tools_tree(),
{
    let none: Vec<String> = Vec::new();
    let send_needs = vec!["to".to_owned(), "body".to_owned()];
    let create_needs = vec!["name".to_owned()];
    let link_needs = vec!["space".to_owned(), "room".to_owned()];
    proof {
        assert(text::views(none@) =~= Seq::empty());
        assert(text::views(send_needs@) =~= seq!["to"@, "body"@]);
        assert(text::views(create_needs@) =~= seq!["name"@]);
        assert(text::views(link_needs@) =~= seq!["space"@, "room"@]);
    }
    let send = define_tool(
        "safehouse_send",
        SEND_DESCRIPTION,
        vec![
            define_arg("to", "string", "Target persona, Matrix user id, or \"*\""),
            define_arg("body", "string", "Message content (plain text)"),
            define_type_arg(),
            define_arg("task_id", "string", "Stable task identifier, [A-Za-z0-9_]"),
            define_arg("room", "string", ROOM_DESCRIPTION),
            define_arg("wake", "boolean", WAKE_DESCRIPTION),
        ],
        send_needs.as_slice(),
        Ghost(tool_table()[0]),
    );
    let create = define_tool(
        "safehouse_create_room",
        CREATE_ROOM_DESCRIPTION,
        vec![
            define_arg("name", "string", "Room name"),
            define_arg("invite", "array", "Matrix user ids to invite"),
            define_arg("space", "boolean", SPACE_DESCRIPTION),
            define_arg("parent", "string", PARENT_DESCRIPTION),
        ],
        create_needs.as_slice(),
        Ghost(tool_table()[1]),
    );
    let link = define_tool(
        "safehouse_add_to_space",
        ADD_TO_SPACE_DESCRIPTION,
        vec![
            define_arg("space", "string", "The Space (id, name, or alias) to add the room to"),
            define_arg("room", "string", "The room (id, name, or alias) to link under the Space"),
        ],
        link_needs.as_slice(),
        Ghost(tool_table()[2]),
    );
    let list = define_tool(
        "safehouse_list_rooms",
        LIST_ROOMS_DESCRIPTION,
        Vec::new(),
        none.as_slice(),
        Ghost(tool_table()[3]),
    );
    let read = define_tool(
        "safehouse_read",
        READ_DESCRIPTION,
        vec![
            define_arg("room", "string", ROOM_DESCRIPTION),
            define_arg("limit", "integer", "Max messages (default 20, cap 100)"),
        ],
        none.as_slice(),
        Ghost(tool_table()[4]),
    );
    let check = define_tool(
        "safehouse_check",
        CHECK_DESCRIPTION,
        vec![
            define_arg("peek", "boolean", PEEK_DESCRIPTION),
            define_arg("limit", "integer", CHECK_LIMIT_DESCRIPTION),
        ],
        none.as_slice(),
        Ghost(tool_table()[5]),
    );
    let tools = vec![send, create, link, list, read, check];
    proof {
        assert(json::trees(tools@) =~= Seq::new(tool_table().len(), |i: int| tool_tree(tool_table()[i])));
    }
    Json::Array(tools)
}

/// The operation that a tool is, and the arguments that it hands on.
pub open spec fn tool_operation(name: Seq<char>) -> Option<(Seq<char>, Seq<Seq<char>>)> {
    if name == "safehouse_send"@ {
        Some(("send"@, seq!["to"@, "body"@, "type"@, "task_id"@, "room"@, "wake"@]))
    } else if name == "safehouse_create_room"@ {
        Some(("create_room"@, seq!["name"@, "invite"@, "space"@, "parent"@]))
    } else if name == "safehouse_add_to_space"@ {
        Some(("add_to_space"@, seq!["space"@, "room"@]))
    } else if name == "safehouse_list_rooms"@ {
        Some(("list_rooms"@, seq![]))
    } else if name == "safehouse_read"@ {
        Some(("read"@, seq!["room"@, "limit"@]))
    } else if name == "safehouse_check"@ {
        Some(("check"@, seq!["peek"@, "limit"@]))
    } else {
        None
    }
}

/// The request with those of the arguments that are there and not null.
pub open spec fn with_arguments(
    op: Map<Seq<char>, Tree>,
    args: Tree,
    names: Seq<Seq<char>>,
) -> Map<Seq<char>, Tree>
    decreases names.len(),
{
    if names.len() == 0 {
        op
    } else {
        let before = with_arguments(op, args, names.drop_last());
        match envelope::optional_field(args, names.last()) {
            Some(value) => before.insert(names.last(), value),
            None => before,
        }
    }
}

/// Copies those of the fields that are there and not null.
fn copy_fields(from: &Json, to: &mut Vec<(String, Json)>, names: &[String])
    ensures
        json::field_map(json::tree_pairs(final(to)@)) == with_arguments(
            json::field_map(json::tree_pairs(old(to)@)),
            from@,
            text::views(names@),
        ),
{
    let ghost before = json::field_map(json::tree_pairs(to@));
    let ghost all = text::views(names@);
    let mut i: usize = 0;
    while i < names.len()
        invariant
            i <= names@.len(),
            all == text::views(names@),
            before == json::field_map(json::tree_pairs(old(to)@)),
            json::field_map(json::tree_pairs(to@)) == with_arguments(before, from@, all.take(i as int)),
        decreases names@.len() - i,
    {
        let name = names[i].as_str();
        proof {
            assert(all.take(i + 1).drop_last() =~= all.take(i as int));
            assert(all.take(i + 1).last() == name@);
        }
        match from.get(name) {
            Some(value) => {
                if !value.is_null() {
                    let ghost pairs = json::tree_pairs(to@);
                    to.push(json::pair(name, value.clone()));
                    proof {
                        let after = json::tree_pairs(to@);
                        assert(after.drop_last() =~= pairs);
                        assert(after.last() == (name@, value@));
                    }
                }
            },
            None => {},
        }
        i = i + 1;
    }
    proof {
        assert(all.take(all.len() as int) =~= all);
    }
}

/// The field of the frame's parameters.
pub open spec fn param(msg: Tree, name: Seq<char>) -> Option<Tree> {
    match json::field(msg, "params"@) {
        Some(params) => json::field(params, name),
        None => None,
    }
}

fn get_param<'a>(msg: &'a Json, name: &str) -> (r: Option<&'a Json>)
    ensures
        match r {
            Some(j) => param(msg@, name@) == Some(j@),
            None => param(msg@, name@) is None,
        },
{
    match msg.get("params") {
        Some(params) => params.get(name),
        None => None,
    }
}

/// The name of the tool that a frame calls; empty when it names none.
pub open spec fn called_tool(msg: Tree) -> Seq<char> {
    match param(msg, "name"@) {
        Some(Tree::Text(name)) => name,
        _ => Seq::empty(),
    }
}

/// The arguments of the tool that a frame calls; none when it has none.
pub open spec fn call_arguments(msg: Tree) -> Tree {
    match param(msg, "arguments"@) {
        Some(args) => args,
        None => Tree::Object(Map::empty()),
    }
}

/// The request that a tool call makes.
pub open spec fn tool_request(msg: Tree) -> Result<Tree, Seq<char>> {
    match tool_operation(called_tool(msg)) {
        Some(operation) => Ok(
            Tree::Object(
                with_arguments(
                    Map::empty().insert("op"@, Tree::Text(operation.0)),
                    call_arguments(msg),
                    operation.1,
                ),
            ),
        ),
        None => Err("unknown tool: "@ + called_tool(msg)),
    }
}

/// The operation that a tool is, and the arguments that it hands on.
fn operation_of(name: &str) -> (r: Option<(String, Vec<String>)>)
    ensures
        match r {
            Some(o) => tool_operation(name@) == Some((o.0@, text::views(o.1@))),
            None => tool_operation(name@) is None,
        },
{
    if same(name, "safehouse_send") {
        let names = vec![
            "to".to_owned(),
            "body".to_owned(),
            "type".to_owned(),
            "task_id".to_owned(),
            "room".to_owned(),
            "wake".to_owned(),
        ];
        proof {
            assert(text::views(names@) =~= (tool_operation(name@)->0).1);
        }
        Some(("send".to_owned(), names))
    } else if same(name, "safehouse_create_room") {
        let names = vec!["name".to_owned(), "invite".to_owned(), "space".to_owned(), "parent".to_owned()];
        proof {
            assert(text::views(names@) =~= (tool_operation(name@)->0).1);
        }
        Some(("create_room".to_owned(), names))
    } else if same(name, "safehouse_add_to_space") {
        let names = vec!["space".to_owned(), "room".to_owned()];
        proof {
            assert(text::views(names@) =~= (tool_operation(name@)->0).1);
        }
        Some(("add_to_space".to_owned(), names))
    } else if same(name, "safehouse_list_rooms") {
        let names: Vec<String> = Vec::new();
        proof {
            assert(text::views(names@) =~= (tool_operation(name@)->0).1);
        }
        Some(("list_rooms".to_owned(), names))
    } else if same(name, "safehouse_read") {
        let names = vec!["room".to_owned(), "limit".to_owned()];
        proof {
            assert(text::views(names@) =~= (tool_operation(name@)->0).1);
        }
        Some(("read".to_owned(), names))
    } else if same(name, "safehouse_check") {
        let names = vec!["peek".to_owned(), "limit".to_owned()];
        proof {
            assert(text::views(names@) =~= (tool_operation(name@)->0).1);
        }
        Some(("check".to_owned(), names))
    } else {
        None
    }
}

/// The request to the daemon that a tool call makes.
pub fn build_tool_op(msg: &Json) -> (r: Result<Json, String>)
    ensures
        json::parse_view(r) == tool_request(msg@),
{
    let name = match get_param(msg, "name") {
        Some(Json::Text(name)) => name.clone(),
        _ => {
            let none = String::new();
            proof {
                assert(none@ =~= Seq::empty());
            }
            none
        },
    };
    match operation_of(name.as_str()) {
        Some((op, names)) => {
            let mut fields = vec![json::pair("op", Json::text(op.as_str()))];
            proof {
                let pairs = json::tree_pairs(fields@);
                assert(pairs =~= seq![("op"@, Tree::Text(op@))]);
                assert(pairs.drop_last() =~= Seq::empty());
                reveal_with_fuel(json::field_map, 2);
                assert(json::field_map(pairs) =~= Map::empty().insert("op"@, Tree::Text(op@)));
            }
            match get_param(msg, "arguments") {
                Some(args) => copy_fields(args, &mut fields, names.as_slice()),
                None => {
                    let empty: Vec<(String, Json)> = Vec::new();
                    proof {
                        assert(json::tree_pairs(empty@) =~= Seq::empty());
                    }
                    copy_fields(&Json::Object(empty), &mut fields, names.as_slice());
                },
            }
            Ok(Json::Object(fields))
        },
        None => {
            let mut message = "unknown tool: ".to_owned();
            message.append(name.as_str());
            Err(message)
        },
    }
}

/// Every tool that is listed is served, and hands on exactly the arguments that
/// it lists, of which those that it requires come first.
pub proof fn law_listed_tools_are_served(i: int)
    requires
        0 <= i < tool_table().len(),
    ensures
        ({
            let tool = tool_table()[i];
            &&& tool_operation(tool.name) is Some
            &&& (tool_operation(tool.name)->0).1 == Seq::new(tool.args.len(), |k: int| tool.args[k].name)
            &&& tool.required.len() <= tool.args.len()
            &&& forall|k: int| 0 <= k < tool.required.len() ==> #[trigger] tool.required[k] == tool.args[k].name
        }),
{
    reveal_strlit("safehouse_send");
    reveal_strlit("safehouse_create_room");
    reveal_strlit("safehouse_add_to_space");
    reveal_strlit("safehouse_list_rooms");
    reveal_strlit("safehouse_read");
    reveal_strlit("safehouse_check");
    assert("safehouse_send"@.len() == 14 && "safehouse_create_room"@.len() == 21 && "safehouse_add_to_space"@.len()
        == 22 && "safehouse_list_rooms"@.len() == 20 && "safehouse_read"@.len() == 14 && "safehouse_check"@.len()
        == 15);
    assert("safehouse_send"@[10] == 's' && "safehouse_read"@[10] == 'r');
    let tool = tool_table()[i];
    assert((tool_operation(tool.name)->0).1 =~= Seq::new(tool.args.len(), |k: int| tool.args[k].name));
}

/// Whether the daemon's reply says that all went well.
pub open spec fn is_ok(reply: Tree) -> bool {
    json::bool_field(reply, "ok"@) == Some(true)
}

/// Whether the daemon's reply says that all went well.
pub fn reply_ok(reply: &Json) -> (r: bool)
    ensures
        r == is_ok(reply@),
{
    match reply.get_bool("ok") {
        Some(ok) => ok,
        None => false,
    }
}

/// What a tool call gives back: a text, and whether it tells of an error.
pub open spec fn tool_result_pairs(text: Seq<char>, is_error: bool) -> Seq<(Seq<char>, Tree)> {
    seq![
        (
            "content"@,
            Tree::Array(
                seq![json::object(seq![("type"@, Tree::Text("text"@)), ("text"@, Tree::Text(text))])],
            ),
        ),
        ("isError"@, Tree::Bool(is_error)),
    ]
}

/// What a tool call gives back of the daemon's reply, or of why there is none.
pub open spec fn tool_result(result: Result<Tree, Seq<char>>) -> Tree {
    match result {
        Ok(reply) => json::object(tool_result_pairs(json::printed_pretty(reply), !is_ok(reply))),
        Err(message) => json::object(tool_result_pairs(message, true)),
    }
}

/// What a tool call gives back: the text, and whether it tells of an error.
pub fn tool_result_json(message: &str, is_error: bool) -> (j: Json)
    ensures
        j@ == json::object(tool_result_pairs(message@, is_error)),
{
    let item = vec![json::pair("type", Json::text("text")), json::pair("text", Json::text(message))];
    let ghost item_pairs = seq![("type"@, Tree::Text("text"@)), ("text"@, Tree::Text(message@))];
    proof {
        assert(json::tree_pairs(item@) =~= item_pairs);
    }
    let content = vec![Json::Object(item)];
    proof {
        assert(json::trees(content@) =~= seq![json::object(item_pairs)]);
    }
    let fields = vec![json::pair("content", Json::Array(content)), json::pair("isError", Json::Bool(is_error))];
    proof {
        assert(json::tree_pairs(fields@) =~= tool_result_pairs(message@, is_error));
    }
    Json::Object(fields)
}

/// The fields of a frame that answers another with a result.
pub open spec fn result_pairs(id: Tree, result: Tree) -> Seq<(Seq<char>, Tree)> {
    seq![("jsonrpc"@, Tree::Text("2.0"@)), ("id"@, id), ("result"@, result)]
}

/// The code of every error that a frame is answered with.
pub const METHOD_NOT_FOUND: i64 = -32601;

/// The fields of a frame that answers another with an error.
pub open spec fn failure_pairs(id: Tree, message: Seq<char>) -> Seq<(Seq<char>, Tree)> {
    seq![
        ("jsonrpc"@, Tree::Text("2.0"@)),
        ("id"@, id),
        (
            "error"@,
            json::object(
                seq![("code"@, json::signed_tree(METHOD_NOT_FOUND)), ("message"@, Tree::Text(message))],
            ),
        ),
    ]
}

fn result_frame(id: &Json, result: Json) -> (j: Json)
    ensures
        j@ == json::object(result_pairs(id@, result@)),
{
    let fields = vec![
        json::pair("jsonrpc", Json::text("2.0")),
        json::pair("id", id.clone()),
        json::pair("result", result),
    ];
    proof {
        assert(json::tree_pairs(fields@) =~= result_pairs(id@, result@));
    }
    Json::Object(fields)
}

fn failure_frame(id: &Json, message: &str) -> (j: Json)
    ensures
        j@ == json::object(failure_pairs(id@, message@)),
{
    let error = vec![json::pair("code", Json::signed(METHOD_NOT_FOUND)), json::pair("message", Json::text(message))];
    let ghost error_pairs = seq![("code"@, json::signed_tree(METHOD_NOT_FOUND)), ("message"@, Tree::Text(message@))];
    proof {
        assert(json::tree_pairs(error@) =~= error_pairs);
    }
    let fields = vec![
        json::pair("jsonrpc", Json::text("2.0")),
        json::pair("id", id.clone()),
        json::pair("error", Json::Object(error)),
    ];
    proof {
        assert(json::tree_pairs(fields@) =~= failure_pairs(id@, message@));
    }
    Json::Object(fields)
}

/// The frame that answers the call of a tool with the result of the daemon.
pub open spec fn call_answer(id: Tree, result: Result<Tree, Seq<char>>) -> Tree {
    json::object(result_pairs(id, tool_result(result)))
}

/// The frame that answers the call of a tool with the result of the daemon.
pub fn finish_call(id: &Json, result: Result<Json, String>) -> (j: Json)
    ensures
        j@ == call_answer(id@, json::parse_view(result)),
        j@ == json::object(result_pairs(id@, tool_result(json::parse_view(result)))),
{
    match result {
        Ok(reply) => {
            let ok = reply_ok(&reply);
            result_frame(id, tool_result_json(reply.print_pretty().as_str(), !ok))
        },
        Err(message) => result_frame(id, tool_result_json(message.as_str(), true)),
    }
}

/// What a frame comes to.
#[derive(Debug)]
pub enum FrameStep {
    Nothing,
    /// This frame in answer.
    Reply(Json),
    /// The request to the daemon, whose result answers the frame of the id.
    Call { id: Json, op: Json },
}

/// The model of what a frame comes to.
pub enum FrameView {
    Nothing,
    Reply(Tree),
    Call { id: Tree, op: Tree },
}

impl View for FrameStep {
    type V = FrameView;

    open spec fn view(&self) -> FrameView {
        match self {
            FrameStep::Nothing => FrameView::Nothing,
            FrameStep::Reply(frame) => FrameView::Reply(frame@),
            FrameStep::Call { id, op } => FrameView::Call { id: id@, op: op@ },
        }
    }
}

/// The protocol version that is named to a client that names none.
pub const PROTOCOL_VERSION: &'static str = "2025-06-18";

/// The fields of the answer to a client that starts.
pub open spec fn initialize_pairs(msg: Tree, version: Seq<char>) -> Seq<(Seq<char>, Tree)> {
    seq![
        (
            "protocolVersion"@,
            match param(msg, "protocolVersion"@) {
                Some(version) => version,
                None => Tree::Text(PROTOCOL_VERSION@),
            },
        ),
        ("capabilities"@, json::object(seq![("tools"@, json::object(seq![]))])),
        (
            "serverInfo"@,
            json::object(
                seq![("name"@, Tree::Text("safehouse-mcp"@)), ("version"@, Tree::Text(version))],
            ),
        ),
    ]
}

fn initialize_result(msg: &Json, version: &str) -> (j: Json)
    ensures
        j@ == json::object(initialize_pairs(msg@, version@)),
{
    let protocol = match get_param(msg, "protocolVersion") {
        Some(version) => version.clone(),
        None => Json::text(PROTOCOL_VERSION),
    };
    let none: Vec<(String, Json)> = Vec::new();
    proof {
        assert(json::tree_pairs(none@) =~= seq![]);
    }
    let capabilities = vec![json::pair("tools", Json::Object(none))];
    proof {
        assert(json::tree_pairs(capabilities@) =~= seq![("tools"@, json::object(seq![]))]);
    }
    let info = vec![json::pair("name", Json::text("safehouse-mcp")), json::pair("version", Json::text(version))];
    proof {
        assert(json::tree_pairs(info@) =~= seq![
            ("name"@, Tree::Text("safehouse-mcp"@)),
            ("version"@, Tree::Text(version@)),
        ]);
    }
    let fields = vec![
        json::pair("protocolVersion", protocol),
        json::pair("capabilities", Json::Object(capabilities)),
        json::pair("serverInfo", Json::Object(info)),
    ];
    proof {
        assert(json::tree_pairs(fields@) =~= initialize_pairs(msg@, version@));
    }
    Json::Object(fields)
}

/// The method that a frame calls; empty when it names none.
pub open spec fn frame_method(msg: Tree) -> Seq<char> {
    match json::text_field(msg, "method"@) {
        Some(method) => method,
        None => Seq::empty(),
    }
}

/// What a frame comes to. One without an id is a notification, and is passed
/// over.
pub open spec fn frame_served(msg: Tree, version: Seq<char>) -> FrameView {
    let method = frame_method(msg);
    match json::field(msg, "id"@) {
        None => FrameView::Nothing,
        Some(id) => if method == "initialize"@ {
            FrameView::Reply(json::object(result_pairs(id, json::object(initialize_pairs(msg, version)))))
        } else if method == "ping"@ {
            FrameView::Reply(json::object(result_pairs(id, json::object(seq![]))))
        } else if method == "tools/list"@ {
            FrameView::Reply(
                json::object(result_pairs(id, json::object(seq![("tools"@, tools_tree())]))),
            )
        } else if method == "tools/call"@ {
            match tool_request(msg) {
                Ok(op) => FrameView::Call { id, op },
                Err(message) => FrameView::Reply(json::object(failure_pairs(id, message))),
            }
        } else {
            FrameView::Reply(json::object(failure_pairs(id, "method not found: "@ + method)))
        },
    }
}

/// What the frame comes to. `version` is that of the server.
pub fn serve_frame(msg: &Json, version: &str) -> (step: FrameStep)
    ensures
        step@ == frame_served(msg@, version@),
{
    let id = match msg.get("id") {
        Some(id) => id,
        None => {
            return FrameStep::Nothing;
        },
    };
    let method = match msg.get_str("method") {
        Some(method) => method.to_owned(),
        None => {
            let none = String::new();
            proof {
                assert(none@ =~= Seq::empty());
            }
            none
        },
    };
    if same(method.as_str(), "initialize") {
        FrameStep::Reply(result_frame(id, initialize_result(msg, version)))
    } else if same(method.as_str(), "ping") {
        let none: Vec<(String, Json)> = Vec::new();
        proof {
            assert(json::tree_pairs(none@) =~= seq![]);
        }
        FrameStep::Reply(result_frame(id, Json::Object(none)))
    } else if same(method.as_str(), "tools/list") {
        let fields = vec![json::pair("tools", tool_definitions())];
        proof {
            assert(json::tree_pairs(fields@) =~= seq![("tools"@, tools_tree())]);
        }
        FrameStep::Reply(result_frame(id, Json::Object(fields)))
    } else if same(method.as_str(), "tools/call") {
        match build_tool_op(msg) {
            Ok(op) => FrameStep::Call { id: id.clone(), op },
            Err(message) => FrameStep::Reply(failure_frame(id, message.as_str())),
        }
    } else {
        let mut message = "method not found: ".to_owned();
        message.append(method.as_str());
        FrameStep::Reply(failure_frame(id, message.as_str()))
    }
}

/// What a line comes to. A blank one is passed over, and so is one that is not
/// JSON.
pub open spec fn frame_line_served(line: Seq<char>, version: Seq<char>) -> FrameView {
    if text::trimmed(line).len() == 0 {
        FrameView::Nothing
    } else {
        match json::parsed(line) {
            Ok(msg) => frame_served(msg, version),
            Err(_) => FrameView::Nothing,
        }
    }
}

/// What the line comes to. `version` is that of the server.
pub fn serve_line(line: &str, version: &str) -> (step: FrameStep)
    ensures
        step@ == frame_line_served(line@, version@),
{
    if chars_of(trim(line).as_str()).len() == 0 {
        return FrameStep::Nothing;
    }
    match Json::parse(line) {
        Ok(msg) => serve_frame(&msg, version),
        Err(_) => FrameStep::Nothing,
    }
}

/// Every answer carries the id of the frame that it answers.
pub proof fn law_answers_carry_the_id(msg: Tree, version: Seq<char>)
    ensures
        match frame_served(msg, version) {
            FrameView::Nothing => json::field(msg, "id"@) is None,
            FrameView::Reply(frame) => json::field(frame, "id"@) == json::field(msg, "id"@),
            FrameView::Call { id, .. } => json::field(msg, "id"@) == Some(id),
        },
{
    reveal_strlit("jsonrpc");
    reveal_strlit("id");
    reveal_strlit("result");
    reveal_strlit("error");
    assert("jsonrpc"@.len() == 7 && "id"@.len() == 2 && "result"@.len() == 6 && "error"@.len() == 5);
    assert forall|id: Tree, result: Tree| json::field(#[trigger] json::object(result_pairs(id, result)), "id"@) == Some(
        id,
    ) by {
        json::lemma_field_map_found(result_pairs(id, result), "id"@, 1);
    }
    assert forall|id: Tree, message: Seq<char>|
        json::field(#[trigger] json::object(failure_pairs(id, message)), "id"@) == Some(id) by {
        json::lemma_field_map_found(failure_pairs(id, message), "id"@, 1);
    }
}

/// The fields of the request by which the persona is named to the daemon.
pub open spec fn hello_request_pairs(persona: Seq<char>) -> Seq<(Seq<char>, Tree)> {
    seq![
        ("id"@, json::unsigned_tree(0)),
        ("op"@, Tree::Text("hello"@)),
        ("persona"@, Tree::Text(persona)),
    ]
}

/// The request by which the persona is named to the daemon.
pub fn hello_request(persona: &str) -> (j: Json)
    ensures
        j@ == json::object(hello_request_pairs(persona@)),
{
    let fields = vec![
        json::pair("id", Json::unsigned(0)),
        json::pair("op", Json::text("hello")),
        json::pair("persona", Json::text(persona)),
    ];
    proof {
        assert(json::tree_pairs(fields@) =~= hello_request_pairs(persona@));
    }
    Json::Object(fields)
}

/// Why the daemon did not let the persona in, when it did not.
pub open spec fn hello_refusal(reply: Tree, persona: Seq<char>) -> Option<Seq<char>> {
    if is_ok(reply) {
        None
    } else {
        Some(
            "daemon rejected persona "@ + text::debug_text(persona) + ": "@ + (match json::text_field(
                reply,
                "error"@,
            ) {
                Some(error) => error,
                None => "unknown error"@,
            }),
        )
    }
}

/// Accepts the daemon's reply when it let the persona in.
pub fn check_hello(reply: &Json, persona: &str) -> (r: Result<(), String>)
    ensures
        match r {
            Ok(()) => hello_refusal(reply@, persona@) is None,
            Err(message) => hello_refusal(reply@, persona@) == Some(message@),
        },
{
    if reply_ok(reply) {
        return Ok(());
    }
    let mut message = "daemon rejected persona ".to_owned();
    message.append(debug_form(persona).as_str());
    message.append(": ");
    match reply.get_str("error") {
        Some(error) => message.append(error),
        None => message.append("unknown error"),
    }
    Err(message)
}

/// The request with the number that tells its reply from the first one.
pub open spec fn numbered(op: Tree) -> Option<Tree> {
    match op {
        Tree::Object(fields) => Some(Tree::Object(fields.insert("id"@, json::unsigned_tree(1)))),
        _ => None,
    }
}

/// The request with the number that tells its reply from the first one; none
/// when it is not an object.
pub fn number_request(op: Json) -> (r: Option<Json>)
    ensures
        envelope::optional_tree(r) == numbered(op@),
{
    match op {
        Json::Object(fields) => {
            let ghost before = json::tree_pairs(fields@);
            let mut fields = fields;
            fields.push(json::pair("id", Json::unsigned(1)));
            proof {
                let after = json::tree_pairs(fields@);
                assert(after.drop_last() =~= before);
                assert(after.last() == ("id"@, json::unsigned_tree(1)));
            }
            Some(Json::Object(fields))
        },
        _ => None,
    }
}

/// A line from the daemon.
#[derive(Debug)]
pub enum DaemonLine {
    /// An event of the room, not meant as a reply.
    Push,
    Reply(Json),
    /// Not JSON, for this reason.
    Bad(String),
}

/// What a value from the daemon is: an event is pushed, anything else is a
/// reply.
pub open spec fn is_push(value: Tree) -> bool {
    json::field(value, "event"@) is Some
}

/// What the value from the daemon is.
pub fn sort_daemon_value(value: Json) -> (r: DaemonLine)
    ensures
        if is_push(value@) {
            r is Push
        } else {
            r matches DaemonLine::Reply(reply) && reply@ == value@
        },
{
    if value.get("event").is_some() {
        DaemonLine::Push
    } else {
        DaemonLine::Reply(value)
    }
}

/// What the line from the daemon is.
pub fn read_daemon_line(line: &str) -> (r: DaemonLine)
    ensures
        match json::parsed(line@) {
            Ok(value) => if is_push(value) {
                r is Push
            } else {
                r matches DaemonLine::Reply(reply) && reply@ == value
            },
            Err(message) => r matches DaemonLine::Bad(m) && m@ == "bad reply from daemon: "@ + message,
        },
{
    match Json::parse(line) {
        Ok(value) => sort_daemon_value(value),
        Err(message) => {
            let mut m = "bad reply from daemon: ".to_owned();
            m.append(message.as_str());
            DaemonLine::Bad(m)
        },
    }
}

} // verus!
