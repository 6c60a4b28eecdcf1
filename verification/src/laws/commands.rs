//! The command line: what its arguments ask for.
use vstd::prelude::*;
use vstd::string::*;

use crate::cli;
use crate::cli::InvocationView;
use crate::json;
use crate::json::Tree;
use crate::laws::routing::law_message_types;
use crate::text;

verus! {

/// A number is written in digits, with a plus sign or without; anything with
/// another character in it, and a number past the range, is none.
pub proof fn law_what_a_number_is(s: Seq<char>, d: Seq<char>, c: char)
    ensures
        s.len() == 0 ==> cli::u64_of(s) is None,
        cli::u64_of(seq!['+'] + seq!['+'] + s) is None,
        s.len() > 0 && s[0] != '+' ==> cli::u64_of(seq!['+'] + s) == cli::u64_of(s),
        !('0' <= c <= '9') ==> cli::u64_of(s + seq![c] + d) is None || (s.len() == 0 && c == '+'),
        '0' <= c <= '9' && s.len() > 0 && (cli::u64_of(s) matches Some(n)) ==> {
            let n = 10 * cli::u64_of(s)->0 + (c as int - 48);
            &&& n <= u64::MAX ==> cli::u64_of(s.push(c)) == Some(n as u64)
            &&& n > u64::MAX ==> cli::u64_of(s.push(c)) is None
        },
        '0' <= c <= '9' ==> cli::u64_of(seq![c]) == Some((c as int - 48) as u64),
{
    let plus = seq!['+'] + seq!['+'] + s;
    assert(cli::without_plus(plus) =~= seq!['+'] + s);
    assert((seq!['+'] + s)[0] == '+');
    assert(!crate::completion::is_digit((seq!['+'] + s)[0]));
    assert(cli::without_plus(seq!['+'] + s) =~= s);
    if !('0' <= c <= '9') {
        let all = s + seq![c] + d;
        let digits = cli::without_plus(all);
        assert(all[s.len() as int] == c);
        if s.len() > 0 && s[0] == '+' {
            assert(all[0] == '+');
            assert(digits[s.len() - 1] == c);
            assert(!crate::completion::is_digit(digits[s.len() - 1]));
        } else if s.len() > 0 {
            assert(all[0] == s[0]);
            assert(digits[s.len() as int] == c);
            assert(!crate::completion::is_digit(digits[s.len() as int]));
        } else if c != '+' {
            assert(all[0] == c);
            assert(digits[0] == c);
            assert(!crate::completion::is_digit(digits[0]));
        }
    } else {
        let more = s.push(c);
        let front = cli::without_plus(s);
        let digits = cli::without_plus(more);
        if s.len() > 0 {
            assert(more[0] == s[0]);
            assert(digits =~= front.push(c));
            assert(digits.drop_last() =~= front);
            if cli::u64_of(s) is Some {
                assert forall|i: int| 0 <= i < digits.len() implies crate::completion::is_digit(
                    #[trigger] digits[i],
                ) by {
                    if i < front.len() {
                        assert(digits[i] == front[i]);
                    }
                }
                assert(cli::digits_value(digits) == 10 * cli::digits_value(front) + (c as int - 48));
            }
        }
        reveal_with_fuel(cli::digits_value, 2);
        let one = seq![c];
        assert(cli::without_plus(one) == one);
        assert(one.drop_last() =~= Seq::<char>::empty());
        assert(crate::completion::is_digit(one[0]));
        assert(cli::digits_value(one) == c as int - 48);
    }
}

/// The arguments of `read`, one by one: the room, the number of messages, and
/// nothing else.
pub proof fn law_arguments_of_read(
    op: Map<Seq<char>, Tree>,
    value: Seq<char>,
    rest: Seq<Seq<char>>,
    other: Seq<char>,
)
    ensures
        cli::read_args(Seq::empty(), op) == Ok::<Map<Seq<char>, Tree>, Seq<char>>(op),
        cli::read_args(seq!["--room"@, value] + rest, op) == cli::read_args(
            rest,
            op.insert("room"@, Tree::Text(value)),
        ),
        match cli::u64_of(value) {
            Some(n) => cli::read_args(seq!["--limit"@, value] + rest, op) == cli::read_args(
                rest,
                op.insert("limit"@, json::unsigned_tree(n)),
            ),
            None => cli::read_args(seq!["--limit"@, value] + rest, op) == Err::<Map<Seq<char>, Tree>, Seq<char>>(
                "--limit"@ + " must be a non-negative integer, got "@ + text::debug_text(value),
            ),
        },
        cli::read_args(seq!["--room"@], op) == Err::<Map<Seq<char>, Tree>, Seq<char>>("--room"@ + " requires a value"@),
        cli::read_args(seq!["--limit"@], op) == Err::<Map<Seq<char>, Tree>, Seq<char>>(
            "--limit"@ + " requires a value"@,
        ),
        other != "--room"@ && other != "--limit"@ ==> cli::read_args(seq![other] + rest, op) == Err::<
            Map<Seq<char>, Tree>,
            Seq<char>,
        >("read"@ + ": unknown argument "@ + text::debug_text(other)),
{
    reveal_strlit("--room");
    reveal_strlit("--limit");
    assert("--room"@.len() == 6 && "--limit"@.len() == 7);
    let room = seq!["--room"@, value] + rest;
    let limit = seq!["--limit"@, value] + rest;
    assert(room.skip(2) =~= rest && limit.skip(2) =~= rest);
    assert(room[0] == "--room"@ && room[1] == value && limit[0] == "--limit"@ && limit[1] == value);
    assert((seq![other] + rest)[0] == other);
}

/// The arguments of `send`, one by one: each puts what follows it into the request
/// under its name; the type has to be one that is understood; and the hint stands
/// alone.
pub proof fn law_arguments_of_send(
    op: Map<Seq<char>, Tree>,
    value: Seq<char>,
    rest: Seq<Seq<char>>,
    other: Seq<char>,
)
    ensures
        cli::send_args(Seq::empty(), op) == Ok::<Map<Seq<char>, Tree>, Seq<char>>(op),
        cli::send_args(seq!["--to"@, value] + rest, op) == cli::send_args(rest, op.insert("to"@, Tree::Text(value))),
        cli::send_args(seq!["--body"@, value] + rest, op) == cli::send_args(
            rest,
            op.insert("body"@, Tree::Text(value)),
        ),
        cli::send_args(seq!["--task-id"@, value] + rest, op) == cli::send_args(
            rest,
            op.insert("task_id"@, Tree::Text(value)),
        ),
        cli::send_args(seq!["--room"@, value] + rest, op) == cli::send_args(
            rest,
            op.insert("room"@, Tree::Text(value)),
        ),
        cli::send_args(seq!["--wake"@] + rest, op) == cli::send_args(rest, op.insert("wake"@, Tree::Bool(true))),
        ({
            let known = value == "chat"@ || value == "task"@ || value == "handoff"@ || value == "ack"@ || value
                == "completion"@ || value == "digest"@;
            let sent = cli::send_args(seq!["--type"@, value] + rest, op);
            &&& known ==> sent == cli::send_args(rest, op.insert("type"@, Tree::Text(value)))
            &&& !known ==> sent == Err::<Map<Seq<char>, Tree>, Seq<char>>(
                "send: --type must be one of "@
                    + "[\"chat\", \"task\", \"handoff\", \"ack\", \"completion\", \"digest\"]"@ + ", got "@
                    + text::debug_text(value),
            )
        }),
        cli::send_args(seq!["--to"@], op) == Err::<Map<Seq<char>, Tree>, Seq<char>>("--to"@ + " requires a value"@),
        cli::send_args(seq!["--body"@], op) == Err::<Map<Seq<char>, Tree>, Seq<char>>("--body"@ + " requires a value"@),
        cli::send_args(seq!["--type"@], op) == Err::<Map<Seq<char>, Tree>, Seq<char>>("--type"@ + " requires a value"@),
        cli::send_args(seq!["--task-id"@], op) == Err::<Map<Seq<char>, Tree>, Seq<char>>(
            "--task-id"@ + " requires a value"@,
        ),
        cli::send_args(seq!["--room"@], op) == Err::<Map<Seq<char>, Tree>, Seq<char>>("--room"@ + " requires a value"@),
        other != "--to"@ && other != "--body"@ && other != "--type"@ && other != "--task-id"@ && other != "--room"@
            && other != "--wake"@ ==> cli::send_args(seq![other] + rest, op) == Err::<Map<Seq<char>, Tree>, Seq<char>>(
            "send"@ + ": unknown argument "@ + text::debug_text(other),
        ),
{
    reveal_strlit("--to");
    reveal_strlit("--body");
    reveal_strlit("--type");
    reveal_strlit("--task-id");
    reveal_strlit("--room");
    reveal_strlit("--wake");
    assert("--to"@.len() == 4 && "--body"@.len() == 6 && "--type"@.len() == 6 && "--task-id"@.len() == 9);
    assert("--room"@.len() == 6 && "--wake"@.len() == 6);
    assert("--body"@[2] == 'b' && "--type"@[2] == 't' && "--room"@[2] == 'r' && "--wake"@[2] == 'w');
    law_message_types(value);
    let to = seq!["--to"@, value] + rest;
    let body = seq!["--body"@, value] + rest;
    let kind = seq!["--type"@, value] + rest;
    let task = seq!["--task-id"@, value] + rest;
    let room = seq!["--room"@, value] + rest;
    let wake = seq!["--wake"@] + rest;
    assert(to.skip(2) =~= rest && body.skip(2) =~= rest && kind.skip(2) =~= rest && task.skip(2) =~= rest && room.skip(
        2,
    ) =~= rest && wake.skip(1) =~= rest);
    assert(to[0] == "--to"@ && to[1] == value && body[0] == "--body"@ && body[1] == value);
    assert(kind[0] == "--type"@ && kind[1] == value && task[0] == "--task-id"@ && task[1] == value);
    assert(room[0] == "--room"@ && room[1] == value && wake[0] == "--wake"@);
    assert((seq![other] + rest)[0] == other);
}

/// A message from the command line needs an addressee and a text; with both it is
/// sent as the arguments have it.
pub proof fn law_what_send_needs(args: Seq<Seq<char>>)
    ensures
        ({
            let request = Map::empty().insert("op"@, Tree::Text("send"@));
            match cli::send_args(args, request) {
                Err(message) => cli::send_request(args) == Err::<Map<Seq<char>, Tree>, Seq<char>>(message),
                Ok(op) => {
                    &&& !op.dom().contains("to"@) ==> cli::send_request(args) == Err::<Map<Seq<char>, Tree>, Seq<char>>(
                        "send: --to is required"@,
                    )
                    &&& op.dom().contains("to"@) && !op.dom().contains("body"@) ==> cli::send_request(args) == Err::<
                        Map<Seq<char>, Tree>,
                        Seq<char>,
                    >("send: --body is required"@)
                    &&& op.dom().contains("to"@) && op.dom().contains("body"@) ==> cli::send_request(args) == Ok::<
                        Map<Seq<char>, Tree>,
                        Seq<char>,
                    >(op)
                },
            }
        }),
{
}

/// The arguments of `check`, one by one: to consume, to peek, and how many.
pub proof fn law_arguments_of_check(
    consume: bool,
    limit: Option<u64>,
    value: Seq<char>,
    rest: Seq<Seq<char>>,
    other: Seq<char>,
)
    ensures
        cli::check_args(Seq::empty(), consume, limit) == Ok::<(bool, Option<u64>), Seq<char>>((consume, limit)),
        cli::check_args(seq!["--consume"@] + rest, consume, limit) == cli::check_args(rest, true, limit),
        cli::check_args(seq!["--peek"@] + rest, consume, limit) == cli::check_args(rest, consume, limit),
        match cli::u64_of(value) {
            Some(n) => cli::check_args(seq!["--limit"@, value] + rest, consume, limit) == cli::check_args(
                rest,
                consume,
                Some(n),
            ),
            None => cli::check_args(seq!["--limit"@, value] + rest, consume, limit) == Err::<
                (bool, Option<u64>),
                Seq<char>,
            >("--limit"@ + " must be a non-negative integer, got "@ + text::debug_text(value)),
        },
        cli::check_args(seq!["--limit"@], consume, limit) == Err::<(bool, Option<u64>), Seq<char>>(
            "--limit"@ + " requires a value"@,
        ),
        other != "--consume"@ && other != "--peek"@ && other != "--limit"@ ==> cli::check_args(
            seq![other] + rest,
            consume,
            limit,
        ) == Err::<(bool, Option<u64>), Seq<char>>("check"@ + ": unknown argument "@ + text::debug_text(other)),
{
    reveal_strlit("--consume");
    reveal_strlit("--peek");
    reveal_strlit("--limit");
    assert("--consume"@.len() == 9 && "--peek"@.len() == 6 && "--limit"@.len() == 7);
    let consuming = seq!["--consume"@] + rest;
    let peeking = seq!["--peek"@] + rest;
    let limited = seq!["--limit"@, value] + rest;
    assert(consuming.skip(1) =~= rest && peeking.skip(1) =~= rest && limited.skip(2) =~= rest);
    assert(consuming[0] == "--consume"@ && peeking[0] == "--peek"@ && limited[0] == "--limit"@ && limited[1] == value);
    assert((seq![other] + rest)[0] == other);
}

/// What is checked for: a peek unless it was told to consume, and the number where
/// one was given.
pub proof fn law_what_check_asks_for(args: Seq<Seq<char>>)
    ensures
        match cli::check_args(args, false, None) {
            Err(message) => cli::check_request(args) == Err::<Map<Seq<char>, Tree>, Seq<char>>(message),
            Ok(asked) => cli::check_request(args) matches Ok(op) && {
                let request = Tree::Object(op);
                &&& json::text_field(request, "op"@) == Some("check"@)
                &&& json::bool_field(request, "peek"@) == Some(!asked.0)
                &&& json::unsigned_field(request, "limit"@) == asked.1
                &&& asked.1 is None ==> json::field(request, "limit"@) is None
            },
        },
{
    reveal_strlit("op");
    reveal_strlit("peek");
    reveal_strlit("limit");
    assert("op"@.len() == 2 && "peek"@.len() == 4 && "limit"@.len() == 5);
}

/// Each subcommand makes the request of its operation, and there are five of them.
pub proof fn law_subcommands(args: Seq<Seq<char>>, sub: Seq<char>)
    ensures
        cli::cli_request("read"@, args) == Some(
            cli::read_args(args, Map::empty().insert("op"@, Tree::Text("read"@))),
        ),
        cli::cli_request("send"@, args) == Some(cli::send_request(args)),
        cli::cli_request("check"@, args) == Some(cli::check_request(args)),
        args.len() == 0 ==> cli::cli_request("list-rooms"@, args) == Some(
            Ok::<Map<Seq<char>, Tree>, Seq<char>>(Map::empty().insert("op"@, Tree::Text("list_rooms"@))),
        ),
        args.len() == 0 ==> cli::cli_request("status"@, args) == Some(
            Ok::<Map<Seq<char>, Tree>, Seq<char>>(Map::empty().insert("op"@, Tree::Text("status"@))),
        ),
        args.len() > 0 ==> cli::cli_request("list-rooms"@, args) == Some(
            Err::<Map<Seq<char>, Tree>, Seq<char>>("list-rooms"@ + ": unknown argument "@ + text::debug_text(args[0])),
        ),
        args.len() > 0 ==> cli::cli_request("status"@, args) == Some(
            Err::<Map<Seq<char>, Tree>, Seq<char>>("status"@ + ": unknown argument "@ + text::debug_text(args[0])),
        ),
        sub != "read"@ && sub != "send"@ && sub != "check"@ && sub != "list-rooms"@ && sub != "status"@
            ==> cli::cli_request(sub, args) is None,
{
    reveal_strlit("read");
    reveal_strlit("send");
    reveal_strlit("check");
    reveal_strlit("list-rooms");
    reveal_strlit("status");
    assert("read"@.len() == 4 && "send"@.len() == 4 && "check"@.len() == 5 && "list-rooms"@.len() == 10);
    assert("status"@.len() == 6);
    assert("read"@[0] == 'r' && "send"@[0] == 's');
}

/// Whether the argument asks for help or for the version.
pub open spec fn is_query(arg: Seq<char>) -> bool {
    arg == "--help"@ || arg == "-h"@ || arg == "--version"@ || arg == "-V"@
}

/// The first argument that asks for help or the version is answered, wherever it
/// stands. Otherwise a subcommand is run, or fails for its reason; without one, and
/// with flags alone, frames are served; and a word that is none is told.
pub proof fn law_what_is_run(before: Seq<Seq<char>>, query: Seq<char>, behind: Seq<Seq<char>>)
    requires
        forall|i: int| 0 <= i < before.len() ==> !is_query(#[trigger] before[i]),
    ensures
        query == "--help"@ || query == "-h"@ ==> cli::invocation(before + seq![query] + behind)
            == InvocationView::Help,
        query == "--version"@ || query == "-V"@ ==> cli::invocation(before + seq![query] + behind)
            == InvocationView::Version,
        before.len() == 0 ==> cli::invocation(before) == InvocationView::Serve,
        before.len() > 0 ==> match cli::cli_request(before[0], before.skip(1)) {
            Some(Ok(op)) => cli::invocation(before) == InvocationView::Run { sub: before[0], op: Tree::Object(op) },
            Some(Err(message)) => cli::invocation(before) == InvocationView::Fail(message),
            None => if before[0].len() > 0 && before[0][0] == '-' {
                cli::invocation(before) == InvocationView::Serve
            } else {
                cli::invocation(before) == InvocationView::UnknownSubcommand(before[0])
            },
        },
{
    lemma_no_query(before);
    lemma_first_query(before, query, behind);
}

proof fn lemma_no_query(args: Seq<Seq<char>>)
    requires
        forall|i: int| 0 <= i < args.len() ==> !is_query(#[trigger] args[i]),
    ensures
        cli::first_query(args) is None,
    decreases args.len(),
{
    if args.len() > 0 {
        assert(!is_query(args[0]));
        assert forall|i: int| 0 <= i < args.drop_first().len() implies !is_query(#[trigger] args.drop_first()[i]) by {
            assert(args.drop_first()[i] == args[i + 1]);
        }
        lemma_no_query(args.drop_first());
    }
}

proof fn lemma_first_query(before: Seq<Seq<char>>, query: Seq<char>, behind: Seq<Seq<char>>)
    requires
        forall|i: int| 0 <= i < before.len() ==> !is_query(#[trigger] before[i]),
    ensures
        query == "--help"@ || query == "-h"@ ==> cli::first_query(before + seq![query] + behind) == Some(
            InvocationView::Help,
        ),
        query == "--version"@ || query == "-V"@ ==> cli::first_query(before + seq![query] + behind) == Some(
            InvocationView::Version,
        ),
    decreases before.len(),
{
    reveal_strlit("--help");
    reveal_strlit("-h");
    reveal_strlit("--version");
    reveal_strlit("-V");
    assert("--help"@.len() == 6 && "-h"@.len() == 2 && "--version"@.len() == 9 && "-V"@.len() == 2);
    assert("-h"@[1] == 'h' && "-V"@[1] == 'V');
    let all = before + seq![query] + behind;
    if before.len() > 0 {
        assert(!is_query(before[0]));
        assert(all[0] == before[0]);
        assert(all.drop_first() =~= before.drop_first() + seq![query] + behind);
        assert forall|i: int| 0 <= i < before.drop_first().len() implies !is_query(
            #[trigger] before.drop_first()[i],
        ) by {
            assert(before.drop_first()[i] == before[i + 1]);
        }
        lemma_first_query(before.drop_first(), query, behind);
    } else {
        assert(all[0] == query);
    }
}

} // verus!
