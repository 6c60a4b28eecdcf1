//! The command line: what the arguments ask for, and the request to the daemon
//! that they make.
use vstd::prelude::*;
use vstd::string::*;

use crate::completion;
use crate::envelope;
use crate::json;
use crate::json::{Json, Tree};
use crate::text;
use crate::text::{chars_of, contains_text, debug_form, same};

verus! {

/// The number that the digits stand for.
pub open spec fn digits_value(s: Seq<char>) -> nat
    decreases s.len(),
{
    if s.len() == 0 {
        0
    } else {
        10 * digits_value(s.drop_last()) + (s.last() as nat - '0' as nat) as nat
    }
}

/// The text without a leading plus sign.
pub open spec fn without_plus(s: Seq<char>) -> Seq<char> {
    if s.len() > 0 && s[0] == '+' {
        s.skip(1)
    } else {
        s
    }
}

/// The number that the text stands for: one or more digits, behind a plus sign
/// or not, in the range of `u64`.
pub open spec fn u64_of(s: Seq<char>) -> Option<u64> {
    let digits = without_plus(s);
    if digits.len() > 0 && (forall|i: int| 0 <= i < digits.len() ==> completion::is_digit(#[trigger] digits[i]))
        && digits_value(digits) <= u64::MAX {
        Some(digits_value(digits) as u64)
    } else {
        None
    }
}

/// The number of a part of the digits is no higher than that of all of them.
proof fn lemma_digits_value_grows(s: Seq<char>, n: int)
    requires
        0 <= n <= s.len(),
        forall|i: int| 0 <= i < s.len() ==> completion::is_digit(#[trigger] s[i]),
    ensures
        digits_value(s.take(n)) <= digits_value(s),
    decreases s.len() - n,
{
    if n == s.len() {
        assert(s.take(n) =~= s);
    } else {
        lemma_digits_value_grows(s, n + 1);
        assert(s.take(n + 1).drop_last() =~= s.take(n));
        assert(completion::is_digit(s[n]));
    }
}

/// The number that the text stands for.
pub fn parse_u64(s: &str) -> (r: Option<u64>)
    ensures
        r == u64_of(s@),
{
    let v = chars_of(s);
    let start: usize = if v.len() > 0 && v[0] == '+' {
        1
    } else {
        0
    };
    let ghost digits = without_plus(s@);
    proof {
        assert(digits =~= v@.skip(start as int));
    }
    if start == v.len() {
        return None;
    }
    let mut i: usize = start;
    while i < v.len()
        invariant
            v@ == s@,
            start <= i <= v@.len(),
            digits == v@.skip(start as int),
            digits == without_plus(s@),
            forall|k: int| 0 <= k < i - start ==> completion::is_digit(#[trigger] digits[k]),
        decreases v@.len() - i,
    {
        if !completion::digit(v[i]) {
            proof {
                assert(digits[i - start] == v@[i as int]);
            }
            return None;
        }
        proof {
            assert(digits[i - start] == v@[i as int]);
        }
        i = i + 1;
    }
    let mut value: u64 = 0;
    let mut k: usize = start;
    proof {
        assert(digits.take(0) =~= Seq::empty());
    }
    while k < v.len()
        invariant
            v@ == s@,
            start <= k <= v@.len(),
            digits == v@.skip(start as int),
            digits == without_plus(s@),
            digits.len() > 0,
            forall|i: int| 0 <= i < digits.len() ==> completion::is_digit(#[trigger] digits[i]),
            value == digits_value(digits.take(k - start)),
        decreases v@.len() - k,
    {
        let ghost at = k - start;
        proof {
            assert(digits[at] == v@[k as int]);
            assert(digits.take(at + 1).drop_last() =~= digits.take(at));
            assert(digits.take(at + 1).last() == v@[k as int]);
            lemma_digits_value_grows(digits, at + 1);
        }
        let d: u64 = v[k] as u64 - '0' as u64;
        if value > (u64::MAX - d) / 10 {
            proof {
                assert(10 * value + d > u64::MAX);
            }
            return None;
        }
        value = value * 10 + d;
        k = k + 1;
    }
    proof {
        assert(digits.take(digits.len() as int) =~= digits);
    }
    Some(value)
}

/// A request under construction: its fields so far.
pub open spec fn request(op: Seq<char>) -> Map<Seq<char>, Tree> {
    Map::empty().insert("op"@, Tree::Text(op))
}

/// What the arguments make of a request.
pub type Built = Result<Map<Seq<char>, Tree>, Seq<char>>;

/// What is said of a flag that comes last and has no value.
pub open spec fn value_missing(flag: Seq<char>) -> Seq<char> {
    flag + " requires a value"@
}

/// What is said of a flag whose value is not a number.
pub open spec fn not_a_number(flag: Seq<char>, raw: Seq<char>) -> Seq<char> {
    flag + " must be a non-negative integer, got "@ + text::debug_text(raw)
}

/// The value of the flag at the index, and the index behind it.
pub fn flag_value(args: &[String], i: &mut usize, flag: &str) -> (r: Result<String, String>)
    requires
        *old(i) < usize::MAX,
    ensures
        match r {
            Ok(value) => {
                &&& *old(i) + 1 < args@.len()
                &&& value@ == args@[*old(i) + 1]@
                &&& *final(i) == *old(i) + 2
            },
            Err(message) => {
                &&& *old(i) + 1 >= args@.len()
                &&& message@ == value_missing(flag@)
                &&& *final(i) == *old(i)
            },
        },
{
    let len: usize = args.len();
    if *i >= len || len - *i < 2 {
        let mut message = flag.to_owned();
        message.append(" requires a value");
        return Err(message);
    }
    let value = args[*i + 1].clone();
    *i = *i + 2;
    Ok(value)
}

/// The number that the flag at the index has as its value. The index is put
/// behind the value where there is one, whether it is a number or not.
pub fn flag_u64(args: &[String], i: &mut usize, flag: &str) -> (r: Result<u64, String>)
    requires
        *old(i) < usize::MAX,
    ensures
        match r {
            Ok(n) => {
                &&& *old(i) + 1 < args@.len()
                &&& u64_of(args@[*old(i) + 1]@) == Some(n)
                &&& *final(i) == *old(i) + 2
            },
            Err(message) => if *old(i) + 1 >= args@.len() {
                &&& message@ == value_missing(flag@)
                &&& *final(i) == *old(i)
            } else {
                &&& u64_of(args@[*old(i) + 1]@) is None
                &&& message@ == not_a_number(flag@, args@[*old(i) + 1]@)
                &&& *final(i) == *old(i) + 2
            },
        },
{
    match flag_value(args, i, flag) {
        Err(message) => Err(message),
        Ok(raw) => match parse_u64(raw.as_str()) {
            Some(n) => Ok(n),
            None => {
                let mut message = flag.to_owned();
                message.append(" must be a non-negative integer, got ");
                message.append(debug_form(raw.as_str()).as_str());
                Err(message)
            },
        },
    }
}

/// What is said of an argument that the subcommand does not know.
pub open spec fn unknown_argument(sub: Seq<char>, arg: Seq<char>) -> Seq<char> {
    sub + ": unknown argument "@ + text::debug_text(arg)
}

fn unknown(sub: &str, arg: &str) -> (message: String)
    ensures
        message@ == unknown_argument(sub@, arg@),
{
    let mut message = sub.to_owned();
    message.append(": unknown argument ");
    message.append(debug_form(arg).as_str());
    message
}

/// The request with the flag's text in the field, and what the rest of the
/// arguments make of it.
pub open spec fn text_flag(
    args: Seq<Seq<char>>,
    op: Map<Seq<char>, Tree>,
    flag: Seq<char>,
    name: Seq<char>,
) -> Built {
    if args.len() < 2 {
        Err(value_missing(flag))
    } else {
        Ok(op.insert(name, Tree::Text(args[1])))
    }
}

/// The request with the flag's number in the field.
pub open spec fn number_flag(
    args: Seq<Seq<char>>,
    op: Map<Seq<char>, Tree>,
    flag: Seq<char>,
    name: Seq<char>,
) -> Built {
    if args.len() < 2 {
        Err(value_missing(flag))
    } else {
        match u64_of(args[1]) {
            Some(n) => Ok(op.insert(name, json::unsigned_tree(n))),
            None => Err(not_a_number(flag, args[1])),
        }
    }
}

/// What the arguments of `read` make of the request: `--room` and `--limit`,
/// the last of each counting.
pub open spec fn read_args(args: Seq<Seq<char>>, op: Map<Seq<char>, Tree>) -> Built
    decreases args.len(),
{
    if args.len() == 0 {
        Ok(op)
    } else {
        let next = if args[0] == "--room"@ {
            text_flag(args, op, "--room"@, "room"@)
        } else if args[0] == "--limit"@ {
            number_flag(args, op, "--limit"@, "limit"@)
        } else {
            Err(unknown_argument("read"@, args[0]))
        };
        match next {
            Ok(op) => if args.len() < 2 {
                Ok(op)
            } else {
                read_args(args.skip(2), op)
            },
            Err(message) => Err(message),
        }
    }
}

/// The models of a built request and of a message in words.
pub open spec fn built_view(r: Result<Json, String>) -> Result<Tree, Seq<char>> {
    match r {
        Ok(j) => Ok(j@),
        Err(message) => Err(message@),
    }
}

/// The request that is built, or why it is not.
pub open spec fn built_request(b: Built) -> Result<Tree, Seq<char>> {
    match b {
        Ok(fields) => Ok(Tree::Object(fields)),
        Err(message) => Err(message),
    }
}

/// A further field of a request under construction.
fn add_field(fields: &mut Vec<(String, Json)>, name: &str, value: Json)
    ensures
        json::field_map(json::tree_pairs(final(fields)@)) == json::field_map(
            json::tree_pairs(old(fields)@),
        ).insert(name@, value@),
{
    let ghost before = json::tree_pairs(fields@);
    fields.push(json::pair(name, value));
    proof {
        let after = json::tree_pairs(fields@);
        assert(after.drop_last() =~= before);
        assert(after.last() == (name@, value@));
    }
}

fn new_request(op: &str) -> (fields: Vec<(String, Json)>)
    ensures
        json::field_map(json::tree_pairs(fields@)) == request(op@),
{
    let mut fields: Vec<(String, Json)> = Vec::new();
    proof {
        assert(json::tree_pairs(fields@) =~= Seq::empty());
    }
    add_field(&mut fields, "op", Json::text(op));
    fields
}

/// The request that `read` with the arguments makes.
pub fn build_read_op(args: &[String]) -> (r: Result<Json, String>)
    ensures
        built_view(r) == built_request(read_args(text::views(args@), request("read"@))),
{
    let mut fields = new_request("read");
    let ghost all = text::views(args@);
    let ghost whole = read_args(all, request("read"@));
    let mut i: usize = 0;
    proof {
        assert(all.skip(0) =~= all);
    }
    while i < args.len()
        invariant
            i <= args@.len(),
            all == text::views(args@),
            whole == read_args(all, request("read"@)),
            whole == read_args(all.skip(i as int), json::field_map(json::tree_pairs(fields@))),
        decreases args@.len() - i,
    {
        let ghost rest = all.skip(i as int);
        proof {
            assert(rest[0] == args@[i as int]@);
            if rest.len() >= 2 {
                assert(rest[1] == args@[i + 1]@);
                assert(rest.skip(2) =~= all.skip(i + 2));
            }
        }
        if same(args[i].as_str(), "--room") {
            match flag_value(args, &mut i, "--room") {
                Ok(v) => add_field(&mut fields, "room", Json::Text(v)),
                Err(message) => {
                    return Err(message);
                },
            }
        } else if same(args[i].as_str(), "--limit") {
            match flag_u64(args, &mut i, "--limit") {
                Ok(n) => add_field(&mut fields, "limit", Json::unsigned(n)),
                Err(message) => {
                    return Err(message);
                },
            }
        } else {
            return Err(unknown("read", args[i].as_str()));
        }
    }
    Ok(Json::Object(fields))
}

/// The message types that `send` accepts, as they are written out in words.
pub const KNOWN_MESSAGE_TYPES: &'static str =
    "[\"chat\", \"task\", \"handoff\", \"ack\", \"completion\", \"digest\"]";

/// What is said of a message type that is not known.
pub open spec fn unknown_type(kind: Seq<char>) -> Seq<char> {
    "send: --type must be one of "@ + KNOWN_MESSAGE_TYPES@ + ", got "@ + text::debug_text(kind)
}

/// What one argument of `send`, with its value, makes of the request.
pub open spec fn send_arg(args: Seq<Seq<char>>, op: Map<Seq<char>, Tree>) -> Built {
    if args[0] == "--to"@ {
        text_flag(args, op, "--to"@, "to"@)
    } else if args[0] == "--body"@ {
        text_flag(args, op, "--body"@, "body"@)
    } else if args[0] == "--type"@ {
        if args.len() >= 2 && !envelope::is_known_type(args[1]) {
            Err(unknown_type(args[1]))
        } else {
            text_flag(args, op, "--type"@, "type"@)
        }
    } else if args[0] == "--task-id"@ {
        text_flag(args, op, "--task-id"@, "task_id"@)
    } else if args[0] == "--room"@ {
        text_flag(args, op, "--room"@, "room"@)
    } else if args[0] == "--wake"@ {
        Ok(op.insert("wake"@, Tree::Bool(true)))
    } else {
        Err(unknown_argument("send"@, args[0]))
    }
}

/// What the arguments of `send` make of the request, the last of each flag
/// counting.
pub open spec fn send_args(args: Seq<Seq<char>>, op: Map<Seq<char>, Tree>) -> Built
    decreases args.len(),
{
    if args.len() == 0 {
        Ok(op)
    } else {
        match send_arg(args, op) {
            Err(message) => Err(message),
            Ok(op) => if args[0] == "--wake"@ {
                send_args(args.skip(1), op)
            } else if args.len() < 2 {
                Ok(op)
            } else {
                send_args(args.skip(2), op)
            },
        }
    }
}

/// The request that `send` makes: one without an addressee or a body is none.
pub open spec fn send_request(args: Seq<Seq<char>>) -> Built {
    match send_args(args, request("send"@)) {
        Err(message) => Err(message),
        Ok(op) => if !op.dom().contains("to"@) {
            Err("send: --to is required"@)
        } else if !op.dom().contains("body"@) {
            Err("send: --body is required"@)
        } else {
            Ok(op)
        },
    }
}

/// The request that `send` with the arguments makes.
pub fn build_send_op(args: &[String]) -> (r: Result<Json, String>)
    ensures
        built_view(r) == built_request(send_request(text::views(args@))),
{
    let mut fields = new_request("send");
    let types = envelope::known_types();
    let ghost all = text::views(args@);
    let ghost whole = send_args(all, request("send"@));
    let mut i: usize = 0;
    proof {
        assert(all.skip(0) =~= all);
    }
    while i < args.len()
        invariant
            i <= args@.len(),
            text::views(types@) == envelope::known_type_list(),
            all == text::views(args@),
            whole == send_args(all, request("send"@)),
            whole == send_args(all.skip(i as int), json::field_map(json::tree_pairs(fields@))),
        decreases args@.len() - i,
    {
        let ghost rest = all.skip(i as int);
        proof {
            assert(rest[0] == args@[i as int]@);
            assert(rest.skip(1) =~= all.skip(i + 1));
            if rest.len() >= 2 {
                assert(rest[1] == args@[i + 1]@);
                assert(rest.skip(2) =~= all.skip(i + 2));
            }
        }
        let arg = args[i].as_str();
        if same(arg, "--wake") {
            proof {
                lemma_send_flags();
            }
            add_field(&mut fields, "wake", Json::Bool(true));
            i = i + 1;
        } else {
            let name = if same(arg, "--to") {
                "to"
            } else if same(arg, "--body") {
                "body"
            } else if same(arg, "--type") {
                "type"
            } else if same(arg, "--task-id") {
                "task_id"
            } else if same(arg, "--room") {
                "room"
            } else {
                return Err(unknown("send", arg));
            };
            match flag_value(args, &mut i, arg) {
                Ok(v) => {
                    if same(arg, "--type") && !contains_text(types.as_slice(), v.as_str()) {
                        let mut message = "send: --type must be one of ".to_owned();
                        message.append(KNOWN_MESSAGE_TYPES);
                        message.append(", got ");
                        message.append(debug_form(v.as_str()).as_str());
                        proof {
                            lemma_known(types@, v@);
                            lemma_send_flags();
                        }
                        return Err(message);
                    }
                    proof {
                        lemma_known(types@, v@);
                    }
                    add_field(&mut fields, name, Json::Text(v));
                },
                Err(message) => {
                    return Err(message);
                },
            }
        }
    }
    let j = Json::Object(fields);
    if j.get("to").is_none() {
        return Err("send: --to is required".to_owned());
    }
    if j.get("body").is_none() {
        return Err("send: --body is required".to_owned());
    }
    Ok(j)
}

/// `--wake` is none of the other flags, and `--type` none of those before it.
proof fn lemma_send_flags()
    ensures
        "--type"@ != "--to"@ && "--type"@ != "--body"@,
        "--wake"@ != "--to"@ && "--wake"@ != "--body"@ && "--wake"@ != "--type"@ && "--wake"@ != "--task-id"@
            && "--wake"@ != "--room"@,
{
    reveal_strlit("--wake");
    reveal_strlit("--to");
    reveal_strlit("--body");
    reveal_strlit("--type");
    reveal_strlit("--task-id");
    reveal_strlit("--room");
    assert("--wake"@.len() == 6 && "--to"@.len() == 4 && "--task-id"@.len() == 9);
    assert("--wake"@[2] == 'w' && "--body"@[2] == 'b' && "--type"@[2] == 't' && "--room"@[2] == 'r');
}

/// The list of the known types holds exactly those.
proof fn lemma_known(types: Seq<String>, kind: Seq<char>)
    requires
        text::views(types) == envelope::known_type_list(),
    ensures
        text::listed(types, kind) <==> envelope::is_known_type(kind),
{
    if text::listed(types, kind) {
        let i = choose|i: int| 0 <= i < types.len() && #[trigger] types[i]@ == kind;
        assert(text::views(types)[i] == kind);
    }
    if envelope::is_known_type(kind) {
        let i = choose|i: int| 0 <= i < envelope::known_type_list().len() && envelope::known_type_list()[i] == kind;
        assert(text::views(types)[i] == types[i]@);
    }
}

/// What the arguments of `check` ask for: whether to consume, and how many.
pub open spec fn check_args(args: Seq<Seq<char>>, consume: bool, limit: Option<u64>) -> Result<
    (bool, Option<u64>),
    Seq<char>,
>
    decreases args.len(),
{
    if args.len() == 0 {
        Ok((consume, limit))
    } else if args[0] == "--consume"@ {
        check_args(args.skip(1), true, limit)
    } else if args[0] == "--peek"@ {
        check_args(args.skip(1), consume, limit)
    } else if args[0] == "--limit"@ {
        if args.len() < 2 {
            Err(value_missing("--limit"@))
        } else {
            match u64_of(args[1]) {
                Some(n) => check_args(args.skip(2), consume, Some(n)),
                None => Err(not_a_number("--limit"@, args[1])),
            }
        }
    } else {
        Err(unknown_argument("check"@, args[0]))
    }
}

/// The request that `check` makes. Unless told to consume, it peeks.
pub open spec fn check_request(args: Seq<Seq<char>>) -> Built {
    match check_args(args, false, None) {
        Err(message) => Err(message),
        Ok(asked) => {
            let op = request("check"@).insert("peek"@, Tree::Bool(!asked.0));
            match asked.1 {
                Some(n) => Ok(op.insert("limit"@, json::unsigned_tree(n))),
                None => Ok(op),
            }
        },
    }
}

/// The request that `check` with the arguments makes.
pub fn build_check_op(args: &[String]) -> (r: Result<Json, String>)
    ensures
        built_view(r) == built_request(check_request(text::views(args@))),
{
    let mut consume = false;
    let mut limit: Option<u64> = None;
    let ghost all = text::views(args@);
    let ghost whole = check_args(all, false, None);
    let mut i: usize = 0;
    proof {
        assert(all.skip(0) =~= all);
    }
    while i < args.len()
        invariant
            i <= args@.len(),
            all == text::views(args@),
            whole == check_args(all, false, None),
            whole == check_args(all.skip(i as int), consume, limit),
        decreases args@.len() - i,
    {
        let ghost rest = all.skip(i as int);
        proof {
            assert(rest[0] == args@[i as int]@);
            assert(rest.skip(1) =~= all.skip(i + 1));
            if rest.len() >= 2 {
                assert(rest[1] == args@[i + 1]@);
                assert(rest.skip(2) =~= all.skip(i + 2));
            }
        }
        let arg = args[i].as_str();
        if same(arg, "--consume") {
            consume = true;
            i = i + 1;
        } else if same(arg, "--peek") {
            i = i + 1;
        } else if same(arg, "--limit") {
            match flag_u64(args, &mut i, "--limit") {
                Ok(n) => {
                    limit = Some(n);
                },
                Err(message) => {
                    return Err(message);
                },
            }
        } else {
            return Err(unknown("check", arg));
        }
    }
    let mut fields = new_request("check");
    add_field(&mut fields, "peek", Json::Bool(!consume));
    match limit {
        Some(n) => add_field(&mut fields, "limit", Json::unsigned(n)),
        None => {},
    }
    Ok(Json::Object(fields))
}

/// The request that a subcommand without arguments makes.
pub open spec fn bare_request(sub: Seq<char>, op: Seq<char>, args: Seq<Seq<char>>) -> Built {
    if args.len() > 0 {
        Err(unknown_argument(sub, args[0]))
    } else {
        Ok(request(op))
    }
}

/// The request that `list-rooms` makes.
pub fn build_list_rooms_op(args: &[String]) -> (r: Result<Json, String>)
    ensures
        built_view(r) == built_request(
            bare_request("list-rooms"@, "list_rooms"@, text::views(args@)),
        ),
{
    if args.len() > 0 {
        return Err(unknown("list-rooms", args[0].as_str()));
    }
    Ok(Json::Object(new_request("list_rooms")))
}

/// The request that `status` makes.
pub fn build_status_op(args: &[String]) -> (r: Result<Json, String>)
    ensures
        built_view(r) == built_request(bare_request("status"@, "status"@, text::views(args@))),
{
    if args.len() > 0 {
        return Err(unknown("status", args[0].as_str()));
    }
    Ok(Json::Object(new_request("status")))
}

/// The request that the subcommand makes; none when there is no such
/// subcommand.
pub open spec fn cli_request(sub: Seq<char>, args: Seq<Seq<char>>) -> Option<Built> {
    if sub == "read"@ {
        Some(read_args(args, request("read"@)))
    } else if sub == "send"@ {
        Some(send_request(args))
    } else if sub == "check"@ {
        Some(check_request(args))
    } else if sub == "list-rooms"@ {
        Some(bare_request("list-rooms"@, "list_rooms"@, args))
    } else if sub == "status"@ {
        Some(bare_request("status"@, "status"@, args))
    } else {
        None
    }
}

/// The models of a request that may be none and of a message in words.
pub open spec fn cli_view(r: Result<Option<Json>, String>) -> Option<Result<Tree, Seq<char>>> {
    match r {
        Ok(None) => None,
        Ok(Some(j)) => Some(Ok(j@)),
        Err(message) => Some(Err(message@)),
    }
}

/// The request that the subcommand with the arguments makes; none when there is
/// no such subcommand.
pub fn build_cli_op(sub: &str, args: &[String]) -> (r: Result<Option<Json>, String>)
    ensures
        cli_view(r) == match cli_request(sub@, text::views(args@)) {
            Some(built) => Some(built_request(built)),
            None => None,
        },
{
    let built = if same(sub, "read") {
        build_read_op(args)
    } else if same(sub, "send") {
        build_send_op(args)
    } else if same(sub, "check") {
        build_check_op(args)
    } else if same(sub, "list-rooms") {
        build_list_rooms_op(args)
    } else if same(sub, "status") {
        build_status_op(args)
    } else {
        return Ok(None);
    };
    match built {
        Ok(op) => Ok(Some(op)),
        Err(message) => Err(message),
    }
}

/// What the command line asks for.
#[derive(Debug)]
pub enum Invocation {
    Help,
    Version,
    /// To carry out the request.
    Run { sub: String, op: Json },
    /// Something that cannot be done, for this reason.
    Fail(String),
    /// A subcommand that there is not.
    UnknownSubcommand(String),
    /// To serve frames from standard input.
    Serve,
}

/// The model of what the command line asks for.
pub enum InvocationView {
    Help,
    Version,
    Run { sub: Seq<char>, op: Tree },
    Fail(Seq<char>),
    UnknownSubcommand(Seq<char>),
    Serve,
}

impl View for Invocation {
    type V = InvocationView;

    open spec fn view(&self) -> InvocationView {
        match self {
            Invocation::Help => InvocationView::Help,
            Invocation::Version => InvocationView::Version,
            Invocation::Run { sub, op } => InvocationView::Run { sub: sub@, op: op@ },
            Invocation::Fail(message) => InvocationView::Fail(message@),
            Invocation::UnknownSubcommand(sub) => InvocationView::UnknownSubcommand(sub@),
            Invocation::Serve => InvocationView::Serve,
        }
    }
}

/// The first of the arguments that asks for help or the version.
pub open spec fn first_query(args: Seq<Seq<char>>) -> Option<InvocationView>
    decreases args.len(),
{
    if args.len() == 0 {
        None
    } else if args[0] == "--help"@ || args[0] == "-h"@ {
        Some(InvocationView::Help)
    } else if args[0] == "--version"@ || args[0] == "-V"@ {
        Some(InvocationView::Version)
    } else {
        first_query(args.drop_first())
    }
}

/// What the command line asks for: help or the version, wherever it stands; a
/// subcommand; and, without one, to serve.
pub open spec fn invocation(args: Seq<Seq<char>>) -> InvocationView {
    match first_query(args) {
        Some(query) => query,
        None => if args.len() == 0 {
            InvocationView::Serve
        } else {
            match cli_request(args[0], args.skip(1)) {
                Some(Ok(op)) => InvocationView::Run { sub: args[0], op: Tree::Object(op) },
                Some(Err(message)) => InvocationView::Fail(message),
                None => if args[0].len() > 0 && args[0][0] == '-' {
                    InvocationView::Serve
                } else {
                    InvocationView::UnknownSubcommand(args[0])
                },
            }
        },
    }
}

/// What the command line asks for.
pub fn read_command_line(args: &[String]) -> (r: Invocation)
    ensures
        r@ == invocation(text::views(args@)),
{
    let ghost all = text::views(args@);
    let mut i: usize = 0;
    proof {
        assert(all.skip(0) =~= all);
    }
    while i < args.len()
        invariant
            i <= args@.len(),
            all == text::views(args@),
            first_query(all) == first_query(all.skip(i as int)),
        decreases args@.len() - i,
    {
        proof {
            assert(all.skip(i as int)[0] == args@[i as int]@);
            assert(all.skip(i as int).drop_first() =~= all.skip(i + 1));
        }
        let arg = args[i].as_str();
        if same(arg, "--help") || same(arg, "-h") {
            return Invocation::Help;
        }
        if same(arg, "--version") || same(arg, "-V") {
            return Invocation::Version;
        }
        i = i + 1;
    }
    if args.len() == 0 {
        return Invocation::Serve;
    }
    let mut rest: Vec<String> = Vec::new();
    let mut k: usize = 1;
    while k < args.len()
        invariant
            1 <= k <= args@.len(),
            rest@.len() == k - 1,
            forall|j: int| 0 <= j < k - 1 ==> (#[trigger] rest@[j])@ == args@[j + 1]@,
        decreases args@.len() - k,
    {
        rest.push(args[k].clone());
        k = k + 1;
    }
    proof {
        assert(text::views(rest@) =~= all.skip(1));
    }
    let sub = args[0].as_str();
    match build_cli_op(sub, rest.as_slice()) {
        Ok(Some(op)) => Invocation::Run { sub: sub.to_owned(), op },
        Err(message) => Invocation::Fail(message),
        Ok(None) => {
            let v = chars_of(sub);
            if v.len() > 0 && v[0] == '-' {
                Invocation::Serve
            } else {
                Invocation::UnknownSubcommand(sub.to_owned())
            }
        },
    }
}

/// Checking from the command line consumes nothing unless it is told to.
pub proof fn law_check_peeks_by_default(args: Seq<Seq<char>>)
    requires
        forall|i: int| 0 <= i < args.len() ==> #[trigger] args[i] != "--consume"@,
    ensures
        check_request(args) matches Ok(op) ==> op["peek"@] == Tree::Bool(true),
{
    lemma_not_consumed(args, None);
    reveal_strlit("peek");
    reveal_strlit("limit");
    assert("peek"@.len() == 4 && "limit"@.len() == 5);
}

proof fn lemma_not_consumed(args: Seq<Seq<char>>, limit: Option<u64>)
    requires
        forall|i: int| 0 <= i < args.len() ==> #[trigger] args[i] != "--consume"@,
    ensures
        check_args(args, false, limit) matches Ok(asked) ==> !asked.0,
    decreases args.len(),
{
    if args.len() > 0 {
        assert(args[0] != "--consume"@);
        assert forall|i: int| 0 <= i < args.skip(1).len() implies #[trigger] args.skip(1)[i] != "--consume"@ by {
            assert(args.skip(1)[i] == args[i + 1]);
        }
        if args[0] == "--peek"@ {
            lemma_not_consumed(args.skip(1), limit);
        } else if args.len() >= 2 {
            assert forall|i: int| 0 <= i < args.skip(2).len() implies #[trigger] args.skip(2)[i] != "--consume"@ by {
                assert(args.skip(2)[i] == args[i + 2]);
            }
            match u64_of(args[1]) {
                Some(n) => lemma_not_consumed(args.skip(2), Some(n)),
                None => {},
            }
        }
    }
}

} // verus!
