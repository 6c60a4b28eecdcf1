//! The message envelope: what agents read of a room event, and how it is
//! rendered for the people reading the room.
use vstd::prelude::*;
use vstd::string::*;

use crate::completion;
use crate::json;
use crate::json::{Json, Tree};
use crate::text;
use crate::text::{chars_of, contains_text, join, replace_char, same, text_between, trim_between};

verus! {

/// The key under which an event's content carries the envelope.
pub const ENVELOPE_KEY: &'static str = "org.safehouse.envelope";

/// The daemon's own name for messages it speaks itself.
pub const DAEMON_PERSONA: &'static str = "safehouse";

/// The single envelope version that is understood.
pub const SUPPORTED_VERSION: u32 = 1;

/// A message between personas and people.
#[derive(Debug)]
pub struct Envelope {
    pub v: u32,
    pub from: String,
    pub to: String,
    /// The message's type, `type` on the wire.
    pub kind: String,
    pub task_id: Option<String>,
    pub body: String,
    /// A hint for whatever may wake agents; nothing here acts on it.
    pub wake: Option<bool>,
    pub meta: Option<Json>,
    /// The fields that are not understood here, which are passed on.
    pub rest: Vec<(String, Json)>,
}

/// What an inbound room event turned out to be.
#[derive(Debug)]
pub enum Inbound {
    /// An envelope to dispatch, and the token by which a person addressed a
    /// persona that is not known.
    Envelope(Envelope, Option<String>),
    /// An envelope of a version that is not understood. It is not dispatched.
    UnsupportedVersion(u64),
}

/// The model of an envelope.
#[verifier::ext_equal]
pub struct EnvelopeView {
    pub v: u32,
    pub from: Seq<char>,
    pub to: Seq<char>,
    pub kind: Seq<char>,
    pub task_id: Option<Seq<char>>,
    pub body: Seq<char>,
    pub wake: Option<bool>,
    pub meta: Option<Tree>,
    pub rest: Map<Seq<char>, Tree>,
}

/// The model of an inbound event.
pub enum InboundView {
    Envelope(EnvelopeView, Option<Seq<char>>),
    UnsupportedVersion(u64),
}

/// The model of a JSON value that may be missing.
pub open spec fn optional_tree(j: Option<Json>) -> Option<Tree> {
    match j {
        Some(j) => Some(j@),
        None => None,
    }
}

impl View for Envelope {
    type V = EnvelopeView;

    open spec fn view(&self) -> EnvelopeView {
        EnvelopeView {
            v: self.v,
            from: self.from@,
            to: self.to@,
            kind: self.kind@,
            task_id: json::opt_view(self.task_id),
            body: self.body@,
            wake: self.wake,
            meta: optional_tree(self.meta),
            rest: json::field_map(json::tree_pairs(self.rest@)),
        }
    }
}

impl View for Inbound {
    type V = InboundView;

    open spec fn view(&self) -> InboundView {
        match self {
            Inbound::Envelope(env, token) => InboundView::Envelope(env@, json::opt_view(*token)),
            Inbound::UnsupportedVersion(v) => InboundView::UnsupportedVersion(*v),
        }
    }
}

impl Clone for Envelope {
    fn clone(&self) -> (r: Self)
        ensures
            r@ == self@,
    {
        Envelope {
            v: self.v,
            from: self.from.clone(),
            to: self.to.clone(),
            kind: self.kind.clone(),
            task_id: match &self.task_id {
                Some(s) => Some(s.clone()),
                None => None,
            },
            body: self.body.clone(),
            wake: self.wake,
            meta: match &self.meta {
                Some(j) => Some(j.clone()),
                None => None,
            },
            rest: json::clone_fields(&self.rest),
        }
    }
}

impl Clone for Inbound {
    fn clone(&self) -> (r: Self)
        ensures
            r@ == self@,
    {
        match self {
            Inbound::Envelope(env, token) => Inbound::Envelope(
                env.clone(),
                match token {
                    Some(s) => Some(s.clone()),
                    None => None,
                },
            ),
            Inbound::UnsupportedVersion(v) => Inbound::UnsupportedVersion(*v),
        }
    }
}

/// The message types that are understood.
pub open spec fn known_type_list() -> Seq<Seq<char>> {
    seq!["chat"@, "task"@, "handoff"@, "ack"@, "completion"@, "digest"@]
}

/// Whether the message type is understood.
pub open spec fn is_known_type(kind: Seq<char>) -> bool {
    known_type_list().contains(kind)
}

/// The message types that are understood.
pub fn known_types() -> (list: Vec<String>)
    ensures
        text::views(list@) == known_type_list(),
{
    let list = vec![
        "chat".to_owned(),
        "task".to_owned(),
        "handoff".to_owned(),
        "ack".to_owned(),
        "completion".to_owned(),
        "digest".to_owned(),
    ];
    proof {
        assert(text::views(list@) =~= known_type_list());
    }
    list
}

/// The type a message counts as: itself when it is understood, else `chat`.
pub open spec fn degraded(kind: Seq<char>) -> Seq<char> {
    if is_known_type(kind) {
        kind
    } else {
        "chat"@
    }
}

/// The type a message that asks for `requested` counts as.
pub fn degrade_unknown_type(requested: &str) -> (kind: String)
    ensures
        kind@ == degraded(requested@),
{
    let known = known_types();
    proof {
        assert forall|i: int| 0 <= i < known@.len() implies known_type_list()[i] == #[trigger] known@[i]@ by {
            assert(text::views(known@)[i] == known@[i]@);
        }
    }
    if contains_text(known.as_slice(), requested) {
        proof {
            let i = choose|i: int| 0 <= i < known@.len() && #[trigger] known@[i]@ == requested@;
            assert(known_type_list()[i] == requested@);
        }
        requested.to_owned()
    } else {
        proof {
            if is_known_type(requested@) {
                let i = choose|i: int|
                    0 <= i < known_type_list().len() && known_type_list()[i] == requested@;
                assert(known@[i]@ == requested@);
            }
        }
        "chat".to_owned()
    }
}

/// Whether `c` may stand in a persona's name.
pub open spec fn is_persona_char(c: char) -> bool {
    'a' <= c <= 'z' || '0' <= c <= '9' || c == '_'
}

/// Whether `s` is a persona's name: 1 to 64 of `[a-z0-9_]`.
pub open spec fn is_persona(s: Seq<char>) -> bool {
    1 <= s.len() <= 64 && forall|i: int| 0 <= i < s.len() ==> is_persona_char(#[trigger] s[i])
}

/// Whether `s` is a persona's name.
pub fn valid_persona(s: &str) -> (r: bool)
    ensures
        r == is_persona(s@),
{
    let v = chars_of(s);
    if v.len() == 0 || v.len() > 64 {
        return false;
    }
    let mut i: usize = 0;
    while i < v.len()
        invariant
            i <= v@.len(),
            v@ == s@,
            forall|j: int| 0 <= j < i ==> is_persona_char(#[trigger] v@[j]),
        decreases v@.len() - i,
    {
        let c = v[i];
        if !(('a' <= c && c <= 'z') || ('0' <= c && c <= '9') || c == '_') {
            return false;
        }
        i = i + 1;
    }
    true
}

/// The name under which `s` is shown: personas hyphenated, a broadcast as
/// `everyone`, a user id as it is.
pub open spec fn shown(s: Seq<char>) -> Seq<char> {
    if s == "*"@ {
        "everyone"@
    } else if s.len() > 0 && s[0] == '@' {
        s
    } else {
        text::with_char(s, '_', '-')
    }
}

fn show(s: &str) -> (r: String)
    ensures
        r@ == shown(s@),
{
    if same(s, "*") {
        return "everyone".to_owned();
    }
    let v = chars_of(s);
    if v.len() > 0 && v[0] == '@' {
        s.to_owned()
    } else {
        replace_char(s, '_', '-')
    }
}

/// What stands for `c` in HTML text.
pub open spec fn escaped_char(c: char) -> Seq<char> {
    if c == '&' {
        "&amp;"@
    } else if c == '<' {
        "&lt;"@
    } else if c == '>' {
        "&gt;"@
    } else {
        seq![c]
    }
}

/// What stands for `s` in HTML text.
pub open spec fn escaped(s: Seq<char>) -> Seq<char>
    decreases s.len(),
{
    if s.len() == 0 {
        Seq::empty()
    } else {
        escaped(s.drop_last()) + escaped_char(s.last())
    }
}

/// What stands for `s` in HTML text.
pub fn html_escape(s: &str) -> (r: String)
    ensures
        r@ == escaped(s@),
{
    let v = chars_of(s);
    let mut r = String::new();
    let mut i: usize = 0;
    while i < v.len()
        invariant
            i <= v@.len(),
            v@ == s@,
            r@ == escaped(s@.take(i as int)),
        decreases v@.len() - i,
    {
        let c = v[i];
        let ghost before = r@;
        if c == '&' {
            r.append("&amp;");
        } else if c == '<' {
            r.append("&lt;");
        } else if c == '>' {
            r.append("&gt;");
        } else {
            r.push(c);
        }
        proof {
            let next = s@.take(i + 1);
            assert(next.drop_last() =~= s@.take(i as int));
            assert(next.last() == c);
            assert(r@ =~= before + escaped_char(c));
        }
        i = i + 1;
    }
    proof {
        assert(s@.take(s@.len() as int) =~= s@);
    }
    r
}

/// The plain rendering: `<from> → <to> · <type>` over the body, without the
/// type for a chat message.
pub open spec fn plain_text(env: EnvelopeView) -> Seq<char> {
    let suffix = if env.kind == "chat"@ {
        Seq::empty()
    } else {
        " · "@ + env.kind
    };
    shown(env.from) + " → "@ + shown(env.to) + suffix + "\n"@ + env.body
}

/// The rendering in HTML.
pub open spec fn html_text(env: EnvelopeView) -> Seq<char> {
    let suffix = if env.kind == "chat"@ {
        Seq::empty()
    } else {
        " · <i>"@ + escaped(env.kind) + "</i>"@
    };
    "<b>"@ + escaped(shown(env.from)) + " → "@ + escaped(shown(env.to)) + "</b>"@ + suffix
        + "<br/>"@ + escaped(env.body)
}

/// The plain and the HTML rendering of the envelope.
pub fn render(env: &Envelope) -> (r: (String, String))
    ensures
        r.0@ == plain_text(env@),
        r.1@ == html_text(env@),
{
    let from = show(env.from.as_str());
    let to = show(env.to.as_str());
    let chat = same(env.kind.as_str(), "chat");
    let mut suffix = String::new();
    let mut html_suffix = String::new();
    if !chat {
        suffix = " · ".to_owned();
        suffix.append(env.kind.as_str());
        html_suffix = " · <i>".to_owned();
        html_suffix.append(html_escape(env.kind.as_str()).as_str());
        html_suffix.append("</i>");
    }
    let mut plain = from.clone();
    plain.append(" → ");
    plain.append(to.as_str());
    plain.append(suffix.as_str());
    plain.append("\n");
    plain.append(env.body.as_str());
    let mut html = "<b>".to_owned();
    html.append(html_escape(from.as_str()).as_str());
    html.append(" → ");
    html.append(html_escape(to.as_str()).as_str());
    html.append("</b>");
    html.append(html_suffix.as_str());
    html.append("<br/>");
    html.append(html_escape(env.body.as_str()).as_str());
    proof {
        if chat {
            assert(suffix@ =~= Seq::empty());
            assert(html_suffix@ =~= Seq::empty());
        }
    }
    (plain, html)
}

/// The chat message `body` from `from` to `to`.
pub open spec fn chat_view(from: Seq<char>, to: Seq<char>, body: Seq<char>, wake: Option<bool>) -> EnvelopeView {
    EnvelopeView { v: 1, from, to, kind: "chat"@, task_id: None, body, wake, meta: None, rest: Map::empty() }
}

fn chat(from: &str, to: &str, body: &str, wake: Option<bool>) -> (env: Envelope)
    ensures
        env@ == chat_view(from@, to@, body@, wake),
{
    Envelope {
        v: 1,
        from: from.to_owned(),
        to: to.to_owned(),
        kind: "chat".to_owned(),
        task_id: None,
        body: body.to_owned(),
        wake,
        meta: None,
        rest: Vec::new(),
    }
}

/// The message to everyone, which is to wake nobody.
pub open spec fn broadcast_view(sender: Seq<char>, body: Seq<char>) -> EnvelopeView {
    chat_view(sender, "*"@, body, Some(false))
}

/// The message `body` from `sender` to everyone.
pub fn broadcast(sender: &str, body: &str) -> (env: Envelope)
    ensures
        env@ == broadcast_view(sender@, body@),
{
    chat(sender, "*", body, Some(false))
}

/// Whether `c` ends the token by which a message addresses a persona.
pub open spec fn ends_token() -> spec_fn(char) -> bool {
    |c: char| text::is_space(c) || c == ':' || c == ','
}

/// Whether `c` is not one of the separators that may follow the token.
pub open spec fn not_a_separator() -> spec_fn(char) -> bool {
    |c: char| c != ':' && c != ','
}

/// The token that follows a leading `@`; empty when there is none.
pub open spec fn address_token(body: Seq<char>) -> Seq<char> {
    if body.len() > 0 && body[0] == '@' {
        let rest = body.skip(1);
        rest.take(text::run_before(rest, ends_token()) as int)
    } else {
        Seq::empty()
    }
}

/// The message without its leading `@` token and the separators after it.
pub open spec fn without_address(body: Seq<char>) -> Seq<char> {
    let rest = body.skip(1 + address_token(body).len() as int);
    text::trimmed(rest.skip(text::run_before(rest, not_a_separator()) as int))
}

/// The envelope for a person's message, and the token in it that names no
/// persona. In order: a leading token that names a persona addresses it, one
/// that names none leaves the message to everyone; a message in a thread goes
/// to the thread's agent; any other goes to everyone.
pub open spec fn synthesized(
    sender: Seq<char>,
    body: Seq<char>,
    personas: Seq<String>,
    thread_agent: Option<Seq<char>>,
) -> (EnvelopeView, Option<Seq<char>>) {
    let token = address_token(body);
    let persona = text::with_char(token, '-', '_');
    if token.len() > 0 {
        if text::listed(personas, persona) {
            (chat_view(sender, persona, without_address(body), Some(true)), None)
        } else {
            (broadcast_view(sender, body), Some(token))
        }
    } else {
        match thread_agent {
            Some(agent) => (chat_view(sender, agent, body, None), None),
            None => (broadcast_view(sender, body), None),
        }
    }
}

/// The characters of a borrowed text that may be missing.
pub open spec fn opt_str(s: Option<&str>) -> Option<Seq<char>> {
    match s {
        Some(s) => Some(s@),
        None => None,
    }
}

/// The envelope for the message `body` of the person `sender`, and the token
/// in it that names no persona.
pub fn synthesize_for_human(
    sender: &str,
    body: &str,
    personas: &[String],
    thread_agent: Option<&str>,
) -> (r: (Envelope, Option<String>))
    ensures
        (r.0@, json::opt_view(r.1)) == synthesized(sender@, body@, personas@, opt_str(thread_agent)),
{
    let v = chars_of(body);
    if v.len() > 0 && v[0] == '@' {
        let ghost rest = body@.skip(1);
        let mut end: usize = 1;
        while end < v.len() && !text::is_whitespace(v[end]) && v[end] != ':' && v[end] != ','
            invariant
                1 <= end <= v@.len(),
                v@ == body@,
                rest == body@.skip(1),
                forall|j: int| 0 <= j < end - 1 ==> !ends_token()(#[trigger] rest[j]),
            decreases v@.len() - end,
        {
            proof {
                assert(rest[end - 1] == v@[end as int]);
            }
            end = end + 1;
        }
        proof {
            if end < v@.len() {
                assert(rest[end - 1] == v@[end as int]);
            }
            text::lemma_run_before(rest, ends_token(), end - 1);
            assert(rest.take(end - 1) =~= v@.subrange(1, end as int));
        }
        if end > 1 {
            let token = text_between(&v, 1, end);
            let persona = replace_char(token.as_str(), '-', '_');
            if contains_text(personas, persona.as_str()) {
                let ghost tail = body@.skip(end as int);
                let mut start: usize = end;
                while start < v.len() && (v[start] == ':' || v[start] == ',')
                    invariant
                        1 <= end <= start <= v@.len(),
                        v@ == body@,
                        tail == body@.skip(end as int),
                        forall|j: int| 0 <= j < start - end ==> !not_a_separator()(#[trigger] tail[j]),
                    decreases v@.len() - start,
                {
                    proof {
                        assert(tail[start - end] == v@[start as int]);
                    }
                    start = start + 1;
                }
                proof {
                    if start < v@.len() {
                        assert(tail[start - end] == v@[start as int]);
                    }
                    text::lemma_run_before(tail, not_a_separator(), start - end);
                    assert(tail.skip(start - end) =~= v@.subrange(start as int, v@.len() as int));
                }
                let stripped = trim_between(&v, start, v.len());
                return (chat(sender, persona.as_str(), stripped.as_str(), Some(true)), None);
            }
            return (broadcast(sender, body), Some(token));
        }
    }
    match thread_agent {
        Some(agent) => (chat(sender, agent, body, None), None),
        None => (broadcast(sender, body), None),
    }
}

/// The names of the personas as they are shown.
pub open spec fn shown_personas(personas: Seq<String>) -> Seq<char> {
    if personas.len() == 0 {
        "(none configured)"@
    } else {
        text::joined(
            Seq::new(personas.len(), |i: int| text::with_char(personas[i]@, '_', '-')),
            ", "@,
        )
    }
}

/// The acknowledgement that tells the person `to` that `token` names none of
/// the personas.
pub open spec fn unknown_persona_ack_view(to: Seq<char>, token: Seq<char>, personas: Seq<String>) -> EnvelopeView {
    EnvelopeView {
        v: 1,
        from: DAEMON_PERSONA@,
        to,
        kind: "ack"@,
        task_id: None,
        body: "Unknown persona \"@"@ + token + "\" — known personas: "@ + shown_personas(personas),
        wake: None,
        meta: None,
        rest: Map::empty(),
    }
}

/// The acknowledgement that tells the person `to` that `token` names none of
/// the personas.
pub fn unknown_persona_ack(to: &str, token: &str, personas: &[String]) -> (env: Envelope)
    ensures
        env@ == unknown_persona_ack_view(to@, token@, personas@),
{
    let mut body = "Unknown persona \"@".to_owned();
    body.append(token);
    body.append("\" — known personas: ");
    if personas.len() == 0 {
        body.append("(none configured)");
    } else {
        let mut names: Vec<String> = Vec::new();
        let mut i: usize = 0;
        while i < personas.len()
            invariant
                i <= personas@.len(),
                names@.len() == i,
                forall|k: int|
                    0 <= k < i ==> (#[trigger] names@[k])@ == text::with_char(personas@[k]@, '_', '-'),
            decreases personas@.len() - i,
        {
            names.push(replace_char(personas[i].as_str(), '_', '-'));
            i = i + 1;
        }
        proof {
            assert(text::views(names@) =~= Seq::new(
                personas@.len(),
                |i: int| text::with_char(personas@[i]@, '_', '-'),
            ));
        }
        body.append(join(&names, ", ").as_str());
    }
    Envelope {
        v: 1,
        from: DAEMON_PERSONA.to_owned(),
        to: to.to_owned(),
        kind: "ack".to_owned(),
        task_id: None,
        body,
        wake: None,
        meta: None,
        rest: Vec::new(),
    }
}

/// The field, when there is a value for it.
pub open spec fn optional_pair(name: Seq<char>, value: Option<Tree>) -> Seq<(Seq<char>, Tree)> {
    match value {
        Some(value) => seq![(name, value)],
        None => Seq::empty(),
    }
}

/// The text as a JSON value, when there is one.
pub open spec fn optional_text(s: Option<Seq<char>>) -> Option<Tree> {
    match s {
        Some(s) => Some(Tree::Text(s)),
        None => None,
    }
}

/// The truth value as a JSON value, when there is one.
pub open spec fn optional_bool(b: Option<bool>) -> Option<Tree> {
    match b {
        Some(b) => Some(Tree::Bool(b)),
        None => None,
    }
}

/// Whether an envelope's field of that name is understood.
pub open spec fn is_known_field(name: Seq<char>) -> bool {
    name == "v"@ || name == "from"@ || name == "to"@ || name == "type"@ || name == "task_id"@ || name == "body"@
        || name == "wake"@ || name == "meta"@
}

/// Whether an envelope's field of that name is understood.
fn known_field(name: &str) -> (r: bool)
    ensures
        r == is_known_field(name@),
{
    same(name, "v") || same(name, "from") || same(name, "to") || same(name, "type") || same(name, "task_id")
        || same(name, "body") || same(name, "wake") || same(name, "meta")
}

/// The fields that are not understood.
pub open spec fn unknown_fields(fields: Map<Seq<char>, Tree>) -> Map<Seq<char>, Tree> {
    Map::new(|name: Seq<char>| fields.dom().contains(name) && !is_known_field(name), |name: Seq<char>| fields[name])
}

impl EnvelopeView {
    /// Whether none of the fields that are passed on is one that is understood.
    pub open spec fn well_formed(self) -> bool {
        forall|name: Seq<char>| #[trigger] self.rest.dom().contains(name) ==> !is_known_field(name)
    }
}

/// The fields that are understood of an envelope on the wire.
pub open spec fn envelope_pairs(env: EnvelopeView) -> Seq<(Seq<char>, Tree)> {
    seq![
        ("v"@, json::unsigned_tree(env.v as u64)),
        ("from"@, Tree::Text(env.from)),
        ("to"@, Tree::Text(env.to)),
        ("type"@, Tree::Text(env.kind)),
        ("body"@, Tree::Text(env.body)),
    ] + optional_pair("task_id"@, optional_text(env.task_id)) + optional_pair(
        "wake"@,
        optional_bool(env.wake),
    ) + optional_pair("meta"@, env.meta)
}

/// The envelope on the wire, with the fields that are passed on.
pub open spec fn envelope_tree(env: EnvelopeView) -> Tree {
    Tree::Object(env.rest.union_prefer_right(json::field_map(envelope_pairs(env))))
}

/// The envelope on the wire.
pub fn envelope_json(env: &Envelope) -> (j: Json)
    ensures
        j@ == envelope_tree(env@),
{
    let mut fields = json::clone_fields(&env.rest);
    let ghost rest = json::tree_pairs(env.rest@);
    fields.push(json::pair("v", Json::unsigned(env.v as u64)));
    fields.push(json::pair("from", Json::text(env.from.as_str())));
    fields.push(json::pair("to", Json::text(env.to.as_str())));
    fields.push(json::pair("type", Json::text(env.kind.as_str())));
    fields.push(json::pair("body", Json::text(env.body.as_str())));
    match &env.task_id {
        Some(task_id) => {
            fields.push(json::pair("task_id", Json::text(task_id.as_str())));
        },
        None => {},
    }
    match env.wake {
        Some(wake) => {
            fields.push(json::pair("wake", Json::Bool(wake)));
        },
        None => {},
    }
    match &env.meta {
        Some(meta) => {
            fields.push(json::pair("meta", meta.clone()));
        },
        None => {},
    }
    proof {
        assert(json::tree_pairs(fields@) =~= rest + envelope_pairs(env@));
        json::lemma_field_map_adds(rest, envelope_pairs(env@));
    }
    Json::Object(fields)
}

/// The text in an optional field: `None` when something else stands there.
pub open spec fn optional_text_field(raw: Tree, name: Seq<char>) -> Option<Option<Seq<char>>> {
    match json::field(raw, name) {
        None => Some(None),
        Some(Tree::Null) => Some(None),
        Some(Tree::Text(s)) => Some(Some(s)),
        Some(_) => None,
    }
}

/// The truth value in an optional field: `None` when something else stands
/// there.
pub open spec fn optional_bool_field(raw: Tree, name: Seq<char>) -> Option<Option<bool>> {
    match json::field(raw, name) {
        None => Some(None),
        Some(Tree::Null) => Some(None),
        Some(Tree::Bool(b)) => Some(Some(b)),
        Some(_) => None,
    }
}

/// The value in an optional field, null counting as none.
pub open spec fn optional_field(raw: Tree, name: Seq<char>) -> Option<Tree> {
    match json::field(raw, name) {
        None => None,
        Some(Tree::Null) => None,
        Some(value) => Some(value),
    }
}

/// The envelope that stands in `raw`, when one does: an object with a version
/// that fits, the four texts, and nothing of another kind where an optional
/// text or truth value is expected. Other fields are passed on.
pub open spec fn envelope_of(raw: Tree) -> Option<EnvelopeView> {
    let v = json::unsigned_field(raw, "v"@);
    let from = json::text_field(raw, "from"@);
    let to = json::text_field(raw, "to"@);
    let kind = json::text_field(raw, "type"@);
    let body = json::text_field(raw, "body"@);
    let task_id = optional_text_field(raw, "task_id"@);
    let wake = optional_bool_field(raw, "wake"@);
    if v is Some && v->0 <= u32::MAX && from is Some && to is Some && kind is Some && body is Some
        && task_id is Some && wake is Some {
        Some(
            EnvelopeView {
                v: v->0 as u32,
                from: from->0,
                to: to->0,
                kind: kind->0,
                task_id: task_id->0,
                body: body->0,
                wake: wake->0,
                meta: optional_field(raw, "meta"@),
                rest: unknown_fields(raw->Object_0),
            },
        )
    } else {
        None
    }
}

/// The model of an envelope that may be missing.
pub open spec fn optional_envelope(env: Option<Envelope>) -> Option<EnvelopeView> {
    match env {
        Some(env) => Some(env@),
        None => None,
    }
}

/// The envelope that stands in `raw`, when one does.
pub fn parse_envelope(raw: &Json) -> (r: Option<Envelope>)
    ensures
        optional_envelope(r) == envelope_of(raw@),
{
    let v: u32 = match raw.get_u64("v") {
        Some(v) if v <= u32::MAX as u64 => v as u32,
        _ => {
            return None;
        },
    };
    let from = match raw.get_str("from") {
        Some(s) => s.to_owned(),
        None => {
            return None;
        },
    };
    let to = match raw.get_str("to") {
        Some(s) => s.to_owned(),
        None => {
            return None;
        },
    };
    let kind = match raw.get_str("type") {
        Some(s) => s.to_owned(),
        None => {
            return None;
        },
    };
    let body = match raw.get_str("body") {
        Some(s) => s.to_owned(),
        None => {
            return None;
        },
    };
    let task_id = match raw.get("task_id") {
        None => None,
        Some(Json::Null) => None,
        Some(Json::Text(s)) => Some(s.clone()),
        Some(_) => {
            return None;
        },
    };
    let wake = match raw.get("wake") {
        None => None,
        Some(Json::Null) => None,
        Some(Json::Bool(b)) => Some(*b),
        Some(_) => {
            return None;
        },
    };
    let meta = match raw.get("meta") {
        None => None,
        Some(Json::Null) => None,
        Some(j) => Some(j.clone()),
    };
    Some(Envelope { v, from, to, kind, task_id, body, wake, meta, rest: other_fields(raw) })
}

/// The fields of the object that are not understood.
fn other_fields(raw: &Json) -> (rest: Vec<(String, Json)>)
    ensures
        raw@ is Object ==> json::field_map(json::tree_pairs(rest@)) == unknown_fields(raw@->Object_0),
{
    let mut rest: Vec<(String, Json)> = Vec::new();
    if let Json::Object(fields) = raw {
        let ghost all = json::tree_pairs(fields@);
        let mut i: usize = 0;
        proof {
            assert(unknown_fields(json::field_map(all.take(0))) =~= Map::empty());
        }
        while i < fields.len()
            invariant
                i <= fields@.len(),
                all == json::tree_pairs(fields@),
                json::field_map(json::tree_pairs(rest@)) == unknown_fields(json::field_map(all.take(i as int))),
            decreases fields@.len() - i,
        {
            let ghost was = json::tree_pairs(rest@);
            let ghost before = json::field_map(all.take(i as int));
            let ghost next = json::field_map(all.take(i + 1));
            proof {
                assert(all.take(i + 1).drop_last() =~= all.take(i as int));
                assert(next == before.insert(fields@[i as int].0@, fields@[i as int].1@));
            }
            if known_field(fields[i].0.as_str()) {
                proof {
                    assert(unknown_fields(next) =~= unknown_fields(before));
                }
            } else {
                rest.push((fields[i].0.clone(), fields[i].1.clone()));
                proof {
                    assert(json::tree_pairs(rest@).drop_last() =~= was);
                    assert(unknown_fields(next) =~= unknown_fields(before).insert(
                        fields@[i as int].0@,
                        fields@[i as int].1@,
                    ));
                }
            }
            i = i + 1;
        }
        proof {
            assert(all.take(all.len() as int) =~= all);
        }
    }
    rest
}

/// Whether the envelope's metadata makes a completion of it.
pub open spec fn has_completion_meta(env: EnvelopeView) -> bool {
    env.meta is Some && completion::is_completion_meta(env.meta->0)
}

/// The type that an inbound message counts as: an unknown one is a chat
/// message, and so is a completion without valid metadata.
pub open spec fn ingested_kind(env: EnvelopeView) -> Seq<char> {
    let kind = degraded(env.kind);
    if kind == "completion"@ && !has_completion_meta(env) {
        "chat"@
    } else {
        kind
    }
}

/// The envelope as it is dispatched: of a type that is understood, and to wake
/// nobody when it is for everyone.
pub open spec fn ingested(env: EnvelopeView) -> EnvelopeView {
    EnvelopeView {
        kind: ingested_kind(env),
        wake: if env.to == "*"@ {
            Some(false)
        } else {
            env.wake
        },
        ..env
    }
}

/// The envelope as it is dispatched.
pub fn ingest(env: Envelope) -> (r: Envelope)
    ensures
        r@ == ingested(env@),
{
    let mut kind = degrade_unknown_type(env.kind.as_str());
    if same(kind.as_str(), "completion") {
        let valid = match &env.meta {
            Some(meta) => completion::validate_completion_meta(meta).is_ok(),
            None => false,
        };
        if !valid {
            kind = "chat".to_owned();
        }
    }
    let wake = if same(env.to.as_str(), "*") {
        Some(false)
    } else {
        env.wake
    };
    Envelope {
        v: env.v,
        from: env.from,
        to: env.to,
        kind,
        task_id: env.task_id,
        body: env.body,
        wake,
        meta: env.meta,
        rest: env.rest,
    }
}

/// The text of the event's body; empty when there is none.
pub open spec fn event_body(content: Tree) -> Seq<char> {
    match json::text_field(content, "body"@) {
        Some(s) => s,
        None => Seq::empty(),
    }
}

/// The envelope that is made up for an event that carries none.
pub open spec fn synthesized_inbound(
    content: Tree,
    sender: Seq<char>,
    personas: Seq<String>,
    thread_agent: Option<Seq<char>>,
) -> InboundView {
    let made = synthesized(sender, event_body(content), personas, thread_agent);
    InboundView::Envelope(made.0, made.1)
}

/// What an event is. One that carries an envelope of another version is
/// unsupported; one that carries a well-formed envelope is that envelope; any
/// other is a person's message.
pub open spec fn inbound_of(
    content: Tree,
    sender: Seq<char>,
    personas: Seq<String>,
    thread_agent: Option<Seq<char>>,
) -> InboundView {
    match json::field(content, ENVELOPE_KEY@) {
        Some(raw) => {
            let v = json::unsigned_field(raw, "v"@);
            if v is Some && v->0 != SUPPORTED_VERSION {
                InboundView::UnsupportedVersion(v->0)
            } else {
                match envelope_of(raw) {
                    Some(env) => InboundView::Envelope(ingested(env), None),
                    None => synthesized_inbound(content, sender, personas, thread_agent),
                }
            }
        },
        None => synthesized_inbound(content, sender, personas, thread_agent),
    }
}

/// What the event with the content `content` is. `thread_agent` is the persona
/// last addressed in the thread that the event belongs to.
pub fn from_event_json(
    content: &Json,
    sender: &str,
    personas: &[String],
    thread_agent: Option<&str>,
) -> (r: Inbound)
    ensures
        r@ == inbound_of(content@, sender@, personas@, opt_str(thread_agent)),
{
    match content.get(ENVELOPE_KEY) {
        Some(raw) => {
            match raw.get_u64("v") {
                Some(v) if v != SUPPORTED_VERSION as u64 => {
                    return Inbound::UnsupportedVersion(v);
                },
                _ => {},
            }
            match parse_envelope(raw) {
                Some(env) => {
                    return Inbound::Envelope(ingest(env), None);
                },
                None => {},
            }
        },
        None => {},
    }
    let body = match content.get_str("body") {
        Some(s) => s.to_owned(),
        None => String::new(),
    };
    proof {
        assert(body@ =~= event_body(content@));
    }
    let (env, unknown) = synthesize_for_human(sender, body.as_str(), personas, thread_agent);
    Inbound::Envelope(env, unknown)
}

/// The fields of the content of an event that carries the envelope.
pub open spec fn event_pairs(env: EnvelopeView, relates_to: Option<Tree>) -> Seq<(Seq<char>, Tree)> {
    seq![
        ("msgtype"@, Tree::Text("m.text"@)),
        ("body"@, Tree::Text(plain_text(env))),
        ("format"@, Tree::Text("org.matrix.custom.html"@)),
        ("formatted_body"@, Tree::Text(html_text(env))),
        (ENVELOPE_KEY@, envelope_tree(env)),
    ] + optional_pair("m.relates_to"@, relates_to)
}

/// The content of an event that carries the envelope.
pub open spec fn event_tree(env: EnvelopeView, relates_to: Option<Tree>) -> Tree {
    json::object(event_pairs(env, relates_to))
}

/// The content of an event that carries the envelope, in the relation
/// `relates_to` to another event when that is given.
pub fn to_event_content(env: &Envelope, relates_to: Option<Json>) -> (content: Json)
    ensures
        content@ == event_tree(env@, optional_tree(relates_to)),
{
    let (plain, html) = render(env);
    let mut fields = vec![
        json::pair("msgtype", Json::text("m.text")),
        json::pair("body", Json::Text(plain)),
        json::pair("format", Json::text("org.matrix.custom.html")),
        json::pair("formatted_body", Json::Text(html)),
        json::pair(ENVELOPE_KEY, envelope_json(env)),
    ];
    let ghost relation = optional_tree(relates_to);
    match relates_to {
        Some(relates_to) => {
            fields.push(json::pair("m.relates_to", relates_to));
        },
        None => {},
    }
    proof {
        assert(json::tree_pairs(fields@) =~= event_pairs(env@, relation));
    }
    Json::Object(fields)
}

/// The event that `content` stands in the relation `rel_type` to.
pub open spec fn related_event(content: Tree, rel_type: Seq<char>) -> Option<Seq<char>> {
    match json::field(content, "m.relates_to"@) {
        Some(relation) => if json::text_field(relation, "rel_type"@) == Some(rel_type) {
            json::text_field(relation, "event_id"@)
        } else {
            None
        },
        None => None,
    }
}

/// The event that `content` stands in the relation `rel_type` to.
pub fn related(content: &Json, rel_type: &str) -> (r: Option<String>)
    ensures
        json::opt_view(r) == related_event(content@, rel_type@),
{
    match content.get("m.relates_to") {
        Some(relation) => {
            match relation.get_str("rel_type") {
                Some(kind) if same(kind, rel_type) => {},
                _ => {
                    return None;
                },
            }
            match relation.get_str("event_id") {
                Some(id) => Some(id.to_owned()),
                None => None,
            }
        },
        None => None,
    }
}

/// The root of the thread that the event belongs to, when it names one.
pub open spec fn thread_root(content: Tree) -> Option<Seq<char>> {
    related_event(content, "m.thread"@)
}

/// The root of the thread that the event belongs to, when it names one. One
/// that names none may be the first of a thread itself.
pub fn thread_root_from_content(content: &Json) -> (r: Option<String>)
    ensures
        json::opt_view(r) == thread_root(content@),
{
    related(content, "m.thread")
}

/// The relation of an event to the thread of the root, with its latest event
/// as the reply that clients without threads fall back to.
pub open spec fn thread_relation_tree(root: Seq<char>, latest: Seq<char>) -> Tree {
    json::object(
        seq![
            ("rel_type"@, Tree::Text("m.thread"@)),
            ("event_id"@, Tree::Text(root)),
            ("is_falling_back"@, Tree::Bool(true)),
            ("m.in_reply_to"@, json::object(seq![("event_id"@, Tree::Text(latest))])),
        ],
    )
}

/// The relation of an event to the thread of `root_event_id`, whose latest
/// event is `latest_event_id`.
pub fn thread_relation(root_event_id: &str, latest_event_id: &str) -> (j: Json)
    ensures
        j@ == thread_relation_tree(root_event_id@, latest_event_id@),
{
    let reply = vec![json::pair("event_id", Json::text(latest_event_id))];
    let ghost reply_pairs = seq![("event_id"@, Tree::Text(latest_event_id@))];
    proof {
        assert(json::tree_pairs(reply@) =~= reply_pairs);
    }
    let fields = vec![
        json::pair("rel_type", Json::text("m.thread")),
        json::pair("event_id", Json::text(root_event_id)),
        json::pair("is_falling_back", Json::Bool(true)),
        json::pair("m.in_reply_to", Json::Object(reply)),
    ];
    proof {
        assert(json::tree_pairs(fields@) =~= seq![
            ("rel_type"@, Tree::Text("m.thread"@)),
            ("event_id"@, Tree::Text(root_event_id@)),
            ("is_falling_back"@, Tree::Bool(true)),
            ("m.in_reply_to"@, json::object(reply_pairs)),
        ]);
    }
    Json::Object(fields)
}

/// The names of the envelope's fields differ from each other.
proof fn lemma_field_names()
    ensures
        "v"@ != "from"@ && "v"@ != "to"@ && "v"@ != "type"@ && "v"@ != "body"@ && "v"@ != "task_id"@
            && "v"@ != "wake"@ && "v"@ != "meta"@,
        "from"@ != "to"@ && "from"@ != "type"@ && "from"@ != "body"@ && "from"@ != "task_id"@
            && "from"@ != "wake"@ && "from"@ != "meta"@,
        "to"@ != "type"@ && "to"@ != "body"@ && "to"@ != "task_id"@ && "to"@ != "wake"@ && "to"@ != "meta"@,
        "type"@ != "body"@ && "type"@ != "task_id"@ && "type"@ != "wake"@ && "type"@ != "meta"@,
        "body"@ != "task_id"@ && "body"@ != "wake"@ && "body"@ != "meta"@,
        "task_id"@ != "wake"@ && "task_id"@ != "meta"@,
        "wake"@ != "meta"@,
{
    reveal_strlit("v");
    reveal_strlit("from");
    reveal_strlit("to");
    reveal_strlit("type");
    reveal_strlit("body");
    reveal_strlit("task_id");
    reveal_strlit("wake");
    reveal_strlit("meta");
    assert("v"@.len() == 1 && "to"@.len() == 2 && "task_id"@.len() == 7);
    assert("from"@.len() == 4 && "type"@.len() == 4 && "body"@.len() == 4 && "wake"@.len() == 4 && "meta"@.len()
        == 4);
    assert("from"@[0] == 'f' && "type"@[0] == 't' && "body"@[0] == 'b' && "wake"@[0] == 'w' && "meta"@[0] == 'm');
}

/// The fields of an envelope on the wire.
pub proof fn lemma_envelope_fields(env: EnvelopeView)
    requires
        env.well_formed(),
    ensures
        json::field(envelope_tree(env), "v"@) == Some(json::unsigned_tree(env.v as u64)),
        json::field(envelope_tree(env), "from"@) == Some(Tree::Text(env.from)),
        json::field(envelope_tree(env), "to"@) == Some(Tree::Text(env.to)),
        json::field(envelope_tree(env), "type"@) == Some(Tree::Text(env.kind)),
        json::field(envelope_tree(env), "body"@) == Some(Tree::Text(env.body)),
        json::field(envelope_tree(env), "task_id"@) == optional_text(env.task_id),
        json::field(envelope_tree(env), "wake"@) == optional_bool(env.wake),
        json::field(envelope_tree(env), "meta"@) == env.meta,
        unknown_fields(envelope_tree(env)->Object_0) == env.rest,
{
    lemma_field_names();
    let pairs = envelope_pairs(env);
    let known = json::field_map(pairs);
    let task: int = if env.task_id is Some {
        1
    } else {
        0
    };
    let wake: int = if env.wake is Some {
        1
    } else {
        0
    };
    assert(pairs[0].0 == "v"@ && pairs[1].0 == "from"@ && pairs[2].0 == "to"@ && pairs[3].0 == "type"@
        && pairs[4].0 == "body"@);
    assert(env.task_id is Some ==> pairs[5] == ("task_id"@, Tree::Text(env.task_id->0)));
    assert(env.wake is Some ==> pairs[5 + task] == ("wake"@, Tree::Bool(env.wake->0)));
    assert(env.meta is Some ==> pairs[5 + task + wake] == ("meta"@, env.meta->0));
    json::lemma_field_map_found(pairs, "v"@, 0);
    json::lemma_field_map_found(pairs, "from"@, 1);
    json::lemma_field_map_found(pairs, "to"@, 2);
    json::lemma_field_map_found(pairs, "type"@, 3);
    json::lemma_field_map_found(pairs, "body"@, 4);
    if env.task_id is Some {
        json::lemma_field_map_found(pairs, "task_id"@, 5);
    } else {
        json::lemma_field_map_missing(pairs, "task_id"@);
    }
    if env.wake is Some {
        json::lemma_field_map_found(pairs, "wake"@, 5 + task);
    } else {
        json::lemma_field_map_missing(pairs, "wake"@);
    }
    if env.meta is Some {
        json::lemma_field_map_found(pairs, "meta"@, 5 + task + wake);
    } else {
        json::lemma_field_map_missing(pairs, "meta"@);
    }
    assert forall|name: Seq<char>| known.dom().contains(name) implies is_known_field(name) by {
        if !is_known_field(name) {
            json::lemma_field_map_missing(pairs, name);
        }
    }
    assert(unknown_fields(env.rest.union_prefer_right(known)) =~= env.rest);
}

/// Reading an envelope off the wire gives back the envelope that was put on
/// it, with the fields that are not understood. (Metadata that is null reads as
/// none.)
pub proof fn law_envelope_round_trip(env: EnvelopeView)
    requires
        env.well_formed(),
        env.meta != Some(Tree::Null),
    ensures
        envelope_of(envelope_tree(env)) == Some(env),
{
    lemma_envelope_fields(env);
}

/// The fields of an event's content that are read back.
proof fn lemma_event_fields(env: EnvelopeView, relates_to: Option<Tree>)
    ensures
        json::field(event_tree(env, relates_to), ENVELOPE_KEY@) == Some(envelope_tree(env)),
        json::field(event_tree(env, relates_to), "m.relates_to"@) == relates_to,
        json::field(event_tree(env, relates_to), "body"@) == Some(Tree::Text(plain_text(env))),
{
    reveal_strlit("msgtype");
    reveal_strlit("body");
    reveal_strlit("format");
    reveal_strlit("formatted_body");
    reveal_strlit("org.safehouse.envelope");
    reveal_strlit("m.relates_to");
    let pairs = event_pairs(env, relates_to);
    assert(pairs[0].0 == "msgtype"@ && pairs[1].0 == "body"@ && pairs[2].0 == "format"@ && pairs[3].0
        == "formatted_body"@ && pairs[4].0 == ENVELOPE_KEY@);
    assert(relates_to is Some ==> pairs[5] == ("m.relates_to"@, relates_to->0));
    json::lemma_field_map_found(pairs, ENVELOPE_KEY@, 4);
    json::lemma_field_map_found(pairs, "body"@, 1);
    if relates_to is Some {
        json::lemma_field_map_found(pairs, "m.relates_to"@, 5);
    } else {
        json::lemma_field_map_missing(pairs, "m.relates_to"@);
    }
}

/// An event made of an envelope is that envelope when it comes back from the
/// room, whoever sent it and whatever thread it is in.
pub proof fn law_event_round_trip(
    env: EnvelopeView,
    relates_to: Option<Tree>,
    sender: Seq<char>,
    personas: Seq<String>,
    thread_agent: Option<Seq<char>>,
)
    requires
        env.well_formed(),
        env.v == SUPPORTED_VERSION,
        env.meta != Some(Tree::Null),
    ensures
        inbound_of(event_tree(env, relates_to), sender, personas, thread_agent)
            == InboundView::Envelope(ingested(env), None),
{
    lemma_event_fields(env, relates_to);
    lemma_envelope_fields(env);
    law_envelope_round_trip(env);
}

/// Dispatching an envelope a second time changes nothing more of it.
pub proof fn law_ingest_settles(env: EnvelopeView)
    ensures
        ingested(ingested(env)) == ingested(env),
{
    lemma_chat_is_known();
}

proof fn lemma_chat_is_known()
    ensures
        is_known_type("chat"@),
{
    assert(known_type_list()[0] == "chat"@);
}

/// An event that carries an envelope of another version is never dispatched,
/// neither as that envelope nor as a person's message.
pub proof fn law_other_versions_not_dispatched(
    content: Tree,
    sender: Seq<char>,
    personas: Seq<String>,
    thread_agent: Option<Seq<char>>,
    raw: Tree,
    v: u64,
)
    requires
        json::field(content, ENVELOPE_KEY@) == Some(raw),
        json::unsigned_field(raw, "v"@) == Some(v),
        v != SUPPORTED_VERSION,
    ensures
        inbound_of(content, sender, personas, thread_agent) == InboundView::UnsupportedVersion(v),
{
}

/// A field that is not understood is passed on: it is in the envelope that is
/// dispatched, and in that envelope on the wire again, as it came.
pub proof fn law_unknown_fields_are_passed_on(
    content: Tree,
    sender: Seq<char>,
    personas: Seq<String>,
    thread_agent: Option<Seq<char>>,
    raw: Tree,
    name: Seq<char>,
)
    requires
        json::field(content, ENVELOPE_KEY@) == Some(raw),
        json::unsigned_field(raw, "v"@) == Some(SUPPORTED_VERSION as u64),
        envelope_of(raw) is Some,
        !is_known_field(name),
    ensures
        inbound_of(content, sender, personas, thread_agent) matches InboundView::Envelope(env, _) && json::field(
            envelope_tree(env),
            name,
        ) == json::field(raw, name),
{
    let env = ingested(envelope_of(raw)->0);
    let pairs = envelope_pairs(env);
    json::lemma_field_map_missing(pairs, name);
    assert(env.rest.union_prefer_right(json::field_map(pairs)).dom().contains(name) == env.rest.dom().contains(name));
}

/// A message that carries an envelope never counts as addressed to an unknown
/// persona, whatever its rendered text looks like.
pub proof fn law_envelope_never_flags_unknown_persona(
    content: Tree,
    sender: Seq<char>,
    personas: Seq<String>,
    thread_agent: Option<Seq<char>>,
    raw: Tree,
)
    requires
        json::field(content, ENVELOPE_KEY@) == Some(raw),
        envelope_of(raw) is Some,
    ensures
        inbound_of(content, sender, personas, thread_agent) matches InboundView::Envelope(_, token) ==> token
            is None,
{
}

/// Whatever is dispatched is well formed, has a type that is understood, is a
/// completion only with valid metadata, and wakes nobody when it is for
/// everyone.
pub proof fn law_dispatched_envelopes(
    content: Tree,
    sender: Seq<char>,
    personas: Seq<String>,
    thread_agent: Option<Seq<char>>,
)
    requires
        forall|i: int| 0 <= i < personas.len() ==> is_persona(#[trigger] personas[i]@),
        thread_agent is Some ==> is_persona(thread_agent->0),
    ensures
        inbound_of(content, sender, personas, thread_agent) matches InboundView::Envelope(env, _) ==> {
            &&& env.well_formed()
            &&& is_known_type(env.kind)
            &&& env.kind == "completion"@ ==> has_completion_meta(env)
            &&& env.to == "*"@ ==> env.wake == Some(false)
        },
{
    lemma_chat_is_known();
    reveal_strlit("chat");
    reveal_strlit("completion");
    reveal_strlit("*");
    assert("chat"@.len() == 4 && "completion"@.len() == 10);
    assert(!is_persona("*"@)) by {
        assert("*"@[0] == '*');
    }
}

/// A leading token decides alone: the thread a message stands in plays no part.
pub proof fn law_address_overrides_thread(
    sender: Seq<char>,
    body: Seq<char>,
    personas: Seq<String>,
    agent: Seq<char>,
)
    requires
        address_token(body).len() > 0,
    ensures
        synthesized(sender, body, personas, Some(agent)) == synthesized(sender, body, personas, None),
{
}

/// Escaped text holds no markup of its own.
pub proof fn law_escaped_text_has_no_markup(s: Seq<char>)
    ensures
        forall|i: int| 0 <= i < escaped(s).len() ==> #[trigger] escaped(s)[i] != '<' && escaped(s)[i] != '>',
    decreases s.len(),
{
    if s.len() > 0 {
        law_escaped_text_has_no_markup(s.drop_last());
        reveal_strlit("&amp;");
        reveal_strlit("&lt;");
        reveal_strlit("&gt;");
        let front = escaped(s.drop_last());
        let back = escaped_char(s.last());
        assert forall|i: int| 0 <= i < escaped(s).len() implies #[trigger] escaped(s)[i] != '<'
            && escaped(s)[i] != '>' by {
            if i < front.len() {
                assert(escaped(s)[i] == front[i]);
            } else {
                assert(escaped(s)[i] == back[i - front.len()]);
            }
        }
    }
}

/// An event sent into a thread is found in that thread; one sent without a
/// relation names no thread.
pub proof fn law_thread_relation_names_the_root(env: EnvelopeView, root: Seq<char>, latest: Seq<char>)
    ensures
        thread_root(event_tree(env, Some(thread_relation_tree(root, latest)))) == Some(root),
        thread_root(event_tree(env, None)) is None,
{
    lemma_event_fields(env, Some(thread_relation_tree(root, latest)));
    lemma_event_fields(env, None);
    reveal_strlit("rel_type");
    reveal_strlit("event_id");
    reveal_strlit("is_falling_back");
    reveal_strlit("m.in_reply_to");
    let pairs = seq![
        ("rel_type"@, Tree::Text("m.thread"@)),
        ("event_id"@, Tree::Text(root)),
        ("is_falling_back"@, Tree::Bool(true)),
        ("m.in_reply_to"@, json::object(seq![("event_id"@, Tree::Text(latest))])),
    ];
    assert("rel_type"@[0] == 'r' && "event_id"@[0] == 'e');
    json::lemma_field_map_found(pairs, "rel_type"@, 0);
    json::lemma_field_map_found(pairs, "event_id"@, 1);
}

} // verus!
