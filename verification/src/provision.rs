//! The onboarding of a fleet host: the command that makes or retires its bot
//! account, and what the answer to it tells.
use vstd::prelude::*;
use vstd::string::*;

use crate::cli;
use crate::cli::parse_u64;
use crate::identifiers;
use crate::identifiers::{room_alias_valid, room_id_valid};
use crate::json;
use crate::json::{Json, Tree};
use crate::settings;
use crate::settings::{optional, required};
use crate::text;
use crate::text::{chars_of, contains, debug_form, replace, same};

verus! {

/// The name of a host's bot account when none is set.
pub open spec fn host_account(host: Seq<char>) -> Seq<char> {
    account_name(None, host)
}

/// The name of a host's bot account when none is set.
pub fn derive_username(host: &str) -> (name: String)
    ensures
        name@ == host_account(host@),
        name@ == "safehoused-"@ + host@,
{
    let mut name = "safehoused-".to_owned();
    name.append(host);
    name
}

/// The lower-case hexadecimal digits.
pub open spec fn hex_digits() -> Seq<char> {
    seq!['0', '1', '2', '3', '4', '5', '6', '7', '8', '9', 'a', 'b', 'c', 'd', 'e', 'f']
}

/// The bytes in hexadecimal, two digits for each.
pub open spec fn hex_text(bytes: Seq<u8>) -> Seq<char>
    decreases bytes.len(),
{
    if bytes.len() == 0 {
        Seq::empty()
    } else {
        let b = bytes.last() as int;
        hex_text(bytes.drop_last()) + seq![hex_digits()[b / 16], hex_digits()[b % 16]]
    }
}

fn hex_char(d: u8) -> (c: char)
    requires
        d < 16,
    ensures
        c == hex_digits()[d as int],
{
    match d {
        0 => '0',
        1 => '1',
        2 => '2',
        3 => '3',
        4 => '4',
        5 => '5',
        6 => '6',
        7 => '7',
        8 => '8',
        9 => '9',
        10 => 'a',
        11 => 'b',
        12 => 'c',
        13 => 'd',
        14 => 'e',
        _ => 'f',
    }
}

/// How many bytes a password is made of.
pub const PASSWORD_BYTES: usize = 32;

/// The password that is made of random bytes; none when they are too few.
pub open spec fn password_of(source: Seq<u8>) -> Option<Seq<char>> {
    if source.len() < PASSWORD_BYTES {
        None
    } else {
        Some(hex_text(source.take(PASSWORD_BYTES as int)))
    }
}

/// A password out of the random bytes that the source gave.
pub fn generate_password_from(source: &[u8]) -> (r: Result<String, String>)
    ensures
        match r {
            Ok(password) => password_of(source@) == Some(password@),
            Err(message) => password_of(source@) is None && message@
                == "reading randomness for generated password"@,
        },
{
    if source.len() < PASSWORD_BYTES {
        return Err("reading randomness for generated password".to_owned());
    }
    let mut password = String::new();
    let mut i: usize = 0;
    proof {
        assert(password@ =~= hex_text(source@.take(0)));
    }
    while i < PASSWORD_BYTES
        invariant
            i <= PASSWORD_BYTES <= source@.len(),
            password@ == hex_text(source@.take(i as int)),
        decreases PASSWORD_BYTES - i,
    {
        let ghost was = password@;
        let b: u8 = source[i];
        password.push(hex_char(b / 16));
        password.push(hex_char(b % 16));
        proof {
            assert(source@.take(i + 1).drop_last() =~= source@.take(i as int));
            assert(source@.take(i + 1).last() == b);
            assert(password@ =~= was + seq![hex_digits()[b as int / 16], hex_digits()[b as int % 16]]);
        }
        i = i + 1;
    }
    Ok(password)
}

/// Hexadecimal has two lower-case digits for each byte.
pub proof fn law_passwords_are_hexadecimal(bytes: Seq<u8>)
    ensures
        hex_text(bytes).len() == 2 * bytes.len(),
        forall|i: int|
            0 <= i < hex_text(bytes).len() ==> hex_digits().contains(#[trigger] hex_text(bytes)[i]),
    decreases bytes.len(),
{
    if bytes.len() > 0 {
        law_passwords_are_hexadecimal(bytes.drop_last());
        let before = hex_text(bytes.drop_last());
        let b = bytes.last() as int;
        assert forall|i: int| 0 <= i < hex_text(bytes).len() implies hex_digits().contains(
            #[trigger] hex_text(bytes)[i],
        ) by {
            if i < before.len() {
                assert(hex_text(bytes)[i] == before[i]);
            } else if i == before.len() {
                assert(hex_text(bytes)[i] == hex_digits()[b / 16]);
            } else {
                assert(hex_text(bytes)[i] == hex_digits()[b % 16]);
            }
        }
    }
}

/// Different bytes make different passwords: none of the randomness is lost.
pub proof fn law_passwords_keep_the_randomness(a: Seq<u8>, b: Seq<u8>)
    requires
        a.len() == b.len(),
        hex_text(a) == hex_text(b),
    ensures
        a == b,
    decreases a.len(),
{
    if a.len() > 0 {
        let m = a.last() as int;
        let n = b.last() as int;
        law_passwords_are_hexadecimal(a.drop_last());
        law_passwords_are_hexadecimal(b.drop_last());
        let k = 2 * (a.len() - 1);
        assert(hex_text(a).take(k) =~= hex_text(a.drop_last()));
        assert(hex_text(b).take(k) =~= hex_text(b.drop_last()));
        law_passwords_keep_the_randomness(a.drop_last(), b.drop_last());
        assert(hex_text(a)[k] == hex_digits()[m / 16] && hex_text(b)[k] == hex_digits()[n / 16]);
        assert(hex_text(a)[k + 1] == hex_digits()[m % 16] && hex_text(b)[k + 1] == hex_digits()[n % 16]);
        assert(m / 16 == n / 16 && m % 16 == n % 16);
        assert(a =~= a.drop_last().push(a.last()));
        assert(b =~= b.drop_last().push(b.last()));
    }
}

/// The command: the template with the user and the password in their places.
pub open spec fn rendered_command(template: Seq<char>, user: Seq<char>, password: Seq<char>) -> Seq<char> {
    text::replaced(text::replaced(template, "{user}"@, user), "{password}"@, password)
}

/// The command: the template with the user and the password in their places.
pub fn render_command(template: &str, user: &str, password: &str) -> (command: String)
    ensures
        command@ == rendered_command(template@, user@, password@),
{
    replace(replace(template, "{user}", user).as_str(), "{password}", password)
}

proof fn lemma_nothing_to_replace(s: Seq<char>, pattern: Seq<char>, with: Seq<char>)
    requires
        !text::has_part(s, pattern),
    ensures
        text::replaced(s, pattern, with) == s,
    decreases s.len(),
{
    if pattern.len() > 0 && s.len() > 0 {
        assert(!text::stands_at(s, pattern, 0));
        let rest = s.skip(1);
        assert forall|at: int| !text::stands_at(rest, pattern, at) by {
            if text::stands_at(rest, pattern, at) {
                assert(s.subrange(at + 1, at + 1 + pattern.len()) =~= rest.subrange(at, at + pattern.len()));
                assert(text::stands_at(s, pattern, at + 1));
            }
        }
        lemma_nothing_to_replace(rest, pattern, with);
        assert(seq![s[0]] + rest =~= s);
    }
}

/// A template with neither place in it is the command as it stands.
pub proof fn law_other_text_is_left_alone(template: Seq<char>, user: Seq<char>, password: Seq<char>)
    requires
        !text::has_part(template, "{user}"@),
        !text::has_part(template, "{password}"@),
    ensures
        rendered_command(template, user, password) == template,
{
    lemma_nothing_to_replace(template, "{user}"@, user);
    lemma_nothing_to_replace(template, "{password}"@, password);
}

/// Whether the answer mentions the account.
pub fn ack_mentions_user(reply_body: &str, username: &str) -> (r: bool)
    ensures
        r == text::has_part(reply_body@, username@),
{
    contains(reply_body, username)
}

/// What the answer tells of the command.
#[derive(Clone, Copy, Debug, PartialEq, Eq, Structural)]
pub enum AckVerdict {
    /// It mentions the account.
    Confirmed,
    /// It does not.
    Unrelated,
    /// There was none in time.
    Missing,
}

/// What the answer, if there was one, tells of the command.
pub open spec fn told_by(reply_body: Option<Seq<char>>, username: Seq<char>) -> AckVerdict {
    match reply_body {
        Some(body) => if text::has_part(body, username) {
            AckVerdict::Confirmed
        } else {
            AckVerdict::Unrelated
        },
        None => AckVerdict::Missing,
    }
}

/// What the answer, if there was one, tells of the command.
pub fn judge_ack(reply_body: Option<&str>, username: &str) -> (verdict: AckVerdict)
    ensures
        verdict == told_by(view_of(reply_body), username@),
        verdict == (match reply_body {
            None => AckVerdict::Missing,
            Some(body) => if text::has_part(body@, username@) {
                AckVerdict::Confirmed
            } else {
                AckVerdict::Unrelated
            },
        }),
{
    match reply_body {
        None => AckVerdict::Missing,
        Some(body) => {
            if ack_mentions_user(body, username) {
                AckVerdict::Confirmed
            } else {
                AckVerdict::Unrelated
            }
        },
    }
}

/// Whether a message is an answer to the account that watches the room.
pub open spec fn counts_as_answer(
    room_id: Seq<char>,
    watched: Seq<char>,
    sender: Seq<char>,
    own_user: Option<Seq<char>>,
) -> bool {
    room_id == watched && own_user != Some(sender)
}

/// Whether a message is an answer: it is in the room that is watched, and the
/// account that watches did not send it.
pub fn is_answer(room_id: &str, watched: &str, sender: &str, own_user: Option<&str>) -> (r: bool)
    ensures
        r == counts_as_answer(room_id@, watched@, sender@, view_of(own_user)),
        r == (room_id@ == watched@ && (match own_user {
            Some(own) => sender@ != own@,
            None => true,
        })),
{
    if !same(room_id, watched) {
        return false;
    }
    match own_user {
        Some(own) => !same(sender, own),
        None => true,
    }
}

/// How long the next wait for an answer may take, in nanoseconds.
pub open spec fn next_wait(elapsed: u128, deadline: u128) -> Option<int> {
    let left = deadline - elapsed;
    if left <= 0 {
        None
    } else if left < 100_000_000 {
        Some(100_000_000)
    } else if left > 2_000_000_000 {
        Some(2_000_000_000)
    } else {
        Some(left)
    }
}

/// How long the next wait for an answer may take, in nanoseconds: what is left
/// of the time, but no less than a tenth of a second and no more than two
/// seconds. None when the time is up.
pub fn wait_step(elapsed: u128, deadline: u128) -> (step: Option<u64>)
    ensures
        step is Some <==> next_wait(elapsed, deadline) is Some,
        step matches Some(nanos) ==> next_wait(elapsed, deadline) == Some(nanos as int),
        match step {
            None => elapsed >= deadline,
            Some(step) => elapsed < deadline && step == (if deadline - elapsed < 100_000_000 {
                100_000_000int
            } else if deadline - elapsed > 2_000_000_000 {
                2_000_000_000int
            } else {
                deadline - elapsed
            }),
        },
{
    if elapsed >= deadline {
        return None;
    }
    let left: u128 = deadline - elapsed;
    if left < 100_000_000 {
        Some(100_000_000)
    } else if left > 2_000_000_000 {
        Some(2_000_000_000)
    } else {
        Some(left as u64)
    }
}

/// How the admin room is named.
#[derive(Clone, Copy, Debug, PartialEq, Eq, Structural)]
pub enum RoomSpec {
    Alias,
    Id,
}

/// How the admin room is named, or what is wrong with its name. `valid` says
/// whether it is well-formed as what it is.
pub open spec fn room_spec(spec: Seq<char>, valid: bool) -> Result<RoomSpec, Seq<char>> {
    if spec.len() > 0 && spec[0] == '#' {
        if valid {
            Ok(RoomSpec::Alias)
        } else {
            Err("invalid room alias "@ + text::debug_text(spec))
        }
    } else if valid {
        Ok(RoomSpec::Id)
    } else {
        Err("invalid room id "@ + text::debug_text(spec) + " (expected `!id:server` or `#alias:server`)"@)
    }
}

/// Whether the name is well-formed as what it is.
pub open spec fn room_spec_valid(spec: Seq<char>) -> bool {
    if spec.len() > 0 && spec[0] == '#' {
        identifiers::is_room_alias(spec)
    } else {
        identifiers::is_room_id(spec)
    }
}

fn is_alias_form(spec: &str) -> (r: bool)
    ensures
        r == (spec@.len() > 0 && spec@[0] == '#'),
{
    let v = chars_of(spec);
    v.len() > 0 && v[0] == '#'
}

/// How the admin room is named, or what is wrong with its name. `valid` says
/// whether it is well-formed as what it is.
pub fn classify_room_spec(spec: &str, valid: bool) -> (r: Result<RoomSpec, String>)
    ensures
        match r {
            Ok(kind) => room_spec(spec@, valid) == Ok::<RoomSpec, Seq<char>>(kind),
            Err(message) => room_spec(spec@, valid) == Err::<RoomSpec, Seq<char>>(message@),
        },
{
    if is_alias_form(spec) {
        if valid {
            return Ok(RoomSpec::Alias);
        }
        let mut message = "invalid room alias ".to_owned();
        message.append(debug_form(spec).as_str());
        return Err(message);
    }
    if valid {
        return Ok(RoomSpec::Id);
    }
    let mut message = "invalid room id ".to_owned();
    message.append(debug_form(spec).as_str());
    message.append(" (expected `!id:server` or `#alias:server`)");
    Err(message)
}

/// How the admin room is named, or what is wrong with its name.
pub fn read_room_spec(spec: &str) -> (r: Result<RoomSpec, String>)
    ensures
        match r {
            Ok(kind) => room_spec(spec@, room_spec_valid(spec@)) == Ok::<RoomSpec, Seq<char>>(kind),
            Err(message) => room_spec(spec@, room_spec_valid(spec@)) == Err::<RoomSpec, Seq<char>>(message@),
        },
{
    let valid = if is_alias_form(spec) {
        room_alias_valid(spec)
    } else {
        room_id_valid(spec)
    };
    classify_room_spec(spec, valid)
}

/// The settings of an onboarding.
#[derive(Debug)]
pub struct ProvisionSettings {
    pub homeserver: Option<String>,
    pub admin_username: Option<String>,
    pub admin_password: Option<String>,
    pub admin_room: Option<String>,
    pub host: Option<String>,
    pub new_username: Option<String>,
    pub new_password: Option<String>,
    pub command_template: Option<String>,
    pub ack_timeout: Option<String>,
}

/// What an onboarding, or a retirement, does.
#[derive(Debug)]
pub struct ProvisionPlan {
    /// Whether the account is made; else it is retired.
    pub create: bool,
    pub homeserver: String,
    pub admin_username: String,
    pub admin_password: String,
    pub admin_room: String,
    pub username: String,
    /// The password of the account that is made; empty for one that is retired.
    pub password: String,
    /// What is sent to the admin room.
    pub command: String,
    /// The same, fit to be shown.
    pub shown: String,
    pub ack_timeout_secs: u64,
}

/// The model of `ProvisionPlan`.
pub struct ProvisionPlanView {
    pub create: bool,
    pub homeserver: Seq<char>,
    pub admin_username: Seq<char>,
    pub admin_password: Seq<char>,
    pub admin_room: Seq<char>,
    pub username: Seq<char>,
    pub password: Seq<char>,
    pub command: Seq<char>,
    pub shown: Seq<char>,
    pub ack_timeout_secs: u64,
}

impl View for ProvisionPlan {
    type V = ProvisionPlanView;

    open spec fn view(&self) -> ProvisionPlanView {
        ProvisionPlanView {
            create: self.create,
            homeserver: self.homeserver@,
            admin_username: self.admin_username@,
            admin_password: self.admin_password@,
            admin_room: self.admin_room@,
            username: self.username@,
            password: self.password@,
            command: self.command@,
            shown: self.shown@,
            ack_timeout_secs: self.ack_timeout_secs,
        }
    }
}

/// What is said to a caller that names no mode.
pub const PROVISION_USAGE: &'static str =
    "usage: provision-host <create|deactivate> (run via scripts/provision-host.sh / scripts/deprovision-host.sh, not directly)";

/// Whether the mode makes an account; another retires one.
pub open spec fn provision_mode(mode: Option<Seq<char>>) -> Result<bool, Seq<char>> {
    match mode {
        None => Err(PROVISION_USAGE@),
        Some(mode) => if mode == "create"@ {
            Ok(true)
        } else if mode == "deactivate"@ {
            Ok(false)
        } else {
            Err(
                "unknown mode "@ + text::debug_text(mode) + " — expected \"create\" or \"deactivate\""@,
            )
        },
    }
}

/// Whether the mode makes an account; another retires one.
pub fn read_mode(mode: Option<&str>) -> (r: Result<bool, String>)
    ensures
        match r {
            Ok(create) => provision_mode(view_of(mode)) == Ok::<bool, Seq<char>>(create),
            Err(message) => provision_mode(view_of(mode)) == Err::<bool, Seq<char>>(message@),
        },
{
    match mode {
        None => Err(PROVISION_USAGE.to_owned()),
        Some(mode) => {
            if same(mode, "create") {
                Ok(true)
            } else if same(mode, "deactivate") {
                proof {
                    reveal_strlit("create");
                    reveal_strlit("deactivate");
                    assert("create"@.len() == 6 && "deactivate"@.len() == 10);
                }
                Ok(false)
            } else {
                let mut message = "unknown mode ".to_owned();
                message.append(debug_form(mode).as_str());
                message.append(" — expected \"create\" or \"deactivate\"");
                Err(message)
            }
        },
    }
}

/// The characters of a text that may be missing.
pub open spec fn view_of(s: Option<&str>) -> Option<Seq<char>> {
    match s {
        Some(s) => Some(s@),
        None => None,
    }
}

/// The command when no template is set.
pub open spec fn default_template(create: bool) -> Seq<char> {
    if create {
        "users create_user {user} {password}"@
    } else {
        "users deactivate {user}"@
    }
}

/// The password of the account: what is set, or else one out of the random
/// bytes; none at all for an account that is retired.
pub open spec fn planned_password(create: bool, set: Option<Seq<char>>, random: Seq<u8>) -> Result<
    Seq<char>,
    Seq<char>,
> {
    if !create {
        Ok(Seq::empty())
    } else {
        match set {
            Some(password) => Ok(password),
            None => match password_of(random) {
                Some(password) => Ok(password),
                None => Err("generating a password for the new account"@),
            },
        }
    }
}

/// The command as it is shown: without the password.
pub open spec fn shown_command(create: bool, template: Seq<char>, username: Seq<char>, command: Seq<char>) -> Seq<
    char,
> {
    if create {
        rendered_command(template, username, "<redacted>"@)
    } else {
        command
    }
}

/// The name of the account: what is set, or else that of the host.
pub open spec fn account_name(set: Option<Seq<char>>, host: Seq<char>) -> Seq<char> {
    match set {
        Some(name) => name,
        None => "safehoused-"@ + host,
    }
}

/// What the mode and the settings ask for, or the first thing that is wrong
/// with them.
pub open spec fn planned_provision(mode: Option<Seq<char>>, s: ProvisionSettings, random: Seq<u8>) -> Result<
    ProvisionPlanView,
    Seq<char>,
> {
    match provision_mode(mode) {
        Err(message) => Err(message),
        Ok(create) => match settings::required_value("PROVISION_HOMESERVER"@, json::opt_view(s.homeserver)) {
            Err(message) => Err(message),
            Ok(homeserver) => match settings::required_value(
                "PROVISION_ADMIN_USERNAME"@,
                json::opt_view(s.admin_username),
            ) {
                Err(message) => Err(message),
                Ok(admin_username) => match settings::required_value(
                    "PROVISION_ADMIN_PASSWORD"@,
                    json::opt_view(s.admin_password),
                ) {
                    Err(message) => Err(message),
                    Ok(admin_password) => match settings::required_value(
                        "PROVISION_ADMIN_ROOM"@,
                        json::opt_view(s.admin_room),
                    ) {
                        Err(message) => Err(message),
                        Ok(admin_room) => match settings::required_value(
                            "PROVISION_HOST"@,
                            json::opt_view(s.host),
                        ) {
                            Err(message) => Err(message),
                            Ok(host) => match planned_password(create, json::opt_view(s.new_password), random) {
                                Err(message) => Err(message),
                                Ok(password) => match cli::u64_of(
                                    settings::optional_value(json::opt_view(s.ack_timeout), "20"@),
                                ) {
                                    None => Err(
                                        "PROVISION_ACK_TIMEOUT_SECS must be a non-negative integer"@,
                                    ),
                                    Some(ack_timeout_secs) => {
                                        let username = account_name(json::opt_view(s.new_username), host);
                                        let template = settings::optional_value(
                                            json::opt_view(s.command_template),
                                            default_template(create),
                                        );
                                        let command = rendered_command(template, username, password);
                                        Ok(
                                            ProvisionPlanView {
                                                create,
                                                homeserver,
                                                admin_username,
                                                admin_password,
                                                admin_room,
                                                username,
                                                password,
                                                command,
                                                shown: shown_command(create, template, username, command),
                                                ack_timeout_secs,
                                            },
                                        )
                                    },
                                },
                            },
                        },
                    },
                },
            },
        },
    }
}

/// What the mode and the settings ask for, or the first thing that is wrong
/// with them. A password that is not set is made of the random bytes.
pub fn plan_provision(mode: Option<&str>, s: &ProvisionSettings, random: &[u8]) -> (r: Result<ProvisionPlan, String>)
    ensures
        match r {
            Ok(plan) => planned_provision(view_of(mode), *s, random@) == Ok::<ProvisionPlanView, Seq<char>>(plan@),
            Err(message) => planned_provision(view_of(mode), *s, random@) == Err::<ProvisionPlanView, Seq<char>>(
                message@,
            ),
        },
{
    let create = match read_mode(mode) {
        Ok(create) => create,
        Err(message) => {
            return Err(message);
        },
    };
    let homeserver = match required("PROVISION_HOMESERVER", &s.homeserver) {
        Ok(value) => value,
        Err(message) => {
            return Err(message);
        },
    };
    let admin_username = match required("PROVISION_ADMIN_USERNAME", &s.admin_username) {
        Ok(value) => value,
        Err(message) => {
            return Err(message);
        },
    };
    let admin_password = match required("PROVISION_ADMIN_PASSWORD", &s.admin_password) {
        Ok(value) => value,
        Err(message) => {
            return Err(message);
        },
    };
    let admin_room = match required("PROVISION_ADMIN_ROOM", &s.admin_room) {
        Ok(value) => value,
        Err(message) => {
            return Err(message);
        },
    };
    let host = match required("PROVISION_HOST", &s.host) {
        Ok(value) => value,
        Err(message) => {
            return Err(message);
        },
    };
    let username = match &s.new_username {
        Some(name) => name.clone(),
        None => derive_username(host.as_str()),
    };
    let password = if create {
        match &s.new_password {
            Some(password) => password.clone(),
            None => match generate_password_from(random) {
                Ok(password) => password,
                Err(_) => {
                    return Err("generating a password for the new account".to_owned());
                },
            },
        }
    } else {
        String::new()
    };
    proof {
        if !create {
            assert(password@ =~= Seq::empty());
        }
    }
    let template = if create {
        optional(&s.command_template, "users create_user {user} {password}")
    } else {
        optional(&s.command_template, "users deactivate {user}")
    };
    let ack_timeout_secs = match parse_u64(optional(&s.ack_timeout, "20").as_str()) {
        Some(secs) => secs,
        None => {
            return Err("PROVISION_ACK_TIMEOUT_SECS must be a non-negative integer".to_owned());
        },
    };
    let command = render_command(template.as_str(), username.as_str(), password.as_str());
    let shown = if create {
        render_command(template.as_str(), username.as_str(), "<redacted>")
    } else {
        command.clone()
    };
    Ok(
        ProvisionPlan {
            create,
            homeserver,
            admin_username,
            admin_password,
            admin_room,
            username,
            password,
            command,
            shown,
            ack_timeout_secs,
        },
    )
}

/// The fields of the message that carries the command.
pub open spec fn command_pairs(command: Seq<char>) -> Seq<(Seq<char>, Tree)> {
    seq![("msgtype"@, Tree::Text("m.text"@)), ("body"@, Tree::Text(command))]
}

/// The content of the message that carries the command.
pub fn command_content(command: &str) -> (j: Json)
    ensures
        j@ == json::object(command_pairs(command@)),
        j@ == json::object(seq![("msgtype"@, Tree::Text("m.text"@)), ("body"@, Tree::Text(command@))]),
{
    let fields = vec![json::pair("msgtype", Json::text("m.text")), json::pair("body", Json::text(command))];
    proof {
        assert(json::tree_pairs(fields@) =~= seq![
            ("msgtype"@, Tree::Text("m.text"@)),
            ("body"@, Tree::Text(command@)),
        ]);
    }
    Json::Object(fields)
}

/// What is shown of a command that makes an account does not depend on the
/// account's password.
pub proof fn law_passwords_are_not_shown(
    mode: Option<Seq<char>>,
    a: ProvisionSettings,
    b: ProvisionSettings,
    random_a: Seq<u8>,
    random_b: Seq<u8>,
)
    requires
        planned_provision(mode, a, random_a) is Ok,
        planned_provision(mode, b, random_b) is Ok,
        json::opt_view(a.host) == json::opt_view(b.host),
        json::opt_view(a.new_username) == json::opt_view(b.new_username),
        json::opt_view(a.command_template) == json::opt_view(b.command_template),
    ensures
        planned_provision(mode, a, random_a)->Ok_0.shown == planned_provision(mode, b, random_b)->Ok_0.shown,
{
    if provision_mode(mode) == Ok::<bool, Seq<char>>(false) {
        assert(planned_provision(mode, a, random_a)->Ok_0.password == planned_provision(mode, b, random_b)->Ok_0.password);
    }
}

} // verus!
