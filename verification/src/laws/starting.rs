//! Starting: the daemon, a headless device, a fleet host and the claims room.
use vstd::prelude::*;
use vstd::string::*;

use crate::boot;
use crate::boot::{BootPlan, RecoveryAction, RecoveryStatus, WalkView};
use crate::claims;
use crate::claims::{ClaimsPlanView, ClaimsSettings};
use crate::cli;
use crate::coldstart;
use crate::coldstart::{HistoryEvent, HistoryStep, RunKind};
use crate::conn;
use crate::conn::ConnStateView;
use crate::egress;
use crate::egress::{EgressConfig, Sink};
use crate::identifiers;
use crate::json;
use crate::json::Tree;
use crate::laws::connections::law_who_stays_connected;
use crate::laws::texts::law_trimming;
use crate::provision;
use crate::provision::{AckVerdict, ProvisionPlanView, ProvisionSettings, RoomSpec};
use crate::registry::RegistryView;
use crate::rooms;
use crate::rooms::Visibility;
use crate::settings;
use crate::text;

verus! {

/// With its session the daemon starts where it left off, without either it logs in
/// anew, and a store that has lost its session it leaves alone. The account's key
/// recovery is set up where there is none, and used where the keys are not there. A
/// device that was not signed is not run with.
pub proof fn law_how_the_daemon_starts(store: bool, signed: bool)
    ensures
        boot::planned_boot(store, true) == BootPlan::Warm,
        boot::planned_boot(true, false) == BootPlan::Refuse,
        boot::planned_boot(false, false) == BootPlan::Cold,
        boot::needed_recovery(RecoveryStatus::Enabled) == RecoveryAction::Nothing,
        boot::needed_recovery(RecoveryStatus::Disabled) == RecoveryAction::Enable,
        boot::needed_recovery(RecoveryStatus::Incomplete) == RecoveryAction::Recover,
        boot::needed_recovery(RecoveryStatus::Unknown) == RecoveryAction::Recover,
        boot::is_trusted_device(true),
        !boot::is_trusted_device(false),
{
}

/// A device whose keys have to be recovered is recovered, however it started; else
/// it is warm with its session and cold without. All but a cold one have a history
/// to show.
pub proof fn law_how_a_device_comes_up(store: bool, session: bool, status: RecoveryStatus)
    ensures
        coldstart::run_kind(true, false, status) is None,
        session || !store ==> {
            &&& status is Incomplete || status is Unknown ==> coldstart::run_kind(store, session, status) == Some(
                RunKind::Recovered,
            )
            &&& status is Enabled || status is Disabled ==> coldstart::run_kind(store, session, status) == Some(
                if session {
                    RunKind::Warm
                } else {
                    RunKind::Cold
                },
            )
        },
        RunKind::Warm.has_history(),
        RunKind::Recovered.has_history(),
        !RunKind::Cold.has_history(),
        RunKind::Cold.word() == "cold"@,
        RunKind::Warm.word() == "warm"@,
        RunKind::Recovered.word() == "recovered"@,
{
}

/// A history is read where nothing in it stayed encrypted. Until the fifteenth
/// reading it is read again, and then the device has failed.
pub proof fn law_when_history_is_read(attempt: u32, decrypted: usize, undecryptable: usize)
    ensures
        coldstart::history_outcome(attempt, decrypted, 0) == (HistoryStep::Read { decrypted }),
        undecryptable > 0 && attempt < 15 ==> coldstart::history_outcome(attempt, decrypted, undecryptable) == (
        HistoryStep::Again { decrypted, undecryptable }),
        undecryptable > 0 && attempt >= 15 ==> coldstart::history_outcome(attempt, decrypted, undecryptable) == (
        HistoryStep::Failed { decrypted, undecryptable }),
{
}

/// Events are counted by their kind.
pub proof fn law_events_are_counted(events: Seq<HistoryEvent>, event: HistoryEvent, kind: HistoryEvent)
    ensures
        coldstart::count_of(Seq::empty(), kind) == 0,
        coldstart::count_of(events.push(kind), kind) == coldstart::count_of(events, kind) + 1,
        event != kind ==> coldstart::count_of(events.push(event), kind) == coldstart::count_of(events, kind),
{
    assert(events.push(kind).drop_last() =~= events);
    assert(events.push(event).drop_last() =~= events);
}

/// A walk through history asks for pages of a hundred, and at the end for what is
/// left; it asks for no more once it has what is wanted, or a page was empty or the
/// last. What comes is kept in order, and the next page starts where this one ends.
pub proof fn law_how_history_is_walked(w: WalkView, page: Seq<Seq<char>>, end: Option<Seq<char>>)
    ensures
        w.ended ==> w.wanted() is None,
        w.newest_first.len() >= w.max ==> w.wanted() is None,
        !w.ended && w.newest_first.len() + 100 <= w.max ==> w.wanted() == Some(100nat),
        !w.ended && w.newest_first.len() < w.max < w.newest_first.len() + 100 ==> w.wanted() == Some(
            (w.max - w.newest_first.len()) as nat,
        ),
        w.walked(page, end).max == w.max,
        page.len() == 0 ==> w.walked(page, end).ended && w.walked(page, end).newest_first == w.newest_first,
        page.len() > 0 ==> {
            &&& w.walked(page, end).ended <==> end is None
            &&& end is Some ==> w.walked(page, end).from == end
            &&& w.walked(page, end).newest_first == w.newest_first + boot::parsed_events(page)
        },
        boot::THREAD_REPLAY_MAX_EVENTS == 500,
{
}

/// The events of a page are its texts that are JSON, in order.
pub proof fn law_which_events_a_page_has(page: Seq<Seq<char>>, raw: Seq<char>)
    ensures
        boot::parsed_events(Seq::empty()) == Seq::<Tree>::empty(),
        match json::parsed(raw) {
            Ok(event) => boot::parsed_events(page.push(raw)) == boot::parsed_events(page).push(event),
            Err(_) => boot::parsed_events(page.push(raw)) == boot::parsed_events(page),
        },
{
    assert(page.push(raw).drop_last() =~= page);
}

/// The first configured name that is no persona's is the one that is told.
pub proof fn law_which_persona_is_refused(before: Seq<String>, name: String, behind: Seq<String>)
    requires
        forall|i: int| 0 <= i < before.len() ==> crate::envelope::is_persona((#[trigger] before[i])@),
        !crate::envelope::is_persona(name@),
    ensures
        boot::first_invalid(before + seq![name] + behind) == Some(name@),
    decreases before.len(),
{
    let all = before + seq![name] + behind;
    if before.len() > 0 {
        assert(crate::envelope::is_persona(before[0]@));
        assert(all[0] == before[0]);
        assert(all.drop_first() =~= before.drop_first() + seq![name] + behind);
        assert forall|i: int| 0 <= i < before.drop_first().len() implies crate::envelope::is_persona(
            (#[trigger] before.drop_first()[i])@,
        ) by {
            assert(before.drop_first()[i] == before[i + 1]);
        }
        law_which_persona_is_refused(before.drop_first(), name, behind);
    } else {
        assert(all[0] == name);
    }
}

/// A room that was made is looked for by its name, for ten seconds.
pub proof fn law_how_long_a_room_is_waited_for(known: Option<Seq<char>>, name: Seq<char>, millis: u128)
    ensures
        rooms::visibility(Some(name), name, millis) == Visibility::Visible,
        known != Some(name) && millis < 10000 ==> rooms::visibility(known, name, millis) == Visibility::Waiting,
        known != Some(name) && millis >= 10000 ==> rooms::visibility(known, name, millis) == Visibility::TimedOut,
{
}

/// What was last heard and synced is remembered; a sync that completes ends the
/// retries, and one that fails begins them.
pub proof fn law_what_the_daemon_remembers(r: RegistryView, now: u64)
    ensures
        r.heard(now).last_event == Some(now),
        r.heard(now) == (RegistryView { last_event: Some(now), ..r }),
        r.synced(now).last_sync == Some(now),
        r.synced(now).retry is None,
        r.synced(now) == (RegistryView { last_sync: Some(now), retry: None, ..r }),
        r.unsynced().retry matches Some(retry) && retry.attempt >= 1 && retry.backoff_secs >= 2,
        r.unsynced() == (RegistryView { retry: r.unsynced().retry, ..r }),
{
    let next = crate::registry::next_retry(r.retry);
    crate::laws::feed::law_waits_double(1);
    if next.attempt >= 1 {
        crate::backoff::law_backoff_monotonic_and_capped(1, next.attempt as int);
    }
}

/// A connection that comes and goes leaves nobody behind.
pub proof fn law_who_comes_and_goes(r: RegistryView, c: ConnStateView, persona: Seq<char>)
    requires
        r.well_formed(),
        r.next_id < u64::MAX,
    ensures
        c.conn_id is None ==> conn::closed(r, c) == r,
        c.conn_id == Some(r.next_id) ==> conn::closed(r.with_conn(persona), c).conns == r.conns,
{
    if c.conn_id == Some(r.next_id) {
        let id = r.next_id;
        let f = |k: crate::registry::ConnView| k.id != id;
        law_who_stays_connected(r, id, crate::registry::ConnView { id, persona });
        reveal(Seq::filter);
        let with = r.with_conn(persona).conns;
        assert(with.drop_last() =~= r.conns);
        assert(r.without_conn(id) == r);
        assert(with.filter(f) == r.conns.filter(f));
    }
}

/// Completions go to the address where there is one, and else into the file.
pub proof fn law_where_completions_go(cfg: EgressConfig)
    ensures
        cfg.sink_url matches Some(url) ==> egress::chosen_sink(cfg) == Sink::Http(url),
        cfg.sink_url is None && cfg.sink_path is Some ==> egress::chosen_sink(cfg) == Sink::File(cfg.sink_path->0),
{
}

/// A setting is taken as it is; one that has to be there and is not is told by its
/// name, and one that need not be has a default.
pub proof fn law_settings(name: Seq<char>, value: Seq<char>, default: Seq<char>)
    ensures
        settings::required_value(name, Some(value)) == Ok::<Seq<char>, Seq<char>>(value),
        settings::required_value(name, None) == Err::<Seq<char>, Seq<char>>(name + " must be set"@),
        settings::optional_value(Some(value), default) == value,
        settings::optional_value(None, default) == default,
{
}

/// Whether the settings that an onboarding cannot do without are there.
pub open spec fn is_complete(s: ProvisionSettings) -> bool {
    s.homeserver is Some && s.admin_username is Some && s.admin_password is Some && s.admin_room is Some && s.host
        is Some
}

/// An account is made, or retired, as the settings say: for the host, under its name
/// unless another is set, with the password that is set or one out of 32 random
/// bytes, by the command of the template with both in their places. The command is
/// shown without the password. An answer is waited for twenty seconds unless that is
/// set.
pub proof fn law_what_is_provisioned(s: ProvisionSettings, random: Seq<u8>, create: bool)
    ensures
        ({
            let mode = if create {
                "create"@
            } else {
                "deactivate"@
            };
            let plan = provision::planned_provision(Some(mode), s, random);
            let timeout = match s.ack_timeout {
                Some(t) => cli::u64_of(t@),
                None => Some(20u64),
            };
            let ready = is_complete(s) && (create && s.new_password is None ==> random.len() >= 32) && timeout is Some;
            &&& plan is Ok <==> ready
            &&& plan matches Ok(p) ==> {
                let username = match s.new_username {
                    Some(name) => name@,
                    None => "safehoused-"@ + s.host->0@,
                };
                let template = match s.command_template {
                    Some(template) => template@,
                    None => if create {
                        "users create_user {user} {password}"@
                    } else {
                        "users deactivate {user}"@
                    },
                };
                &&& p.create == create
                &&& p.homeserver == s.homeserver->0@
                &&& p.admin_username == s.admin_username->0@
                &&& p.admin_password == s.admin_password->0@
                &&& p.admin_room == s.admin_room->0@
                &&& p.username == username
                &&& create && s.new_password is Some ==> p.password == s.new_password->0@
                &&& create && s.new_password is None ==> p.password == provision::hex_text(random.subrange(0, 32))
                &&& !create ==> p.password.len() == 0
                &&& p.command == text::replaced(
                    text::replaced(template, "{user}"@, username),
                    "{password}"@,
                    p.password,
                )
                &&& create ==> p.shown == text::replaced(
                    text::replaced(template, "{user}"@, username),
                    "{password}"@,
                    "<redacted>"@,
                )
                &&& !create ==> p.shown == p.command
                &&& timeout == Some(p.ack_timeout_secs)
            }
        }),
{
    reveal_strlit("create");
    reveal_strlit("deactivate");
    assert("create"@.len() == 6 && "deactivate"@.len() == 10);
    lemma_twenty();
    if random.len() >= 32 {
        assert(random.take(32) =~= random.subrange(0, 32));
    }
}

proof fn lemma_twenty()
    ensures
        cli::u64_of("20"@) == Some(20u64),
{
    reveal_strlit("20");
    let s = "20"@;
    assert(s.len() == 2 && s[0] == '2' && s[1] == '0');
    reveal_with_fuel(cli::digits_value, 3);
    assert(cli::without_plus(s) == s);
    assert(s.drop_last().drop_last() =~= Seq::<char>::empty());
    assert(s.drop_last().last() == '2');
    assert forall|i: int| 0 <= i < s.len() implies crate::completion::is_digit(#[trigger] s[i]) by {}
    assert(cli::digits_value(s) == 20);
}

/// Without a mode, or with one that there is not, nothing is done. The first of the
/// settings that is missing is told.
pub proof fn law_what_provisioning_needs(s: ProvisionSettings, random: Seq<u8>, mode: Seq<char>)
    ensures
        provision::planned_provision(None, s, random) is Err,
        mode != "create"@ && mode != "deactivate"@ ==> provision::planned_provision(Some(mode), s, random) == Err::<
            ProvisionPlanView,
            Seq<char>,
        >("unknown mode "@ + text::debug_text(mode) + " — expected \"create\" or \"deactivate\""@),
        mode == "create"@ || mode == "deactivate"@ ==> {
            let plan = provision::planned_provision(Some(mode), s, random);
            &&& s.homeserver is None ==> plan == Err::<ProvisionPlanView, Seq<char>>(
                "PROVISION_HOMESERVER"@ + " must be set"@,
            )
            &&& s.homeserver is Some && s.admin_username is None ==> plan == Err::<ProvisionPlanView, Seq<char>>(
                "PROVISION_ADMIN_USERNAME"@ + " must be set"@,
            )
            &&& s.homeserver is Some && s.admin_username is Some && s.admin_password is None ==> plan == Err::<
                ProvisionPlanView,
                Seq<char>,
            >("PROVISION_ADMIN_PASSWORD"@ + " must be set"@)
            &&& s.homeserver is Some && s.admin_username is Some && s.admin_password is Some && s.admin_room is None
                ==> plan == Err::<ProvisionPlanView, Seq<char>>("PROVISION_ADMIN_ROOM"@ + " must be set"@)
            &&& s.homeserver is Some && s.admin_username is Some && s.admin_password is Some && s.admin_room is Some
                && s.host is None ==> plan == Err::<ProvisionPlanView, Seq<char>>(
                "PROVISION_HOST"@ + " must be set"@,
            )
        },
{
}

/// The name of a host's account is that of the host behind a prefix.
pub proof fn law_account_names(host: Seq<char>, set: Seq<char>)
    ensures
        provision::host_account(host) == "safehoused-"@ + host,
        provision::account_name(Some(set), host) == set,
{
}

/// A byte is two hexadecimal digits, the high one first, and bytes follow each
/// other.
pub proof fn law_hexadecimal(a: Seq<u8>, b: Seq<u8>, byte: u8)
    ensures
        provision::hex_text(a + b) == provision::hex_text(a) + provision::hex_text(b),
        ({
            let s = provision::hex_text(seq![byte]);
            &&& s.len() == 2
            &&& s[0] as int == byte as int / 16 + (if byte as int / 16 < 10 {
                48int
            } else {
                87int
            })
            &&& s[1] as int == byte as int % 16 + (if byte as int % 16 < 10 {
                48int
            } else {
                87int
            })
        }),
    decreases b.len(),
{
    reveal_with_fuel(provision::hex_text, 2);
    assert(seq![byte].drop_last() =~= Seq::<u8>::empty());
    if b.len() == 0 {
        assert(a + b =~= a);
        assert(provision::hex_text(a) + provision::hex_text(b) =~= provision::hex_text(a));
    } else {
        law_hexadecimal(a, b.drop_last(), byte);
        assert((a + b).drop_last() =~= a + b.drop_last());
        assert((a + b).last() == b.last());
        assert(provision::hex_text(a + b) =~= provision::hex_text(a) + provision::hex_text(b));
    }
}

/// What an answer tells: that it is about the account where it mentions it, and that
/// it is not where it does not. An answer is in the room that is watched and from
/// someone else.
pub proof fn law_what_an_answer_tells(
    before: Seq<char>,
    username: Seq<char>,
    behind: Seq<char>,
    body: Seq<char>,
    room: Seq<char>,
    other: Seq<char>,
    sender: Seq<char>,
    own: Seq<char>,
)
    ensures
        provision::told_by(None, username) == AckVerdict::Missing,
        provision::told_by(Some(before + username + behind), username) == AckVerdict::Confirmed,
        !text::has_part(body, username) ==> provision::told_by(Some(body), username) == AckVerdict::Unrelated,
        other != room ==> !provision::counts_as_answer(other, room, sender, Some(own)),
        !provision::counts_as_answer(room, room, own, Some(own)),
        sender != own ==> provision::counts_as_answer(room, room, sender, Some(own)),
        provision::counts_as_answer(room, room, sender, None),
{
    crate::laws::texts::law_parts(before, username, behind, body);
}

/// An answer is waited for in steps of at most two seconds and at least a tenth of
/// one, until the time is up.
pub proof fn law_how_an_answer_is_waited_for(elapsed: u128, deadline: u128)
    ensures
        elapsed >= deadline ==> provision::next_wait(elapsed, deadline) is None,
        elapsed < deadline ==> (provision::next_wait(elapsed, deadline) matches Some(wait) && {
            &&& 100000000 <= wait <= 2000000000
            &&& 100000000 <= deadline - elapsed <= 2000000000 ==> wait == deadline - elapsed
            &&& deadline - elapsed > 2000000000 ==> wait == 2000000000
            &&& deadline - elapsed < 100000000 ==> wait == 100000000
        }),
{
}

/// The command is sent as plain text.
pub proof fn law_how_the_command_is_sent(command: Seq<char>)
    ensures
        json::text_field(json::object(provision::command_pairs(command)), "msgtype"@) == Some("m.text"@),
        json::text_field(json::object(provision::command_pairs(command)), "body"@) == Some(command),
{
    reveal_strlit("msgtype");
    reveal_strlit("body");
    assert("msgtype"@.len() == 7 && "body"@.len() == 4);
    let pairs = provision::command_pairs(command);
    assert(pairs[0].0 == "msgtype"@ && pairs[1].0 == "body"@);
    json::lemma_object_fields(pairs);
}

/// The admin room is named by an alias, which begins with `#`, or else by its id;
/// either has to be well formed.
pub proof fn law_how_the_admin_room_is_named(spec: Seq<char>)
    ensures
        spec.len() > 0 && spec[0] == '#' ==> {
            &&& provision::room_spec_valid(spec) <==> identifiers::is_room_alias(spec)
            &&& provision::room_spec(spec, true) == Ok::<RoomSpec, Seq<char>>(RoomSpec::Alias)
            &&& provision::room_spec(spec, false) == Err::<RoomSpec, Seq<char>>(
                "invalid room alias "@ + text::debug_text(spec),
            )
        },
        spec.len() == 0 || spec[0] != '#' ==> {
            &&& provision::room_spec_valid(spec) <==> identifiers::is_room_id(spec)
            &&& provision::room_spec(spec, true) == Ok::<RoomSpec, Seq<char>>(RoomSpec::Id)
            &&& provision::room_spec(spec, false) == Err::<RoomSpec, Seq<char>>(
                "invalid room id "@ + text::debug_text(spec) + " (expected `!id:server` or `#alias:server`)"@,
            )
        },
{
}

/// A list of users is split at commas, blanks and line ends, and nowhere else; what
/// is between them is taken without the white space at its ends, and empty places
/// count for nothing.
pub proof fn law_users_are_split(
    lead: Seq<char>,
    user: Seq<char>,
    trail: Seq<char>,
    separator: char,
    rest: Seq<char>,
)
    requires
        separator == ',' || separator == ' ' || separator == '\n',
        forall|i: int|
            0 <= i < lead.len() ==> text::is_space(#[trigger] lead[i]) && lead[i] != ' ' && lead[i] != '\n',
        forall|i: int|
            0 <= i < trail.len() ==> text::is_space(#[trigger] trail[i]) && trail[i] != ' ' && trail[i] != '\n',
        forall|i: int|
            0 <= i < user.len() ==> #[trigger] user[i] != ',' && user[i] != ' ' && user[i] != '\n',
        user.len() > 0 ==> !text::is_space(user[0]) && !text::is_space(user.last()),
    ensures
        ({
            let one = lead + user + trail;
            let users = if user.len() == 0 {
                Seq::<Seq<char>>::empty()
            } else {
                seq![user]
            };
            &&& claims::listed_users(one) == users
            &&& claims::listed_users(one + seq![separator] + rest) == users + claims::listed_users(rest)
        }),
{
    let one = lead + user + trail;
    let n = one.len() as int;
    let all = one + seq![separator] + rest;
    assert forall|j: int| 0 <= j < n implies !claims::separator()(#[trigger] one[j]) by {
        if j < lead.len() {
            assert(one[j] == lead[j]);
        } else if j < lead.len() + user.len() {
            assert(one[j] == user[j - lead.len()]);
        } else {
            assert(one[j] == trail[j - lead.len() - user.len()]);
        }
    }
    text::lemma_run_before(one, claims::separator(), n);
    assert forall|j: int| 0 <= j < n implies !claims::separator()(#[trigger] all[j]) by {
        assert(all[j] == one[j]);
    }
    assert(all[n] == separator);
    text::lemma_run_before(all, claims::separator(), n);
    assert(one.take(n) =~= one && all.take(n) =~= one);
    assert(all.skip(n + 1) =~= rest);
    law_trimming(lead, user, trail);
}

/// The first of the users that is no user id is the one that is told.
pub proof fn law_which_user_is_refused(users: Seq<Seq<char>>, wrong: Seq<bool>, k: int)
    requires
        users.len() == wrong.len(),
    ensures
        (forall|i: int| 0 <= i < wrong.len() ==> !#[trigger] wrong[i]) ==> claims::first_wrong(users, wrong) is None,
        0 <= k < users.len() && wrong[k] && (forall|i: int| 0 <= i < k ==> !#[trigger] wrong[i])
            ==> claims::first_wrong(users, wrong) == Some(users[k]),
{
    lemma_first_wrong(users, wrong, k, users.len() as int);
    assert(users.take(users.len() as int) =~= users);
}

proof fn lemma_first_wrong(users: Seq<Seq<char>>, wrong: Seq<bool>, k: int, n: int)
    requires
        users.len() == wrong.len(),
        0 <= n <= users.len(),
    ensures
        (forall|i: int| 0 <= i < n ==> !#[trigger] wrong[i]) ==> claims::first_wrong(users.take(n), wrong) is None,
        0 <= k < n && wrong[k] && (forall|i: int| 0 <= i < k ==> !#[trigger] wrong[i]) ==> claims::first_wrong(
            users.take(n),
            wrong,
        ) == Some(users[k]),
    decreases n,
{
    if n > 0 {
        lemma_first_wrong(users, wrong, k, n - 1);
        assert(users.take(n).drop_last() =~= users.take(n - 1));
        assert(users.take(n).last() == users[n - 1]);
    }
}

/// The claims room is made as the settings say, with the users of the list invited,
/// each of which has to be a user id; and it is not encrypted.
pub proof fn law_which_claims_room_is_made(s: ClaimsSettings, list: Seq<char>, users: Seq<Seq<char>>)
    requires
        s.invite matches Some(invite) ==> list == invite@,
        s.invite is None ==> list == ""@,
        users == claims::listed_users(list),
    ensures
        ({
            let plan = claims::planned_claims(s);
            let valid = forall|i: int| 0 <= i < users.len() ==> identifiers::user_id_fault(#[trigger] users[i]) is None;
            &&& s.homeserver is None ==> plan == Err::<ClaimsPlanView, Seq<char>>("CLAIMS_HOMESERVER"@ + " must be set"@)
            &&& s.homeserver is Some && s.username is None ==> plan == Err::<ClaimsPlanView, Seq<char>>(
                "CLAIMS_USERNAME"@ + " must be set"@,
            )
            &&& s.homeserver is Some && s.username is Some && s.password is None ==> plan == Err::<
                ClaimsPlanView,
                Seq<char>,
            >("CLAIMS_PASSWORD"@ + " must be set"@)
            &&& s.homeserver is Some && s.username is Some && s.password is Some && valid ==> (plan matches Ok(p) && {
                &&& p.homeserver == s.homeserver->0@
                &&& p.username == s.username->0@
                &&& p.password == s.password->0@
                &&& p.room_name == match s.room_name {
                    Some(name) => name@,
                    None => "safehouse-claims"@,
                }
                &&& p.invites == users
            })
            &&& s.homeserver is Some && s.username is Some && s.password is Some && !valid ==> plan is Err
        }),
        claims::is_claims_room(false),
        !claims::is_claims_room(true),
{
    let wrong = claims::wrong_users(users);
    if forall|i: int| 0 <= i < users.len() ==> identifiers::user_id_fault(#[trigger] users[i]) is None {
        assert forall|i: int| 0 <= i < wrong.len() implies !#[trigger] wrong[i] by {
            assert(identifiers::user_id_fault(users[i]) is None);
        }
        law_which_user_is_refused(users, wrong, 0);
    } else {
        let i = choose|i: int| 0 <= i < users.len() && !(identifiers::user_id_fault(#[trigger] users[i]) is None);
        assert(wrong[i]);
        lemma_some_wrong(users, wrong, i, users.len() as int);
        assert(users.take(users.len() as int) =~= users);
    }
}

proof fn lemma_some_wrong(users: Seq<Seq<char>>, wrong: Seq<bool>, i: int, n: int)
    requires
        users.len() == wrong.len(),
        0 <= i < n <= users.len(),
        wrong[i],
    ensures
        claims::first_wrong(users.take(n), wrong) is Some,
    decreases n,
{
    assert(users.take(n).drop_last() =~= users.take(n - 1));
    if i < n - 1 {
        lemma_some_wrong(users, wrong, i, n - 1);
    }
}

/// The events of a walk come oldest first.
pub proof fn law_events_come_oldest_first(w: WalkView, i: int)
    ensures
        w.events().len() == w.newest_first.len(),
        0 <= i < w.events().len() ==> w.events()[i] == w.newest_first[w.newest_first.len() - 1 - i],
{
}

/// What keeps an account from being made is told: no randomness for its password,
/// or a time that is no number.
pub proof fn law_why_nothing_is_provisioned(s: ProvisionSettings, random: Seq<u8>)
    requires
        is_complete(s),
    ensures
        s.new_password is None && random.len() < 32 ==> provision::planned_provision(Some("create"@), s, random)
            == Err::<ProvisionPlanView, Seq<char>>("generating a password for the new account"@),
        s.new_password is Some && (s.ack_timeout matches Some(t) && cli::u64_of(t@) is None)
            ==> provision::planned_provision(Some("create"@), s, random) == Err::<ProvisionPlanView, Seq<char>>(
            "PROVISION_ACK_TIMEOUT_SECS must be a non-negative integer"@,
        ),
{
}

/// The first user of the list that is no user id keeps the claims room from being
/// made, and is told.
pub proof fn law_which_invite_is_told(s: ClaimsSettings, list: String, users: Seq<Seq<char>>, k: int)
    requires
        s.homeserver is Some,
        s.username is Some,
        s.password is Some,
        s.invite == Some(list),
        users == claims::listed_users(list@),
        0 <= k < users.len(),
        identifiers::user_id_fault(users[k]) is Some,
        forall|i: int| 0 <= i < k ==> identifiers::user_id_fault(#[trigger] users[i]) is None,
    ensures
        claims::planned_claims(s) == Err::<ClaimsPlanView, Seq<char>>(
            "invalid Matrix user id in CLAIMS_INVITE: "@ + text::debug_text(users[k]),
        ),
{
    let wrong = claims::wrong_users(users);
    assert forall|i: int| 0 <= i < k implies !#[trigger] wrong[i] by {
        assert(identifiers::user_id_fault(users[i]) is None);
    }
    law_which_user_is_refused(users, wrong, k);
}

} // verus!
