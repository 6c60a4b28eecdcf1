//! The fleet's claims room: an unencrypted room, with the fleet's bots invited.
use vstd::prelude::*;
use vstd::string::*;

use crate::identifiers;
use crate::identifiers::user_id_error;
use crate::json;
use crate::settings;
use crate::settings::{optional, required};
use crate::text;
use crate::text::{chars_of, debug_form, trim_between};

verus! {

/// What stands between the users of a list.
pub open spec fn separator() -> spec_fn(char) -> bool {
    |c: char| c == ',' || c == ' ' || c == '\n'
}

/// The text, unless it is empty.
pub open spec fn unless_empty(s: Seq<char>) -> Seq<Seq<char>> {
    if s.len() == 0 {
        Seq::empty()
    } else {
        seq![s]
    }
}

/// The users of a list: what stands between the separators, trimmed, where
/// anything is left of it.
pub open spec fn listed_users(s: Seq<char>) -> Seq<Seq<char>>
    decreases s.len(),
{
    let n = text::run_before(s, separator()) as int;
    let first = unless_empty(text::trimmed(s.take(n)));
    if n >= s.len() {
        first
    } else {
        first + listed_users(s.skip(n + 1))
    }
}

fn is_separator(c: char) -> (r: bool)
    ensures
        r == separator()(c),
{
    c == ',' || c == ' ' || c == '\n'
}

/// The users of the list.
pub fn split_users(raw: &str) -> (users: Vec<String>)
    ensures
        text::views(users@) == listed_users(raw@),
{
    let v = chars_of(raw);
    let mut users: Vec<String> = Vec::new();
    let mut start: usize = 0;
    let mut done = false;
    proof {
        assert(v@.skip(0) =~= v@);
        assert(text::views(users@) + listed_users(v@) =~= listed_users(v@));
    }
    while !done
        invariant
            start <= v@.len(),
            v@ == raw@,
            !done ==> listed_users(raw@) == text::views(users@) + listed_users(v@.skip(start as int)),
            done ==> listed_users(raw@) == text::views(users@),
        decreases v@.len() - start + (if done {
            0int
        } else {
            1int
        }),
    {
        let mut end: usize = start;
        while end < v.len() && !is_separator(v[end])
            invariant
                start <= end <= v@.len(),
                forall|j: int| start <= j < end ==> !separator()(#[trigger] v@[j]),
            decreases v@.len() - end,
        {
            end = end + 1;
        }
        let user = trim_between(&v, start, end);
        let ghost rest = v@.skip(start as int);
        let ghost was = text::views(users@);
        proof {
            assert forall|j: int| 0 <= j < end - start implies !separator()(#[trigger] rest[j]) by {
                assert(rest[j] == v@[start + j]);
            }
            if end < v@.len() {
                assert(rest[end - start] == v@[end as int]);
            }
            text::lemma_run_before(rest, separator(), end - start);
            assert(rest.take(end - start) =~= v@.subrange(start as int, end as int));
            if end < v@.len() {
                assert(rest.skip(end - start + 1) =~= v@.skip(end + 1));
            }
        }
        let empty = chars_of(user.as_str()).len() == 0;
        if !empty {
            users.push(user);
        }
        proof {
            assert(text::views(users@) =~= was + unless_empty(user@));
            if end < v@.len() {
                assert(was + (unless_empty(user@) + listed_users(v@.skip(end + 1))) =~= (was + unless_empty(user@))
                    + listed_users(v@.skip(end + 1)));
            }
        }
        if end == v.len() {
            done = true;
        } else {
            start = end + 1;
        }
    }
    users
}

/// The first of the users that is marked as wrong.
pub open spec fn first_wrong(users: Seq<Seq<char>>, wrong: Seq<bool>) -> Option<Seq<char>>
    decreases users.len(),
{
    if users.len() == 0 {
        None
    } else {
        match first_wrong(users.drop_last(), wrong) {
            Some(user) => Some(user),
            None => if wrong[users.len() - 1] {
                Some(users.last())
            } else {
                None
            },
        }
    }
}

proof fn lemma_first_wrong(users: Seq<Seq<char>>, wrong: Seq<bool>, n: int)
    requires
        0 <= n <= users.len(),
        first_wrong(users.take(n), wrong) is Some,
    ensures
        first_wrong(users, wrong) == first_wrong(users.take(n), wrong),
    decreases users.len() - n,
{
    if n == users.len() {
        assert(users.take(n) =~= users);
    } else {
        assert(users.take(n + 1).drop_last() =~= users.take(n));
        lemma_first_wrong(users, wrong, n + 1);
    }
}

/// Accepts the users when none is marked as wrong, and names the first that is.
pub fn check_users(users: &[String], wrong: &[bool]) -> (r: Result<(), String>)
    requires
        wrong@.len() == users@.len(),
    ensures
        match r {
            Ok(()) => first_wrong(text::views(users@), wrong@) is None,
            Err(message) => first_wrong(text::views(users@), wrong@) matches Some(user) && message@
                == "invalid Matrix user id in CLAIMS_INVITE: "@ + text::debug_text(user),
        },
{
    let ghost all = text::views(users@);
    let mut i: usize = 0;
    while i < users.len()
        invariant
            i <= users@.len(),
            wrong@.len() == users@.len(),
            all == text::views(users@),
            first_wrong(all.take(i as int), wrong@) is None,
        decreases users@.len() - i,
    {
        proof {
            assert(all.take(i + 1).drop_last() =~= all.take(i as int));
            assert(all.take(i + 1).last() == users@[i as int]@);
        }
        if wrong[i] {
            let mut message = "invalid Matrix user id in CLAIMS_INVITE: ".to_owned();
            message.append(debug_form(users[i].as_str()).as_str());
            proof {
                lemma_first_wrong(all, wrong@, i + 1);
            }
            return Err(message);
        }
        i = i + 1;
    }
    proof {
        assert(all.take(all.len() as int) =~= all);
    }
    Ok(())
}

/// For each of the users, whether it is no user id.
pub open spec fn wrong_users(users: Seq<Seq<char>>) -> Seq<bool> {
    Seq::new(users.len(), |i: int| identifiers::user_id_fault(users[i]) is Some)
}

fn find_wrong(users: &[String]) -> (wrong: Vec<bool>)
    ensures
        wrong@ == wrong_users(text::views(users@)),
{
    let mut wrong: Vec<bool> = Vec::new();
    let mut i: usize = 0;
    while i < users.len()
        invariant
            i <= users@.len(),
            wrong@.len() == i,
            forall|j: int|
                0 <= j < i ==> #[trigger] wrong@[j] == (identifiers::user_id_fault(users@[j]@) is Some),
        decreases users@.len() - i,
    {
        let fault = user_id_error(users[i].as_str());
        wrong.push(fault.is_some());
        i = i + 1;
    }
    proof {
        assert(wrong@ =~= wrong_users(text::views(users@)));
    }
    wrong
}

/// The settings of the claims room.
#[derive(Debug)]
pub struct ClaimsSettings {
    pub homeserver: Option<String>,
    pub username: Option<String>,
    pub password: Option<String>,
    pub room_name: Option<String>,
    pub invite: Option<String>,
}

/// The room that is to be made, and who makes it.
#[derive(Debug)]
pub struct ClaimsPlan {
    pub homeserver: String,
    pub username: String,
    pub password: String,
    pub room_name: String,
    pub invites: Vec<String>,
}

/// The model of `ClaimsPlan`.
pub struct ClaimsPlanView {
    pub homeserver: Seq<char>,
    pub username: Seq<char>,
    pub password: Seq<char>,
    pub room_name: Seq<char>,
    pub invites: Seq<Seq<char>>,
}

impl View for ClaimsPlan {
    type V = ClaimsPlanView;

    open spec fn view(&self) -> ClaimsPlanView {
        ClaimsPlanView {
            homeserver: self.homeserver@,
            username: self.username@,
            password: self.password@,
            room_name: self.room_name@,
            invites: text::views(self.invites@),
        }
    }
}

/// The room's name when none is set.
pub const CLAIMS_ROOM_NAME: &'static str = "safehouse-claims";

/// The room that the settings ask for, or the first thing that is wrong with
/// them.
pub open spec fn planned_claims(s: ClaimsSettings) -> Result<ClaimsPlanView, Seq<char>> {
    match settings::required_value("CLAIMS_HOMESERVER"@, json::opt_view(s.homeserver)) {
        Err(message) => Err(message),
        Ok(homeserver) => match settings::required_value("CLAIMS_USERNAME"@, json::opt_view(s.username)) {
            Err(message) => Err(message),
            Ok(username) => match settings::required_value("CLAIMS_PASSWORD"@, json::opt_view(s.password)) {
                Err(message) => Err(message),
                Ok(password) => {
                    let invites = listed_users(settings::optional_value(json::opt_view(s.invite), ""@));
                    match first_wrong(invites, wrong_users(invites)) {
                        Some(user) => Err(
                            "invalid Matrix user id in CLAIMS_INVITE: "@ + text::debug_text(user),
                        ),
                        None => Ok(
                            ClaimsPlanView {
                                homeserver,
                                username,
                                password,
                                room_name: settings::optional_value(
                                    json::opt_view(s.room_name),
                                    CLAIMS_ROOM_NAME@,
                                ),
                                invites,
                            },
                        ),
                    }
                },
            },
        },
    }
}

/// The room that the settings ask for, or the first thing that is wrong with
/// them.
pub fn plan_claims(s: &ClaimsSettings) -> (r: Result<ClaimsPlan, String>)
    ensures
        match r {
            Ok(plan) => planned_claims(*s) == Ok::<ClaimsPlanView, Seq<char>>(plan@),
            Err(message) => planned_claims(*s) == Err::<ClaimsPlanView, Seq<char>>(message@),
        },
{
    let homeserver = match required("CLAIMS_HOMESERVER", &s.homeserver) {
        Ok(value) => value,
        Err(message) => {
            return Err(message);
        },
    };
    let username = match required("CLAIMS_USERNAME", &s.username) {
        Ok(value) => value,
        Err(message) => {
            return Err(message);
        },
    };
    let password = match required("CLAIMS_PASSWORD", &s.password) {
        Ok(value) => value,
        Err(message) => {
            return Err(message);
        },
    };
    let room_name = optional(&s.room_name, CLAIMS_ROOM_NAME);
    let invites = split_users(optional(&s.invite, "").as_str());
    let wrong = find_wrong(invites.as_slice());
    match check_users(invites.as_slice(), wrong.as_slice()) {
        Ok(()) => Ok(ClaimsPlan { homeserver, username, password, room_name, invites }),
        Err(message) => Err(message),
    }
}

/// Whether a room will do for claims.
pub open spec fn is_claims_room(encrypted: bool) -> bool {
    !encrypted
}

/// Accepts the room when it is not encrypted, and says why another is refused.
pub fn check_unencrypted(room_id: &str, encrypted: bool) -> (r: Result<(), String>)
    ensures
        r is Ok <==> is_claims_room(encrypted),
        match r {
            Ok(()) => !encrypted,
            Err(message) => encrypted && message@ == "room "@ + room_id@
                + " came back encrypted — refusing to hand back an encrypted room from a script whose whole purpose is an unencrypted claims room (D6 carve-out). Check homeserver-side room-creation defaults (e.g. a server-enforced m.room.encryption preset)."@,
        },
{
    if !encrypted {
        return Ok(());
    }
    let mut message = "room ".to_owned();
    message.append(room_id);
    message.append(
        " came back encrypted — refusing to hand back an encrypted room from a script whose whole purpose is an unencrypted claims room (D6 carve-out). Check homeserver-side room-creation defaults (e.g. a server-enforced m.room.encryption preset).",
    );
    Err(message)
}

} // verus!
