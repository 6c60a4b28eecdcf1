//! Rooms: by what names a joined room can be addressed, and which one a request
//! means.
use vstd::prelude::*;
use vstd::string::*;

use crate::envelope;
use crate::json;
use crate::text;
use crate::text::{contains_text, debug_form, decimal_text, same};

verus! {

/// The names of a joined room.
#[derive(Debug)]
pub struct RoomAddr {
    pub id: String,
    pub name: Option<String>,
    pub canonical_alias: Option<String>,
    pub alt_aliases: Vec<String>,
}

impl RoomAddr {
    /// Whether `s` is one of the room's names: its id, its display name, its
    /// canonical alias or one of its other aliases.
    pub open spec fn answers_to(self, s: Seq<char>) -> bool {
        ||| self.id@ == s
        ||| json::opt_view(self.name) == Some(s)
        ||| json::opt_view(self.canonical_alias) == Some(s)
        ||| text::listed(self.alt_aliases@, s)
    }

    /// Whether `s` is one of the room's names.
    pub fn matches(&self, s: &str) -> (r: bool)
        ensures
            r == self.answers_to(s@),
    {
        if same(self.id.as_str(), s) {
            return true;
        }
        match &self.name {
            Some(name) => {
                if same(name.as_str(), s) {
                    return true;
                }
            },
            None => {},
        }
        match &self.canonical_alias {
            Some(alias) => {
                if same(alias.as_str(), s) {
                    return true;
                }
            },
            None => {},
        }
        contains_text(self.alt_aliases.as_slice(), s)
    }
}

/// Why no room could be picked.
#[derive(Debug)]
pub enum RoomError {
    /// No joined room has the name.
    NoMatch(String),
    /// So many joined rooms have the name.
    Ambiguous(String, usize),
    /// No name was given, and the number of joined rooms is not one.
    Required(usize),
}

/// The model of the error.
pub enum RoomErrorView {
    NoMatch(Seq<char>),
    Ambiguous(Seq<char>, usize),
    Required(usize),
}

impl View for RoomError {
    type V = RoomErrorView;

    open spec fn view(&self) -> RoomErrorView {
        match self {
            RoomError::NoMatch(s) => RoomErrorView::NoMatch(s@),
            RoomError::Ambiguous(s, n) => RoomErrorView::Ambiguous(s@, *n),
            RoomError::Required(n) => RoomErrorView::Required(*n),
        }
    }
}

impl RoomErrorView {
    /// The error in words.
    pub open spec fn text(self) -> Seq<char> {
        match self {
            RoomErrorView::NoMatch(s) => "no joined room matching "@ + text::debug_text(s),
            RoomErrorView::Ambiguous(s, n) => "ambiguous room spec "@ + text::debug_text(s) + ": "@
                + text::decimal(n as nat) + " joined rooms match"@,
            RoomErrorView::Required(n) => "`room` required: "@ + text::decimal(n as nat) + " rooms joined"@,
        }
    }
}

impl RoomError {
    /// The error in words.
    pub fn message(&self) -> (r: String)
        ensures
            r@ == self@.text(),
    {
        match self {
            RoomError::NoMatch(s) => {
                let mut r = "no joined room matching ".to_owned();
                r.append(debug_form(s.as_str()).as_str());
                r
            },
            RoomError::Ambiguous(s, n) => {
                let mut r = "ambiguous room spec ".to_owned();
                r.append(debug_form(s.as_str()).as_str());
                r.append(": ");
                r.append(decimal_text(*n as u64).as_str());
                r.append(" joined rooms match");
                r
            },
            RoomError::Required(n) => {
                let mut r = "`room` required: ".to_owned();
                r.append(decimal_text(*n as u64).as_str());
                r.append(" rooms joined");
                r
            },
        }
    }
}

/// How many of the rooms have the name.
pub open spec fn match_count(rooms: Seq<RoomAddr>, s: Seq<char>) -> nat
    decreases rooms.len(),
{
    if rooms.len() == 0 {
        0
    } else {
        match_count(rooms.drop_last(), s) + if rooms.last().answers_to(s) {
            1nat
        } else {
            0nat
        }
    }
}

/// Whether the room at the index has the name.
pub open spec fn has_name(rooms: Seq<RoomAddr>, s: Seq<char>, i: int) -> bool {
    0 <= i < rooms.len() && rooms[i].answers_to(s)
}

/// The room that the name means: the only one that has it. Without a name, the
/// only room there is.
pub open spec fn picked(rooms: Seq<RoomAddr>, spec: Option<Seq<char>>) -> Result<usize, RoomErrorView> {
    match spec {
        Some(s) => {
            let n = match_count(rooms, s);
            if n == 1 {
                Ok((choose|i: int| has_name(rooms, s, i)) as usize)
            } else if n == 0 {
                Err(RoomErrorView::NoMatch(s))
            } else {
                Err(RoomErrorView::Ambiguous(s, n as usize))
            }
        },
        None => if rooms.len() == 1 {
            Ok(0)
        } else {
            Err(RoomErrorView::Required(rooms.len() as usize))
        },
    }
}

/// The model of a picked room.
pub open spec fn pick_view(r: Result<usize, RoomError>) -> Result<usize, RoomErrorView> {
    match r {
        Ok(i) => Ok(i),
        Err(e) => Err(e@),
    }
}

/// The room that the name means: the only one that has it. Without a name, the
/// only room there is.
pub fn pick_room_index(rooms: &[RoomAddr], spec: Option<&str>) -> (r: Result<usize, RoomError>)
    ensures
        pick_view(r) == picked(rooms@, envelope::opt_str(spec)),
        r matches Ok(i) ==> i < rooms@.len(),
{
    match spec {
        Some(s) => {
            let mut found: usize = 0;
            let mut count: usize = 0;
            let mut i: usize = 0;
            while i < rooms.len()
                invariant
                    i <= rooms@.len(),
                    count <= i,
                    count == match_count(rooms@.take(i as int), s@),
                    count > 0 ==> has_name(rooms@, s@, found as int),
                decreases rooms@.len() - i,
            {
                proof {
                    assert(rooms@.take(i + 1).drop_last() =~= rooms@.take(i as int));
                }
                if rooms[i].matches(s) {
                    if count == 0 {
                        found = i;
                    }
                    count = count + 1;
                }
                i = i + 1;
            }
            proof {
                assert(rooms@.take(rooms@.len() as int) =~= rooms@);
            }
            if count == 1 {
                proof {
                    let i = choose|i: int| has_name(rooms@, s@, i);
                    assert(has_name(rooms@, s@, i));
                    lemma_only_match(rooms@, s@, found as int, i);
                }
                Ok(found)
            } else if count == 0 {
                Err(RoomError::NoMatch(s.to_owned()))
            } else {
                Err(RoomError::Ambiguous(s.to_owned(), count))
            }
        },
        None => {
            if rooms.len() == 1 {
                Ok(0)
            } else {
                Err(RoomError::Required(rooms.len()))
            }
        },
    }
}

/// A picked room is the only one that has the name.
pub proof fn law_picked_room_is_the_only_match(rooms: Seq<RoomAddr>, s: Seq<char>, i: usize)
    requires
        rooms.len() <= usize::MAX,
        picked(rooms, Some(s)) == Ok::<usize, RoomErrorView>(i),
    ensures
        has_name(rooms, s, i as int),
        forall|j: int| has_name(rooms, s, j) ==> j == i,
{
    lemma_some_match(rooms, s);
    let k = choose|k: int| has_name(rooms, s, k);
    assert forall|j: int| has_name(rooms, s, j) implies j == i by {
        lemma_only_match(rooms, s, k, j);
    }
}

/// A name that two rooms have is never resolved to one of them.
pub proof fn law_ambiguity_is_an_error(rooms: Seq<RoomAddr>, s: Seq<char>, i: int, j: int)
    requires
        has_name(rooms, s, i),
        has_name(rooms, s, j),
        i != j,
    ensures
        picked(rooms, Some(s)) matches Err(RoomErrorView::Ambiguous(_, _)),
{
    lemma_counted(rooms, s, i);
    if match_count(rooms, s) == 1 {
        lemma_only_match(rooms, s, i, j);
    }
}

/// A room that has the name is counted.
proof fn lemma_counted(rooms: Seq<RoomAddr>, s: Seq<char>, i: int)
    requires
        has_name(rooms, s, i),
    ensures
        match_count(rooms, s) >= 1,
    decreases rooms.len(),
{
    if i < rooms.len() - 1 {
        assert(has_name(rooms.drop_last(), s, i));
        lemma_counted(rooms.drop_last(), s, i);
    }
}

/// Where a room is counted, there is one that has the name.
proof fn lemma_some_match(rooms: Seq<RoomAddr>, s: Seq<char>)
    ensures
        match_count(rooms, s) >= 1 ==> exists|i: int| has_name(rooms, s, i),
    decreases rooms.len(),
{
    if rooms.len() > 0 && match_count(rooms, s) >= 1 {
        if rooms.last().answers_to(s) {
            assert(has_name(rooms, s, rooms.len() - 1));
        } else {
            lemma_some_match(rooms.drop_last(), s);
            let i = choose|i: int| has_name(rooms.drop_last(), s, i);
            assert(has_name(rooms, s, i));
        }
    }
}

/// Where one room is counted, only one has the name.
proof fn lemma_only_match(rooms: Seq<RoomAddr>, s: Seq<char>, i: int, j: int)
    requires
        match_count(rooms, s) == 1,
        has_name(rooms, s, i),
        has_name(rooms, s, j),
    ensures
        i == j,
    decreases rooms.len(),
{
    let front = rooms.drop_last();
    let last = rooms.len() - 1;
    if i != j {
        if i < last {
            assert(has_name(front, s, i));
            lemma_counted(front, s, i);
        }
        if j < last {
            assert(has_name(front, s, j));
            lemma_counted(front, s, j);
        }
        if i < last && j < last {
            lemma_only_match(front, s, i, j);
        }
    }
}

/// How long the making of a room waits, in milliseconds, for the room to go by
/// its name.
pub const VISIBILITY_TIMEOUT_MILLIS: u128 = 10_000;

/// Whether a room that was made goes by its name yet.
#[derive(Clone, Copy, Debug, PartialEq, Eq, Structural)]
pub enum Visibility {
    Visible,
    /// Not yet: look again.
    Waiting,
    /// Not in time.
    TimedOut,
}

/// Whether the room that goes by the name `known` so far goes by its name yet.
pub open spec fn visibility(known: Option<Seq<char>>, name: Seq<char>, waited_millis: u128) -> Visibility {
    if known == Some(name) {
        Visibility::Visible
    } else if waited_millis < VISIBILITY_TIMEOUT_MILLIS {
        Visibility::Waiting
    } else {
        Visibility::TimedOut
    }
}

/// Whether the room that was made, which goes by the name `known` so far, goes
/// by its name yet. The room is there either way.
pub fn room_visibility(known: Option<&str>, name: &str, waited_millis: u128) -> (v: Visibility)
    ensures
        v == visibility(envelope::opt_str(known), name@, waited_millis),
        v == if envelope::opt_str(known) == Some(name@) {
            Visibility::Visible
        } else if waited_millis >= VISIBILITY_TIMEOUT_MILLIS {
            Visibility::TimedOut
        } else {
            Visibility::Waiting
        },
{
    let visible = match known {
        Some(known) => same(known, name),
        None => false,
    };
    if visible {
        Visibility::Visible
    } else if waited_millis >= VISIBILITY_TIMEOUT_MILLIS {
        Visibility::TimedOut
    } else {
        Visibility::Waiting
    }
}

} // verus!
