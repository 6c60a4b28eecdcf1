//! Matrix identifiers.
use vstd::prelude::*;

use crate::json;

verus! {

/// What `ruma`'s parser says is wrong with a text as a user id, if anything.
pub uninterp spec fn user_id_fault(s: Seq<char>) -> Option<Seq<char>>;

/// `ruma::UserId::parse`, its error by its message: a function of the text
/// alone.
#[verifier::external_body]
fn parse_user_id(s: &str) -> (r: Option<String>)
    ensures
        json::opt_view(r) == user_id_fault(s@),
{
    matrix_sdk::ruma::UserId::parse(s).err().map(|e| e.to_string())
}

/// What is wrong with the text as a user id, if anything.
pub fn user_id_error(s: &str) -> (r: Option<String>)
    ensures
        json::opt_view(r) == user_id_fault(s@),
{
    parse_user_id(s)
}

/// A room id as a client writes it: it starts with `!` and holds no NUL.
pub open spec fn is_room_id(s: Seq<char>) -> bool {
    s.len() > 0 && s[0] == '!' && !s.contains('\0')
}

/// Whether `ruma::RoomId::parse` accepts the text: it does when the text starts
/// with `!` and holds no NUL. `matrix-sdk` builds `ruma` without a limit on the
/// length of an id.
#[verifier::external_body]
fn parse_room_id(s: &str) -> (r: bool)
    ensures
        r == is_room_id(s@),
{
    matrix_sdk::ruma::RoomId::parse(s).is_ok()
}

/// Whether the text is a room id.
pub fn room_id_valid(s: &str) -> (r: bool)
    ensures
        r == is_room_id(s@),
{
    parse_room_id(s)
}

/// Whether `ruma`'s parser takes a text for a room alias.
pub uninterp spec fn is_room_alias(s: Seq<char>) -> bool;

/// Whether `ruma::RoomAliasId::parse` accepts the text: a function of the text
/// alone.
#[verifier::external_body]
fn parse_room_alias(s: &str) -> (r: bool)
    ensures
        r == is_room_alias(s@),
{
    matrix_sdk::ruma::RoomAliasId::parse(s).is_ok()
}

/// Whether the text is a room alias.
pub fn room_alias_valid(s: &str) -> (r: bool)
    ensures
        r == is_room_alias(s@),
{
    parse_room_alias(s)
}

} // verus!
