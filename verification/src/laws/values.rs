//! JSON values: what is read of them, and how they are made.
use vstd::prelude::*;
use vstd::string::*;

use crate::envelope;
use crate::json;
use crate::json::{Json, NumberView, Tree};
use crate::text;

verus! {

/// An object has the fields that were set, the last of each name counting; nothing
/// else has any.
pub proof fn law_fields(fields: Map<Seq<char>, Tree>, name: Seq<char>, pairs: Seq<(Seq<char>, Tree)>, value: Tree, t: Tree)
    ensures
        fields.dom().contains(name) ==> json::field(Tree::Object(fields), name) == Some(fields[name]),
        !fields.dom().contains(name) ==> json::field(Tree::Object(fields), name) is None,
        !(t is Object) ==> json::field(t, name) is None,
        json::field(json::object(pairs.push((name, value))), name) == Some(value),
        json::object(Seq::empty()) == Tree::Object(Map::<Seq<char>, Tree>::empty()),
{
    assert(pairs.push((name, value)).drop_last() =~= pairs);
}

/// A later field leaves those of other names as they are.
pub proof fn law_other_fields_stay(pairs: Seq<(Seq<char>, Tree)>, name: Seq<char>, value: Tree, other: Seq<char>)
    requires
        other != name,
    ensures
        json::field(json::object(pairs.push((name, value))), other) == json::field(json::object(pairs), other),
{
    assert(pairs.push((name, value)).drop_last() =~= pairs);
}

/// A text, a number and a truth value are read where they stand, and nowhere else.
pub proof fn law_kinds(t: Tree, name: Seq<char>)
    ensures
        match json::field(t, name) {
            Some(Tree::Text(s)) => json::text_field(t, name) == Some(s) && json::unsigned_field(t, name) is None
                && json::bool_field(t, name) is None,
            Some(Tree::Bool(b)) => json::bool_field(t, name) == Some(b) && json::text_field(t, name) is None
                && json::unsigned_field(t, name) is None,
            Some(Tree::Number(NumberView::Unsigned(n))) => json::unsigned_field(t, name) == Some(n)
                && json::text_field(t, name) is None && json::bool_field(t, name) is None,
            _ => json::text_field(t, name) is None && json::unsigned_field(t, name) is None && json::bool_field(
                t,
                name,
            ) is None,
        },
{
}

/// A value of the library stands for what it is made of.
pub proof fn law_what_a_value_is(b: bool, s: String, items: Vec<Json>, fields: Vec<(String, Json)>, i: int, n: i64)
    ensures
        Json::Null@ == Tree::Null,
        Json::Bool(b)@ == Tree::Bool(b),
        Json::Text(s)@ == Tree::Text(s@),
        Json::Array(items)@ matches Tree::Array(all) && all.len() == items@.len() && (0 <= i < items@.len() ==> all[i]
            == items@[i]@),
        Json::Object(fields)@ == json::object(json::tree_pairs(fields@)),
        json::tree_pairs(fields@).len() == fields@.len(),
        0 <= i < fields@.len() ==> json::tree_pairs(fields@)[i] == (fields@[i].0@, fields@[i].1@),
        n >= 0 ==> json::signed_tree(n) == Tree::Number(NumberView::Unsigned(n as u64)),
        n < 0 ==> json::signed_tree(n) == Tree::Number(NumberView::Other("-"@ + text::decimal((0 - n) as nat))),
{
}

/// A list of texts is a list of them, and what is missing is null, or not there.
pub proof fn law_lists_and_gaps(list: Seq<Seq<char>>, i: int, s: Seq<char>, own: String, j: Json, name: Seq<char>)
    ensures
        json::texts_tree(list) matches Tree::Array(all) && all.len() == list.len() && (0 <= i < list.len() ==> all[i]
            == Tree::Text(list[i])),
        json::optional_text_tree(Some(s)) == Tree::Text(s),
        json::optional_text_tree(None) == Tree::Null,
        json::opt_view(Some(own)) == Some(own@),
        json::opt_view(None) is None,
        envelope::optional_tree(Some(j)) == Some(j@),
        envelope::optional_tree(None) is None,
        envelope::optional_pair(name, Some(j@)) == seq![(name, j@)],
        envelope::optional_pair(name, None).len() == 0,
{
}

} // verus!
