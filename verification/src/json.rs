//! JSON values: the library's own type, its mathematical model, and the way
//! from and to JSON text.
use vstd::prelude::*;

use crate::text::same;

verus! {

/// A JSON number, as far as anything is computed from it: an integer in the
/// range of `u64`, or any other number by the text that stands for it.
pub enum NumberView {
    Unsigned(u64),
    Other(Seq<char>),
}

/// The model of a JSON value. The fields of an object have no order.
pub enum Tree {
    Null,
    Bool(bool),
    Number(NumberView),
    Text(Seq<char>),
    Array(Seq<Tree>),
    Object(Map<Seq<char>, Tree>),
}

/// A JSON value.
#[derive(Debug)]
pub enum Json {
    Null,
    Bool(bool),
    Number(serde_json::Number),
    Text(String),
    Array(Vec<Json>),
    Object(Vec<(String, Json)>),
}

/// `serde_json::Number`: a JSON number. Nothing is claimed of what is inside it.
#[verifier::external_type_specification]
#[verifier::external_body]
pub struct ExNumber(serde_json::Number);

/// `serde_json::Value`: a JSON value. Nothing is claimed of what is inside it.
#[verifier::external_type_specification]
#[verifier::external_body]
pub struct ExValue(serde_json::Value);

/// `serde_json::Map`: the fields of a JSON object. Nothing is claimed of what is
/// inside it.
#[verifier::external_type_specification]
#[verifier::external_body]
#[verifier::reject_recursive_types(K)]
#[verifier::reject_recursive_types(V)]
pub struct ExMap<K, V>(serde_json::Map<K, V>);

/// The number a `serde_json::Number` holds.
pub uninterp spec fn number_view(n: serde_json::Number) -> NumberView;

/// The value a `serde_json::Value` holds.
pub uninterp spec fn value_tree(v: serde_json::Value) -> Tree;

/// The fields a `serde_json::Map` holds.
pub uninterp spec fn map_fields(m: serde_json::Map<String, serde_json::Value>) -> Map<Seq<char>, Tree>;

/// What `serde_json::from_str` makes of a text: the value it stands for, or
/// the message of the error.
pub uninterp spec fn parsed(text: Seq<char>) -> Result<Tree, Seq<char>>;

/// The compact text that a `serde_json::Value` is written as.
pub uninterp spec fn printed(value: Tree) -> Seq<char>;

/// The indented text that a `serde_json::Value` is written as.
pub uninterp spec fn printed_pretty(value: Tree) -> Seq<char>;

/// The fields of an object, set one after the other: of two with the same
/// name the later one stays.
pub open spec fn field_map(pairs: Seq<(Seq<char>, Tree)>) -> Map<Seq<char>, Tree>
    decreases pairs.len(),
{
    if pairs.len() == 0 {
        Map::empty()
    } else {
        field_map(pairs.drop_last()).insert(pairs.last().0, pairs.last().1)
    }
}

/// The object with these fields.
pub open spec fn object(pairs: Seq<(Seq<char>, Tree)>) -> Tree {
    Tree::Object(field_map(pairs))
}

/// The model of `j`.
pub open spec fn tree(j: Json) -> Tree
    decreases j,
{
    match j {
        Json::Null => Tree::Null,
        Json::Bool(b) => Tree::Bool(b),
        Json::Number(n) => Tree::Number(number_view(n)),
        Json::Text(s) => Tree::Text(s@),
        Json::Array(items) => Tree::Array(trees(items@)),
        Json::Object(fields) => object(tree_pairs(fields@)),
    }
}

/// The models of the values.
pub open spec fn trees(items: Seq<Json>) -> Seq<Tree>
    decreases items,
{
    Seq::new(
        items.len(),
        |i: int|
            if 0 <= i < items.len() {
                tree(items[i])
            } else {
                Tree::Null
            },
    )
}

/// The names and the models of the fields.
pub open spec fn tree_pairs(fields: Seq<(String, Json)>) -> Seq<(Seq<char>, Tree)>
    decreases fields,
{
    Seq::new(
        fields.len(),
        |i: int|
            if 0 <= i < fields.len() {
                (fields[i].0@, tree(fields[i].1))
            } else {
                (Seq::empty(), Tree::Null)
            },
    )
}

impl View for Json {
    type V = Tree;

    open spec fn view(&self) -> Tree {
        tree(*self)
    }
}

/// `serde_json::Number::as_u64`: the number, when it is an integer in the
/// range of `u64`.
pub assume_specification[ serde_json::Number::as_u64 ](n: &serde_json::Number) -> (r: Option<u64>)
    ensures
        match r {
            Some(u) => number_view(*n) == NumberView::Unsigned(u),
            None => number_view(*n) is Other,
        },
;

/// `serde_json::Number`'s conversion from `u64`: the number `n`.
#[verifier::external_body]
fn number_from(n: u64) -> (r: serde_json::Number)
    ensures
        number_view(r) == NumberView::Unsigned(n),
{
    serde_json::Number::from(n)
}

/// `serde_json::Number`'s conversion from `i64`: the number `n`, as an integer
/// in the range of `u64` where it is one.
#[verifier::external_body]
fn number_from_signed(n: i64) -> (r: serde_json::Number)
    ensures
        number_view(r) == if n >= 0 {
            NumberView::Unsigned(n as u64)
        } else {
            NumberView::Other("-"@ + crate::text::decimal((-n) as nat))
        },
{
    serde_json::Number::from(n)
}

/// `serde_json::Number::clone`: the same number.
pub assume_specification[ <serde_json::Number as Clone>::clone ](n: &serde_json::Number) -> (r: serde_json::Number)
    ensures
        number_view(r) == number_view(*n),
;

/// The outermost layer of a `serde_json::Value`.
enum Layer {
    Null,
    Bool(bool),
    Number(serde_json::Number),
    Text(String),
    Array(Vec<serde_json::Value>),
    Object(serde_json::Map<String, serde_json::Value>),
}

/// The models of the values.
spec fn value_trees(items: Seq<serde_json::Value>) -> Seq<Tree> {
    Seq::new(items.len(), |i: int| value_tree(items[i]))
}

/// The names and the models of the fields.
spec fn value_pairs(fields: Seq<(String, serde_json::Value)>) -> Seq<(Seq<char>, Tree)> {
    Seq::new(fields.len(), |i: int| (fields[i].0@, value_tree(fields[i].1)))
}

/// The model of the value that the layer is the outermost layer of.
spec fn layer_tree(layer: Layer) -> Tree {
    match layer {
        Layer::Null => Tree::Null,
        Layer::Bool(b) => Tree::Bool(b),
        Layer::Number(n) => Tree::Number(number_view(n)),
        Layer::Text(s) => Tree::Text(s@),
        Layer::Array(items) => Tree::Array(value_trees(items@)),
        Layer::Object(map) => Tree::Object(map_fields(map)),
    }
}

/// Takes a `serde_json::Value` apart by its variants.
#[verifier::external_body]
fn open_value(value: serde_json::Value) -> (layer: Layer)
    ensures
        layer_tree(layer) == value_tree(value),
{
    match value {
        serde_json::Value::Null => Layer::Null,
        serde_json::Value::Bool(b) => Layer::Bool(b),
        serde_json::Value::Number(n) => Layer::Number(n),
        serde_json::Value::String(s) => Layer::Text(s),
        serde_json::Value::Array(items) => Layer::Array(items),
        serde_json::Value::Object(map) => Layer::Object(map),
    }
}

/// Puts a `serde_json::Value` together from its outermost layer.
#[verifier::external_body]
fn close_value(layer: Layer) -> (value: serde_json::Value)
    ensures
        value_tree(value) == layer_tree(layer),
{
    match layer {
        Layer::Null => serde_json::Value::Null,
        Layer::Bool(b) => serde_json::Value::Bool(b),
        Layer::Number(n) => serde_json::Value::Number(n),
        Layer::Text(s) => serde_json::Value::String(s),
        Layer::Array(items) => serde_json::Value::Array(items),
        Layer::Object(map) => serde_json::Value::Object(map),
    }
}

/// `serde_json::Map::new`: no fields.
#[verifier::external_body]
fn map_new() -> (map: serde_json::Map<String, serde_json::Value>)
    ensures
        map_fields(map) == field_map(Seq::empty()),
{
    serde_json::Map::new()
}

/// `serde_json::Map::insert`: sets the field, replacing one of that name.
#[verifier::external_body]
fn map_insert(map: &mut serde_json::Map<String, serde_json::Value>, name: String, value: serde_json::Value)
    ensures
        map_fields(*final(map)) == map_fields(*old(map)).insert(name@, value_tree(value)),
{
    map.insert(name, value);
}

/// `serde_json::Map::into_iter`: each field once.
#[verifier::external_body]
fn map_into_pairs(map: serde_json::Map<String, serde_json::Value>) -> (pairs: Vec<(String, serde_json::Value)>)
    ensures
        field_map(value_pairs(pairs@)) == map_fields(map),
        forall|i: int, j: int| 0 <= i < j < pairs@.len() ==> pairs@[i].0@ != pairs@[j].0@,
{
    map.into_iter().collect()
}

/// Whether the number is an integer in the range of `u64` or of `i64`.
pub open spec fn is_integer(n: NumberView) -> bool {
    match n {
        NumberView::Unsigned(_) => true,
        NumberView::Other(s) => exists|m: nat|
            1 <= m <= 0x8000_0000_0000_0000 && s == "-"@ + #[trigger] crate::text::decimal(m),
    }
}

/// The name of a field that the parser keeps for itself: it reads an object
/// with it as something else.
pub const RESERVED_FIELD: &'static str = "$serde_json::private::RawValue";

/// How deep a value may nest for its text to be read back.
pub const MAX_NESTING: u64 = 127;

/// Whether the number's text can be read back: that of an integer, or of
/// another number of a size below `1e308`, from which on the text ends so.
pub open spec fn is_in_range(n: NumberView) -> bool {
    match n {
        NumberView::Unsigned(_) => true,
        NumberView::Other(s) => !(s.len() >= 5 && s.skip(s.len() - 5) == "e+308"@),
    }
}

/// Whether the value's text can be read back: it nests no deeper than `depth`,
/// its numbers are in range, and no object in it has the reserved field.
pub open spec fn is_readable(value: Tree, depth: nat) -> bool
    decreases depth,
{
    match value {
        Tree::Number(n) => is_in_range(n),
        Tree::Array(items) => depth > 0 && forall|i: int|
            0 <= i < items.len() ==> is_readable(#[trigger] items[i], (depth - 1) as nat),
        Tree::Object(fields) => depth > 0 && !fields.dom().contains(RESERVED_FIELD@) && forall|name: Seq<char>|
            fields.dom().contains(name) ==> is_readable(#[trigger] fields[name], (depth - 1) as nat),
        _ => true,
    }
}

/// Whether the numbers in the value, down to `depth`, are integers.
pub open spec fn is_exact(value: Tree, depth: nat) -> bool
    decreases depth,
{
    match value {
        Tree::Number(n) => is_integer(n),
        Tree::Array(items) => depth > 0 && forall|i: int|
            0 <= i < items.len() ==> is_exact(#[trigger] items[i], (depth - 1) as nat),
        Tree::Object(fields) => depth > 0 && forall|name: Seq<char>|
            fields.dom().contains(name) ==> is_exact(#[trigger] fields[name], (depth - 1) as nat),
        _ => true,
    }
}

/// Whether the value, which nests no deeper than `depth`, may be read back as
/// `read`: the same value, but that a number that is no integer may come back as
/// another such number.
pub open spec fn reads_as(value: Tree, read: Tree, depth: nat) -> bool
    decreases depth,
{
    match (value, read) {
        (Tree::Number(n), Tree::Number(m)) => n == m || (!is_integer(n) && m is Other),
        (Tree::Array(items), Tree::Array(others)) => depth > 0 && items.len() == others.len() && forall|i: int|
            0 <= i < items.len() ==> reads_as(#[trigger] items[i], others[i], (depth - 1) as nat),
        (Tree::Object(fields), Tree::Object(others)) => depth > 0 && fields.dom() == others.dom() && forall|
            name: Seq<char>,
        |
            fields.dom().contains(name) ==> reads_as(
                #[trigger] fields[name],
                others[name],
                (depth - 1) as nat,
            ),
        _ => value == read,
    }
}

/// Whether the text stands for the value, up to numbers that are no integers.
pub open spec fn reads_back(text: Seq<char>, value: Tree) -> bool {
    match parsed(text) {
        Ok(read) => reads_as(value, read, MAX_NESTING as nat),
        Err(_) => false,
    }
}

/// Whether the text stands for the value.
pub open spec fn stands_for(text: Seq<char>, value: Tree) -> bool {
    match parsed(text) {
        Ok(read) => read == value,
        Err(_) => false,
    }
}

/// A value whose numbers are integers is read back as it was.
pub proof fn lemma_exact_values_read_back(value: Tree, read: Tree, depth: nat)
    requires
        is_exact(value, depth),
        reads_as(value, read, depth),
    ensures
        read == value,
    decreases depth,
{
    match (value, read) {
        (Tree::Array(items), Tree::Array(others)) => {
            assert forall|i: int| 0 <= i < items.len() implies items[i] == others[i] by {
                assert(is_exact(items[i], (depth - 1) as nat));
                assert(reads_as(items[i], others[i], (depth - 1) as nat));
                lemma_exact_values_read_back(items[i], others[i], (depth - 1) as nat);
            }
            assert(items =~= others);
        },
        (Tree::Object(fields), Tree::Object(others)) => {
            assert forall|name: Seq<char>| fields.dom().contains(name) implies fields[name] == others[name] by {
                assert(is_exact(fields[name], (depth - 1) as nat));
                assert(reads_as(fields[name], others[name], (depth - 1) as nat));
                lemma_exact_values_read_back(fields[name], others[name], (depth - 1) as nat);
            }
            assert(fields =~= others);
        },
        _ => {},
    }
}

/// `serde_json::from_str` into a `serde_json::Value`, its error by its message.
#[verifier::external_body]
fn parse_value(text: &str) -> (r: Result<serde_json::Value, String>)
    ensures
        match r {
            Ok(value) => parsed(text@) == Ok::<Tree, Seq<char>>(value_tree(value)),
            Err(message) => parsed(text@) == Err::<Tree, Seq<char>>(message@),
        },
{
    serde_json::from_str(text).map_err(|e| e.to_string())
}

/// `serde_json::Value::to_string`: the value as compact text. `from_str` reads
/// the value back from it, where the value nests no deeper than the parser's
/// limit, no object in it has the name for which the parser looks out, and no
/// number is as large as `1e308`. A number with a fraction or an exponent may
/// come back a little off, but as such a number; all else is the same.
#[verifier::external_body]
fn print_value(value: &serde_json::Value) -> (s: String)
    ensures
        s@ == printed(value_tree(*value)),
        is_readable(value_tree(*value), MAX_NESTING as nat) ==> reads_back(s@, value_tree(*value)),
{
    value.to_string()
}

/// `{:#}` of `serde_json::Value`: the value as indented text.
#[verifier::external_body]
fn pretty_print_value(value: &serde_json::Value) -> (s: String)
    ensures
        s@ == printed_pretty(value_tree(*value)),
{
    format!("{:#}", value)
}

/// A field's value is smaller than the object.
proof fn lemma_field_decreases(pairs: Seq<(Seq<char>, Tree)>, i: int)
    requires
        0 <= i < pairs.len(),
        forall|a: int, b: int| 0 <= a < b < pairs.len() ==> pairs[a].0 != pairs[b].0,
    ensures
        field_map(pairs).dom().finite(),
        field_map(pairs).dom().contains(pairs[i].0),
        field_map(pairs)[pairs[i].0] == pairs[i].1,
    decreases pairs.len(),
{
    let front = pairs.drop_last();
    lemma_field_map_finite(front);
    if i < front.len() {
        lemma_field_decreases(front, i);
        assert(front[i] == pairs[i]);
    }
}

/// An object has finitely many fields.
pub proof fn lemma_field_map_finite(pairs: Seq<(Seq<char>, Tree)>)
    ensures
        field_map(pairs).dom().finite(),
    decreases pairs.len(),
{
    if pairs.len() > 0 {
        lemma_field_map_finite(pairs.drop_last());
    }
}

/// The `serde_json::Value` as a value of the library.
pub fn from_value(value: serde_json::Value) -> (j: Json)
    ensures
        j@ == value_tree(value),
    decreases value_tree(value),
{
    match open_value(value) {
        Layer::Null => Json::Null,
        Layer::Bool(b) => Json::Bool(b),
        Layer::Number(n) => Json::Number(n),
        Layer::Text(s) => Json::Text(s),
        Layer::Array(items) => {
            let ghost all = items@;
            let mut items = items;
            let mut reversed: Vec<Json> = Vec::new();
            while items.len() > 0
                invariant
                    value_tree(value) == Tree::Array(value_trees(all)),
                    items@ == all.take(items@.len() as int),
                    items@.len() + reversed@.len() == all.len(),
                    forall|k: int|
                        0 <= k < reversed@.len() ==> tree(#[trigger] reversed@[k]) == value_tree(
                            all[all.len() - 1 - k],
                        ),
                decreases items@.len(),
            {
                let ghost last = items@.len() - 1;
                match items.pop() {
                    Some(item) => {
                        proof {
                            assert(item == all[last]);
                            let whole = value_tree(value);
                            assert(decreases_to!(whole => whole->Array_0));
                            assert(decreases_to!(whole->Array_0 => whole->Array_0[last]));
                        }
                        reversed.push(from_value(item));
                    },
                    None => {},
                }
                proof {
                    assert(items@ =~= all.take(last));
                }
            }
            let ghost back = reversed@;
            let mut list: Vec<Json> = Vec::new();
            while reversed.len() > 0
                invariant
                    back.len() == all.len(),
                    reversed@ == back.take(reversed@.len() as int),
                    reversed@.len() + list@.len() == all.len(),
                    forall|k: int|
                        0 <= k < back.len() ==> tree(#[trigger] back[k]) == value_tree(
                            all[all.len() - 1 - k],
                        ),
                    forall|k: int|
                        0 <= k < list@.len() ==> tree(#[trigger] list@[k]) == value_tree(all[k]),
                decreases reversed@.len(),
            {
                let ghost last = reversed@.len() - 1;
                match reversed.pop() {
                    Some(item) => {
                        proof {
                            assert(item == back[last]);
                        }
                        list.push(item);
                    },
                    None => {},
                }
                proof {
                    assert(reversed@ =~= back.take(last));
                }
            }
            proof {
                assert(trees(list@) =~= value_trees(all));
            }
            Json::Array(list)
        },
        Layer::Object(map) => {
            let mut pairs = map_into_pairs(map);
            let ghost all = pairs@;
            let ghost total = value_pairs(all);
            let mut reversed: Vec<(String, Json)> = Vec::new();
            while pairs.len() > 0
                invariant
                    value_tree(value) == Tree::Object(field_map(total)),
                    total == value_pairs(all),
                    forall|a: int, b: int| 0 <= a < b < total.len() ==> total[a].0 != total[b].0,
                    pairs@ == all.take(pairs@.len() as int),
                    pairs@.len() + reversed@.len() == all.len(),
                    forall|k: int|
                        0 <= k < reversed@.len() ==> (#[trigger] reversed@[k]).0@ == total[all.len() - 1
                            - k].0 && tree(reversed@[k].1) == total[all.len() - 1 - k].1,
                decreases pairs@.len(),
            {
                let ghost last = pairs@.len() - 1;
                match pairs.pop() {
                    Some(pair) => {
                        proof {
                            assert(pair == all[last]);
                            lemma_field_decreases(total, last);
                            let whole = value_tree(value);
                            assert(decreases_to!(whole => whole->Object_0));
                            assert(decreases_to!(whole->Object_0 => whole->Object_0[total[last].0]));
                        }
                        reversed.push((pair.0, from_value(pair.1)));
                    },
                    None => {},
                }
                proof {
                    assert(pairs@ =~= all.take(last));
                }
            }
            let ghost back = reversed@;
            let mut list: Vec<(String, Json)> = Vec::new();
            while reversed.len() > 0
                invariant
                    total == value_pairs(all),
                    back.len() == all.len(),
                    reversed@ == back.take(reversed@.len() as int),
                    reversed@.len() + list@.len() == all.len(),
                    forall|k: int|
                        0 <= k < back.len() ==> (#[trigger] back[k]).0@ == total[all.len() - 1 - k].0
                            && tree(back[k].1) == total[all.len() - 1 - k].1,
                    forall|k: int|
                        0 <= k < list@.len() ==> (#[trigger] list@[k]).0@ == total[k].0 && tree(
                            list@[k].1,
                        ) == total[k].1,
                decreases reversed@.len(),
            {
                let ghost last = reversed@.len() - 1;
                match reversed.pop() {
                    Some(pair) => {
                        proof {
                            assert(pair == back[last]);
                        }
                        list.push(pair);
                    },
                    None => {},
                }
                proof {
                    assert(reversed@ =~= back.take(last));
                }
            }
            proof {
                assert(tree_pairs(list@) =~= total);
            }
            Json::Object(list)
        },
    }
}

/// The value as a `serde_json::Value`.
pub fn to_value(j: &Json) -> (value: serde_json::Value)
    ensures
        value_tree(value) == j@,
    decreases j,
{
    match j {
        Json::Null => close_value(Layer::Null),
        Json::Bool(b) => close_value(Layer::Bool(*b)),
        Json::Number(n) => close_value(Layer::Number(n.clone())),
        Json::Text(s) => close_value(Layer::Text(s.clone())),
        Json::Array(items) => {
            let mut list: Vec<serde_json::Value> = Vec::new();
            let mut i: usize = 0;
            while i < items.len()
                invariant
                    *j == Json::Array(*items),
                    i <= items@.len(),
                    list@.len() == i,
                    forall|k: int| 0 <= k < i ==> value_tree(#[trigger] list@[k]) == tree(items@[k]),
                decreases items@.len() - i,
            {
                proof {
                    assert(decreases_to!(*j => j->Array_0));
                    assert(decreases_to!(*items => items@));
                    assert(decreases_to!(items@ => items@[i as int]));
                }
                list.push(to_value(&items[i]));
                i = i + 1;
            }
            proof {
                assert(value_trees(list@) =~= trees(items@));
            }
            close_value(Layer::Array(list))
        },
        Json::Object(fields) => {
            let mut map = map_new();
            let mut i: usize = 0;
            while i < fields.len()
                invariant
                    *j == Json::Object(*fields),
                    i <= fields@.len(),
                    map_fields(map) == field_map(tree_pairs(fields@).take(i as int)),
                decreases fields@.len() - i,
            {
                proof {
                    assert(decreases_to!(*j => j->Object_0));
                    assert(decreases_to!(*fields => fields@));
                    assert(decreases_to!(fields@ => fields@[i as int]));
                    assert(decreases_to!(fields@[i as int] => fields@[i as int].1));
                }
                map_insert(&mut map, fields[i].0.clone(), to_value(&fields[i].1));
                proof {
                    let next = tree_pairs(fields@).take(i + 1);
                    assert(next.drop_last() =~= tree_pairs(fields@).take(i as int));
                }
                i = i + 1;
            }
            proof {
                assert(tree_pairs(fields@).take(fields@.len() as int) =~= tree_pairs(fields@));
            }
            close_value(Layer::Object(map))
        },
    }
}

/// The models of a parsed text and of a parse error.
pub open spec fn parse_view(r: Result<Json, String>) -> Result<Tree, Seq<char>> {
    match r {
        Ok(j) => Ok(j@),
        Err(message) => Err(message@),
    }
}

impl Json {
    /// The value the text stands for, or why it stands for none.
    pub fn parse(text: &str) -> (r: Result<Json, String>)
        ensures
            parse_view(r) == parsed(text@),
    {
        match parse_value(text) {
            Ok(value) => Ok(from_value(value)),
            Err(message) => Err(message),
        }
    }

    /// The value as compact text. Where that can be read back, it stands for the
    /// value, up to numbers that are no integers.
    pub fn print(&self) -> (s: String)
        ensures
            s@ == printed(self@),
            is_readable(self@, MAX_NESTING as nat) ==> reads_back(s@, self@),
            is_readable(self@, MAX_NESTING as nat) && is_exact(self@, MAX_NESTING as nat) ==> stands_for(s@, self@),
    {
        let s = print_value(&to_value(self));
        proof {
            if is_readable(self@, MAX_NESTING as nat) && is_exact(self@, MAX_NESTING as nat) {
                lemma_exact_values_read_back(self@, parsed(s@)->Ok_0, MAX_NESTING as nat);
            }
        }
        s
    }

    /// The value as indented text.
    pub fn print_pretty(&self) -> (s: String)
        ensures
            s@ == printed_pretty(self@),
    {
        pretty_print_value(&to_value(self))
    }

    /// The field `name`, when this is an object that has it.
    pub fn get(&self, name: &str) -> (r: Option<&Json>)
        ensures
            match r {
                Some(j) => field(self@, name@) == Some(j@),
                None => field(self@, name@) is None,
            },
    {
        match self {
            Json::Object(fields) => {
                let ghost pairs = tree_pairs(fields@);
                let mut i: usize = fields.len();
                while i > 0
                    invariant
                        i <= fields@.len(),
                        pairs == tree_pairs(fields@),
                        self@ == object(pairs),
                        forall|k: int| i <= k < pairs.len() ==> (#[trigger] pairs[k]).0 != name@,
                    decreases i,
                {
                    i = i - 1;
                    if same(fields[i].0.as_str(), name) {
                        proof {
                            lemma_field_map_found(pairs, name@, i as int);
                        }
                        return Some(&fields[i].1);
                    }
                }
                proof {
                    lemma_field_map_missing(pairs, name@);
                }
                None
            },
            _ => None,
        }
    }

    /// The text, when this is one.
    pub fn as_str(&self) -> (r: Option<&str>)
        ensures
            match r {
                Some(s) => text_of(self@) == Some(s@),
                None => text_of(self@) is None,
            },
    {
        match self {
            Json::Text(s) => Some(s.as_str()),
            _ => None,
        }
    }

    /// The number, when this is an integer in the range of `u64`.
    pub fn as_u64(&self) -> (r: Option<u64>)
        ensures
            r == unsigned_of(self@),
    {
        match self {
            Json::Number(n) => n.as_u64(),
            _ => None,
        }
    }

    /// The truth value, when this is one.
    pub fn as_bool(&self) -> (r: Option<bool>)
        ensures
            r == bool_of(self@),
    {
        match self {
            Json::Bool(b) => Some(*b),
            _ => None,
        }
    }

    /// Whether this is null.
    pub fn is_null(&self) -> (r: bool)
        ensures
            r == (self@ == Tree::Null),
    {
        match self {
            Json::Null => true,
            _ => false,
        }
    }

    /// Whether this is an object.
    pub fn is_object(&self) -> (r: bool)
        ensures
            r == (self@ is Object),
    {
        match self {
            Json::Object(_) => true,
            _ => false,
        }
    }

    /// The elements, when this is an array.
    pub fn as_array(&self) -> (r: Option<&Vec<Json>>)
        ensures
            match r {
                Some(items) => self@ == Tree::Array(trees(items@)),
                None => !(self@ is Array),
            },
    {
        match self {
            Json::Array(items) => Some(items),
            _ => None,
        }
    }

    /// The field `name`, when this is an object in which it is a text.
    pub fn get_str(&self, name: &str) -> (r: Option<&str>)
        ensures
            match r {
                Some(s) => text_field(self@, name@) == Some(s@),
                None => text_field(self@, name@) is None,
            },
    {
        match self.get(name) {
            Some(j) => j.as_str(),
            None => None,
        }
    }

    /// The field `name`, when this is an object in which it is an integer in
    /// the range of `u64`.
    pub fn get_u64(&self, name: &str) -> (r: Option<u64>)
        ensures
            r == unsigned_field(self@, name@),
    {
        match self.get(name) {
            Some(j) => j.as_u64(),
            None => None,
        }
    }

    /// The field `name`, when this is an object in which it is a truth value.
    pub fn get_bool(&self, name: &str) -> (r: Option<bool>)
        ensures
            r == bool_field(self@, name@),
    {
        match self.get(name) {
            Some(j) => j.as_bool(),
            None => None,
        }
    }

    /// The text `s`.
    pub fn text(s: &str) -> (j: Json)
        ensures
            j@ == Tree::Text(s@),
    {
        Json::Text(s.to_owned())
    }

    /// The number `n`.
    pub fn unsigned(n: u64) -> (j: Json)
        ensures
            j@ == Tree::Number(NumberView::Unsigned(n)),
    {
        Json::Number(number_from(n))
    }

    /// The number `n`.
    pub fn signed(n: i64) -> (j: Json)
        ensures
            j@ == signed_tree(n),
    {
        Json::Number(number_from_signed(n))
    }

    /// The text, or null.
    pub fn optional_text(s: &Option<String>) -> (j: Json)
        ensures
            j@ == optional_text_tree(opt_view(*s)),
    {
        match s {
            Some(s) => Json::Text(s.clone()),
            None => Json::Null,
        }
    }

    /// The array of the texts.
    pub fn texts(list: &[String]) -> (j: Json)
        ensures
            j@ == texts_tree(crate::text::views(list@)),
    {
        let mut items: Vec<Json> = Vec::new();
        let mut i: usize = 0;
        while i < list.len()
            invariant
                i <= list@.len(),
                items@.len() == i,
                forall|k: int| 0 <= k < i ==> tree(#[trigger] items@[k]) == Tree::Text(list@[k]@),
            decreases list@.len() - i,
        {
            items.push(Json::Text(list[i].clone()));
            i = i + 1;
        }
        proof {
            let all = crate::text::views(list@);
            assert(trees(items@) =~= Seq::new(all.len(), |i: int| Tree::Text(all[i])));
        }
        Json::Array(items)
    }
}

impl Clone for Json {
    fn clone(&self) -> (j: Json)
        ensures
            j@ == self@,
        decreases self,
    {
        match self {
            Json::Null => Json::Null,
            Json::Bool(b) => Json::Bool(*b),
            Json::Number(n) => Json::Number(n.clone()),
            Json::Text(s) => Json::Text(s.clone()),
            Json::Array(items) => {
                let mut list: Vec<Json> = Vec::new();
                let mut i: usize = 0;
                while i < items.len()
                    invariant
                        *self == Json::Array(*items),
                        i <= items@.len(),
                        list@.len() == i,
                        forall|k: int| 0 <= k < i ==> tree(#[trigger] list@[k]) == tree(items@[k]),
                    decreases items@.len() - i,
                {
                    proof {
                        assert(decreases_to!(*self => self->Array_0));
                        assert(decreases_to!(*items => items@));
                        assert(decreases_to!(items@ => items@[i as int]));
                    }
                    list.push(items[i].clone());
                    i = i + 1;
                }
                proof {
                    assert(trees(list@) =~= trees(items@));
                }
                Json::Array(list)
            },
            Json::Object(fields) => {
                let mut list: Vec<(String, Json)> = Vec::new();
                let mut i: usize = 0;
                while i < fields.len()
                    invariant
                        *self == Json::Object(*fields),
                        i <= fields@.len(),
                        list@.len() == i,
                        forall|k: int|
                            0 <= k < i ==> (#[trigger] list@[k]).0@ == fields@[k].0@ && tree(list@[k].1)
                                == tree(fields@[k].1),
                    decreases fields@.len() - i,
                {
                    proof {
                        assert(decreases_to!(*self => self->Object_0));
                        assert(decreases_to!(*fields => fields@));
                        assert(decreases_to!(fields@ => fields@[i as int]));
                        assert(decreases_to!(fields@[i as int] => fields@[i as int].1));
                    }
                    list.push((fields[i].0.clone(), fields[i].1.clone()));
                    i = i + 1;
                }
                proof {
                    assert(tree_pairs(list@) =~= tree_pairs(fields@));
                }
                Json::Object(list)
            },
        }
    }
}

/// The field `name` of `t`, when `t` is an object that has it.
pub open spec fn field(t: Tree, name: Seq<char>) -> Option<Tree> {
    match t {
        Tree::Object(fields) => if fields.dom().contains(name) {
            Some(fields[name])
        } else {
            None
        },
        _ => None,
    }
}

/// The text, when `t` is one.
pub open spec fn text_of(t: Tree) -> Option<Seq<char>> {
    match t {
        Tree::Text(s) => Some(s),
        _ => None,
    }
}

/// The number, when `t` is an integer in the range of `u64`.
pub open spec fn unsigned_of(t: Tree) -> Option<u64> {
    match t {
        Tree::Number(NumberView::Unsigned(n)) => Some(n),
        _ => None,
    }
}

/// The truth value, when `t` is one.
pub open spec fn bool_of(t: Tree) -> Option<bool> {
    match t {
        Tree::Bool(b) => Some(b),
        _ => None,
    }
}

/// The text in the field `name`, when there is one.
pub open spec fn text_field(t: Tree, name: Seq<char>) -> Option<Seq<char>> {
    match field(t, name) {
        Some(value) => text_of(value),
        None => None,
    }
}

/// The integer in the range of `u64` in the field `name`, when there is one.
pub open spec fn unsigned_field(t: Tree, name: Seq<char>) -> Option<u64> {
    match field(t, name) {
        Some(value) => unsigned_of(value),
        None => None,
    }
}

/// The truth value in the field `name`, when there is one.
pub open spec fn bool_field(t: Tree, name: Seq<char>) -> Option<bool> {
    match field(t, name) {
        Some(value) => bool_of(value),
        None => None,
    }
}

/// The number `n`.
pub open spec fn unsigned_tree(n: u64) -> Tree {
    Tree::Number(NumberView::Unsigned(n))
}

/// The number `n`.
pub open spec fn signed_tree(n: i64) -> Tree {
    Tree::Number(
        if n >= 0 {
            NumberView::Unsigned(n as u64)
        } else {
            NumberView::Other("-"@ + crate::text::decimal((-n) as nat))
        },
    )
}

/// The text, or null.
pub open spec fn optional_text_tree(s: Option<Seq<char>>) -> Tree {
    match s {
        Some(s) => Tree::Text(s),
        None => Tree::Null,
    }
}

/// The array of the texts.
pub open spec fn texts_tree(list: Seq<Seq<char>>) -> Tree {
    Tree::Array(Seq::new(list.len(), |i: int| Tree::Text(list[i])))
}

/// The characters of a text that may be missing.
pub open spec fn opt_view(s: Option<String>) -> Option<Seq<char>> {
    match s {
        Some(s) => Some(s@),
        None => None,
    }
}

/// The last of the fields called `name` is the one that stays.
pub proof fn lemma_field_map_found(pairs: Seq<(Seq<char>, Tree)>, name: Seq<char>, i: int)
    requires
        0 <= i < pairs.len(),
        pairs[i].0 == name,
        forall|k: int| i < k < pairs.len() ==> (#[trigger] pairs[k]).0 != name,
    ensures
        field_map(pairs).dom().contains(name),
        field_map(pairs)[name] == pairs[i].1,
    decreases pairs.len(),
{
    if i < pairs.len() - 1 {
        assert(pairs[pairs.len() - 1].0 != name);
        lemma_field_map_found(pairs.drop_last(), name, i);
    }
}

/// A name that no field has is not in the object.
pub proof fn lemma_field_map_missing(pairs: Seq<(Seq<char>, Tree)>, name: Seq<char>)
    requires
        forall|k: int| 0 <= k < pairs.len() ==> (#[trigger] pairs[k]).0 != name,
    ensures
        !field_map(pairs).dom().contains(name),
    decreases pairs.len(),
{
    if pairs.len() > 0 {
        let front = pairs.drop_last();
        assert forall|k: int| 0 <= k < front.len() implies (#[trigger] front[k]).0 != name by {
            assert(front[k] == pairs[k]);
        }
        lemma_field_map_missing(front, name);
    }
}

/// In an object that was set from fields of different names, each of these is
/// as it was set, and there is no other.
pub proof fn lemma_object_fields(pairs: Seq<(Seq<char>, Tree)>)
    requires
        forall|a: int, b: int| 0 <= a < b < pairs.len() ==> (#[trigger] pairs[a]).0 != (#[trigger] pairs[b]).0,
    ensures
        forall|i: int|
            0 <= i < pairs.len() ==> field(object(pairs), (#[trigger] pairs[i]).0) == Some(pairs[i].1),
        forall|name: Seq<char>|
            (forall|i: int| 0 <= i < pairs.len() ==> (#[trigger] pairs[i]).0 != name) ==> (#[trigger] field(
                object(pairs),
                name,
            )) is None,
{
    assert forall|i: int| 0 <= i < pairs.len() implies field(object(pairs), (#[trigger] pairs[i]).0) == Some(
        pairs[i].1,
    ) by {
        lemma_field_map_found(pairs, pairs[i].0, i);
    }
    assert forall|name: Seq<char>|
        (forall|i: int| 0 <= i < pairs.len() ==> (#[trigger] pairs[i]).0 != name) implies (#[trigger] field(
        object(pairs),
        name,
    )) is None by {
        lemma_field_map_missing(pairs, name);
    }
}

/// What stands in a field is what it was set to.
pub proof fn lemma_field_map_value(pairs: Seq<(Seq<char>, Tree)>, name: Seq<char>)
    requires
        field_map(pairs).dom().contains(name),
    ensures
        exists|i: int| 0 <= i < pairs.len() && #[trigger] pairs[i] == (name, field_map(pairs)[name]),
    decreases pairs.len(),
{
    if pairs.last().0 == name {
        assert(pairs[pairs.len() - 1] == (name, field_map(pairs)[name]));
    } else {
        lemma_field_map_value(pairs.drop_last(), name);
        let front = pairs.drop_last();
        let i = choose|i: int| 0 <= i < front.len() && #[trigger] front[i] == (name, field_map(front)[name]);
        assert(pairs[i] == (name, field_map(pairs)[name]));
    }
}

/// Setting the fields of two lists one after the other: those of the later one
/// replace those of the same name.
pub proof fn lemma_field_map_adds(first: Seq<(Seq<char>, Tree)>, second: Seq<(Seq<char>, Tree)>)
    ensures
        field_map(first + second) == field_map(first).union_prefer_right(field_map(second)),
    decreases second.len(),
{
    if second.len() == 0 {
        assert(first + second =~= first);
        assert(field_map(first) =~= field_map(first).union_prefer_right(field_map(second)));
    } else {
        lemma_field_map_adds(first, second.drop_last());
        assert((first + second).drop_last() =~= first + second.drop_last());
        assert(field_map(first + second) =~= field_map(first).union_prefer_right(field_map(second)));
    }
}

/// A copy of the fields.
pub fn clone_fields(fields: &Vec<(String, Json)>) -> (r: Vec<(String, Json)>)
    ensures
        tree_pairs(r@) == tree_pairs(fields@),
{
    let mut r: Vec<(String, Json)> = Vec::new();
    let mut i: usize = 0;
    while i < fields.len()
        invariant
            i <= fields@.len(),
            r@.len() == i,
            forall|k: int|
                0 <= k < i ==> (#[trigger] r@[k]).0@ == fields@[k].0@ && tree(r@[k].1) == tree(fields@[k].1),
        decreases fields@.len() - i,
    {
        r.push((fields[i].0.clone(), fields[i].1.clone()));
        i = i + 1;
    }
    proof {
        assert(tree_pairs(r@) =~= tree_pairs(fields@));
    }
    r
}

/// The field of the name and value.
pub fn pair(name: &str, value: Json) -> (p: (String, Json))
    ensures
        p.0@ == name@,
        p.1 == value,
{
    (name.to_owned(), value)
}

} // verus!
