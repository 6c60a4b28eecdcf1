//! Redaction: denied texts are taken out of every text of a JSON value.
use vstd::prelude::*;
use vstd::string::*;

use crate::json;
use crate::json::{Json, Tree};
use crate::text;
use crate::text::replace;

verus! {

/// What stands where a denied text stood.
pub const REDACTED: &'static str = "[REDACTED]";

/// The text with each pattern in turn replaced. An empty pattern replaces
/// nothing.
pub open spec fn redacted_text(s: Seq<char>, patterns: Seq<Seq<char>>) -> Seq<char>
    decreases patterns.len(),
{
    if patterns.len() == 0 {
        s
    } else {
        text::replaced(redacted_text(s, patterns.drop_last()), patterns.last(), REDACTED@)
    }
}

/// The value with each of its texts redacted. The names of fields, and what is
/// not a text, stay as they are.
pub open spec fn redacted(t: Tree, patterns: Seq<Seq<char>>) -> Tree
    decreases t,
{
    match t {
        Tree::Text(s) => Tree::Text(redacted_text(s, patterns)),
        Tree::Array(items) => Tree::Array(
            Seq::new(
                items.len(),
                |i: int|
                    if 0 <= i < items.len() {
                        redacted(items[i], patterns)
                    } else {
                        Tree::Null
                    },
            ),
        ),
        Tree::Object(fields) => Tree::Object(
            Map::new(
                |k: Seq<char>| fields.dom().contains(k),
                |k: Seq<char>|
                    if fields.dom().contains(k) {
                        redacted(fields[k], patterns)
                    } else {
                        Tree::Null
                    },
            ),
        ),
        _ => t,
    }
}

/// The text with each pattern in turn replaced.
fn redact_text(s: &str, deny_patterns: &[String]) -> (r: String)
    ensures
        r@ == redacted_text(s@, text::views(deny_patterns@)),
{
    let mut r = s.to_owned();
    let mut i: usize = 0;
    let ghost all = text::views(deny_patterns@);
    while i < deny_patterns.len()
        invariant
            i <= deny_patterns@.len(),
            all == text::views(deny_patterns@),
            r@ == redacted_text(s@, all.take(i as int)),
        decreases deny_patterns@.len() - i,
    {
        r = replace(r.as_str(), deny_patterns[i].as_str(), REDACTED);
        proof {
            let next = all.take(i + 1);
            assert(next.drop_last() =~= all.take(i as int));
            assert(next.last() == deny_patterns@[i as int]@);
        }
        i = i + 1;
    }
    proof {
        assert(all.take(all.len() as int) =~= all);
    }
    r
}

/// The fields with each of their values redacted.
spec fn redacted_pairs(pairs: Seq<(Seq<char>, Tree)>, patterns: Seq<Seq<char>>) -> Seq<(Seq<char>, Tree)> {
    Seq::new(pairs.len(), |i: int| (pairs[i].0, redacted(pairs[i].1, patterns)))
}

/// Redacting an object's fields one by one redacts the object.
proof fn lemma_redacted_object(pairs: Seq<(Seq<char>, Tree)>, patterns: Seq<Seq<char>>)
    ensures
        json::object(redacted_pairs(pairs, patterns)) == redacted(json::object(pairs), patterns),
    decreases pairs.len(),
{
    let left = json::field_map(redacted_pairs(pairs, patterns));
    let fields = json::field_map(pairs);
    let right = redacted(json::object(pairs), patterns)->Object_0;
    if pairs.len() > 0 {
        let front = pairs.drop_last();
        lemma_redacted_object(front, patterns);
        assert(redacted_pairs(pairs, patterns).drop_last() =~= redacted_pairs(front, patterns));
        let front_right = redacted(json::object(front), patterns)->Object_0;
        assert(left == front_right.insert(pairs.last().0, redacted(pairs.last().1, patterns)));
    }
    assert(left =~= right);
}

/// The value with each of its texts redacted.
pub fn redact(meta: &Json, deny_patterns: &[String]) -> (r: Json)
    ensures
        r@ == redacted(meta@, text::views(deny_patterns@)),
    decreases meta,
{
    let ghost patterns = text::views(deny_patterns@);
    match meta {
        Json::Text(s) => Json::Text(redact_text(s.as_str(), deny_patterns)),
        Json::Array(items) => {
            let mut list: Vec<Json> = Vec::new();
            let mut i: usize = 0;
            while i < items.len()
                invariant
                    *meta == Json::Array(*items),
                    patterns == text::views(deny_patterns@),
                    i <= items@.len(),
                    list@.len() == i,
                    forall|k: int|
                        0 <= k < i ==> json::tree(#[trigger] list@[k]) == redacted(
                            json::tree(items@[k]),
                            patterns,
                        ),
                decreases items@.len() - i,
            {
                proof {
                    assert(decreases_to!(*meta => meta->Array_0));
                    assert(decreases_to!(*items => items@));
                    assert(decreases_to!(items@ => items@[i as int]));
                }
                list.push(redact(&items[i], deny_patterns));
                i = i + 1;
            }
            proof {
                let done = redacted(Tree::Array(json::trees(items@)), patterns)->Array_0;
                assert(json::trees(list@) =~= done);
            }
            Json::Array(list)
        },
        Json::Object(fields) => {
            let mut list: Vec<(String, Json)> = Vec::new();
            let mut i: usize = 0;
            while i < fields.len()
                invariant
                    *meta == Json::Object(*fields),
                    patterns == text::views(deny_patterns@),
                    i <= fields@.len(),
                    list@.len() == i,
                    forall|k: int|
                        0 <= k < i ==> (#[trigger] list@[k]).0@ == fields@[k].0@ && json::tree(list@[k].1)
                            == redacted(json::tree(fields@[k].1), patterns),
                decreases fields@.len() - i,
            {
                proof {
                    assert(decreases_to!(*meta => meta->Object_0));
                    assert(decreases_to!(*fields => fields@));
                    assert(decreases_to!(fields@ => fields@[i as int]));
                    assert(decreases_to!(fields@[i as int] => fields@[i as int].1));
                }
                list.push((fields[i].0.clone(), redact(&fields[i].1, deny_patterns)));
                i = i + 1;
            }
            proof {
                assert(json::tree_pairs(list@) =~= redacted_pairs(json::tree_pairs(fields@), patterns));
                lemma_redacted_object(json::tree_pairs(fields@), patterns);
            }
            Json::Object(list)
        },
        _ => meta.clone(),
    }
}

/// Whether some text has room for `part` to overlap with `mark`: `part` shifted
/// by some distance agrees with `mark` wherever both stand.
pub open spec fn overlaps(part: Seq<char>, mark: Seq<char>) -> bool {
    exists|shift: int| #[trigger] agrees(part, mark, shift)
}

/// Whether `part`, starting `shift` characters behind the start of `mark`,
/// stands over some of it and agrees with it there.
pub open spec fn agrees(part: Seq<char>, mark: Seq<char>, shift: int) -> bool {
    &&& -(part.len() as int) < shift < mark.len()
    &&& forall|i: int| 0 <= i < part.len() && 0 <= i + shift < mark.len() ==> #[trigger] part[i] == mark[i + shift]
}

/// Where the rest of `part` starts a text in which `pattern` was replaced, it
/// starts that text as it was, unless `part` overlaps what replaced it.
proof fn lemma_start_is_copied(
    t: Seq<char>,
    pattern: Seq<char>,
    mark: Seq<char>,
    part: Seq<char>,
    from: int,
)
    requires
        pattern.len() > 0,
        mark.len() > 0,
        !overlaps(part, mark),
        0 <= from <= part.len(),
        text::stands_at(text::replaced(t, pattern, mark), part.skip(from), 0),
    ensures
        text::stands_at(t, part.skip(from), 0),
    decreases part.len() - from,
{
    let rest = part.skip(from);
    let out = text::replaced(t, pattern, mark);
    if rest.len() == 0 {
        assert(t.subrange(0, 0) =~= rest);
    } else {
        assert(out.len() > 0);
        if t.len() == 0 {
            assert(out == t);
        }
        if text::stands_at(t, pattern, 0) {
            assert forall|i: int| 0 <= i < part.len() && 0 <= i - from < mark.len() implies #[trigger] part[i]
                == mark[i - from] by {
                assert(out.subrange(0, rest.len() as int)[i - from] == rest[i - from]);
                assert(out[i - from] == mark[i - from]);
            }
            assert(agrees(part, mark, -from));
            assert(false);
        } else {
            let tail = t.skip(1);
            let tail_out = text::replaced(tail, pattern, mark);
            assert(out == seq![t[0]] + tail_out);
            let next = part.skip(from + 1);
            assert(out.subrange(0, rest.len() as int)[0] == rest[0]);
            assert(tail_out.subrange(0, next.len() as int) =~= next) by {
                assert forall|i: int| 0 <= i < next.len() implies tail_out[i] == next[i] by {
                    assert(out.subrange(0, rest.len() as int)[i + 1] == rest[i + 1]);
                    assert(out[i + 1] == tail_out[i]);
                }
            }
            lemma_start_is_copied(tail, pattern, mark, part, from + 1);
            assert(t.subrange(0, rest.len() as int) =~= rest) by {
                assert forall|i: int| 0 <= i < rest.len() implies t[i] == rest[i] by {
                    if i > 0 {
                        assert(tail.subrange(0, next.len() as int)[i - 1] == next[i - 1]);
                        assert(t[i] == tail[i - 1]);
                    }
                }
            }
        }
    }
}

/// Replacing a pattern brings in no text that does not overlap with what
/// replaces it; and it takes out the pattern itself.
proof fn lemma_replacing(s: Seq<char>, pattern: Seq<char>, mark: Seq<char>, part: Seq<char>)
    requires
        pattern.len() > 0,
        mark.len() > 0,
        part.len() > 0,
        !overlaps(part, mark),
        text::has_part(text::replaced(s, pattern, mark), part),
    ensures
        text::has_part(s, part),
        part != pattern,
    decreases s.len(),
{
    let out = text::replaced(s, pattern, mark);
    let at = choose|at: int| text::stands_at(out, part, at);
    if s.len() == 0 {
        assert(out == s);
        assert(false);
    } else if text::stands_at(s, pattern, 0) {
        let tail = s.skip(pattern.len() as int);
        let tail_out = text::replaced(tail, pattern, mark);
        assert(out == mark + tail_out);
        if at < mark.len() {
            assert forall|i: int| 0 <= i < part.len() && 0 <= i + at < mark.len() implies #[trigger] part[i] == mark[i
                + at] by {
                assert(out.subrange(at, at + part.len())[i] == part[i]);
                assert(out[i + at] == mark[i + at]);
            }
            assert(agrees(part, mark, at));
            assert(false);
        } else {
            assert(tail_out.subrange(at - mark.len(), at - mark.len() + part.len()) =~= part) by {
                assert forall|i: int| 0 <= i < part.len() implies tail_out[at - mark.len() + i] == part[i] by {
                    assert(out.subrange(at, at + part.len())[i] == part[i]);
                    assert(out[at + i] == tail_out[at + i - mark.len()]);
                }
            }
            assert(text::stands_at(tail_out, part, at - mark.len()));
            lemma_replacing(tail, pattern, mark, part);
            let there = choose|there: int| text::stands_at(tail, part, there);
            assert(s.subrange(there + pattern.len(), there + pattern.len() + part.len()) =~= tail.subrange(
                there,
                there + part.len(),
            ));
            assert(text::stands_at(s, part, there + pattern.len()));
        }
    } else {
        let tail = s.skip(1);
        let tail_out = text::replaced(tail, pattern, mark);
        assert(out == seq![s[0]] + tail_out);
        if at > 0 {
            assert(tail_out.subrange(at - 1, at - 1 + part.len()) =~= part) by {
                assert forall|i: int| 0 <= i < part.len() implies tail_out[at - 1 + i] == part[i] by {
                    assert(out.subrange(at, at + part.len())[i] == part[i]);
                    assert(out[at + i] == tail_out[at + i - 1]);
                }
            }
            assert(text::stands_at(tail_out, part, at - 1));
            lemma_replacing(tail, pattern, mark, part);
            let there = choose|there: int| text::stands_at(tail, part, there);
            assert(s.subrange(there + 1, there + 1 + part.len()) =~= tail.subrange(there, there + part.len()));
            assert(text::stands_at(s, part, there + 1));
        } else {
            assert(part.skip(0) =~= part);
            lemma_start_is_copied(s, pattern, mark, part, 0);
            assert(text::stands_at(s, part, 0));
        }
    }
}

/// No denied text is left in a redacted text, provided that the denied text
/// cannot overlap with the mark that stands for it.
pub proof fn law_redaction_strips(s: Seq<char>, patterns: Seq<Seq<char>>, k: int)
    requires
        0 <= k < patterns.len(),
        patterns[k].len() > 0,
        !overlaps(patterns[k], REDACTED@),
    ensures
        !text::has_part(redacted_text(s, patterns), patterns[k]),
    decreases patterns.len(),
{
    reveal_strlit("[REDACTED]");
    assert(REDACTED@.len() == 10);
    let before = redacted_text(s, patterns.drop_last());
    if text::has_part(redacted_text(s, patterns), patterns[k]) {
        if patterns.last().len() > 0 {
            lemma_replacing(before, patterns.last(), REDACTED@, patterns[k]);
        }
        assert(text::has_part(before, patterns[k]));
        assert(k < patterns.len() - 1);
        assert(patterns.drop_last()[k] == patterns[k]);
        law_redaction_strips(s, patterns.drop_last(), k);
    }
}

/// Whether the predicate holds of every text in the value.
pub open spec fn every_text(t: Tree, f: spec_fn(Seq<char>) -> bool) -> bool
    decreases t,
{
    match t {
        Tree::Text(s) => f(s),
        Tree::Array(items) => forall|i: int| 0 <= i < items.len() ==> every_text(#[trigger] items[i], f),
        Tree::Object(fields) => forall|k: Seq<char>|
            fields.dom().contains(k) ==> every_text(#[trigger] fields[k], f),
        _ => true,
    }
}

/// Whether a text is without `part`.
pub open spec fn lacks(part: Seq<char>) -> spec_fn(Seq<char>) -> bool {
    |s: Seq<char>| !text::has_part(s, part)
}

/// No denied text is left in any text of a redacted value, however deep.
pub proof fn law_redaction_strips_everywhere(t: Tree, patterns: Seq<Seq<char>>, k: int)
    requires
        0 <= k < patterns.len(),
        patterns[k].len() > 0,
        !overlaps(patterns[k], REDACTED@),
    ensures
        every_text(redacted(t, patterns), lacks(patterns[k])),
    decreases t,
{
    let f = lacks(patterns[k]);
    match t {
        Tree::Text(s) => {
            law_redaction_strips(s, patterns, k);
            assert(f(redacted_text(s, patterns)));
        },
        Tree::Array(items) => {
            let done = redacted(t, patterns)->Array_0;
            assert forall|i: int| 0 <= i < done.len() implies every_text(#[trigger] done[i], f) by {
                law_redaction_strips_everywhere(items[i], patterns, k);
            }
            assert(every_text(Tree::Array(done), f));
            assert(redacted(t, patterns) == Tree::Array(done));
        },
        Tree::Object(fields) => {
            let done = redacted(t, patterns)->Object_0;
            assert forall|n: Seq<char>| done.dom().contains(n) implies every_text(#[trigger] done[n], f) by {
                law_redaction_strips_everywhere(fields[n], patterns, k);
            }
            assert(every_text(Tree::Object(done), f));
            assert(redacted(t, patterns) == Tree::Object(done));
        },
        _ => {},
    }
}

/// Without patterns, and with none but empty ones, redaction changes nothing.
pub proof fn law_redaction_without_patterns(t: Tree, patterns: Seq<Seq<char>>)
    requires
        forall|i: int| 0 <= i < patterns.len() ==> (#[trigger] patterns[i]).len() == 0,
    ensures
        redacted(t, patterns) == t,
    decreases t,
{
    match t {
        Tree::Text(s) => {
            lemma_nothing_to_redact(s, patterns);
        },
        Tree::Array(items) => {
            let done = redacted(t, patterns)->Array_0;
            assert forall|i: int| 0 <= i < items.len() implies done[i] == items[i] by {
                law_redaction_without_patterns(items[i], patterns);
            }
            assert(done =~= items);
        },
        Tree::Object(fields) => {
            let done = redacted(t, patterns)->Object_0;
            assert forall|n: Seq<char>| fields.dom().contains(n) implies #[trigger] done[n] == fields[n] by {
                law_redaction_without_patterns(fields[n], patterns);
            }
            assert(done =~= fields);
        },
        _ => {},
    }
}

proof fn lemma_nothing_to_redact(s: Seq<char>, patterns: Seq<Seq<char>>)
    requires
        forall|i: int| 0 <= i < patterns.len() ==> (#[trigger] patterns[i]).len() == 0,
    ensures
        redacted_text(s, patterns) == s,
    decreases patterns.len(),
{
    if patterns.len() > 0 {
        assert(patterns[patterns.len() - 1].len() == 0);
        let front = patterns.drop_last();
        assert forall|i: int| 0 <= i < front.len() implies (#[trigger] front[i]).len() == 0 by {
            assert(front[i] == patterns[i]);
        }
        lemma_nothing_to_redact(s, front);
    }
}

} // verus!
