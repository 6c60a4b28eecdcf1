//! Texts: trimming, joining, searching, replacing, and numbers in decimal.
use vstd::prelude::*;
use vstd::string::*;

use crate::cli;
use crate::completion;
use crate::text;

verus! {

/// White space is what Unicode counts as such: of ASCII the blank, the tab, the
/// line feed, the vertical tab, the form feed and the carriage return, and no
/// letter, digit or sign.
pub proof fn law_white_space(c: char)
    ensures
        (c as u32) < 128 ==> (text::is_space(c) <==> c == ' ' || c == '\t' || c == '\n' || c == '\r' || c as u32
            == 11 || c as u32 == 12),
        128 <= (c as u32) < 0x2000 ==> (text::is_space(c) <==> c as u32 == 133 || c as u32 == 160 || c as u32
            == 5760),
        c as u32 >= 0x2000 ==> (text::is_space(c) <==> c as u32 - 0x2000 <= 10 || c as u32 == 8232 || c as u32
            == 8233 || c as u32 == 8239 || c as u32 == 8287 || c as u32 == 12288),
{
}

/// Trimming takes the white space off both ends and nothing else.
pub proof fn law_trimming(lead: Seq<char>, core: Seq<char>, trail: Seq<char>)
    requires
        forall|i: int| 0 <= i < lead.len() ==> text::is_space(#[trigger] lead[i]),
        forall|i: int| 0 <= i < trail.len() ==> text::is_space(#[trigger] trail[i]),
        core.len() > 0 ==> !text::is_space(core[0]) && !text::is_space(core.last()),
    ensures
        text::trimmed(lead + core + trail) == core,
    decreases lead.len(),
{
    let all = lead + core + trail;
    if lead.len() > 0 {
        assert(text::is_space(lead[0]));
        assert(all.drop_first() =~= lead.drop_first() + core + trail);
        assert forall|i: int| 0 <= i < lead.drop_first().len() implies text::is_space(
            #[trigger] lead.drop_first()[i],
        ) by {
            assert(lead.drop_first()[i] == lead[i + 1]);
        }
        law_trimming(lead.drop_first(), core, trail);
    } else if core.len() == 0 {
        lemma_all_space(trail);
        assert(all =~= trail);
    } else {
        assert(all =~= core + trail);
        assert(all[0] == core[0]);
        lemma_trims_end(core, trail);
    }
}

proof fn lemma_all_space(s: Seq<char>)
    requires
        forall|i: int| 0 <= i < s.len() ==> text::is_space(#[trigger] s[i]),
    ensures
        text::trimmed_start(s) == Seq::<char>::empty(),
    decreases s.len(),
{
    if s.len() > 0 {
        assert(text::is_space(s[0]));
        assert forall|i: int| 0 <= i < s.drop_first().len() implies text::is_space(#[trigger] s.drop_first()[i]) by {
            assert(s.drop_first()[i] == s[i + 1]);
        }
        lemma_all_space(s.drop_first());
    } else {
        assert(s =~= Seq::empty());
    }
}

proof fn lemma_trims_end(core: Seq<char>, trail: Seq<char>)
    requires
        core.len() > 0,
        !text::is_space(core.last()),
        forall|i: int| 0 <= i < trail.len() ==> text::is_space(#[trigger] trail[i]),
    ensures
        text::trimmed_end(core + trail) == core,
    decreases trail.len(),
{
    if trail.len() > 0 {
        assert(text::is_space(trail[trail.len() - 1]));
        assert((core + trail).last() == trail.last());
        assert((core + trail).drop_last() =~= core + trail.drop_last());
        assert forall|i: int| 0 <= i < trail.drop_last().len() implies text::is_space(
            #[trigger] trail.drop_last()[i],
        ) by {
            assert(trail.drop_last()[i] == trail[i]);
        }
        lemma_trims_end(core, trail.drop_last());
    } else {
        assert(core + trail =~= core);
    }
}

/// A number in decimal is read as that number, and does not start with a zero
/// unless it is one.
pub proof fn law_decimal_reads_back(n: u64)
    ensures
        cli::u64_of(text::decimal(n as nat)) == Some(n),
        text::decimal(n as nat)[0] == '0' ==> n == 0,
{
    lemma_decimal(n as nat);
    let s = text::decimal(n as nat);
    assert(cli::without_plus(s) == s);
}

proof fn lemma_decimal(n: nat)
    ensures
        text::decimal(n).len() > 0,
        forall|i: int| 0 <= i < text::decimal(n).len() ==> completion::is_digit(#[trigger] text::decimal(n)[i]),
        cli::digits_value(text::decimal(n)) == n,
        text::decimal(n)[0] == '0' ==> n == 0,
    decreases n,
{
    let s = text::decimal(n);
    reveal_with_fuel(cli::digits_value, 2);
    if n < 10 {
        assert(s.drop_last() =~= Seq::empty());
    } else {
        lemma_decimal(n / 10);
        let front = text::decimal(n / 10);
        assert(s.drop_last() =~= front);
        assert forall|i: int| 0 <= i < s.len() implies completion::is_digit(#[trigger] s[i]) by {
            if i < front.len() {
                assert(s[i] == front[i]);
            }
        }
        assert(s[0] == front[0]);
    }
}

/// Joining two lists of texts is joining each, with the separator between.
pub proof fn law_joining(a: Seq<Seq<char>>, b: Seq<Seq<char>>, separator: Seq<char>)
    requires
        a.len() > 0,
        b.len() > 0,
    ensures
        text::joined(a + b, separator) == text::joined(a, separator) + separator + text::joined(b, separator),
        a.len() == 1 ==> text::joined(a, separator) == a[0],
    decreases b.len(),
{
    let all = a + b;
    assert(all.last() == b.last());
    if b.len() == 1 {
        assert(all.drop_last() =~= a);
    } else {
        assert(all.drop_last() =~= a + b.drop_last());
        law_joining(a, b.drop_last(), separator);
        assert(text::joined(all, separator) =~= text::joined(a, separator) + separator + text::joined(b, separator));
    }
}

/// A text is part of another exactly where the other is that text with
/// something before and something behind it.
pub proof fn law_parts(before: Seq<char>, part: Seq<char>, behind: Seq<char>, s: Seq<char>)
    ensures
        text::has_part(before + part + behind, part),
        text::has_part(s, part) ==> exists|a: Seq<char>, b: Seq<char>| s == #[trigger] (a + part + b),
{
    let all = before + part + behind;
    let at = before.len() as int;
    assert(all.subrange(at, at + part.len()) =~= part);
    assert(text::stands_at(all, part, at));
    if text::has_part(s, part) {
        let at = choose|at: int| text::stands_at(s, part, at);
        let a = s.take(at);
        let b = s.skip(at + part.len());
        assert(s =~= a + part + b) by {
            assert forall|i: int| 0 <= i < s.len() implies s[i] == (a + part + b)[i] by {
                if at <= i < at + part.len() {
                    assert(s.subrange(at, at + part.len())[i - at] == part[i - at]);
                }
            }
        }
        assert(s == (a + part + b));
    }
}

/// Replacing puts the new text where the pattern first stands, leaves what is
/// before as it is, and goes on behind; a text without the pattern stays as it
/// is.
pub proof fn law_replacing(before: Seq<char>, pattern: Seq<char>, behind: Seq<char>, with: Seq<char>)
    requires
        pattern.len() > 0,
        forall|at: int| 0 <= at < before.len() ==> !text::stands_at(before + pattern + behind, pattern, at),
    ensures
        text::replaced(before + pattern + behind, pattern, with) == before + with + text::replaced(
            behind,
            pattern,
            with,
        ),
        !text::has_part(behind, pattern) ==> text::replaced(behind, pattern, with) == behind,
    decreases before.len(),
{
    let all = before + pattern + behind;
    if !text::has_part(behind, pattern) {
        lemma_nothing_replaced(behind, pattern, with);
    }
    if before.len() == 0 {
        assert(all.subrange(0, pattern.len() as int) =~= pattern);
        assert(text::stands_at(all, pattern, 0));
        assert(all.skip(pattern.len() as int) =~= behind);
        assert(before + with + text::replaced(behind, pattern, with) =~= with + text::replaced(behind, pattern, with));
    } else {
        let rest = before.skip(1);
        assert(!text::stands_at(all, pattern, 0));
        assert(all.skip(1) =~= rest + pattern + behind);
        assert forall|at: int| 0 <= at < rest.len() implies !text::stands_at(rest + pattern + behind, pattern, at) by {
            if text::stands_at(rest + pattern + behind, pattern, at) {
                assert(all.subrange(at + 1, at + 1 + pattern.len()) =~= (rest + pattern + behind).subrange(
                    at,
                    at + pattern.len(),
                ));
                assert(text::stands_at(all, pattern, at + 1));
            }
        }
        law_replacing(rest, pattern, behind, with);
        assert(before =~= seq![before[0]] + rest);
        assert(text::replaced(all, pattern, with) =~= before + with + text::replaced(behind, pattern, with));
    }
}

proof fn lemma_nothing_replaced(s: Seq<char>, pattern: Seq<char>, with: Seq<char>)
    requires
        !text::has_part(s, pattern),
    ensures
        text::replaced(s, pattern, with) == s,
    decreases s.len(),
{
    if pattern.len() > 0 && s.len() > 0 {
        assert(!text::stands_at(s, pattern, 0));
        let rest = s.skip(1);
        assert forall|at: int| !text::stands_at(rest, pattern, at) by {
            if text::stands_at(rest, pattern, at) {
                assert(s.subrange(at + 1, at + 1 + pattern.len()) =~= rest.subrange(at, at + pattern.len()));
                assert(text::stands_at(s, pattern, at + 1));
            }
        }
        lemma_nothing_replaced(rest, pattern, with);
        assert(seq![s[0]] + rest =~= s);
    }
}

/// A list holds a text where one of its texts is that text, character by character.
pub proof fn law_lists_of_texts(list: Seq<String>, s: Seq<char>, i: int)
    ensures
        text::listed(list, s) <==> exists|k: int| 0 <= k < list.len() && (#[trigger] list[k])@ == s,
        text::views(list).len() == list.len(),
        0 <= i < list.len() ==> text::views(list)[i] == list[i]@,
{
}

} // verus!
