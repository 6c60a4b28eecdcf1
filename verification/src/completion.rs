//! The `completion-v1` metadata of a completion message: what a finished piece
//! of work reports about itself.
use vstd::prelude::*;
use vstd::string::*;

use crate::json;
use crate::json::{Json, Tree};
use crate::text::{chars_of, same};

verus! {

/// The value of the schema field.
pub const COMPLETION_SCHEMA: &'static str = "completion-v1";

/// Whether `c` is a decimal digit.
pub open spec fn is_digit(c: char) -> bool {
    '0' <= c <= '9'
}

/// Whether `c` is a decimal digit.
pub fn digit(c: char) -> (r: bool)
    ensures
        r == is_digit(c),
{
    '0' <= c && c <= '9'
}

/// The value of a decimal digit.
pub open spec fn digit_value(c: char) -> int {
    c as int - '0' as int
}

/// Whether `s[at..at + n]` are `n` digits.
pub open spec fn digits_at(s: Seq<char>, at: int, n: int) -> bool {
    0 <= at && at + n <= s.len() && forall|i: int| at <= i < at + n ==> is_digit(#[trigger] s[i])
}

/// The number that the two digits at `at` stand for.
pub open spec fn pair_value(s: Seq<char>, at: int) -> int {
    10 * digit_value(s[at]) + digit_value(s[at + 1])
}

/// The number that the four digits at the start stand for.
pub open spec fn year_value(s: Seq<char>) -> int {
    100 * pair_value(s, 0) + pair_value(s, 2)
}

/// Whether the year has a 29th of February.
pub open spec fn is_leap_year(year: int) -> bool {
    year % 4 == 0 && (year % 100 != 0 || year % 400 == 0)
}

/// The number of days of the month, `1` being January.
pub open spec fn month_days(year: int, month: int) -> int {
    if month == 2 {
        if is_leap_year(year) {
            29
        } else {
            28
        }
    } else if month == 4 || month == 6 || month == 9 || month == 11 {
        30
    } else {
        31
    }
}

/// Whether `s` from `at` on is a time zone: `Z`, or a signed `hh:mm` offset. The
/// letters of a timestamp may be of either case.
pub open spec fn zone_at(s: Seq<char>, at: int) -> bool {
    ||| s.len() == at + 1 && (s[at] == 'Z' || s[at] == 'z')
    ||| {
        &&& s.len() == at + 6
        &&& s[at] == '+' || s[at] == '-'
        &&& digits_at(s, at + 1, 2) && pair_value(s, at + 1) <= 23
        &&& s[at + 3] == ':'
        &&& digits_at(s, at + 4, 2) && pair_value(s, at + 4) <= 59
    }
}

/// Whether `s[..10]` is a calendar date, `YYYY-MM-DD`.
pub open spec fn starts_with_date(s: Seq<char>) -> bool {
    &&& digits_at(s, 0, 4)
    &&& digits_at(s, 5, 2)
    &&& digits_at(s, 8, 2)
    &&& s[4] == '-' && s[7] == '-'
    &&& 1 <= pair_value(s, 5) <= 12
    &&& 1 <= pair_value(s, 8) <= month_days(year_value(s), pair_value(s, 5))
}

/// Whether `s[11..19]` is a time of day, `hh:mm:ss`, a leap second allowed.
pub open spec fn time_follows(s: Seq<char>) -> bool {
    &&& digits_at(s, 11, 2)
    &&& digits_at(s, 14, 2)
    &&& digits_at(s, 17, 2)
    &&& s[13] == ':' && s[16] == ':'
    &&& pair_value(s, 11) <= 23
    &&& pair_value(s, 14) <= 59
    &&& pair_value(s, 17) <= 60
}

/// Whether `s` is an RFC 3339 timestamp: a date, `T`, a time of day with or
/// without a fraction of a second, and a time zone.
pub open spec fn is_timestamp(s: Seq<char>) -> bool {
    &&& starts_with_date(s)
    &&& time_follows(s)
    &&& s[10] == 'T' || s[10] == 't'
    &&& {
        ||| zone_at(s, 19)
        ||| s.len() > 19 && s[19] == '.' && exists|n: int|
            n >= 1 && #[trigger] digits_at(s, 20, n) && zone_at(s, 20 + n)
    }
}

fn digits(v: &Vec<char>, at: usize, n: usize) -> (r: bool)
    requires
        at <= 1000,
        n <= 1000,
    ensures
        r == digits_at(v@, at as int, n as int),
{
    if v.len() < at + n {
        return false;
    }
    let mut i: usize = 0;
    while i < n
        invariant
            i <= n <= 1000,
            at <= 1000,
            at + n <= v@.len(),
            forall|k: int| at <= k < at + i ==> is_digit(#[trigger] v@[k]),
        decreases n - i,
    {
        if !digit(v[at + i]) {
            return false;
        }
        i = i + 1;
    }
    true
}

fn pair(v: &Vec<char>, at: usize) -> (n: u32)
    requires
        digits_at(v@, at as int, 2),
    ensures
        n == pair_value(v@, at as int),
        n <= 99,
{
    let len: usize = v.len();
    proof {
        assert(at + 1 < len);
        assert(is_digit(v@[at as int]) && is_digit(v@[at + 1]));
    }
    (v[at] as u32 - '0' as u32) * 10 + (v[at + 1] as u32 - '0' as u32)
}

fn zone(v: &Vec<char>, at: usize) -> (r: bool)
    requires
        at <= v@.len(),
    ensures
        r == zone_at(v@, at as int),
{
    let rest: usize = v.len() - at;
    if rest == 1 {
        return v[at] == 'Z' || v[at] == 'z';
    }
    if rest != 6 || (v[at] != '+' && v[at] != '-') || v[at + 3] != ':' {
        return false;
    }
    if !digit(v[at + 1]) || !digit(v[at + 2]) || !digit(v[at + 4]) || !digit(v[at + 5]) {
        proof {
            let s = v@;
            if digits_at(s, at + 1, 2) && digits_at(s, at + 4, 2) {
                assert(is_digit(s[at + 1]) && is_digit(s[at + 2]) && is_digit(s[at + 4]) && is_digit(s[at + 5]));
            }
        }
        return false;
    }
    pair(v, at + 1) <= 23 && pair(v, at + 4) <= 59
}

/// Whether `s` is an RFC 3339 timestamp.
pub fn timestamp(s: &str) -> (r: bool)
    ensures
        r == is_timestamp(s@),
{
    let v = chars_of(s);
    if !digits(&v, 0, 4) || !digits(&v, 5, 2) || !digits(&v, 8, 2) || !digits(&v, 11, 2) || !digits(
        &v,
        14,
        2,
    ) || !digits(&v, 17, 2) {
        return false;
    }
    if v[4] != '-' || v[7] != '-' || (v[10] != 'T' && v[10] != 't') || v[13] != ':' || v[16] != ':' {
        return false;
    }
    proof {
        assert forall|i: int| 0 <= i < 2 implies is_digit(#[trigger] v@[i]) by {}
        assert(digits_at(v@, 0, 2) && digits_at(v@, 2, 2));
    }
    let year: u32 = pair(&v, 0) * 100 + pair(&v, 2);
    let month: u32 = pair(&v, 5);
    let leap: bool = year % 4 == 0 && (year % 100 != 0 || year % 400 == 0);
    let days: u32 = if month == 2 {
        if leap {
            29
        } else {
            28
        }
    } else if month == 4 || month == 6 || month == 9 || month == 11 {
        30
    } else {
        31
    };
    let day: u32 = pair(&v, 8);
    if month < 1 || month > 12 || day < 1 || day > days {
        return false;
    }
    if pair(&v, 11) > 23 || pair(&v, 14) > 59 || pair(&v, 17) > 60 {
        return false;
    }
    if zone(&v, 19) {
        return true;
    }
    if v.len() == 19 || v[19] != '.' {
        return false;
    }
    let mut at: usize = 20;
    while at < v.len() && digit(v[at])
        invariant
            20 <= at <= v@.len(),
            digits_at(v@, 20, at - 20),
        decreases v@.len() - at,
    {
        at = at + 1;
    }
    let found: bool = at > 20 && zone(&v, at);
    proof {
        if found {
            assert(digits_at(v@, 20, at - 20) && zone_at(v@, 20 + (at - 20)));
        }
        assert forall|n: int| n >= 1 && #[trigger] digits_at(v@, 20, n) && zone_at(v@, 20 + n) implies found by {
            if 20 + n < at {
                assert(is_digit(v@[20 + n]));
            } else if 20 + n > at {
                assert(is_digit(v@[at as int]));
            }
        }
    }
    found
}

/// What is said of a field that is not there as a text.
pub open spec fn missing_field(name: Seq<char>) -> Seq<char> {
    "missing string field `"@ + name + "`"@
}

/// What is said of a field that is not a timestamp.
pub open spec fn not_a_timestamp(name: Seq<char>) -> Seq<char> {
    "field `"@ + name + "` is not an RFC 3339 timestamp"@
}

/// The first fault of `meta` as `completion-v1` metadata: an object of the
/// schema's name that names the agent, the repository, the reference and the
/// result, and says when the work started and completed.
pub open spec fn completion_fault(meta: Tree) -> Option<Seq<char>> {
    if !(meta is Object) {
        Some("not an object"@)
    } else if json::text_field(meta, "schema"@) != Some(COMPLETION_SCHEMA@) {
        Some("schema is not completion-v1"@)
    } else if json::text_field(meta, "agent"@) is None {
        Some(missing_field("agent"@))
    } else if json::text_field(meta, "repo"@) is None {
        Some(missing_field("repo"@))
    } else if json::text_field(meta, "ref"@) is None {
        Some(missing_field("ref"@))
    } else if json::text_field(meta, "result"@) is None {
        Some(missing_field("result"@))
    } else if json::text_field(meta, "started_at"@) is None {
        Some(missing_field("started_at"@))
    } else if !is_timestamp(json::text_field(meta, "started_at"@)->0) {
        Some(not_a_timestamp("started_at"@))
    } else if json::text_field(meta, "completed_at"@) is None {
        Some(missing_field("completed_at"@))
    } else if !is_timestamp(json::text_field(meta, "completed_at"@)->0) {
        Some(not_a_timestamp("completed_at"@))
    } else {
        None
    }
}

/// Whether `meta` is `completion-v1` metadata.
pub open spec fn is_completion_meta(meta: Tree) -> bool {
    completion_fault(meta) is None
}

fn missing(name: &str) -> (s: String)
    ensures
        s@ == missing_field(name@),
{
    let mut s = "missing string field `".to_owned();
    s.append(name);
    s.append("`");
    s
}

/// The fault of the timestamp field `name`, if it has one.
fn timestamp_fault(meta: &Json, name: &str) -> (r: Option<String>)
    ensures
        match r {
            None => match json::text_field(meta@, name@) {
                Some(s) => is_timestamp(s),
                None => false,
            },
            Some(fault) => match json::text_field(meta@, name@) {
                Some(s) => !is_timestamp(s) && fault@ == not_a_timestamp(name@),
                None => fault@ == missing_field(name@),
            },
        },
{
    match meta.get_str(name) {
        None => Some(missing(name)),
        Some(s) => {
            if timestamp(s) {
                None
            } else {
                let mut fault = "field `".to_owned();
                fault.append(name);
                fault.append("` is not an RFC 3339 timestamp");
                Some(fault)
            }
        },
    }
}

/// Accepts `meta` when it is `completion-v1` metadata, and says what its first
/// fault is when it is not.
pub fn validate_completion_meta(meta: &Json) -> (r: Result<(), String>)
    ensures
        match r {
            Ok(()) => completion_fault(meta@) is None,
            Err(fault) => completion_fault(meta@) == Some(fault@),
        },
{
    if !meta.is_object() {
        return Err("not an object".to_owned());
    }
    match meta.get_str("schema") {
        Some(schema) if same(schema, COMPLETION_SCHEMA) => {},
        _ => {
            return Err("schema is not completion-v1".to_owned());
        },
    }
    if meta.get_str("agent").is_none() {
        return Err(missing("agent"));
    }
    if meta.get_str("repo").is_none() {
        return Err(missing("repo"));
    }
    if meta.get_str("ref").is_none() {
        return Err(missing("ref"));
    }
    if meta.get_str("result").is_none() {
        return Err(missing("result"));
    }
    match timestamp_fault(meta, "started_at") {
        Some(fault) => {
            return Err(fault);
        },
        None => {},
    }
    match timestamp_fault(meta, "completed_at") {
        Some(fault) => Err(fault),
        None => Ok(()),
    }
}

} // verus!
