//! Settings that come from the environment, each there or not.
use vstd::prelude::*;
use vstd::string::*;

use crate::json;

verus! {

/// The value of a setting that has to be there.
pub open spec fn required_value(name: Seq<char>, value: Option<Seq<char>>) -> Result<Seq<char>, Seq<char>> {
    match value {
        Some(value) => Ok(value),
        None => Err(name + " must be set"@),
    }
}

/// The value of a setting that may be left out.
pub open spec fn optional_value(value: Option<Seq<char>>, default: Seq<char>) -> Seq<char> {
    match value {
        Some(value) => value,
        None => default,
    }
}

/// The models of a text and of a message in words.
pub open spec fn text_result(r: Result<String, String>) -> Result<Seq<char>, Seq<char>> {
    match r {
        Ok(text) => Ok(text@),
        Err(message) => Err(message@),
    }
}

/// The value of the setting, which has to be there.
pub fn required(name: &str, value: &Option<String>) -> (r: Result<String, String>)
    ensures
        text_result(r) == required_value(name@, json::opt_view(*value)),
{
    match value {
        Some(value) => Ok(value.clone()),
        None => {
            let mut message = name.to_owned();
            message.append(" must be set");
            Err(message)
        },
    }
}

/// The value of the setting, or the default.
pub fn optional(value: &Option<String>, default: &str) -> (r: String)
    ensures
        r@ == optional_value(json::opt_view(*value), default@),
{
    match value {
        Some(value) => value.clone(),
        None => default.to_owned(),
    }
}

} // verus!
