//! Settings from environment variables.

use crate::proto::{fields, Fields};
use crate::text::{lower, same_text, text_in, to_lower};
use vstd::prelude::*;

verus! {

/// The value of a variable.
pub open spec fn value_of(vars: Fields, name: Seq<char>) -> Option<Seq<char>>
    decreases vars.len(),
{
    if vars.len() == 0 {
        None
    } else if vars[0].0 == name {
        Some(vars[0].1)
    } else {
        value_of(vars.skip(1), name)
    }
}

/// The value of a variable, or where it is not set, that of another.
pub open spec fn value_or(vars: Fields, primary: Seq<char>, fallback: Seq<char>) -> Option<
    Seq<char>,
> {
    match value_of(vars, primary) {
        Some(value) => Some(value),
        None => value_of(vars, fallback),
    }
}

/// Looks up a variable.
pub fn lookup(vars: &[(String, String)], name: &str) -> (value: Option<String>)
    ensures
        text_in(value) == value_of(fields(vars@), name@),
{
    let ghost all = fields(vars@);
    let mut i: usize = 0;
    assert(all.skip(0) =~= all);
    while i < vars.len()
        invariant
            i <= vars@.len(),
            all == fields(vars@),
            value_of(all, name@) == value_of(all.skip(i as int), name@),
        decreases vars@.len() - i,
    {
        let var = &vars[i];
        assert(all.skip(i as int)[0] == (var.0@, var.1@));
        if same_text(var.0.as_str(), name) {
            return Some(var.1.as_str().to_owned());
        }
        i = i + 1;
        assert(all.skip(i - 1).skip(1) =~= all.skip(i as int));
    }
    None
}

/// Looks up a variable, and where it is not set, another.
pub fn env_var(vars: &[(String, String)], primary: &str, fallback: &str) -> (value: Option<String>)
    ensures
        text_in(value) == value_or(fields(vars@), primary@, fallback@),
{
    match lookup(vars, primary) {
        Some(value) => Some(value),
        None => lookup(vars, fallback),
    }
}

/// What a text says that is to say yes or no.
pub open spec fn yes_or_no(value: Seq<char>) -> Option<bool> {
    let value = lower(value);
    if value == "1"@ || value == "true"@ || value == "yes"@ || value == "on"@ {
        Some(true)
    } else if value == "0"@ || value == "false"@ || value == "no"@ || value == "off"@ {
        Some(false)
    } else {
        None
    }
}

/// Looks up a variable that is to say yes or no.
pub fn env_bool(vars: &[(String, String)], name: &str) -> (value: Option<bool>)
    ensures
        value == (match value_of(fields(vars@), name@) {
            Some(value) => yes_or_no(value),
            None => None,
        }),
{
    let value = match lookup(vars, name) {
        Some(value) => to_lower(value.as_str()),
        None => {
            return None;
        },
    };
    let value = value.as_str();
    let yes = same_text(value, "1") || same_text(value, "true") || same_text(value, "yes")
        || same_text(value, "on");
    let no = same_text(value, "0") || same_text(value, "false") || same_text(value, "no")
        || same_text(value, "off");
    if yes {
        Some(true)
    } else if no {
        Some(false)
    } else {
        None
    }
}

} // verus!
