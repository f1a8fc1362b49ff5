//! JSON documents as plain values, and the lookups the provider documents need.
use vstd::prelude::*;

use crate::text::{chars_of, parse_unsigned, same_text, spec_parse_unsigned};

verus! {

/// A JSON value; a number keeps its text, an object its members in order.
#[derive(Debug, PartialEq, Eq)]
pub enum JsonValue {
    Null,
    Bool(bool),
    Number(String),
    String(String),
    Array(Vec<JsonValue>),
    Object(Vec<(String, JsonValue)>),
}

/// The value of member `key` of an object: the last member of that name, if any.
pub open spec fn json_member(members: Seq<(String, JsonValue)>, key: Seq<char>) -> Option<JsonValue>
    decreases members.len(),
{
    if members.len() == 0 {
        None
    } else if members.last().0@ == key {
        Some(members.last().1)
    } else {
        json_member(members.drop_last(), key)
    }
}

/// The value of member `key` of an object.
pub fn member<'a>(members: &'a Vec<(String, JsonValue)>, key: &str) -> (value: Option<&'a JsonValue>)
    ensures
        match value {
            Some(v) => json_member(members@, key@) == Some(*v),
            None => json_member(members@, key@) is None,
        },
{
    let mut k = members.len();
    assert(members@.subrange(0, k as int) =~= members@);
    while k > 0
        invariant
            k <= members@.len(),
            json_member(members@, key@) == json_member(members@.subrange(0, k as int), key@),
        decreases k,
    {
        let ghost prefix = members@.subrange(0, k as int);
        assert(prefix.drop_last() =~= members@.subrange(0, k - 1));
        assert(prefix.last() == members@[k - 1]);
        if same_text(members[k - 1].0.as_str(), key) {
            return Some(&members[k - 1].1);
        }
        k = k - 1;
    }
    assert(members@.subrange(0, 0) =~= Seq::<(String, JsonValue)>::empty());
    None
}

/// A number member read as an unsigned 64-bit integer (its text in decimal digits).
pub open spec fn json_u64(value: Option<JsonValue>) -> Option<u64> {
    match value {
        Some(JsonValue::Number(text)) => match spec_parse_unsigned(text@, u64::MAX as nat) {
            Some(n) => Some(n as u64),
            None => None,
        },
        _ => None,
    }
}

pub fn json_u64_exec(value: Option<&JsonValue>) -> (n: Option<u64>)
    ensures
        n == json_u64(
            match value {
                Some(v) => Some(*v),
                None => None,
            },
        ),
{
    match value {
        Some(JsonValue::Number(text)) => {
            let chars = chars_of(text.as_str());
            parse_unsigned(chars.as_slice(), u64::MAX)
        },
        _ => None,
    }
}

/// A string member's text.
pub open spec fn json_text(value: Option<JsonValue>) -> Option<String> {
    match value {
        Some(JsonValue::String(s)) => Some(s),
        _ => None,
    }
}

pub fn json_text_exec(value: Option<&JsonValue>) -> (text: Option<String>)
    ensures
        text == json_text(
            match value {
                Some(v) => Some(*v),
                None => None,
            },
        ),
{
    match value {
        Some(JsonValue::String(s)) => Some(s.clone()),
        _ => None,
    }
}

} // verus!
