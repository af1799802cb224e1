//! A JSON document as the decoder reads it.

use vstd::prelude::*;

verus! {

/// A JSON value. Of a number only its kind is kept: no rule of this crate
/// reads one.
#[derive(Debug)]
pub enum JsonValue {
    Null,
    Bool(bool),
    Number,
    Text(String),
    Array(Vec<JsonValue>),
    Object(Vec<JsonMember>),
}

/// One `name: value` pair of a JSON object.
#[derive(Debug)]
pub struct JsonMember {
    pub name: String,
    pub value: JsonValue,
}

/// The value of the first member called `name`, if there is one.
pub open spec fn member_named(members: Seq<JsonMember>, name: Seq<char>) -> Option<JsonValue>
    decreases members.len(),
{
    if members.len() == 0 {
        None
    } else if members[0].name@ == name {
        Some(members[0].value)
    } else {
        member_named(members.skip(1), name)
    }
}

/// Looks a member up by its name.
pub fn find_member<'a>(members: &'a Vec<JsonMember>, name: &String) -> (found: Option<
    &'a JsonValue,
>)
    ensures
        match found {
            Some(value) => member_named(members@, name@) == Some(*value),
            None => member_named(members@, name@) is None,
        },
{
    let n = members.len();
    let mut i: usize = 0;
    assert(members@.skip(0) == members@);
    while i < n
        invariant
            n == members@.len(),
            i <= n,
            member_named(members@, name@) == member_named(members@.skip(i as int), name@),
        decreases n - i,
    {
        if members[i].name == *name {
            return Some(&members[i].value);
        }
        assert(members@.skip(i as int).skip(1) == members@.skip(i + 1));
        i += 1;
    }
    None
}

} // verus!
