//! A JSON value as the crawlers read it from the GitHub and Codeberg APIs.
//! The application decodes the HTTP bodies and hands the values over in
//! this form; the library only reads them.
use vstd::prelude::*;
use crate::text::text_equals;

verus! {

/// A JSON value. An object keeps its members in order; a lookup finds the
/// first member with the key (objects decoded from JSON text have distinct
/// keys, so that is the member with the key). A number keeps its text.
#[derive(Debug)]
pub enum JsonValue {
    Null,
    Bool(bool),
    Number(String),
    Str(String),
    Array(Vec<JsonValue>),
    Object(Vec<(String, JsonValue)>),
}

/// The position of the first member of `members` at or after `k` whose key
/// is `key`, or `members.len()` when there is none.
pub open spec fn member_index(members: Seq<(String, JsonValue)>, key: Seq<char>, k: int) -> int
    decreases members.len() - k,
{
    if k < 0 || k >= members.len() {
        members.len() as int
    } else if members[k].0@ == key {
        k
    } else {
        member_index(members, key, k + 1)
    }
}

pub proof fn lemma_member_index(members: Seq<(String, JsonValue)>, key: Seq<char>, k: int)
    requires
        0 <= k <= members.len(),
    ensures
        k <= member_index(members, key, k) <= members.len(),
        member_index(members, key, k) < members.len() ==> members[member_index(
            members,
            key,
            k,
        )].0@ == key,
    decreases members.len() - k,
{
    if k < members.len() && members[k].0@ != key {
        lemma_member_index(members, key, k + 1);
    }
}

/// The value of member `key` of `v` when `v` is an object that has one
/// (`serde_json::Value::get` with a string key).
pub open spec fn json_get(v: JsonValue, key: Seq<char>) -> Option<JsonValue> {
    match v {
        JsonValue::Object(members) => {
            let k = member_index(members@, key, 0);
            if 0 <= k < members@.len() {
                Some(members@[k].1)
            } else {
                None
            }
        },
        _ => None,
    }
}

/// The text of `v` when it is a string (`as_str`).
pub open spec fn json_str(v: Option<JsonValue>) -> Option<Seq<char>> {
    match v {
        Some(JsonValue::Str(s)) => Some(s@),
        _ => None,
    }
}

/// The value at the end of the path of object keys `keys`, starting at `v`
/// (`serde_json::Value::pointer` with a pointer made of those keys, none of
/// which is an array index).
pub open spec fn json_path(v: JsonValue, keys: Seq<Seq<char>>) -> Option<JsonValue>
    decreases keys.len(),
{
    if keys.len() == 0 {
        Some(v)
    } else {
        match json_get(v, keys[0]) {
            Some(w) => json_path(w, keys.drop_first()),
            None => None,
        }
    }
}

/// Item `i` of `v` when it is an array that long (`Value::get` with an
/// index).
pub open spec fn json_at(v: JsonValue, i: int) -> Option<JsonValue> {
    match v {
        JsonValue::Array(items) => if 0 <= i < items@.len() {
            Some(items@[i])
        } else {
            None
        },
        _ => None,
    }
}

impl JsonValue {
    /// Item `i` of this value when it is an array that long.
    pub fn at(&self, i: usize) -> (res: Option<&JsonValue>)
        ensures
            res is Some <==> json_at(*self, i as int) is Some,
            res matches Some(w) ==> *w == json_at(*self, i as int)->Some_0,
    {
        match self {
            JsonValue::Array(items) => if i < items.len() {
                Some(&items[i])
            } else {
                None
            },
            _ => None,
        }
    }

    /// The member `key` of this value when it is an object that has one.
    #[verifier::loop_isolation(false)]
    pub fn get(&self, key: &str) -> (res: Option<&JsonValue>)
        ensures
            res is Some <==> json_get(*self, key@) is Some,
            res matches Some(w) ==> *w == json_get(*self, key@)->Some_0,
    {
        match self {
            JsonValue::Object(members) => {
                let mut k: usize = 0;
                proof {
                    lemma_member_index(members@, key@, 0);
                }
                while k < members.len()
                    invariant
                        k <= members@.len(),
                        member_index(members@, key@, k as int) == member_index(members@, key@, 0),
                    decreases members@.len() - k,
                {
                    if text_equals(&members[k].0, key) {
                        return Some(&members[k].1);
                    }
                    k = k + 1;
                }
                None
            },
            _ => None,
        }
    }

    /// The text of this value when it is a string.
    pub fn as_str(&self) -> (res: Option<&str>)
        ensures
            res is Some <==> self is Str,
            res matches Some(s) ==> s@ == self->Str_0@,
    {
        match self {
            JsonValue::Str(s) => Some(s.as_str()),
            _ => None,
        }
    }
}

} // verus!
