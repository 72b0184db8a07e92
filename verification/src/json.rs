//! JSON documents as plain values.

use crate::inbound::u64_of;
use vstd::prelude::*;

verus! {

/// A JSON document. A number is held as its JSON text, in the canonical
/// form a JSON library prints it (an unsigned integer as plain decimal
/// digits). Keys of an object are distinct.
#[derive(Debug, PartialEq, Eq)]
pub enum JsonValue {
    Null,
    Bool(bool),
    Number(String),
    Text(String),
    Array(Vec<JsonValue>),
    Object(Vec<(String, JsonValue)>),
}

/// The value stored under `key` among object entries (the first entry with
/// that key).
pub open spec fn entry_value(entries: Seq<(String, JsonValue)>, key: Seq<char>) -> Option<JsonValue>
    decreases entries.len(),
{
    if entries.len() == 0 {
        None
    } else if entries[0].0@ == key {
        Some(entries[0].1)
    } else {
        entry_value(entries.drop_first(), key)
    }
}

impl JsonValue {
    /// Member `key` of an object; nothing for any other value.
    pub open spec fn field(self, key: Seq<char>) -> Option<JsonValue> {
        match self {
            JsonValue::Object(entries) => entry_value(entries@, key),
            _ => None,
        }
    }

    /// The value as an unsigned 64-bit integer, if it is one.
    pub open spec fn as_u64(self) -> Option<u64> {
        match self {
            JsonValue::Number(t) => u64_of(t@),
            _ => None,
        }
    }
}

/// Member `key` of an object, by reference.
pub fn json_field<'a>(v: &'a JsonValue, key: &str) -> (r: Option<&'a JsonValue>)
    ensures
        match r {
            Some(x) => v.field(key@) == Some(*x),
            None => v.field(key@).is_none(),
        },
{
    match v {
        JsonValue::Object(entries) => {
            assert(entries@.skip(0) == entries@);
            let mut i: usize = 0;
            while i < entries.len()
                invariant
                    0 <= i <= entries@.len(),
                    v.field(key@) == entry_value(entries@, key@),
                    entry_value(entries@, key@) == entry_value(entries@.skip(i as int), key@),
                decreases entries@.len() - i,
            {
                proof {
                    lemma_entry_value_step(entries@, key@, i as int);
                }
                if crate::text::str_eq(entries[i].0.as_str(), key) {
                    return Some(&entries[i].1);
                }
                i = i + 1;
            }
            None
        },
        _ => None,
    }
}

proof fn lemma_entry_value_step(entries: Seq<(String, JsonValue)>, key: Seq<char>, i: int)
    requires
        0 <= i < entries.len(),
    ensures
        entry_value(entries.skip(i), key) == if entries[i].0@ == key {
            Some(entries[i].1)
        } else {
            entry_value(entries.skip(i + 1), key)
        },
{
    assert(entries.skip(i)[0] == entries[i]);
    assert(entries.skip(i).drop_first() == entries.skip(i + 1));
}

/// Member `key` of an object, taken out of it.
pub fn take_field(v: JsonValue, key: &str) -> (r: Option<JsonValue>)
    ensures
        r == v.field(key@),
{
    match v {
        JsonValue::Object(mut entries) => {
            let ghost all = entries@;
            assert(all.skip(0) == all);
            let mut i: usize = 0;
            while i < entries.len()
                invariant
                    0 <= i <= entries@.len(),
                    entries@ == all,
                    v.field(key@) == entry_value(all, key@),
                    entry_value(all, key@) == entry_value(all.skip(i as int), key@),
                decreases entries@.len() - i,
            {
                proof {
                    lemma_entry_value_step(all, key@, i as int);
                }
                if crate::text::str_eq(entries[i].0.as_str(), key) {
                    let (_, value) = entries.swap_remove(i);
                    return Some(value);
                }
                i = i + 1;
            }
            None
        },
        _ => None,
    }
}

} // verus!
