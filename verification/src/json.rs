//! JSON documents as the order-book messages carry them.
//!
//! A [`JsonValue`] holds a parsed JSON document. A number is held as the two
//! readings that the messages use: the unsigned integer it denotes, where it
//! is one that fits in 64 bits, and the bit pattern of the 64-bit float it
//! reads as (see [`crate::price`]). An object holds its members in order; a
//! lookup finds the first member with the key (a parsed document has no
//! repeated keys).

use vstd::prelude::*;

verus! {

/// A JSON number, held as its unsigned integer reading (if it has one) and
/// the bit pattern of its float reading.
pub struct JsonNumber {
    pub unsigned: Option<u64>,
    pub float_bits: u64,
}

/// A JSON value.
pub enum JsonValue {
    Null,
    Bool(bool),
    Number(JsonNumber),
    String(String),
    Array(Vec<JsonValue>),
    Object(Vec<(String, JsonValue)>),
}

/// The value of the first member of `entries` whose key is `key`.
pub open spec fn object_lookup(entries: Seq<(String, JsonValue)>, key: Seq<char>) -> Option<JsonValue>
    decreases entries.len(),
{
    if entries.len() == 0 {
        None
    } else if entries[0].0@ == key {
        Some(entries[0].1)
    } else {
        object_lookup(entries.drop_first(), key)
    }
}

/// The member `key` of an object; nothing for any other value.
pub open spec fn json_get(v: JsonValue, key: Seq<char>) -> Option<JsonValue> {
    match v {
        JsonValue::Object(entries) => object_lookup(entries@, key),
        _ => None,
    }
}

/// The element `i` of an array; nothing for any other value or index.
pub open spec fn json_index(v: JsonValue, i: int) -> Option<JsonValue> {
    match v {
        JsonValue::Array(items) => if 0 <= i < items.len() {
            Some(items@[i])
        } else {
            None
        },
        _ => None,
    }
}

/// The characters of a string value.
pub open spec fn json_str(v: JsonValue) -> Option<Seq<char>> {
    match v {
        JsonValue::String(s) => Some(s@),
        _ => None,
    }
}

/// The unsigned integer reading of a number value.
pub open spec fn json_u64(v: JsonValue) -> Option<u64> {
    match v {
        JsonValue::Number(n) => n.unsigned,
        _ => None,
    }
}

/// The float reading (as bits) of a number value.
pub open spec fn json_float_bits(v: JsonValue) -> Option<u64> {
    match v {
        JsonValue::Number(n) => Some(n.float_bits),
        _ => None,
    }
}

/// The elements of an array value.
pub open spec fn json_array(v: JsonValue) -> Option<Seq<JsonValue>> {
    match v {
        JsonValue::Array(items) => Some(items@),
        _ => None,
    }
}

/// The string member `key` of an object.
pub open spec fn member_str(v: JsonValue, key: Seq<char>) -> Option<Seq<char>> {
    match json_get(v, key) {
        Some(m) => json_str(m),
        None => None,
    }
}

/// The unsigned integer member `key` of an object.
pub open spec fn member_u64(v: JsonValue, key: Seq<char>) -> Option<u64> {
    match json_get(v, key) {
        Some(m) => json_u64(m),
        None => None,
    }
}

/// The array member `key` of an object.
pub open spec fn member_array(v: JsonValue, key: Seq<char>) -> Option<Seq<JsonValue>> {
    match json_get(v, key) {
        Some(m) => json_array(m),
        None => None,
    }
}

/// The string element `i` of an array.
pub open spec fn element_str(v: JsonValue, i: int) -> Option<Seq<char>> {
    match json_index(v, i) {
        Some(e) => json_str(e),
        None => None,
    }
}

/// The float element `i` of an array, as bits.
pub open spec fn element_float_bits(v: JsonValue, i: int) -> Option<u64> {
    match json_index(v, i) {
        Some(e) => json_float_bits(e),
        None => None,
    }
}

impl JsonValue {
    /// The member `key` of an object; `None` for any other value.
    pub fn get(&self, key: &str) -> (r: Option<&JsonValue>)
        ensures
            match r {
                Some(m) => json_get(*self, key@) == Some(*m),
                None => json_get(*self, key@) is None,
            },
    {
        match self {
            JsonValue::Object(entries) => {
                let k = key.to_owned();
                let mut i: usize = 0;
                assert(entries@.skip(0) =~= entries@);
                while i < entries.len()
                    invariant
                        i <= entries.len(),
                        k@ == key@,
                        json_get(*self, key@) == object_lookup(entries@, key@),
                        object_lookup(entries@, key@) == object_lookup(entries@.skip(i as int), key@),
                    decreases entries.len() - i,
                {
                    assert(entries@.skip(i as int)[0] == entries@[i as int]);
                    let entry = &entries[i];
                    if entry.0 == k {
                        assert(object_lookup(entries@.skip(i as int), key@) == Some(entries@[i as int].1));
                        return Some(&entry.1);
                    }
                    assert(entries@.skip(i as int).drop_first() =~= entries@.skip(i as int + 1));
                    i = i + 1;
                }
                None
            },
            _ => None,
        }
    }

    /// The element `index` of an array; `None` for any other value or index.
    pub fn get_index(&self, index: usize) -> (r: Option<&JsonValue>)
        ensures
            match r {
                Some(e) => json_index(*self, index as int) == Some(*e),
                None => json_index(*self, index as int) is None,
            },
    {
        match self {
            JsonValue::Array(items) => {
                if index < items.len() {
                    Some(&items[index])
                } else {
                    None
                }
            },
            _ => None,
        }
    }

    /// The string of a string value.
    pub fn as_str(&self) -> (r: Option<&String>)
        ensures
            match r {
                Some(s) => json_str(*self) == Some(s@),
                None => json_str(*self) is None,
            },
    {
        match self {
            JsonValue::String(s) => Some(s),
            _ => None,
        }
    }

    /// The unsigned integer reading of a number value.
    pub fn as_u64(&self) -> (r: Option<u64>)
        ensures
            r == json_u64(*self),
    {
        match self {
            JsonValue::Number(n) => n.unsigned,
            _ => None,
        }
    }

    /// The float reading, as bits, of a number value.
    pub fn as_float_bits(&self) -> (r: Option<u64>)
        ensures
            r == json_float_bits(*self),
    {
        match self {
            JsonValue::Number(n) => Some(n.float_bits),
            _ => None,
        }
    }

    /// The elements of an array value.
    pub fn as_array(&self) -> (r: Option<&Vec<JsonValue>>)
        ensures
            match r {
                Some(items) => json_array(*self) == Some(items@),
                None => json_array(*self) is None,
            },
    {
        match self {
            JsonValue::Array(items) => Some(items),
            _ => None,
        }
    }
}

} // verus!
