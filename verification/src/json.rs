use vstd::prelude::*;
use crate::text::str_eq;

verus! {

/// A parsed JSON document, as far as this library reads one.  Numeric
/// payloads are never consulted by the package views, so a number carries
/// no value here; the boundary converts real documents into this shape.
#[derive(Debug)]
pub enum JsonValue {
    Null,
    Bool(bool),
    Number,
    Str(String),
    Array(Vec<JsonValue>),
    Object(Vec<(String, JsonValue)>),
}

/// The value under the first field named `key`, scanning from position `i`.
pub open spec fn obj_get_from(
    fields: Seq<(String, JsonValue)>,
    key: Seq<char>,
    i: int,
) -> Option<JsonValue>
    decreases fields.len() - i,
{
    if i < 0 || i >= fields.len() {
        None
    } else if fields[i].0@ == key {
        Some(fields[i].1)
    } else {
        obj_get_from(fields, key, i + 1)
    }
}

/// The value under the field named `key` of an object; nothing on any other
/// shape of value.
pub open spec fn spec_get(v: JsonValue, key: Seq<char>) -> Option<JsonValue> {
    match v {
        JsonValue::Object(fields) => obj_get_from(fields@, key, 0),
        _ => None,
    }
}

/// The text of a string value.
pub open spec fn spec_as_str(v: JsonValue) -> Option<Seq<char>> {
    match v {
        JsonValue::Str(s) => Some(s@),
        _ => None,
    }
}

/// The string under the field named `key`, when the value is an object and
/// the field holds a string.
pub open spec fn spec_str_field(v: JsonValue, key: Seq<char>) -> Option<Seq<char>> {
    match spec_get(v, key) {
        Some(f) => spec_as_str(f),
        None => None,
    }
}

proof fn lemma_obj_get_some(fields: Seq<(String, JsonValue)>, key: Seq<char>, a: int, j: int)
    requires
        0 <= a <= j < fields.len(),
        forall|k: int| a <= k < j ==> fields[k].0@ != key,
        fields[j].0@ == key,
    ensures
        obj_get_from(fields, key, a) == Some(fields[j].1),
    decreases j - a,
{
    if a < j {
        lemma_obj_get_some(fields, key, a + 1, j);
    }
}

proof fn lemma_obj_get_none(fields: Seq<(String, JsonValue)>, key: Seq<char>, a: int)
    requires
        0 <= a <= fields.len(),
        forall|k: int| a <= k < fields.len() ==> fields[k].0@ != key,
    ensures
        obj_get_from(fields, key, a) is None,
    decreases fields.len() - a,
{
    if a < fields.len() {
        lemma_obj_get_none(fields, key, a + 1);
    }
}

impl JsonValue {
    /// The value under the field named `key`, when this is an object that
    /// has one.
    #[verifier::loop_isolation(false)]
    pub fn get<'a>(&'a self, key: &str) -> (r: Option<&'a JsonValue>)
        ensures
            match r {
                Some(v) => spec_get(*self, key@) == Some(*v),
                None => spec_get(*self, key@) is None,
            },
    {
        match self {
            JsonValue::Object(fields) => {
                let n = fields.len();
                let mut i: usize = 0;
                while i < n
                    invariant
                        i <= n,
                        forall|k: int| 0 <= k < i ==> fields@[k].0@ != key@,
                    decreases n - i,
                {
                    if str_eq(fields[i].0.as_str(), key) {
                        proof {
                            lemma_obj_get_some(fields@, key@, 0, i as int);
                        }
                        return Some(&fields[i].1);
                    }
                    i += 1;
                }
                proof {
                    lemma_obj_get_none(fields@, key@, 0);
                }
                None
            },
            _ => None,
        }
    }

    /// The text of this value, when it is a string.
    pub fn as_str(&self) -> (r: Option<&String>)
        ensures
            match r {
                Some(s) => spec_as_str(*self) == Some(s@),
                None => spec_as_str(*self) is None,
            },
    {
        match self {
            JsonValue::Str(s) => Some(s),
            _ => None,
        }
    }

    /// The elements of this value, when it is an array.
    pub fn as_array(&self) -> (r: Option<&Vec<JsonValue>>)
        ensures
            match r {
                Some(a) => *self matches JsonValue::Array(inner) && a@ == inner@,
                None => !(*self matches JsonValue::Array(_)),
            },
    {
        match self {
            JsonValue::Array(a) => Some(a),
            _ => None,
        }
    }

    /// The fields of this value, when it is an object.
    pub fn as_object(&self) -> (r: Option<&Vec<(String, JsonValue)>>)
        ensures
            match r {
                Some(f) => *self matches JsonValue::Object(inner) && f@ == inner@,
                None => !(*self matches JsonValue::Object(_)),
            },
    {
        match self {
            JsonValue::Object(f) => Some(f),
            _ => None,
        }
    }

    /// The string under the field named `key`, when there is one.
    pub fn str_field<'a>(&'a self, key: &str) -> (r: Option<&'a String>)
        ensures
            match r {
                Some(s) => spec_str_field(*self, key@) == Some(s@),
                None => spec_str_field(*self, key@) is None,
            },
    {
        match self.get(key) {
            Some(v) => v.as_str(),
            None => None,
        }
    }
}

} // verus!
