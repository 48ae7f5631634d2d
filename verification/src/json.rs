//! JSON values as the JSON-RPC layer reads and builds them. Numbers are kept
//! as unsigned or signed 64-bit integers; any other number keeps its text.

use vstd::prelude::*;
use vstd::string::StringExecFns;

verus! {

/// A JSON value.
#[derive(Debug)]
pub enum Json {
    Null,
    Bool(bool),
    /// A non-negative integer.
    UInt(u64),
    /// A negative integer.
    Int(i64),
    /// Any other number, by its JSON text.
    OtherNumber(String),
    Str(String),
    Array(Vec<Json>),
    /// Members in order; keys are distinct.
    Object(Vec<(String, Json)>),
}

/// The first member of `fields` under `key`.
pub open spec fn field_index(fields: Seq<(String, Json)>, key: Seq<char>) -> Option<int>
    decreases fields.len(),
{
    if fields.len() == 0 {
        None
    } else if fields[0].0@ == key {
        Some(0)
    } else {
        match field_index(fields.drop_first(), key) {
            Some(i) => Some(i + 1),
            None => None,
        }
    }
}

/// `j[key]` for an object that has the key; nothing otherwise.
pub open spec fn json_get(j: Json, key: Seq<char>) -> Option<Json> {
    match j {
        Json::Object(fields) => match field_index(fields@, key) {
            Some(i) => Some(fields@[i].1),
            None => None,
        },
        _ => None,
    }
}

/// The text of a string value.
pub open spec fn json_str(j: Option<Json>) -> Option<Seq<char>> {
    match j {
        Some(Json::Str(s)) => Some(s@),
        _ => None,
    }
}

/// The value of a non-negative integer.
pub open spec fn json_u64(j: Option<Json>) -> Option<u64> {
    match j {
        Some(Json::UInt(n)) => Some(n),
        _ => None,
    }
}

proof fn lemma_field_index(fields: Seq<(String, Json)>, key: Seq<char>)
    ensures
        match field_index(fields, key) {
            Some(i) => 0 <= i < fields.len() && fields[i].0@ == key && forall|j: int|
                0 <= j < i ==> #[trigger] fields[j].0@ != key,
            None => forall|j: int| 0 <= j < fields.len() ==> #[trigger] fields[j].0@ != key,
        },
    decreases fields.len(),
{
    if fields.len() > 0 && fields[0].0@ != key {
        let p = fields.drop_first();
        lemma_field_index(p, key);
        assert forall|j: int| 0 <= j < p.len() implies p[j] == fields[j + 1] by {}
        match field_index(p, key) {
            Some(i) => {
                assert forall|j: int| 0 <= j < i + 1 implies #[trigger] fields[j].0@ != key by {
                    if j > 0 {
                        assert(fields[j] == p[j - 1]);
                    }
                }
            },
            None => {
                assert forall|j: int| 0 <= j < fields.len() implies #[trigger] fields[j].0@ != key by {
                    if j > 0 {
                        assert(fields[j] == p[j - 1]);
                    }
                }
            },
        }
    }
}

impl Json {
    /// The member under `key`, when `self` is an object that has it.
    pub fn get(&self, key: &str) -> (r: Option<&Json>)
        ensures
            r matches Some(v) ==> json_get(*self, key@) == Some(*v),
            r is None ==> json_get(*self, key@) is None,
    {
        match self {
            Json::Object(fields) => {
                proof {
                    lemma_field_index(fields@, key@);
                }
                let k = String::from_str(key);
                let mut i: usize = 0;
                while i < fields.len()
                    invariant
                        *self == Json::Object(*fields),
                        i <= fields@.len(),
                        k@ == key@,
                        forall|j: int| 0 <= j < i ==> #[trigger] fields@[j].0@ != key@,
                    decreases fields@.len() - i,
                {
                    if fields[i].0 == k {
                        proof {
                            lemma_field_index(fields@, key@);
                        }
                        return Some(&fields[i].1);
                    }
                    i = i + 1;
                }
                None
            },
            _ => None,
        }
    }

    /// The text, when `self` is a string.
    pub fn as_str(&self) -> (r: Option<&String>)
        ensures
            match r {
                Some(s) => json_str(Some(*self)) == Some(s@),
                None => json_str(Some(*self)) is None,
            },
    {
        match self {
            Json::Str(s) => Some(s),
            _ => None,
        }
    }

    /// The value, when `self` is a non-negative integer.
    pub fn as_u64(&self) -> (r: Option<u64>)
        ensures
            r == json_u64(Some(*self)),
    {
        match self {
            Json::UInt(n) => Some(*n),
            _ => None,
        }
    }

    /// True iff `self` is `null`.
    pub fn is_null(&self) -> (r: bool)
        ensures
            r == (*self is Null),
    {
        match self {
            Json::Null => true,
            _ => false,
        }
    }

    /// True iff `self` is an object.
    pub fn is_object(&self) -> (r: bool)
        ensures
            r == (*self is Object),
    {
        match self {
            Json::Object(_) => true,
            _ => false,
        }
    }

    /// A string value.
    pub fn text(s: &str) -> (j: Json)
        ensures
            j matches Json::Str(t) && t@ == s@,
    {
        Json::Str(String::from_str(s))
    }
}

/// `j[key]` as text, when `j` is an object whose member under `key` is a
/// string.
pub fn str_field(j: &Json, key: &str) -> (r: Option<String>)
    ensures
        match r {
            Some(s) => json_str(json_get(*j, key@)) == Some(s@),
            None => json_str(json_get(*j, key@)) is None,
        },
{
    match j.get(key) {
        Some(v) => match v.as_str() {
            Some(s) => Some(s.clone()),
            None => None,
        },
        None => None,
    }
}

/// An object with the given members, in order.
pub fn object(fields: Vec<(String, Json)>) -> (j: Json)
    ensures
        j == Json::Object(fields),
{
    Json::Object(fields)
}

/// A member `(key, value)`.
pub fn member(key: &str, value: Json) -> (m: (String, Json))
    ensures
        m.0@ == key@,
        m.1 == value,
{
    (String::from_str(key), value)
}

} // verus!
