//! A JSON document as plain values, and the lookups that the operator
//! bridge makes in the harness tools' JSON reports.

use vstd::prelude::*;
use vstd::string::*;
use crate::script::{opt_view, str_eq, strings_view};

verus! {

broadcast use vstd::string::group_string_axioms;

/// A JSON value. A number is kept as what the reports are read for: its
/// value when it is an integer in `0..=u64::MAX`, else the text it is
/// written as.
#[derive(Debug)]
pub enum JsonValue {
    Null,
    Bool(bool),
    Unsigned(u64),
    OtherNumber(String),
    Str(String),
    Array(Vec<JsonValue>),
    Object(Vec<JsonMember>),
}

/// What serde_json reads from the JSON text `text`: the document it holds,
/// or `None` where the text is no JSON document.
pub uninterp spec fn parsed_json(text: Seq<char>) -> Option<JsonValue>;

/// serde_json's dynamically typed value, which `parse_json` reads a text
/// into before converting it.
#[verifier::external_type_specification]
#[verifier::external_body]
pub struct ExSerdeJsonValue(serde_json::Value);

/// Converts serde_json's value into a `JsonValue`, variant for variant and
/// item for item; a number becomes `Unsigned` where `Number::as_u64` gives
/// it, else the text that its `Display` writes. It is the conversion step
/// of `parse_json`, whose contract speaks for it.
#[verifier::external_body]
fn json_of_serde(value: serde_json::Value) -> JsonValue {
    match value {
        serde_json::Value::Null => JsonValue::Null,
        serde_json::Value::Bool(b) => JsonValue::Bool(b),
        serde_json::Value::Number(n) => match n.as_u64() {
            Some(u) => JsonValue::Unsigned(u),
            None => JsonValue::OtherNumber(n.to_string()),
        },
        serde_json::Value::String(s) => JsonValue::Str(s),
        serde_json::Value::Array(a) => JsonValue::Array(a.into_iter().map(json_of_serde).collect()),
        serde_json::Value::Object(m) => JsonValue::Object(
            m.into_iter().map(|(key, v)| JsonMember { key, value: json_of_serde(v) }).collect(),
        ),
    }
}

/// Calls `serde_json::from_str` for a `serde_json::Value` and converts what
/// it reads into a `JsonValue`. The contract names the document
/// `parsed_json(text)`: `Ok` with it where there is one, else `Err`. The
/// error's text is serde_json's message, of which the contract says nothing.
#[verifier::external_body]
pub(crate) fn parse_json(text: &str) -> (r: Result<JsonValue, String>)
    ensures
        match r {
            Ok(v) => parsed_json(text@) == Some(v),
            Err(_) => parsed_json(text@) is None,
        },
{
    match serde_json::from_str::<serde_json::Value>(text) {
        Ok(v) => Ok(json_of_serde(v)),
        Err(e) => Err(e.to_string()),
    }
}

/// One `"key": value` member of a JSON object.
#[derive(Debug)]
pub struct JsonMember {
    pub key: String,
    pub value: JsonValue,
}

/// Index of the first member named `key`, or `members.len()`.
pub open spec fn json_member_index(members: Seq<JsonMember>, key: Seq<char>) -> nat
    decreases members.len(),
{
    if members.len() == 0 {
        0
    } else if members[0].key@ == key {
        0
    } else {
        1 + json_member_index(members.drop_first(), key)
    }
}

proof fn lemma_json_member_index(members: Seq<JsonMember>, key: Seq<char>, k: int)
    requires
        0 <= k <= members.len(),
        forall|j: int| 0 <= j < k ==> members[j].key@ != key,
        k == members.len() || members[k].key@ == key,
    ensures
        json_member_index(members, key) == k,
    decreases k,
{
    if k > 0 {
        lemma_json_member_index(members.drop_first(), key, k - 1);
    }
}

/// The member `key` of an object (its first one), as `Value::get` finds it.
pub open spec fn json_get(v: JsonValue, key: Seq<char>) -> Option<JsonValue> {
    match v {
        JsonValue::Object(members) => {
            let i = json_member_index(members@, key) as int;
            if i < members@.len() {
                Some(members@[i].value)
            } else {
                None
            }
        },
        _ => None,
    }
}

pub open spec fn json_str(v: JsonValue) -> Option<Seq<char>> {
    match v {
        JsonValue::Str(s) => Some(s@),
        _ => None,
    }
}

pub open spec fn json_bool(v: JsonValue) -> Option<bool> {
    match v {
        JsonValue::Bool(b) => Some(b),
        _ => None,
    }
}

pub open spec fn json_u64(v: JsonValue) -> Option<u64> {
    match v {
        JsonValue::Unsigned(n) => Some(n),
        _ => None,
    }
}

pub open spec fn json_array(v: JsonValue) -> Option<Seq<JsonValue>> {
    match v {
        JsonValue::Array(items) => Some(items@),
        _ => None,
    }
}

/// The string member `key` of `v`.
pub open spec fn field_str(v: JsonValue, key: Seq<char>) -> Option<Seq<char>> {
    match json_get(v, key) {
        Some(x) => json_str(x),
        None => None,
    }
}

/// The boolean member `key` of `v`.
pub open spec fn field_bool(v: JsonValue, key: Seq<char>) -> Option<bool> {
    match json_get(v, key) {
        Some(x) => json_bool(x),
        None => None,
    }
}

/// The strings among `items`, in order; other items are skipped.
pub open spec fn string_items(items: Seq<JsonValue>) -> Seq<Seq<char>>
    decreases items.len(),
{
    if items.len() == 0 {
        seq![]
    } else {
        let rest = string_items(items.drop_last());
        match json_str(items.last()) {
            Some(s) => rest.push(s),
            None => rest,
        }
    }
}

/// The strings of the array member `key` of `v`; empty when there is none.
pub open spec fn field_strings(v: JsonValue, key: Seq<char>) -> Seq<Seq<char>> {
    match json_get(v, key) {
        Some(x) => match json_array(x) {
            Some(items) => string_items(items),
            None => seq![],
        },
        None => seq![],
    }
}

impl JsonValue {
    /// The member `key` of an object, as `Value::get` finds it.
    pub fn get<'a>(&'a self, key: &str) -> (r: Option<&'a JsonValue>)
        ensures
            match r {
                Some(x) => json_get(*self, key@) == Some(*x),
                None => json_get(*self, key@) is None,
            },
    {
        match self {
            JsonValue::Object(members) => {
                let mut i: usize = 0;
                while i < members.len()
                    invariant
                        i <= members@.len(),
                        *self == JsonValue::Object(*members),
                        forall|j: int| 0 <= j < i ==> members@[j].key@ != key@,
                    decreases members@.len() - i,
                {
                    if str_eq(members[i].key.as_str(), key) {
                        proof {
                            lemma_json_member_index(members@, key@, i as int);
                        }
                        return Some(&members[i].value);
                    }
                    i = i + 1;
                }
                proof {
                    lemma_json_member_index(members@, key@, i as int);
                }
                None
            },
            _ => None,
        }
    }

    pub fn as_str(&self) -> (r: Option<&str>)
        ensures
            match r {
                Some(s) => json_str(*self) == Some(s@),
                None => json_str(*self) is None,
            },
    {
        match self {
            JsonValue::Str(s) => Some(s.as_str()),
            _ => None,
        }
    }

    pub fn as_bool(&self) -> (r: Option<bool>)
        ensures
            r == json_bool(*self),
    {
        match self {
            JsonValue::Bool(b) => Some(*b),
            _ => None,
        }
    }

    pub fn as_u64(&self) -> (r: Option<u64>)
        ensures
            r == json_u64(*self),
    {
        match self {
            JsonValue::Unsigned(n) => Some(*n),
            _ => None,
        }
    }

    pub fn as_array(&self) -> (r: Option<&Vec<JsonValue>>)
        ensures
            match r {
                Some(items) => json_array(*self) == Some(items@),
                None => json_array(*self) is None,
            },
    {
        match self {
            JsonValue::Array(items) => Some(items),
            _ => None,
        }
    }
}

/// The string member `key` of `value`, if it is one.
pub fn json_optional_string(value: &JsonValue, key: &str) -> (r: Option<String>)
    ensures
        opt_view(r) == field_str(*value, key@),
{
    match value.get(key) {
        Some(x) => match x.as_str() {
            Some(s) => Some(String::from_str(s)),
            None => None,
        },
        None => None,
    }
}

/// The string member `key` of a tool's report, which must be there.
pub fn json_string(value: &JsonValue, key: &str) -> (r: Result<String, String>)
    ensures
        match field_str(*value, key@) {
            Some(s) => r matches Ok(x) && x@ == s,
            None => r matches Err(m) && m@ == "missing string field in GUI action result: "@
                + key@,
        },
{
    match json_optional_string(value, key) {
        Some(s) => Ok(s),
        None => {
            let mut m = String::from_str("missing string field in GUI action result: ");
            m.append(key);
            Err(m)
        },
    }
}

/// The boolean member `key` of `value`, if it is one.
pub fn json_optional_bool(value: &JsonValue, key: &str) -> (r: Option<bool>)
    ensures
        r == field_bool(*value, key@),
{
    match value.get(key) {
        Some(x) => x.as_bool(),
        None => None,
    }
}

/// The strings of the array member `key` of `value`, in order; other items
/// are skipped, and without such an array there are none.
pub fn read_string_array(value: &JsonValue, key: &str) -> (r: Vec<String>)
    ensures
        strings_view(r@) == field_strings(*value, key@),
{
    let mut out: Vec<String> = Vec::new();
    match value.get(key) {
        Some(x) => match x.as_array() {
            Some(items) => {
                let mut i: usize = 0;
                proof {
                    assert(items@.take(0) =~= seq![]);
                    assert(strings_view(out@) =~= seq![]);
                }
                while i < items.len()
                    invariant
                        i <= items@.len(),
                        strings_view(out@) == string_items(items@.take(i as int)),
                    decreases items@.len() - i,
                {
                    proof {
                        assert(items@.take(i + 1).drop_last() =~= items@.take(i as int));
                        assert(items@.take(i + 1).last() == items@[i as int]);
                    }
                    match items[i].as_str() {
                        Some(s) => {
                            let ghost before = out@;
                            out.push(String::from_str(s));
                            proof {
                                assert(strings_view(out@) =~= strings_view(before).push(s@));
                            }
                        },
                        None => {},
                    }
                    i = i + 1;
                }
                proof {
                    assert(items@.take(items@.len() as int) =~= items@);
                }
            },
            None => {
                proof {
                    assert(strings_view(out@) =~= seq![]);
                }
            },
        },
        None => {
            proof {
                assert(strings_view(out@) =~= seq![]);
            }
        },
    }
    out
}

} // verus!
