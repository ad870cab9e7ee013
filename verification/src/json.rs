use vstd::prelude::*;

use serde_json::Value;

verus! {

#[verifier::external_type_specification]
#[verifier::external_body]
pub struct ExValue(serde_json::Value);

/// A JSON value as the session logic reads it. An object keeps its members
/// in the order the JSON library gives them; a number keeps its text.
#[derive(Debug)]
pub enum JsonValue {
    Null,
    Bool(bool),
    Number(String),
    Str(String),
    Array(Vec<JsonValue>),
    Object(Vec<JsonMember>),
}

/// A member of a JSON object.
#[derive(Debug)]
pub struct JsonMember {
    pub key: String,
    pub value: JsonValue,
}

/// The value `serde_json` reads from a JSON text; `None` when the text is not
/// JSON.
pub uninterp spec fn spec_parse_json(text: Seq<char>) -> Option<JsonValue>;

/// The compact JSON text `serde_json` writes for a value; `None` when it
/// reports an error.
pub uninterp spec fn spec_json_text(value: JsonValue) -> Option<Seq<char>>;

/// Converts a `serde_json::Value` one for one (a number by its `Display`
/// text, an object member by member in the map's order).
#[verifier::external_body]
fn from_serde(v: &Value) -> JsonValue {
    match v {
        Value::Null => JsonValue::Null,
        Value::Bool(b) => JsonValue::Bool(*b),
        Value::Number(n) => JsonValue::Number(n.to_string()),
        Value::String(s) => JsonValue::Str(s.clone()),
        Value::Array(a) => JsonValue::Array(a.iter().map(from_serde).collect()),
        Value::Object(m) => JsonValue::Object(m.iter().map(|(k, x)| JsonMember { key: k.clone(), value: from_serde(x) }).collect()),
    }
}

/// Converts back to a `serde_json::Value` one for one (a number text through
/// `Number::from_str`, `Null` when that text is no number).
#[verifier::external_body]
fn to_serde(v: &JsonValue) -> Value {
    match v {
        JsonValue::Null => Value::Null,
        JsonValue::Bool(b) => Value::Bool(*b),
        JsonValue::Number(n) => n.parse::<serde_json::Number>().map(Value::Number).unwrap_or(Value::Null),
        JsonValue::Str(s) => Value::String(s.clone()),
        JsonValue::Array(a) => Value::Array(a.iter().map(to_serde).collect()),
        JsonValue::Object(m) => Value::Object(m.iter().map(|x| (x.key.clone(), to_serde(&x.value))).collect()),
    }
}

/// Calls `serde_json::from_str::<Value>`; the result is named by the text.
#[verifier::external_body]
fn parse_json(text: &str) -> (r: Option<JsonValue>)
    ensures
        r == spec_parse_json(text@),
{
    match serde_json::from_str::<Value>(text) {
        Ok(v) => Some(from_serde(&v)),
        Err(_) => None,
    }
}

/// Calls `serde_json::to_string` on the value; the result is named by the
/// value.
#[verifier::external_body]
fn json_text(value: &JsonValue) -> (r: Option<String>)
    ensures
        match r {
            Some(s) => spec_json_text(*value) == Some(s@),
            None => spec_json_text(*value).is_none(),
        },
{
    match serde_json::to_string(&to_serde(value)) {
        Ok(s) => Some(s),
        Err(_) => None,
    }
}

/// The JSON value of a line of text, if it is JSON.
pub fn parse_json_line(line: &str) -> (r: Option<JsonValue>)
    ensures
        r == spec_parse_json(line@),
{
    parse_json(line)
}

/// A payload as stored for search: empty for `null`, else its compact JSON
/// text (`{"invalid":true}` if that cannot be written).
pub open spec fn compact_json_of(v: JsonValue) -> Seq<char> {
    if v is Null {
        seq![]
    } else {
        match spec_json_text(v) {
            Some(t) => t,
            None => "{\"invalid\":true}"@,
        }
    }
}

/// A payload as stored for search.
pub fn compact_json(v: &JsonValue) -> (r: String)
    ensures
        r@ == compact_json_of(*v),
{
    if let JsonValue::Null = v {
        return String::new();
    }
    match json_text(v) {
        Some(s) => s,
        None => "{\"invalid\":true}".to_owned(),
    }
}

/// The position of the first member named `key`.
pub open spec fn member_index(fields: Seq<JsonMember>, key: Seq<char>) -> Option<int>
    decreases fields.len(),
{
    if fields.len() == 0 {
        None
    } else {
        match member_index(fields.drop_last(), key) {
            Some(i) => Some(i),
            None => if fields.last().key@ == key {
                Some(fields.len() - 1)
            } else {
                None
            },
        }
    }
}

pub proof fn lemma_member_index_range(fields: Seq<JsonMember>, key: Seq<char>)
    ensures
        member_index(fields, key) matches Some(i) ==> 0 <= i < fields.len() && fields[i].key@ == key,
        member_index(fields, key) is None ==> forall|j: int|
            0 <= j < fields.len() ==> (#[trigger] fields[j]).key@ != key,
    decreases fields.len(),
{
    if fields.len() > 0 {
        lemma_member_index_range(fields.drop_last(), key);
        assert forall|j: int| 0 <= j < fields.len() - 1 implies #[trigger] fields[j] == fields.drop_last()[j] by {}
    }
}

/// The member `key` of an object (`Value::get`); `None` for other values.
pub open spec fn get(v: JsonValue, key: Seq<char>) -> Option<JsonValue> {
    match v {
        JsonValue::Object(fields) => match member_index(fields@, key) {
            Some(i) => Some(fields@[i].value),
            None => None,
        },
        _ => None,
    }
}

/// The member `key` of an object when it is a string (`get` then
/// `as_str`).
pub open spec fn get_str(v: JsonValue, key: Seq<char>) -> Option<Seq<char>> {
    match get(v, key) {
        Some(JsonValue::Str(s)) => Some(s@),
        _ => None,
    }
}

/// The position of the member `key` of an object.
pub fn find_member(fields: &Vec<JsonMember>, key: &str) -> (r: Option<usize>)
    ensures
        match r {
            Some(i) => member_index(fields@, key@) == Some(i as int),
            None => member_index(fields@, key@) is None,
        },
{
    let mut i: usize = 0;
    while i < fields.len()
        invariant
            i <= fields.len(),
            forall|j: int| 0 <= j < i ==> (#[trigger] fields@[j]).key@ != key@,
        decreases fields.len() - i,
    {
        if crate::text::str_eq(fields[i].key.as_str(), key) {
            proof {
                lemma_member_index_first(fields@, key@, i as int);
            }
            return Some(i);
        }
        i += 1;
    }
    proof {
        lemma_member_index_none(fields@, key@);
    }
    None
}

proof fn lemma_member_index_first(fields: Seq<JsonMember>, key: Seq<char>, i: int)
    requires
        0 <= i < fields.len(),
        fields[i].key@ == key,
        forall|j: int| 0 <= j < i ==> (#[trigger] fields[j]).key@ != key,
    ensures
        member_index(fields, key) == Some(i),
    decreases fields.len(),
{
    if i < fields.len() - 1 {
        lemma_member_index_first(fields.drop_last(), key, i);
    } else {
        lemma_member_index_none(fields.drop_last(), key);
    }
}

proof fn lemma_member_index_none(fields: Seq<JsonMember>, key: Seq<char>)
    requires
        forall|j: int| 0 <= j < fields.len() ==> (#[trigger] fields[j]).key@ != key,
    ensures
        member_index(fields, key) is None,
    decreases fields.len(),
{
    if fields.len() > 0 {
        assert forall|j: int| 0 <= j < fields.len() - 1 implies (#[trigger] fields.drop_last()[j]).key@
            != key by {
            assert(fields.drop_last()[j] == fields[j]);
        }
        lemma_member_index_none(fields.drop_last(), key);
        assert(fields.last() == fields[fields.len() - 1]);
    }
}

/// The member `key` of an object (`Value::get`).
pub fn json_get<'a>(v: &'a JsonValue, key: &str) -> (r: Option<&'a JsonValue>)
    ensures
        match r {
            Some(x) => get(*v, key@) == Some(*x),
            None => get(*v, key@) is None,
        },
{
    match v {
        JsonValue::Object(fields) => match find_member(fields, key) {
            Some(i) => {
                proof {
                    lemma_member_index_range(fields@, key@);
                }
                Some(&fields[i].value)
            },
            None => None,
        },
        _ => None,
    }
}

/// The member `key` of an object when it is a string.
pub fn json_get_str<'a>(v: &'a JsonValue, key: &str) -> (r: Option<&'a str>)
    ensures
        match r {
            Some(s) => get_str(*v, key@) == Some(s@),
            None => get_str(*v, key@) is None,
        },
{
    match json_get(v, key) {
        Some(JsonValue::Str(s)) => Some(s.as_str()),
        _ => None,
    }
}

/// No member before the one `member_index` finds has the key.
pub proof fn lemma_member_index_earliest(fields: Seq<JsonMember>, key: Seq<char>)
    ensures
        member_index(fields, key) matches Some(k) ==> forall|j: int| 0 <= j < k ==> (#[trigger] fields[j]).key@ != key,
    decreases fields.len(),
{
    if fields.len() > 0 {
        lemma_member_index_earliest(fields.drop_last(), key);
        lemma_member_index_range(fields.drop_last(), key);
        assert forall|j: int| 0 <= j < fields.len() - 1 implies #[trigger] fields[j] == fields.drop_last()[j] by {}
    }
}

} // verus!
