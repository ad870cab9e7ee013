use vstd::prelude::*;

use crate::json::{
    compact_json, compact_json_of, find_member, get, get_str, json_get, json_get_str,
    member_index, JsonMember, JsonValue,
};
use crate::search_meta::{join_strings, views};
use crate::text::{join, normalize_text, normalized, trim, trimmed};

verus! {

/// A text as a fragment: its trimmed form when that is not empty.
pub open spec fn text_fragment(t: Seq<char>) -> Seq<Seq<char>> {
    if trimmed(t).len() > 0 {
        seq![trimmed(t)]
    } else {
        seq![]
    }
}

/// The fragment of an optional text.
pub open spec fn opt_fragment(o: Option<Seq<char>>) -> Seq<Seq<char>> {
    match o {
        Some(t) => text_fragment(t),
        None => seq![],
    }
}

/// The text fragments of a JSON value, in document order: a non-blank string
/// (trimmed); the fragments of each array item; of an object, its non-blank
/// string members `text`, `message`, `arguments`, `output`, then the
/// fragments of its `summary` member.
pub open spec fn fragments(v: JsonValue) -> Seq<Seq<char>>
    decreases v,
{
    match v {
        JsonValue::Str(t) => text_fragment(t@),
        JsonValue::Array(items) => fragments_of_items(items@),
        JsonValue::Object(fields) => named_string_fragments(v) + summary_fragments(fields@),
        _ => seq![],
    }
}

/// The fragments of a list of values, one after another.
pub open spec fn fragments_of_items(items: Seq<JsonValue>) -> Seq<Seq<char>>
    decreases items,
{
    if items.len() == 0 {
        seq![]
    } else {
        fragments_of_items(items.drop_last()) + fragments(items.last())
    }
}

/// The fragments of the `summary` member of an object, if it has one.
pub open spec fn summary_fragments(fields: Seq<JsonMember>) -> Seq<Seq<char>>
    decreases fields,
{
    match member_index(fields, "summary"@) {
        Some(i) => if 0 <= i < fields.len() {
            fragments(fields[i].value)
        } else {
            seq![]
        },
        None => seq![],
    }
}

/// Appends the fragment of `text`, if any.
fn push_fragment(out: &mut Vec<String>, text: &str)
    ensures
        views(final(out)@) == views(old(out)@) + text_fragment(text@),
{
    let t = trim(text);
    if !t.as_str().is_empty() {
        let ghost before = views(out@);
        out.push(t);
        assert(views(out@) =~= before + seq![trimmed(text@)]);
    } else {
        assert(views(out@) =~= views(out@) + seq![]);
    }
}

/// Appends the fragment of an optional text, if any.
fn push_opt_fragment(out: &mut Vec<String>, text: Option<&str>)
    ensures
        views(final(out)@) == views(old(out)@) + opt_fragment(
            match text {
                Some(t) => Some(t@),
                None => None,
            },
        ),
{
    match text {
        Some(t) => push_fragment(out, t),
        None => {
            assert(views(out@) =~= views(out@) + seq![]);
        },
    }
}

/// Appends the text fragments of `value` (see `fragments`).
pub fn collect_text_fragments(value: &JsonValue, out: &mut Vec<String>)
    ensures
        views(final(out)@) == views(old(out)@) + fragments(*value),
    decreases value, 1nat,
{
    match value {
        JsonValue::Str(t) => push_fragment(out, t.as_str()),
        JsonValue::Array(items) => {
            collect_items(items, out);
        },
        JsonValue::Object(_) => {
            collect_object(value, out);
        },
        _ => {
            assert(views(out@) =~= views(out@) + seq![]);
        },
    }
}

/// Appends the text fragments of an object.
fn collect_object(value: &JsonValue, out: &mut Vec<String>)
    requires
        *value is Object,
    ensures
        views(final(out)@) == views(old(out)@) + fragments(*value),
    decreases value, 0nat,
{
    let ghost start = views(out@);
    collect_named_strings(value, out);
    let ghost mid = views(out@);
    if let JsonValue::Object(fields) = value {
        match find_member(fields, "summary") {
            Some(i) => {
                proof {
                    crate::json::lemma_member_index_range(fields@, "summary"@);
                }
                collect_text_fragments(&fields[i].value, out);
                assert(summary_fragments(fields@) == fragments(fields@[i as int].value));
            },
            None => {
                assert(views(out@) =~= mid + seq![]);
            },
        }
        assert(views(out@) =~= mid + summary_fragments(fields@));
        assert(fragments(*value) == named_string_fragments(*value) + summary_fragments(fields@));
        assert(views(out@) =~= start + fragments(*value));
    }
}

/// The fragments of the string members `text`, `message`, `arguments` and
/// `output` of an object.
pub open spec fn named_string_fragments(v: JsonValue) -> Seq<Seq<char>> {
    opt_fragment(get_str(v, "text"@)) + opt_fragment(get_str(v, "message"@)) + opt_fragment(
        get_str(v, "arguments"@),
    ) + opt_fragment(get_str(v, "output"@))
}

/// Appends the fragments of the named string members of an object.
fn collect_named_strings(value: &JsonValue, out: &mut Vec<String>)
    ensures
        views(final(out)@) == views(old(out)@) + named_string_fragments(*value),
{
    let ghost start = views(out@);
    push_opt_fragment(out, json_get_str(value, "text"));
    push_opt_fragment(out, json_get_str(value, "message"));
    push_opt_fragment(out, json_get_str(value, "arguments"));
    push_opt_fragment(out, json_get_str(value, "output"));
    assert(views(out@) =~= start + named_string_fragments(*value));
}

/// Appends the text fragments of each item.
fn collect_items(items: &Vec<JsonValue>, out: &mut Vec<String>)
    ensures
        views(final(out)@) == views(old(out)@) + fragments_of_items(items@),
    decreases items, 2nat,
{
    let ghost start = views(out@);
    let mut i: usize = 0;
    while i < items.len()
        invariant
            i <= items.len(),
            views(out@) == start + fragments_of_items(items@.take(i as int)),
        decreases items.len() - i,
    {
        let ghost prev = views(out@);
        assert(items@.take(i + 1 as int).drop_last() == items@.take(i as int));
        assert(items@.take(i + 1 as int).last() == items@[i as int]);
        collect_text_fragments(&items[i], out);
        assert(views(out@) =~= start + fragments_of_items(items@.take(i + 1 as int)));
        i += 1;
    }
    assert(items@.take(items.len() as int) == items@);
}

/// The text of a message payload: the fragments of its `content` items, or,
/// when those give none, of the payload itself; joined by new lines and
/// whitespace-normalized.
pub open spec fn message_text(payload: JsonValue) -> Seq<char> {
    let parts = match get(payload, "content"@) {
        Some(JsonValue::Array(items)) => fragments_of_items(items@),
        _ => seq![],
    };
    let parts = if parts.len() == 0 {
        fragments(payload)
    } else {
        parts
    };
    normalized(join(parts, "\n"@))
}

/// The text of a message payload.
pub fn extract_message_text(payload: &JsonValue) -> (r: String)
    ensures
        r@ == message_text(*payload),
{
    let mut parts: Vec<String> = Vec::new();
    assert(views(parts@) =~= seq![]);
    if let Some(JsonValue::Array(items)) = json_get(payload, "content") {
        collect_items(items, &mut parts);
    }
    if parts.len() == 0 {
        collect_text_fragments(payload, &mut parts);
    }
    let joined = join_strings(parts.as_slice(), "\n");
    normalize_text(joined.as_str())
}

/// `s`, or `d` when it is absent.
pub open spec fn or_default(s: Option<Seq<char>>, d: Seq<char>) -> Seq<char> {
    match s {
        Some(x) => x,
        None => d,
    }
}

/// The summary stored for a `response_item` that is not a message.
/// A `function_call` shows its name (`tool` when absent) and normalized
/// arguments; a `function_call_output` its normalized output, else the
/// payload's JSON; `reasoning` its summary fragments joined by spaces, else
/// the payload's JSON; anything else its message text, else the payload's
/// JSON.
pub open spec fn response_summary(payload: JsonValue) -> Seq<char> {
    let ptype = or_default(get_str(payload, "type"@), "response_item"@);
    if ptype == "function_call"@ {
        let name = or_default(get_str(payload, "name"@), "tool"@);
        let args = match get_str(payload, "arguments"@) {
            Some(a) => normalized(a),
            None => seq![],
        };
        if args.len() == 0 {
            "function_call "@ + name
        } else {
            "function_call "@ + name + " "@ + args
        }
    } else if ptype == "function_call_output"@ {
        let output = match get_str(payload, "output"@) {
            Some(o) => normalized(o),
            None => compact_json_of(payload),
        };
        "function_call_output "@ + output
    } else if ptype == "reasoning"@ {
        let parts = match get(payload, "summary"@) {
            Some(s) => fragments(s),
            None => seq![],
        };
        if parts.len() == 0 {
            compact_json_of(payload)
        } else {
            normalized(join(parts, " "@))
        }
    } else {
        let text = message_text(payload);
        if text.len() == 0 {
            compact_json_of(payload)
        } else {
            text
        }
    }
}

/// `a` followed by `b`.
fn concat(a: &str, b: &str) -> (r: String)
    ensures
        r@ == a@ + b@,
{
    let mut s = a.to_owned();
    s.append(b);
    s
}

/// The summary stored for a `response_item` that is not a message.
pub fn summarize_response_item(payload: &JsonValue) -> (r: String)
    ensures
        r@ == response_summary(*payload),
{
    let ptype = match json_get_str(payload, "type") {
        Some(t) => t,
        None => "response_item",
    };
    if crate::text::str_eq(ptype, "function_call") {
        let name = match json_get_str(payload, "name") {
            Some(n) => n,
            None => "tool",
        };
        let args = match json_get_str(payload, "arguments") {
            Some(a) => normalize_text(a),
            None => String::new(),
        };
        let head = concat("function_call ", name);
        if args.as_str().is_empty() {
            head
        } else {
            let with_space = concat(head.as_str(), " ");
            concat(with_space.as_str(), args.as_str())
        }
    } else if crate::text::str_eq(ptype, "function_call_output") {
        let output = match json_get_str(payload, "output") {
            Some(o) => normalize_text(o),
            None => compact_json(payload),
        };
        concat("function_call_output ", output.as_str())
    } else if crate::text::str_eq(ptype, "reasoning") {
        let mut parts: Vec<String> = Vec::new();
        assert(views(parts@) =~= seq![]);
        if let Some(s) = json_get(payload, "summary") {
            collect_text_fragments(s, &mut parts);
        }
        if parts.len() == 0 {
            compact_json(payload)
        } else {
            let joined = join_strings(parts.as_slice(), " ");
            normalize_text(joined.as_str())
        }
    } else {
        let text = extract_message_text(payload);
        if text.as_str().is_empty() {
            compact_json(payload)
        } else {
            text
        }
    }
}

/// The summary stored for an `event_msg`: its normalized `message`, else its
/// normalized `text`, else the payload's JSON.
pub open spec fn event_summary(payload: JsonValue) -> Seq<char> {
    match get_str(payload, "message"@) {
        Some(t) => normalized(t),
        None => match get_str(payload, "text"@) {
            Some(t) => normalized(t),
            None => compact_json_of(payload),
        },
    }
}

/// The summary stored for an `event_msg`.
pub fn summarize_event_payload(payload: &JsonValue) -> (r: String)
    ensures
        r@ == event_summary(*payload),
{
    if let Some(t) = json_get_str(payload, "message") {
        return normalize_text(t);
    }
    if let Some(t) = json_get_str(payload, "text") {
        return normalize_text(t);
    }
    compact_json(payload)
}

/// `label` followed by the value, when there is one.
pub open spec fn labeled(label: Seq<char>, o: Option<Seq<char>>) -> Seq<Seq<char>> {
    match o {
        Some(x) => seq![label + x],
        None => seq![],
    }
}

/// The summary stored for a `turn_context`: `cwd=`, `model=` and
/// `approval=` of the string members `cwd`, `model`, `approval_policy` it
/// has, joined by spaces; the payload's JSON when it has none.
pub open spec fn turn_context_summary(payload: JsonValue) -> Seq<char> {
    let parts = labeled("cwd="@, get_str(payload, "cwd"@)) + labeled(
        "model="@,
        get_str(payload, "model"@),
    ) + labeled("approval="@, get_str(payload, "approval_policy"@));
    if parts.len() == 0 {
        compact_json_of(payload)
    } else {
        join(parts, " "@)
    }
}

/// Appends `label` followed by the value, when there is one.
fn push_labeled(out: &mut Vec<String>, label: &str, value: Option<&str>)
    ensures
        views(final(out)@) == views(old(out)@) + labeled(
            label@,
            match value {
                Some(v) => Some(v@),
                None => None,
            },
        ),
{
    let ghost before = views(out@);
    if let Some(v) = value {
        out.push(concat(label, v));
        assert(views(out@) =~= before + seq![label@ + v@]);
    } else {
        assert(views(out@) =~= before + seq![]);
    }
}

/// The summary stored for a `turn_context`.
pub fn summarize_turn_context(payload: &JsonValue) -> (r: String)
    ensures
        r@ == turn_context_summary(*payload),
{
    let mut parts: Vec<String> = Vec::new();
    assert(views(parts@) =~= seq![]);
    push_labeled(&mut parts, "cwd=", json_get_str(payload, "cwd"));
    push_labeled(&mut parts, "model=", json_get_str(payload, "model"));
    push_labeled(&mut parts, "approval=", json_get_str(payload, "approval_policy"));
    if parts.len() == 0 {
        compact_json(payload)
    } else {
        join_strings(parts.as_slice(), " ")
    }
}

} // verus!
