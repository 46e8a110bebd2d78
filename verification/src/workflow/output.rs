//! Finding the JSON value in what an agent wrote.
use vstd::prelude::*;
#[allow(unused_imports)]
use vstd::string::*;

#[allow(unused_imports)]
use crate::json::{
    JsonKind, JsonValue, field_of, first_json, json_field, json_first, json_parsed, json_pretty,
    json_string, kind_of, parse_json, pretty_json, string_of,
};
#[allow(unused_imports)]
use crate::text::{
    cat4, chars_of, find_char, find_text, first_part, lemma_trimmed_twice, option_view, same_text,
    text_between, trim, trimmed, until,
};

verus! {

/// The text between the first code fence and the next: without the rest of the
/// fence's line, where there is one.
pub open spec fn fence_body(s: Seq<char>) -> Option<Seq<char>> {
    match first_part(s, "```"@) {
        None => None,
        Some(start) => {
            let after = s.skip(start + 3);
            let nl = until(after, '\n') as int;
            let body = if nl < after.len() {
                after.skip(nl + 1)
            } else {
                after
            };
            Some(
                trimmed(
                    match first_part(body, "```"@) {
                        Some(end) => body.take(end),
                        None => body,
                    },
                ),
            )
        },
    }
}

/// A character that opens an object or an array.
pub open spec fn opens_value(c: char) -> bool {
    c == '{' || c == '['
}

/// The first value that a `{` or `[` from position `i` on begins.
pub open spec fn embedded_from(s: Seq<char>, i: int) -> Option<Seq<char>>
    decreases s.len() - i,
{
    if i < 0 || i >= s.len() {
        None
    } else if opens_value(s[i]) && json_first(s.skip(i)) is Some {
        json_first(s.skip(i))
    } else {
        embedded_from(s, i + 1)
    }
}

/// The value in a text: the whole of it, else that of the first code fence,
/// else the first that begins inside.
pub open spec fn value_in(text: Seq<char>) -> Option<Seq<char>> {
    let s = trimmed(text);
    if json_parsed(s) is Some {
        json_parsed(s)
    } else if fence_body(s) is Some && json_parsed(fence_body(s)->0) is Some {
        json_parsed(fence_body(s)->0)
    } else {
        embedded_from(s, 0)
    }
}

/// What stands in the first code fence.
pub fn fenced(s: &str) -> (r: Option<String>)
    ensures
        option_view(r) == fence_body(s@),
{
    let v: Vec<char> = chars_of(s);
    proof {
        reveal_strlit("```");
    }
    let start: usize = match find_text(s, "```") {
        Some(i) => i,
        None => {
            return None;
        },
    };
    proof {
        assert(start + 3 <= v.len());
    }
    let from: usize = start + 3;
    let nl: usize = find_char(&v, from, '\n');
    let body_at: usize = if nl < v.len() {
        nl + 1
    } else {
        from
    };
    let body: String = text_between(&v, body_at, v.len());
    proof {
        let after = s@.skip(from as int);
        assert(body@ =~= (if nl < v@.len() {
            after.skip(nl - from + 1)
        } else {
            after
        }));
    }
    match find_text(body.as_str(), "```") {
        Some(end) => {
            proof {
                assert(body@.subrange(0, end as int) =~= body@.take(end as int));
            }
            Some(trim(body.as_str().substring_char(0, end)).to_owned())
        },
        None => Some(trim(body.as_str()).to_owned()),
    }
}

/// Finds the value in a text.
#[verifier::loop_isolation(false)]
pub fn extract_json_value(text: &str) -> (r: Option<JsonValue>)
    ensures
        match r {
            Some(v) => value_in(text@) == Some(v@),
            None => value_in(text@) is None,
        },
{
    let s: &str = trim(text);
    if let Some(v) = parse_json(s) {
        return Some(v);
    }
    if let Some(body) = fenced(s) {
        if let Some(v) = parse_json(body.as_str()) {
            return Some(v);
        }
    }
    let cs: Vec<char> = chars_of(s);
    let mut i: usize = 0;
    while i < cs.len()
        invariant
            i <= cs@.len(),
            cs@ == s@,
            embedded_from(s@, 0) == embedded_from(s@, i as int),
        decreases cs.len() - i,
    {
        if cs[i] == '{' || cs[i] == '[' {
            proof {
                assert(s@.subrange(i as int, s@.len() as int) =~= s@.skip(i as int));
            }
            if let Some(v) = first_json(s.substring_char(i, cs.len())) {
                return Some(v);
            }
        }
        i += 1;
    }
    None
}

/// A value has the type that a schema names at its top; a schema that names no
/// known type takes any value.
pub open spec fn fits_type(value: Seq<char>, wanted: Option<Seq<char>>) -> bool {
    let kind = kind_of(value);
    match wanted {
        None => true,
        Some(t) => {
            &&& t == "object"@ ==> kind == JsonKind::Object
            &&& t == "array"@ ==> kind == JsonKind::Array
            &&& t == "string"@ ==> kind == JsonKind::Text
            &&& t == "number"@ ==> kind == JsonKind::Integer || kind == JsonKind::Fraction
            &&& t == "integer"@ ==> kind == JsonKind::Integer
            &&& t == "boolean"@ ==> kind == JsonKind::Boolean
        },
    }
}

/// Whether a value has the type that a schema names at its top.
pub fn has_type(value: &JsonValue, wanted: &Option<String>) -> (r: bool)
    ensures
        r == fits_type(value@, option_view(*wanted)),
{
    let kind: JsonKind = value.kind();
    match wanted {
        None => true,
        Some(t) => {
            let t: &str = t.as_str();
            if same_text(t, "object") && kind != JsonKind::Object {
                return false;
            }
            if same_text(t, "array") && kind != JsonKind::Array {
                return false;
            }
            if same_text(t, "string") && kind != JsonKind::Text {
                return false;
            }
            if same_text(t, "number") && kind != JsonKind::Integer && kind
                != JsonKind::Fraction {
                return false;
            }
            if same_text(t, "integer") && kind != JsonKind::Integer {
                return false;
            }
            if same_text(t, "boolean") && kind != JsonKind::Boolean {
                return false;
            }
            true
        },
    }
}

/// The type that a schema names at its top.
pub open spec fn schema_type(schema: Seq<char>) -> Option<Seq<char>> {
    match json_field(schema, "type"@) {
        Some(t) => json_string(t),
        None => None,
    }
}

/// The value in an output, if it has the type that the schema names.
pub open spec fn schema_value(output: Seq<char>, schema: Seq<char>) -> Option<Seq<char>> {
    match value_in(output) {
        Some(v) if fits_type(v, schema_type(schema)) => Some(v),
        _ => None,
    }
}

/// Finds the value in an output and holds it against the type that the schema
/// names at its top.
pub fn extract_schema_value(output: &str, schema: &JsonValue) -> (r: Option<JsonValue>)
    ensures
        match r {
            Some(v) => schema_value(output@, schema@) == Some(v@),
            None => schema_value(output@, schema@) is None,
        },
{
    let value: JsonValue = match extract_json_value(output) {
        Some(v) => v,
        None => {
            return None;
        },
    };
    let wanted: Option<String> = match field_of(schema, "type") {
        Some(t) => string_of(&t),
        None => None,
    };
    if has_type(&value, &wanted) {
        Some(value)
    } else {
        None
    }
}

/// A prompt with the demand for a value that fits a schema.
pub open spec fn contract_prompt(prompt: Seq<char>, pretty: Seq<char>) -> Seq<char> {
    prompt
        + "\n\n<output_contract>\nYour FINAL message must be exactly one JSON value that validates against this JSON Schema — no prose before or after it, no code fences:\n"@
        + pretty + "\n</output_contract>"@
}

/// Adds to a prompt the demand for a value that fits a schema.
pub fn prompt_with_output_contract(prompt: &str, schema: &JsonValue) -> (r: String)
    ensures
        r@ == contract_prompt(prompt@, json_pretty(schema@)),
{
    cat4(
        prompt,
        "\n\n<output_contract>\nYour FINAL message must be exactly one JSON value that validates against this JSON Schema — no prose before or after it, no code fences:\n",
        pretty_json(schema).as_str(),
        "\n</output_contract>",
    )
}

// ---- laws ----

/// A value that is taken for a schema is the value of the output, and has the
/// type that the schema names.
pub proof fn law_taken_values_have_the_type(output: Seq<char>, schema: Seq<char>)
    ensures
        schema_value(output, schema) is Some ==> {
            &&& schema_value(output, schema) == value_in(output)
            &&& fits_type(schema_value(output, schema)->0, schema_type(schema))
        },
        value_in(output) is Some && fits_type(value_in(output)->0, schema_type(schema)) ==>
            schema_value(output, schema) is Some,
{
}

/// White space around an output makes no difference.
pub proof fn law_space_around_an_output_is_ignored(output: Seq<char>)
    ensures
        value_in(trimmed(output)) == value_in(output),
{
    lemma_trimmed_twice(output);
}

} // verus!
