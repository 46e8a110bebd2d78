//! JSON values as texts. `serde_json` reads and prints them; what the library
//! decides on is read off the text.
use vstd::prelude::*;
#[allow(unused_imports)]
use vstd::string::*;

#[allow(unused_imports)]
use crate::text::{chars_of, decimal, decimal_text, option_view, same_text};

verus! {

/// A JSON value, as `serde_json` prints it without spaces.
#[derive(Debug, Clone, PartialEq, Eq)]
pub struct JsonValue {
    pub text: String,
}

impl View for JsonValue {
    type V = Seq<char>;

    open spec fn view(&self) -> Seq<char> {
        self.text@
    }
}

impl JsonValue {
    /// A value from its text.
    pub fn of(text: &str) -> (r: JsonValue)
        ensures
            r@ == text@,
    {
        JsonValue { text: text.to_owned() }
    }

    /// The value `null`.
    pub fn null() -> (r: JsonValue)
        ensures
            r@ == "null"@,
    {
        JsonValue::of("null")
    }

    /// A copy of the value.
    pub fn duplicate(&self) -> (r: JsonValue)
        ensures
            r == *self,
    {
        JsonValue { text: self.text.clone() }
    }
}

/// The text of the value that `serde_json::from_str` reads from a text, if it
/// reads one.
pub uninterp spec fn json_parsed(s: Seq<char>) -> Option<Seq<char>>;

/// Calls `serde_json::from_str` for a value and prints what it read; the result
/// is a function of the text alone.
#[verifier::external_body]
pub(crate) fn parse_json(s: &str) -> (r: Option<JsonValue>)
    ensures
        match r {
            Some(v) => json_parsed(s@) == Some(v@),
            None => json_parsed(s@) is None,
        },
{
    match serde_json::from_str::<serde_json::Value>(s) {
        Ok(v) => Some(JsonValue { text: v.to_string() }),
        Err(_) => None,
    }
}

/// The text of the value that a text begins with, if it begins with one.
pub uninterp spec fn json_first(s: Seq<char>) -> Option<Seq<char>>;

/// Takes the first value of `serde_json::Deserializer::into_iter` and prints it;
/// the result is a function of the text alone.
#[verifier::external_body]
pub(crate) fn first_json(s: &str) -> (r: Option<JsonValue>)
    ensures
        match r {
            Some(v) => json_first(s@) == Some(v@),
            None => json_first(s@) is None,
        },
{
    match serde_json::Deserializer::from_str(s).into_iter::<serde_json::Value>().next() {
        Some(Ok(v)) => Some(JsonValue { text: v.to_string() }),
        _ => None,
    }
}

/// The JSON string that stands for a text.
pub uninterp spec fn json_quoted(s: Seq<char>) -> Seq<char>;

/// Prints `serde_json::Value::String`; the result is a function of the text
/// alone, and reads back as it was printed and as the same text.
#[verifier::external_body]
pub(crate) fn quote_json(s: &str) -> (r: JsonValue)
    ensures
        r@ == json_quoted(s@),
        json_string(r@) == Some(s@),
        json_parsed(r@) == Some(r@),
{
    JsonValue { text: serde_json::Value::String(s.to_owned()).to_string() }
}

/// The text of a value with line breaks and indentation.
pub uninterp spec fn json_pretty(s: Seq<char>) -> Seq<char>;

/// Prints a value with `serde_json::to_string_pretty`; a text that is no value
/// is printed as `null`.
#[verifier::external_body]
pub(crate) fn pretty_json(v: &JsonValue) -> (r: String)
    ensures
        r@ == json_pretty(v@),
{
    let value: serde_json::Value = serde_json::from_str(&v.text).unwrap_or_default();
    serde_json::to_string_pretty(&value).unwrap_or_else(|_| value.to_string())
}

/// The text of the value under a name of an object, if there is one.
pub uninterp spec fn json_field(s: Seq<char>, name: Seq<char>) -> Option<Seq<char>>;

/// Calls `serde_json::Value::get` and prints the value that it finds.
#[verifier::external_body]
pub(crate) fn field_of(v: &JsonValue, name: &str) -> (r: Option<JsonValue>)
    ensures
        match r {
            Some(f) => json_field(v@, name@) == Some(f@),
            None => json_field(v@, name@) is None,
        },
{
    let value: serde_json::Value = serde_json::from_str(&v.text).unwrap_or_default();
    value.get(name).map(|f| JsonValue { text: f.to_string() })
}

/// The text of a string value, if the value is a string.
pub uninterp spec fn json_string(s: Seq<char>) -> Option<Seq<char>>;

/// Calls `serde_json::Value::as_str`.
#[verifier::external_body]
pub(crate) fn string_of(v: &JsonValue) -> (r: Option<String>)
    ensures
        option_view(r) == json_string(v@),
{
    let value: serde_json::Value = serde_json::from_str(&v.text).unwrap_or_default();
    value.as_str().map(|s| s.to_owned())
}

/// The text of the object with some names and values.
pub uninterp spec fn json_object(fields: Seq<(Seq<char>, Seq<char>)>) -> Seq<char>;

/// The names and value texts of some fields.
pub open spec fn field_views(fields: Seq<(String, JsonValue)>) -> Seq<(Seq<char>, Seq<char>)> {
    fields.map_values(|f: (String, JsonValue)| (f.0@, f.1@))
}

/// The value under a name of some fields, if there is one.
pub open spec fn entry_value(s: Seq<(Seq<char>, Seq<char>)>, name: Seq<char>) -> Option<Seq<char>>
    decreases s.len(),
{
    if s.len() == 0 {
        None
    } else if s[0].0 == name {
        Some(s[0].1)
    } else {
        entry_value(s.drop_first(), name)
    }
}

/// A value that reads back as it is printed.
pub open spec fn reads_back_whole(v: Seq<char>) -> bool {
    v == "null"@ || json_parsed(v) == Some(v)
}

/// The names differ, and each value reads back as it is printed.
pub open spec fn stable_fields(fields: Seq<(Seq<char>, Seq<char>)>) -> bool {
    &&& forall|i: int, j: int|
        0 <= i < j < fields.len() ==> (#[trigger] fields[i]).0 != (#[trigger] fields[j]).0
    &&& forall|i: int|
        0 <= i < fields.len() ==> reads_back_whole((#[trigger] fields[i]).1)
}

/// The names and values of the object that `serde_json` reads from a text, if it
/// reads one.
pub uninterp spec fn json_entries(s: Seq<char>) -> Option<Seq<(Seq<char>, Seq<char>)>>;

/// Calls `serde_json::from_str` and, of an object, gives the names and prints
/// the values; the result is a function of the text alone.
#[verifier::external_body]
pub(crate) fn read_object(s: &str) -> (r: Option<Vec<(String, JsonValue)>>)
    ensures
        match r {
            Some(fields) => json_entries(s@) == Some(field_views(fields@)),
            None => json_entries(s@) is None,
        },
{
    match serde_json::from_str::<serde_json::Value>(s) {
        Ok(serde_json::Value::Object(map)) => Some(
            map.iter().map(|(k, v)| (k.clone(), JsonValue { text: v.to_string() })).collect(),
        ),
        _ => None,
    }
}

/// The number of items of an array, if a value is one.
pub uninterp spec fn json_count(s: Seq<char>) -> Option<nat>;

/// Calls `serde_json::Value::as_array` and counts the items.
#[verifier::external_body]
pub(crate) fn count_items(v: &JsonValue) -> (r: Option<usize>)
    ensures
        match r {
            Some(n) => json_count(v@) == Some(n as nat),
            None => json_count(v@) is None,
        },
{
    let value: serde_json::Value = serde_json::from_str(&v.text).unwrap_or_default();
    value.as_array().map(|items| items.len())
}

/// Builds a `serde_json::Map` and prints it as an object. An object whose names
/// differ and whose values read back as they are printed is read back as it was
/// printed, and each of its names gives the value that was put in, if the object
/// can be read at all: `serde_json` reads no object that is nested too deep.
#[verifier::external_body]
pub(crate) fn object_json(fields: &Vec<(String, JsonValue)>) -> (r: JsonValue)
    ensures
        r@ == json_object(field_views(fields@)),
        stable_fields(field_views(fields@)) && json_parsed(r@) is Some ==> json_parsed(r@) == Some(
            r@,
        ),
        stable_fields(field_views(fields@)) && json_parsed(r@) is Some ==> forall|i: int|
            0 <= i < fields@.len() ==> json_field(r@, (#[trigger] fields@[i]).0@) == Some(
                fields@[i].1@,
            ),
        stable_fields(field_views(fields@)) && json_entries(r@) is Some ==> forall|name: Seq<char>|
            #[trigger] entry_value(json_entries(r@)->0, name) == entry_value(
                field_views(fields@),
                name,
            ),
{
    let mut map = serde_json::Map::new();
    for (name, value) in fields {
        map.insert(name.clone(), serde_json::from_str(&value.text).unwrap_or_default());
    }
    JsonValue { text: serde_json::Value::Object(map).to_string() }
}

/// The text of the array of some values.
pub uninterp spec fn json_array(values: Seq<Seq<char>>) -> Seq<char>;

/// The texts of some values.
pub open spec fn value_views(values: Seq<JsonValue>) -> Seq<Seq<char>> {
    values.map_values(|v: JsonValue| v@)
}

/// Prints `serde_json::Value::Array`; the result is a function of the values
/// alone.
#[verifier::external_body]
pub(crate) fn array_json(values: &Vec<JsonValue>) -> (r: JsonValue)
    ensures
        r@ == json_array(value_views(values@)),
{
    let items: Vec<serde_json::Value> = values
        .iter()
        .map(|v| serde_json::from_str(&v.text).unwrap_or_default())
        .collect();
    JsonValue { text: serde_json::Value::Array(items).to_string() }
}

/// A field of an object.
pub fn field(name: &str, value: JsonValue) -> (r: (String, JsonValue))
    ensures
        r.0@ == name@,
        r.1 == value,
{
    (name.to_owned(), value)
}

/// The text of a truth value.
pub open spec fn bool_text(b: bool) -> Seq<char> {
    if b {
        "true"@
    } else {
        "false"@
    }
}

impl JsonValue {
    /// A truth value.
    pub fn of_bool(b: bool) -> (r: JsonValue)
        ensures
            r@ == bool_text(b),
    {
        if b {
            JsonValue::of("true")
        } else {
            JsonValue::of("false")
        }
    }

    /// A number.
    pub fn of_number(n: u64) -> (r: JsonValue)
        ensures
            r@ == decimal(n as nat),
    {
        JsonValue { text: decimal_text(n) }
    }
}

// ---- fields of an object ----

/// Fields with a value under a name; one of the same name is replaced.
pub open spec fn entry_set(
    s: Seq<(Seq<char>, Seq<char>)>,
    name: Seq<char>,
    value: Seq<char>,
) -> Seq<(Seq<char>, Seq<char>)>
    decreases s.len(),
{
    if s.len() == 0 {
        seq![(name, value)]
    } else if s[0].0 == name {
        seq![(name, value)] + s.drop_first()
    } else {
        seq![s[0]] + entry_set(s.drop_first(), name, value)
    }
}

/// Fields without those of a name.
pub open spec fn entry_drop(s: Seq<(Seq<char>, Seq<char>)>, name: Seq<char>) -> Seq<
    (Seq<char>, Seq<char>),
>
    decreases s.len(),
{
    if s.len() == 0 {
        s
    } else {
        let before = entry_drop(s.drop_last(), name);
        if s.last().0 == name {
            before
        } else {
            before.push(s.last())
        }
    }
}

/// What setting a field leaves under each name.
pub proof fn lemma_entry_set(
    s: Seq<(Seq<char>, Seq<char>)>,
    name: Seq<char>,
    value: Seq<char>,
    other: Seq<char>,
)
    ensures
        entry_value(entry_set(s, name, value), name) == Some(value),
        other != name ==> entry_value(entry_set(s, name, value), other) == entry_value(s, other),
    decreases s.len(),
{
    let out = entry_set(s, name, value);
    if s.len() == 0 {
        assert(out.drop_first() =~= s);
    } else if s[0].0 == name {
        assert(out.drop_first() =~= s.drop_first());
    } else {
        assert(out.drop_first() =~= entry_set(s.drop_first(), name, value));
        lemma_entry_set(s.drop_first(), name, value, other);
    }
}

proof fn lemma_entry_push(s: Seq<(Seq<char>, Seq<char>)>, e: (Seq<char>, Seq<char>), name: Seq<char>)
    ensures
        entry_value(s.push(e), name) == (if entry_value(s, name) is Some {
            entry_value(s, name)
        } else if e.0 == name {
            Some(e.1)
        } else {
            None
        }),
    decreases s.len(),
{
    if s.len() == 0 {
        assert(s.push(e).drop_first() =~= s);
    } else {
        assert(s.push(e).drop_first() =~= s.drop_first().push(e));
        lemma_entry_push(s.drop_first(), e, name);
    }
}

/// What dropping a field leaves under each name.
pub proof fn lemma_entry_drop(s: Seq<(Seq<char>, Seq<char>)>, name: Seq<char>, other: Seq<char>)
    ensures
        entry_value(entry_drop(s, name), other) == (if other == name {
            None
        } else {
            entry_value(s, other)
        }),
    decreases s.len(),
{
    if s.len() > 0 {
        lemma_entry_drop(s.drop_last(), name, other);
        assert(s =~= s.drop_last().push(s.last()));
        lemma_entry_push(s.drop_last(), s.last(), other);
        lemma_entry_push(entry_drop(s.drop_last(), name), s.last(), other);
    }
}

proof fn lemma_drop_member(s: Seq<(Seq<char>, Seq<char>)>, name: Seq<char>, i: int) -> (k: int)
    requires
        0 <= i < entry_drop(s, name).len(),
    ensures
        0 <= k < s.len(),
        s[k] == entry_drop(s, name)[i],
        i <= k,
    decreases s.len(),
{
    let before = entry_drop(s.drop_last(), name);
    if i < before.len() {
        lemma_drop_member(s.drop_last(), name, i)
    } else {
        lemma_drop_len(s.drop_last(), name);
        s.len() - 1
    }
}

proof fn lemma_drop_len(s: Seq<(Seq<char>, Seq<char>)>, name: Seq<char>)
    ensures
        entry_drop(s, name).len() <= s.len(),
    decreases s.len(),
{
    if s.len() > 0 {
        lemma_drop_len(s.drop_last(), name);
    }
}

/// Dropping a field keeps the others as they were.
pub proof fn lemma_drop_stable(s: Seq<(Seq<char>, Seq<char>)>, name: Seq<char>)
    requires
        stable_fields(s),
    ensures
        stable_fields(entry_drop(s, name)),
    decreases s.len(),
{
    if s.len() > 0 {
        let t = s.drop_last();
        assert(stable_fields(t));
        lemma_drop_stable(t, name);
        let before = entry_drop(t, name);
        let out = entry_drop(s, name);
        assert forall|i: int, j: int| 0 <= i < j < out.len() implies (#[trigger] out[i]).0 != (
        #[trigger] out[j]).0 by {
            let a = lemma_drop_member(t, name, i);
            if j < before.len() {
                assert(before[i].0 != before[j].0);
            } else {
                assert(t[a] == s[a]);
                assert(s[a].0 != s[s.len() - 1].0);
            }
        }
        assert forall|i: int| 0 <= i < out.len() implies reads_back_whole(
            (#[trigger] out[i]).1,
        ) by {
            let a = lemma_drop_member(s, name, i);
            assert(reads_back_whole(s[a].1));
        }
    }
}

/// The value under a name, if there is one.
pub fn get_field<'a>(fields: &'a Vec<(String, JsonValue)>, name: &str) -> (r: Option<&'a JsonValue>)
    ensures
        match r {
            Some(v) => entry_value(field_views(fields@), name@) == Some(v@),
            None => entry_value(field_views(fields@), name@) is None,
        },
{
    let ghost all = field_views(fields@);
    let mut i: usize = 0;
    proof {
        assert(all.skip(0) =~= all);
    }
    while i < fields.len()
        invariant
            i <= fields@.len(),
            all == field_views(fields@),
            entry_value(all, name@) == entry_value(all.skip(i as int), name@),
        decreases fields.len() - i,
    {
        proof {
            assert(all.skip(i as int)[0] == all[i as int]);
            assert(all.skip(i as int).drop_first() =~= all.skip(i as int + 1));
        }
        if same_text(fields[i].0.as_str(), name) {
            return Some(&fields[i].1);
        }
        i += 1;
    }
    None
}

/// Sets the value under a name.
pub fn set_field(fields: &mut Vec<(String, JsonValue)>, name: &str, value: JsonValue)
    ensures
        field_views(final(fields)@) == entry_set(field_views(old(fields)@), name@, value@),
{
    let ghost all = field_views(fields@);
    let ghost (n, v) = (name@, value@);
    let ghost held = fields@;
    let mut i: usize = 0;
    proof {
        assert(all.skip(0) =~= all);
        assert(all.take(0) + entry_set(all, n, v) =~= entry_set(all, n, v));
    }
    while i < fields.len() && !same_text(fields[i].0.as_str(), name)
        invariant
            fields@ == held,
            all == field_views(held),
            n == name@,
            v == value@,
            i <= fields@.len(),
            entry_set(all, n, v) == all.take(i as int) + entry_set(all.skip(i as int), n, v),
        decreases fields.len() - i,
    {
        proof {
            let rest = all.skip(i as int);
            assert(rest[0] == all[i as int]);
            assert(rest.drop_first() =~= all.skip(i + 1));
            assert(all.take(i as int) + (seq![rest[0]] + entry_set(rest.drop_first(), n, v))
                =~= all.take(i + 1) + entry_set(all.skip(i + 1), n, v));
        }
        i += 1;
    }
    let ghost rest = all.skip(i as int);
    if i < fields.len() {
        fields.set(i, field(name, value));
        proof {
            assert(rest[0] == all[i as int]);
            assert(field_views(fields@) =~= all.take(i as int) + (seq![(n, v)]
                + rest.drop_first()));
        }
    } else {
        fields.push(field(name, value));
        proof {
            assert(rest =~= Seq::<(Seq<char>, Seq<char>)>::empty());
            assert(field_views(fields@) =~= all.take(i as int) + seq![(n, v)]);
        }
    }
}

/// A copy of some fields without those of a name.
pub fn copy_without(fields: &Vec<(String, JsonValue)>, name: &str) -> (r: Vec<(String, JsonValue)>)
    ensures
        field_views(r@) == entry_drop(field_views(fields@), name@),
{
    let ghost all = field_views(fields@);
    let mut out: Vec<(String, JsonValue)> = Vec::new();
    let mut i: usize = 0;
    proof {
        assert(field_views(out@) =~= entry_drop(all.take(0), name@));
    }
    while i < fields.len()
        invariant
            i <= fields@.len(),
            all == field_views(fields@),
            field_views(out@) == entry_drop(all.take(i as int), name@),
        decreases fields.len() - i,
    {
        let ghost held = out@;
        proof {
            assert(all.take(i as int + 1).drop_last() =~= all.take(i as int));
        }
        if !same_text(fields[i].0.as_str(), name) {
            let f: (String, JsonValue) = (fields[i].0.clone(), fields[i].1.duplicate());
            out.push(f);
            proof {
                assert(field_views(out@) =~= field_views(held).push((f.0@, f.1@)));
            }
        }
        i += 1;
    }
    proof {
        assert(all.take(i as int) =~= all);
    }
    out
}

// ---- kinds of values ----

/// The kinds of JSON values.
#[derive(Debug, Clone, Copy, PartialEq, Eq, Structural)]
pub enum JsonKind {
    Null,
    Boolean,
    Integer,
    /// A number with a fraction or an exponent.
    Fraction,
    Text,
    Array,
    Object,
}

/// The kind of a value, read off its text.
pub open spec fn kind_of(s: Seq<char>) -> JsonKind {
    if s.len() == 0 || s[0] == 'n' {
        JsonKind::Null
    } else if s[0] == '{' {
        JsonKind::Object
    } else if s[0] == '[' {
        JsonKind::Array
    } else if s[0] == '"' {
        JsonKind::Text
    } else if s[0] == 't' || s[0] == 'f' {
        JsonKind::Boolean
    } else if exists|i: int| 0 <= i < s.len() && (#[trigger] s[i] == '.' || s[i] == 'e') {
        JsonKind::Fraction
    } else {
        JsonKind::Integer
    }
}

impl JsonValue {
    /// The kind of the value.
    #[verifier::loop_isolation(false)]
    pub fn kind(&self) -> (r: JsonKind)
        ensures
            r == kind_of(self@),
    {
        let v: Vec<char> = chars_of(self.text.as_str());
        if v.len() == 0 || v[0] == 'n' {
            return JsonKind::Null;
        }
        if v[0] == '{' {
            return JsonKind::Object;
        }
        if v[0] == '[' {
            return JsonKind::Array;
        }
        if v[0] == '"' {
            return JsonKind::Text;
        }
        if v[0] == 't' || v[0] == 'f' {
            return JsonKind::Boolean;
        }
        let mut i: usize = 0;
        while i < v.len()
            invariant
                i <= v@.len(),
                v@ == self@,
                forall|j: int| 0 <= j < i ==> #[trigger] v@[j] != '.' && v@[j] != 'e',
            decreases v.len() - i,
        {
            if v[i] == '.' || v[i] == 'e' {
                proof {
                    assert(self@[i as int] == '.' || self@[i as int] == 'e');
                }
                return JsonKind::Fraction;
            }
            i += 1;
        }
        JsonKind::Integer
    }
}

} // verus!
