//! Function calls on their way: what a call carries besides its name and
//! arguments travels in its id.
use vstd::prelude::*;
#[allow(unused_imports)]
use vstd::string::*;

#[allow(unused_imports)]
use crate::json::{
    JsonValue, copy_without, count_items, entry_drop, entry_set, entry_value, field_views,
    get_field, json_count, json_entries, json_object, json_parsed, json_quoted, json_string,
    lemma_drop_stable, lemma_entry_drop, lemma_entry_set, object_json, parse_json, quote_json,
    read_object, set_field, stable_fields, string_of,
};
#[allow(unused_imports)]
use crate::text::{
    byte_count, byte_len, cat5, char_index, chars_of, decimal, decimal_text, find_char,
    find_char_index, has_prefix, is_digit, lemma_byte_len_sum, lemma_char_index,
    lemma_decimal_reads_back, option_view, parse_u64, same_text, strip_prefix, text_between,
    unsigned_value, until,
};

verus! {

/// How the id of a call that carries more begins.
pub const FUNCTION_ID_PREFIX: &'static str = "__codex_function_call__";

/// Whether a message to an agent is encrypted.
#[derive(Debug, Clone, Copy, PartialEq, Eq, Structural)]
pub struct NativeMessageEncryption(pub bool);

/// The names and values of an object.
pub type Fields = Seq<(Seq<char>, Seq<char>)>;

/// The text under a name, if there is one.
pub open spec fn text_at(item: Fields, name: Seq<char>) -> Option<Seq<char>> {
    match entry_value(item, name) {
        Some(v) => json_string(v),
        None => None,
    }
}

/// The number of items of the array under a name, if there is one.
pub open spec fn count_at(item: Fields, name: Seq<char>) -> Option<nat> {
    match entry_value(item, name) {
        Some(v) => json_count(v),
        None => None,
    }
}

/// What an id carries: the plain id, and the fields besides.
pub open spec fn decoded(id: Seq<char>) -> Option<(Seq<char>, Fields)> {
    if !has_prefix(id, FUNCTION_ID_PREFIX@) {
        None
    } else {
        let rest = id.skip(FUNCTION_ID_PREFIX@.len() as int);
        let k = until(rest, ':') as int;
        if k >= rest.len() {
            None
        } else {
            let n = unsigned_value(rest.take(k));
            let payload = rest.skip(k + 1);
            if n is None || n->0 > u64::MAX {
                None
            } else {
                match char_index(payload, n->0) {
                    None => None,
                    Some(c) => match json_entries(payload.skip(c)) {
                        None => None,
                        Some(fields) => Some((payload.take(c), fields)),
                    },
                }
            }
        }
    }
}

fn read_text(fields: &Vec<(String, JsonValue)>, name: &str) -> (r: Option<String>)
    ensures
        option_view(r) == text_at(field_views(fields@), name@),
{
    match get_field(fields, name) {
        Some(v) => string_of(v),
        None => None,
    }
}

fn read_count(fields: &Vec<(String, JsonValue)>, name: &str) -> (r: Option<usize>)
    ensures
        match r {
            Some(n) => count_at(field_views(fields@), name@) == Some(n as nat),
            None => count_at(field_views(fields@), name@) is None,
        },
{
    match get_field(fields, name) {
        Some(v) => count_items(v),
        None => None,
    }
}

/// What an id carries, if it carries more.
pub fn decode_function_call_id(id: &str) -> (r: Option<(String, Vec<(String, JsonValue)>)>)
    ensures
        match r {
            Some((call_id, fields)) => decoded(id@) == Some((call_id@, field_views(fields@))),
            None => decoded(id@) is None,
        },
{
    let rest: &str = match strip_prefix(id, FUNCTION_ID_PREFIX) {
        Some(r) => r,
        None => {
            return None;
        },
    };
    let cs: Vec<char> = chars_of(rest);
    let k: usize = find_char(&cs, 0, ':');
    proof {
        assert(cs@.skip(0) =~= rest@);
    }
    if k >= cs.len() {
        return None;
    }
    let digits: String = text_between(&cs, 0, k);
    let after: String = text_between(&cs, k + 1, cs.len());
    proof {
        assert(digits@ =~= rest@.take(k as int));
        assert(after@ =~= rest@.skip(k as int + 1));
    }
    let length: u64 = match parse_u64(digits.as_str()) {
        Some(n) => n,
        None => {
            return None;
        },
    };
    let payload: Vec<char> = chars_of(after.as_str());
    if length > byte_count(after.as_str()) as u64 {
        proof {
            lemma_char_index_bound(payload@, length as int);
        }
        return None;
    }
    let c: usize = match find_char_index(&payload, length as usize) {
        Some(c) => c,
        None => {
            return None;
        },
    };
    let call_id: String = text_between(&payload, 0, c);
    let tail: String = text_between(&payload, c, payload.len());
    proof {
        assert(call_id@ =~= payload@.take(c as int));
        assert(tail@ =~= payload@.skip(c as int));
    }
    match read_object(tail.as_str()) {
        Some(fields) => Some((call_id, fields)),
        None => None,
    }
}

proof fn lemma_char_index_bound(s: Seq<char>, n: int)
    ensures
        char_index(s, n) is Some ==> n <= byte_len(s),
    decreases s.len(),
{
    if n != 0 && s.len() > 0 && n >= byte_len(seq![s[0]]) {
        lemma_char_index_bound(s.drop_first(), n - byte_len(seq![s[0]]));
        lemma_byte_len_sum(seq![s[0]], s.drop_first());
        assert(seq![s[0]] + s.drop_first() =~= s);
    }
}

/// The tools whose calls always carry more.
pub open spec fn native_name(name: Option<Seq<char>>) -> bool {
    name is Some && (name->0 == "spawn_agent"@ || name->0 == "send_message"@ || name->0
        == "followup_task"@ || name->0 == "list_agents"@ || name->0 == "wait_agent"@ || name->0
        == "interrupt_agent"@)
}

fn is_native(name: &str) -> (r: bool)
    ensures
        r == native_name(Some(name@)),
{
    same_text(name, "spawn_agent") || same_text(name, "send_message") || same_text(
        name,
        "followup_task",
    ) || same_text(name, "list_agents") || same_text(name, "wait_agent") || same_text(
        name,
        "interrupt_agent",
    )
}

/// The fields that an id carries: not those that a call has in any case.
pub open spec fn carried(item: Fields) -> Fields {
    entry_drop(
        entry_drop(entry_drop(entry_drop(item, "type"@), "call_id"@), "name"@),
        "arguments"@,
    )
}

/// The id that carries the other fields of a call.
pub open spec fn carrying_id(call_id: Seq<char>, item: Fields) -> Seq<char> {
    FUNCTION_ID_PREFIX@ + decimal(byte_len(call_id)) + ":"@ + call_id + json_object(carried(item))
}

/// A call is to carry more: a function call whose id does not carry anything
/// yet, to a tool of the team or with encrypted arguments.
pub open spec fn to_encode(item: Fields) -> bool {
    &&& text_at(item, "type"@) == Some("function_call"@)
    &&& text_at(item, "call_id"@) is Some
    &&& decoded(text_at(item, "call_id"@)->0) is None
    &&& native_name(text_at(item, "name"@)) || (count_at(item, "encrypted_function_args"@) is Some
        && count_at(item, "encrypted_function_args"@)->0 > 0)
}

/// A call on its way.
pub open spec fn encoded(item: Fields) -> Fields {
    if to_encode(item) {
        entry_set(
            item,
            "call_id"@,
            json_quoted(carrying_id(text_at(item, "call_id"@)->0, item)),
        )
    } else {
        item
    }
}

/// An object with some fields can be read, and has the same fields then.
pub open spec fn reads_back(fields: Fields) -> bool {
    &&& json_entries(json_object(fields)) is Some
    &&& forall|name: Seq<char>|
        #[trigger] entry_value(json_entries(json_object(fields))->0, name) == entry_value(
            fields,
            name,
        )
}

/// Lets the id of a call carry its other fields. An object of fields that each
/// read back as they are printed reads back too, if it can be read.
pub fn encode_function_call(item: &mut Vec<(String, JsonValue)>)
    ensures
        field_views(final(item)@) == encoded(field_views(old(item)@)),
        to_encode(field_views(old(item)@)) ==> {
            let before = field_views(old(item)@);
            let id = carrying_id(text_at(before, "call_id"@)->0, before);
            json_string(json_quoted(id)) == Some(id)
        },
        to_encode(field_views(old(item)@)) && stable_fields(field_views(old(item)@))
            && json_entries(json_object(carried(field_views(old(item)@)))) is Some ==> reads_back(
            carried(field_views(old(item)@)),
        ),
{
    let ghost before = field_views(item@);
    match read_text(item, "type") {
        Some(t) => {
            if !same_text(t.as_str(), "function_call") {
                return;
            }
        },
        None => {
            return;
        },
    }
    let call_id: String = match read_text(item, "call_id") {
        Some(id) => id,
        None => {
            return;
        },
    };
    if decode_function_call_id(call_id.as_str()).is_some() {
        return;
    }
    let native: bool = match read_text(item, "name") {
        Some(name) => is_native(name.as_str()),
        None => false,
    };
    let encrypted: bool = match read_count(item, "encrypted_function_args") {
        Some(n) => n > 0,
        None => false,
    };
    if !native && !encrypted {
        return;
    }
    let a: Vec<(String, JsonValue)> = copy_without(item, "type");
    let b: Vec<(String, JsonValue)> = copy_without(&a, "call_id");
    let c: Vec<(String, JsonValue)> = copy_without(&b, "name");
    let metadata: Vec<(String, JsonValue)> = copy_without(&c, "arguments");
    let text: JsonValue = object_json(&metadata);
    proof {
        if stable_fields(before) {
            lemma_drop_stable(before, "type"@);
            lemma_drop_stable(field_views(a@), "call_id"@);
            lemma_drop_stable(field_views(b@), "name"@);
            lemma_drop_stable(field_views(c@), "arguments"@);
        }
    }
    let id: String = cat5(
        FUNCTION_ID_PREFIX,
        decimal_text(byte_count(call_id.as_str()) as u64).as_str(),
        ":",
        call_id.as_str(),
        text.text.as_str(),
    );
    set_field(item, "call_id", quote_json(id.as_str()));
}

/// A message travels encrypted unless its call says that nothing is.
pub open spec fn travels_encrypted(call_id: Seq<char>) -> bool {
    match decoded(call_id) {
        Some((_, fields)) => count_at(fields, "encrypted_function_args"@) != Some(0nat),
        None => true,
    }
}

/// Whether the message of a call travels encrypted.
pub fn codex_message_is_encrypted(call_id: &str) -> (r: bool)
    ensures
        r == travels_encrypted(call_id@),
{
    match decode_function_call_id(call_id) {
        Some((_, fields)) => match read_count(&fields, "encrypted_function_args") {
            Some(n) => n != 0,
            None => true,
        },
        None => true,
    }
}

/// The arguments of a call are private.
pub open spec fn private_arguments(call_id: Seq<char>, name: Seq<char>) -> bool {
    match decoded(call_id) {
        None => false,
        Some((_, fields)) => match count_at(fields, "encrypted_function_args"@) {
            Some(n) => n > 0,
            None => name == "spawn_agent"@ || name == "send_message"@ || name == "followup_task"@,
        },
    }
}

/// Whether the arguments of a call are private.
pub fn private_function_arguments(call_id: &str, name: &str) -> (r: bool)
    ensures
        r == private_arguments(call_id@, name@),
{
    match decode_function_call_id(call_id) {
        None => false,
        Some((_, fields)) => match read_count(&fields, "encrypted_function_args") {
            Some(n) => n > 0,
            None => same_text(name, "spawn_agent") || same_text(name, "send_message") || same_text(
                name,
                "followup_task",
            ),
        },
    }
}

/// The arguments of a restored call: `{}` in place of what is no JSON.
pub open spec fn good_arguments(arguments: Seq<char>) -> Seq<char> {
    if json_parsed(arguments) is Some {
        arguments
    } else {
        "{}"@
    }
}

/// A call as it was, from what its id carries.
pub open spec fn restored(
    call_id: Seq<char>,
    fields: Fields,
    name: Seq<char>,
    arguments: Seq<char>,
) -> Fields {
    entry_set(
        entry_set(
            entry_set(
                entry_set(fields, "type"@, json_quoted("function_call"@)),
                "call_id"@,
                json_quoted(call_id),
            ),
            "name"@,
            json_quoted(name),
        ),
        "arguments"@,
        json_quoted(good_arguments(arguments)),
    )
}

/// Restores a call from its id, if that carries more.
pub fn restore_function_call(id: &str, name: &str, arguments: &str) -> (r: Option<
    Vec<(String, JsonValue)>,
>)
    ensures
        match (r, decoded(id@)) {
            (Some(item), Some((call_id, fields))) => field_views(item@) == restored(
                call_id,
                fields,
                name@,
                arguments@,
            ),
            (None, None) => true,
            _ => false,
        },
{
    match decode_function_call_id(id) {
        None => None,
        Some((call_id, found)) => {
            let mut fields: Vec<(String, JsonValue)> = found;
            set_field(&mut fields, "type", quote_json("function_call"));
            set_field(&mut fields, "call_id", quote_json(call_id.as_str()));
            set_field(&mut fields, "name", quote_json(name));
            let args: &str = if parse_json(arguments).is_some() {
                arguments
            } else {
                "{}"
            };
            set_field(&mut fields, "arguments", quote_json(args));
            Some(fields)
        },
    }
}

// ---- laws ----

proof fn lemma_until_after(a: Seq<char>, b: Seq<char>, c: char)
    requires
        forall|i: int| 0 <= i < a.len() ==> a[i] != c,
    ensures
        until(a + seq![c] + b, c) == a.len(),
    decreases a.len(),
{
    let s = a + seq![c] + b;
    if a.len() > 0 {
        lemma_until_after(a.drop_first(), b, c);
        assert(s.drop_first() =~= a.drop_first() + seq![c] + b);
        assert(s[0] == a[0]);
    }
}

/// An id gives back what it carries, if that can be read.
pub proof fn law_id_gives_back_what_it_carries(call_id: Seq<char>, item: Fields)
    requires
        byte_len(call_id) <= u64::MAX,
    ensures
        decoded(carrying_id(call_id, item)) == (match json_entries(json_object(carried(item))) {
            Some(fields) => Some((call_id, fields)),
            None => None,
        }),
{
    let id = carrying_id(call_id, item);
    let prefix = FUNCTION_ID_PREFIX@;
    let digits = decimal(byte_len(call_id));
    let text = json_object(carried(item));
    let payload = call_id + text;
    reveal_strlit(":");
    assert(":"@ =~= seq![':']);
    assert(id =~= prefix + (digits + seq![':'] + payload));
    assert(has_prefix(id, prefix)) by {
        assert(id.subrange(0, prefix.len() as int) =~= prefix);
    }
    let rest = id.skip(prefix.len() as int);
    assert(rest =~= digits + seq![':'] + payload);
    lemma_decimal_reads_back(byte_len(call_id));
    assert forall|i: int| 0 <= i < digits.len() implies digits[i] != ':' by {
        assert(is_digit(digits[i]));
    }
    lemma_until_after(digits, payload, ':');
    assert(rest.take(digits.len() as int) =~= digits);
    assert(rest.skip(digits.len() as int + 1) =~= payload);
    lemma_char_index(call_id, text);
    assert(payload.take(call_id.len() as int) =~= call_id);
    assert(payload.skip(call_id.len() as int) =~= text);
}

/// A call that was encoded is not encoded again, if what it carries can be read.
pub proof fn law_encoding_is_stable(item: Fields)
    ensures
        ({
            let call_id = text_at(item, "call_id"@)->0;
            let id = carrying_id(call_id, item);
            to_encode(item) && byte_len(call_id) <= u64::MAX && json_string(json_quoted(id)) == Some(
                id,
            ) && json_entries(json_object(carried(item))) is Some ==> encoded(encoded(item))
                == encoded(item)
        }),
{
    let call_id = text_at(item, "call_id"@)->0;
    let id = carrying_id(call_id, item);
    if byte_len(call_id) <= u64::MAX {
        law_id_gives_back_what_it_carries(call_id, item);
    }
    lemma_entry_set(item, "call_id"@, json_quoted(id), "call_id"@);
    if to_encode(item) && json_string(json_quoted(id)) == Some(id) {
        assert(text_at(encoded(item), "call_id"@) == Some(id));
    }
}

/// A function call as it was: what its four own fields hold.
pub open spec fn is_call(
    item: Fields,
    call_id: Seq<char>,
    name: Seq<char>,
    arguments: Seq<char>,
) -> bool {
    &&& entry_value(item, "type"@) == Some(json_quoted("function_call"@))
    &&& entry_value(item, "call_id"@) == Some(json_quoted(call_id))
    &&& entry_value(item, "name"@) == Some(json_quoted(name))
    &&& entry_value(item, "arguments"@) == Some(json_quoted(arguments))
    &&& json_parsed(arguments) is Some
}

/// A call that was encoded is restored as it was, field by field.
pub proof fn law_call_is_restored(
    item: Fields,
    call_id: Seq<char>,
    name: Seq<char>,
    arguments: Seq<char>,
    other: Seq<char>,
)
    requires
        byte_len(call_id) <= u64::MAX,
    ensures
        is_call(item, call_id, name, arguments) && reads_back(carried(item)) ==> {
            match decoded(carrying_id(call_id, item)) {
                Some((id, fields)) => id == call_id && entry_value(
                    restored(id, fields, name, arguments),
                    other,
                ) == entry_value(item, other),
                None => false,
            }
        },
{
    if is_call(item, call_id, name, arguments) && reads_back(carried(item)) {
        law_id_gives_back_what_it_carries(call_id, item);
        let fields = json_entries(json_object(carried(item)))->0;
        assert(entry_value(fields, other) == entry_value(carried(item), other));
        let a = entry_drop(item, "type"@);
        let b = entry_drop(a, "call_id"@);
        let c = entry_drop(b, "name"@);
        lemma_entry_drop(item, "type"@, other);
        lemma_entry_drop(a, "call_id"@, other);
        lemma_entry_drop(b, "name"@, other);
        lemma_entry_drop(c, "arguments"@, other);
        let t = entry_set(fields, "type"@, json_quoted("function_call"@));
        let u = entry_set(t, "call_id"@, json_quoted(call_id));
        let v = entry_set(u, "name"@, json_quoted(name));
        lemma_entry_set(fields, "type"@, json_quoted("function_call"@), other);
        lemma_entry_set(t, "call_id"@, json_quoted(call_id), other);
        lemma_entry_set(u, "name"@, json_quoted(name), other);
        lemma_entry_set(v, "arguments"@, json_quoted(arguments), other);
    }
}

} // verus!
