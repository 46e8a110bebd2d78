//! The journal of a run, and how a later run replays it.
use vstd::prelude::*;
#[allow(unused_imports)]
use vstd::string::*;

#[allow(unused_imports)]
use crate::json::{
    JsonValue, field_of, field_views, json_field, json_object, json_parsed, json_quoted,
    object_json, parse_json, quote_json, reads_back_whole, stable_fields,
};
#[allow(unused_imports)]
use crate::table::{Named, sort_by_name, sorted_by_name};
#[allow(unused_imports)]
use crate::text::{
    cat4, copy_option, in_list, join, joined, lemma_text_before_total,
    lemma_text_before_transitive, lowercase, lowercased, option_view, same_text, text_before, trim,
    trimmed, views,
};

verus! {

/// One call of an agent by the script.
#[derive(Debug, Clone)]
pub struct AgentCallInput {
    pub index: u32,
    pub prompt: String,
    pub label: Option<String>,
    pub phase: Option<String>,
    pub schema: Option<JsonValue>,
    pub model: Option<String>,
    pub effort: Option<String>,
    pub isolation: Option<String>,
    pub agent_type: Option<String>,
}

/// What the journal keeps of a completed call.
#[derive(Debug, Clone)]
pub struct JournalEntry {
    pub index: u32,
    pub key: String,
    pub ok: bool,
    pub value: JsonValue,
    pub error: Option<String>,
    pub label: Option<String>,
    pub phase: Option<String>,
    pub tokens_used: u64,
    pub duration_ms: u64,
    pub agent_id: Option<String>,
}

impl JournalEntry {
    /// A copy of the entry.
    pub fn duplicate(&self) -> (r: JournalEntry)
        ensures
            r == *self,
    {
        JournalEntry {
            index: self.index,
            key: self.key.clone(),
            ok: self.ok,
            value: self.value.duplicate(),
            error: copy_option(&self.error),
            label: copy_option(&self.label),
            phase: copy_option(&self.phase),
            tokens_used: self.tokens_used,
            duration_ms: self.duration_ms,
            agent_id: copy_option(&self.agent_id),
        }
    }
}

/// How results of a prior run are matched to the calls of this one.
#[derive(Debug, Clone, Copy, PartialEq, Eq, Structural)]
pub enum ResumeMode {
    /// A call is replayed only where its prompt and options are unchanged.
    Exact,
    /// A call is replayed by its position, though its wording was edited.
    Positional,
}

impl Default for ResumeMode {
    fn default() -> (r: ResumeMode)
        ensures
            r == ResumeMode::Exact,
    {
        ResumeMode::Exact
    }
}

/// The last point of the prior run that is still trusted.
#[derive(Debug, Clone)]
pub enum ResumeBoundary {
    /// Entries up to an index.
    Index(u32),
    /// Entries up to the last one of a phase, or else of an agent label.
    Point(String),
}

// ---- keys ----

/// The value for an optional text.
pub open spec fn option_text(o: Option<Seq<char>>) -> Seq<char> {
    match o {
        Some(s) => json_quoted(s),
        None => "null"@,
    }
}

fn option_json(o: &Option<String>) -> (r: JsonValue)
    ensures
        r@ == option_text(option_view(*o)),
        reads_back_whole(r@),
{
    match o {
        Some(s) => quote_json(s.as_str()),
        None => JsonValue::null(),
    }
}

/// The fields of a key, from the values under their names.
pub open spec fn key_fields(
    prompt: Seq<char>,
    schema: Seq<char>,
    model: Seq<char>,
    effort: Seq<char>,
    isolation: Seq<char>,
    agent_type: Seq<char>,
) -> Seq<(Seq<char>, Seq<char>)> {
    seq![
        ("prompt"@, prompt),
        ("schema"@, schema),
        ("model"@, model),
        ("effort"@, effort),
        ("isolation"@, isolation),
        ("agent_type"@, agent_type),
    ]
}

/// The fields of the key of a call. The index, the label and the phase are left
/// out: reordering calls or renaming a label keeps their results valid.
pub open spec fn call_fields(call: AgentCallInput) -> Seq<(Seq<char>, Seq<char>)> {
    key_fields(
        json_quoted(call.prompt@),
        match call.schema {
            Some(v) => v@,
            None => "null"@,
        },
        option_text(option_view(call.model)),
        option_text(option_view(call.effort)),
        option_text(option_view(call.isolation)),
        option_text(option_view(call.agent_type)),
    )
}

/// The key of a call.
pub open spec fn key_of(call: AgentCallInput) -> Seq<char> {
    json_object(call_fields(call))
}

/// The value under a name, or `null`.
pub open spec fn field_or_null(v: Seq<char>, name: Seq<char>) -> Seq<char> {
    match json_field(v, name) {
        Some(f) => f,
        None => "null"@,
    }
}

/// A journaled key in the present form: keys that hold more than what decides
/// are cut down to that; a key that is no JSON stays.
pub open spec fn migrated(old: Seq<char>) -> Seq<char> {
    match json_parsed(old) {
        None => old,
        Some(v) => json_object(
            key_fields(
                field_or_null(v, "prompt"@),
                field_or_null(v, "schema"@),
                field_or_null(v, "model"@),
                field_or_null(v, "effort"@),
                field_or_null(v, "isolation"@),
                field_or_null(v, "agent_type"@),
            ),
        ),
    }
}

fn make_key(
    prompt: JsonValue,
    schema: JsonValue,
    model: JsonValue,
    effort: JsonValue,
    isolation: JsonValue,
    agent_type: JsonValue,
) -> (r: JsonValue)
    ensures
        ({
            let fields = key_fields(
                prompt@,
                schema@,
                model@,
                effort@,
                isolation@,
                agent_type@,
            );
            &&& r@ == json_object(fields)
            &&& stable_fields(fields) && json_parsed(r@) is Some ==> {
                &&& json_parsed(r@) == Some(r@)
                &&& forall|i: int|
                    0 <= i < fields.len() ==> json_field(r@, (#[trigger] fields[i]).0) == Some(
                        fields[i].1,
                    )
            }
        }),
{
    let ghost fields = key_fields(prompt@, schema@, model@, effort@, isolation@, agent_type@);
    let mut v: Vec<(String, JsonValue)> = Vec::new();
    v.push(("prompt".to_owned(), prompt));
    v.push(("schema".to_owned(), schema));
    v.push(("model".to_owned(), model));
    v.push(("effort".to_owned(), effort));
    v.push(("isolation".to_owned(), isolation));
    v.push(("agent_type".to_owned(), agent_type));
    let r: JsonValue = object_json(&v);
    proof {
        assert(field_views(v@) =~= fields);
        assert forall|i: int|
            stable_fields(fields) && json_parsed(r@) is Some && 0 <= i
                < fields.len() implies json_field(r@, (#[trigger] fields[i]).0) == Some(
            fields[i].1,
        ) by {
            assert(v@[i].0@ == fields[i].0);
        }
    }
    r
}

proof fn lemma_names_differ()
    ensures
        "prompt"@ != "schema"@,
        "prompt"@ != "model"@,
        "prompt"@ != "effort"@,
        "prompt"@ != "isolation"@,
        "prompt"@ != "agent_type"@,
        "schema"@ != "model"@,
        "schema"@ != "effort"@,
        "schema"@ != "isolation"@,
        "schema"@ != "agent_type"@,
        "model"@ != "effort"@,
        "model"@ != "isolation"@,
        "model"@ != "agent_type"@,
        "effort"@ != "isolation"@,
        "effort"@ != "agent_type"@,
        "isolation"@ != "agent_type"@,
{
    reveal_strlit("prompt");
    reveal_strlit("schema");
    reveal_strlit("model");
    reveal_strlit("effort");
    reveal_strlit("isolation");
    reveal_strlit("agent_type");
    assert("prompt"@[0] == 'p' && "schema"@[0] == 's' && "model"@[0] == 'm' && "effort"@[0] == 'e'
        && "isolation"@[0] == 'i' && "agent_type"@[0] == 'a');
}

/// The schema of a call, if it has one, reads back as it is printed.
pub open spec fn schema_reads_back(call: AgentCallInput) -> bool {
    match call.schema {
        Some(v) => reads_back_whole(v@),
        None => true,
    }
}

/// The key of a call: its prompt and every option that decides. A key whose
/// schema, if any, reads back as it is printed is left as it is by
/// `migrate_journal_key`.
pub fn journal_key(call: &AgentCallInput) -> (r: String)
    ensures
        r@ == key_of(*call),
        schema_reads_back(*call) ==> migrated(r@) == r@,
        schema_reads_back(*call) && json_parsed(r@) is Some ==> {
            &&& json_field(r@, "prompt"@) == Some(json_quoted(call.prompt@))
            &&& call.model is Some ==> json_field(r@, "model"@) == Some(json_quoted(call.model->0@))
            &&& call.effort is Some ==> json_field(r@, "effort"@) == Some(
                json_quoted(call.effort->0@),
            )
            &&& call.isolation is Some ==> json_field(r@, "isolation"@) == Some(
                json_quoted(call.isolation->0@),
            )
            &&& call.agent_type is Some ==> json_field(r@, "agent_type"@) == Some(
                json_quoted(call.agent_type->0@),
            )
            &&& call.schema is Some ==> json_field(r@, "schema"@) == Some(call.schema->0@)
        },
{
    let schema: JsonValue = match &call.schema {
        Some(v) => v.duplicate(),
        None => JsonValue::null(),
    };
    let prompt: JsonValue = quote_json(call.prompt.as_str());
    let ghost quoted = prompt@;
    let key: JsonValue = make_key(
        prompt,
        schema,
        option_json(&call.model),
        option_json(&call.effort),
        option_json(&call.isolation),
        option_json(&call.agent_type),
    );
    proof {
        let fields = call_fields(*call);
        if schema_reads_back(*call) && json_parsed(key@) is Some {
            lemma_names_differ();
            assert(reads_back_whole(quoted));
            assert(stable_fields(fields));
            assert(json_field(key@, fields[0].0) == Some(fields[0].1));
            assert(json_field(key@, fields[1].0) == Some(fields[1].1));
            assert(json_field(key@, fields[2].0) == Some(fields[2].1));
            assert(json_field(key@, fields[3].0) == Some(fields[3].1));
            assert(json_field(key@, fields[4].0) == Some(fields[4].1));
            assert(json_field(key@, fields[5].0) == Some(fields[5].1));
        }
    }
    key.text
}

fn field_value(v: &JsonValue, name: &str) -> (r: JsonValue)
    ensures
        r@ == field_or_null(v@, name@),
{
    match field_of(v, name) {
        Some(f) => f,
        None => JsonValue::null(),
    }
}

/// A journaled key in the present form.
pub fn migrate_journal_key(old: &str) -> (r: String)
    ensures
        r@ == migrated(old@),
{
    match parse_json(old) {
        None => old.to_owned(),
        Some(v) => {
            let key: JsonValue = make_key(
                field_value(&v, "prompt"),
                field_value(&v, "schema"),
                field_value(&v, "model"),
                field_value(&v, "effort"),
                field_value(&v, "isolation"),
                field_value(&v, "agent_type"),
            );
            key.text
        },
    }
}

// ---- the boundary ----

/// The index of an entry, and its phase and label as they are matched.
#[derive(Debug, Clone)]
pub struct PointKey {
    pub index: u32,
    pub phase: Option<String>,
    pub label: Option<String>,
}

/// The largest index of an entry in a phase.
pub open spec fn last_of_phase(s: Seq<PointKey>, wanted: Seq<char>) -> Option<u32>
    decreases s.len(),
{
    if s.len() == 0 {
        None
    } else {
        let before = last_of_phase(s.drop_last(), wanted);
        if option_view(s.last().phase) == Some(wanted) && (before is None || before->0
            <= s.last().index) {
            Some(s.last().index)
        } else {
            before
        }
    }
}

/// The largest index of an entry with a label.
pub open spec fn last_of_label(s: Seq<PointKey>, wanted: Seq<char>) -> Option<u32>
    decreases s.len(),
{
    if s.len() == 0 {
        None
    } else {
        let before = last_of_label(s.drop_last(), wanted);
        if option_view(s.last().label) == Some(wanted) && (before is None || before->0
            <= s.last().index) {
            Some(s.last().index)
        } else {
            before
        }
    }
}

/// The index that a point stands for: the last of the phase, or else of the label.
pub open spec fn point_index(s: Seq<PointKey>, wanted: Seq<char>) -> Option<u32> {
    match last_of_phase(s, wanted) {
        Some(i) => Some(i),
        None => last_of_label(s, wanted),
    }
}

fn is_wanted(o: &Option<String>, wanted: &str) -> (r: bool)
    ensures
        r == (option_view(*o) == Some(wanted@)),
{
    match o {
        Some(s) => same_text(s.as_str(), wanted),
        None => false,
    }
}

/// Finds the index that a point stands for.
pub fn resolve_point(keys: &Vec<PointKey>, wanted: &str) -> (r: Option<u32>)
    ensures
        r == point_index(keys@, wanted@),
{
    let mut phase: Option<u32> = None;
    let mut label: Option<u32> = None;
    let mut i: usize = 0;
    while i < keys.len()
        invariant
            i <= keys@.len(),
            phase == last_of_phase(keys@.take(i as int), wanted@),
            label == last_of_label(keys@.take(i as int), wanted@),
        decreases keys.len() - i,
    {
        proof {
            assert(keys@.take(i as int + 1).drop_last() =~= keys@.take(i as int));
        }
        let index: u32 = keys[i].index;
        if is_wanted(&keys[i].phase, wanted) {
            phase = match phase {
                Some(p) => if p <= index {
                    Some(index)
                } else {
                    Some(p)
                },
                None => Some(index),
            };
        }
        if is_wanted(&keys[i].label, wanted) {
            label = match label {
                Some(p) => if p <= index {
                    Some(index)
                } else {
                    Some(p)
                },
                None => Some(index),
            };
        }
        i += 1;
    }
    proof {
        assert(keys@.take(i as int) =~= keys@);
    }
    match phase {
        Some(p) => Some(p),
        None => label,
    }
}

/// A text as it is matched: without outer white space and in lower case.
pub open spec fn matched(o: Option<String>) -> Option<Seq<char>> {
    match o {
        Some(s) => Some(lowercased(trimmed(s@))),
        None => None,
    }
}

/// The key of a point is made from an entry.
pub open spec fn point_of(k: PointKey, e: JournalEntry) -> bool {
    &&& k.index == e.index
    &&& option_view(k.phase) == matched(e.phase)
    &&& option_view(k.label) == matched(e.label)
}

/// The keys of points are made from entries.
pub open spec fn points_of(ks: Seq<PointKey>, es: Seq<JournalEntry>) -> bool {
    &&& ks.len() == es.len()
    &&& forall|i: int| 0 <= i < es.len() ==> point_of(#[trigger] ks[i], es[i])
}

fn lower_option(o: &Option<String>) -> (r: Option<String>)
    ensures
        option_view(r) == matched(*o),
{
    match o {
        Some(s) => Some(lowercase(trim(s.as_str()))),
        None => None,
    }
}

fn point_keys(entries: &Vec<JournalEntry>) -> (r: Vec<PointKey>)
    ensures
        points_of(r@, entries@),
{
    let mut out: Vec<PointKey> = Vec::new();
    let mut i: usize = 0;
    while i < entries.len()
        invariant
            i <= entries@.len(),
            out@.len() == i,
            forall|j: int| 0 <= j < i ==> point_of(#[trigger] out@[j], entries@[j]),
        decreases entries.len() - i,
    {
        let e: &JournalEntry = &entries[i];
        out.push(
            PointKey {
                index: e.index,
                phase: lower_option(&e.phase),
                label: lower_option(&e.label),
            },
        );
        i += 1;
    }
    out
}

/// A phase or label of an entry.
pub open spec fn is_point_of(e: JournalEntry, s: Seq<char>) -> bool {
    option_view(e.phase) == Some(s) || option_view(e.label) == Some(s)
}

/// The phases and labels of some entries, each once, in order.
pub open spec fn are_known_points(known: Seq<String>, es: Seq<JournalEntry>) -> bool {
    &&& forall|i: int, j: int|
        0 <= i < j < known.len() ==> text_before((#[trigger] known[i])@, (#[trigger] known[j])@)
    &&& forall|s: Seq<char>|
        #[trigger] in_list(known, s) <==> exists|i: int|
            0 <= i < es.len() && is_point_of(#[trigger] es[i], s)
}

fn add_point(known: &mut Vec<String>, o: &Option<String>)
    ensures
        forall|s: Seq<char>| #[trigger]
            in_list(final(known)@, s) == (in_list(old(known)@, s) || option_view(*o) == Some(s)),
{
    let ghost before = known@;
    if let Some(p) = o {
        known.push(p.clone());
        proof {
            assert forall|s: Seq<char>| #[trigger] in_list(known@, s) == (in_list(before, s) || s
                == p@) by {
                assert(known@[before.len() as int]@ == p@);
                if in_list(before, s) {
                    let i = choose|i: int| 0 <= i < before.len() && (#[trigger] before[i])@ == s;
                    assert(known@[i]@ == s);
                }
                if in_list(known@, s) && s != p@ {
                    let i = choose|i: int| 0 <= i < known@.len() && (#[trigger] known@[i])@ == s;
                    assert(before[i]@ == s);
                }
            }
        }
    }
}

proof fn lemma_multiset_list(a: Seq<String>, b: Seq<String>, s: Seq<char>)
    requires
        a.to_multiset() == b.to_multiset(),
        in_list(a, s),
    ensures
        in_list(b, s),
{
    broadcast use vstd::seq_lib::group_to_multiset_ensures;

    let i = choose|i: int| 0 <= i < a.len() && (#[trigger] a[i])@ == s;
    assert(a.contains(a[i]));
    assert(b.to_multiset().contains(a[i]));
    assert(b.contains(a[i]));
    let k = choose|k: int| 0 <= k < b.len() && b[k] == a[i];
    assert(b[k]@ == s);
}

/// The strings of a sorted list, each once.
fn dedup(sorted: &Vec<String>) -> (r: Vec<String>)
    requires
        sorted_by_name(sorted@),
    ensures
        forall|i: int, j: int|
            0 <= i < j < r@.len() ==> text_before((#[trigger] r@[i])@, (#[trigger] r@[j])@),
        forall|s: Seq<char>| #[trigger] in_list(r@, s) == in_list(sorted@, s),
{
    let mut out: Vec<String> = Vec::new();
    let mut i: usize = 0;
    while i < sorted.len()
        invariant
            i <= sorted@.len(),
            sorted_by_name(sorted@),
            i == 0 ==> out@.len() == 0,
            i > 0 ==> out@.len() > 0 && out@.last()@ == sorted@[i - 1]@,
            forall|a: int, b: int|
                0 <= a < b < out@.len() ==> text_before(
                    (#[trigger] out@[a])@,
                    (#[trigger] out@[b])@,
                ),
            forall|s: Seq<char>| #[trigger] in_list(out@, s) == in_list(sorted@.take(i as int), s),
        decreases sorted.len() - i,
    {
        let ghost before = out@;
        let ghost seen = sorted@.take(i as int);
        let ghost more = sorted@.take(i as int + 1);
        let fresh: bool = out.len() == 0 || !same_text(
            out[out.len() - 1].as_str(),
            sorted[i].as_str(),
        );
        if fresh {
            out.push(sorted[i].clone());
        }
        proof {
            assert(more =~= seen.push(sorted@[i as int]));
            let x = sorted@[i as int]@;
            assert forall|s: Seq<char>| #[trigger] in_list(out@, s) == in_list(more, s) by {
                assert(more[i as int]@ == x);
                if in_list(seen, s) {
                    let k = choose|k: int| 0 <= k < seen.len() && (#[trigger] seen[k])@ == s;
                    assert(more[k]@ == s);
                }
                if in_list(more, s) && s != x {
                    let k = choose|k: int| 0 <= k < more.len() && (#[trigger] more[k])@ == s;
                    assert(seen[k]@ == s);
                }
                if in_list(before, s) {
                    let k = choose|k: int| 0 <= k < before.len() && (#[trigger] before[k])@ == s;
                    assert(out@[k]@ == s);
                }
                if fresh {
                    assert(out@[before.len() as int]@ == x);
                    if in_list(out@, s) && s != x {
                        let k = choose|k: int| 0 <= k < out@.len() && (#[trigger] out@[k])@ == s;
                        assert(before[k]@ == s);
                    }
                } else {
                    assert(before[before.len() - 1]@ == x);
                }
            }
            if fresh {
                assert forall|a: int, b: int| 0 <= a < b < out@.len() implies text_before(
                    (#[trigger] out@[a])@,
                    (#[trigger] out@[b])@,
                ) by {
                    if b == before.len() {
                        let last = before.last()@;
                        assert(last == sorted@[i - 1]@);
                        assert(!text_before(sorted@[i as int].name(), sorted@[i - 1].name()));
                        lemma_text_before_total(last, x);
                        if a < before.len() - 1 {
                            assert(text_before(before[a]@, before[before.len() - 1]@));
                            lemma_text_before_transitive(before[a]@, last, x);
                        }
                    }
                }
            }
        }
        i += 1;
    }
    proof {
        assert(sorted@.take(i as int) =~= sorted@);
    }
    out
}

/// The phases and labels of some entries, each once, in order.
pub fn known_points(entries: &Vec<JournalEntry>) -> (r: Vec<String>)
    ensures
        are_known_points(r@, entries@),
{
    let mut all: Vec<String> = Vec::new();
    let mut i: usize = 0;
    while i < entries.len()
        invariant
            i <= entries@.len(),
            forall|s: Seq<char>|
                #[trigger] in_list(all@, s) <==> exists|j: int|
                    0 <= j < i && is_point_of(#[trigger] entries@[j], s),
        decreases entries.len() - i,
    {
        let ghost before = all@;
        add_point(&mut all, &entries[i].phase);
        let ghost middle = all@;
        add_point(&mut all, &entries[i].label);
        proof {
            assert forall|s: Seq<char>|
                #[trigger] in_list(all@, s) <==> exists|j: int|
                    0 <= j < i + 1 && is_point_of(#[trigger] entries@[j], s) by {
                assert(in_list(middle, s) == (in_list(before, s) || option_view(
                    entries@[i as int].phase,
                ) == Some(s)));
                if is_point_of(entries@[i as int], s) {
                    assert(in_list(all@, s));
                }
            }
        }
        i += 1;
    }
    let ghost listed = all@;
    let sorted: Vec<String> = sort_by_name(all);
    let r: Vec<String> = dedup(&sorted);
    proof {
        assert forall|s: Seq<char>|
            #[trigger] in_list(r@, s) <==> exists|j: int|
                0 <= j < entries@.len() && is_point_of(#[trigger] entries@[j], s) by {
            assert(in_list(r@, s) == in_list(sorted@, s));
            if in_list(sorted@, s) {
                lemma_multiset_list(sorted@, listed, s);
            }
            if in_list(listed, s) {
                lemma_multiset_list(listed, sorted@, s);
            }
        }
    }
    r
}

/// The message for a point that no entry has.
pub open spec fn unknown_point(point: Seq<char>, known: Seq<String>) -> Seq<char> {
    "resume_through `"@ + point
        + "` matches no phase or agent label in the source journal. Known points: "@ + (
    if known.len() == 0 {
        "(none journaled)"@
    } else {
        joined(views(known), ", "@)
    })
}

fn unknown_point_error(point: &str, known: &Vec<String>) -> (r: String)
    ensures
        r@ == unknown_point(point@, known@),
{
    let listed: String = if known.len() == 0 {
        "(none journaled)".to_owned()
    } else {
        join(known, ", ")
    };
    cat4(
        "resume_through `",
        point,
        "` matches no phase or agent label in the source journal. Known points: ",
        listed.as_str(),
    )
}

// ---- the plan ----

/// Results of a prior run that a later one may replay.
#[derive(Debug)]
pub struct ReplayPlan {
    pub mode: ResumeMode,
    /// The results, in the order of the journal.
    pub by_key: Vec<JournalEntry>,
    /// The first result of each index.
    pub by_index: Vec<JournalEntry>,
}

/// An entry may be replayed: it succeeded and is not past the boundary.
pub open spec fn trusted(e: JournalEntry, max_index: Option<u32>) -> bool {
    e.ok && (max_index is None || e.index <= max_index->0)
}

/// The entries that may be replayed, in order.
pub open spec fn trusted_entries(s: Seq<JournalEntry>, max_index: Option<u32>) -> Seq<JournalEntry>
    decreases s.len(),
{
    if s.len() == 0 {
        Seq::empty()
    } else if trusted(s.last(), max_index) {
        trusted_entries(s.drop_last(), max_index).push(s.last())
    } else {
        trusted_entries(s.drop_last(), max_index)
    }
}

/// Some entry has an index.
pub open spec fn has_index(s: Seq<JournalEntry>, index: u32) -> bool {
    exists|i: int| 0 <= i < s.len() && (#[trigger] s[i]).index == index
}

/// The first entry of each index, in order.
pub open spec fn first_entries(s: Seq<JournalEntry>) -> Seq<JournalEntry>
    decreases s.len(),
{
    if s.len() == 0 {
        Seq::empty()
    } else {
        let before = first_entries(s.drop_last());
        if has_index(before, s.last().index) {
            before
        } else {
            before.push(s.last())
        }
    }
}

/// `p` is the entry `e` with its key in the present form.
pub open spec fn replays(p: JournalEntry, e: JournalEntry) -> bool {
    p == (JournalEntry { key: p.key, ..e }) && p.key@ == migrated(e.key@)
}

/// Each of `ps` is the entry of `es` at its place, with its key in the present form.
pub open spec fn all_replay(ps: Seq<JournalEntry>, es: Seq<JournalEntry>) -> bool {
    ps.len() == es.len() && forall|i: int| 0 <= i < es.len() ==> replays(#[trigger] ps[i], es[i])
}

/// No two entries share an index.
pub open spec fn indexes_differ(s: Seq<JournalEntry>) -> bool {
    forall|i: int, j: int|
        0 <= i < j < s.len() ==> (#[trigger] s[i]).index != (#[trigger] s[j]).index
}

/// The position of the first entry with a key.
pub open spec fn first_keyed(s: Seq<JournalEntry>, key: Seq<char>) -> Option<int>
    decreases s.len(),
{
    if s.len() == 0 {
        None
    } else if s[0].key@ == key {
        Some(0)
    } else {
        match first_keyed(s.drop_first(), key) {
            Some(i) => Some(i + 1),
            None => None,
        }
    }
}

/// The position of the first entry with an index.
pub open spec fn first_indexed(s: Seq<JournalEntry>, index: u32) -> Option<int>
    decreases s.len(),
{
    if s.len() == 0 {
        None
    } else if s[0].index == index {
        Some(0)
    } else {
        match first_indexed(s.drop_first(), index) {
            Some(i) => Some(i + 1),
            None => None,
        }
    }
}

fn find_keyed(v: &Vec<JournalEntry>, key: &str) -> (r: Option<usize>)
    ensures
        match (r, first_keyed(v@, key@)) {
            (Some(a), Some(b)) => a == b && a < v@.len(),
            (None, None) => true,
            _ => false,
        },
{
    let mut i: usize = 0;
    proof {
        assert(v@.skip(0) =~= v@);
    }
    while i < v.len()
        invariant
            i <= v@.len(),
            first_keyed(v@, key@) == (match first_keyed(v@.skip(i as int), key@) {
                Some(x) => Some(x + i),
                None => None,
            }),
        decreases v.len() - i,
    {
        proof {
            assert(v@.skip(i as int).drop_first() =~= v@.skip(i as int + 1));
        }
        if same_text(v[i].key.as_str(), key) {
            return Some(i);
        }
        i += 1;
    }
    None
}

fn find_indexed(v: &Vec<JournalEntry>, index: u32) -> (r: Option<usize>)
    ensures
        match (r, first_indexed(v@, index)) {
            (Some(a), Some(b)) => a == b && a < v@.len(),
            (None, None) => true,
            _ => false,
        },
{
    let mut i: usize = 0;
    proof {
        assert(v@.skip(0) =~= v@);
    }
    while i < v.len()
        invariant
            i <= v@.len(),
            first_indexed(v@, index) == (match first_indexed(v@.skip(i as int), index) {
                Some(x) => Some(x + i),
                None => None,
            }),
        decreases v.len() - i,
    {
        proof {
            assert(v@.skip(i as int).drop_first() =~= v@.skip(i as int + 1));
        }
        if v[i].index == index {
            return Some(i);
        }
        i += 1;
    }
    None
}

pub proof fn lemma_first_indexed(s: Seq<JournalEntry>, index: u32)
    ensures
        match first_indexed(s, index) {
            Some(i) => 0 <= i < s.len() && s[i].index == index,
            None => !has_index(s, index),
        },
    decreases s.len(),
{
    if s.len() > 0 && s[0].index != index {
        lemma_first_indexed(s.drop_first(), index);
        assert forall|j: int| 1 <= j < s.len() implies #[trigger] s[j] == s.drop_first()[j - 1] by {}
    }
}

impl ReplayPlan {
    /// No two results share an index.
    pub open spec fn wf(&self) -> bool {
        indexes_differ(self.by_index@)
    }

    /// The plan holds the entries of a journal up to an index.
    pub open spec fn holds(&self, entries: Seq<JournalEntry>, max_index: Option<u32>) -> bool {
        &&& all_replay(self.by_key@, trusted_entries(entries, max_index))
        &&& all_replay(self.by_index@, first_entries(trusted_entries(entries, max_index)))
    }

    /// The plan that replays nothing.
    pub fn empty() -> (r: ReplayPlan)
        ensures
            r.wf(),
            r.mode == ResumeMode::Exact,
            r.by_key@.len() == 0,
            r.by_index@.len() == 0,
    {
        ReplayPlan { mode: ResumeMode::Exact, by_key: Vec::new(), by_index: Vec::new() }
    }

    /// The plan for the entries up to an index.
    pub fn build_through(
        entries: &Vec<JournalEntry>,
        mode: ResumeMode,
        max_index: Option<u32>,
    ) -> (r: ReplayPlan)
        ensures
            r.wf(),
            r.mode == mode,
            r.holds(entries@, max_index),
    {
        let mut by_key: Vec<JournalEntry> = Vec::new();
        let mut by_index: Vec<JournalEntry> = Vec::new();
        let ghost es = entries@;
        let mut i: usize = 0;
        while i < entries.len()
            invariant
                i <= entries@.len(),
                es == entries@,
                indexes_differ(by_index@),
                all_replay(by_key@, trusted_entries(es.take(i as int), max_index)),
                all_replay(
                    by_index@,
                    first_entries(trusted_entries(es.take(i as int), max_index)),
                ),
            decreases entries.len() - i,
        {
            let e: &JournalEntry = &entries[i];
            let ghost before = trusted_entries(es.take(i as int), max_index);
            proof {
                assert(es.take(i as int + 1).drop_last() =~= es.take(i as int));
            }
            let within: bool = match max_index {
                Some(max) => e.index <= max,
                None => true,
            };
            if e.ok && within {
                let key: String = migrate_journal_key(e.key.as_str());
                proof {
                    let after = before.push(*e);
                    assert(after.drop_last() =~= before);
                    assert(trusted_entries(es.take(i as int + 1), max_index) =~= after);
                    lemma_first_indexed(by_index@, e.index);
                    let firsts = first_entries(before);
                    assert(has_index(by_index@, e.index) == has_index(firsts, e.index)) by {
                        if has_index(by_index@, e.index) {
                            let k = choose|k: int|
                                0 <= k < by_index@.len() && (#[trigger] by_index@[k]).index
                                    == e.index;
                            assert(replays(by_index@[k], firsts[k]));
                            assert(firsts[k].index == e.index);
                        }
                        if has_index(firsts, e.index) {
                            let k = choose|k: int|
                                0 <= k < firsts.len() && (#[trigger] firsts[k]).index == e.index;
                            assert(replays(by_index@[k], firsts[k]));
                            assert(by_index@[k].index == e.index);
                        }
                    }
                }
                if find_indexed(&by_index, e.index).is_none() {
                    let mut first: JournalEntry = e.duplicate();
                    first.key = key.clone();
                    by_index.push(first);
                }
                let mut keyed: JournalEntry = e.duplicate();
                keyed.key = key;
                by_key.push(keyed);
            }
            i += 1;
        }
        proof {
            assert(es.take(i as int) =~= es);
        }
        ReplayPlan { mode, by_key, by_index }
    }

    /// Builds the plan for the successful entries of a prior run. A boundary
    /// drops the entries past it, so that their calls run anew.
    pub fn build(
        entries: &Vec<JournalEntry>,
        mode: ResumeMode,
        boundary: Option<ResumeBoundary>,
    ) -> (r: Result<ReplayPlan, String>)
        ensures
            match boundary {
                None => r is Ok && r->Ok_0.wf() && r->Ok_0.mode == mode && r->Ok_0.holds(
                    entries@,
                    None,
                ),
                Some(ResumeBoundary::Index(index)) => r is Ok && r->Ok_0.wf() && r->Ok_0.mode
                    == mode && r->Ok_0.holds(entries@, Some(index)),
                Some(ResumeBoundary::Point(point)) => exists|ks: Seq<PointKey>|
                    {
                        &&& #[trigger] points_of(ks, entries@)
                        &&& match point_index(ks, lowercased(trimmed(point@))) {
                            Some(index) => r is Ok && r->Ok_0.wf() && r->Ok_0.mode == mode
                                && r->Ok_0.holds(entries@, Some(index)),
                            None => r is Err && exists|known: Seq<String>|
                                #[trigger] are_known_points(known, entries@) && r->Err_0@
                                    == unknown_point(point@, known),
                        }
                    },
            },
    {
        match boundary {
            None => Ok(ReplayPlan::build_through(entries, mode, None)),
            Some(ResumeBoundary::Index(index)) => Ok(
                ReplayPlan::build_through(entries, mode, Some(index)),
            ),
            Some(ResumeBoundary::Point(point)) => {
                let keys: Vec<PointKey> = point_keys(entries);
                let wanted: String = lowercase(trim(point.as_str()));
                proof {
                    assert(points_of(keys@, entries@));
                }
                match resolve_point(&keys, wanted.as_str()) {
                    Some(index) => Ok(ReplayPlan::build_through(entries, mode, Some(index))),
                    None => {
                        let known: Vec<String> = known_points(entries);
                        proof {
                            assert(are_known_points(known@, entries@));
                        }
                        Err(unknown_point_error(point.as_str(), &known))
                    },
                }
            },
        }
    }

    /// What `take` leaves and gives: the first result with the key, or the one
    /// with the index.
    pub open spec fn take_post(
        &self,
        before: ReplayPlan,
        index: u32,
        key: Seq<char>,
        r: Option<JournalEntry>,
    ) -> bool {
        &&& self.mode == before.mode
        &&& match before.mode {
            ResumeMode::Exact => {
                &&& self.by_index@ == before.by_index@
                &&& match first_keyed(before.by_key@, key) {
                    Some(i) => r == Some(before.by_key@[i]) && self.by_key@
                        == before.by_key@.remove(i),
                    None => r is None && self.by_key@ == before.by_key@,
                }
            },
            ResumeMode::Positional => {
                &&& self.by_key@ == before.by_key@
                &&& match first_indexed(before.by_index@, index) {
                    Some(i) => r == Some(before.by_index@[i]) && self.by_index@
                        == before.by_index@.remove(i),
                    None => r is None && self.by_index@ == before.by_index@,
                }
            },
        }
    }

    /// Takes the result for a call, which is then gone.
    pub fn take(&mut self, call: &AgentCallInput, key: &str) -> (r: Option<JournalEntry>)
        ensures
            final(self).take_post(*old(self), call.index, key@, r),
            old(self).wf() ==> final(self).wf(),
    {
        let ghost before = *self;
        match self.mode {
            ResumeMode::Exact => match find_keyed(&self.by_key, key) {
                Some(i) => Some(self.by_key.remove(i)),
                None => None,
            },
            ResumeMode::Positional => match find_indexed(&self.by_index, call.index) {
                Some(i) => {
                    let entry: JournalEntry = self.by_index.remove(i);
                    proof {
                        if before.wf() {
                            lemma_remove_keeps_indexes(before.by_index@, i as int);
                        }
                    }
                    Some(entry)
                },
                None => None,
            },
        }
    }

    /// Whether there is nothing to replay.
    pub fn is_empty(&self) -> (r: bool)
        ensures
            r == (self.by_index@.len() == 0),
    {
        self.by_index.len() == 0
    }
}

proof fn lemma_remove_keeps_indexes(s: Seq<JournalEntry>, g: int)
    requires
        indexes_differ(s),
        0 <= g < s.len(),
    ensures
        indexes_differ(s.remove(g)),
{
    let after = s.remove(g);
    assert forall|i: int, j: int| 0 <= i < j < after.len() implies (#[trigger] after[i]).index != (
    #[trigger] after[j]).index by {
        let a = if i < g { i } else { i + 1 };
        let b = if j < g { j } else { j + 1 };
        assert(s[a].index != s[b].index);
    }
}

// ---- laws ----

proof fn lemma_trusted_in(s: Seq<JournalEntry>, max_index: Option<u32>, i: int)
    requires
        0 <= i < trusted_entries(s, max_index).len(),
    ensures
        trusted(trusted_entries(s, max_index)[i], max_index),
        s.contains(trusted_entries(s, max_index)[i]),
    decreases s.len(),
{
    let short = s.drop_last();
    let inner = trusted_entries(short, max_index);
    if i < inner.len() {
        lemma_trusted_in(short, max_index, i);
        let k = choose|k: int| 0 <= k < short.len() && short[k] == inner[i];
        assert(s[k] == inner[i]);
        assert(trusted_entries(s, max_index)[i] == inner[i]);
    } else {
        assert(s[s.len() - 1] == s.last());
    }
}

proof fn lemma_first_entries_in(s: Seq<JournalEntry>, i: int)
    requires
        0 <= i < first_entries(s).len(),
    ensures
        s.contains(first_entries(s)[i]),
    decreases s.len(),
{
    let short = s.drop_last();
    let inner = first_entries(short);
    if i < inner.len() {
        lemma_first_entries_in(short, i);
        let k = choose|k: int| 0 <= k < short.len() && short[k] == inner[i];
        assert(s[k] == inner[i]);
        assert(first_entries(s)[i] == inner[i]);
    } else {
        assert(s[s.len() - 1] == s.last());
    }
}

/// A result stems from an entry of a journal that succeeded within the boundary.
pub open spec fn stems_from(
    p: JournalEntry,
    entries: Seq<JournalEntry>,
    max_index: Option<u32>,
) -> bool {
    exists|e: JournalEntry| #[trigger]
        entries.contains(e) && trusted(e, max_index) && replays(p, e)
}

/// Every result that a plan has left stems from a journal.
pub open spec fn all_stem_from(
    plan: ReplayPlan,
    entries: Seq<JournalEntry>,
    max_index: Option<u32>,
) -> bool {
    &&& forall|i: int|
        0 <= i < plan.by_key@.len() ==> stems_from(#[trigger] plan.by_key@[i], entries, max_index)
    &&& forall|i: int|
        0 <= i < plan.by_index@.len() ==> stems_from(
            #[trigger] plan.by_index@[i],
            entries,
            max_index,
        )
}

/// A plan is built of results that succeeded within the boundary.
pub proof fn law_plans_hold_trusted_results(
    plan: ReplayPlan,
    entries: Seq<JournalEntry>,
    max_index: Option<u32>,
)
    requires
        plan.holds(entries, max_index),
    ensures
        all_stem_from(plan, entries, max_index),
{
    let es = trusted_entries(entries, max_index);
    assert forall|i: int| 0 <= i < plan.by_key@.len() implies stems_from(
        #[trigger] plan.by_key@[i],
        entries,
        max_index,
    ) by {
        lemma_trusted_in(entries, max_index, i);
        assert(replays(plan.by_key@[i], es[i]));
    }
    assert forall|i: int| 0 <= i < plan.by_index@.len() implies stems_from(
        #[trigger] plan.by_index@[i],
        entries,
        max_index,
    ) by {
        let fs = first_entries(es);
        lemma_first_entries_in(es, i);
        let k = choose|k: int| 0 <= k < es.len() && es[k] == fs[i];
        lemma_trusted_in(entries, max_index, k);
        assert(replays(plan.by_index@[i], fs[i]));
    }
}

/// A failed result, or one past the boundary, is never replayed: whatever is
/// taken from a plan, in either mode and however much was taken before, came
/// from an entry that succeeded within the boundary, with the key or the index
/// that was asked for.
pub proof fn law_only_trusted_results_replay(
    before: ReplayPlan,
    after: ReplayPlan,
    entries: Seq<JournalEntry>,
    max_index: Option<u32>,
    index: u32,
    key: Seq<char>,
    r: Option<JournalEntry>,
)
    requires
        all_stem_from(before, entries, max_index),
        after.take_post(before, index, key, r),
    ensures
        all_stem_from(after, entries, max_index),
        r is Some ==> {
            &&& r->0.ok
            &&& stems_from(r->0, entries, max_index)
            &&& before.mode == ResumeMode::Exact ==> r->0.key@ == key
            &&& before.mode == ResumeMode::Positional ==> r->0.index == index
        },
{
    lemma_first_keyed(before.by_key@, key);
    lemma_first_indexed(before.by_index@, index);
    assert forall|i: int| 0 <= i < after.by_key@.len() implies stems_from(
        #[trigger] after.by_key@[i],
        entries,
        max_index,
    ) by {
        if before.mode == ResumeMode::Exact && first_keyed(before.by_key@, key) is Some {
            let g = first_keyed(before.by_key@, key)->0;
            let a = if i < g { i } else { i + 1 };
            assert(after.by_key@[i] == before.by_key@[a]);
        } else {
            assert(after.by_key@[i] == before.by_key@[i]);
        }
    }
    assert forall|i: int| 0 <= i < after.by_index@.len() implies stems_from(
        #[trigger] after.by_index@[i],
        entries,
        max_index,
    ) by {
        if before.mode == ResumeMode::Positional && first_indexed(before.by_index@, index)
            is Some {
            let g = first_indexed(before.by_index@, index)->0;
            let a = if i < g { i } else { i + 1 };
            assert(after.by_index@[i] == before.by_index@[a]);
        } else {
            assert(after.by_index@[i] == before.by_index@[i]);
        }
    }
}

pub proof fn lemma_first_keyed(s: Seq<JournalEntry>, key: Seq<char>)
    ensures
        match first_keyed(s, key) {
            Some(i) => {
                &&& 0 <= i < s.len()
                &&& s[i].key@ == key
                &&& forall|j: int| 0 <= j < i ==> (#[trigger] s[j]).key@ != key
            },
            None => forall|j: int| 0 <= j < s.len() ==> (#[trigger] s[j]).key@ != key,
        },
    decreases s.len(),
{
    if s.len() > 0 && s[0].key@ != key {
        lemma_first_keyed(s.drop_first(), key);
        assert forall|j: int| 1 <= j < s.len() implies #[trigger] s[j] == s.drop_first()[j - 1] by {}
    }
}

/// A call whose key is that of a trusted result is replayed, at any index: in
/// the exact mode some result with its key comes back.
pub proof fn law_unchanged_call_replays(
    before: ReplayPlan,
    after: ReplayPlan,
    entries: Seq<JournalEntry>,
    max_index: Option<u32>,
    at: int,
    index: u32,
    key: Seq<char>,
    r: Option<JournalEntry>,
)
    requires
        before.holds(entries, max_index),
        before.mode == ResumeMode::Exact,
        0 <= at < trusted_entries(entries, max_index).len(),
        migrated(trusted_entries(entries, max_index)[at].key@) == key,
        after.take_post(before, index, key, r),
    ensures
        r is Some,
        r->0.key@ == key,
{
    let es = trusted_entries(entries, max_index);
    lemma_first_keyed(before.by_key@, key);
    assert(replays(before.by_key@[at], es[at]));
}

/// A result is served once: after an index was taken in the positional mode,
/// taking it again gives nothing.
pub proof fn law_positions_replay_once(
    first: ReplayPlan,
    second: ReplayPlan,
    third: ReplayPlan,
    index: u32,
    key: Seq<char>,
    other_key: Seq<char>,
    r: Option<JournalEntry>,
    again: Option<JournalEntry>,
)
    requires
        first.wf(),
        first.mode == ResumeMode::Positional,
        second.take_post(first, index, key, r),
        third.take_post(second, index, other_key, again),
    ensures
        again is None,
{
    lemma_first_indexed(first.by_index@, index);
    lemma_first_indexed(second.by_index@, index);
    if let Some(g) = first_indexed(first.by_index@, index) {
        if let Some(k) = first_indexed(second.by_index@, index) {
            let a = if k < g { k } else { k + 1 };
            assert(first.by_index@[a].index == index);
            if a < g {
                assert(first.by_index@[a].index != first.by_index@[g].index);
            } else {
                assert(first.by_index@[g].index != first.by_index@[a].index);
            }
        }
    }
}

} // verus!
