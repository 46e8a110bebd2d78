//! What holds of workflow runs as a whole, said of their journal, their calls and
//! their answers.
use vstd::prelude::*;
#[allow(unused_imports)]
use vstd::string::*;

#[allow(unused_imports)]
use crate::coordinator::types::{ModelVerdict, SubagentResult, SubagentValidateTypeOutcome};
#[allow(unused_imports)]
use crate::json::{
    JsonKind, json_field, json_first, json_object, json_parsed, json_pretty, json_quoted, kind_of,
};
#[allow(unused_imports)]
use crate::text::{
    blank, byte_len, decimal, has_part, has_prefix, has_suffix, in_list, lemma_until, lowercased,
    occurs_at, option_view, trimmed, until, views,
};
#[allow(unused_imports)]
use crate::workflow::agent::{AgentEvent, AgentNext, AgentPayload, AgentRun, AgentStage, AgentStep};
#[allow(unused_imports)]
use crate::workflow::host::{
    AgentAdmission, AgentAnswer, AgentOutcome, ProgressNote, Settled, SpawnEvent,
    SubagentIsolationMode, WorkflowHost, answers, call_verdict, corrective_prompt, duration_text,
    first_outcome, label_of, nested_tool_error, opening_prompt, schema_of, second_outcome,
    spawn_brought, subagent_type, type_of,
};
#[allow(unused_imports)]
use crate::workflow::launch::{
    LaunchEvent, WorkflowLaunchAck, WorkflowSource, WorkflowToolInput, after_last_colon,
    input_error, launch_answer, normalized, started_message, wire_input,
};
#[allow(unused_imports)]
use crate::workflow::output::{
    embedded_from, fence_body, fits_type, opens_value, schema_value, value_in,
};
#[allow(unused_imports)]
use crate::workflow::progress::{
    AgentProgressEntry, AgentStatus, agent_at, summary_text, tail_of, with_agent,
    with_agent_status, with_line,
};
#[allow(unused_imports)]
use crate::workflow::replay::{
    AgentCallInput, JournalEntry, PointKey, ReplayPlan, ResumeMode, are_known_points,
    field_or_null, first_entries, first_indexed, first_keyed, has_index, is_point_of, key_fields,
    key_of, last_of_label, last_of_phase, lemma_first_indexed, lemma_first_keyed, migrated,
    point_index, point_of, points_of, replays, trusted, trusted_entries,
};

verus! {

// ---- the boundary ----

/// A point stands for the last entry of the phase that it names: its index is that of
/// some entry of the phase, and no entry of the phase has a greater one. Where no
/// entry has the phase, the same holds of the label, and where none has either, the
/// point stands for nothing.
pub proof fn law_points_stand_for_the_last_entry(ks: Seq<PointKey>, wanted: Seq<char>)
    ensures
        (exists|i: int| 0 <= i < ks.len() && option_view((#[trigger] ks[i]).phase) == Some(wanted))
            ==> {
            &&& point_index(ks, wanted) is Some
            &&& exists|i: int|
                0 <= i < ks.len() && option_view((#[trigger] ks[i]).phase) == Some(wanted)
                    && ks[i].index == point_index(ks, wanted)->0
            &&& forall|i: int|
                0 <= i < ks.len() && option_view((#[trigger] ks[i]).phase) == Some(wanted)
                    ==> ks[i].index <= point_index(ks, wanted)->0
        },
        (forall|i: int|
            0 <= i < ks.len() ==> option_view((#[trigger] ks[i]).phase) != Some(wanted)) && (exists|
            i: int,
        | 0 <= i < ks.len() && option_view((#[trigger] ks[i]).label) == Some(wanted)) ==> {
            &&& point_index(ks, wanted) is Some
            &&& exists|i: int|
                0 <= i < ks.len() && option_view((#[trigger] ks[i]).label) == Some(wanted)
                    && ks[i].index == point_index(ks, wanted)->0
            &&& forall|i: int|
                0 <= i < ks.len() && option_view((#[trigger] ks[i]).label) == Some(wanted)
                    ==> ks[i].index <= point_index(ks, wanted)->0
        },
        (forall|i: int|
            0 <= i < ks.len() ==> option_view((#[trigger] ks[i]).phase) != Some(wanted)
                && option_view(ks[i].label) != Some(wanted)) ==> point_index(ks, wanted) is None,
{
    lemma_last_of_phase(ks, wanted);
    lemma_last_of_label(ks, wanted);
}

proof fn lemma_last_of_phase(ks: Seq<PointKey>, wanted: Seq<char>)
    ensures
        match last_of_phase(ks, wanted) {
            Some(n) => {
                &&& exists|i: int|
                    0 <= i < ks.len() && option_view((#[trigger] ks[i]).phase) == Some(wanted)
                        && ks[i].index == n
                &&& forall|i: int|
                    0 <= i < ks.len() && option_view((#[trigger] ks[i]).phase) == Some(wanted)
                        ==> ks[i].index <= n
            },
            None => forall|i: int|
                0 <= i < ks.len() ==> option_view((#[trigger] ks[i]).phase) != Some(wanted),
        },
    decreases ks.len(),
{
    if ks.len() > 0 {
        let t = ks.drop_last();
        lemma_last_of_phase(t, wanted);
        assert forall|i: int| 0 <= i < t.len() implies #[trigger] ks[i] == t[i] by {}
        if let Some(n) = last_of_phase(t, wanted) {
            let i = choose|i: int|
                0 <= i < t.len() && option_view((#[trigger] t[i]).phase) == Some(wanted)
                    && t[i].index == n;
            assert(ks[i] == t[i]);
        }
        assert(ks[ks.len() - 1] == ks.last());
    }
}

proof fn lemma_last_of_label(ks: Seq<PointKey>, wanted: Seq<char>)
    ensures
        match last_of_label(ks, wanted) {
            Some(n) => {
                &&& exists|i: int|
                    0 <= i < ks.len() && option_view((#[trigger] ks[i]).label) == Some(wanted)
                        && ks[i].index == n
                &&& forall|i: int|
                    0 <= i < ks.len() && option_view((#[trigger] ks[i]).label) == Some(wanted)
                        ==> ks[i].index <= n
            },
            None => forall|i: int|
                0 <= i < ks.len() ==> option_view((#[trigger] ks[i]).label) != Some(wanted),
        },
    decreases ks.len(),
{
    if ks.len() > 0 {
        let t = ks.drop_last();
        lemma_last_of_label(t, wanted);
        assert forall|i: int| 0 <= i < t.len() implies #[trigger] ks[i] == t[i] by {}
        if let Some(n) = last_of_label(t, wanted) {
            let i = choose|i: int|
                0 <= i < t.len() && option_view((#[trigger] t[i]).label) == Some(wanted)
                    && t[i].index == n;
            assert(ks[i] == t[i]);
        }
        assert(ks[ks.len() - 1] == ks.last());
    }
}

// ---- the plan ----

proof fn lemma_trusted_filter(es: Seq<JournalEntry>, max_index: Option<u32>)
    ensures
        trusted_entries(es, max_index) == es.filter(
            |e: JournalEntry| e.ok && (max_index is None || e.index <= max_index->0),
        ),
    decreases es.len(),
{
    reveal(Seq::filter);
    if es.len() > 0 {
        lemma_trusted_filter(es.drop_last(), max_index);
    }
}

/// A plan holds every result that succeeded within the boundary, in the order of the
/// journal and as it was journaled, and nothing else.
pub proof fn law_plans_hold_all_trusted_results(
    plan: ReplayPlan,
    es: Seq<JournalEntry>,
    max_index: Option<u32>,
)
    requires
        plan.holds(es, max_index),
    ensures
        ({
            let good = es.filter(
                |e: JournalEntry| e.ok && (max_index is None || e.index <= max_index->0),
            );
            &&& plan.by_key@.len() == good.len()
            &&& forall|i: int|
                0 <= i < good.len() ==> {
                    let p = #[trigger] plan.by_key@[i];
                    &&& p.index == good[i].index
                    &&& p.ok
                    &&& p.value == good[i].value
                    &&& p.label == good[i].label
                    &&& p.phase == good[i].phase
                    &&& p.tokens_used == good[i].tokens_used
                    &&& p.agent_id == good[i].agent_id
                }
        }),
{
    lemma_trusted_filter(es, max_index);
    let good = trusted_entries(es, max_index);
    assert forall|i: int| 0 <= i < good.len() implies replays(#[trigger] plan.by_key@[i], good[i]) by {}
    assert forall|i: int| 0 <= i < good.len() implies (#[trigger] plan.by_key@[i]).ok by {
        lemma_trusted_is_ok(es, max_index, i);
    }
}

proof fn lemma_trusted_is_ok(es: Seq<JournalEntry>, max_index: Option<u32>, i: int)
    requires
        0 <= i < trusted_entries(es, max_index).len(),
    ensures
        trusted_entries(es, max_index)[i].ok,
        max_index is Some ==> trusted_entries(es, max_index)[i].index <= max_index->0,
    decreases es.len(),
{
    if es.len() > 0 && i < trusted_entries(es.drop_last(), max_index).len() {
        lemma_trusted_is_ok(es.drop_last(), max_index, i);
    }
}

/// By position, a plan serves for each index the first result that the journal has of
/// it, and no index twice.
pub proof fn law_positions_hold_the_first_result(
    plan: ReplayPlan,
    es: Seq<JournalEntry>,
    max_index: Option<u32>,
    i: int,
)
    requires
        plan.holds(es, max_index),
        0 <= i < es.len(),
        es[i].ok,
        max_index is None || es[i].index <= max_index->0,
        forall|j: int| 0 <= j < i && (#[trigger] es[j]).index == es[i].index ==> !es[j].ok,
    ensures
        exists|k: int|
            0 <= k < plan.by_index@.len() && (#[trigger] plan.by_index@[k]).index == es[i].index
                && plan.by_index@[k].value == es[i].value && plan.by_index@[k].agent_id
                == es[i].agent_id,
{
    let good = trusted_entries(es, max_index);
    let firsts = first_entries(good);
    lemma_first_is_kept(es, max_index, i);
    let k = choose|k: int| 0 <= k < firsts.len() && #[trigger] firsts[k] == es[i];
    assert(replays(plan.by_index@[k], firsts[k]));
}

proof fn lemma_first_is_kept(es: Seq<JournalEntry>, max_index: Option<u32>, i: int)
    requires
        0 <= i < es.len(),
        es[i].ok,
        max_index is None || es[i].index <= max_index->0,
        forall|j: int| 0 <= j < i && (#[trigger] es[j]).index == es[i].index ==> !es[j].ok,
    ensures
        exists|k: int|
            0 <= k < first_entries(trusted_entries(es, max_index)).len() && #[trigger] first_entries(
                trusted_entries(es, max_index),
            )[k] == es[i],
    decreases es.len(),
{
    let t = es.drop_last();
    let good_t = trusted_entries(t, max_index);
    let firsts_t = first_entries(good_t);
    let good = trusted_entries(es, max_index);
    let firsts = first_entries(good);
    if i < t.len() {
        assert forall|j: int| 0 <= j < i && (#[trigger] t[j]).index == t[i].index implies !t[j].ok by {
            assert(es[j] == t[j]);
        }
        lemma_first_is_kept(t, max_index, i);
        let k = choose|k: int| 0 <= k < firsts_t.len() && #[trigger] firsts_t[k] == es[i];
        if trusted(es.last(), max_index) {
            assert(good.drop_last() =~= good_t);
        }
        assert(firsts[k] == es[i]);
    } else {
        assert(good.drop_last() =~= good_t);
        assert(good.last() == es[i]);
        if has_index(firsts_t, es[i].index) {
            let k = choose|k: int|
                0 <= k < firsts_t.len() && (#[trigger] firsts_t[k]).index == es[i].index;
            lemma_first_stands(good_t, k);
            let m = choose|m: int| 0 <= m < good_t.len() && good_t[m] == firsts_t[k];
            lemma_trusted_stands(t, max_index, m);
            let j = choose|j: int| 0 <= j < t.len() && t[j] == good_t[m];
            lemma_trusted_is_ok(t, max_index, m);
            assert(es[j] == t[j]);
        }
        assert(firsts[firsts_t.len() as int] == es[i]);
    }
}

proof fn lemma_first_stands(s: Seq<JournalEntry>, k: int)
    requires
        0 <= k < first_entries(s).len(),
    ensures
        s.contains(first_entries(s)[k]),
    decreases s.len(),
{
    let before = first_entries(s.drop_last());
    if k < before.len() {
        lemma_first_stands(s.drop_last(), k);
        let m = choose|m: int| 0 <= m < s.drop_last().len() && s.drop_last()[m] == before[k];
        assert(s[m] == before[k]);
    } else {
        assert(s[s.len() - 1] == first_entries(s)[k]);
    }
}

proof fn lemma_trusted_stands(es: Seq<JournalEntry>, max_index: Option<u32>, k: int)
    requires
        0 <= k < trusted_entries(es, max_index).len(),
    ensures
        es.contains(trusted_entries(es, max_index)[k]),
    decreases es.len(),
{
    let before = trusted_entries(es.drop_last(), max_index);
    if k < before.len() {
        lemma_trusted_stands(es.drop_last(), max_index, k);
        let m = choose|m: int| 0 <= m < es.drop_last().len() && es.drop_last()[m] == before[k];
        assert(es[m] == before[k]);
    } else {
        assert(es[es.len() - 1] == trusted_entries(es, max_index)[k]);
    }
}

/// A resume through a phase replays the whole phase: every success of it is in the
/// plan, at its index and with its value.
pub proof fn law_whole_phases_are_replayed(
    plan: ReplayPlan,
    es: Seq<JournalEntry>,
    ks: Seq<PointKey>,
    wanted: Seq<char>,
    i: int,
)
    requires
        points_of(ks, es),
        point_index(ks, wanted) is Some,
        plan.holds(es, point_index(ks, wanted)),
        0 <= i < es.len(),
        es[i].ok,
        es[i].phase is Some,
        lowercased(trimmed(es[i].phase->0@)) == wanted,
    ensures
        exists|k: int|
            0 <= k < plan.by_key@.len() && (#[trigger] plan.by_key@[k]).index == es[i].index
                && plan.by_key@[k].value == es[i].value,
{
    let max_index = point_index(ks, wanted);
    assert(point_of(ks[i], es[i]));
    law_points_stand_for_the_last_entry(ks, wanted);
    law_plans_hold_all_trusted_results(plan, es, max_index);
    let pred = |e: JournalEntry| e.ok && (max_index is None || e.index <= max_index->0);
    let good = es.filter(pred);
    assert(pred(es[i]));
    es.lemma_filter_contains(pred, i);
    let k = choose|k: int| 0 <= k < good.len() && good[k] == es[i];
    assert(plan.by_key@[k].index == good[k].index);
}

/// Taking from a plan serves the first result that fits, by key where the wording
/// counts and else by position, and leaves all the others.
pub proof fn law_the_first_fitting_result_is_served(
    before: ReplayPlan,
    after: ReplayPlan,
    index: u32,
    key: Seq<char>,
    r: Option<JournalEntry>,
)
    requires
        after.take_post(before, index, key, r),
    ensures
        before.mode == ResumeMode::Exact ==> after.by_index@ == before.by_index@ && match r {
            Some(e) => exists|i: int|
                {
                    &&& 0 <= i < before.by_key@.len()
                    &&& (#[trigger] before.by_key@[i]) == e
                    &&& e.key@ == key
                    &&& after.by_key@ == before.by_key@.remove(i)
                    &&& forall|j: int| 0 <= j < i ==> (#[trigger] before.by_key@[j]).key@ != key
                },
            None => after.by_key@ == before.by_key@ && forall|j: int|
                0 <= j < before.by_key@.len() ==> (#[trigger] before.by_key@[j]).key@ != key,
        },
        before.mode == ResumeMode::Positional ==> after.by_key@ == before.by_key@ && match r {
            Some(e) => exists|i: int|
                {
                    &&& 0 <= i < before.by_index@.len()
                    &&& (#[trigger] before.by_index@[i]) == e
                    &&& e.index == index
                    &&& after.by_index@ == before.by_index@.remove(i)
                },
            None => after.by_index@ == before.by_index@ && forall|j: int|
                0 <= j < before.by_index@.len() ==> (#[trigger] before.by_index@[j]).index != index,
        },
{
    lemma_first_keyed(before.by_key@, key);
    lemma_first_indexed(before.by_index@, index);
    match before.mode {
        ResumeMode::Exact => {
            if let Some(i) = first_keyed(before.by_key@, key) {
                assert(before.by_key@[i].key@ == key);
            }
        },
        ResumeMode::Positional => {
            if let Some(i) = first_indexed(before.by_index@, index) {
                assert(before.by_index@[i].index == index);
            }
        },
    }
}

/// The key of a call does not hang on its index, its label or its phase: calls with
/// the same prompt and options have the same key.
pub proof fn law_labels_do_not_change_the_key(a: AgentCallInput, b: AgentCallInput)
    requires
        a.prompt@ == b.prompt@,
        a.schema == b.schema,
        option_view(a.model) == option_view(b.model),
        option_view(a.effort) == option_view(b.effort),
        option_view(a.isolation) == option_view(b.isolation),
        option_view(a.agent_type) == option_view(b.agent_type),
    ensures
        key_of(a) == key_of(b),
{
}

/// The points that a refusal names are the phases and labels of the journal.
pub proof fn law_known_points_are_those_of_the_journal(known: Seq<String>, es: Seq<JournalEntry>)
    requires
        are_known_points(known, es),
    ensures
        forall|i: int|
            0 <= i < es.len() && (#[trigger] es[i]).phase is Some ==> in_list(
                known,
                es[i].phase->0@,
            ),
        forall|i: int|
            0 <= i < es.len() && (#[trigger] es[i]).label is Some ==> in_list(
                known,
                es[i].label->0@,
            ),
        forall|s: Seq<char>| #[trigger]
            in_list(known, s) ==> exists|i: int|
                0 <= i < es.len() && (option_view((#[trigger] es[i]).phase) == Some(s)
                    || option_view(es[i].label) == Some(s)),
{
    assert forall|s: Seq<char>| #[trigger] in_list(known, s) implies exists|i: int|
        0 <= i < es.len() && (option_view((#[trigger] es[i]).phase) == Some(s) || option_view(
            es[i].label,
        ) == Some(s)) by {
        let i = choose|i: int| 0 <= i < es.len() && is_point_of(#[trigger] es[i], s);
        assert(option_view(es[i].phase) == Some(s) || option_view(es[i].label) == Some(s));
    }
    assert forall|i: int| 0 <= i < es.len() && (#[trigger] es[i]).phase is Some implies in_list(
        known,
        es[i].phase->0@,
    ) by {
        assert(is_point_of(es[i], es[i].phase->0@));
    }
    assert forall|i: int| 0 <= i < es.len() && (#[trigger] es[i]).label is Some implies in_list(
        known,
        es[i].label->0@,
    ) by {
        assert(is_point_of(es[i], es[i].label->0@));
    }
}

// ---- calls ----

/// A call is let through exactly where its agent type is known, its model, if it names
/// one, is accepted, and its isolation is one that there is.
pub proof fn law_calls_are_checked(
    call: AgentCallInput,
    outcome: SubagentValidateTypeOutcome,
    verdict: ModelVerdict,
)
    ensures
        call_verdict(call, outcome, verdict) is Ok <==> {
            &&& outcome is Known
            &&& call.model is None || verdict is Accepted
            &&& call.isolation is None || call.isolation->0@ == "none"@ || call.isolation->0@
                == "worktree"@
        },
        call_verdict(call, outcome, verdict) matches Ok(mode) ==> (mode == Some(
            SubagentIsolationMode::Worktree,
        ) <==> call.isolation is Some && call.isolation->0@ == "worktree"@),
        outcome is Known && call.model is Some ==> (verdict matches ModelVerdict::Rejected(e)
            ==> call_verdict(call, outcome, verdict) == Err::<
            Option<SubagentIsolationMode>,
            Seq<char>,
        >(e@)),
{
    reveal_strlit("none");
    reveal_strlit("worktree");
    assert("none"@[0] == 'n' && "worktree"@[0] == 'w');
}

/// What an agent is asked: the prompt of its call stands first, and where the call has
/// a schema, the schema follows.
pub proof fn law_agents_get_the_prompt_of_their_call(call: AgentCallInput)
    ensures
        has_prefix(opening_prompt(call), call.prompt@),
        call.schema is None ==> opening_prompt(call) == call.prompt@,
        call.schema matches Some(s) ==> has_part(opening_prompt(call), json_pretty(s@)),
{
    let p = opening_prompt(call);
    assert(p.subrange(0, call.prompt@.len() as int) =~= call.prompt@);
    if let Some(s) = call.schema {
        let head = call.prompt@
            + "\n\n<output_contract>\nYour FINAL message must be exactly one JSON value that validates against this JSON Schema — no prose before or after it, no code fences:\n"@;
        let pretty = json_pretty(s@);
        assert(p.subrange(head.len() as int, (head.len() + pretty.len()) as int) =~= pretty);
        assert(occurs_at(p, pretty, head.len() as int));
    }
}

/// A place is used for the call: its agent gets the prompt of the call, the type, the
/// model, the effort and the isolation that it asks for, under the session and the run
/// of the host.
pub proof fn law_places_run_their_call(
    before: WorkflowHost,
    after: WorkflowHost,
    run: AgentRun,
    isolation: Option<SubagentIsolationMode>,
    step: AgentStep,
)
    requires
        after.place_post(before, run, isolation, step),
    ensures
        step.next matches AgentNext::Spawn { run: later, request } && {
            &&& has_prefix(request.prompt@, run.call.prompt@)
            &&& request.subagent_type@ == run.subagent_type@
            &&& request.model == run.call.model
            &&& request.reasoning_effort == run.call.effort
            &&& request.isolation == isolation
            &&& request.index == run.call.index
            &&& request.item == run.call.label
            &&& request.parent_session_id == before.parent_session_id
            &&& request.parent_prompt_id == before.parent_prompt_id
            &&& request.swarm_id == before.run_id
            &&& request.resume_from is None
            &&& !request.run_in_background
            &&& !request.surface_completion
            &&& later.call == run.call
            &&& later.key == run.key
            &&& later.label == run.label
        },
        after.tokens_spent == before.tokens_spent,
        after.replay == before.replay,
{
    law_agents_get_the_prompt_of_their_call(run.call);
}

/// How an attempt is judged: a cancelled or failed agent is an error with its reason,
/// and what a good one brings is its output, or where there is a schema the value in
/// it. Its tokens and its time count either way.
pub proof fn law_attempts_are_judged_by_their_result(
    schema: Option<Seq<char>>,
    id: Seq<char>,
    result: SubagentResult,
)
    ensures
        first_outcome(schema, id, result) is None <==> !result.cancelled && result.success
            && schema is Some && schema_value(result.output@, schema->0) is None,
        first_outcome(schema, id, result) matches Some(o) ==> {
            &&& o.error is None <==> result.success && !result.cancelled
            &&& o.agent_id == Some(id)
            &&& o.tokens_used == result.tokens_used
            &&& o.duration_ms == result.duration_ms
            &&& o.error is None && schema is None ==> o.value == json_quoted(result.output@)
            &&& o.error is None && schema is Some ==> schema_value(result.output@, schema->0)
                == Some(o.value)
            &&& !result.cancelled && !result.success && result.error is Some ==> o.error == Some(
                result.error->0@,
            )
            &&& o.error is Some ==> o.value == "null"@
        },
{
}

/// How a second attempt is judged: it counts only if it succeeded and its output has a
/// value that fits, and the tokens and the time of both attempts count.
pub proof fn law_second_attempts_need_a_value(
    schema: Seq<char>,
    first_id: Seq<char>,
    tokens: nat,
    duration: nat,
    retry: Result<(String, SubagentResult), String>,
)
    ensures
        ({
            let o = second_outcome(schema, first_id, tokens, duration, retry);
            &&& o.error is None <==> retry is Ok && retry->Ok_0.1.success && schema_value(
                retry->Ok_0.1.output@,
                schema,
            ) is Some
            &&& o.error is None ==> schema_value(retry->Ok_0.1.output@, schema) == Some(o.value)
                && o.agent_id == Some(retry->Ok_0.0@)
            &&& retry is Ok ==> o.tokens_used == tokens + retry->Ok_0.1.tokens_used
                && o.duration_ms == duration + retry->Ok_0.1.duration_ms
            &&& retry is Err ==> o.tokens_used == tokens && o.duration_ms == duration && o.agent_id
                == Some(first_id)
        }),
{
}

/// The tokens of an agent are counted whatever it brought.
pub proof fn law_tokens_are_counted(
    before: WorkflowHost,
    after: WorkflowHost,
    call: AgentCallInput,
    label: Seq<char>,
    id: Seq<char>,
    result: SubagentResult,
    r: Settled,
)
    requires
        after.settle_post(before, call, label, id, result, r),
        before.tokens_spent + result.tokens_used <= u64::MAX,
    ensures
        after.tokens_spent == before.tokens_spent + result.tokens_used,
        after.replay == before.replay,
        after.agents_started == before.agents_started,
        r is Retry ==> result.success && !result.cancelled && call.schema is Some,
{
}

/// What waiting for an agent brings: its own result where it finished, and else an
/// error or a failure that says why.
pub proof fn law_waits_bring_the_result(
    event: SpawnEvent,
    id: Seq<char>,
    timeout_ms: u64,
    r: Result<SubagentResult, String>,
)
    requires
        spawn_brought(event, id, timeout_ms, r),
    ensures
        event matches SpawnEvent::Finished(result) ==> r == Ok::<SubagentResult, String>(result),
        event is Failed || event is Cancelled ==> r is Err,
        event matches SpawnEvent::Failed { error } ==> has_suffix(r->Err_0@, error@),
        event is TimedOut ==> r is Ok && !r->Ok_0.success && !r->Ok_0.cancelled && r->Ok_0.error
            is Some && r->Ok_0.duration_ms == timeout_ms && r->Ok_0.subagent_id@ == id
            && r->Ok_0.tokens_used == 0,
{
    if let SpawnEvent::Failed { error } = event {
        let head = "agent spawn failed: "@;
        assert((head + error@).subrange(head.len() as int, (head + error@).len() as int)
            =~= error@);
    }
    if event is TimedOut {
        assert(r->Ok_0@.error is Some);
    }
}

/// A call is admitted only within the budget and the cap of agents, and replayed
/// exactly where the plan has a result for it, whose value it then gives, marked as
/// cached and without new tokens.
pub proof fn law_calls_are_admitted_within_limits(
    before: WorkflowHost,
    after: WorkflowHost,
    call: AgentCallInput,
    r: Result<AgentAdmission, String>,
)
    requires
        after.begin_post(before, call, r),
    ensures
        r is Ok <==> (before.token_budget is None || before.tokens_spent < before.token_budget->0)
            && before.agents_started < 1000,
        r is Ok ==> after.agents_started == before.agents_started + 1,
        after.tokens_spent == before.tokens_spent,
        r matches Ok(AgentAdmission::Replayed { answer, entry, .. }) ==> {
            &&& answer.ok
            &&& answer.cached
            &&& answer.error is None
            &&& answer.budget_spent == before.tokens_spent
            &&& answer.value@ == entry.value@
            &&& entry.index == call.index
            &&& before.replay.mode == ResumeMode::Exact ==> exists|i: int|
                0 <= i < before.replay.by_key@.len() && (
                #[trigger] before.replay.by_key@[i]).key@ == key_of(call)
                    && before.replay.by_key@[i].value == entry.value
            &&& before.replay.mode == ResumeMode::Positional ==> exists|i: int|
                0 <= i < before.replay.by_index@.len() && (
                #[trigger] before.replay.by_index@[i]).index == call.index
                    && before.replay.by_index@[i].value == entry.value
        },
        r matches Ok(AgentAdmission::Fresh { label, key, subagent_type }) ==> {
            &&& key@ == key_of(call)
            &&& call.agent_type is Some ==> subagent_type@ == call.agent_type->0@
            &&& call.agent_type is None ==> subagent_type@ == "general-purpose"@
            &&& before.replay.mode == ResumeMode::Exact ==> forall|i: int|
                0 <= i < before.replay.by_key@.len() ==> (
                #[trigger] before.replay.by_key@[i]).key@ != key_of(call)
            &&& before.replay.mode == ResumeMode::Positional ==> forall|i: int|
                0 <= i < before.replay.by_index@.len() ==> (
                #[trigger] before.replay.by_index@[i]).index != call.index
        },
{
    if (before.token_budget is None || before.tokens_spent < before.token_budget->0)
        && before.agents_started < 1000 {
        let found = choose|found: Option<JournalEntry>|
            {
                &&& #[trigger] after.replay.take_post(
                    before.replay,
                    call.index,
                    key_of(call),
                    found,
                )
                &&& match (found, r) {
                    (Some(e), Ok(AgentAdmission::Replayed { answer, entry, note })) => {
                        &&& answers(
                            answer,
                            e.value@,
                            None,
                            before.tokens_spent,
                            option_view(e.agent_id),
                            true,
                        )
                        &&& entry == (JournalEntry { index: call.index, key: entry.key, ..e })
                        &&& entry.key@ == key_of(call)
                        &&& after.agent_noted(
                            before,
                            call,
                            label_of(call),
                            AgentStatus::Cached,
                            None,
                            "↺ "@ + label_of(call) + " (replayed from journal)"@,
                            note,
                        )
                    },
                    (
                        None,
                        Ok(AgentAdmission::Fresh { label: shown, key, subagent_type }),
                    ) => {
                        &&& after.state == before.state
                        &&& shown@ == label_of(call)
                        &&& key@ == key_of(call)
                        &&& subagent_type@ == type_of(call)
                    },
                    _ => false,
                }
            };
        law_the_first_fitting_result_is_served(
            before.replay,
            after.replay,
            call.index,
            key_of(call),
            found,
        );
    }
}

/// The answer to a call tells how it ended: good with its value, or its error; and a
/// good result is journaled under the key, the label and the phase of its call.
pub proof fn law_answers_tell_the_outcome(
    before: WorkflowHost,
    after: WorkflowHost,
    call: AgentCallInput,
    key: String,
    label: Seq<char>,
    outcome: AgentOutcome,
    answer: AgentAnswer,
    entry: Option<JournalEntry>,
    note: ProgressNote,
)
    requires
        after.conclude_post(before, call, key, label, outcome, answer, entry, note),
    ensures
        answer.ok <==> outcome.error is None,
        answer.value@ == outcome.value@,
        option_view(answer.error) == option_view(outcome.error),
        option_view(answer.agent_id) == option_view(outcome.agent_id),
        answer.budget_spent == before.tokens_spent,
        !answer.cached,
        outcome.error is Some <==> entry is None,
        entry matches Some(e) ==> e.ok && e.index == call.index && e.key == key && e.value
            == outcome.value && e.label == call.label && e.phase == call.phase && e.tokens_used
            == outcome.tokens_used && e.duration_ms == outcome.duration_ms && e.agent_id
            == outcome.agent_id,
{
}

/// What a call is shown as: its label where it has one that says something, and else
/// its number and the start of its prompt.
pub proof fn law_labels_name_the_call(call: AgentCallInput)
    ensures
        call.label is Some && !blank(call.label->0@) ==> label_of(call) == call.label->0@,
        call.label is None && call.prompt@.len() <= 48 ==> has_suffix(label_of(call), call.prompt@)
            && has_prefix(label_of(call), "agent#"@ + decimal(call.index as nat)),
        call.label is None && call.prompt@.len() > 48 ==> has_part(
            label_of(call),
            call.prompt@.take(48),
        ) && has_prefix(label_of(call), "agent#"@ + decimal(call.index as nat)),
{
    let start = "agent#"@ + decimal(call.index as nat);
    let head = start + ": "@;
    let l = label_of(call);
    if call.label is None {
        assert(l.subrange(0, start.len() as int) =~= start);
        if call.prompt@.len() > 48 {
            let p = call.prompt@.take(48);
            assert(l.subrange(head.len() as int, (head.len() + 48) as int) =~= p);
            assert(occurs_at(l, p, head.len() as int));
        } else {
            assert(l.subrange(head.len() as int, l.len() as int) =~= call.prompt@);
        }
    }
}

// ---- progress ----

/// An agent has one entry, the latest; those of other agents stay.
pub proof fn law_progress_has_one_entry_per_agent(
    s: Seq<AgentProgressEntry>,
    e: AgentProgressEntry,
)
    ensures
        with_agent(s, e).contains(e),
        forall|i: int|
            0 <= i < s.len() && (#[trigger] s[i]).index != e.index ==> with_agent(s, e)[i] == s[i],
        (forall|i: int| 0 <= i < s.len() ==> (#[trigger] s[i]).index != e.index) ==> with_agent(
            s,
            e,
        ) == s.push(e),
        (exists|i: int| 0 <= i < s.len() && (#[trigger] s[i]).index == e.index) ==> with_agent(
            s,
            e,
        ).len() == s.len(),
{
    lemma_agent_at(s, e.index);
    match agent_at(s, e.index) {
        Some(i) => {
            assert(with_agent(s, e)[i] == e);
        },
        None => {
            assert(with_agent(s, e)[s.len() as int] == e);
        },
    }
}

proof fn lemma_agent_at(s: Seq<AgentProgressEntry>, index: u32)
    ensures
        match agent_at(s, index) {
            Some(i) => 0 <= i < s.len() && s[i].index == index,
            None => forall|i: int| 0 <= i < s.len() ==> (#[trigger] s[i]).index != index,
        },
    decreases s.len(),
{
    if s.len() > 0 && s[0].index != index {
        lemma_agent_at(s.drop_first(), index);
        assert forall|j: int| 1 <= j < s.len() implies #[trigger] s[j] == s.drop_first()[j - 1] by {}
    }
}

/// The log keeps the newest lines, four hundred at most, and is shown by its last
/// forty.
pub proof fn law_logs_keep_the_newest_lines(s: Seq<String>, line: String)
    requires
        s.len() <= 400,
    ensures
        with_line(s, line).len() <= 400,
        with_line(s, line).last() == line,
        s.len() < 400 ==> with_line(s, line) == s.push(line),
        s.len() == 400 ==> forall|i: int|
            1 <= i < s.len() ==> with_line(s, line)[i - 1] == #[trigger] s[i],
        tail_of(s).len() <= 40,
        s.len() <= 40 ==> tail_of(s) == s,
        s.len() > 40 ==> tail_of(s).len() == 40 && forall|i: int|
            0 <= i < 40 ==> #[trigger] tail_of(s)[i] == s[s.len() - 40 + i],
{
}

/// The counts of a state are those of its agents.
pub proof fn law_agents_are_counted_by_status(s: Seq<AgentProgressEntry>, status: AgentStatus)
    ensures
        with_agent_status(s, status) == s.filter(|e: AgentProgressEntry| e.status == status).len(),
    decreases s.len(),
{
    reveal(Seq::filter);
    if s.len() > 0 {
        law_agents_are_counted_by_status(s.drop_last(), status);
    }
}

// ---- launching ----

/// What may be launched: a budget, if any, from 1 to 1024 agents; either a paused run
/// alone, or exactly one of a name, a script and a script path; and a note only for a
/// run that is resumed for real, in 16384 bytes.
pub proof fn law_launches_name_one_source(input: WorkflowToolInput)
    ensures
        input_error(input) is None <==> {
            let given = |o: Option<String>| o is Some && !blank(o->0@);
            let (n, s, p) = (given(input.name), given(input.script), given(input.script_path));
            &&& input.agent_budget is Some ==> 1 <= input.agent_budget->0 <= 1024
            &&& input.resume_note matches Some(note) ==> !blank(note@) && input.resume_from_run_id
                is Some && !input.validate_only && byte_len(note@) <= 16384
            &&& given(input.resume_from_run_id) ==> input.args is None && !input.validate_only && !n
                && !s && !p
            &&& !given(input.resume_from_run_id) ==> (n && !s && !p) || (!n && s && !p) || (!n && !s
                && p)
        },
{
}

/// Normalizing drops blank names and keeps everything else.
pub proof fn law_normalizing_drops_blanks(input: WorkflowToolInput)
    ensures
        ({
            let r = normalized(input);
            &&& r.name == (if input.name is Some && !blank(input.name->0@) {
                input.name
            } else {
                None
            })
            &&& r.script == (if input.script is Some && !blank(input.script->0@) {
                input.script
            } else {
                None
            })
            &&& r.script_path == (if input.script_path is Some && !blank(input.script_path->0@) {
                input.script_path
            } else {
                None
            })
            &&& r.resume_from_run_id == (if input.resume_from_run_id is Some && !blank(
                input.resume_from_run_id->0@,
            ) {
                input.resume_from_run_id
            } else {
                None
            })
            &&& r.args == input.args
            &&& r.agent_budget == input.agent_budget
            &&& r.resume_note == input.resume_note
            &&& r.validate_only == input.validate_only
        }),
{
}

/// A tagged source is the one that is launched, and it cannot stand beside another.
pub proof fn law_tagged_sources_are_used(source: WorkflowSource, fields: WorkflowToolInput)
    ensures
        wire_input(Some(source), fields) matches Ok(input) ==> {
            &&& source matches WorkflowSource::Name { name } ==> input.name == Some(name)
            &&& source matches WorkflowSource::Script { script } ==> input.script == Some(script)
            &&& source matches WorkflowSource::ScriptPath { script_path } ==> input.script_path
                == Some(script_path)
            &&& source matches WorkflowSource::Resume { resume_from_run_id }
                ==> input.resume_from_run_id == Some(resume_from_run_id)
            &&& input.args == fields.args
            &&& input.agent_budget == fields.agent_budget
            &&& input_error(input) is None
        },
        fields.name is Some && !blank(fields.name->0@) ==> wire_input(Some(source), fields) is Err,
        fields.script is Some && !blank(fields.script->0@) ==> wire_input(Some(source), fields)
            is Err,
        fields.script_path is Some && !blank(fields.script_path->0@) ==> wire_input(
            Some(source),
            fields,
        ) is Err,
{
}

/// A launch is answered by the session: a run that started with its ids and its name,
/// a check that passed without them, and a refusal with its code and reason.
pub proof fn law_launches_are_answered_by_the_session(event: LaunchEvent)
    ensures
        event matches LaunchEvent::Acknowledged(ack) ==> {
            &&& ack matches WorkflowLaunchAck::Started { run_id, task_id, name, script_path } ==> {
                &&& launch_answer(event) matches Ok(o) && o.run_id == run_id@ && o.task_id
                    == task_id@ && o.name == name@ && o.script_path == option_view(script_path)
            }
            &&& ack matches WorkflowLaunchAck::Validated { name, .. } ==> {
                &&& launch_answer(event) matches Ok(o) && o.run_id.len() == 0 && o.task_id.len()
                    == 0 && o.name == name@ && o.script_path is None
            }
            &&& ack is Rejected ==> launch_answer(event) is Err
        },
        !(event is Acknowledged) ==> launch_answer(event) is Err,
{
}

/// The short name of a tool is what stands behind the last colon of its id.
pub proof fn law_short_names_have_no_colon(s: Seq<char>)
    ensures
        forall|i: int| 0 <= i < after_last_colon(s).len() ==> (#[trigger] after_last_colon(s)[i]) != ':',
        has_suffix(s, after_last_colon(s)),
        after_last_colon(s).len() < s.len() ==> s[s.len() - after_last_colon(s).len() - 1] == ':',
    decreases s.len(),
{
    lemma_until(s, ':');
    let k = until(s, ':') as int;
    if k < s.len() {
        let t = s.skip(k + 1);
        law_short_names_have_no_colon(t);
        let r = after_last_colon(t);
        assert(s.subrange(s.len() - r.len(), s.len() as int) =~= t.subrange(
            t.len() - r.len(),
            t.len() as int,
        ));
        if r.len() == t.len() {
            assert(s[k] == ':');
        } else {
            assert(s[s.len() - r.len() - 1] == t[t.len() - r.len() - 1]);
        }
    } else {
        assert(s.subrange(0, s.len() as int) =~= s);
    }
}

// ---- outputs ----

/// A value is taken from an output whole where the output is one, else from a fence,
/// else the first one in the text.
pub proof fn law_values_are_taken_from_the_output(text: Seq<char>)
    ensures
        json_parsed(trimmed(text)) is Some ==> value_in(text) == json_parsed(trimmed(text)),
        json_parsed(trimmed(text)) is None ==> (value_in(text) matches Some(v) ==> {
            ||| fence_body(trimmed(text)) is Some && json_parsed(fence_body(trimmed(text))->0)
                == Some(v)
            ||| exists|i: int|
                0 <= i < trimmed(text).len() && (trimmed(text)[i] == '{' || trimmed(text)[i] == '[')
                    && #[trigger] json_first(trimmed(text).skip(i)) == Some(v)
        }),
        value_in(text) is None ==> forall|i: int|
            0 <= i < trimmed(text).len() && (trimmed(text)[i] == '{' || trimmed(text)[i] == '[')
                ==> #[trigger] json_first(trimmed(text).skip(i)) is None,
{
    lemma_embedded(trimmed(text), 0);
}

proof fn lemma_embedded(s: Seq<char>, from: int)
    requires
        0 <= from,
    ensures
        match embedded_from(s, from) {
            Some(v) => exists|i: int|
                from <= i < s.len() && (s[i] == '{' || s[i] == '[') && #[trigger] json_first(
                    s.skip(i),
                ) == Some(v),
            None => forall|i: int|
                from <= i < s.len() && (s[i] == '{' || s[i] == '[') ==> #[trigger] json_first(
                    s.skip(i),
                ) is None,
        },
    decreases s.len() - from,
{
    if from < s.len() && !(opens_value(s[from]) && json_first(s.skip(from)) is Some) {
        lemma_embedded(s, from + 1);
    }
}

/// A value fits a schema that names its kind, and one that names none.
pub proof fn law_values_fit_by_their_kind(v: Seq<char>)
    ensures
        fits_type(v, None),
        fits_type(v, Some("object"@)) <==> kind_of(v) == JsonKind::Object,
        fits_type(v, Some("array"@)) <==> kind_of(v) == JsonKind::Array,
        fits_type(v, Some("string"@)) <==> kind_of(v) == JsonKind::Text,
        fits_type(v, Some("boolean"@)) <==> kind_of(v) == JsonKind::Boolean,
        fits_type(v, Some("integer"@)) <==> kind_of(v) == JsonKind::Integer,
        fits_type(v, Some("number"@)) <==> kind_of(v) == JsonKind::Integer || kind_of(v)
            == JsonKind::Fraction,
{
    reveal_strlit("object");
    reveal_strlit("array");
    reveal_strlit("string");
    reveal_strlit("boolean");
    reveal_strlit("integer");
    reveal_strlit("number");
    assert("object"@[0] == 'o' && "array"@[0] == 'a' && "string"@[0] == 's' && "boolean"@[0] == 'b'
        && "integer"@[0] == 'i' && "number"@[0] == 'n');
}

/// A key of the journal in the present form keeps the prompt and the options, and one that
/// is no JSON stays as it is.
pub proof fn law_old_keys_keep_what_decides(old_key: Seq<char>)
    ensures
        json_parsed(old_key) is None ==> migrated(old_key) == old_key,
        json_parsed(old_key) matches Some(v) ==> exists|fields: Seq<(Seq<char>, Seq<char>)>|
            {
                let or_null = |name: Seq<char>|
                    match json_field(v, name) {
                        Some(f) => f,
                        None => "null"@,
                    };
                &&& migrated(old_key) == #[trigger] json_object(fields)
                &&& fields.len() == 6
                &&& fields[0] == ("prompt"@, or_null("prompt"@))
                &&& fields[1] == ("schema"@, or_null("schema"@))
                &&& fields[2] == ("model"@, or_null("model"@))
                &&& fields[3] == ("effort"@, or_null("effort"@))
                &&& fields[4] == ("isolation"@, or_null("isolation"@))
                &&& fields[5] == ("agent_type"@, or_null("agent_type"@))
            },
{
    if let Some(v) = json_parsed(old_key) {
        let fields = key_fields(
            field_or_null(v, "prompt"@),
            field_or_null(v, "schema"@),
            field_or_null(v, "model"@),
            field_or_null(v, "effort"@),
            field_or_null(v, "isolation"@),
            field_or_null(v, "agent_type"@),
        );
        assert(migrated(old_key) == json_object(fields));
    }
}

/// A second attempt is asked for the value alone, by the schema.
pub proof fn law_second_attempts_know_the_schema(pretty: Seq<char>)
    ensures
        has_suffix(corrective_prompt(pretty), pretty),
{
    let p = corrective_prompt(pretty);
    assert(p.subrange(p.len() - pretty.len(), p.len() as int) =~= pretty);
}

/// A run that started is told by its name.
pub proof fn law_started_runs_are_told_by_name(name: Seq<char>, path: Option<Seq<char>>)
    ensures
        has_prefix(started_message(name, path), "Workflow '"@ + name + "' started"@),
        path matches Some(p) ==> has_part(started_message(name, path), p),
{
    let m = started_message(name, path);
    let a = "Workflow '"@;
    let b = "' started in the background. Progress appears in /workflow runs and completion is reported automatically. '"@;
    let c = "' is the session-unique display handle for user-facing status and /workflow management; keep the structured run id internal."@;
    let q = "' started"@;
    reveal_strlit("' started");
    reveal_strlit(
        "' started in the background. Progress appears in /workflow runs and completion is reported automatically. '",
    );
    assert(b.subrange(0, q.len() as int) =~= q);
    let head = a + name + q;
    assert(m.subrange(0, head.len() as int) =~= head) by {
        let whole = a + name + b;
        assert(whole.subrange(0, head.len() as int) =~= head) by {
            assert forall|i: int| 0 <= i < head.len() implies whole[i] == head[i] by {
                if i >= a.len() + name.len() {
                    assert(b.subrange(0, q.len() as int)[i - a.len() - name.len()] == q[i - a.len()
                        - name.len()]);
                }
            }
        }
        assert(m.subrange(0, head.len() as int) =~= whole.subrange(0, head.len() as int));
    }
    if let Some(p) = path {
        let d = " The editable script projection is at "@;
        let e = ". Edit it and launch that `script_path` as a new run to iterate; same-process pause resume continues only this run's original immutable source."@;
        let before = a + name + b + name + c + d;
        assert(m =~= before + p + e);
        assert(m.subrange(before.len() as int, (before.len() + p.len()) as int) =~= p);
        assert(occurs_at(m, p, before.len() as int));
    }
}

// ---- the way of a call ----

/// A call that comes in is refused, answered from the journal, or checked with itself
/// unchanged; a call that says nothing or cannot be read leaves the host as it was.
pub proof fn law_calls_come_in_unchanged(
    before: WorkflowHost,
    after: WorkflowHost,
    payload: AgentPayload,
    step: AgentStep,
)
    requires
        after.handle_post(before, payload, step),
    ensures
        step.stop is None,
        step.next is Refuse || step.next is Answer || step.next is Check,
        !(payload is Call) ==> after == before && step.next is Refuse,
        payload matches AgentPayload::Invalid { error } ==> has_suffix(
            step.next->Refuse_0@,
            error@,
        ),
        payload matches AgentPayload::Call(call) ==> {
            &&& after.tokens_spent == before.tokens_spent
            &&& step.next is Refuse <==> (before.token_budget is Some && before.tokens_spent
                >= before.token_budget->0) || before.agents_started >= 1000
            &&& step.next matches AgentNext::Check(run) ==> run.call == call && run.stage
                is Checking
            &&& step.next matches AgentNext::Answer { answer, entry } ==> answer.cached
                && answer.error is None && entry is Some && answer.value@ == entry->0.value@
                && entry->0.index == call.index
        },
{
    if let AgentPayload::Invalid { error } = payload {
        let head = "agent(): invalid call payload: "@;
        let m = head + error@;
        assert(m.subrange(head.len() as int, m.len() as int) =~= error@);
    }
    if let AgentPayload::Call(call) = payload {
        let admission = choose|admission: Result<AgentAdmission, String>|
            {
                &&& #[trigger] after.begin_post(before, call, admission)
                &&& match (admission, step.next) {
                    (Err(e), AgentNext::Refuse(error)) => e == error && step.notes@.len() == 0,
                    (
                        Ok(AgentAdmission::Replayed { answer, entry, note }),
                        AgentNext::Answer { answer: a, entry: e },
                    ) => {
                        &&& a == answer
                        &&& e == Some(entry)
                        &&& step.notes@ == seq![note]
                    },
                    (
                        Ok(AgentAdmission::Fresh { label, key, subagent_type }),
                        AgentNext::Check(run),
                    ) => {
                        &&& run == (AgentRun {
                            call,
                            label,
                            key,
                            subagent_type,
                            stage: AgentStage::Checking,
                        })
                        &&& run.wf()
                        &&& step.notes@.len() == 0
                    },
                    _ => false,
                }
            };
        law_calls_are_admitted_within_limits(before, after, call, admission);
    }
}

/// A call that was checked waits for a place as the call it was; an agent type is asked
/// about until it is known, and then no more.
pub proof fn law_checked_calls_wait_for_a_place(
    before: WorkflowHost,
    after: WorkflowHost,
    run: AgentRun,
    outcome: SubagentValidateTypeOutcome,
    verdict: ModelVerdict,
    next: AgentNext,
)
    requires
        after.checked_post(before, run, outcome, verdict, next),
    ensures
        next is Queue || next is Refuse,
        next is Queue <==> {
            &&& outcome is Known || in_list(before.validated_types@, run.subagent_type@)
            &&& run.call.model is None || verdict is Accepted
            &&& run.call.isolation is None || run.call.isolation->0@ == "none"@
                || run.call.isolation->0@ == "worktree"@
        },
        next matches AgentNext::Queue(later) ==> {
            &&& later.call == run.call
            &&& later.key == run.key
            &&& later.label == run.label
            &&& later.subagent_type == run.subagent_type
            &&& later.stage matches AgentStage::Queued { isolation } && (isolation == Some(
                SubagentIsolationMode::Worktree,
            ) <==> run.call.isolation is Some && run.call.isolation->0@ == "worktree"@)
        },
        outcome is Known ==> in_list(after.validated_types@, run.subagent_type@),
        !(outcome is Known) ==> views(after.validated_types@) == views(before.validated_types@),
        after.tokens_spent == before.tokens_spent,
        after.state == before.state,
        after.replay == before.replay,
{
    let t = run.subagent_type@;
    law_calls_are_checked(run.call, before.type_outcome(t, outcome), verdict);
    let a = views(after.validated_types@);
    let b = views(before.validated_types@);
    if outcome is Known && !in_list(before.validated_types@, t) {
        assert(a.last() == t);
        assert(after.validated_types@[a.len() - 1]@ == t);
    }
    if outcome is Known && in_list(before.validated_types@, t) {
        let i = choose|i: int|
            0 <= i < before.validated_types@.len() && (#[trigger] before.validated_types@[i])@ == t;
        assert(b.len() == before.validated_types@.len() && a.len() == after.validated_types@.len());
        assert(b[i] == t);
        assert(a == b);
        assert(a[i] == t);
        assert(after.validated_types@[i]@ == t);
    }
}

/// When the agent of a call ends, it is asked once more exactly where it succeeded
/// without a value that fits the schema. The second attempt goes on with the same
/// agent and is told the schema; else the call concludes with what the agent brought.
pub proof fn law_ended_agents_conclude_or_go_on(
    before: WorkflowHost,
    after: WorkflowHost,
    run: AgentRun,
    agent_id: Seq<char>,
    result: SubagentResult,
    notes: Seq<ProgressNote>,
    next: AgentNext,
)
    requires
        after.first_post(before, run, agent_id, Ok(result), notes, next),
    ensures
        after.tokens_spent == before.tokens_spent.wrapping_add(result.tokens_used),
        next is Spawn || next is Release,
        next is Spawn <==> result.success && !result.cancelled && run.call.schema is Some
            && schema_value(result.output@, run.call.schema->0@) is None,
        next matches AgentNext::Spawn { run: later, request } ==> {
            &&& request.resume_from is Some
            &&& request.resume_from->0@ == agent_id
            &&& has_suffix(request.prompt@, json_pretty(run.call.schema->0@))
            &&& request.subagent_type@ == run.subagent_type@
            &&& later.call == run.call
            &&& later.key == run.key
            &&& later.label == run.label
            &&& later.stage matches AgentStage::Retrying {
                agent_id: second,
                first_id,
                first_tokens,
                first_duration_ms,
            } && second@ == request.id@ && first_id@ == agent_id && first_tokens
                == result.tokens_used && first_duration_ms == result.duration_ms
        },
        next matches AgentNext::Release(later) ==> {
            &&& later.call == run.call
            &&& later.key == run.key
            &&& later.label == run.label
            &&& later.stage matches AgentStage::Concluding { outcome } && {
                &&& outcome@.agent_id == Some(agent_id)
                &&& outcome@.error is None <==> result.success && !result.cancelled
                &&& outcome@.error is None && run.call.schema is None ==> outcome@.value
                    == json_quoted(result.output@)
                &&& outcome@.error is None && run.call.schema is Some ==> schema_value(
                    result.output@,
                    run.call.schema->0@,
                ) == Some(outcome@.value)
                &&& outcome@.tokens_used == result.tokens_used
                &&& outcome@.duration_ms == result.duration_ms
            }
        },
{
    let schema = schema_of(run.call);
    law_attempts_are_judged_by_their_result(schema, agent_id, result);
    if let Some(s) = run.call.schema {
        law_second_attempts_know_the_schema(json_pretty(s@));
    }
}

/// An agent that could not be had or was cancelled costs nothing, and its call concludes
/// with the reason.
pub proof fn law_agents_that_brought_nothing(
    before: WorkflowHost,
    after: WorkflowHost,
    run: AgentRun,
    agent_id: Seq<char>,
    error: String,
    notes: Seq<ProgressNote>,
    next: AgentNext,
)
    requires
        after.first_post(before, run, agent_id, Err(error), notes, next),
    ensures
        after == before,
        notes.len() == 0,
        next matches AgentNext::Release(later) && later.call == run.call && later.key == run.key
            && (later.stage matches AgentStage::Concluding { outcome } && outcome@.error == Some(
            error@,
        ) && outcome@.value == "null"@ && outcome@.tokens_used == 0),
{
}

/// An agent that runs too long or whose call was cancelled is stopped, and no other.
pub proof fn law_agents_are_stopped_when_given_up(
    before: WorkflowHost,
    after: WorkflowHost,
    run: AgentRun,
    event: SpawnEvent,
    timeout_ms: u64,
    step: AgentStep,
)
    requires
        run.stage is Running || run.stage is Retrying,
        after.event_post(before, run, AgentEvent::Ended { event, timeout_ms }, step),
    ensures
        step.stop is Some <==> event is Cancelled || event is TimedOut,
        run.stage matches AgentStage::Running { agent_id } ==> (step.stop matches Some(s) ==> s@
            == agent_id@),
        run.stage matches AgentStage::Retrying { agent_id, .. } ==> (step.stop matches Some(s)
            ==> s@ == agent_id@),
        run.stage is Retrying ==> step.next is Release && step.notes@.len() == 0,
        run.stage is Retrying ==> step.next->Release_0.call == run.call,
        run.stage is Retrying ==> (event matches SpawnEvent::Finished(result) ==> (
        step.next->Release_0.stage matches AgentStage::Concluding { outcome } && (
        outcome@.error is None <==> result.success && schema_value(
            result.output@,
            run.call.schema->0@,
        ) is Some) && outcome@.tokens_used == run.stage->first_tokens + result.tokens_used
            && after.tokens_spent == before.tokens_spent.wrapping_add(result.tokens_used))),
{
}

// ---- what is shown ----

/// From a minute on, a duration is told in whole minutes and the seconds beyond them.
pub proof fn law_long_durations_are_told_in_minutes(m: nat, s: nat, rest: nat)
    requires
        m >= 1,
        s < 60,
        rest < 1000,
    ensures
        duration_text((m * 60_000 + s * 1000 + rest) as nat) == decimal(m) + "m"@ + decimal(s)
            + "s"@,
{
    let d = (m * 60_000 + s * 1000 + rest) as nat;
    assert(d / 60_000 == m);
    assert(d % 60_000 == s * 1000 + rest);
    assert((s * 1000 + rest) / 1000 == s);
}

/// The summary of a run begins with how many agents run and how many are done, and ends
/// with the phase, if there is one.
pub proof fn law_summaries_tell_counts_and_phase(
    running: nat,
    done: nat,
    cached: nat,
    failed: nat,
    phase: Option<Seq<char>>,
)
    ensures
        ({
            let t = summary_text(running, done, cached, failed, phase);
            &&& has_prefix(
                t,
                "agents: "@ + decimal(running) + " running, "@ + decimal(done) + " done"@,
            )
            &&& phase matches Some(p) ==> has_suffix(t, " · phase: "@ + p)
            &&& cached > 0 ==> has_part(t, ", "@ + decimal(cached) + " cached"@)
            &&& failed > 0 ==> has_part(t, ", "@ + decimal(failed) + " failed"@)
        }),
{
    let t = summary_text(running, done, cached, failed, phase);
    let head = "agents: "@ + decimal(running) + " running, "@ + decimal(done) + " done"@;
    let c = if cached > 0 {
        ", "@ + decimal(cached) + " cached"@
    } else {
        Seq::empty()
    };
    let f = if failed > 0 {
        ", "@ + decimal(failed) + " failed"@
    } else {
        Seq::empty()
    };
    let p = match phase {
        Some(p) => " · phase: "@ + p,
        None => Seq::empty(),
    };
    assert(t =~= head + c + f + p);
    assert(t.subrange(0, head.len() as int) =~= head);
    assert(t.subrange(t.len() - p.len(), t.len() as int) =~= p);
    assert(t.subrange(head.len() as int, (head.len() + c.len()) as int) =~= c);
    assert(occurs_at(t, c, head.len() as int));
    let at = (head.len() + c.len()) as int;
    assert(t.subrange(at, at + f.len()) =~= f);
    assert(occurs_at(t, f, at));
}

/// A script calls the hook for agents, and no other tool.
pub proof fn law_scripts_call_the_agent_hook_only(name: &str, r: Option<String>)
    requires
        call_ensures(nested_tool_error, (name,), r),
    ensures
        r is None <==> name@ == "__wf_agent"@,
        r matches Some(e) ==> has_part(e@, name@),
{
    if let Some(e) = r {
        let head = "workflow scripts can only call the built-in hooks (unknown tool `"@;
        assert(e@ == head + name@ + "`)"@);
        assert(e@.subrange(head.len() as int, (head.len() + name@.len()) as int) =~= name@);
        assert(occurs_at(e@, name@, head.len() as int));
    }
}

} // verus!
