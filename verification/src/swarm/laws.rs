//! What holds of swarms as a whole, said of their members, their pace and their results.
use vstd::prelude::*;
#[allow(unused_imports)]
use vstd::string::*;

#[allow(unused_imports)]
use crate::coordinator::types::{ModelVerdict, SubagentResult, SubagentValidateTypeOutcome};
#[allow(unused_imports)]
use crate::swarm::pacing::{
    AdaptiveCapacity, MAX_TIME_MS, RateLimitGate, backoff, law_backoff_grows,
};
#[allow(unused_imports)]
use crate::swarm::plan::{
    AgentSwarmToolInput, MemberMode, PlannedMember, concurrency_setting, expanded, is_sentinel,
    items_of, launch_count, member_views, plan_error, planned, positive_setting, resumes_of,
    timeout_setting,
};
#[allow(unused_imports)]
use crate::swarm::render::{
    MemberEvent, MemberOutcome, MemberResult, body_of, can_resume, escaped, escaped_char,
    member_verdict, outcome_count, outcome_of, result_xml, results_xml, swarm_xml,
};
#[allow(unused_imports)]
use crate::swarm::scheduler::{
    PendingRetry, SwarmAction, SwarmEvent, SwarmScheduler, retries_but, unfinished,
};
#[allow(unused_imports)]
use crate::swarm::tool::{
    AgentSwarmTool, MemberRequest, SwarmPlan, SwarmRequestContext, SwarmSettings, SwarmWaitTool,
    SwarmWaitToolInput, WaitEnd, WaitEvent, WaitSigns, build_member_request, has_new, launch_error,
    model_error, setting_view, type_error,
};
#[allow(unused_imports)]
use crate::table::{Key, find, lemma_find};
#[allow(unused_imports)]
use crate::text::{
    decimal, has_part, has_prefix, has_suffix, in_list, lemma_texts_but, occurs_at, option_view,
    replaced, text_set, trimmed, unsigned_value, views, with_text,
};
#[allow(unused_imports)]
use crate::tool::{ToolError};

verus! {

// ---- plans ----

/// What may be planned: at most 128 members, at least two items unless agents are
/// continued, a template with a place for the item that makes a different prompt of
/// each, and agents to continue that are named.
pub proof fn law_what_may_be_planned(input: AgentSwarmToolInput, placeholders: Seq<String>)
    ensures
        input.items matches Some(v) ==> items_of(input) == v@,
        input.items is None ==> items_of(input).len() == 0,
        input.resume_agent_ids matches Some(v) ==> resumes_of(input) == v@,
        input.resume_agent_ids is None ==> resumes_of(input).len() == 0,
        plan_error(input, placeholders) is None <==> {
            let items = items_of(input);
            let resumes = resumes_of(input);
            &&& items.len() + resumes.len() <= 128
            &&& resumes.len() > 0 || items.len() >= 2
            &&& items.len() > 0 ==> input.prompt_template is Some && has_part(
                input.prompt_template->0@,
                "{{item}}"@,
            )
            &&& items.len() > 0 ==> forall|i: int, j: int|
                0 <= i < j < items.len() ==> replaced(
                    input.prompt_template->0@,
                    "{{item}}"@,
                    (#[trigger] items[i])@,
                ) != replaced(input.prompt_template->0@, "{{item}}"@, (#[trigger] items[j])@)
            &&& forall|i: int|
                0 <= i < resumes.len() ==> trimmed((#[trigger] resumes[i]).0@).len() > 0 && !in_list(
                    placeholders,
                    trimmed(resumes[i].0@),
                )
        },
{
    let items = items_of(input);
    let resumes = resumes_of(input);
    if input.prompt_template is Some {
        let template = input.prompt_template->0@;
        assert forall|i: int| 0 <= i < items.len() implies expanded(template, (#[trigger] items[i])@)
            == replaced(template, "{{item}}"@, items[i]@) by {}
    }
    assert forall|i: int| 0 <= i < resumes.len() implies (is_sentinel(
        (#[trigger] resumes[i]).0@,
        placeholders,
    ) <==> !(trimmed(resumes[i].0@).len() > 0 && !in_list(placeholders, trimmed(resumes[i].0@)))) by {}
}

/// The members of a plan: first each agent to continue, with its own prompt, then one
/// for each item, with the template in which the item stands in its place.
pub proof fn law_members_get_their_prompts(input: AgentSwarmToolInput, i: int)
    requires
        0 <= i < planned(input).len(),
    ensures
        ({
            let items = match input.items {
                Some(v) => v@,
                None => Seq::empty(),
            };
            let resumes = match input.resume_agent_ids {
                Some(v) => v@,
                None => Seq::empty(),
            };
            let m = planned(input)[i];
            &&& planned(input).len() == items.len() + resumes.len()
            &&& m.index == i
            &&& i < resumes.len() ==> m.prompt == resumes[i].1@ && m.resume_from == Some(
                trimmed(resumes[i].0@),
            ) && m.item is None && m.mode is Resume
            &&& i >= resumes.len() ==> m.item == Some(items[i - resumes.len()]@) && m.resume_from
                is None && m.mode is New && (input.prompt_template is Some ==> m.prompt == replaced(
                input.prompt_template->0@,
                "{{item}}"@,
                items[i - resumes.len()]@,
            ))
        }),
{
}

/// A swarm starts five members at once at most, no more than it has, and no more than
/// the cap allows.
pub proof fn law_few_members_start_at_once(total: int, cap: Option<usize>)
    requires
        total >= 0,
    ensures
        launch_count(total, cap) <= 5,
        launch_count(total, cap) <= total,
        cap is Some ==> launch_count(total, cap) <= cap->0,
        launch_count(total, cap) == 5 || launch_count(total, cap) == total || (cap is Some
            && launch_count(total, cap) == cap->0),
{
}

/// A setting is read as it is written: a positive number where it is one, nothing where
/// it is blank, and else an error.
pub proof fn law_settings_are_positive_numbers(name: Seq<char>, value: Seq<char>)
    ensures
        trimmed(value).len() == 0 ==> positive_setting(name, value) == Ok::<Option<int>, Seq<char>>(
            None,
        ),
        trimmed(value).len() > 0 ==> (positive_setting(name, value) is Ok <==> unsigned_value(
            trimmed(value),
        ) is Some && 0 < unsigned_value(trimmed(value))->0 <= usize::MAX),
        trimmed(value).len() > 0 && positive_setting(name, value) is Ok ==> positive_setting(
            name,
            value,
        ) == Ok::<Option<int>, Seq<char>>(unsigned_value(trimmed(value))),
{
}

/// Of the two settings of the cap the first goes before the second, and a wrong one is
/// an error.
pub proof fn law_the_first_cap_counts(first: Option<Seq<char>>, second: Option<Seq<char>>)
    ensures
        ({
            let a = match first {
                Some(v) => positive_setting("OPENGROK_AGENT_SWARM_MAX_CONCURRENCY"@, v),
                None => Ok(None),
            };
            let b = match second {
                Some(v) => positive_setting("KIMI_CODE_AGENT_SWARM_MAX_CONCURRENCY"@, v),
                None => Ok(None),
            };
            let r = concurrency_setting(first, second);
            &&& a is Err ==> r is Err
            &&& a is Ok && b is Err ==> r is Err
            &&& a is Ok && b is Ok && a->Ok_0 is Some ==> r == a
            &&& a is Ok && b is Ok && a->Ok_0 is None ==> r == b
        }),
{
}

/// The time that a member has: two hours unless it is set, none where it is set to
/// zero.
pub proof fn law_members_have_two_hours(value: Option<Seq<char>>)
    ensures
        value is None || trimmed(value->0).len() == 0 ==> timeout_setting(value) == Ok::<
            Option<int>,
            Seq<char>,
        >(Some(7_200_000)),
        value is Some && trimmed(value->0).len() > 0 ==> {
            let n = unsigned_value(trimmed(value->0));
            &&& timeout_setting(value) is Ok <==> n is Some && n->0 <= u64::MAX
            &&& n == Some(0int) ==> timeout_setting(value) == Ok::<Option<int>, Seq<char>>(None)
            &&& n is Some && 0 < n->0 <= u64::MAX ==> timeout_setting(value) == Ok::<
                Option<int>,
                Seq<char>,
            >(n)
        },
{
}

/// What may be launched: a good plan with good settings, while there is a backend and
/// the depth allows it.
pub proof fn law_what_may_be_launched(
    input: AgentSwarmToolInput,
    placeholders: Seq<String>,
    settings: SwarmSettings,
    backend_ready: bool,
    depth: u32,
    max_depth: u32,
)
    ensures
        launch_error(input, placeholders, settings, backend_ready, depth, max_depth) is None <==> {
            &&& plan_error(input, placeholders) is None
            &&& concurrency_setting(
                setting_view(settings.max_concurrency),
                setting_view(settings.fallback_max_concurrency),
            ) is Ok
            &&& timeout_setting(setting_view(settings.timeout_ms)) is Ok
            &&& backend_ready
            &&& depth < max_depth
        },
        type_error(input.subagent_type@, SubagentValidateTypeOutcome::Known) is None,
        model_error(ModelVerdict::Accepted) is None,
        forall|outcome: SubagentValidateTypeOutcome|
            !(outcome is Known) ==> (#[trigger] type_error(input.subagent_type@, outcome)) is Some,
        forall|verdict: ModelVerdict|
            !(verdict is Accepted) ==> (#[trigger] model_error(verdict)) is Some,
{
}

// ---- pace ----

/// A member that met a rate limit waits three seconds, and twice as long each further
/// time, as far as an interval goes.
pub proof fn law_waits_double(attempt: nat)
    ensures
        attempt <= 1 ==> backoff(attempt) == 3_000,
        attempt >= 1 && 2 * backoff(attempt) <= 18_446_744_073_709_551_615_999 ==> backoff(
            attempt + 1,
        ) == 2 * backoff(attempt),
{
}

/// A launch waits for the latest of three times: when the member may run, when the pause
/// is over, and one interval after the last launch.
pub proof fn law_launches_wait_for_the_latest(gate: RateLimitGate, at: int)
    ensures
        ({
            let t = gate.opens_at(at);
            &&& t == at || t == gate.rate_limit_pause_until || (gate.last_launch_at is Some && t
                == gate.last_launch_at->0 + gate.retry_interval)
            &&& t >= at
            &&& t >= gate.rate_limit_pause_until
            &&& gate.last_launch_at is Some ==> t >= gate.last_launch_at->0 + gate.retry_interval
        }),
{
}

/// The capacity shrinks by one at most and never below one, and not twice within two
/// seconds; the first limit shrinks it to one less than what had started.
pub proof fn law_capacity_shrinks_slowly(c: AdaptiveCapacity, now: u128, started: nat)
    requires
        c.wf(),
    ensures
        ({
            let (after, shrinks) = c.shrunk(now, started);
            &&& 1 <= after <= c.current
            &&& c.last_rate_limit_at is Some && c.last_shrink_at is Some && now
                - c.last_shrink_at->0 < 2_000 ==> after == c.current && !shrinks
            &&& c.last_rate_limit_at is Some && (c.last_shrink_at is None || now
                - c.last_shrink_at->0 >= 2_000) ==> shrinks && (after == c.current - 1 || (after
                == 1 && c.current == 1))
            &&& c.last_rate_limit_at is None && 1 < started <= c.current ==> after == started - 1
            &&& c.last_rate_limit_at is None && started > c.current && c.current > 1 ==> after
                == c.current - 1
        }),
{
}

/// The capacity recovers three minutes after the last limit, once, and only below its
/// ceiling.
pub proof fn law_capacity_recovers_after_three_minutes(c: AdaptiveCapacity)
    ensures
        c.recovers_at() is Some <==> !c.recovered_since_last_rate_limit && c.current < c.ceiling
            && c.last_rate_limit_at is Some,
        c.recovers_at() is Some ==> c.recovers_at()->0 == c.last_rate_limit_at->0 + 180_000,
{
}

// ---- scheduling ----

/// How many members have no result yet.
pub proof fn law_unfinished_members_are_counted(s: Seq<Option<MemberResult>>)
    ensures
        unfinished(s) == s.filter(|r: Option<MemberResult>| r is None).len(),
    decreases s.len(),
{
    reveal(Seq::filter);
    if s.len() > 0 {
        law_unfinished_members_are_counted(s.drop_last());
    }
}

/// The retries of the other members stay, in order.
pub proof fn law_retries_of_others_stay(s: Seq<PendingRetry>, id: Seq<char>)
    ensures
        retries_but(s, id) == s.filter(|r: PendingRetry| r.subagent_id@ != id),
    decreases s.len(),
{
    reveal(Seq::filter);
    if s.len() > 0 {
        law_retries_of_others_stay(s.drop_last(), id);
    }
}

/// A member that ends leaves its result in its own place, and no other result changes;
/// it is no longer active and waits for nothing.
pub proof fn law_results_stand_in_their_place(
    before: SwarmScheduler,
    after: SwarmScheduler,
    agent_id: String,
    result: MemberResult,
    now: u128,
    action: SwarmAction,
)
    requires
        before.wf(),
        before.can_happen(SwarmEvent::MemberDone { agent_id, result }),
        after.event_post(before, SwarmEvent::MemberDone { agent_id, result }, now, action),
    ensures
        (result.index as int) < before.slots@.len(),
        after.slots@.len() == before.slots@.len(),
        after.slots@[result.index as int] == Some(result),
        forall|i: int|
            0 <= i < before.slots@.len() && i != result.index ==> #[trigger] after.slots@[i]
                == before.slots@[i],
        after.active@.len() + 1 == before.active@.len(),
        forall|i: int|
            0 <= i < after.pending_retries@.len() ==> (
            #[trigger] after.pending_retries@[i]).subagent_id@ != agent_id@,
        !in_list(after.waiting@, agent_id@),
        after.next == before.next,
        after.capacity == before.capacity,
        after.gate == before.gate,
{
    let k: Key = (agent_id@, ""@);
    lemma_find(before.active@, k);
    let at = find(before.active@, k)->0;
    assert(before.active@[at].index < before.next);
    law_retries_of_others_stay(before.pending_retries@, agent_id@);
    let id = agent_id@;
    let is_other = |r: PendingRetry| r.subagent_id@ != id;
    assert forall|i: int| 0 <= i < after.pending_retries@.len() implies (
    #[trigger] after.pending_retries@[i]).subagent_id@ != agent_id@ by {
        before.pending_retries@.lemma_filter_pred(is_other, i);
        assert(is_other(before.pending_retries@.filter(is_other)[i]));
    }
    lemma_texts_but(before.waiting@, agent_id@);
    assert(!text_set(after.waiting@).contains(agent_id@));
}

/// A launch starts the next member, which is then active under a fresh id; members are
/// started in order and each once.
pub proof fn law_launches_start_the_next_member(
    before: SwarmScheduler,
    after: SwarmScheduler,
    event: SwarmEvent,
    now: u128,
    action: SwarmAction,
)
    requires
        before.wf(),
        after.event_post(before, event, now, action),
        event is LaunchDue || event is RateLimitedLaunchDue,
        before.next < usize::MAX,
    ensures
        action matches SwarmAction::Launch { index, agent_id } ==> {
            &&& index == before.next
            &&& index < before.slots@.len()
            &&& after.next == before.next + 1
            &&& after.active@.len() == before.active@.len() + 1
            &&& after.active@.last().index == index
            &&& after.active@.last().agent_id@ == agent_id@
            &&& event is LaunchDue ==> !before.gate.active && before.next_launch <= now
                && after.next_launch == now + 700
            &&& event is RateLimitedLaunchDue ==> before.gate.active
                && before.pending_retries@.len() == 0
        },
        action matches SwarmAction::Retry { subagent_id, reply } ==> {
            &&& before.pending_retries@.len() > 0
            &&& subagent_id == before.pending_retries@[0].subagent_id
            &&& reply == before.pending_retries@[0].reply
            &&& after.pending_retries@ == before.pending_retries@.skip(1)
            &&& after.next == before.next
            &&& before.pending_retries@[0].eligible_at <= now
        },
        !(action is Launch) ==> after.next == before.next,
        after.slots@ == before.slots@,
{
    if action is Retry {
        assert(before.pending_retries@.drop_first() =~= before.pending_retries@.skip(1));
    }
}

/// A member that meets a rate limit while others are unfinished is to try again after
/// its wait, before all that wait already, and the swarm slows down; the last one is
/// told to fail.
pub proof fn law_limited_members_wait(
    before: SwarmScheduler,
    after: SwarmScheduler,
    id: String,
    attempt: u32,
    reply: u64,
    now: u128,
    action: SwarmAction,
)
    requires
        before.wf(),
        now <= MAX_TIME_MS,
        after.rate_limit_post(before, id, attempt, reply, now, action),
    ensures
        before.slots@.filter(|r: Option<MemberResult>| r is None).len() <= 1 ==> after == before && (
        action matches SwarmAction::Fail { reply: to } && to == reply),
        before.slots@.filter(|r: Option<MemberResult>| r is None).len() > 1 ==> {
            &&& action is Nothing
            &&& after.pending_retries@.len() > 0
            &&& after.pending_retries@[0].subagent_id == id
            &&& after.pending_retries@[0].reply == reply
            &&& after.pending_retries@[0].eligible_at == now + backoff(attempt as nat)
            &&& after.gate.active
            &&& after.gate.rate_limit_pause_until >= now + before.gate.retry_interval
            &&& after.capacity.current <= before.capacity.current
            &&& after.capacity.last_rate_limit_at == Some(now)
            &&& views(after.waiting@).contains(id@)
            &&& after.slots@ == before.slots@
            &&& after.active@ == before.active@
        },
{
    law_unfinished_members_are_counted(before.slots@);
    law_backoff_grows(attempt as nat);
    if unfinished(before.slots@) > 1 {
        let ws = views(before.waiting@);
        let more = with_text(ws, id@);
        assert(more.contains(id@)) by {
            if !ws.contains(id@) {
                assert(more[ws.len() as int] == id@);
            }
        }
    }
}

/// When a swarm is done: every member was started, none is active and none waits to try
/// again.
pub proof fn law_done_swarms_have_nothing_left(s: SwarmScheduler)
    ensures
        s.done() <==> s.next == s.slots@.len() && s.active@.len() == 0 && s.pending_retries@.len()
            == 0,
        s.may_launch() ==> s.next < s.slots@.len() && !s.gate.active,
        s.may_launch_rate_limited() ==> s.gate.active && (s.next < s.slots@.len()
            || s.pending_retries@.len() > 0),
        s.may_launch() || s.may_launch_rate_limited() ==> s.active@.len() - s.waiting@.len()
            < s.capacity.current,
        !s.gate.active && s.next < s.slots@.len() && s.active@.len() - s.waiting@.len()
            < s.capacity.current && 0 < s.capacity.current ==> s.may_launch(),
{
}

// ---- results ----

/// How a member did, and what is told of it: its output where it completed, and else
/// the reason where there is one.
pub proof fn law_members_are_told_by_their_result(result: SubagentResult)
    ensures
        outcome_of(result) == MemberOutcome::Aborted <==> result.cancelled,
        outcome_of(result) == MemberOutcome::Completed <==> result.success && !result.cancelled,
        outcome_of(result) == MemberOutcome::Failed <==> !result.success && !result.cancelled,
        result.success && !result.cancelled ==> body_of(result) == result.output@,
        (result.cancelled || !result.success) && result.error is Some ==> body_of(result)
            == result.error->0@,
        (result.cancelled || !result.success) && result.error is None ==> body_of(result)
            == result.output@,
{
}

/// Text is escaped character by character, and what needs no escape stays.
pub proof fn law_escaping_goes_by_characters(s: Seq<char>, c: char)
    ensures
        escaped(Seq::empty()) == Seq::<char>::empty(),
        escaped(s.push(c)) == escaped(s) + escaped_char(c),
        escaped_char('&') == "&amp;"@,
        escaped_char('<') == "&lt;"@,
        escaped_char('>') == "&gt;"@,
        escaped_char('"') == "&quot;"@,
        escaped_char('\'') == "&apos;"@,
        c != '&' && c != '<' && c != '>' && c != '"' && c != '\'' ==> escaped_char(c) == seq![c],
{
    assert(s.push(c).drop_last() =~= s);
}

proof fn lemma_part(pre: Seq<char>, p: Seq<char>, post: Seq<char>)
    ensures
        has_part(pre + p + post, p),
{
    let s = pre + p + post;
    assert(s.subrange(pre.len() as int, (pre.len() + p.len()) as int) =~= p);
    assert(occurs_at(s, p, pre.len() as int));
}

proof fn lemma_behind(s: Seq<char>, post: Seq<char>, p: Seq<char>)
    requires
        has_part(s, p),
    ensures
        has_part(s + post, p),
{
    let i = choose|i: int| occurs_at(s, p, i);
    assert((s + post).subrange(i, i + p.len()) =~= s.subrange(i, i + p.len()));
    assert(occurs_at(s + post, p, i));
}

proof fn lemma_before(pre: Seq<char>, s: Seq<char>, p: Seq<char>)
    requires
        has_part(s, p),
    ensures
        has_part(pre + s, p),
{
    let i = choose|i: int| occurs_at(s, p, i);
    assert((pre + s).subrange(pre.len() + i, pre.len() + i + p.len()) =~= s.subrange(
        i,
        i + p.len(),
    ));
    assert(occurs_at(pre + s, p, pre.len() + i));
}

/// The element of a member tells its agent, how it did and what it said, all escaped,
/// and begins and ends as an element does.
pub proof fn law_elements_tell_the_member(r: MemberResult)
    ensures
        has_prefix(result_xml(r), "<subagent agent_id=\""@ + escaped(r.agent_id@)),
        has_suffix(result_xml(r), ">"@ + escaped(r.body@) + "</subagent>"@),
        has_part(result_xml(r), " outcome=\""@ + r.outcome.word()),
        r.outcome == MemberOutcome::Completed ==> r.outcome.word() == "completed"@,
        r.outcome == MemberOutcome::Failed ==> r.outcome.word() == "failed"@,
        r.outcome == MemberOutcome::Aborted ==> r.outcome.word() == "aborted"@,
        r.item matches Some(item) ==> has_part(
            result_xml(r),
            " item=\""@ + escaped(item@) + "\""@,
        ),
        r.mode == MemberMode::Resume ==> has_part(result_xml(r), " mode=\"resume\""@),
{
    let xml = result_xml(r);
    let a = "<subagent agent_id=\""@ + escaped(r.agent_id@);
    let b = a + "\""@;
    let item = match r.item {
        Some(item) => " item=\""@ + escaped(item@) + "\""@,
        None => Seq::empty(),
    };
    let word = " outcome=\""@ + r.outcome.word();
    let how = word + "\" state=\""@ + r.state.word() + "\""@;
    let mode = if r.mode == MemberMode::Resume {
        " mode=\"resume\""@
    } else {
        Seq::empty()
    };
    let body = escaped(r.body@);
    let s1 = b + item;
    let s2 = s1 + how;
    let s3 = s2 + mode;
    let s4 = s3 + ">"@;
    let s5 = s4 + body;
    assert(xml == s5 + "</subagent>"@);
    assert(xml.subrange(0, a.len() as int) =~= a);
    let tail = ">"@ + body + "</subagent>"@;
    assert(xml =~= s3 + tail);
    assert(xml.subrange(s3.len() as int, xml.len() as int) =~= tail);
    lemma_part(Seq::empty(), word, "\" state=\""@ + r.state.word() + "\""@);
    assert(Seq::empty() + word + ("\" state=\""@ + r.state.word() + "\""@) =~= how);
    lemma_before(s1, how, word);
    lemma_behind(s2, mode, word);
    lemma_behind(s3, ">"@, word);
    lemma_behind(s4, body, word);
    lemma_behind(s5, "</subagent>"@, word);
    if r.item is Some {
        lemma_part(b, item, how);
        lemma_behind(s2, mode, item);
        lemma_behind(s3, ">"@, item);
        lemma_behind(s4, body, item);
        lemma_behind(s5, "</subagent>"@, item);
    }
    if r.mode == MemberMode::Resume {
        lemma_part(s2, mode, ">"@);
        lemma_behind(s4, body, mode);
        lemma_behind(s5, "</subagent>"@, mode);
    }
}

/// The outcomes are counted as they are.
pub proof fn law_outcomes_are_counted(s: Seq<MemberResult>, outcome: MemberOutcome)
    ensures
        outcome_count(s, outcome) == s.filter(|r: MemberResult| r.outcome == outcome).len(),
    decreases s.len(),
{
    reveal(Seq::filter);
    if s.len() > 0 {
        law_outcomes_are_counted(s.drop_last(), outcome);
    }
}

proof fn lemma_results_xml(s: Seq<MemberResult>, i: int)
    requires
        0 <= i < s.len(),
    ensures
        has_part(results_xml(s), result_xml(s[i])),
    decreases s.len(),
{
    let before = results_xml(s.drop_last());
    let last = result_xml(s.last());
    if i < s.len() - 1 {
        lemma_results_xml(s.drop_last(), i);
        lemma_behind(before, last, result_xml(s[i]));
    } else {
        lemma_part(before, last, Seq::empty());
        assert(before + last + Seq::empty() =~= results_xml(s));
    }
}

/// The answer of a swarm tells every member.
pub proof fn law_answers_tell_every_member(s: Seq<MemberResult>, i: int)
    requires
        0 <= i < s.len(),
    ensures
        has_part(swarm_xml(s), result_xml(s[i])),
{
    let head = "<agent_swarm_result><summary>completed="@ + decimal(
        outcome_count(s, MemberOutcome::Completed),
    ) + " failed="@ + decimal(outcome_count(s, MemberOutcome::Failed)) + " aborted="@ + decimal(
        outcome_count(s, MemberOutcome::Aborted),
    ) + "</summary>"@;
    let hint = if exists|i: int| 0 <= i < s.len() && can_resume(#[trigger] s[i]) {
        "<resume_hint>Call agent_swarm with resume_agent_ids mapping unfinished agent_id values to continuation prompts.</resume_hint>"@
    } else {
        Seq::empty()
    };
    lemma_results_xml(s, i);
    lemma_before(head + hint, results_xml(s), result_xml(s[i]));
    lemma_behind(head + hint + results_xml(s), "</agent_swarm_result>"@, result_xml(s[i]));
}

/// The answer begins with how many members completed, failed and were aborted, and says
/// how to go on exactly where a member that did not complete has an agent.
pub proof fn law_answers_begin_with_the_counts(s: Seq<MemberResult>)
    ensures
        has_prefix(
            swarm_xml(s),
            "<agent_swarm_result><summary>completed="@ + decimal(
                outcome_count(s, MemberOutcome::Completed),
            ) + " failed="@ + decimal(outcome_count(s, MemberOutcome::Failed)) + " aborted="@
                + decimal(outcome_count(s, MemberOutcome::Aborted)) + "</summary>"@,
        ),
        (exists|i: int|
            0 <= i < s.len() && (#[trigger] s[i]).outcome != MemberOutcome::Completed
                && s[i].agent_id@.len() > 0) ==> has_part(
            swarm_xml(s),
            "<resume_hint>Call agent_swarm with resume_agent_ids mapping unfinished agent_id values to continuation prompts.</resume_hint>"@,
        ),
{
    let head = "<agent_swarm_result><summary>completed="@ + decimal(
        outcome_count(s, MemberOutcome::Completed),
    ) + " failed="@ + decimal(outcome_count(s, MemberOutcome::Failed)) + " aborted="@ + decimal(
        outcome_count(s, MemberOutcome::Aborted),
    ) + "</summary>"@;
    let xml = swarm_xml(s);
    assert(xml.subrange(0, head.len() as int) =~= head);
    if exists|i: int|
        0 <= i < s.len() && (#[trigger] s[i]).outcome != MemberOutcome::Completed
            && s[i].agent_id@.len() > 0 {
        let i = choose|i: int|
            0 <= i < s.len() && (#[trigger] s[i]).outcome != MemberOutcome::Completed
                && s[i].agent_id@.len() > 0;
        assert(can_resume(s[i]));
        let hint = "<resume_hint>Call agent_swarm with resume_agent_ids mapping unfinished agent_id values to continuation prompts.</resume_hint>"@;
        lemma_part(head, hint, results_xml(s));
        lemma_behind(head + hint + results_xml(s), "</agent_swarm_result>"@, hint);
    }
}

/// A member's request carries the prompt of the member and continues the agent that it
/// continues, under the session that asked.
pub proof fn law_members_are_asked_their_prompt(
    member: PlannedMember,
    context: SwarmRequestContext,
    expected_members: u32,
    id: String,
    status_tx: Option<u64>,
    r: MemberRequest,
)
    requires
        call_ensures(
            build_member_request,
            (member, context, expected_members, id, status_tx),
            r,
        ),
    ensures
        r.request.prompt@ == member.prompt@,
        r.request.id@ == id@,
        option_view(r.request.resume_from) == option_view(member.resume_from),
        r.request.parent_session_id@ == context.parent_session_id@,
        r.request.subagent_type@ == context.subagent_type@,
        member.resume_from is None ==> r.model == context.model,
        member.resume_from is Some ==> r.model is None,
        r.swarm is Some && r.swarm->0.index == member.index,
{
}

/// A member that ended is told by its event: its own result, or why there is none.
pub proof fn law_members_are_told_by_their_event(
    member: &PlannedMember,
    agent_id: &str,
    event: MemberEvent,
    r: MemberResult,
)
    requires
        call_ensures(member_verdict, (member, agent_id, event), r),
    ensures
        r.index == member.index,
        r.item == member.item,
        r.mode == member.mode,
        event is TimedOut || event is Failed ==> r.outcome == MemberOutcome::Failed && r.agent_id@
            == agent_id@,
        event matches MemberEvent::Failed { error } ==> r.body@ == error@,
        event matches MemberEvent::Finished(result) ==> {
            &&& result.cancelled <==> r.outcome == MemberOutcome::Aborted
            &&& result.success && !result.cancelled <==> r.outcome == MemberOutcome::Completed
            &&& result.success && !result.cancelled ==> r.body@ == result.output@
            &&& result.subagent_id@.len() > 0 ==> r.agent_id@ == result.subagent_id@
            &&& result.subagent_id@.len() == 0 ==> r.agent_id@ == agent_id@
        },
{
}

/// What ends a wait for a swarm: that it had finished, else a cancel, a steer, its end
/// or the end of the time, in this order.
pub proof fn law_waits_end_in_order(
    tool: &SwarmWaitTool,
    finished_before: bool,
    signs: WaitSigns,
    r: Option<WaitEvent>,
)
    requires
        call_ensures(SwarmWaitTool::next_event, (tool, finished_before, signs), r),
    ensures
        r is None <==> !finished_before && !signs.cancelled && !signs.steered && !signs.finished
            && !signs.timed_out,
        finished_before ==> r == Some(WaitEvent::Finished),
        !finished_before && signs.cancelled ==> r == Some(WaitEvent::Cancelled),
        !finished_before && !signs.cancelled && signs.steered ==> r == Some(WaitEvent::Steered),
        !finished_before && !signs.cancelled && !signs.steered && signs.finished ==> r == Some(
            WaitEvent::Finished,
        ),
{
}

/// How a wait is settled: a swarm that finished is told whole and forgotten, a cancelled
/// wait cancels it, and else it is told as it stands.
pub proof fn law_waits_are_settled(
    tool: &SwarmWaitTool,
    event: WaitEvent,
    results: Option<Vec<MemberResult>>,
    snapshot: &str,
    r: WaitEnd,
)
    requires
        call_ensures(SwarmWaitTool::settle, (tool, event, results, snapshot), r),
    ensures
        r.cancels_swarm <==> event is Cancelled,
        r.forgets_swarm <==> event is Finished && results is Some,
        event is Cancelled ==> r.answer is Err,
        event is Finished && results is None ==> r.answer is Err,
        event is Finished ==> (results matches Some(all) ==> (r.answer matches Ok(t) && t@
            == swarm_xml(all@))),
        event is Steered || event is TimedOut ==> (r.answer matches Ok(t) && t@ == snapshot@),
{
}

/// How long a wait takes at most: ten minutes unless the call says otherwise, two hours
/// at most.
pub proof fn law_waits_are_bounded(tool: &SwarmWaitTool, input: &SwarmWaitToolInput, r: u64)
    requires
        call_ensures(SwarmWaitTool::wait_ms, (tool, input), r),
    ensures
        r <= 7_200_000,
        input.timeout_ms is None ==> r == 600_000,
        input.timeout_ms matches Some(t) ==> (t <= 7_200_000 ==> r == t) && (t > 7_200_000 ==> r
            == 7_200_000),
{
}

/// A plan with new members needs a known type, and one that names a model an accepted
/// one; agents that continue need no type.
pub proof fn law_new_members_need_a_known_type(
    tool: &AgentSwarmTool,
    plan: &SwarmPlan,
    subagent_type: &str,
    outcome: SubagentValidateTypeOutcome,
    model: &Option<String>,
    verdict: ModelVerdict,
    r: Result<(), ToolError>,
)
    requires
        call_ensures(
            AgentSwarmTool::judge,
            (tool, plan, subagent_type, outcome, model, verdict),
            r,
        ),
    ensures
        r is Ok <==> ((forall|i: int|
            0 <= i < plan.members@.len() ==> (#[trigger] plan.members@[i]).mode == MemberMode::Resume)
            || outcome is Known) && (*model is None || verdict is Accepted),
{
    let ms = member_views(plan.members@);
    assert forall|i: int| 0 <= i < ms.len() implies (#[trigger] ms[i]).mode
        == plan.members@[i].mode by {}
    if !(forall|i: int|
        0 <= i < plan.members@.len() ==> (#[trigger] plan.members@[i]).mode == MemberMode::Resume) {
        let i = choose|i: int|
            0 <= i < plan.members@.len() && (#[trigger] plan.members@[i]).mode
                != MemberMode::Resume;
        assert(ms[i].mode is New);
    }
    if has_new(ms) {
        let i = choose|i: int| 0 <= i < ms.len() && (#[trigger] ms[i]).mode is New;
        assert(plan.members@[i].mode is New);
    }
}

/// The results of a swarm stand in the order of its members, one for each.
pub proof fn law_results_come_in_order(s: SwarmScheduler, r: Vec<MemberResult>)
    requires
        call_ensures(SwarmScheduler::results, (s,), r),
    ensures
        r@.len() == s.slots@.len(),
        forall|i: int|
            0 <= i < r@.len() ==> (#[trigger] r@[i]).index == i && s.slots@[i] == Some(r@[i]),
{
    assert forall|i: int| 0 <= i < r@.len() implies (#[trigger] r@[i]).index == i && s.slots@[i]
        == Some(r@[i]) by {}
}

} // verus!
