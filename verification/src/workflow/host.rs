//! The host of a workflow run: it admits the script's agent calls, replays
//! results of a prior run, and settles what agents bring back.
use vstd::prelude::*;
#[allow(unused_imports)]
use vstd::string::*;

#[allow(unused_imports)]
use crate::coordinator::types::{
    ModelVerdict, ResultView, SubagentResult, SubagentValidateTypeOutcome, bare_result,
};
#[allow(unused_imports)]
use crate::ids::{fresh_id, uuid_text};
#[allow(unused_imports)]
use crate::json::{JsonValue, json_pretty, json_quoted, pretty_json, quote_json};
#[allow(unused_imports)]
use crate::precision::double::{Double, rounded_double};
#[allow(unused_imports)]
use crate::precision::single::{tenths_of, tenths_shown, tenths_text};
#[allow(unused_imports)]
use crate::text::{
    blank, cat2, cat3, cat4, cat5, copy_option, decimal, decimal_text, in_list, is_blank, join,
    joined, list_holds, option_view, same_text, views,
};
#[allow(unused_imports)]
use crate::workflow::output::{
    contract_prompt, extract_schema_value, prompt_with_output_contract, schema_value,
};
#[allow(unused_imports)]
use crate::workflow::progress::{
    AgentProgressEntry, AgentStatus, ProgressState, with_agent, with_line,
};
#[allow(unused_imports)]
use crate::workflow::replay::{AgentCallInput, JournalEntry, ReplayPlan, journal_key, key_of};

verus! {

/// The name under which the script calls an agent.
pub const WORKFLOW_AGENT_NESTED_TOOL: &'static str = "__wf_agent";

/// How many agents a run may call.
pub const MAX_WORKFLOW_AGENTS: u32 = 1000;

/// Where an agent works.
#[derive(Debug, Clone, Copy, PartialEq, Eq, Structural)]
pub enum SubagentIsolationMode {
    Worktree,
}

/// What is shown after a step: the line that was added, and the whole.
#[derive(Debug)]
pub struct ProgressNote {
    pub line: String,
    pub text: String,
}

/// What the script gets back from a call.
#[derive(Debug)]
pub struct AgentAnswer {
    pub ok: bool,
    pub value: JsonValue,
    pub error: Option<String>,
    pub budget_spent: u64,
    pub agent_id: Option<String>,
    pub cached: bool,
}

/// How a call was admitted.
#[derive(Debug)]
pub enum AgentAdmission {
    /// A result of a prior run serves; the entry is journaled under this run.
    Replayed { answer: AgentAnswer, entry: JournalEntry, note: ProgressNote },
    /// The call runs.
    Fresh { label: String, key: String, subagent_type: String },
}

/// What came of an agent.
#[derive(Debug)]
pub struct AgentOutcome {
    pub agent_id: Option<String>,
    pub value: JsonValue,
    pub error: Option<String>,
    pub tokens_used: u64,
    pub duration_ms: u64,
}

/// How the first result of an agent was settled.
#[derive(Debug)]
pub enum Settled {
    Done(AgentOutcome),
    /// The agent is to try once more, for the value alone.
    Retry { prompt: String, note: ProgressNote },
}

/// How a spawned agent came to an end for its caller.
#[derive(Debug)]
pub enum SpawnEvent {
    Finished(SubagentResult),
    Failed { error: String },
    Cancelled,
    TimedOut,
}

/// The request for an agent of a run.
#[derive(Debug)]
pub struct WorkflowSpawn {
    pub id: String,
    pub prompt: String,
    pub description: String,
    pub subagent_type: String,
    pub parent_session_id: String,
    pub parent_prompt_id: Option<String>,
    pub swarm_id: String,
    pub swarm_description: String,
    pub index: u32,
    pub item: Option<String>,
    pub resume_from: Option<String>,
    pub model: Option<String>,
    pub reasoning_effort: Option<String>,
    pub isolation: Option<SubagentIsolationMode>,
    pub run_in_background: bool,
    pub surface_completion: bool,
}

/// The host of a run.
#[derive(Debug)]
pub struct WorkflowHost {
    pub parent_session_id: String,
    pub parent_prompt_id: Option<String>,
    pub run_id: String,
    pub workflow_name: String,
    pub tool_call_id: String,
    pub token_budget: Option<u64>,
    pub tokens_spent: u64,
    pub agents_started: u32,
    /// The agent types that were found good.
    pub validated_types: Vec<String>,
    pub state: ProgressState,
    pub replay: ReplayPlan,
}

// ---- names ----

/// The label under which a call is shown: its own, or else its number and the
/// beginning of its prompt.
pub open spec fn label_of(call: AgentCallInput) -> Seq<char> {
    if call.label is Some && !blank(call.label->0@) {
        call.label->0@
    } else if call.prompt@.len() > 48 {
        "agent#"@ + decimal(call.index as nat) + ": "@ + call.prompt@.take(48) + "…"@
    } else {
        "agent#"@ + decimal(call.index as nat) + ": "@ + call.prompt@
    }
}

/// The label under which a call is shown.
pub fn display_label(call: &AgentCallInput) -> (r: String)
    ensures
        r@ == label_of(*call),
{
    if let Some(label) = &call.label {
        if !is_blank(label.as_str()) {
            return label.clone();
        }
    }
    let prompt: &str = call.prompt.as_str();
    let number: String = decimal_text(call.index as u64);
    if prompt.unicode_len() > 48 {
        let head: &str = prompt.substring_char(0, 48);
        proof {
            assert(head@ =~= call.prompt@.take(48));
        }
        cat5("agent#", number.as_str(), ": ", head, "…")
    } else {
        cat4("agent#", number.as_str(), ": ", prompt)
    }
}

/// The agent type of a call.
pub open spec fn type_of(call: AgentCallInput) -> Seq<char> {
    match call.agent_type {
        Some(t) => t@,
        None => "general-purpose"@,
    }
}

/// The agent type of a call.
pub fn subagent_type(call: &AgentCallInput) -> (r: String)
    ensures
        r@ == type_of(*call),
{
    match &call.agent_type {
        Some(t) => t.clone(),
        None => "general-purpose".to_owned(),
    }
}

/// A duration as it is shown: minutes and seconds, or for less than a minute
/// the seconds with one decimal.
pub open spec fn duration_text(duration_ms: nat) -> Seq<char> {
    if duration_ms >= 60_000 {
        decimal(duration_ms / 60_000) + "m"@ + decimal((duration_ms % 60_000) / 1000) + "s"@
    } else {
        tenths_shown(tenths_of(rounded_double(duration_ms, 1_000, 0)) as nat) + "s"@
    }
}

/// A duration as it is shown.
pub fn format_duration_ms(duration_ms: u64) -> (r: String)
    ensures
        r@ == duration_text(duration_ms as nat),
{
    if duration_ms >= 60_000 {
        cat4(
            decimal_text(duration_ms / 60_000).as_str(),
            "m",
            decimal_text((duration_ms % 60_000) / 1000).as_str(),
            "s",
        )
    } else {
        cat2(tenths_text(Double::ratio(duration_ms, 1_000).tenths()).as_str(), "s")
    }
}

// ---- what a call may ask for ----

/// Why an agent type is refused, if it is.
pub open spec fn type_error(t: Seq<char>, outcome: SubagentValidateTypeOutcome) -> Option<Seq<char>> {
    match outcome {
        SubagentValidateTypeOutcome::Known => None,
        SubagentValidateTypeOutcome::Unknown { available } => Some(
            "agent(): unknown agentType `"@ + t + "`"@ + (if available@.len() == 0 {
                Seq::empty()
            } else {
                ". Available types: "@ + joined(views(available@), ", "@)
            }),
        ),
        SubagentValidateTypeOutcome::Disabled => Some(
            "agent(): agentType `"@ + t + "` is disabled"@,
        ),
        SubagentValidateTypeOutcome::NotAllowed { allowed } => Some(
            "agent(): this agent can only spawn: "@ + joined(views(allowed@), ", "@) + "; `"@ + t
                + "` not allowed"@,
        ),
        SubagentValidateTypeOutcome::ValidationUnavailable => Some(
            "agent(): cannot validate agentType: the subagent coordinator is unreachable"@,
        ),
    }
}

/// Why the model that a call asks for is refused, if it is.
pub open spec fn model_error(model: Option<Seq<char>>, verdict: ModelVerdict) -> Option<Seq<char>> {
    match (model, verdict) {
        (None, _) => None,
        (Some(_), ModelVerdict::Accepted) => None,
        (Some(_), ModelVerdict::Rejected(error)) => Some(error@),
        (Some(m), ModelVerdict::NoValidator) => Some(
            "agent(): cannot validate model `"@ + m
                + "`: model catalog validator is unavailable"@,
        ),
    }
}

/// Where the agent of a call works, or why that is refused.
pub open spec fn isolation_of(isolation: Option<Seq<char>>) -> Result<
    Option<SubagentIsolationMode>,
    Seq<char>,
> {
    match isolation {
        None => Ok(None),
        Some(s) => if s == "none"@ {
            Ok(None)
        } else if s == "worktree"@ {
            Ok(Some(SubagentIsolationMode::Worktree))
        } else {
            Err("agent(): invalid isolation `"@ + s + "` (expected \"worktree\")"@)
        },
    }
}

/// What a call may ask for is judged in this order: agent type, model, isolation.
pub open spec fn call_verdict(
    call: AgentCallInput,
    outcome: SubagentValidateTypeOutcome,
    verdict: ModelVerdict,
) -> Result<Option<SubagentIsolationMode>, Seq<char>> {
    if type_error(type_of(call), outcome) is Some {
        Err(type_error(type_of(call), outcome)->0)
    } else if model_error(option_view(call.model), verdict) is Some {
        Err(model_error(option_view(call.model), verdict)->0)
    } else {
        isolation_of(option_view(call.isolation))
    }
}

fn judge_type(t: &str, outcome: &SubagentValidateTypeOutcome) -> (r: Option<String>)
    ensures
        option_view(r) == type_error(t@, *outcome),
{
    match outcome {
        SubagentValidateTypeOutcome::Known => None,
        SubagentValidateTypeOutcome::Unknown { available } => {
            let suffix: String = if available.len() == 0 {
                String::new()
            } else {
                cat2(". Available types: ", join(available, ", ").as_str())
            };
            Some(cat4("agent(): unknown agentType `", t, "`", suffix.as_str()))
        },
        SubagentValidateTypeOutcome::Disabled => Some(
            cat3("agent(): agentType `", t, "` is disabled"),
        ),
        SubagentValidateTypeOutcome::NotAllowed { allowed } => Some(
            cat5(
                "agent(): this agent can only spawn: ",
                join(allowed, ", ").as_str(),
                "; `",
                t,
                "` not allowed",
            ),
        ),
        SubagentValidateTypeOutcome::ValidationUnavailable => Some(
            "agent(): cannot validate agentType: the subagent coordinator is unreachable".to_owned(),
        ),
    }
}

/// Judges what a call asks for.
pub fn judge_call(
    call: &AgentCallInput,
    outcome: &SubagentValidateTypeOutcome,
    verdict: &ModelVerdict,
) -> (r: Result<Option<SubagentIsolationMode>, String>)
    ensures
        match (r, call_verdict(*call, *outcome, *verdict)) {
            (Ok(a), Ok(b)) => a == b,
            (Err(a), Err(b)) => a@ == b,
            _ => false,
        },
{
    let t: String = subagent_type(call);
    if let Some(error) = judge_type(t.as_str(), outcome) {
        return Err(error);
    }
    if let Some(model) = &call.model {
        match verdict {
            ModelVerdict::Accepted => {},
            ModelVerdict::Rejected(error) => {
                return Err(error.clone());
            },
            ModelVerdict::NoValidator => {
                return Err(
                    cat3(
                        "agent(): cannot validate model `",
                        model.as_str(),
                        "`: model catalog validator is unavailable",
                    ),
                );
            },
        }
    }
    match &call.isolation {
        None => Ok(None),
        Some(s) => {
            if same_text(s.as_str(), "none") {
                Ok(None)
            } else if same_text(s.as_str(), "worktree") {
                Ok(Some(SubagentIsolationMode::Worktree))
            } else {
                Err(
                    cat3(
                        "agent(): invalid isolation `",
                        s.as_str(),
                        "` (expected \"worktree\")",
                    ),
                )
            }
        },
    }
}

/// Why a tool that the script calls is refused, if it is.
pub fn nested_tool_error(name: &str) -> (r: Option<String>)
    ensures
        option_view(r) == (if name@ == WORKFLOW_AGENT_NESTED_TOOL@ {
            None
        } else {
            Some(
                "workflow scripts can only call the built-in hooks (unknown tool `"@ + name@ + "`)"@,
            )
        }),
{
    if same_text(name, WORKFLOW_AGENT_NESTED_TOOL) {
        None
    } else {
        Some(
            cat3(
                "workflow scripts can only call the built-in hooks (unknown tool `",
                name,
                "`)",
            ),
        )
    }
}

// ---- outcomes ----

/// What an outcome holds.
#[verifier::ext_equal]
pub struct OutcomeView {
    pub agent_id: Option<Seq<char>>,
    pub value: Seq<char>,
    pub error: Option<Seq<char>>,
    pub tokens_used: nat,
    pub duration_ms: nat,
}

impl View for AgentOutcome {
    type V = OutcomeView;

    open spec fn view(&self) -> OutcomeView {
        OutcomeView {
            agent_id: option_view(self.agent_id),
            value: self.value@,
            error: option_view(self.error),
            tokens_used: self.tokens_used as nat,
            duration_ms: self.duration_ms as nat,
        }
    }
}

/// An agent failed.
pub open spec fn failed_outcome(
    agent_id: Option<Seq<char>>,
    error: Seq<char>,
    tokens_used: nat,
    duration_ms: nat,
) -> OutcomeView {
    OutcomeView { agent_id, value: "null"@, error: Some(error), tokens_used, duration_ms }
}

/// An agent brought a value.
pub open spec fn good_outcome(
    agent_id: Seq<char>,
    value: Seq<char>,
    tokens_used: nat,
    duration_ms: nat,
) -> OutcomeView {
    OutcomeView { agent_id: Some(agent_id), value, error: None, tokens_used, duration_ms }
}

impl AgentOutcome {
    /// An agent that failed before it did anything.
    pub fn failed(agent_id: Option<String>, error: String) -> (r: AgentOutcome)
        ensures
            r@ == failed_outcome(option_view(agent_id), error@, 0, 0),
    {
        AgentOutcome {
            agent_id,
            value: JsonValue::null(),
            error: Some(error),
            tokens_used: 0,
            duration_ms: 0,
        }
    }

    /// An agent that failed with a result.
    pub fn failed_with(
        agent_id: Option<String>,
        error: String,
        result: &SubagentResult,
    ) -> (r: AgentOutcome)
        ensures
            r@ == failed_outcome(
                option_view(agent_id),
                error@,
                result.tokens_used as nat,
                result.duration_ms as nat,
            ),
    {
        AgentOutcome {
            agent_id,
            value: JsonValue::null(),
            error: Some(error),
            tokens_used: result.tokens_used,
            duration_ms: result.duration_ms,
        }
    }
}

/// The result of an agent that ran out of time.
pub fn timed_out_result(agent_id: &str, timeout_ms: u64) -> (r: SubagentResult)
    ensures
        r@ == (ResultView {
            error: Some("agent timed out after "@ + decimal(timeout_ms as nat / 1000) + "s"@),
            duration_ms: timeout_ms,
            ..bare_result(agent_id@, agent_id@)
        }),
{
    let mut result: SubagentResult = SubagentResult::bare(agent_id, agent_id);
    result.error =
    Some(cat3("agent timed out after ", decimal_text(timeout_ms / 1000).as_str(), "s"));
    result.duration_ms = timeout_ms;
    result
}

/// What a spawned agent brought: its result, or why there is none. One that
/// ran out of time has a result that says so.
pub open spec fn spawn_brought(
    event: SpawnEvent,
    agent_id: Seq<char>,
    timeout_ms: u64,
    r: Result<SubagentResult, String>,
) -> bool {
    match event {
        SpawnEvent::Finished(result) => r == Ok::<SubagentResult, String>(result),
        SpawnEvent::Failed { error } => r is Err && r->Err_0@ == "agent spawn failed: "@ + error@,
        SpawnEvent::Cancelled => r is Err && r->Err_0@ == "workflow cancelled"@,
        SpawnEvent::TimedOut => r is Ok && r->Ok_0@ == (ResultView {
            error: Some("agent timed out after "@ + decimal(timeout_ms as nat / 1000) + "s"@),
            duration_ms: timeout_ms,
            ..bare_result(agent_id, agent_id)
        }),
    }
}

/// What a spawned agent brought: its result, or why there is none.
pub fn spawn_verdict(event: SpawnEvent, agent_id: &str, timeout_ms: u64) -> (r: Result<
    SubagentResult,
    String,
>)
    ensures
        spawn_brought(event, agent_id@, timeout_ms, r),
{
    match event {
        SpawnEvent::Finished(result) => Ok(result),
        SpawnEvent::Failed { error } => Err(cat2("agent spawn failed: ", error.as_str())),
        SpawnEvent::Cancelled => Err("workflow cancelled".to_owned()),
        SpawnEvent::TimedOut => Ok(timed_out_result(agent_id, timeout_ms)),
    }
}

/// How the first result of an agent is settled, if no second is needed.
pub open spec fn first_outcome(
    schema: Option<Seq<char>>,
    agent_id: Seq<char>,
    result: SubagentResult,
) -> Option<OutcomeView> {
    let tokens = result.tokens_used as nat;
    let duration = result.duration_ms as nat;
    if result.cancelled {
        Some(failed_outcome(Some(agent_id), "agent cancelled"@, tokens, duration))
    } else if !result.success {
        Some(
            failed_outcome(
                Some(agent_id),
                match result.error {
                    Some(e) => e@,
                    None => "agent failed"@,
                },
                tokens,
                duration,
            ),
        )
    } else {
        match schema {
            None => Some(good_outcome(agent_id, json_quoted(result.output@), tokens, duration)),
            Some(s) => match schema_value(result.output@, s) {
                Some(v) => Some(good_outcome(agent_id, v, tokens, duration)),
                None => None,
            },
        }
    }
}

/// How the second and last result of an agent is settled.
pub open spec fn second_outcome(
    schema: Seq<char>,
    first_id: Seq<char>,
    first_tokens: nat,
    first_duration: nat,
    retry: Result<(String, SubagentResult), String>,
) -> OutcomeView {
    match retry {
        Err(error) => failed_outcome(
            Some(first_id),
            "schema retry failed: "@ + error@,
            first_tokens,
            first_duration,
        ),
        Ok((id, result)) => {
            let tokens = first_tokens + result.tokens_used as nat;
            let duration = first_duration + result.duration_ms as nat;
            match schema_value(result.output@, schema) {
                Some(v) if result.success => good_outcome(id@, v, tokens, duration),
                _ => failed_outcome(
                    Some(id@),
                    "agent output did not match the required schema"@,
                    tokens,
                    duration,
                ),
            }
        },
    }
}

/// The prompt that asks an agent for the value alone.
pub open spec fn corrective_prompt(pretty: Seq<char>) -> Seq<char> {
    "Your previous reply was not a single JSON value matching the required schema. Reply now with ONLY that JSON value — no prose, no code fences.\n\nSchema:\n"@
        + pretty
}

/// The schema of a call.
pub open spec fn schema_of(call: AgentCallInput) -> Option<Seq<char>> {
    match call.schema {
        Some(v) => Some(v@),
        None => None,
    }
}

/// The prompt for the agent of a call: a schema is handed on with it.
pub open spec fn opening_prompt(call: AgentCallInput) -> Seq<char> {
    match schema_of(call) {
        Some(s) => contract_prompt(call.prompt@, json_pretty(s)),
        None => call.prompt@,
    }
}

// ---- the host ----

/// What a script gets back.
pub open spec fn answers(
    a: AgentAnswer,
    value: Seq<char>,
    error: Option<Seq<char>>,
    spent: u64,
    agent_id: Option<Seq<char>>,
    cached: bool,
) -> bool {
    &&& a.ok == (error is None)
    &&& a.value@ == value
    &&& option_view(a.error) == error
    &&& a.budget_spent == spent
    &&& option_view(a.agent_id) == agent_id
    &&& a.cached == cached
}

/// An entry of the progress.
pub open spec fn agent_entry(
    e: AgentProgressEntry,
    call: AgentCallInput,
    label: Seq<char>,
    status: AgentStatus,
    detail: Option<Seq<char>>,
) -> bool {
    &&& e.index == call.index
    &&& e.label@ == label
    &&& e.phase == call.phase
    &&& e.status == status
    &&& option_view(e.detail) == detail
}

impl WorkflowHost {
    /// A host at the start of a run.
    pub fn new(
        parent_session_id: String,
        parent_prompt_id: Option<String>,
        run_id: String,
        workflow_name: String,
        tool_call_id: String,
        token_budget: Option<u64>,
        replay: ReplayPlan,
    ) -> (r: WorkflowHost)
        requires
            replay.wf(),
        ensures
            r.wf(),
            r.parent_session_id == parent_session_id,
            r.parent_prompt_id == parent_prompt_id,
            r.run_id == run_id,
            r.workflow_name == workflow_name,
            r.tool_call_id == tool_call_id,
            r.token_budget == token_budget,
            r.replay == replay,
            r.tokens_spent == 0,
            r.agents_started == 0,
            r.validated_types@.len() == 0,
            r.state.agents@.len() == 0,
            r.state.log@.len() == 0,
            r.state.current_phase is None,
    {
        WorkflowHost {
            parent_session_id,
            parent_prompt_id,
            run_id,
            workflow_name,
            tool_call_id,
            token_budget,
            tokens_spent: 0,
            agents_started: 0,
            validated_types: Vec::new(),
            state: ProgressState::default(),
            replay,
        }
    }

    /// The progress is counted right, and no result can be replayed twice.
    pub open spec fn wf(&self) -> bool {
        self.state.wf() && self.replay.wf()
    }

    /// How many tokens the run has used.
    pub fn tokens_spent(&self) -> (r: u64)
        ensures
            r == self.tokens_spent,
    {
        self.tokens_spent
    }

    /// How many agents the run has called.
    pub fn agents_started(&self) -> (r: u32)
        ensures
            r == self.agents_started,
    {
        self.agents_started
    }

    /// A line was added to the progress and shown.
    pub open spec fn noted(
        &self,
        before: ProgressState,
        line: Seq<char>,
        note: ProgressNote,
    ) -> bool {
        &&& self.state == (ProgressState { log: self.state.log, ..before })
        &&& note.line@ == line
        &&& exists|l: String|
            #![trigger l@]
            l@ == line && self.state.log@ == with_line(before.log@, l)
        &&& note.text@ == self.state.shown()
    }

    fn emit_progress(&mut self, line: String) -> (r: ProgressNote)
        ensures
            *final(self) == (WorkflowHost { state: final(self).state, ..*old(self) }),
            final(self).noted(old(self).state, line@, r),
            old(self).wf() ==> final(self).wf(),
    {
        let copy: String = line.clone();
        self.state.push_line(copy);
        proof {
            assert(copy@ == line@);
        }
        ProgressNote { line, text: self.state.render() }
    }

    /// The script entered a phase.
    pub fn record_phase(&mut self, title: &str) -> (r: ProgressNote)
        ensures
            *final(self) == (WorkflowHost { state: final(self).state, ..*old(self) }),
            option_view(final(self).state.current_phase) == Some(title@),
            final(self).noted(
                (ProgressState { current_phase: final(self).state.current_phase, ..old(
                    self,
                ).state }),
                "── phase: "@ + title@,
                r,
            ),
            old(self).wf() ==> final(self).wf(),
    {
        self.state.current_phase = Some(title.to_owned());
        self.emit_progress(cat2("── phase: ", title))
    }

    /// The script logged a message.
    pub fn record_log(&mut self, message: &str) -> (r: ProgressNote)
        ensures
            *final(self) == (WorkflowHost { state: final(self).state, ..*old(self) }),
            final(self).noted(old(self).state, "• "@ + message@, r),
            old(self).wf() ==> final(self).wf(),
    {
        self.emit_progress(cat2("• ", message))
    }

    /// An agent was put into the progress, and a line was shown.
    pub open spec fn agent_noted(
        &self,
        before: WorkflowHost,
        call: AgentCallInput,
        label: Seq<char>,
        status: AgentStatus,
        detail: Option<Seq<char>>,
        line: Seq<char>,
        note: ProgressNote,
    ) -> bool {
        exists|e: AgentProgressEntry, middle: ProgressState|
            {
                &&& #[trigger] agent_entry(e, call, label, status, detail)
                &&& middle.agents@ == with_agent(before.state.agents@, e)
                &&& middle.log == before.state.log
                &&& middle.current_phase == before.state.current_phase
                &&& #[trigger] self.noted(middle, line, note)
            }
    }

    fn record_agent(
        &mut self,
        call: &AgentCallInput,
        label: &str,
        status: AgentStatus,
        detail: Option<String>,
        line: String,
    ) -> (r: ProgressNote)
        ensures
            *final(self) == (WorkflowHost { state: final(self).state, ..*old(self) }),
            final(self).agent_noted(
                *old(self),
                *call,
                label@,
                status,
                option_view(detail),
                line@,
                r,
            ),
            old(self).wf() ==> final(self).wf(),
    {
        let entry: AgentProgressEntry = AgentProgressEntry {
            index: call.index,
            label: label.to_owned(),
            phase: copy_option(&call.phase),
            status,
            detail,
        };
        let ghost e = entry;
        self.state.upsert_agent(entry);
        proof {
            assert(agent_entry(e, *call, label@, status, option_view(detail)));
        }
        self.emit_progress(line)
    }

    /// What the admission of a call leaves and gives. The checks come in this
    /// order: the token budget, the number of agents, the journal.
    pub open spec fn begin_post(
        &self,
        before: WorkflowHost,
        call: AgentCallInput,
        r: Result<AgentAdmission, String>,
    ) -> bool {
        let label = label_of(call);
        if before.token_budget is Some && before.tokens_spent >= before.token_budget->0 {
            &&& *self == before
            &&& r is Err
            &&& r->Err_0@ == "workflow token budget exhausted ("@ + decimal(
                before.tokens_spent as nat,
            ) + "/"@ + decimal(before.token_budget->0 as nat) + " tokens)"@
        } else {
            &&& *self == (WorkflowHost {
                agents_started: before.agents_started.wrapping_add(1),
                state: self.state,
                replay: self.replay,
                ..before
            })
            &&& if before.agents_started >= MAX_WORKFLOW_AGENTS {
                &&& self.state == before.state
                &&& self.replay == before.replay
                &&& r is Err
                &&& r->Err_0@ == "workflow agent cap reached (1000 agents per run)"@
            } else {
                exists|found: Option<JournalEntry>|
                    {
                        &&& #[trigger] self.replay.take_post(
                            before.replay,
                            call.index,
                            key_of(call),
                            found,
                        )
                        &&& match (found, r) {
                            (
                                Some(e),
                                Ok(AgentAdmission::Replayed { answer, entry, note }),
                            ) => {
                                &&& answers(
                                    answer,
                                    e.value@,
                                    None,
                                    before.tokens_spent,
                                    option_view(e.agent_id),
                                    true,
                                )
                                &&& entry == (JournalEntry {
                                    index: call.index,
                                    key: entry.key,
                                    ..e
                                })
                                &&& entry.key@ == key_of(call)
                                &&& self.agent_noted(
                                    before,
                                    call,
                                    label,
                                    AgentStatus::Cached,
                                    None,
                                    "↺ "@ + label + " (replayed from journal)"@,
                                    note,
                                )
                            },
                            (
                                None,
                                Ok(AgentAdmission::Fresh { label: shown, key, subagent_type }),
                            ) => {
                                &&& self.state == before.state
                                &&& shown@ == label
                                &&& key@ == key_of(call)
                                &&& subagent_type@ == type_of(call)
                            },
                            _ => false,
                        }
                    }
            }
        }
    }

    /// Admits a call of the script.
    pub fn begin_agent(&mut self, call: &AgentCallInput) -> (r: Result<AgentAdmission, String>)
        ensures
            final(self).begin_post(*old(self), *call, r),
            old(self).wf() ==> final(self).wf(),
    {
        let ghost before = *self;
        if let Some(total) = self.token_budget {
            let spent: u64 = self.tokens_spent;
            if spent >= total {
                return Err(
                    cat5(
                        "workflow token budget exhausted (",
                        decimal_text(spent).as_str(),
                        "/",
                        decimal_text(total).as_str(),
                        " tokens)",
                    ),
                );
            }
        }
        let started: u32 = self.agents_started;
        self.agents_started = started.wrapping_add(1);
        if started >= MAX_WORKFLOW_AGENTS {
            return Err("workflow agent cap reached (1000 agents per run)".to_owned());
        }
        let label: String = display_label(call);
        let key: String = journal_key(call);
        let found: Option<JournalEntry> = self.replay.take(call, key.as_str());
        let ghost replay = self.replay;
        proof {
            assert(replay.take_post(before.replay, call.index, key_of(*call), found));
        }
        match found {
            Some(e) => {
                let ghost middle = *self;
                let line: String = cat3("↺ ", label.as_str(), " (replayed from journal)");
                let note: ProgressNote = self.record_agent(
                    call,
                    label.as_str(),
                    AgentStatus::Cached,
                    None,
                    line,
                );
                proof {
                    assert(middle.state == before.state);
                    assert(self.agent_noted(
                        middle,
                        *call,
                        label_of(*call),
                        AgentStatus::Cached,
                        None,
                        line@,
                        note,
                    ));
                    assert(self.agent_noted(
                        before,
                        *call,
                        label_of(*call),
                        AgentStatus::Cached,
                        None,
                        line@,
                        note,
                    ));
                }
                let answer: AgentAnswer = AgentAnswer {
                    ok: true,
                    value: e.value.duplicate(),
                    error: None,
                    budget_spent: self.tokens_spent,
                    agent_id: copy_option(&e.agent_id),
                    cached: true,
                };
                let mut entry: JournalEntry = e;
                entry.index = call.index;
                entry.key = key;
                Ok(AgentAdmission::Replayed { answer, entry, note })
            },
            None => Ok(AgentAdmission::Fresh { label, key, subagent_type: subagent_type(call) }),
        }
    }

    /// Whether an agent type was found good before.
    pub fn type_known(&self, subagent_type: &str) -> (r: bool)
        ensures
            r == in_list(self.validated_types@, subagent_type@),
    {
        list_holds(&self.validated_types, subagent_type)
    }

    /// Remembers that an agent type was found good.
    pub fn remember_type(&mut self, subagent_type: &str)
        ensures
            *final(self) == (WorkflowHost {
                validated_types: final(self).validated_types,
                ..*old(self)
            }),
            final(self).validated_types@.len() == old(self).validated_types@.len() + 1,
            final(self).validated_types@.drop_last() == old(self).validated_types@,
            final(self).validated_types@.last()@ == subagent_type@,
            old(self).wf() ==> final(self).wf(),
    {
        let ghost before = self.validated_types@;
        self.validated_types.push(subagent_type.to_owned());
        proof {
            assert(self.validated_types@.drop_last() =~= before);
        }
    }

    /// Shows that the agent of a call runs.
    pub fn start_agent(&mut self, call: &AgentCallInput, label: &str) -> (r: ProgressNote)
        ensures
            *final(self) == (WorkflowHost { state: final(self).state, ..*old(self) }),
            final(self).agent_noted(
                *old(self),
                *call,
                label@,
                AgentStatus::Running,
                None,
                "▶ "@ + label@,
                r,
            ),
            old(self).wf() ==> final(self).wf(),
    {
        self.record_agent(call, label, AgentStatus::Running, None, cat2("▶ ", label))
    }

    /// The prompt for the agent of a call.
    pub fn first_prompt(&self, call: &AgentCallInput) -> (r: String)
        ensures
            r@ == opening_prompt(*call),
    {
        match &call.schema {
            Some(schema) => prompt_with_output_contract(call.prompt.as_str(), schema),
            None => call.prompt.clone(),
        }
    }

    /// A request for the agent of a call. It is awaited, and its end is not
    /// surfaced.
    pub open spec fn requested(
        &self,
        call: AgentCallInput,
        subagent_type: Seq<char>,
        isolation: Option<SubagentIsolationMode>,
        prompt: Seq<char>,
        resume_from: Option<Seq<char>>,
        r: WorkflowSpawn,
    ) -> bool {
        &&& uuid_text(r.id@)
        &&& r.prompt@ == prompt
        &&& r.description@ == label_of(call)
        &&& r.subagent_type@ == subagent_type
        &&& r.parent_session_id == self.parent_session_id
        &&& r.parent_prompt_id == self.parent_prompt_id
        &&& r.swarm_id == self.run_id
        &&& r.swarm_description == self.workflow_name
        &&& r.index == call.index
        &&& r.item == call.label
        &&& option_view(r.resume_from) == resume_from
        &&& r.model == call.model
        &&& r.reasoning_effort == call.effort
        &&& r.isolation == isolation
        &&& !r.run_in_background
        &&& !r.surface_completion
    }

    /// The request for an agent, under a fresh id.
    pub fn spawn_request(
        &self,
        call: &AgentCallInput,
        subagent_type: &str,
        isolation: Option<SubagentIsolationMode>,
        prompt: String,
        resume_from: Option<String>,
    ) -> (r: WorkflowSpawn)
        ensures
            self.requested(
                *call,
                subagent_type@,
                isolation,
                prompt@,
                option_view(resume_from),
                r,
            ),
    {
        WorkflowSpawn {
            id: fresh_id(),
            prompt,
            description: display_label(call),
            subagent_type: subagent_type.to_owned(),
            parent_session_id: self.parent_session_id.clone(),
            parent_prompt_id: copy_option(&self.parent_prompt_id),
            swarm_id: self.run_id.clone(),
            swarm_description: self.workflow_name.clone(),
            index: call.index,
            item: copy_option(&call.label),
            resume_from,
            model: copy_option(&call.model),
            reasoning_effort: copy_option(&call.effort),
            isolation,
            run_in_background: false,
            surface_completion: false,
        }
    }

    /// What the first result of an agent leaves and gives: its tokens are
    /// counted, and an output without a value that fits the schema is asked
    /// for once more.
    pub open spec fn settle_post(
        &self,
        before: WorkflowHost,
        call: AgentCallInput,
        label: Seq<char>,
        agent_id: Seq<char>,
        result: SubagentResult,
        r: Settled,
    ) -> bool {
        &&& *self == (WorkflowHost {
            tokens_spent: before.tokens_spent.wrapping_add(result.tokens_used),
            state: self.state,
            ..before
        })
        &&& match first_outcome(schema_of(call), agent_id, result) {
            Some(outcome) => {
                &&& self.state == before.state
                &&& r is Done
                &&& r->Done_0@ == outcome
            },
            None => match r {
                Settled::Retry { prompt, note } => {
                    &&& prompt@ == corrective_prompt(json_pretty(schema_of(call)->0))
                    &&& self.noted(
                        before.state,
                        "• "@ + (label
                            + ": output did not match the schema; asking the agent to reformat"@),
                        note,
                    )
                },
                _ => false,
            },
        }
    }

    /// Settles the first result of an agent.
    pub fn settle_agent(
        &mut self,
        call: &AgentCallInput,
        label: &str,
        agent_id: &str,
        result: &SubagentResult,
    ) -> (r: Settled)
        ensures
            final(self).settle_post(*old(self), *call, label@, agent_id@, *result, r),
            old(self).wf() ==> final(self).wf(),
    {
        self.tokens_spent = self.tokens_spent.wrapping_add(result.tokens_used);
        if result.cancelled {
            return Settled::Done(
                AgentOutcome::failed_with(
                    Some(agent_id.to_owned()),
                    "agent cancelled".to_owned(),
                    result,
                ),
            );
        }
        if !result.success {
            let error: String = match &result.error {
                Some(e) => e.clone(),
                None => "agent failed".to_owned(),
            };
            return Settled::Done(
                AgentOutcome::failed_with(Some(agent_id.to_owned()), error, result),
            );
        }
        let value: Option<JsonValue> = match &call.schema {
            None => Some(quote_json(result.output.as_str())),
            Some(schema) => extract_schema_value(result.output.as_str(), schema),
        };
        match value {
            Some(value) => Settled::Done(
                AgentOutcome {
                    agent_id: Some(agent_id.to_owned()),
                    value,
                    error: None,
                    tokens_used: result.tokens_used,
                    duration_ms: result.duration_ms,
                },
            ),
            None => {
                let message: String = cat2(
                    label,
                    ": output did not match the schema; asking the agent to reformat",
                );
                let note: ProgressNote = self.record_log(message.as_str());
                let pretty: String = match &call.schema {
                    Some(schema) => pretty_json(schema),
                    None => String::new(),
                };
                Settled::Retry {
                    prompt: cat2(
                        "Your previous reply was not a single JSON value matching the required schema. Reply now with ONLY that JSON value — no prose, no code fences.\n\nSchema:\n",
                        pretty.as_str(),
                    ),
                    note,
                }
            },
        }
    }

    /// Settles the second and last result of an agent.
    pub fn settle_retry(
        &mut self,
        schema: &JsonValue,
        first_id: &str,
        first_tokens: u64,
        first_duration_ms: u64,
        retry: Result<(String, SubagentResult), String>,
    ) -> (r: AgentOutcome)
        requires
            retry is Ok ==> first_tokens + retry->Ok_0.1.tokens_used <= u64::MAX,
            retry is Ok ==> first_duration_ms + retry->Ok_0.1.duration_ms <= u64::MAX,
        ensures
            *final(self) == (WorkflowHost {
                tokens_spent: match retry {
                    Ok((_, result)) => old(self).tokens_spent.wrapping_add(result.tokens_used),
                    Err(_) => old(self).tokens_spent,
                },
                ..*old(self)
            }),
            r@ == second_outcome(
                schema@,
                first_id@,
                first_tokens as nat,
                first_duration_ms as nat,
                retry,
            ),
            old(self).wf() ==> final(self).wf(),
    {
        match retry {
            Ok((id, result)) => {
                self.tokens_spent = self.tokens_spent.wrapping_add(result.tokens_used);
                let tokens_used: u64 = first_tokens + result.tokens_used;
                let duration_ms: u64 = first_duration_ms + result.duration_ms;
                if result.success {
                    if let Some(value) = extract_schema_value(result.output.as_str(), schema) {
                        return AgentOutcome {
                            agent_id: Some(id),
                            value,
                            error: None,
                            tokens_used,
                            duration_ms,
                        };
                    }
                }
                AgentOutcome {
                    agent_id: Some(id),
                    value: JsonValue::null(),
                    error: Some("agent output did not match the required schema".to_owned()),
                    tokens_used,
                    duration_ms,
                }
            },
            Err(error) => AgentOutcome {
                agent_id: Some(first_id.to_owned()),
                value: JsonValue::null(),
                error: Some(cat2("schema retry failed: ", error.as_str())),
                tokens_used: first_tokens,
                duration_ms: first_duration_ms,
            },
        }
    }

    /// What the conclusion of a call leaves and gives: how it ended is shown, a
    /// success is journaled, and the script is answered.
    pub open spec fn conclude_post(
        &self,
        before: WorkflowHost,
        call: AgentCallInput,
        key: String,
        label: Seq<char>,
        outcome: AgentOutcome,
        answer: AgentAnswer,
        entry: Option<JournalEntry>,
        note: ProgressNote,
    ) -> bool {
        &&& *self == (WorkflowHost { state: self.state, ..before })
        &&& answers(
            answer,
            outcome.value@,
            option_view(outcome.error),
            before.tokens_spent,
            option_view(outcome.agent_id),
            false,
        )
        &&& match outcome.error {
            None => {
                &&& self.agent_noted(
                    before,
                    call,
                    label,
                    AgentStatus::Done,
                    None,
                    "✓ "@ + label + " ("@ + duration_text(outcome.duration_ms as nat)
                        + ", "@ + decimal(outcome.tokens_used as nat) + " tok)"@,
                    note,
                )
                &&& entry == Some(
                    JournalEntry {
                        index: call.index,
                        key,
                        ok: true,
                        value: outcome.value,
                        error: None,
                        label: call.label,
                        phase: call.phase,
                        tokens_used: outcome.tokens_used,
                        duration_ms: outcome.duration_ms,
                        agent_id: outcome.agent_id,
                    },
                )
            },
            Some(error) => {
                &&& self.agent_noted(
                    before,
                    call,
                    label,
                    AgentStatus::Failed,
                    Some(error@),
                    "✗ "@ + label + ": "@ + error@,
                    note,
                )
                &&& entry is None
            },
        }
    }

    /// Concludes a call.
    pub fn conclude_agent(
        &mut self,
        call: &AgentCallInput,
        key: String,
        label: &str,
        outcome: AgentOutcome,
    ) -> (r: (AgentAnswer, Option<JournalEntry>, ProgressNote))
        ensures
            final(self).conclude_post(
                *old(self),
                *call,
                key,
                label@,
                outcome,
                r.0,
                r.1,
                r.2,
            ),
            old(self).wf() ==> final(self).wf(),
    {
        let answer: AgentAnswer = AgentAnswer {
            ok: outcome.error.is_none(),
            value: outcome.value.duplicate(),
            error: copy_option(&outcome.error),
            budget_spent: self.tokens_spent,
            agent_id: copy_option(&outcome.agent_id),
            cached: false,
        };
        match outcome.error {
            None => {
                let duration: String = format_duration_ms(outcome.duration_ms);
                let head: String = cat4("✓ ", label, " (", duration.as_str());
                let line: String = cat4(
                    head.as_str(),
                    ", ",
                    decimal_text(outcome.tokens_used).as_str(),
                    " tok)",
                );
                let note: ProgressNote = self.record_agent(
                    call,
                    label,
                    AgentStatus::Done,
                    None,
                    line,
                );
                let entry: JournalEntry = JournalEntry {
                    index: call.index,
                    key,
                    ok: true,
                    value: outcome.value,
                    error: None,
                    label: copy_option(&call.label),
                    phase: copy_option(&call.phase),
                    tokens_used: outcome.tokens_used,
                    duration_ms: outcome.duration_ms,
                    agent_id: outcome.agent_id,
                };
                (answer, Some(entry), note)
            },
            Some(error) => {
                let line: String = cat4("✗ ", label, ": ", error.as_str());
                let note: ProgressNote = self.record_agent(
                    call,
                    label,
                    AgentStatus::Failed,
                    Some(error),
                    line,
                );
                (answer, None, note)
            },
        }
    }
}

// ---- laws ----

/// Resume chains: a result that was replayed is journaled under this run with
/// the key of the call it served, so that a run that resumes from this one
/// finds it under that key again.
pub proof fn law_replayed_results_are_journaled_again(
    before: WorkflowHost,
    after: WorkflowHost,
    call: AgentCallInput,
    answer: AgentAnswer,
    entry: JournalEntry,
    note: ProgressNote,
)
    requires
        after.begin_post(
            before,
            call,
            Ok(AgentAdmission::Replayed { answer, entry, note }),
        ),
    ensures
        entry.key@ == key_of(call),
        entry.index == call.index,
        entry.value@ == answer.value@,
{
}

/// Once the tokens of the budget are used, no further call is admitted, and
/// nothing is recorded of it.
pub proof fn law_spent_budget_admits_nothing(
    before: WorkflowHost,
    after: WorkflowHost,
    call: AgentCallInput,
    r: Result<AgentAdmission, String>,
)
    requires
        before.token_budget is Some,
        before.tokens_spent >= before.token_budget->0,
        after.begin_post(before, call, r),
    ensures
        r is Err,
        after == before,
{
}

} // verus!
