//! The course of one agent call, from the script's payload to its answer.
use vstd::prelude::*;
#[allow(unused_imports)]
use vstd::string::*;

#[allow(unused_imports)]
use crate::coordinator::types::{ModelVerdict, SubagentResult, SubagentValidateTypeOutcome};
#[allow(unused_imports)]
use crate::json::{JsonValue};
#[allow(unused_imports)]
use crate::text::{cat2, in_list, option_view, views};
#[allow(unused_imports)]
use crate::workflow::host::{
    AgentAdmission, AgentAnswer, AgentOutcome, OutcomeView, ProgressNote, Settled, SpawnEvent,
    SubagentIsolationMode, WorkflowHost, WorkflowSpawn, call_verdict, failed_outcome, judge_call,
    label_of, opening_prompt, second_outcome, spawn_brought, spawn_verdict, subagent_type, type_of,
};
#[allow(unused_imports)]
use crate::workflow::progress::{AgentStatus};
#[allow(unused_imports)]
use crate::workflow::replay::{AgentCallInput, JournalEntry, key_of};

verus! {

/// The payload of a call, as far as it could be read.
#[derive(Debug)]
pub enum AgentPayload {
    Missing,
    Invalid { error: String },
    Call(AgentCallInput),
}

/// What a call is waiting for.
#[derive(Debug)]
pub enum AgentStage {
    /// Its agent type and its model are being checked.
    Checking,
    /// A place among the agents that run at once.
    Queued { isolation: Option<SubagentIsolationMode> },
    /// Its agent.
    Running { agent_id: String },
    /// Its agent, which was asked once more for a value that fits the schema.
    Retrying { agent_id: String, first_id: String, first_tokens: u64, first_duration_ms: u64 },
    /// That its place was given back.
    Concluding { outcome: AgentOutcome },
}

/// A call that was admitted.
#[derive(Debug)]
pub struct AgentRun {
    pub call: AgentCallInput,
    pub label: String,
    pub key: String,
    pub subagent_type: String,
    pub stage: AgentStage,
}

/// What a call was waiting for has come.
#[derive(Debug)]
pub enum AgentEvent {
    /// What is said of the agent type and of the model.
    Checked { outcome: SubagentValidateTypeOutcome, verdict: ModelVerdict },
    /// There is a place.
    Place,
    /// There will be no place: the host is shut down.
    ShutDown,
    /// The script was cancelled before there was a place.
    Cancelled,
    /// The agent came to an end. `timeout_ms` is the time that an agent has.
    Ended { event: SpawnEvent, timeout_ms: u64 },
    /// The place of the agent was given back.
    Released,
}

/// What comes next for a call.
#[derive(Debug)]
pub enum AgentNext {
    /// The call throws in the script.
    Refuse(String),
    /// The call returns; an entry is journaled.
    Answer { answer: AgentAnswer, entry: Option<JournalEntry> },
    /// The agent type, unless it is known, and the model are to be checked.
    Check(AgentRun),
    /// A place is to be waited for.
    Queue(AgentRun),
    /// An agent is to be spawned and awaited.
    Spawn { run: AgentRun, request: WorkflowSpawn },
    /// The place of the agent is to be given back.
    Release(AgentRun),
}

/// A step of a call: what is shown, the agent that is stopped, and what comes
/// next.
#[derive(Debug)]
pub struct AgentStep {
    pub notes: Vec<ProgressNote>,
    pub stop: Option<String>,
    pub next: AgentNext,
}

impl AgentRun {
    /// The run belongs to its call.
    pub open spec fn wf(&self) -> bool {
        &&& self.label@ == label_of(self.call)
        &&& self.key@ == key_of(self.call)
        &&& self.subagent_type@ == type_of(self.call)
        &&& self.stage is Retrying ==> self.call.schema is Some
    }

    /// The event is one that the run is waiting for. The tokens and the time of
    /// both attempts have to fit their counters.
    pub open spec fn awaits(&self, event: AgentEvent) -> bool {
        match (self.stage, event) {
            (AgentStage::Checking, AgentEvent::Checked { .. }) => true,
            (AgentStage::Queued { .. }, AgentEvent::Place) => true,
            (AgentStage::Queued { .. }, AgentEvent::ShutDown) => true,
            (AgentStage::Queued { .. }, AgentEvent::Cancelled) => true,
            (AgentStage::Running { .. }, AgentEvent::Ended { .. }) => true,
            (
                AgentStage::Retrying { first_tokens, first_duration_ms, .. },
                AgentEvent::Ended { event, timeout_ms },
            ) => match event {
                SpawnEvent::Finished(result) => {
                    &&& first_tokens + result.tokens_used <= u64::MAX
                    &&& first_duration_ms + result.duration_ms <= u64::MAX
                },
                SpawnEvent::TimedOut => first_duration_ms + timeout_ms <= u64::MAX,
                _ => true,
            },
            (AgentStage::Concluding { .. }, AgentEvent::Released) => true,
            _ => false,
        }
    }

    /// The run at another stage.
    pub open spec fn at(&self, stage: AgentStage) -> AgentRun {
        AgentRun { stage, ..*self }
    }
}

/// An agent that its caller no longer waits for is stopped.
pub open spec fn stopped(event: SpawnEvent, agent_id: Seq<char>) -> Option<Seq<char>> {
    match event {
        SpawnEvent::Cancelled => Some(agent_id),
        SpawnEvent::TimedOut => Some(agent_id),
        _ => None,
    }
}

/// A run has its outcome, and only its conclusion is left.
pub open spec fn concludes(run: AgentRun, next: AgentNext, outcome: OutcomeView) -> bool {
    match next {
        AgentNext::Release(later) => match later.stage {
            AgentStage::Concluding { outcome: o } => {
                &&& later == run.at(later.stage)
                &&& o@ == outcome
            },
            _ => false,
        },
        _ => false,
    }
}

fn conclude(run: AgentRun, outcome: AgentOutcome) -> (r: AgentNext)
    ensures
        concludes(run, r, outcome@),
{
    let mut later: AgentRun = run;
    later.stage = AgentStage::Concluding { outcome };
    AgentNext::Release(later)
}

impl WorkflowHost {
    /// What a call of the script leaves and leads to. A payload that cannot be
    /// read counts for nothing.
    pub open spec fn handle_post(
        &self,
        before: WorkflowHost,
        payload: AgentPayload,
        step: AgentStep,
    ) -> bool {
        &&& step.stop is None
        &&& match payload {
            AgentPayload::Missing => {
                &&& *self == before
                &&& step.notes@.len() == 0
                &&& step.next is Refuse
                &&& step.next->Refuse_0@ == "agent(): missing call payload"@
            },
            AgentPayload::Invalid { error } => {
                &&& *self == before
                &&& step.notes@.len() == 0
                &&& step.next is Refuse
                &&& step.next->Refuse_0@ == "agent(): invalid call payload: "@ + error@
            },
            AgentPayload::Call(call) => exists|admission: Result<AgentAdmission, String>|
                {
                    &&& #[trigger] self.begin_post(before, call, admission)
                    &&& match (admission, step.next) {
                        (Err(e), AgentNext::Refuse(error)) => e == error && step.notes@.len() == 0,
                        (
                            Ok(AgentAdmission::Replayed { answer, entry, note }),
                            AgentNext::Answer { answer: a, entry: e },
                        ) => {
                            &&& a == answer
                            &&& e == Some(entry)
                            &&& step.notes@ == seq![note]
                        },
                        (
                            Ok(AgentAdmission::Fresh { label, key, subagent_type }),
                            AgentNext::Check(run),
                        ) => {
                            &&& run == (AgentRun {
                                call,
                                label,
                                key,
                                subagent_type,
                                stage: AgentStage::Checking,
                            })
                            &&& run.wf()
                            &&& step.notes@.len() == 0
                        },
                        _ => false,
                    }
                },
        }
    }

    /// Takes a call of the script: one whose result a prior run has is
    /// answered, any other is to be checked.
    pub fn handle_agent(&mut self, payload: AgentPayload) -> (r: AgentStep)
        ensures
            final(self).handle_post(*old(self), payload, r),
            old(self).wf() ==> final(self).wf(),
    {
        let mut notes: Vec<ProgressNote> = Vec::new();
        let next: AgentNext = match payload {
            AgentPayload::Missing => AgentNext::Refuse("agent(): missing call payload".to_owned()),
            AgentPayload::Invalid { error } => AgentNext::Refuse(
                cat2("agent(): invalid call payload: ", error.as_str()),
            ),
            AgentPayload::Call(call) => match self.begin_agent(&call) {
                Err(error) => AgentNext::Refuse(error),
                Ok(AgentAdmission::Replayed { answer, entry, note }) => {
                    notes.push(note);
                    proof {
                        assert(notes@ =~= seq![note]);
                    }
                    AgentNext::Answer { answer, entry: Some(entry) }
                },
                Ok(AgentAdmission::Fresh { label, key, subagent_type }) => AgentNext::Check(
                    AgentRun { call, label, key, subagent_type, stage: AgentStage::Checking },
                ),
            },
        };
        AgentStep { notes, stop: None, next }
    }

    /// What is said of an agent type: one that was found good stays good.
    pub open spec fn type_outcome(
        &self,
        t: Seq<char>,
        outcome: SubagentValidateTypeOutcome,
    ) -> SubagentValidateTypeOutcome {
        if in_list(self.validated_types@, t) {
            SubagentValidateTypeOutcome::Known
        } else {
            outcome
        }
    }

    /// What the check of a call leaves and leads to.
    pub open spec fn checked_post(
        &self,
        before: WorkflowHost,
        run: AgentRun,
        outcome: SubagentValidateTypeOutcome,
        verdict: ModelVerdict,
        next: AgentNext,
    ) -> bool {
        let t = run.subagent_type@;
        let known = before.type_outcome(t, outcome);
        &&& *self == (WorkflowHost { validated_types: self.validated_types, ..before })
        &&& views(self.validated_types@) == (if known is Known && !in_list(
            before.validated_types@,
            t,
        ) {
            views(before.validated_types@).push(t)
        } else {
            views(before.validated_types@)
        })
        &&& match (call_verdict(run.call, known, verdict), next) {
            (Ok(isolation), AgentNext::Queue(later)) => later == run.at(
                AgentStage::Queued { isolation },
            ),
            (Err(e), AgentNext::Refuse(error)) => error@ == e,
            _ => false,
        }
    }

    fn on_checked(
        &mut self,
        run: AgentRun,
        outcome: SubagentValidateTypeOutcome,
        verdict: ModelVerdict,
    ) -> (r: AgentNext)
        ensures
            final(self).checked_post(*old(self), run, outcome, verdict, r),
            old(self).wf() ==> final(self).wf(),
    {
        let known: SubagentValidateTypeOutcome = if self.type_known(run.subagent_type.as_str()) {
            SubagentValidateTypeOutcome::Known
        } else {
            if let SubagentValidateTypeOutcome::Known = outcome {
                let ghost held = self.validated_types@;
                self.remember_type(run.subagent_type.as_str());
                proof {
                    assert(views(self.validated_types@) =~= views(held).push(run.subagent_type@));
                }
            }
            outcome
        };
        match judge_call(&run.call, &known, &verdict) {
            Ok(isolation) => {
                let mut later: AgentRun = run;
                later.stage = AgentStage::Queued { isolation };
                AgentNext::Queue(later)
            },
            Err(error) => AgentNext::Refuse(error),
        }
    }

    /// What the start of an agent leaves and leads to: it is shown, and asked
    /// for with the prompt of its call.
    pub open spec fn place_post(
        &self,
        before: WorkflowHost,
        run: AgentRun,
        isolation: Option<SubagentIsolationMode>,
        step: AgentStep,
    ) -> bool {
        &&& *self == (WorkflowHost { state: self.state, ..before })
        &&& step.stop is None
        &&& step.notes@.len() == 1
        &&& self.agent_noted(
            before,
            run.call,
            run.label@,
            AgentStatus::Running,
            None,
            "▶ "@ + run.label@,
            step.notes@[0],
        )
        &&& match step.next {
            AgentNext::Spawn { run: later, request } => {
                &&& before.requested(
                    run.call,
                    run.subagent_type@,
                    isolation,
                    opening_prompt(run.call),
                    None,
                    request,
                )
                &&& later == run.at(later.stage)
                &&& later.stage is Running
                &&& later.stage->Running_agent_id@ == request.id@
            },
            _ => false,
        }
    }

    fn on_place(&mut self, run: AgentRun, isolation: Option<SubagentIsolationMode>) -> (r:
        AgentStep)
        ensures
            final(self).place_post(*old(self), run, isolation, r),
            old(self).wf() ==> final(self).wf(),
    {
        let note: ProgressNote = self.start_agent(&run.call, run.label.as_str());
        let prompt: String = self.first_prompt(&run.call);
        let request: WorkflowSpawn = self.spawn_request(
            &run.call,
            run.subagent_type.as_str(),
            isolation,
            prompt,
            None,
        );
        let mut later: AgentRun = run;
        later.stage = AgentStage::Running { agent_id: request.id.clone() };
        let mut notes: Vec<ProgressNote> = Vec::new();
        notes.push(note);
        AgentStep { notes, stop: None, next: AgentNext::Spawn { run: later, request } }
    }

    /// What the end of the first attempt leaves and leads to: an outcome, or
    /// one more attempt, which resumes the agent.
    pub open spec fn first_post(
        &self,
        before: WorkflowHost,
        run: AgentRun,
        agent_id: Seq<char>,
        brought: Result<SubagentResult, String>,
        notes: Seq<ProgressNote>,
        next: AgentNext,
    ) -> bool {
        match brought {
            Err(error) => {
                &&& *self == before
                &&& notes.len() == 0
                &&& concludes(run, next, failed_outcome(None, error@, 0, 0))
            },
            Ok(result) => exists|settled: Settled|
                {
                    &&& #[trigger] self.settle_post(
                        before,
                        run.call,
                        run.label@,
                        agent_id,
                        result,
                        settled,
                    )
                    &&& match (settled, next) {
                        (Settled::Done(outcome), _) => {
                            &&& notes.len() == 0
                            &&& concludes(run, next, outcome@)
                        },
                        (
                            Settled::Retry { prompt, note },
                            AgentNext::Spawn { run: later, request },
                        ) => {
                            &&& notes == seq![note]
                            &&& self.requested(
                                run.call,
                                run.subagent_type@,
                                None,
                                prompt@,
                                Some(agent_id),
                                request,
                            )
                            &&& later == run.at(later.stage)
                            &&& run.call.schema is Some
                            &&& match later.stage {
                                AgentStage::Retrying {
                                    agent_id: second,
                                    first_id,
                                    first_tokens,
                                    first_duration_ms,
                                } => {
                                    &&& second@ == request.id@
                                    &&& first_id@ == agent_id
                                    &&& first_tokens == result.tokens_used
                                    &&& first_duration_ms == result.duration_ms
                                },
                                _ => false,
                            }
                        },
                        _ => false,
                    }
                },
        }
    }

    fn on_first_end(
        &mut self,
        run: AgentRun,
        agent_id: String,
        brought: Result<SubagentResult, String>,
    ) -> (r: (Vec<ProgressNote>, AgentNext))
        ensures
            final(self).first_post(*old(self), run, agent_id@, brought, r.0@, r.1),
            old(self).wf() ==> final(self).wf(),
    {
        let mut notes: Vec<ProgressNote> = Vec::new();
        let result: SubagentResult = match brought {
            Err(error) => {
                return (notes, conclude(run, AgentOutcome::failed(None, error)));
            },
            Ok(result) => result,
        };
        let settled: Settled = self.settle_agent(
            &run.call,
            run.label.as_str(),
            agent_id.as_str(),
            &result,
        );
        match settled {
            Settled::Done(outcome) => (notes, conclude(run, outcome)),
            Settled::Retry { prompt, note } => {
                notes.push(note);
                proof {
                    assert(notes@ =~= seq![note]);
                }
                let request: WorkflowSpawn = self.spawn_request(
                    &run.call,
                    run.subagent_type.as_str(),
                    None,
                    prompt,
                    Some(agent_id.clone()),
                );
                let mut later: AgentRun = run;
                later.stage =
                AgentStage::Retrying {
                    agent_id: request.id.clone(),
                    first_id: agent_id,
                    first_tokens: result.tokens_used,
                    first_duration_ms: result.duration_ms,
                };
                (notes, AgentNext::Spawn { run: later, request })
            },
        }
    }

    /// What an event leaves and leads to.
    pub open spec fn event_post(
        &self,
        before: WorkflowHost,
        run: AgentRun,
        event: AgentEvent,
        step: AgentStep,
    ) -> bool {
        match (run.stage, event) {
            (AgentStage::Checking, AgentEvent::Checked { outcome, verdict }) => {
                &&& self.checked_post(before, run, outcome, verdict, step.next)
                &&& step.notes@.len() == 0
                &&& step.stop is None
            },
            (AgentStage::Queued { isolation }, AgentEvent::Place) => self.place_post(
                before,
                run,
                isolation,
                step,
            ),
            (AgentStage::Queued { .. }, AgentEvent::ShutDown) => {
                &&& *self == before
                &&& step.notes@.len() == 0
                &&& step.stop is None
                &&& step.next is Refuse
                &&& step.next->Refuse_0@ == "workflow host shut down"@
            },
            (AgentStage::Queued { .. }, AgentEvent::Cancelled) => {
                &&& *self == before
                &&& step.notes@.len() == 0
                &&& step.stop is None
                &&& step.next is Refuse
                &&& step.next->Refuse_0@ == "workflow cancelled"@
            },
            (AgentStage::Running { agent_id }, AgentEvent::Ended { event, timeout_ms }) => {
                &&& option_view(step.stop) == stopped(event, agent_id@)
                &&& exists|brought: Result<SubagentResult, String>|
                    {
                        &&& #[trigger] spawn_brought(event, agent_id@, timeout_ms, brought)
                        &&& self.first_post(
                            before,
                            run,
                            agent_id@,
                            brought,
                            step.notes@,
                            step.next,
                        )
                    }
            },
            (
                AgentStage::Retrying { agent_id, first_id, first_tokens, first_duration_ms },
                AgentEvent::Ended { event, timeout_ms },
            ) => {
                &&& option_view(step.stop) == stopped(event, agent_id@)
                &&& step.notes@.len() == 0
                &&& exists|brought: Result<SubagentResult, String>|
                    {
                        &&& #[trigger] spawn_brought(event, agent_id@, timeout_ms, brought)
                        &&& *self == (WorkflowHost {
                            tokens_spent: match brought {
                                Ok(result) => before.tokens_spent.wrapping_add(result.tokens_used),
                                Err(_) => before.tokens_spent,
                            },
                            ..before
                        })
                        &&& concludes(
                            run,
                            step.next,
                            second_outcome(
                                run.call.schema->0@,
                                first_id@,
                                first_tokens as nat,
                                first_duration_ms as nat,
                                match brought {
                                    Ok(result) => Ok((agent_id, result)),
                                    Err(error) => Err(error),
                                },
                            ),
                        )
                    }
            },
            (AgentStage::Concluding { outcome }, AgentEvent::Released) => {
                &&& step.stop is None
                &&& step.notes@.len() == 1
                &&& match step.next {
                    AgentNext::Answer { answer, entry } => self.conclude_post(
                        before,
                        run.call,
                        run.key,
                        run.label@,
                        outcome,
                        answer,
                        entry,
                        step.notes@[0],
                    ),
                    _ => false,
                }
            },
            _ => false,
        }
    }

    /// Takes what a call was waiting for.
    pub fn agent_event(&mut self, run: AgentRun, event: AgentEvent) -> (r: AgentStep)
        requires
            run.wf(),
            run.awaits(event),
        ensures
            final(self).event_post(*old(self), run, event, r),
            r.next is Check ==> r.next->Check_0.wf(),
            r.next is Queue ==> r.next->Queue_0.wf(),
            r.next is Spawn ==> r.next->Spawn_run.wf(),
            r.next is Release ==> r.next->Release_0.wf(),
            old(self).wf() ==> final(self).wf(),
    {
        let AgentRun { call, label, key, subagent_type, stage } = run;
        let mut notes: Vec<ProgressNote> = Vec::new();
        match (stage, event) {
            (AgentStage::Checking, AgentEvent::Checked { outcome, verdict }) => {
                let here: AgentRun = AgentRun {
                    call,
                    label,
                    key,
                    subagent_type,
                    stage: AgentStage::Checking,
                };
                let next: AgentNext = self.on_checked(here, outcome, verdict);
                AgentStep { notes, stop: None, next }
            },
            (AgentStage::Queued { isolation }, AgentEvent::Place) => {
                let here: AgentRun = AgentRun {
                    call,
                    label,
                    key,
                    subagent_type,
                    stage: AgentStage::Queued { isolation },
                };
                self.on_place(here, isolation)
            },
            (AgentStage::Queued { .. }, AgentEvent::ShutDown) => AgentStep {
                notes,
                stop: None,
                next: AgentNext::Refuse("workflow host shut down".to_owned()),
            },
            (AgentStage::Running { agent_id }, AgentEvent::Ended { event, timeout_ms }) => {
                let stop: Option<String> = stop_for(&event, agent_id.as_str());
                let brought: Result<SubagentResult, String> = spawn_verdict(
                    event,
                    agent_id.as_str(),
                    timeout_ms,
                );
                let here: AgentRun = AgentRun {
                    call,
                    label,
                    key,
                    subagent_type,
                    stage: AgentStage::Checking,
                };
                let (shown, next): (Vec<ProgressNote>, AgentNext) = self.on_first_end(
                    here,
                    agent_id,
                    brought,
                );
                AgentStep { notes: shown, stop, next }
            },
            (
                AgentStage::Retrying { agent_id, first_id, first_tokens, first_duration_ms },
                AgentEvent::Ended { event, timeout_ms },
            ) => {
                let stop: Option<String> = stop_for(&event, agent_id.as_str());
                let brought: Result<SubagentResult, String> = spawn_verdict(
                    event,
                    agent_id.as_str(),
                    timeout_ms,
                );
                let ghost seen = brought;
                let retry: Result<(String, SubagentResult), String> = match brought {
                    Ok(result) => Ok((agent_id, result)),
                    Err(error) => Err(error),
                };
                let schema: JsonValue = match &call.schema {
                    Some(schema) => schema.duplicate(),
                    None => JsonValue::null(),
                };
                let outcome: AgentOutcome = self.settle_retry(
                    &schema,
                    first_id.as_str(),
                    first_tokens,
                    first_duration_ms,
                    retry,
                );
                let here: AgentRun = AgentRun {
                    call,
                    label,
                    key,
                    subagent_type,
                    stage: AgentStage::Checking,
                };
                let next: AgentNext = conclude(here, outcome);
                proof {
                    assert(spawn_brought(event, agent_id@, timeout_ms, seen));
                }
                AgentStep { notes, stop, next }
            },
            (AgentStage::Concluding { outcome }, AgentEvent::Released) => {
                let (answer, entry, note): (AgentAnswer, Option<JournalEntry>, ProgressNote) =
                    self.conclude_agent(
                    &call,
                    key,
                    label.as_str(),
                    outcome,
                );
                notes.push(note);
                AgentStep { notes, stop: None, next: AgentNext::Answer { answer, entry } }
            },
            _ => AgentStep {
                notes,
                stop: None,
                next: AgentNext::Refuse("workflow cancelled".to_owned()),
            },
        }
    }
}

fn stop_for(event: &SpawnEvent, agent_id: &str) -> (r: Option<String>)
    ensures
        option_view(r) == stopped(*event, agent_id@),
{
    match event {
        SpawnEvent::Cancelled => Some(agent_id.to_owned()),
        SpawnEvent::TimedOut => Some(agent_id.to_owned()),
        _ => None,
    }
}

// ---- laws ----

/// A call that fails is never journaled, so that a later run tries it again; a
/// call that succeeds always is, under its key.
pub proof fn law_only_successes_are_journaled(
    before: WorkflowHost,
    after: WorkflowHost,
    run: AgentRun,
    event: AgentEvent,
    step: AgentStep,
    answer: AgentAnswer,
    entry: Option<JournalEntry>,
)
    requires
        run.wf(),
        run.awaits(event),
        after.event_post(before, run, event, step),
        step.next == (AgentNext::Answer { answer, entry }),
    ensures
        answer.ok == (entry is Some),
        entry is Some ==> entry->0.ok && entry->0.key@ == key_of(run.call) && entry->0.value@
            == answer.value@,
{
}

/// An agent is asked for a value that fits the schema once more at most: after
/// the second attempt nothing is spawned for the call.
pub proof fn law_one_retry_at_most(
    before: WorkflowHost,
    after: WorkflowHost,
    run: AgentRun,
    event: AgentEvent,
    step: AgentStep,
)
    requires
        run.stage is Retrying,
        run.awaits(event),
        after.event_post(before, run, event, step),
    ensures
        step.next is Release,
        step.next->Release_0.stage is Concluding,
{
}

/// A call that asks for an unknown agent type, a model that is rejected, or an
/// isolation that there is none of starts no agent and shows nothing.
pub proof fn law_refused_calls_start_nothing(
    before: WorkflowHost,
    after: WorkflowHost,
    run: AgentRun,
    outcome: SubagentValidateTypeOutcome,
    verdict: ModelVerdict,
    step: AgentStep,
)
    requires
        run.stage is Checking,
        call_verdict(run.call, before.type_outcome(run.subagent_type@, outcome), verdict) is Err,
        after.event_post(before, run, AgentEvent::Checked { outcome, verdict }, step),
    ensures
        step.next is Refuse,
        after.state == before.state,
        after.tokens_spent == before.tokens_spent,
{
}

/// An agent type is asked about until it was found good, and not again.
pub proof fn law_good_types_stay_good(
    before: WorkflowHost,
    after: WorkflowHost,
    run: AgentRun,
    outcome: SubagentValidateTypeOutcome,
    verdict: ModelVerdict,
    step: AgentStep,
    later: SubagentValidateTypeOutcome,
)
    requires
        run.stage is Checking,
        before.type_outcome(run.subagent_type@, outcome) is Known,
        after.event_post(before, run, AgentEvent::Checked { outcome, verdict }, step),
    ensures
        after.type_outcome(run.subagent_type@, later) is Known,
{
    let t = run.subagent_type@;
    let had = views(before.validated_types@);
    let has = views(after.validated_types@);
    assert(before.validated_types@.len() == had.len());
    assert(after.validated_types@.len() == has.len());
    if in_list(before.validated_types@, t) {
        let k = choose|k: int|
            0 <= k < before.validated_types@.len() && (#[trigger] before.validated_types@[k])@ == t;
        assert(had[k] == t);
        assert(has[k] == t);
        assert(after.validated_types@[k]@ == t);
    } else {
        assert(has == had.push(t));
        let last = has.len() - 1;
        assert(has[last] == t);
        assert(after.validated_types@[last]@ == t);
    }
}

} // verus!
