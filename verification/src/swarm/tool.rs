//! The tools that launch a swarm and that rejoin one.
use vstd::prelude::*;
#[allow(unused_imports)]
use vstd::string::*;

#[allow(unused_imports)]
use crate::coordinator::types::{
    ModelVerdict, SubagentOwner, SubagentRequest, SubagentValidateTypeOutcome,
};
#[allow(unused_imports)]
use crate::swarm::plan::{
    AgentSwarmToolInput, MemberMode, MemberView, PlannedMember, concurrency_setting, items_of,
    least, member_views, plan_error, planned, subagent_timeout, swarm_concurrency, timeout_setting,
    validate_and_plan,
};
#[allow(unused_imports)]
use crate::swarm::render::{MemberResult, render_xml, swarm_xml};
#[allow(unused_imports)]
use crate::text::{cat2, cat3, cat5, decimal, decimal_text, join, joined, views};
#[allow(unused_imports)]
use crate::tool::{
    ErrorView, ToolError, ToolKind, ToolMetadata, ToolNamespace, custom_error, invalid_arguments,
};

verus! {

/// How long a wait for a swarm takes unless it is set, in milliseconds.
pub const DEFAULT_WAIT_MS: u64 = 600_000;

/// How long a wait for a swarm takes at most, in milliseconds.
pub const MAX_WAIT_MS: u64 = 7_200_000;

// ---- requests ----

/// What the requests of all members of a swarm share.
#[derive(Debug, Clone)]
pub struct SwarmRequestContext {
    pub swarm_id: String,
    pub description: String,
    pub subagent_type: String,
    pub parent_session_id: String,
    pub parent_prompt_id: Option<String>,
    /// The model of every new member; agents that continue keep theirs.
    pub model: Option<String>,
}

/// What a request says of the swarm that it belongs to.
#[derive(Debug, Clone)]
pub struct SwarmMemberMeta {
    pub swarm_id: String,
    pub description: String,
    pub index: u32,
    pub item: Option<String>,
    pub expected_members: u32,
    /// The channel that hears of the member's requests.
    pub status_tx: Option<u64>,
}

/// The request for a member.
#[derive(Debug, Clone)]
pub struct MemberRequest {
    pub request: SubagentRequest,
    pub swarm: Option<SwarmMemberMeta>,
    /// The model that the member is to use.
    pub model: Option<String>,
}

/// The request for a member: it runs in the foreground, its end is not
/// surfaced, and only a new member takes the model of the swarm.
pub fn build_member_request(
    member: PlannedMember,
    context: SwarmRequestContext,
    expected_members: u32,
    id: String,
    status_tx: Option<u64>,
) -> (r: MemberRequest)
    ensures
        r.request == (SubagentRequest {
            id,
            prompt: member.prompt,
            description: context.description,
            subagent_type: context.subagent_type,
            parent_session_id: context.parent_session_id,
            parent_prompt_id: context.parent_prompt_id,
            owner: SubagentOwner::Session,
            run_in_background: false,
            await_to_completion: false,
            surface_completion: false,
            resume_from: member.resume_from,
            cwd: None,
            persona: None,
            loop_task_id: None,
            native_agent: false,
        }),
        r.swarm == Some(
            SwarmMemberMeta {
                swarm_id: context.swarm_id,
                description: context.description,
                index: member.index,
                item: member.item,
                expected_members,
                status_tx,
            },
        ),
        r.model == (if member.resume_from is None {
            context.model
        } else {
            None
        }),
{
    let model: Option<String> = if member.resume_from.is_none() {
        context.model
    } else {
        None
    };
    MemberRequest {
        request: SubagentRequest {
            id,
            prompt: member.prompt,
            description: context.description.clone(),
            subagent_type: context.subagent_type,
            parent_session_id: context.parent_session_id,
            parent_prompt_id: context.parent_prompt_id,
            owner: SubagentOwner::Session,
            run_in_background: false,
            await_to_completion: false,
            surface_completion: false,
            resume_from: member.resume_from,
            cwd: None,
            persona: None,
            loop_task_id: None,
            native_agent: false,
        },
        swarm: Some(
            SwarmMemberMeta {
                swarm_id: context.swarm_id,
                description: context.description,
                index: member.index,
                item: member.item,
                expected_members,
                status_tx,
            },
        ),
        model,
    }
}

// ---- launching a swarm ----

/// The settings that a swarm reads, as they stand in the environment.
#[derive(Debug, Clone, Copy)]
pub struct SwarmSettings<'a> {
    pub max_concurrency: Option<&'a str>,
    pub fallback_max_concurrency: Option<&'a str>,
    pub timeout_ms: Option<&'a str>,
}

/// What a setting holds.
pub open spec fn setting_view(s: Option<&str>) -> Option<Seq<char>> {
    match s {
        Some(t) => Some(t@),
        None => None,
    }
}

/// What is to be launched.
#[derive(Debug)]
pub struct SwarmPlan {
    pub members: Vec<PlannedMember>,
    pub concurrency_cap: Option<usize>,
    pub timeout_ms: Option<u64>,
}

/// Some member is new.
pub open spec fn has_new(members: Seq<MemberView>) -> bool {
    exists|i: int| 0 <= i < members.len() && (#[trigger] members[i]).mode is New
}

/// Why a swarm is refused before anything outside is asked, if it is.
pub open spec fn launch_error(
    input: AgentSwarmToolInput,
    placeholders: Seq<String>,
    settings: SwarmSettings,
    backend_ready: bool,
    depth: u32,
    max_depth: u32,
) -> Option<ErrorView> {
    let cap = concurrency_setting(
        setting_view(settings.max_concurrency),
        setting_view(settings.fallback_max_concurrency),
    );
    let timeout = timeout_setting(setting_view(settings.timeout_ms));
    if plan_error(input, placeholders) is Some {
        Some(invalid_arguments(plan_error(input, placeholders)->0))
    } else if cap is Err {
        Some(invalid_arguments(cap->Err_0))
    } else if timeout is Err {
        Some(invalid_arguments(timeout->Err_0))
    } else if !backend_ready {
        Some(
            custom_error(
                "missing_resource"@,
                "SubagentBackendResource (subagent support not initialized)"@,
            ),
        )
    } else if depth >= max_depth {
        Some(
            invalid_arguments(
                "Subagent depth limit exceeded (current depth: "@ + decimal(depth as nat)
                    + ", max: "@ + decimal(max_depth as nat)
                    + "). Cannot spawn further nested subagents."@,
            ),
        )
    } else {
        None
    }
}

/// What the types that an agent may take read as.
pub open spec fn available_suffix(available: Seq<String>) -> Seq<char> {
    if available.len() > 0 {
        ". Available types: "@ + joined(views(available), ", "@)
    } else {
        Seq::empty()
    }
}

/// Why a type of agent is refused, if it is.
pub open spec fn type_error(
    subagent_type: Seq<char>,
    outcome: SubagentValidateTypeOutcome,
) -> Option<ErrorView> {
    match outcome {
        SubagentValidateTypeOutcome::Known => None,
        SubagentValidateTypeOutcome::Unknown { available } => Some(
            invalid_arguments(
                "Unknown subagent type: "@ + subagent_type + available_suffix(available@),
            ),
        ),
        SubagentValidateTypeOutcome::Disabled => Some(
            invalid_arguments("Subagent '"@ + subagent_type + "' is disabled"@),
        ),
        SubagentValidateTypeOutcome::NotAllowed { allowed } => Some(
            invalid_arguments(
                "agent can only spawn: "@ + joined(views(allowed@), ", "@) + "; '"@ + subagent_type
                    + "' not allowed"@,
            ),
        ),
        SubagentValidateTypeOutcome::ValidationUnavailable => Some(
            custom_error(
                "validation_unavailable"@,
                "Cannot validate subagent type: the subagent coordinator is unreachable."@,
            ),
        ),
    }
}

/// Why a model is refused, if it is.
pub open spec fn model_error(verdict: ModelVerdict) -> Option<ErrorView> {
    match verdict {
        ModelVerdict::Accepted => None,
        ModelVerdict::Rejected(e) => Some(invalid_arguments(e@)),
        ModelVerdict::NoValidator => Some(
            custom_error(
                "validation_unavailable"@,
                "Cannot validate agent_swarm.model: model catalog validator is unavailable."@,
            ),
        ),
    }
}

/// The tool that launches a swarm.
#[derive(Debug, Default, Clone, Copy)]
pub struct AgentSwarmTool;

impl AgentSwarmTool {
    /// What the tool says of itself.
    pub fn metadata(&self) -> (r: ToolMetadata)
        ensures
            r@.id == "agent_swarm"@,
            r.kind == ToolKind::AgentSwarm,
            r.namespace == ToolNamespace::GrokBuild,
            !r.read_only,
            r@.description == SWARM_DESCRIPTION@,
    {
        ToolMetadata {
            id: "agent_swarm",
            kind: ToolKind::AgentSwarm,
            namespace: ToolNamespace::GrokBuild,
            read_only: false,
            description: SWARM_DESCRIPTION,
        }
    }

    /// Plans a swarm, or refuses it before any member starts.
    pub fn prepare(
        &self,
        input: &AgentSwarmToolInput,
        placeholders: &Vec<String>,
        settings: SwarmSettings,
        backend_ready: bool,
        depth: u32,
        max_depth: u32,
    ) -> (r: Result<SwarmPlan, ToolError>)
        ensures
            match (
                r,
                launch_error(*input, placeholders@, settings, backend_ready, depth, max_depth),
            ) {
                (Ok(plan), None) => {
                    let cap = concurrency_setting(
                        setting_view(settings.max_concurrency),
                        setting_view(settings.fallback_max_concurrency),
                    )->Ok_0;
                    let timeout = timeout_setting(setting_view(settings.timeout_ms))->Ok_0;
                    &&& member_views(plan.members@) == planned(*input)
                    &&& match (plan.concurrency_cap, cap) {
                        (Some(a), Some(b)) => a == b,
                        (None, None) => true,
                        _ => false,
                    }
                    &&& match (plan.timeout_ms, timeout) {
                        (Some(a), Some(b)) => a == b,
                        (None, None) => true,
                        _ => false,
                    }
                },
                (Err(e), Some(expected)) => e@ == expected,
                _ => false,
            },
    {
        let members: Vec<PlannedMember> = match validate_and_plan(input, placeholders) {
            Ok(m) => m,
            Err(e) => {
                return Err(ToolError::invalid_arguments(e.as_str()));
            },
        };
        let concurrency_cap: Option<usize> = match swarm_concurrency(
            settings.max_concurrency,
            settings.fallback_max_concurrency,
        ) {
            Ok(c) => c,
            Err(e) => {
                return Err(ToolError::invalid_arguments(e.as_str()));
            },
        };
        let timeout_ms: Option<u64> = match subagent_timeout(settings.timeout_ms) {
            Ok(t) => t,
            Err(e) => {
                return Err(ToolError::invalid_arguments(e.as_str()));
            },
        };
        if !backend_ready {
            return Err(
                ToolError::custom(
                    "missing_resource",
                    "SubagentBackendResource (subagent support not initialized)",
                ),
            );
        }
        if depth >= max_depth {
            return Err(
                ToolError::invalid_arguments(
                    cat5(
                        "Subagent depth limit exceeded (current depth: ",
                        decimal_text(depth as u64).as_str(),
                        ", max: ",
                        decimal_text(max_depth as u64).as_str(),
                        "). Cannot spawn further nested subagents.",
                    ).as_str(),
                ),
            );
        }
        Ok(SwarmPlan { members, concurrency_cap, timeout_ms })
    }

    /// Whether the type of agent has to be asked about: some member is new.
    pub fn asks_type(&self, plan: &SwarmPlan) -> (r: bool)
        ensures
            r == has_new(member_views(plan.members@)),
    {
        let mut i: usize = 0;
        while i < plan.members.len()
            invariant
                i <= plan.members@.len(),
                forall|j: int| 0 <= j < i ==> !((#[trigger] plan.members@[j]).mode is New),
            decreases plan.members.len() - i,
        {
            if matches!(plan.members[i].mode, MemberMode::New) {
                proof {
                    assert(member_views(plan.members@)[i as int].mode is New);
                }
                return true;
            }
            i += 1;
        }
        proof {
            let v = member_views(plan.members@);
            assert forall|j: int| 0 <= j < v.len() implies !((#[trigger] v[j]).mode is New) by {
                assert(!(plan.members@[j].mode is New));
            }
        }
        false
    }

    /// Judges the type of agent and the model of a planned swarm. The type is
    /// judged where some member is new, the model where one is asked for.
    pub fn judge(
        &self,
        plan: &SwarmPlan,
        subagent_type: &str,
        outcome: SubagentValidateTypeOutcome,
        model: &Option<String>,
        verdict: ModelVerdict,
    ) -> (r: Result<(), ToolError>)
        ensures
            ({
                let by_type = if has_new(member_views(plan.members@)) {
                    type_error(subagent_type@, outcome)
                } else {
                    None
                };
                let by_model = if *model is Some {
                    model_error(verdict)
                } else {
                    None
                };
                match r {
                    Ok(_) => by_type is None && by_model is None,
                    Err(e) => Some(e@) == (if by_type is Some {
                        by_type
                    } else {
                        by_model
                    }),
                }
            }),
    {
        if self.asks_type(plan) {
            match outcome {
                SubagentValidateTypeOutcome::Known => {},
                SubagentValidateTypeOutcome::Unknown { available } => {
                    let suffix: String = if available.len() > 0 {
                        cat2(". Available types: ", join(&available, ", ").as_str())
                    } else {
                        String::new()
                    };
                    return Err(
                        ToolError::invalid_arguments(
                            cat3("Unknown subagent type: ", subagent_type, suffix.as_str()).as_str(),
                        ),
                    );
                },
                SubagentValidateTypeOutcome::Disabled => {
                    return Err(
                        ToolError::invalid_arguments(
                            cat3("Subagent '", subagent_type, "' is disabled").as_str(),
                        ),
                    );
                },
                SubagentValidateTypeOutcome::NotAllowed { allowed } => {
                    return Err(
                        ToolError::invalid_arguments(
                            cat5(
                                "agent can only spawn: ",
                                join(&allowed, ", ").as_str(),
                                "; '",
                                subagent_type,
                                "' not allowed",
                            ).as_str(),
                        ),
                    );
                },
                SubagentValidateTypeOutcome::ValidationUnavailable => {
                    return Err(
                        ToolError::custom(
                            "validation_unavailable",
                            "Cannot validate subagent type: the subagent coordinator is unreachable.",
                        ),
                    );
                },
            }
        }
        if model.is_some() {
            match verdict {
                ModelVerdict::Accepted => {},
                ModelVerdict::Rejected(e) => {
                    return Err(ToolError::invalid_arguments(e.as_str()));
                },
                ModelVerdict::NoValidator => {
                    return Err(
                        ToolError::custom(
                            "validation_unavailable",
                            "Cannot validate agent_swarm.model: model catalog validator is unavailable.",
                        ),
                    );
                },
            }
        }
        Ok(())
    }
}

// ---- rejoining a swarm ----

/// Which swarm to wait for, and how long.
#[derive(Debug, Clone, Default)]
pub struct SwarmWaitToolInput {
    /// The swarm; none where only one is detached.
    pub swarm_id: Option<String>,
    /// How long to wait at most, in milliseconds; zero does not wait.
    pub timeout_ms: Option<u64>,
}

/// What ends a wait.
#[derive(Debug, Clone, Copy, PartialEq, Eq, Structural)]
pub enum WaitEvent {
    Finished,
    Cancelled,
    Steered,
    TimedOut,
}

/// What is so while a wait lasts.
#[derive(Debug, Clone, Copy)]
pub struct WaitSigns {
    pub finished: bool,
    pub cancelled: bool,
    pub steered: bool,
    pub timed_out: bool,
}

/// What a wait comes to.
#[derive(Debug)]
pub struct WaitEnd {
    pub answer: Result<String, ToolError>,
    /// The swarm is to be cancelled.
    pub cancels_swarm: bool,
    /// The swarm is to be forgotten.
    pub forgets_swarm: bool,
}

/// The tool that rejoins a swarm.
#[derive(Debug, Default, Clone, Copy)]
pub struct SwarmWaitTool;

impl SwarmWaitTool {
    /// What the tool says of itself.
    pub fn metadata(&self) -> (r: ToolMetadata)
        ensures
            r@.id == "swarm_wait"@,
            r.kind == ToolKind::AgentSwarm,
            r.namespace == ToolNamespace::GrokBuild,
            r.read_only,
            r@.description == SWARM_WAIT_DESCRIPTION@,
    {
        ToolMetadata {
            id: "swarm_wait",
            kind: ToolKind::AgentSwarm,
            namespace: ToolNamespace::GrokBuild,
            read_only: true,
            description: SWARM_WAIT_DESCRIPTION,
        }
    }

    /// How long to wait, in milliseconds; zero polls.
    pub fn wait_ms(&self, input: &SwarmWaitToolInput) -> (r: u64)
        ensures
            r == (match input.timeout_ms {
                Some(t) => least(t as int, MAX_WAIT_MS as int),
                None => DEFAULT_WAIT_MS as int,
            }),
    {
        match input.timeout_ms {
            Some(t) => if t < MAX_WAIT_MS {
                t
            } else {
                MAX_WAIT_MS
            },
            None => DEFAULT_WAIT_MS,
        }
    }

    /// The swarm to wait for: there must be a registry, and it must know the
    /// swarm.
    pub fn resolve(&self, registry_ready: bool, resolved: Result<String, String>) -> (r: Result<
        String,
        ToolError,
    >)
        ensures
            match r {
                Ok(id) => registry_ready && resolved == Ok::<String, String>(id),
                Err(e) => e@ == (if !registry_ready {
                    custom_error(
                        "missing_resource"@,
                        "SwarmRegistry is not initialized for this session"@,
                    )
                } else {
                    invalid_arguments(resolved->Err_0@)
                }) && (registry_ready ==> resolved is Err),
            },
    {
        if !registry_ready {
            return Err(
                ToolError::custom(
                    "missing_resource",
                    "SwarmRegistry is not initialized for this session",
                ),
            );
        }
        match resolved {
            Ok(id) => Ok(id),
            Err(e) => Err(ToolError::invalid_arguments(e.as_str())),
        }
    }

    /// What ends a wait at the start of a round: a swarm that has finished.
    /// After that a cancelled call goes first, then a message of the user, then
    /// the end of the swarm, then the deadline.
    pub fn next_event(&self, finished_before: bool, signs: WaitSigns) -> (r: Option<WaitEvent>)
        ensures
            r == (if finished_before {
                Some(WaitEvent::Finished)
            } else if signs.cancelled {
                Some(WaitEvent::Cancelled)
            } else if signs.steered {
                Some(WaitEvent::Steered)
            } else if signs.finished {
                Some(WaitEvent::Finished)
            } else if signs.timed_out {
                Some(WaitEvent::TimedOut)
            } else {
                None
            }),
    {
        if finished_before {
            Some(WaitEvent::Finished)
        } else if signs.cancelled {
            Some(WaitEvent::Cancelled)
        } else if signs.steered {
            Some(WaitEvent::Steered)
        } else if signs.finished {
            Some(WaitEvent::Finished)
        } else if signs.timed_out {
            Some(WaitEvent::TimedOut)
        } else {
            None
        }
    }

    /// What a wait comes to. `results` are those of all members, if there are
    /// that many; `snapshot` is the state of a swarm that has not finished.
    pub fn settle(&self, event: WaitEvent, results: Option<Vec<MemberResult>>, snapshot: &str) -> (r:
        WaitEnd)
        ensures
            r.cancels_swarm == (event is Cancelled),
            r.forgets_swarm == (event is Finished && results is Some),
            match event {
                WaitEvent::Finished => match results {
                    Some(all) => r.answer is Ok && r.answer->Ok_0@ == swarm_xml(all@),
                    None => r.answer is Err && r.answer->Err_0@ == custom_error(
                        "incomplete_swarm"@,
                        "Detached swarm finished without a complete result set"@,
                    ),
                },
                WaitEvent::Cancelled => r.answer is Err && r.answer->Err_0@ == custom_error(
                    "cancelled"@,
                    "swarm_wait was cancelled"@,
                ),
                _ => r.answer is Ok && r.answer->Ok_0@ == snapshot@,
            },
    {
        match event {
            WaitEvent::Finished => match results {
                Some(all) => WaitEnd {
                    answer: Ok(render_xml(all.as_slice())),
                    cancels_swarm: false,
                    forgets_swarm: true,
                },
                None => WaitEnd {
                    answer: Err(
                        ToolError::custom(
                            "incomplete_swarm",
                            "Detached swarm finished without a complete result set",
                        ),
                    ),
                    cancels_swarm: false,
                    forgets_swarm: false,
                },
            },
            WaitEvent::Cancelled => WaitEnd {
                answer: Err(ToolError::custom("cancelled", "swarm_wait was cancelled")),
                cancels_swarm: true,
                forgets_swarm: false,
            },
            WaitEvent::Steered => WaitEnd {
                answer: Ok(snapshot.to_owned()),
                cancels_swarm: false,
                forgets_swarm: false,
            },
            WaitEvent::TimedOut => WaitEnd {
                answer: Ok(snapshot.to_owned()),
                cancels_swarm: false,
                forgets_swarm: false,
            },
        }
    }
}

/// What the tool that launches a swarm says of itself.
pub const SWARM_DESCRIPTION: &'static str =
    "Launch multiple foreground subagents from one prompt template, existing agent resumes, or both. Use agent_swarm when many subagents should run the same kind of task over different inputs. The placeholder is exactly {{item}}. For a few differently-shaped tasks, use ordinary task calls instead. Use resume_agent_ids to continue unfinished or timed-out subagents by mapping each agent_id to its exact continuation prompt, often 'continue'. You may combine resume_agent_ids with items, but do not duplicate resumed work in items; resume slots launch first. Validation is fail-fast before any child starts: provide at least 2 items unless resume_agent_ids is supplied; items require prompt_template containing literal {{item}}; expanded prompts must be distinct; and total members are capped at 128. Pass model to run every new member on a specific available model slug (resumed members keep their prior model); if the slug is rejected, report the error instead of re-running the swarm on a different model. Results return together in input slot order as agent_swarm_result XML with resume hints for unfinished members. agent_swarm must be the only tool call in the model response. Keep the tree flat: swarm members cannot launch further task or agent_swarm tools.";

/// What the tool that rejoins a swarm says of itself.
pub const SWARM_WAIT_DESCRIPTION: &'static str =
    "Wait for a previously detached agent_swarm cohort to finish and return its full agent_swarm_result XML. Pass swarm_id from the detached result when more than one swarm is outstanding; omit it when only one detached swarm is active. timeout_ms defaults to 600000 (10 minutes); pass 0 to poll the current partial state without blocking. A user message arriving while this wait is held detaches again so you can keep working; call swarm_wait later to rejoin.";

// ---- laws ----

/// A swarm that only continues agents is never refused for its agent type.
pub proof fn law_resumes_need_no_type(input: AgentSwarmToolInput)
    requires
        items_of(input).len() == 0,
    ensures
        !has_new(planned(input)),
{
    let v = planned(input);
    assert forall|i: int| 0 <= i < v.len() implies !((#[trigger] v[i]).mode is New) by {
    }
}

} // verus!
