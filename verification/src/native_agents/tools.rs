//! The tools with which agents of a native team work together.
use vstd::prelude::*;
#[allow(unused_imports)]
use vstd::string::*;

#[allow(unused_imports)]
use crate::clock::{unix_millis};
#[allow(unused_imports)]
use crate::coordinator::types::{
    AgentMailboxIdentity, AgentMailboxMessage, AgentMailboxMessageKind, NativeAgentMessage,
};
#[allow(unused_imports)]
use crate::ids::{fresh_id, uuid_text};
#[allow(unused_imports)]
use crate::native_agents::wire::{
    NativeMessageEncryption, codex_message_is_encrypted, travels_encrypted,
};
#[allow(unused_imports)]
use crate::text::{
    blank, byte_count, byte_len, cat2, chars_of, is_blank, option_view, parse_u64, same_text,
    unsigned_value,
};
#[allow(unused_imports)]
use crate::tool::{
    MetadataView, ToolError, ToolKind, ToolMetadata, ToolNamespace, custom_error,
    invalid_arguments,
};

verus! {

/// How many bytes a message may take.
pub const MAX_MESSAGE_BYTES: usize = 32_768;

/// How long a wait takes unless it is set, in milliseconds.
pub const DEFAULT_WAIT_MS: u64 = 30_000;

/// What an agent is asked when it starts.
pub const SPAWN_PROMPT: &'static str =
    "Complete the task in the agent message supplied with this turn.";

/// Whether native teams are on in a session.
#[derive(Debug, Clone, Copy, PartialEq, Eq, Structural)]
pub struct NativeAgentsEnabled(pub bool);

/// Which agent to start.
#[derive(Debug)]
pub struct SpawnAgentInput {
    pub task_name: String,
    pub message: String,
    pub agent_type: Option<String>,
    pub model: Option<String>,
    pub reasoning_effort: Option<String>,
    pub service_tier: Option<String>,
    pub fork_turns: Option<String>,
}

/// What to tell whom.
#[derive(Debug)]
pub struct MessageInput {
    pub target: String,
    pub message: String,
}

/// Which agents to list.
#[derive(Debug)]
pub struct ListInput {
    pub path_prefix: Option<String>,
}

/// How long to wait.
#[derive(Debug)]
pub struct WaitInput {
    pub timeout_ms: Option<u64>,
}

/// Whom to interrupt.
#[derive(Debug)]
pub struct InterruptInput {
    pub target: String,
}

/// What an agent knows when it starts.
#[derive(Debug, Clone, Copy, PartialEq, Eq, Structural)]
pub enum SubagentContextMode {
    /// Nothing.
    Fresh,
    /// What its parent knows.
    Fork,
}

/// What is asked of the team.
#[derive(Debug)]
pub enum NativeAgentOperation {
    Message { target: String, message: AgentMailboxMessage },
    List { path_prefix: Option<String> },
    Wait { timeout_ms: u64 },
    Interrupt { target: String },
}

/// An agent to start.
#[derive(Debug)]
pub struct SpawnPlan {
    pub task_name: String,
    pub prompt: String,
    pub subagent_type: String,
    pub model: Option<String>,
    pub reasoning_effort: Option<String>,
    pub service_tier: Option<String>,
    pub context: SubagentContextMode,
    /// How many of the last turns the agent knows; none for all.
    pub fork_turns: Option<usize>,
    pub message: AgentMailboxMessage,
}

// ---- access ----

/// The identity of the agent that asks, if the session has native teams.
pub fn native_access(
    enabled: Option<NativeAgentsEnabled>,
    has_backend: bool,
    identity: Option<AgentMailboxIdentity>,
) -> (r: Result<AgentMailboxIdentity, ToolError>)
    ensures
        match r {
            Ok(i) => enabled == Some(NativeAgentsEnabled(true)) && has_backend && identity == Some(i),
            Err(e) => e@ == (if enabled != Some(NativeAgentsEnabled(true)) {
                custom_error(
                    "tool_unavailable"@,
                    "Native multi-agent v2 is not enabled for this session"@,
                )
            } else if !has_backend {
                custom_error("missing_resource"@, "Subagent coordinator is unavailable"@)
            } else {
                custom_error("missing_resource"@, "Agent identity is unavailable"@)
            }) && !(enabled == Some(NativeAgentsEnabled(true)) && has_backend && identity is Some),
        },
{
    let on: bool = match enabled {
        Some(e) => e.0,
        None => false,
    };
    if !on {
        return Err(
            ToolError::custom(
                "tool_unavailable",
                "Native multi-agent v2 is not enabled for this session",
            ),
        );
    }
    if !has_backend {
        return Err(ToolError::custom("missing_resource", "Subagent coordinator is unavailable"));
    }
    match identity {
        Some(i) => Ok(i),
        None => Err(ToolError::custom("missing_resource", "Agent identity is unavailable")),
    }
}

// ---- messages ----

/// A text that a message may have.
pub open spec fn good_body(body: Seq<char>) -> bool {
    !blank(body) && byte_len(body) <= MAX_MESSAGE_BYTES
}

/// A message with a text, as it is made: to nobody yet.
pub open spec fn is_message_at(
    m: AgentMailboxMessage,
    identity: AgentMailboxIdentity,
    body: Seq<char>,
    kind: AgentMailboxMessageKind,
    encryption: Option<NativeMessageEncryption>,
    call_id: Seq<char>,
    id: Seq<char>,
    created_at_ms: u64,
) -> bool {
    &&& m.message_id@ == "amsg_"@ + id
    &&& m.team_scope_id@ == identity.team_scope_id@
    &&& m.from_agent_id@ == identity.agent_id@
    &&& m.to_agent_id@ == ""@
    &&& m.kind == kind
    &&& m.body@ == body
    &&& m.created_at_ms == created_at_ms
    &&& m.native is Some
    &&& m.native->0.author@ == ""@
    &&& m.native->0.recipient@ == ""@
    &&& m.native->0.encrypted == (match encryption {
        Some(e) => e.0,
        None => travels_encrypted(call_id),
    })
    &&& m.native->0.trigger_prompt_id is None
}

/// A message with a text, made under a fresh id at the time that the clock
/// shows.
pub open spec fn is_message(
    m: AgentMailboxMessage,
    identity: AgentMailboxIdentity,
    body: Seq<char>,
    kind: AgentMailboxMessageKind,
    encryption: Option<NativeMessageEncryption>,
    call_id: Seq<char>,
) -> bool {
    exists|id: Seq<char>| #[trigger]
        uuid_text(id) && is_message_at(
            m,
            identity,
            body,
            kind,
            encryption,
            call_id,
            id,
            m.created_at_ms,
        )
}

/// Makes a message under an id, at a time. Whether it is encrypted the call
/// says, unless it is known.
pub fn message_at(
    identity: &AgentMailboxIdentity,
    body: String,
    kind: AgentMailboxMessageKind,
    encryption: Option<NativeMessageEncryption>,
    call_id: &str,
    id: &str,
    created_at_ms: u64,
) -> (r: Result<AgentMailboxMessage, ToolError>)
    ensures
        match r {
            Ok(m) => good_body(body@) && is_message_at(
                m,
                *identity,
                body@,
                kind,
                encryption,
                call_id@,
                id@,
                created_at_ms,
            ),
            Err(e) => !good_body(body@) && e@ == invalid_arguments(
                "message must be nonempty and at most 32768 bytes"@,
            ),
        },
{
    if is_blank(body.as_str()) || byte_count(body.as_str()) > MAX_MESSAGE_BYTES {
        return Err(
            ToolError::invalid_arguments("message must be nonempty and at most 32768 bytes"),
        );
    }
    let encrypted: bool = match encryption {
        Some(e) => e.0,
        None => codex_message_is_encrypted(call_id),
    };
    Ok(
        AgentMailboxMessage {
            message_id: cat2("amsg_", id),
            team_scope_id: identity.team_scope_id.clone(),
            from_agent_id: identity.agent_id.clone(),
            to_agent_id: "".to_owned(),
            kind,
            body,
            created_at_ms,
            native: Some(
                NativeAgentMessage {
                    author: "".to_owned(),
                    recipient: "".to_owned(),
                    encrypted,
                    trigger_prompt_id: None,
                },
            ),
        },
    )
}

/// Makes a message under a fresh id, now.
pub fn message(
    identity: &AgentMailboxIdentity,
    body: String,
    kind: AgentMailboxMessageKind,
    encryption: Option<NativeMessageEncryption>,
    call_id: &str,
) -> (r: Result<AgentMailboxMessage, ToolError>)
    ensures
        match r {
            Ok(m) => good_body(body@) && is_message(m, *identity, body@, kind, encryption, call_id@),
            Err(e) => !good_body(body@) && e@ == invalid_arguments(
                "message must be nonempty and at most 32768 bytes"@,
            ),
        },
{
    let id: String = fresh_id();
    message_at(identity, body, kind, encryption, call_id, id.as_str(), unix_millis() as u64)
}

// ---- starting an agent ----

/// How much of the turns of its parent an agent knows.
pub open spec fn fork_mode(value: Option<Seq<char>>) -> Result<
    (SubagentContextMode, Option<int>),
    Seq<char>,
> {
    let word = match value {
        Some(v) => v,
        None => "all"@,
    };
    let n = unsigned_value(word);
    if word == "none"@ {
        Ok((SubagentContextMode::Fresh, None))
    } else if word == "all"@ {
        Ok((SubagentContextMode::Fork, None))
    } else if n is Some && 0 < n->0 <= usize::MAX {
        Ok((SubagentContextMode::Fork, Some(n->0)))
    } else {
        Err("fork_turns must be none, all, or a positive integer string"@)
    }
}

/// Reads how much of the turns of its parent an agent knows.
pub fn parse_fork_turns(value: Option<&str>) -> (r: Result<
    (SubagentContextMode, Option<usize>),
    String,
>)
    ensures
        match (
            r,
            fork_mode(
                match value {
                    Some(v) => Some(v@),
                    None => None,
                },
            ),
        ) {
            (Ok((m, None)), Ok((k, None))) => m == k,
            (Ok((m, Some(n))), Ok((k, Some(c)))) => m == k && n == c,
            (Err(a), Err(b)) => a@ == b,
            _ => false,
        },
{
    let word: &str = match value {
        Some(v) => v,
        None => "all",
    };
    if same_text(word, "none") {
        return Ok((SubagentContextMode::Fresh, None));
    }
    if same_text(word, "all") {
        return Ok((SubagentContextMode::Fork, None));
    }
    if let Some(n) = parse_u64(word) {
        if n > 0 && n <= usize::MAX as u64 {
            return Ok((SubagentContextMode::Fork, Some(n as usize)));
        }
    }
    Err("fork_turns must be none, all, or a positive integer string".to_owned())
}

/// A character that the name of a task may have.
pub open spec fn task_char(c: char) -> bool {
    ('a' <= c && c <= 'z') || ('0' <= c && c <= '9') || c == '_'
}

/// A name that a task may have.
pub open spec fn good_task_name(name: Seq<char>) -> bool {
    &&& 0 < name.len() <= 64
    &&& name != "root"@
    &&& forall|i: int| 0 <= i < name.len() ==> task_char(#[trigger] name[i])
}

/// Whether a task may have a name.
pub fn is_task_name(name: &str) -> (r: bool)
    ensures
        r == good_task_name(name@),
{
    let cs: Vec<char> = chars_of(name);
    if cs.len() == 0 || cs.len() > 64 || same_text(name, "root") {
        return false;
    }
    let mut i: usize = 0;
    while i < cs.len()
        invariant
            i <= cs@.len(),
            cs@ == name@,
            forall|j: int| 0 <= j < i ==> task_char(#[trigger] name@[j]),
        decreases cs.len() - i,
    {
        let c: char = cs[i];
        if !(('a' <= c && c <= 'z') || ('0' <= c && c <= '9') || c == '_') {
            proof {
                assert(!task_char(name@[i as int]));
            }
            return false;
        }
        i += 1;
    }
    true
}

/// Why an agent is not started, if it is not.
pub open spec fn spawn_error(input: SpawnAgentInput) -> Option<Seq<char>> {
    let mode = fork_mode(option_view(input.fork_turns));
    if mode is Err {
        Some(mode->Err_0)
    } else if !good_body(input.message@) {
        Some("message must be nonempty and at most 32768 bytes"@)
    } else if !good_task_name(input.task_name@) {
        Some("task_name must use lowercase letters, digits, and underscores; root is reserved"@)
    } else {
        None
    }
}

/// Plans an agent.
pub fn plan_spawn(
    identity: &AgentMailboxIdentity,
    input: SpawnAgentInput,
    encryption: Option<NativeMessageEncryption>,
    call_id: &str,
) -> (r: Result<SpawnPlan, ToolError>)
    ensures
        match r {
            Ok(p) => {
                let mode = fork_mode(option_view(input.fork_turns));
                &&& spawn_error(input) is None
                &&& p.task_name == input.task_name
                &&& p.prompt@ == SPAWN_PROMPT@
                &&& p.subagent_type@ == (match input.agent_type {
                    Some(t) => t@,
                    None => "general-purpose"@,
                })
                &&& p.model == input.model
                &&& p.reasoning_effort == input.reasoning_effort
                &&& p.service_tier == input.service_tier
                &&& match (mode->Ok_0.1, p.fork_turns) {
                    (Some(a), Some(b)) => a == b,
                    (None, None) => true,
                    _ => false,
                }
                &&& p.context == mode->Ok_0.0
                &&& is_message(
                    p.message,
                    *identity,
                    input.message@,
                    AgentMailboxMessageKind::NativeFollowup,
                    encryption,
                    call_id@,
                )
            },
            Err(e) => spawn_error(input) is Some && e@ == invalid_arguments(spawn_error(input)->0),
        },
{
    let turns: Option<&str> = match &input.fork_turns {
        Some(t) => Some(t.as_str()),
        None => None,
    };
    let (context, fork_turns): (SubagentContextMode, Option<usize>) = match parse_fork_turns(turns) {
        Ok(p) => p,
        Err(e) => {
            return Err(ToolError::invalid_arguments(e.as_str()));
        },
    };
    let message: AgentMailboxMessage = match message(
        identity,
        input.message,
        AgentMailboxMessageKind::NativeFollowup,
        encryption,
        call_id,
    ) {
        Ok(m) => m,
        Err(e) => {
            return Err(e);
        },
    };
    if !is_task_name(input.task_name.as_str()) {
        return Err(
            ToolError::invalid_arguments(
                "task_name must use lowercase letters, digits, and underscores; root is reserved",
            ),
        );
    }
    Ok(
        SpawnPlan {
            task_name: input.task_name,
            prompt: SPAWN_PROMPT.to_owned(),
            subagent_type: match input.agent_type {
                Some(t) => t,
                None => "general-purpose".to_owned(),
            },
            model: input.model,
            reasoning_effort: input.reasoning_effort,
            service_tier: input.service_tier,
            context,
            fork_turns,
            message,
        },
    )
}

// ---- the other tools ----

/// What sending a message asks of the team.
pub fn plan_send(
    identity: &AgentMailboxIdentity,
    input: MessageInput,
    encryption: Option<NativeMessageEncryption>,
    call_id: &str,
) -> (r: Result<NativeAgentOperation, ToolError>)
    ensures
        match r {
            Ok(NativeAgentOperation::Message { target, message }) => {
                &&& good_body(input.message@)
                &&& target == input.target
                &&& is_message(
                    message,
                    *identity,
                    input.message@,
                    AgentMailboxMessageKind::NativeMessage,
                    encryption,
                    call_id@,
                )
            },
            Ok(_) => false,
            Err(e) => !good_body(input.message@) && e@ == invalid_arguments(
                "message must be nonempty and at most 32768 bytes"@,
            ),
        },
{
    match message(
        identity,
        input.message,
        AgentMailboxMessageKind::NativeMessage,
        encryption,
        call_id,
    ) {
        Ok(message) => Ok(NativeAgentOperation::Message { target: input.target, message }),
        Err(e) => Err(e),
    }
}

/// What sending work asks of the team: work of the root goes with the prompt
/// that it comes from.
pub fn plan_followup(
    identity: &AgentMailboxIdentity,
    input: MessageInput,
    encryption: Option<NativeMessageEncryption>,
    call_id: &str,
    prompt_id: Option<String>,
) -> (r: Result<NativeAgentOperation, ToolError>)
    ensures
        match r {
            Ok(NativeAgentOperation::Message { target, message }) => {
                let made = AgentMailboxMessage {
                    native: Some(
                        NativeAgentMessage { trigger_prompt_id: None, ..message.native->0 },
                    ),
                    ..message
                };
                &&& good_body(input.message@)
                &&& target == input.target
                &&& is_message(
                    made,
                    *identity,
                    input.message@,
                    AgentMailboxMessageKind::NativeFollowup,
                    encryption,
                    call_id@,
                )
                &&& message.native is Some
                &&& message.native->0.trigger_prompt_id == (if identity.agent_id@
                    == identity.team_scope_id@ {
                    prompt_id
                } else {
                    None
                })
            },
            Ok(_) => false,
            Err(e) => !good_body(input.message@) && e@ == invalid_arguments(
                "message must be nonempty and at most 32768 bytes"@,
            ),
        },
{
    match message(
        identity,
        input.message,
        AgentMailboxMessageKind::NativeFollowup,
        encryption,
        call_id,
    ) {
        Ok(made) => {
            let mut message: AgentMailboxMessage = made;
            if same_text(identity.agent_id.as_str(), identity.team_scope_id.as_str()) {
                if let Some(n) = message.native {
                    message.native = Some(
                        NativeAgentMessage {
                            author: n.author,
                            recipient: n.recipient,
                            encrypted: n.encrypted,
                            trigger_prompt_id: prompt_id,
                        },
                    );
                }
            }
            Ok(NativeAgentOperation::Message { target: input.target, message })
        },
        Err(e) => Err(e),
    }
}

/// What listing the agents asks of the team.
pub fn plan_list(input: ListInput) -> (r: NativeAgentOperation)
    ensures
        r == (NativeAgentOperation::List { path_prefix: input.path_prefix }),
{
    NativeAgentOperation::List { path_prefix: input.path_prefix }
}

/// What waiting asks of the team.
pub fn plan_wait(input: WaitInput) -> (r: NativeAgentOperation)
    ensures
        r == (NativeAgentOperation::Wait {
            timeout_ms: match input.timeout_ms {
                Some(t) => t,
                None => DEFAULT_WAIT_MS,
            },
        }),
{
    NativeAgentOperation::Wait {
        timeout_ms: match input.timeout_ms {
            Some(t) => t,
            None => DEFAULT_WAIT_MS,
        },
    }
}

/// What interrupting an agent asks of the team.
pub fn plan_interrupt(input: InterruptInput) -> (r: NativeAgentOperation)
    ensures
        r == (NativeAgentOperation::Interrupt { target: input.target }),
{
    NativeAgentOperation::Interrupt { target: input.target }
}

/// The error for what the team refuses.
pub fn team_error(error: &str) -> (r: ToolError)
    ensures
        r@ == custom_error("agent_collaboration"@, error@),
{
    ToolError::custom("agent_collaboration", error)
}

/// The tools.
#[derive(Debug, Clone, Copy, PartialEq, Eq, Structural)]
pub enum NativeTool {
    SpawnAgent,
    SendMessage,
    FollowupTask,
    ListAgents,
    WaitAgent,
    InterruptAgent,
}

impl NativeTool {
    /// The name of the tool.
    pub open spec fn word(self) -> Seq<char> {
        match self {
            NativeTool::SpawnAgent => "spawn_agent"@,
            NativeTool::SendMessage => "send_message"@,
            NativeTool::FollowupTask => "followup_task"@,
            NativeTool::ListAgents => "list_agents"@,
            NativeTool::WaitAgent => "wait_agent"@,
            NativeTool::InterruptAgent => "interrupt_agent"@,
        }
    }

    /// What the tool is for.
    pub open spec fn purpose(self) -> Seq<char> {
        match self {
            NativeTool::SpawnAgent => "Start a named background agent. task_name uses lowercase letters, digits, and underscores. fork_turns defaults to all; use none for fresh context or a positive integer string for recent turns. Same-model forks retain compatible history; cross-model forks use a plaintext digest. Encrypted messages cannot cross provider boundaries; use the ordinary host task tool for plaintext cross-provider delegation. The host's depth and permission limits still apply. Reuse an existing task with followup_task."@,
            NativeTool::SendMessage => "Deliver a message promptly to an agent by canonical task path, relative task name, or ID. Does not start a turn when the recipient is idle. Use followup_task to assign work."@,
            NativeTool::FollowupTask => "Send work to a non-root agent. Starts a turn when idle and delivers promptly when running. Reuses a completed named agent with its own model, role, working directory, and history."@,
            NativeTool::ListAgents => "List this team's named agents and lifecycle status without exposing transcripts. Optionally filter by a canonical task-path prefix without a trailing slash."@,
            NativeTool::WaitAgent => "Wait for agent messages or final-status activity. Returns an activity summary, not message contents. Ends early for steered user input. timeout_ms defaults to 30000, maximum 600000; 0 polls."@,
            NativeTool::InterruptAgent => "Interrupt an agent's current turn without deleting its history or task identity. The agent remains reusable with followup_task. Cannot target the root or yourself."@,
        }
    }

    /// The tool changes nothing.
    pub open spec fn reads(self) -> bool {
        match self {
            NativeTool::SpawnAgent => false,
            NativeTool::SendMessage => false,
            NativeTool::FollowupTask => false,
            NativeTool::ListAgents => true,
            NativeTool::WaitAgent => true,
            NativeTool::InterruptAgent => false,
        }
    }

    /// What the tool says of itself.
    pub fn metadata(self) -> (r: ToolMetadata)
        ensures
            r@ == (MetadataView {
                id: self.word(),
                kind: ToolKind::AgentCollaboration,
                namespace: ToolNamespace::Codex,
                read_only: self.reads(),
                description: self.purpose(),
            }),
    {
        let (id, read_only, description): (&'static str, bool, &'static str) = match self {
            NativeTool::SpawnAgent => (
                "spawn_agent",
                false,
                "Start a named background agent. task_name uses lowercase letters, digits, and underscores. fork_turns defaults to all; use none for fresh context or a positive integer string for recent turns. Same-model forks retain compatible history; cross-model forks use a plaintext digest. Encrypted messages cannot cross provider boundaries; use the ordinary host task tool for plaintext cross-provider delegation. The host's depth and permission limits still apply. Reuse an existing task with followup_task.",
            ),
            NativeTool::SendMessage => (
                "send_message",
                false,
                "Deliver a message promptly to an agent by canonical task path, relative task name, or ID. Does not start a turn when the recipient is idle. Use followup_task to assign work.",
            ),
            NativeTool::FollowupTask => (
                "followup_task",
                false,
                "Send work to a non-root agent. Starts a turn when idle and delivers promptly when running. Reuses a completed named agent with its own model, role, working directory, and history.",
            ),
            NativeTool::ListAgents => (
                "list_agents",
                true,
                "List this team's named agents and lifecycle status without exposing transcripts. Optionally filter by a canonical task-path prefix without a trailing slash.",
            ),
            NativeTool::WaitAgent => (
                "wait_agent",
                true,
                "Wait for agent messages or final-status activity. Returns an activity summary, not message contents. Ends early for steered user input. timeout_ms defaults to 30000, maximum 600000; 0 polls.",
            ),
            NativeTool::InterruptAgent => (
                "interrupt_agent",
                false,
                "Interrupt an agent's current turn without deleting its history or task identity. The agent remains reusable with followup_task. Cannot target the root or yourself.",
            ),
        };
        ToolMetadata {
            id,
            kind: ToolKind::AgentCollaboration,
            namespace: ToolNamespace::Codex,
            read_only,
            description,
        }
    }
}

} // verus!
