//! The values that the coordinator holds and exchanges with its host.
use vstd::prelude::*;
#[allow(unused_imports)]
use vstd::string::*;

#[allow(unused_imports)]
use crate::table::{Key, Keyed, Named};
#[allow(unused_imports)]
use crate::text::{copy_option, option_view, same_text};

verus! {

/// Who asked for a child.
#[derive(Debug, Clone)]
pub enum SubagentOwner {
    /// A session, through its task tool.
    Session,
    /// A workflow run.
    Workflow { run_id: String },
}

impl SubagentOwner {
    /// A workflow run asked for the child.
    pub open spec fn of_workflow(self) -> bool {
        self is Workflow
    }

    /// Whether a workflow run asked for the child.
    pub fn is_workflow(&self) -> (r: bool)
        ensures
            r == self.of_workflow(),
    {
        match self {
            SubagentOwner::Workflow { .. } => true,
            SubagentOwner::Session => false,
        }
    }

    /// The workflow run that asked for the child.
    pub open spec fn run(self) -> Option<Seq<char>> {
        match self {
            SubagentOwner::Workflow { run_id } => Some(run_id@),
            SubagentOwner::Session => None,
        }
    }

    /// Whether the given workflow run asked for the child.
    pub fn is_run(&self, id: &str) -> (r: bool)
        ensures
            r == (self.run() == Some(id@)),
    {
        match self {
            SubagentOwner::Workflow { run_id } => same_text(run_id.as_str(), id),
            SubagentOwner::Session => false,
        }
    }

    /// A copy of the owner.
    pub fn duplicate(&self) -> (r: SubagentOwner)
        ensures
            r == *self,
    {
        match self {
            SubagentOwner::Workflow { run_id } => SubagentOwner::Workflow { run_id: run_id.clone() },
            SubagentOwner::Session => SubagentOwner::Session,
        }
    }
}

/// What a child is asked to do.
#[derive(Debug, Clone)]
pub struct SubagentRequest {
    pub id: String,
    pub prompt: String,
    pub description: String,
    pub subagent_type: String,
    pub parent_session_id: String,
    pub parent_prompt_id: Option<String>,
    pub owner: SubagentOwner,
    pub run_in_background: bool,
    pub await_to_completion: bool,
    pub surface_completion: bool,
    pub resume_from: Option<String>,
    pub cwd: Option<String>,
    pub persona: Option<String>,
    pub loop_task_id: Option<String>,
    /// Whether the child is a named agent of a native team.
    pub native_agent: bool,
}

impl SubagentRequest {
    /// A copy of the request.
    pub fn duplicate(&self) -> (r: SubagentRequest)
        ensures
            r == *self,
    {
        SubagentRequest {
            id: self.id.clone(),
            prompt: self.prompt.clone(),
            description: self.description.clone(),
            subagent_type: self.subagent_type.clone(),
            parent_session_id: self.parent_session_id.clone(),
            parent_prompt_id: copy_option(&self.parent_prompt_id),
            owner: self.owner.duplicate(),
            run_in_background: self.run_in_background,
            await_to_completion: self.await_to_completion,
            surface_completion: self.surface_completion,
            resume_from: copy_option(&self.resume_from),
            cwd: copy_option(&self.cwd),
            persona: copy_option(&self.persona),
            loop_task_id: copy_option(&self.loop_task_id),
            native_agent: self.native_agent,
        }
    }
}

/// What came of a child.
#[derive(Debug, Clone)]
pub struct SubagentResult {
    pub success: bool,
    pub cancelled: bool,
    pub backgrounded: bool,
    pub output: String,
    pub error: Option<String>,
    pub subagent_id: String,
    pub child_session_id: String,
    pub tool_calls: u64,
    pub turns: u64,
    pub duration_ms: u64,
    pub tokens_used: u64,
    pub worktree_path: Option<String>,
}

/// What a result holds.
#[verifier::ext_equal]
pub struct ResultView {
    pub success: bool,
    pub cancelled: bool,
    pub backgrounded: bool,
    pub output: Seq<char>,
    pub error: Option<Seq<char>>,
    pub subagent_id: Seq<char>,
    pub child_session_id: Seq<char>,
    pub tool_calls: u64,
    pub turns: u64,
    pub duration_ms: u64,
    pub tokens_used: u64,
    pub worktree_path: Option<Seq<char>>,
}

impl View for SubagentResult {
    type V = ResultView;

    open spec fn view(&self) -> ResultView {
        ResultView {
            success: self.success,
            cancelled: self.cancelled,
            backgrounded: self.backgrounded,
            output: self.output@,
            error: option_view(self.error),
            subagent_id: self.subagent_id@,
            child_session_id: self.child_session_id@,
            tool_calls: self.tool_calls,
            turns: self.turns,
            duration_ms: self.duration_ms,
            tokens_used: self.tokens_used,
            worktree_path: option_view(self.worktree_path),
        }
    }
}

/// A result that says nothing of the child but its ids.
pub open spec fn bare_result(
    subagent_id: Seq<char>,
    child_session_id: Seq<char>,
) -> ResultView {
    ResultView {
        success: false,
        cancelled: false,
        backgrounded: false,
        output: Seq::empty(),
        error: None,
        subagent_id,
        child_session_id,
        tool_calls: 0,
        turns: 0,
        duration_ms: 0,
        tokens_used: 0,
        worktree_path: None,
    }
}

/// The status that a result stands for.
pub open spec fn status_of(result: SubagentResult) -> Seq<char> {
    if result.cancelled {
        "cancelled"@
    } else if result.success {
        "completed"@
    } else {
        "failed"@
    }
}

impl SubagentResult {
    /// A result that says nothing of the child but its ids.
    pub fn bare(subagent_id: &str, child_session_id: &str) -> (r: SubagentResult)
        ensures
            r@ == bare_result(subagent_id@, child_session_id@),
    {
        SubagentResult {
            success: false,
            cancelled: false,
            backgrounded: false,
            output: String::new(),
            error: None,
            subagent_id: subagent_id.to_owned(),
            child_session_id: child_session_id.to_owned(),
            tool_calls: 0,
            turns: 0,
            duration_ms: 0,
            tokens_used: 0,
            worktree_path: None,
        }
    }

    /// The status that the result stands for.
    pub fn status(&self) -> (r: String)
        ensures
            r@ == status_of(*self),
    {
        if self.cancelled {
            "cancelled".to_owned()
        } else if self.success {
            "completed".to_owned()
        } else {
            "failed".to_owned()
        }
    }

    /// A copy of the result.
    pub fn duplicate(&self) -> (r: SubagentResult)
        ensures
            r == *self,
    {
        SubagentResult {
            success: self.success,
            cancelled: self.cancelled,
            backgrounded: self.backgrounded,
            output: self.output.clone(),
            error: copy_option(&self.error),
            subagent_id: self.subagent_id.clone(),
            child_session_id: self.child_session_id.clone(),
            tool_calls: self.tool_calls,
            turns: self.turns,
            duration_ms: self.duration_ms,
            tokens_used: self.tokens_used,
            worktree_path: copy_option(&self.worktree_path),
        }
    }
}

/// A child that was asked for and has not reported its start.
#[derive(Debug, Clone)]
pub struct PendingChild {
    pub request: SubagentRequest,
    pub started_at: u128,
    pub cancelled: bool,
    pub spawn_reply: Option<u64>,
    pub foreground_deadline: Option<u128>,
    pub handle_only: bool,
    pub explicitly_killed: bool,
}

/// A child that reported its start.
#[derive(Debug, Clone)]
pub struct ActiveChild {
    pub request: SubagentRequest,
    pub started_at: u128,
    pub cancelled: bool,
    pub spawn_reply: Option<u64>,
    pub foreground_deadline: Option<u128>,
    pub handle_only: bool,
    pub definition_background: bool,
    pub explicitly_killed: bool,
    pub child_session_id: String,
    pub persona: Option<String>,
    pub resumed_from: Option<String>,
    pub child_cwd: String,
    pub worktree_path: Option<String>,
    pub effective_model_id: String,
}

/// A child that finished.
#[derive(Debug, Clone)]
pub struct CompletedChild {
    pub request: SubagentRequest,
    pub started_at: u128,
    pub child_session_id: String,
    pub persona: Option<String>,
    pub resumed_from: Option<String>,
    pub child_cwd: String,
    pub worktree_path: Option<String>,
    pub snapshot_ref: Option<String>,
    pub persisted_output_ref: Option<String>,
    pub effective_model_id: String,
    pub result: SubagentResult,
}

/// Who waits for a queued child.
#[derive(Debug, Clone, Copy, PartialEq, Eq, Structural)]
pub enum QueuedCaller {
    /// Nobody: the caller was handed off.
    Backgrounded,
    /// A caller on a channel.
    Awaiting { reply: u64, deadline: Option<u128> },
}

/// A message that woke a completed child.
#[derive(Debug, Clone)]
pub struct WakeOrigin {
    pub agent_id: String,
    pub message_id: String,
}

/// A child that waits for a free slot.
#[derive(Debug, Clone)]
pub struct QueuedSpawn {
    pub request: SubagentRequest,
    pub queued_at: u128,
    pub caller: QueuedCaller,
    pub wake_origin: Option<WakeOrigin>,
    /// Whether the token of the request was cancelled from outside.
    pub cancelled: bool,
}

impl Keyed for PendingChild {
    open spec fn key(&self) -> Key {
        (self.request.id@, ""@)
    }

    fn has_key(&self, a: &str, b: &str) -> (r: bool) {
        same_text(self.request.id.as_str(), a) && same_text("", b)
    }
}

impl Keyed for ActiveChild {
    open spec fn key(&self) -> Key {
        (self.request.id@, ""@)
    }

    fn has_key(&self, a: &str, b: &str) -> (r: bool) {
        same_text(self.request.id.as_str(), a) && same_text("", b)
    }
}

impl Keyed for CompletedChild {
    open spec fn key(&self) -> Key {
        (self.request.id@, ""@)
    }

    fn has_key(&self, a: &str, b: &str) -> (r: bool) {
        same_text(self.request.id.as_str(), a) && same_text("", b)
    }
}

/// A caller that waits for one child to finish.
#[derive(Debug, Clone)]
pub struct BlockingWaiter {
    pub subagent_id: String,
    pub deadline: u128,
    pub reply: u64,
}

/// The place of an agent: its team and its id.
#[derive(Debug, Clone)]
pub struct AgentMailboxIdentity {
    pub team_scope_id: String,
    pub agent_id: String,
}

/// The kinds of agent messages.
#[derive(Debug, Clone, Copy, PartialEq, Eq, Structural)]
pub enum AgentMailboxMessageKind {
    /// A message that steers the recipient's turn.
    Message,
    /// Work that waits until the recipient asks for it.
    FollowupTask,
    /// A message of a native team.
    NativeMessage,
    /// Work of a native team.
    NativeFollowup,
}

impl AgentMailboxMessageKind {
    /// The message is pushed into the recipient's session.
    pub open spec fn steers(self) -> bool {
        self != AgentMailboxMessageKind::FollowupTask
    }

    /// Whether the message is pushed into the recipient's session.
    pub fn steers_recipient(self) -> (r: bool)
        ensures
            r == self.steers(),
    {
        self != AgentMailboxMessageKind::FollowupTask
    }
}

/// What a message of a native team carries besides.
#[derive(Debug, Clone)]
pub struct NativeAgentMessage {
    pub author: String,
    pub recipient: String,
    pub encrypted: bool,
    pub trigger_prompt_id: Option<String>,
}

/// A message from one agent to another.
#[derive(Debug, Clone)]
pub struct AgentMailboxMessage {
    pub message_id: String,
    pub team_scope_id: String,
    pub from_agent_id: String,
    pub to_agent_id: String,
    pub kind: AgentMailboxMessageKind,
    pub body: String,
    pub created_at_ms: u64,
    pub native: Option<NativeAgentMessage>,
}

impl AgentMailboxMessage {
    /// A copy of the message.
    pub fn duplicate(&self) -> (r: AgentMailboxMessage)
        ensures
            r == *self,
    {
        AgentMailboxMessage {
            message_id: self.message_id.clone(),
            team_scope_id: self.team_scope_id.clone(),
            from_agent_id: self.from_agent_id.clone(),
            to_agent_id: self.to_agent_id.clone(),
            kind: self.kind,
            body: self.body.clone(),
            created_at_ms: self.created_at_ms,
            native: match &self.native {
                Some(n) => Some(
                    NativeAgentMessage {
                        author: n.author.clone(),
                        recipient: n.recipient.clone(),
                        encrypted: n.encrypted,
                        trigger_prompt_id: copy_option(&n.trigger_prompt_id),
                    },
                ),
                None => None,
            },
        }
    }
}

/// A message in the mailbox of an agent.
#[derive(Debug, Clone)]
pub struct Mail {
    pub team_scope_id: String,
    pub agent_id: String,
    pub message: AgentMailboxMessage,
}

/// The mail is for an agent.
pub open spec fn mail_is_for(m: Mail, k: Key) -> bool {
    m.team_scope_id@ == k.0 && m.agent_id@ == k.1
}

/// An agent that waits for mail.
#[derive(Debug, Clone)]
pub struct AgentMailboxWaiter {
    pub team_scope_id: String,
    pub agent_id: String,
    pub deadline: u128,
    pub reply: u64,
}

impl Keyed for AgentMailboxWaiter {
    open spec fn key(&self) -> Key {
        (self.team_scope_id@, self.agent_id@)
    }

    fn has_key(&self, a: &str, b: &str) -> (r: bool) {
        same_text(self.team_scope_id.as_str(), a) && same_text(self.agent_id.as_str(), b)
    }
}

/// What a native team keeps of one of its agents.
#[derive(Debug, Clone)]
pub struct NativeAgent {
    pub team_scope_id: String,
    pub agent_id: String,
    /// The child that bears the name at present.
    pub subagent_id: String,
    /// The record that is kept of the agent.
    pub record: String,
}

/// Something that happened to an agent of a native team.
#[derive(Debug, Clone)]
pub struct NativeActivity {
    pub team_scope_id: String,
    pub agent_id: String,
    pub activity: String,
}

/// How a message was delivered.
#[derive(Debug, Clone, Copy, PartialEq, Eq, Structural)]
pub enum AgentMessageDeliveryStatus {
    Delivered,
    Queued,
    Rejected,
}

/// The answer to the sender of a message.
#[derive(Debug, Clone)]
pub struct AgentMessageSendOutput {
    pub message_id: String,
    pub target_agent_id: String,
    pub status: AgentMessageDeliveryStatus,
}

/// One agent of a team.
#[derive(Debug, Clone)]
pub struct AgentRosterEntry {
    pub agent_id: String,
    pub is_root: bool,
    pub status: String,
    pub subagent_type: Option<String>,
    pub description: Option<String>,
    pub resumed_from: Option<String>,
    pub worktree_path: Option<String>,
}

impl Named for AgentRosterEntry {
    open spec fn name(&self) -> Seq<char> {
        self.agent_id@
    }

    fn name_text(&self) -> (r: &str) {
        self.agent_id.as_str()
    }
}

/// The agents of a team, the root first.
#[derive(Debug)]
pub struct ListAgentsOutput {
    pub team_scope_id: String,
    pub agents: Vec<AgentRosterEntry>,
}

/// A child that a prompt spawned.
#[derive(Debug, Clone)]
pub struct SpawnedSubagentRef {
    pub subagent_id: String,
    pub child_session_id: String,
    pub subagent_type: String,
    pub description: String,
    pub persona: Option<String>,
    pub resumed_from: Option<String>,
}

impl Named for SpawnedSubagentRef {
    open spec fn name(&self) -> Seq<char> {
        self.subagent_id@
    }

    fn name_text(&self) -> (r: &str) {
        self.subagent_id.as_str()
    }
}

/// What cancelling came to.
#[derive(Debug, Clone)]
pub enum SubagentCancelOutcome {
    Cancelled,
    AlreadyFinished { status: String },
    NotFound,
}

/// What is still running for a prompt.
#[derive(Debug)]
pub struct SubagentOutstandingReply {
    pub live_ids: Vec<String>,
    pub background_live: bool,
    pub subagent_usage_not_applied: bool,
}

/// How many children there are in each table.
#[derive(Debug, Clone, Copy, PartialEq, Eq, Structural)]
pub struct SubagentRegistryCounts {
    pub pending: usize,
    pub active: usize,
    pub completed: usize,
    pub queued: usize,
}

/// A finished child that another may continue.
#[derive(Debug, Clone)]
pub struct SubagentResumeSource {
    pub subagent_id: String,
    pub child_session_id: String,
    pub child_cwd: String,
    pub worktree_path: Option<String>,
    pub snapshot_ref: Option<String>,
    pub subagent_type: String,
    pub persona: Option<String>,
    pub model_id: Option<String>,
}

/// What is known of a child to continue.
#[derive(Debug, Clone)]
pub enum SubagentResumeLookup {
    Active,
    Completed(SubagentResumeSource),
    Missing,
}

/// The summary of a finished child that waits to be read.
#[derive(Debug, Clone)]
pub struct SubagentCompletionSummary {
    pub subagent_id: String,
    pub description: String,
    pub subagent_type: String,
    pub success: bool,
    pub cancelled: bool,
    pub output: String,
    pub error: Option<String>,
}

/// A summary and the session it is for.
#[derive(Debug, Clone)]
pub struct BufferedCompletion {
    pub parent_session_id: String,
    pub summary: SubagentCompletionSummary,
}

/// A prompt of a session.
#[derive(Debug, Clone)]
pub struct PromptScope {
    pub parent_session_id: String,
    pub prompt_id: String,
}

impl Keyed for PromptScope {
    open spec fn key(&self) -> Key {
        (self.parent_session_id@, self.prompt_id@)
    }

    fn has_key(&self, a: &str, b: &str) -> (r: bool) {
        same_text(self.parent_session_id.as_str(), a) && same_text(self.prompt_id.as_str(), b)
    }
}

/// A session that is being deleted, and when its hold is given up.
#[derive(Debug, Clone)]
pub struct TeardownDrain {
    pub parent_session_id: String,
    pub deadline: u128,
}

impl Keyed for TeardownDrain {
    open spec fn key(&self) -> Key {
        (self.parent_session_id@, ""@)
    }

    fn has_key(&self, a: &str, b: &str) -> (r: bool) {
        same_text(self.parent_session_id.as_str(), a) && same_text("", b)
    }
}

/// A caller that waits on a text: the end of a workflow run or of a session.
#[derive(Debug, Clone)]
pub struct ReplyWaiter {
    pub subject: String,
    pub reply: u64,
}

/// How the end of a child reached those who asked for it.
#[derive(Debug, Clone, Copy, PartialEq, Eq, Structural)]
pub struct CompletionDisposition {
    pub foreground_delivered: bool,
    pub backgrounded: bool,
    pub waiter_delivered: bool,
    pub explicitly_killed: bool,
    pub should_surface: bool,
}

/// What a session may not spawn beyond.
#[derive(Debug, Clone, Copy, PartialEq, Eq, Structural)]
pub enum AdmissionDecision {
    Start,
    Enqueue,
    Reject,
}

/// What the coordinator says of an agent type.
#[derive(Debug)]
pub enum SubagentValidateTypeOutcome {
    Known,
    Unknown { available: Vec<String> },
    Disabled,
    NotAllowed { allowed: Vec<String> },
    ValidationUnavailable,
}

/// What the model catalog says of a model that a call asks for.
#[derive(Debug)]
pub enum ModelVerdict {
    Accepted,
    Rejected(String),
    /// There is no catalog to ask.
    NoValidator,
}

/// Something for the host to do.
#[derive(Debug)]
pub enum Action {
    /// Cancel the token of a child, and its control where it is live.
    Cancel { id: String, live: bool },
    /// Finish a queued child as cancelled.
    FinishQueued { request: SubagentRequest, caller: QueuedCaller },
    /// Hand one message to a waiting agent.
    HandMessage { reply: u64, message: AgentMailboxMessage },
    /// Tell a waiting agent that there is no mail.
    NoMail { reply: u64, timed_out: bool },
    /// Tell the host of a message and how it was delivered.
    ObserveMessage { message: AgentMailboxMessage, status: AgentMessageDeliveryStatus },
    /// Answer a cancel request.
    AnswerCancelled { reply: u64 },
    /// Answer a session that its children are gone.
    AnswerDrained { reply: u64 },
    /// Answer the caller of a child.
    AnswerSpawn { reply: u64, result: SubagentResult },
    /// Answer a waiter with the snapshot of a finished child, whose whole result
    /// this is.
    AnswerSnapshot { reply: u64, id: String, result: SubagentResult },
    /// Answer a waiter with what is known of a child that has not finished.
    AnswerReady { reply: u64, id: String },
    /// Answer a waiter with the progress of a live child.
    AnswerProgress { reply: u64, id: String },
    /// Report how many children are running.
    ReportRunning { count: u128 },
    /// Save the registry of a native team.
    SaveNative { team_scope_id: String },
    /// Tell the native team of a finished child.
    NoteNative { id: String },
    /// Tell the host of a finished child.
    Completed {
        request: SubagentRequest,
        result: SubagentResult,
        disposition: CompletionDisposition,
    },
    /// Run a child.
    Run {
        request: SubagentRequest,
        queued_for_ms: Option<u128>,
        session_running: u128,
        wake_origin: Option<WakeOrigin>,
    },
    /// Tell the host that a session is at its limit.
    NoteLimit { request: SubagentRequest, decision: AdmissionDecision },
    /// Start queued children while there is room.
    StartQueued,
}

} // verus!
