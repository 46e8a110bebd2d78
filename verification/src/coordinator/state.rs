//! The state of the coordinator.
use vstd::prelude::*;
#[allow(unused_imports)]
use vstd::string::*;

#[allow(unused_imports)]
use crate::coordinator::types::{
    ActiveChild, AgentMailboxWaiter, BlockingWaiter, BufferedCompletion, CompletedChild, Mail,
    NativeActivity, NativeAgent, PendingChild, PromptScope, QueuedSpawn, ReplyWaiter,
    SubagentRequest, TeardownDrain,
};
#[allow(unused_imports)]
use crate::table::{keys_differ};
#[allow(unused_imports)]
use crate::text::{option_view, same_text};

verus! {

/// How long the deletion of a session may hold its admission, in milliseconds.
pub const TEARDOWN_DRAIN_MAX_MS: u64 = 30_000;

/// How the coordinator is set up.
#[derive(Debug, Clone, Copy)]
pub struct CoordinatorConfig {
    /// How long a caller waits before a child goes to the background, in milliseconds.
    pub foreground_budget_ms: u64,
    /// How often the queue is swept, in milliseconds.
    pub queued_reap_interval_ms: u64,
    /// How many finished children are remembered.
    pub max_completed_entries: usize,
    /// Whether summaries of finished children are kept until they are read.
    pub buffer_completions: bool,
}

/// The coordinator of the subagents of all sessions.
#[derive(Debug)]
pub struct SubagentCoordinator {
    pub config: CoordinatorConfig,
    /// Children that wait for a slot, the oldest first.
    pub queued: Vec<QueuedSpawn>,
    /// When the queue was last swept.
    pub last_queued_reap: u128,
    pub pending: Vec<PendingChild>,
    pub active: Vec<ActiveChild>,
    pub completed: Vec<CompletedChild>,
    /// The ids of finished children, the oldest first.
    pub completed_order: Vec<String>,
    pub waiters: Vec<BlockingWaiter>,
    /// The mail of all agents, the oldest first.
    pub mailboxes: Vec<Mail>,
    pub mailbox_waiters: Vec<AgentMailboxWaiter>,
    pub native_agents: Vec<NativeAgent>,
    /// Teams whose native registry was loaded.
    pub native_loaded: Vec<String>,
    pub native_activity: Vec<NativeActivity>,
    pub native_waiters: Vec<AgentMailboxWaiter>,
    /// Callers that wait for the children of a workflow run to end.
    pub workflow_cancel_waiters: Vec<ReplyWaiter>,
    pub teardown_drains: Vec<TeardownDrain>,
    /// Callers that wait for the children of a session to end.
    pub drain_waiters: Vec<ReplyWaiter>,
    /// Sessions that may not spawn.
    pub spawn_blocked_sessions: Vec<String>,
    pub usage_not_applied_prompts: Vec<PromptScope>,
    pub pending_completions: Vec<BufferedCompletion>,
}

impl SubagentCoordinator {
    /// Each table holds at most one entry for a key.
    pub open spec fn wf(&self) -> bool {
        &&& keys_differ(self.pending@)
        &&& keys_differ(self.active@)
        &&& keys_differ(self.completed@)
        &&& keys_differ(self.mailbox_waiters@)
        &&& keys_differ(self.teardown_drains@)
        &&& keys_differ(self.usage_not_applied_prompts@)
    }

    /// The coordinator before the first event.
    pub fn new(config: CoordinatorConfig, now: u128) -> (r: SubagentCoordinator)
        ensures
            r.wf(),
            r.config == config,
            r.last_queued_reap == now,
            r.queued@.len() == 0,
            r.pending@.len() == 0,
            r.active@.len() == 0,
            r.completed@.len() == 0,
            r.completed_order@.len() == 0,
            r.waiters@.len() == 0,
            r.mailboxes@.len() == 0,
            r.mailbox_waiters@.len() == 0,
            r.native_agents@.len() == 0,
            r.native_loaded@.len() == 0,
            r.native_activity@.len() == 0,
            r.native_waiters@.len() == 0,
            r.workflow_cancel_waiters@.len() == 0,
            r.teardown_drains@.len() == 0,
            r.drain_waiters@.len() == 0,
            r.spawn_blocked_sessions@.len() == 0,
            r.usage_not_applied_prompts@.len() == 0,
            r.pending_completions@.len() == 0,
    {
        SubagentCoordinator {
            config,
            queued: Vec::new(),
            last_queued_reap: now,
            pending: Vec::new(),
            active: Vec::new(),
            completed: Vec::new(),
            completed_order: Vec::new(),
            waiters: Vec::new(),
            mailboxes: Vec::new(),
            mailbox_waiters: Vec::new(),
            native_agents: Vec::new(),
            native_loaded: Vec::new(),
            native_activity: Vec::new(),
            native_waiters: Vec::new(),
            workflow_cancel_waiters: Vec::new(),
            teardown_drains: Vec::new(),
            drain_waiters: Vec::new(),
            spawn_blocked_sessions: Vec::new(),
            usage_not_applied_prompts: Vec::new(),
            pending_completions: Vec::new(),
        }
    }
}

/// A request is for a session; no session stands for any.
pub open spec fn of_session(request: SubagentRequest, session: Option<Seq<char>>) -> bool {
    session is None || request.parent_session_id@ == session->0
}

/// Whether a request is for a session; no session stands for any.
pub fn belongs_to_session(request: &SubagentRequest, session: &Option<String>) -> (r: bool)
    ensures
        r == of_session(*request, option_view(*session)),
{
    match session {
        Some(id) => same_text(request.parent_session_id.as_str(), id.as_str()),
        None => true,
    }
}

/// Which children an event is about.
#[derive(Debug)]
pub enum Scope {
    /// The child with an id.
    Id { id: String, session: Option<String> },
    /// The children of a prompt.
    Prompt { prompt_id: String, session: Option<String> },
    /// The children of a prompt of a session that no workflow owns.
    Turn { session: String, prompt_id: String },
    /// The children of a session that no workflow owns.
    Session { session: String },
    /// The children of a workflow run.
    Workflow { run_id: String, session: Option<String> },
    /// All children of a session.
    Everything { session: String },
    /// All children.
    All,
}

/// What a scope says.
pub enum ScopeView {
    Id(Seq<char>, Option<Seq<char>>),
    Prompt(Seq<char>, Option<Seq<char>>),
    Turn(Seq<char>, Seq<char>),
    Session(Seq<char>),
    Workflow(Seq<char>, Option<Seq<char>>),
    Everything(Seq<char>),
    All,
}

impl View for Scope {
    type V = ScopeView;

    open spec fn view(&self) -> ScopeView {
        match *self {
            Scope::Id { id, session } => ScopeView::Id(id@, option_view(session)),
            Scope::Prompt { prompt_id, session } => ScopeView::Prompt(
                prompt_id@,
                option_view(session),
            ),
            Scope::Turn { session, prompt_id } => ScopeView::Turn(session@, prompt_id@),
            Scope::Session { session } => ScopeView::Session(session@),
            Scope::Workflow { run_id, session } => ScopeView::Workflow(
                run_id@,
                option_view(session),
            ),
            Scope::Everything { session } => ScopeView::Everything(session@),
            Scope::All => ScopeView::All,
        }
    }
}

/// A request is in a scope.
pub open spec fn covers(scope: ScopeView, request: SubagentRequest) -> bool {
    match scope {
        ScopeView::Id(id, session) => request.id@ == id && of_session(request, session),
        ScopeView::Prompt(prompt_id, session) => option_view(request.parent_prompt_id) == Some(
            prompt_id,
        ) && of_session(request, session),
        ScopeView::Turn(session, prompt_id) => request.parent_session_id@ == session && option_view(
            request.parent_prompt_id,
        ) == Some(prompt_id) && !request.owner.of_workflow(),
        ScopeView::Session(session) => request.parent_session_id@ == session
            && !request.owner.of_workflow(),
        ScopeView::Workflow(run_id, session) => request.owner.run() == Some(run_id) && of_session(
            request,
            session,
        ),
        ScopeView::Everything(session) => request.parent_session_id@ == session,
        ScopeView::All => true,
    }
}

/// Whether an optional text is the given one.
pub fn is_text(o: &Option<String>, s: &str) -> (r: bool)
    ensures
        r == (option_view(*o) == Some(s@)),
{
    match o {
        Some(t) => same_text(t.as_str(), s),
        None => false,
    }
}

impl Scope {
    /// Whether a request is in the scope.
    pub fn holds(&self, request: &SubagentRequest) -> (r: bool)
        ensures
            r == covers(self@, *request),
    {
        match self {
            Scope::Id { id, session } => same_text(request.id.as_str(), id.as_str())
                && belongs_to_session(request, session),
            Scope::Prompt { prompt_id, session } => is_text(
                &request.parent_prompt_id,
                prompt_id.as_str(),
            ) && belongs_to_session(request, session),
            Scope::Turn { session, prompt_id } => same_text(
                request.parent_session_id.as_str(),
                session.as_str(),
            ) && is_text(&request.parent_prompt_id, prompt_id.as_str())
                && !request.owner.is_workflow(),
            Scope::Session { session } => same_text(
                request.parent_session_id.as_str(),
                session.as_str(),
            ) && !request.owner.is_workflow(),
            Scope::Workflow { run_id, session } => request.owner.is_run(run_id.as_str())
                && belongs_to_session(request, session),
            Scope::Everything { session } => same_text(
                request.parent_session_id.as_str(),
                session.as_str(),
            ),
            Scope::All => true,
        }
    }
}

/// Some pending child is in a scope.
pub open spec fn some_pending(s: Seq<PendingChild>, scope: ScopeView) -> bool {
    exists|i: int| 0 <= i < s.len() && covers(scope, (#[trigger] s[i]).request)
}

/// Some active child is in a scope.
pub open spec fn some_active(s: Seq<ActiveChild>, scope: ScopeView) -> bool {
    exists|i: int| 0 <= i < s.len() && covers(scope, (#[trigger] s[i]).request)
}

/// Some queued child is in a scope.
pub open spec fn some_queued(s: Seq<QueuedSpawn>, scope: ScopeView) -> bool {
    exists|i: int| 0 <= i < s.len() && covers(scope, (#[trigger] s[i]).request)
}

/// Whether some pending child is in a scope.
pub fn any_pending(v: &Vec<PendingChild>, scope: &Scope) -> (r: bool)
    ensures
        r == some_pending(v@, scope@),
{
    let mut i: usize = 0;
    while i < v.len()
        invariant
            i <= v@.len(),
            forall|j: int| 0 <= j < i ==> !covers(scope@, (#[trigger] v@[j]).request),
        decreases v.len() - i,
    {
        if scope.holds(&v[i].request) {
            return true;
        }
        i += 1;
    }
    false
}

/// Whether some active child is in a scope.
pub fn any_active(v: &Vec<ActiveChild>, scope: &Scope) -> (r: bool)
    ensures
        r == some_active(v@, scope@),
{
    let mut i: usize = 0;
    while i < v.len()
        invariant
            i <= v@.len(),
            forall|j: int| 0 <= j < i ==> !covers(scope@, (#[trigger] v@[j]).request),
        decreases v.len() - i,
    {
        if scope.holds(&v[i].request) {
            return true;
        }
        i += 1;
    }
    false
}

/// Whether some queued child is in a scope.
pub fn any_queued(v: &Vec<QueuedSpawn>, scope: &Scope) -> (r: bool)
    ensures
        r == some_queued(v@, scope@),
{
    let mut i: usize = 0;
    while i < v.len()
        invariant
            i <= v@.len(),
            forall|j: int| 0 <= j < i ==> !covers(scope@, (#[trigger] v@[j]).request),
        decreases v.len() - i,
    {
        if scope.holds(&v[i].request) {
            return true;
        }
        i += 1;
    }
    false
}

/// The children of a session that take up its slots: pending or active, and
/// not of a workflow.
pub open spec fn pending_count(s: Seq<PendingChild>, scope: ScopeView) -> nat
    decreases s.len(),
{
    if s.len() == 0 {
        0
    } else {
        pending_count(s.drop_last(), scope) + (if covers(scope, s.last().request) {
            1nat
        } else {
            0nat
        })
    }
}

/// The active children in a scope.
pub open spec fn active_count(s: Seq<ActiveChild>, scope: ScopeView) -> nat
    decreases s.len(),
{
    if s.len() == 0 {
        0
    } else {
        active_count(s.drop_last(), scope) + (if covers(scope, s.last().request) {
            1nat
        } else {
            0nat
        })
    }
}

impl SubagentCoordinator {
    /// How many pending and active children are in a scope.
    pub open spec fn running(&self, scope: ScopeView) -> nat {
        pending_count(self.pending@, scope) + active_count(self.active@, scope)
    }

    /// How many pending and active children are in a scope.
    pub fn running_in(&self, scope: &Scope) -> (r: u128)
        ensures
            r == self.running(scope@),
    {
        let mut n: u128 = 0;
        let mut i: usize = 0;
        while i < self.pending.len()
            invariant
                i <= self.pending@.len(),
                n <= i,
                n == pending_count(self.pending@.take(i as int), scope@),
            decreases self.pending.len() - i,
        {
            proof {
                assert(self.pending@.take(i as int + 1).drop_last() =~= self.pending@.take(
                    i as int,
                ));
            }
            if scope.holds(&self.pending[i].request) {
                n += 1;
            }
            i += 1;
        }
        proof {
            assert(self.pending@.take(i as int) =~= self.pending@);
        }
        let mut k: usize = 0;
        while k < self.active.len()
            invariant
                k <= self.active@.len(),
                n <= self.pending.len() as u128 + k as u128,
                n == pending_count(self.pending@, scope@) + active_count(
                    self.active@.take(k as int),
                    scope@,
                ),
            decreases self.active.len() - k,
        {
            proof {
                assert(self.active@.take(k as int + 1).drop_last() =~= self.active@.take(k as int));
            }
            if scope.holds(&self.active[k].request) {
                n += 1;
            }
            k += 1;
        }
        proof {
            assert(self.active@.take(k as int) =~= self.active@);
        }
        n
    }

    /// How many children of a session take up its slots. Those of workflows
    /// draw from the pool of their run.
    pub fn session_running_count(&self, parent_session_id: &str) -> (r: u128)
        ensures
            r == self.running(ScopeView::Session(parent_session_id@)),
    {
        self.running_in(&Scope::Session { session: parent_session_id.to_owned() })
    }

    /// Whether any child of a session is pending, active or queued, whoever
    /// asked for it.
    pub fn session_has_children(&self, parent_session_id: &str) -> (r: bool)
        ensures
            r == self.has_children(parent_session_id@),
    {
        let scope: Scope = Scope::Everything { session: parent_session_id.to_owned() };
        any_active(&self.active, &scope) || any_pending(&self.pending, &scope) || any_queued(
            &self.queued,
            &scope,
        )
    }

    /// Some child of a session is pending, active or queued.
    pub open spec fn has_children(&self, session: Seq<char>) -> bool {
        ||| exists|i: int|
            0 <= i < self.active@.len() && (
            #[trigger] self.active@[i]).request.parent_session_id@ == session
        ||| exists|i: int|
            0 <= i < self.pending@.len() && (
            #[trigger] self.pending@[i]).request.parent_session_id@ == session
        ||| exists|i: int|
            0 <= i < self.queued@.len() && (
            #[trigger] self.queued@[i]).request.parent_session_id@ == session
    }
}

} // verus!
