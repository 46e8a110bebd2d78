//! The commands that sessions send to the coordinator.
use vstd::prelude::*;
#[allow(unused_imports)]
use vstd::string::*;

#[allow(unused_imports)]
use crate::coordinator::cancel::{active_signals, pending_signals, queued_ends, queued_outside};
#[allow(unused_imports)]
use crate::coordinator::mailbox::{SendStep, WaitOutcome};
#[allow(unused_imports)]
use crate::coordinator::roster::{
    active_ids, active_refs, completed_refs, foreign_completions, owned_summaries,
};
#[allow(unused_imports)]
use crate::coordinator::state::{ScopeView, SubagentCoordinator, TEARDOWN_DRAIN_MAX_MS};
#[allow(unused_imports)]
use crate::coordinator::types::{
    Action, AgentMailboxIdentity, AgentMailboxMessage, AgentMailboxWaiter, BufferedCompletion,
    ListAgentsOutput, Mail, NativeActivity, NativeAgent, PromptScope, ReplyWaiter,
    SpawnedSubagentRef, SubagentCancelOutcome, SubagentCompletionSummary, SubagentOutstandingReply,
    SubagentRegistryCounts,
};
#[allow(unused_imports)]
use crate::table::{
    Keyed, find, keys_differ, lemma_find, position, put_entry, sorted_from, take_entry, with_entry,
    without,
};
#[allow(unused_imports)]
use crate::text::{drop_text, in_list, lemma_texts_but, option_view, same_text, text_set, texts_but};

verus! {

/// What to cancel.
#[derive(Debug)]
pub enum SubagentCancelTarget {
    SubagentId(String),
    ParentPromptId(String),
    ParentSession,
    WorkflowRunId(String),
}

/// Commands that the host handles with its runner.
#[derive(Debug, Clone, Copy, PartialEq, Eq, Structural)]
pub enum HostCommand {
    Spawn,
    NativeAgent,
    Query,
    ListRunning,
    Inspect,
    ValidateType,
    DescribeType,
}

/// A command.
#[derive(Debug)]
pub enum SubagentEvent {
    Host(HostCommand),
    ListAgents { identity: AgentMailboxIdentity },
    SendAgentMessage { identity: AgentMailboxIdentity, target: String, message: AgentMailboxMessage },
    WaitAgentMessages { identity: AgentMailboxIdentity, timeout_ms: u64, reply: u64 },
    Cancel { target: SubagentCancelTarget, parent_session_id: Option<String>, reply: u64 },
    ListActive { parent_session_id: String },
    Completions { parent_session_id: Option<String>, suppress_ids: Vec<String> },
    TeardownSession { parent_session_id: String, reply: Option<u64> },
    OpenSpawnAdmission { parent_session_id: String },
    Outstanding { parent_session_id: String, prompt_id: String },
    ClearUsageNotApplied { parent_session_id: String, prompt_id: String },
    MarkUsageNotApplied { parent_session_id: String, prompt_id: String },
    RegistryCounts,
    SpawnedRefs { parent_session_id: String, prompt_id: String },
    LoopUnitActive { task_id: String },
}

/// The answer to a command.
#[derive(Debug)]
pub enum CommandReply {
    /// The host goes on.
    Host(HostCommand),
    Agents(ListAgentsOutput),
    Sent(SendStep),
    Waited(WaitOutcome),
    Cancelled(SubagentCancelOutcome),
    /// The answer comes later.
    Later,
    ActiveIds(Vec<String>),
    Completions(Vec<SubagentCompletionSummary>),
    Outstanding(SubagentOutstandingReply),
    Counts(SubagentRegistryCounts),
    Refs(Vec<SpawnedSubagentRef>),
    LoopActive(bool),
    Done,
}

// ---- taking down a session ----

/// The summaries for other sessions.
pub open spec fn completions_but(s: Seq<BufferedCompletion>, session: Seq<char>) -> Seq<
    BufferedCompletion,
> {
    foreign_completions(s, Some(session))
}

/// The mail of other teams.
pub open spec fn mail_of_others(s: Seq<Mail>, team: Seq<char>) -> Seq<Mail>
    decreases s.len(),
{
    if s.len() == 0 {
        Seq::empty()
    } else if s.last().team_scope_id@ == team {
        mail_of_others(s.drop_last(), team)
    } else {
        mail_of_others(s.drop_last(), team).push(s.last())
    }
}

/// The waiters of other teams.
pub open spec fn waiters_of_others(s: Seq<AgentMailboxWaiter>, team: Seq<char>) -> Seq<
    AgentMailboxWaiter,
>
    decreases s.len(),
{
    if s.len() == 0 {
        Seq::empty()
    } else if s.last().team_scope_id@ == team {
        waiters_of_others(s.drop_last(), team)
    } else {
        waiters_of_others(s.drop_last(), team).push(s.last())
    }
}

/// The answers to the waiters of a team that is gone.
pub open spec fn closed_waiters(s: Seq<AgentMailboxWaiter>, team: Seq<char>) -> Seq<Action>
    decreases s.len(),
{
    if s.len() == 0 {
        Seq::empty()
    } else if s.last().team_scope_id@ == team {
        closed_waiters(s.drop_last(), team).push(
            Action::NoMail { reply: s.last().reply, timed_out: true },
        )
    } else {
        closed_waiters(s.drop_last(), team)
    }
}

/// The native agents of other teams.
pub open spec fn natives_of_others(s: Seq<NativeAgent>, team: Seq<char>) -> Seq<NativeAgent>
    decreases s.len(),
{
    if s.len() == 0 {
        Seq::empty()
    } else if s.last().team_scope_id@ == team {
        natives_of_others(s.drop_last(), team)
    } else {
        natives_of_others(s.drop_last(), team).push(s.last())
    }
}

/// What happened in other native teams.
pub open spec fn activity_of_others(s: Seq<NativeActivity>, team: Seq<char>) -> Seq<NativeActivity>
    decreases s.len(),
{
    if s.len() == 0 {
        Seq::empty()
    } else if s.last().team_scope_id@ == team {
        activity_of_others(s.drop_last(), team)
    } else {
        activity_of_others(s.drop_last(), team).push(s.last())
    }
}

fn drop_mail(v: &mut Vec<Mail>, team: &str)
    ensures
        final(v)@ == mail_of_others(old(v)@, team@),
{
    let ghost all = v@;
    let ghost n = 0int;
    let mut kept: Vec<Mail> = Vec::new();
    proof {
        assert(all.skip(0) =~= all);
    }
    while v.len() > 0
        invariant
            0 <= n <= all.len(),
            v@ == all.skip(n),
            kept@ == mail_of_others(all.take(n), team@),
        decreases v.len(),
    {
        let m: Mail = v.remove(0);
        proof {
            assert(all.take(n + 1).drop_last() =~= all.take(n));
            assert(v@ =~= all.skip(n + 1));
            n = n + 1;
        }
        if !same_text(m.team_scope_id.as_str(), team) {
            kept.push(m);
        }
    }
    proof {
        assert(all.take(n) =~= all);
    }
    *v = kept;
}

proof fn lemma_others_keys(s: Seq<AgentMailboxWaiter>, team: Seq<char>)
    requires
        keys_differ(s),
    ensures
        keys_differ(waiters_of_others(s, team)),
        forall|i: int|
            0 <= i < waiters_of_others(s, team).len() ==> s.contains(
                #[trigger] waiters_of_others(s, team)[i],
            ),
    decreases s.len(),
{
    if s.len() > 0 {
        let short = s.drop_last();
        assert(keys_differ(short)) by {
            assert forall|i: int, j: int| 0 <= i < j < short.len() implies (
            #[trigger] short[i]).key() != (#[trigger] short[j]).key() by {
                assert(s[i].key() != s[j].key());
            }
        }
        lemma_others_keys(short, team);
        let inner = waiters_of_others(short, team);
        let out = waiters_of_others(s, team);
        assert forall|i: int| 0 <= i < out.len() implies s.contains(#[trigger] out[i]) by {
            if i < inner.len() {
                assert(out[i] == inner[i]);
                let k = choose|k: int| 0 <= k < short.len() && short[k] == inner[i];
                assert(s[k] == out[i]);
            } else {
                assert(s[s.len() - 1] == out[i]);
            }
        }
        assert forall|i: int, j: int| 0 <= i < j < out.len() implies (#[trigger] out[i]).key() != (
        #[trigger] out[j]).key() by {
            if j < inner.len() {
                assert(inner[i].key() != inner[j].key());
            } else {
                assert(out[i] == inner[i]);
                let k = choose|k: int| 0 <= k < short.len() && short[k] == inner[i];
                assert(s[k].key() != s[s.len() - 1].key());
            }
        }
    }
}

fn drop_waiters(v: &mut Vec<AgentMailboxWaiter>, team: &str) -> (r: Vec<Action>)
    ensures
        final(v)@ == waiters_of_others(old(v)@, team@),
        keys_differ(old(v)@) ==> keys_differ(final(v)@),
        r@ == closed_waiters(old(v)@, team@),
{
    let ghost all = v@;
    let ghost n = 0int;
    let mut kept: Vec<AgentMailboxWaiter> = Vec::new();
    let mut out: Vec<Action> = Vec::new();
    proof {
        assert(all.skip(0) =~= all);
    }
    while v.len() > 0
        invariant
            0 <= n <= all.len(),
            v@ == all.skip(n),
            kept@ == waiters_of_others(all.take(n), team@),
            out@ == closed_waiters(all.take(n), team@),
        decreases v.len(),
    {
        let w: AgentMailboxWaiter = v.remove(0);
        proof {
            assert(all.take(n + 1).drop_last() =~= all.take(n));
            assert(v@ =~= all.skip(n + 1));
            n = n + 1;
        }
        if same_text(w.team_scope_id.as_str(), team) {
            out.push(Action::NoMail { reply: w.reply, timed_out: true });
        } else {
            kept.push(w);
        }
    }
    proof {
        assert(all.take(n) =~= all);
        if keys_differ(all) {
            lemma_others_keys(all, team@);
        }
    }
    *v = kept;
    out
}

fn drop_natives(v: &mut Vec<NativeAgent>, team: &str)
    ensures
        final(v)@ == natives_of_others(old(v)@, team@),
{
    let ghost all = v@;
    let ghost n = 0int;
    let mut kept: Vec<NativeAgent> = Vec::new();
    proof {
        assert(all.skip(0) =~= all);
    }
    while v.len() > 0
        invariant
            0 <= n <= all.len(),
            v@ == all.skip(n),
            kept@ == natives_of_others(all.take(n), team@),
        decreases v.len(),
    {
        let m: NativeAgent = v.remove(0);
        proof {
            assert(all.take(n + 1).drop_last() =~= all.take(n));
            assert(v@ =~= all.skip(n + 1));
            n = n + 1;
        }
        if !same_text(m.team_scope_id.as_str(), team) {
            kept.push(m);
        }
    }
    proof {
        assert(all.take(n) =~= all);
    }
    *v = kept;
}

fn drop_activity(v: &mut Vec<NativeActivity>, team: &str)
    ensures
        final(v)@ == activity_of_others(old(v)@, team@),
{
    let ghost all = v@;
    let ghost n = 0int;
    let mut kept: Vec<NativeActivity> = Vec::new();
    proof {
        assert(all.skip(0) =~= all);
    }
    while v.len() > 0
        invariant
            0 <= n <= all.len(),
            v@ == all.skip(n),
            kept@ == activity_of_others(all.take(n), team@),
        decreases v.len(),
    {
        let m: NativeActivity = v.remove(0);
        proof {
            assert(all.take(n + 1).drop_last() =~= all.take(n));
            assert(v@ =~= all.skip(n + 1));
            n = n + 1;
        }
        if !same_text(m.team_scope_id.as_str(), team) {
            kept.push(m);
        }
    }
    proof {
        assert(all.take(n) =~= all);
    }
    *v = kept;
}

impl SubagentCoordinator {
    /// What taking down a session leaves and asks for: nothing of it is kept,
    /// its children are cancelled, and a caller that deletes it is answered
    /// once they are gone.
    pub open spec fn teardown_post(
        &self,
        before: SubagentCoordinator,
        session: Seq<char>,
        reply: Option<u64>,
        now: u128,
        reply_later: bool,
        actions: Seq<Action>,
    ) -> bool {
        let scope = ScopeView::Everything(session);
        let held = reply is Some && self.has_children(session);
        &&& self.config == before.config
        &&& self.last_queued_reap == before.last_queued_reap
        &&& self.completed == before.completed
        &&& self.completed_order == before.completed_order
        &&& self.waiters == before.waiters
        &&& self.workflow_cancel_waiters == before.workflow_cancel_waiters
        &&& self.usage_not_applied_prompts == before.usage_not_applied_prompts
        &&& self.pending_completions@ == completions_but(before.pending_completions@, session)
        &&& self.mailboxes@ == mail_of_others(before.mailboxes@, session)
        &&& self.native_agents@ == natives_of_others(before.native_agents@, session)
        &&& self.native_loaded@ == texts_but(before.native_loaded@, session)
        &&& self.native_activity@ == activity_of_others(before.native_activity@, session)
        &&& self.native_waiters@ == waiters_of_others(before.native_waiters@, session)
        &&& self.mailbox_waiters@ == waiters_of_others(before.mailbox_waiters@, session)
        &&& self.children_cancelled(before, scope, true)
        &&& self.queued@ == queued_outside(before.queued@, scope)
        &&& reply_later == held
        &&& actions == closed_waiters(before.mailbox_waiters@, session) + active_signals(
            before.active@,
            scope,
        ) + pending_signals(before.pending@, scope) + queued_ends(before.queued@, scope, true)
        &&& if held {
            &&& text_set(self.spawn_blocked_sessions@) == text_set(
                before.spawn_blocked_sessions@,
            ).insert(session)
            &&& find(self.teardown_drains@, (session, ""@)) is Some
            &&& match find(before.teardown_drains@, (session, ""@)) {
                Some(_) => self.teardown_drains@ == before.teardown_drains@,
                None => {
                    &&& self.teardown_drains@.drop_last() == before.teardown_drains@
                    &&& self.teardown_drains@.last().parent_session_id@ == session
                    &&& self.teardown_drains@.last().deadline == now + TEARDOWN_DRAIN_MAX_MS
                },
            }
            &&& self.drain_waiters@.len() == before.drain_waiters@.len() + 1
            &&& self.drain_waiters@.drop_last() == before.drain_waiters@
            &&& self.drain_waiters@.last().subject@ == session
            &&& Some(self.drain_waiters@.last().reply) == reply
        } else {
            &&& self.spawn_blocked_sessions == before.spawn_blocked_sessions
            &&& self.teardown_drains == before.teardown_drains
            &&& self.drain_waiters == before.drain_waiters
        }
    }

    /// Takes down a session; says whether the caller is answered later.
    pub fn teardown_session(
        &mut self,
        parent_session_id: &str,
        reply: Option<u64>,
        now: u128,
    ) -> (r: (bool, Vec<Action>))
        requires
            now + TEARDOWN_DRAIN_MAX_MS <= u128::MAX,
        ensures
            old(self).wf() ==> final(self).wf(),
            final(self).teardown_post(*old(self), parent_session_id@, reply, now, r.0, r.1@),
    {
        let ghost before = *self;
        let none: Vec<String> = Vec::new();
        let _ = self.take_completions(&Some(parent_session_id.to_owned()), &none);
        drop_mail(&mut self.mailboxes, parent_session_id);
        drop_natives(&mut self.native_agents, parent_session_id);
        drop_text(&mut self.native_loaded, parent_session_id);
        drop_activity(&mut self.native_activity, parent_session_id);
        let _ = drop_waiters(&mut self.native_waiters, parent_session_id);
        let mut out: Vec<Action> = drop_waiters(&mut self.mailbox_waiters, parent_session_id);
        let ghost closed = out@;
        let mut ends: Vec<Action> = self.teardown_session_children(parent_session_id);
        out.append(&mut ends);
        let ghost scope = ScopeView::Everything(parent_session_id@);
        proof {
            assert(out@ =~= closed + active_signals(before.active@, scope) + pending_signals(
                before.pending@,
                scope,
            ) + queued_ends(before.queued@, scope, true));
        }
        if let Some(to) = reply {
            if self.session_has_children(parent_session_id) {
                let ghost middle = *self;
                self.begin_teardown_drain(parent_session_id, to, now);
                proof {
                    lemma_find(self.teardown_drains@, (parent_session_id@, ""@));
                    if find(before.teardown_drains@, (parent_session_id@, ""@)) is None {
                        let at = self.teardown_drains@.len() - 1;
                        assert(self.teardown_drains@[at].key() == (parent_session_id@, ""@));
                    }
                    assert(self.has_children(parent_session_id@) == middle.has_children(
                        parent_session_id@,
                    ));
                }
                return (true, out);
            }
        }
        (false, out)
    }

    /// What the reopening of a session's admission leaves: nothing changes
    /// while the session is being deleted.
    pub open spec fn reopen_post(&self, before: SubagentCoordinator, session: Seq<char>) -> bool {
        if find(before.teardown_drains@, (session, ""@)) is Some {
            *self == before
        } else {
            &&& *self == (SubagentCoordinator {
                spawn_blocked_sessions: self.spawn_blocked_sessions,
                ..before
            })
            &&& self.spawn_blocked_sessions@ == texts_but(before.spawn_blocked_sessions@, session)
        }
    }

    /// Lets a session spawn again, unless it is being deleted.
    pub fn open_spawn_admission(&mut self, parent_session_id: &str)
        ensures
            old(self).wf() ==> final(self).wf(),
            final(self).reopen_post(*old(self), parent_session_id@),
    {
        if position(&self.teardown_drains, parent_session_id, "").is_none() {
            drop_text(&mut self.spawn_blocked_sessions, parent_session_id);
        }
    }

    /// What a cancel command leaves, answers and asks for.
    pub open spec fn cancel_post(
        &self,
        before: SubagentCoordinator,
        target: SubagentCancelTarget,
        session: Option<String>,
        reply: u64,
        answer: CommandReply,
        actions: Seq<Action>,
    ) -> bool {
        match target {
            SubagentCancelTarget::SubagentId(id) => match answer {
                CommandReply::Cancelled(outcome) => self.cancel_one_post(
                    before,
                    id@,
                    option_view(session),
                    true,
                    outcome,
                    actions,
                ),
                _ => false,
            },
            SubagentCancelTarget::ParentPromptId(prompt_id) => {
                &&& answer matches CommandReply::Cancelled(SubagentCancelOutcome::Cancelled)
                &&& *self == (SubagentCoordinator {
                    active: self.active,
                    pending: self.pending,
                    queued: self.queued,
                    ..before
                })
                &&& self.scope_cancelled(
                    before,
                    ScopeView::Prompt(prompt_id@, option_view(session)),
                    false,
                    actions,
                )
            },
            SubagentCancelTarget::ParentSession => match session {
                None => {
                    &&& answer matches CommandReply::Cancelled(SubagentCancelOutcome::NotFound)
                    &&& *self == before
                    &&& actions.len() == 0
                },
                Some(id) => {
                    &&& answer matches CommandReply::Cancelled(SubagentCancelOutcome::Cancelled)
                    &&& *self == (SubagentCoordinator {
                        active: self.active,
                        pending: self.pending,
                        queued: self.queued,
                        spawn_blocked_sessions: self.spawn_blocked_sessions,
                        ..before
                    })
                    &&& self.scope_cancelled(before, ScopeView::Session(id@), false, actions)
                    &&& text_set(self.spawn_blocked_sessions@) == text_set(
                        before.spawn_blocked_sessions@,
                    ).insert(id@)
                },
            },
            SubagentCancelTarget::WorkflowRunId(run_id) => {
                let scope = ScopeView::Workflow(run_id@, option_view(session));
                &&& *self == (SubagentCoordinator {
                    active: self.active,
                    pending: self.pending,
                    workflow_cancel_waiters: self.workflow_cancel_waiters,
                    ..before
                })
                &&& self.children_cancelled(before, scope, false)
                &&& actions == active_signals(before.active@, scope) + pending_signals(
                    before.pending@,
                    scope,
                )
                &&& if self.workflow_idle(run_id@) {
                    &&& answer matches CommandReply::Cancelled(SubagentCancelOutcome::Cancelled)
                    &&& self.workflow_cancel_waiters == before.workflow_cancel_waiters
                } else {
                    &&& answer is Later
                    &&& self.workflow_cancel_waiters@ == before.workflow_cancel_waiters@.push(
                        ReplyWaiter { subject: run_id, reply },
                    )
                }
            },
        }
    }

    /// Cancels what a command names.
    pub fn cancel(
        &mut self,
        target: SubagentCancelTarget,
        parent_session_id: &Option<String>,
        reply: u64,
    ) -> (r: (CommandReply, Vec<Action>))
        ensures
            old(self).wf() ==> final(self).wf(),
            final(self).cancel_post(*old(self), target, *parent_session_id, reply, r.0, r.1@),
    {
        match target {
            SubagentCancelTarget::SubagentId(id) => {
                let (outcome, out): (SubagentCancelOutcome, Vec<Action>) = self.cancel_one(
                    id.as_str(),
                    parent_session_id,
                    true,
                );
                (CommandReply::Cancelled(outcome), out)
            },
            SubagentCancelTarget::ParentPromptId(prompt_id) => {
                let out: Vec<Action> = self.cancel_parent_prompt(
                    prompt_id.as_str(),
                    parent_session_id,
                );
                (CommandReply::Cancelled(SubagentCancelOutcome::Cancelled), out)
            },
            SubagentCancelTarget::ParentSession => {
                let (outcome, out): (SubagentCancelOutcome, Vec<Action>) =
                    self.cancel_parent_session(parent_session_id);
                (CommandReply::Cancelled(outcome), out)
            },
            SubagentCancelTarget::WorkflowRunId(run_id) => {
                let out: Vec<Action> = self.cancel_workflow_children(
                    run_id.as_str(),
                    parent_session_id,
                );
                if self.workflow_is_idle(run_id.as_str()) {
                    (CommandReply::Cancelled(SubagentCancelOutcome::Cancelled), out)
                } else {
                    self.workflow_cancel_waiters.push(ReplyWaiter { subject: run_id, reply });
                    (CommandReply::Later, out)
                }
            },
        }
    }

    /// What a command leaves, answers and asks for.
    pub open spec fn command_post(
        &self,
        before: SubagentCoordinator,
        command: SubagentEvent,
        closed: Seq<u64>,
        now: u128,
        answer: CommandReply,
        actions: Seq<Action>,
    ) -> bool {
        match (command, answer) {
            (SubagentEvent::Host(c), CommandReply::Host(d)) => {
                &&& c == d
                &&& *self == before
                &&& actions.len() == 0
            },
            (SubagentEvent::ListAgents { identity }, CommandReply::Agents(output)) => {
                &&& *self == before
                &&& output.team_scope_id == identity.team_scope_id
                &&& before.is_roster(identity.team_scope_id@, output.agents@)
                &&& actions.len() == 0
            },
            (
                SubagentEvent::SendAgentMessage { identity, target, message },
                CommandReply::Sent(step),
            ) => {
                &&& self.send_post(before, identity, target@, message, step)
                &&& actions.len() == 0
            },
            (
                SubagentEvent::WaitAgentMessages { identity, timeout_ms, reply },
                CommandReply::Waited(outcome),
            ) => {
                &&& self.wait_post(
                    before,
                    (identity.team_scope_id@, identity.agent_id@),
                    timeout_ms,
                    reply,
                    now,
                    outcome,
                )
                &&& actions.len() == 0
            },
            (SubagentEvent::Cancel { target, parent_session_id, reply }, _) => self.cancel_post(
                before,
                target,
                parent_session_id,
                reply,
                answer,
                actions,
            ),
            (SubagentEvent::ListActive { parent_session_id }, CommandReply::ActiveIds(ids)) => {
                &&& *self == before
                &&& ids@ == active_ids(before.active@, ScopeView::Session(parent_session_id@))
                &&& actions.len() == 0
            },
            (
                SubagentEvent::Completions { parent_session_id, suppress_ids },
                CommandReply::Completions(summaries),
            ) => {
                &&& *self == (SubagentCoordinator {
                    pending_completions: self.pending_completions,
                    ..before
                })
                &&& self.pending_completions@ == foreign_completions(
                    before.pending_completions@,
                    option_view(parent_session_id),
                )
                &&& summaries@ == owned_summaries(
                    before.pending_completions@,
                    option_view(parent_session_id),
                    suppress_ids@,
                )
                &&& actions.len() == 0
            },
            (SubagentEvent::TeardownSession { parent_session_id, reply }, _) => {
                &&& answer is Later || answer is Done
                &&& self.teardown_post(
                    before,
                    parent_session_id@,
                    reply,
                    now,
                    answer is Later,
                    actions,
                )
            },
            (SubagentEvent::OpenSpawnAdmission { parent_session_id }, CommandReply::Done) => {
                &&& self.reopen_post(before, parent_session_id@)
                &&& actions.len() == 0
            },
            (
                SubagentEvent::Outstanding { parent_session_id, prompt_id },
                CommandReply::Outstanding(reply),
            ) => {
                let turn = ScopeView::Turn(parent_session_id@, prompt_id@);
                &&& self.reap_post(before, closed, now, actions)
                &&& sorted_from(reply.live_ids@, self.live_in_foreground(turn))
                &&& reply.background_live == self.live_in_background(turn)
                &&& reply.subagent_usage_not_applied == (find(
                    before.usage_not_applied_prompts@,
                    (parent_session_id@, prompt_id@),
                ) is Some)
            },
            (
                SubagentEvent::ClearUsageNotApplied { parent_session_id, prompt_id },
                CommandReply::Done,
            ) => {
                &&& *self == (SubagentCoordinator {
                    usage_not_applied_prompts: self.usage_not_applied_prompts,
                    ..before
                })
                &&& self.usage_not_applied_prompts@ == without(
                    before.usage_not_applied_prompts@,
                    (parent_session_id@, prompt_id@),
                )
                &&& actions.len() == 0
            },
            (
                SubagentEvent::MarkUsageNotApplied { parent_session_id, prompt_id },
                CommandReply::Done,
            ) => {
                &&& *self == (SubagentCoordinator {
                    usage_not_applied_prompts: self.usage_not_applied_prompts,
                    ..before
                })
                &&& self.usage_not_applied_prompts@ == with_entry(
                    before.usage_not_applied_prompts@,
                    PromptScope { parent_session_id, prompt_id },
                )
                &&& actions.len() == 0
            },
            (SubagentEvent::RegistryCounts, CommandReply::Counts(counts)) => {
                &&& *self == before
                &&& counts.pending == before.pending@.len()
                &&& counts.active == before.active@.len()
                &&& counts.completed == before.completed@.len()
                &&& counts.queued == before.queued@.len()
                &&& actions.len() == 0
            },
            (
                SubagentEvent::SpawnedRefs { parent_session_id, prompt_id },
                CommandReply::Refs(refs),
            ) => {
                let prompt = ScopeView::Prompt(prompt_id@, Some(parent_session_id@));
                &&& *self == before
                &&& sorted_from(
                    refs@,
                    active_refs(before.active@, prompt) + completed_refs(before.completed@, prompt),
                )
                &&& actions.len() == 0
            },
            (SubagentEvent::LoopUnitActive { task_id }, CommandReply::LoopActive(b)) => {
                &&& *self == before
                &&& b == before.loop_active(task_id@)
                &&& actions.len() == 0
            },
            _ => false,
        }
    }

    /// Handles a command. `closed` are the channels whose other end is gone.
    pub fn handle_command(&mut self, command: SubagentEvent, closed: &Vec<u64>, now: u128) -> (r: (
        CommandReply,
        Vec<Action>,
    ))
        requires
            now + u64::MAX <= u128::MAX,
        ensures
            old(self).wf() ==> final(self).wf(),
            final(self).command_post(*old(self), command, closed@, now, r.0, r.1@),
    {
        match command {
            SubagentEvent::Host(c) => (CommandReply::Host(c), Vec::new()),
            SubagentEvent::ListAgents { identity } => (
                CommandReply::Agents(self.list_agents(&identity)),
                Vec::new(),
            ),
            SubagentEvent::SendAgentMessage { identity, target, message } => (
                CommandReply::Sent(self.send_agent_message(&identity, target.as_str(), message)),
                Vec::new(),
            ),
            SubagentEvent::WaitAgentMessages { identity, timeout_ms, reply } => (
                CommandReply::Waited(
                    self.wait_agent_messages(&identity, timeout_ms, reply, now),
                ),
                Vec::new(),
            ),
            SubagentEvent::Cancel { target, parent_session_id, reply } => self.cancel(
                target,
                &parent_session_id,
                reply,
            ),
            SubagentEvent::ListActive { parent_session_id } => (
                CommandReply::ActiveIds(self.list_active(parent_session_id.as_str())),
                Vec::new(),
            ),
            SubagentEvent::Completions { parent_session_id, suppress_ids } => (
                CommandReply::Completions(
                    self.take_completions(&parent_session_id, &suppress_ids),
                ),
                Vec::new(),
            ),
            SubagentEvent::TeardownSession { parent_session_id, reply } => {
                let (later, out): (bool, Vec<Action>) = self.teardown_session(
                    parent_session_id.as_str(),
                    reply,
                    now,
                );
                if later {
                    (CommandReply::Later, out)
                } else {
                    (CommandReply::Done, out)
                }
            },
            SubagentEvent::OpenSpawnAdmission { parent_session_id } => {
                self.open_spawn_admission(parent_session_id.as_str());
                (CommandReply::Done, Vec::new())
            },
            SubagentEvent::Outstanding { parent_session_id, prompt_id } => {
                let out: Vec<Action> = self.reap_abandoned_callers(closed, now);
                (
                    CommandReply::Outstanding(
                        self.outstanding(parent_session_id.as_str(), prompt_id.as_str()),
                    ),
                    out,
                )
            },
            SubagentEvent::ClearUsageNotApplied { parent_session_id, prompt_id } => {
                let _ = take_entry(
                    &mut self.usage_not_applied_prompts,
                    parent_session_id.as_str(),
                    prompt_id.as_str(),
                );
                (CommandReply::Done, Vec::new())
            },
            SubagentEvent::MarkUsageNotApplied { parent_session_id, prompt_id } => {
                let a: String = parent_session_id.clone();
                let b: String = prompt_id.clone();
                let _ = put_entry(
                    &mut self.usage_not_applied_prompts,
                    PromptScope { parent_session_id, prompt_id },
                    a.as_str(),
                    b.as_str(),
                );
                (CommandReply::Done, Vec::new())
            },
            SubagentEvent::RegistryCounts => (
                CommandReply::Counts(self.registry_counts()),
                Vec::new(),
            ),
            SubagentEvent::SpawnedRefs { parent_session_id, prompt_id } => (
                CommandReply::Refs(
                    self.spawned_refs(parent_session_id.as_str(), prompt_id.as_str()),
                ),
                Vec::new(),
            ),
            SubagentEvent::LoopUnitActive { task_id } => (
                CommandReply::LoopActive(self.loop_unit_active(task_id.as_str())),
                Vec::new(),
            ),
        }
    }
}

// ---- laws ----

/// A stopped session stays stopped while it is being deleted: reopening its
/// admission changes nothing.
pub proof fn law_no_reopening_while_deleting(
    before: SubagentCoordinator,
    after: SubagentCoordinator,
    session: Seq<char>,
)
    requires
        find(before.teardown_drains@, (session, ""@)) is Some,
        in_list(before.spawn_blocked_sessions@, session),
        after.reopen_post(before, session),
    ensures
        in_list(after.spawn_blocked_sessions@, session),
{
}

/// After the reopening of its admission, a session that is not being deleted
/// may spawn, and no other session is touched.
pub proof fn law_reopening_is_for_one_session(
    before: SubagentCoordinator,
    after: SubagentCoordinator,
    session: Seq<char>,
    other: Seq<char>,
)
    requires
        find(before.teardown_drains@, (session, ""@)) is None,
        after.reopen_post(before, session),
        other != session,
    ensures
        !in_list(after.spawn_blocked_sessions@, session),
        in_list(after.spawn_blocked_sessions@, other) == in_list(
            before.spawn_blocked_sessions@,
            other,
        ),
{
    lemma_texts_but(before.spawn_blocked_sessions@, session);
    assert(text_set(after.spawn_blocked_sessions@) == text_set(
        before.spawn_blocked_sessions@,
    ).remove(session));
    assert(!text_set(after.spawn_blocked_sessions@).contains(session));
    assert(text_set(after.spawn_blocked_sessions@).contains(other) == text_set(
        before.spawn_blocked_sessions@,
    ).contains(other));
}

/// A session that was stopped cannot wake a finished child: every attempt is
/// refused.
pub proof fn law_stopped_session_wakes_nobody(
    before: SubagentCoordinator,
    after: SubagentCoordinator,
    session: String,
    reply: u64,
    answer: CommandReply,
    actions: Seq<Action>,
    id: Seq<char>,
    supports_wake: bool,
)
    requires
        after.cancel_post(
            before,
            SubagentCancelTarget::ParentSession,
            Some(session),
            reply,
            answer,
            actions,
        ),
    ensures
        after.wake_refusal(id, session@, supports_wake) is Some,
{
    assert(text_set(after.spawn_blocked_sessions@).contains(session@));
}

/// A finished child stays in place whatever is cancelled: only its status is
/// told.
pub proof fn law_cancelling_keeps_finished_children(
    before: SubagentCoordinator,
    after: SubagentCoordinator,
    target: SubagentCancelTarget,
    session: Option<String>,
    reply: u64,
    answer: CommandReply,
    actions: Seq<Action>,
)
    requires
        after.cancel_post(before, target, session, reply, answer, actions),
    ensures
        after.completed == before.completed,
        after.completed_order == before.completed_order,
{
}

} // verus!
