//! The life of a child: it starts, reports, finishes, and is forgotten.
use vstd::prelude::*;
#[allow(unused_imports)]
use vstd::string::*;

#[allow(unused_imports)]
use crate::coordinator::cancel::{waiter_answers, waiters_but};
#[allow(unused_imports)]
use crate::coordinator::state::{
    Scope, ScopeView, SubagentCoordinator, any_queued, covers, some_queued,
};
#[allow(unused_imports)]
use crate::coordinator::types::{
    Action, ActiveChild, BlockingWaiter, BufferedCompletion, CompletedChild, CompletionDisposition,
    NativeAgent, PendingChild, ResultView, SubagentCompletionSummary, SubagentOwner,
    SubagentRequest, SubagentResult, SubagentResumeLookup, SubagentResumeSource, WakeOrigin,
    bare_result,
};
#[allow(unused_imports)]
use crate::table::{
    Key, Keyed, find, keys_differ, lemma_find, lemma_with_entry, lemma_without, lookup, position,
    put_entry, take_entry, with_entry, without,
};
#[allow(unused_imports)]
use crate::text::{copy_option, same_text, texts_but};

verus! {

/// How many summaries wait to be read; the oldest go first.
pub const MAX_PENDING_COMPLETIONS: usize = 256;

/// How a child comes to start.
#[derive(Debug, Clone, Copy)]
pub enum StartOrigin {
    /// At once. Its caller waits in the foreground or not.
    Direct { awaits_in_foreground: bool },
    /// From the queue, with the deadline of its caller.
    Dequeued { queued_for_ms: u128, deadline: Option<u128> },
}

/// What a child reports at its start.
#[derive(Debug)]
pub struct StartedChild {
    pub child_session_id: String,
    pub persona: Option<String>,
    pub resumed_from: Option<String>,
    pub child_cwd: String,
    pub worktree_path: Option<String>,
    pub effective_model_id: String,
    pub definition_background: bool,
}

/// What a child leaves at its end.
#[derive(Debug)]
pub struct ChildRunOutput {
    pub result: SubagentResult,
    pub snapshot_ref: Option<String>,
    /// Where the host keeps the output, if it does.
    pub persisted_output_ref: Option<String>,
    /// The output as it is kept in a summary.
    pub buffered_output: String,
}

/// An event from a child.
#[derive(Debug)]
pub enum InternalEvent {
    /// A child reports its start. `token_cancelled` says whether the token of
    /// its request is cancelled by now.
    Started { subagent_id: String, child: StartedChild, token_cancelled: bool },
    /// A child asks what it is to continue.
    ResumeSource { source_id: String, parent_session_id: String },
}

/// The answer to an event from a child.
#[derive(Debug)]
pub enum InternalReply {
    Started { accepted: bool, actions: Vec<Action> },
    Lookup(SubagentResumeLookup),
}

// ---- starting ----

impl SubagentCoordinator {
    /// What starting a child leaves and asks for.
    pub open spec fn start_post(
        &self,
        before: SubagentCoordinator,
        request: SubagentRequest,
        spawn_reply: Option<u64>,
        origin: StartOrigin,
        wake_origin: Option<WakeOrigin>,
        now: u128,
        actions: Seq<Action>,
    ) -> bool {
        let child = PendingChild {
            request,
            started_at: now,
            cancelled: false,
            spawn_reply,
            foreground_deadline: match origin {
                StartOrigin::Direct { awaits_in_foreground } => if spawn_reply is Some
                    && awaits_in_foreground {
                    Some((now + before.config.foreground_budget_ms) as u128)
                } else {
                    None
                },
                StartOrigin::Dequeued { deadline, .. } => deadline,
            },
            handle_only: request.run_in_background || spawn_reply is None,
            explicitly_killed: false,
        };
        &&& *self == (SubagentCoordinator { pending: self.pending, ..before })
        &&& self.pending@ == with_entry(before.pending@, child)
        &&& actions == seq![
            Action::ReportRunning {
                count: (self.pending@.len() + self.active@.len()) as u128,
            },
            Action::Run {
                request,
                queued_for_ms: match origin {
                    StartOrigin::Direct { .. } => None,
                    StartOrigin::Dequeued { queued_for_ms, .. } => Some(queued_for_ms),
                },
                session_running: self.running(
                    ScopeView::Session(request.parent_session_id@),
                ) as u128,
                wake_origin,
            },
        ]
    }

    /// Starts a child. A child without a channel to its caller, whose caller
    /// was handed off while it was queued, runs in the background. The count of
    /// the session's children includes the new one.
    pub fn start_child(
        &mut self,
        request: SubagentRequest,
        spawn_reply: Option<u64>,
        origin: StartOrigin,
        wake_origin: Option<WakeOrigin>,
        now: u128,
    ) -> (r: Vec<Action>)
        requires
            now + old(self).config.foreground_budget_ms <= u128::MAX,
        ensures
            old(self).wf() ==> final(self).wf(),
            final(self).start_post(
                *old(self),
                request,
                spawn_reply,
                origin,
                wake_origin,
                now,
                r@,
            ),
    {
        let handle_only: bool = request.run_in_background || spawn_reply.is_none();
        let (queued_for_ms, foreground_deadline): (Option<u128>, Option<u128>) = match origin {
            StartOrigin::Direct { awaits_in_foreground } => {
                if spawn_reply.is_some() && awaits_in_foreground {
                    (None, Some(now + self.config.foreground_budget_ms as u128))
                } else {
                    (None, None)
                }
            },
            StartOrigin::Dequeued { queued_for_ms, deadline } => (Some(queued_for_ms), deadline),
        };
        let id: String = request.id.clone();
        let child: PendingChild = PendingChild {
            request: request.duplicate(),
            started_at: now,
            cancelled: false,
            spawn_reply,
            foreground_deadline,
            handle_only,
            explicitly_killed: false,
        };
        let _ = put_entry(&mut self.pending, child, id.as_str(), "");
        let session_running: u128 = self.session_running_count(request.parent_session_id.as_str());
        let mut out: Vec<Action> = Vec::new();
        out.push(
            Action::ReportRunning {
                count: self.pending.len() as u128 + self.active.len() as u128,
            },
        );
        out.push(Action::Run { request, queued_for_ms, session_running, wake_origin });
        proof {
            assert(out@ =~= seq![
                Action::ReportRunning {
                    count: (self.pending@.len() + self.active@.len()) as u128,
                },
                Action::Run {
                    request,
                    queued_for_ms: match origin {
                        StartOrigin::Direct { .. } => None,
                        StartOrigin::Dequeued { queued_for_ms, .. } => Some(queued_for_ms),
                    },
                    session_running: self.running(
                        ScopeView::Session(request.parent_session_id@),
                    ) as u128,
                    wake_origin,
                },
            ]);
        }
        out
    }

    /// The start of a child is refused, and nothing changes: the child is not
    /// pending, or it was cancelled, here or through the token of its request.
    pub open spec fn start_refused(&self, id: Seq<char>, token_cancelled: bool) -> bool {
        match lookup(self.pending@, (id, ""@)) {
            None => true,
            Some(c) => c.cancelled || token_cancelled,
        }
    }

    /// What the report of a start leaves and asks for.
    pub open spec fn started_post(
        &self,
        before: SubagentCoordinator,
        id: Seq<char>,
        child: StartedChild,
        token_cancelled: bool,
        accepted: bool,
        actions: Seq<Action>,
    ) -> bool {
        if before.start_refused(id, token_cancelled) {
            &&& !accepted
            &&& *self == before
            &&& actions.len() == 0
        } else {
            let p = lookup(before.pending@, (id, ""@))->0;
            let answered = p.request.native_agent && p.handle_only && p.spawn_reply is Some;
            let a = ActiveChild {
                request: p.request,
                started_at: p.started_at,
                cancelled: p.cancelled,
                spawn_reply: if answered {
                    None
                } else {
                    p.spawn_reply
                },
                foreground_deadline: p.foreground_deadline,
                handle_only: p.handle_only,
                definition_background: child.definition_background,
                explicitly_killed: p.explicitly_killed,
                child_session_id: child.child_session_id,
                persona: child.persona,
                resumed_from: child.resumed_from,
                child_cwd: child.child_cwd,
                worktree_path: child.worktree_path,
                effective_model_id: child.effective_model_id,
            };
            &&& accepted
            &&& *self == (SubagentCoordinator {
                pending: self.pending,
                active: self.active,
                ..before
            })
            &&& self.pending@ == without(before.pending@, (id, ""@))
            &&& self.active@ == with_entry(before.active@, a)
            &&& if answered {
                &&& actions.len() == 1
                &&& match actions[0] {
                    Action::AnswerSpawn { reply, result } => {
                        &&& Some(reply) == p.spawn_reply
                        &&& result@ == (ResultView {
                            success: true,
                            backgrounded: true,
                            ..bare_result(id, child.child_session_id@)
                        })
                    },
                    _ => false,
                }
            } else {
                actions.len() == 0
            }
        }
    }

    fn child_started(
        &mut self,
        subagent_id: &str,
        child: StartedChild,
        token_cancelled: bool,
    ) -> (r: (bool, Vec<Action>))
        ensures
            old(self).wf() ==> final(self).wf(),
            final(self).started_post(
                *old(self),
                subagent_id@,
                child,
                token_cancelled,
                r.0,
                r.1@,
            ),
    {
        proof {
            lemma_find(self.pending@, (subagent_id@, ""@));
        }
        let mut out: Vec<Action> = Vec::new();
        match position(&self.pending, subagent_id, "") {
            None => (false, out),
            Some(i) => {
                if self.pending[i].cancelled || token_cancelled {
                    return (false, out);
                }
                let mut p: PendingChild = match take_entry(&mut self.pending, subagent_id, "") {
                    Some(p) => p,
                    None => {
                        return (false, out);
                    },
                };
                if p.request.native_agent && p.handle_only {
                    if let Some(reply) = p.spawn_reply {
                        let mut result: SubagentResult = SubagentResult::bare(
                            subagent_id,
                            child.child_session_id.as_str(),
                        );
                        result.success = true;
                        result.backgrounded = true;
                        out.push(Action::AnswerSpawn { reply, result });
                        p.spawn_reply = None;
                    }
                }
                let active: ActiveChild = ActiveChild {
                    request: p.request,
                    started_at: p.started_at,
                    cancelled: p.cancelled,
                    spawn_reply: p.spawn_reply,
                    foreground_deadline: p.foreground_deadline,
                    handle_only: p.handle_only,
                    definition_background: child.definition_background,
                    explicitly_killed: p.explicitly_killed,
                    child_session_id: child.child_session_id,
                    persona: child.persona,
                    resumed_from: child.resumed_from,
                    child_cwd: child.child_cwd,
                    worktree_path: child.worktree_path,
                    effective_model_id: child.effective_model_id,
                };
                let _ = put_entry(&mut self.active, active, subagent_id, "");
                (true, out)
            },
        }
    }

    /// What is known of a child that another is to continue: a queued child
    /// counts as running.
    pub open spec fn resume_lookup(&self, id: Seq<char>, session: Seq<char>) -> SubagentResumeLookup {
        let k: Key = (id, ""@);
        let scope = ScopeView::Id(id, Some(session));
        if (lookup(self.pending@, k) is Some && covers(
            scope,
            lookup(self.pending@, k)->0.request,
        )) || (lookup(self.active@, k) is Some && covers(
            scope,
            lookup(self.active@, k)->0.request,
        )) || some_queued(self.queued@, scope) {
            SubagentResumeLookup::Active
        } else {
            match lookup(self.completed@, k) {
                Some(c) if c.request.parent_session_id@ == session =>
                    SubagentResumeLookup::Completed(
                    SubagentResumeSource {
                        subagent_id: c.request.id,
                        child_session_id: c.child_session_id,
                        child_cwd: c.child_cwd,
                        worktree_path: c.worktree_path,
                        snapshot_ref: c.snapshot_ref,
                        subagent_type: c.request.subagent_type,
                        persona: c.persona,
                        model_id: Some(c.effective_model_id),
                    },
                ),
                _ => SubagentResumeLookup::Missing,
            }
        }
    }

    /// Looks up a child that another is to continue.
    pub fn resume_source(&self, source_id: &str, parent_session_id: &str) -> (r:
        SubagentResumeLookup)
        ensures
            r == self.resume_lookup(source_id@, parent_session_id@),
    {
        let scope: Scope = Scope::Id {
            id: source_id.to_owned(),
            session: Some(parent_session_id.to_owned()),
        };
        if let Some(i) = position(&self.pending, source_id, "") {
            if scope.holds(&self.pending[i].request) {
                return SubagentResumeLookup::Active;
            }
        }
        if let Some(i) = position(&self.active, source_id, "") {
            if scope.holds(&self.active[i].request) {
                return SubagentResumeLookup::Active;
            }
        }
        if any_queued(&self.queued, &scope) {
            return SubagentResumeLookup::Active;
        }
        match position(&self.completed, source_id, "") {
            Some(i) => {
                let c: &CompletedChild = &self.completed[i];
                if same_text(c.request.parent_session_id.as_str(), parent_session_id) {
                    SubagentResumeLookup::Completed(
                        SubagentResumeSource {
                            subagent_id: c.request.id.clone(),
                            child_session_id: c.child_session_id.clone(),
                            child_cwd: c.child_cwd.clone(),
                            worktree_path: copy_option(&c.worktree_path),
                            snapshot_ref: copy_option(&c.snapshot_ref),
                            subagent_type: c.request.subagent_type.clone(),
                            persona: copy_option(&c.persona),
                            model_id: Some(c.effective_model_id.clone()),
                        },
                    )
                } else {
                    SubagentResumeLookup::Missing
                }
            },
            None => SubagentResumeLookup::Missing,
        }
    }

    /// Handles an event from a child. After an accepted start the host offers
    /// the child its mail.
    pub fn handle_internal(&mut self, event: InternalEvent) -> (r: InternalReply)
        ensures
            old(self).wf() ==> final(self).wf(),
            match (event, r) {
                (
                    InternalEvent::Started { subagent_id, child, token_cancelled },
                    InternalReply::Started { accepted, actions },
                ) => final(self).started_post(
                    *old(self),
                    subagent_id@,
                    child,
                    token_cancelled,
                    accepted,
                    actions@,
                ),
                (
                    InternalEvent::ResumeSource { source_id, parent_session_id },
                    InternalReply::Lookup(found),
                ) => *final(self) == *old(self) && found == old(self).resume_lookup(
                    source_id@,
                    parent_session_id@,
                ),
                _ => false,
            },
    {
        match event {
            InternalEvent::Started { subagent_id, child, token_cancelled } => {
                let (accepted, actions): (bool, Vec<Action>) = self.child_started(
                    subagent_id.as_str(),
                    child,
                    token_cancelled,
                );
                InternalReply::Started { accepted, actions }
            },
            InternalEvent::ResumeSource { source_id, parent_session_id } => InternalReply::Lookup(
                self.resume_source(source_id.as_str(), parent_session_id.as_str()),
            ),
        }
    }
}

// ---- finishing ----

/// A channel is still open.
pub open spec fn open_reply(reply: u64, closed: Seq<u64>) -> bool {
    !closed.contains(reply)
}

/// Whether a channel is still open.
pub fn is_open(reply: u64, closed: &Vec<u64>) -> (r: bool)
    ensures
        r == open_reply(reply, closed@),
{
    let mut i: usize = 0;
    while i < closed.len()
        invariant
            i <= closed@.len(),
            forall|j: int| 0 <= j < i ==> closed@[j] != reply,
        decreases closed.len() - i,
    {
        if closed[i] == reply {
            proof {
                assert(closed@.contains(reply));
            }
            return false;
        }
        i += 1;
    }
    true
}

/// The waiters for other children.
pub open spec fn waiting_but(s: Seq<BlockingWaiter>, id: Seq<char>) -> Seq<BlockingWaiter>
    decreases s.len(),
{
    if s.len() == 0 {
        Seq::empty()
    } else if s.last().subagent_id@ == id {
        waiting_but(s.drop_last(), id)
    } else {
        waiting_but(s.drop_last(), id).push(s.last())
    }
}

/// The answers to the waiters for a child.
pub open spec fn snapshot_answers(
    s: Seq<BlockingWaiter>,
    id: Seq<char>,
    result: SubagentResult,
) -> Seq<Action>
    decreases s.len(),
{
    if s.len() == 0 {
        Seq::empty()
    } else if s.last().subagent_id@ == id {
        snapshot_answers(s.drop_last(), id, result).push(
            Action::AnswerSnapshot { reply: s.last().reply, id: s.last().subagent_id, result },
        )
    } else {
        snapshot_answers(s.drop_last(), id, result)
    }
}

/// Some waiter for a child is still there.
pub open spec fn waiter_reached(s: Seq<BlockingWaiter>, id: Seq<char>, closed: Seq<u64>) -> bool {
    exists|i: int|
        0 <= i < s.len() && (#[trigger] s[i]).subagent_id@ == id && open_reply(s[i].reply, closed)
}

fn answer_snapshots(
    waiters: &mut Vec<BlockingWaiter>,
    id: &str,
    result: &SubagentResult,
    closed: &Vec<u64>,
) -> (r: (bool, Vec<Action>))
    ensures
        final(waiters)@ == waiting_but(old(waiters)@, id@),
        r.0 == waiter_reached(old(waiters)@, id@, closed@),
        r.1@ == snapshot_answers(old(waiters)@, id@, *result),
{
    let ghost all = waiters@;
    let mut kept: Vec<BlockingWaiter> = Vec::new();
    let mut out: Vec<Action> = Vec::new();
    let mut reached: bool = false;
    let mut i: usize = 0;
    while i < waiters.len()
        invariant
            i <= waiters@.len(),
            waiters@ == all,
            kept@ == waiting_but(all.take(i as int), id@),
            out@ == snapshot_answers(all.take(i as int), id@, *result),
            reached == (exists|j: int|
                0 <= j < i && (#[trigger] all[j]).subagent_id@ == id@ && open_reply(
                    all[j].reply,
                    closed@,
                )),
        decreases waiters.len() - i,
    {
        proof {
            assert(all.take(i as int + 1).drop_last() =~= all.take(i as int));
        }
        let w: &BlockingWaiter = &waiters[i];
        if same_text(w.subagent_id.as_str(), id) {
            out.push(
                Action::AnswerSnapshot {
                    reply: w.reply,
                    id: w.subagent_id.clone(),
                    result: result.duplicate(),
                },
            );
            if is_open(w.reply, closed) {
                reached = true;
            }
        } else {
            kept.push(
                BlockingWaiter {
                    subagent_id: w.subagent_id.clone(),
                    deadline: w.deadline,
                    reply: w.reply,
                },
            );
        }
        i += 1;
    }
    proof {
        assert(all.take(i as int) =~= all);
    }
    *waiters = kept;
    (reached, out)
}

/// The child that finishes: the active one with its id, else the pending one.
pub enum Ending {
    Active(ActiveChild),
    Pending(PendingChild),
}

impl Ending {
    pub open spec fn request(self) -> SubagentRequest {
        match self {
            Ending::Active(c) => c.request,
            Ending::Pending(c) => c.request,
        }
    }

    pub open spec fn spawn_reply(self) -> Option<u64> {
        match self {
            Ending::Active(c) => c.spawn_reply,
            Ending::Pending(c) => c.spawn_reply,
        }
    }

    pub open spec fn handle_only(self) -> bool {
        match self {
            Ending::Active(c) => c.handle_only,
            Ending::Pending(c) => c.handle_only,
        }
    }

    pub open spec fn explicitly_killed(self) -> bool {
        match self {
            Ending::Active(c) => c.explicitly_killed,
            Ending::Pending(c) => c.explicitly_killed,
        }
    }

    /// The caller was reached in the foreground.
    pub open spec fn foreground(self, closed: Seq<u64>) -> bool {
        !self.handle_only() && self.spawn_reply() is Some && open_reply(
            self.spawn_reply()->0,
            closed,
        )
    }

    /// How the end of the child reaches those who asked for it.
    pub open spec fn disposition(
        self,
        result: SubagentResult,
        waiter_delivered: bool,
        closed: Seq<u64>,
    ) -> CompletionDisposition {
        let backgrounded = !self.foreground(closed);
        CompletionDisposition {
            foreground_delivered: self.foreground(closed),
            backgrounded,
            waiter_delivered,
            explicitly_killed: self.explicitly_killed(),
            should_surface: self.request().surface_completion && backgrounded && !result.cancelled
                && !waiter_delivered && !self.explicitly_killed(),
        }
    }

    /// What is remembered of the child. The output is dropped where the host
    /// keeps it.
    pub open spec fn remembered(self, output: ChildRunOutput, c: CompletedChild) -> bool {
        &&& c.request == self.request()
        &&& c.snapshot_ref == output.snapshot_ref
        &&& c.persisted_output_ref == output.persisted_output_ref
        &&& c.result == (SubagentResult { output: c.result.output, ..output.result })
        &&& c.result.output@ == (if output.persisted_output_ref is Some {
            Seq::empty()
        } else {
            output.result.output@
        })
        &&& match self {
            Ending::Active(a) => {
                &&& c.started_at == a.started_at
                &&& c.child_session_id == a.child_session_id
                &&& c.persona == a.persona
                &&& c.resumed_from == a.resumed_from
                &&& c.child_cwd == a.child_cwd
                &&& c.worktree_path == a.worktree_path
                &&& c.effective_model_id == a.effective_model_id
            },
            Ending::Pending(p) => {
                &&& c.started_at == p.started_at
                &&& c.child_session_id == output.result.child_session_id
                &&& c.persona == p.request.persona
                &&& c.resumed_from == p.request.resume_from
                &&& c.child_cwd@ == (match p.request.cwd {
                    Some(cwd) => cwd@,
                    None => Seq::empty(),
                })
                &&& c.worktree_path == output.result.worktree_path
                &&& c.effective_model_id@ == Seq::<char>::empty()
            },
        }
    }
}

/// What is known of a child that was taken out to be finished.
struct Taken {
    request: SubagentRequest,
    completed: CompletedChild,
    spawn_reply: Option<u64>,
    handle_only: bool,
    explicitly_killed: bool,
}

/// The summary of a finished child.
pub open spec fn summary_of(
    request: SubagentRequest,
    result: SubagentResult,
    buffered_output: String,
) -> BufferedCompletion {
    BufferedCompletion {
        parent_session_id: request.parent_session_id,
        summary: SubagentCompletionSummary {
            subagent_id: request.id,
            description: request.description,
            subagent_type: request.subagent_type,
            success: result.success,
            cancelled: result.cancelled,
            output: buffered_output,
            error: result.error,
        },
    }
}

/// The last `n` entries of a list.
pub open spec fn last_of<T>(s: Seq<T>, n: int) -> Seq<T> {
    if s.len() > n {
        s.skip(s.len() - n)
    } else {
        s
    }
}

impl SubagentCoordinator {
    /// The child with an id that has not finished.
    pub open spec fn ending(&self, id: Seq<char>) -> Option<Ending> {
        match lookup(self.active@, (id, ""@)) {
            Some(c) => Some(Ending::Active(c)),
            None => match lookup(self.pending@, (id, ""@)) {
                Some(c) => Some(Ending::Pending(c)),
                None => None,
            },
        }
    }

    /// The answers to those who wait for the end of the child's workflow run.
    pub open spec fn run_answers(
        &self,
        before: SubagentCoordinator,
        owner: SubagentOwner,
    ) -> Seq<Action> {
        match owner.run() {
            Some(run) if self.workflow_idle(run) => waiter_answers(
                before.workflow_cancel_waiters@,
                run,
                false,
            ),
            _ => Seq::empty(),
        }
    }

    /// The hold on a session ends with the child.
    pub open spec fn drain_ends(&self, before: SubagentCoordinator, session: Seq<char>) -> bool {
        find(before.teardown_drains@, (session, ""@)) is Some && !self.has_children(session)
    }

    /// What the end of a child leaves and asks for.
    pub open spec fn finish_post(
        &self,
        before: SubagentCoordinator,
        id: Seq<char>,
        output: ChildRunOutput,
        closed: Seq<u64>,
        actions: Seq<Action>,
    ) -> bool {
        match before.ending(id) {
            None => *self == before && actions.len() == 0,
            Some(e) => {
                let request = e.request();
                let session = request.parent_session_id@;
                let reached = waiter_reached(before.waiters@, id, closed);
                &&& *self == (SubagentCoordinator {
                    active: self.active,
                    pending: self.pending,
                    completed: self.completed,
                    completed_order: self.completed_order,
                    waiters: self.waiters,
                    pending_completions: self.pending_completions,
                    workflow_cancel_waiters: self.workflow_cancel_waiters,
                    spawn_blocked_sessions: self.spawn_blocked_sessions,
                    teardown_drains: self.teardown_drains,
                    drain_waiters: self.drain_waiters,
                    ..before
                })
                &&& self.active@ == without(before.active@, (id, ""@))
                &&& self.pending@ == (if e is Active {
                    before.pending@
                } else {
                    without(before.pending@, (id, ""@))
                })
                &&& exists|c: CompletedChild|
                    #[trigger] e.remembered(output, c) && self.completed@ == with_entry(
                        before.completed@,
                        c,
                    )
                &&& self.completed_order@ == before.completed_order@.push(request.id)
                &&& self.waiters@ == waiting_but(before.waiters@, id)
                &&& self.pending_completions@ == (if before.config.buffer_completions
                    && request.surface_completion && !request.owner.of_workflow() {
                    last_of(
                        before.pending_completions@.push(
                            summary_of(request, output.result, output.buffered_output),
                        ),
                        MAX_PENDING_COMPLETIONS as int,
                    )
                } else {
                    before.pending_completions@
                })
                &&& self.workflow_cancel_waiters@ == (match request.owner.run() {
                    Some(run) if self.workflow_idle(run) => waiters_but(
                        before.workflow_cancel_waiters@,
                        run,
                    ),
                    _ => before.workflow_cancel_waiters@,
                })
                &&& self.spawn_blocked_sessions@ == (if self.drain_ends(before, session) {
                    texts_but(before.spawn_blocked_sessions@, session)
                } else {
                    before.spawn_blocked_sessions@
                })
                &&& self.teardown_drains@ == (if self.drain_ends(before, session) {
                    without(before.teardown_drains@, (session, ""@))
                } else {
                    before.teardown_drains@
                })
                &&& self.drain_waiters@ == (if self.drain_ends(before, session) {
                    waiters_but(before.drain_waiters@, session)
                } else {
                    before.drain_waiters@
                })
                &&& actions == snapshot_answers(before.waiters@, id, output.result) + (match e.spawn_reply() {
                    Some(reply) => seq![Action::AnswerSpawn { reply, result: output.result }],
                    None => Seq::empty(),
                }) + seq![
                    Action::NoteNative { id: request.id },
                    Action::ReportRunning {
                        count: (self.pending@.len() + self.active@.len()) as u128,
                    },
                    Action::Completed {
                        request,
                        result: output.result,
                        disposition: e.disposition(output.result, reached, closed),
                    },
                ] + self.run_answers(before, request.owner) + (if self.drain_ends(
                    before,
                    session,
                ) {
                    waiter_answers(before.drain_waiters@, session, true)
                } else {
                    Seq::empty()
                }) + seq![Action::StartQueued]
            },
        }
    }

    /// Takes out the child that finishes.
    fn take_ending(&mut self, id: &str, output: &ChildRunOutput) -> (r: Option<Taken>)
        ensures
            old(self).wf() ==> final(self).wf(),
            *final(self) == (SubagentCoordinator {
                active: final(self).active,
                pending: final(self).pending,
                ..*old(self)
            }),
            match (r, old(self).ending(id@)) {
                (None, None) => *final(self) == *old(self),
                (Some(t), Some(e)) => {
                    &&& final(self).active@ == without(old(self).active@, (id@, ""@))
                    &&& final(self).pending@ == (if e is Active {
                        old(self).pending@
                    } else {
                        without(old(self).pending@, (id@, ""@))
                    })
                    &&& t.request == e.request()
                    &&& t.request.id@ == id@
                    &&& t.spawn_reply == e.spawn_reply()
                    &&& t.handle_only == e.handle_only()
                    &&& t.explicitly_killed == e.explicitly_killed()
                    &&& e.remembered(*output, t.completed)
                },
                _ => false,
            },
    {
        proof {
            lemma_find(self.active@, (id@, ""@));
            lemma_find(self.pending@, (id@, ""@));
        }
        let mut result: SubagentResult = output.result.duplicate();
        if output.persisted_output_ref.is_some() {
            result.output = String::new();
        }
        match take_entry(&mut self.active, id, "") {
            Some(a) => {
                let request: SubagentRequest = a.request.duplicate();
                let completed: CompletedChild = CompletedChild {
                    request: a.request,
                    started_at: a.started_at,
                    child_session_id: a.child_session_id,
                    persona: a.persona,
                    resumed_from: a.resumed_from,
                    child_cwd: a.child_cwd,
                    worktree_path: a.worktree_path,
                    snapshot_ref: copy_option(&output.snapshot_ref),
                    persisted_output_ref: copy_option(&output.persisted_output_ref),
                    effective_model_id: a.effective_model_id,
                    result,
                };
                Some(
                    Taken {
                        request,
                        completed,
                        spawn_reply: a.spawn_reply,
                        handle_only: a.handle_only,
                        explicitly_killed: a.explicitly_killed,
                    },
                )
            },
            None => match take_entry(&mut self.pending, id, "") {
                Some(p) => {
                    let request: SubagentRequest = p.request.duplicate();
                    let child_cwd: String = match &p.request.cwd {
                        Some(cwd) => cwd.clone(),
                        None => String::new(),
                    };
                    let completed: CompletedChild = CompletedChild {
                        started_at: p.started_at,
                        child_session_id: output.result.child_session_id.clone(),
                        persona: copy_option(&p.request.persona),
                        resumed_from: copy_option(&p.request.resume_from),
                        child_cwd,
                        worktree_path: copy_option(&output.result.worktree_path),
                        snapshot_ref: copy_option(&output.snapshot_ref),
                        persisted_output_ref: copy_option(&output.persisted_output_ref),
                        effective_model_id: String::new(),
                        result,
                        request: p.request,
                    };
                    Some(
                        Taken {
                            request,
                            completed,
                            spawn_reply: p.spawn_reply,
                            handle_only: p.handle_only,
                            explicitly_killed: p.explicitly_killed,
                        },
                    )
                },
                None => None,
            },
        }
    }

    /// Keeps the summary of a finished child where it is to surface.
    fn buffer_summary(
        &mut self,
        request: &SubagentRequest,
        result: &SubagentResult,
        buffered_output: String,
    )
        ensures
            old(self).wf() ==> final(self).wf(),
            *final(self) == (SubagentCoordinator {
                pending_completions: final(self).pending_completions,
                ..*old(self)
            }),
            final(self).pending_completions@ == (if old(self).config.buffer_completions
                && request.surface_completion && !request.owner.of_workflow() {
                last_of(
                    old(self).pending_completions@.push(
                        summary_of(*request, *result, buffered_output),
                    ),
                    MAX_PENDING_COMPLETIONS as int,
                )
            } else {
                old(self).pending_completions@
            }),
    {
        if self.config.buffer_completions && request.surface_completion
            && !request.owner.is_workflow() {
            let summary: BufferedCompletion = BufferedCompletion {
                parent_session_id: request.parent_session_id.clone(),
                summary: SubagentCompletionSummary {
                    subagent_id: request.id.clone(),
                    description: request.description.clone(),
                    subagent_type: request.subagent_type.clone(),
                    success: result.success,
                    cancelled: result.cancelled,
                    output: buffered_output,
                    error: copy_option(&result.error),
                },
            };
            self.pending_completions.push(summary);
            if self.pending_completions.len() > MAX_PENDING_COMPLETIONS {
                let excess: usize = self.pending_completions.len() - MAX_PENDING_COMPLETIONS;
                let ghost all = self.pending_completions@;
                let newest: Vec<BufferedCompletion> = self.pending_completions.split_off(excess);
                proof {
                    assert(newest@ =~= all.skip(all.len() - MAX_PENDING_COMPLETIONS));
                }
                self.pending_completions = newest;
            }
        }
    }

    /// Finishes a child: those who wait for it are answered, its summary is
    /// kept where it is to surface, and what waited for its end goes on.
    /// `closed` are the channels whose other end is gone.
    #[verifier::rlimit(60)]
    pub fn finish_child(&mut self, id: &str, output: ChildRunOutput, closed: &Vec<u64>) -> (r: Vec<
        Action,
    >)
        ensures
            old(self).wf() ==> final(self).wf(),
            final(self).finish_post(*old(self), id@, output, closed@, r@),
    {
        let ghost before = *self;
        let ghost out0 = output;
        let taken: Taken = match self.take_ending(id, &output) {
            Some(t) => t,
            None => {
                return Vec::new();
            },
        };
        let ghost e = before.ending(id@)->0;
        let request: SubagentRequest = taken.request;
        let (waiter_delivered, mut out): (bool, Vec<Action>) = answer_snapshots(
            &mut self.waiters,
            id,
            &output.result,
            closed,
        );
        let mut foreground_delivered: bool = false;
        let ghost answers = out@;
        let ghost spawn_answer = match e.spawn_reply() {
            Some(reply) => seq![Action::AnswerSpawn { reply, result: out0.result }],
            None => Seq::<Action>::empty(),
        };
        if let Some(reply) = taken.spawn_reply {
            out.push(Action::AnswerSpawn { reply, result: output.result.duplicate() });
            if !taken.handle_only {
                foreground_delivered = is_open(reply, closed);
            }
        }
        proof {
            assert(out@ =~= answers + spawn_answer);
        }
        let backgrounded: bool = !foreground_delivered;
        let disposition: CompletionDisposition = CompletionDisposition {
            foreground_delivered,
            backgrounded,
            waiter_delivered,
            explicitly_killed: taken.explicitly_killed,
            should_surface: request.surface_completion && backgrounded && !output.result.cancelled
                && !waiter_delivered && !taken.explicitly_killed,
        };
        self.buffer_summary(&request, &output.result, output.buffered_output);
        let _ = put_entry(&mut self.completed, taken.completed, id, "");
        self.completed_order.push(request.id.clone());
        let mut report: Vec<Action> = Vec::new();
        report.push(Action::NoteNative { id: request.id.clone() });
        report.push(
            Action::ReportRunning {
                count: self.pending.len() as u128 + self.active.len() as u128,
            },
        );
        let owner: SubagentOwner = request.owner.duplicate();
        let session: String = request.parent_session_id.clone();
        report.push(Action::Completed { request, result: output.result, disposition });
        let ghost reported = report@;
        out.append(&mut report);
        let ghost middle = *self;
        let mut run_answers: Vec<Action> = match &owner {
            SubagentOwner::Workflow { run_id } => self.resolve_workflow_cancel_waiters(
                run_id.as_str(),
            ),
            SubagentOwner::Session => Vec::new(),
        };
        let ghost run_answered = run_answers@;
        out.append(&mut run_answers);
        let ghost held = *self;
        let mut drained: Vec<Action> = self.resolve_teardown_drain_waiters(session.as_str());
        let ghost drain_answered = drained@;
        out.append(&mut drained);
        out.push(Action::StartQueued);
        proof {
            assert(self.workflow_idle(owner.run()->0) == middle.workflow_idle(owner.run()->0));
            assert(run_answered =~= self.run_answers(before, owner));
            assert(self.has_children(session@) == held.has_children(session@));
            assert(drain_answered =~= (if self.drain_ends(before, session@) {
                waiter_answers(before.drain_waiters@, session@, true)
            } else {
                Seq::empty()
            }));
            assert(reported =~= seq![
                Action::NoteNative { id: e.request().id },
                Action::ReportRunning {
                    count: (self.pending@.len() + self.active@.len()) as u128,
                },
                Action::Completed {
                    request: e.request(),
                    result: out0.result,
                    disposition: e.disposition(
                        out0.result,
                        waiter_reached(before.waiters@, id@, closed@),
                        closed@,
                    ),
                },
            ]);
            assert(out@ =~= answers + spawn_answer + reported + run_answered + drain_answered
                + seq![Action::StartQueued]);
            assert(e.remembered(out0, taken.completed));
        }
        out
    }

    /// Finishes a child whose runner failed without a result.
    pub fn finish_panicked_child(&mut self, id: &str, closed: &Vec<u64>) -> (r: Vec<Action>)
        ensures
            old(self).wf() ==> final(self).wf(),
            match old(self).ending(id@) {
                None => *final(self) == *old(self) && r@.len() == 0,
                Some(e) => exists|output: ChildRunOutput|
                    {
                        &&& output.result@ == (ResultView {
                            error: Some("Subagent runtime panicked"@),
                            ..bare_result(e.request().id@, e.request().id@)
                        })
                        &&& output.snapshot_ref is None
                        &&& output.persisted_output_ref is None
                        &&& output.buffered_output@ == Seq::<char>::empty()
                        &&& #[trigger] final(self).finish_post(
                            *old(self),
                            id@,
                            output,
                            closed@,
                            r@,
                        )
                    },
            },
    {
        proof {
            lemma_find(self.active@, (id@, ""@));
            lemma_find(self.pending@, (id@, ""@));
        }
        let child_id: String = match position(&self.active, id, "") {
            Some(i) => self.active[i].request.id.clone(),
            None => match position(&self.pending, id, "") {
                Some(i) => self.pending[i].request.id.clone(),
                None => {
                    return Vec::new();
                },
            },
        };
        let mut result: SubagentResult = SubagentResult::bare(
            child_id.as_str(),
            child_id.as_str(),
        );
        result.error = Some("Subagent runtime panicked".to_owned());
        let output: ChildRunOutput = ChildRunOutput {
            result,
            snapshot_ref: None,
            persisted_output_ref: None,
            buffered_output: String::new(),
        };
        self.finish_child(id, output, closed)
    }
}

/// The end of a child surfaces only where nobody was told: not in the
/// foreground, and no waiter; and never for a child that was cancelled or
/// killed.
pub proof fn law_surfaces_only_untold_ends(
    e: Ending,
    result: SubagentResult,
    waiter_delivered: bool,
    closed: Seq<u64>,
)
    ensures
        e.disposition(result, waiter_delivered, closed).should_surface ==> {
            &&& !e.disposition(result, waiter_delivered, closed).foreground_delivered
            &&& !waiter_delivered
            &&& !result.cancelled
            &&& !e.explicitly_killed()
        },
{
}

/// A child that finished is remembered under its id, and is neither active nor
/// pending; other children that run are untouched.
pub proof fn law_finished_child_has_left(
    before: SubagentCoordinator,
    after: SubagentCoordinator,
    id: Seq<char>,
    other: Seq<char>,
    output: ChildRunOutput,
    closed: Seq<u64>,
    actions: Seq<Action>,
)
    requires
        before.wf(),
        before.ending(id) is Some,
        lookup(before.active@, (id, ""@)) is None || lookup(before.pending@, (id, ""@)) is None,
        after.finish_post(before, id, output, closed, actions),
        other != id,
    ensures
        lookup(after.completed@, (id, ""@)) is Some,
        after.ending(id) is None,
        after.ending(other) == before.ending(other),
        lookup(after.completed@, (other, ""@)) == lookup(before.completed@, (other, ""@)),
{
    let e = before.ending(id)->0;
    let k: Key = (id, ""@);
    let o: Key = (other, ""@);
    lemma_find(before.active@, k);
    lemma_find(before.pending@, k);
    lemma_without(before.active@, k, k);
    lemma_without(before.active@, k, o);
    lemma_without(before.pending@, k, k);
    lemma_without(before.pending@, k, o);
    let c = choose|c: CompletedChild|
        #[trigger] e.remembered(output, c) && after.completed@ == with_entry(before.completed@, c);
    assert(c.key() == k);
    lemma_with_entry(before.completed@, c, k);
    lemma_with_entry(before.completed@, c, o);
}

// ---- forgetting ----

/// A native team names a child by an id.
pub open spec fn native_named(names: Seq<NativeAgent>, id: Seq<char>) -> bool {
    exists|i: int| 0 <= i < names.len() && (#[trigger] names[i]).subagent_id@ == id
}

fn is_native_named(names: &Vec<NativeAgent>, id: &str) -> (r: bool)
    ensures
        r == native_named(names@, id@),
{
    let mut i: usize = 0;
    while i < names.len()
        invariant
            i <= names@.len(),
            forall|j: int| 0 <= j < i ==> (#[trigger] names@[j]).subagent_id@ != id@,
        decreases names.len() - i,
    {
        if same_text(names[i].subagent_id.as_str(), id) {
            return true;
        }
        i += 1;
    }
    false
}

/// The oldest finished child that no native team names.
pub open spec fn first_unnamed(order: Seq<String>, names: Seq<NativeAgent>) -> Option<int>
    decreases order.len(),
{
    if order.len() == 0 {
        None
    } else if !native_named(names, order[0]@) {
        Some(0)
    } else {
        match first_unnamed(order.drop_first(), names) {
            Some(i) => Some(i + 1),
            None => None,
        }
    }
}

proof fn lemma_first_unnamed(order: Seq<String>, names: Seq<NativeAgent>)
    ensures
        match first_unnamed(order, names) {
            Some(i) => 0 <= i < order.len() && !native_named(names, order[i]@),
            None => forall|i: int| 0 <= i < order.len() ==> native_named(names, (#[trigger] order[i])@),
        },
    decreases order.len(),
{
    if order.len() > 0 && native_named(names, order[0]@) {
        lemma_first_unnamed(order.drop_first(), names);
        assert forall|j: int|
            1 <= j < order.len() implies #[trigger] order[j] == order.drop_first()[j - 1] by {}
    }
}

/// The order and the finished children after the oldest were forgotten: while
/// there are too many, the oldest that no native team names goes, and those
/// before it count as young again. Where native teams name them all, they stay.
pub open spec fn evicted(
    order: Seq<String>,
    completed: Seq<CompletedChild>,
    names: Seq<NativeAgent>,
    max: nat,
) -> (Seq<String>, Seq<CompletedChild>)
    decreases order.len(),
    when 0 <= order.len()
    via evicted_decreases
{
    if completed.len() <= max || order.len() == 0 {
        (order, completed)
    } else {
        match first_unnamed(order, names) {
            None => (order.drop_first().push(order[0]), completed),
            Some(k) => evicted(
                order.skip(k + 1) + order.take(k),
                without(completed, (order[k]@, ""@)),
                names,
                max,
            ),
        }
    }
}

#[via_fn]
proof fn evicted_decreases(
    order: Seq<String>,
    completed: Seq<CompletedChild>,
    names: Seq<NativeAgent>,
    max: nat,
) {
    lemma_first_unnamed(order, names);
}

fn find_unnamed(order: &Vec<String>, names: &Vec<NativeAgent>) -> (r: Option<usize>)
    ensures
        match (r, first_unnamed(order@, names@)) {
            (Some(a), Some(b)) => a == b && a < order@.len(),
            (None, None) => true,
            _ => false,
        },
{
    let mut i: usize = 0;
    proof {
        assert(order@.skip(0) =~= order@);
    }
    while i < order.len()
        invariant
            i <= order@.len(),
            first_unnamed(order@, names@) == (match first_unnamed(order@.skip(i as int), names@) {
                Some(x) => Some(x + i),
                None => None,
            }),
        decreases order.len() - i,
    {
        proof {
            assert(order@.skip(i as int).drop_first() =~= order@.skip(i as int + 1));
        }
        if !is_native_named(names, order[i].as_str()) {
            return Some(i);
        }
        i += 1;
    }
    None
}

impl SubagentCoordinator {
    /// Forgets the oldest finished children while there are too many.
    pub fn evict_completed(&mut self)
        ensures
            old(self).wf() ==> final(self).wf(),
            *final(self) == (SubagentCoordinator {
                completed: final(self).completed,
                completed_order: final(self).completed_order,
                ..*old(self)
            }),
            (final(self).completed_order@, final(self).completed@) == evicted(
                old(self).completed_order@,
                old(self).completed@,
                old(self).native_agents@,
                old(self).config.max_completed_entries as nat,
            ),
    {
        let ghost start = *self;
        let max: usize = self.config.max_completed_entries;
        while self.completed.len() > max && self.completed_order.len() > 0
            invariant
                start == *old(self),
                max == start.config.max_completed_entries,
                start.wf() ==> self.wf(),
                *self == (SubagentCoordinator {
                    completed: self.completed,
                    completed_order: self.completed_order,
                    ..start
                }),
                evicted(
                    self.completed_order@,
                    self.completed@,
                    start.native_agents@,
                    max as nat,
                ) == evicted(
                    start.completed_order@,
                    start.completed@,
                    start.native_agents@,
                    max as nat,
                ),
            decreases self.completed_order.len(),
        {
            let ghost order = self.completed_order@;
            match find_unnamed(&self.completed_order, &self.native_agents) {
                None => {
                    let oldest: String = self.completed_order.remove(0);
                    self.completed_order.push(oldest);
                    proof {
                        assert(self.completed_order@ =~= order.drop_first().push(order[0]));
                    }
                    return;
                },
                Some(k) => {
                    let mut younger: Vec<String> = self.completed_order.split_off(k + 1);
                    if let Some(id) = self.completed_order.pop() {
                        proof {
                            assert(id == order[k as int]);
                        }
                        let _ = take_entry(&mut self.completed, id.as_str(), "");
                    }
                    younger.append(&mut self.completed_order);
                    self.completed_order = younger;
                    proof {
                        assert(self.completed_order@ =~= order.skip(k as int + 1) + order.take(
                            k as int,
                        ));
                    }
                },
            }
        }
    }
}

proof fn lemma_without_absent(
    completed: Seq<CompletedChild>,
    gone: Key,
    k: Key,
)
    requires
        keys_differ(completed),
        k != gone,
    ensures
        lookup(without(completed, gone), k) == lookup(completed, k),
        keys_differ(without(completed, gone)),
{
    lemma_without(completed, gone, k);
}

/// A finished child that a native team names is never forgotten.
pub proof fn law_named_children_stay(
    order: Seq<String>,
    completed: Seq<CompletedChild>,
    names: Seq<NativeAgent>,
    max: nat,
    id: Seq<char>,
)
    requires
        keys_differ(completed),
        native_named(names, id),
    ensures
        lookup(evicted(order, completed, names, max).1, (id, ""@)) == lookup(completed, (id, ""@)),
    decreases order.len(),
{
    if completed.len() > max && order.len() > 0 {
        lemma_first_unnamed(order, names);
        if let Some(k) = first_unnamed(order, names) {
            lemma_without_absent(completed, (order[k]@, ""@), (id, ""@));
            law_named_children_stay(
                order.skip(k + 1) + order.take(k),
                without(completed, (order[k]@, ""@)),
                names,
                max,
                id,
            );
        }
    }
}

} // verus!
