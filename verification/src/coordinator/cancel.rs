//! Cancelling children, and taking down a session.
use vstd::prelude::*;
#[allow(unused_imports)]
use vstd::string::*;

#[allow(unused_imports)]
use crate::coordinator::state::{
    Scope, ScopeView, SubagentCoordinator, TEARDOWN_DRAIN_MAX_MS, any_active, any_pending,
    any_queued, belongs_to_session, covers, of_session, some_active, some_pending, some_queued,
};
#[allow(unused_imports)]
use crate::coordinator::types::{
    Action, ActiveChild, PendingChild, QueuedSpawn, ReplyWaiter, SubagentCancelOutcome,
    SubagentRequest, TeardownDrain, status_of,
};
#[allow(unused_imports)]
use crate::table::{Key, find, lookup, position, put_entry, take_entry, without};
#[allow(unused_imports)]
use crate::text::{add_text, copy_option, drop_text, option_view, same_text, text_set, texts_but};

verus! {

/// A request, with its completion kept to itself if its parent is gone.
pub open spec fn silenced(request: SubagentRequest, parent_gone: bool) -> SubagentRequest {
    if parent_gone {
        SubagentRequest { surface_completion: false, ..request }
    } else {
        request
    }
}

/// An active child after a scope was cancelled.
pub open spec fn cancelled_active(
    c: ActiveChild,
    scope: ScopeView,
    parent_gone: bool,
) -> ActiveChild {
    if covers(scope, c.request) {
        ActiveChild { cancelled: true, request: silenced(c.request, parent_gone), ..c }
    } else {
        c
    }
}

/// A pending child after a scope was cancelled.
pub open spec fn cancelled_pending(
    c: PendingChild,
    scope: ScopeView,
    parent_gone: bool,
) -> PendingChild {
    if covers(scope, c.request) {
        PendingChild { cancelled: true, request: silenced(c.request, parent_gone), ..c }
    } else {
        c
    }
}

/// The signals to the active children in a scope.
pub open spec fn active_signals(s: Seq<ActiveChild>, scope: ScopeView) -> Seq<Action>
    decreases s.len(),
{
    if s.len() == 0 {
        Seq::empty()
    } else if covers(scope, s.last().request) {
        active_signals(s.drop_last(), scope).push(
            Action::Cancel { id: s.last().request.id, live: true },
        )
    } else {
        active_signals(s.drop_last(), scope)
    }
}

/// The signals to the pending children in a scope.
pub open spec fn pending_signals(s: Seq<PendingChild>, scope: ScopeView) -> Seq<Action>
    decreases s.len(),
{
    if s.len() == 0 {
        Seq::empty()
    } else if covers(scope, s.last().request) {
        pending_signals(s.drop_last(), scope).push(
            Action::Cancel { id: s.last().request.id, live: false },
        )
    } else {
        pending_signals(s.drop_last(), scope)
    }
}

/// The queued children outside a scope, in order.
pub open spec fn queued_outside(s: Seq<QueuedSpawn>, scope: ScopeView) -> Seq<QueuedSpawn>
    decreases s.len(),
{
    if s.len() == 0 {
        Seq::empty()
    } else if covers(scope, s.last().request) {
        queued_outside(s.drop_last(), scope)
    } else {
        queued_outside(s.drop_last(), scope).push(s.last())
    }
}

/// The ends of the queued children in a scope.
pub open spec fn queued_ends(
    s: Seq<QueuedSpawn>,
    scope: ScopeView,
    parent_gone: bool,
) -> Seq<Action>
    decreases s.len(),
{
    if s.len() == 0 {
        Seq::empty()
    } else if covers(scope, s.last().request) {
        queued_ends(s.drop_last(), scope, parent_gone).push(
            Action::FinishQueued {
                request: silenced(s.last().request, parent_gone),
                caller: s.last().caller,
            },
        )
    } else {
        queued_ends(s.drop_last(), scope, parent_gone)
    }
}

/// The waiters on another subject.
pub open spec fn waiters_but(s: Seq<ReplyWaiter>, subject: Seq<char>) -> Seq<ReplyWaiter>
    decreases s.len(),
{
    if s.len() == 0 {
        Seq::empty()
    } else if s.last().subject@ == subject {
        waiters_but(s.drop_last(), subject)
    } else {
        waiters_but(s.drop_last(), subject).push(s.last())
    }
}

/// The answers to the waiters on a subject.
pub open spec fn waiter_answers(s: Seq<ReplyWaiter>, subject: Seq<char>, drained: bool) -> Seq<
    Action,
>
    decreases s.len(),
{
    if s.len() == 0 {
        Seq::empty()
    } else if s.last().subject@ == subject {
        waiter_answers(s.drop_last(), subject, drained).push(
            if drained {
                Action::AnswerDrained { reply: s.last().reply }
            } else {
                Action::AnswerCancelled { reply: s.last().reply }
            },
        )
    } else {
        waiter_answers(s.drop_last(), subject, drained)
    }
}

fn answer_waiters(waiters: &mut Vec<ReplyWaiter>, subject: &str, drained: bool) -> (r: Vec<Action>)
    ensures
        final(waiters)@ == waiters_but(old(waiters)@, subject@),
        r@ == waiter_answers(old(waiters)@, subject@, drained),
{
    let ghost all = waiters@;
    let mut kept: Vec<ReplyWaiter> = Vec::new();
    let mut out: Vec<Action> = Vec::new();
    let mut i: usize = 0;
    while i < waiters.len()
        invariant
            i <= waiters@.len(),
            waiters@ == all,
            kept@ == waiters_but(all.take(i as int), subject@),
            out@ == waiter_answers(all.take(i as int), subject@, drained),
        decreases waiters.len() - i,
    {
        proof {
            assert(all.take(i as int + 1).drop_last() =~= all.take(i as int));
        }
        let w: &ReplyWaiter = &waiters[i];
        if same_text(w.subject.as_str(), subject) {
            if drained {
                out.push(Action::AnswerDrained { reply: w.reply });
            } else {
                out.push(Action::AnswerCancelled { reply: w.reply });
            }
        } else {
            kept.push(ReplyWaiter { subject: w.subject.clone(), reply: w.reply });
        }
        i += 1;
    }
    proof {
        assert(all.take(i as int) =~= all);
    }
    *waiters = kept;
    out
}

impl SubagentCoordinator {
    /// What cancelling the active and pending children of a scope leaves.
    pub open spec fn children_cancelled(
        &self,
        before: SubagentCoordinator,
        scope: ScopeView,
        parent_gone: bool,
    ) -> bool {
        &&& self.active@ == before.active@.map_values(
            |c: ActiveChild| cancelled_active(c, scope, parent_gone),
        )
        &&& self.pending@ == before.pending@.map_values(
            |c: PendingChild| cancelled_pending(c, scope, parent_gone),
        )
    }

    /// Cancels the active and pending children in a scope.
    pub fn cancel_running(&mut self, scope: &Scope, parent_gone: bool) -> (r: Vec<Action>)
        ensures
            old(self).wf() ==> final(self).wf(),
            *final(self) == (SubagentCoordinator {
                active: final(self).active,
                pending: final(self).pending,
                ..*old(self)
            }),
            final(self).children_cancelled(*old(self), scope@, parent_gone),
            r@ == active_signals(old(self).active@, scope@) + pending_signals(
                old(self).pending@,
                scope@,
            ),
    {
        let mut out: Vec<Action> = Vec::new();
        let ghost start = *self;
        let ghost fa = |c: ActiveChild| cancelled_active(c, scope@, parent_gone);
        let ghost fp = |c: PendingChild| cancelled_pending(c, scope@, parent_gone);
        let mut i: usize = 0;
        while i < self.active.len()
            invariant
                i <= self.active@.len(),
                self.active@.len() == start.active@.len(),
                *self == (SubagentCoordinator { active: self.active, ..start }),
                fa == (|c: ActiveChild| cancelled_active(c, scope@, parent_gone)),
                forall|j: int| 0 <= j < i ==> #[trigger] self.active@[j] == fa(start.active@[j]),
                forall|j: int|
                    i <= j < self.active@.len() ==> #[trigger] self.active@[j] == start.active@[j],
                out@ == active_signals(start.active@.take(i as int), scope@),
            decreases self.active.len() - i,
        {
            proof {
                assert(start.active@.take(i as int + 1).drop_last() =~= start.active@.take(
                    i as int,
                ));
            }
            if scope.holds(&self.active[i].request) {
                out.push(Action::Cancel { id: self.active[i].request.id.clone(), live: true });
                self.active[i].cancelled = true;
                if parent_gone {
                    self.active[i].request.surface_completion = false;
                }
            }
            i += 1;
        }
        let ghost middle = *self;
        proof {
            assert(start.active@.take(i as int) =~= start.active@);
            assert(middle.active@ =~= start.active@.map_values(fa));
        }
        let ghost first = out@;
        let mut k: usize = 0;
        proof {
            assert(first + pending_signals(start.pending@.take(0), scope@) =~= first);
        }
        while k < self.pending.len()
            invariant
                k <= self.pending@.len(),
                self.pending@.len() == start.pending@.len(),
                start.pending == middle.pending,
                *self == (SubagentCoordinator { pending: self.pending, ..middle }),
                fp == (|c: PendingChild| cancelled_pending(c, scope@, parent_gone)),
                forall|j: int| 0 <= j < k ==> #[trigger] self.pending@[j] == fp(start.pending@[j]),
                forall|j: int|
                    k <= j < self.pending@.len() ==> #[trigger] self.pending@[j]
                        == start.pending@[j],
                out@ == first + pending_signals(start.pending@.take(k as int), scope@),
            decreases self.pending.len() - k,
        {
            proof {
                assert(start.pending@.take(k as int + 1).drop_last() =~= start.pending@.take(
                    k as int,
                ));
            }
            if scope.holds(&self.pending[k].request) {
                out.push(Action::Cancel { id: self.pending[k].request.id.clone(), live: false });
                proof {
                    assert(out@ =~= first + pending_signals(
                        start.pending@.take(k as int),
                        scope@,
                    ).push(out@.last()));
                }
                self.pending[k].cancelled = true;
                if parent_gone {
                    self.pending[k].request.surface_completion = false;
                }
            }
            k += 1;
        }
        proof {
            assert(start.pending@.take(k as int) =~= start.pending@);
            assert(self.pending@ =~= start.pending@.map_values(fp));
        }
        out
    }

    /// Takes the children in a scope out of the queue.
    pub fn remove_queued(&mut self, scope: &Scope, parent_gone: bool) -> (r: Vec<Action>)
        ensures
            old(self).wf() ==> final(self).wf(),
            *final(self) == (SubagentCoordinator { queued: final(self).queued, ..*old(self) }),
            final(self).queued@ == queued_outside(old(self).queued@, scope@),
            r@ == queued_ends(old(self).queued@, scope@, parent_gone),
    {
        let mut out: Vec<Action> = Vec::new();
        let mut kept: Vec<QueuedSpawn> = Vec::new();
        let ghost start = *self;
        let ghost n = 0int;
        proof {
            assert(start.queued@.skip(0) =~= start.queued@);
        }
        while self.queued.len() > 0
            invariant
                0 <= n <= start.queued@.len(),
                *self == (SubagentCoordinator { queued: self.queued, ..start }),
                self.queued@ == start.queued@.skip(n),
                kept@ == queued_outside(start.queued@.take(n), scope@),
                out@ == queued_ends(start.queued@.take(n), scope@, parent_gone),
            decreases self.queued.len(),
        {
            let q: QueuedSpawn = self.queued.remove(0);
            proof {
                assert(q == start.queued@[n]);
                assert(start.queued@.take(n + 1).drop_last() =~= start.queued@.take(n));
                assert(self.queued@ =~= start.queued@.skip(n + 1));
                n = n + 1;
            }
            if scope.holds(&q.request) {
                let mut request: SubagentRequest = q.request;
                if parent_gone {
                    request.surface_completion = false;
                }
                out.push(Action::FinishQueued { request, caller: q.caller });
            } else {
                kept.push(q);
            }
        }
        proof {
            assert(start.queued@.take(n) =~= start.queued@);
        }
        self.queued = kept;
        out
    }

    /// Some queued child is in a scope.
    pub open spec fn queues(&self, scope: ScopeView) -> bool {
        some_queued(self.queued@, scope)
    }

    /// What `cancel_one` does and answers: the first of these that fits the
    /// id and the session is cancelled: the active child, the pending one, the
    /// queued ones; a finished child stays as it is.
    pub open spec fn cancel_one_post(
        &self,
        before: SubagentCoordinator,
        id: Seq<char>,
        session: Option<Seq<char>>,
        explicit: bool,
        outcome: SubagentCancelOutcome,
        actions: Seq<Action>,
    ) -> bool {
        let k: Key = (id, ""@);
        let scope = ScopeView::Id(id, session);
        match find(before.active@, k) {
            Some(i) if of_session(before.active@[i].request, session) => {
                let c = before.active@[i];
                &&& outcome is Cancelled
                &&& *self == (SubagentCoordinator { active: self.active, ..before })
                &&& self.active@ == before.active@.update(
                    i,
                    ActiveChild {
                        explicitly_killed: c.explicitly_killed || explicit,
                        cancelled: true,
                        ..c
                    },
                )
                &&& actions == seq![Action::Cancel { id: c.request.id, live: true }]
            },
            _ => match find(before.pending@, k) {
                Some(i) if of_session(before.pending@[i].request, session) => {
                    let c = before.pending@[i];
                    &&& outcome is Cancelled
                    &&& *self == (SubagentCoordinator { pending: self.pending, ..before })
                    &&& self.pending@ == before.pending@.update(
                        i,
                        PendingChild {
                            explicitly_killed: c.explicitly_killed || explicit,
                            cancelled: true,
                            ..c
                        },
                    )
                    &&& actions == seq![Action::Cancel { id: c.request.id, live: false }]
                },
                _ => {
                    &&& *self == (SubagentCoordinator { queued: self.queued, ..before })
                    &&& self.queued@ == queued_outside(before.queued@, scope)
                    &&& actions == queued_ends(before.queued@, scope, false)
                    &&& if before.queues(scope) {
                        outcome is Cancelled
                    } else {
                        match lookup(before.completed@, k) {
                            Some(c) if of_session(c.request, session) => match outcome {
                                SubagentCancelOutcome::AlreadyFinished { status } => status@
                                    == status_of(c.result),
                                _ => false,
                            },
                            _ => outcome is NotFound,
                        }
                    }
                },
            },
        }
    }

    /// Cancels one child.
    pub fn cancel_one(
        &mut self,
        id: &str,
        parent_session_id: &Option<String>,
        explicit: bool,
    ) -> (r: (SubagentCancelOutcome, Vec<Action>))
        ensures
            old(self).wf() ==> final(self).wf(),
            final(self).cancel_one_post(
                *old(self),
                id@,
                option_view(*parent_session_id),
                explicit,
                r.0,
                r.1@,
            ),
    {
        let mut out: Vec<Action> = Vec::new();
        let ghost before = *self;
        if let Some(i) = position(&self.active, id, "") {
            if belongs_to_session(&self.active[i].request, parent_session_id) {
                out.push(Action::Cancel { id: self.active[i].request.id.clone(), live: true });
                let killed: bool = self.active[i].explicitly_killed || explicit;
                self.active[i].explicitly_killed = killed;
                self.active[i].cancelled = true;
                proof {
                    assert(out@ =~= seq![out@[0]]);
                    assert(self.active@ =~= before.active@.update(
                        i as int,
                        ActiveChild {
                            explicitly_killed: killed,
                            cancelled: true,
                            ..before.active@[i as int]
                        },
                    ));
                }
                return (SubagentCancelOutcome::Cancelled, out);
            }
        }
        if let Some(i) = position(&self.pending, id, "") {
            if belongs_to_session(&self.pending[i].request, parent_session_id) {
                out.push(Action::Cancel { id: self.pending[i].request.id.clone(), live: false });
                let killed: bool = self.pending[i].explicitly_killed || explicit;
                self.pending[i].explicitly_killed = killed;
                self.pending[i].cancelled = true;
                proof {
                    assert(out@ =~= seq![out@[0]]);
                    assert(self.pending@ =~= before.pending@.update(
                        i as int,
                        PendingChild {
                            explicitly_killed: killed,
                            cancelled: true,
                            ..before.pending@[i as int]
                        },
                    ));
                }
                return (SubagentCancelOutcome::Cancelled, out);
            }
        }
        let scope: Scope = Scope::Id {
            id: id.to_owned(),
            session: copy_option(parent_session_id),
        };
        let was_queued: bool = any_queued(&self.queued, &scope);
        let ends: Vec<Action> = self.remove_queued(&scope, false);
        if was_queued {
            return (SubagentCancelOutcome::Cancelled, ends);
        }
        if let Some(i) = position(&self.completed, id, "") {
            if belongs_to_session(&self.completed[i].request, parent_session_id) {
                return (
                    SubagentCancelOutcome::AlreadyFinished {
                        status: self.completed[i].result.status(),
                    },
                    ends,
                );
            }
        }
        (SubagentCancelOutcome::NotFound, ends)
    }

    /// What cancelling a scope, the queue included, leaves and asks for.
    pub open spec fn scope_cancelled(
        &self,
        before: SubagentCoordinator,
        scope: ScopeView,
        parent_gone: bool,
        actions: Seq<Action>,
    ) -> bool {
        &&& self.children_cancelled(before, scope, parent_gone)
        &&& self.queued@ == queued_outside(before.queued@, scope)
        &&& actions == active_signals(before.active@, scope) + pending_signals(
            before.pending@,
            scope,
        ) + queued_ends(before.queued@, scope, parent_gone)
    }

    fn cancel_scope(&mut self, scope: &Scope, parent_gone: bool) -> (r: Vec<Action>)
        ensures
            old(self).wf() ==> final(self).wf(),
            *final(self) == (SubagentCoordinator {
                active: final(self).active,
                pending: final(self).pending,
                queued: final(self).queued,
                ..*old(self)
            }),
            final(self).scope_cancelled(*old(self), scope@, parent_gone, r@),
    {
        let mut out: Vec<Action> = self.cancel_running(scope, parent_gone);
        let mut ends: Vec<Action> = self.remove_queued(scope, parent_gone);
        out.append(&mut ends);
        out
    }

    /// Cancels the children of a prompt.
    pub fn cancel_parent_prompt(
        &mut self,
        prompt_id: &str,
        parent_session_id: &Option<String>,
    ) -> (r: Vec<Action>)
        ensures
            old(self).wf() ==> final(self).wf(),
            *final(self) == (SubagentCoordinator {
                active: final(self).active,
                pending: final(self).pending,
                queued: final(self).queued,
                ..*old(self)
            }),
            final(self).scope_cancelled(
                *old(self),
                ScopeView::Prompt(prompt_id@, option_view(*parent_session_id)),
                false,
                r@,
            ),
    {
        self.cancel_scope(
            &Scope::Prompt {
                prompt_id: prompt_id.to_owned(),
                session: copy_option(parent_session_id),
            },
            false,
        )
    }

    /// Cancels the children of a session that no workflow owns, and keeps the
    /// session from spawning more. It takes a concrete session, so that no
    /// wildcard cancels every session.
    pub fn cancel_parent_session(&mut self, parent_session_id: &Option<String>) -> (r: (
        SubagentCancelOutcome,
        Vec<Action>,
    ))
        ensures
            old(self).wf() ==> final(self).wf(),
            match *parent_session_id {
                None => {
                    &&& r.0 is NotFound
                    &&& r.1@.len() == 0
                    &&& *final(self) == *old(self)
                },
                Some(session) => {
                    &&& r.0 is Cancelled
                    &&& *final(self) == (SubagentCoordinator {
                        active: final(self).active,
                        pending: final(self).pending,
                        queued: final(self).queued,
                        spawn_blocked_sessions: final(self).spawn_blocked_sessions,
                        ..*old(self)
                    })
                    &&& final(self).scope_cancelled(
                        *old(self),
                        ScopeView::Session(session@),
                        false,
                        r.1@,
                    )
                    &&& text_set(final(self).spawn_blocked_sessions@) == text_set(
                        old(self).spawn_blocked_sessions@,
                    ).insert(session@)
                },
            },
    {
        match parent_session_id {
            None => (SubagentCancelOutcome::NotFound, Vec::new()),
            Some(session) => {
                add_text(&mut self.spawn_blocked_sessions, session.as_str());
                let out: Vec<Action> = self.cancel_scope(
                    &Scope::Session { session: session.clone() },
                    false,
                );
                (SubagentCancelOutcome::Cancelled, out)
            },
        }
    }

    /// Cancels all children of a session whose parent is gone: their ends are
    /// not kept for a later session of the same id.
    pub fn teardown_session_children(&mut self, parent_session_id: &str) -> (r: Vec<Action>)
        ensures
            old(self).wf() ==> final(self).wf(),
            *final(self) == (SubagentCoordinator {
                active: final(self).active,
                pending: final(self).pending,
                queued: final(self).queued,
                ..*old(self)
            }),
            final(self).scope_cancelled(
                *old(self),
                ScopeView::Everything(parent_session_id@),
                true,
                r@,
            ),
    {
        self.cancel_scope(&Scope::Everything { session: parent_session_id.to_owned() }, true)
    }

    /// Cancels the running children of a workflow run; queued ones stay.
    pub fn cancel_workflow_children(
        &mut self,
        run_id: &str,
        parent_session_id: &Option<String>,
    ) -> (r: Vec<Action>)
        ensures
            old(self).wf() ==> final(self).wf(),
            *final(self) == (SubagentCoordinator {
                active: final(self).active,
                pending: final(self).pending,
                ..*old(self)
            }),
            final(self).children_cancelled(
                *old(self),
                ScopeView::Workflow(run_id@, option_view(*parent_session_id)),
                false,
            ),
            r@ == active_signals(
                old(self).active@,
                ScopeView::Workflow(run_id@, option_view(*parent_session_id)),
            ) + pending_signals(
                old(self).pending@,
                ScopeView::Workflow(run_id@, option_view(*parent_session_id)),
            ),
    {
        self.cancel_running(
            &Scope::Workflow {
                run_id: run_id.to_owned(),
                session: copy_option(parent_session_id),
            },
            false,
        )
    }

    /// Cancels every child.
    pub fn cancel_all_children(&mut self) -> (r: Vec<Action>)
        ensures
            old(self).wf() ==> final(self).wf(),
            *final(self) == (SubagentCoordinator {
                active: final(self).active,
                pending: final(self).pending,
                ..*old(self)
            }),
            final(self).children_cancelled(*old(self), ScopeView::All, false),
            r@ == active_signals(old(self).active@, ScopeView::All) + pending_signals(
                old(self).pending@,
                ScopeView::All,
            ),
    {
        self.cancel_running(&Scope::All, false)
    }

    /// No child of a workflow run is pending or active.
    pub open spec fn workflow_idle(&self, run_id: Seq<char>) -> bool {
        let scope = ScopeView::Workflow(run_id, None);
        !some_pending(self.pending@, scope) && !some_active(self.active@, scope)
    }

    /// Whether no child of a workflow run is pending or active.
    pub fn workflow_is_idle(&self, run_id: &str) -> (r: bool)
        ensures
            r == self.workflow_idle(run_id@),
    {
        let scope: Scope = Scope::Workflow { run_id: run_id.to_owned(), session: None };
        !any_pending(&self.pending, &scope) && !any_active(&self.active, &scope)
    }

    /// Answers those who wait for a workflow run to end, once it has.
    pub fn resolve_workflow_cancel_waiters(&mut self, run_id: &str) -> (r: Vec<Action>)
        ensures
            old(self).wf() ==> final(self).wf(),
            *final(self) == (SubagentCoordinator {
                workflow_cancel_waiters: final(self).workflow_cancel_waiters,
                ..*old(self)
            }),
            if old(self).workflow_idle(run_id@) {
                &&& final(self).workflow_cancel_waiters@ == waiters_but(
                    old(self).workflow_cancel_waiters@,
                    run_id@,
                )
                &&& r@ == waiter_answers(old(self).workflow_cancel_waiters@, run_id@, false)
            } else {
                *final(self) == *old(self) && r@.len() == 0
            },
    {
        if !self.workflow_is_idle(run_id) {
            return Vec::new();
        }
        answer_waiters(&mut self.workflow_cancel_waiters, run_id, false)
    }

    /// Holds the admission of a session that is being deleted, and keeps the
    /// caller waiting until its children are gone or the hold is given up.
    pub fn begin_teardown_drain(&mut self, parent_session_id: &str, reply: u64, now: u128)
        requires
            now + TEARDOWN_DRAIN_MAX_MS <= u128::MAX,
        ensures
            old(self).wf() ==> final(self).wf(),
            *final(self) == (SubagentCoordinator {
                spawn_blocked_sessions: final(self).spawn_blocked_sessions,
                teardown_drains: final(self).teardown_drains,
                drain_waiters: final(self).drain_waiters,
                ..*old(self)
            }),
            text_set(final(self).spawn_blocked_sessions@) == text_set(
                old(self).spawn_blocked_sessions@,
            ).insert(parent_session_id@),
            match find(old(self).teardown_drains@, (parent_session_id@, ""@)) {
                Some(_) => final(self).teardown_drains@ == old(self).teardown_drains@,
                None => {
                    let drains = final(self).teardown_drains@;
                    &&& drains.drop_last() == old(self).teardown_drains@
                    &&& drains.len() == old(self).teardown_drains@.len() + 1
                    &&& drains.last().parent_session_id@ == parent_session_id@
                    &&& drains.last().deadline == now + TEARDOWN_DRAIN_MAX_MS
                },
            },
            final(self).drain_waiters@.drop_last() == old(self).drain_waiters@,
            final(self).drain_waiters@.len() == old(self).drain_waiters@.len() + 1,
            final(self).drain_waiters@.last().subject@ == parent_session_id@,
            final(self).drain_waiters@.last().reply == reply,
    {
        add_text(&mut self.spawn_blocked_sessions, parent_session_id);
        if position(&self.teardown_drains, parent_session_id, "").is_none() {
            let ghost before = self.teardown_drains@;
            let drain: TeardownDrain = TeardownDrain {
                parent_session_id: parent_session_id.to_owned(),
                deadline: now + TEARDOWN_DRAIN_MAX_MS as u128,
            };
            let _ = put_entry(&mut self.teardown_drains, drain, parent_session_id, "");
            proof {
                assert(self.teardown_drains@.drop_last() =~= before);
            }
        }
        let ghost before = self.drain_waiters@;
        self.drain_waiters.push(ReplyWaiter { subject: parent_session_id.to_owned(), reply });
        proof {
            assert(self.drain_waiters@.drop_last() =~= before);
        }
    }

    /// What giving up the hold on a session leaves and asks for.
    pub open spec fn drain_cleared(
        &self,
        before: SubagentCoordinator,
        session: Seq<char>,
        actions: Seq<Action>,
    ) -> bool {
        &&& *self == (SubagentCoordinator {
            spawn_blocked_sessions: self.spawn_blocked_sessions,
            teardown_drains: self.teardown_drains,
            drain_waiters: self.drain_waiters,
            ..before
        })
        &&& self.spawn_blocked_sessions@ == texts_but(before.spawn_blocked_sessions@, session)
        &&& self.teardown_drains@ == without(before.teardown_drains@, (session, ""@))
        &&& if find(before.teardown_drains@, (session, ""@)) is Some {
            &&& self.drain_waiters@ == waiters_but(before.drain_waiters@, session)
            &&& actions == waiter_answers(before.drain_waiters@, session, true)
        } else {
            &&& self.drain_waiters@ == before.drain_waiters@
            &&& actions.len() == 0
        }
    }

    /// Gives up the hold on a session: it may spawn again, and those who wait
    /// for its end are answered.
    pub fn clear_teardown_drain(&mut self, parent_session_id: &str) -> (r: Vec<Action>)
        ensures
            old(self).wf() ==> final(self).wf(),
            final(self).drain_cleared(*old(self), parent_session_id@, r@),
    {
        drop_text(&mut self.spawn_blocked_sessions, parent_session_id);
        match take_entry(&mut self.teardown_drains, parent_session_id, "") {
            Some(_) => answer_waiters(&mut self.drain_waiters, parent_session_id, true),
            None => Vec::new(),
        }
    }

    /// Gives up the hold on a session once its last child is gone.
    pub fn resolve_teardown_drain_waiters(&mut self, parent_session_id: &str) -> (r: Vec<Action>)
        ensures
            old(self).wf() ==> final(self).wf(),
            if find(old(self).teardown_drains@, (parent_session_id@, ""@)) is Some && !old(
                self,
            ).has_children(parent_session_id@) {
                final(self).drain_cleared(*old(self), parent_session_id@, r@)
            } else {
                *final(self) == *old(self) && r@.len() == 0
            },
    {
        if position(&self.teardown_drains, parent_session_id, "").is_none() {
            return Vec::new();
        }
        if self.session_has_children(parent_session_id) {
            return Vec::new();
        }
        self.clear_teardown_drain(parent_session_id)
    }
}

} // verus!
