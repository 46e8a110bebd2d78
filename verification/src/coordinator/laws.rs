//! What holds of the coordinator as a whole, said of its tables, its answers and
//! what it asks for.
use vstd::prelude::*;
#[allow(unused_imports)]
use vstd::string::*;

#[allow(unused_imports)]
use crate::coordinator::cancel::{
    active_signals, pending_signals, queued_ends, queued_outside, waiter_answers, waiters_but,
};
#[allow(unused_imports)]
use crate::coordinator::command::{
    CommandReply, SubagentCancelTarget, SubagentEvent, activity_of_others, closed_waiters,
    mail_of_others, natives_of_others, waiters_of_others,
};
#[allow(unused_imports)]
use crate::coordinator::deadlines::{
    Holds, active_told, caller_deadline, cancelled_ends, due, earliest, gone, mail_timeouts,
    mail_waiters_live, pending_told, queued_alive, queued_told, reaped_queued, released,
    stale_drains, told_background, waiting_live, waiting_timeouts,
};
#[allow(unused_imports)]
use crate::coordinator::lifecycle::{
    ChildRunOutput, Ending, StartOrigin, StartedChild, evicted, first_unnamed, last_of,
    native_named, snapshot_answers, summary_of, waiting_but,
};
#[allow(unused_imports)]
use crate::coordinator::mailbox::{
    FlushFate, SendStep, WaitOutcome, drained, flush_one, flush_tries, mail_but, mail_for, sent,
};
#[allow(unused_imports)]
use crate::coordinator::roster::{
    RosterView, active_entries, active_ids, active_live, active_refs, completed_entries,
    completed_refs, foreign_completions, owned_summaries, pending_entries, pending_live,
    queued_live, roster_views,
};
#[allow(unused_imports)]
use crate::coordinator::state::{
    ScopeView, SubagentCoordinator, active_count, covers, pending_count,
};
#[allow(unused_imports)]
use crate::coordinator::types::{
    Action, ActiveChild, AdmissionDecision, AgentMailboxIdentity, AgentMailboxMessage,
    AgentMailboxWaiter, AgentMessageSendOutput, AgentRosterEntry, BlockingWaiter,
    BufferedCompletion, CompletedChild, Mail, NativeActivity, NativeAgent, PendingChild,
    PromptScope, QueuedCaller, QueuedSpawn, ReplyWaiter, SpawnedSubagentRef, SubagentCancelOutcome,
    SubagentRequest, SubagentResult, SubagentResumeLookup, TeardownDrain, WakeOrigin, status_of,
};
#[allow(unused_imports)]
use crate::coordinator::wake::{ActiveAgentMessageOutcome, WakeAdmit, wake_request_of};
#[allow(unused_imports)]
use crate::ids::{uuid_text};
#[allow(unused_imports)]
use crate::table::{
    Key, Keyed, Named, find, keys_differ, lemma_find, lemma_find_at, lemma_with_entry,
    lemma_without, lookup, sorted_from, with_entry, without,
};
#[allow(unused_imports)]
use crate::text::{
    in_list, lemma_texts_but, option_view, same_but_case, text_before, text_set, trimmed,
};

verus! {

// ---- scopes ----

/// Which children a scope takes in: those of the id, the prompt, the session or
/// the workflow run that it names, and of one session only where it names one.
/// The children of a workflow are not those of a turn or of a session.
pub proof fn law_scopes_go_by_fields(
    request: SubagentRequest,
    name: Seq<char>,
    other: Seq<char>,
    session: Option<Seq<char>>,
)
    ensures
        covers(ScopeView::Id(name, session), request) <==> request.id@ == name && (session is None
            || session == Some(request.parent_session_id@)),
        covers(ScopeView::Prompt(name, session), request) <==> request.parent_prompt_id is Some
            && request.parent_prompt_id->0@ == name && (session is None || session == Some(
            request.parent_session_id@,
        )),
        covers(ScopeView::Workflow(name, session), request) <==> request.owner is Workflow
            && request.owner->run_id@ == name && (session is None || session == Some(
            request.parent_session_id@,
        )),
        covers(ScopeView::Session(name), request) <==> request.parent_session_id@ == name
            && request.owner is Session,
        covers(ScopeView::Turn(name, other), request) <==> request.parent_session_id@ == name
            && request.parent_prompt_id is Some && request.parent_prompt_id->0@ == other
            && request.owner is Session,
        covers(ScopeView::Everything(name), request) <==> request.parent_session_id@ == name,
        covers(ScopeView::All, request),
{
}

/// The children that run in a scope are counted each once, pending and active.
pub proof fn law_running_children_are_counted(c: SubagentCoordinator, session: Seq<char>)
    ensures
        c.running(ScopeView::Session(session)) == c.pending@.filter(
            |p: PendingChild|
                p.request.parent_session_id@ == session && p.request.owner is Session,
        ).len() + c.active@.filter(
            |a: ActiveChild|
                a.request.parent_session_id@ == session && a.request.owner is Session,
        ).len(),
{
    lemma_pending_counted(c.pending@, session);
    lemma_active_counted(c.active@, session);
}

proof fn lemma_pending_counted(s: Seq<PendingChild>, session: Seq<char>)
    ensures
        pending_count(s, ScopeView::Session(session)) == s.filter(
            |p: PendingChild|
                p.request.parent_session_id@ == session && p.request.owner is Session,
        ).len(),
    decreases s.len(),
{
    reveal(Seq::filter);
    if s.len() > 0 {
        lemma_pending_counted(s.drop_last(), session);
    }
}

proof fn lemma_active_counted(s: Seq<ActiveChild>, session: Seq<char>)
    ensures
        active_count(s, ScopeView::Session(session)) == s.filter(
            |a: ActiveChild|
                a.request.parent_session_id@ == session && a.request.owner is Session,
        ).len(),
    decreases s.len(),
{
    reveal(Seq::filter);
    if s.len() > 0 {
        lemma_active_counted(s.drop_last(), session);
    }
}

/// A session is free of children once none is pending, active or queued.
pub proof fn law_children_of_a_session(c: SubagentCoordinator, session: Seq<char>)
    ensures
        !c.has_children(session) <==> {
            &&& forall|i: int|
                0 <= i < c.pending@.len() ==> (#[trigger] c.pending@[i]).request.parent_session_id@
                    != session
            &&& forall|i: int|
                0 <= i < c.active@.len() ==> (#[trigger] c.active@[i]).request.parent_session_id@
                    != session
            &&& forall|i: int|
                0 <= i < c.queued@.len() ==> (#[trigger] c.queued@[i]).request.parent_session_id@
                    != session
        },
{
}

// ---- starting ----

/// A child that is started is run with the very request, and is pending under
/// its id until it reports. Its caller is told in the background where it asked
/// for that or is no longer there; a caller in the foreground waits for the
/// budget and no longer.
pub proof fn law_started_child_is_run(
    before: SubagentCoordinator,
    after: SubagentCoordinator,
    request: SubagentRequest,
    spawn_reply: Option<u64>,
    origin: StartOrigin,
    wake_origin: Option<WakeOrigin>,
    now: u128,
    actions: Seq<Action>,
    other: Seq<char>,
)
    requires
        before.wf(),
        now + before.config.foreground_budget_ms <= u128::MAX,
        after.start_post(before, request, spawn_reply, origin, wake_origin, now, actions),
        other != request.id@,
    ensures
        actions.last() matches Action::Run {
            request: run,
            wake_origin: woken,
            queued_for_ms,
            session_running,
        } && run == request && woken == wake_origin && (queued_for_ms is None <==> origin is Direct)
            && (origin matches StartOrigin::Dequeued { queued_for_ms: waited, .. } ==> queued_for_ms
            == Some(waited)) && session_running == after.running(
            ScopeView::Session(request.parent_session_id@),
        ) as u128,
        lookup(after.pending@, (request.id@, ""@)) matches Some(p) && {
            &&& p.request == request
            &&& p.started_at == now
            &&& !p.cancelled
            &&& !p.explicitly_killed
            &&& p.spawn_reply == spawn_reply
            &&& p.handle_only <==> (request.run_in_background || spawn_reply is None)
            &&& origin == (StartOrigin::Direct { awaits_in_foreground: true }) && spawn_reply
                is Some ==> p.foreground_deadline == Some(
                (now + before.config.foreground_budget_ms) as u128,
            )
            &&& origin == (StartOrigin::Direct { awaits_in_foreground: false })
                ==> p.foreground_deadline is None
        },
        lookup(after.pending@, (other, ""@)) == lookup(before.pending@, (other, ""@)),
        after.active == before.active,
        after.completed == before.completed,
        after.queued == before.queued,
        after.mailboxes == before.mailboxes,
        actions[0] == (Action::ReportRunning {
            count: (after.pending@.len() + after.active@.len()) as u128,
        }),
        actions.len() == 2,
{
    let p = PendingChild {
        request,
        started_at: now,
        cancelled: false,
        spawn_reply,
        foreground_deadline: match origin {
            StartOrigin::Direct { awaits_in_foreground } => if spawn_reply is Some
                && awaits_in_foreground {
                Some((now + before.config.foreground_budget_ms) as u128)
            } else {
                None
            },
            StartOrigin::Dequeued { deadline, .. } => deadline,
        },
        handle_only: request.run_in_background || spawn_reply is None,
        explicitly_killed: false,
    };
    assert(after.pending@ == with_entry(before.pending@, p));
    lemma_with_entry(before.pending@, p, (request.id@, ""@));
    lemma_with_entry(before.pending@, p, (other, ""@));
}

/// A report of a start is accepted exactly where the child is pending and was
/// not cancelled. It is then active, with its request and its caller, and no
/// longer pending; a report that is refused changes nothing.
pub proof fn law_accepted_start_makes_active(
    before: SubagentCoordinator,
    after: SubagentCoordinator,
    id: Seq<char>,
    child: StartedChild,
    token_cancelled: bool,
    accepted: bool,
    actions: Seq<Action>,
)
    requires
        before.wf(),
        after.started_post(before, id, child, token_cancelled, accepted, actions),
    ensures
        accepted <==> !token_cancelled && exists|i: int|
            0 <= i < before.pending@.len() && (#[trigger] before.pending@[i]).request.id@ == id
                && !before.pending@[i].cancelled,
        !accepted ==> after == before && actions.len() == 0,
        accepted ==> {
            let p = lookup(before.pending@, (id, ""@))->0;
            &&& lookup(after.pending@, (id, ""@)) is None
            &&& lookup(after.active@, (id, ""@)) matches Some(a) && {
                &&& a.request == p.request
                &&& a.started_at == p.started_at
                &&& !a.cancelled
                &&& a.explicitly_killed == p.explicitly_killed
                &&& a.handle_only == p.handle_only
                &&& a.foreground_deadline == p.foreground_deadline
                &&& a.child_session_id == child.child_session_id
                &&& a.definition_background == child.definition_background
                &&& a.worktree_path == child.worktree_path
                &&& a.child_cwd == child.child_cwd
                &&& a.persona == child.persona
                &&& a.resumed_from == child.resumed_from
                &&& a.effective_model_id == child.effective_model_id
                &&& a.spawn_reply == p.spawn_reply || (a.spawn_reply is None && actions.len() == 1)
            }
            &&& actions.len() > 0 ==> p.request.native_agent && p.handle_only
                && (actions[0] matches Action::AnswerSpawn { reply, result } && Some(reply)
                == p.spawn_reply && result.success && result.backgrounded && result.subagent_id@
                == id && result.child_session_id@ == child.child_session_id@)
            &&& after.completed == before.completed
            &&& after.queued == before.queued
        },
{
    let k: Key = (id, ""@);
    lemma_find(before.pending@, k);
    if let Some(p) = lookup(before.pending@, k) {
        let i = find(before.pending@, k)->0;
        assert(before.pending@[i].request.id@ == id);
        assert forall|j: int| 0 <= j < before.pending@.len() && (
        #[trigger] before.pending@[j]).request.id@ == id implies j == i by {
            if i < j {
                assert(before.pending@[i].key() != before.pending@[j].key());
            } else if j < i {
                assert(before.pending@[j].key() != before.pending@[i].key());
            }
        }
        lemma_without(before.pending@, k, k);
        if accepted {
            let answered = p.request.native_agent && p.handle_only && p.spawn_reply is Some;
            let a = ActiveChild {
                request: p.request,
                started_at: p.started_at,
                cancelled: p.cancelled,
                spawn_reply: if answered {
                    None
                } else {
                    p.spawn_reply
                },
                foreground_deadline: p.foreground_deadline,
                handle_only: p.handle_only,
                definition_background: child.definition_background,
                explicitly_killed: p.explicitly_killed,
                child_session_id: child.child_session_id,
                persona: child.persona,
                resumed_from: child.resumed_from,
                child_cwd: child.child_cwd,
                worktree_path: child.worktree_path,
                effective_model_id: child.effective_model_id,
            };
            assert(after.active@ == with_entry(before.active@, a));
            assert(a.key() == k);
            lemma_with_entry(before.active@, a, k);
        }
    } else {
        assert forall|j: int| 0 <= j < before.pending@.len() implies (
        #[trigger] before.pending@[j]).request.id@ != id by {
            assert(before.pending@[j].key() != k);
        }
    }
}

/// What is looked up to be continued: a child that is pending, active or queued
/// in the session still runs; a finished one of the session is found with its
/// own session and model; and a child of another session is missing.
pub proof fn law_resume_finds_own_children(
    c: SubagentCoordinator,
    id: Seq<char>,
    session: Seq<char>,
)
    requires
        c.wf(),
    ensures
        c.resume_lookup(id, session) is Active <==> {
            ||| exists|i: int|
                0 <= i < c.pending@.len() && (#[trigger] c.pending@[i]).request.id@ == id
                    && c.pending@[i].request.parent_session_id@ == session
            ||| exists|i: int|
                0 <= i < c.active@.len() && (#[trigger] c.active@[i]).request.id@ == id
                    && c.active@[i].request.parent_session_id@ == session
            ||| exists|i: int|
                0 <= i < c.queued@.len() && (#[trigger] c.queued@[i]).request.id@ == id
                    && c.queued@[i].request.parent_session_id@ == session
        },
        c.resume_lookup(id, session) matches SubagentResumeLookup::Completed(source) ==> exists|
            i: int,
        |
            {
                &&& 0 <= i < c.completed@.len()
                &&& (#[trigger] c.completed@[i]).request.id@ == id
                &&& c.completed@[i].request.parent_session_id@ == session
                &&& source.subagent_id@ == id
                &&& source.child_session_id == c.completed@[i].child_session_id
                &&& source.child_cwd == c.completed@[i].child_cwd
                &&& source.worktree_path == c.completed@[i].worktree_path
                &&& source.snapshot_ref == c.completed@[i].snapshot_ref
                &&& source.subagent_type == c.completed@[i].request.subagent_type
                &&& source.persona == c.completed@[i].persona
                &&& source.model_id == Some(c.completed@[i].effective_model_id)
            },
        c.resume_lookup(id, session) is Missing ==> forall|i: int|
            0 <= i < c.completed@.len() && (#[trigger] c.completed@[i]).request.id@ == id
                ==> c.completed@[i].request.parent_session_id@ != session,
{
    let k: Key = (id, ""@);
    lemma_find(c.pending@, k);
    lemma_find(c.active@, k);
    lemma_find(c.completed@, k);
    assert forall|i: int| 0 <= i < c.pending@.len() && (#[trigger] c.pending@[i]).request.id@
        == id implies find(c.pending@, k) == Some(i) by {
        lemma_find_at(c.pending@, i);
    }
    assert forall|i: int| 0 <= i < c.active@.len() && (#[trigger] c.active@[i]).request.id@
        == id implies find(c.active@, k) == Some(i) by {
        lemma_find_at(c.active@, i);
    }
    assert forall|i: int| 0 <= i < c.completed@.len() && (#[trigger] c.completed@[i]).request.id@
        == id implies find(c.completed@, k) == Some(i) by {
        lemma_find_at(c.completed@, i);
    }
}

// ---- waking ----

/// A finished child that is woken goes on with the message that it was sent: the
/// request that is run or queued has the prompt of the call, resumes the session
/// of the child, and stays under its id, its owner and its parent. It runs in the
/// background and its end does not surface. It is no longer among the finished.
pub proof fn law_woken_child_gets_the_message(
    before: SubagentCoordinator,
    after: SubagentCoordinator,
    id: Seq<char>,
    session: Seq<char>,
    prompt: String,
    decision: AdmissionDecision,
    now: u128,
    r: Result<WakeAdmit, ActiveAgentMessageOutcome>,
    actions: Seq<Action>,
)
    requires
        before.wf(),
        now + before.config.foreground_budget_ms <= u128::MAX,
        before.wake_refusal(id, session, true) is None,
        after.woken_post(before, id, prompt, decision, now, r, actions),
    ensures
        exists|i: int|
            0 <= i < before.completed@.len() && (#[trigger] before.completed@[i]).request.id@ == id,
        forall|i: int|
            0 <= i < before.completed@.len() && (#[trigger] before.completed@[i]).request.id@ == id
                ==> {
                let c = before.completed@[i];
                let continues = |request: SubagentRequest|
                    {
                        &&& request.prompt@ == prompt@
                        &&& request.resume_from is Some
                        &&& c.child_session_id@.len() > 0 ==> request.resume_from->0@
                            == c.child_session_id@
                        &&& c.child_session_id@.len() == 0 ==> request.resume_from->0@
                            == c.request.id@
                        &&& request.id == c.request.id
                        &&& request.parent_session_id == c.request.parent_session_id
                        &&& request.owner == c.request.owner
                        &&& request.subagent_type == c.request.subagent_type
                        &&& request.description == c.request.description
                        &&& request.cwd == c.request.cwd
                        &&& request.persona == c.request.persona
                        &&& request.loop_task_id == c.request.loop_task_id
                        &&& request.native_agent == c.request.native_agent
                        &&& request.parent_prompt_id is None
                        &&& request.run_in_background
                        &&& !request.surface_completion
                        &&& !request.await_to_completion
                    };
                &&& decision is Start ==> (actions.last() matches Action::Run {
                    request,
                    wake_origin,
                    ..
                } && continues(request) && wake_origin is Some && wake_origin->0.agent_id@ == id && (
                r matches Ok(WakeAdmit::Started { message_id }) && message_id
                    == wake_origin->0.message_id))
                &&& decision is Start ==> (lookup(after.pending@, (id, ""@)) matches Some(p)
                    && continues(p.request) && p.handle_only)
                &&& decision is Enqueue ==> after.queued@.len() == before.queued@.len() + 1
                    && continues(after.queued@.last().request) && after.queued@.take(
                    before.queued@.len() as int,
                ) == before.queued@ && r is Ok
            },
        decision is Reject ==> r is Err && after == before,
        !(decision is Reject) ==> forall|i: int|
            0 <= i < after.completed@.len() ==> (#[trigger] after.completed@[i]).request.id@ != id,
{
    let k: Key = (id, ""@);
    lemma_find(before.completed@, k);
    let at = find(before.completed@, k)->0;
    let c = before.completed@[at];
    assert(c.request.id@ == id);
    assert forall|i: int| 0 <= i < before.completed@.len() && (
    #[trigger] before.completed@[i]).request.id@ == id implies i == at by {
        lemma_find_at(before.completed@, i);
    }
    lemma_without(before.completed@, k, k);
    match decision {
        AdmissionDecision::Start => {
            let (middle, request, origin) = choose|
                middle: SubagentCoordinator,
                request: SubagentRequest,
                origin: WakeOrigin,
            |
                {
                    &&& #[trigger] wake_request_of(c, prompt, request)
                    &&& #[trigger] middle.displaced(before, id)
                    &&& origin.agent_id@ == id
                    &&& uuid_text(origin.message_id@)
                    &&& r matches Ok(WakeAdmit::Started { message_id }) && message_id
                        == origin.message_id
                    &&& #[trigger] after.start_post(
                        middle,
                        request,
                        None,
                        StartOrigin::Direct { awaits_in_foreground: false },
                        Some(origin),
                        now,
                        actions,
                    )
                };
            assert(request.id@ == id);
            assert(middle.completed@ == after.completed@);
            law_started_child_is_run(
                middle,
                after,
                request,
                None,
                StartOrigin::Direct { awaits_in_foreground: false },
                Some(origin),
                now,
                actions,
                id.push('x'),
            );
        },
        AdmissionDecision::Enqueue => {
            assert(after.queued@.take(before.queued@.len() as int) =~= after.queued@.drop_last());
        },
        AdmissionDecision::Reject => {},
    }
    if !(decision is Reject) {
        lemma_find(after.completed@, k);
        assert forall|i: int| 0 <= i < after.completed@.len() implies (
        #[trigger] after.completed@[i]).request.id@ != id by {
            assert(after.completed@[i].key() != k);
        }
    }
}

/// Who may be woken: a finished child of the session that asks, which no workflow
/// owns, while the host can wake and the session may spawn.
pub proof fn law_who_may_be_woken(
    c: SubagentCoordinator,
    id: Seq<char>,
    session: Seq<char>,
    supports_wake: bool,
)
    requires
        c.wf(),
    ensures
        c.wake_refusal(id, session, supports_wake) is None <==> {
            &&& supports_wake
            &&& exists|i: int|
                0 <= i < c.completed@.len() && (#[trigger] c.completed@[i]).request.id@ == id
                    && c.completed@[i].request.parent_session_id@ == session
                    && c.completed@[i].request.owner is Session
            &&& forall|i: int|
                0 <= i < c.spawn_blocked_sessions@.len() ==> (
                #[trigger] c.spawn_blocked_sessions@[i])@ != session
        },
        supports_wake ==> (c.wake_refusal(id, session, supports_wake) == Some(
            ActiveAgentMessageOutcome::NotFoundOrNotOwned,
        ) <==> forall|i: int|
            0 <= i < c.completed@.len() && (#[trigger] c.completed@[i]).request.id@ == id
                ==> c.completed@[i].request.parent_session_id@ != session),
{
    let k: Key = (id, ""@);
    lemma_find(c.completed@, k);
    assert forall|i: int| 0 <= i < c.completed@.len() && (#[trigger] c.completed@[i]).request.id@
        == id implies find(c.completed@, k) == Some(i) by {
        lemma_find_at(c.completed@, i);
    }
}

// ---- cancelling ----

/// The signals to the children of a scope: one for each that it takes in, with
/// its id, in their order, and none for another.
pub proof fn law_signals_reach_the_scope(
    active: Seq<ActiveChild>,
    pending: Seq<PendingChild>,
    scope: ScopeView,
)
    ensures
        active_signals(active, scope) == active.filter(
            |c: ActiveChild| covers(scope, c.request),
        ).map_values(|c: ActiveChild| Action::Cancel { id: c.request.id, live: true }),
        pending_signals(pending, scope) == pending.filter(
            |c: PendingChild| covers(scope, c.request),
        ).map_values(|c: PendingChild| Action::Cancel { id: c.request.id, live: false }),
    decreases active.len() + pending.len(),
{
    reveal(Seq::filter);
    if active.len() > 0 {
        law_signals_reach_the_scope(active.drop_last(), pending, scope);
    }
    if pending.len() > 0 {
        law_signals_reach_the_scope(active, pending.drop_last(), scope);
    }
    assert(active_signals(active, scope) =~= active.filter(
        |c: ActiveChild| covers(scope, c.request),
    ).map_values(|c: ActiveChild| Action::Cancel { id: c.request.id, live: true }));
    assert(pending_signals(pending, scope) =~= pending.filter(
        |c: PendingChild| covers(scope, c.request),
    ).map_values(|c: PendingChild| Action::Cancel { id: c.request.id, live: false }));
}

/// Queued children of a scope leave the queue and are ended; the others stay in
/// their order. The end of one whose parent is gone does not surface.
pub proof fn law_queued_children_of_the_scope_end(
    s: Seq<QueuedSpawn>,
    scope: ScopeView,
    parent_gone: bool,
)
    ensures
        queued_outside(s, scope) == s.filter(|q: QueuedSpawn| !covers(scope, q.request)),
        queued_ends(s, scope, parent_gone).len() == s.filter(
            |q: QueuedSpawn| covers(scope, q.request),
        ).len(),
        forall|i: int|
            0 <= i < queued_ends(s, scope, parent_gone).len() ==> {
                let q = s.filter(|q: QueuedSpawn| covers(scope, q.request))[i];
                (#[trigger] queued_ends(s, scope, parent_gone)[i]) matches Action::FinishQueued {
                    request,
                    caller,
                } && caller == q.caller && request.id == q.request.id && request.prompt
                    == q.request.prompt && request.owner == q.request.owner
                    && request.parent_session_id == q.request.parent_session_id && (
                request.surface_completion <==> q.request.surface_completion && !parent_gone)
            },
    decreases s.len(),
{
    reveal(Seq::filter);
    if s.len() > 0 {
        law_queued_children_of_the_scope_end(s.drop_last(), scope, parent_gone);
        let f = s.drop_last().filter(|q: QueuedSpawn| covers(scope, q.request));
        let e = queued_ends(s.drop_last(), scope, parent_gone);
        assert forall|i: int| 0 <= i < queued_ends(s, scope, parent_gone).len() implies {
            let q = s.filter(|q: QueuedSpawn| covers(scope, q.request))[i];
            (#[trigger] queued_ends(s, scope, parent_gone)[i]) matches Action::FinishQueued {
                request,
                caller,
            } && caller == q.caller && request.id == q.request.id && request.prompt
                == q.request.prompt && request.owner == q.request.owner
                && request.parent_session_id == q.request.parent_session_id && (
            request.surface_completion <==> q.request.surface_completion && !parent_gone)
        } by {
            if i < e.len() {
                assert(queued_ends(s, scope, parent_gone)[i] == e[i]);
                assert(s.filter(|q: QueuedSpawn| covers(scope, q.request))[i] == f[i]);
            }
        }
    }
}

/// Cancelling a scope marks each of its children cancelled, in place, and leaves
/// the others as they are. A child keeps its request, but where its parent is gone
/// its end does not surface.
pub proof fn law_cancelled_children_are_those_of_the_scope(
    before: SubagentCoordinator,
    after: SubagentCoordinator,
    scope: ScopeView,
    parent_gone: bool,
)
    requires
        after.children_cancelled(before, scope, parent_gone),
    ensures
        after.active@.len() == before.active@.len(),
        after.pending@.len() == before.pending@.len(),
        forall|i: int|
            0 <= i < before.active@.len() ==> {
                let b = before.active@[i];
                let a = #[trigger] after.active@[i];
                &&& covers(scope, b.request) ==> a.cancelled && a.request.id == b.request.id
                    && a.request.prompt == b.request.prompt && a.explicitly_killed
                    == b.explicitly_killed && a.spawn_reply == b.spawn_reply && (
                a.request.surface_completion <==> b.request.surface_completion && !parent_gone)
                &&& !covers(scope, b.request) ==> a == b
            },
        forall|i: int|
            0 <= i < before.pending@.len() ==> {
                let b = before.pending@[i];
                let a = #[trigger] after.pending@[i];
                &&& covers(scope, b.request) ==> a.cancelled && a.request.id == b.request.id
                    && a.request.prompt == b.request.prompt && a.explicitly_killed
                    == b.explicitly_killed && a.spawn_reply == b.spawn_reply && (
                a.request.surface_completion <==> b.request.surface_completion && !parent_gone)
                &&& !covers(scope, b.request) ==> a == b
            },
{
}

/// Cancelling one child: the answer is that it was cancelled where it is active,
/// pending or queued for the session that asks, how it finished where it has, and
/// else that it was not found. A running child is marked and signalled, and where
/// it was killed on purpose that is remembered.
pub proof fn law_one_child_is_cancelled(
    before: SubagentCoordinator,
    after: SubagentCoordinator,
    id: Seq<char>,
    session: Option<Seq<char>>,
    explicit: bool,
    outcome: SubagentCancelOutcome,
    actions: Seq<Action>,
)
    requires
        before.wf(),
        after.cancel_one_post(before, id, session, explicit, outcome, actions),
    ensures
        forall|i: int|
            0 <= i < before.active@.len() && (#[trigger] before.active@[i]).request.id@ == id && (
            session is None || session == Some(before.active@[i].request.parent_session_id@)) ==> {
                &&& outcome is Cancelled
                &&& after.active@[i].cancelled
                &&& after.active@[i].request == before.active@[i].request
                &&& explicit ==> after.active@[i].explicitly_killed
                &&& actions == seq![
                    Action::Cancel { id: before.active@[i].request.id, live: true },
                ]
            },
        forall|i: int|
            0 <= i < before.active@.len() && (#[trigger] before.active@[i]).request.id@ != id
                ==> after.active@[i] == before.active@[i],
        forall|i: int|
            0 <= i < before.pending@.len() && (#[trigger] before.pending@[i]).request.id@ != id
                ==> after.pending@[i] == before.pending@[i],
        (forall|i: int|
            0 <= i < before.active@.len() ==> (#[trigger] before.active@[i]).request.id@ != id)
            ==> forall|i: int|
            0 <= i < before.pending@.len() && (#[trigger] before.pending@[i]).request.id@ == id && (
            session is None || session == Some(before.pending@[i].request.parent_session_id@)) ==> {
                &&& outcome is Cancelled
                &&& after.pending@[i].cancelled
                &&& after.pending@[i].request == before.pending@[i].request
                &&& explicit ==> after.pending@[i].explicitly_killed
                &&& actions == seq![
                    Action::Cancel { id: before.pending@[i].request.id, live: false },
                ]
            },
        outcome is NotFound ==> after.queued@ == before.queued@ && actions.len() == 0,
        outcome matches SubagentCancelOutcome::AlreadyFinished { status } ==> exists|i: int|
            {
                &&& 0 <= i < before.completed@.len()
                &&& (#[trigger] before.completed@[i]).request.id@ == id
                &&& before.completed@[i].result.cancelled ==> status@ == "cancelled"@
                &&& !before.completed@[i].result.cancelled && before.completed@[i].result.success
                    ==> status@ == "completed"@
                &&& !before.completed@[i].result.cancelled && !before.completed@[i].result.success
                    ==> status@ == "failed"@
            },
        after.completed == before.completed,
        after.spawn_blocked_sessions == before.spawn_blocked_sessions,
{
    let k: Key = (id, ""@);
    lemma_find(before.active@, k);
    lemma_find(before.pending@, k);
    lemma_find(before.completed@, k);
    assert forall|i: int| 0 <= i < before.active@.len() && (
    #[trigger] before.active@[i]).request.id@ == id implies find(before.active@, k) == Some(
        i,
    ) by {
        lemma_find_at(before.active@, i);
    }
    assert forall|i: int| 0 <= i < before.pending@.len() && (
    #[trigger] before.pending@[i]).request.id@ == id implies find(before.pending@, k) == Some(
        i,
    ) by {
        lemma_find_at(before.pending@, i);
    }
    let scope = ScopeView::Id(id, session);
    if !before.queues(scope) {
        assert(queued_outside(before.queued@, scope) == before.queued@ && queued_ends(
            before.queued@,
            scope,
            false,
        ).len() == 0) by {
            lemma_nothing_queued(before.queued@, scope);
        }
    }
}

proof fn lemma_nothing_queued(s: Seq<QueuedSpawn>, scope: ScopeView)
    requires
        forall|i: int| 0 <= i < s.len() ==> !covers(scope, (#[trigger] s[i]).request),
    ensures
        queued_outside(s, scope) == s,
        queued_ends(s, scope, false).len() == 0,
    decreases s.len(),
{
    if s.len() > 0 {
        lemma_nothing_queued(s.drop_last(), scope);
        assert(s.drop_last().push(s.last()) =~= s);
    }
    assert(queued_outside(s, scope) =~= s);
}

/// The callers that wait for a subject are each answered, and the others go on
/// waiting.
pub proof fn law_waiters_of_the_subject_are_answered(
    s: Seq<ReplyWaiter>,
    subject: Seq<char>,
)
    ensures
        waiters_but(s, subject) == s.filter(|w: ReplyWaiter| w.subject@ != subject),
        waiter_answers(s, subject, false) == s.filter(
            |w: ReplyWaiter| w.subject@ == subject,
        ).map_values(|w: ReplyWaiter| Action::AnswerCancelled { reply: w.reply }),
        waiter_answers(s, subject, true) == s.filter(
            |w: ReplyWaiter| w.subject@ == subject,
        ).map_values(|w: ReplyWaiter| Action::AnswerDrained { reply: w.reply }),
    decreases s.len(),
{
    reveal(Seq::filter);
    if s.len() > 0 {
        law_waiters_of_the_subject_are_answered(s.drop_last(), subject);
    }
    assert(waiter_answers(s, subject, false) =~= s.filter(
        |w: ReplyWaiter| w.subject@ == subject,
    ).map_values(|w: ReplyWaiter| Action::AnswerCancelled { reply: w.reply }));
    assert(waiter_answers(s, subject, true) =~= s.filter(
        |w: ReplyWaiter| w.subject@ == subject,
    ).map_values(|w: ReplyWaiter| Action::AnswerDrained { reply: w.reply }));
}

/// A workflow run is idle once none of its children is pending or active.
pub proof fn law_idle_runs_have_no_children(c: SubagentCoordinator, run: Seq<char>)
    ensures
        c.workflow_idle(run) <==> {
            &&& forall|i: int|
                0 <= i < c.pending@.len() ==> !((#[trigger] c.pending@[i]).request.owner is Workflow
                    && c.pending@[i].request.owner->run_id@ == run)
            &&& forall|i: int|
                0 <= i < c.active@.len() ==> !((#[trigger] c.active@[i]).request.owner is Workflow
                    && c.active@[i].request.owner->run_id@ == run)
        },
{
    let scope = ScopeView::Workflow(run, None);
    assert forall|i: int| 0 <= i < c.pending@.len() implies (covers(
        scope,
        (#[trigger] c.pending@[i]).request,
    ) <==> c.pending@[i].request.owner is Workflow && c.pending@[i].request.owner->run_id@ == run) by {}
    assert forall|i: int| 0 <= i < c.active@.len() implies (covers(
        scope,
        (#[trigger] c.active@[i]).request,
    ) <==> c.active@[i].request.owner is Workflow && c.active@[i].request.owner->run_id@ == run) by {}
}

/// A cancel command takes in exactly what it names: a prompt and a session their
/// children, of which a session may spawn no more, and a workflow run its own,
/// whose caller is answered at once where none is left and later otherwise.
pub proof fn law_cancel_commands_name_their_scope(
    before: SubagentCoordinator,
    after: SubagentCoordinator,
    target: SubagentCancelTarget,
    session: Option<String>,
    reply: u64,
    answer: CommandReply,
    actions: Seq<Action>,
)
    requires
        after.cancel_post(before, target, session, reply, answer, actions),
        !(target is SubagentId),
        !(target is ParentSession && session is None),
    ensures
        forall|i: int|
            0 <= i < before.active@.len() ==> {
                let q = before.active@[i].request;
                let own = session is None || q.parent_session_id@ == session->0@;
                let hit = match target {
                    SubagentCancelTarget::ParentPromptId(p) => own && q.parent_prompt_id is Some
                        && q.parent_prompt_id->0@ == p@,
                    SubagentCancelTarget::ParentSession => own && q.owner is Session,
                    SubagentCancelTarget::WorkflowRunId(run) => own && q.owner is Workflow
                        && q.owner->run_id@ == run@,
                    _ => false,
                };
                (#[trigger] after.active@[i]).cancelled == (before.active@[i].cancelled || hit)
            },
        forall|i: int|
            0 <= i < before.pending@.len() ==> {
                let q = before.pending@[i].request;
                let own = session is None || q.parent_session_id@ == session->0@;
                let hit = match target {
                    SubagentCancelTarget::ParentPromptId(p) => own && q.parent_prompt_id is Some
                        && q.parent_prompt_id->0@ == p@,
                    SubagentCancelTarget::ParentSession => own && q.owner is Session,
                    SubagentCancelTarget::WorkflowRunId(run) => own && q.owner is Workflow
                        && q.owner->run_id@ == run@,
                    _ => false,
                };
                (#[trigger] after.pending@[i]).cancelled == (before.pending@[i].cancelled || hit)
            },
        target is ParentSession ==> in_list(after.spawn_blocked_sessions@, session->0@),
        !(target is ParentSession) ==> after.spawn_blocked_sessions
            == before.spawn_blocked_sessions,
        target is WorkflowRunId ==> after.queued == before.queued,
        answer is Later ==> target is WorkflowRunId && after.workflow_cancel_waiters@.last().reply
            == reply && after.workflow_cancel_waiters@.last().subject@ == target->WorkflowRunId_0@,
        target is ParentPromptId || target is ParentSession ==> answer == CommandReply::Cancelled(
            SubagentCancelOutcome::Cancelled,
        ),
{
    if target is ParentSession {
        assert(text_set(after.spawn_blocked_sessions@).contains(session->0@));
    }
}

// ---- callers that are gone, and deadlines ----

/// A caller whose channel is closed is let go: its child runs on in the background
/// without an answer. A child whose caller is still there is left as it is.
pub proof fn law_abandoned_children_go_on(
    before: SubagentCoordinator,
    after: SubagentCoordinator,
    closed: Seq<u64>,
    now: u128,
    actions: Seq<Action>,
)
    requires
        after.reap_post(before, closed, now, actions),
    ensures
        after.pending@.len() == before.pending@.len(),
        after.active@.len() == before.active@.len(),
        forall|i: int|
            0 <= i < before.active@.len() ==> {
                let b = before.active@[i];
                let a = #[trigger] after.active@[i];
                if !b.handle_only && b.spawn_reply is Some && closed.contains(b.spawn_reply->0) {
                    &&& a.handle_only
                    &&& a.spawn_reply is None
                    &&& a.foreground_deadline is None
                    &&& a.request == b.request
                    &&& a.cancelled == b.cancelled
                    &&& a.child_session_id == b.child_session_id
                } else {
                    a == b
                }
            },
        forall|i: int|
            0 <= i < before.pending@.len() ==> {
                let b = before.pending@[i];
                let a = #[trigger] after.pending@[i];
                if !b.handle_only && b.spawn_reply is Some && closed.contains(b.spawn_reply->0) {
                    &&& a.handle_only
                    &&& a.spawn_reply is None
                    &&& a.foreground_deadline is None
                    &&& a.request == b.request
                    &&& a.cancelled == b.cancelled
                } else {
                    a == b
                }
            },
        after.queued@.len() == before.queued@.filter(|q: QueuedSpawn| !q.cancelled).len(),
        forall|i: int|
            0 <= i < after.queued@.len() ==> {
                let b = before.queued@.filter(|q: QueuedSpawn| !q.cancelled)[i];
                let a = #[trigger] after.queued@[i];
                &&& a.request == b.request
                &&& a.queued_at == b.queued_at
                &&& a.wake_origin == b.wake_origin
                &&& match b.caller {
                    QueuedCaller::Awaiting { reply, .. } => if closed.contains(reply) {
                        a.caller is Backgrounded
                    } else {
                        a.caller == b.caller
                    },
                    QueuedCaller::Backgrounded => a.caller is Backgrounded,
                }
            },
        actions.len() == before.queued@.filter(|q: QueuedSpawn| q.cancelled).len(),
        forall|i: int|
            0 <= i < actions.len() ==> ((#[trigger] actions[i]) matches Action::FinishQueued {
                request,
                ..
            } && request == before.queued@.filter(|q: QueuedSpawn| q.cancelled)[i].request),
        after.completed == before.completed,
        after.last_queued_reap == now,
{
    lemma_swept_queue(before.queued@, closed);
}

proof fn lemma_swept_queue(s: Seq<QueuedSpawn>, closed: Seq<u64>)
    ensures
        ({
            let swept = s.map_values(|q: QueuedSpawn| reaped_queued(q, closed));
            let alive = s.filter(|q: QueuedSpawn| !q.cancelled);
            let gone = s.filter(|q: QueuedSpawn| q.cancelled);
            &&& queued_alive(swept).len() == alive.len()
            &&& cancelled_ends(swept).len() == gone.len()
            &&& forall|i: int|
                0 <= i < alive.len() ==> #[trigger] queued_alive(swept)[i] == reaped_queued(
                    alive[i],
                    closed,
                )
            &&& forall|i: int|
                0 <= i < gone.len() ==> ((#[trigger] cancelled_ends(swept)[i])
                    matches Action::FinishQueued { request, .. } && request == gone[i].request)
        }),
    decreases s.len(),
{
    reveal(Seq::filter);
    let swept = s.map_values(|q: QueuedSpawn| reaped_queued(q, closed));
    if s.len() > 0 {
        let t = s.drop_last();
        let swept_t = t.map_values(|q: QueuedSpawn| reaped_queued(q, closed));
        lemma_swept_queue(t, closed);
        assert(swept.drop_last() =~= swept_t);
        assert(swept.last() == reaped_queued(s.last(), closed));
        let alive = s.filter(|q: QueuedSpawn| !q.cancelled);
        let gone = s.filter(|q: QueuedSpawn| q.cancelled);
        let alive_t = t.filter(|q: QueuedSpawn| !q.cancelled);
        let gone_t = t.filter(|q: QueuedSpawn| q.cancelled);
        assert forall|i: int| 0 <= i < alive.len() implies #[trigger] queued_alive(swept)[i]
            == reaped_queued(alive[i], closed) by {
            if i < alive_t.len() {
                assert(queued_alive(swept)[i] == queued_alive(swept_t)[i]);
                assert(alive[i] == alive_t[i]);
            }
        }
        assert forall|i: int| 0 <= i < gone.len() implies ((#[trigger] cancelled_ends(swept)[i])
            matches Action::FinishQueued { request, .. } && request == gone[i].request) by {
            if i < gone_t.len() {
                assert(cancelled_ends(swept)[i] == cancelled_ends(swept_t)[i]);
                assert(gone[i] == gone_t[i]);
            }
        }
    }
}

/// What is past its deadline is answered and waits no longer: mail waiters are told
/// that the time is up, and waiters for a child what is known of it. What is not
/// past its deadline goes on waiting.
pub proof fn law_waiters_end_at_their_deadline(
    mail: Seq<AgentMailboxWaiter>,
    waiters: Seq<BlockingWaiter>,
    now: u128,
)
    ensures
        mail_waiters_live(mail, now) == mail.filter(|w: AgentMailboxWaiter| w.deadline > now),
        mail_timeouts(mail, now) == mail.filter(
            |w: AgentMailboxWaiter| w.deadline <= now,
        ).map_values(
            |w: AgentMailboxWaiter| Action::NoMail { reply: w.reply, timed_out: true },
        ),
        waiting_live(waiters, now) == waiters.filter(|w: BlockingWaiter| w.deadline > now),
    decreases mail.len() + waiters.len(),
{
    reveal(Seq::filter);
    if mail.len() > 0 {
        law_waiters_end_at_their_deadline(mail.drop_last(), waiters, now);
    }
    if waiters.len() > 0 {
        law_waiters_end_at_their_deadline(mail, waiters.drop_last(), now);
    }
    assert(mail_timeouts(mail, now) =~= mail.filter(
        |w: AgentMailboxWaiter| w.deadline <= now,
    ).map_values(|w: AgentMailboxWaiter| Action::NoMail { reply: w.reply, timed_out: true }));
}

/// Each waiter for a child that is due and still there is answered once: with the
/// progress of a child that is active, and else with what is known.
pub proof fn law_due_waiters_are_told(
    s: Seq<BlockingWaiter>,
    active: Seq<ActiveChild>,
    closed: Seq<u64>,
    now: u128,
)
    ensures
        ({
            let due = s.filter(|w: BlockingWaiter| w.deadline <= now && !closed.contains(w.reply));
            &&& waiting_timeouts(s, active, closed, now).len() == due.len()
            &&& forall|i: int|
                0 <= i < due.len() ==> {
                    let lives = exists|j: int|
                        0 <= j < active.len() && (#[trigger] active[j]).request.id@
                            == due[i].subagent_id@;
                    match #[trigger] waiting_timeouts(s, active, closed, now)[i] {
                        Action::AnswerProgress { reply, id } => lives && reply == due[i].reply && id
                            == due[i].subagent_id,
                        Action::AnswerReady { reply, id } => !lives && reply == due[i].reply && id
                            == due[i].subagent_id,
                        _ => false,
                    }
                }
        }),
    decreases s.len(),
{
    reveal(Seq::filter);
    if s.len() > 0 {
        let t = s.drop_last();
        law_due_waiters_are_told(t, active, closed, now);
        let due = s.filter(|w: BlockingWaiter| w.deadline <= now && !closed.contains(w.reply));
        let due_t = t.filter(|w: BlockingWaiter| w.deadline <= now && !closed.contains(w.reply));
        assert forall|i: int| 0 <= i < due.len() implies {
            let lives = exists|j: int|
                0 <= j < active.len() && (#[trigger] active[j]).request.id@ == due[i].subagent_id@;
            match #[trigger] waiting_timeouts(s, active, closed, now)[i] {
                Action::AnswerProgress { reply, id } => lives && reply == due[i].reply && id
                    == due[i].subagent_id,
                Action::AnswerReady { reply, id } => !lives && reply == due[i].reply && id
                    == due[i].subagent_id,
                _ => false,
            }
        } by {
            if i < due_t.len() {
                assert(waiting_timeouts(s, active, closed, now)[i] == waiting_timeouts(
                    t,
                    active,
                    closed,
                    now,
                )[i]);
                assert(due[i] == due_t[i]);
            } else {
                let w = s.last();
                let k: Key = (w.subagent_id@, ""@);
                lemma_find(active, k);
                if find(active, k) is Some {
                    let j = find(active, k)->0;
                    assert(active[j].request.id@ == w.subagent_id@);
                } else {
                    assert forall|j: int| 0 <= j < active.len() implies (
                    #[trigger] active[j]).request.id@ != w.subagent_id@ by {
                        assert(active[j].key() != k);
                    }
                }
            }
        }
    }
}

/// A child whose caller waited for the whole budget goes to the background, and the
/// caller is told so under the child's id; a child that is not due keeps its caller.
pub proof fn law_due_children_go_to_the_background(
    before: SubagentCoordinator,
    after: SubagentCoordinator,
    closed: Seq<u64>,
    now: u128,
    actions: Seq<Seq<Action>>,
)
    requires
        after.deadlines_post(before, closed, now, actions),
    ensures
        after.active@.len() == before.active@.len(),
        after.pending@.len() == before.pending@.len(),
        forall|i: int|
            0 <= i < before.active@.len() ==> {
                let b = before.active@[i];
                let a = #[trigger] after.active@[i];
                let due = b.foreground_deadline is Some && b.foreground_deadline->0 <= now;
                let left = !b.handle_only && b.spawn_reply is Some && closed.contains(
                    b.spawn_reply->0,
                );
                &&& a.request == b.request
                &&& a.cancelled == b.cancelled
                &&& due || left ==> a.handle_only && a.spawn_reply is None && a.foreground_deadline
                    is None
                &&& !due && !left ==> a == b
            },
        forall|i: int|
            0 <= i < before.pending@.len() ==> {
                let b = before.pending@[i];
                let a = #[trigger] after.pending@[i];
                let due = b.foreground_deadline is Some && b.foreground_deadline->0 <= now;
                let left = !b.handle_only && b.spawn_reply is Some && closed.contains(
                    b.spawn_reply->0,
                );
                &&& a.request == b.request
                &&& a.cancelled == b.cancelled
                &&& due || left ==> a.handle_only && a.spawn_reply is None && a.foreground_deadline
                    is None
                &&& !due && !left ==> a == b
            },
        after.waiters@ == before.waiters@.filter(|w: BlockingWaiter| w.deadline > now),
        after.mailbox_waiters@ == before.mailbox_waiters@.filter(
            |w: AgentMailboxWaiter| w.deadline > now,
        ),
        after.completed == before.completed,
        after.mailboxes == before.mailboxes,
{
    law_waiters_end_at_their_deadline(before.mailbox_waiters@, before.waiters@, now);
}

/// The callers of active children that are due: each still there is told once that
/// its child goes on in the background, by the id and the session of the child.
pub proof fn law_due_callers_are_told(s: Seq<ActiveChild>, now: u128)
    ensures
        active_told(s, now) == s.filter(
            |c: ActiveChild|
                c.foreground_deadline is Some && c.foreground_deadline->0 <= now && c.spawn_reply
                    is Some,
        ).map_values(
            |c: ActiveChild| (c.spawn_reply->0, c.request.id@, c.child_session_id@),
        ),
    decreases s.len(),
{
    reveal(Seq::filter);
    if s.len() > 0 {
        law_due_callers_are_told(s.drop_last(), now);
    }
    assert(active_told(s, now) =~= s.filter(
        |c: ActiveChild|
            c.foreground_deadline is Some && c.foreground_deadline->0 <= now && c.spawn_reply
                is Some,
    ).map_values(|c: ActiveChild| (c.spawn_reply->0, c.request.id@, c.child_session_id@)));
}

/// The same for pending children, which have no session yet.
pub proof fn law_due_pending_callers_are_told(s: Seq<PendingChild>, now: u128)
    ensures
        pending_told(s, now) == s.filter(
            |c: PendingChild|
                c.foreground_deadline is Some && c.foreground_deadline->0 <= now && c.spawn_reply
                    is Some,
        ).map_values(|c: PendingChild| (c.spawn_reply->0, c.request.id@, c.request.id@)),
    decreases s.len(),
{
    reveal(Seq::filter);
    if s.len() > 0 {
        law_due_pending_callers_are_told(s.drop_last(), now);
    }
    assert(pending_told(s, now) =~= s.filter(
        |c: PendingChild|
            c.foreground_deadline is Some && c.foreground_deadline->0 <= now && c.spawn_reply
                is Some,
    ).map_values(|c: PendingChild| (c.spawn_reply->0, c.request.id@, c.request.id@)));
}

/// Who is told of the background gets a result that says so and claims nothing
/// else.
pub proof fn law_background_answers_claim_nothing(
    a: Action,
    reply: u64,
    id: Seq<char>,
    session: Seq<char>,
)
    requires
        told_background(a, reply, id, session),
    ensures
        a matches Action::AnswerSpawn { reply: to, result } && to == reply && result.backgrounded
            && !result.success && !result.cancelled && result.error is None && result.output@.len()
            == 0 && result.subagent_id@ == id && result.child_session_id@ == session
            && result.tokens_used == 0,
{
    if let Action::AnswerSpawn { reply: to, result } = a {
        assert(result@.error is None);
        assert(result@.output.len() == 0);
    }
}

/// The coordinator wakes up no later than the earliest deadline that it has, and
/// not at another time.
pub proof fn law_next_deadline_is_the_earliest(s: Seq<Option<u128>>)
    ensures
        forall|i: int|
            0 <= i < s.len() && (#[trigger] s[i]) is Some ==> earliest(s) is Some && earliest(s)->0
                <= s[i]->0,
        earliest(s) is Some ==> s.contains(earliest(s)),
    decreases s.len(),
{
    if s.len() > 0 {
        law_next_deadline_is_the_earliest(s.drop_last());
        assert forall|i: int| 0 <= i < s.len() && (#[trigger] s[i]) is Some implies earliest(s)
            is Some && earliest(s)->0 <= s[i]->0 by {
            if i < s.len() - 1 {
                assert(s.drop_last()[i] == s[i]);
            }
        }
        if earliest(s) is Some {
            let before = earliest(s.drop_last());
            if earliest(s) == s.last() {
                assert(s[s.len() - 1] == earliest(s));
            } else {
                let i = choose|i: int|
                    0 <= i < s.drop_last().len() && s.drop_last()[i] == before;
                assert(s[i] == earliest(s));
            }
        }
    }
}

/// No deadline is overlooked: whoever waits is awaited by the next deadline.
pub proof fn law_every_deadline_counts(c: SubagentCoordinator)
    ensures
        forall|i: int|
            0 <= i < c.active@.len() ==> c.deadlines().contains(
                (#[trigger] c.active@[i]).foreground_deadline,
            ),
        forall|i: int|
            0 <= i < c.pending@.len() ==> c.deadlines().contains(
                (#[trigger] c.pending@[i]).foreground_deadline,
            ),
        forall|i: int|
            0 <= i < c.waiters@.len() ==> c.deadlines().contains(
                Some((#[trigger] c.waiters@[i]).deadline),
            ),
        forall|i: int|
            0 <= i < c.mailbox_waiters@.len() ==> c.deadlines().contains(
                Some((#[trigger] c.mailbox_waiters@[i]).deadline),
            ),
        forall|i: int|
            0 <= i < c.native_waiters@.len() ==> c.deadlines().contains(
                Some((#[trigger] c.native_waiters@[i]).deadline),
            ),
        forall|i: int|
            0 <= i < c.teardown_drains@.len() ==> c.deadlines().contains(
                Some((#[trigger] c.teardown_drains@[i]).deadline),
            ),
        forall|i: int|
            0 <= i < c.queued@.len() ==> ((#[trigger] c.queued@[i]).caller
                matches QueuedCaller::Awaiting { deadline, .. } ==> c.deadlines().contains(
                deadline,
            )),
        c.queued@.len() > 0 ==> c.deadlines().contains(
            Some((c.last_queued_reap + c.config.queued_reap_interval_ms) as u128),
        ),
{
    let d = c.deadlines();
    let (p, a, q, w, m, n) = (
        c.pending@.len(),
        c.active@.len(),
        c.queued@.len(),
        c.waiters@.len(),
        c.mailbox_waiters@.len(),
        c.native_waiters@.len(),
    );
    let t = c.teardown_drains@.len();
    assert forall|i: int| 0 <= i < p implies d.contains(
        (#[trigger] c.pending@[i]).foreground_deadline,
    ) by {
        assert(d[i] == c.pending@[i].foreground_deadline);
    }
    assert forall|i: int| 0 <= i < a implies d.contains(
        (#[trigger] c.active@[i]).foreground_deadline,
    ) by {
        assert(d[p + i] == c.active@[i].foreground_deadline);
    }
    assert forall|i: int| 0 <= i < q implies ((#[trigger] c.queued@[i]).caller
        matches QueuedCaller::Awaiting { deadline, .. } ==> d.contains(deadline)) by {
        assert(d[p + a + i] == caller_deadline(c.queued@[i].caller));
    }
    assert forall|i: int| 0 <= i < w implies d.contains(
        Some((#[trigger] c.waiters@[i]).deadline),
    ) by {
        assert(d[p + a + q + i] == Some(c.waiters@[i].deadline));
    }
    assert forall|i: int| 0 <= i < m implies d.contains(
        Some((#[trigger] c.mailbox_waiters@[i]).deadline),
    ) by {
        assert(d[p + a + q + w + i] == Some(c.mailbox_waiters@[i].deadline));
    }
    assert forall|i: int| 0 <= i < n implies d.contains(
        Some((#[trigger] c.native_waiters@[i]).deadline),
    ) by {
        assert(d[p + a + q + w + m + i] == Some(c.native_waiters@[i].deadline));
    }
    assert forall|i: int| 0 <= i < t implies d.contains(
        Some((#[trigger] c.teardown_drains@[i]).deadline),
    ) by {
        assert(d[p + a + q + w + m + n + i] == Some(c.teardown_drains@[i].deadline));
    }
    if q > 0 {
        assert(d[(p + a + q + w + m + n + t) as int] == Some(
            (c.last_queued_reap + c.config.queued_reap_interval_ms) as u128,
        ));
    }
}

// ---- mail ----

/// The mail of an agent is what was sent to it in its team, in order, and the rest
/// is the mail of others.
pub proof fn law_mail_is_kept_apart(s: Seq<Mail>, team: Seq<char>, agent: Seq<char>)
    ensures
        mail_for(s, (team, agent)) == s.filter(
            |m: Mail| m.team_scope_id@ == team && m.agent_id@ == agent,
        ).map_values(|m: Mail| m.message),
        mail_but(s, (team, agent)) == s.filter(
            |m: Mail| !(m.team_scope_id@ == team && m.agent_id@ == agent),
        ),
    decreases s.len(),
{
    reveal(Seq::filter);
    if s.len() > 0 {
        law_mail_is_kept_apart(s.drop_last(), team, agent);
    }
    assert(mail_for(s, (team, agent)) =~= s.filter(
        |m: Mail| m.team_scope_id@ == team && m.agent_id@ == agent,
    ).map_values(|m: Mail| m.message));
}

/// An agent that reads its mail gets its oldest messages that no native team sent,
/// as many as it may take, in order, and nothing is lost: what it does not get
/// stays.
pub proof fn law_readers_get_their_oldest_mail(
    s: Seq<Mail>,
    team: Seq<char>,
    agent: Seq<char>,
    n: nat,
)
    ensures
        ({
            let own = s.filter(
                |m: Mail|
                    m.team_scope_id@ == team && m.agent_id@ == agent && m.message.native is None,
            ).map_values(|m: Mail| m.message);
            let (messages, rest) = drained(s, (team, agent), n);
            &&& messages == (if own.len() > n {
                own.take(n as int)
            } else {
                own
            })
            &&& messages.len() + rest.len() == s.len()
            &&& forall|i: int| 0 <= i < rest.len() ==> s.contains(#[trigger] rest[i])
        }),
    decreases s.len(),
{
    let is_own = |m: Mail|
        m.team_scope_id@ == team && m.agent_id@ == agent && m.message.native is None;
    let k: Key = (team, agent);
    if s.len() == 0 {
        reveal(Seq::filter);
        assert(s.filter(is_own).map_values(|m: Mail| m.message) =~= Seq::empty());
    } else {
        let one = seq![s[0]];
        let t = s.drop_first();
        assert(s =~= one + t);
        Seq::filter_distributes_over_add(one, t, is_own);
        assert(one.filter(is_own) == if is_own(s[0]) {
            one
        } else {
            Seq::empty()
        }) by {
            reveal(Seq::filter);
            assert(one.drop_last() =~= Seq::<Mail>::empty());
            assert(Seq::<Mail>::empty().filter(is_own) =~= Seq::<Mail>::empty());
            assert(Seq::<Mail>::empty().push(s[0]) =~= one);
        }
        let own = s.filter(is_own).map_values(|m: Mail| m.message);
        let own_t = t.filter(is_own).map_values(|m: Mail| m.message);
        let takes = n > 0 && is_own(s[0]);
        let fewer = if takes {
            (n - 1) as nat
        } else {
            n
        };
        law_readers_get_their_oldest_mail(t, team, agent, fewer);
        let (messages, rest) = drained(s, k, n);
        let (messages_t, rest_t) = drained(t, k, fewer);
        if is_own(s[0]) {
            assert(own =~= seq![s[0].message] + own_t);
        } else {
            assert(own =~= own_t);
        }
        let expected = if own.len() > n {
            own.take(n as int)
        } else {
            own
        };
        assert(messages =~= expected);
        assert forall|i: int| 0 <= i < rest.len() implies s.contains(#[trigger] rest[i]) by {
            if takes {
                let j = choose|j: int| 0 <= j < t.len() && t[j] == rest_t[i];
                assert(s[j + 1] == rest[i]);
            } else if i == 0 {
                assert(rest[0] == s[0]);
            } else {
                assert(rest[i] == rest_t[i - 1]);
                let j = choose|j: int| 0 <= j < t.len() && t[j] == rest_t[i - 1];
                assert(s[j + 1] == rest[i]);
            }
        }
    }
}

/// Waiting for mail: what is there is handed over at once, twenty messages at most;
/// else an agent that will not wait is told that the time is up, and one that will
/// is parked until its time.
pub proof fn law_waiting_hands_over_what_is_there(
    before: SubagentCoordinator,
    after: SubagentCoordinator,
    team: Seq<char>,
    agent: Seq<char>,
    timeout_ms: u64,
    reply: u64,
    now: u128,
    outcome: WaitOutcome,
)
    requires
        before.wf(),
        after.wait_post(before, (team, agent), timeout_ms, reply, now, outcome),
    ensures
        ({
            let own = before.mailboxes@.filter(
                |m: Mail|
                    m.team_scope_id@ == team && m.agent_id@ == agent && m.message.native is None,
            ).map_values(|m: Mail| m.message);
            if own.len() > 0 {
                outcome matches WaitOutcome::Now { messages, timed_out } && !timed_out && messages@
                    == own.take(
                    if own.len() > 20 {
                        20
                    } else {
                        own.len() as int
                    },
                )
            } else if timeout_ms == 0 {
                (outcome matches WaitOutcome::Now { messages, timed_out } && timed_out
                    && messages@.len() == 0) && after.mailboxes@ == before.mailboxes@
            } else {
                &&& outcome is Parked
                &&& lookup(after.mailbox_waiters@, (team, agent)) matches Some(w) && w.reply
                    == reply && w.deadline == now + timeout_ms
                &&& after.mailboxes@ == before.mailboxes@
            }
        }),
{
    law_readers_get_their_oldest_mail(before.mailboxes@, team, agent, 20);
    let own = before.mailboxes@.filter(
        |m: Mail| m.team_scope_id@ == team && m.agent_id@ == agent && m.message.native is None,
    ).map_values(|m: Mail| m.message);
    if own.len() > 0 && own.len() <= 20 {
        assert(own.take(own.len() as int) =~= own);
    }
    if own.len() == 0 && timeout_ms > 0 {
        let w = choose|w: AgentMailboxWaiter|
            {
                &&& #[trigger] w.key() == (team, agent)
                &&& w.reply == reply
                &&& w.deadline == now + timeout_ms
                &&& after.mailbox_waiters@ == with_entry(before.mailbox_waiters@, w)
            };
        lemma_with_entry(before.mailbox_waiters@, w, (team, agent));
    }
}

/// Whom a message is for: the root by its name in any case, or an agent of the team
/// by its id, and never the sender.
pub proof fn law_messages_stay_in_the_team(
    c: SubagentCoordinator,
    identity: AgentMailboxIdentity,
    target: Seq<char>,
)
    requires
        c.wf(),
    ensures
        c.target_of(identity, target) matches Ok(id) ==> {
            &&& id != identity.agent_id@
            &&& id == trimmed(target) || (id == identity.team_scope_id@ && same_but_case(
                trimmed(target),
                "root"@,
            ))
            &&& id != identity.team_scope_id@ ==> {
                ||| exists|i: int|
                    0 <= i < c.pending@.len() && (#[trigger] c.pending@[i]).request.id@ == id
                        && c.pending@[i].request.parent_session_id@ == identity.team_scope_id@
                ||| exists|i: int|
                    0 <= i < c.active@.len() && (#[trigger] c.active@[i]).request.id@ == id
                        && c.active@[i].request.parent_session_id@ == identity.team_scope_id@
                ||| exists|i: int|
                    0 <= i < c.completed@.len() && (#[trigger] c.completed@[i]).request.id@ == id
                        && c.completed@[i].request.parent_session_id@ == identity.team_scope_id@
            }
        },
        same_but_case(trimmed(target), "root"@) && identity.agent_id@ != identity.team_scope_id@
            && trimmed(target).len() > 0 ==> c.target_of(identity, target) == Ok::<Seq<char>, Seq<char>>(
            identity.team_scope_id@,
        ),
        (exists|i: int|
            0 <= i < c.active@.len() && (#[trigger] c.active@[i]).request.id@ == trimmed(target)
                && c.active@[i].request.parent_session_id@ == identity.team_scope_id@)
            && trimmed(target).len() > 0 && trimmed(target) != identity.agent_id@ && !same_but_case(
            trimmed(target),
            "root"@,
        ) && trimmed(target) != identity.team_scope_id@ ==> c.target_of(identity, target) == Ok::<
            Seq<char>,
            Seq<char>,
        >(trimmed(target)),
{
    let team = identity.team_scope_id@;
    let id = trimmed(target);
    let k: Key = (id, ""@);
    lemma_find(c.pending@, k);
    lemma_find(c.active@, k);
    lemma_find(c.completed@, k);
    if exists|i: int|
        0 <= i < c.active@.len() && (#[trigger] c.active@[i]).request.id@ == id
            && c.active@[i].request.parent_session_id@ == team {
        let i = choose|i: int|
            0 <= i < c.active@.len() && (#[trigger] c.active@[i]).request.id@ == id
                && c.active@[i].request.parent_session_id@ == team;
        lemma_find_at(c.active@, i);
    }
}

/// A message that is sent arrives as it was written: it is handed to the agent that
/// waits for it, offered to a live session where it steers, or queued behind what
/// the agent has. Whoever is not the sender, and an agent that has finished, get
/// nothing through.
pub proof fn law_sent_messages_arrive(
    before: SubagentCoordinator,
    after: SubagentCoordinator,
    identity: AgentMailboxIdentity,
    target: Seq<char>,
    given: AgentMailboxMessage,
    step: SendStep,
)
    requires
        before.wf(),
        after.send_post(before, identity, target, given, step),
    ensures
        given.from_agent_id@ != identity.agent_id@ || given.team_scope_id@
            != identity.team_scope_id@ ==> after == before && step is Done && step->result is Err,
        step matches SendStep::TryLive { message } ==> {
            &&& after == before
            &&& message.body == given.body
            &&& message.message_id == given.message_id
            &&& message.from_agent_id@ == identity.agent_id@
            &&& !(given.kind is FollowupTask)
            &&& before.target_of(identity, target) == Ok::<Seq<char>, Seq<char>>(
                message.to_agent_id@,
            )
        },
        step is Done && step->result is Ok ==> {
            let sent = step->result->Ok_0;
            &&& before.target_of(identity, target) == Ok::<Seq<char>, Seq<char>>(
                sent.target_agent_id@,
            )
            &&& sent.message_id == given.message_id
            &&& sent.status is Queued ==> {
                let m = after.mailboxes@.last();
                &&& after.mailboxes@.len() == before.mailboxes@.len() + 1
                &&& m.team_scope_id@ == identity.team_scope_id@
                &&& m.agent_id@ == sent.target_agent_id@
                &&& m.message.body == given.body
                &&& m.message.message_id == given.message_id
                &&& m.message.to_agent_id@ == sent.target_agent_id@
                &&& given.kind is FollowupTask
                &&& forall|i: int|
                    0 <= i < before.mailboxes@.len() ==> after.mailboxes@[i]
                        == before.mailboxes@[i]
            }
            &&& sent.status is Delivered ==> {
                &&& lookup(
                    before.mailbox_waiters@,
                    (identity.team_scope_id@, sent.target_agent_id@),
                ) is Some
                &&& lookup(
                    after.mailbox_waiters@,
                    (identity.team_scope_id@, sent.target_agent_id@),
                ) is None
                &&& after.mailboxes == before.mailboxes
                &&& step->actions@[0] matches Action::HandMessage { reply, message } && reply
                    == lookup(
                    before.mailbox_waiters@,
                    (identity.team_scope_id@, sent.target_agent_id@),
                )->0.reply && message.body == given.body && message.message_id == given.message_id
            }
            &&& !(sent.status is Rejected)
        },
        step is Done && step->result is Err ==> after.mailboxes@ == before.mailboxes@
            && after.mailbox_waiters == before.mailbox_waiters && step->actions@.len() == 0,
        forall|i: int|
            0 <= i < before.completed@.len() && (
            #[trigger] before.completed@[i]).request.parent_session_id@ == identity.team_scope_id@
                && before.completed@[i].request.id@ != identity.team_scope_id@
                && before.target_of(identity, target) == Ok::<Seq<char>, Seq<char>>(
                before.completed@[i].request.id@,
            ) ==> step is Done && step->result is Err,
{
    assert forall|i: int|
        0 <= i < before.completed@.len() && (
        #[trigger] before.completed@[i]).request.parent_session_id@ == identity.team_scope_id@
            && before.completed@[i].request.id@ != identity.team_scope_id@ && before.target_of(
            identity,
            target,
        ) == Ok::<Seq<char>, Seq<char>>(before.completed@[i].request.id@) implies step is Done
        && step->result is Err by {
        lemma_find_at(before.completed@, i);
    }
    if let Ok(id) = before.target_of(identity, target) {
        let k: Key = (identity.team_scope_id@, id);
        lemma_find(before.mailbox_waiters@, k);
        lemma_without(before.mailbox_waiters@, k, k);
        assert forall|i: int| 0 <= i < before.mailboxes@.len() && after.mailboxes@.drop_last()
            == before.mailboxes@ implies after.mailboxes@[i] == #[trigger] before.mailboxes@[i] by {
            assert(after.mailboxes@.drop_last()[i] == after.mailboxes@[i]);
        }
    }
}

/// A message that no live session took is queued for the root and for an agent that
/// is about to start, and else refused.
pub proof fn law_untaken_messages_wait(
    before: SubagentCoordinator,
    after: SubagentCoordinator,
    team: Seq<char>,
    letter: AgentMailboxMessage,
    delivered: bool,
    result: Result<AgentMessageSendOutput, String>,
    actions: Seq<Action>,
)
    requires
        after.conclude_post(before, team, letter, delivered, result, actions),
    ensures
        delivered ==> after == before && result is Ok && result->Ok_0.status is Delivered,
        !delivered && result is Ok ==> {
            &&& result->Ok_0.status is Queued
            &&& after.mailboxes@.len() == before.mailboxes@.len() + 1
            &&& after.mailboxes@.last().message.body == letter.body
            &&& after.mailboxes@.last().agent_id@ == letter.to_agent_id@
            &&& after.mailboxes@.last().team_scope_id@ == team
            &&& letter.to_agent_id@ == team || exists|i: int|
                0 <= i < before.pending@.len() && (#[trigger] before.pending@[i]).request.id@
                    == letter.to_agent_id@
        },
        result is Err ==> after.mailboxes@ == before.mailboxes@ && actions.len() == 0,
        !delivered && letter.to_agent_id@ == team && mail_for(before.mailboxes@, (team, team)).len()
            < 128 ==> result is Ok,
{
    let k: Key = (letter.to_agent_id@, ""@);
    lemma_find(before.pending@, k);
    if find(before.pending@, k) is Some {
        let i = find(before.pending@, k)->0;
        assert(before.pending@[i].request.id@ == letter.to_agent_id@);
    }
}

/// A mailbox takes messages until it holds 128.
pub proof fn law_mailboxes_hold_their_limit(
    before: SubagentCoordinator,
    after: SubagentCoordinator,
    team: Seq<char>,
    agent: Seq<char>,
    message: AgentMailboxMessage,
    r: Result<(), String>,
)
    requires
        after.enqueue_post(before, (team, agent), message, r),
    ensures
        r is Ok <==> mail_for(before.mailboxes@, (team, agent)).len() < 128,
        r is Ok ==> mail_for(after.mailboxes@, (team, agent)) == mail_for(
            before.mailboxes@,
            (team, agent),
        ).push(message),
        r is Err ==> after.mailboxes@ == before.mailboxes@,
{
}

/// What becomes of waiting mail when its agent starts: a message of a native team
/// that the agent does not take is rejected, one that steers is delivered if the
/// session takes it, and everything else is kept. The text stays as it is, and once
/// a steering message was not taken, later ones wait behind it.
pub proof fn law_flushed_mail_keeps_its_text(
    live: bool,
    m: AgentMailboxMessage,
    accepts_native: bool,
    delivered: bool,
)
    ensures
        ({
            let (still, fate) = flush_one(live, m, accepts_native, delivered);
            &&& still ==> live
            &&& fate is Rejected <==> m.native is Some && !accepts_native
            &&& fate is Delivered <==> (m.native is None || accepts_native) && live && delivered
                && !(m.kind is FollowupTask)
            &&& match fate {
                FlushFate::Rejected(k) => k == m && still == live,
                FlushFate::Delivered(k) => k.body == m.body && k.message_id == m.message_id
                    && k.to_agent_id == m.to_agent_id && still == live && !(k.kind
                    is NativeFollowup),
                FlushFate::Retained(k) => k.body == m.body && k.message_id == m.message_id
                    && k.from_agent_id == m.from_agent_id && (still <==> live && m.kind
                    is FollowupTask) && (!(m.kind is NativeFollowup) ==> k == m),
            }
            &&& flush_tries(live, m, accepts_native) <==> (m.native is None || accepts_native)
                && live && !(m.kind is FollowupTask)
        }),
{
}

// ---- who is there ----

/// The roster tells of each child of the team: its id, its state, what it is and
/// where it works, and of no child of another.
pub proof fn law_roster_tells_of_pending(s: Seq<PendingChild>, team: Seq<char>)
    ensures
        pending_entries(s, team) == s.filter(
            |c: PendingChild| c.request.parent_session_id@ == team,
        ).map_values(
            |c: PendingChild|
                RosterView {
                    agent_id: c.request.id@,
                    is_root: false,
                    status: "pending"@,
                    subagent_type: Some(c.request.subagent_type@),
                    description: Some(c.request.description@),
                    resumed_from: option_view(c.request.resume_from),
                    worktree_path: None,
                },
        ),
    decreases s.len(),
{
    reveal(Seq::filter);
    if s.len() > 0 {
        law_roster_tells_of_pending(s.drop_last(), team);
    }
    assert(pending_entries(s, team) =~= s.filter(
        |c: PendingChild| c.request.parent_session_id@ == team,
    ).map_values(
        |c: PendingChild|
            RosterView {
                agent_id: c.request.id@,
                is_root: false,
                status: "pending"@,
                subagent_type: Some(c.request.subagent_type@),
                description: Some(c.request.description@),
                resumed_from: option_view(c.request.resume_from),
                worktree_path: None,
            },
    ));
}

/// The same for children that run.
pub proof fn law_roster_tells_of_active(s: Seq<ActiveChild>, team: Seq<char>)
    ensures
        active_entries(s, team) == s.filter(
            |c: ActiveChild| c.request.parent_session_id@ == team,
        ).map_values(
            |c: ActiveChild|
                RosterView {
                    agent_id: c.request.id@,
                    is_root: false,
                    status: "running"@,
                    subagent_type: Some(c.request.subagent_type@),
                    description: Some(c.request.description@),
                    resumed_from: option_view(c.resumed_from),
                    worktree_path: option_view(c.worktree_path),
                },
        ),
    decreases s.len(),
{
    reveal(Seq::filter);
    if s.len() > 0 {
        law_roster_tells_of_active(s.drop_last(), team);
    }
    assert(active_entries(s, team) =~= s.filter(
        |c: ActiveChild| c.request.parent_session_id@ == team,
    ).map_values(
        |c: ActiveChild|
            RosterView {
                agent_id: c.request.id@,
                is_root: false,
                status: "running"@,
                subagent_type: Some(c.request.subagent_type@),
                description: Some(c.request.description@),
                resumed_from: option_view(c.resumed_from),
                worktree_path: option_view(c.worktree_path),
            },
    ));
}

/// The same for children that have finished, with how they did.
pub proof fn law_roster_tells_of_completed(s: Seq<CompletedChild>, team: Seq<char>)
    ensures
        completed_entries(s, team) == s.filter(
            |c: CompletedChild| c.request.parent_session_id@ == team,
        ).map_values(
            |c: CompletedChild|
                RosterView {
                    agent_id: c.request.id@,
                    is_root: false,
                    status: if c.result.cancelled {
                        "cancelled"@
                    } else if c.result.success {
                        "completed"@
                    } else {
                        "failed"@
                    },
                    subagent_type: Some(c.request.subagent_type@),
                    description: Some(c.request.description@),
                    resumed_from: option_view(c.resumed_from),
                    worktree_path: option_view(c.worktree_path),
                },
        ),
    decreases s.len(),
{
    reveal(Seq::filter);
    if s.len() > 0 {
        law_roster_tells_of_completed(s.drop_last(), team);
    }
    assert(completed_entries(s, team) =~= s.filter(
        |c: CompletedChild| c.request.parent_session_id@ == team,
    ).map_values(
        |c: CompletedChild|
            RosterView {
                agent_id: c.request.id@,
                is_root: false,
                status: if c.result.cancelled {
                    "cancelled"@
                } else if c.result.success {
                    "completed"@
                } else {
                    "failed"@
                },
                subagent_type: Some(c.request.subagent_type@),
                description: Some(c.request.description@),
                resumed_from: option_view(c.resumed_from),
                worktree_path: option_view(c.worktree_path),
            },
    ));
}

/// A roster begins with the root and lists, behind it, an entry for every child of
/// the team that is pending, active or finished, and for no other.
pub proof fn law_roster_is_complete(
    c: SubagentCoordinator,
    team: Seq<char>,
    agents: Seq<AgentRosterEntry>,
)
    requires
        c.is_roster(team, agents),
    ensures
        agents.len() > 0,
        agents[0].is_root,
        agents[0].agent_id@ == team,
        agents[0].status@ == "running"@,
        forall|i: int, j: int|
            1 <= i < j < agents.len() ==> !text_before(
                (#[trigger] agents[j]).agent_id@,
                (#[trigger] agents[i]).agent_id@,
            ),
        agents.len() == 1 + c.pending@.filter(
            |p: PendingChild| p.request.parent_session_id@ == team,
        ).len() + c.active@.filter(
            |a: ActiveChild| a.request.parent_session_id@ == team,
        ).len() + c.completed@.filter(
            |d: CompletedChild| d.request.parent_session_id@ == team,
        ).len(),
{
    broadcast use vstd::seq_lib::group_to_multiset_ensures;

    law_roster_tells_of_pending(c.pending@, team);
    law_roster_tells_of_active(c.active@, team);
    law_roster_tells_of_completed(c.completed@, team);
    let rest = agents.skip(1);
    assert(agents[0]@.agent_id == team && agents[0]@.is_root && agents[0]@.status == "running"@);
    let all = choose|all: Seq<AgentRosterEntry>|
        #[trigger] roster_views(all) == c.team_entries(team) && sorted_from(rest, all);
    assert(roster_views(all).len() == all.len());
    vstd::seq_lib::to_multiset_len(rest);
    vstd::seq_lib::to_multiset_len(all);
    assert(rest.len() == all.len());
    assert forall|i: int, j: int| 1 <= i < j < agents.len() implies !text_before(
        (#[trigger] agents[j]).agent_id@,
        (#[trigger] agents[i]).agent_id@,
    ) by {
        assert(rest[i - 1] == agents[i] && rest[j - 1] == agents[j]);
        assert(!text_before(rest[j - 1].name(), rest[i - 1].name()));
    }
}

/// What a turn still waits for: the children of the prompt that were not handed to
/// the background, pending, active and queued.
pub proof fn law_live_children_of_a_turn(
    p: Seq<PendingChild>,
    a: Seq<ActiveChild>,
    q: Seq<QueuedSpawn>,
    session: Seq<char>,
    prompt: Seq<char>,
)
    ensures
        pending_live(p, ScopeView::Turn(session, prompt)) == p.filter(
            |c: PendingChild|
                c.request.parent_session_id@ == session && option_view(c.request.parent_prompt_id)
                    == Some(prompt) && c.request.owner is Session && !c.handle_only,
        ).map_values(|c: PendingChild| c.request.id),
        active_live(a, ScopeView::Turn(session, prompt)) == a.filter(
            |c: ActiveChild|
                c.request.parent_session_id@ == session && option_view(c.request.parent_prompt_id)
                    == Some(prompt) && c.request.owner is Session && !c.handle_only
                    && !c.definition_background,
        ).map_values(|c: ActiveChild| c.request.id),
        queued_live(q, ScopeView::Turn(session, prompt)) == q.filter(
            |c: QueuedSpawn|
                c.request.parent_session_id@ == session && option_view(c.request.parent_prompt_id)
                    == Some(prompt) && c.request.owner is Session && !c.request.run_in_background
                    && !(c.caller is Backgrounded),
        ).map_values(|c: QueuedSpawn| c.request.id),
    decreases p.len() + a.len() + q.len(),
{
    reveal(Seq::filter);
    let turn = ScopeView::Turn(session, prompt);
    if p.len() > 0 {
        law_live_children_of_a_turn(p.drop_last(), a, q, session, prompt);
    }
    if a.len() > 0 {
        law_live_children_of_a_turn(p, a.drop_last(), q, session, prompt);
    }
    if q.len() > 0 {
        law_live_children_of_a_turn(p, a, q.drop_last(), session, prompt);
    }
    assert(pending_live(p, turn) =~= p.filter(
        |c: PendingChild|
            c.request.parent_session_id@ == session && option_view(c.request.parent_prompt_id)
                == Some(prompt) && c.request.owner is Session && !c.handle_only,
    ).map_values(|c: PendingChild| c.request.id));
    assert(active_live(a, turn) =~= a.filter(
        |c: ActiveChild|
            c.request.parent_session_id@ == session && option_view(c.request.parent_prompt_id)
                == Some(prompt) && c.request.owner is Session && !c.handle_only
                && !c.definition_background,
    ).map_values(|c: ActiveChild| c.request.id));
    assert(queued_live(q, turn) =~= q.filter(
        |c: QueuedSpawn|
            c.request.parent_session_id@ == session && option_view(c.request.parent_prompt_id)
                == Some(prompt) && c.request.owner is Session && !c.request.run_in_background
                && !(c.caller is Backgrounded),
    ).map_values(|c: QueuedSpawn| c.request.id));
}

/// Whether a turn has children in the background.
pub proof fn law_background_of_a_turn(
    c: SubagentCoordinator,
    session: Seq<char>,
    prompt: Seq<char>,
)
    ensures
        c.live_in_background(ScopeView::Turn(session, prompt)) <==> {
            ||| exists|i: int|
                {
                    let q = (#[trigger] c.pending@[i]).request;
                    0 <= i < c.pending@.len() && q.parent_session_id@ == session && option_view(
                        q.parent_prompt_id,
                    ) == Some(prompt) && q.owner is Session && c.pending@[i].handle_only
                }
            ||| exists|i: int|
                {
                    let q = (#[trigger] c.active@[i]).request;
                    0 <= i < c.active@.len() && q.parent_session_id@ == session && option_view(
                        q.parent_prompt_id,
                    ) == Some(prompt) && q.owner is Session && (c.active@[i].handle_only
                        || c.active@[i].definition_background)
                }
            ||| exists|i: int|
                {
                    let q = (#[trigger] c.queued@[i]).request;
                    0 <= i < c.queued@.len() && q.parent_session_id@ == session && option_view(
                        q.parent_prompt_id,
                    ) == Some(prompt) && q.owner is Session && (q.run_in_background
                        || c.queued@[i].caller is Backgrounded)
                }
        },
{
}

/// The children that a prompt spawned: the active ones, then the finished ones, each
/// with its session and what it is.
pub proof fn law_refs_tell_what_was_spawned(
    a: Seq<ActiveChild>,
    d: Seq<CompletedChild>,
    prompt: Seq<char>,
    session: Seq<char>,
)
    ensures
        active_refs(a, ScopeView::Prompt(prompt, Some(session))) == a.filter(
            |c: ActiveChild|
                c.request.parent_session_id@ == session && option_view(c.request.parent_prompt_id)
                    == Some(prompt),
        ).map_values(
            |c: ActiveChild|
                SpawnedSubagentRef {
                    subagent_id: c.request.id,
                    child_session_id: c.child_session_id,
                    subagent_type: c.request.subagent_type,
                    description: c.request.description,
                    persona: c.persona,
                    resumed_from: c.resumed_from,
                },
        ),
        completed_refs(d, ScopeView::Prompt(prompt, Some(session))) == d.filter(
            |c: CompletedChild|
                c.request.parent_session_id@ == session && option_view(c.request.parent_prompt_id)
                    == Some(prompt),
        ).map_values(
            |c: CompletedChild|
                SpawnedSubagentRef {
                    subagent_id: c.request.id,
                    child_session_id: c.child_session_id,
                    subagent_type: c.request.subagent_type,
                    description: c.request.description,
                    persona: c.persona,
                    resumed_from: c.resumed_from,
                },
        ),
    decreases a.len() + d.len(),
{
    reveal(Seq::filter);
    let scope = ScopeView::Prompt(prompt, Some(session));
    if a.len() > 0 {
        law_refs_tell_what_was_spawned(a.drop_last(), d, prompt, session);
    }
    if d.len() > 0 {
        law_refs_tell_what_was_spawned(a, d.drop_last(), prompt, session);
    }
    assert(active_refs(a, scope) =~= a.filter(
        |c: ActiveChild|
            c.request.parent_session_id@ == session && option_view(c.request.parent_prompt_id)
                == Some(prompt),
    ).map_values(
        |c: ActiveChild|
            SpawnedSubagentRef {
                subagent_id: c.request.id,
                child_session_id: c.child_session_id,
                subagent_type: c.request.subagent_type,
                description: c.request.description,
                persona: c.persona,
                resumed_from: c.resumed_from,
            },
    ));
    assert(completed_refs(d, scope) =~= d.filter(
        |c: CompletedChild|
            c.request.parent_session_id@ == session && option_view(c.request.parent_prompt_id)
                == Some(prompt),
    ).map_values(
        |c: CompletedChild|
            SpawnedSubagentRef {
                subagent_id: c.request.id,
                child_session_id: c.child_session_id,
                subagent_type: c.request.subagent_type,
                description: c.request.description,
                persona: c.persona,
                resumed_from: c.resumed_from,
            },
    ));
}

/// The ids of the active children of a session that no workflow owns.
pub proof fn law_active_ids_are_of_the_session(a: Seq<ActiveChild>, session: Seq<char>)
    ensures
        active_ids(a, ScopeView::Session(session)) == a.filter(
            |c: ActiveChild| c.request.parent_session_id@ == session && c.request.owner is Session,
        ).map_values(|c: ActiveChild| c.request.id),
    decreases a.len(),
{
    reveal(Seq::filter);
    if a.len() > 0 {
        law_active_ids_are_of_the_session(a.drop_last(), session);
    }
    assert(active_ids(a, ScopeView::Session(session)) =~= a.filter(
        |c: ActiveChild| c.request.parent_session_id@ == session && c.request.owner is Session,
    ).map_values(|c: ActiveChild| c.request.id));
}

/// Each session gets its own summaries, once and in order, but for those it wants
/// suppressed; those of other sessions stay. Who names no session gets all.
pub proof fn law_summaries_go_to_their_session(
    s: Seq<BufferedCompletion>,
    session: Seq<char>,
    suppressed: Seq<String>,
)
    ensures
        owned_summaries(s, Some(session), suppressed) == s.filter(
            |c: BufferedCompletion|
                c.parent_session_id@ == session && !in_list(suppressed, c.summary.subagent_id@),
        ).map_values(|c: BufferedCompletion| c.summary),
        foreign_completions(s, Some(session)) == s.filter(
            |c: BufferedCompletion| c.parent_session_id@ != session,
        ),
        owned_summaries(s, None, suppressed) == s.filter(
            |c: BufferedCompletion| !in_list(suppressed, c.summary.subagent_id@),
        ).map_values(|c: BufferedCompletion| c.summary),
        foreign_completions(s, None).len() == 0,
    decreases s.len(),
{
    reveal(Seq::filter);
    if s.len() > 0 {
        law_summaries_go_to_their_session(s.drop_last(), session, suppressed);
    }
    assert(owned_summaries(s, Some(session), suppressed) =~= s.filter(
        |c: BufferedCompletion|
            c.parent_session_id@ == session && !in_list(suppressed, c.summary.subagent_id@),
    ).map_values(|c: BufferedCompletion| c.summary));
    assert(owned_summaries(s, None, suppressed) =~= s.filter(
        |c: BufferedCompletion| !in_list(suppressed, c.summary.subagent_id@),
    ).map_values(|c: BufferedCompletion| c.summary));
}

/// A loop task is active while a child that is pending, active or queued runs it.
pub proof fn law_loop_tasks_are_active_with_a_child(c: SubagentCoordinator, task: Seq<char>)
    ensures
        !c.loop_active(task) <==> {
            &&& forall|i: int|
                0 <= i < c.pending@.len() ==> option_view(
                    (#[trigger] c.pending@[i]).request.loop_task_id,
                ) != Some(task)
            &&& forall|i: int|
                0 <= i < c.active@.len() ==> option_view(
                    (#[trigger] c.active@[i]).request.loop_task_id,
                ) != Some(task)
            &&& forall|i: int|
                0 <= i < c.queued@.len() ==> option_view(
                    (#[trigger] c.queued@[i]).request.loop_task_id,
                ) != Some(task)
        },
{
}

// ---- finishing ----

/// Those who wait for a child get its result, and those who wait for another go on
/// waiting.
pub proof fn law_waiters_get_the_result(
    s: Seq<BlockingWaiter>,
    id: Seq<char>,
    result: SubagentResult,
)
    ensures
        waiting_but(s, id) == s.filter(|w: BlockingWaiter| w.subagent_id@ != id),
        snapshot_answers(s, id, result) == s.filter(
            |w: BlockingWaiter| w.subagent_id@ == id,
        ).map_values(
            |w: BlockingWaiter|
                Action::AnswerSnapshot { reply: w.reply, id: w.subagent_id, result },
        ),
    decreases s.len(),
{
    reveal(Seq::filter);
    if s.len() > 0 {
        law_waiters_get_the_result(s.drop_last(), id, result);
    }
    assert(snapshot_answers(s, id, result) =~= s.filter(
        |w: BlockingWaiter| w.subagent_id@ == id,
    ).map_values(
        |w: BlockingWaiter| Action::AnswerSnapshot { reply: w.reply, id: w.subagent_id, result },
    ));
}

/// How an end reaches the parent: in the foreground where the caller still waits
/// there; it surfaces where the request wants that and nobody was told, unless the
/// child was cancelled or killed.
pub proof fn law_ends_surface_where_nobody_was_told(
    e: Ending,
    result: SubagentResult,
    waiter_delivered: bool,
    closed: Seq<u64>,
)
    ensures
        ({
            let d = e.disposition(result, waiter_delivered, closed);
            let (request, reply, handle_only, killed) = match e {
                Ending::Active(c) => (
                    c.request,
                    c.spawn_reply,
                    c.handle_only,
                    c.explicitly_killed,
                ),
                Ending::Pending(c) => (
                    c.request,
                    c.spawn_reply,
                    c.handle_only,
                    c.explicitly_killed,
                ),
            };
            &&& d.foreground_delivered <==> !handle_only && reply is Some && !closed.contains(
                reply->0,
            )
            &&& d.backgrounded <==> !d.foreground_delivered
            &&& d.waiter_delivered == waiter_delivered
            &&& d.explicitly_killed == killed
            &&& d.should_surface <==> request.surface_completion && !d.foreground_delivered
                && !waiter_delivered && !killed && !result.cancelled
        }),
{
}

/// The end of a child: it is remembered with its result, its caller and those who
/// wait for it get that result, and the host is told of it. Its summary is kept
/// for its session where that is wanted and no workflow owns it.
pub proof fn law_results_reach_everyone(
    before: SubagentCoordinator,
    after: SubagentCoordinator,
    id: Seq<char>,
    output: ChildRunOutput,
    closed: Seq<u64>,
    actions: Seq<Action>,
)
    requires
        before.wf(),
        before.ending(id) is Some,
        after.finish_post(before, id, output, closed, actions),
    ensures
        ({
            let (request, reply) = match before.ending(id)->0 {
                Ending::Active(c) => (c.request, c.spawn_reply),
                Ending::Pending(c) => (c.request, c.spawn_reply),
            };
            &&& request.id@ == id
            &&& lookup(after.completed@, (id, ""@)) matches Some(c) && c.request == request
                && c.result.success == output.result.success && c.result.cancelled
                == output.result.cancelled && c.result.error == output.result.error && (
            output.persisted_output_ref is None ==> c.result.output@ == output.result.output@)
            &&& after.completed_order@.last() == request.id
            &&& after.completed_order@.len() == before.completed_order@.len() + 1
            &&& reply is Some ==> actions.contains(
                Action::AnswerSpawn { reply: reply->0, result: output.result },
            )
            &&& forall|i: int|
                0 <= i < before.waiters@.len() && (#[trigger] before.waiters@[i]).subagent_id@ == id
                    ==> actions.contains(
                    Action::AnswerSnapshot {
                        reply: before.waiters@[i].reply,
                        id: before.waiters@[i].subagent_id,
                        result: output.result,
                    },
                )
            &&& exists|i: int|
                0 <= i < actions.len() && ((#[trigger] actions[i]) matches Action::Completed {
                    request: told,
                    result,
                    ..
                } && told == request && result == output.result)
            &&& actions.last() is StartQueued
            &&& before.config.buffer_completions && request.surface_completion && request.owner
                is Session ==> after.pending_completions@.last().parent_session_id
                == request.parent_session_id && after.pending_completions@.last().summary.subagent_id
                == request.id && after.pending_completions@.last().summary.success
                == output.result.success && after.pending_completions@.last().summary.cancelled
                == output.result.cancelled && after.pending_completions@.last().summary.output
                == output.buffered_output && after.pending_completions@.last().summary.error
                == output.result.error && after.pending_completions@.len() <= 256
            &&& !(before.config.buffer_completions && request.surface_completion && request.owner
                is Session) ==> after.pending_completions@ == before.pending_completions@
        }),
{
    let k: Key = (id, ""@);
    lemma_find(before.active@, k);
    lemma_find(before.pending@, k);
    let e = before.ending(id)->0;
    let request = e.request();
    let c = choose|c: CompletedChild|
        #[trigger] e.remembered(output, c) && after.completed@ == with_entry(before.completed@, c);
    assert(c.key() == k);
    lemma_with_entry(before.completed@, c, k);
    let answers = snapshot_answers(before.waiters@, id, output.result);
    let spawned: Seq<Action> = match e.spawn_reply() {
        Some(reply) => seq![Action::AnswerSpawn { reply, result: output.result }],
        None => Seq::empty(),
    };
    law_waiters_get_the_result(before.waiters@, id, output.result);
    let own = before.waiters@.filter(|w: BlockingWaiter| w.subagent_id@ == id);
    assert forall|i: int|
        0 <= i < before.waiters@.len() && (#[trigger] before.waiters@[i]).subagent_id@ == id implies
        actions.contains(
        Action::AnswerSnapshot {
            reply: before.waiters@[i].reply,
            id: before.waiters@[i].subagent_id,
            result: output.result,
        },
    ) by {
        before.waiters@.lemma_filter_contains(|w: BlockingWaiter| w.subagent_id@ == id, i);
        let j = choose|j: int| 0 <= j < own.len() && own[j] == before.waiters@[i];
        assert(actions[j] == answers[j]);
    }
    if e.spawn_reply() is Some {
        assert(actions[answers.len() as int] == spawned[0]);
    }
    let at = answers.len() + spawned.len() + 2;
    assert(actions[at as int] is Completed);
    let told = summary_of(request, output.result, output.buffered_output);
    let kept = before.pending_completions@.push(told);
    assert(last_of(kept, 256).last() == told);
    assert(last_of(kept, 256).len() <= 256);
    assert(actions.last() is StartQueued);
}

/// The oldest finished child that no native team names is the first to be forgotten,
/// and nothing is forgotten while there is room.
pub proof fn law_the_oldest_is_forgotten_first(
    order: Seq<String>,
    completed: Seq<CompletedChild>,
    names: Seq<NativeAgent>,
    max: nat,
)
    ensures
        completed.len() <= max ==> evicted(order, completed, names, max) == (order, completed),
        first_unnamed(order, names) matches Some(k) ==> {
            &&& 0 <= k < order.len()
            &&& forall|i: int|
                0 <= i < names.len() ==> (#[trigger] names[i]).subagent_id@ != order[k]@
            &&& forall|j: int|
                0 <= j < k ==> exists|i: int|
                    0 <= i < names.len() && (#[trigger] names[i]).subagent_id@ == (
                    #[trigger] order[j])@
        },
        first_unnamed(order, names) is None ==> forall|j: int|
            0 <= j < order.len() ==> exists|i: int|
                0 <= i < names.len() && (#[trigger] names[i]).subagent_id@ == (
                #[trigger] order[j])@,
    decreases order.len(),
{
    if order.len() > 0 && native_named(names, order[0]@) {
        law_the_oldest_is_forgotten_first(order.drop_first(), completed, names, max);
        assert forall|j: int| 1 <= j < order.len() implies #[trigger] order[j]
            == order.drop_first()[j - 1] by {}
    }
}

// ---- taking down ----

/// A session that is taken down leaves nothing: no mail, no waiter, no summary and no
/// native agent of it is kept, and what belongs to others is.
pub proof fn law_taken_down_sessions_leave_nothing(
    before: SubagentCoordinator,
    after: SubagentCoordinator,
    session: Seq<char>,
    reply: Option<u64>,
    now: u128,
    reply_later: bool,
    actions: Seq<Action>,
)
    requires
        after.teardown_post(before, session, reply, now, reply_later, actions),
    ensures
        after.mailboxes@ == before.mailboxes@.filter(|m: Mail| m.team_scope_id@ != session),
        after.mailbox_waiters@ == before.mailbox_waiters@.filter(
            |w: AgentMailboxWaiter| w.team_scope_id@ != session,
        ),
        after.native_agents@ == before.native_agents@.filter(
            |n: NativeAgent| n.team_scope_id@ != session,
        ),
        after.native_activity@ == before.native_activity@.filter(
            |n: NativeActivity| n.team_scope_id@ != session,
        ),
        after.pending_completions@ == before.pending_completions@.filter(
            |c: BufferedCompletion| c.parent_session_id@ != session,
        ),
        after.queued@ == before.queued@.filter(
            |q: QueuedSpawn| q.request.parent_session_id@ != session,
        ),
        !in_list(after.native_loaded@, session),
        forall|i: int|
            0 <= i < before.active@.len() ==> {
                let b = before.active@[i];
                let a = #[trigger] after.active@[i];
                if b.request.parent_session_id@ == session {
                    a.cancelled && !a.request.surface_completion
                } else {
                    a == b
                }
            },
        forall|i: int|
            0 <= i < before.pending@.len() ==> {
                let b = before.pending@[i];
                let a = #[trigger] after.pending@[i];
                if b.request.parent_session_id@ == session {
                    a.cancelled && !a.request.surface_completion
                } else {
                    a == b
                }
            },
        after.completed == before.completed,
        reply is None ==> !reply_later && after.spawn_blocked_sessions
            == before.spawn_blocked_sessions,
        reply_later ==> in_list(after.spawn_blocked_sessions@, session)
            && after.drain_waiters@.last().subject@ == session && Some(
            after.drain_waiters@.last().reply,
        ) == reply,
        reply is Some ==> (reply_later <==> after.has_children(session)),
{
    lemma_mail_of_others(before.mailboxes@, session);
    lemma_waiters_of_others(before.mailbox_waiters@, session);
    lemma_natives_of_others(before.native_agents@, session);
    lemma_activity_of_others(before.native_activity@, session);
    law_summaries_go_to_their_session(before.pending_completions@, session, Seq::empty());
    lemma_queue_of_others(before.queued@, session);
    lemma_texts_but(before.native_loaded@, session);
    assert(!text_set(after.native_loaded@).contains(session));
    if reply_later {
        assert(text_set(after.spawn_blocked_sessions@).contains(session));
    }
}

proof fn lemma_mail_of_others(s: Seq<Mail>, team: Seq<char>)
    ensures
        mail_of_others(s, team) == s.filter(|m: Mail| m.team_scope_id@ != team),
    decreases s.len(),
{
    reveal(Seq::filter);
    if s.len() > 0 {
        lemma_mail_of_others(s.drop_last(), team);
    }
}

proof fn lemma_waiters_of_others(s: Seq<AgentMailboxWaiter>, team: Seq<char>)
    ensures
        waiters_of_others(s, team) == s.filter(|w: AgentMailboxWaiter| w.team_scope_id@ != team),
    decreases s.len(),
{
    reveal(Seq::filter);
    if s.len() > 0 {
        lemma_waiters_of_others(s.drop_last(), team);
    }
}

proof fn lemma_natives_of_others(s: Seq<NativeAgent>, team: Seq<char>)
    ensures
        natives_of_others(s, team) == s.filter(|n: NativeAgent| n.team_scope_id@ != team),
    decreases s.len(),
{
    reveal(Seq::filter);
    if s.len() > 0 {
        lemma_natives_of_others(s.drop_last(), team);
    }
}

proof fn lemma_activity_of_others(s: Seq<NativeActivity>, team: Seq<char>)
    ensures
        activity_of_others(s, team) == s.filter(|n: NativeActivity| n.team_scope_id@ != team),
    decreases s.len(),
{
    reveal(Seq::filter);
    if s.len() > 0 {
        lemma_activity_of_others(s.drop_last(), team);
    }
}

proof fn lemma_queue_of_others(s: Seq<QueuedSpawn>, session: Seq<char>)
    ensures
        queued_outside(s, ScopeView::Everything(session)) == s.filter(
            |q: QueuedSpawn| q.request.parent_session_id@ != session,
        ),
    decreases s.len(),
{
    reveal(Seq::filter);
    if s.len() > 0 {
        lemma_queue_of_others(s.drop_last(), session);
    }
}

/// Agents of a session that is taken down stop waiting: each is told that there is no
/// mail.
pub proof fn law_waiting_agents_are_let_go(s: Seq<AgentMailboxWaiter>, team: Seq<char>)
    ensures
        closed_waiters(s, team) == s.filter(
            |w: AgentMailboxWaiter| w.team_scope_id@ == team,
        ).map_values(|w: AgentMailboxWaiter| Action::NoMail { reply: w.reply, timed_out: true }),
    decreases s.len(),
{
    reveal(Seq::filter);
    if s.len() > 0 {
        law_waiting_agents_are_let_go(s.drop_last(), team);
    }
    assert(closed_waiters(s, team) =~= s.filter(
        |w: AgentMailboxWaiter| w.team_scope_id@ == team,
    ).map_values(|w: AgentMailboxWaiter| Action::NoMail { reply: w.reply, timed_out: true }));
}

/// Where one child too many is remembered, the oldest that no native team names is
/// forgotten, and no other.
pub proof fn law_one_child_too_many_is_forgotten(
    order: Seq<String>,
    completed: Seq<CompletedChild>,
    names: Seq<NativeAgent>,
    max: nat,
    k: int,
)
    requires
        keys_differ(completed),
        completed.len() == max + 1,
        0 <= k < order.len(),
        forall|i: int| 0 <= i < names.len() ==> (#[trigger] names[i]).subagent_id@ != order[k]@,
        forall|j: int|
            0 <= j < k ==> exists|i: int|
                0 <= i < names.len() && (#[trigger] names[i]).subagent_id@ == (
                #[trigger] order[j])@,
        lookup(completed, (order[k]@, ""@)) is Some,
    ensures
        evicted(order, completed, names, max).1.len() == max,
        lookup(evicted(order, completed, names, max).1, (order[k]@, ""@)) is None,
        forall|id: Seq<char>|
            id != order[k]@ ==> #[trigger] lookup(
                evicted(order, completed, names, max).1,
                (id, ""@),
            ) == lookup(completed, (id, ""@)),
{
    law_the_oldest_is_forgotten_first(order, completed, names, max);
    let f = first_unnamed(order, names);
    if f is None {
        let i = choose|i: int|
            0 <= i < names.len() && (#[trigger] names[i]).subagent_id@ == order[k]@;
        assert(names[i].subagent_id@ != order[k]@);
    }
    let m = f->0;
    assert(m == k) by {
        if m < k {
            let i = choose|i: int|
                0 <= i < names.len() && (#[trigger] names[i]).subagent_id@ == order[m]@;
            assert(names[i].subagent_id@ != order[m]@);
        }
        if k < m {
            let i = choose|i: int|
                0 <= i < names.len() && (#[trigger] names[i]).subagent_id@ == order[k]@;
            assert(names[i].subagent_id@ != order[k]@);
        }
    }
    let key: Key = (order[k]@, ""@);
    let rest = without(completed, key);
    lemma_find(completed, key);
    assert(rest.len() == max);
    let next = order.skip(k + 1) + order.take(k);
    assert(evicted(next, rest, names, max) == (next, rest));
    assert(evicted(order, completed, names, max) == (next, rest));
    lemma_without(completed, key, key);
    assert forall|id: Seq<char>| id != order[k]@ implies #[trigger] lookup(rest, (id, ""@)) == lookup(
        completed,
        (id, ""@),
    ) by {
        lemma_without(completed, key, (id, ""@));
    }
}

/// The sessions whose hold is over are those whose deadline has come.
pub proof fn law_holds_end_at_their_deadline(s: Seq<TeardownDrain>, now: u128)
    ensures
        stale_drains(s, now) == s.filter(|d: TeardownDrain| d.deadline <= now).map_values(
            |d: TeardownDrain| d.parent_session_id@,
        ),
    decreases s.len(),
{
    reveal(Seq::filter);
    if s.len() > 0 {
        law_holds_end_at_their_deadline(s.drop_last(), now);
    }
    assert(stale_drains(s, now) =~= s.filter(|d: TeardownDrain| d.deadline <= now).map_values(
        |d: TeardownDrain| d.parent_session_id@,
    ));
}

/// The end of a hold lets the session spawn again and answers all who waited for it;
/// other sessions stay held.
pub proof fn law_released_sessions_may_spawn(h: Holds, session: Seq<char>, other: Seq<char>)
    requires
        keys_differ(h.drains),
        other != session,
    ensures
        ({
            let r = released(h, session);
            &&& !in_list(r.blocked, session)
            &&& in_list(r.blocked, other) == in_list(h.blocked, other)
            &&& find(r.drains, (session, ""@)) is None
            &&& lookup(r.drains, (other, ""@)) == lookup(h.drains, (other, ""@))
            &&& find(h.drains, (session, ""@)) is Some ==> r.waiters == h.waiters.filter(
                |w: ReplyWaiter| w.subject@ != session,
            ) && r.actions == h.actions + h.waiters.filter(
                |w: ReplyWaiter| w.subject@ == session,
            ).map_values(|w: ReplyWaiter| Action::AnswerDrained { reply: w.reply })
            &&& find(h.drains, (session, ""@)) is None ==> r.waiters == h.waiters && r.actions
                == h.actions
        }),
{
    let k: Key = (session, ""@);
    lemma_texts_but(h.blocked, session);
    let r = released(h, session);
    assert(!text_set(r.blocked).contains(session));
    assert(text_set(r.blocked).contains(other) == text_set(h.blocked).contains(other));
    lemma_without(h.drains, k, k);
    lemma_without(h.drains, k, (other, ""@));
    law_waiters_of_the_subject_are_answered(h.waiters, session);
}

/// The callers of queued children that are due are told each once, under the child's id.
pub proof fn law_due_queued_callers_are_told(s: Seq<QueuedSpawn>, now: u128)
    ensures
        ({
            let due = s.filter(
                |q: QueuedSpawn|
                    q.caller is Awaiting && q.caller->deadline is Some && q.caller->deadline->0
                        <= now,
            );
            queued_told(s, now) == due.map_values(
                |q: QueuedSpawn| (q.caller->reply, q.request.id@, q.request.id@),
            )
        }),
    decreases s.len(),
{
    reveal(Seq::filter);
    if s.len() > 0 {
        law_due_queued_callers_are_told(s.drop_last(), now);
    }
    assert(queued_told(s, now) =~= s.filter(
        |q: QueuedSpawn|
            q.caller is Awaiting && q.caller->deadline is Some && q.caller->deadline->0 <= now,
    ).map_values(|q: QueuedSpawn| (q.caller->reply, q.request.id@, q.request.id@)));
}

/// The last child of a session that is being deleted ends the hold on it: the session
/// may spawn again, and who waited is answered.
pub proof fn law_the_last_child_ends_the_hold(
    before: SubagentCoordinator,
    after: SubagentCoordinator,
    id: Seq<char>,
    output: ChildRunOutput,
    closed: Seq<u64>,
    actions: Seq<Action>,
    session: Seq<char>,
)
    requires
        before.wf(),
        before.ending(id) is Some,
        after.finish_post(before, id, output, closed, actions),
        session == (match before.ending(id)->0 {
            Ending::Active(c) => c.request.parent_session_id@,
            Ending::Pending(c) => c.request.parent_session_id@,
        }),
    ensures
        find(before.teardown_drains@, (session, ""@)) is Some && !after.has_children(session) ==> {
            &&& !in_list(after.spawn_blocked_sessions@, session)
            &&& find(after.teardown_drains@, (session, ""@)) is None
            &&& forall|i: int|
                0 <= i < after.drain_waiters@.len() ==> (
                #[trigger] after.drain_waiters@[i]).subject@ != session
        },
        !(find(before.teardown_drains@, (session, ""@)) is Some && !after.has_children(session))
            ==> after.spawn_blocked_sessions@ == before.spawn_blocked_sessions@
            && after.teardown_drains@ == before.teardown_drains@ && after.drain_waiters@
            == before.drain_waiters@,
{
    if find(before.teardown_drains@, (session, ""@)) is Some && !after.has_children(session) {
        let k: Key = (session, ""@);
        lemma_texts_but(before.spawn_blocked_sessions@, session);
        assert(!text_set(after.spawn_blocked_sessions@).contains(session));
        lemma_without(before.teardown_drains@, k, k);
        law_waiters_of_the_subject_are_answered(before.drain_waiters@, session);
        let is_other = |w: ReplyWaiter| w.subject@ != session;
        assert forall|i: int| 0 <= i < after.drain_waiters@.len() implies (
        #[trigger] after.drain_waiters@[i]).subject@ != session by {
            before.drain_waiters@.lemma_filter_pred(is_other, i);
            assert(is_other(before.drain_waiters@.filter(is_other)[i]));
        }
    }
}

/// What is marked for a prompt is told of it until it is cleared, and of no other prompt.
pub proof fn law_usage_marks_go_by_prompt(
    before: SubagentCoordinator,
    after: SubagentCoordinator,
    session: String,
    prompt: String,
    marks: bool,
    closed: Seq<u64>,
    now: u128,
    answer: CommandReply,
    actions: Seq<Action>,
    other: Key,
)
    requires
        before.wf(),
        after.command_post(
            before,
            if marks {
                SubagentEvent::MarkUsageNotApplied { parent_session_id: session, prompt_id: prompt }
            } else {
                SubagentEvent::ClearUsageNotApplied { parent_session_id: session, prompt_id: prompt }
            },
            closed,
            now,
            answer,
            actions,
        ),
        other != (session@, prompt@),
    ensures
        answer is Done,
        actions.len() == 0,
        find(after.usage_not_applied_prompts@, (session@, prompt@)) is Some <==> marks,
        find(after.usage_not_applied_prompts@, other) is Some <==> find(
            before.usage_not_applied_prompts@,
            other,
        ) is Some,
        after == (SubagentCoordinator {
            usage_not_applied_prompts: after.usage_not_applied_prompts,
            ..before
        }),
{
    let k: Key = (session@, prompt@);
    let s = before.usage_not_applied_prompts@;
    let e = PromptScope { parent_session_id: session, prompt_id: prompt };
    assert(e.key() == k);
    if marks {
        lemma_with_entry(s, e, k);
        lemma_with_entry(s, e, other);
    } else {
        lemma_without(s, k, k);
        lemma_without(s, k, other);
    }
}

/// A result is told as cancelled where the child was cancelled, and else by its success.
pub proof fn law_results_are_told_by_one_word(result: SubagentResult)
    ensures
        result.cancelled ==> status_of(result) == "cancelled"@,
        !result.cancelled && result.success ==> status_of(result) == "completed"@,
        !result.cancelled && !result.success ==> status_of(result) == "failed"@,
{
}

/// Giving up the hold on a session lets it spawn again and answers who waited for it, and
/// leaves other sessions held.
pub proof fn law_cleared_holds_let_sessions_spawn(
    before: SubagentCoordinator,
    after: SubagentCoordinator,
    session: Seq<char>,
    actions: Seq<Action>,
    other: Seq<char>,
)
    requires
        before.wf(),
        after.drain_cleared(before, session, actions),
        other != session,
    ensures
        !in_list(after.spawn_blocked_sessions@, session),
        in_list(after.spawn_blocked_sessions@, other) == in_list(
            before.spawn_blocked_sessions@,
            other,
        ),
        find(after.teardown_drains@, (session, ""@)) is None,
        lookup(after.teardown_drains@, (other, ""@)) == lookup(
            before.teardown_drains@,
            (other, ""@),
        ),
        find(before.teardown_drains@, (session, ""@)) is Some ==> actions
            == before.drain_waiters@.filter(|w: ReplyWaiter| w.subject@ == session).map_values(
            |w: ReplyWaiter| Action::AnswerDrained { reply: w.reply },
        ),
        find(before.teardown_drains@, (session, ""@)) is None ==> actions.len() == 0,
{
    let k: Key = (session, ""@);
    lemma_texts_but(before.spawn_blocked_sessions@, session);
    assert(!text_set(after.spawn_blocked_sessions@).contains(session));
    assert(text_set(after.spawn_blocked_sessions@).contains(other) == text_set(
        before.spawn_blocked_sessions@,
    ).contains(other));
    lemma_without(before.teardown_drains@, k, k);
    lemma_without(before.teardown_drains@, k, (other, ""@));
    law_waiters_of_the_subject_are_answered(before.drain_waiters@, session);
}

} // verus!
