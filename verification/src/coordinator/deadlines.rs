//! What time and vanished callers change.
use vstd::prelude::*;
#[allow(unused_imports)]
use vstd::string::*;

#[allow(unused_imports)]
use crate::coordinator::cancel::{waiter_answers, waiters_but};
#[allow(unused_imports)]
use crate::coordinator::lifecycle::{is_open, open_reply};
#[allow(unused_imports)]
use crate::coordinator::state::{SubagentCoordinator};
#[allow(unused_imports)]
use crate::coordinator::types::{
    Action, ActiveChild, AgentMailboxWaiter, BlockingWaiter, PendingChild, QueuedCaller,
    QueuedSpawn, ReplyWaiter, ResultView, SubagentResult, TeardownDrain, bare_result,
};
#[allow(unused_imports)]
use crate::table::{Keyed, find, keys_differ, lemma_same_keys, position, without};
#[allow(unused_imports)]
use crate::text::{texts_but, views};

verus! {

// ---- callers that are gone ----

/// The caller waits on a channel whose other end is gone.
pub open spec fn gone(handle_only: bool, spawn_reply: Option<u64>, closed: Seq<u64>) -> bool {
    !handle_only && spawn_reply is Some && !open_reply(spawn_reply->0, closed)
}

/// A pending child whose caller is gone runs in the background.
pub open spec fn reaped_pending(c: PendingChild, closed: Seq<u64>) -> PendingChild {
    if gone(c.handle_only, c.spawn_reply, closed) {
        PendingChild { spawn_reply: None, foreground_deadline: None, handle_only: true, ..c }
    } else {
        c
    }
}

/// An active child whose caller is gone runs in the background.
pub open spec fn reaped_active(c: ActiveChild, closed: Seq<u64>) -> ActiveChild {
    if gone(c.handle_only, c.spawn_reply, closed) {
        ActiveChild { spawn_reply: None, foreground_deadline: None, handle_only: true, ..c }
    } else {
        c
    }
}

/// A queued child whose caller is gone will run in the background.
pub open spec fn reaped_queued(q: QueuedSpawn, closed: Seq<u64>) -> QueuedSpawn {
    match q.caller {
        QueuedCaller::Awaiting { reply, .. } if !open_reply(reply, closed) => QueuedSpawn {
            caller: QueuedCaller::Backgrounded,
            ..q
        },
        _ => q,
    }
}

/// The queued children whose token was not cancelled.
pub open spec fn queued_alive(s: Seq<QueuedSpawn>) -> Seq<QueuedSpawn>
    decreases s.len(),
{
    if s.len() == 0 {
        Seq::empty()
    } else if s.last().cancelled {
        queued_alive(s.drop_last())
    } else {
        queued_alive(s.drop_last()).push(s.last())
    }
}

/// The ends of the queued children whose token was cancelled.
pub open spec fn cancelled_ends(s: Seq<QueuedSpawn>) -> Seq<Action>
    decreases s.len(),
{
    if s.len() == 0 {
        Seq::empty()
    } else if s.last().cancelled {
        cancelled_ends(s.drop_last()).push(
            Action::FinishQueued { request: s.last().request, caller: s.last().caller },
        )
    } else {
        cancelled_ends(s.drop_last())
    }
}

impl SubagentCoordinator {
    /// What the sweep for vanished callers leaves and asks for.
    pub open spec fn reap_post(
        &self,
        before: SubagentCoordinator,
        closed: Seq<u64>,
        now: u128,
        actions: Seq<Action>,
    ) -> bool {
        let queue = before.queued@.map_values(|q: QueuedSpawn| reaped_queued(q, closed));
        &&& *self == (SubagentCoordinator {
            last_queued_reap: now,
            pending: self.pending,
            active: self.active,
            queued: self.queued,
            ..before
        })
        &&& self.pending@ == before.pending@.map_values(|c: PendingChild| reaped_pending(c, closed))
        &&& self.active@ == before.active@.map_values(|c: ActiveChild| reaped_active(c, closed))
        &&& self.queued@ == queued_alive(queue)
        &&& actions == cancelled_ends(queue)
    }

    /// Hands off the children whose callers are gone, and drops the queued ones
    /// that were cancelled.
    pub fn reap_abandoned_callers(&mut self, closed: &Vec<u64>, now: u128) -> (r: Vec<Action>)
        ensures
            old(self).wf() ==> final(self).wf(),
            final(self).reap_post(*old(self), closed@, now, r@),
    {
        let ghost start = *self;
        self.last_queued_reap = now;
        self.reap_pending(closed);
        self.reap_active(closed);
        let ghost queue = start.queued@.map_values(|q: QueuedSpawn| reaped_queued(q, closed@));
        let mut kept: Vec<QueuedSpawn> = Vec::new();
        let mut out: Vec<Action> = Vec::new();
        let ghost n = 0int;
        let ghost middle = *self;
        proof {
            assert(start.queued@.skip(0) =~= start.queued@);
        }
        while self.queued.len() > 0
            invariant
                0 <= n <= start.queued@.len(),
                *self == (SubagentCoordinator { queued: self.queued, ..middle }),
                self.queued@ == start.queued@.skip(n),
                queue == start.queued@.map_values(|q: QueuedSpawn| reaped_queued(q, closed@)),
                kept@ == queued_alive(queue.take(n)),
                out@ == cancelled_ends(queue.take(n)),
            decreases self.queued.len(),
        {
            let mut q: QueuedSpawn = self.queued.remove(0);
            proof {
                assert(q == start.queued@[n]);
                assert(queue.take(n + 1).drop_last() =~= queue.take(n));
                assert(queue[n] == reaped_queued(q, closed@));
                assert(self.queued@ =~= start.queued@.skip(n + 1));
                n = n + 1;
            }
            if let QueuedCaller::Awaiting { reply, .. } = q.caller {
                if !is_open(reply, closed) {
                    q.caller = QueuedCaller::Backgrounded;
                }
            }
            if q.cancelled {
                out.push(Action::FinishQueued { request: q.request, caller: q.caller });
            } else {
                kept.push(q);
            }
        }
        proof {
            assert(queue.take(n) =~= queue);
        }
        self.queued = kept;
        out
    }

    fn reap_pending(&mut self, closed: &Vec<u64>)
        ensures
            old(self).wf() ==> final(self).wf(),
            *final(self) == (SubagentCoordinator { pending: final(self).pending, ..*old(self) }),
            final(self).pending@ == old(self).pending@.map_values(
                |c: PendingChild| reaped_pending(c, closed@),
            ),
    {
        let ghost start = *self;
        let ghost f = |c: PendingChild| reaped_pending(c, closed@);
        let mut i: usize = 0;
        while i < self.pending.len()
            invariant
                i <= self.pending@.len(),
                self.pending@.len() == start.pending@.len(),
                *self == (SubagentCoordinator { pending: self.pending, ..start }),
                f == (|c: PendingChild| reaped_pending(c, closed@)),
                forall|j: int| 0 <= j < i ==> #[trigger] self.pending@[j] == f(start.pending@[j]),
                forall|j: int|
                    i <= j < self.pending@.len() ==> #[trigger] self.pending@[j]
                        == start.pending@[j],
            decreases self.pending.len() - i,
        {
            if !self.pending[i].handle_only {
                if let Some(reply) = self.pending[i].spawn_reply {
                    if !is_open(reply, closed) {
                        self.pending[i].spawn_reply = None;
                        self.pending[i].foreground_deadline = None;
                        self.pending[i].handle_only = true;
                    }
                }
            }
            i += 1;
        }
        proof {
            assert(self.pending@ =~= start.pending@.map_values(f));
            if start.wf() {
                lemma_same_keys(start.pending@, self.pending@);
            }
        }
    }

    fn reap_active(&mut self, closed: &Vec<u64>)
        ensures
            old(self).wf() ==> final(self).wf(),
            *final(self) == (SubagentCoordinator { active: final(self).active, ..*old(self) }),
            final(self).active@ == old(self).active@.map_values(
                |c: ActiveChild| reaped_active(c, closed@),
            ),
    {
        let ghost start = *self;
        let ghost f = |c: ActiveChild| reaped_active(c, closed@);
        let mut i: usize = 0;
        while i < self.active.len()
            invariant
                i <= self.active@.len(),
                self.active@.len() == start.active@.len(),
                *self == (SubagentCoordinator { active: self.active, ..start }),
                f == (|c: ActiveChild| reaped_active(c, closed@)),
                forall|j: int| 0 <= j < i ==> #[trigger] self.active@[j] == f(start.active@[j]),
                forall|j: int|
                    i <= j < self.active@.len() ==> #[trigger] self.active@[j] == start.active@[j],
            decreases self.active.len() - i,
        {
            if !self.active[i].handle_only {
                if let Some(reply) = self.active[i].spawn_reply {
                    if !is_open(reply, closed) {
                        self.active[i].spawn_reply = None;
                        self.active[i].foreground_deadline = None;
                        self.active[i].handle_only = true;
                    }
                }
            }
            i += 1;
        }
        proof {
            assert(self.active@ =~= start.active@.map_values(f));
            if start.wf() {
                lemma_same_keys(start.active@, self.active@);
            }
        }
    }
}

// ---- deadlines that passed ----

/// A deadline has passed.
pub open spec fn due(deadline: Option<u128>, now: u128) -> bool {
    deadline is Some && deadline->0 <= now
}

/// A pending child whose caller waited long enough runs in the background.
pub open spec fn timed_pending(c: PendingChild, now: u128) -> PendingChild {
    if due(c.foreground_deadline, now) {
        PendingChild { spawn_reply: None, foreground_deadline: None, handle_only: true, ..c }
    } else {
        c
    }
}

/// An active child whose caller waited long enough runs in the background.
pub open spec fn timed_active(c: ActiveChild, now: u128) -> ActiveChild {
    if due(c.foreground_deadline, now) {
        ActiveChild { spawn_reply: None, foreground_deadline: None, handle_only: true, ..c }
    } else {
        c
    }
}

/// The deadline of the caller of a queued child.
pub open spec fn caller_deadline(caller: QueuedCaller) -> Option<u128> {
    match caller {
        QueuedCaller::Awaiting { deadline, .. } => deadline,
        QueuedCaller::Backgrounded => None,
    }
}

/// A queued child whose caller waited long enough stays queued, for nobody.
pub open spec fn timed_queued(q: QueuedSpawn, now: u128) -> QueuedSpawn {
    if due(caller_deadline(q.caller), now) {
        QueuedSpawn { caller: QueuedCaller::Backgrounded, ..q }
    } else {
        q
    }
}

/// A caller is told that its child goes on in the background.
pub open spec fn told_background(
    a: Action,
    reply: u64,
    id: Seq<char>,
    child_session_id: Seq<char>,
) -> bool {
    match a {
        Action::AnswerSpawn { reply: to, result } => to == reply && result@ == (ResultView {
            backgrounded: true,
            ..bare_result(id, child_session_id)
        }),
        _ => false,
    }
}

/// The callers of pending children that are told, in order.
pub open spec fn pending_told(s: Seq<PendingChild>, now: u128) -> Seq<(u64, Seq<char>, Seq<char>)>
    decreases s.len(),
{
    if s.len() == 0 {
        Seq::empty()
    } else if due(s.last().foreground_deadline, now) && s.last().spawn_reply is Some {
        pending_told(s.drop_last(), now).push(
            (s.last().spawn_reply->0, s.last().request.id@, s.last().request.id@),
        )
    } else {
        pending_told(s.drop_last(), now)
    }
}

/// The callers of active children that are told, in order.
pub open spec fn active_told(s: Seq<ActiveChild>, now: u128) -> Seq<(u64, Seq<char>, Seq<char>)>
    decreases s.len(),
{
    if s.len() == 0 {
        Seq::empty()
    } else if due(s.last().foreground_deadline, now) && s.last().spawn_reply is Some {
        active_told(s.drop_last(), now).push(
            (s.last().spawn_reply->0, s.last().request.id@, s.last().child_session_id@),
        )
    } else {
        active_told(s.drop_last(), now)
    }
}

/// The callers of queued children that are told, in order.
pub open spec fn queued_told(s: Seq<QueuedSpawn>, now: u128) -> Seq<(u64, Seq<char>, Seq<char>)>
    decreases s.len(),
{
    if s.len() == 0 {
        Seq::empty()
    } else {
        let before = queued_told(s.drop_last(), now);
        match s.last().caller {
            QueuedCaller::Awaiting { reply, deadline } if due(deadline, now) => before.push(
                (reply, s.last().request.id@, s.last().request.id@),
            ),
            _ => before,
        }
    }
}

/// The actions tell each of some callers that its child goes on in the background.
pub open spec fn all_told(actions: Seq<Action>, told: Seq<(u64, Seq<char>, Seq<char>)>) -> bool {
    &&& actions.len() == told.len()
    &&& forall|i: int|
        0 <= i < told.len() ==> told_background(
            #[trigger] actions[i],
            told[i].0,
            told[i].1,
            told[i].2,
        )
}

fn background_answer(reply: u64, id: &str, child_session_id: &str) -> (r: Action)
    ensures
        told_background(r, reply, id@, child_session_id@),
{
    let mut result: SubagentResult = SubagentResult::bare(id, child_session_id);
    result.backgrounded = true;
    Action::AnswerSpawn { reply, result }
}

fn is_due(deadline: Option<u128>, now: u128) -> (r: bool)
    ensures
        r == due(deadline, now),
{
    match deadline {
        Some(d) => d <= now,
        None => false,
    }
}

/// Waiters for mail whose time has not passed.
pub open spec fn mail_waiters_live(s: Seq<AgentMailboxWaiter>, now: u128) -> Seq<AgentMailboxWaiter>
    decreases s.len(),
{
    if s.len() == 0 {
        Seq::empty()
    } else if s.last().deadline <= now {
        mail_waiters_live(s.drop_last(), now)
    } else {
        mail_waiters_live(s.drop_last(), now).push(s.last())
    }
}

/// The answers to waiters for mail whose time has passed.
pub open spec fn mail_timeouts(s: Seq<AgentMailboxWaiter>, now: u128) -> Seq<Action>
    decreases s.len(),
{
    if s.len() == 0 {
        Seq::empty()
    } else if s.last().deadline <= now {
        mail_timeouts(s.drop_last(), now).push(
            Action::NoMail { reply: s.last().reply, timed_out: true },
        )
    } else {
        mail_timeouts(s.drop_last(), now)
    }
}

proof fn lemma_live_keys(s: Seq<AgentMailboxWaiter>, now: u128)
    requires
        keys_differ(s),
    ensures
        keys_differ(mail_waiters_live(s, now)),
        forall|i: int|
            0 <= i < mail_waiters_live(s, now).len() ==> s.contains(
                #[trigger] mail_waiters_live(s, now)[i],
            ),
    decreases s.len(),
{
    if s.len() > 0 {
        let short = s.drop_last();
        assert(keys_differ(short)) by {
            assert forall|i: int, j: int| 0 <= i < j < short.len() implies (
            #[trigger] short[i]).key() != (#[trigger] short[j]).key() by {
                assert(s[i].key() != s[j].key());
            }
        }
        lemma_live_keys(short, now);
        let inner = mail_waiters_live(short, now);
        let out = mail_waiters_live(s, now);
        assert forall|i: int| 0 <= i < out.len() implies s.contains(#[trigger] out[i]) by {
            if i < inner.len() {
                assert(out[i] == inner[i]);
                let k = choose|k: int| 0 <= k < short.len() && short[k] == inner[i];
                assert(s[k] == out[i]);
            } else {
                assert(s[s.len() - 1] == out[i]);
            }
        }
        assert forall|i: int, j: int| 0 <= i < j < out.len() implies (#[trigger] out[i]).key() != (
        #[trigger] out[j]).key() by {
            if j < inner.len() {
                assert(inner[i].key() != inner[j].key());
            } else {
                assert(out[i] == inner[i]);
                let k = choose|k: int| 0 <= k < short.len() && short[k] == inner[i];
                assert(s[k].key() != s[s.len() - 1].key());
            }
        }
    }
}

fn expire_mail_waiters(waiters: &mut Vec<AgentMailboxWaiter>, now: u128) -> (r: Vec<Action>)
    ensures
        final(waiters)@ == mail_waiters_live(old(waiters)@, now),
        keys_differ(old(waiters)@) ==> keys_differ(final(waiters)@),
        r@ == mail_timeouts(old(waiters)@, now),
{
    let ghost all = waiters@;
    let mut kept: Vec<AgentMailboxWaiter> = Vec::new();
    let mut out: Vec<Action> = Vec::new();
    let mut i: usize = 0;
    while i < waiters.len()
        invariant
            i <= waiters@.len(),
            waiters@ == all,
            kept@ == mail_waiters_live(all.take(i as int), now),
            out@ == mail_timeouts(all.take(i as int), now),
        decreases waiters.len() - i,
    {
        proof {
            assert(all.take(i as int + 1).drop_last() =~= all.take(i as int));
        }
        let w: &AgentMailboxWaiter = &waiters[i];
        if w.deadline <= now {
            out.push(Action::NoMail { reply: w.reply, timed_out: true });
        } else {
            kept.push(
                AgentMailboxWaiter {
                    team_scope_id: w.team_scope_id.clone(),
                    agent_id: w.agent_id.clone(),
                    deadline: w.deadline,
                    reply: w.reply,
                },
            );
        }
        i += 1;
    }
    proof {
        assert(all.take(i as int) =~= all);
        if keys_differ(all) {
            lemma_live_keys(all, now);
        }
    }
    *waiters = kept;
    out
}

/// Waiters for a child whose time has not passed.
pub open spec fn waiting_live(s: Seq<BlockingWaiter>, now: u128) -> Seq<BlockingWaiter>
    decreases s.len(),
{
    if s.len() == 0 {
        Seq::empty()
    } else if s.last().deadline <= now {
        waiting_live(s.drop_last(), now)
    } else {
        waiting_live(s.drop_last(), now).push(s.last())
    }
}

/// The answers to waiters for a child whose time has passed: the progress of a
/// live child, what is known of another. Those that are gone are passed over.
pub open spec fn waiting_timeouts(
    s: Seq<BlockingWaiter>,
    active: Seq<ActiveChild>,
    closed: Seq<u64>,
    now: u128,
) -> Seq<Action>
    decreases s.len(),
{
    if s.len() == 0 {
        Seq::empty()
    } else {
        let before = waiting_timeouts(s.drop_last(), active, closed, now);
        let w = s.last();
        if w.deadline > now || !open_reply(w.reply, closed) {
            before
        } else if find(active, (w.subagent_id@, ""@)) is Some {
            before.push(Action::AnswerProgress { reply: w.reply, id: w.subagent_id })
        } else {
            before.push(Action::AnswerReady { reply: w.reply, id: w.subagent_id })
        }
    }
}

/// The sessions whose hold has lasted too long, in order.
pub open spec fn stale_drains(s: Seq<TeardownDrain>, now: u128) -> Seq<Seq<char>>
    decreases s.len(),
{
    if s.len() == 0 {
        Seq::empty()
    } else if s.last().deadline <= now {
        stale_drains(s.drop_last(), now).push(s.last().parent_session_id@)
    } else {
        stale_drains(s.drop_last(), now)
    }
}

/// What is held for sessions that are being deleted.
#[verifier::ext_equal]
pub struct Holds {
    pub blocked: Seq<String>,
    pub drains: Seq<TeardownDrain>,
    pub waiters: Seq<ReplyWaiter>,
    pub actions: Seq<Action>,
}

/// The holds after one session's was given up.
pub open spec fn released(h: Holds, session: Seq<char>) -> Holds {
    let held = find(h.drains, (session, ""@)) is Some;
    Holds {
        blocked: texts_but(h.blocked, session),
        drains: without(h.drains, (session, ""@)),
        waiters: if held {
            waiters_but(h.waiters, session)
        } else {
            h.waiters
        },
        actions: if held {
            h.actions + waiter_answers(h.waiters, session, true)
        } else {
            h.actions
        },
    }
}

/// The holds after those of the first `n` sessions were given up.
pub open spec fn released_all(h: Holds, sessions: Seq<Seq<char>>, n: int) -> Holds
    decreases n,
{
    if n <= 0 {
        h
    } else {
        released(released_all(h, sessions, n - 1), sessions[n - 1])
    }
}

impl SubagentCoordinator {
    /// What is held for sessions that are being deleted.
    pub open spec fn holds(&self, actions: Seq<Action>) -> Holds {
        Holds {
            blocked: self.spawn_blocked_sessions@,
            drains: self.teardown_drains@,
            waiters: self.drain_waiters@,
            actions,
        }
    }

    fn release_stale(&mut self, now: u128) -> (r: Vec<Action>)
        ensures
            old(self).wf() ==> final(self).wf(),
            *final(self) == (SubagentCoordinator {
                spawn_blocked_sessions: final(self).spawn_blocked_sessions,
                teardown_drains: final(self).teardown_drains,
                drain_waiters: final(self).drain_waiters,
                ..*old(self)
            }),
            ({
                let stale = stale_drains(old(self).teardown_drains@, now);
                final(self).holds(r@) == released_all(
                    old(self).holds(Seq::empty()),
                    stale,
                    stale.len() as int,
                )
            }),
    {
        let ghost start = *self;
        let mut names: Vec<String> = Vec::new();
        let ghost all = self.teardown_drains@;
        let mut i: usize = 0;
        while i < self.teardown_drains.len()
            invariant
                i <= self.teardown_drains@.len(),
                self.teardown_drains@ == all,
                views(names@) =~= stale_drains(all.take(i as int), now),
            decreases self.teardown_drains.len() - i,
        {
            proof {
                assert(all.take(i as int + 1).drop_last() =~= all.take(i as int));
            }
            if self.teardown_drains[i].deadline <= now {
                let ghost before = views(names@);
                names.push(self.teardown_drains[i].parent_session_id.clone());
                proof {
                    assert(views(names@) =~= before.push(all[i as int].parent_session_id@));
                }
            }
            i += 1;
        }
        proof {
            assert(all.take(i as int) =~= all);
        }
        let ghost stale = stale_drains(all, now);
        let ghost h0 = start.holds(Seq::empty());
        let mut out: Vec<Action> = Vec::new();
        let mut k: usize = 0;
        proof {
            assert(self.holds(out@) =~= h0);
        }
        while k < names.len()
            invariant
                k <= names@.len(),
                stale == views(names@),
                start.wf() ==> self.wf(),
                *self == (SubagentCoordinator {
                    spawn_blocked_sessions: self.spawn_blocked_sessions,
                    teardown_drains: self.teardown_drains,
                    drain_waiters: self.drain_waiters,
                    ..start
                }),
                self.holds(out@) == released_all(h0, stale, k as int),
            decreases names.len() - k,
        {
            proof {
                assert(stale[k as int] == names@[k as int]@);
            }
            let ghost h = self.holds(out@);
            let mut answers: Vec<Action> = self.clear_teardown_drain(names[k].as_str());
            out.append(&mut answers);
            proof {
                assert(self.holds(out@) =~= released(h, stale[k as int]));
            }
            k += 1;
        }
        proof {
            assert(stale.len() == names@.len());
        }
        out
    }

    fn time_pending(&mut self, now: u128) -> (r: Vec<Action>)
        ensures
            old(self).wf() ==> final(self).wf(),
            *final(self) == (SubagentCoordinator { pending: final(self).pending, ..*old(self) }),
            final(self).pending@ == old(self).pending@.map_values(
                |c: PendingChild| timed_pending(c, now),
            ),
            all_told(r@, pending_told(old(self).pending@, now)),
    {
        let ghost start = *self;
        let ghost f = |c: PendingChild| timed_pending(c, now);
        let mut out: Vec<Action> = Vec::new();
        let mut i: usize = 0;
        while i < self.pending.len()
            invariant
                i <= self.pending@.len(),
                self.pending@.len() == start.pending@.len(),
                *self == (SubagentCoordinator { pending: self.pending, ..start }),
                f == (|c: PendingChild| timed_pending(c, now)),
                forall|j: int| 0 <= j < i ==> #[trigger] self.pending@[j] == f(start.pending@[j]),
                forall|j: int|
                    i <= j < self.pending@.len() ==> #[trigger] self.pending@[j]
                        == start.pending@[j],
                all_told(out@, pending_told(start.pending@.take(i as int), now)),
            decreases self.pending.len() - i,
        {
            proof {
                assert(start.pending@.take(i as int + 1).drop_last() =~= start.pending@.take(
                    i as int,
                ));
            }
            if is_due(self.pending[i].foreground_deadline, now) {
                if let Some(reply) = self.pending[i].spawn_reply {
                    let c: &PendingChild = &self.pending[i];
                    out.push(
                        background_answer(reply, c.request.id.as_str(), c.request.id.as_str()),
                    );
                }
                self.pending[i].spawn_reply = None;
                self.pending[i].foreground_deadline = None;
                self.pending[i].handle_only = true;
            }
            i += 1;
        }
        proof {
            assert(start.pending@.take(i as int) =~= start.pending@);
            assert(self.pending@ =~= start.pending@.map_values(f));
            if start.wf() {
                lemma_same_keys(start.pending@, self.pending@);
            }
        }
        out
    }

    fn time_active(&mut self, now: u128) -> (r: Vec<Action>)
        ensures
            old(self).wf() ==> final(self).wf(),
            *final(self) == (SubagentCoordinator { active: final(self).active, ..*old(self) }),
            final(self).active@ == old(self).active@.map_values(
                |c: ActiveChild| timed_active(c, now),
            ),
            all_told(r@, active_told(old(self).active@, now)),
    {
        let ghost start = *self;
        let ghost f = |c: ActiveChild| timed_active(c, now);
        let mut out: Vec<Action> = Vec::new();
        let mut i: usize = 0;
        while i < self.active.len()
            invariant
                i <= self.active@.len(),
                self.active@.len() == start.active@.len(),
                *self == (SubagentCoordinator { active: self.active, ..start }),
                f == (|c: ActiveChild| timed_active(c, now)),
                forall|j: int| 0 <= j < i ==> #[trigger] self.active@[j] == f(start.active@[j]),
                forall|j: int|
                    i <= j < self.active@.len() ==> #[trigger] self.active@[j] == start.active@[j],
                all_told(out@, active_told(start.active@.take(i as int), now)),
            decreases self.active.len() - i,
        {
            proof {
                assert(start.active@.take(i as int + 1).drop_last() =~= start.active@.take(
                    i as int,
                ));
            }
            if is_due(self.active[i].foreground_deadline, now) {
                if let Some(reply) = self.active[i].spawn_reply {
                    let c: &ActiveChild = &self.active[i];
                    out.push(
                        background_answer(
                            reply,
                            c.request.id.as_str(),
                            c.child_session_id.as_str(),
                        ),
                    );
                }
                self.active[i].spawn_reply = None;
                self.active[i].foreground_deadline = None;
                self.active[i].handle_only = true;
            }
            i += 1;
        }
        proof {
            assert(start.active@.take(i as int) =~= start.active@);
            assert(self.active@ =~= start.active@.map_values(f));
            if start.wf() {
                lemma_same_keys(start.active@, self.active@);
            }
        }
        out
    }

    fn time_queued(&mut self, now: u128) -> (r: Vec<Action>)
        ensures
            old(self).wf() ==> final(self).wf(),
            *final(self) == (SubagentCoordinator { queued: final(self).queued, ..*old(self) }),
            final(self).queued@ == old(self).queued@.map_values(
                |q: QueuedSpawn| timed_queued(q, now),
            ),
            all_told(r@, queued_told(old(self).queued@, now)),
    {
        let ghost start = *self;
        let ghost f = |q: QueuedSpawn| timed_queued(q, now);
        let mut out: Vec<Action> = Vec::new();
        let mut i: usize = 0;
        while i < self.queued.len()
            invariant
                i <= self.queued@.len(),
                self.queued@.len() == start.queued@.len(),
                *self == (SubagentCoordinator { queued: self.queued, ..start }),
                f == (|q: QueuedSpawn| timed_queued(q, now)),
                forall|j: int| 0 <= j < i ==> #[trigger] self.queued@[j] == f(start.queued@[j]),
                forall|j: int|
                    i <= j < self.queued@.len() ==> #[trigger] self.queued@[j] == start.queued@[j],
                all_told(out@, queued_told(start.queued@.take(i as int), now)),
            decreases self.queued.len() - i,
        {
            proof {
                assert(start.queued@.take(i as int + 1).drop_last() =~= start.queued@.take(
                    i as int,
                ));
            }
            if let QueuedCaller::Awaiting { reply, deadline } = self.queued[i].caller {
                if is_due(deadline, now) {
                    let q: &QueuedSpawn = &self.queued[i];
                    out.push(
                        background_answer(reply, q.request.id.as_str(), q.request.id.as_str()),
                    );
                    self.queued[i].caller = QueuedCaller::Backgrounded;
                }
            }
            i += 1;
        }
        proof {
            assert(start.queued@.take(i as int) =~= start.queued@);
            assert(self.queued@ =~= start.queued@.map_values(f));
        }
        out
    }

    fn expire_waiters(&mut self, closed: &Vec<u64>, now: u128) -> (r: Vec<Action>)
        ensures
            old(self).wf() ==> final(self).wf(),
            *final(self) == (SubagentCoordinator { waiters: final(self).waiters, ..*old(self) }),
            final(self).waiters@ == waiting_live(old(self).waiters@, now),
            r@ == waiting_timeouts(old(self).waiters@, old(self).active@, closed@, now),
    {
        let ghost start = *self;
        let ghost all = self.waiters@;
        let mut kept: Vec<BlockingWaiter> = Vec::new();
        let mut out: Vec<Action> = Vec::new();
        let mut i: usize = 0;
        while i < self.waiters.len()
            invariant
                i <= self.waiters@.len(),
                self.waiters@ == all,
                *self == start,
                kept@ == waiting_live(all.take(i as int), now),
                out@ == waiting_timeouts(all.take(i as int), start.active@, closed@, now),
            decreases self.waiters.len() - i,
        {
            proof {
                assert(all.take(i as int + 1).drop_last() =~= all.take(i as int));
            }
            let w: &BlockingWaiter = &self.waiters[i];
            if w.deadline > now {
                kept.push(
                    BlockingWaiter {
                        subagent_id: w.subagent_id.clone(),
                        deadline: w.deadline,
                        reply: w.reply,
                    },
                );
            } else if is_open(w.reply, closed) {
                if position(&self.active, w.subagent_id.as_str(), "").is_some() {
                    out.push(
                        Action::AnswerProgress { reply: w.reply, id: w.subagent_id.clone() },
                    );
                } else {
                    out.push(Action::AnswerReady { reply: w.reply, id: w.subagent_id.clone() });
                }
            }
            i += 1;
        }
        proof {
            assert(all.take(i as int) =~= all);
        }
        self.waiters = kept;
        out
    }

    /// What the passing of time leaves and asks for. The actions come in eight
    /// groups: native waiters, queued children that were cancelled, holds on
    /// sessions, then the callers of pending, active and queued children,
    /// waiters for children, and waiters for mail.
    pub open spec fn deadlines_post(
        &self,
        before: SubagentCoordinator,
        closed: Seq<u64>,
        now: u128,
        actions: Seq<Seq<Action>>,
    ) -> bool {
        let pending = before.pending@.map_values(|c: PendingChild| reaped_pending(c, closed));
        let active = before.active@.map_values(|c: ActiveChild| reaped_active(c, closed));
        let swept = before.queued@.map_values(|q: QueuedSpawn| reaped_queued(q, closed));
        let queue = queued_alive(swept);
        let stale = stale_drains(before.teardown_drains@, now);
        &&& self.config == before.config
        &&& self.completed == before.completed
        &&& self.completed_order == before.completed_order
        &&& self.mailboxes == before.mailboxes
        &&& self.native_agents == before.native_agents
        &&& self.native_loaded == before.native_loaded
        &&& self.native_activity == before.native_activity
        &&& self.workflow_cancel_waiters == before.workflow_cancel_waiters
        &&& self.usage_not_applied_prompts == before.usage_not_applied_prompts
        &&& self.pending_completions == before.pending_completions
        &&& self.last_queued_reap == now
        &&& self.native_waiters@ == mail_waiters_live(before.native_waiters@, now)
        &&& self.pending@ == pending.map_values(|c: PendingChild| timed_pending(c, now))
        &&& self.active@ == active.map_values(|c: ActiveChild| timed_active(c, now))
        &&& self.queued@ == queue.map_values(|q: QueuedSpawn| timed_queued(q, now))
        &&& self.waiters@ == waiting_live(before.waiters@, now)
        &&& self.mailbox_waiters@ == mail_waiters_live(before.mailbox_waiters@, now)
        &&& actions.len() == 8
        &&& actions[0] == mail_timeouts(before.native_waiters@, now)
        &&& actions[1] == cancelled_ends(swept)
        &&& self.holds(actions[2]) == released_all(
            before.holds(Seq::empty()),
            stale,
            stale.len() as int,
        )
        &&& all_told(actions[3], pending_told(pending, now))
        &&& all_told(actions[4], active_told(active, now))
        &&& all_told(actions[5], queued_told(queue, now))
        &&& actions[6] == waiting_timeouts(before.waiters@, self.active@, closed, now)
        &&& actions[7] == mail_timeouts(before.mailbox_waiters@, now)
    }

    /// Does what is due at a time.
    pub fn process_deadlines(&mut self, closed: &Vec<u64>, now: u128) -> (r: Vec<Vec<Action>>)
        ensures
            old(self).wf() ==> final(self).wf(),
            final(self).deadlines_post(
                *old(self),
                closed@,
                now,
                r@.map_values(|v: Vec<Action>| v@),
            ),
    {
        let native: Vec<Action> = expire_mail_waiters(&mut self.native_waiters, now);
        let ends: Vec<Action> = self.reap_abandoned_callers(closed, now);
        let held: Vec<Action> = self.release_stale(now);
        let pending: Vec<Action> = self.time_pending(now);
        let active: Vec<Action> = self.time_active(now);
        let queued: Vec<Action> = self.time_queued(now);
        let waiting: Vec<Action> = self.expire_waiters(closed, now);
        let mail: Vec<Action> = expire_mail_waiters(&mut self.mailbox_waiters, now);
        let mut out: Vec<Vec<Action>> = Vec::new();
        out.push(native);
        out.push(ends);
        out.push(held);
        out.push(pending);
        out.push(active);
        out.push(queued);
        out.push(waiting);
        out.push(mail);
        proof {
            let views = out@.map_values(|v: Vec<Action>| v@);
            assert(views =~= seq![
                native@,
                ends@,
                held@,
                pending@,
                active@,
                queued@,
                waiting@,
                mail@,
            ]);
        }
        out
    }
}

// ---- the next deadline ----

/// The smaller of two times, where there are any.
pub open spec fn earlier(a: Option<u128>, b: Option<u128>) -> Option<u128> {
    match (a, b) {
        (None, _) => b,
        (_, None) => a,
        (Some(x), Some(y)) => if y < x {
            b
        } else {
            a
        },
    }
}

fn sooner(a: Option<u128>, b: Option<u128>) -> (r: Option<u128>)
    ensures
        r == earlier(a, b),
{
    match a {
        None => b,
        Some(x) => match b {
            None => a,
            Some(y) => if y < x {
                b
            } else {
                a
            },
        },
    }
}

/// The earliest of some times.
pub open spec fn earliest(s: Seq<Option<u128>>) -> Option<u128>
    decreases s.len(),
{
    if s.len() == 0 {
        None
    } else {
        earlier(earliest(s.drop_last()), s.last())
    }
}

/// The earliest of some times is one of them, and none is earlier.
pub proof fn lemma_earliest(s: Seq<Option<u128>>)
    ensures
        match earliest(s) {
            Some(t) => {
                &&& s.contains(Some(t))
                &&& forall|i: int| 0 <= i < s.len() && s[i] is Some ==> t <= (#[trigger] s[i])->0
            },
            None => forall|i: int| 0 <= i < s.len() ==> (#[trigger] s[i]) is None,
        },
    decreases s.len(),
{
    if s.len() > 0 {
        let short = s.drop_last();
        lemma_earliest(short);
        assert forall|i: int| 0 <= i < short.len() implies #[trigger] s[i] == short[i] by {}
        if let Some(t) = earliest(s) {
            if earliest(s) == s.last() {
                assert(s[s.len() - 1] == Some(t));
            } else {
                let k = choose|k: int| 0 <= k < short.len() && short[k] == Some(t);
                assert(s[k] == Some(t));
            }
        }
    }
}

impl SubagentCoordinator {
    /// All times at which something may be due.
    pub open spec fn deadlines(&self) -> Seq<Option<u128>> {
        self.pending@.map_values(|c: PendingChild| c.foreground_deadline)
            + self.active@.map_values(|c: ActiveChild| c.foreground_deadline)
            + self.queued@.map_values(|q: QueuedSpawn| caller_deadline(q.caller))
            + self.waiters@.map_values(|w: BlockingWaiter| Some(w.deadline))
            + self.mailbox_waiters@.map_values(|w: AgentMailboxWaiter| Some(w.deadline))
            + self.native_waiters@.map_values(|w: AgentMailboxWaiter| Some(w.deadline))
            + self.teardown_drains@.map_values(|d: TeardownDrain| Some(d.deadline)) + (
        if self.queued@.len() > 0 {
            seq![
                Some((self.last_queued_reap + self.config.queued_reap_interval_ms) as u128),
            ]
        } else {
            Seq::empty()
        })
    }

    /// The time at which something may next be due. The sweep of the queue is
    /// counted from the last one, so that other events do not put it off.
    pub fn next_deadline(&self) -> (r: Option<u128>)
        requires
            self.last_queued_reap + self.config.queued_reap_interval_ms <= u128::MAX,
        ensures
            r == earliest(self.deadlines()),
    {
        let ghost d1 = self.pending@.map_values(|c: PendingChild| c.foreground_deadline);
        let ghost d2 = self.active@.map_values(|c: ActiveChild| c.foreground_deadline);
        let ghost d3 = self.queued@.map_values(|q: QueuedSpawn| caller_deadline(q.caller));
        let ghost d4 = self.waiters@.map_values(|w: BlockingWaiter| Some(w.deadline));
        let ghost d5 = self.mailbox_waiters@.map_values(
            |w: AgentMailboxWaiter| Some(w.deadline),
        );
        let ghost d6 = self.native_waiters@.map_values(|w: AgentMailboxWaiter| Some(w.deadline));
        let ghost d7 = self.teardown_drains@.map_values(|d: TeardownDrain| Some(d.deadline));
        let mut best: Option<u128> = None;
        let mut i: usize = 0;
        while i < self.pending.len()
            invariant
                i <= self.pending@.len(),
                d1 == self.pending@.map_values(|c: PendingChild| c.foreground_deadline),
                best == earliest(d1.take(i as int)),
            decreases self.pending.len() - i,
        {
            proof {
                assert(d1.take(i as int + 1).drop_last() =~= d1.take(i as int));
            }
            best = sooner(best, self.pending[i].foreground_deadline);
            i += 1;
        }
        proof {
            assert(d1.take(i as int) =~= d1);
            assert(d1 + d2.take(0) =~= d1);
        }
        let mut i: usize = 0;
        while i < self.active.len()
            invariant
                i <= self.active@.len(),
                d2 == self.active@.map_values(|c: ActiveChild| c.foreground_deadline),
                best == earliest(d1 + d2.take(i as int)),
            decreases self.active.len() - i,
        {
            proof {
                assert((d1 + d2.take(i as int + 1)).drop_last() =~= d1 + d2.take(i as int));
            }
            best = sooner(best, self.active[i].foreground_deadline);
            i += 1;
        }
        let ghost e2 = d1 + d2;
        proof {
            assert(d2.take(i as int) =~= d2);
            assert(e2 + d3.take(0) =~= e2);
        }
        let mut i: usize = 0;
        while i < self.queued.len()
            invariant
                i <= self.queued@.len(),
                d3 == self.queued@.map_values(|q: QueuedSpawn| caller_deadline(q.caller)),
                best == earliest(e2 + d3.take(i as int)),
            decreases self.queued.len() - i,
        {
            proof {
                assert((e2 + d3.take(i as int + 1)).drop_last() =~= e2 + d3.take(i as int));
            }
            let deadline: Option<u128> = match self.queued[i].caller {
                QueuedCaller::Awaiting { deadline, .. } => deadline,
                QueuedCaller::Backgrounded => None,
            };
            best = sooner(best, deadline);
            i += 1;
        }
        let ghost e3 = e2 + d3;
        proof {
            assert(d3.take(i as int) =~= d3);
            assert(e3 + d4.take(0) =~= e3);
        }
        let mut i: usize = 0;
        while i < self.waiters.len()
            invariant
                i <= self.waiters@.len(),
                d4 == self.waiters@.map_values(|w: BlockingWaiter| Some(w.deadline)),
                best == earliest(e3 + d4.take(i as int)),
            decreases self.waiters.len() - i,
        {
            proof {
                assert((e3 + d4.take(i as int + 1)).drop_last() =~= e3 + d4.take(i as int));
            }
            best = sooner(best, Some(self.waiters[i].deadline));
            i += 1;
        }
        let ghost e4 = e3 + d4;
        proof {
            assert(d4.take(i as int) =~= d4);
            assert(e4 + d5.take(0) =~= e4);
        }
        let mut i: usize = 0;
        while i < self.mailbox_waiters.len()
            invariant
                i <= self.mailbox_waiters@.len(),
                d5 == self.mailbox_waiters@.map_values(|w: AgentMailboxWaiter| Some(w.deadline)),
                best == earliest(e4 + d5.take(i as int)),
            decreases self.mailbox_waiters.len() - i,
        {
            proof {
                assert((e4 + d5.take(i as int + 1)).drop_last() =~= e4 + d5.take(i as int));
            }
            best = sooner(best, Some(self.mailbox_waiters[i].deadline));
            i += 1;
        }
        let ghost e5 = e4 + d5;
        proof {
            assert(d5.take(i as int) =~= d5);
            assert(e5 + d6.take(0) =~= e5);
        }
        let mut i: usize = 0;
        while i < self.native_waiters.len()
            invariant
                i <= self.native_waiters@.len(),
                d6 == self.native_waiters@.map_values(|w: AgentMailboxWaiter| Some(w.deadline)),
                best == earliest(e5 + d6.take(i as int)),
            decreases self.native_waiters.len() - i,
        {
            proof {
                assert((e5 + d6.take(i as int + 1)).drop_last() =~= e5 + d6.take(i as int));
            }
            best = sooner(best, Some(self.native_waiters[i].deadline));
            i += 1;
        }
        let ghost e6 = e5 + d6;
        proof {
            assert(d6.take(i as int) =~= d6);
            assert(e6 + d7.take(0) =~= e6);
        }
        let mut i: usize = 0;
        while i < self.teardown_drains.len()
            invariant
                i <= self.teardown_drains@.len(),
                d7 == self.teardown_drains@.map_values(|d: TeardownDrain| Some(d.deadline)),
                best == earliest(e6 + d7.take(i as int)),
            decreases self.teardown_drains.len() - i,
        {
            proof {
                assert((e6 + d7.take(i as int + 1)).drop_last() =~= e6 + d7.take(i as int));
            }
            best = sooner(best, Some(self.teardown_drains[i].deadline));
            i += 1;
        }
        let ghost e7 = e6 + d7;
        proof {
            assert(d7.take(i as int) =~= d7);
        }
        if self.queued.len() > 0 {
            let sweep: u128 = self.last_queued_reap + self.config.queued_reap_interval_ms as u128;
            proof {
                assert((e7 + seq![Some(sweep)]).drop_last() =~= e7);
                assert(self.deadlines() =~= e7 + seq![Some(sweep)]);
            }
            best = sooner(best, Some(sweep));
        } else {
            proof {
                assert(self.deadlines() =~= e7);
            }
        }
        best
    }
}

} // verus!
