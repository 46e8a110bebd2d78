//! What the coordinator tells of its children.
use vstd::prelude::*;
#[allow(unused_imports)]
use vstd::string::*;

#[allow(unused_imports)]
use crate::coordinator::state::{Scope, ScopeView, SubagentCoordinator, covers, is_text};
#[allow(unused_imports)]
use crate::coordinator::types::{
    ActiveChild, AgentMailboxIdentity, AgentRosterEntry, BufferedCompletion, CompletedChild,
    ListAgentsOutput, PendingChild, QueuedCaller, QueuedSpawn, SpawnedSubagentRef,
    SubagentCompletionSummary, SubagentOutstandingReply, SubagentRegistryCounts, SubagentRequest,
    status_of,
};
#[allow(unused_imports)]
use crate::table::{find, position, sort_by_name, sorted_from};
#[allow(unused_imports)]
use crate::text::{copy_option, in_list, list_holds, option_view, same_text};

verus! {

// ---- the agents of a team ----

/// What a roster entry holds.
#[verifier::ext_equal]
pub struct RosterView {
    pub agent_id: Seq<char>,
    pub is_root: bool,
    pub status: Seq<char>,
    pub subagent_type: Option<Seq<char>>,
    pub description: Option<Seq<char>>,
    pub resumed_from: Option<Seq<char>>,
    pub worktree_path: Option<Seq<char>>,
}

impl View for AgentRosterEntry {
    type V = RosterView;

    open spec fn view(&self) -> RosterView {
        RosterView {
            agent_id: self.agent_id@,
            is_root: self.is_root,
            status: self.status@,
            subagent_type: option_view(self.subagent_type),
            description: option_view(self.description),
            resumed_from: option_view(self.resumed_from),
            worktree_path: option_view(self.worktree_path),
        }
    }
}

/// The entry of the root.
pub open spec fn root_entry(team: Seq<char>) -> RosterView {
    RosterView {
        agent_id: team,
        is_root: true,
        status: "running"@,
        subagent_type: None,
        description: Some("Root agent"@),
        resumed_from: None,
        worktree_path: None,
    }
}

/// The entry of a child.
pub open spec fn child_entry(
    request: SubagentRequest,
    status: Seq<char>,
    resumed_from: Option<String>,
    worktree_path: Option<String>,
) -> RosterView {
    RosterView {
        agent_id: request.id@,
        is_root: false,
        status,
        subagent_type: Some(request.subagent_type@),
        description: Some(request.description@),
        resumed_from: option_view(resumed_from),
        worktree_path: option_view(worktree_path),
    }
}

/// The entries of the pending children of a team.
pub open spec fn pending_entries(s: Seq<PendingChild>, team: Seq<char>) -> Seq<RosterView>
    decreases s.len(),
{
    if s.len() == 0 {
        Seq::empty()
    } else if s.last().request.parent_session_id@ == team {
        pending_entries(s.drop_last(), team).push(
            child_entry(s.last().request, "pending"@, s.last().request.resume_from, None),
        )
    } else {
        pending_entries(s.drop_last(), team)
    }
}

/// The entries of the active children of a team.
pub open spec fn active_entries(s: Seq<ActiveChild>, team: Seq<char>) -> Seq<RosterView>
    decreases s.len(),
{
    if s.len() == 0 {
        Seq::empty()
    } else if s.last().request.parent_session_id@ == team {
        active_entries(s.drop_last(), team).push(
            child_entry(
                s.last().request,
                "running"@,
                s.last().resumed_from,
                s.last().worktree_path,
            ),
        )
    } else {
        active_entries(s.drop_last(), team)
    }
}

/// The entries of the completed children of a team.
pub open spec fn completed_entries(s: Seq<CompletedChild>, team: Seq<char>) -> Seq<RosterView>
    decreases s.len(),
{
    if s.len() == 0 {
        Seq::empty()
    } else if s.last().request.parent_session_id@ == team {
        completed_entries(s.drop_last(), team).push(
            child_entry(
                s.last().request,
                status_of(s.last().result),
                s.last().resumed_from,
                s.last().worktree_path,
            ),
        )
    } else {
        completed_entries(s.drop_last(), team)
    }
}

/// What some entries hold.
pub open spec fn roster_views(s: Seq<AgentRosterEntry>) -> Seq<RosterView> {
    s.map_values(|e: AgentRosterEntry| e@)
}

fn entry_of(
    request: &SubagentRequest,
    status: String,
    resumed_from: &Option<String>,
    worktree_path: &Option<String>,
) -> (r: AgentRosterEntry)
    ensures
        r@ == child_entry(*request, status@, *resumed_from, *worktree_path),
{
    AgentRosterEntry {
        agent_id: request.id.clone(),
        is_root: false,
        status,
        subagent_type: Some(request.subagent_type.clone()),
        description: Some(request.description.clone()),
        resumed_from: copy_option(resumed_from),
        worktree_path: copy_option(worktree_path),
    }
}

impl SubagentCoordinator {
    /// The entries of the children of a team, table by table.
    pub open spec fn team_entries(&self, team: Seq<char>) -> Seq<RosterView> {
        pending_entries(self.pending@, team) + active_entries(self.active@, team)
            + completed_entries(self.completed@, team)
    }

    /// `agents` is the roster of a team: the root, then its children by id, and
    /// those with the same id in the order of the tables.
    pub open spec fn is_roster(&self, team: Seq<char>, agents: Seq<AgentRosterEntry>) -> bool {
        &&& agents.len() > 0
        &&& agents[0]@ == root_entry(team)
        &&& exists|all: Seq<AgentRosterEntry>|
            #[trigger] roster_views(all) == self.team_entries(team) && sorted_from(
                agents.skip(1),
                all,
            )
    }

    /// The agents of a team: the root first, then its children by id.
    pub fn list_agents(&self, identity: &AgentMailboxIdentity) -> (r: ListAgentsOutput)
        ensures
            r.team_scope_id == identity.team_scope_id,
            self.is_roster(identity.team_scope_id@, r.agents@),
    {
        let team: &str = identity.team_scope_id.as_str();
        let mut rest: Vec<AgentRosterEntry> = Vec::new();
        let ghost p = self.pending@;
        let ghost a = self.active@;
        let ghost c = self.completed@;
        let none: Option<String> = None;
        let mut i: usize = 0;
        while i < self.pending.len()
            invariant
                i <= self.pending@.len(),
                p == self.pending@,
                none is None,
                roster_views(rest@) =~= pending_entries(p.take(i as int), team@),
            decreases self.pending.len() - i,
        {
            proof {
                assert(p.take(i as int + 1).drop_last() =~= p.take(i as int));
            }
            let child: &PendingChild = &self.pending[i];
            if same_text(child.request.parent_session_id.as_str(), team) {
                let ghost before = roster_views(rest@);
                let e: AgentRosterEntry = entry_of(
                    &child.request,
                    "pending".to_owned(),
                    &child.request.resume_from,
                    &none,
                );
                rest.push(e);
                proof {
                    assert(roster_views(rest@) =~= before.push(e@));
                }
            }
            i += 1;
        }
        let ghost first = pending_entries(p, team@);
        proof {
            assert(p.take(i as int) =~= p);
            assert(first + active_entries(a.take(0), team@) =~= first);
        }
        let mut i: usize = 0;
        while i < self.active.len()
            invariant
                i <= self.active@.len(),
                a == self.active@,
                roster_views(rest@) =~= first + active_entries(a.take(i as int), team@),
            decreases self.active.len() - i,
        {
            proof {
                assert(a.take(i as int + 1).drop_last() =~= a.take(i as int));
            }
            let child: &ActiveChild = &self.active[i];
            if same_text(child.request.parent_session_id.as_str(), team) {
                let ghost before = roster_views(rest@);
                let e: AgentRosterEntry = entry_of(
                    &child.request,
                    "running".to_owned(),
                    &child.resumed_from,
                    &child.worktree_path,
                );
                rest.push(e);
                proof {
                    assert(roster_views(rest@) =~= before.push(e@));
                    assert(before.push(e@) =~= first + active_entries(a.take(i as int), team@).push(
                        e@,
                    ));
                }
            }
            i += 1;
        }
        let ghost second = first + active_entries(a, team@);
        proof {
            assert(a.take(i as int) =~= a);
            assert(second + completed_entries(c.take(0), team@) =~= second);
        }
        let mut i: usize = 0;
        while i < self.completed.len()
            invariant
                i <= self.completed@.len(),
                c == self.completed@,
                roster_views(rest@) =~= second + completed_entries(c.take(i as int), team@),
            decreases self.completed.len() - i,
        {
            proof {
                assert(c.take(i as int + 1).drop_last() =~= c.take(i as int));
            }
            let child: &CompletedChild = &self.completed[i];
            if same_text(child.request.parent_session_id.as_str(), team) {
                let ghost before = roster_views(rest@);
                let e: AgentRosterEntry = entry_of(
                    &child.request,
                    child.result.status(),
                    &child.resumed_from,
                    &child.worktree_path,
                );
                rest.push(e);
                proof {
                    assert(roster_views(rest@) =~= before.push(e@));
                    assert(before.push(e@) =~= second + completed_entries(
                        c.take(i as int),
                        team@,
                    ).push(e@));
                }
            }
            i += 1;
        }
        proof {
            assert(c.take(i as int) =~= c);
        }
        let ghost all = rest@;
        let mut sorted: Vec<AgentRosterEntry> = sort_by_name(rest);
        let mut agents: Vec<AgentRosterEntry> = Vec::new();
        agents.push(
            AgentRosterEntry {
                agent_id: identity.team_scope_id.clone(),
                is_root: true,
                status: "running".to_owned(),
                subagent_type: None,
                description: Some("Root agent".to_owned()),
                resumed_from: None,
                worktree_path: None,
            },
        );
        let ghost tail = sorted@;
        agents.append(&mut sorted);
        proof {
            assert(agents@.skip(1) =~= tail);
            assert(roster_views(all) == self.team_entries(team@));
        }
        ListAgentsOutput { team_scope_id: identity.team_scope_id.clone(), agents }
    }
}

// ---- what is outstanding ----

/// The ids of pending children of a turn that its caller waits for.
pub open spec fn pending_live(s: Seq<PendingChild>, turn: ScopeView) -> Seq<String>
    decreases s.len(),
{
    if s.len() == 0 {
        Seq::empty()
    } else if covers(turn, s.last().request) && !s.last().handle_only {
        pending_live(s.drop_last(), turn).push(s.last().request.id)
    } else {
        pending_live(s.drop_last(), turn)
    }
}

/// The ids of active children of a turn that its caller waits for. A child that
/// its definition puts in the background does not count.
pub open spec fn active_live(s: Seq<ActiveChild>, turn: ScopeView) -> Seq<String>
    decreases s.len(),
{
    if s.len() == 0 {
        Seq::empty()
    } else if covers(turn, s.last().request) && !s.last().handle_only
        && !s.last().definition_background {
        active_live(s.drop_last(), turn).push(s.last().request.id)
    } else {
        active_live(s.drop_last(), turn)
    }
}

/// A queued child runs in the background.
pub open spec fn queued_in_background(q: QueuedSpawn) -> bool {
    q.request.run_in_background || q.caller == QueuedCaller::Backgrounded
}

/// The ids of queued children of a turn that its caller waits for.
pub open spec fn queued_live(s: Seq<QueuedSpawn>, turn: ScopeView) -> Seq<String>
    decreases s.len(),
{
    if s.len() == 0 {
        Seq::empty()
    } else if covers(turn, s.last().request) && !queued_in_background(s.last()) {
        queued_live(s.drop_last(), turn).push(s.last().request.id)
    } else {
        queued_live(s.drop_last(), turn)
    }
}

impl SubagentCoordinator {
    /// The ids of the children of a turn that its caller waits for.
    pub open spec fn live_in_foreground(&self, turn: ScopeView) -> Seq<String> {
        pending_live(self.pending@, turn) + active_live(self.active@, turn) + queued_live(
            self.queued@,
            turn,
        )
    }

    /// Some child of a turn goes on in the background.
    pub open spec fn live_in_background(&self, turn: ScopeView) -> bool {
        ||| exists|i: int|
            0 <= i < self.pending@.len() && covers(turn, (#[trigger] self.pending@[i]).request)
                && self.pending@[i].handle_only
        ||| exists|i: int|
            0 <= i < self.active@.len() && covers(turn, (#[trigger] self.active@[i]).request) && (
            self.active@[i].handle_only || self.active@[i].definition_background)
        ||| exists|i: int|
            0 <= i < self.queued@.len() && covers(turn, (#[trigger] self.queued@[i]).request)
                && queued_in_background(self.queued@[i])
    }

    /// What is still running for a prompt: the children that its caller waits
    /// for, by id, and whether others go on in the background.
    pub fn outstanding(&self, parent_session_id: &str, prompt_id: &str) -> (r:
        SubagentOutstandingReply)
        ensures
            ({
                let turn = ScopeView::Turn(parent_session_id@, prompt_id@);
                &&& sorted_from(r.live_ids@, self.live_in_foreground(turn))
                &&& r.background_live == self.live_in_background(turn)
                &&& r.subagent_usage_not_applied == (find(
                    self.usage_not_applied_prompts@,
                    (parent_session_id@, prompt_id@),
                ) is Some)
            }),
    {
        let scope: Scope = Scope::Turn {
            session: parent_session_id.to_owned(),
            prompt_id: prompt_id.to_owned(),
        };
        let ghost turn = scope@;
        let ghost p = self.pending@;
        let ghost a = self.active@;
        let ghost q = self.queued@;
        let mut ids: Vec<String> = Vec::new();
        let mut background: bool = false;
        let mut i: usize = 0;
        while i < self.pending.len()
            invariant
                i <= self.pending@.len(),
                p == self.pending@,
                turn == scope@,
                ids@ == pending_live(p.take(i as int), turn),
                background == (exists|j: int|
                    0 <= j < i && covers(turn, (#[trigger] p[j]).request) && p[j].handle_only),
            decreases self.pending.len() - i,
        {
            proof {
                assert(p.take(i as int + 1).drop_last() =~= p.take(i as int));
            }
            let c: &PendingChild = &self.pending[i];
            if scope.holds(&c.request) {
                if c.handle_only {
                    background = true;
                } else {
                    ids.push(c.request.id.clone());
                }
            }
            i += 1;
        }
        let ghost first = pending_live(p, turn);
        let ghost b1 = background;
        proof {
            assert(p.take(i as int) =~= p);
            assert(first + active_live(a.take(0), turn) =~= first);
        }
        let mut i: usize = 0;
        while i < self.active.len()
            invariant
                i <= self.active@.len(),
                a == self.active@,
                turn == scope@,
                ids@ == first + active_live(a.take(i as int), turn),
                background == (b1 || exists|j: int|
                    0 <= j < i && covers(turn, (#[trigger] a[j]).request) && (a[j].handle_only
                        || a[j].definition_background)),
            decreases self.active.len() - i,
        {
            proof {
                assert(a.take(i as int + 1).drop_last() =~= a.take(i as int));
            }
            let c: &ActiveChild = &self.active[i];
            if scope.holds(&c.request) {
                if c.handle_only || c.definition_background {
                    background = true;
                } else {
                    ids.push(c.request.id.clone());
                    proof {
                        assert(ids@ =~= first + active_live(a.take(i as int), turn).push(
                            c.request.id,
                        ));
                    }
                }
            }
            i += 1;
        }
        let ghost second = first + active_live(a, turn);
        let ghost b2 = background;
        proof {
            assert(a.take(i as int) =~= a);
            assert(second + queued_live(q.take(0), turn) =~= second);
        }
        let mut i: usize = 0;
        while i < self.queued.len()
            invariant
                i <= self.queued@.len(),
                q == self.queued@,
                turn == scope@,
                ids@ == second + queued_live(q.take(i as int), turn),
                background == (b2 || exists|j: int|
                    0 <= j < i && covers(turn, (#[trigger] q[j]).request) && queued_in_background(
                        q[j],
                    )),
            decreases self.queued.len() - i,
        {
            proof {
                assert(q.take(i as int + 1).drop_last() =~= q.take(i as int));
            }
            let c: &QueuedSpawn = &self.queued[i];
            if scope.holds(&c.request) {
                if c.request.run_in_background || c.caller == QueuedCaller::Backgrounded {
                    background = true;
                } else {
                    ids.push(c.request.id.clone());
                    proof {
                        assert(ids@ =~= second + queued_live(q.take(i as int), turn).push(
                            c.request.id,
                        ));
                    }
                }
            }
            i += 1;
        }
        proof {
            assert(q.take(i as int) =~= q);
        }
        let flagged: bool = position(
            &self.usage_not_applied_prompts,
            parent_session_id,
            prompt_id,
        ).is_some();
        SubagentOutstandingReply {
            live_ids: sort_by_name(ids),
            background_live: background,
            subagent_usage_not_applied: flagged,
        }
    }
}

// ---- what a prompt spawned ----

/// The active children of a prompt.
pub open spec fn active_refs(s: Seq<ActiveChild>, prompt: ScopeView) -> Seq<SpawnedSubagentRef>
    decreases s.len(),
{
    if s.len() == 0 {
        Seq::empty()
    } else if covers(prompt, s.last().request) {
        active_refs(s.drop_last(), prompt).push(
            SpawnedSubagentRef {
                subagent_id: s.last().request.id,
                child_session_id: s.last().child_session_id,
                subagent_type: s.last().request.subagent_type,
                description: s.last().request.description,
                persona: s.last().persona,
                resumed_from: s.last().resumed_from,
            },
        )
    } else {
        active_refs(s.drop_last(), prompt)
    }
}

/// The completed children of a prompt.
pub open spec fn completed_refs(s: Seq<CompletedChild>, prompt: ScopeView) -> Seq<
    SpawnedSubagentRef,
>
    decreases s.len(),
{
    if s.len() == 0 {
        Seq::empty()
    } else if covers(prompt, s.last().request) {
        completed_refs(s.drop_last(), prompt).push(
            SpawnedSubagentRef {
                subagent_id: s.last().request.id,
                child_session_id: s.last().child_session_id,
                subagent_type: s.last().request.subagent_type,
                description: s.last().request.description,
                persona: s.last().persona,
                resumed_from: s.last().resumed_from,
            },
        )
    } else {
        completed_refs(s.drop_last(), prompt)
    }
}

impl SubagentCoordinator {
    /// The active and completed children of a prompt of a session, by id; of two
    /// with the same id the active one goes first.
    pub fn spawned_refs(&self, parent_session_id: &str, prompt_id: &str) -> (r: Vec<
        SpawnedSubagentRef,
    >)
        ensures
            ({
                let prompt = ScopeView::Prompt(prompt_id@, Some(parent_session_id@));
                sorted_from(
                    r@,
                    active_refs(self.active@, prompt) + completed_refs(self.completed@, prompt),
                )
            }),
    {
        let scope: Scope = Scope::Prompt {
            prompt_id: prompt_id.to_owned(),
            session: Some(parent_session_id.to_owned()),
        };
        let ghost prompt = scope@;
        let ghost a = self.active@;
        let ghost c = self.completed@;
        let mut refs: Vec<SpawnedSubagentRef> = Vec::new();
        let mut i: usize = 0;
        while i < self.active.len()
            invariant
                i <= self.active@.len(),
                a == self.active@,
                prompt == scope@,
                refs@ == active_refs(a.take(i as int), prompt),
            decreases self.active.len() - i,
        {
            proof {
                assert(a.take(i as int + 1).drop_last() =~= a.take(i as int));
            }
            let child: &ActiveChild = &self.active[i];
            if scope.holds(&child.request) {
                refs.push(
                    SpawnedSubagentRef {
                        subagent_id: child.request.id.clone(),
                        child_session_id: child.child_session_id.clone(),
                        subagent_type: child.request.subagent_type.clone(),
                        description: child.request.description.clone(),
                        persona: copy_option(&child.persona),
                        resumed_from: copy_option(&child.resumed_from),
                    },
                );
            }
            i += 1;
        }
        let ghost first = active_refs(a, prompt);
        proof {
            assert(a.take(i as int) =~= a);
            assert(first + completed_refs(c.take(0), prompt) =~= first);
        }
        let mut i: usize = 0;
        while i < self.completed.len()
            invariant
                i <= self.completed@.len(),
                c == self.completed@,
                prompt == scope@,
                refs@ == first + completed_refs(c.take(i as int), prompt),
            decreases self.completed.len() - i,
        {
            proof {
                assert(c.take(i as int + 1).drop_last() =~= c.take(i as int));
            }
            let child: &CompletedChild = &self.completed[i];
            if scope.holds(&child.request) {
                let entry: SpawnedSubagentRef = SpawnedSubagentRef {
                    subagent_id: child.request.id.clone(),
                    child_session_id: child.child_session_id.clone(),
                    subagent_type: child.request.subagent_type.clone(),
                    description: child.request.description.clone(),
                    persona: copy_option(&child.persona),
                    resumed_from: copy_option(&child.resumed_from),
                };
                refs.push(entry);
                proof {
                    assert(refs@ =~= first + completed_refs(c.take(i as int), prompt).push(entry));
                }
            }
            i += 1;
        }
        proof {
            assert(c.take(i as int) =~= c);
        }
        sort_by_name(refs)
    }
}

// ---- smaller questions ----

/// The ids of the active children in a scope, in order.
pub open spec fn active_ids(s: Seq<ActiveChild>, scope: ScopeView) -> Seq<String>
    decreases s.len(),
{
    if s.len() == 0 {
        Seq::empty()
    } else if covers(scope, s.last().request) {
        active_ids(s.drop_last(), scope).push(s.last().request.id)
    } else {
        active_ids(s.drop_last(), scope)
    }
}

/// The summaries for other sessions than the one that asks.
pub open spec fn foreign_completions(s: Seq<BufferedCompletion>, session: Option<Seq<char>>) -> Seq<
    BufferedCompletion,
>
    decreases s.len(),
{
    if s.len() == 0 {
        Seq::empty()
    } else if session is None || s.last().parent_session_id@ == session->0 {
        foreign_completions(s.drop_last(), session)
    } else {
        foreign_completions(s.drop_last(), session).push(s.last())
    }
}

/// The summaries for the session that asks, but for the suppressed ones.
pub open spec fn owned_summaries(
    s: Seq<BufferedCompletion>,
    session: Option<Seq<char>>,
    suppressed: Seq<String>,
) -> Seq<SubagentCompletionSummary>
    decreases s.len(),
{
    if s.len() == 0 {
        Seq::empty()
    } else {
        let before = owned_summaries(s.drop_last(), session, suppressed);
        let c = s.last();
        if (session is None || c.parent_session_id@ == session->0) && !in_list(
            suppressed,
            c.summary.subagent_id@,
        ) {
            before.push(c.summary)
        } else {
            before
        }
    }
}

impl SubagentCoordinator {
    /// The ids of the active children of a session that no workflow owns.
    pub fn list_active(&self, parent_session_id: &str) -> (r: Vec<String>)
        ensures
            r@ == active_ids(self.active@, ScopeView::Session(parent_session_id@)),
    {
        let scope: Scope = Scope::Session { session: parent_session_id.to_owned() };
        let ghost a = self.active@;
        let mut out: Vec<String> = Vec::new();
        let mut i: usize = 0;
        while i < self.active.len()
            invariant
                i <= self.active@.len(),
                a == self.active@,
                out@ == active_ids(a.take(i as int), scope@),
            decreases self.active.len() - i,
        {
            proof {
                assert(a.take(i as int + 1).drop_last() =~= a.take(i as int));
            }
            if scope.holds(&self.active[i].request) {
                out.push(self.active[i].request.id.clone());
            }
            i += 1;
        }
        proof {
            assert(a.take(i as int) =~= a);
        }
        out
    }

    /// Hands out the summaries for a session; no session stands for all. Those
    /// that are suppressed are dropped.
    pub fn take_completions(
        &mut self,
        parent_session_id: &Option<String>,
        suppress_ids: &Vec<String>,
    ) -> (r: Vec<SubagentCompletionSummary>)
        ensures
            old(self).wf() ==> final(self).wf(),
            *final(self) == (SubagentCoordinator {
                pending_completions: final(self).pending_completions,
                ..*old(self)
            }),
            final(self).pending_completions@ == foreign_completions(
                old(self).pending_completions@,
                option_view(*parent_session_id),
            ),
            r@ == owned_summaries(
                old(self).pending_completions@,
                option_view(*parent_session_id),
                suppress_ids@,
            ),
    {
        let ghost start = *self;
        let ghost all = self.pending_completions@;
        let ghost session = option_view(*parent_session_id);
        let ghost n = 0int;
        let mut foreign: Vec<BufferedCompletion> = Vec::new();
        let mut out: Vec<SubagentCompletionSummary> = Vec::new();
        proof {
            assert(all.skip(0) =~= all);
        }
        while self.pending_completions.len() > 0
            invariant
                0 <= n <= all.len(),
                session == option_view(*parent_session_id),
                *self == (SubagentCoordinator {
                    pending_completions: self.pending_completions,
                    ..start
                }),
                self.pending_completions@ == all.skip(n),
                foreign@ == foreign_completions(all.take(n), session),
                out@ == owned_summaries(all.take(n), session, suppress_ids@),
            decreases self.pending_completions.len(),
        {
            let c: BufferedCompletion = self.pending_completions.remove(0);
            proof {
                assert(c == all[n]);
                assert(all.take(n + 1).drop_last() =~= all.take(n));
                assert(self.pending_completions@ =~= all.skip(n + 1));
                n = n + 1;
            }
            let owned: bool = match parent_session_id {
                Some(id) => same_text(c.parent_session_id.as_str(), id.as_str()),
                None => true,
            };
            if owned {
                if !list_holds(suppress_ids, c.summary.subagent_id.as_str()) {
                    out.push(c.summary);
                }
            } else {
                foreign.push(c);
            }
        }
        proof {
            assert(all.take(n) =~= all);
        }
        self.pending_completions = foreign;
        out
    }

    /// How many children there are in each table.
    pub fn registry_counts(&self) -> (r: SubagentRegistryCounts)
        ensures
            r.pending == self.pending@.len(),
            r.active == self.active@.len(),
            r.completed == self.completed@.len(),
            r.queued == self.queued@.len(),
    {
        SubagentRegistryCounts {
            pending: self.pending.len(),
            active: self.active.len(),
            completed: self.completed.len(),
            queued: self.queued.len(),
        }
    }

    /// Some pending, active or queued child runs a loop task.
    pub open spec fn loop_active(&self, task_id: Seq<char>) -> bool {
        ||| exists|i: int|
            0 <= i < self.pending@.len() && option_view(
                (#[trigger] self.pending@[i]).request.loop_task_id,
            ) == Some(task_id)
        ||| exists|i: int|
            0 <= i < self.active@.len() && option_view(
                (#[trigger] self.active@[i]).request.loop_task_id,
            ) == Some(task_id)
        ||| exists|i: int|
            0 <= i < self.queued@.len() && option_view(
                (#[trigger] self.queued@[i]).request.loop_task_id,
            ) == Some(task_id)
    }

    /// Whether some pending, active or queued child runs a loop task.
    pub fn loop_unit_active(&self, task_id: &str) -> (r: bool)
        ensures
            r == self.loop_active(task_id@),
    {
        let mut i: usize = 0;
        while i < self.pending.len()
            invariant
                i <= self.pending@.len(),
                forall|j: int|
                    0 <= j < i ==> option_view((#[trigger] self.pending@[j]).request.loop_task_id)
                        != Some(task_id@),
            decreases self.pending.len() - i,
        {
            if is_text(&self.pending[i].request.loop_task_id, task_id) {
                return true;
            }
            i += 1;
        }
        let mut k: usize = 0;
        while k < self.active.len()
            invariant
                k <= self.active@.len(),
                forall|j: int|
                    0 <= j < k ==> option_view((#[trigger] self.active@[j]).request.loop_task_id)
                        != Some(task_id@),
            decreases self.active.len() - k,
        {
            if is_text(&self.active[k].request.loop_task_id, task_id) {
                return true;
            }
            k += 1;
        }
        let mut n: usize = 0;
        while n < self.queued.len()
            invariant
                n <= self.queued@.len(),
                forall|j: int|
                    0 <= j < n ==> option_view((#[trigger] self.queued@[j]).request.loop_task_id)
                        != Some(task_id@),
            decreases self.queued.len() - n,
        {
            if is_text(&self.queued[n].request.loop_task_id, task_id) {
                return true;
            }
            n += 1;
        }
        false
    }
}

} // verus!
