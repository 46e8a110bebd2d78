//! Waking a finished child: it goes on under its own id.
use vstd::prelude::*;
#[allow(unused_imports)]
use vstd::string::*;

#[allow(unused_imports)]
use crate::coordinator::lifecycle::{StartOrigin};
#[allow(unused_imports)]
use crate::coordinator::state::{SubagentCoordinator};
#[allow(unused_imports)]
use crate::coordinator::types::{
    Action, AdmissionDecision, CompletedChild, QueuedCaller, QueuedSpawn, SubagentRequest,
    WakeOrigin,
};
#[allow(unused_imports)]
use crate::ids::{fresh_id, uuid_text};
#[allow(unused_imports)]
use crate::table::{lookup, position, take_entry, without};
#[allow(unused_imports)]
use crate::text::{drop_text, in_list, list_holds, option_view, same_text, texts_but};

verus! {

/// The child was woken, or will be when there is a slot.
#[derive(Debug)]
pub enum WakeAdmit {
    Started { message_id: String },
    Queued { message_id: String },
}

/// Why a child was not woken.
#[derive(Debug, Clone, Copy, PartialEq, Eq, Structural)]
pub enum ActiveAgentMessageOutcome {
    NotFoundOrNotOwned,
    NotActiveOrFinalizing,
}

/// The request that continues a finished child with a prompt.
pub open spec fn wake_request_of(c: CompletedChild, prompt: String, request: SubagentRequest) -> bool {
    &&& request == (SubagentRequest {
        prompt,
        resume_from: request.resume_from,
        parent_prompt_id: None,
        run_in_background: true,
        surface_completion: false,
        await_to_completion: false,
        ..c.request
    })
    &&& option_view(request.resume_from) == Some(
        if c.child_session_id@.len() == 0 {
            c.request.id@
        } else {
            c.child_session_id@
        },
    )
}

impl SubagentCoordinator {
    /// Why a finished child may not be woken, if it may not.
    pub open spec fn wake_refusal(
        &self,
        id: Seq<char>,
        session: Seq<char>,
        supports_wake: bool,
    ) -> Option<ActiveAgentMessageOutcome> {
        if !supports_wake {
            Some(ActiveAgentMessageOutcome::NotActiveOrFinalizing)
        } else {
            match lookup(self.completed@, (id, ""@)) {
                None => Some(ActiveAgentMessageOutcome::NotFoundOrNotOwned),
                Some(c) => if c.request.parent_session_id@ != session {
                    Some(ActiveAgentMessageOutcome::NotFoundOrNotOwned)
                } else if c.request.owner.of_workflow() || in_list(
                    self.spawn_blocked_sessions@,
                    session,
                ) {
                    Some(ActiveAgentMessageOutcome::NotActiveOrFinalizing)
                } else {
                    None
                },
            }
        }
    }

    /// The request that would continue a finished child, for the admission to
    /// decide on, or why it may not be woken.
    pub fn prepare_wake(
        &self,
        subagent_id: &str,
        parent_session_id: &str,
        prompt: String,
        supports_wake: bool,
    ) -> (r: Result<SubagentRequest, ActiveAgentMessageOutcome>)
        ensures
            match (r, self.wake_refusal(subagent_id@, parent_session_id@, supports_wake)) {
                (Err(a), Some(b)) => a == b,
                (Ok(request), None) => wake_request_of(
                    lookup(self.completed@, (subagent_id@, ""@))->0,
                    prompt,
                    request,
                ),
                _ => false,
            },
            r matches Ok(request) ==> request.prompt@ == prompt@ && request.id@ == subagent_id@
                && request.parent_session_id@ == parent_session_id@ && request.resume_from is Some,
    {
        if !supports_wake {
            return Err(ActiveAgentMessageOutcome::NotActiveOrFinalizing);
        }
        match position(&self.completed, subagent_id, "") {
            None => Err(ActiveAgentMessageOutcome::NotFoundOrNotOwned),
            Some(i) => {
                let c: &CompletedChild = &self.completed[i];
                if !same_text(c.request.parent_session_id.as_str(), parent_session_id) {
                    return Err(ActiveAgentMessageOutcome::NotFoundOrNotOwned);
                }
                if c.request.owner.is_workflow() {
                    return Err(ActiveAgentMessageOutcome::NotActiveOrFinalizing);
                }
                if list_holds(
                    &self.spawn_blocked_sessions,
                    c.request.parent_session_id.as_str(),
                ) {
                    return Err(ActiveAgentMessageOutcome::NotActiveOrFinalizing);
                }
                let resume_id: String = if c.child_session_id.as_str().is_empty() {
                    c.request.id.clone()
                } else {
                    c.child_session_id.clone()
                };
                let mut request: SubagentRequest = c.request.duplicate();
                request.prompt = prompt;
                request.resume_from = Some(resume_id);
                request.parent_prompt_id = None;
                request.run_in_background = true;
                request.surface_completion = false;
                request.await_to_completion = false;
                Ok(request)
            },
        }
    }

    /// Forgets that a child finished.
    fn displace_completed(&mut self, subagent_id: &str)
        ensures
            old(self).wf() ==> final(self).wf(),
            final(self).displaced(*old(self), subagent_id@),
    {
        let _ = take_entry(&mut self.completed, subagent_id, "");
        drop_text(&mut self.completed_order, subagent_id);
    }

    /// A finished child was forgotten.
    pub open spec fn displaced(&self, before: SubagentCoordinator, id: Seq<char>) -> bool {
        &&& *self == (SubagentCoordinator {
            completed: self.completed,
            completed_order: self.completed_order,
            ..before
        })
        &&& self.completed@ == without(before.completed@, (id, ""@))
        &&& self.completed_order@ == texts_but(before.completed_order@, id)
    }

    /// What waking a child, which nothing forbids, leaves and asks for.
    pub open spec fn woken_post(
        &self,
        before: SubagentCoordinator,
        id: Seq<char>,
        prompt: String,
        decision: AdmissionDecision,
        now: u128,
        r: Result<WakeAdmit, ActiveAgentMessageOutcome>,
        actions: Seq<Action>,
    ) -> bool {
        let c = lookup(before.completed@, (id, ""@))->0;
        match decision {
            AdmissionDecision::Start => exists|middle: SubagentCoordinator, request: SubagentRequest, origin: WakeOrigin|
                {
                    &&& #[trigger] wake_request_of(c, prompt, request)
                    &&& #[trigger] middle.displaced(before, id)
                    &&& origin.agent_id@ == id
                    &&& uuid_text(origin.message_id@)
                    &&& r matches Ok(WakeAdmit::Started { message_id }) && message_id
                        == origin.message_id
                    &&& #[trigger] self.start_post(
                        middle,
                        request,
                        None,
                        StartOrigin::Direct { awaits_in_foreground: false },
                        Some(origin),
                        now,
                        actions,
                    )
                },
            AdmissionDecision::Enqueue => {
                let q = self.queued@.last();
                &&& *self == (SubagentCoordinator {
                    completed: self.completed,
                    completed_order: self.completed_order,
                    queued: self.queued,
                    ..before
                })
                &&& self.completed@ == without(before.completed@, (id, ""@))
                &&& self.completed_order@ == texts_but(before.completed_order@, id)
                &&& self.queued@.len() == before.queued@.len() + 1
                &&& self.queued@.drop_last() == before.queued@
                &&& wake_request_of(c, prompt, q.request)
                &&& q.queued_at == now
                &&& q.caller == QueuedCaller::Backgrounded
                &&& !q.cancelled
                &&& q.wake_origin is Some
                &&& q.wake_origin->0.agent_id@ == id
                &&& uuid_text(q.wake_origin->0.message_id@)
                &&& r matches Ok(WakeAdmit::Queued { message_id }) && message_id
                    == q.wake_origin->0.message_id
                &&& actions == seq![
                    Action::NoteLimit { request: q.request, decision },
                ]
            },
            AdmissionDecision::Reject => {
                &&& *self == before
                &&& r == Err::<WakeAdmit, _>(ActiveAgentMessageOutcome::NotActiveOrFinalizing)
                &&& actions.len() == 1
                &&& actions[0] matches Action::NoteLimit { request, decision: told }
                    && wake_request_of(c, prompt, request) && told == decision
            },
        }
    }

    /// Wakes a finished child with a prompt. `decision` is what the admission
    /// says of the request of `prepare_wake`.
    pub fn wake_completed_child(
        &mut self,
        subagent_id: &str,
        parent_session_id: &str,
        prompt: String,
        supports_wake: bool,
        decision: AdmissionDecision,
        now: u128,
    ) -> (r: (Result<WakeAdmit, ActiveAgentMessageOutcome>, Vec<Action>))
        requires
            now + old(self).config.foreground_budget_ms <= u128::MAX,
        ensures
            old(self).wf() ==> final(self).wf(),
            match old(self).wake_refusal(subagent_id@, parent_session_id@, supports_wake) {
                Some(reason) => {
                    &&& *final(self) == *old(self)
                    &&& r.0 == Err::<WakeAdmit, _>(reason)
                    &&& r.1@.len() == 0
                },
                None => final(self).woken_post(
                    *old(self),
                    subagent_id@,
                    prompt,
                    decision,
                    now,
                    r.0,
                    r.1@,
                ),
            },
    {
        let ghost before = *self;
        let ghost c = lookup(before.completed@, (subagent_id@, ""@))->0;
        let request: SubagentRequest = match self.prepare_wake(
            subagent_id,
            parent_session_id,
            prompt,
            supports_wake,
        ) {
            Ok(request) => request,
            Err(reason) => {
                return (Err(reason), Vec::new());
            },
        };
        proof {
            assert(wake_request_of(c, prompt, request));
        }
        match decision {
            AdmissionDecision::Start => {
                let message_id: String = fresh_id();
                self.displace_completed(subagent_id);
                let ghost middle = *self;
                let origin: WakeOrigin = WakeOrigin {
                    agent_id: subagent_id.to_owned(),
                    message_id: message_id.clone(),
                };
                let out: Vec<Action> = self.start_child(
                    request,
                    None,
                    StartOrigin::Direct { awaits_in_foreground: false },
                    Some(origin),
                    now,
                );
                proof {
                    assert(middle.displaced(before, subagent_id@));
                    assert(self.start_post(
                        middle,
                        request,
                        None,
                        StartOrigin::Direct { awaits_in_foreground: false },
                        Some(origin),
                        now,
                        out@,
                    ));
                }
                (Ok(WakeAdmit::Started { message_id }), out)
            },
            AdmissionDecision::Enqueue => {
                let message_id: String = fresh_id();
                let mut out: Vec<Action> = Vec::new();
                out.push(Action::NoteLimit { request: request.duplicate(), decision });
                self.displace_completed(subagent_id);
                let ghost queue = self.queued@;
                self.queued.push(
                    QueuedSpawn {
                        request,
                        queued_at: now,
                        caller: QueuedCaller::Backgrounded,
                        wake_origin: Some(
                            WakeOrigin {
                                agent_id: subagent_id.to_owned(),
                                message_id: message_id.clone(),
                            },
                        ),
                        cancelled: false,
                    },
                );
                proof {
                    assert(self.queued@.drop_last() =~= queue);
                    assert(out@ =~= seq![Action::NoteLimit { request, decision }]);
                }
                (Ok(WakeAdmit::Queued { message_id }), out)
            },
            AdmissionDecision::Reject => {
                let mut out: Vec<Action> = Vec::new();
                out.push(Action::NoteLimit { request, decision });
                (Err(ActiveAgentMessageOutcome::NotActiveOrFinalizing), out)
            },
        }
    }
}

} // verus!
