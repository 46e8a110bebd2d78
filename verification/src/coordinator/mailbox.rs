//! Messages between the agents of a team.
use vstd::prelude::*;
#[allow(unused_imports)]
use vstd::string::*;

#[allow(unused_imports)]
use crate::coordinator::state::{SubagentCoordinator};
#[allow(unused_imports)]
use crate::coordinator::types::{
    Action, ActiveChild, AgentMailboxIdentity, AgentMailboxMessage, AgentMailboxMessageKind,
    AgentMailboxWaiter, AgentMessageDeliveryStatus, AgentMessageSendOutput, CompletedChild, Mail,
    PendingChild, SubagentRequest, mail_is_for,
};
#[allow(unused_imports)]
use crate::table::{
    Key, Keyed, find, lookup, named, position, put_entry, take_entry, with_entry, without,
};
#[allow(unused_imports)]
use crate::text::{cat3, cat5, eq_ignore_case, replaced, same_but_case, same_text, trim, trimmed};

verus! {

/// How many messages a mailbox takes.
pub const MAX_MAILBOX_MESSAGES: usize = 128;

/// How many messages a waiting agent is handed at once.
pub const MAX_DRAIN_MESSAGES: usize = 20;

// ---- whom a message is for ----

/// A child of a team.
pub open spec fn on_team<T: Keyed>(
    entry: Option<T>,
    request: spec_fn(T) -> SubagentRequest,
    team: Seq<char>,
) -> bool {
    entry is Some && request(entry->0).parent_session_id@ == team
}

impl SubagentCoordinator {
    /// A pending, active or completed child of a team.
    pub open spec fn team_child(&self, id: Seq<char>, team: Seq<char>) -> bool {
        let k: Key = (id, ""@);
        ||| on_team(lookup(self.pending@, k), |c: PendingChild| c.request, team)
        ||| on_team(lookup(self.active@, k), |c: ActiveChild| c.request, team)
        ||| self.team_child_finished(id, team)
    }

    /// A completed child of a team.
    pub open spec fn team_child_finished(&self, id: Seq<char>, team: Seq<char>) -> bool {
        on_team(lookup(self.completed@, (id, ""@)), |c: CompletedChild| c.request, team)
    }

    /// The recipient that a target names: the root under its word or its id,
    /// or a child of the team, but never the sender.
    pub open spec fn target_of(&self, identity: AgentMailboxIdentity, target: Seq<char>) -> Result<
        Seq<char>,
        Seq<char>,
    > {
        let team = identity.team_scope_id@;
        let named = trimmed(target);
        let id = if same_but_case(named, "root"@) || named == team {
            team
        } else {
            named
        };
        if named.len() == 0 {
            Err("target must not be empty"@)
        } else if id == identity.agent_id@ {
            Err(
                "Cannot send an agent message to the calling agent itself. Use list_agents to see teammates, or target \"root\" for the team root."@,
            )
        } else if id == team || self.team_child(id, team) {
            Ok(id)
        } else {
            Err("Agent '"@ + id + "' was not found in team '"@ + team + "'"@)
        }
    }

    /// The recipient that a target names.
    pub fn resolve_message_target(
        &self,
        identity: &AgentMailboxIdentity,
        target: &str,
    ) -> (r: Result<String, String>)
        ensures
            match (r, self.target_of(*identity, target@)) {
                (Ok(a), Ok(b)) => a@ == b,
                (Err(a), Err(b)) => a@ == b,
                _ => false,
            },
    {
        let named: &str = trim(target);
        if named.is_empty() {
            return Err("target must not be empty".to_owned());
        }
        let team: &str = identity.team_scope_id.as_str();
        let id: String = if eq_ignore_case(named, "root") || same_text(named, team) {
            identity.team_scope_id.clone()
        } else {
            named.to_owned()
        };
        if same_text(id.as_str(), identity.agent_id.as_str()) {
            return Err(
                "Cannot send an agent message to the calling agent itself. Use list_agents to see teammates, or target \"root\" for the team root.".to_owned(),
            );
        }
        if same_text(id.as_str(), team) || self.is_team_child(id.as_str(), team) {
            Ok(id)
        } else {
            Err(cat5("Agent '", id.as_str(), "' was not found in team '", team, "'"))
        }
    }

    fn is_team_child(&self, id: &str, team: &str) -> (r: bool)
        ensures
            r == self.team_child(id@, team@),
    {
        if let Some(i) = position(&self.pending, id, "") {
            if same_text(self.pending[i].request.parent_session_id.as_str(), team) {
                return true;
            }
        }
        if let Some(i) = position(&self.active, id, "") {
            if same_text(self.active[i].request.parent_session_id.as_str(), team) {
                return true;
            }
        }
        self.is_team_child_finished(id, team)
    }

    fn is_team_child_finished(&self, id: &str, team: &str) -> (r: bool)
        ensures
            r == self.team_child_finished(id@, team@),
    {
        match position(&self.completed, id, "") {
            Some(i) => same_text(self.completed[i].request.parent_session_id.as_str(), team),
            None => false,
        }
    }
}

// ---- the mailbox ----

/// The mail for an agent, in order.
pub open spec fn mail_for(s: Seq<Mail>, k: Key) -> Seq<AgentMailboxMessage>
    decreases s.len(),
{
    if s.len() == 0 {
        Seq::empty()
    } else if mail_is_for(s.last(), k) {
        mail_for(s.drop_last(), k).push(s.last().message)
    } else {
        mail_for(s.drop_last(), k)
    }
}

/// The mail for the other agents, in order.
pub open spec fn mail_but(s: Seq<Mail>, k: Key) -> Seq<Mail>
    decreases s.len(),
{
    if s.len() == 0 {
        Seq::empty()
    } else if mail_is_for(s.last(), k) {
        mail_but(s.drop_last(), k)
    } else {
        mail_but(s.drop_last(), k).push(s.last())
    }
}

/// The message for a full mailbox.
pub open spec fn mailbox_full() -> Seq<char> {
    "Recipient mailbox is full (maximum 128 messages)"@
}

fn count_mail(v: &Vec<Mail>, team: &str, agent: &str) -> (r: usize)
    ensures
        r == mail_for(v@, (team@, agent@)).len(),
{
    let mut n: usize = 0;
    let mut i: usize = 0;
    while i < v.len()
        invariant
            i <= v@.len(),
            n <= i,
            n == mail_for(v@.take(i as int), (team@, agent@)).len(),
        decreases v.len() - i,
    {
        proof {
            assert(v@.take(i as int + 1).drop_last() =~= v@.take(i as int));
        }
        if same_text(v[i].team_scope_id.as_str(), team) && same_text(
            v[i].agent_id.as_str(),
            agent,
        ) {
            n += 1;
        }
        i += 1;
    }
    proof {
        assert(v@.take(i as int) =~= v@);
    }
    n
}

impl SubagentCoordinator {
    /// What a mailbox looks like once it took a message, or why it did not.
    pub open spec fn enqueue_post(
        &self,
        before: SubagentCoordinator,
        k: Key,
        message: AgentMailboxMessage,
        r: Result<(), String>,
    ) -> bool {
        &&& *self == (SubagentCoordinator { mailboxes: self.mailboxes, ..before })
        &&& if mail_for(before.mailboxes@, k).len() >= MAX_MAILBOX_MESSAGES {
            &&& self.mailboxes@ == before.mailboxes@
            &&& r is Err
            &&& r->Err_0@ == mailbox_full()
        } else {
            &&& r is Ok
            &&& self.mailboxes@.len() == before.mailboxes@.len() + 1
            &&& self.mailboxes@.drop_last() == before.mailboxes@
            &&& self.mailboxes@.last().message == message
            &&& mail_is_for(self.mailboxes@.last(), k)
        }
    }

    /// Puts a message into the mailbox of an agent, unless it is full.
    pub fn enqueue_agent_message(
        &mut self,
        team: &str,
        agent: &str,
        message: AgentMailboxMessage,
    ) -> (r: Result<(), String>)
        ensures
            old(self).wf() ==> final(self).wf(),
            final(self).enqueue_post(*old(self), (team@, agent@), message, r),
    {
        if count_mail(&self.mailboxes, team, agent) >= MAX_MAILBOX_MESSAGES {
            return Err("Recipient mailbox is full (maximum 128 messages)".to_owned());
        }
        let ghost before = self.mailboxes@;
        self.mailboxes.push(
            Mail { team_scope_id: team.to_owned(), agent_id: agent.to_owned(), message },
        );
        proof {
            assert(self.mailboxes@.drop_last() =~= before);
        }
        Ok(())
    }
}

// ---- sending ----

/// What became of a message, or what the host has to try.
#[derive(Debug)]
pub enum SendStep {
    /// The sender is answered.
    Done { result: Result<AgentMessageSendOutput, String>, actions: Vec<Action> },
    /// The host is to push the message into the recipient's session and report.
    TryLive { message: AgentMailboxMessage },
}

/// `m` is `given`, addressed to an agent.
pub open spec fn addressed(
    m: AgentMailboxMessage,
    given: AgentMailboxMessage,
    target: Seq<char>,
) -> bool {
    &&& m == (AgentMailboxMessage { to_agent_id: m.to_agent_id, ..given })
    &&& m.to_agent_id@ == target
}

/// The sender is told that the message was delivered or queued, and the host too.
pub open spec fn sent(
    result: Result<AgentMessageSendOutput, String>,
    observed: Action,
    given: AgentMailboxMessage,
    target: Seq<char>,
    status: AgentMessageDeliveryStatus,
) -> bool {
    &&& result is Ok
    &&& result->Ok_0.message_id == given.message_id
    &&& result->Ok_0.target_agent_id@ == target
    &&& result->Ok_0.status == status
    &&& match observed {
        Action::ObserveMessage { message, status: told } => addressed(message, given, target)
            && told == status,
        _ => false,
    }
}

/// The sender is told why the message was refused, and nothing else happens.
pub open spec fn refused(
    result: Result<AgentMessageSendOutput, String>,
    actions: Seq<Action>,
    reason: Seq<char>,
) -> bool {
    &&& result is Err
    &&& result->Err_0@ == reason
    &&& actions.len() == 0
}

/// The message was queued, or the mailbox was full.
pub open spec fn queued_or_full(
    after: SubagentCoordinator,
    before: SubagentCoordinator,
    k: Key,
    given: AgentMailboxMessage,
    result: Result<AgentMessageSendOutput, String>,
    actions: Seq<Action>,
) -> bool {
    &&& after == (SubagentCoordinator { mailboxes: after.mailboxes, ..before })
    &&& if mail_for(before.mailboxes@, k).len() >= MAX_MAILBOX_MESSAGES {
        &&& after.mailboxes@ == before.mailboxes@
        &&& refused(result, actions, mailbox_full())
    } else {
        &&& after.mailboxes@.len() == before.mailboxes@.len() + 1
        &&& after.mailboxes@.drop_last() == before.mailboxes@
        &&& mail_is_for(after.mailboxes@.last(), k)
        &&& addressed(after.mailboxes@.last().message, given, k.1)
        &&& actions.len() == 1
        &&& sent(result, actions[0], given, k.1, AgentMessageDeliveryStatus::Queued)
    }
}

impl SubagentCoordinator {
    /// What sending a message leads to.
    pub open spec fn send_post(
        &self,
        before: SubagentCoordinator,
        identity: AgentMailboxIdentity,
        target: Seq<char>,
        given: AgentMailboxMessage,
        step: SendStep,
    ) -> bool {
        let team = identity.team_scope_id@;
        if given.team_scope_id@ != team || given.from_agent_id@ != identity.agent_id@ {
            &&& *self == before
            &&& step is Done
            &&& refused(
                step->result,
                step->actions@,
                "Agent message identity did not match the calling session"@,
            )
        } else {
            match before.target_of(identity, target) {
                Err(reason) => {
                    &&& *self == before
                    &&& step is Done
                    &&& refused(step->result, step->actions@, reason)
                },
                Ok(id) => {
                    let k: Key = (team, id);
                    if id != team && before.team_child_finished(id, team) {
                        &&& *self == before
                        &&& step is Done
                        &&& refused(
                            step->result,
                            step->actions@,
                            "Agent '"@ + id
                                + "' has finished. Continue it with task(resume_from=\""@ + id
                                + "\") before sending more work."@,
                        )
                    } else if find(before.mailbox_waiters@, k) is Some {
                        let waiter = lookup(before.mailbox_waiters@, k)->0;
                        &&& *self == (SubagentCoordinator {
                            mailbox_waiters: self.mailbox_waiters,
                            ..before
                        })
                        &&& self.mailbox_waiters@ == without(before.mailbox_waiters@, k)
                        &&& step is Done
                        &&& step->actions@.len() == 2
                        &&& match step->actions@[0] {
                            Action::HandMessage { reply, message } => reply == waiter.reply
                                && addressed(message, given, id),
                            _ => false,
                        }
                        &&& sent(
                            step->result,
                            step->actions@[1],
                            given,
                            id,
                            AgentMessageDeliveryStatus::Delivered,
                        )
                    } else if given.kind.steers() {
                        &&& *self == before
                        &&& match step {
                            SendStep::TryLive { message } => addressed(message, given, id),
                            _ => false,
                        }
                    } else {
                        &&& step is Done
                        &&& queued_or_full(
                            *self,
                            before,
                            k,
                            given,
                            step->result,
                            step->actions@,
                        )
                    }
                },
            }
        }
    }

    /// Sends a message: to a waiting agent first; then, where it steers the
    /// recipient, into its session; else into its mailbox.
    pub fn send_agent_message(
        &mut self,
        identity: &AgentMailboxIdentity,
        target: &str,
        message: AgentMailboxMessage,
    ) -> (r: SendStep)
        ensures
            old(self).wf() ==> final(self).wf(),
            final(self).send_post(*old(self), *identity, target@, message, r),
    {
        let team: &str = identity.team_scope_id.as_str();
        if !same_text(message.team_scope_id.as_str(), team) || !same_text(
            message.from_agent_id.as_str(),
            identity.agent_id.as_str(),
        ) {
            return SendStep::Done {
                result: Err("Agent message identity did not match the calling session".to_owned()),
                actions: Vec::new(),
            };
        }
        let id: String = match self.resolve_message_target(identity, target) {
            Ok(id) => id,
            Err(reason) => {
                return SendStep::Done { result: Err(reason), actions: Vec::new() };
            },
        };
        let mut letter: AgentMailboxMessage = message;
        letter.to_agent_id = id.clone();
        if !same_text(id.as_str(), team) && self.is_team_child_finished(id.as_str(), team) {
            return SendStep::Done {
                result: Err(
                    cat5(
                        "Agent '",
                        id.as_str(),
                        "' has finished. Continue it with task(resume_from=\"",
                        id.as_str(),
                        "\") before sending more work.",
                    ),
                ),
                actions: Vec::new(),
            };
        }
        match take_entry(&mut self.mailbox_waiters, team, id.as_str()) {
            Some(waiter) => {
                let mut actions: Vec<Action> = Vec::new();
                let output: AgentMessageSendOutput = AgentMessageSendOutput {
                    message_id: letter.message_id.clone(),
                    target_agent_id: id,
                    status: AgentMessageDeliveryStatus::Delivered,
                };
                actions.push(
                    Action::HandMessage { reply: waiter.reply, message: letter.duplicate() },
                );
                actions.push(
                    Action::ObserveMessage {
                        message: letter,
                        status: AgentMessageDeliveryStatus::Delivered,
                    },
                );
                SendStep::Done { result: Ok(output), actions }
            },
            None => {
                if letter.kind.steers_recipient() {
                    SendStep::TryLive { message: letter }
                } else {
                    self.queue_letter(team, letter)
                }
            },
        }
    }

    /// Queues a message for the agent that it is addressed to.
    fn queue_letter(&mut self, team: &str, letter: AgentMailboxMessage) -> (r: SendStep)
        ensures
            old(self).wf() ==> final(self).wf(),
            r is Done,
            queued_or_full(
                *final(self),
                *old(self),
                (team@, letter.to_agent_id@),
                letter,
                r->result,
                r->actions@,
            ),
    {
        let id: String = letter.to_agent_id.clone();
        let copy: AgentMailboxMessage = letter.duplicate();
        match self.enqueue_agent_message(team, id.as_str(), copy) {
            Err(reason) => SendStep::Done { result: Err(reason), actions: Vec::new() },
            Ok(()) => {
                let mut actions: Vec<Action> = Vec::new();
                let output: AgentMessageSendOutput = AgentMessageSendOutput {
                    message_id: letter.message_id.clone(),
                    target_agent_id: id,
                    status: AgentMessageDeliveryStatus::Queued,
                };
                actions.push(
                    Action::ObserveMessage {
                        message: letter,
                        status: AgentMessageDeliveryStatus::Queued,
                    },
                );
                SendStep::Done { result: Ok(output), actions }
            },
        }
    }

    /// What the host's report on a live delivery leads to.
    pub open spec fn conclude_post(
        &self,
        before: SubagentCoordinator,
        team: Seq<char>,
        letter: AgentMailboxMessage,
        delivered: bool,
        result: Result<AgentMessageSendOutput, String>,
        actions: Seq<Action>,
    ) -> bool {
        let id = letter.to_agent_id@;
        if delivered {
            &&& *self == before
            &&& actions.len() == 1
            &&& sent(result, actions[0], letter, id, AgentMessageDeliveryStatus::Delivered)
        } else if id == team || find(before.pending@, (id, ""@)) is Some {
            queued_or_full(*self, before, (team, id), letter, result, actions)
        } else {
            &&& *self == before
            &&& refused(
                result,
                actions,
                "Agent '"@ + id + "' is not currently able to receive messages"@,
            )
        }
    }

    /// Concludes the sending of a message after the host tried to push it into
    /// the recipient's session: what could not be delivered is queued for the
    /// root or a pending child, and refused for others.
    pub fn conclude_send(
        &mut self,
        team: &str,
        letter: AgentMailboxMessage,
        delivered: bool,
    ) -> (r: SendStep)
        ensures
            old(self).wf() ==> final(self).wf(),
            r is Done,
            final(self).conclude_post(
                *old(self),
                team@,
                letter,
                delivered,
                r->result,
                r->actions@,
            ),
    {
        let id: String = letter.to_agent_id.clone();
        if delivered {
            let mut actions: Vec<Action> = Vec::new();
            let output: AgentMessageSendOutput = AgentMessageSendOutput {
                message_id: letter.message_id.clone(),
                target_agent_id: id,
                status: AgentMessageDeliveryStatus::Delivered,
            };
            actions.push(
                Action::ObserveMessage {
                    message: letter,
                    status: AgentMessageDeliveryStatus::Delivered,
                },
            );
            return SendStep::Done { result: Ok(output), actions };
        }
        if same_text(id.as_str(), team) || position(&self.pending, id.as_str(), "").is_some() {
            return self.queue_letter(team, letter);
        }
        SendStep::Done {
            result: Err(
                cat3("Agent '", id.as_str(), "' is not currently able to receive messages"),
            ),
            actions: Vec::new(),
        }
    }
}

// ---- waiting ----

/// What waiting for mail came to.
#[derive(Debug)]
pub enum WaitOutcome {
    /// The agent is answered.
    Now { messages: Vec<AgentMailboxMessage>, timed_out: bool },
    /// The agent waits; another that waited in its place is answered.
    Parked { replaced: Option<Action> },
}

/// Takes at most `n` messages for an agent out of the mail, those of native
/// teams left in: the messages, and the mail that stays.
pub open spec fn drained(s: Seq<Mail>, k: Key, n: nat) -> (Seq<AgentMailboxMessage>, Seq<Mail>)
    decreases s.len(),
{
    if s.len() == 0 {
        (Seq::empty(), Seq::empty())
    } else if n > 0 && mail_is_for(s[0], k) && s[0].message.native is None {
        let (messages, rest) = drained(s.drop_first(), k, (n - 1) as nat);
        (seq![s[0].message] + messages, rest)
    } else {
        let (messages, rest) = drained(s.drop_first(), k, n);
        (messages, seq![s[0]] + rest)
    }
}

fn drain(mail: &mut Vec<Mail>, team: &str, agent: &str, n: usize) -> (r: Vec<AgentMailboxMessage>)
    ensures
        (r@, final(mail)@) == drained(old(mail)@, (team@, agent@), n as nat),
{
    let ghost k: Key = (team@, agent@);
    let ghost all = mail@;
    let ghost done = 0int;
    let mut kept: Vec<Mail> = Vec::new();
    let mut out: Vec<AgentMailboxMessage> = Vec::new();
    proof {
        assert(all.skip(0) =~= all);
        assert(out@ + drained(all, k, n as nat).0 =~= drained(all, k, n as nat).0);
        assert(kept@ + drained(all, k, n as nat).1 =~= drained(all, k, n as nat).1);
    }
    while mail.len() > 0
        invariant
            0 <= done <= all.len(),
            mail@ == all.skip(done),
            k == (team@, agent@),
            out@.len() <= n,
            drained(all, k, n as nat) == (
                out@ + drained(mail@, k, (n - out@.len()) as nat).0,
                kept@ + drained(mail@, k, (n - out@.len()) as nat).1,
            ),
        decreases mail.len(),
    {
        let ghost rest = mail@;
        let ghost left = (n - out@.len()) as nat;
        let ghost out0 = out@;
        let ghost kept0 = kept@;
        let m: Mail = mail.remove(0);
        proof {
            assert(mail@ =~= rest.drop_first());
            assert(mail@ =~= all.skip(done + 1));
            done = done + 1;
        }
        if out.len() < n && same_text(m.team_scope_id.as_str(), team) && same_text(
            m.agent_id.as_str(),
            agent,
        ) && m.message.native.is_none() {
            out.push(m.message);
            proof {
                let inner = drained(mail@, k, (left - 1) as nat);
                assert(out0 + (seq![m.message] + inner.0) =~= out@ + inner.0);
            }
        } else {
            kept.push(m);
            proof {
                let inner = drained(mail@, k, left);
                assert(kept0 + (seq![m] + inner.1) =~= kept@ + inner.1);
            }
        }
    }
    proof {
        assert(drained(mail@, k, (n - out@.len()) as nat).0 =~= Seq::empty());
        assert(drained(mail@, k, (n - out@.len()) as nat).1 =~= Seq::empty());
        assert(out@ + Seq::empty() =~= out@);
        assert(kept@ + Seq::empty() =~= kept@);
    }
    *mail = kept;
    out
}

proof fn lemma_drained_none(s: Seq<Mail>, k: Key, n: nat)
    ensures
        drained(s, k, n).0.len() == 0 ==> drained(s, k, n).1 == s,
        drained(s, k, n).0.len() <= n,
    decreases s.len(),
{
    if s.len() > 0 {
        if n > 0 && mail_is_for(s[0], k) && s[0].message.native is None {
            lemma_drained_none(s.drop_first(), k, (n - 1) as nat);
        } else {
            lemma_drained_none(s.drop_first(), k, n);
            assert(s =~= seq![s[0]] + s.drop_first());
        }
    }
}

/// A message that was put into a mailbox is read back after those that were
/// there before it, and is then gone; the rest of the mail stays.
pub proof fn law_mail_is_read_in_order(s: Seq<Mail>, m: Mail, k: Key, n: nat)
    requires
        mail_is_for(m, k),
        m.message.native is None,
        drained(s, k, n).0.len() < n,
    ensures
        drained(s.push(m), k, n) == (drained(s, k, n).0.push(m.message), drained(s, k, n).1),
    decreases s.len(),
{
    let t = s.push(m);
    if s.len() == 0 {
        assert(t.drop_first() =~= Seq::empty());
        assert(drained(t.drop_first(), k, (n - 1) as nat).0 =~= Seq::empty());
        assert(seq![m.message] + Seq::<AgentMailboxMessage>::empty() =~= drained(
            s,
            k,
            n,
        ).0.push(m.message));
    } else {
        assert(t.drop_first() =~= s.drop_first().push(m));
        if n > 0 && mail_is_for(s[0], k) && s[0].message.native is None {
            law_mail_is_read_in_order(s.drop_first(), m, k, (n - 1) as nat);
            let inner = drained(s.drop_first(), k, (n - 1) as nat).0;
            assert((seq![s[0].message] + inner).push(m.message) =~= seq![s[0].message] + inner.push(
                m.message,
            ));
        } else {
            law_mail_is_read_in_order(s.drop_first(), m, k, n);
        }
    }
}

/// Mail for other agents is left alone by a read.
pub proof fn law_reading_leaves_other_mail(s: Seq<Mail>, k: Key, other: Key, n: nat)
    requires
        other != k,
    ensures
        mail_for(drained(s, k, n).1, other) == mail_for(s, other),
    decreases s.len(),
{
    if s.len() > 0 {
        let head = s[0];
        let tail = s.drop_first();
        assert(s =~= seq![head] + tail);
        lemma_mail_for_cat(seq![head], tail, other);
        lemma_mail_for_one(head, other);
        if n > 0 && mail_is_for(head, k) && head.message.native is None {
            law_reading_leaves_other_mail(tail, k, other, (n - 1) as nat);
            assert(!mail_is_for(head, other));
            assert(mail_for(s, other) =~= mail_for(tail, other));
        } else {
            law_reading_leaves_other_mail(tail, k, other, n);
            let rest = drained(tail, k, n).1;
            lemma_mail_for_cat(seq![head], rest, other);
        }
    }
}

proof fn lemma_mail_for_one(m: Mail, k: Key)
    ensures
        mail_for(seq![m], k) == (if mail_is_for(m, k) {
            seq![m.message]
        } else {
            Seq::empty()
        }),
{
    assert(seq![m].drop_last() =~= Seq::empty());
    assert(mail_for(seq![m].drop_last(), k) =~= Seq::empty());
    assert(Seq::<AgentMailboxMessage>::empty().push(m.message) =~= seq![m.message]);
}

proof fn lemma_mail_for_cat(a: Seq<Mail>, b: Seq<Mail>, k: Key)
    ensures
        mail_for(a + b, k) == mail_for(a, k) + mail_for(b, k),
    decreases b.len(),
{
    if b.len() == 0 {
        assert(a + b =~= a);
        assert(mail_for(a, k) + mail_for(b, k) =~= mail_for(a, k));
    } else {
        assert((a + b).drop_last() =~= a + b.drop_last());
        lemma_mail_for_cat(a, b.drop_last(), k);
        if mail_is_for(b.last(), k) {
            assert((mail_for(a, k) + mail_for(b.drop_last(), k)).push(b.last().message)
                =~= mail_for(a, k) + mail_for(b.drop_last(), k).push(b.last().message));
        }
    }
}

impl SubagentCoordinator {
    /// What waiting for mail leads to: mail that is there is handed out, in
    /// order; else the agent waits, unless it only polls.
    pub open spec fn wait_post(
        &self,
        before: SubagentCoordinator,
        k: Key,
        timeout_ms: u64,
        reply: u64,
        now: u128,
        outcome: WaitOutcome,
    ) -> bool {
        let (messages, rest) = drained(before.mailboxes@, k, MAX_DRAIN_MESSAGES as nat);
        if messages.len() > 0 {
            &&& *self == (SubagentCoordinator { mailboxes: self.mailboxes, ..before })
            &&& self.mailboxes@ == rest
            &&& match outcome {
                WaitOutcome::Now { messages: handed, timed_out } => handed@ == messages
                    && !timed_out,
                _ => false,
            }
        } else if timeout_ms == 0 {
            &&& *self == (SubagentCoordinator { mailboxes: self.mailboxes, ..before })
            &&& self.mailboxes@ == before.mailboxes@
            &&& match outcome {
                WaitOutcome::Now { messages: handed, timed_out } => handed@.len() == 0 && timed_out,
                _ => false,
            }
        } else {
            &&& *self == (SubagentCoordinator {
                mailboxes: self.mailboxes,
                mailbox_waiters: self.mailbox_waiters,
                ..before
            })
            &&& self.mailboxes@ == before.mailboxes@
            &&& exists|w: AgentMailboxWaiter|
                {
                    &&& #[trigger] w.key() == k
                    &&& w.reply == reply
                    &&& w.deadline == now + timeout_ms
                    &&& self.mailbox_waiters@ == with_entry(before.mailbox_waiters@, w)
                }
            &&& match outcome {
                WaitOutcome::Parked { replaced } => replaced == (match lookup(
                    before.mailbox_waiters@,
                    k,
                ) {
                    Some(w) => Some(Action::NoMail { reply: w.reply, timed_out: false }),
                    None => None,
                }),
                _ => false,
            }
        }
    }

    /// Waits for mail.
    pub fn wait_agent_messages(
        &mut self,
        identity: &AgentMailboxIdentity,
        timeout_ms: u64,
        reply: u64,
        now: u128,
    ) -> (r: WaitOutcome)
        requires
            now + timeout_ms <= u128::MAX,
        ensures
            old(self).wf() ==> final(self).wf(),
            final(self).wait_post(
                *old(self),
                (identity.team_scope_id@, identity.agent_id@),
                timeout_ms,
                reply,
                now,
                r,
            ),
    {
        let ghost k: Key = (identity.team_scope_id@, identity.agent_id@);
        proof {
            lemma_drained_none(self.mailboxes@, k, MAX_DRAIN_MESSAGES as nat);
        }
        let messages: Vec<AgentMailboxMessage> = drain(
            &mut self.mailboxes,
            identity.team_scope_id.as_str(),
            identity.agent_id.as_str(),
            MAX_DRAIN_MESSAGES,
        );
        if messages.len() > 0 {
            return WaitOutcome::Now { messages, timed_out: false };
        }
        if timeout_ms == 0 {
            return WaitOutcome::Now { messages: Vec::new(), timed_out: true };
        }
        let waiter: AgentMailboxWaiter = AgentMailboxWaiter {
            team_scope_id: identity.team_scope_id.clone(),
            agent_id: identity.agent_id.clone(),
            deadline: now + timeout_ms as u128,
            reply,
        };
        proof {
            assert(waiter.key() == k);
        }
        let replaced: Option<AgentMailboxWaiter> = put_entry(
            &mut self.mailbox_waiters,
            waiter,
            identity.team_scope_id.as_str(),
            identity.agent_id.as_str(),
        );
        WaitOutcome::Parked {
            replaced: match replaced {
                Some(w) => Some(Action::NoMail { reply: w.reply, timed_out: false }),
                None => None,
            },
        }
    }
}

// ---- the mail of a child that starts ----

/// What becomes of a message when its recipient starts.
#[derive(Debug)]
pub enum FlushFate {
    /// The recipient does not take messages of this native team.
    Rejected(AgentMailboxMessage),
    /// The recipient's session took it.
    Delivered(AgentMailboxMessage),
    /// It stays in the mailbox.
    Retained(AgentMailboxMessage),
}

/// A message as it is offered: native work becomes a native message.
pub open spec fn offered(m: AgentMailboxMessage) -> AgentMailboxMessage {
    if m.kind == AgentMailboxMessageKind::NativeFollowup {
        AgentMailboxMessage { kind: AgentMailboxMessageKind::NativeMessage, ..m }
    } else {
        m
    }
}

/// A live delivery of the message is tried.
pub open spec fn flush_tries(
    live: bool,
    m: AgentMailboxMessage,
    accepts_native: bool,
) -> bool {
    (m.native is None || accepts_native) && live && offered(m).kind.steers()
}

/// What becomes of a message, and whether live deliveries go on. Once the
/// recipient refused one, later ones stay behind it.
pub open spec fn flush_one(
    live: bool,
    m: AgentMailboxMessage,
    accepts_native: bool,
    delivered: bool,
) -> (bool, FlushFate) {
    if m.native is Some && !accepts_native {
        (live, FlushFate::Rejected(m))
    } else if flush_tries(live, m, accepts_native) && delivered {
        (live, FlushFate::Delivered(offered(m)))
    } else {
        (live && !offered(m).kind.steers(), FlushFate::Retained(offered(m)))
    }
}

/// Whether a live delivery of the message is to be tried.
pub fn flush_attempts(live: bool, message: &AgentMailboxMessage, accepts_native: bool) -> (r: bool)
    ensures
        r == flush_tries(live, *message, accepts_native),
{
    (message.native.is_none() || accepts_native) && live && (message.kind
        == AgentMailboxMessageKind::NativeFollowup || message.kind.steers_recipient())
}

/// The message as it is offered to its recipient.
pub fn offer(message: &AgentMailboxMessage) -> (r: AgentMailboxMessage)
    ensures
        r == offered(*message),
{
    let mut m: AgentMailboxMessage = message.duplicate();
    if m.kind == AgentMailboxMessageKind::NativeFollowup {
        m.kind = AgentMailboxMessageKind::NativeMessage;
    }
    m
}

/// What becomes of a message when its recipient starts, given what the
/// recipient answered.
pub fn flush_message(
    live: bool,
    message: AgentMailboxMessage,
    accepts_native: bool,
    delivered: bool,
) -> (r: (bool, FlushFate))
    ensures
        r == flush_one(live, message, accepts_native, delivered),
{
    if message.native.is_some() && !accepts_native {
        return (live, FlushFate::Rejected(message));
    }
    let tried: bool = flush_attempts(live, &message, accepts_native);
    let m: AgentMailboxMessage = offer(&message);
    if tried && delivered {
        return (live, FlushFate::Delivered(m));
    }
    let still_live: bool = live && !m.kind.steers_recipient();
    (still_live, FlushFate::Retained(m))
}

/// The fates of a mailbox's messages, for what the recipient answered to each.
pub open spec fn flush_fates(
    live: bool,
    ms: Seq<AgentMailboxMessage>,
    answers: Seq<(bool, bool)>,
) -> Seq<FlushFate>
    decreases ms.len(),
{
    if ms.len() == 0 {
        Seq::empty()
    } else {
        let (still, fate) = flush_one(live, ms[0], answers[0].0, answers[0].1);
        seq![fate] + flush_fates(still, ms.drop_first(), answers.drop_first())
    }
}

proof fn lemma_flush_len(live: bool, ms: Seq<AgentMailboxMessage>, answers: Seq<(bool, bool)>)
    ensures
        flush_fates(live, ms, answers).len() == ms.len(),
    decreases ms.len(),
{
    if ms.len() > 0 {
        let still = flush_one(live, ms[0], answers[0].0, answers[0].1).0;
        lemma_flush_len(still, ms.drop_first(), answers.drop_first());
    }
}

proof fn lemma_flush_dead(live: bool, ms: Seq<AgentMailboxMessage>, answers: Seq<(bool, bool)>, j: int)
    requires
        !live,
        ms.len() == answers.len(),
        0 <= j < ms.len(),
    ensures
        flush_fates(live, ms, answers).len() == ms.len(),
        !(flush_fates(live, ms, answers)[j] is Delivered),
    decreases ms.len(),
{
    let (still, fate) = flush_one(live, ms[0], answers[0].0, answers[0].1);
    assert(!still);
    if ms.len() > 1 {
        let k = if j > 0 { j - 1 } else { 0 };
        lemma_flush_dead(still, ms.drop_first(), answers.drop_first(), k);
    }
}

/// Steering messages are delivered in order: once one stays in the mailbox, no
/// later message is delivered live, whatever the recipient would answer.
pub proof fn law_flush_keeps_order(
    live: bool,
    ms: Seq<AgentMailboxMessage>,
    answers: Seq<(bool, bool)>,
    i: int,
    j: int,
)
    requires
        ms.len() == answers.len(),
        0 <= i < j < ms.len(),
        match flush_fates(live, ms, answers)[i] {
            FlushFate::Retained(m) => m.kind.steers(),
            _ => false,
        },
    ensures
        !(flush_fates(live, ms, answers)[j] is Delivered),
    decreases ms.len(),
{
    let (still, fate) = flush_one(live, ms[0], answers[0].0, answers[0].1);
    let rest = flush_fates(still, ms.drop_first(), answers.drop_first());
    let all = flush_fates(live, ms, answers);
    assert(all =~= seq![fate] + rest);
    lemma_flush_len(still, ms.drop_first(), answers.drop_first());
    if i == 0 {
        lemma_flush_dead(still, ms.drop_first(), answers.drop_first(), j - 1);
        assert(all[j] == rest[j - 1]);
    } else {
        assert(all[i] == rest[i - 1]);
        law_flush_keeps_order(still, ms.drop_first(), answers.drop_first(), i - 1, j - 1);
        assert(all[j] == rest[j - 1]);
    }
}

impl SubagentCoordinator {
    /// Takes the mail of a child that is active, to offer it to its session.
    pub fn open_mailbox(&mut self, team: &str, agent: &str) -> (r: Vec<AgentMailboxMessage>)
        ensures
            old(self).wf() ==> final(self).wf(),
            *final(self) == (SubagentCoordinator {
                mailboxes: final(self).mailboxes,
                ..*old(self)
            }),
            if find(old(self).active@, (agent@, ""@)) is Some {
                &&& r@ == mail_for(old(self).mailboxes@, (team@, agent@))
                &&& final(self).mailboxes@ == mail_but(old(self).mailboxes@, (team@, agent@))
            } else {
                r@.len() == 0 && final(self).mailboxes@ == old(self).mailboxes@
            },
    {
        let mut out: Vec<AgentMailboxMessage> = Vec::new();
        if position(&self.active, agent, "").is_none() {
            return out;
        }
        let ghost start = *self;
        let ghost all = self.mailboxes@;
        let ghost k: Key = (team@, agent@);
        let ghost n = 0int;
        let mut kept: Vec<Mail> = Vec::new();
        proof {
            assert(all.skip(0) =~= all);
        }
        while self.mailboxes.len() > 0
            invariant
                0 <= n <= all.len(),
                k == (team@, agent@),
                *self == (SubagentCoordinator { mailboxes: self.mailboxes, ..start }),
                self.mailboxes@ == all.skip(n),
                out@ == mail_for(all.take(n), k),
                kept@ == mail_but(all.take(n), k),
            decreases self.mailboxes.len(),
        {
            let m: Mail = self.mailboxes.remove(0);
            proof {
                assert(m == all[n]);
                assert(all.take(n + 1).drop_last() =~= all.take(n));
                assert(self.mailboxes@ =~= all.skip(n + 1));
                n = n + 1;
            }
            if same_text(m.team_scope_id.as_str(), team) && same_text(m.agent_id.as_str(), agent) {
                out.push(m.message);
            } else {
                kept.push(m);
            }
        }
        proof {
            assert(all.take(n) =~= all);
        }
        self.mailboxes = kept;
        out
    }

    /// Puts back what a child's session did not take.
    pub fn close_mailbox(
        &mut self,
        team: &str,
        agent: &str,
        retained: Vec<AgentMailboxMessage>,
    ) -> (r: Action)
        ensures
            old(self).wf() ==> final(self).wf(),
            *final(self) == (SubagentCoordinator {
                mailboxes: final(self).mailboxes,
                ..*old(self)
            }),
            final(self).mailboxes@.len() == old(self).mailboxes@.len() + retained@.len(),
            final(self).mailboxes@.take(old(self).mailboxes@.len() as int)
                == old(self).mailboxes@,
            forall|i: int|
                0 <= i < retained@.len() ==> {
                    let m = #[trigger] final(self).mailboxes@[old(self).mailboxes@.len() + i];
                    m.message == retained@[i] && mail_is_for(m, (team@, agent@))
                },
            match r {
                Action::SaveNative { team_scope_id } => team_scope_id@ == team@,
                _ => false,
            },
    {
        let ghost start = *self;
        let ghost base = self.mailboxes@.len() as int;
        let ghost all = retained@;
        let mut rest: Vec<AgentMailboxMessage> = retained;
        let ghost n = 0int;
        proof {
            assert(all.skip(0) =~= all);
            assert(self.mailboxes@.take(base) =~= start.mailboxes@);
        }
        while rest.len() > 0
            invariant
                0 <= n <= all.len(),
                base == start.mailboxes@.len(),
                rest@ == all.skip(n),
                *self == (SubagentCoordinator { mailboxes: self.mailboxes, ..start }),
                self.mailboxes@.len() == base + n,
                self.mailboxes@.take(base) == start.mailboxes@,
                forall|i: int|
                    0 <= i < n ==> {
                        let m = #[trigger] self.mailboxes@[base + i];
                        m.message == all[i] && mail_is_for(m, (team@, agent@))
                    },
            decreases rest.len(),
        {
            let message: AgentMailboxMessage = rest.remove(0);
            let ghost before = self.mailboxes@;
            self.mailboxes.push(
                Mail { team_scope_id: team.to_owned(), agent_id: agent.to_owned(), message },
            );
            proof {
                assert(rest@ =~= all.skip(n + 1));
                assert(self.mailboxes@.take(base) =~= before.take(base));
                n = n + 1;
            }
        }
        Action::SaveNative { team_scope_id: team.to_owned() }
    }
}

} // verus!
