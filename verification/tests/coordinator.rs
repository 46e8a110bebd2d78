use grok_tools::coordinator::command::{CommandReply, SubagentCancelTarget, SubagentEvent};
use grok_tools::coordinator::lifecycle::{
    ChildRunOutput, InternalEvent, InternalReply, StartOrigin, StartedChild,
};
use grok_tools::coordinator::mailbox::{
    flush_attempts, flush_message, offer, FlushFate, SendStep, WaitOutcome,
};
use grok_tools::coordinator::state::{CoordinatorConfig, SubagentCoordinator};
use grok_tools::coordinator::types::{
    Action, AdmissionDecision, AgentMailboxIdentity, AgentMailboxMessage, AgentMailboxMessageKind,
    AgentMessageDeliveryStatus, BlockingWaiter, SubagentCancelOutcome, SubagentOwner, SubagentRequest,
    SubagentResult, SubagentResumeLookup,
};
use grok_tools::coordinator::wake::{ActiveAgentMessageOutcome, WakeAdmit};

fn coordinator() -> SubagentCoordinator {
    SubagentCoordinator::new(
        CoordinatorConfig {
            foreground_budget_ms: 1_000,
            queued_reap_interval_ms: 100,
            max_completed_entries: 2,
            buffer_completions: true,
        },
        0,
    )
}

fn request(id: &str) -> SubagentRequest {
    SubagentRequest {
        id: id.to_string(),
        prompt: "go".to_string(),
        description: format!("child {id}"),
        subagent_type: "general-purpose".to_string(),
        parent_session_id: "session".to_string(),
        parent_prompt_id: Some("prompt".to_string()),
        owner: SubagentOwner::Session,
        run_in_background: true,
        await_to_completion: false,
        surface_completion: true,
        resume_from: None,
        cwd: None,
        persona: None,
        loop_task_id: None,
        native_agent: false,
    }
}

fn report_start(c: &mut SubagentCoordinator, id: &str, token_cancelled: bool) -> bool {
    let child = StartedChild {
        child_session_id: format!("{id}-session"),
        persona: None,
        resumed_from: None,
        child_cwd: "/w".to_string(),
        worktree_path: None,
        effective_model_id: "m".to_string(),
        definition_background: false,
    };
    let subagent_id = id.to_string();
    match c.handle_internal(InternalEvent::Started { subagent_id, child, token_cancelled }) {
        InternalReply::Started { accepted, .. } => accepted,
        other => panic!("{other:?}"),
    }
}

fn begin(c: &mut SubagentCoordinator, id: &str) {
    let direct = StartOrigin::Direct { awaits_in_foreground: false };
    let actions = c.start_child(request(id), Some(1), direct, None, 10);
    assert!(actions.iter().any(|a| matches!(a, Action::Run { .. })));
}

fn start(c: &mut SubagentCoordinator, id: &str) {
    begin(c, id);
    assert!(report_start(c, id, false));
}

fn result(id: &str) -> SubagentResult {
    SubagentResult {
        success: true,
        cancelled: false,
        backgrounded: false,
        output: "done".to_string(),
        error: None,
        subagent_id: id.to_string(),
        child_session_id: format!("{id}-session"),
        tool_calls: 1,
        turns: 1,
        duration_ms: 2,
        tokens_used: 3,
        worktree_path: None,
    }
}

fn finish(c: &mut SubagentCoordinator, id: &str) -> Vec<Action> {
    let output = ChildRunOutput {
        result: result(id),
        snapshot_ref: None,
        persisted_output_ref: None,
        buffered_output: "done".to_string(),
    };
    c.finish_child(id, output, &vec![])
}

fn identity(agent: &str) -> AgentMailboxIdentity {
    AgentMailboxIdentity { team_scope_id: "session".to_string(), agent_id: agent.to_string() }
}

fn letter(from: &str, id: &str) -> AgentMailboxMessage {
    AgentMailboxMessage {
        message_id: id.to_string(),
        team_scope_id: "session".to_string(),
        from_agent_id: from.to_string(),
        to_agent_id: String::new(),
        kind: AgentMailboxMessageKind::FollowupTask,
        body: "text".to_string(),
        created_at_ms: 1,
        native: None,
    }
}

#[test]
fn a_child_runs_and_leaves_when_it_finishes() {
    let mut c = coordinator();
    start(&mut c, "a");
    let counts = c.registry_counts();
    assert_eq!((counts.pending, counts.active, counts.completed), (0, 1, 0));
    assert_eq!(c.list_active("session"), vec!["a".to_string()]);
    let actions = finish(&mut c, "a");
    assert!(actions.iter().any(|a| matches!(a, Action::Completed { .. })));
    let counts = c.registry_counts();
    assert_eq!((counts.pending, counts.active, counts.completed), (0, 0, 1));
    assert!(c.list_active("session").is_empty());
}

#[test]
fn finished_children_can_be_continued_until_they_are_forgotten() {
    let mut c = coordinator();
    start(&mut c, "a");
    assert!(matches!(c.resume_source("a", "session"), SubagentResumeLookup::Active));
    finish(&mut c, "a");
    match c.resume_source("a", "session") {
        SubagentResumeLookup::Completed(source) => assert_eq!(source.child_session_id, "a-session"),
        other => panic!("{other:?}"),
    }
    assert!(matches!(c.resume_source("a", "other"), SubagentResumeLookup::Missing));
    for id in ["b", "c"] {
        start(&mut c, id);
        finish(&mut c, id);
    }
    c.evict_completed();
    assert_eq!(c.registry_counts().completed, 2);
    assert!(matches!(c.resume_source("a", "session"), SubagentResumeLookup::Missing));
}

#[test]
fn completions_are_told_once() {
    let mut c = coordinator();
    start(&mut c, "a");
    finish(&mut c, "a");
    let mine = Some("session".to_string());
    let told = c.take_completions(&mine, &vec![]);
    assert_eq!(told.len(), 1);
    assert_eq!(told[0].output, "done");
    assert!(c.take_completions(&mine, &vec![]).is_empty());
}

#[test]
fn cancelling_reaches_running_children_only() {
    let mut c = coordinator();
    start(&mut c, "a");
    start(&mut c, "b");
    finish(&mut c, "b");
    let target = SubagentCancelTarget::SubagentId("a".to_string());
    match c.cancel(target, &Some("session".to_string()), 5) {
        (CommandReply::Cancelled(SubagentCancelOutcome::Cancelled), actions) => {
            assert!(actions.iter().any(|x| matches!(x, Action::Cancel { id, .. } if id == "a")));
        }
        other => panic!("{other:?}"),
    }
    let target = SubagentCancelTarget::SubagentId("b".to_string());
    let (reply, _) = c.cancel(target, &Some("session".to_string()), 5);
    assert!(matches!(reply, CommandReply::Cancelled(SubagentCancelOutcome::AlreadyFinished { .. })));
    let target = SubagentCancelTarget::SubagentId("zzz".to_string());
    let (reply, _) = c.cancel(target, &None, 5);
    assert!(matches!(reply, CommandReply::Cancelled(SubagentCancelOutcome::NotFound)));
    assert_eq!(c.registry_counts().completed, 1);
}

#[test]
fn mail_is_read_in_order_and_waiting_agents_get_it_at_once() {
    let mut c = coordinator();
    start(&mut c, "a");
    for id in ["m1", "m2"] {
        match c.send_agent_message(&identity("session"), "a", letter("session", id)) {
            SendStep::Done { result: Ok(out), .. } => {
                assert_eq!(out.status, AgentMessageDeliveryStatus::Queued);
            }
            other => panic!("{other:?}"),
        }
    }
    match c.wait_agent_messages(&identity("a"), 50, 9, 100) {
        WaitOutcome::Now { messages, timed_out } => {
            let ids: Vec<&str> = messages.iter().map(|m| m.message_id.as_str()).collect();
            assert_eq!(ids, ["m1", "m2"]);
            assert!(!timed_out);
        }
        other => panic!("{other:?}"),
    }
    assert!(matches!(c.wait_agent_messages(&identity("a"), 50, 9, 100), WaitOutcome::Parked { replaced: None }));
    match c.send_agent_message(&identity("session"), "a", letter("session", "m3")) {
        SendStep::Done { result: Ok(out), actions } => {
            assert_eq!(out.status, AgentMessageDeliveryStatus::Delivered);
            assert!(actions.iter().any(|x| matches!(x, Action::HandMessage { reply: 9, .. })));
        }
        other => panic!("{other:?}"),
    }
    let forged = c.send_agent_message(&identity("a"), "session", letter("session", "m4"));
    assert!(matches!(forged, SendStep::Done { result: Err(_), .. }));
    finish(&mut c, "a");
    let late = c.send_agent_message(&identity("session"), "a", letter("session", "m5"));
    assert!(matches!(late, SendStep::Done { result: Err(e), .. } if e.contains("has finished")));
}

#[test]
fn a_stopped_session_takes_nobody_until_it_opens_again() {
    let mut c = coordinator();
    start(&mut c, "a");
    let (done, actions) = c.teardown_session("session", Some(7), 200);
    assert!(!done || actions.iter().any(|x| matches!(x, Action::Cancel { .. })));
    let woken = c.wake_completed_child("a", "session", "again".into(), true, AdmissionDecision::Start, 300);
    assert!(matches!(woken.0, Err(ActiveAgentMessageOutcome::NotActiveOrFinalizing)
        | Err(ActiveAgentMessageOutcome::NotFoundOrNotOwned)));
}

#[test]
fn finished_children_wake_where_there_is_room() {
    let mut c = coordinator();
    start(&mut c, "a");
    finish(&mut c, "a");
    let (answer, actions) =
        c.wake_completed_child("a", "session", "again".into(), true, AdmissionDecision::Start, 300);
    assert!(matches!(answer, Ok(WakeAdmit::Started { .. })));
    assert!(actions.iter().any(|x| matches!(x, Action::Run { .. })));
    let (answer, _) =
        c.wake_completed_child("a", "other", "again".into(), true, AdmissionDecision::Start, 300);
    assert!(matches!(answer, Err(ActiveAgentMessageOutcome::NotFoundOrNotOwned)));
}

#[test]
fn commands_are_answered() {
    let mut c = coordinator();
    start(&mut c, "a");
    let mut ask = |e: SubagentEvent| c.handle_command(e, &vec![], 500).0;
    match ask(SubagentEvent::ListAgents { identity: identity("session") }) {
        CommandReply::Agents(out) => assert!(out.agents.iter().any(|x| x.agent_id == "a")),
        other => panic!("{other:?}"),
    }
    match ask(SubagentEvent::ListActive { parent_session_id: "session".into() }) {
        CommandReply::ActiveIds(ids) => assert_eq!(ids, vec!["a".to_string()]),
        other => panic!("{other:?}"),
    }
    match ask(SubagentEvent::Outstanding { parent_session_id: "session".into(), prompt_id: "prompt".into() }) {
        CommandReply::Outstanding(o) => assert!(o.live_ids.is_empty() && o.background_live),
        other => panic!("{other:?}"),
    }
    match ask(SubagentEvent::SpawnedRefs { parent_session_id: "session".into(), prompt_id: "prompt".into() }) {
        CommandReply::Refs(refs) => assert_eq!(refs[0].child_session_id, "a-session"),
        other => panic!("{other:?}"),
    }
    match ask(SubagentEvent::RegistryCounts) {
        CommandReply::Counts(counts) => assert_eq!(counts.active, 1),
        other => panic!("{other:?}"),
    }
    assert!(matches!(ask(SubagentEvent::LoopUnitActive { task_id: "t".into() }), CommandReply::LoopActive(false)));
}

#[test]
fn mail_waits_end_at_their_deadline() {
    let mut c = coordinator();
    start(&mut c, "a");
    assert!(matches!(c.wait_agent_messages(&identity("a"), 50, 3, 100), WaitOutcome::Parked { .. }));
    assert!(c.next_deadline().is_some());
    let rounds = c.process_deadlines(&vec![], 151);
    let ended = rounds
        .iter()
        .flatten()
        .any(|x| matches!(x, Action::NoMail { reply: 3, timed_out: true }));
    assert!(ended);
}

#[test]
fn a_child_that_panicked_ends_as_failed() {
    let mut c = coordinator();
    start(&mut c, "a");
    let actions = c.finish_panicked_child("a", &vec![]);
    let error = actions.iter().find_map(|x| match x {
        Action::Completed { result, .. } => result.error.clone(),
        _ => None,
    });
    assert_eq!(error.as_deref(), Some("Subagent runtime panicked"));
    assert_eq!(c.registry_counts().active, 0);
    assert!(c.finish_panicked_child("zzz", &vec![]).is_empty());
}

#[test]
fn mail_that_waited_is_flushed_in_order() {
    let mut c = coordinator();
    let mut steering = letter("session", "m1");
    steering.kind = AgentMailboxMessageKind::Message;
    c.enqueue_agent_message("session", "a", steering).unwrap();
    c.enqueue_agent_message("session", "a", letter("session", "m2")).unwrap();
    assert!(c.open_mailbox("session", "a").is_empty(), "the child has not started");
    start(&mut c, "a");
    let mail = c.open_mailbox("session", "a");
    assert_eq!(mail.len(), 2);
    assert!(c.open_mailbox("session", "a").is_empty());
    assert!(flush_attempts(true, &mail[0], false), "a message steers the recipient");
    assert!(!flush_attempts(true, &mail[1], false), "work waits until it is asked for");
    assert!(!flush_attempts(false, &mail[0], false), "after a failure nothing overtakes");
    let mut retained = Vec::new();
    let mut live = true;
    for m in mail {
        let (still, fate) = flush_message(live, m, false, false);
        live = still;
        match fate {
            FlushFate::Retained(m) => retained.push(m),
            other => panic!("{other:?}"),
        }
    }
    assert!(!live);
    let saved = c.close_mailbox("session", "a", retained);
    assert!(matches!(saved, Action::SaveNative { team_scope_id } if team_scope_id == "session"));
    let ids: Vec<String> =
        c.open_mailbox("session", "a").into_iter().map(|m| m.message_id).collect();
    assert_eq!(ids, ["m1", "m2"]);
}

#[test]
fn steering_messages_are_tried_on_live_agents() {
    let mut c = coordinator();
    let direct = StartOrigin::Direct { awaits_in_foreground: false };
    c.start_child(request("p"), Some(1), direct, None, 10);
    start(&mut c, "a");
    let mut send = |target: &str, delivered: bool| {
        let mut steering = letter("session", "m");
        steering.kind = AgentMailboxMessageKind::Message;
        let message = match c.send_agent_message(&identity("session"), target, steering) {
            SendStep::TryLive { message } => message,
            other => panic!("{other:?}"),
        };
        assert_eq!(message.to_agent_id, target);
        match c.conclude_send("session", message, delivered) {
            SendStep::Done { result, .. } => result.map(|out| out.status),
            other => panic!("{other:?}"),
        }
    };
    assert_eq!(send("a", true), Ok(AgentMessageDeliveryStatus::Delivered));
    assert_eq!(
        send("a", false),
        Err("Agent 'a' is not currently able to receive messages".to_string())
    );
    assert_eq!(send("p", false), Ok(AgentMessageDeliveryStatus::Queued));
    let mut followup = letter("session", "m");
    followup.kind = AgentMailboxMessageKind::NativeFollowup;
    assert_eq!(offer(&followup).kind, AgentMailboxMessageKind::NativeMessage);
    assert_eq!(offer(&letter("session", "m")).kind, AgentMailboxMessageKind::FollowupTask);
}

#[test]
fn a_deleted_session_stays_closed_until_its_children_are_gone() {
    let mut c = coordinator();
    start(&mut c, "a");
    let (later, actions) = c.teardown_session("session", Some(7), 200);
    assert!(later);
    assert!(actions.iter().any(|x| matches!(x, Action::Cancel { id, .. } if id == "a")));
    assert_eq!(c.spawn_blocked_sessions, vec!["session".to_string()]);
    c.open_spawn_admission("session");
    assert_eq!(c.spawn_blocked_sessions.len(), 1, "a racing turn cannot reopen it");
    let actions = finish(&mut c, "a");
    assert!(actions.iter().any(|x| matches!(x, Action::AnswerDrained { reply: 7 })));
    assert!(c.spawn_blocked_sessions.is_empty());

    start(&mut c, "b");
    let stop = SubagentCancelTarget::ParentSession;
    let (reply, _) = c.cancel(stop, &Some("session".to_string()), 8);
    assert!(matches!(reply, CommandReply::Cancelled(SubagentCancelOutcome::Cancelled)));
    assert_eq!(c.spawn_blocked_sessions.len(), 1);
    c.open_spawn_admission("session");
    assert!(c.spawn_blocked_sessions.is_empty(), "the next turn opens a stopped session");
    let actions = c.cancel_all_children();
    assert!(actions.iter().any(|x| matches!(x, Action::Cancel { id, .. } if id == "b")));
}

#[test]
fn workflow_children_are_answered_when_they_are_gone() {
    let mut c = coordinator();
    let mut r = request("w");
    r.owner = SubagentOwner::Workflow { run_id: "run".to_string() };
    let direct = StartOrigin::Direct { awaits_in_foreground: false };
    c.start_child(r, Some(1), direct, None, 10);
    assert!(!c.workflow_is_idle("run"));
    let target = || SubagentCancelTarget::WorkflowRunId("run".to_string());
    let (reply, actions) = c.cancel(target(), &None, 5);
    assert!(matches!(reply, CommandReply::Later));
    assert!(actions.iter().any(|x| matches!(x, Action::Cancel { id, .. } if id == "w")));
    let actions = finish(&mut c, "w");
    assert!(actions.iter().any(|x| matches!(x, Action::AnswerCancelled { reply: 5 })));
    let (reply, _) = c.cancel(target(), &None, 6);
    assert!(matches!(reply, CommandReply::Cancelled(SubagentCancelOutcome::Cancelled)));
}

#[test]
fn waiters_get_the_whole_result() {
    let mut c = coordinator();
    start(&mut c, "a");
    c.waiters.push(BlockingWaiter { subagent_id: "a".to_string(), deadline: 900, reply: 4 });
    let actions = finish(&mut c, "a");
    let told = actions.iter().find_map(|x| match x {
        Action::AnswerSnapshot { reply: 4, result, .. } => Some(result.output.clone()),
        _ => None,
    });
    assert_eq!(told.as_deref(), Some("done"));
    assert!(c.waiters.is_empty());
}

#[test]
fn a_second_wait_answers_the_first() {
    let mut c = coordinator();
    start(&mut c, "a");
    assert!(matches!(c.wait_agent_messages(&identity("a"), 50, 3, 100), WaitOutcome::Parked { replaced: None }));
    assert!(matches!(
        c.wait_agent_messages(&identity("a"), 50, 5, 110),
        WaitOutcome::Parked { replaced: Some(Action::NoMail { reply: 3, timed_out: false }) }
    ));
}

#[test]
fn a_cancelled_token_refuses_the_start() {
    let mut c = coordinator();
    begin(&mut c, "a");
    assert!(!report_start(&mut c, "a", true));
    assert_eq!((c.pending.len(), c.active.len()), (1, 0));
    assert!(!report_start(&mut c, "b", false));
    assert!(report_start(&mut c, "a", false));
    assert_eq!((c.pending.len(), c.active.len()), (0, 1));
}

#[test]
fn children_with_the_same_id_keep_the_order_of_the_tables() {
    let mut c = coordinator();
    start(&mut c, "b");
    finish(&mut c, "b");
    start(&mut c, "b");
    begin(&mut c, "b");
    start(&mut c, "c");
    begin(&mut c, "a");
    assert_eq!((c.pending.len(), c.active.len(), c.completed.len()), (2, 2, 1));
    let roster = c.list_agents(&identity("session"));
    let listed: Vec<(&str, &str)> =
        roster.agents.iter().map(|a| (a.agent_id.as_str(), a.status.as_str())).collect();
    assert_eq!(
        listed,
        vec![
            ("session", "running"),
            ("a", "pending"),
            ("b", "pending"),
            ("b", "running"),
            ("b", "completed"),
            ("c", "running"),
        ]
    );

    let mut c = coordinator();
    start(&mut c, "b");
    finish(&mut c, "b");
    let mut again = request("b");
    again.description = "again".to_string();
    c.start_child(again, None, StartOrigin::Direct { awaits_in_foreground: false }, None, 20);
    assert!(report_start(&mut c, "b", false));
    let refs = c.spawned_refs("session", "prompt");
    let described: Vec<&str> = refs.iter().map(|r| r.description.as_str()).collect();
    assert_eq!(described, vec!["again", "child b"]);
}
