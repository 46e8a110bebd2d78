use grok_tools::coordinator::types::{ModelVerdict, SubagentResult, SubagentValidateTypeOutcome};
use grok_tools::json::JsonValue;
use grok_tools::workflow::agent::{AgentEvent, AgentNext, AgentPayload};
use grok_tools::workflow::host::{
    display_label, format_duration_ms, judge_call, nested_tool_error, spawn_verdict, AgentAnswer,
    SpawnEvent, SubagentIsolationMode, WorkflowHost, WorkflowSpawn,
};
use grok_tools::workflow::replay::{
    journal_key, AgentCallInput, JournalEntry, ReplayPlan, ResumeBoundary, ResumeMode,
};

fn call(prompt: &str) -> AgentCallInput {
    AgentCallInput {
        index: 0,
        prompt: prompt.to_string(),
        label: None,
        phase: None,
        schema: None,
        model: None,
        effort: None,
        isolation: None,
        agent_type: None,
    }
}

fn json(text: &str) -> JsonValue {
    JsonValue { text: text.to_string() }
}

fn host(budget: Option<u64>, replay: ReplayPlan) -> WorkflowHost {
    WorkflowHost::new(
        "test-session".into(),
        Some("prompt-1".into()),
        "wf_1".into(),
        "test-flow".into(),
        "call-1".into(),
        budget,
        replay,
    )
}

fn echo_result(request: &WorkflowSpawn, tokens_used: u64) -> SubagentResult {
    SubagentResult {
        success: true,
        cancelled: false,
        backgrounded: false,
        output: format!("ECHO:{}", request.prompt),
        error: None,
        subagent_id: request.id.clone(),
        child_session_id: request.id.clone(),
        tool_calls: 1,
        turns: 1,
        duration_ms: 5,
        tokens_used,
        worktree_path: None,
    }
}

/// What a run did besides its calls.
#[derive(Default)]
struct Record {
    spawns: Vec<WorkflowSpawn>,
    journal: Vec<JournalEntry>,
    shown: Vec<String>,
    stopped: Vec<String>,
}

fn drive(
    host: &mut WorkflowHost,
    payload: AgentPayload,
    record: &mut Record,
    checked: impl Fn() -> (SubagentValidateTypeOutcome, ModelVerdict),
    place: impl Fn() -> AgentEvent,
    respond: impl Fn(&WorkflowSpawn) -> SpawnEvent,
) -> Result<AgentAnswer, String> {
    let mut step = host.handle_agent(payload);
    loop {
        record.shown.extend(step.notes.into_iter().map(|n| n.line));
        record.stopped.extend(step.stop);
        let (run, event) = match step.next {
            AgentNext::Refuse(error) => return Err(error),
            AgentNext::Answer { answer, entry } => {
                record.journal.extend(entry);
                return Ok(answer);
            }
            AgentNext::Check(run) => {
                let (outcome, verdict) = checked();
                (run, AgentEvent::Checked { outcome, verdict })
            }
            AgentNext::Queue(run) => (run, place()),
            AgentNext::Spawn { run, request } => {
                let event = respond(&request);
                record.spawns.push(request);
                (run, AgentEvent::Ended { event, timeout_ms: 2500 })
            }
            AgentNext::Release(run) => (run, AgentEvent::Released),
        };
        step = host.agent_event(run, event);
    }
}

fn good() -> (SubagentValidateTypeOutcome, ModelVerdict) {
    (SubagentValidateTypeOutcome::Known, ModelVerdict::Accepted)
}

fn agent(
    host: &mut WorkflowHost,
    call: AgentCallInput,
    record: &mut Record,
    respond: impl Fn(&WorkflowSpawn) -> SubagentResult,
) -> Result<AgentAnswer, String> {
    drive(
        host,
        AgentPayload::Call(call),
        record,
        good,
        || AgentEvent::Place,
        |r| SpawnEvent::Finished(respond(r)),
    )
}

fn echo(
    host: &mut WorkflowHost,
    call: AgentCallInput,
    record: &mut Record,
) -> Result<AgentAnswer, String> {
    agent(host, call, record, |r| echo_result(r, 10))
}

#[test]
fn agent_round_trip_and_request_shape() {
    let mut host = host(None, ReplayPlan::empty());
    let mut record = Record::default();
    let mut c = call("hello world");
    c.label = Some("greet".into());
    c.model = Some("test-model".into());
    c.effort = Some("low".into());
    c.isolation = Some("worktree".into());
    let key = journal_key(&c);
    let answer = echo(&mut host, c, &mut record).unwrap();
    assert!(answer.ok);
    assert!(!answer.cached);
    assert_eq!(answer.value, json("\"ECHO:hello world\""));
    assert_eq!(answer.budget_spent, 10);
    assert_eq!(record.spawns.len(), 1);
    let spawn = &record.spawns[0];
    assert_eq!(spawn.prompt, "hello world");
    assert_eq!(spawn.subagent_type, "general-purpose");
    assert_eq!(spawn.parent_session_id, "test-session");
    assert_eq!(spawn.parent_prompt_id.as_deref(), Some("prompt-1"));
    assert!(!spawn.run_in_background);
    assert!(!spawn.surface_completion);
    assert_eq!(spawn.swarm_id, "wf_1");
    assert_eq!(spawn.item.as_deref(), Some("greet"));
    assert_eq!(spawn.model.as_deref(), Some("test-model"));
    assert_eq!(spawn.reasoning_effort.as_deref(), Some("low"));
    assert_eq!(spawn.resume_from, None);
    assert_eq!(spawn.isolation, Some(SubagentIsolationMode::Worktree));
    assert_eq!(answer.agent_id.as_deref(), Some(spawn.id.as_str()));
    assert_eq!(record.shown, vec!["▶ greet".to_string(), "✓ greet (0.0s, 10 tok)".to_string()]);
    assert_eq!(record.journal.len(), 1);
    assert_eq!(record.journal[0].key, key);
    assert!(record.journal[0].ok);
    assert_eq!(host.tokens_spent(), 10);
    assert_eq!(host.agents_started(), 1);
}

#[test]
fn unreadable_payloads_throw() {
    let mut host = host(None, ReplayPlan::empty());
    let mut record = Record::default();
    let no_agent = |_: &WorkflowSpawn| -> SpawnEvent { panic!("nothing is spawned") };
    let place = || AgentEvent::Place;
    let error = drive(&mut host, AgentPayload::Missing, &mut record, good, place, no_agent);
    assert_eq!(error.unwrap_err(), "agent(): missing call payload");
    let invalid = AgentPayload::Invalid { error: "missing field `prompt`".into() };
    let error = drive(&mut host, invalid, &mut record, good, place, no_agent);
    assert_eq!(error.unwrap_err(), "agent(): invalid call payload: missing field `prompt`");
    assert_eq!(host.agents_started(), 0);
}

#[test]
fn journal_replay_skips_unchanged_agents() {
    let cached = || {
        let mut c = call("cache me");
        c.label = Some("cached-agent".into());
        c
    };
    let mut first = Record::default();
    echo(&mut host(None, ReplayPlan::empty()), cached(), &mut first).unwrap();
    assert_eq!(first.spawns.len(), 1);

    let plan = ReplayPlan::build(&first.journal, ResumeMode::Exact, None).unwrap();
    let mut second = Record::default();
    let answer = echo(&mut host(None, plan), cached(), &mut second).unwrap();
    assert_eq!(second.spawns.len(), 0, "replay must not respawn");
    assert_eq!(answer.value, json("\"ECHO:cache me\""));
    assert!(answer.cached);
    assert_eq!(second.shown, vec!["↺ cached-agent (replayed from journal)".to_string()]);

    let plan = ReplayPlan::build(&second.journal, ResumeMode::Exact, None).unwrap();
    let mut third = Record::default();
    let mut run = host(None, plan);
    let answer = echo(&mut run, cached(), &mut third).unwrap();
    assert_eq!(third.spawns.len(), 0, "a chained resume replays from the second run's journal");
    assert_eq!(answer.value, json("\"ECHO:cache me\""));
    echo(&mut run, call("new"), &mut third).unwrap();
    assert_eq!(third.spawns.len(), 1);
}

#[test]
fn positional_resume_replays_reworded_script_and_reruns_past_boundary() {
    let step = |index: u32, prompt: &str, phase: &str, label: &str| {
        let mut c = call(prompt);
        c.index = index;
        c.phase = Some(phase.into());
        c.label = Some(label.into());
        c
    };
    let mut first = Record::default();
    let mut run = host(None, ReplayPlan::empty());
    echo(&mut run, step(0, "make the plan", "Plan", "planner"), &mut first).unwrap();
    echo(&mut run, step(1, "do the build", "Build", "builder"), &mut first).unwrap();
    assert_eq!(first.spawns.len(), 2);

    let boundary = ResumeBoundary::Point("Plan".into());
    let plan = ReplayPlan::build(&first.journal, ResumeMode::Positional, Some(boundary)).unwrap();
    let mut second = Record::default();
    let mut run = host(None, plan);
    let reworded = step(0, "make the plan v2 with different wording", "Plan", "planner");
    let kept = echo(&mut run, reworded, &mut second).unwrap();
    assert_eq!(kept.value, json("\"ECHO:make the plan\""), "planner result kept");
    let rebuild = step(1, "rebuild differently", "Build", "builder");
    let rerun = echo(&mut run, rebuild, &mut second).unwrap();
    assert_eq!(rerun.value, json("\"ECHO:rebuild differently\""));
    assert_eq!(second.spawns.len(), 1, "only the builder re-runs");
}

#[test]
fn resume_through_unknown_point_is_rejected_with_known_points() {
    let mut first = Record::default();
    let mut c = call("scan it");
    c.phase = Some("Scan".into());
    c.label = Some("scanner".into());
    echo(&mut host(None, ReplayPlan::empty()), c, &mut first).unwrap();
    let boundary = ResumeBoundary::Point("Verify".into());
    let err =
        ReplayPlan::build(&first.journal, ResumeMode::Exact, Some(boundary)).unwrap_err();
    assert!(err.contains("Known points"), "{err}");
    assert!(err.contains("Scan"), "{err}");
}

#[test]
fn schema_extracts_json_from_prose_output() {
    let mut record = Record::default();
    let mut c = call("find bugs");
    c.schema = Some(json("{\"type\":\"object\"}"));
    let answer = agent(&mut host(None, ReplayPlan::empty()), c, &mut record, |r| SubagentResult {
        output: "Sure! Here it is:\n```json\n{\"bugs\": [\"b1\", \"b2\"]}\n```\nDone.".into(),
        ..echo_result(r, 10)
    })
    .unwrap();
    assert_eq!(answer.value, json("{\"bugs\":[\"b1\",\"b2\"]}"));
    assert_eq!(record.spawns.len(), 1, "no corrective resume");
    assert!(record.spawns[0].prompt.contains("<output_contract>"));
}

#[test]
fn schema_mismatch_gets_one_corrective_resume_retry() {
    let strict = || {
        let mut c = call("strict");
        c.schema = Some(json("{\"type\":\"object\"}"));
        c
    };
    let mut record = Record::default();
    let mut run = host(None, ReplayPlan::empty());
    let answer = agent(&mut run, strict(), &mut record, |r| SubagentResult {
        output: if r.resume_from.is_some() {
            "{\"fixed\": true}".into()
        } else {
            "I could not produce JSON, sorry.".into()
        },
        ..echo_result(r, 10)
    })
    .unwrap();
    assert_eq!(answer.value, json("{\"fixed\":true}"));
    assert_eq!(record.spawns.len(), 2, "exactly one corrective retry");
    assert_eq!(record.spawns[1].resume_from.as_deref(), Some(record.spawns[0].id.as_str()));
    assert!(record.spawns[1].prompt.ends_with("Schema:\n{\n  \"type\": \"object\"\n}"));
    assert_eq!(answer.agent_id.as_deref(), Some(record.spawns[1].id.as_str()));
    assert_eq!(record.journal[0].tokens_used, 20);
    assert_eq!(record.journal[0].duration_ms, 10);
    assert_eq!(run.tokens_spent(), 20);

    let mut record = Record::default();
    let answer = agent(&mut run, strict(), &mut record, |r| SubagentResult {
        output: "still none".into(),
        ..echo_result(r, 10)
    })
    .unwrap();
    assert_eq!(record.spawns.len(), 2);
    assert!(!answer.ok);
    assert_eq!(answer.value, json("null"));
    assert_eq!(
        answer.error.as_deref(),
        Some("agent output did not match the required schema")
    );
    assert!(record.journal.is_empty());

    let mut record = Record::default();
    let answer = drive(
        &mut run,
        AgentPayload::Call(strict()),
        &mut record,
        good,
        || AgentEvent::Place,
        |r| match r.resume_from {
            None => SpawnEvent::Finished(SubagentResult {
                output: "none".into(),
                ..echo_result(r, 10)
            }),
            Some(_) => SpawnEvent::Cancelled,
        },
    )
    .unwrap();
    assert_eq!(answer.error.as_deref(), Some("schema retry failed: workflow cancelled"));
    assert_eq!(answer.agent_id.as_deref(), Some(record.spawns[0].id.as_str()));
    assert_eq!(record.stopped, vec![record.spawns[1].id.clone()]);
}

#[test]
fn budget_exhaustion_throws_in_script() {
    let mut record = Record::default();
    let mut run = host(Some(200), ReplayPlan::empty());
    agent(&mut run, call("one"), &mut record, |r| echo_result(r, 500)).unwrap();
    let error = agent(&mut run, call("two"), &mut record, |r| echo_result(r, 500)).unwrap_err();
    assert_eq!(error, "workflow token budget exhausted (500/200 tokens)");
    assert_eq!(record.spawns.len(), 1, "second agent must not spawn");
}

#[test]
fn a_run_has_a_cap_of_agents() {
    let mut record = Record::default();
    let mut run = host(None, ReplayPlan::empty());
    run.agents_started = 999;
    echo(&mut run, call("last"), &mut record).unwrap();
    let error = echo(&mut run, call("one too many"), &mut record).unwrap_err();
    assert_eq!(error, "workflow agent cap reached (1000 agents per run)");
    assert_eq!(record.spawns.len(), 1);
}

#[test]
fn failed_agents_resolve_to_null_not_throw() {
    let mut record = Record::default();
    let mut run = host(None, ReplayPlan::empty());
    let answer = agent(&mut run, call("doomed"), &mut record, |r| SubagentResult {
        success: false,
        error: Some("provider exploded".into()),
        ..echo_result(r, 10)
    })
    .unwrap();
    assert!(!answer.ok);
    assert_eq!(answer.value, json("null"));
    assert_eq!(answer.error.as_deref(), Some("provider exploded"));
    assert!(record.journal.is_empty(), "a failed call is tried again by a later run");
    assert_eq!(record.shown[1], "✗ agent#0: doomed: provider exploded");

    let cancelled = agent(&mut run, call("x"), &mut record, |r| SubagentResult {
        cancelled: true,
        ..echo_result(r, 10)
    });
    assert_eq!(cancelled.unwrap().error.as_deref(), Some("agent cancelled"));
    let silent = agent(&mut run, call("x"), &mut record, |r| SubagentResult {
        success: false,
        ..echo_result(r, 10)
    });
    assert_eq!(silent.unwrap().error.as_deref(), Some("agent failed"));
}

#[test]
fn agents_that_do_not_come_back_are_stopped() {
    let ends = [
        (SpawnEvent::TimedOut, "agent timed out after 2s", true, true),
        (SpawnEvent::Cancelled, "workflow cancelled", true, false),
        (SpawnEvent::Failed { error: "no slot".into() }, "agent spawn failed: no slot", false, false),
    ];
    for (event, error, stopped, has_id) in ends {
        let mut record = Record::default();
        let event = std::cell::RefCell::new(Some(event));
        let answer = drive(
            &mut host(None, ReplayPlan::empty()),
            AgentPayload::Call(call("slow")),
            &mut record,
            good,
            || AgentEvent::Place,
            |_| event.borrow_mut().take().unwrap(),
        )
        .unwrap();
        assert_eq!(answer.error.as_deref(), Some(error));
        assert_eq!(answer.agent_id.is_some(), has_id);
        assert_eq!(record.stopped.len(), usize::from(stopped));
    }
}

#[test]
fn calls_without_a_place_throw() {
    for (event, error) in [
        (AgentEvent::ShutDown, "workflow host shut down"),
        (AgentEvent::Cancelled, "workflow cancelled"),
    ] {
        let mut record = Record::default();
        let event = std::cell::RefCell::new(Some(event));
        let r = drive(
            &mut host(None, ReplayPlan::empty()),
            AgentPayload::Call(call("x")),
            &mut record,
            good,
            || event.borrow_mut().take().unwrap(),
            |_| SpawnEvent::Cancelled,
        );
        assert_eq!(r.unwrap_err(), error);
        assert!(record.spawns.is_empty());
        assert!(record.shown.is_empty());
    }
}

#[test]
fn agent_types_are_checked_once() {
    let mut run = host(None, ReplayPlan::empty());
    let mut record = Record::default();
    let unknown = || {
        let available = vec!["general-purpose".to_string(), "explore".to_string()];
        (SubagentValidateTypeOutcome::Unknown { available }, ModelVerdict::Accepted)
    };
    let reject = |run: &mut WorkflowHost, record: &mut Record| {
        drive(
            run,
            AgentPayload::Call(call("x")),
            record,
            unknown,
            || AgentEvent::Place,
            |r| SpawnEvent::Finished(echo_result(r, 1)),
        )
    };
    assert_eq!(
        reject(&mut run, &mut record).unwrap_err(),
        "agent(): unknown agentType `general-purpose`. Available types: general-purpose, explore"
    );
    assert!(record.spawns.is_empty());
    assert!(!run.type_known("general-purpose"));
    echo(&mut run, call("x"), &mut record).unwrap();
    assert!(run.type_known("general-purpose"));
    assert!(reject(&mut run, &mut record).is_ok(), "a type that was found good is not asked again");
}

#[test]
fn logs_phases_and_args_flow_through() {
    let mut host = host(None, ReplayPlan::empty());
    assert_eq!(host.record_phase("Verify").line, "── phase: Verify");
    assert_eq!(host.record_log("checking auth").line, "• checking auth");
    assert_eq!(host.state.current_phase.as_deref(), Some("Verify"));
    assert!(host.state.render().contains("checking auth"));
    assert!(nested_tool_error("read_file").unwrap().contains("read_file"));
    assert!(nested_tool_error("__wf_agent").is_none());
    assert_eq!(format_duration_ms(12), "0.0s");
    assert_eq!(format_duration_ms(61_500), "1m1s");
    assert_eq!(display_label(&call("find bugs")), "agent#0: find bugs");
}

#[test]
fn calls_are_judged_by_type_and_model() {
    let known = SubagentValidateTypeOutcome::Known;
    let accepted = ModelVerdict::Accepted;
    assert_eq!(judge_call(&call("x"), &known, &accepted), Ok(None));
    let off = SubagentValidateTypeOutcome::Disabled;
    assert_eq!(
        judge_call(&call("x"), &off, &accepted).unwrap_err(),
        "agent(): agentType `general-purpose` is disabled"
    );
    let only = SubagentValidateTypeOutcome::NotAllowed { allowed: vec!["a".into(), "b".into()] };
    assert_eq!(
        judge_call(&call("x"), &only, &accepted).unwrap_err(),
        "agent(): this agent can only spawn: a, b; `general-purpose` not allowed"
    );
    let gone = SubagentValidateTypeOutcome::ValidationUnavailable;
    assert_eq!(
        judge_call(&call("x"), &gone, &accepted).unwrap_err(),
        "agent(): cannot validate agentType: the subagent coordinator is unreachable"
    );
    let mut c = call("x");
    c.model = Some("m".into());
    assert_eq!(judge_call(&c, &known, &ModelVerdict::Rejected("no".into())).unwrap_err(), "no");
    assert_eq!(
        judge_call(&c, &known, &ModelVerdict::NoValidator).unwrap_err(),
        "agent(): cannot validate model `m`: model catalog validator is unavailable"
    );
    c.isolation = Some("vm".into());
    assert_eq!(
        judge_call(&c, &known, &accepted).unwrap_err(),
        "agent(): invalid isolation `vm` (expected \"worktree\")"
    );
    assert!(spawn_verdict(SpawnEvent::Failed { error: "x".into() }, "a", 1).is_err());
}

#[test]
fn durations_are_shown_in_tenths_of_a_second() {
    assert_eq!(format_duration_ms(0), "0.0s");
    assert_eq!(format_duration_ms(250), "0.2s");
    assert_eq!(format_duration_ms(750), "0.8s");
    assert_eq!(format_duration_ms(350), "0.3s");
    assert_eq!(format_duration_ms(59_999), "60.0s");
    assert_eq!(format_duration_ms(60_000), "1m0s");
    assert_eq!(format_duration_ms(u64::MAX), "307445734561825m51s");
    for ms in 0..60_000u64 {
        assert_eq!(format_duration_ms(ms), format!("{:.1}s", ms as f64 / 1000.0), "{ms}");
    }
}
