use grok_tools::json::JsonValue;
use grok_tools::tool::ToolKind;
use grok_tools::workflow::launch::{
    is_workflow_tool, LaunchEvent, WorkflowLaunchAck, WorkflowSource, WorkflowTool,
    WorkflowToolInput,
};
use grok_tools::workflow::output::{extract_schema_value, prompt_with_output_contract};
use grok_tools::workflow::progress::{AgentProgressEntry, AgentStatus, ProgressState};
use grok_tools::workflow::replay::{
    journal_key, migrate_journal_key, AgentCallInput, JournalEntry, ReplayPlan, ResumeBoundary,
    ResumeMode,
};
use std::collections::VecDeque;

fn call(prompt: &str) -> AgentCallInput {
    AgentCallInput {
        index: 0,
        prompt: prompt.to_string(),
        label: None,
        phase: None,
        schema: None,
        model: None,
        effort: None,
        isolation: None,
        agent_type: None,
    }
}

fn json(text: &str) -> JsonValue {
    JsonValue { text: text.to_string() }
}

fn entry(index: u32, prompt: &str, phase: Option<&str>, label: Option<&str>) -> JournalEntry {
    JournalEntry {
        index,
        key: journal_key(&call(prompt)),
        ok: true,
        value: json(&format!("\"result-{index}\"")),
        error: None,
        label: label.map(str::to_string),
        phase: phase.map(str::to_string),
        tokens_used: 1,
        duration_ms: 1,
        agent_id: Some(format!("agent-{index}")),
    }
}

fn state() -> ProgressState {
    ProgressState {
        current_phase: None,
        agents: Vec::new(),
        log: VecDeque::new(),
        running: 0,
        done: 0,
        failed: 0,
        cached: 0,
    }
}

#[test]
fn journal_key_ignores_index_label_and_phase_but_not_prompt_or_opts() {
    let mut a = call("find bugs");
    a.index = 1;
    let mut b = call("find bugs");
    b.index = 7;
    b.label = Some("renamed".to_string());
    b.phase = Some("Regrouped".to_string());
    assert_eq!(
        journal_key(&a),
        journal_key(&b),
        "display-only fields must not invalidate journaled results"
    );
    let mut c = call("find bugs");
    c.model = Some("some-model".to_string());
    assert_ne!(journal_key(&a), journal_key(&c));
    let d = call("find other bugs");
    assert_ne!(journal_key(&a), journal_key(&d));
}

#[test]
fn positional_plan_replays_by_index_despite_reworded_prompts() {
    let entries = vec![
        entry(0, "old wording A", Some("P1"), None),
        entry(1, "old wording B", Some("P2"), None),
    ];
    let mut plan = ReplayPlan::build(&entries, ResumeMode::Positional, None).expect("plan builds");
    let mut reworded = call("completely new wording");
    reworded.index = 0;
    let key = journal_key(&reworded);
    let hit = plan.take(&reworded, &key).expect("index 0 replays");
    assert_eq!(hit.value, json("\"result-0\""));
    let mut gap = call("whatever");
    gap.index = 5;
    assert!(plan.take(&gap, &key).is_none(), "unjournaled index runs fresh");
}

#[test]
fn exact_plan_requires_matching_key() {
    let source = call("stable prompt");
    let mut journaled = entry(0, "stable prompt", None, None);
    journaled.key = journal_key(&source);
    let mut plan = ReplayPlan::build(&vec![journaled], ResumeMode::Exact, None).expect("plan builds");
    let mut reworded = call("different prompt");
    reworded.index = 0;
    let miss_key = journal_key(&reworded);
    assert!(plan.take(&reworded, &miss_key).is_none());
    let mut same = call("stable prompt");
    same.index = 3;
    let hit_key = journal_key(&same);
    assert!(plan.take(&same, &hit_key).is_some(), "key match replays at any index");
    assert!(plan.take(&same, &hit_key).is_none(), "an entry replays once");
    assert!(ReplayPlan::empty().is_empty());
}

#[test]
fn resume_boundary_by_phase_label_and_index() {
    let entries = vec![
        entry(0, "plan", Some("Plan"), Some("sol-plan")),
        entry(1, "bootstrap", Some("Bootstrap"), Some("glm-bootstrap")),
        entry(2, "wave", Some("Waves"), Some("glm-w0")),
    ];
    let build = |b: ResumeBoundary| ReplayPlan::build(&entries, ResumeMode::Positional, Some(b));
    let plan = build(ResumeBoundary::Point("bootstrap".to_string()))
        .expect("phase boundary resolves case-insensitively");
    assert_eq!(plan.by_index.len(), 2, "entries past the boundary drop");
    let plan = build(ResumeBoundary::Point("sol-plan".to_string())).expect("label fallback resolves");
    assert_eq!(plan.by_index.len(), 1);
    let plan = build(ResumeBoundary::Index(1)).expect("index boundary");
    assert_eq!(plan.by_index.len(), 2);
    let err = build(ResumeBoundary::Point("no-such-point".to_string())).unwrap_err();
    assert!(err.contains("Known points"), "{err}");
    assert!(err.contains("Bootstrap"), "{err}");
}

#[test]
fn old_format_keys_with_label_and_phase_migrate() {
    let old_key = r#"{"agent_type":null,"effort":null,"isolation":null,"label":"old-label","model":null,"phase":"Old Phase","prompt":"stable prompt","schema":null}"#;
    let mut journaled = entry(0, "stable prompt", Some("Old Phase"), Some("old-label"));
    journaled.key = old_key.to_string();
    let mut plan = ReplayPlan::build(&vec![journaled], ResumeMode::Exact, None).expect("plan builds");
    let mut same = call("stable prompt");
    same.index = 0;
    let new_key = journal_key(&same);
    assert!(
        plan.take(&same, &new_key).is_some(),
        "migrated key must match the new key format"
    );
    assert_eq!(migrate_journal_key(&new_key), new_key);
    assert_eq!(migrate_journal_key("not json"), "not json");
    let mut typed = call("stable prompt");
    typed.schema = Some(json("{\"type\":\"object\"}"));
    typed.model = Some("m".into());
    let typed_key = journal_key(&typed);
    assert_eq!(migrate_journal_key(&typed_key), typed_key);
}

#[test]
fn extracts_bare_fenced_and_embedded_json() {
    let schema = json("{\"type\":\"object\"}");
    assert_eq!(extract_schema_value("{\"a\":1}", &schema), Some(json("{\"a\":1}")));
    assert_eq!(
        extract_schema_value("Here you go:\n```json\n{\"a\": 1}\n```\nDone.", &schema),
        Some(json("{\"a\":1}"))
    );
    assert_eq!(
        extract_schema_value("The result is {\"a\": [1, 2]} as requested.", &schema),
        Some(json("{\"a\":[1,2]}"))
    );
    assert_eq!(extract_schema_value("no json here", &schema), None);
    assert_eq!(extract_schema_value("\n {\"a\":1}\t", &schema), Some(json("{\"a\":1}")));
}

#[test]
fn schema_shallow_type_check_applies() {
    assert_eq!(extract_schema_value("[1,2]", &json("{\"type\":\"object\"}")), None);
    assert_eq!(
        extract_schema_value("[1,2]", &json("{\"type\":\"array\"}")),
        Some(json("[1,2]"))
    );
    let prompt = prompt_with_output_contract("do it", &json("{\"type\":\"array\"}"));
    assert!(prompt.starts_with("do it"));
    assert!(prompt.contains("\"type\": \"array\""));
}

#[test]
fn failed_entries_never_replay() {
    let mut failed = entry(1, "bad", None, None);
    failed.ok = false;
    failed.error = Some("boom".into());
    let entries = vec![entry(0, "good", None, None), failed];
    let plan = ReplayPlan::build(&entries, ResumeMode::Positional, None).expect("plan builds");
    assert_eq!(plan.by_index.len(), 1, "failed entries never replay");
}

#[test]
fn progress_state_counts_and_tail() {
    let mut state = state();
    let agent = |index: u32, label: &str, status: AgentStatus, detail: Option<&str>| AgentProgressEntry {
        index,
        label: label.into(),
        phase: None,
        status,
        detail: detail.map(String::from),
    };
    state.upsert_agent(agent(0, "a", AgentStatus::Running, None));
    state.upsert_agent(agent(1, "b", AgentStatus::Done, None));
    state.upsert_agent(agent(0, "a", AgentStatus::Failed, Some("x")));
    assert_eq!(state.running, 0);
    assert_eq!(state.done, 1);
    assert_eq!(state.failed, 1);
    for i in 0..500 {
        state.push_line(format!("line {i}"));
    }
    assert!(state.log.len() <= 400);
    assert!(state.render_tail().contains("line 499"));
    assert_eq!(state.agents.len(), 2);
}

fn base() -> WorkflowToolInput {
    WorkflowToolInput {
        agent_budget: None,
        name: None,
        script: None,
        script_path: None,
        args: None,
        resume_from_run_id: None,
        resume_note: None,
        validate_only: false,
    }
}

#[test]
fn tagged_source_keeps_legacy_launch_and_escalation_compatibility() {
    let name = |n: &str| Some(WorkflowSource::Name { name: n.into() });
    let resume = || Some(WorkflowSource::Resume { resume_from_run_id: "wf_resume".into() });
    let named = WorkflowToolInput::from_wire(
        name("deep-research"),
        WorkflowToolInput { agent_budget: Some(32), ..base() },
    )
    .unwrap();
    assert_eq!(named.name.as_deref(), Some("deep-research"));
    let legacy = WorkflowToolInput::from_wire(
        None,
        WorkflowToolInput { name: Some("deep-research".into()), ..base() },
    )
    .unwrap();
    assert_eq!(legacy.name, named.name);
    let resumed = WorkflowToolInput::from_wire(
        resume(),
        WorkflowToolInput {
            resume_note: Some("The blocked dependency is available.".into()),
            ..base()
        },
    )
    .unwrap();
    assert_eq!(resumed.resume_from_run_id.as_deref(), Some("wf_resume"));
    assert!(resumed.resume_note.is_some());
    let script = Some("complete(1);".to_string());
    for (source, fields) in [
        (name("deep-research"), WorkflowToolInput { script: script.clone(), ..base() }),
        (name(""), base()),
        (resume(), WorkflowToolInput { args: Some(json("{}")), ..base() }),
        (resume(), WorkflowToolInput { validate_only: true, ..base() }),
        (None, WorkflowToolInput { name: Some("deep-research".into()), script, ..base() }),
    ] {
        assert!(WorkflowToolInput::from_wire(source, fields).is_err());
    }
}

#[test]
fn workflow_detection_includes_kindless_ids() {
    assert!(is_workflow_tool(None, "GrokBuild:workflow"));
    assert!(is_workflow_tool(Some(ToolKind::Workflow), "custom-name"));
    assert!(!is_workflow_tool(None, "workflow_other"));
}

#[test]
fn validation_requires_exactly_one_source_and_bounded_positive_budget() {
    assert!(base().validate().is_err());
    let named = WorkflowToolInput { name: Some("deep-research".into()), ..base() };
    assert!(named.validate().is_ok());
    let both = WorkflowToolInput {
        name: Some("goal".into()),
        script: Some("let meta = #{};".into()),
        ..base()
    };
    assert!(both.validate().is_err());
    let resume_only = WorkflowToolInput { resume_from_run_id: Some("wf_123".into()), ..base() };
    assert!(resume_only.validate().is_ok());
    let noted_resume = WorkflowToolInput {
        resume_from_run_id: Some("wf_123".into()),
        resume_note: Some("moved the fixture into place".into()),
        ..base()
    };
    assert!(noted_resume.validate().is_ok());
    let orphan_note = WorkflowToolInput {
        resume_note: Some("no run to deliver this to".into()),
        name: Some("deep-research".into()),
        ..base()
    };
    assert!(orphan_note.validate().is_err());
    let blank_note = WorkflowToolInput {
        resume_from_run_id: Some("wf_123".into()),
        resume_note: Some("   ".into()),
        ..base()
    };
    assert!(
        blank_note.validate().is_err(),
        "a blank note must be rejected, not silently downgraded to a noteless resume"
    );
    let smoke_checked_note = WorkflowToolInput {
        resume_from_run_id: Some("wf_123".into()),
        resume_note: Some("real answer".into()),
        validate_only: true,
        ..base()
    };
    assert!(smoke_checked_note.validate().is_err());
    let oversized_note = WorkflowToolInput {
        resume_from_run_id: Some("wf_123".into()),
        resume_note: Some("x".repeat(WorkflowToolInput::MAX_RESUME_NOTE_BYTES + 1)),
        ..base()
    };
    assert!(oversized_note.validate().is_err());
    let edited_resume = WorkflowToolInput {
        script_path: Some("edited.rhai".into()),
        resume_from_run_id: Some("wf_123".into()),
        ..base()
    };
    assert!(edited_resume.validate().is_err());
    assert!(WorkflowToolInput {
        agent_budget: Some(10),
        resume_from_run_id: Some("wf_123".into()),
        name: None,
        ..base()
    }
    .validate()
    .is_ok());
    let budget = |n: u64| WorkflowToolInput {
        agent_budget: Some(n),
        name: Some("deep-research".into()),
        ..base()
    };
    assert!(budget(0).validate().is_err());
    assert!(budget(WorkflowToolInput::MAX_AGENT_BUDGET + 1).validate().is_err());
    assert!(budget(1).validate().is_ok());
    assert!(WorkflowToolInput {
        agent_budget: Some(1),
        script: Some("let meta = #{};".into()),
        validate_only: true,
        ..base()
    }
    .validate()
    .is_ok());
}

#[test]
fn normalizing_twice_changes_nothing() {
    let mut input = WorkflowToolInput { name: Some("  goal ".into()), script: Some("  ".into()), ..base() };
    input.normalize();
    let once = format!("{input:?}");
    input.normalize();
    assert_eq!(format!("{input:?}"), once);
}

#[test]
fn launches_are_refused_or_answered() {
    let tool = WorkflowTool;
    let named = WorkflowToolInput { name: Some("goal".into()), ..base() };
    assert!(tool.prepare_launch(named.clone(), 0, true).is_ok());
    let code = |input: WorkflowToolInput, depth: u32, ready: bool| {
        tool.prepare_launch(input, depth, ready).unwrap_err().code
    };
    assert_eq!(code(named.clone(), 1, true), "workflow_depth_exceeded");
    assert_eq!(code(named, 0, false), "workflow_not_available");
    assert_eq!(code(base(), 0, true), "workflow_invalid_input");
    assert_eq!(tool.answer(LaunchEvent::ChannelClosed).unwrap_err().code, "workflow_channel_closed");
    assert!(tool.answer(LaunchEvent::NoAnswer).is_err());
    let ack = WorkflowLaunchAck::Started {
        run_id: "wf_1".into(),
        task_id: "t".into(),
        name: "goal".into(),
        script_path: None,
    };
    let out = tool.answer(LaunchEvent::Acknowledged(ack)).unwrap();
    assert_eq!(out.run_id, "wf_1");
    assert_eq!(tool.metadata().kind, ToolKind::Workflow);
}
