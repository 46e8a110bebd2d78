use grok_tools::coordinator::types::{ModelVerdict, SubagentValidateTypeOutcome};
use grok_tools::swarm::pacing::{
    swarm_rate_limit_backoff, AdaptiveCapacity, RateLimitGate, RATE_LIMIT_RECOVERY_QUIET_PERIOD_MS,
    RATE_LIMIT_SHRINK_INTERVAL_MS,
};
use grok_tools::swarm::plan::{
    initial_launch_count, parse_positive_value, subagent_timeout, swarm_concurrency,
    validate_and_plan, AgentSwarmToolInput, MemberMode, PlannedMember,
};
use grok_tools::swarm::render::{
    member_verdict, render_xml, xml_escape, MemberEvent, MemberOutcome, MemberResult, MemberState,
};
use grok_tools::swarm::scheduler::{SwarmAction, SwarmEvent, SwarmScheduler};
use grok_tools::swarm::tool::{
    build_member_request, AgentSwarmTool, SwarmRequestContext, SwarmSettings, SwarmWaitTool,
    SwarmWaitToolInput, WaitEvent, WaitSigns,
};
use grok_tools::tool::ToolErrorKind;

fn input(
    items: Option<Vec<&str>>,
    resumes: Option<Vec<(&str, &str)>>,
    template: Option<&str>,
) -> AgentSwarmToolInput {
    AgentSwarmToolInput {
        description: "work".into(),
        subagent_type: "general-purpose".into(),
        model: None,
        prompt_template: template.map(str::to_string),
        items: items.map(|items| items.into_iter().map(str::to_string).collect()),
        resume_agent_ids: resumes.map(|entries| {
            entries
                .into_iter()
                .map(|(id, prompt)| (id.to_string(), prompt.to_string()))
                .collect()
        }),
    }
}

fn placeholders() -> Vec<String> {
    vec!["null".to_string(), "none".to_string()]
}

fn context() -> SwarmRequestContext {
    SwarmRequestContext {
        swarm_id: "call-id".to_string(),
        description: "description".to_string(),
        subagent_type: "general-purpose".to_string(),
        parent_session_id: "parent".to_string(),
        parent_prompt_id: Some("turn".to_string()),
        model: None,
    }
}

fn result_for(index: u32, agent_id: &str) -> MemberResult {
    MemberResult {
        index,
        item: Some(index.to_string()),
        agent_id: agent_id.to_string(),
        outcome: MemberOutcome::Completed,
        state: MemberState::Started,
        mode: MemberMode::New,
        body: "ok".to_string(),
    }
}

#[test]
fn validation_requires_two_items_without_resume() {
    let one = input(Some(vec!["a"]), None, Some("{{item}}"));
    assert!(validate_and_plan(&one, &placeholders()).is_err());
}

#[test]
fn validation_uses_ordered_resume_prompt_mapping_exactly() {
    let plan = validate_and_plan(
        &input(
            Some(vec!["a", "b"]),
            Some(vec![(" old ", "  exact resume prompt  "), ("next", "p2")]),
            Some("do {{item}}"),
        ),
        &placeholders(),
    )
    .unwrap();
    assert_eq!(plan[0].resume_from.as_deref(), Some("old"));
    assert_eq!(plan[0].prompt, "  exact resume prompt  ");
    assert_eq!(plan[1].prompt, "p2");
    assert_eq!(plan[2].item.as_deref(), Some("a"));
    assert_eq!(plan[0].mode, MemberMode::Resume);
    assert_eq!(plan[3].prompt, "do b");
    for (i, member) in plan.iter().enumerate() {
        assert_eq!(member.index as usize, i);
    }
}

#[test]
fn validation_rejects_missing_template_duplicate_expansion_and_empty_resume_id() {
    let p = placeholders();
    assert!(validate_and_plan(&input(Some(vec!["a", "b"]), None, None), &p).is_err());
    assert!(validate_and_plan(&input(Some(vec!["a", "a"]), None, Some("{{item}}")), &p).is_err());
    assert!(validate_and_plan(&input(None, Some(vec![(" ", "prompt")]), None), &p).is_err());
    let err = validate_and_plan(&input(Some(vec!["a", "b"]), None, Some("no slot")), &p).unwrap_err();
    assert_eq!(err, "prompt_template must contain literal {{item}} when items is supplied");
    let err = validate_and_plan(&input(None, Some(vec![("none", "p")]), None), &p).unwrap_err();
    assert_eq!(err, "resume_agent_ids must not contain empty or placeholder agent IDs");
    let many: Vec<String> = (0..129).map(|i| i.to_string()).collect();
    let many: Vec<&str> = many.iter().map(|s| s.as_str()).collect();
    let err = validate_and_plan(&input(Some(many), None, Some("{{item}}")), &p).unwrap_err();
    assert_eq!(err, "agent_swarm supports at most 128 total members");
}

#[test]
fn positive_cap_parser_rejects_invalid_nonempty_values() {
    assert_eq!(parse_positive_value("CAP", "3").unwrap(), Some(3));
    assert_eq!(parse_positive_value("CAP", " ").unwrap(), None);
    assert!(parse_positive_value("CAP", "0").is_err());
    assert!(parse_positive_value("CAP", "bad").is_err());
}

#[test]
fn settings_fall_back_and_report_what_is_wrong() {
    assert_eq!(swarm_concurrency(None, None), Ok(None));
    assert_eq!(swarm_concurrency(Some("2"), Some("7")), Ok(Some(2)));
    assert_eq!(swarm_concurrency(Some(" "), Some("7")), Ok(Some(7)));
    assert!(swarm_concurrency(Some("2"), Some("x")).is_err());
    assert_eq!(subagent_timeout(None), Ok(Some(7_200_000)));
    assert_eq!(subagent_timeout(Some("  ")), Ok(Some(7_200_000)));
    assert_eq!(subagent_timeout(Some("0")), Ok(None));
    assert_eq!(subagent_timeout(Some(" 15 ")), Ok(Some(15)));
    assert_eq!(
        subagent_timeout(Some("-1")),
        Err("OPENGROK_SUBAGENT_TIMEOUT_MS must be a non-negative integer when set".to_string())
    );
}

#[test]
fn initial_launches_respect_cap_and_uncapped_burst() {
    assert_eq!(initial_launch_count(128, None), 5);
    assert_eq!(initial_launch_count(128, Some(2)), 2);
    assert_eq!(initial_launch_count(128, Some(99)), 5);
}

#[test]
fn rate_limit_backoff_is_three_six_twelve_twenty_four_seconds() {
    assert_eq!(swarm_rate_limit_backoff(1), 3_000);
    assert_eq!(swarm_rate_limit_backoff(2), 6_000);
    assert_eq!(swarm_rate_limit_backoff(3), 12_000);
    assert_eq!(swarm_rate_limit_backoff(4), 24_000);
}

#[test]
fn ready_attempt_resets_global_retry_interval() {
    let start = 1_000_000u128;
    let mut gate = RateLimitGate::new(start);
    gate.note_rate_limit(start);
    assert_eq!(gate.launch_deadline(start), start + 3_000);
    gate.note_launch(start + 3_000);
    assert_eq!(gate.launch_deadline(start), start + 9_000);
    gate.note_ready();
    assert_eq!(gate.launch_deadline(start), start + 6_000);
}

#[test]
fn tool_description_pins_swarm_workflow_and_flat_tree() {
    let description = AgentSwarmTool.metadata().description;
    assert!(description.contains("literal {{item}}"));
    assert!(description.contains("capped at 128"));
    assert!(description.contains("only tool call"));
    assert!(description.contains("Keep the tree flat"));
}

#[test]
fn adaptive_capacity_shrinks_at_most_every_two_seconds_and_recovers_once() {
    let start = 5_000_000u128;
    let mut capacity = AdaptiveCapacity::new(20, None);
    capacity.note_rate_limit(start, 5);
    assert_eq!(capacity.current(), 4);
    capacity.note_rate_limit(start + 1_000, 5);
    assert_eq!(capacity.current(), 4);
    let second_shrink = start + RATE_LIMIT_SHRINK_INTERVAL_MS as u128;
    let quiet = RATE_LIMIT_RECOVERY_QUIET_PERIOD_MS as u128;
    capacity.note_rate_limit(second_shrink, 5);
    assert_eq!(capacity.current(), 3);
    assert!(!capacity.recover_if_due(second_shrink + quiet - 1));
    assert!(capacity.recover_if_due(second_shrink + quiet));
    assert_eq!(capacity.current(), 4);
    assert!(!capacity.recover_if_due(second_shrink + quiet * 2));
}

#[test]
fn request_carries_foreground_swarm_metadata() {
    let request = build_member_request(
        PlannedMember {
            index: 3,
            item: Some("item".to_string()),
            prompt: "prompt".to_string(),
            resume_from: Some("resume".to_string()),
            mode: MemberMode::Resume,
        },
        context(),
        7,
        "child".to_string(),
        None,
    );
    let swarm = request.swarm.expect("swarm metadata");
    assert_eq!(swarm.swarm_id, "call-id");
    assert_eq!(swarm.index, 3);
    assert_eq!(swarm.expected_members, 7);
    assert!(swarm.status_tx.is_none());
    assert_eq!(request.request.resume_from.as_deref(), Some("resume"));
    assert!(!request.request.run_in_background);
    assert!(!request.request.surface_completion);
}

#[test]
fn model_override_applies_to_new_members_only() {
    let with_model = SwarmRequestContext { model: Some("glm-5.2-fast".to_string()), ..context() };
    let new_member = build_member_request(
        PlannedMember {
            index: 0,
            item: Some("item".to_string()),
            prompt: "prompt".to_string(),
            resume_from: None,
            mode: MemberMode::New,
        },
        with_model.clone(),
        2,
        "child-new".to_string(),
        None,
    );
    assert_eq!(new_member.model.as_deref(), Some("glm-5.2-fast"));
    let resumed_member = build_member_request(
        PlannedMember {
            index: 1,
            item: None,
            prompt: "continue".to_string(),
            resume_from: Some("resume".to_string()),
            mode: MemberMode::Resume,
        },
        with_model,
        2,
        "child-resume".to_string(),
        None,
    );
    assert!(resumed_member.model.is_none(), "resumed members keep their prior model");
}

#[test]
fn xml_is_ordered_escaped_and_only_hints_incomplete_members() {
    let xml = render_xml(&[
        MemberResult {
            index: 0,
            item: None,
            agent_id: "resume&".into(),
            outcome: MemberOutcome::Failed,
            state: MemberState::Started,
            mode: MemberMode::Resume,
            body: "<failure>".into(),
        },
        MemberResult {
            index: 1,
            item: Some("<item>".into()),
            agent_id: "done".into(),
            outcome: MemberOutcome::Completed,
            state: MemberState::Started,
            mode: MemberMode::New,
            body: "<&>".into(),
        },
    ]);
    assert!(xml.starts_with("<agent_swarm_result>"));
    assert!(xml.contains("<summary>completed=1 failed=1 aborted=0</summary>"));
    assert!(xml.contains(
        "<resume_hint>Call agent_swarm with resume_agent_ids mapping unfinished agent_id values to continuation prompts.</resume_hint>"
    ));
    assert!(xml
        .contains("agent_id=\"resume&amp;\" outcome=\"failed\" state=\"started\" mode=\"resume\""));
    assert!(xml.contains("item=\"&lt;item&gt;\""));
    assert!(xml.contains("&lt;&amp;&gt;"));
    assert!(xml.find("resume&amp;").unwrap() < xml.find("agent_id=\"done\"").unwrap());
    assert!(!xml.contains("<output>"));
    let complete = render_xml(&[MemberResult {
        index: 0,
        item: None,
        agent_id: "done".into(),
        outcome: MemberOutcome::Completed,
        state: MemberState::Started,
        mode: MemberMode::New,
        body: "ok".into(),
    }]);
    assert!(!complete.contains("resume_hint"));
}

#[test]
fn escaping_leaves_no_markup() {
    assert_eq!(xml_escape("a<b>&\"'"), "a&lt;b&gt;&amp;&quot;&apos;");
}

#[test]
fn ended_members_keep_their_place_and_say_why() {
    let member = PlannedMember {
        index: 4,
        item: Some("x".to_string()),
        prompt: "p".to_string(),
        resume_from: None,
        mode: MemberMode::New,
    };
    let late = member_verdict(&member, "agent", MemberEvent::TimedOut);
    assert_eq!((late.index, late.outcome, late.body.as_str()), (4, MemberOutcome::Failed, "subagent timed out"));
    let broken = member_verdict(&member, "agent", MemberEvent::Failed { error: "boom".to_string() });
    assert_eq!(broken.body, "boom");
    assert_eq!(broken.agent_id, "agent");
}

fn started(total: usize, cap: Option<usize>) -> (SwarmScheduler, Vec<String>) {
    let mut scheduler = SwarmScheduler::new(total, cap, 0);
    let mut ids = Vec::new();
    for action in scheduler.start(cap, 0) {
        match action {
            SwarmAction::Launch { agent_id, .. } => ids.push(agent_id),
            _ => panic!("only launches come first"),
        }
    }
    (scheduler, ids)
}

fn finish(scheduler: &mut SwarmScheduler, index: u32, agent_id: &str, now: u128) {
    let event = SwarmEvent::MemberDone {
        agent_id: agent_id.to_string(),
        result: result_for(index, agent_id),
    };
    assert!(matches!(scheduler.handle(event, now), SwarmAction::Nothing));
}

#[test]
fn scheduler_initial_burst_and_sixth_launch_are_ramped() {
    let (mut scheduler, ids) = started(6, None);
    assert_eq!(ids.len(), 5);
    assert_eq!(scheduler.wait(0).launch_at, Some(700));
    assert!(matches!(scheduler.handle(SwarmEvent::LaunchDue, 699), SwarmAction::Nothing));
    assert!(matches!(
        scheduler.handle(SwarmEvent::LaunchDue, 700),
        SwarmAction::Launch { index: 5, .. }
    ));
}

#[test]
fn scheduler_honors_configured_active_cap() {
    let (mut scheduler, ids) = started(7, Some(2));
    assert_eq!(ids.len(), 2);
    assert_eq!(scheduler.wait(10_000).launch_at, None);
    assert!(matches!(scheduler.handle(SwarmEvent::LaunchDue, 10_000), SwarmAction::Nothing));
    finish(&mut scheduler, 0, &ids[0], 10_000);
    assert!(matches!(
        scheduler.handle(SwarmEvent::LaunchDue, 10_000),
        SwarmAction::Launch { index: 2, .. }
    ));
}

#[test]
fn scheduler_retries_same_agent_before_launching_new_work() {
    let (mut scheduler, ids) = started(6, None);
    let limited = SwarmEvent::RateLimitWaiting { subagent_id: ids[0].clone(), attempt: 1, reply: 9 };
    assert!(matches!(scheduler.handle(limited, 0), SwarmAction::Nothing));
    assert_eq!(scheduler.wait(0).launch_at, None);
    for (i, id) in ids.iter().enumerate().skip(1) {
        finish(&mut scheduler, i as u32, id, 1);
    }
    assert_eq!(scheduler.wait(1).rate_limited_launch_at, Some(3_000));
    let due = SwarmEvent::RateLimitedLaunchDue;
    assert!(matches!(scheduler.handle(due, 2_999), SwarmAction::Nothing));
    match scheduler.handle(SwarmEvent::RateLimitedLaunchDue, 3_000) {
        SwarmAction::Retry { subagent_id, reply } => {
            assert_eq!(subagent_id, ids[0]);
            assert_eq!(reply, 9);
        }
        other => panic!("expected a retry, got {other:?}"),
    }
    scheduler.handle(SwarmEvent::ProviderRequestStarted { subagent_id: ids[0].clone() }, 3_000);
    assert_eq!(scheduler.wait(3_000).rate_limited_launch_at, None);
    finish(&mut scheduler, 0, &ids[0], 3_001);
    assert!(matches!(
        scheduler.handle(SwarmEvent::RateLimitedLaunchDue, 5_999),
        SwarmAction::Nothing
    ));
    assert!(matches!(
        scheduler.handle(SwarmEvent::RateLimitedLaunchDue, 6_000),
        SwarmAction::Launch { index: 5, .. }
    ));
}

#[test]
fn scheduler_starts_only_one_rate_phase_task_per_global_gate() {
    let (mut scheduler, ids) = started(6, None);
    for (i, id) in ids.iter().take(2).enumerate() {
        let event = SwarmEvent::RateLimitWaiting {
            subagent_id: id.clone(),
            attempt: 1,
            reply: i as u64,
        };
        scheduler.handle(event, 0);
    }
    for (i, id) in ids.iter().enumerate().skip(2) {
        finish(&mut scheduler, i as u32, id, 1);
    }
    let first = scheduler.wait(1).rate_limited_launch_at.unwrap();
    assert!(matches!(
        scheduler.handle(SwarmEvent::RateLimitedLaunchDue, first),
        SwarmAction::Retry { reply: 1, .. }
    ));
    assert!(matches!(
        scheduler.handle(SwarmEvent::RateLimitedLaunchDue, first),
        SwarmAction::Nothing
    ));
    assert_eq!(scheduler.wait(first).rate_limited_launch_at, None);
    finish(&mut scheduler, 1, &ids[1], first);
    let second = scheduler.wait(first).rate_limited_launch_at.unwrap();
    assert!(second > first);
    assert!(matches!(
        scheduler.handle(SwarmEvent::RateLimitedLaunchDue, second),
        SwarmAction::Retry { reply: 0, .. }
    ));
}

#[test]
fn scheduler_fails_the_only_unfinished_rate_limited_member() {
    let (mut scheduler, ids) = started(1, None);
    let event = SwarmEvent::RateLimitWaiting { subagent_id: ids[0].clone(), attempt: 1, reply: 4 };
    assert!(matches!(scheduler.handle(event, 0), SwarmAction::Fail { reply: 4 }));
}

#[test]
fn scheduler_drains_pending_work_after_active_set_empties() {
    let (mut scheduler, ids) = started(6, None);
    for (i, id) in ids.iter().enumerate() {
        finish(&mut scheduler, i as u32, id, 1);
    }
    assert!(!scheduler.is_done());
    let last = match scheduler.handle(SwarmEvent::LaunchDue, 700) {
        SwarmAction::Launch { agent_id, .. } => agent_id,
        other => panic!("expected a launch, got {other:?}"),
    };
    finish(&mut scheduler, 5, &last, 800);
    assert!(scheduler.is_done());
    let results = scheduler.results();
    assert_eq!(results.len(), 6);
    for (i, r) in results.iter().enumerate() {
        assert_eq!(r.index as usize, i);
    }
}

#[test]
fn scheduler_recovers_capacity_after_a_quiet_period() {
    let (mut scheduler, ids) = started(8, None);
    for id in ids.iter() {
        scheduler.handle(SwarmEvent::ProviderRequestStarted { subagent_id: id.clone() }, 0);
    }
    let event = SwarmEvent::RateLimitWaiting { subagent_id: ids[0].clone(), attempt: 1, reply: 1 };
    scheduler.handle(event, 1_000);
    let before = scheduler.capacity.current();
    let at = scheduler.wait(1_000).recovery_at.unwrap();
    assert_eq!(at, 181_000);
    scheduler.handle(SwarmEvent::RecoveryDue, at);
    assert_eq!(scheduler.capacity.current(), before + 1);
}

fn settings<'a>() -> SwarmSettings<'a> {
    SwarmSettings { max_concurrency: None, fallback_max_concurrency: None, timeout_ms: None }
}

#[test]
fn swarms_are_refused_before_any_member_starts() {
    let tool = AgentSwarmTool;
    let good = input(Some(vec!["a", "b"]), None, Some("{{item}}"));
    let p = placeholders();
    let plan = tool.prepare(&good, &p, settings(), true, 0, 1).unwrap();
    assert_eq!(plan.members.len(), 2);
    assert_eq!(plan.concurrency_cap, None);
    assert_eq!(plan.timeout_ms, Some(7_200_000));
    let err = tool.prepare(&good, &p, settings(), false, 0, 1).unwrap_err();
    assert_eq!(err.code, "missing_resource");
    let err = tool.prepare(&good, &p, settings(), true, 1, 1).unwrap_err();
    assert_eq!(
        err.message,
        "Subagent depth limit exceeded (current depth: 1, max: 1). Cannot spawn further nested subagents."
    );
    let bad = SwarmSettings { max_concurrency: Some("0"), ..settings() };
    let err = tool.prepare(&good, &p, bad, true, 0, 1).unwrap_err();
    assert_eq!(err.kind, ToolErrorKind::InvalidArguments);
    let bad = SwarmSettings { timeout_ms: Some("soon"), ..settings() };
    assert!(tool.prepare(&good, &p, bad, true, 0, 1).is_err());
}

#[test]
fn agent_types_and_models_are_judged_in_order() {
    let tool = AgentSwarmTool;
    let good = input(Some(vec!["a", "b"]), None, Some("{{item}}"));
    let plan = tool.prepare(&good, &placeholders(), settings(), true, 0, 1).unwrap();
    let known = SubagentValidateTypeOutcome::Known;
    assert!(tool.judge(&plan, "t", known, &None, ModelVerdict::NoValidator).is_ok());
    let unknown = SubagentValidateTypeOutcome::Unknown { available: vec!["x".into(), "y".into()] };
    let err = tool.judge(&plan, "t", unknown, &None, ModelVerdict::Accepted).unwrap_err();
    assert_eq!(err.message, "Unknown subagent type: t. Available types: x, y");
    let unknown = SubagentValidateTypeOutcome::Unknown { available: vec![] };
    let err = tool.judge(&plan, "t", unknown, &None, ModelVerdict::Accepted).unwrap_err();
    assert_eq!(err.message, "Unknown subagent type: t");
    let off = SubagentValidateTypeOutcome::Disabled;
    let err = tool.judge(&plan, "t", off, &None, ModelVerdict::Accepted).unwrap_err();
    assert_eq!(err.message, "Subagent 't' is disabled");
    let only = SubagentValidateTypeOutcome::NotAllowed { allowed: vec!["a".into()] };
    let err = tool.judge(&plan, "t", only, &None, ModelVerdict::Accepted).unwrap_err();
    assert_eq!(err.message, "agent can only spawn: a; 't' not allowed");
    let gone = SubagentValidateTypeOutcome::ValidationUnavailable;
    let err = tool.judge(&plan, "t", gone, &None, ModelVerdict::Accepted).unwrap_err();
    assert_eq!(err.code, "validation_unavailable");
    let model = Some("m".to_string());
    let known = SubagentValidateTypeOutcome::Known;
    let err = tool.judge(&plan, "t", known, &model, ModelVerdict::NoValidator).unwrap_err();
    assert_eq!(err.code, "validation_unavailable");
    let known = SubagentValidateTypeOutcome::Known;
    let err = tool.judge(&plan, "t", known, &model, ModelVerdict::Rejected("no".into())).unwrap_err();
    assert_eq!(err.message, "no");
    let resumes = input(None, Some(vec![("old", "continue")]), None);
    let plan = tool.prepare(&resumes, &placeholders(), settings(), true, 0, 1).unwrap();
    assert!(!tool.asks_type(&plan));
    let off = SubagentValidateTypeOutcome::Disabled;
    assert!(tool.judge(&plan, "t", off, &None, ModelVerdict::Accepted).is_ok());
}

#[test]
fn tool_id_and_description_pin_rejoin_contract() {
    let m = SwarmWaitTool.metadata();
    assert_eq!(m.id, "swarm_wait");
    assert!(m.description.contains("detached"));
    assert!(m.description.contains("timeout_ms"));
}

#[test]
fn waits_end_as_their_signs_say() {
    let tool = SwarmWaitTool;
    let wait = |t| tool.wait_ms(&SwarmWaitToolInput { swarm_id: None, timeout_ms: t });
    assert_eq!(wait(None), 600_000);
    assert_eq!(wait(Some(0)), 0);
    assert_eq!(wait(Some(u64::MAX)), 7_200_000);
    let all = WaitSigns { finished: true, cancelled: true, steered: true, timed_out: true };
    assert_eq!(tool.next_event(true, all), Some(WaitEvent::Finished));
    assert_eq!(tool.next_event(false, all), Some(WaitEvent::Cancelled));
    let no = WaitSigns { finished: false, cancelled: false, steered: false, timed_out: false };
    assert_eq!(tool.next_event(false, WaitSigns { steered: true, finished: true, ..no }), Some(WaitEvent::Steered));
    assert_eq!(tool.next_event(false, WaitSigns { finished: true, timed_out: true, ..no }), Some(WaitEvent::Finished));
    assert_eq!(tool.next_event(false, WaitSigns { timed_out: true, ..no }), Some(WaitEvent::TimedOut));
    assert_eq!(tool.next_event(false, no), None);
    let end = tool.settle(WaitEvent::Finished, Some(vec![result_for(0, "a")]), "snap");
    assert!(end.forgets_swarm && !end.cancels_swarm);
    assert!(end.answer.unwrap().starts_with("<agent_swarm_result>"));
    let end = tool.settle(WaitEvent::Finished, None, "snap");
    assert_eq!(end.answer.unwrap_err().code, "incomplete_swarm");
    let end = tool.settle(WaitEvent::Cancelled, None, "snap");
    assert!(end.cancels_swarm);
    assert_eq!(end.answer.unwrap_err().code, "cancelled");
    let end = tool.settle(WaitEvent::Steered, None, "snap");
    assert_eq!(end.answer.unwrap(), "snap");
    let end = tool.settle(WaitEvent::TimedOut, None, "snap");
    assert_eq!(end.answer.unwrap(), "snap");
    assert_eq!(tool.resolve(true, Ok("s".into())).unwrap(), "s");
    assert_eq!(tool.resolve(false, Ok("s".into())).unwrap_err().code, "missing_resource");
    assert_eq!(tool.resolve(true, Err("two".into())).unwrap_err().message, "two");
}

#[test]
fn a_member_that_waits_frees_one_place() {
    let (mut scheduler, ids) = started(6, Some(4));
    assert_eq!(scheduler.capacity.ceiling, 4);
    assert_eq!(scheduler.active.len(), 4);
    assert!(ids.iter().all(|id| id.len() == 36));
    for reply in [1, 2] {
        let event = SwarmEvent::RateLimitWaiting { subagent_id: ids[0].clone(), attempt: 1, reply };
        scheduler.handle(event, 1);
    }
    assert_eq!(scheduler.waiting, vec![ids[0].clone()]);
    assert_eq!(scheduler.pending_retries.len(), 1);
    for _ in 0..2 {
        scheduler.handle(SwarmEvent::ProviderRequestStarted { subagent_id: ids[1].clone() }, 2);
    }
    assert_eq!(scheduler.ready_launches, vec![ids[1].clone()]);
}
