use grok_tools::mission::discovery::{
    discover_all_missions, discover_missions_for_workspace, factory_droid_missions_dir,
    find_mission, opengrok_missions_dir, opengrok_missions_dirs, summarize_mission, MissionSource,
};
use grok_tools::mission::runner::{step_log_entry, step_result, MissionRunStepResult, MissionRunner, MissionStep};
use grok_tools::mission::storage::{default_skills, latest_completion, MissionFileService};
use grok_tools::mission::tools::{
    resolve_mission_dir, DismissHandoffItemsTool, DismissItemInput, EndEvent, EndFeatureRunInput,
    EndFeatureRunTool, InspectMissionReadinessTool, ProposeMissionInput, ProposeMissionTool,
    RecordEvent, RunEvent, StartMissionRunTool,
};
use grok_tools::mission::types::{
    Feature, FeatureStatus, FeaturesFile, MissionModelSettings, MissionState, MissionStateFile,
    ProgressLogEntry, WorkerHandoff, WorkerSuccessState,
};
use grok_tools::text::split_entries;

fn feature(id: &str, status: FeatureStatus) -> Feature {
    Feature {
        id: id.to_string(),
        description: format!("Feature {id}"),
        skill_name: "foundation-worker".to_string(),
        preconditions: vec![],
        expected_behavior: vec![],
        fulfills: vec![],
        milestone: "m1".to_string(),
        status,
        worker_session_ids: vec![],
        current_worker_session_id: None,
        completed_worker_session_id: None,
    }
}

fn state(s: MissionState) -> MissionStateFile {
    MissionStateFile {
        mission_id: "mis_test".to_string(),
        state: s,
        working_directory: "/tmp".to_string(),
        created_at: "2026-09-02T12:00:00Z".to_string(),
        updated_at: "2026-09-02T12:00:00Z".to_string(),
        initial_feature_count: None,
        last_reviewed_handoff_count: None,
        feature_retry_budget_bonus: vec![],
    }
}

fn handoff() -> WorkerHandoff {
    WorkerHandoff {
        salient_summary: "Completed alpha feature successfully".to_string(),
        what_was_implemented: "Created core components".to_string(),
        what_was_left_undone: String::new(),
        verification: Default::default(),
        tests: Default::default(),
        discovered_issues: vec![],
        skill_feedback: None,
    }
}

const NOW: &str = "2026-09-02T13:00:00Z";

#[test]
fn test_runner_flow_and_preemption() {
    let runner = MissionRunner::new("/m");
    let settings = MissionModelSettings::default();
    let mut st = state(MissionState::AwaitingInput);
    let mut file = FeaturesFile { features: vec![feature("feature-1", FeatureStatus::Pending)] };
    runner.prepare_run(&mut st, &file, NOW);
    match runner.advance(&mut st, &mut file, &settings, NOW) {
        MissionStep::Worker { feature } => assert_eq!(feature.id, "feature-1"),
        other => panic!("Expected a worker, got {other:?}"),
    }
    runner.storage().insert_feature_at_top(&mut file, feature("feature-0", FeatureStatus::Pending));
    match runner.advance(&mut st, &mut file, &settings, NOW) {
        MissionStep::Worker { feature } => assert_eq!(feature.id, "feature-0"),
        other => panic!("Expected the preempting feature-0, got {other:?}"),
    }
    let running = file.features.iter().filter(|f| f.status == FeatureStatus::InProgress).count();
    assert_eq!(running, 1);
}

#[test]
fn test_mission_tools_lifecycle() {
    let runner = MissionRunner::new("/m");
    let settings = MissionModelSettings::default();
    let st = state(MissionState::AwaitingInput);
    let mut alpha = feature("feature-alpha", FeatureStatus::Pending);
    alpha.description = "Implement alpha feature".to_string();
    alpha.preconditions = vec!["Hermetic environment".to_string()];
    alpha.expected_behavior = vec!["Passes cargo check".to_string()];
    alpha.fulfills = vec!["VAL-001".to_string()];
    let file = FeaturesFile { features: vec![alpha] };
    let readiness = InspectMissionReadinessTool.inspect(&Ok(st.clone()), &Ok(file.clone()), &vec![true]);
    assert!(readiness.ready);
    assert_eq!(readiness.total_features, 1);
    let blocked = InspectMissionReadinessTool.inspect(&Ok(st.clone()), &Ok(file.clone()), &vec![false]);
    assert!(blocked.ready, "a missing skill is a warning");
    assert!(blocked.checks.iter().any(|c| !c.passed));
    let unread = InspectMissionReadinessTool.inspect(&Err("io".to_string()), &Ok(file.clone()), &vec![true]);
    assert!(!unread.ready);
    assert_eq!(blocked.missing_skills, vec!["foundation-worker".to_string()]);

    let (mut st, mut file) = (st, file);
    runner.prepare_run(&mut st, &file, NOW);
    let step = runner.advance(&mut st, &mut file, &settings, NOW);
    assert!(step_log_entry(&step, NOW).is_none());
    let grown = MissionStep::ScopeReviewRequired { initial_count: 1, current_count: 9 };
    assert!(step_log_entry(&grown, NOW).is_some());
    let ready = step_result(step, Some("arch".into()), None, None);
    let message = Some("Be careful with invariants".to_string());
    let run = StartMissionRunTool.run(RunEvent::Stepped(ready), &message).unwrap();
    assert!(run.success);
    assert_eq!(run.status, "worker_ready");
    assert_eq!(run.active_feature_id, Some("feature-alpha".to_string()));
    let prompt = run.worker_prompt.unwrap();
    assert!(prompt.contains("Be careful with invariants"));
    assert!(prompt.contains("feature-alpha"));
    assert!(prompt.contains("## Preconditions\n- Hermetic environment\n"));
    assert!(prompt.contains("- Passes cargo check\n"));
    assert!(prompt.contains("## Fulfills Assertions\n- VAL-001\n"));

    let input = EndFeatureRunInput {
        feature_id: "feature-alpha".to_string(),
        success_state: "success".to_string(),
        return_to_orchestrator: Some(false),
        commit_id: Some("commit123".to_string()),
        exit_code: Some(0),
        handoff: handoff(),
        mission_id: None,
    };
    let outcome = EndFeatureRunTool.success_state(&input);
    assert_eq!(outcome, WorkerSuccessState::Success);
    let step = runner
        .handle_worker_completion(&mut st, &mut file, &settings, "w1", "feature-alpha", outcome, false, NOW)
        .unwrap();
    assert_eq!(file.features[0].status, FeatureStatus::Completed);
    let event = EndEvent::Stepped(step_result(step, None, None, None));
    let end = EndFeatureRunTool.run(event, "feature-alpha").unwrap();
    assert!(end.success);
    assert_eq!(end.next_action, "next_worker_ready", "the validators are due");
    assert_eq!(st.state, MissionState::Running);

    let items = vec![DismissItemInput {
        item_type: "discovered_issue".to_string(),
        source_feature_id: "feature-alpha".to_string(),
        summary: "Minor whitespace discrepancy".to_string(),
        justification: "Not a functional issue".to_string(),
    }];
    let (entry, dismissed) = DismissHandoffItemsTool.dismiss(&items, NOW);
    assert!(matches!(entry, ProgressLogEntry::HandoffItemsDismissed { dismissals, .. }
        if dismissals[0].summary == "Minor whitespace discrepancy"));
    let dismissed = DismissHandoffItemsTool.run(dismissed, RecordEvent::Recorded).unwrap();
    assert!(dismissed.success);
    assert_eq!(dismissed.dismissed_count, 1);
}

#[test]
fn milestones_get_their_validators_once() {
    let service = MissionFileService::new("/m");
    let mut file = FeaturesFile { features: vec![feature("a", FeatureStatus::Completed)] };
    let settings = MissionModelSettings::default();
    assert!(service.is_milestone_implementation_complete(&file, "m1"));
    assert!(service.check_and_inject_milestone_validation(&mut file, "m1", &settings));
    assert_eq!(file.features.len(), 3);
    assert!(!service.check_and_inject_milestone_validation(&mut file, "m1", &settings));
    assert_eq!(file.features.len(), 3);
    let skills: Vec<&str> = file.features.iter().map(|f| f.skill_name.as_str()).collect();
    assert!(skills.contains(&"scrutiny-validator"));
    assert!(skills.contains(&"user-testing-validator"));
}

#[test]
fn done_features_move_to_the_bottom_and_none_is_lost() {
    let service = MissionFileService::new("/m");
    let mut file = FeaturesFile {
        features: vec![feature("done", FeatureStatus::Completed), feature("next", FeatureStatus::Pending)],
    };
    service.move_stranded_done_features_to_bottom(&mut file);
    let ids: Vec<&str> = file.features.iter().map(|f| f.id.as_str()).collect();
    assert_eq!(ids, ["next", "done"]);
    assert_eq!(service.get_next_pending_feature(&file).unwrap().id, "next");
    assert!(service.get_in_progress_feature(&file).is_none());
    assert!(!service.are_all_features_completed(&file));
}

#[test]
fn files_have_their_places() {
    let service = MissionFileService::new("/m");
    assert_eq!(service.state_path(), "/m/state.json");
    assert_eq!(service.skill_path("s"), "/m/skills/s/SKILL.md");
    assert!(service.mission_exists(false, true));
    assert!(!service.mission_exists(false, false));
    let md = service.mission_md("Title", "Body");
    assert_eq!(service.mission_title(&md).as_deref(), Some("Title"));
    let skills = default_skills();
    assert_eq!(skills[0].0, "foundation-worker");
    assert!(skills[1].1.contains("# Refactoring Playbook"));
    assert_eq!(
        split_entries("\n {\"a\":1} \n\nx\r\n"),
        vec![(2, "{\"a\":1}".to_string()), (4, "x".to_string())]
    );
}

#[test]
fn missions_are_found_and_sorted() {
    let summary = |id: &str, title: &str| {
        summarize_mission(
            id,
            MissionSource::OpenGrok,
            &format!("/missions/{id}"),
            Some(&state(MissionState::Running)),
            Some(title.to_string()),
            None,
            Some(&FeaturesFile { features: vec![feature("a", FeatureStatus::Completed)] }),
        )
    };
    let all = discover_all_missions(vec![summary("b", "Beta")], vec![summary("a", "Alpha plan")]);
    assert_eq!(all.len(), 2);
    assert_eq!(all[0].completed_features, 1);
    let hit = find_mission(&all, "alpha").unwrap();
    assert_eq!(all[hit].id, "a");
    let hit = find_mission(&all, "b").unwrap();
    assert_eq!(all[hit].id, "b");
    assert!(find_mission(&all, "zzz").is_none());
    assert!(opengrok_missions_dir(None, Some("/home/u")).starts_with("/home/u"));
    assert!(factory_droid_missions_dir(None).is_none());
    assert_eq!(
        factory_droid_missions_dir(Some("/home/u")).as_deref(),
        Some("/home/u/.factory/missions")
    );
}

#[test]
fn paused_missions_and_proposals_say_so() {
    let runner = MissionRunner::new("/m");
    let mut st = state(MissionState::Running);
    runner.pause(&mut st, Some("limit".to_string()), NOW);
    assert_eq!(st.state, MissionState::Paused);
    assert_eq!(st.updated_at, NOW);
    let p = ProposeMissionTool.propose("T", "O", "/w", "/missions", "12345678-aaaa", NOW);
    assert!(p.output.success);
    assert!(p.state.mission_id.starts_with("mis_"));
    assert!(p.mission_md.contains("T"));
    assert!(matches!(
        step_result(MissionStep::Completed, None, None, None),
        MissionRunStepResult::Completed
    ));
    assert_eq!(resolve_mission_dir(Some("x".into()), Some("/f".into()), false, None, None).as_deref(), Some("/f"));
    assert_eq!(resolve_mission_dir(None, None, false, None, Some("/r".into())).as_deref(), Some("/r"));
}

#[test]
fn tools_tell_why_they_failed() {
    let none = None;
    let err = StartMissionRunTool.run(RunEvent::NoMission, &none).unwrap_err();
    assert_eq!(err.message, "No matching mission found to run");
    let err = StartMissionRunTool.run(RunEvent::Unprepared { error: "io".into() }, &none).unwrap_err();
    assert_eq!(err.message, "Failed to prepare mission run: io");
    assert_eq!(err.tool_id.as_deref(), Some("start_mission_run"));
    let err = StartMissionRunTool.run(RunEvent::Failed { error: "io".into() }, &none).unwrap_err();
    assert_eq!(err.message, "Runner error: io");
    let err = EndFeatureRunTool.run(EndEvent::NoMission, "f").unwrap_err();
    assert_eq!(err.message, "No active mission directory found");
    let err = EndFeatureRunTool.run(EndEvent::Failed { error: "io".into() }, "f").unwrap_err();
    assert_eq!(err.message, "Failed to record worker completion: io");
    assert_eq!(err.tool_id.as_deref(), Some("end_feature_run"));
    let unread: Result<MissionStateFile, String> = Err(String::new());
    let err = InspectMissionReadinessTool
        .run(false, &unread, &Err(String::new()), &vec![])
        .unwrap_err();
    assert_eq!(err.message, "No matching mission found to inspect");
    let (_, output) = DismissHandoffItemsTool.dismiss(&vec![], NOW);
    let err = DismissHandoffItemsTool.run(output.clone(), RecordEvent::NoMission).unwrap_err();
    assert_eq!(err.message, "No matching mission found");
    let failed = RecordEvent::Failed { error: "io".into() };
    let err = DismissHandoffItemsTool.run(output, failed).unwrap_err();
    assert_eq!(err.message, "Failed to record dismissals: io");
    let proposal = ProposeMissionTool.propose("T", "O", "/w", "/missions", "id", NOW);
    let err = ProposeMissionTool.run(proposal, Err("io".into())).unwrap_err();
    assert_eq!(err.message, "Failed to init mission dir: io");
}

#[test]
fn proposals_fill_in_what_is_missing() {
    let tool = ProposeMissionTool;
    let mut input = ProposeMissionInput {
        title: "T".into(),
        overview: "O".into(),
        working_directory: None,
        mission_id: None,
    };
    let id = tool.mission_id(&input);
    assert_eq!(id.len(), 36);
    assert_ne!(id, tool.mission_id(&input));
    assert_ne!(EndFeatureRunTool.worker_session_id(), EndFeatureRunTool.worker_session_id());
    assert_eq!(tool.working_directory(&input, Some("/cwd".into())), "/cwd");
    assert_eq!(tool.working_directory(&input, None), ".");
    input.mission_id = Some("mine".into());
    input.working_directory = Some("/w".into());
    assert_eq!(tool.mission_id(&input), "mine");
    assert_eq!(tool.working_directory(&input, Some("/cwd".into())), "/w");
    let proposal = tool.propose("T", "O", "/w", "/missions", "12345678-aaaa", NOW);
    assert_eq!(proposal.state.mission_id, "mis_12345678");
    assert_eq!(proposal.mission_md, "# T\n\nO");
    let output = tool.run(proposal, Ok(())).unwrap();
    assert_eq!(output.mission_dir, "/missions/12345678-aaaa");
    assert_eq!(
        output.message,
        "Mission \"T\" initialized successfully at /missions/12345678-aaaa"
    );
}

#[test]
fn completions_are_saved_and_found_again() {
    let runner = MissionRunner::new("/m");
    let service = runner.storage();
    let saved = runner.saved_handoff(
        NOW,
        "w1",
        "f1",
        WorkerSuccessState::Partial,
        true,
        Some("c".into()),
        Some("/repo".into()),
        handoff(),
    );
    assert_eq!(saved.repo_path.as_deref(), Some("/repo"));
    assert!(saved.milestone.is_none());
    assert_eq!(service.handoff_filename(&saved), "2026-09-02T13-00-00Z__f1__w1.json");
    let names: Vec<String> = ["2026-02__f__w1.json", "2026-03__f__w1.json", "2026-04__f__w1.txt", "2026-05__f__w2.json"]
        .iter()
        .map(|n| n.to_string())
        .collect();
    assert_eq!(service.latest_handoff_file(&names, "w1"), Some(1));
    assert_eq!(service.latest_handoff_file(&names, "w3"), None);
    let entry = |session: &str, state: WorkerSuccessState| {
        runner.completion_entry(NOW, session, "f1", state, false, None, None, 0, handoff())
    };
    let first = entry("w1", WorkerSuccessState::Success);
    assert!(matches!(&first, ProgressLogEntry::WorkerCompleted { validators_passed: true, .. }));
    let second = entry("w1", WorkerSuccessState::Failure);
    assert!(matches!(&second, ProgressLogEntry::WorkerCompleted { validators_passed: false, .. }));
    let log = vec![first, second, entry("w2", WorkerSuccessState::Success)];
    assert_eq!(latest_completion(&log, "w1"), Some(1));
    assert_eq!(latest_completion(&log, "w3"), None);
}

#[test]
fn completed_features_keep_their_sessions() {
    let runner = MissionRunner::new("/m");
    let settings = MissionModelSettings { skip_scrutiny: true, skip_user_testing: true, ..Default::default() };
    let mut st = state(MissionState::Running);
    let mut file = FeaturesFile {
        features: vec![feature("a", FeatureStatus::InProgress), feature("b", FeatureStatus::Pending)],
    };
    let missing = runner.handle_worker_completion(
        &mut st, &mut file, &settings, "w1", "zz", WorkerSuccessState::Success, false, NOW,
    );
    assert_eq!(missing.unwrap_err(), "Feature zz not found in features.json");
    let failed = runner
        .handle_worker_completion(
            &mut st, &mut file, &settings, "w1", "a", WorkerSuccessState::Failure, false, NOW,
        )
        .unwrap();
    match failed {
        MissionStep::OrchestratorTurn { reason, feature_id } => {
            assert_eq!(reason, "Worker ended with state: Failure");
            assert_eq!(feature_id.as_deref(), Some("a"));
        }
        other => panic!("{other:?}"),
    }
    assert_eq!(st.state, MissionState::OrchestratorTurn);
    assert_eq!(file.features[0].status, FeatureStatus::Pending);
    st.state = MissionState::Running;
    let next = runner
        .handle_worker_completion(
            &mut st, &mut file, &settings, "w1", "a", WorkerSuccessState::Success, false, NOW,
        )
        .unwrap();
    assert!(matches!(next, MissionStep::Worker { feature } if feature.id == "b"));
    assert_eq!(file.features[0].worker_session_ids, vec!["w1".to_string()]);
    assert_eq!(file.features[0].completed_worker_session_id.as_deref(), Some("w1"));
    StartMissionRunTool.restart_feature(runner.storage(), &mut file);
    assert!(runner.storage().get_in_progress_feature(&file).is_none());
    assert_eq!(runner.storage().get_milestone_features(&file, "m1").len(), 2);
    assert!(runner.storage().get_milestone_features(&file, "m2").is_empty());
    let mut b = feature("b", FeatureStatus::Completed);
    b.description = "changed".into();
    runner.storage().update_feature(&mut file, &b);
    assert_eq!(file.features[1].description, "changed");
    let mut st = state(MissionState::Running);
    runner.storage().update_state_status(&mut st, MissionState::Completed, NOW);
    assert_eq!((st.state, st.updated_at.as_str()), (MissionState::Completed, NOW));
}

#[test]
fn missions_know_where_they_work() {
    let service = MissionFileService::new("/m");
    let st = state(MissionState::Running);
    let named = Some("  /work \n".to_string());
    assert_eq!(service.read_working_directory(&named, Some(&st)).unwrap(), "/work");
    assert_eq!(service.read_working_directory(&Some(" ".into()), Some(&st)).unwrap(), "/tmp");
    assert_eq!(
        service.read_working_directory(&None, None).unwrap_err(),
        "No working directory configured for mission"
    );
    let summary = |id: &str, wd: Option<&str>| {
        summarize_mission(
            id,
            MissionSource::FactoryDroid,
            "/d",
            None,
            None,
            wd.map(String::from),
            None,
        )
    };
    let all = vec![summary("a", Some("/w")), summary("b", None), summary("c", Some("/w/../w"))];
    let resolved = vec![Some("/w".to_string()), None, Some("/w".to_string())];
    let here = discover_missions_for_workspace(all, &resolved, "/w");
    let ids: Vec<&str> = here.iter().map(|m| m.id.as_str()).collect();
    assert_eq!(ids, ["a", "c"]);
    assert_eq!(MissionSource::FactoryDroid.to_text(), "Factory Droid");
}

#[test]
fn the_last_success_leaves_the_gates() {
    let runner = MissionRunner::new("/m");
    let settings = MissionModelSettings::default();
    let mut st = state(MissionState::Running);
    let mut file = FeaturesFile { features: vec![feature("f1", FeatureStatus::InProgress)] };
    let mut report = |st: &mut MissionStateFile, file: &mut FeaturesFile, id: &str| {
        runner
            .handle_worker_completion(
                st, file, &settings, "w1", id, WorkerSuccessState::Success, false, NOW,
            )
            .unwrap()
    };
    let step = report(&mut st, &mut file, "f1");
    assert!(matches!(step, MissionStep::Worker { feature } if feature.id == "m1-scrutiny-validation"));
    assert_eq!(st.state, MissionState::Running);
    let ids: Vec<&str> = file.features.iter().map(|f| f.id.as_str()).collect();
    assert_eq!(ids, ["f1", "m1-scrutiny-validation", "m1-user-testing-validation"]);
    let step = report(&mut st, &mut file, "m1-scrutiny-validation");
    assert!(matches!(step, MissionStep::Worker { feature } if feature.id == "m1-user-testing-validation"));
    assert!(!runner.has_passed_gates(&file, &settings));
    let step = report(&mut st, &mut file, "m1-user-testing-validation");
    assert!(matches!(step, MissionStep::Completed));
    assert_eq!(st.state, MissionState::Completed);
    assert!(runner.has_passed_gates(&file, &settings));
    assert!(runner.is_settled(&st));

    let skip = MissionModelSettings { skip_scrutiny: true, skip_user_testing: true, ..Default::default() };
    let mut st = state(MissionState::Running);
    let mut file = FeaturesFile { features: vec![feature("f1", FeatureStatus::InProgress)] };
    let step = runner
        .handle_worker_completion(
            &mut st, &mut file, &skip, "w1", "f1", WorkerSuccessState::Success, false, NOW,
        )
        .unwrap();
    assert!(matches!(step, MissionStep::Completed), "the gates are skipped");
}

#[test]
fn native_missions_have_two_places() {
    assert_eq!(
        opengrok_missions_dirs(Some("/cfg"), Some("/home/u"), Some("/p")),
        vec!["/cfg/missions".to_string(), "/p/.opengrok/missions".to_string()]
    );
    assert_eq!(
        opengrok_missions_dirs(None, Some("/home/u"), Some("/home/u")),
        vec!["/home/u/.opengrok/missions".to_string()]
    );
    assert_eq!(opengrok_missions_dirs(None, None, Some("/p")), vec![".opengrok/missions".to_string()]);
}
