//! The mission runner: feature sequencing, preemption, scope review, milestone
//! validation, worker prompts, and state transitions.
use vstd::prelude::*;
#[allow(unused_imports)]
use vstd::string::*;

#[allow(unused_imports)]
use crate::mission::storage::{
    MissionFileService, all_completed, done_at_bottom, first_named, first_with, implements,
    lemma_first_named, lemma_first_with, milestone_done, position_named, position_with,
    scrutiny_id, scrutiny_view, user_testing_id, with_feature, with_new, with_status,
    with_validators,
};
#[allow(unused_imports)]
use crate::mission::types::{
    Feature, FeatureStatus, FeatureView, FeaturesFile, MissionModelSettings, MissionState,
    MissionStateFile, ProgressLogEntry, SavedWorkerHandoff, WorkerHandoff, WorkerSuccessState,
    same_mission,
};
#[allow(unused_imports)]
use crate::text::{
    cat2, cat3, cat5, decimal, decimal_text, lemma_in_list, list_holds, option_view, views,
};

verus! {

/// Result of one step of the mission runner.
#[derive(Debug)]
pub enum MissionRunStepResult {
    /// A worker should be launched for the feature.
    WorkerReady {
        feature: Feature,
        worker_prompt: String,
        skill_name: String,
        skill_instructions: Option<String>,
        architecture_doc: Option<String>,
        validation_contract: Option<String>,
    },
    /// All features and validation gates are completed.
    Completed,
    /// Paused because the scope has grown and needs review.
    ScopeReviewRequired { initial_count: usize, current_count: usize },
    /// Control returns to the orchestrator.
    OrchestratorTurn { reason: String, feature_id: Option<String> },
    /// The mission is paused.
    Paused { reason: String },
}

/// What the runner decided, before the documents for a worker are read.
#[derive(Debug)]
pub enum MissionStep {
    /// A worker is due for the feature, shown as it stood in the queue.
    Worker { feature: Feature },
    Completed,
    ScopeReviewRequired { initial_count: usize, current_count: usize },
    OrchestratorTurn { reason: String, feature_id: Option<String> },
    Paused { reason: String },
}

/// What a decision holds.
#[verifier::ext_equal]
pub enum StepView {
    Worker(FeatureView),
    Completed,
    ScopeReview(nat, nat),
    OrchestratorTurn(Seq<char>, Option<Seq<char>>),
    Paused(Seq<char>),
}

impl View for MissionStep {
    type V = StepView;

    open spec fn view(&self) -> StepView {
        match *self {
            MissionStep::Worker { feature } => StepView::Worker(feature@),
            MissionStep::Completed => StepView::Completed,
            MissionStep::ScopeReviewRequired {
                initial_count,
                current_count,
            } => StepView::ScopeReview(initial_count as nat, current_count as nat),
            MissionStep::OrchestratorTurn { reason, feature_id } => StepView::OrchestratorTurn(
                reason@,
                option_view(feature_id),
            ),
            MissionStep::Paused { reason } => StepView::Paused(reason@),
        }
    }
}

// ---- the model of one step ----

/// A feature put back in the queue.
pub open spec fn reverted(f: FeatureView) -> FeatureView {
    FeatureView { status: FeatureStatus::Pending, current_worker_session_id: None, ..f }
}

/// A feature that a worker takes up.
pub open spec fn started(f: FeatureView) -> FeatureView {
    FeatureView { status: FeatureStatus::InProgress, ..f }
}

/// The queue after preemption: where a pending feature stands ahead of the
/// first one in progress, the latter goes back to pending.
pub open spec fn preempted(fs: Seq<FeatureView>) -> Seq<FeatureView> {
    match (
        first_with(fs, FeatureStatus::InProgress),
        first_with(fs, FeatureStatus::Pending),
    ) {
        (Some(running), Some(pending)) => if pending < running {
            fs.update(running, reverted(fs[running]))
        } else {
            fs
        },
        _ => fs,
    }
}

/// The milestones of a queue, each once, in the order of their first features.
pub open spec fn milestones(fs: Seq<FeatureView>) -> Seq<Seq<char>>
    decreases fs.len(),
{
    if fs.len() == 0 {
        Seq::empty()
    } else {
        let before = milestones(fs.drop_last());
        if before.contains(fs.last().milestone) {
            before
        } else {
            before.push(fs.last().milestone)
        }
    }
}

/// The queue with the validators that the first `n` milestones are due.
pub open spec fn validated(
    fs: Seq<FeatureView>,
    ms: Seq<Seq<char>>,
    n: int,
    skip_scrutiny: bool,
    skip_user_testing: bool,
) -> Seq<FeatureView>
    decreases n,
{
    if n <= 0 {
        fs
    } else {
        with_validators(
            validated(fs, ms, n - 1, skip_scrutiny, skip_user_testing),
            ms[n - 1],
            skip_scrutiny,
            skip_user_testing,
        )
    }
}

/// The queue that a step selects from.
pub open spec fn ready_queue(
    fs: Seq<FeatureView>,
    skip_scrutiny: bool,
    skip_user_testing: bool,
) -> Seq<FeatureView> {
    let queue = preempted(fs);
    let ms = milestones(queue);
    validated(queue, ms, ms.len() as int, skip_scrutiny, skip_user_testing)
}

/// Every feature is completed, the validators that are due among them.
pub open spec fn gates_passed(
    fs: Seq<FeatureView>,
    skip_scrutiny: bool,
    skip_user_testing: bool,
) -> bool {
    all_completed(ready_queue(fs, skip_scrutiny, skip_user_testing))
}

/// The feature to work on: the first in progress, else the first pending.
pub open spec fn candidate(fs: Seq<FeatureView>) -> Option<int> {
    match first_with(fs, FeatureStatus::InProgress) {
        Some(i) => Some(i),
        None => first_with(fs, FeatureStatus::Pending),
    }
}

/// The scope outgrew half as much again of what the run began with. Small
/// missions are not checked.
pub open spec fn scope_outgrown(initial: Option<usize>, count: nat) -> bool {
    initial is Some && initial->0 >= 5 && count > (initial->0 * 3) / 2
}

/// A mission in this state takes no step, whatever is in its queue.
pub open spec fn settled(state: MissionState) -> bool {
    state == MissionState::Paused || state == MissionState::OrchestratorTurn || state
        == MissionState::Completed
}

/// One step: the decision, the mission state and the queue after it.
pub open spec fn step_of(
    state: MissionState,
    initial: Option<usize>,
    fs: Seq<FeatureView>,
    skip_scrutiny: bool,
    skip_user_testing: bool,
) -> (StepView, MissionState, Seq<FeatureView>) {
    if state == MissionState::Paused {
        (StepView::Paused("Mission is paused"@), state, fs)
    } else if state == MissionState::OrchestratorTurn {
        (StepView::OrchestratorTurn("Awaiting orchestrator review"@, None), state, fs)
    } else if state == MissionState::Completed {
        (StepView::Completed, state, fs)
    } else if scope_outgrown(initial, fs.len()) {
        (StepView::ScopeReview(initial->0 as nat, fs.len()), MissionState::Paused, fs)
    } else {
        let queue = ready_queue(fs, skip_scrutiny, skip_user_testing);
        match candidate(queue) {
            None => (StepView::Completed, MissionState::Completed, queue),
            Some(i) => (
                StepView::Worker(queue[i]),
                state,
                if queue[i].status == FeatureStatus::InProgress {
                    queue
                } else {
                    with_feature(queue, started(queue[i]))
                },
            ),
        }
    }
}

/// The step writes the state file.
pub open spec fn step_writes_state(
    state: MissionState,
    initial: Option<usize>,
    fs: Seq<FeatureView>,
    skip_scrutiny: bool,
    skip_user_testing: bool,
) -> bool {
    step_of(state, initial, fs, skip_scrutiny, skip_user_testing).1 != state
}

/// A feature after a worker reported on it.
pub open spec fn reported(
    f: FeatureView,
    worker_session_id: Seq<char>,
    success: WorkerSuccessState,
) -> FeatureView {
    FeatureView {
        worker_session_ids: if f.worker_session_ids.contains(worker_session_id) {
            f.worker_session_ids
        } else {
            f.worker_session_ids.push(worker_session_id)
        },
        current_worker_session_id: None,
        status: if success == WorkerSuccessState::Success {
            FeatureStatus::Completed
        } else {
            FeatureStatus::Pending
        },
        completed_worker_session_id: if success == WorkerSuccessState::Success {
            Some(worker_session_id)
        } else {
            f.completed_worker_session_id
        },
        ..f
    }
}

/// What a worker's report leads to: the decision, the mission state and the
/// queue after it, or a message.
pub open spec fn completion_of(
    state: MissionState,
    initial: Option<usize>,
    fs: Seq<FeatureView>,
    skip_scrutiny: bool,
    skip_user_testing: bool,
    worker_session_id: Seq<char>,
    feature_id: Seq<char>,
    success: WorkerSuccessState,
    return_to_orchestrator: bool,
) -> Result<(StepView, MissionState, Seq<FeatureView>), Seq<char>> {
    match first_named(fs, feature_id) {
        None => Err("Feature "@ + feature_id + " not found in features.json"@),
        Some(i) => {
            let queue = fs.update(i, reported(fs[i], worker_session_id, success));
            if success != WorkerSuccessState::Success {
                Ok(
                    (
                        StepView::OrchestratorTurn(
                            "Worker ended with state: "@ + success.variant(),
                            Some(feature_id),
                        ),
                        MissionState::OrchestratorTurn,
                        queue,
                    ),
                )
            } else if return_to_orchestrator {
                Ok(
                    (
                        StepView::OrchestratorTurn(
                            "Worker requested orchestrator review upon success"@,
                            Some(feature_id),
                        ),
                        MissionState::OrchestratorTurn,
                        queue,
                    ),
                )
            } else if gates_passed(queue, skip_scrutiny, skip_user_testing) {
                Ok((StepView::Completed, MissionState::Completed, queue))
            } else {
                Ok(step_of(state, initial, queue, skip_scrutiny, skip_user_testing))
            }
        },
    }
}

/// A worker's report on a known feature writes the state file.
pub open spec fn completion_writes_state(
    state: MissionState,
    initial: Option<usize>,
    fs: Seq<FeatureView>,
    skip_scrutiny: bool,
    skip_user_testing: bool,
    worker_session_id: Seq<char>,
    feature_id: Seq<char>,
    success: WorkerSuccessState,
    return_to_orchestrator: bool,
) -> bool {
    let i = first_named(fs, feature_id)->0;
    let queue = fs.update(i, reported(fs[i], worker_session_id, success));
    ||| success != WorkerSuccessState::Success
    ||| return_to_orchestrator
    ||| gates_passed(queue, skip_scrutiny, skip_user_testing)
    ||| step_writes_state(state, initial, queue, skip_scrutiny, skip_user_testing)
}

/// One line for each item of a list.
pub open spec fn bullets(items: Seq<Seq<char>>) -> Seq<char>
    decreases items.len(),
{
    if items.len() == 0 {
        Seq::empty()
    } else {
        bullets(items.drop_last()) + ("- "@ + items.last() + "\n"@)
    }
}

/// A section with one line for each item, left out where there is none.
pub open spec fn list_section(heading: Seq<char>, items: Seq<Seq<char>>) -> Seq<char> {
    if items.len() == 0 {
        Seq::empty()
    } else {
        heading + bullets(items) + "\n"@
    }
}

/// A section with a document, left out where there is none.
pub open spec fn document_section(heading: Seq<char>, document: Option<Seq<char>>) -> Seq<char> {
    match document {
        Some(text) => heading + text + "\n\n"@,
        None => Seq::empty(),
    }
}

/// The prompt for the worker of a feature.
pub open spec fn worker_prompt_of(
    f: FeatureView,
    architecture: Option<Seq<char>>,
    validation: Option<Seq<char>>,
) -> Seq<char> {
    ("# Mission Feature Implementation: "@ + f.id + "\n\n## Description\n"@ + f.description
        + "\n\n"@) + list_section("## Preconditions\n"@, f.preconditions) + list_section(
        "## Expected Behavior & Contract Invariants\n"@,
        f.expected_behavior,
    ) + list_section("## Fulfills Assertions\n"@, f.fulfills) + document_section(
        "## Authoritative Architecture Overview\n"@,
        architecture,
    ) + document_section("## Validation Contract\n"@, validation)
        + "Execute this feature directly, adhere strictly to all invariants and test requirements, and call `end_feature_run` when finished to record your handoff.\n"@
}

// ---- the runner ----

/// The runner of one mission.
#[derive(Debug, Clone)]
pub struct MissionRunner {
    storage: MissionFileService,
}

fn push_list_section(out: &mut String, heading: &str, items: &Vec<String>)
    ensures
        final(out)@ == old(out)@ + list_section(heading@, views(items@)),
{
    let ghost start = out@;
    if items.len() == 0 {
        proof {
            assert(start + Seq::<char>::empty() =~= start);
            assert(views(items@).len() == 0);
        }
        return;
    }
    out.append(heading);
    let ghost all = views(items@);
    let mut i: usize = 0;
    proof {
        assert(out@ =~= start + heading@ + bullets(all.take(0)));
    }
    while i < items.len()
        invariant
            i <= items@.len(),
            all == views(items@),
            out@ == start + heading@ + bullets(all.take(i as int)),
        decreases items.len() - i,
    {
        let line: String = cat3("- ", items[i].as_str(), "\n");
        out.append(line.as_str());
        proof {
            assert(all.take(i as int + 1).drop_last() =~= all.take(i as int));
            assert(all[i as int] == items@[i as int]@);
            assert(start + heading@ + bullets(all.take(i as int)) + line@ =~= start + heading@ + (
            bullets(all.take(i as int)) + line@));
        }
        i += 1;
    }
    out.append("\n");
    proof {
        assert(all.take(all.len() as int) =~= all);
        assert(start + heading@ + bullets(all) + "\n"@ =~= start + (heading@ + bullets(all)
            + "\n"@));
    }
}

fn push_document_section(out: &mut String, heading: &str, document: &Option<String>)
    ensures
        final(out)@ == old(out)@ + document_section(heading@, option_view(*document)),
{
    let ghost start = out@;
    match document {
        Some(text) => {
            let section: String = cat3(heading, text.as_str(), "\n\n");
            out.append(section.as_str());
        },
        None => {
            proof {
                assert(start + Seq::<char>::empty() =~= start);
            }
        },
    }
}

/// The prompt for the worker of a feature.
pub fn build_worker_prompt(
    feature: &Feature,
    architecture: &Option<String>,
    validation: &Option<String>,
) -> (r: String)
    ensures
        r@ == worker_prompt_of(feature@, option_view(*architecture), option_view(*validation)),
{
    let mut prompt: String = cat5(
        "# Mission Feature Implementation: ",
        feature.id.as_str(),
        "\n\n## Description\n",
        feature.description.as_str(),
        "\n\n",
    );
    push_list_section(&mut prompt, "## Preconditions\n", &feature.preconditions);
    push_list_section(
        &mut prompt,
        "## Expected Behavior & Contract Invariants\n",
        &feature.expected_behavior,
    );
    push_list_section(&mut prompt, "## Fulfills Assertions\n", &feature.fulfills);
    push_document_section(&mut prompt, "## Authoritative Architecture Overview\n", architecture);
    push_document_section(&mut prompt, "## Validation Contract\n", validation);
    prompt.append(
        "Execute this feature directly, adhere strictly to all invariants and test requirements, and call `end_feature_run` when finished to record your handoff.\n",
    );
    prompt
}

/// The result of a decision, with the documents for its worker, if one is due.
pub fn step_result(
    step: MissionStep,
    architecture: Option<String>,
    validation: Option<String>,
    skill: Option<String>,
) -> (r: MissionRunStepResult)
    ensures
        match (step, r) {
            (
                MissionStep::Worker { feature },
                MissionRunStepResult::WorkerReady {
                    feature: shown,
                    worker_prompt,
                    skill_name,
                    skill_instructions,
                    architecture_doc,
                    validation_contract,
                },
            ) => {
                &&& shown == feature
                &&& worker_prompt@ == worker_prompt_of(
                    feature@,
                    option_view(architecture),
                    option_view(validation),
                )
                &&& skill_name == feature.skill_name
                &&& skill_instructions == skill
                &&& architecture_doc == architecture
                &&& validation_contract == validation
            },
            (MissionStep::Completed, MissionRunStepResult::Completed) => true,
            (
                MissionStep::ScopeReviewRequired { initial_count: a, current_count: b },
                MissionRunStepResult::ScopeReviewRequired { initial_count: c, current_count: d },
            ) => a == c && b == d,
            (
                MissionStep::OrchestratorTurn { reason: a, feature_id: b },
                MissionRunStepResult::OrchestratorTurn { reason: c, feature_id: d },
            ) => a == c && b == d,
            (
                MissionStep::Paused { reason: a },
                MissionRunStepResult::Paused { reason: b },
            ) => a == b,
            _ => false,
        },
{
    match step {
        MissionStep::Worker { feature } => {
            let worker_prompt: String = build_worker_prompt(&feature, &architecture, &validation);
            let skill_name: String = feature.skill_name.clone();
            MissionRunStepResult::WorkerReady {
                feature,
                worker_prompt,
                skill_name,
                skill_instructions: skill,
                architecture_doc: architecture,
                validation_contract: validation,
            }
        },
        MissionStep::Completed => MissionRunStepResult::Completed,
        MissionStep::ScopeReviewRequired {
            initial_count,
            current_count,
        } => MissionRunStepResult::ScopeReviewRequired { initial_count, current_count },
        MissionStep::OrchestratorTurn {
            reason,
            feature_id,
        } => MissionRunStepResult::OrchestratorTurn { reason, feature_id },
        MissionStep::Paused { reason } => MissionRunStepResult::Paused { reason },
    }
}

/// The entry that a decision leaves in the progress log, if any.
pub fn step_log_entry(step: &MissionStep, now: &str) -> (r: Option<ProgressLogEntry>)
    ensures
        match r {
            Some(ProgressLogEntry::MissionPaused { timestamp, pause_reason }) => {
                &&& step is ScopeReviewRequired
                &&& timestamp@ == now@
                &&& option_view(pause_reason) == Some("scope_growth_review_required"@)
            },
            Some(_) => false,
            None => !(step is ScopeReviewRequired),
        },
{
    match step {
        MissionStep::ScopeReviewRequired { .. } => Some(
            ProgressLogEntry::MissionPaused {
                timestamp: now.to_owned(),
                pause_reason: Some("scope_growth_review_required".to_owned()),
            },
        ),
        _ => None,
    }
}

fn distinct_milestones(file: &FeaturesFile) -> (r: Vec<String>)
    ensures
        views(r@) == milestones(file@),
{
    let mut out: Vec<String> = Vec::new();
    let ghost all = file@;
    let mut i: usize = 0;
    while i < file.features.len()
        invariant
            i <= file.features@.len(),
            all == file@,
            all.len() == file.features@.len(),
            views(out@) =~= milestones(all.take(i as int)),
        decreases file.features.len() - i,
    {
        proof {
            assert(all.take(i as int + 1).drop_last() =~= all.take(i as int));
            assert(all[i as int] == file.features@[i as int]@);
            lemma_in_list(out@, all[i as int].milestone);
        }
        if !list_holds(&out, file.features[i].milestone.as_str()) {
            let ghost before = views(out@);
            out.push(file.features[i].milestone.clone());
            proof {
                assert(views(out@) =~= before.push(all[i as int].milestone));
            }
        }
        i += 1;
    }
    proof {
        assert(all.take(all.len() as int) =~= all);
    }
    out
}

impl MissionRunner {
    /// The mission directory.
    pub closed spec fn dir(&self) -> Seq<char> {
        self.storage.dir()
    }

    /// The runner for a mission directory.
    pub fn new(mission_dir: &str) -> (r: Self)
        ensures
            r.dir() == mission_dir@,
    {
        MissionRunner { storage: MissionFileService::new(mission_dir) }
    }

    /// The files of the mission.
    pub fn storage(&self) -> (r: &MissionFileService)
        ensures
            r.dir() == self.dir(),
    {
        &self.storage
    }

    /// Starts a run: records how many features there were, sets the state to
    /// running, and gives the entry for the progress log.
    pub fn prepare_run(
        &self,
        state: &mut MissionStateFile,
        file: &FeaturesFile,
        now: &str,
    ) -> (r: ProgressLogEntry)
        ensures
            final(state).state == MissionState::Running,
            final(state).updated_at@ == now@,
            final(state).initial_feature_count == (if old(state).initial_feature_count is None
                && file@.len() > 0 {
                Some(file@.len() as usize)
            } else {
                old(state).initial_feature_count
            }),
            final(state).mission_id == old(state).mission_id,
            final(state).working_directory == old(state).working_directory,
            final(state).created_at == old(state).created_at,
            final(state).last_reviewed_handoff_count == old(state).last_reviewed_handoff_count,
            final(state).feature_retry_budget_bonus == old(state).feature_retry_budget_bonus,
            match r {
                ProgressLogEntry::MissionRunStarted { timestamp, message } => {
                    &&& timestamp@ == now@
                    &&& message@ == "Started mission run with "@ + decimal(file@.len())
                        + " features"@
                },
                _ => false,
            },
    {
        let count: usize = file.features.len();
        proof {
            assert(file@.len() == count);
        }
        if state.initial_feature_count.is_none() && count > 0 {
            state.initial_feature_count = Some(count);
        }
        state.state = MissionState::Running;
        state.updated_at = now.to_owned();
        ProgressLogEntry::MissionRunStarted {
            timestamp: now.to_owned(),
            message: cat3(
                "Started mission run with ",
                decimal_text(count as u64).as_str(),
                " features",
            ),
        }
    }

    fn inject_validators(&self, file: &mut FeaturesFile, settings: &MissionModelSettings)
        ensures
            final(file)@ == validated(
                old(file)@,
                milestones(old(file)@),
                milestones(old(file)@).len() as int,
                settings.skip_scrutiny,
                settings.skip_user_testing,
            ),
    {
        let ghost queue = file@;
        let ghost ms = milestones(queue);
        let names: Vec<String> = distinct_milestones(file);
        let mut i: usize = 0;
        while i < names.len()
            invariant
                i <= names@.len(),
                ms == views(names@),
                file@ == validated(
                    queue,
                    ms,
                    i as int,
                    settings.skip_scrutiny,
                    settings.skip_user_testing,
                ),
            decreases names.len() - i,
        {
            proof {
                assert(ms[i as int] == names@[i as int]@);
            }
            let _ = self.storage.check_and_inject_milestone_validation(
                file,
                names[i].as_str(),
                settings,
            );
            i += 1;
        }
        proof {
            assert(ms.len() == names@.len());
        }
    }

    /// Whether every feature is completed, the validators that are due among
    /// them.
    pub fn has_passed_gates(&self, file: &FeaturesFile, settings: &MissionModelSettings) -> (r:
        bool)
        ensures
            r == gates_passed(file@, settings.skip_scrutiny, settings.skip_user_testing),
    {
        proof {
            lemma_gates_need_all_features(
                file@,
                settings.skip_scrutiny,
                settings.skip_user_testing,
            );
        }
        if !self.storage.are_all_features_completed(file) {
            return false;
        }
        let mut due: FeaturesFile = file.duplicate();
        self.inject_validators(&mut due, settings);
        self.storage.are_all_features_completed(&due)
    }

    /// Whether the mission takes no step, so that its queue need not be read.
    pub fn is_settled(&self, state: &MissionStateFile) -> (r: bool)
        ensures
            r == settled(state.state),
    {
        state.state == MissionState::Paused || state.state == MissionState::OrchestratorTurn
            || state.state == MissionState::Completed
    }

    /// Advances the mission by one step.
    pub fn advance(
        &self,
        state: &mut MissionStateFile,
        file: &mut FeaturesFile,
        settings: &MissionModelSettings,
        now: &str,
    ) -> (r: MissionStep)
        ensures
            ({
                let (step, after, queue) = step_of(
                    old(state).state,
                    old(state).initial_feature_count,
                    old(file)@,
                    settings.skip_scrutiny,
                    settings.skip_user_testing,
                );
                &&& r@ == step
                &&& final(state).state == after
                &&& final(file)@ == queue
            }),
            same_mission(*final(state), *old(state)),
            final(state).updated_at@ == (if step_writes_state(
                old(state).state,
                old(state).initial_feature_count,
                old(file)@,
                settings.skip_scrutiny,
                settings.skip_user_testing,
            ) {
                now@
            } else {
                old(state).updated_at@
            }),
    {
        let ghost start = file@;
        if state.state == MissionState::Paused {
            return MissionStep::Paused { reason: "Mission is paused".to_owned() };
        }
        if state.state == MissionState::OrchestratorTurn {
            return MissionStep::OrchestratorTurn {
                reason: "Awaiting orchestrator review".to_owned(),
                feature_id: None,
            };
        }
        if state.state == MissionState::Completed {
            return MissionStep::Completed;
        }
        let count: usize = file.features.len();
        proof {
            assert(file@.len() == count);
        }
        if let Some(initial) = state.initial_feature_count {
            if initial >= 5 && count as u128 > (initial as u128 * 3) / 2 {
                state.state = MissionState::Paused;
                state.updated_at = now.to_owned();
                return MissionStep::ScopeReviewRequired {
                    initial_count: initial,
                    current_count: count,
                };
            }
        }
        proof {
            lemma_first_with(start, FeatureStatus::InProgress);
            lemma_first_with(start, FeatureStatus::Pending);
        }
        let running: Option<usize> = position_with(file, FeatureStatus::InProgress);
        let pending: Option<usize> = position_with(file, FeatureStatus::Pending);
        if let Some(ip) = running {
            if let Some(fp) = pending {
                if fp < ip {
                    let mut f: Feature = file.features[ip].duplicate();
                    f.status = FeatureStatus::Pending;
                    f.current_worker_session_id = None;
                    proof {
                        assert(f@ =~= reverted(start[ip as int]));
                    }
                    file.features.set(ip, f);
                    proof {
                        assert(file@ =~= start.update(ip as int, reverted(start[ip as int])));
                    }
                }
            }
        }
        self.inject_validators(file, settings);
        proof {
            lemma_first_with(file@, FeatureStatus::InProgress);
            lemma_first_with(file@, FeatureStatus::Pending);
        }
        let chosen: Option<usize> = match position_with(file, FeatureStatus::InProgress) {
            Some(k) => Some(k),
            None => position_with(file, FeatureStatus::Pending),
        };
        match chosen {
            None => {
                state.state = MissionState::Completed;
                state.updated_at = now.to_owned();
                MissionStep::Completed
            },
            Some(k) => {
                let feature: Feature = file.features[k].duplicate();
                if feature.status != FeatureStatus::InProgress {
                    let mut updated: Feature = feature.duplicate();
                    updated.status = FeatureStatus::InProgress;
                    proof {
                        assert(updated@ =~= started(feature@));
                    }
                    self.storage.update_feature(file, &updated);
                }
                MissionStep::Worker { feature }
            },
        }
    }

    /// Records a worker's report and decides what comes next.
    pub fn handle_worker_completion(
        &self,
        state: &mut MissionStateFile,
        file: &mut FeaturesFile,
        settings: &MissionModelSettings,
        worker_session_id: &str,
        feature_id: &str,
        success_state: WorkerSuccessState,
        return_to_orchestrator: bool,
        now: &str,
    ) -> (r: Result<MissionStep, String>)
        ensures
            match completion_of(
                old(state).state,
                old(state).initial_feature_count,
                old(file)@,
                settings.skip_scrutiny,
                settings.skip_user_testing,
                worker_session_id@,
                feature_id@,
                success_state,
                return_to_orchestrator,
            ) {
                Ok((step, after, queue)) => {
                    &&& r is Ok
                    &&& r->Ok_0@ == step
                    &&& final(state).state == after
                    &&& final(file)@ == queue
                    &&& same_mission(*final(state), *old(state))
                    &&& final(state).updated_at@ == (if completion_writes_state(
                        old(state).state,
                        old(state).initial_feature_count,
                        old(file)@,
                        settings.skip_scrutiny,
                        settings.skip_user_testing,
                        worker_session_id@,
                        feature_id@,
                        success_state,
                        return_to_orchestrator,
                    ) {
                        now@
                    } else {
                        old(state).updated_at@
                    })
                },
                Err(message) => {
                    &&& r is Err
                    &&& r->Err_0@ == message
                    &&& *final(state) == *old(state)
                    &&& *final(file) == *old(file)
                },
            },
    {
        let ghost start = file@;
        proof {
            lemma_first_named(start, feature_id@);
        }
        let k: usize = match position_named(file, feature_id) {
            Some(k) => k,
            None => {
                return Err(cat3("Feature ", feature_id, " not found in features.json"));
            },
        };
        let mut f: Feature = file.features[k].duplicate();
        proof {
            assert(start[k as int] == file.features@[k as int]@);
            lemma_in_list(f.worker_session_ids@, worker_session_id@);
        }
        if !list_holds(&f.worker_session_ids, worker_session_id) {
            let ghost before = views(f.worker_session_ids@);
            f.worker_session_ids.push(worker_session_id.to_owned());
            proof {
                assert(views(f.worker_session_ids@) =~= before.push(worker_session_id@));
            }
        }
        f.current_worker_session_id = None;
        if success_state == WorkerSuccessState::Success {
            f.status = FeatureStatus::Completed;
            f.completed_worker_session_id = Some(worker_session_id.to_owned());
        } else {
            f.status = FeatureStatus::Pending;
        }
        proof {
            assert(f@ =~= reported(start[k as int], worker_session_id@, success_state));
        }
        file.features.set(k, f);
        let ghost queue = start.update(
            k as int,
            reported(start[k as int], worker_session_id@, success_state),
        );
        proof {
            assert(file@ =~= queue);
        }
        if success_state != WorkerSuccessState::Success {
            self.storage.update_state_status(state, MissionState::OrchestratorTurn, now);
            return Ok(
                MissionStep::OrchestratorTurn {
                    reason: cat2(
                        "Worker ended with state: ",
                        success_state.variant_name().as_str(),
                    ),
                    feature_id: Some(feature_id.to_owned()),
                },
            );
        }
        if return_to_orchestrator {
            self.storage.update_state_status(state, MissionState::OrchestratorTurn, now);
            return Ok(
                MissionStep::OrchestratorTurn {
                    reason: "Worker requested orchestrator review upon success".to_owned(),
                    feature_id: Some(feature_id.to_owned()),
                },
            );
        }
        if self.has_passed_gates(file, settings) {
            self.storage.update_state_status(state, MissionState::Completed, now);
            return Ok(MissionStep::Completed);
        }
        Ok(self.advance(state, file, settings, now))
    }

    /// The record to save for a worker's handoff.
    pub fn saved_handoff(
        &self,
        now: &str,
        worker_session_id: &str,
        feature_id: &str,
        success_state: WorkerSuccessState,
        return_to_orchestrator: bool,
        commit_id: Option<String>,
        repo_path: Option<String>,
        handoff: WorkerHandoff,
    ) -> (r: SavedWorkerHandoff)
        ensures
            r.timestamp@ == now@,
            r.worker_session_id@ == worker_session_id@,
            r.feature_id@ == feature_id@,
            r.milestone is None,
            r.commit_id == commit_id,
            r.repo_path == repo_path,
            r.success_state == success_state,
            r.return_to_orchestrator == return_to_orchestrator,
            r.handoff == handoff,
    {
        SavedWorkerHandoff {
            timestamp: now.to_owned(),
            worker_session_id: worker_session_id.to_owned(),
            feature_id: feature_id.to_owned(),
            milestone: None,
            commit_id,
            repo_path,
            success_state,
            return_to_orchestrator,
            handoff,
        }
    }

    /// The entry of the progress log for a worker's handoff.
    pub fn completion_entry(
        &self,
        now: &str,
        worker_session_id: &str,
        feature_id: &str,
        success_state: WorkerSuccessState,
        return_to_orchestrator: bool,
        commit_id: Option<String>,
        repo_path: Option<String>,
        exit_code: i32,
        handoff: WorkerHandoff,
    ) -> (r: ProgressLogEntry)
        ensures
            match r {
                ProgressLogEntry::WorkerCompleted {
                    timestamp,
                    worker_session_id: session,
                    feature_id: feature,
                    success_state: success,
                    return_to_orchestrator: returned,
                    commit_id: commit,
                    repo_path: repo,
                    exit_code: code,
                    validators_passed,
                    handoff: kept,
                } => {
                    &&& timestamp@ == now@
                    &&& session@ == worker_session_id@
                    &&& feature@ == feature_id@
                    &&& success == success_state
                    &&& returned == return_to_orchestrator
                    &&& commit == commit_id
                    &&& repo == repo_path
                    &&& code == exit_code
                    &&& validators_passed == (success_state == WorkerSuccessState::Success)
                    &&& kept == handoff
                },
                _ => false,
            },
    {
        ProgressLogEntry::WorkerCompleted {
            timestamp: now.to_owned(),
            worker_session_id: worker_session_id.to_owned(),
            feature_id: feature_id.to_owned(),
            success_state,
            return_to_orchestrator,
            commit_id,
            repo_path,
            exit_code,
            validators_passed: success_state == WorkerSuccessState::Success,
            handoff,
        }
    }

    /// Pauses the mission and gives the entry for the progress log.
    pub fn pause(
        &self,
        state: &mut MissionStateFile,
        reason: Option<String>,
        now: &str,
    ) -> (r: ProgressLogEntry)
        ensures
            final(state).state == MissionState::Paused,
            final(state).updated_at@ == now@,
            same_mission(*final(state), *old(state)),
            match r {
                ProgressLogEntry::MissionPaused { timestamp, pause_reason } => timestamp@ == now@
                    && pause_reason == reason,
                _ => false,
            },
    {
        self.storage.update_state_status(state, MissionState::Paused, now);
        ProgressLogEntry::MissionPaused { timestamp: now.to_owned(), pause_reason: reason }
    }
}

// ---- laws ----

/// No two features share an id.
pub open spec fn ids_differ(fs: Seq<FeatureView>) -> bool {
    forall|i: int, j: int| 0 <= i < j < fs.len() ==> (#[trigger] fs[i]).id != (#[trigger] fs[j]).id
}

/// At most one feature is in progress.
pub open spec fn one_worker(fs: Seq<FeatureView>) -> bool {
    forall|i: int, j: int|
        0 <= i < fs.len() && 0 <= j < fs.len() && (#[trigger] fs[i]).status
            == FeatureStatus::InProgress && (#[trigger] fs[j]).status == FeatureStatus::InProgress
            ==> i == j
}

/// `b` is `a` with features after it that are pending.
pub open spec fn grown(a: Seq<FeatureView>, b: Seq<FeatureView>) -> bool {
    &&& a.len() <= b.len()
    &&& b.take(a.len() as int) == a
    &&& forall|i: int|
        a.len() <= i < b.len() ==> (#[trigger] b[i]).status == FeatureStatus::Pending
            && !implements(b[i])
}

pub proof fn lemma_with_validators_grows(
    fs: Seq<FeatureView>,
    m: Seq<char>,
    skip_scrutiny: bool,
    skip_user_testing: bool,
)
    ensures
        grown(fs, with_validators(fs, m, skip_scrutiny, skip_user_testing)),
        ids_differ(fs) ==> ids_differ(with_validators(fs, m, skip_scrutiny, skip_user_testing)),
{
    let after = with_validators(fs, m, skip_scrutiny, skip_user_testing);
    assert(fs.take(fs.len() as int) =~= fs);
    if milestone_done(fs, m) {
        let one = if skip_scrutiny {
            fs
        } else {
            with_new(fs, scrutiny_view(m))
        };
        lemma_first_named(fs, scrutiny_id(m));
        lemma_first_named(one, user_testing_id(m));
        assert(after.take(fs.len() as int) =~= fs);
    }
}

pub proof fn lemma_validated_grows(
    fs: Seq<FeatureView>,
    ms: Seq<Seq<char>>,
    n: int,
    skip_scrutiny: bool,
    skip_user_testing: bool,
)
    ensures
        grown(fs, validated(fs, ms, n, skip_scrutiny, skip_user_testing)),
        ids_differ(fs) ==> ids_differ(validated(fs, ms, n, skip_scrutiny, skip_user_testing)),
    decreases n,
{
    if n <= 0 {
        assert(fs.take(fs.len() as int) =~= fs);
    } else {
        let before = validated(fs, ms, n - 1, skip_scrutiny, skip_user_testing);
        let after = validated(fs, ms, n, skip_scrutiny, skip_user_testing);
        lemma_validated_grows(fs, ms, n - 1, skip_scrutiny, skip_user_testing);
        lemma_with_validators_grows(before, ms[n - 1], skip_scrutiny, skip_user_testing);
        assert(after.take(fs.len() as int) =~= after.take(before.len() as int).take(
            fs.len() as int,
        ));
        assert forall|i: int| fs.len() <= i < after.len() implies (#[trigger] after[i]).status
            == FeatureStatus::Pending && !implements(after[i]) by {
            if i < before.len() {
                assert(after[i] == after.take(before.len() as int)[i]);
                assert(after[i] == before[i]);
            }
        }
    }
}

proof fn lemma_first_with_unique(fs: Seq<FeatureView>, status: FeatureStatus, k: int)
    requires
        0 <= k < fs.len(),
        fs[k].status == status,
        forall|j: int| 0 <= j < k ==> (#[trigger] fs[j]).status != status,
    ensures
        first_with(fs, status) == Some(k),
{
    lemma_first_with(fs, status);
    let i = first_with(fs, status)->0;
    if i < k {
        assert(fs[i].status != status);
    }
    if k < i {
        assert(fs[k].status != status);
    }
}

proof fn lemma_gates_need_all_features(
    fs: Seq<FeatureView>,
    skip_scrutiny: bool,
    skip_user_testing: bool,
)
    ensures
        gates_passed(fs, skip_scrutiny, skip_user_testing) ==> all_completed(fs),
        all_completed(fs) ==> preempted(fs) == fs,
{
    lemma_first_with(fs, FeatureStatus::InProgress);
    lemma_first_with(fs, FeatureStatus::Pending);
    let a = preempted(fs);
    let ms = milestones(a);
    let b = ready_queue(fs, skip_scrutiny, skip_user_testing);
    lemma_validated_grows(a, ms, ms.len() as int, skip_scrutiny, skip_user_testing);
    if all_completed(b) {
        assert forall|i: int| 0 <= i < fs.len() implies (#[trigger] fs[i]).status
            == FeatureStatus::Completed by {
            assert(b.take(a.len() as int)[i] == b[i]);
            assert(a[i] == b[i]);
            assert(a[i].status == FeatureStatus::Completed);
        }
        if a.len() == 0 {
            assert(b[0].status == FeatureStatus::Completed);
            assert(b[0].status == FeatureStatus::Pending);
        }
    }
}

/// The validators of a milestone that are due stand in the queue.
pub open spec fn has_validators(
    fs: Seq<FeatureView>,
    m: Seq<char>,
    skip_scrutiny: bool,
    skip_user_testing: bool,
) -> bool {
    &&& skip_scrutiny || first_named(fs, scrutiny_id(m)) is Some
    &&& skip_user_testing || first_named(fs, user_testing_id(m)) is Some
}

proof fn lemma_validated_steps(
    fs: Seq<FeatureView>,
    ms: Seq<Seq<char>>,
    n: int,
    k: int,
    skip_scrutiny: bool,
    skip_user_testing: bool,
)
    requires
        0 <= k < n,
        validated(fs, ms, n, skip_scrutiny, skip_user_testing).len() == fs.len(),
    ensures
        with_validators(fs, ms[k], skip_scrutiny, skip_user_testing) == fs,
    decreases n,
{
    let before = validated(fs, ms, n - 1, skip_scrutiny, skip_user_testing);
    let after = validated(fs, ms, n, skip_scrutiny, skip_user_testing);
    lemma_validated_grows(fs, ms, n - 1, skip_scrutiny, skip_user_testing);
    lemma_with_validators_grows(before, ms[n - 1], skip_scrutiny, skip_user_testing);
    assert(before.take(fs.len() as int) =~= before);
    assert(after.take(before.len() as int) =~= after);
    if k < n - 1 {
        lemma_validated_steps(fs, ms, n - 1, k, skip_scrutiny, skip_user_testing);
    }
}

proof fn lemma_milestones_hold(fs: Seq<FeatureView>, i: int)
    requires
        0 <= i < fs.len(),
    ensures
        milestones(fs).contains(fs[i].milestone),
    decreases fs.len(),
{
    let before = milestones(fs.drop_last());
    if i < fs.len() - 1 {
        lemma_milestones_hold(fs.drop_last(), i);
        assert(fs.drop_last()[i] == fs[i]);
        let k = choose|k: int| 0 <= k < before.len() && before[k] == fs[i].milestone;
        assert(milestones(fs)[k] == fs[i].milestone);
    } else if !before.contains(fs.last().milestone) {
        assert(milestones(fs)[before.len() as int] == fs[i].milestone);
    }
}

/// A queue that passed its gates holds the validators of each of its
/// milestones, unless the settings skip them, and all of it is completed.
pub proof fn law_gates_are_the_validators(
    fs: Seq<FeatureView>,
    skip_scrutiny: bool,
    skip_user_testing: bool,
    i: int,
)
    requires
        gates_passed(fs, skip_scrutiny, skip_user_testing),
        0 <= i < fs.len(),
        implements(fs[i]),
    ensures
        fs[i].status == FeatureStatus::Completed,
        has_validators(fs, fs[i].milestone, skip_scrutiny, skip_user_testing),
{
    lemma_gates_need_all_features(fs, skip_scrutiny, skip_user_testing);
    let ms = milestones(fs);
    let b = ready_queue(fs, skip_scrutiny, skip_user_testing);
    let m = fs[i].milestone;
    lemma_validated_grows(fs, ms, ms.len() as int, skip_scrutiny, skip_user_testing);
    if b.len() > fs.len() {
        assert(b[fs.len() as int].status == FeatureStatus::Pending);
    }
    lemma_milestones_hold(fs, i);
    let k = choose|k: int| 0 <= k < ms.len() && ms[k] == m;
    lemma_validated_steps(fs, ms, ms.len() as int, k, skip_scrutiny, skip_user_testing);
    assert(milestone_done(fs, m));
    let one = if skip_scrutiny {
        fs
    } else {
        with_new(fs, scrutiny_view(m))
    };
    assert(with_validators(fs, m, skip_scrutiny, skip_user_testing).len() == fs.len());
    assert(one.len() == fs.len());
}

/// A mission that was not completed before is completed by a step only where
/// its gates are passed, or where it has no feature.
pub proof fn law_steps_complete_behind_the_gates(
    state: MissionState,
    initial: Option<usize>,
    fs: Seq<FeatureView>,
    skip_scrutiny: bool,
    skip_user_testing: bool,
)
    requires
        state != MissionState::Completed,
    ensures
        ({
            let (step, after, queue) = step_of(
                state,
                initial,
                fs,
                skip_scrutiny,
                skip_user_testing,
            );
            &&& step is Completed <==> after == MissionState::Completed
            &&& step is Completed ==> fs.len() == 0 || gates_passed(
                fs,
                skip_scrutiny,
                skip_user_testing,
            ) && queue == fs
        }),
{
    let (step, after, queue) = step_of(state, initial, fs, skip_scrutiny, skip_user_testing);
    if step is Completed {
        let a = preempted(fs);
        let ms = milestones(a);
        let b = ready_queue(fs, skip_scrutiny, skip_user_testing);
        lemma_first_with(b, FeatureStatus::InProgress);
        lemma_first_with(b, FeatureStatus::Pending);
        lemma_first_with(fs, FeatureStatus::InProgress);
        lemma_first_with(fs, FeatureStatus::Pending);
        assert forall|i: int| 0 <= i < b.len() implies (#[trigger] b[i]).status
            == FeatureStatus::Completed by {
            assert(b[i].status != FeatureStatus::InProgress);
            assert(b[i].status != FeatureStatus::Pending);
        }
        lemma_validated_grows(a, ms, ms.len() as int, skip_scrutiny, skip_user_testing);
        if fs.len() > 0 {
            assert(all_completed(b));
            lemma_gates_need_all_features(fs, skip_scrutiny, skip_user_testing);
            if b.len() > a.len() {
                assert(b[a.len() as int].status == FeatureStatus::Pending);
            }
            assert(b.take(a.len() as int) =~= b);
        }
    }
}

/// What a settled mission answers does not depend on its queue, and leaves it.
pub proof fn law_settled_missions_ignore_their_queue(
    state: MissionState,
    initial: Option<usize>,
    fs: Seq<FeatureView>,
    others: Seq<FeatureView>,
    skip_scrutiny: bool,
    skip_user_testing: bool,
)
    requires
        settled(state),
    ensures
        step_of(state, initial, fs, skip_scrutiny, skip_user_testing).0 == step_of(
            state,
            initial,
            others,
            skip_scrutiny,
            skip_user_testing,
        ).0,
        step_of(state, initial, fs, skip_scrutiny, skip_user_testing).1 == state,
        step_of(state, initial, fs, skip_scrutiny, skip_user_testing).2 == fs,
{
}

/// The last worker's success completes a running mission only where the
/// validators that are due were run too.
pub proof fn law_reports_complete_behind_the_gates(
    state: MissionState,
    initial: Option<usize>,
    fs: Seq<FeatureView>,
    skip_scrutiny: bool,
    skip_user_testing: bool,
    worker_session_id: Seq<char>,
    feature_id: Seq<char>,
    success: WorkerSuccessState,
    return_to_orchestrator: bool,
)
    requires
        state != MissionState::Completed,
    ensures
        match completion_of(
            state,
            initial,
            fs,
            skip_scrutiny,
            skip_user_testing,
            worker_session_id,
            feature_id,
            success,
            return_to_orchestrator,
        ) {
            Ok((step, after, queue)) => {
                &&& step is Completed <==> after == MissionState::Completed
                &&& step is Completed ==> gates_passed(queue, skip_scrutiny, skip_user_testing)
            },
            Err(_) => true,
        },
{
    lemma_first_named(fs, feature_id);
    if let Some(i) = first_named(fs, feature_id) {
        let queue = fs.update(i, reported(fs[i], worker_session_id, success));
        law_steps_complete_behind_the_gates(
            state,
            initial,
            queue,
            skip_scrutiny,
            skip_user_testing,
        );
    }
}

/// Preemption: where exactly one feature is in progress and a pending one
/// stands ahead of it, a running mission within its scope works on the first
/// pending one, and the one that was in progress is pending again.
pub proof fn law_urgent_feature_preempts(
    state: MissionState,
    initial: Option<usize>,
    fs: Seq<FeatureView>,
    skip_scrutiny: bool,
    skip_user_testing: bool,
    urgent: int,
    running: int,
)
    requires
        state == MissionState::Running || state == MissionState::AwaitingInput,
        !scope_outgrown(initial, fs.len()),
        one_worker(fs),
        ids_differ(fs),
        first_with(fs, FeatureStatus::Pending) == Some(urgent),
        first_with(fs, FeatureStatus::InProgress) == Some(running),
        urgent < running,
    ensures
        ({
            let (step, after, queue) = step_of(
                state,
                initial,
                fs,
                skip_scrutiny,
                skip_user_testing,
            );
            &&& step == StepView::Worker(fs[urgent])
            &&& queue[urgent] == started(fs[urgent])
            &&& queue[running] == reverted(fs[running])
        }),
{
    lemma_first_with(fs, FeatureStatus::Pending);
    lemma_first_with(fs, FeatureStatus::InProgress);
    let a = preempted(fs);
    let ms = milestones(a);
    let b = ready_queue(fs, skip_scrutiny, skip_user_testing);
    lemma_validated_grows(a, ms, ms.len() as int, skip_scrutiny, skip_user_testing);
    assert(ids_differ(a)) by {
        assert forall|i: int, j: int| 0 <= i < j < a.len() implies (#[trigger] a[i]).id != (
        #[trigger] a[j]).id by {
            assert(fs[i].id != fs[j].id);
        }
    }
    assert forall|i: int| 0 <= i < a.len() implies b[i] == a[i] by {
        assert(b.take(a.len() as int)[i] == b[i]);
    }
    assert forall|j: int| 0 <= j < b.len() implies (#[trigger] b[j]).status
        != FeatureStatus::InProgress by {
        if j < a.len() {
            assert(b[j] == a[j]);
            if j != running {
                assert(a[j] == fs[j]);
                assert(fs[running].status == FeatureStatus::InProgress);
            }
        }
    }
    lemma_first_with(b, FeatureStatus::InProgress);
    assert forall|j: int| 0 <= j < urgent implies (#[trigger] b[j]).status
        != FeatureStatus::Pending by {
        assert(b[j] == a[j] && a[j] == fs[j]);
    }
    lemma_first_with_unique(b, FeatureStatus::Pending, urgent);
    lemma_first_named(b, fs[urgent].id);
    let k = first_named(b, fs[urgent].id)->0;
    assert(b[urgent].id == fs[urgent].id);
    assert(k == urgent);
}

/// A mission with at most one feature in progress, and no id twice, keeps to
/// that: whatever a step decides, at most one feature is in progress after it.
pub proof fn law_one_worker_at_a_time(
    state: MissionState,
    initial: Option<usize>,
    fs: Seq<FeatureView>,
    skip_scrutiny: bool,
    skip_user_testing: bool,
)
    requires
        one_worker(fs),
        ids_differ(fs),
    ensures
        one_worker(step_of(state, initial, fs, skip_scrutiny, skip_user_testing).2),
        ids_differ(step_of(state, initial, fs, skip_scrutiny, skip_user_testing).2),
{
    lemma_first_with(fs, FeatureStatus::Pending);
    lemma_first_with(fs, FeatureStatus::InProgress);
    let a = preempted(fs);
    let ms = milestones(a);
    let b = ready_queue(fs, skip_scrutiny, skip_user_testing);
    assert(ids_differ(a)) by {
        assert forall|i: int, j: int| 0 <= i < j < a.len() implies (#[trigger] a[i]).id != (
        #[trigger] a[j]).id by {
            assert(fs[i].id != fs[j].id);
        }
    }
    assert(one_worker(a)) by {
        assert forall|i: int, j: int|
            0 <= i < a.len() && 0 <= j < a.len() && (#[trigger] a[i]).status
                == FeatureStatus::InProgress && (#[trigger] a[j]).status
                == FeatureStatus::InProgress implies i == j by {
            assert(fs[i].status == FeatureStatus::InProgress);
            assert(fs[j].status == FeatureStatus::InProgress);
        }
    }
    lemma_validated_grows(a, ms, ms.len() as int, skip_scrutiny, skip_user_testing);
    assert forall|i: int| 0 <= i < a.len() implies #[trigger] b[i] == a[i] by {
        assert(b.take(a.len() as int)[i] == b[i]);
    }
    assert(one_worker(b)) by {
        assert forall|i: int, j: int|
            0 <= i < b.len() && 0 <= j < b.len() && (#[trigger] b[i]).status
                == FeatureStatus::InProgress && (#[trigger] b[j]).status
                == FeatureStatus::InProgress implies i == j by {
            assert(i < a.len());
            assert(j < a.len());
            assert(a[i].status == FeatureStatus::InProgress);
            assert(a[j].status == FeatureStatus::InProgress);
        }
    }
    lemma_first_with(b, FeatureStatus::Pending);
    lemma_first_with(b, FeatureStatus::InProgress);
    if let Some(k) = candidate(b) {
        if b[k].status != FeatureStatus::InProgress {
            let c = with_feature(b, started(b[k]));
            lemma_first_named(b, b[k].id);
            let at = first_named(b, b[k].id)->0;
            assert(at == k) by {
                if at < k {
                    assert(b[at].id != b[k].id);
                }
                if k < at {
                    assert(b[k].id != b[k].id);
                }
            }
            assert(c =~= b.update(k, started(b[k])));
            assert forall|i: int, j: int| 0 <= i < j < c.len() implies (#[trigger] c[i]).id != (
            #[trigger] c[j]).id by {
                assert(b[i].id != b[j].id);
            }
            assert forall|i: int, j: int|
                0 <= i < c.len() && 0 <= j < c.len() && (#[trigger] c[i]).status
                    == FeatureStatus::InProgress && (#[trigger] c[j]).status
                    == FeatureStatus::InProgress implies i == j by {
                assert(i != k ==> b[i].status == FeatureStatus::InProgress);
                assert(j != k ==> b[j].status == FeatureStatus::InProgress);
                assert(first_with(b, FeatureStatus::InProgress) is None);
            }
        }
    }
}

/// A step loses no feature: the ids that were in the queue still begin it.
pub proof fn law_step_keeps_features(
    state: MissionState,
    initial: Option<usize>,
    fs: Seq<FeatureView>,
    skip_scrutiny: bool,
    skip_user_testing: bool,
)
    ensures
        ({
            let queue = step_of(state, initial, fs, skip_scrutiny, skip_user_testing).2;
            &&& queue.len() >= fs.len()
            &&& forall|i: int| 0 <= i < fs.len() ==> (#[trigger] queue[i]).id == fs[i].id
        }),
{
    lemma_first_with(fs, FeatureStatus::Pending);
    lemma_first_with(fs, FeatureStatus::InProgress);
    let a = preempted(fs);
    let ms = milestones(a);
    let b = ready_queue(fs, skip_scrutiny, skip_user_testing);
    lemma_validated_grows(a, ms, ms.len() as int, skip_scrutiny, skip_user_testing);
    assert forall|i: int| 0 <= i < fs.len() implies (#[trigger] b[i]).id == fs[i].id by {
        assert(b.take(a.len() as int)[i] == b[i]);
        assert(b[i] == a[i]);
    }
    lemma_first_with(b, FeatureStatus::Pending);
    lemma_first_with(b, FeatureStatus::InProgress);
    if let Some(k) = candidate(b) {
        lemma_first_named(b, b[k].id);
        let at = first_named(b, b[k].id);
        assert(b[k].id == b[k].id);
        if at is None {
            assert(b[k].id != b[k].id);
        }
    }
}

/// Injecting the validators of a milestone a second time adds nothing.
pub proof fn law_validators_injected_once(
    fs: Seq<FeatureView>,
    m: Seq<char>,
    skip_scrutiny: bool,
    skip_user_testing: bool,
)
    ensures
        ({
            let once = with_validators(fs, m, skip_scrutiny, skip_user_testing);
            with_validators(once, m, skip_scrutiny, skip_user_testing) == once
        }),
{
    let once = with_validators(fs, m, skip_scrutiny, skip_user_testing);
    if milestone_done(fs, m) {
        let one = if skip_scrutiny {
            fs
        } else {
            with_new(fs, scrutiny_view(m))
        };
        lemma_first_named(fs, scrutiny_id(m));
        lemma_first_named(one, scrutiny_id(m));
        lemma_first_named(one, user_testing_id(m));
        lemma_first_named(once, scrutiny_id(m));
        lemma_first_named(once, user_testing_id(m));
        if !skip_scrutiny {
            if first_named(fs, scrutiny_id(m)) is None {
                assert(one[fs.len() as int].id == scrutiny_id(m));
                assert(once[fs.len() as int].id == scrutiny_id(m));
            } else {
                let k = first_named(fs, scrutiny_id(m))->0;
                assert(once[k].id == scrutiny_id(m));
            }
        }
        if !skip_user_testing {
            if first_named(one, user_testing_id(m)) is None {
                assert(once[one.len() as int].id == user_testing_id(m));
            } else {
                let k = first_named(one, user_testing_id(m))->0;
                assert(once[k].id == user_testing_id(m));
            }
        }
    }
}

/// Moving the completed features to the bottom neither loses nor adds one.
pub proof fn law_reordering_keeps_features(fs: Seq<FeatureView>)
    ensures
        done_at_bottom(fs).to_multiset() == fs.to_multiset(),
    decreases fs.len(),
{
    broadcast use vstd::seq_lib::group_to_multiset_ensures;

    let a = with_status(fs, FeatureStatus::InProgress);
    let b = with_status(fs, FeatureStatus::Pending);
    let c = with_status(fs, FeatureStatus::Completed);
    if fs.len() == 0 {
        assert(done_at_bottom(fs) =~= fs);
    } else {
        let short = fs.drop_last();
        let last = fs.last();
        law_reordering_keeps_features(short);
        let a0 = with_status(short, FeatureStatus::InProgress);
        let b0 = with_status(short, FeatureStatus::Pending);
        let c0 = with_status(short, FeatureStatus::Completed);
        vstd::seq_lib::lemma_multiset_commutative(a0 + b0, c0);
        vstd::seq_lib::lemma_multiset_commutative(a0, b0);
        vstd::seq_lib::lemma_multiset_commutative(a + b, c);
        vstd::seq_lib::lemma_multiset_commutative(a, b);
        assert(short.push(last) =~= fs);
        assert(fs.to_multiset() =~= short.to_multiset().insert(last));
        assert(done_at_bottom(fs).to_multiset() =~= done_at_bottom(short).to_multiset().insert(
            last,
        ));
    }
}

} // verus!
