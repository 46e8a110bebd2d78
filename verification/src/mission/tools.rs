//! The decisions of the tools that propose, inspect, run and conclude missions.
use vstd::prelude::*;
#[allow(unused_imports)]
use vstd::string::*;
#[allow(unused_imports)]
use vstd::utf8::*;

#[allow(unused_imports)]
use crate::ids::{random_id, uuid_text};
#[allow(unused_imports)]
use crate::mission::runner::{MissionRunStepResult, reverted};
#[allow(unused_imports)]
use crate::mission::storage::{
    MissionFileService, first_with, join_path, lemma_first_with, path_below, with_feature,
};
#[allow(unused_imports)]
use crate::mission::types::{
    Feature, FeatureStatus, FeatureView, FeaturesFile, HandoffDismissal, MissionState,
    MissionStateFile, ProgressLogEntry, WorkerHandoff, WorkerSuccessState,
};
#[allow(unused_imports)]
use crate::text::{
    byte_count, byte_len, cat2, cat3, cat4, cat5, decimal, decimal_text, lemma_in_list, list_holds,
    lowercase, lowercased, option_view, same_text, show_list, shown_list, trimmed, views,
};
#[allow(unused_imports)]
use crate::tool::{
    MetadataView, ToolError, ToolKind, ToolMetadata, ToolNamespace, execution_error,
    invalid_arguments,
};

verus! {

pub const DISMISS_HANDOFF_ITEMS_TOOL_NAME: &'static str = "dismiss_handoff_items";

pub const END_FEATURE_RUN_TOOL_NAME: &'static str = "end_feature_run";

pub const INSPECT_MISSION_READINESS_TOOL_NAME: &'static str = "inspect_mission_readiness";

pub const PROPOSE_MISSION_TOOL_NAME: &'static str = "propose_mission";

pub const START_MISSION_RUN_TOOL_NAME: &'static str = "start_mission_run";

// ---- dismissals ----

/// An item that the orchestrator dismisses.
#[derive(Debug, Clone)]
pub struct DismissItemInput {
    /// "discovered_issue" or "incomplete_work".
    pub item_type: String,
    pub source_feature_id: String,
    pub summary: String,
    pub justification: String,
}

#[derive(Debug, Clone)]
pub struct DismissHandoffItemsInput {
    pub mission_id: Option<String>,
    pub dismissals: Vec<DismissItemInput>,
}

#[derive(Debug, Clone)]
pub struct DismissHandoffItemsOutput {
    pub success: bool,
    pub dismissed_count: usize,
    pub message: String,
}

#[derive(Debug, Default)]
pub struct DismissHandoffItemsTool;

/// A dismissal records an item as it was given.
pub open spec fn dismisses(d: HandoffDismissal, item: DismissItemInput) -> bool {
    &&& d.item_type == item.item_type
    &&& d.source_feature_id == item.source_feature_id
    &&& d.summary == item.summary
    &&& d.justification == item.justification
}

/// How the recording of some dismissals went.
#[derive(Debug)]
pub enum RecordEvent {
    /// There is no mission to record them in.
    NoMission,
    /// The progress log did not take them.
    Failed { error: String },
    Recorded,
}

impl DismissHandoffItemsTool {
    /// What the tool answers once the entry was to be recorded.
    pub fn run(&self, output: DismissHandoffItemsOutput, event: RecordEvent) -> (r: Result<
        DismissHandoffItemsOutput,
        ToolError,
    >)
        ensures
            match event {
                RecordEvent::NoMission => r is Err && r->Err_0@ == invalid_arguments(
                    "No matching mission found"@,
                ),
                RecordEvent::Failed { error } => r is Err && r->Err_0@ == execution_error(
                    DISMISS_HANDOFF_ITEMS_TOOL_NAME@,
                    "Failed to record dismissals: "@ + error@,
                ),
                RecordEvent::Recorded => r == Ok::<DismissHandoffItemsOutput, ToolError>(output),
            },
    {
        match event {
            RecordEvent::NoMission => Err(
                ToolError::invalid_arguments("No matching mission found"),
            ),
            RecordEvent::Failed { error } => Err(
                ToolError::execution(
                    DISMISS_HANDOFF_ITEMS_TOOL_NAME,
                    cat2("Failed to record dismissals: ", error.as_str()).as_str(),
                ),
            ),
            RecordEvent::Recorded => Ok(output),
        }
    }

    /// The entry of the progress log for some dismissals, and what the tool answers.
    pub fn dismiss(&self, items: &Vec<DismissItemInput>, now: &str) -> (r: (
        ProgressLogEntry,
        DismissHandoffItemsOutput,
    ))
        ensures
            match r.0 {
                ProgressLogEntry::HandoffItemsDismissed { timestamp, dismissals } => {
                    &&& timestamp@ == now@
                    &&& dismissals@.len() == items@.len()
                    &&& forall|i: int|
                        0 <= i < items@.len() ==> dismisses(#[trigger] dismissals@[i], items@[i])
                },
                _ => false,
            },
            r.1.success,
            r.1.dismissed_count == items@.len(),
            r.1.message@ == "Successfully recorded "@ + decimal(items@.len())
                + " handoff item dismissal(s)"@,
    {
        let mut dismissals: Vec<HandoffDismissal> = Vec::new();
        let mut i: usize = 0;
        while i < items.len()
            invariant
                i <= items@.len(),
                dismissals@.len() == i,
                forall|j: int| 0 <= j < i ==> dismisses(#[trigger] dismissals@[j], items@[j]),
            decreases items.len() - i,
        {
            dismissals.push(
                HandoffDismissal {
                    item_type: items[i].item_type.clone(),
                    source_feature_id: items[i].source_feature_id.clone(),
                    summary: items[i].summary.clone(),
                    justification: items[i].justification.clone(),
                },
            );
            i += 1;
        }
        let count: usize = dismissals.len();
        (
            ProgressLogEntry::HandoffItemsDismissed { timestamp: now.to_owned(), dismissals },
            DismissHandoffItemsOutput {
                success: true,
                dismissed_count: count,
                message: cat3(
                    "Successfully recorded ",
                    decimal_text(count as u64).as_str(),
                    " handoff item dismissal(s)",
                ),
            },
        )
    }
}

// ---- the end of a feature run ----

#[derive(Debug, Clone)]
pub struct EndFeatureRunInput {
    pub feature_id: String,
    /// "success", "failure" or "partial".
    pub success_state: String,
    pub return_to_orchestrator: Option<bool>,
    pub commit_id: Option<String>,
    pub exit_code: Option<i32>,
    pub handoff: WorkerHandoff,
    pub mission_id: Option<String>,
}

#[derive(Debug, Clone)]
pub struct EndFeatureRunOutput {
    pub success: bool,
    pub next_action: String,
    pub message: String,
}

#[derive(Debug, Default)]
pub struct EndFeatureRunTool;

/// The outcome that a lower-case word names; an unknown word is a failure.
pub open spec fn outcome_named(word: Seq<char>) -> WorkerSuccessState {
    if word == "success"@ {
        WorkerSuccessState::Success
    } else if word == "partial"@ {
        WorkerSuccessState::Partial
    } else {
        WorkerSuccessState::Failure
    }
}

/// The outcome that a lower-case word names; an unknown word is a failure.
pub fn outcome_of_word(word: &str) -> (r: WorkerSuccessState)
    ensures
        r == outcome_named(word@),
{
    if same_text(word, "success") {
        WorkerSuccessState::Success
    } else if same_text(word, "partial") {
        WorkerSuccessState::Partial
    } else {
        WorkerSuccessState::Failure
    }
}

/// What the tool answers: the next action and a message.
pub open spec fn end_answer(result: MissionRunStepResult, feature_id: Seq<char>) -> (
    Seq<char>,
    Seq<char>,
) {
    match result {
        MissionRunStepResult::WorkerReady { feature, .. } => (
            "next_worker_ready"@,
            "Feature '"@ + feature_id + "' concluded. Next feature '"@ + feature.id@
                + "' is queued."@,
        ),
        MissionRunStepResult::Completed => (
            "mission_completed"@,
            "Feature concluded and mission is 100% completed!"@,
        ),
        MissionRunStepResult::OrchestratorTurn { reason, .. } => (
            "orchestrator_turn"@,
            "Feature concluded. Returned to orchestrator: "@ + reason@,
        ),
        MissionRunStepResult::ScopeReviewRequired { .. } => (
            "scope_review_required"@,
            "Feature concluded. Scope expansion review required."@,
        ),
        MissionRunStepResult::Paused { reason } => (
            "paused"@,
            "Feature concluded. Mission paused: "@ + reason@,
        ),
    }
}

/// How the end of a feature run went.
#[derive(Debug)]
pub enum EndEvent {
    /// There is no mission.
    NoMission,
    /// The completion was not recorded.
    Failed { error: String },
    /// The runner took its next step.
    Stepped(MissionRunStepResult),
}

impl EndFeatureRunTool {
    /// The session under which a completion is recorded: a fresh one.
    pub fn worker_session_id(&self) -> (r: String)
        ensures
            uuid_text(r@),
    {
        random_id()
    }

    /// What the tool answers.
    pub fn run(&self, event: EndEvent, feature_id: &str) -> (r: Result<
        EndFeatureRunOutput,
        ToolError,
    >)
        ensures
            match event {
                EndEvent::NoMission => r is Err && r->Err_0@ == invalid_arguments(
                    "No active mission directory found"@,
                ),
                EndEvent::Failed { error } => r is Err && r->Err_0@ == execution_error(
                    END_FEATURE_RUN_TOOL_NAME@,
                    "Failed to record worker completion: "@ + error@,
                ),
                EndEvent::Stepped(result) => {
                    &&& r is Ok
                    &&& r->Ok_0.success
                    &&& (r->Ok_0.next_action@, r->Ok_0.message@) == end_answer(result, feature_id@)
                },
            },
    {
        match event {
            EndEvent::NoMission => Err(
                ToolError::invalid_arguments("No active mission directory found"),
            ),
            EndEvent::Failed { error } => Err(
                ToolError::execution(
                    END_FEATURE_RUN_TOOL_NAME,
                    cat2("Failed to record worker completion: ", error.as_str()).as_str(),
                ),
            ),
            EndEvent::Stepped(result) => Ok(self.answer(&result, feature_id)),
        }
    }

    /// The outcome that the input names, in any case.
    pub fn success_state(&self, input: &EndFeatureRunInput) -> (r: WorkerSuccessState)
        ensures
            r == outcome_named(lowercased(input.success_state@)),
    {
        outcome_of_word(lowercase(input.success_state.as_str()).as_str())
    }

    /// What the tool answers after the runner's step.
    pub fn answer(&self, result: &MissionRunStepResult, feature_id: &str) -> (r:
        EndFeatureRunOutput)
        ensures
            r.success,
            (r.next_action@, r.message@) == end_answer(*result, feature_id@),
    {
        let (next_action, message): (String, String) = match result {
            MissionRunStepResult::WorkerReady { feature, .. } => (
                "next_worker_ready".to_owned(),
                cat5(
                    "Feature '",
                    feature_id,
                    "' concluded. Next feature '",
                    feature.id.as_str(),
                    "' is queued.",
                ),
            ),
            MissionRunStepResult::Completed => (
                "mission_completed".to_owned(),
                "Feature concluded and mission is 100% completed!".to_owned(),
            ),
            MissionRunStepResult::OrchestratorTurn { reason, .. } => (
                "orchestrator_turn".to_owned(),
                cat2("Feature concluded. Returned to orchestrator: ", reason.as_str()),
            ),
            MissionRunStepResult::ScopeReviewRequired { .. } => (
                "scope_review_required".to_owned(),
                "Feature concluded. Scope expansion review required.".to_owned(),
            ),
            MissionRunStepResult::Paused { reason } => (
                "paused".to_owned(),
                cat2("Feature concluded. Mission paused: ", reason.as_str()),
            ),
        };
        EndFeatureRunOutput { success: true, next_action, message }
    }
}

// ---- readiness ----

#[derive(Debug, Clone)]
pub struct InspectMissionReadinessInput {
    pub mission_id: Option<String>,
}

#[derive(Debug, Clone)]
pub struct ReadinessCheckItem {
    pub check: String,
    pub passed: bool,
    pub details: String,
}

#[derive(Debug, Clone)]
pub struct InspectMissionReadinessOutput {
    pub ready: bool,
    pub total_features: usize,
    pub checks: Vec<ReadinessCheckItem>,
    pub missing_skills: Vec<String>,
    pub summary: String,
}

#[derive(Debug, Default)]
pub struct InspectMissionReadinessTool;

/// The ids of a queue.
pub open spec fn ids_of(fs: Seq<FeatureView>) -> Seq<Seq<char>> {
    fs.map_values(|f: FeatureView| f.id)
}

/// The ids that occur before, once for each further occurrence.
pub open spec fn repeated(ids: Seq<Seq<char>>) -> Seq<Seq<char>>
    decreases ids.len(),
{
    if ids.len() == 0 {
        Seq::empty()
    } else if ids.drop_last().contains(ids.last()) {
        repeated(ids.drop_last()).push(ids.last())
    } else {
        repeated(ids.drop_last())
    }
}

/// The skills that were not found, each once, in the order of the features.
pub open spec fn missing(fs: Seq<FeatureView>, found: Seq<bool>) -> Seq<Seq<char>>
    decreases fs.len(),
{
    if fs.len() == 0 {
        Seq::empty()
    } else {
        let before = missing(fs.drop_last(), found);
        if !found[fs.len() - 1] && !before.contains(fs.last().skill_name) {
            before.push(fs.last().skill_name)
        } else {
            before
        }
    }
}

/// One check of the inspection.
pub struct CheckView {
    pub check: Seq<char>,
    pub passed: bool,
    pub details: Seq<char>,
}

impl View for ReadinessCheckItem {
    type V = CheckView;

    open spec fn view(&self) -> CheckView {
        CheckView { check: self.check@, passed: self.passed, details: self.details@ }
    }
}

/// The check of the state file.
pub open spec fn state_check(state: Result<MissionStateFile, String>) -> CheckView {
    match state {
        Ok(s) => CheckView {
            check: "state_file"@,
            passed: true,
            details: "State file valid (status: "@ + s.state.variant() + ", missionId: "@
                + s.mission_id@ + ")"@,
        },
        Err(e) => CheckView {
            check: "state_file"@,
            passed: false,
            details: "Failed to read state.json: "@ + e@,
        },
    }
}

/// The check of the feature queue.
pub open spec fn features_check(features: Result<FeaturesFile, String>) -> CheckView {
    match features {
        Ok(f) => CheckView {
            check: "features_file"@,
            passed: true,
            details: "features.json contains "@ + decimal(f@.len()) + " defined features"@,
        },
        Err(e) => CheckView {
            check: "features_file"@,
            passed: false,
            details: "Failed to read features.json: "@ + e@,
        },
    }
}

/// The features that were read, if any.
pub open spec fn queue_read(features: Result<FeaturesFile, String>) -> Seq<FeatureView> {
    match features {
        Ok(f) => f@,
        Err(_) => Seq::empty(),
    }
}

/// The check for ids that occur twice.
pub open spec fn ids_check(ids: Seq<Seq<char>>) -> CheckView {
    if repeated(ids).len() == 0 {
        CheckView {
            check: "duplicate_feature_ids"@,
            passed: true,
            details: "All feature IDs are unique"@,
        }
    } else {
        CheckView {
            check: "duplicate_feature_ids"@,
            passed: false,
            details: "Duplicate feature IDs found: "@ + shown_list(repeated(ids)),
        }
    }
}

/// The check for skills that are not there. It does not stand in the way of a run.
pub open spec fn skills_check(absent: Seq<Seq<char>>) -> CheckView {
    if absent.len() == 0 {
        CheckView {
            check: "worker_skills"@,
            passed: true,
            details: "All referenced worker skills exist in skills/ directory"@,
        }
    } else {
        CheckView {
            check: "worker_skills"@,
            passed: false,
            details: "Missing skill files for: "@ + shown_list(absent),
        }
    }
}

/// The mission can run: both files were read and no id occurs twice.
pub open spec fn mission_ready(
    state: Result<MissionStateFile, String>,
    features: Result<FeaturesFile, String>,
) -> bool {
    state is Ok && features is Ok && repeated(ids_of(queue_read(features))).len() == 0
}

/// The number of different ids is what the repetitions leave.
proof fn lemma_distinct_count(ids: Seq<Seq<char>>)
    ensures
        ids.to_set().finite(),
        ids.to_set().len() + repeated(ids).len() == ids.len(),
    decreases ids.len(),
{
    broadcast use vstd::seq_lib::seq_to_set_is_finite;

    if ids.len() == 0 {
        assert(ids.to_set() =~= Set::empty());
    } else {
        let short = ids.drop_last();
        lemma_distinct_count(short);
        assert(ids.to_set() =~= short.to_set().insert(ids.last())) by {
            assert forall|x: Seq<char>| ids.to_set().contains(x) <==> short.to_set().insert(
                ids.last(),
            ).contains(x) by {
                if ids.contains(x) {
                    let i = choose|i: int| 0 <= i < ids.len() && ids[i] == x;
                    if i < short.len() {
                        assert(short[i] == x);
                    }
                }
                if short.contains(x) {
                    let i = choose|i: int| 0 <= i < short.len() && short[i] == x;
                    assert(ids[i] == x);
                }
                assert(ids[ids.len() - 1] == ids.last());
            }
        }
        assert(short.to_set().contains(ids.last()) == short.contains(ids.last()));
    }
}

/// What an inspection says of a mission.
pub open spec fn inspected(
    r: InspectMissionReadinessOutput,
    state: Result<MissionStateFile, String>,
    features: Result<FeaturesFile, String>,
    skills_found: Seq<bool>,
) -> bool {
    let queue = queue_read(features);
    &&& r.ready == mission_ready(state, features)
    &&& r.total_features == queue.len()
    &&& views(r.missing_skills@) == missing(queue, skills_found)
    &&& r.checks@.len() == 4
    &&& r.checks@[0]@ == state_check(state)
    &&& r.checks@[1]@ == features_check(features)
    &&& r.checks@[2]@ == ids_check(ids_of(queue))
    &&& r.checks@[3]@ == skills_check(missing(queue, skills_found))
    &&& r.summary@ == (if mission_ready(state, features) {
        "Mission is READY. "@ + decimal(queue.len()) + " features queued across "@ + decimal(
            ids_of(queue).to_set().len(),
        ) + " milestones."@
    } else {
        "Mission is NOT ready. Resolve failing checks before starting."@
    })
}

impl InspectMissionReadinessTool {
    /// What the tool answers. `mission_found` says whether there is a mission to
    /// inspect.
    pub fn run(
        &self,
        mission_found: bool,
        state: &Result<MissionStateFile, String>,
        features: &Result<FeaturesFile, String>,
        skills_found: &Vec<bool>,
    ) -> (r: Result<InspectMissionReadinessOutput, ToolError>)
        requires
            skills_found@.len() == queue_read(*features).len(),
        ensures
            match r {
                Ok(output) => mission_found && inspected(
                    output,
                    *state,
                    *features,
                    skills_found@,
                ),
                Err(e) => !mission_found && e@ == invalid_arguments(
                    "No matching mission found to inspect"@,
                ),
            },
    {
        if mission_found {
            Ok(self.inspect(state, features, skills_found))
        } else {
            Err(ToolError::invalid_arguments("No matching mission found to inspect"))
        }
    }

    /// Inspects a mission: `skills_found` says for each feature whether the
    /// file of its skill is there.
    pub fn inspect(
        &self,
        state: &Result<MissionStateFile, String>,
        features: &Result<FeaturesFile, String>,
        skills_found: &Vec<bool>,
    ) -> (r: InspectMissionReadinessOutput)
        requires
            skills_found@.len() == queue_read(*features).len(),
        ensures
            inspected(r, *state, *features, skills_found@),
    {
        let mut checks: Vec<ReadinessCheckItem> = Vec::new();
        let mut ready: bool = true;
        match state {
            Ok(s) => {
                checks.push(
                    ReadinessCheckItem {
                        check: "state_file".to_owned(),
                        passed: true,
                        details: cat5(
                            "State file valid (status: ",
                            s.state.variant_name().as_str(),
                            ", missionId: ",
                            s.mission_id.as_str(),
                            ")",
                        ),
                    },
                );
            },
            Err(e) => {
                ready = false;
                checks.push(
                    ReadinessCheckItem {
                        check: "state_file".to_owned(),
                        passed: false,
                        details: cat2("Failed to read state.json: ", e.as_str()),
                    },
                );
            },
        }
        let none: FeaturesFile = FeaturesFile { features: Vec::new() };
        proof {
            assert(none@ =~= Seq::empty());
        }
        let file: &FeaturesFile = match features {
            Ok(f) => {
                proof {
                    assert(f@.len() == f.features@.len());
                }
                checks.push(
                    ReadinessCheckItem {
                        check: "features_file".to_owned(),
                        passed: true,
                        details: cat3(
                            "features.json contains ",
                            decimal_text(f.features.len() as u64).as_str(),
                            " defined features",
                        ),
                    },
                );
                f
            },
            Err(e) => {
                ready = false;
                checks.push(
                    ReadinessCheckItem {
                        check: "features_file".to_owned(),
                        passed: false,
                        details: cat2("Failed to read features.json: ", e.as_str()),
                    },
                );
                &none
            },
        };
        let ghost queue = queue_read(*features);
        let ghost ids = ids_of(queue);
        let mut duplicates: Vec<String> = Vec::new();
        let mut missing_skills: Vec<String> = Vec::new();
        let mut seen: Vec<String> = Vec::new();
        let mut i: usize = 0;
        proof {
            assert(file@ == queue);
            assert(queue.len() == file.features@.len());
        }
        while i < file.features.len()
            invariant
                i <= file.features@.len(),
                queue == file@,
                queue.len() == file.features@.len(),
                skills_found@.len() == queue.len(),
                ids == ids_of(queue),
                views(seen@) =~= ids.take(i as int),
                views(duplicates@) =~= repeated(ids.take(i as int)),
                views(missing_skills@) =~= missing(queue.take(i as int), skills_found@),
            decreases file.features.len() - i,
        {
            let f: &Feature = &file.features[i];
            proof {
                assert(queue[i as int] == file.features@[i as int]@);
                assert(ids[i as int] == f.id@);
                assert(ids.take(i as int + 1).drop_last() =~= ids.take(i as int));
                assert(queue.take(i as int + 1).drop_last() =~= queue.take(i as int));
                lemma_in_list(seen@, f.id@);
                lemma_in_list(missing_skills@, f.skill_name@);
            }
            if list_holds(&seen, f.id.as_str()) {
                let ghost before = views(duplicates@);
                duplicates.push(f.id.clone());
                proof {
                    assert(views(duplicates@) =~= before.push(f.id@));
                }
            }
            let ghost known = views(seen@);
            seen.push(f.id.clone());
            proof {
                assert(views(seen@) =~= known.push(f.id@));
            }
            if !skills_found[i] && !list_holds(&missing_skills, f.skill_name.as_str()) {
                let ghost before = views(missing_skills@);
                missing_skills.push(f.skill_name.clone());
                proof {
                    assert(views(missing_skills@) =~= before.push(f.skill_name@));
                }
            }
            i += 1;
        }
        proof {
            assert(ids.len() == queue.len());
            assert(ids.take(ids.len() as int) =~= ids);
            assert(queue.take(queue.len() as int) =~= queue);
            assert(views(duplicates@).len() == duplicates@.len());
            assert(views(missing_skills@).len() == missing_skills@.len());
            lemma_distinct_count(ids);
        }
        if duplicates.len() == 0 {
            checks.push(
                ReadinessCheckItem {
                    check: "duplicate_feature_ids".to_owned(),
                    passed: true,
                    details: "All feature IDs are unique".to_owned(),
                },
            );
        } else {
            ready = false;
            checks.push(
                ReadinessCheckItem {
                    check: "duplicate_feature_ids".to_owned(),
                    passed: false,
                    details: cat2(
                        "Duplicate feature IDs found: ",
                        show_list(&duplicates).as_str(),
                    ),
                },
            );
        }
        if missing_skills.len() == 0 {
            checks.push(
                ReadinessCheckItem {
                    check: "worker_skills".to_owned(),
                    passed: true,
                    details: "All referenced worker skills exist in skills/ directory".to_owned(),
                },
            );
        } else {
            checks.push(
                ReadinessCheckItem {
                    check: "worker_skills".to_owned(),
                    passed: false,
                    details: cat2(
                        "Missing skill files for: ",
                        show_list(&missing_skills).as_str(),
                    ),
                },
            );
        }
        let total: usize = file.features.len();
        let summary: String = if ready {
            let distinct: u64 = (total - duplicates.len()) as u64;
            let head: String = cat3(
                "Mission is READY. ",
                decimal_text(total as u64).as_str(),
                " features queued across ",
            );
            cat3(head.as_str(), decimal_text(distinct).as_str(), " milestones.")
        } else {
            "Mission is NOT ready. Resolve failing checks before starting.".to_owned()
        };
        InspectMissionReadinessOutput {
            ready,
            total_features: total,
            checks,
            missing_skills,
            summary,
        }
    }
}

// ---- proposals ----

#[derive(Debug, Clone)]
pub struct ProposeMissionInput {
    pub title: String,
    pub overview: String,
    pub working_directory: Option<String>,
    pub mission_id: Option<String>,
}

#[derive(Debug, Clone)]
pub struct ProposeMissionOutput {
    pub success: bool,
    pub mission_id: String,
    pub mission_dir: String,
    pub message: String,
}

#[derive(Debug, Default)]
pub struct ProposeMissionTool;

/// What a proposal writes and answers.
#[derive(Debug)]
pub struct Proposal {
    pub state: MissionStateFile,
    pub mission_md: String,
    pub entry: ProgressLogEntry,
    pub output: ProposeMissionOutput,
}

/// The number of bytes of a mission's directory name that its public id keeps.
pub open spec fn short_id_bytes(id: Seq<char>) -> int {
    if byte_len(id) < 8 {
        byte_len(id) as int
    } else {
        8
    }
}

/// The public id of a mission: `mis_` and the first bytes of its directory name.
pub open spec fn is_public_id(public: Seq<char>, id: Seq<char>) -> bool {
    exists|short: Seq<char>|
        {
            &&& #[trigger] encode_utf8(short) == encode_utf8(id).take(short_id_bytes(id))
            &&& public == "mis_"@ + short
        }
}

impl ProposeMissionTool {
    /// The name of the mission's directory: the one asked for, or a fresh one.
    pub fn mission_id(&self, input: &ProposeMissionInput) -> (r: String)
        ensures
            match input.mission_id {
                Some(id) => r@ == id@,
                None => uuid_text(r@),
            },
    {
        match &input.mission_id {
            Some(id) => id.clone(),
            None => random_id(),
        }
    }

    /// Where the mission works: where it is asked to, or in the current
    /// directory.
    pub fn working_directory(&self, input: &ProposeMissionInput, current: Option<String>) -> (r:
        String)
        ensures
            r@ == (match (input.working_directory, current) {
                (Some(wd), _) => wd@,
                (None, Some(wd)) => wd@,
                (None, None) => "."@,
            }),
    {
        match &input.working_directory {
            Some(wd) => wd.clone(),
            None => match current {
                Some(wd) => wd,
                None => ".".to_owned(),
            },
        }
    }

    /// What the tool answers once the mission's directory was to be made.
    pub fn run(&self, proposal: Proposal, made: Result<(), String>) -> (r: Result<
        ProposeMissionOutput,
        ToolError,
    >)
        ensures
            match made {
                Ok(_) => r == Ok::<ProposeMissionOutput, ToolError>(proposal.output),
                Err(error) => r is Err && r->Err_0@ == execution_error(
                    PROPOSE_MISSION_TOOL_NAME@,
                    "Failed to init mission dir: "@ + error@,
                ),
            },
    {
        match made {
            Ok(_) => Ok(proposal.output),
            Err(error) => Err(
                ToolError::execution(
                    PROPOSE_MISSION_TOOL_NAME,
                    cat2("Failed to init mission dir: ", error.as_str()).as_str(),
                ),
            ),
        }
    }

    /// Sets up a mission with the directory name `id` under `missions_dir`.
    pub fn propose(
        &self,
        title: &str,
        overview: &str,
        working_directory: &str,
        missions_dir: &str,
        id: &str,
        now: &str,
    ) -> (r: Proposal)
        requires
            is_char_boundary(encode_utf8(id@), short_id_bytes(id@)),
        ensures
            is_public_id(r.state.mission_id@, id@),
            r.state.state == MissionState::AwaitingInput,
            r.state.working_directory@ == working_directory@,
            r.state.created_at@ == now@,
            r.state.updated_at@ == now@,
            r.state.initial_feature_count is None,
            r.state.last_reviewed_handoff_count is None,
            r.state.feature_retry_budget_bonus@.len() == 0,
            r.mission_md@ == "# "@ + trimmed(title@) + "\n\n"@ + trimmed(overview@),
            match r.entry {
                ProgressLogEntry::MissionAccepted { timestamp, title: shown } => timestamp@ == now@
                    && shown@ == title@,
                _ => false,
            },
            r.output.success,
            r.output.mission_id@ == id@,
            r.output.mission_dir@ == path_below(missions_dir@, id@),
            r.output.message@ == "Mission \""@ + title@ + "\" initialized successfully at "@
                + path_below(missions_dir@, id@),
    {
        let dir: String = join_path(missions_dir, id);
        let bytes: usize = byte_count(id);
        let keep: usize = if bytes < 8 {
            bytes
        } else {
            8
        };
        let short: &str = id.split_at(keep).0;
        proof {
            assert(encode_utf8(short@) =~= encode_utf8(id@).take(short_id_bytes(id@)));
        }
        let service: MissionFileService = MissionFileService::new(dir.as_str());
        let message: String = cat4(
            "Mission \"",
            title,
            "\" initialized successfully at ",
            dir.as_str(),
        );
        Proposal {
            state: MissionStateFile {
                mission_id: cat2("mis_", short),
                state: MissionState::AwaitingInput,
                working_directory: working_directory.to_owned(),
                created_at: now.to_owned(),
                updated_at: now.to_owned(),
                initial_feature_count: None,
                last_reviewed_handoff_count: None,
                feature_retry_budget_bonus: Vec::new(),
            },
            mission_md: service.mission_md(title, overview),
            entry: ProgressLogEntry::MissionAccepted {
                timestamp: now.to_owned(),
                title: title.to_owned(),
            },
            output: ProposeMissionOutput {
                success: true,
                mission_id: id.to_owned(),
                mission_dir: dir,
                message,
            },
        }
    }
}

// ---- the start of a run ----

#[derive(Debug, Clone)]
pub struct StartMissionRunInput {
    pub mission_id: Option<String>,
    pub resume_worker_session_id: Option<String>,
    pub restart_feature: Option<bool>,
    pub message_to_worker: Option<String>,
}

#[derive(Debug, Clone)]
pub struct StartMissionRunOutput {
    pub success: bool,
    pub status: String,
    pub active_feature_id: Option<String>,
    pub skill_name: Option<String>,
    pub worker_prompt: Option<String>,
    pub message: String,
}

#[derive(Debug, Default)]
pub struct StartMissionRunTool;

/// The queue after the feature in progress is to start from scratch.
pub open spec fn restarted(fs: Seq<FeatureView>) -> Seq<FeatureView> {
    match first_with(fs, FeatureStatus::InProgress) {
        Some(i) => with_feature(fs, reverted(fs[i])),
        None => fs,
    }
}

/// What a `start_mission_run` answer holds.
#[verifier::ext_equal]
pub struct StartView {
    pub success: bool,
    pub status: Seq<char>,
    pub active_feature_id: Option<Seq<char>>,
    pub skill_name: Option<Seq<char>>,
    pub worker_prompt: Option<Seq<char>>,
    pub message: Seq<char>,
}

impl View for StartMissionRunOutput {
    type V = StartView;

    open spec fn view(&self) -> StartView {
        StartView {
            success: self.success,
            status: self.status@,
            active_feature_id: option_view(self.active_feature_id),
            skill_name: option_view(self.skill_name),
            worker_prompt: option_view(self.worker_prompt),
            message: self.message@,
        }
    }
}

/// The answer to a step that launches no worker.
pub open spec fn start_without_worker(
    success: bool,
    status: Seq<char>,
    feature_id: Option<Seq<char>>,
    message: Seq<char>,
) -> StartView {
    StartView {
        success,
        status,
        active_feature_id: feature_id,
        skill_name: None,
        worker_prompt: None,
        message,
    }
}

/// What the tool answers to a step.
pub open spec fn start_answer(
    result: MissionRunStepResult,
    message_to_worker: Option<Seq<char>>,
) -> StartView {
    match result {
        MissionRunStepResult::WorkerReady { feature, worker_prompt, skill_name, .. } => StartView {
            success: true,
            status: "worker_ready"@,
            active_feature_id: Some(feature.id@),
            skill_name: Some(skill_name@),
            worker_prompt: Some(
                match message_to_worker {
                    Some(m) => "## Direct Orchestrator Instructions:\n"@ + m + "\n\n"@
                        + worker_prompt@,
                    None => worker_prompt@,
                },
            ),
            message: "Worker ready for feature '"@ + feature.id@
                + "'. Proceeding with worker execution."@,
        },
        MissionRunStepResult::Completed => start_without_worker(
            true,
            "completed"@,
            None,
            "All mission features and validation gates have completed successfully!"@,
        ),
        MissionRunStepResult::ScopeReviewRequired {
            initial_count,
            current_count,
        } => start_without_worker(
            false,
            "scope_review_required"@,
            None,
            "MISSION SCOPE REVIEW REQUIRED: Mission started with "@ + decimal(initial_count as nat)
                + " features and now has "@ + decimal(current_count as nat)
                + ". Review features.json before continuing."@,
        ),
        MissionRunStepResult::OrchestratorTurn { reason, feature_id } => start_without_worker(
            false,
            "orchestrator_turn"@,
            option_view(feature_id),
            "Control returned to orchestrator: "@ + reason@,
        ),
        MissionRunStepResult::Paused { reason } => start_without_worker(
            false,
            "paused"@,
            None,
            "Mission paused: "@ + reason@,
        ),
    }
}

/// How a run of a mission went.
#[derive(Debug)]
pub enum RunEvent {
    /// There is no mission.
    NoMission,
    /// The run could not be prepared.
    Unprepared { error: String },
    /// The runner failed.
    Failed { error: String },
    /// The runner took a step.
    Stepped(MissionRunStepResult),
}

impl StartMissionRunTool {
    /// What the tool answers.
    pub fn run(&self, event: RunEvent, message_to_worker: &Option<String>) -> (r: Result<
        StartMissionRunOutput,
        ToolError,
    >)
        ensures
            match event {
                RunEvent::NoMission => r is Err && r->Err_0@ == invalid_arguments(
                    "No matching mission found to run"@,
                ),
                RunEvent::Unprepared { error } => r is Err && r->Err_0@ == execution_error(
                    START_MISSION_RUN_TOOL_NAME@,
                    "Failed to prepare mission run: "@ + error@,
                ),
                RunEvent::Failed { error } => r is Err && r->Err_0@ == execution_error(
                    START_MISSION_RUN_TOOL_NAME@,
                    "Runner error: "@ + error@,
                ),
                RunEvent::Stepped(result) => r is Ok && r->Ok_0@ == start_answer(
                    result,
                    option_view(*message_to_worker),
                ),
            },
    {
        match event {
            RunEvent::NoMission => Err(
                ToolError::invalid_arguments("No matching mission found to run"),
            ),
            RunEvent::Unprepared { error } => Err(
                ToolError::execution(
                    START_MISSION_RUN_TOOL_NAME,
                    cat2("Failed to prepare mission run: ", error.as_str()).as_str(),
                ),
            ),
            RunEvent::Failed { error } => Err(
                ToolError::execution(
                    START_MISSION_RUN_TOOL_NAME,
                    cat2("Runner error: ", error.as_str()).as_str(),
                ),
            ),
            RunEvent::Stepped(result) => Ok(self.answer(result, message_to_worker)),
        }
    }

    /// Puts the feature in progress back in the queue.
    pub fn restart_feature(&self, service: &MissionFileService, file: &mut FeaturesFile)
        ensures
            final(file)@ == restarted(old(file)@),
    {
        proof {
            lemma_first_with(file@, FeatureStatus::InProgress);
        }
        if let Some(f) = service.get_in_progress_feature(file) {
            let mut again: Feature = f;
            let ghost before = again@;
            again.current_worker_session_id = None;
            again.status = FeatureStatus::Pending;
            proof {
                assert(again@ =~= reverted(before));
            }
            service.update_feature(file, &again);
        }
    }

    /// What the tool answers to a step.
    pub fn answer(
        &self,
        result: MissionRunStepResult,
        message_to_worker: &Option<String>,
    ) -> (r: StartMissionRunOutput)
        ensures
            r@ == start_answer(result, option_view(*message_to_worker)),
    {
        match result {
            MissionRunStepResult::WorkerReady { feature, worker_prompt, skill_name, .. } => {
                let prompt: String = match message_to_worker {
                    Some(m) => cat4(
                        "## Direct Orchestrator Instructions:\n",
                        m.as_str(),
                        "\n\n",
                        worker_prompt.as_str(),
                    ),
                    None => worker_prompt,
                };
                let message: String = cat3(
                    "Worker ready for feature '",
                    feature.id.as_str(),
                    "'. Proceeding with worker execution.",
                );
                StartMissionRunOutput {
                    success: true,
                    status: "worker_ready".to_owned(),
                    active_feature_id: Some(feature.id),
                    skill_name: Some(skill_name),
                    worker_prompt: Some(prompt),
                    message,
                }
            },
            MissionRunStepResult::Completed => StartMissionRunOutput {
                success: true,
                status: "completed".to_owned(),
                active_feature_id: None,
                skill_name: None,
                worker_prompt: None,
                message:
                    "All mission features and validation gates have completed successfully!".to_owned(),
            },
            MissionRunStepResult::ScopeReviewRequired { initial_count, current_count } => {
                let head: String = cat3(
                    "MISSION SCOPE REVIEW REQUIRED: Mission started with ",
                    decimal_text(initial_count as u64).as_str(),
                    " features and now has ",
                );
                StartMissionRunOutput {
                    success: false,
                    status: "scope_review_required".to_owned(),
                    active_feature_id: None,
                    skill_name: None,
                    worker_prompt: None,
                    message: cat3(
                        head.as_str(),
                        decimal_text(current_count as u64).as_str(),
                        ". Review features.json before continuing.",
                    ),
                }
            },
            MissionRunStepResult::OrchestratorTurn { reason, feature_id } => StartMissionRunOutput {
                success: false,
                status: "orchestrator_turn".to_owned(),
                active_feature_id: feature_id,
                skill_name: None,
                worker_prompt: None,
                message: cat2("Control returned to orchestrator: ", reason.as_str()),
            },
            MissionRunStepResult::Paused { reason } => StartMissionRunOutput {
                success: false,
                status: "paused".to_owned(),
                active_feature_id: None,
                skill_name: None,
                worker_prompt: None,
                message: cat2("Mission paused: ", reason.as_str()),
            },
        }
    }
}

/// The mission directory that a tool works on: the mission that the query
/// finds, else the query itself where it is a directory, else the first mission
/// of the workspace, else the most recent mission.
pub fn resolve_mission_dir(
    query: Option<String>,
    found: Option<String>,
    query_is_dir: bool,
    of_workspace: Option<String>,
    most_recent: Option<String>,
) -> (r: Option<String>)
    ensures
        r == (if query is Some && found is Some {
            found
        } else if query is Some && query_is_dir {
            query
        } else if of_workspace is Some {
            of_workspace
        } else {
            most_recent
        }),
{
    if query.is_some() && found.is_some() {
        found
    } else if query.is_some() && query_is_dir {
        query
    } else if of_workspace.is_some() {
        of_workspace
    } else {
        most_recent
    }
}

// ---- what the tools say of themselves ----

impl DismissHandoffItemsTool {
    /// What the tool says of itself.
    pub fn metadata(&self) -> (r: ToolMetadata)
        ensures
            r@ == (MetadataView {
                id: DISMISS_HANDOFF_ITEMS_TOOL_NAME@,
                kind: ToolKind::Plan,
                namespace: ToolNamespace::GrokBuild,
                read_only: false,
                description: "Dismiss worker handoff items (discovered issues or incomplete work) with explicit justification.\nEvery item dismissed is durably appended to progress_log.jsonl to maintain verification auditability."@,
            }),
    {
        ToolMetadata {
            id: DISMISS_HANDOFF_ITEMS_TOOL_NAME,
            kind: ToolKind::Plan,
            namespace: ToolNamespace::GrokBuild,
            read_only: false,
            description: "Dismiss worker handoff items (discovered issues or incomplete work) with explicit justification.\nEvery item dismissed is durably appended to progress_log.jsonl to maintain verification auditability.",
        }
    }
}

impl EndFeatureRunTool {
    /// What the tool says of itself.
    pub fn metadata(&self) -> (r: ToolMetadata)
        ensures
            r@ == (MetadataView {
                id: END_FEATURE_RUN_TOOL_NAME@,
                kind: ToolKind::Plan,
                namespace: ToolNamespace::GrokBuild,
                read_only: false,
                description: "Conclude work on a mission feature and produce a structured handoff.\nRecords implementation summary, test coverage, verification commands, and any discovered issues."@,
            }),
    {
        ToolMetadata {
            id: END_FEATURE_RUN_TOOL_NAME,
            kind: ToolKind::Plan,
            namespace: ToolNamespace::GrokBuild,
            read_only: false,
            description: "Conclude work on a mission feature and produce a structured handoff.\nRecords implementation summary, test coverage, verification commands, and any discovered issues.",
        }
    }
}

impl InspectMissionReadinessTool {
    /// What the tool says of itself.
    pub fn metadata(&self) -> (r: ToolMetadata)
        ensures
            r@ == (MetadataView {
                id: INSPECT_MISSION_READINESS_TOOL_NAME@,
                kind: ToolKind::Plan,
                namespace: ToolNamespace::GrokBuild,
                read_only: true,
                description: "Inspect mission readiness before execution.\nValidates features.json structure, verifies that every feature references an existing skill, and checks contract assertions."@,
            }),
    {
        ToolMetadata {
            id: INSPECT_MISSION_READINESS_TOOL_NAME,
            kind: ToolKind::Plan,
            namespace: ToolNamespace::GrokBuild,
            read_only: true,
            description: "Inspect mission readiness before execution.\nValidates features.json structure, verifies that every feature references an existing skill, and checks contract assertions.",
        }
    }
}

impl ProposeMissionTool {
    /// What the tool says of itself.
    pub fn metadata(&self) -> (r: ToolMetadata)
        ensures
            r@ == (MetadataView {
                id: PROPOSE_MISSION_TOOL_NAME@,
                kind: ToolKind::Plan,
                namespace: ToolNamespace::GrokBuild,
                read_only: false,
                description: "Propose and initialize a new long-running autonomous mission.\nCreates the mission workspace, initial state.json, mission.md, empty features.json, and default worker skills.\nCall this tool after completing initial planning with the user."@,
            }),
    {
        ToolMetadata {
            id: PROPOSE_MISSION_TOOL_NAME,
            kind: ToolKind::Plan,
            namespace: ToolNamespace::GrokBuild,
            read_only: false,
            description: "Propose and initialize a new long-running autonomous mission.\nCreates the mission workspace, initial state.json, mission.md, empty features.json, and default worker skills.\nCall this tool after completing initial planning with the user.",
        }
    }
}

impl StartMissionRunTool {
    /// What the tool says of itself.
    pub fn metadata(&self) -> (r: ToolMetadata)
        ensures
            r@ == (MetadataView {
                id: START_MISSION_RUN_TOOL_NAME@,
                kind: ToolKind::Plan,
                namespace: ToolNamespace::GrokBuild,
                read_only: false,
                description: "Begin or resume autonomous worker execution for a mission.\nDispatches worker subagents to implement features from features.json sequentially, enforcing verification gates and collecting structured handoffs."@,
            }),
    {
        ToolMetadata {
            id: START_MISSION_RUN_TOOL_NAME,
            kind: ToolKind::Plan,
            namespace: ToolNamespace::GrokBuild,
            read_only: false,
            description: "Begin or resume autonomous worker execution for a mission.\nDispatches worker subagents to implement features from features.json sequentially, enforcing verification gates and collecting structured handoffs.",
        }
    }
}

} // verus!
