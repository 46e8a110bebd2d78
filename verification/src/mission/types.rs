//! Mission data models.
use vstd::prelude::*;
#[allow(unused_imports)]
use vstd::string::*;

#[allow(unused_imports)]
use crate::text::{copy_list, copy_option, option_view, views};

verus! {

/// The lifecycle state of a mission.
#[derive(Debug, Clone, Copy, PartialEq, Eq, Structural)]
pub enum MissionState {
    /// Waiting for user or orchestrator input.
    AwaitingInput,
    /// Actively executing features via workers.
    Running,
    /// Paused by user or runner.
    Paused,
    /// Yielded back to the orchestrator for review.
    OrchestratorTurn,
    /// All implementation and validation features completed.
    Completed,
}

impl MissionState {
    /// The name of the state in files and messages.
    pub open spec fn text(self) -> Seq<char> {
        match self {
            MissionState::AwaitingInput => "awaiting_input"@,
            MissionState::Running => "running"@,
            MissionState::Paused => "paused"@,
            MissionState::OrchestratorTurn => "orchestrator_turn"@,
            MissionState::Completed => "completed"@,
        }
    }

    /// The name of the state in files and messages.
    pub fn to_text(self) -> (r: String)
        ensures
            r@ == self.text(),
    {
        match self {
            MissionState::AwaitingInput => "awaiting_input".to_owned(),
            MissionState::Running => "running".to_owned(),
            MissionState::Paused => "paused".to_owned(),
            MissionState::OrchestratorTurn => "orchestrator_turn".to_owned(),
            MissionState::Completed => "completed".to_owned(),
        }
    }

    /// The name of the variant.
    pub open spec fn variant(self) -> Seq<char> {
        match self {
            MissionState::AwaitingInput => "AwaitingInput"@,
            MissionState::Running => "Running"@,
            MissionState::Paused => "Paused"@,
            MissionState::OrchestratorTurn => "OrchestratorTurn"@,
            MissionState::Completed => "Completed"@,
        }
    }

    /// The name of the variant.
    pub fn variant_name(self) -> (r: String)
        ensures
            r@ == self.variant(),
    {
        match self {
            MissionState::AwaitingInput => "AwaitingInput".to_owned(),
            MissionState::Running => "Running".to_owned(),
            MissionState::Paused => "Paused".to_owned(),
            MissionState::OrchestratorTurn => "OrchestratorTurn".to_owned(),
            MissionState::Completed => "Completed".to_owned(),
        }
    }
}

/// The content of `state.json` in a mission directory.
#[derive(Debug, Clone)]
pub struct MissionStateFile {
    /// Public mission identifier, e.g. "mis_24348f5c".
    pub mission_id: String,
    /// Current state of the mission.
    pub state: MissionState,
    /// Target repository or workspace directory.
    pub working_directory: String,
    /// ISO 8601 creation timestamp.
    pub created_at: String,
    /// ISO 8601 last update timestamp.
    pub updated_at: String,
    /// Count of features when the run began, for scope checks.
    pub initial_feature_count: Option<usize>,
    /// Number of handoffs reviewed by the orchestrator so far.
    pub last_reviewed_handoff_count: Option<usize>,
    /// Extra retry budget granted per feature id.
    pub feature_retry_budget_bonus: Vec<(String, u32)>,
}

/// Two state files agree in all but the state and the time of the last update.
pub open spec fn same_mission(a: MissionStateFile, b: MissionStateFile) -> bool {
    &&& a.mission_id == b.mission_id
    &&& a.working_directory == b.working_directory
    &&& a.created_at == b.created_at
    &&& a.initial_feature_count == b.initial_feature_count
    &&& a.last_reviewed_handoff_count == b.last_reviewed_handoff_count
    &&& a.feature_retry_budget_bonus == b.feature_retry_budget_bonus
}

/// Status of one feature in the queue.
#[derive(Debug, Clone, Copy, PartialEq, Eq, Structural)]
pub enum FeatureStatus {
    Pending,
    InProgress,
    Completed,
}

impl FeatureStatus {
    /// The name of the status in files.
    pub open spec fn text(self) -> Seq<char> {
        match self {
            FeatureStatus::Pending => "pending"@,
            FeatureStatus::InProgress => "in_progress"@,
            FeatureStatus::Completed => "completed"@,
        }
    }

    /// The name of the status in files.
    pub fn to_text(self) -> (r: String)
        ensures
            r@ == self.text(),
    {
        match self {
            FeatureStatus::Pending => "pending".to_owned(),
            FeatureStatus::InProgress => "in_progress".to_owned(),
            FeatureStatus::Completed => "completed".to_owned(),
        }
    }
}

/// A feature of the queue.
#[derive(Debug, Clone)]
pub struct Feature {
    /// Feature slug, e.g. "startup-baseline-repair".
    pub id: String,
    /// Requirements and implementation tasks.
    pub description: String,
    /// Name of the skill that the worker follows.
    pub skill_name: String,
    /// What must hold before the feature starts.
    pub preconditions: Vec<String>,
    /// Invariants, test commands and expected behaviour.
    pub expected_behavior: Vec<String>,
    /// Assertion ids that the feature fulfils.
    pub fulfills: Vec<String>,
    /// Milestone that the feature belongs to.
    pub milestone: String,
    /// Current status in the queue.
    pub status: FeatureStatus,
    /// Worker sessions that worked on the feature.
    pub worker_session_ids: Vec<String>,
    /// Active worker session, if in progress.
    pub current_worker_session_id: Option<String>,
    /// Worker session that completed the feature.
    pub completed_worker_session_id: Option<String>,
}

/// What a feature holds.
#[verifier::ext_equal]
pub struct FeatureView {
    pub id: Seq<char>,
    pub description: Seq<char>,
    pub skill_name: Seq<char>,
    pub preconditions: Seq<Seq<char>>,
    pub expected_behavior: Seq<Seq<char>>,
    pub fulfills: Seq<Seq<char>>,
    pub milestone: Seq<char>,
    pub status: FeatureStatus,
    pub worker_session_ids: Seq<Seq<char>>,
    pub current_worker_session_id: Option<Seq<char>>,
    pub completed_worker_session_id: Option<Seq<char>>,
}

impl View for Feature {
    type V = FeatureView;

    open spec fn view(&self) -> FeatureView {
        FeatureView {
            id: self.id@,
            description: self.description@,
            skill_name: self.skill_name@,
            preconditions: views(self.preconditions@),
            expected_behavior: views(self.expected_behavior@),
            fulfills: views(self.fulfills@),
            milestone: self.milestone@,
            status: self.status,
            worker_session_ids: views(self.worker_session_ids@),
            current_worker_session_id: option_view(self.current_worker_session_id),
            completed_worker_session_id: option_view(self.completed_worker_session_id),
        }
    }
}

impl Feature {
    /// A copy of the feature.
    pub fn duplicate(&self) -> (r: Feature)
        ensures
            r@ == self@,
    {
        Feature {
            id: self.id.clone(),
            description: self.description.clone(),
            skill_name: self.skill_name.clone(),
            preconditions: copy_list(&self.preconditions),
            expected_behavior: copy_list(&self.expected_behavior),
            fulfills: copy_list(&self.fulfills),
            milestone: self.milestone.clone(),
            status: self.status,
            worker_session_ids: copy_list(&self.worker_session_ids),
            current_worker_session_id: copy_option(&self.current_worker_session_id),
            completed_worker_session_id: copy_option(&self.completed_worker_session_id),
        }
    }
}

/// The content of `features.json`.
#[derive(Debug, Clone)]
pub struct FeaturesFile {
    pub features: Vec<Feature>,
}

impl View for FeaturesFile {
    type V = Seq<FeatureView>;

    open spec fn view(&self) -> Seq<FeatureView> {
        self.features@.map_values(|f: Feature| f@)
    }
}

impl FeaturesFile {
    /// A copy of the queue.
    pub fn duplicate(&self) -> (r: FeaturesFile)
        ensures
            r@ == self@,
    {
        let mut features: Vec<Feature> = Vec::new();
        let mut i: usize = 0;
        while i < self.features.len()
            invariant
                i <= self.features@.len(),
                features@.len() == i,
                forall|j: int| 0 <= j < i ==> (#[trigger] features@[j])@ == self.features@[j]@,
            decreases self.features.len() - i,
        {
            features.push(self.features[i].duplicate());
            i += 1;
        }
        let r: FeaturesFile = FeaturesFile { features };
        proof {
            assert(r@ =~= self@);
        }
        r
    }
}

/// The milestone of a feature that names none.
pub fn default_milestone() -> (r: String)
    ensures
        r@ == "default"@,
{
    "default".to_owned()
}

/// The status of a feature that names none.
pub fn default_feature_status() -> (r: FeatureStatus)
    ensures
        r == FeatureStatus::Pending,
{
    FeatureStatus::Pending
}

/// Result state returned by a worker when finishing a feature.
#[derive(Debug, Clone, Copy, PartialEq, Eq, Structural)]
pub enum WorkerSuccessState {
    Success,
    Failure,
    Partial,
}

impl WorkerSuccessState {
    /// The name of the variant.
    pub open spec fn variant(self) -> Seq<char> {
        match self {
            WorkerSuccessState::Success => "Success"@,
            WorkerSuccessState::Failure => "Failure"@,
            WorkerSuccessState::Partial => "Partial"@,
        }
    }

    /// The name of the variant.
    pub fn variant_name(self) -> (r: String)
        ensures
            r@ == self.variant(),
    {
        match self {
            WorkerSuccessState::Success => "Success".to_owned(),
            WorkerSuccessState::Failure => "Failure".to_owned(),
            WorkerSuccessState::Partial => "Partial".to_owned(),
        }
    }
}

/// Issue reported in a worker handoff.
#[derive(Debug, Clone)]
pub struct DiscoveredIssue {
    /// "blocking" or "non_blocking".
    pub severity: String,
    /// Description of the problem.
    pub description: String,
    /// Recommended resolution.
    pub suggested_fix: String,
}

/// A command executed during verification.
#[derive(Debug, Clone)]
pub struct CommandRunRecord {
    pub command: String,
    pub exit_code: i32,
    pub observation: String,
}

/// A manual check executed during verification.
#[derive(Debug, Clone)]
pub struct InteractiveCheckRecord {
    pub action: String,
    pub observed: String,
}

/// Verification section of a worker handoff.
#[derive(Debug, Clone, Default)]
pub struct VerificationSection {
    pub commands_run: Vec<CommandRunRecord>,
    pub interactive_checks: Vec<InteractiveCheckRecord>,
}

/// A test case inside a test file report.
#[derive(Debug, Clone)]
pub struct TestCaseRecord {
    pub name: String,
    pub verifies: String,
}

/// A test file reported in a worker handoff.
#[derive(Debug, Clone)]
pub struct TestFileRecord {
    pub file: String,
    pub cases: Vec<TestCaseRecord>,
}

/// Tests section of a worker handoff.
#[derive(Debug, Clone, Default)]
pub struct TestsSection {
    pub added: Vec<TestFileRecord>,
    pub updated: Vec<String>,
    pub coverage: String,
}

/// Worker skill feedback.
#[derive(Debug, Clone, Default)]
pub struct SkillFeedback {
    pub followed_procedure: bool,
    pub deviations: Vec<String>,
    pub suggested_changes: Vec<String>,
}

/// The structured handoff of a worker.
#[derive(Debug, Clone, Default)]
pub struct WorkerHandoff {
    /// Summary of what was accomplished.
    pub salient_summary: String,
    /// What was implemented.
    pub what_was_implemented: String,
    /// What is left.
    pub what_was_left_undone: String,
    /// Verification evidence.
    pub verification: VerificationSection,
    /// Tests added or updated.
    pub tests: TestsSection,
    /// Issues uncovered.
    pub discovered_issues: Vec<DiscoveredIssue>,
    /// Feedback on the worker skill.
    pub skill_feedback: Option<SkillFeedback>,
}

/// The record saved for one handoff.
#[derive(Debug, Clone)]
pub struct SavedWorkerHandoff {
    pub timestamp: String,
    pub worker_session_id: String,
    pub feature_id: String,
    pub milestone: Option<String>,
    pub commit_id: Option<String>,
    pub repo_path: Option<String>,
    pub success_state: WorkerSuccessState,
    pub return_to_orchestrator: bool,
    pub handoff: WorkerHandoff,
}

/// A handoff dismissal in the progress log.
#[derive(Debug, Clone)]
pub struct HandoffDismissal {
    /// "discovered_issue" or "incomplete_work".
    pub item_type: String,
    pub source_feature_id: String,
    pub summary: String,
    pub justification: String,
}

/// Chronological event of the progress log.
#[derive(Debug, Clone)]
pub enum ProgressLogEntry {
    MissionAccepted { timestamp: String, title: String },
    MissionRunStarted { timestamp: String, message: String },
    WorkerSelectedFeature { timestamp: String, worker_session_id: String, feature_id: String },
    WorkerStarted {
        timestamp: String,
        worker_session_id: String,
        spawn_id: String,
        feature_id: String,
        model_id: Option<String>,
    },
    WorkerCompleted {
        timestamp: String,
        worker_session_id: String,
        feature_id: String,
        success_state: WorkerSuccessState,
        return_to_orchestrator: bool,
        commit_id: Option<String>,
        repo_path: Option<String>,
        exit_code: i32,
        validators_passed: bool,
        handoff: WorkerHandoff,
    },
    WorkerFailed {
        timestamp: String,
        worker_session_id: Option<String>,
        feature_id: Option<String>,
        reason: String,
    },
    MissionPaused { timestamp: String, pause_reason: Option<String> },
    MissionResumed { timestamp: String },
    HandoffItemsDismissed { timestamp: String, dismissals: Vec<HandoffDismissal> },
    MilestoneCompleted { timestamp: String, milestone: String },
}

/// The content of `model-settings.json`.
#[derive(Debug, Clone, Default)]
pub struct MissionModelSettings {
    pub worker_model: Option<String>,
    pub worker_reasoning_effort: Option<String>,
    pub validation_worker_model: Option<String>,
    pub validation_worker_reasoning_effort: Option<String>,
    pub skip_scrutiny: bool,
    pub skip_user_testing: bool,
}

} // verus!
