//! The files of a mission directory and the feature queue that they hold.
use vstd::prelude::*;
#[allow(unused_imports)]
use vstd::string::*;

#[allow(unused_imports)]
use crate::mission::types::{
    Feature, FeatureStatus, FeatureView, FeaturesFile, MissionModelSettings, MissionState,
    MissionStateFile, ProgressLogEntry, SavedWorkerHandoff, same_mission,
};
#[allow(unused_imports)]
use crate::text::{
    cat2, cat3, cat4, chars_of, contains_text, ends_with, has_part, has_prefix, has_suffix,
    is_before, lemma_text_before_asymmetric, lemma_text_before_transitive, lines, option_view,
    replace_text, replaced, same_text, split_lines, strip_prefix, text_before, trim, trimmed,
    views,
};

verus! {

pub const STATE_FILENAME: &'static str = "state.json";

pub const WORKING_DIR_FILENAME: &'static str = "working_directory.txt";

pub const MISSION_MD_FILENAME: &'static str = "mission.md";

pub const FEATURES_FILENAME: &'static str = "features.json";

pub const PROGRESS_LOG_FILENAME: &'static str = "progress_log.jsonl";

pub const MODEL_SETTINGS_FILENAME: &'static str = "model-settings.json";

pub const HANDOFFS_DIR: &'static str = "handoffs";

pub const SKILLS_DIR: &'static str = "skills";

pub const SCRUTINY_VALIDATOR_SKILL: &'static str = "scrutiny-validator";

pub const USER_TESTING_VALIDATOR_SKILL: &'static str = "user-testing-validator";

// ---- default skills ----

/// The skill of a worker that repairs foundations.
pub const FOUNDATION_WORKER_SKILL: &'static str =
    "---\nname: foundation-worker\ndescription: Repair test and startup foundations and build repeatable current-source validation without weakening production boundaries.\n---\n\n# Foundation worker\n\nFocus on repairing test hermeticity, baseline execution, and solid foundational code. Run relevant tests before and after changes, never weaken existing invariants or authorization rules, and report complete verification evidence upon completion.\n";

/// The skill of a worker that refactors.
pub const REFACTORING_PLAYBOOK_SKILL: &'static str =
    "---\nname: refactoring-playbook\ndescription: Playbook for code modernization, architecture migrations, and large-scale refactoring.\n---\n\n# Refactoring Playbook\n\nEnsure incremental migrations, behavior preservation, and characterization testing. Always verify that existing test suites pass before modifying core components.\n";

/// The skills that every mission has: the name and the text of each.
pub fn default_skills() -> (r: Vec<(&'static str, &'static str)>)
    ensures
        r@.len() == 2,
        r@[0].0@ == "foundation-worker"@,
        r@[0].1@ == FOUNDATION_WORKER_SKILL@,
        r@[1].0@ == "refactoring-playbook"@,
        r@[1].1@ == REFACTORING_PLAYBOOK_SKILL@,
{
    vec![
        ("foundation-worker", FOUNDATION_WORKER_SKILL),
        ("refactoring-playbook", REFACTORING_PLAYBOOK_SKILL),
    ]
}

// ---- paths ----

/// `part` below the directory `base`; an absolute `part` stands alone.
pub open spec fn path_below(base: Seq<char>, part: Seq<char>) -> Seq<char> {
    if base.len() == 0 || (part.len() > 0 && part[0] == '/') {
        part
    } else if base.last() == '/' {
        base + part
    } else {
        base + "/"@ + part
    }
}

/// `part` below the directory `base`; an absolute `part` stands alone.
pub fn join_path(base: &str, part: &str) -> (r: String)
    ensures
        r@ == path_below(base@, part@),
{
    let b: Vec<char> = chars_of(base);
    let p: Vec<char> = chars_of(part);
    if b.len() == 0 || (p.len() > 0 && p[0] == '/') {
        part.to_owned()
    } else if b[b.len() - 1] == '/' {
        cat2(base, part)
    } else {
        cat3(base, "/", part)
    }
}

// ---- the queue ----

/// The position of the first feature with a status.
pub open spec fn first_with(fs: Seq<FeatureView>, status: FeatureStatus) -> Option<int>
    decreases fs.len(),
{
    if fs.len() == 0 {
        None
    } else if fs[0].status == status {
        Some(0)
    } else {
        match first_with(fs.drop_first(), status) {
            Some(i) => Some(i + 1),
            None => None,
        }
    }
}

/// `first_with` finds the first feature with the status, if there is one.
pub proof fn lemma_first_with(fs: Seq<FeatureView>, status: FeatureStatus)
    ensures
        match first_with(fs, status) {
            Some(i) => {
                &&& 0 <= i < fs.len()
                &&& fs[i].status == status
                &&& forall|j: int| 0 <= j < i ==> (#[trigger] fs[j]).status != status
            },
            None => forall|j: int| 0 <= j < fs.len() ==> (#[trigger] fs[j]).status != status,
        },
    decreases fs.len(),
{
    if fs.len() > 0 && fs[0].status != status {
        lemma_first_with(fs.drop_first(), status);
        assert forall|j: int|
            1 <= j < fs.len() implies #[trigger] fs[j] == fs.drop_first()[j - 1] by {}
    }
}

/// The position of the first feature with an id.
pub open spec fn first_named(fs: Seq<FeatureView>, id: Seq<char>) -> Option<int>
    decreases fs.len(),
{
    if fs.len() == 0 {
        None
    } else if fs[0].id == id {
        Some(0)
    } else {
        match first_named(fs.drop_first(), id) {
            Some(i) => Some(i + 1),
            None => None,
        }
    }
}

/// `first_named` finds the first feature with the id, if there is one.
pub proof fn lemma_first_named(fs: Seq<FeatureView>, id: Seq<char>)
    ensures
        match first_named(fs, id) {
            Some(i) => {
                &&& 0 <= i < fs.len()
                &&& fs[i].id == id
                &&& forall|j: int| 0 <= j < i ==> (#[trigger] fs[j]).id != id
            },
            None => forall|j: int| 0 <= j < fs.len() ==> (#[trigger] fs[j]).id != id,
        },
    decreases fs.len(),
{
    if fs.len() > 0 && fs[0].id != id {
        lemma_first_named(fs.drop_first(), id);
        assert forall|j: int|
            1 <= j < fs.len() implies #[trigger] fs[j] == fs.drop_first()[j - 1] by {}
    }
}

/// The queue with `f` in place of the first feature of its id, or at the end.
pub open spec fn with_feature(fs: Seq<FeatureView>, f: FeatureView) -> Seq<FeatureView> {
    match first_named(fs, f.id) {
        Some(i) => fs.update(i, f),
        None => fs.push(f),
    }
}

/// The features of a queue with another id.
pub open spec fn without_id(fs: Seq<FeatureView>, id: Seq<char>) -> Seq<FeatureView>
    decreases fs.len(),
{
    if fs.len() == 0 {
        Seq::empty()
    } else if fs.last().id == id {
        without_id(fs.drop_last(), id)
    } else {
        without_id(fs.drop_last(), id).push(fs.last())
    }
}

/// The features of a queue with a status, in order.
pub open spec fn with_status(fs: Seq<FeatureView>, status: FeatureStatus) -> Seq<FeatureView>
    decreases fs.len(),
{
    if fs.len() == 0 {
        Seq::empty()
    } else if fs.last().status == status {
        with_status(fs.drop_last(), status).push(fs.last())
    } else {
        with_status(fs.drop_last(), status)
    }
}

/// In progress first, then pending, then completed, each in their old order.
pub open spec fn done_at_bottom(fs: Seq<FeatureView>) -> Seq<FeatureView> {
    with_status(fs, FeatureStatus::InProgress) + with_status(fs, FeatureStatus::Pending)
        + with_status(fs, FeatureStatus::Completed)
}

/// There are features and all are completed.
pub open spec fn all_completed(fs: Seq<FeatureView>) -> bool {
    fs.len() > 0 && forall|i: int|
        0 <= i < fs.len() ==> (#[trigger] fs[i]).status == FeatureStatus::Completed
}

/// The features of a milestone, in order.
pub open spec fn of_milestone(fs: Seq<FeatureView>, milestone: Seq<char>) -> Seq<FeatureView>
    decreases fs.len(),
{
    if fs.len() == 0 {
        Seq::empty()
    } else if fs.last().milestone == milestone {
        of_milestone(fs.drop_last(), milestone).push(fs.last())
    } else {
        of_milestone(fs.drop_last(), milestone)
    }
}

/// A feature that implements, rather than validates.
pub open spec fn implements(f: FeatureView) -> bool {
    f.skill_name != SCRUTINY_VALIDATOR_SKILL@ && f.skill_name != USER_TESTING_VALIDATOR_SKILL@
}

/// The milestone has implementation features and all of them are completed.
pub open spec fn milestone_done(fs: Seq<FeatureView>, milestone: Seq<char>) -> bool {
    &&& exists|i: int|
        0 <= i < fs.len() && (#[trigger] fs[i]).milestone == milestone && implements(fs[i])
    &&& forall|i: int|
        0 <= i < fs.len() && (#[trigger] fs[i]).milestone == milestone && implements(fs[i])
            ==> fs[i].status == FeatureStatus::Completed
}

/// The id of the scrutiny validator of a milestone.
pub open spec fn scrutiny_id(milestone: Seq<char>) -> Seq<char> {
    milestone + "-scrutiny-validation"@
}

/// The id of the user-testing validator of a milestone.
pub open spec fn user_testing_id(milestone: Seq<char>) -> Seq<char> {
    milestone + "-user-testing-validation"@
}

/// The scrutiny validator of a milestone.
pub open spec fn scrutiny_view(milestone: Seq<char>) -> FeatureView {
    FeatureView {
        id: scrutiny_id(milestone),
        description: "Programmatic scrutiny and verification audit for milestone "@ + milestone,
        skill_name: SCRUTINY_VALIDATOR_SKILL@,
        preconditions: seq![
            "All implementation features for milestone "@ + milestone + " are completed"@,
        ],
        expected_behavior: seq![
            "Run complete test suites, lint, and static verification gates without regressions"@,
        ],
        fulfills: Seq::empty(),
        milestone,
        status: FeatureStatus::Pending,
        worker_session_ids: Seq::empty(),
        current_worker_session_id: None,
        completed_worker_session_id: None,
    }
}

/// The user-testing validator of a milestone.
pub open spec fn user_testing_view(milestone: Seq<char>) -> FeatureView {
    FeatureView {
        id: user_testing_id(milestone),
        description: "Interactive user-testing and flow validation for milestone "@ + milestone,
        skill_name: USER_TESTING_VALIDATOR_SKILL@,
        preconditions: seq!["Scrutiny validation for milestone "@ + milestone + " is passing"@],
        expected_behavior: seq![
            "Validate real user workflows, CLI commands, and UI interactions"@,
        ],
        fulfills: Seq::empty(),
        milestone,
        status: FeatureStatus::Pending,
        worker_session_ids: Seq::empty(),
        current_worker_session_id: None,
        completed_worker_session_id: None,
    }
}

/// The queue with `f` at the end, unless its id is there already.
pub open spec fn with_new(fs: Seq<FeatureView>, f: FeatureView) -> Seq<FeatureView> {
    if first_named(fs, f.id) is Some {
        fs
    } else {
        fs.push(f)
    }
}

/// The queue with the validators that a milestone is due. They are due once
/// its implementation features are completed, unless the settings skip them.
pub open spec fn with_validators(
    fs: Seq<FeatureView>,
    milestone: Seq<char>,
    skip_scrutiny: bool,
    skip_user_testing: bool,
) -> Seq<FeatureView> {
    if !milestone_done(fs, milestone) {
        fs
    } else {
        let one = if skip_scrutiny {
            fs
        } else {
            with_new(fs, scrutiny_view(milestone))
        };
        if skip_user_testing {
            one
        } else {
            with_new(one, user_testing_view(milestone))
        }
    }
}

/// The disk artifacts of one mission directory.
#[derive(Debug, Clone)]
pub struct MissionFileService {
    mission_dir: String,
}

impl MissionFileService {
    /// The mission directory.
    pub closed spec fn dir(&self) -> Seq<char> {
        self.mission_dir@
    }

    /// The service for a mission directory.
    pub fn new(mission_dir: &str) -> (r: Self)
        ensures
            r.dir() == mission_dir@,
    {
        MissionFileService { mission_dir: mission_dir.to_owned() }
    }

    /// The mission directory.
    pub fn mission_dir(&self) -> (r: &str)
        ensures
            r@ == self.dir(),
    {
        self.mission_dir.as_str()
    }

    /// Where the state is.
    pub fn state_path(&self) -> (r: String)
        ensures
            r@ == path_below(self.dir(), STATE_FILENAME@),
    {
        join_path(self.mission_dir.as_str(), STATE_FILENAME)
    }

    /// Where the working directory is named.
    pub fn working_directory_path(&self) -> (r: String)
        ensures
            r@ == path_below(self.dir(), WORKING_DIR_FILENAME@),
    {
        join_path(self.mission_dir.as_str(), WORKING_DIR_FILENAME)
    }

    /// Where the overview is.
    pub fn mission_md_path(&self) -> (r: String)
        ensures
            r@ == path_below(self.dir(), MISSION_MD_FILENAME@),
    {
        join_path(self.mission_dir.as_str(), MISSION_MD_FILENAME)
    }

    /// Where the feature queue is.
    pub fn features_path(&self) -> (r: String)
        ensures
            r@ == path_below(self.dir(), FEATURES_FILENAME@),
    {
        join_path(self.mission_dir.as_str(), FEATURES_FILENAME)
    }

    /// Where the progress log is.
    pub fn progress_log_path(&self) -> (r: String)
        ensures
            r@ == path_below(self.dir(), PROGRESS_LOG_FILENAME@),
    {
        join_path(self.mission_dir.as_str(), PROGRESS_LOG_FILENAME)
    }

    /// Where the model settings are.
    pub fn model_settings_path(&self) -> (r: String)
        ensures
            r@ == path_below(self.dir(), MODEL_SETTINGS_FILENAME@),
    {
        join_path(self.mission_dir.as_str(), MODEL_SETTINGS_FILENAME)
    }

    /// Where the handoffs are.
    pub fn handoffs_dir(&self) -> (r: String)
        ensures
            r@ == path_below(self.dir(), HANDOFFS_DIR@),
    {
        join_path(self.mission_dir.as_str(), HANDOFFS_DIR)
    }

    /// Where the skills are.
    pub fn skills_dir(&self) -> (r: String)
        ensures
            r@ == path_below(self.dir(), SKILLS_DIR@),
    {
        join_path(self.mission_dir.as_str(), SKILLS_DIR)
    }

    /// Where the instructions of a skill are.
    pub fn skill_path(&self, skill_name: &str) -> (r: String)
        ensures
            r@ == path_below(
                path_below(path_below(self.dir(), SKILLS_DIR@), skill_name@),
                "SKILL.md"@,
            ),
    {
        join_path(join_path(self.skills_dir().as_str(), skill_name).as_str(), "SKILL.md")
    }

    /// Whether the directory holds a mission, given which of its two marks exist.
    pub fn mission_exists(&self, state_exists: bool, mission_md_exists: bool) -> (r: bool)
        ensures
            r == (state_exists || mission_md_exists),
    {
        state_exists || mission_md_exists
    }

    /// Sets the state and stamps the time.
    pub fn update_state_status(&self, file: &mut MissionStateFile, state: MissionState, now: &str)
        ensures
            final(file).state == state,
            final(file).updated_at@ == now@,
            same_mission(*final(file), *old(file)),
    {
        file.state = state;
        file.updated_at = now.to_owned();
    }

    /// The working directory: the one in its own file, if not blank, else the
    /// one in the state, if not empty.
    pub fn read_working_directory(
        &self,
        named: &Option<String>,
        state: Option<&MissionStateFile>,
    ) -> (r: Result<String, String>)
        ensures
            match r {
                Ok(s) => if named is Some && trimmed(named->0@).len() > 0 {
                    s@ == trimmed(named->0@)
                } else {
                    state is Some && state->0.working_directory@.len() > 0 && s@
                        == state->0.working_directory@
                },
                Err(e) => {
                    &&& e@ == "No working directory configured for mission"@
                    &&& named is None || trimmed(named->0@).len() == 0
                    &&& state is None || state->0.working_directory@.len() == 0
                },
            },
    {
        if let Some(content) = named {
            let text: &str = trim(content.as_str());
            if !text.is_empty() {
                return Ok(text.to_owned());
            }
        }
        if let Some(file) = state {
            if !file.working_directory.as_str().is_empty() {
                return Ok(file.working_directory.clone());
            }
        }
        Err("No working directory configured for mission".to_owned())
    }

    /// The text of the overview.
    pub fn mission_md(&self, title: &str, body: &str) -> (r: String)
        ensures
            r@ == "# "@ + trimmed(title@) + "\n\n"@ + trimmed(body@),
    {
        cat4("# ", trim(title), "\n\n", trim(body))
    }

    /// The title in the overview: the first heading that is not blank.
    pub fn mission_title(&self, content: &str) -> (r: Option<String>)
        ensures
            option_view(r) == first_title(lines(content@)),
    {
        let all: Vec<String> = split_lines(content);
        let ghost ls = lines(content@);
        let mut i: usize = 0;
        proof {
            assert(ls.skip(0) =~= ls);
            assert(ls.len() == all@.len());
        }
        while i < all.len()
            invariant
                i <= all@.len(),
                ls == views(all@),
                ls == lines(content@),
                ls.len() == all@.len(),
                first_title(ls) == first_title(ls.skip(i as int)),
            decreases all.len() - i,
        {
            proof {
                assert(ls.skip(i as int).drop_first() =~= ls.skip(i as int + 1));
                assert(ls[i as int] == all@[i as int]@);
                reveal_strlit("# ");
            }
            let text: &str = trim(all[i].as_str());
            if let Some(rest) = strip_prefix(text, "# ") {
                let title: &str = trim(rest);
                if !title.is_empty() {
                    return Some(title.to_owned());
                }
            }
            i += 1;
        }
        None
    }

    /// The first feature in progress.
    pub fn get_in_progress_feature(&self, file: &FeaturesFile) -> (r: Option<Feature>)
        ensures
            match (r, first_with(file@, FeatureStatus::InProgress)) {
                (Some(f), Some(i)) => f@ == file@[i],
                (None, None) => true,
                _ => false,
            },
    {
        proof {
            lemma_first_with(file@, FeatureStatus::InProgress);
        }
        match position_with(file, FeatureStatus::InProgress) {
            Some(i) => Some(file.features[i].duplicate()),
            None => None,
        }
    }

    /// The first pending feature.
    pub fn get_next_pending_feature(&self, file: &FeaturesFile) -> (r: Option<Feature>)
        ensures
            match (r, first_with(file@, FeatureStatus::Pending)) {
                (Some(f), Some(i)) => f@ == file@[i],
                (None, None) => true,
                _ => false,
            },
    {
        proof {
            lemma_first_with(file@, FeatureStatus::Pending);
        }
        match position_with(file, FeatureStatus::Pending) {
            Some(i) => Some(file.features[i].duplicate()),
            None => None,
        }
    }

    /// Puts a feature in place of the first one of its id, or at the end.
    pub fn update_feature(&self, file: &mut FeaturesFile, updated: &Feature)
        ensures
            final(file)@ == with_feature(old(file)@, updated@),
    {
        let ghost before = file@;
        proof {
            lemma_first_named(before, updated.id@);
        }
        match position_named(file, updated.id.as_str()) {
            Some(i) => {
                file.features.set(i, updated.duplicate());
                proof {
                    assert(file@ =~= before.update(i as int, updated@));
                }
            },
            None => {
                file.features.push(updated.duplicate());
                proof {
                    assert(file@ =~= before.push(updated@));
                }
            },
        }
    }

    /// Puts a feature at the very top of the queue, in place of those of its id.
    pub fn insert_feature_at_top(&self, file: &mut FeaturesFile, feature: Feature)
        ensures
            final(file)@ == seq![feature@] + without_id(old(file)@, feature.id@),
    {
        let mut kept: Vec<Feature> = Vec::new();
        let ghost all = file@;
        let ghost top = feature@;
        let mut i: usize = 0;
        kept.push(feature);
        proof {
            assert(kept@.map_values(|f: Feature| f@) =~= seq![top] + without_id(all.take(0), top.id));
        }
        while i < file.features.len()
            invariant
                i <= file.features@.len(),
                file@ == all,
                all.len() == file.features@.len(),
                kept@.len() > 0,
                kept@[0]@ == top,
                kept@.map_values(|f: Feature| f@) == seq![top] + without_id(
                    all.take(i as int),
                    top.id,
                ),
            decreases file.features.len() - i,
        {
            proof {
                assert(all.take(i as int + 1).drop_last() =~= all.take(i as int));
                assert(all[i as int] == file.features@[i as int]@);
            }
            if !same_text(file.features[i].id.as_str(), kept[0].id.as_str()) {
                let ghost before = kept@.map_values(|f: Feature| f@);
                kept.push(file.features[i].duplicate());
                proof {
                    assert(kept@.map_values(|f: Feature| f@) =~= before.push(all[i as int]));
                    assert(before.push(all[i as int]) =~= seq![top] + without_id(
                        all.take(i as int),
                        top.id,
                    ).push(all[i as int]));
                }
            }
            i += 1;
        }
        proof {
            assert(all.take(all.len() as int) =~= all);
        }
        file.features = kept;
    }

    /// Moves completed features to the bottom and those in progress to the top.
    pub fn move_stranded_done_features_to_bottom(&self, file: &mut FeaturesFile)
        ensures
            final(file)@ == done_at_bottom(old(file)@),
    {
        let mut out: FeaturesFile = features_with(file, FeatureStatus::InProgress);
        let mut pending: FeaturesFile = features_with(file, FeatureStatus::Pending);
        let mut completed: FeaturesFile = features_with(file, FeatureStatus::Completed);
        let ghost a = out@;
        let ghost b = pending@;
        let ghost c = completed@;
        out.features.append(&mut pending.features);
        proof {
            assert(out@ =~= a + b);
        }
        out.features.append(&mut completed.features);
        proof {
            assert(out@ =~= a + b + c);
        }
        file.features = out.features;
        proof {
            assert(file@ =~= a + b + c);
        }
    }

    /// Whether there are features and all are completed.
    pub fn are_all_features_completed(&self, file: &FeaturesFile) -> (r: bool)
        ensures
            r == all_completed(file@),
    {
        if file.features.len() == 0 {
            return false;
        }
        let mut i: usize = 0;
        while i < file.features.len()
            invariant
                i <= file.features@.len(),
                file@.len() == file.features@.len(),
                forall|j: int| 0 <= j < i ==> (#[trigger] file@[j]).status == FeatureStatus::Completed,
            decreases file.features.len() - i,
        {
            proof {
                assert(file@[i as int] == file.features@[i as int]@);
            }
            if file.features[i].status != FeatureStatus::Completed {
                return false;
            }
            i += 1;
        }
        true
    }

    /// The features of a milestone, in order.
    pub fn get_milestone_features(&self, file: &FeaturesFile, milestone: &str) -> (r: Vec<Feature>)
        ensures
            r@.map_values(|f: Feature| f@) == of_milestone(file@, milestone@),
    {
        let mut out: Vec<Feature> = Vec::new();
        let ghost all = file@;
        let mut i: usize = 0;
        while i < file.features.len()
            invariant
                i <= file.features@.len(),
                all == file@,
                all.len() == file.features@.len(),
                out@.map_values(|f: Feature| f@) =~= of_milestone(all.take(i as int), milestone@),
            decreases file.features.len() - i,
        {
            proof {
                assert(all.take(i as int + 1).drop_last() =~= all.take(i as int));
                assert(all[i as int] == file.features@[i as int]@);
            }
            if same_text(file.features[i].milestone.as_str(), milestone) {
                let ghost before = out@.map_values(|f: Feature| f@);
                out.push(file.features[i].duplicate());
                proof {
                    assert(out@.map_values(|f: Feature| f@) =~= before.push(all[i as int]));
                }
            }
            i += 1;
        }
        proof {
            assert(all.take(all.len() as int) =~= all);
        }
        out
    }

    /// Whether a milestone has implementation features and all are completed.
    pub fn is_milestone_implementation_complete(
        &self,
        file: &FeaturesFile,
        milestone: &str,
    ) -> (r: bool)
        ensures
            r == milestone_done(file@, milestone@),
    {
        let mut any: bool = false;
        let ghost all = file@;
        let mut i: usize = 0;
        while i < file.features.len()
            invariant
                i <= file.features@.len(),
                all == file@,
                all.len() == file.features@.len(),
                any == (exists|j: int|
                    0 <= j < i && (#[trigger] all[j]).milestone == milestone@ && implements(all[j])),
                forall|j: int|
                    0 <= j < i && (#[trigger] all[j]).milestone == milestone@ && implements(all[j])
                        ==> all[j].status == FeatureStatus::Completed,
            decreases file.features.len() - i,
        {
            proof {
                assert(all[i as int] == file.features@[i as int]@);
            }
            let f: &Feature = &file.features[i];
            if same_text(f.milestone.as_str(), milestone) && !same_text(
                f.skill_name.as_str(),
                SCRUTINY_VALIDATOR_SKILL,
            ) && !same_text(f.skill_name.as_str(), USER_TESTING_VALIDATOR_SKILL) {
                if f.status != FeatureStatus::Completed {
                    return false;
                }
                any = true;
            }
            i += 1;
        }
        any
    }

    /// Adds the validators that a milestone is due; says whether any was added.
    pub fn check_and_inject_milestone_validation(
        &self,
        file: &mut FeaturesFile,
        milestone: &str,
        settings: &MissionModelSettings,
    ) -> (r: bool)
        ensures
            final(file)@ == with_validators(
                old(file)@,
                milestone@,
                settings.skip_scrutiny,
                settings.skip_user_testing,
            ),
            r == (final(file)@.len() > old(file)@.len()),
    {
        if !self.is_milestone_implementation_complete(file, milestone) {
            return false;
        }
        let mut injected: bool = false;
        if !settings.skip_scrutiny {
            let id: String = cat2(milestone, "-scrutiny-validation");
            let ghost before = file@;
            proof {
                lemma_first_named(before, id@);
            }
            if position_named(file, id.as_str()).is_none() {
                let f: Feature = Feature {
                    id,
                    description: cat2(
                        "Programmatic scrutiny and verification audit for milestone ",
                        milestone,
                    ),
                    skill_name: SCRUTINY_VALIDATOR_SKILL.to_owned(),
                    preconditions: one_text(
                        cat3(
                            "All implementation features for milestone ",
                            milestone,
                            " are completed",
                        ),
                    ),
                    expected_behavior: one_text(
                        "Run complete test suites, lint, and static verification gates without regressions".to_owned(),
                    ),
                    fulfills: Vec::new(),
                    milestone: milestone.to_owned(),
                    status: FeatureStatus::Pending,
                    worker_session_ids: Vec::new(),
                    current_worker_session_id: None,
                    completed_worker_session_id: None,
                };
                proof {
                    assert(f@ =~= scrutiny_view(milestone@));
                }
                file.features.push(f);
                proof {
                    assert(file@ =~= before.push(scrutiny_view(milestone@)));
                }
                injected = true;
            }
        }
        if !settings.skip_user_testing {
            let id: String = cat2(milestone, "-user-testing-validation");
            let ghost before = file@;
            proof {
                lemma_first_named(before, id@);
            }
            if position_named(file, id.as_str()).is_none() {
                let f: Feature = Feature {
                    id,
                    description: cat2(
                        "Interactive user-testing and flow validation for milestone ",
                        milestone,
                    ),
                    skill_name: USER_TESTING_VALIDATOR_SKILL.to_owned(),
                    preconditions: one_text(
                        cat3("Scrutiny validation for milestone ", milestone, " is passing"),
                    ),
                    expected_behavior: one_text(
                        "Validate real user workflows, CLI commands, and UI interactions".to_owned(),
                    ),
                    fulfills: Vec::new(),
                    milestone: milestone.to_owned(),
                    status: FeatureStatus::Pending,
                    worker_session_ids: Vec::new(),
                    current_worker_session_id: None,
                    completed_worker_session_id: None,
                };
                proof {
                    assert(f@ =~= user_testing_view(milestone@));
                }
                file.features.push(f);
                proof {
                    assert(file@ =~= before.push(user_testing_view(milestone@)));
                }
                injected = true;
            }
        }
        injected
    }

    /// The file name for a saved handoff.
    pub fn handoff_filename(&self, handoff: &SavedWorkerHandoff) -> (r: String)
        ensures
            r@ == replaced(handoff.timestamp@, ":"@, "-"@) + "__"@ + handoff.feature_id@ + "__"@
                + handoff.worker_session_id@ + ".json"@,
    {
        proof {
            reveal_strlit(":");
        }
        let stamp: String = replace_text(handoff.timestamp.as_str(), ":", "-");
        let head: String = cat4(stamp.as_str(), "__", handoff.feature_id.as_str(), "__");
        cat3(head.as_str(), handoff.worker_session_id.as_str(), ".json")
    }

    /// Of the names in the handoff directory, the last one in order that is a
    /// handoff of the worker session.
    pub fn latest_handoff_file(&self, names: &Vec<String>, worker_session_id: &str) -> (r: Option<
        usize,
    >)
        ensures
            match r {
                Some(k) => {
                    &&& k < names@.len()
                    &&& is_handoff_of(names@[k as int]@, worker_session_id@)
                    &&& forall|j: int|
                        0 <= j < names@.len() && is_handoff_of(
                            (#[trigger] names@[j])@,
                            worker_session_id@,
                        ) ==> !text_before(names@[k as int]@, names@[j]@)
                },
                None => forall|j: int|
                    0 <= j < names@.len() ==> !is_handoff_of(
                        (#[trigger] names@[j])@,
                        worker_session_id@,
                    ),
            },
    {
        let mut best: Option<usize> = None;
        let mut i: usize = 0;
        while i < names.len()
            invariant
                i <= names@.len(),
                match best {
                    Some(k) => {
                        &&& k < i
                        &&& is_handoff_of(names@[k as int]@, worker_session_id@)
                        &&& forall|j: int|
                            0 <= j < i && is_handoff_of(
                                (#[trigger] names@[j])@,
                                worker_session_id@,
                            ) ==> !text_before(names@[k as int]@, names@[j]@)
                    },
                    None => forall|j: int|
                        0 <= j < i ==> !is_handoff_of(
                            (#[trigger] names@[j])@,
                            worker_session_id@,
                        ),
                },
            decreases names.len() - i,
        {
            if ends_with(names[i].as_str(), ".json") && contains_text(
                names[i].as_str(),
                worker_session_id,
            ) {
                match best {
                    None => {
                        proof {
                            lemma_text_before_asymmetric(names@[i as int]@, names@[i as int]@);
                        }
                        best = Some(i);
                    },
                    Some(k) => {
                        if is_before(names[k].as_str(), names[i].as_str()) {
                            proof {
                                let old_best = names@[k as int]@;
                                let new_best = names@[i as int]@;
                                lemma_text_before_asymmetric(new_best, new_best);
                                assert forall|j: int|
                                    0 <= j < i + 1 && is_handoff_of(
                                        (#[trigger] names@[j])@,
                                        worker_session_id@,
                                    ) implies !text_before(new_best, names@[j]@) by {
                                    if j < i && text_before(new_best, names@[j]@) {
                                        lemma_text_before_transitive(
                                            old_best,
                                            new_best,
                                            names@[j]@,
                                        );
                                    }
                                }
                            }
                            best = Some(i);
                        }
                    },
                }
            }
            i += 1;
        }
        best
    }
}

/// The name of a handoff file of a worker session.
pub open spec fn is_handoff_of(name: Seq<char>, worker_session_id: Seq<char>) -> bool {
    has_suffix(name, ".json"@) && has_part(name, worker_session_id)
}

/// The first heading among some lines that is not blank.
pub open spec fn first_title(ls: Seq<Seq<char>>) -> Option<Seq<char>>
    decreases ls.len(),
{
    if ls.len() == 0 {
        None
    } else {
        let text = trimmed(ls[0]);
        if has_prefix(text, "# "@) && trimmed(text.skip(2)).len() > 0 {
            Some(trimmed(text.skip(2)))
        } else {
            first_title(ls.drop_first())
        }
    }
}

fn one_text(s: String) -> (r: Vec<String>)
    ensures
        views(r@) == seq![s@],
{
    let mut out: Vec<String> = Vec::new();
    out.push(s);
    proof {
        assert(views(out@) =~= seq![s@]);
    }
    out
}

/// Finds the first feature with a status.
pub fn position_with(file: &FeaturesFile, status: FeatureStatus) -> (r: Option<usize>)
    ensures
        match (r, first_with(file@, status)) {
            (Some(k), Some(i)) => k == i,
            (None, None) => true,
            _ => false,
        },
{
    let ghost all = file@;
    let mut i: usize = 0;
    proof {
        assert(all.skip(0) =~= all);
    }
    while i < file.features.len()
        invariant
            i <= file.features@.len(),
            all == file@,
            all.len() == file.features@.len(),
            first_with(all, status) == (match first_with(all.skip(i as int), status) {
                Some(k) => Some(k + i),
                None => None,
            }),
        decreases file.features.len() - i,
    {
        proof {
            assert(all[i as int] == file.features@[i as int]@);
            assert(all.skip(i as int).drop_first() =~= all.skip(i as int + 1));
        }
        if file.features[i].status == status {
            return Some(i);
        }
        i += 1;
    }
    None
}

/// Finds the first feature with an id.
pub fn position_named(file: &FeaturesFile, id: &str) -> (r: Option<usize>)
    ensures
        match (r, first_named(file@, id@)) {
            (Some(k), Some(i)) => k == i,
            (None, None) => true,
            _ => false,
        },
{
    let ghost all = file@;
    let mut i: usize = 0;
    proof {
        assert(all.skip(0) =~= all);
    }
    while i < file.features.len()
        invariant
            i <= file.features@.len(),
            all == file@,
            all.len() == file.features@.len(),
            first_named(all, id@) == (match first_named(all.skip(i as int), id@) {
                Some(k) => Some(k + i),
                None => None,
            }),
        decreases file.features.len() - i,
    {
        proof {
            assert(all[i as int] == file.features@[i as int]@);
            assert(all.skip(i as int).drop_first() =~= all.skip(i as int + 1));
        }
        if same_text(file.features[i].id.as_str(), id) {
            return Some(i);
        }
        i += 1;
    }
    None
}

fn features_with(file: &FeaturesFile, status: FeatureStatus) -> (r: FeaturesFile)
    ensures
        r@ == with_status(file@, status),
{
    let mut out: FeaturesFile = FeaturesFile { features: Vec::new() };
    let ghost all = file@;
    let mut i: usize = 0;
    while i < file.features.len()
        invariant
            i <= file.features@.len(),
            all == file@,
            all.len() == file.features@.len(),
            out@ =~= with_status(all.take(i as int), status),
        decreases file.features.len() - i,
    {
        proof {
            assert(all.take(i as int + 1).drop_last() =~= all.take(i as int));
            assert(all[i as int] == file.features@[i as int]@);
        }
        if file.features[i].status == status {
            let ghost before = out@;
            out.features.push(file.features[i].duplicate());
            proof {
                assert(out@ =~= before.push(all[i as int]));
            }
        }
        i += 1;
    }
    proof {
        assert(all.take(all.len() as int) =~= all);
    }
    out
}

/// An entry tells the end of a worker.
pub open spec fn ends_worker(e: ProgressLogEntry, worker_session_id: Seq<char>) -> bool {
    match e {
        ProgressLogEntry::WorkerCompleted { worker_session_id: id, .. } => id@ == worker_session_id,
        _ => false,
    }
}

/// The last entry that tells the end of a worker, if there is one: it holds the
/// handoff where no file does.
pub fn latest_completion(entries: &Vec<ProgressLogEntry>, worker_session_id: &str) -> (r: Option<
    usize,
>)
    ensures
        match r {
            Some(i) => {
                &&& i < entries@.len()
                &&& ends_worker(entries@[i as int], worker_session_id@)
                &&& forall|j: int|
                    i < j < entries@.len() ==> !ends_worker(
                        #[trigger] entries@[j],
                        worker_session_id@,
                    )
            },
            None => forall|j: int|
                0 <= j < entries@.len() ==> !ends_worker(
                    #[trigger] entries@[j],
                    worker_session_id@,
                ),
        },
{
    let mut i: usize = entries.len();
    while i > 0
        invariant
            i <= entries@.len(),
            forall|j: int|
                i <= j < entries@.len() ==> !ends_worker(
                    #[trigger] entries@[j],
                    worker_session_id@,
                ),
        decreases i,
    {
        i -= 1;
        let ends: bool = match &entries[i] {
            ProgressLogEntry::WorkerCompleted { worker_session_id: id, .. } => same_text(
                id.as_str(),
                worker_session_id,
            ),
            _ => false,
        };
        if ends {
            return Some(i);
        }
    }
    None
}

} // verus!
