//! What holds of missions as a whole, said of their queue, their steps and their
//! answers.
use vstd::prelude::*;
#[allow(unused_imports)]
use vstd::string::*;

#[allow(unused_imports)]
use vstd::utf8::*;
#[allow(unused_imports)]
use crate::mission::discovery::{
    MatchRank, MissionKeys, MissionSource, MissionSummary, best_match, first_match, in_workspace,
    key_matches, later, law_catalog_is_sorted, newest_first, opengrok_missions_dirs,
    summarize_mission,
};
#[allow(unused_imports)]
use crate::mission::runner::{
    MissionRunStepResult, MissionRunner, MissionStep, StepView, bullets, candidate, completion_of,
    document_section, ids_differ, lemma_validated_grows, lemma_with_validators_grows, list_section,
    milestones, one_worker, preempted, ready_queue, reported, reverted, started, step_log_entry,
    step_of, step_result, worker_prompt_of,
};
#[allow(unused_imports)]
use crate::mission::storage::{
    MissionFileService, done_at_bottom, ends_worker, first_named, first_title, first_with,
    lemma_first_named, lemma_first_with, milestone_done, of_milestone, path_below, scrutiny_id,
    scrutiny_view, user_testing_id, with_feature, with_new, with_status, with_validators,
    without_id,
};
#[allow(unused_imports)]
use crate::mission::tools::{
    DismissHandoffItemsOutput, DismissHandoffItemsTool, DismissItemInput,
    InspectMissionReadinessOutput, Proposal, ProposeMissionInput, ProposeMissionTool, dismisses,
    end_answer, ids_of, inspected, missing, outcome_named, queue_read, repeated,
    resolve_mission_dir, restarted, short_id_bytes, start_answer,
};
#[allow(unused_imports)]
use crate::mission::types::{
    FeatureStatus, FeatureView, FeaturesFile, MissionState, MissionStateFile, ProgressLogEntry,
    SavedWorkerHandoff, WorkerHandoff, WorkerSuccessState,
};
#[allow(unused_imports)]
use crate::table::{named};
#[allow(unused_imports)]
use crate::text::{
    has_part, has_prefix, has_suffix, in_list, lemma_in_list, occurs_at, option_view, text_before,
    trimmed, views,
};

verus! {

// ---- the queue ----

/// The next feature with a status is the first in the queue that has it.
pub proof fn law_the_first_feature_is_next(fs: Seq<FeatureView>, status: FeatureStatus)
    ensures
        match first_with(fs, status) {
            Some(i) => {
                &&& 0 <= i < fs.len()
                &&& fs[i].status == status
                &&& forall|j: int| 0 <= j < i ==> (#[trigger] fs[j]).status != status
            },
            None => forall|j: int| 0 <= j < fs.len() ==> (#[trigger] fs[j]).status != status,
        },
{
    lemma_first_with(fs, status);
}

/// A feature that is written back replaces the one with its id, or joins the end of
/// the queue, and leaves the others as they are.
pub proof fn law_features_are_replaced_by_id(fs: Seq<FeatureView>, f: FeatureView)
    ensures
        ({
            let after = with_feature(fs, f);
            &&& after.contains(f)
            &&& (forall|i: int| 0 <= i < fs.len() ==> (#[trigger] fs[i]).id != f.id) ==> after
                == fs.push(f)
            &&& (exists|i: int| 0 <= i < fs.len() && (#[trigger] fs[i]).id == f.id) ==> after.len()
                == fs.len()
            &&& forall|i: int|
                0 <= i < fs.len() && (#[trigger] fs[i]).id != f.id ==> after[i] == fs[i]
        }),
{
    lemma_first_named(fs, f.id);
    let after = with_feature(fs, f);
    match first_named(fs, f.id) {
        Some(i) => {
            assert(after[i] == f);
        },
        None => {
            assert(after[fs.len() as int] == f);
        },
    }
}

/// The features of an id, a status or a milestone are those that have it, in order.
pub proof fn law_features_are_chosen_by_field(
    fs: Seq<FeatureView>,
    id: Seq<char>,
    status: FeatureStatus,
    milestone: Seq<char>,
)
    ensures
        without_id(fs, id) == fs.filter(|f: FeatureView| f.id != id),
        with_status(fs, status) == fs.filter(|f: FeatureView| f.status == status),
        of_milestone(fs, milestone) == fs.filter(|f: FeatureView| f.milestone == milestone),
    decreases fs.len(),
{
    reveal(Seq::filter);
    if fs.len() > 0 {
        law_features_are_chosen_by_field(fs.drop_last(), id, status, milestone);
    }
}

/// Moving finished work down puts what is in progress first, then what is pending,
/// then what is done, each in its order.
pub proof fn law_done_features_sink(fs: Seq<FeatureView>)
    ensures
        done_at_bottom(fs) == fs.filter(
            |f: FeatureView| f.status == FeatureStatus::InProgress,
        ) + fs.filter(|f: FeatureView| f.status == FeatureStatus::Pending) + fs.filter(
            |f: FeatureView| f.status == FeatureStatus::Completed,
        ),
{
    lemma_with_status(fs, FeatureStatus::InProgress);
    lemma_with_status(fs, FeatureStatus::Pending);
    lemma_with_status(fs, FeatureStatus::Completed);
    reveal(Seq::filter);
    lemma_in_progress(fs);
    lemma_pending(fs);
    lemma_completed(fs);
}

proof fn lemma_with_status(fs: Seq<FeatureView>, status: FeatureStatus)
    ensures
        with_status(fs, status) == fs.filter(|f: FeatureView| f.status == status),
{
    law_features_are_chosen_by_field(fs, Seq::empty(), status, Seq::empty());
}

proof fn lemma_in_progress(fs: Seq<FeatureView>)
    ensures
        with_status(fs, FeatureStatus::InProgress) == fs.filter(
            |f: FeatureView| f.status == FeatureStatus::InProgress,
        ),
    decreases fs.len(),
{
    reveal(Seq::filter);
    if fs.len() > 0 {
        lemma_in_progress(fs.drop_last());
    }
}

proof fn lemma_pending(fs: Seq<FeatureView>)
    ensures
        with_status(fs, FeatureStatus::Pending) == fs.filter(
            |f: FeatureView| f.status == FeatureStatus::Pending,
        ),
    decreases fs.len(),
{
    reveal(Seq::filter);
    if fs.len() > 0 {
        lemma_pending(fs.drop_last());
    }
}

proof fn lemma_completed(fs: Seq<FeatureView>)
    ensures
        with_status(fs, FeatureStatus::Completed) == fs.filter(
            |f: FeatureView| f.status == FeatureStatus::Completed,
        ),
    decreases fs.len(),
{
    reveal(Seq::filter);
    if fs.len() > 0 {
        lemma_completed(fs.drop_last());
    }
}

/// A milestone is implemented once it has work and all of it is completed; the
/// validators do not count as work.
pub proof fn law_milestones_need_all_their_work(fs: Seq<FeatureView>, milestone: Seq<char>)
    ensures
        milestone_done(fs, milestone) <==> {
            &&& exists|i: int|
                0 <= i < fs.len() && (#[trigger] fs[i]).milestone == milestone && fs[i].skill_name
                    != "scrutiny-validator"@ && fs[i].skill_name != "user-testing-validator"@
            &&& forall|i: int|
                0 <= i < fs.len() && (#[trigger] fs[i]).milestone == milestone && fs[i].skill_name
                    != "scrutiny-validator"@ && fs[i].skill_name != "user-testing-validator"@
                    ==> fs[i].status == FeatureStatus::Completed
        },
{
}

/// The validators of a milestone come once its work is completed, each unless it is
/// skipped or there already: they are pending, belong to the milestone, follow their
/// own skills, and stand behind everything else. Nothing else changes.
pub proof fn law_validators_come_when_the_work_is_done(
    fs: Seq<FeatureView>,
    m: Seq<char>,
    skip_scrutiny: bool,
    skip_user_testing: bool,
)
    ensures
        ({
            let after = with_validators(fs, m, skip_scrutiny, skip_user_testing);
            &&& after.len() >= fs.len()
            &&& forall|i: int| 0 <= i < fs.len() ==> #[trigger] after[i] == fs[i]
            &&& !milestone_done(fs, m) ==> after == fs
            &&& skip_scrutiny && skip_user_testing ==> after == fs
            &&& milestone_done(fs, m) && !skip_scrutiny ==> exists|i: int|
                0 <= i < after.len() && (#[trigger] after[i]).id == m + "-scrutiny-validation"@
            &&& milestone_done(fs, m) && !skip_user_testing ==> exists|i: int|
                0 <= i < after.len() && (#[trigger] after[i]).id == m + "-user-testing-validation"@
            &&& forall|i: int|
                fs.len() <= i < after.len() ==> {
                    let f = #[trigger] after[i];
                    &&& f.milestone == m
                    &&& f.status == FeatureStatus::Pending
                    &&& f.completed_worker_session_id is None
                    &&& f.current_worker_session_id is None
                    &&& f.id == m + "-scrutiny-validation"@ ==> !skip_scrutiny && f.skill_name
                        == "scrutiny-validator"@
                    &&& f.id != m + "-scrutiny-validation"@ ==> !skip_user_testing && f.id == m
                        + "-user-testing-validation"@ && f.skill_name == "user-testing-validator"@
                }
        }),
{
    let after = with_validators(fs, m, skip_scrutiny, skip_user_testing);
    lemma_with_validators_grows(fs, m, skip_scrutiny, skip_user_testing);
    assert forall|i: int| 0 <= i < fs.len() implies #[trigger] after[i] == fs[i] by {
        assert(after.take(fs.len() as int)[i] == after[i]);
    }
    lemma_validator_ids_differ(m);
    if milestone_done(fs, m) {
        let one = if skip_scrutiny {
            fs
        } else {
            with_new(fs, scrutiny_view(m))
        };
        lemma_first_named(fs, scrutiny_id(m));
        lemma_first_named(one, user_testing_id(m));
        if !skip_scrutiny {
            let i = match first_named(fs, scrutiny_id(m)) {
                Some(i) => i,
                None => fs.len() as int,
            };
            assert(after[i].id == m + "-scrutiny-validation"@);
        }
        if !skip_user_testing {
            let i = match first_named(one, user_testing_id(m)) {
                Some(i) => i,
                None => one.len() as int,
            };
            assert(after[i].id == m + "-user-testing-validation"@);
        }
    }
}

proof fn lemma_validator_ids_differ(m: Seq<char>)
    ensures
        m + "-scrutiny-validation"@ != m + "-user-testing-validation"@,
{
    reveal_strlit("-scrutiny-validation");
    reveal_strlit("-user-testing-validation");
    let a = m + "-scrutiny-validation"@;
    let b = m + "-user-testing-validation"@;
    assert(a.len() != b.len());
}

// ---- steps ----

/// A mission that is paused, done, or waiting for its orchestrator takes no step.
/// One with more than half as many features again as it began with, from five on, is
/// paused for a review of its scope.
pub proof fn law_steps_wait_for_review(
    state: MissionState,
    initial: Option<usize>,
    fs: Seq<FeatureView>,
    skip_scrutiny: bool,
    skip_user_testing: bool,
)
    ensures
        ({
            let (step, after, queue) = step_of(
                state,
                initial,
                fs,
                skip_scrutiny,
                skip_user_testing,
            );
            let goes_on = state == MissionState::Running || state == MissionState::AwaitingInput;
            let outgrown = initial is Some && initial->0 >= 5 && fs.len() > initial->0 * 3 / 2;
            &&& state == MissionState::Paused ==> step is Paused && after == state && queue == fs
            &&& state == MissionState::OrchestratorTurn ==> step is OrchestratorTurn && after
                == state && queue == fs
            &&& state == MissionState::Completed ==> step is Completed && after == state && queue
                == fs
            &&& goes_on && outgrown ==> step == StepView::ScopeReview(initial->0 as nat, fs.len())
                && after == MissionState::Paused && queue == fs
            &&& goes_on && !outgrown ==> step is Worker || step is Completed
            &&& step is Worker ==> after == state
        }),
{
}

/// The queue that a step works on: the features as they were, but for one that is no
/// longer in progress where another goes before it, and validators behind them.
proof fn lemma_ready(fs: Seq<FeatureView>, skip_scrutiny: bool, skip_user_testing: bool)
    requires
        ids_differ(fs),
        one_worker(fs),
    ensures
        ({
            let b = ready_queue(fs, skip_scrutiny, skip_user_testing);
            &&& b.len() >= fs.len()
            &&& ids_differ(b)
            &&& forall|i: int|
                0 <= i < fs.len() ==> #[trigger] b[i] == fs[i] || (fs[i].status
                    == FeatureStatus::InProgress && b[i] == reverted(fs[i]))
            &&& forall|i: int|
                fs.len() <= i < b.len() ==> (#[trigger] b[i]).status == FeatureStatus::Pending
            &&& forall|i: int, j: int|
                0 <= i < j < b.len() && (#[trigger] b[i]).status == FeatureStatus::Pending ==> (
                #[trigger] b[j]).status != FeatureStatus::InProgress
        }),
{
    lemma_first_with(fs, FeatureStatus::Pending);
    lemma_first_with(fs, FeatureStatus::InProgress);
    let a = preempted(fs);
    let ms = milestones(a);
    let b = ready_queue(fs, skip_scrutiny, skip_user_testing);
    assert(ids_differ(a)) by {
        assert forall|i: int, j: int| 0 <= i < j < a.len() implies (#[trigger] a[i]).id != (
        #[trigger] a[j]).id by {
            assert(fs[i].id != fs[j].id);
        }
    }
    lemma_validated_grows(a, ms, ms.len() as int, skip_scrutiny, skip_user_testing);
    assert forall|i: int| 0 <= i < a.len() implies #[trigger] b[i] == a[i] by {
        assert(b.take(a.len() as int)[i] == b[i]);
    }
    assert forall|i: int, j: int|
        0 <= i < j < b.len() && (#[trigger] b[i]).status == FeatureStatus::Pending implies (
    #[trigger] b[j]).status != FeatureStatus::InProgress by {
        if b[j].status == FeatureStatus::InProgress {
            assert(j < a.len());
            assert(fs[j].status == FeatureStatus::InProgress);
            let running = first_with(fs, FeatureStatus::InProgress)->0;
            assert(fs[running].status == FeatureStatus::InProgress);
            assert(running == j);
            assert(fs[i].status == FeatureStatus::Pending);
            let first = first_with(fs, FeatureStatus::Pending)->0;
            if i < first {
                assert(fs[i].status != FeatureStatus::Pending);
            }
        }
    }
}

proof fn lemma_pick(b: Seq<FeatureView>)
    requires
        ids_differ(b),
        forall|i: int, j: int|
            0 <= i < j < b.len() && (#[trigger] b[i]).status == FeatureStatus::Pending ==> (
            #[trigger] b[j]).status != FeatureStatus::InProgress,
    ensures
        candidate(b) matches Some(k) ==> {
            &&& 0 <= k < b.len()
            &&& b[k].status != FeatureStatus::Completed
            &&& b[k].status == FeatureStatus::Pending ==> with_feature(b, started(b[k]))
                == b.update(k, started(b[k]))
            &&& forall|j: int| 0 <= j < k ==> (#[trigger] b[j]).status == FeatureStatus::Completed
        },
{
    lemma_first_with(b, FeatureStatus::Pending);
    lemma_first_with(b, FeatureStatus::InProgress);
    if let Some(k) = candidate(b) {
        lemma_first_named(b, b[k].id);
        let at = first_named(b, b[k].id)->0;
        assert(at == k) by {
            if at < k {
                assert(b[at].id != b[k].id);
            }
            if k < at {
                assert(b[k].id != b[k].id);
            }
        }
    }
}

/// A step works on the first feature that is not done: where features are told apart
/// by their ids and one at most is in progress, the feature of the step is then in
/// progress, and every feature before it is completed. What is completed stays as it
/// is, and of the others only the progress changes.
pub proof fn law_steps_take_the_first_open_feature(
    state: MissionState,
    initial: Option<usize>,
    fs: Seq<FeatureView>,
    skip_scrutiny: bool,
    skip_user_testing: bool,
)
    requires
        ids_differ(fs),
        one_worker(fs),
    ensures
        ({
            let (step, after, queue) = step_of(
                state,
                initial,
                fs,
                skip_scrutiny,
                skip_user_testing,
            );
            &&& step matches StepView::Worker(f) ==> exists|k: int|
                {
                    &&& 0 <= k < queue.len()
                    &&& (#[trigger] queue[k]).id == f.id
                    &&& queue[k].description == f.description
                    &&& queue[k].status == FeatureStatus::InProgress
                    &&& forall|j: int|
                        0 <= j < k ==> (#[trigger] queue[j]).status == FeatureStatus::Completed
                }
            &&& queue.len() >= fs.len()
            &&& forall|j: int|
                0 <= j < fs.len() && (#[trigger] fs[j]).status == FeatureStatus::Completed
                    ==> queue[j] == fs[j]
            &&& forall|j: int|
                0 <= j < fs.len() ==> {
                    let q = #[trigger] queue[j];
                    &&& q.id == fs[j].id
                    &&& q.description == fs[j].description
                    &&& q.milestone == fs[j].milestone
                    &&& q.skill_name == fs[j].skill_name
                    &&& q.worker_session_ids == fs[j].worker_session_ids
                    &&& q.completed_worker_session_id == fs[j].completed_worker_session_id
                    &&& q.status == FeatureStatus::Completed ==> fs[j].status
                        == FeatureStatus::Completed
                }
        }),
{
    let b = ready_queue(fs, skip_scrutiny, skip_user_testing);
    lemma_ready(fs, skip_scrutiny, skip_user_testing);
    lemma_pick(b);
    let (step, after, queue) = step_of(state, initial, fs, skip_scrutiny, skip_user_testing);
    if let StepView::Worker(f) = step {
        let k = candidate(b)->0;
        assert(queue == if b[k].status == FeatureStatus::InProgress {
            b
        } else {
            b.update(k, started(b[k]))
        });
        assert(queue[k].id == f.id);
        assert forall|j: int| 0 <= j < k implies (#[trigger] queue[j]).status
            == FeatureStatus::Completed by {
            assert(queue[j] == b[j]);
        }
    }
    lemma_same_but_progress(fs, b, queue);
}

proof fn lemma_same_but_progress(
    fs: Seq<FeatureView>,
    b: Seq<FeatureView>,
    queue: Seq<FeatureView>,
)
    requires
        b.len() >= fs.len(),
        forall|i: int|
            0 <= i < fs.len() ==> #[trigger] b[i] == fs[i] || (fs[i].status
                == FeatureStatus::InProgress && b[i] == reverted(fs[i])),
        queue == fs || queue == b || exists|k: int|
            0 <= k < b.len() && b[k].status != FeatureStatus::Completed && queue
                == #[trigger] b.update(k, started(b[k])),
    ensures
        queue.len() >= fs.len(),
        forall|j: int|
            0 <= j < fs.len() && (#[trigger] fs[j]).status == FeatureStatus::Completed ==> queue[j]
                == fs[j],
        forall|j: int|
            0 <= j < fs.len() ==> {
                let q = #[trigger] queue[j];
                &&& q.id == fs[j].id
                &&& q.description == fs[j].description
                &&& q.milestone == fs[j].milestone
                &&& q.skill_name == fs[j].skill_name
                &&& q.worker_session_ids == fs[j].worker_session_ids
                &&& q.completed_worker_session_id == fs[j].completed_worker_session_id
                &&& q.status == FeatureStatus::Completed ==> fs[j].status
                    == FeatureStatus::Completed
            },
{
    if queue != fs && queue != b {
        let k = choose|k: int|
            0 <= k < b.len() && b[k].status != FeatureStatus::Completed && queue
                == #[trigger] b.update(k, started(b[k]));
        assert forall|j: int| 0 <= j < fs.len() && j != k implies queue[j] == #[trigger] b[j] by {}
        assert(queue[k] == started(b[k]));
    }
    assert forall|j: int|
        0 <= j < fs.len() && (#[trigger] fs[j]).status == FeatureStatus::Completed implies queue[j]
        == fs[j] by {
        assert(b[j] == fs[j]);
    }
}

// ---- reports ----

/// A worker's report settles its feature: it is completed if and only if the worker
/// succeeded, and else pending again. The worker is remembered, nobody works on the
/// feature any more, and the other features are as they were. Without success, or
/// where the worker asks for it, the orchestrator gets its turn.
pub proof fn law_reports_settle_the_feature(
    state: MissionState,
    initial: Option<usize>,
    fs: Seq<FeatureView>,
    skip_scrutiny: bool,
    skip_user_testing: bool,
    worker: Seq<char>,
    id: Seq<char>,
    success: WorkerSuccessState,
    to_orchestrator: bool,
    i: int,
)
    requires
        0 <= i < fs.len(),
        fs[i].id == id,
        forall|j: int| 0 <= j < i ==> (#[trigger] fs[j]).id != id,
        success == WorkerSuccessState::Success && !to_orchestrator ==> ids_differ(fs)
            && one_worker(fs),
    ensures
        match completion_of(
            state,
            initial,
            fs,
            skip_scrutiny,
            skip_user_testing,
            worker,
            id,
            success,
            to_orchestrator,
        ) {
            Ok((step, after, queue)) => {
                &&& queue[i].id == id
                &&& queue[i].status == FeatureStatus::Completed <==> success
                    == WorkerSuccessState::Success
                &&& success != WorkerSuccessState::Success ==> queue[i].status
                    == FeatureStatus::Pending
                &&& queue[i].worker_session_ids.contains(worker)
                &&& queue[i].current_worker_session_id is None
                &&& success == WorkerSuccessState::Success ==> queue[i].completed_worker_session_id
                    == Some(worker)
                &&& success != WorkerSuccessState::Success ==> queue[i].completed_worker_session_id
                    == fs[i].completed_worker_session_id
                &&& success != WorkerSuccessState::Success || to_orchestrator ==> {
                    &&& step is OrchestratorTurn
                    &&& step->OrchestratorTurn_1 == Some(id)
                    &&& after == MissionState::OrchestratorTurn
                    &&& queue.len() == fs.len()
                    &&& forall|j: int| 0 <= j < fs.len() && j != i ==> #[trigger] queue[j] == fs[j]
                }
            },
            Err(_) => false,
        },
{
    lemma_first_named(fs, id);
    let at = first_named(fs, id)->0;
    assert(at == i) by {
        if at < i {
            assert(fs[at].id != id);
        }
        if i < at {
            assert(fs[i].id != id);
        }
    }
    let told = reported(fs[i], worker, success);
    let queue = fs.update(i, told);
    assert(told.worker_session_ids.contains(worker)) by {
        if !fs[i].worker_session_ids.contains(worker) {
            let n = fs[i].worker_session_ids.len();
            assert(told.worker_session_ids[n as int] == worker);
        }
    }
    if success == WorkerSuccessState::Success && !to_orchestrator {
        assert(ids_differ(queue)) by {
            assert forall|x: int, y: int| 0 <= x < y < queue.len() implies (#[trigger] queue[x]).id
                != (#[trigger] queue[y]).id by {
                assert(fs[x].id != fs[y].id);
            }
        }
        assert(one_worker(queue)) by {
            assert forall|x: int, y: int|
                0 <= x < queue.len() && 0 <= y < queue.len() && (#[trigger] queue[x]).status
                    == FeatureStatus::InProgress && (#[trigger] queue[y]).status
                    == FeatureStatus::InProgress implies x == y by {
                assert(fs[x].status == FeatureStatus::InProgress);
                assert(fs[y].status == FeatureStatus::InProgress);
            }
        }
        law_steps_take_the_first_open_feature(
            state,
            initial,
            queue,
            skip_scrutiny,
            skip_user_testing,
        );
        assert(queue[i].status == FeatureStatus::Completed);
    }
}

/// A report on a feature that is not in the queue is refused.
pub proof fn law_unknown_features_are_refused(
    state: MissionState,
    initial: Option<usize>,
    fs: Seq<FeatureView>,
    skip_scrutiny: bool,
    skip_user_testing: bool,
    worker: Seq<char>,
    id: Seq<char>,
    success: WorkerSuccessState,
    to_orchestrator: bool,
)
    requires
        forall|j: int| 0 <= j < fs.len() ==> (#[trigger] fs[j]).id != id,
    ensures
        completion_of(
            state,
            initial,
            fs,
            skip_scrutiny,
            skip_user_testing,
            worker,
            id,
            success,
            to_orchestrator,
        ) is Err,
{
    lemma_first_named(fs, id);
}

/// What a worker says of its run: the words for success and partial success mean
/// that, and any other word a failure.
pub proof fn law_outcomes_go_by_their_word(word: Seq<char>)
    ensures
        outcome_named(word) == WorkerSuccessState::Success <==> word == "success"@,
        outcome_named(word) == WorkerSuccessState::Partial <==> word == "partial"@,
        outcome_named(word) == WorkerSuccessState::Failure <==> word != "success"@ && word
            != "partial"@,
{
    reveal_strlit("success");
    reveal_strlit("partial");
    assert("success"@[0] == 's' && "partial"@[0] == 'p');
}

/// Restarting puts the feature in progress back to pending, without its worker, and
/// leaves the others as they are.
pub proof fn law_restart_gives_the_feature_back(fs: Seq<FeatureView>)
    requires
        ids_differ(fs),
        one_worker(fs),
    ensures
        restarted(fs).len() == fs.len(),
        forall|i: int|
            0 <= i < fs.len() ==> {
                let r = #[trigger] restarted(fs)[i];
                if fs[i].status == FeatureStatus::InProgress {
                    &&& r.status == FeatureStatus::Pending
                    &&& r.current_worker_session_id is None
                    &&& r.id == fs[i].id
                    &&& r.description == fs[i].description
                    &&& r.worker_session_ids == fs[i].worker_session_ids
                } else {
                    r == fs[i]
                }
            },
{
    lemma_first_with(fs, FeatureStatus::InProgress);
    if let Some(i) = first_with(fs, FeatureStatus::InProgress) {
        lemma_first_named(fs, fs[i].id);
        let at = first_named(fs, fs[i].id)->0;
        assert(at == i) by {
            if at < i {
                assert(fs[at].id != fs[i].id);
            }
            if i < at {
                assert(fs[i].id != fs[i].id);
            }
        }
        assert forall|j: int| 0 <= j < fs.len() && (#[trigger] fs[j]).status
            == FeatureStatus::InProgress implies j == i by {
            assert(fs[i].status == FeatureStatus::InProgress);
        }
    }
}

// ---- what workers and orchestrators are told ----

proof fn lemma_part(pre: Seq<char>, p: Seq<char>, post: Seq<char>)
    ensures
        has_part(pre + p + post, p),
{
    let s = pre + p + post;
    assert(s.subrange(pre.len() as int, (pre.len() + p.len()) as int) =~= p);
    assert(occurs_at(s, p, pre.len() as int));
}

proof fn lemma_wider(s: Seq<char>, pre: Seq<char>, post: Seq<char>, p: Seq<char>)
    requires
        has_part(s, p),
    ensures
        has_part(pre + s + post, p),
{
    let i = choose|i: int| occurs_at(s, p, i);
    let whole = pre + s + post;
    assert(whole.subrange(pre.len() + i, pre.len() + i + p.len()) =~= s.subrange(
        i,
        i + p.len(),
    ));
    assert(occurs_at(whole, p, pre.len() + i));
}

proof fn lemma_bullets(items: Seq<Seq<char>>, i: int)
    requires
        0 <= i < items.len(),
    ensures
        has_part(bullets(items), items[i]),
    decreases items.len(),
{
    let before = bullets(items.drop_last());
    let line = "- "@ + items.last() + "\n"@;
    if i == items.len() - 1 {
        lemma_part("- "@, items.last(), "\n"@);
        lemma_wider(line, before, Seq::empty(), items[i]);
        assert(before + line + Seq::empty() =~= bullets(items));
    } else {
        lemma_bullets(items.drop_last(), i);
        lemma_wider(before, Seq::empty(), line, items[i]);
        assert(Seq::empty() + before + line =~= bullets(items));
    }
}

proof fn lemma_listed(heading: Seq<char>, items: Seq<Seq<char>>, i: int)
    requires
        0 <= i < items.len(),
    ensures
        has_part(list_section(heading, items), items[i]),
{
    lemma_bullets(items, i);
    lemma_wider(bullets(items), heading, "\n"@, items[i]);
    assert(heading + bullets(items) + "\n"@ =~= list_section(heading, items));
}

/// A worker is told what its feature is: its id and description, each precondition,
/// each expected behaviour and each assertion, and the documents of the mission.
pub proof fn law_prompts_tell_the_whole_feature(
    f: FeatureView,
    architecture: Option<Seq<char>>,
    validation: Option<Seq<char>>,
)
    ensures
        ({
            let prompt = worker_prompt_of(f, architecture, validation);
            &&& has_part(prompt, f.id)
            &&& has_part(prompt, f.description)
            &&& forall|i: int|
                0 <= i < f.preconditions.len() ==> has_part(prompt, #[trigger] f.preconditions[i])
            &&& forall|i: int|
                0 <= i < f.expected_behavior.len() ==> has_part(
                    prompt,
                    #[trigger] f.expected_behavior[i],
                )
            &&& forall|i: int|
                0 <= i < f.fulfills.len() ==> has_part(prompt, #[trigger] f.fulfills[i])
            &&& architecture is Some ==> has_part(prompt, architecture->0)
            &&& validation is Some ==> has_part(prompt, validation->0)
        }),
{
    let prompt = worker_prompt_of(f, architecture, validation);
    let a = "# Mission Feature Implementation: "@;
    let b = "\n\n## Description\n"@;
    let head = a + f.id + b + f.description + "\n\n"@;
    let s1 = list_section("## Preconditions\n"@, f.preconditions);
    let s2 = list_section("## Expected Behavior & Contract Invariants\n"@, f.expected_behavior);
    let s3 = list_section("## Fulfills Assertions\n"@, f.fulfills);
    let s4 = document_section("## Authoritative Architecture Overview\n"@, architecture);
    let s5 = document_section("## Validation Contract\n"@, validation);
    let tail = "Execute this feature directly, adhere strictly to all invariants and test requirements, and call `end_feature_run` when finished to record your handoff.\n"@;
    assert(prompt == head + s1 + s2 + s3 + s4 + s5 + tail);
    lemma_part(a, f.id, b);
    lemma_behind(a + f.id + b, f.description, f.id);
    lemma_behind(a + f.id + b + f.description, "\n\n"@, f.id);
    lemma_part(a + f.id + b, f.description, "\n\n"@);
    lemma_sections(head, s1, s2, s3, s4, s5, tail, f.id);
    lemma_sections(head, s1, s2, s3, s4, s5, tail, f.description);
    assert forall|i: int| 0 <= i < f.preconditions.len() implies has_part(
        prompt,
        #[trigger] f.preconditions[i],
    ) by {
        lemma_listed("## Preconditions\n"@, f.preconditions, i);
        lemma_sections(head, s1, s2, s3, s4, s5, tail, f.preconditions[i]);
    }
    assert forall|i: int| 0 <= i < f.expected_behavior.len() implies has_part(
        prompt,
        #[trigger] f.expected_behavior[i],
    ) by {
        lemma_listed("## Expected Behavior & Contract Invariants\n"@, f.expected_behavior, i);
        lemma_sections(head, s1, s2, s3, s4, s5, tail, f.expected_behavior[i]);
    }
    assert forall|i: int| 0 <= i < f.fulfills.len() implies has_part(
        prompt,
        #[trigger] f.fulfills[i],
    ) by {
        lemma_listed("## Fulfills Assertions\n"@, f.fulfills, i);
        lemma_sections(head, s1, s2, s3, s4, s5, tail, f.fulfills[i]);
    }
    if let Some(text) = architecture {
        lemma_part("## Authoritative Architecture Overview\n"@, text, "\n\n"@);
        lemma_sections(head, s1, s2, s3, s4, s5, tail, text);
    }
    if let Some(text) = validation {
        lemma_part("## Validation Contract\n"@, text, "\n\n"@);
        lemma_sections(head, s1, s2, s3, s4, s5, tail, text);
    }
}

proof fn lemma_behind(s: Seq<char>, post: Seq<char>, p: Seq<char>)
    requires
        has_part(s, p),
    ensures
        has_part(s + post, p),
{
    let i = choose|i: int| occurs_at(s, p, i);
    assert((s + post).subrange(i, i + p.len()) =~= s.subrange(i, i + p.len()));
    assert(occurs_at(s + post, p, i));
}

proof fn lemma_before(pre: Seq<char>, s: Seq<char>, p: Seq<char>)
    requires
        has_part(s, p),
    ensures
        has_part(pre + s, p),
{
    let i = choose|i: int| occurs_at(s, p, i);
    assert((pre + s).subrange(pre.len() + i, pre.len() + i + p.len()) =~= s.subrange(
        i,
        i + p.len(),
    ));
    assert(occurs_at(pre + s, p, pre.len() + i));
}

/// What stands in one of some sections stands in all of them together.
proof fn lemma_sections(
    s0: Seq<char>,
    s1: Seq<char>,
    s2: Seq<char>,
    s3: Seq<char>,
    s4: Seq<char>,
    s5: Seq<char>,
    s6: Seq<char>,
    p: Seq<char>,
)
    requires
        has_part(s0, p) || has_part(s1, p) || has_part(s2, p) || has_part(s3, p) || has_part(s4, p)
            || has_part(s5, p),
    ensures
        has_part(s0 + s1 + s2 + s3 + s4 + s5 + s6, p),
{
    let a1 = s0 + s1;
    let a2 = a1 + s2;
    let a3 = a2 + s3;
    let a4 = a3 + s4;
    let a5 = a4 + s5;
    if has_part(s0, p) {
        lemma_behind(s0, s1, p);
    }
    if has_part(s1, p) {
        lemma_before(s0, s1, p);
    }
    if has_part(a1, p) {
        lemma_behind(a1, s2, p);
    }
    if has_part(s2, p) {
        lemma_before(a1, s2, p);
    }
    if has_part(a2, p) {
        lemma_behind(a2, s3, p);
    }
    if has_part(s3, p) {
        lemma_before(a2, s3, p);
    }
    if has_part(a3, p) {
        lemma_behind(a3, s4, p);
    }
    if has_part(s4, p) {
        lemma_before(a3, s4, p);
    }
    if has_part(a4, p) {
        lemma_behind(a4, s5, p);
    }
    if has_part(s5, p) {
        lemma_before(a4, s5, p);
    }
    lemma_behind(a5, s6, p);
}

/// The start of a run is answered by what the runner did: a worker with its feature,
/// its skill and its prompt, which the orchestrator's message precedes; success only
/// for a worker and for a mission that is done.
pub proof fn law_starts_are_answered_by_the_step(
    result: MissionRunStepResult,
    message: Option<Seq<char>>,
)
    ensures
        ({
            let r = start_answer(result, message);
            &&& r.success <==> result is WorkerReady || result is Completed
            &&& r.status == "worker_ready"@ <==> result is WorkerReady
            &&& r.status == "completed"@ <==> result is Completed
            &&& r.status == "paused"@ <==> result is Paused
            &&& r.status == "orchestrator_turn"@ <==> result is OrchestratorTurn
            &&& r.status == "scope_review_required"@ <==> result is ScopeReviewRequired
            &&& result matches MissionRunStepResult::WorkerReady {
                feature,
                worker_prompt,
                skill_name,
                ..
            } ==> {
                &&& r.active_feature_id == Some(feature.id@)
                &&& r.skill_name == Some(skill_name@)
                &&& r.worker_prompt is Some
                &&& has_suffix(r.worker_prompt->0, worker_prompt@)
                &&& message is None ==> r.worker_prompt == Some(worker_prompt@)
                &&& message is Some ==> has_part(r.worker_prompt->0, message->0)
            }
            &&& !(result is WorkerReady) ==> r.worker_prompt is None && r.skill_name is None
            &&& result matches MissionRunStepResult::OrchestratorTurn { reason, feature_id } ==> {
                &&& has_suffix(r.message, reason@)
                &&& r.active_feature_id == option_view(feature_id)
            }
            &&& result matches MissionRunStepResult::Paused { reason } ==> has_suffix(
                r.message,
                reason@,
            )
        }),
{
    reveal_strlit("worker_ready");
    reveal_strlit("completed");
    reveal_strlit("paused");
    reveal_strlit("orchestrator_turn");
    reveal_strlit("scope_review_required");
    assert("worker_ready"@[0] == 'w' && "completed"@[0] == 'c' && "paused"@[0] == 'p'
        && "orchestrator_turn"@[0] == 'o' && "scope_review_required"@[0] == 's');
    let r = start_answer(result, message);
    match result {
        MissionRunStepResult::WorkerReady { worker_prompt, .. } => {
            let p = worker_prompt@;
            match message {
                Some(m) => {
                    let head = "## Direct Orchestrator Instructions:\n"@;
                    lemma_part(head, m, "\n\n"@ + p);
                    assert(head + m + ("\n\n"@ + p) =~= r.worker_prompt->0);
                    lemma_tail(head + m + "\n\n"@, p);
                },
                None => {
                    lemma_tail(Seq::empty(), p);
                    assert(Seq::<char>::empty() + p =~= p);
                },
            }
        },
        MissionRunStepResult::OrchestratorTurn { reason, .. } => {
            lemma_tail("Control returned to orchestrator: "@, reason@);
        },
        MissionRunStepResult::Paused { reason } => {
            lemma_tail("Mission paused: "@, reason@);
        },
        _ => {},
    }
}

proof fn lemma_tail(a: Seq<char>, b: Seq<char>)
    ensures
        has_suffix(a + b, b),
{
    assert((a + b).subrange(a.len() as int, (a.len() + b.len()) as int) =~= b);
}

/// The end of a feature is answered by the step that follows: the next action names
/// the kind of the step, and the message its next feature or its reason.
pub proof fn law_ends_are_answered_by_the_step(result: MissionRunStepResult, id: Seq<char>)
    ensures
        ({
            let (action, message) = end_answer(result, id);
            &&& action == "next_worker_ready"@ <==> result is WorkerReady
            &&& action == "mission_completed"@ <==> result is Completed
            &&& action == "paused"@ <==> result is Paused
            &&& action == "orchestrator_turn"@ <==> result is OrchestratorTurn
            &&& action == "scope_review_required"@ <==> result is ScopeReviewRequired
            &&& result matches MissionRunStepResult::WorkerReady { feature, .. } ==> has_part(
                message,
                id,
            ) && has_part(message, feature.id@)
            &&& result matches MissionRunStepResult::OrchestratorTurn { reason, .. } ==> has_suffix(
                message,
                reason@,
            )
            &&& result matches MissionRunStepResult::Paused { reason } ==> has_suffix(
                message,
                reason@,
            )
        }),
{
    reveal_strlit("next_worker_ready");
    reveal_strlit("mission_completed");
    reveal_strlit("paused");
    reveal_strlit("orchestrator_turn");
    reveal_strlit("scope_review_required");
    assert("next_worker_ready"@[0] == 'n' && "mission_completed"@[0] == 'm' && "paused"@[0] == 'p'
        && "orchestrator_turn"@[0] == 'o' && "scope_review_required"@[0] == 's');
    let (action, message) = end_answer(result, id);
    match result {
        MissionRunStepResult::WorkerReady { feature, .. } => {
            let a = "Feature '"@;
            let b = "' concluded. Next feature '"@;
            let c = "' is queued."@;
            lemma_part(a, id, b + feature.id@ + c);
            assert(a + id + (b + feature.id@ + c) =~= message);
            lemma_part(a + id + b, feature.id@, c);
        },
        MissionRunStepResult::OrchestratorTurn { reason, .. } => {
            lemma_tail("Feature concluded. Returned to orchestrator: "@, reason@);
        },
        MissionRunStepResult::Paused { reason } => {
            lemma_tail("Feature concluded. Mission paused: "@, reason@);
        },
        _ => {},
    }
}

// ---- readiness ----

proof fn lemma_repeated(ids: Seq<Seq<char>>)
    ensures
        repeated(ids).len() == 0 <==> forall|i: int, j: int|
            0 <= i < j < ids.len() ==> (#[trigger] ids[i]) != (#[trigger] ids[j]),
        forall|k: int|
            0 <= k < repeated(ids).len() ==> exists|i: int, j: int|
                0 <= i < j < ids.len() && (#[trigger] ids[i]) == (#[trigger] ids[j]) && ids[i]
                    == #[trigger] repeated(ids)[k],
    decreases ids.len(),
{
    if ids.len() > 0 {
        let t = ids.drop_last();
        lemma_repeated(t);
        let last = ids.len() - 1;
        if t.contains(ids.last()) {
            let i = choose|i: int| 0 <= i < t.len() && t[i] == ids.last();
            assert(ids[i] == ids[last]);
            assert(repeated(ids).len() > 0);
        } else {
            assert forall|i: int| 0 <= i < last implies #[trigger] ids[i] != ids[last] by {
                assert(t[i] == ids[i]);
            }
        }
        if repeated(t).len() == 0 && !t.contains(ids.last()) {
            assert forall|i: int, j: int| 0 <= i < j < ids.len() implies (#[trigger] ids[i]) != (
            #[trigger] ids[j]) by {
                if j < last {
                    assert(t[i] != t[j]);
                }
            }
        }
        if repeated(t).len() > 0 {
            let k = 0int;
            let (i, j) = choose|i: int, j: int|
                0 <= i < j < t.len() && (#[trigger] t[i]) == (#[trigger] t[j]) && t[i] == repeated(
                    t,
                )[k];
            assert(ids[i] == ids[j]);
        }
        assert forall|k: int| 0 <= k < repeated(ids).len() implies exists|i: int, j: int|
            0 <= i < j < ids.len() && (#[trigger] ids[i]) == (#[trigger] ids[j]) && ids[i]
                == #[trigger] repeated(ids)[k] by {
            if k < repeated(t).len() {
                assert(repeated(ids)[k] == repeated(t)[k]);
                let (i, j) = choose|i: int, j: int|
                    0 <= i < j < t.len() && (#[trigger] t[i]) == (#[trigger] t[j]) && t[i]
                        == repeated(t)[k];
                assert(ids[i] == ids[j] && ids[i] == repeated(ids)[k]);
            } else {
                let i = choose|i: int| 0 <= i < t.len() && t[i] == ids.last();
                assert(ids[i] == ids[last] && ids[i] == repeated(ids)[k]);
            }
        }
    }
}

/// A mission is ready exactly where its state and its features can be read and no two
/// features share an id. The check of the ids passes exactly then, too.
pub proof fn law_ready_missions_have_distinct_features(
    r: InspectMissionReadinessOutput,
    state: Result<MissionStateFile, String>,
    features: Result<FeaturesFile, String>,
    skills_found: Seq<bool>,
)
    requires
        inspected(r, state, features, skills_found),
        features is Ok ==> skills_found.len() == features->Ok_0@.len(),
    ensures
        r.ready <==> state is Ok && features is Ok && forall|i: int, j: int|
            0 <= i < j < features->Ok_0@.len() ==> (#[trigger] features->Ok_0@[i]).id != (
            #[trigger] features->Ok_0@[j]).id,
        r.checks@[0].passed <==> state is Ok,
        r.checks@[1].passed <==> features is Ok,
        features is Ok ==> (r.checks@[2].passed <==> forall|i: int, j: int|
            0 <= i < j < features->Ok_0@.len() ==> (#[trigger] features->Ok_0@[i]).id != (
            #[trigger] features->Ok_0@[j]).id),
        r.checks@[3].passed <==> r.missing_skills@.len() == 0,
        features is Ok ==> r.total_features == features->Ok_0@.len(),
{
    let queue = queue_read(features);
    let ids = ids_of(queue);
    lemma_repeated(ids);
    assert(r.checks@[0]@.passed == r.checks@[0].passed);
    assert(r.checks@[1]@.passed == r.checks@[1].passed);
    assert(r.checks@[2]@.passed == r.checks@[2].passed);
    assert(r.checks@[3]@.passed == r.checks@[3].passed);
    assert(views(r.missing_skills@).len() == r.missing_skills@.len());
    if features is Ok {
        let fs = features->Ok_0@;
        assert(queue == fs);
        assert forall|i: int| 0 <= i < fs.len() implies ids[i] == (#[trigger] fs[i]).id by {}
        assert((forall|i: int, j: int|
            0 <= i < j < ids.len() ==> (#[trigger] ids[i]) != (#[trigger] ids[j])) <==> (forall|
            i: int,
            j: int,
        |
            0 <= i < j < fs.len() ==> (#[trigger] fs[i]).id != (#[trigger] fs[j]).id)) by {
            if forall|i: int, j: int|
                0 <= i < j < fs.len() ==> (#[trigger] fs[i]).id != (#[trigger] fs[j]).id {
                assert forall|i: int, j: int| 0 <= i < j < ids.len() implies (#[trigger] ids[i])
                    != (#[trigger] ids[j]) by {
                    assert(fs[i].id != fs[j].id);
                }
            }
            if forall|i: int, j: int|
                0 <= i < j < ids.len() ==> (#[trigger] ids[i]) != (#[trigger] ids[j]) {
                assert forall|i: int, j: int| 0 <= i < j < fs.len() implies (#[trigger] fs[i]).id
                    != (#[trigger] fs[j]).id by {
                    assert(ids[i] != ids[j]);
                }
            }
        }
    }
}

/// The skills that are told missing are those of the features whose skill was not found.
pub proof fn law_missing_skills_are_named(
    r: InspectMissionReadinessOutput,
    state: Result<MissionStateFile, String>,
    file: FeaturesFile,
    skills_found: Seq<bool>,
    skill: Seq<char>,
)
    requires
        inspected(r, state, Ok(file), skills_found),
        skills_found.len() == file@.len(),
    ensures
        in_list(r.missing_skills@, skill) <==> exists|i: int|
            0 <= i < file@.len() && !skills_found[i] && (#[trigger] file@[i]).skill_name == skill,
{
    let fs = file@;
    let absent = missing(fs, skills_found);
    lemma_missing(fs, skills_found);
    lemma_in_list(r.missing_skills@, skill);
    assert(views(r.missing_skills@) == absent);
    if exists|i: int|
        0 <= i < fs.len() && !skills_found[i] && (#[trigger] fs[i]).skill_name == skill {
        let i = choose|i: int|
            0 <= i < fs.len() && !skills_found[i] && (#[trigger] fs[i]).skill_name == skill;
        assert(absent.contains(fs[i].skill_name));
    }
}

proof fn lemma_missing(fs: Seq<FeatureView>, found: Seq<bool>)
    requires
        found.len() >= fs.len(),
    ensures
        forall|i: int|
            0 <= i < fs.len() && !found[i] ==> missing(fs, found).contains(
                (#[trigger] fs[i]).skill_name,
            ),
        forall|s: Seq<char>| #[trigger]
            missing(fs, found).contains(s) ==> exists|i: int|
                0 <= i < fs.len() && !found[i] && (#[trigger] fs[i]).skill_name == s,
    decreases fs.len(),
{
    if fs.len() > 0 {
        let t = fs.drop_last();
        let last = fs.len() - 1;
        lemma_missing(t, found);
        let before = missing(t, found);
        let after = missing(fs, found);
        assert forall|i: int| 0 <= i < fs.len() && !found[i] implies after.contains(
            (#[trigger] fs[i]).skill_name,
        ) by {
            if i < last {
                assert(before.contains(t[i].skill_name));
                let k = choose|k: int| 0 <= k < before.len() && before[k] == fs[i].skill_name;
                assert(after[k] == fs[i].skill_name);
            } else if !before.contains(fs.last().skill_name) {
                assert(after[before.len() as int] == fs.last().skill_name);
            }
        }
        assert forall|s: Seq<char>| #[trigger] after.contains(s) implies exists|i: int|
            0 <= i < fs.len() && !found[i] && (#[trigger] fs[i]).skill_name == s by {
            let k = choose|k: int| 0 <= k < after.len() && after[k] == s;
            if k < before.len() {
                assert(before[k] == s);
                assert(before.contains(s));
                let i = choose|i: int|
                    0 <= i < t.len() && !found[i] && (#[trigger] t[i]).skill_name == s;
                assert(fs[i].skill_name == s);
            } else {
                assert(fs[last].skill_name == s);
            }
        }
    }
}

// ---- the catalog ----

/// The catalog puts what was updated last first; what has no such time comes last.
pub proof fn law_newest_missions_come_first(ms: Seq<MissionSummary>)
    ensures
        newest_first(ms).to_multiset() == ms.to_multiset(),
        forall|i: int, j: int|
            0 <= i < j < newest_first(ms).len() ==> {
                let a = #[trigger] newest_first(ms)[i];
                let b = #[trigger] newest_first(ms)[j];
                &&& b.updated_at is Some ==> a.updated_at is Some
                &&& b.updated_at is Some ==> !text_before(a.updated_at->0@, b.updated_at->0@)
            },
{
    law_catalog_is_sorted(ms);
    assert forall|i: int, j: int| 0 <= i < j < newest_first(ms).len() implies {
        let a = #[trigger] newest_first(ms)[i];
        let b = #[trigger] newest_first(ms)[j];
        &&& b.updated_at is Some ==> a.updated_at is Some
        &&& b.updated_at is Some ==> !text_before(a.updated_at->0@, b.updated_at->0@)
    } by {
        assert(!later(newest_first(ms)[j], newest_first(ms)[i]));
    }
}

/// A workspace is shown the missions that work in it, in order, and no others.
pub proof fn law_workspaces_see_their_missions(
    ms: Seq<MissionSummary>,
    resolved: Seq<Option<String>>,
    workspace: Seq<char>,
)
    requires
        resolved.len() == ms.len(),
    ensures
        forall|i: int|
            0 <= i < ms.len() && resolved[i] is Some && resolved[i]->0@ == workspace
                ==> in_workspace(ms, resolved, workspace).contains(#[trigger] ms[i]),
        forall|m: MissionSummary| #[trigger]
            in_workspace(ms, resolved, workspace).contains(m) ==> exists|i: int|
                0 <= i < ms.len() && resolved[i] is Some && resolved[i]->0@ == workspace
                    && #[trigger] ms[i] == m,
{
    lemma_in_workspace(ms, resolved, workspace);
}

proof fn lemma_in_workspace(
    ms: Seq<MissionSummary>,
    resolved: Seq<Option<String>>,
    workspace: Seq<char>,
)
    requires
        resolved.len() >= ms.len(),
    ensures
        forall|i: int|
            0 <= i < ms.len() && resolved[i] is Some && resolved[i]->0@ == workspace
                ==> in_workspace(ms, resolved, workspace).contains(#[trigger] ms[i]),
        forall|m: MissionSummary| #[trigger]
            in_workspace(ms, resolved, workspace).contains(m) ==> exists|i: int|
                0 <= i < ms.len() && resolved[i] is Some && resolved[i]->0@ == workspace
                    && #[trigger] ms[i] == m,
    decreases ms.len(),
{
    if ms.len() > 0 {
        let t = ms.drop_last();
        let last = ms.len() - 1;
        lemma_in_workspace(t, resolved, workspace);
        let before = in_workspace(t, resolved, workspace);
        let after = in_workspace(ms, resolved, workspace);
        assert forall|i: int|
            0 <= i < ms.len() && resolved[i] is Some && resolved[i]->0@ == workspace implies
            after.contains(#[trigger] ms[i]) by {
            if i < last {
                assert(before.contains(t[i]));
                let k = choose|k: int| 0 <= k < before.len() && before[k] == ms[i];
                assert(after[k] == ms[i]);
            } else {
                assert(after[before.len() as int] == ms[i]);
            }
        }
        assert forall|m: MissionSummary| #[trigger] after.contains(m) implies exists|i: int|
            0 <= i < ms.len() && resolved[i] is Some && resolved[i]->0@ == workspace
                && #[trigger] ms[i] == m by {
            let k = choose|k: int| 0 <= k < after.len() && after[k] == m;
            if k < before.len() {
                assert(before[k] == m);
                assert(before.contains(m));
                let i = choose|i: int|
                    0 <= i < t.len() && resolved[i] is Some && resolved[i]->0@ == workspace
                        && #[trigger] t[i] == m;
                assert(ms[i] == m);
            } else {
                assert(ms[last] == m);
            }
        }
    }
}

/// A mission is found by its directory name or its id, whole before in part, and by a
/// part of its title only where neither fits; what is found fits the words, and where
/// nothing is found nothing fits.
pub proof fn law_missions_are_found_by_name(ks: Seq<MissionKeys>, q: Seq<char>)
    ensures
        best_match(ks, q) matches Some(i) ==> {
            &&& 0 <= i < ks.len()
            &&& ks[i].id@ == q || (ks[i].mission_id is Some && ks[i].mission_id->0@ == q)
                || has_prefix(ks[i].id@, q) || (ks[i].mission_id is Some && has_prefix(
                ks[i].mission_id->0@,
                q,
            )) || has_part(ks[i].title@, q)
            &&& (exists|j: int| 0 <= j < ks.len() && (#[trigger] ks[j]).id@ == q) ==> ks[i].id@ == q
            &&& (forall|j: int| 0 <= j < ks.len() ==> (#[trigger] ks[j]).id@ != q) && (exists|
                j: int,
            |
                0 <= j < ks.len() && (#[trigger] ks[j]).mission_id is Some && ks[j].mission_id->0@
                    == q) ==> ks[i].mission_id is Some && ks[i].mission_id->0@ == q
        },
        best_match(ks, q) is None ==> forall|j: int|
            0 <= j < ks.len() ==> {
                let k = #[trigger] ks[j];
                k.id@ != q && !has_prefix(k.id@, q) && !has_part(k.title@, q) && (k.mission_id
                    is Some ==> !has_prefix(k.mission_id->0@, q))
            },
{
    lemma_first_match(ks, q, MatchRank::ExactId);
    lemma_first_match(ks, q, MatchRank::ExactMissionId);
    lemma_first_match(ks, q, MatchRank::Prefix);
    lemma_first_match(ks, q, MatchRank::TitlePart);
}

proof fn lemma_first_match(ks: Seq<MissionKeys>, q: Seq<char>, rank: MatchRank)
    ensures
        match first_match(ks, q, rank) {
            Some(i) => {
                &&& 0 <= i < ks.len()
                &&& key_matches(ks[i], q, rank)
                &&& forall|j: int| 0 <= j < i ==> !key_matches(#[trigger] ks[j], q, rank)
            },
            None => forall|j: int| 0 <= j < ks.len() ==> !key_matches(#[trigger] ks[j], q, rank),
        },
    decreases ks.len(),
{
    if ks.len() > 0 && !key_matches(ks[0], q, rank) {
        lemma_first_match(ks.drop_first(), q, rank);
        assert forall|j: int| 1 <= j < ks.len() implies #[trigger] ks[j] == ks.drop_first()[j
            - 1] by {}
    }
}

/// The title of an overview is its first heading that says something.
pub proof fn law_titles_are_the_first_heading(ls: Seq<Seq<char>>)
    ensures
        first_title(ls) matches Some(t) ==> t.len() > 0 && exists|i: int|
            {
                &&& 0 <= i < ls.len()
                &&& has_prefix(trimmed(#[trigger] ls[i]), "# "@)
                &&& t == trimmed(trimmed(ls[i]).skip(2))
                &&& forall|j: int|
                    0 <= j < i ==> !(has_prefix(trimmed(#[trigger] ls[j]), "# "@) && trimmed(
                        trimmed(ls[j]).skip(2),
                    ).len() > 0)
            },
        first_title(ls) is None ==> forall|j: int|
            0 <= j < ls.len() ==> !(has_prefix(trimmed(#[trigger] ls[j]), "# "@) && trimmed(
                trimmed(ls[j]).skip(2),
            ).len() > 0),
    decreases ls.len(),
{
    if ls.len() > 0 {
        let text = trimmed(ls[0]);
        if !(has_prefix(text, "# "@) && trimmed(text.skip(2)).len() > 0) {
            let rest = ls.drop_first();
            law_titles_are_the_first_heading(rest);
            assert forall|j: int| 1 <= j < ls.len() implies #[trigger] ls[j] == rest[j - 1] by {}
            if let Some(t) = first_title(rest) {
                let i = choose|i: int|
                    {
                        &&& 0 <= i < rest.len()
                        &&& has_prefix(trimmed(#[trigger] rest[i]), "# "@)
                        &&& t == trimmed(trimmed(rest[i]).skip(2))
                        &&& forall|j: int|
                            0 <= j < i ==> !(has_prefix(trimmed(#[trigger] rest[j]), "# "@)
                                && trimmed(trimmed(rest[j]).skip(2)).len() > 0)
                    };
                assert(ls[i + 1] == rest[i]);
                assert forall|j: int| 0 <= j < i + 1 implies !(has_prefix(
                    trimmed(#[trigger] ls[j]),
                    "# "@,
                ) && trimmed(trimmed(ls[j]).skip(2)).len() > 0) by {
                    if j > 0 {
                        assert(ls[j] == rest[j - 1]);
                    }
                }
            }
        } else {
            assert(has_prefix(trimmed(ls[0]), "# "@));
        }
    }
}

/// A part below a directory keeps the directory before it and the part behind it.
pub proof fn law_parts_go_below_their_directory(base: Seq<char>, part: Seq<char>)
    requires
        base.len() > 0,
        part.len() > 0,
        part[0] != '/',
    ensures
        has_prefix(path_below(base, part), base),
        has_suffix(path_below(base, part), part),
        path_below(base, part).len() <= base.len() + part.len() + 1,
        base.last() != '/' ==> path_below(base, part)[base.len() as int] == '/',
        base.last() == '/' ==> path_below(base, part) == base + part,
{
    reveal_strlit("/");
    let p = path_below(base, part);
    assert(p.subrange(0, base.len() as int) =~= base);
    assert(p.subrange(p.len() - part.len(), p.len() as int) =~= part);
}

// ---- tools ----

/// A mission is told as it stands: its title, or what names it, its state, its directory
/// and how many of its features are in which state.
pub proof fn law_summaries_tell_the_mission(
    id: &str,
    source: MissionSource,
    dir: &str,
    state: Option<&MissionStateFile>,
    title: Option<String>,
    working_directory: Option<String>,
    features: Option<&FeaturesFile>,
    r: MissionSummary,
)
    requires
        call_ensures(
            summarize_mission,
            (id, source, dir, state, title, working_directory, features),
            r,
        ),
    ensures
        r.id@ == id@,
        r.dir@ == dir@,
        r.source == source,
        title matches Some(t) ==> r.title@ == t@,
        title is None && state is None ==> r.title@ == id@,
        title is None ==> (state matches Some(s) ==> (s.mission_id@.len() > 0 ==> r.title@
            == s.mission_id@)),
        state matches Some(s) ==> r.state == s.state && r.updated_at == Some(s.updated_at)
            && r.created_at == Some(s.created_at),
        working_directory matches Some(w) ==> option_view(r.working_directory) == Some(w@),
        features matches Some(f) ==> r.total_features == f@.len() && r.completed_features
            == f@.filter(|x: FeatureView| x.status == FeatureStatus::Completed).len()
            && r.in_progress_features == f@.filter(
            |x: FeatureView| x.status == FeatureStatus::InProgress,
        ).len() && r.pending_features == f@.filter(
            |x: FeatureView| x.status == FeatureStatus::Pending,
        ).len(),
{
    if let Some(f) = features {
        lemma_counts(f@);
    }
}

proof fn lemma_counts(fs: Seq<FeatureView>)
    ensures
        with_status(fs, FeatureStatus::Completed) == fs.filter(
            |x: FeatureView| x.status == FeatureStatus::Completed,
        ),
        with_status(fs, FeatureStatus::InProgress) == fs.filter(
            |x: FeatureView| x.status == FeatureStatus::InProgress,
        ),
        with_status(fs, FeatureStatus::Pending) == fs.filter(
            |x: FeatureView| x.status == FeatureStatus::Pending,
        ),
    decreases fs.len(),
{
    reveal(Seq::filter);
    if fs.len() > 0 {
        lemma_counts(fs.drop_last());
    }
}

/// Where a mission lies: what a query found, a directory that it names, the mission of
/// the workspace, or the latest, in this order.
pub proof fn law_missions_are_resolved_in_order(
    query: Option<String>,
    found: Option<String>,
    query_is_dir: bool,
    of_workspace: Option<String>,
    most_recent: Option<String>,
    r: Option<String>,
)
    requires
        call_ensures(
            resolve_mission_dir,
            (query, found, query_is_dir, of_workspace, most_recent),
            r,
        ),
    ensures
        query is Some && found is Some ==> r == found,
        query is Some && found is None && query_is_dir ==> r == query,
        query is None && of_workspace is Some ==> r == of_workspace,
        query is None && of_workspace is None ==> r == most_recent,
{
}

/// Where a mission works: the directory that its file names, or else its state.
pub proof fn law_the_named_directory_goes_first(
    service: &MissionFileService,
    named: &Option<String>,
    state: Option<&MissionStateFile>,
    r: Result<String, String>,
)
    requires
        call_ensures(MissionFileService::read_working_directory, (service, named, state), r),
    ensures
        named matches Some(n) ==> (trimmed(n@).len() > 0 ==> (r matches Ok(s) && s@ == trimmed(n@))),
        (named is None || trimmed(named->0@).len() == 0) ==> (state matches Some(s) ==> (
        s.working_directory@.len() > 0 ==> (r matches Ok(d) && d@ == s.working_directory@))),
        (named is None || trimmed(named->0@).len() == 0) && state is None ==> r is Err,
{
}

/// A worker is sent out with its feature: its prompt, its skill and the documents are
/// those of the step.
pub proof fn law_workers_get_their_feature(
    step: MissionStep,
    architecture: Option<String>,
    validation: Option<String>,
    skill: Option<String>,
    r: MissionRunStepResult,
)
    requires
        call_ensures(step_result, (step, architecture, validation, skill), r),
    ensures
        step is Worker <==> r is WorkerReady,
        step is Completed <==> r is Completed,
        step is ScopeReviewRequired <==> r is ScopeReviewRequired,
        step is OrchestratorTurn <==> r is OrchestratorTurn,
        step is Paused <==> r is Paused,
        step matches MissionStep::Worker { feature } ==> (r matches MissionRunStepResult::WorkerReady {
            feature: shown,
            worker_prompt,
            skill_name,
            skill_instructions,
            architecture_doc,
            validation_contract,
        } && shown.id@ == feature.id@ && has_part(worker_prompt@, feature.description@)
            && skill_name@ == feature.skill_name@ && skill_instructions == skill && architecture_doc
            == architecture && validation_contract == validation),
{
    if let MissionStep::Worker { feature } = step {
        law_prompts_tell_the_whole_feature(
            feature@,
            option_view(architecture),
            option_view(validation),
        );
    }
}

/// What is dismissed is recorded item by item, with its justification.
pub proof fn law_dismissals_are_recorded(
    tool: &DismissHandoffItemsTool,
    items: &Vec<DismissItemInput>,
    now: &str,
    r: (ProgressLogEntry, DismissHandoffItemsOutput),
)
    requires
        call_ensures(DismissHandoffItemsTool::dismiss, (tool, items, now), r),
    ensures
        r.0 matches ProgressLogEntry::HandoffItemsDismissed { timestamp, dismissals } && {
            &&& timestamp@ == now@
            &&& dismissals@.len() == items@.len()
            &&& forall|i: int|
                0 <= i < items@.len() ==> {
                    let d = #[trigger] dismissals@[i];
                    &&& d.summary@ == items@[i].summary@
                    &&& d.justification@ == items@[i].justification@
                    &&& d.source_feature_id@ == items@[i].source_feature_id@
                    &&& d.item_type@ == items@[i].item_type@
                }
        },
        r.1.dismissed_count == items@.len(),
{
    if let ProgressLogEntry::HandoffItemsDismissed { timestamp, dismissals } = r.0 {
        assert forall|i: int| 0 <= i < items@.len() implies {
            let d = #[trigger] dismissals@[i];
            &&& d.summary@ == items@[i].summary@
            &&& d.justification@ == items@[i].justification@
            &&& d.source_feature_id@ == items@[i].source_feature_id@
            &&& d.item_type@ == items@[i].item_type@
        } by {
            assert(dismisses(dismissals@[i], items@[i]));
        }
    }
}

/// A report is kept as it was given: who worked on what, how it went, and the handoff.
pub proof fn law_handoffs_are_kept_whole(
    runner: &MissionRunner,
    now: &str,
    worker: &str,
    feature: &str,
    success: WorkerSuccessState,
    returned: bool,
    commit_id: Option<String>,
    repo_path: Option<String>,
    handoff: WorkerHandoff,
    r: SavedWorkerHandoff,
)
    requires
        call_ensures(
            MissionRunner::saved_handoff,
            (runner, now, worker, feature, success, returned, commit_id, repo_path, handoff),
            r,
        ),
    ensures
        r.worker_session_id@ == worker@,
        r.feature_id@ == feature@,
        r.success_state == success,
        r.return_to_orchestrator == returned,
        r.commit_id == commit_id,
        r.repo_path == repo_path,
        r.handoff == handoff,
        r.timestamp@ == now@,
{
}

/// The completion of a worker is logged with its outcome; the validators passed exactly
/// where it succeeded.
pub proof fn law_completions_are_logged(
    runner: &MissionRunner,
    now: &str,
    worker: &str,
    feature: &str,
    success: WorkerSuccessState,
    returned: bool,
    commit_id: Option<String>,
    repo_path: Option<String>,
    exit_code: i32,
    handoff: WorkerHandoff,
    r: ProgressLogEntry,
)
    requires
        call_ensures(
            MissionRunner::completion_entry,
            (
                runner,
                now,
                worker,
                feature,
                success,
                returned,
                commit_id,
                repo_path,
                exit_code,
                handoff,
            ),
            r,
        ),
    ensures
        r matches ProgressLogEntry::WorkerCompleted {
            worker_session_id,
            feature_id,
            success_state,
            exit_code: code,
            validators_passed,
            handoff: kept,
            ..
        } && worker_session_id@ == worker@ && feature_id@ == feature@ && success_state == success
            && code == exit_code && (validators_passed <==> success is Success) && kept == handoff,
{
}

/// A report is that of the worker that it names.
pub proof fn law_reports_name_their_worker(e: ProgressLogEntry, worker: Seq<char>)
    ensures
        ends_worker(e, worker) <==> e is WorkerCompleted
            && e->WorkerCompleted_worker_session_id@ == worker,
{
}

/// A mission that is proposed begins waiting for input, with its title, its overview and
/// its directories.
pub proof fn law_proposals_begin_waiting(
    tool: &ProposeMissionTool,
    title: &str,
    overview: &str,
    working_directory: &str,
    missions_dir: &str,
    id: &str,
    now: &str,
    r: Proposal,
)
    requires
        call_ensures(
            ProposeMissionTool::propose,
            (tool, title, overview, working_directory, missions_dir, id, now),
            r,
        ),
    ensures
        r.state.state == MissionState::AwaitingInput,
        r.state.working_directory@ == working_directory@,
        r.state.created_at@ == now@,
        has_suffix(r.mission_md@, trimmed(overview@)),
        has_prefix(r.mission_md@, "# "@ + trimmed(title@)),
        r.output.success,
        r.output.mission_id@ == id@,
        r.output.mission_dir@ == path_below(missions_dir@, id@),
        has_prefix(r.state.mission_id@, "mis_"@),
{
    let head = "# "@ + trimmed(title@);
    let t = trimmed(overview@);
    let md = r.mission_md@;
    assert(md.subrange(0, head.len() as int) =~= head);
    assert(md.subrange(md.len() - t.len(), md.len() as int) =~= t);
    let short = choose|short: Seq<char>|
        {
            &&& #[trigger] encode_utf8(short) == encode_utf8(id@).take(short_id_bytes(id@))
            &&& r.state.mission_id@ == "mis_"@ + short
        };
    assert(r.state.mission_id@.subrange(0, "mis_"@.len() as int) =~= "mis_"@);
}

/// Where missions are looked for: below the configured home, else below the home, and
/// behind it below the project where that is another place.
pub proof fn law_missions_are_looked_for_at_home_first(
    config_home: Option<&str>,
    home: Option<&str>,
    project: Option<&str>,
    r: Vec<String>,
)
    requires
        call_ensures(opengrok_missions_dirs, (config_home, home, project), r),
    ensures
        1 <= r@.len() <= 2,
        config_home matches Some(c) ==> r@[0]@ == path_below(c@, "missions"@),
        config_home is None ==> (home matches Some(h) ==> r@[0]@ == path_below(
            path_below(h@, ".opengrok"@),
            "missions"@,
        )),
        project is None ==> r@.len() == 1,
        config_home is None && home is None ==> r@.len() == 1,
        r@.len() == 2 ==> project is Some && r@[1]@ == path_below(
            path_below(project->0@, ".opengrok"@),
            "missions"@,
        ) && r@[1]@ != r@[0]@,
        project is Some && (config_home is Some || home is Some) && r@.len() == 1 ==> path_below(
            path_below(project->0@, ".opengrok"@),
            "missions"@,
        ) == r@[0]@,
{
    let v = views(r@);
    assert(v.len() == r@.len());
    assert(v[0] == r@[0]@);
    if r@.len() == 2 {
        assert(v[1] == r@[1]@);
    }
}

/// A step that waits for a review is written down as a pause at its time, and no other.
pub proof fn law_reviews_pause_the_mission(
    step: &MissionStep,
    now: &str,
    r: Option<ProgressLogEntry>,
)
    requires
        call_ensures(step_log_entry, (step, now), r),
    ensures
        r is Some <==> *step is ScopeReviewRequired,
        r matches Some(e) ==> (e matches ProgressLogEntry::MissionPaused {
            timestamp,
            pause_reason,
        } && timestamp@ == now@ && pause_reason is Some),
{
}

/// A mission works where its proposal says, else where it was proposed.
pub proof fn law_missions_work_where_they_say(
    tool: &ProposeMissionTool,
    input: &ProposeMissionInput,
    current: Option<String>,
    r: String,
)
    requires
        call_ensures(ProposeMissionTool::working_directory, (tool, input, current), r),
    ensures
        input.working_directory matches Some(wd) ==> r@ == wd@,
        input.working_directory is None ==> (current matches Some(wd) ==> r@ == wd@),
        input.working_directory is None && current is None ==> r@ == "."@,
{
}

} // verus!
