//! The catalog of missions.
use vstd::prelude::*;
#[allow(unused_imports)]
use vstd::string::*;

#[allow(unused_imports)]
use crate::mission::storage::{join_path, path_below, with_status};
#[allow(unused_imports)]
use crate::mission::types::{FeatureStatus, FeaturesFile, MissionState, MissionStateFile};
#[allow(unused_imports)]
use crate::text::{
    contains_text, has_part, has_prefix, is_before, lemma_text_before_asymmetric,
    lemma_text_before_total, lemma_text_before_transitive, lowercase, lowercased, option_view,
    same_text, starts_with, text_before, trim, trimmed, views,
};

verus! {

/// Origin of a mission.
#[derive(Debug, Clone, Copy, PartialEq, Eq, Structural)]
pub enum MissionSource {
    /// A native mission.
    OpenGrok,
    /// A Factory Droid mission.
    FactoryDroid,
}

impl MissionSource {
    /// The name of the source.
    pub open spec fn text(self) -> Seq<char> {
        match self {
            MissionSource::OpenGrok => "Open Grok"@,
            MissionSource::FactoryDroid => "Factory Droid"@,
        }
    }

    /// The name of the source.
    pub fn to_text(self) -> (r: String)
        ensures
            r@ == self.text(),
    {
        match self {
            MissionSource::OpenGrok => "Open Grok".to_owned(),
            MissionSource::FactoryDroid => "Factory Droid".to_owned(),
        }
    }
}

/// Summary of a discovered mission.
#[derive(Debug, Clone)]
pub struct MissionSummary {
    /// Directory name.
    pub id: String,
    /// Mission id in the state, if there is a state.
    pub mission_id: Option<String>,
    /// Title of the overview, else the mission id, else the directory name.
    pub title: String,
    /// Target repository path.
    pub working_directory: Option<String>,
    /// Source of the mission.
    pub source: MissionSource,
    /// Path of the mission directory.
    pub dir: String,
    /// Current mission state.
    pub state: MissionState,
    /// Number of features.
    pub total_features: usize,
    /// Completed features.
    pub completed_features: usize,
    /// Features in progress.
    pub in_progress_features: usize,
    /// Pending features.
    pub pending_features: usize,
    /// Time of creation.
    pub created_at: Option<String>,
    /// Time of the last update.
    pub updated_at: Option<String>,
}

/// The canonical directory of native missions, for an override of the home of
/// the configuration and for the user's home directory.
pub open spec fn canonical_missions(config_home: Option<&str>, home: Option<&str>) -> Seq<char> {
    match (config_home, home) {
        (Some(c), _) => path_below(c@, "missions"@),
        (None, Some(h)) => path_below(path_below(h@, ".opengrok"@), "missions"@),
        (None, None) => path_below(".opengrok"@, "missions"@),
    }
}

/// The canonical directory of native missions.
pub fn opengrok_missions_dir(config_home: Option<&str>, home: Option<&str>) -> (r: String)
    ensures
        r@ == canonical_missions(config_home, home),
{
    match config_home {
        Some(c) => join_path(c, "missions"),
        None => match home {
            Some(h) => join_path(join_path(h, ".opengrok").as_str(), "missions"),
            None => join_path(".opengrok", "missions"),
        },
    }
}

/// The missions directory of a project.
pub open spec fn project_missions(project: Seq<char>) -> Seq<char> {
    path_below(path_below(project, ".opengrok"@), "missions"@)
}

/// The directories that native missions are looked for in: the canonical one,
/// and that of the project, where it is another. Without any home the canonical
/// one is the project's.
pub fn opengrok_missions_dirs(
    config_home: Option<&str>,
    home: Option<&str>,
    project: Option<&str>,
) -> (r: Vec<String>)
    ensures
        ({
            let canonical = canonical_missions(config_home, home);
            views(r@) == (match project {
                Some(p) if (config_home is Some || home is Some) && project_missions(p@)
                    != canonical => seq![canonical, project_missions(p@)],
                _ => seq![canonical],
            })
        }),
{
    let canonical: String = opengrok_missions_dir(config_home, home);
    let ghost first = canonical@;
    if let Some(p) = project {
        let own: String = join_path(join_path(p, ".opengrok").as_str(), "missions");
        if (config_home.is_some() || home.is_some()) && !same_text(
            own.as_str(),
            canonical.as_str(),
        ) {
            let r: Vec<String> = vec![canonical, own];
            proof {
                assert(views(r@) =~= seq![first, project_missions(p@)]);
            }
            return r;
        }
    }
    let r: Vec<String> = vec![canonical];
    proof {
        assert(views(r@) =~= seq![first]);
    }
    r
}

/// The Factory Droid missions directory, where the user's home is known.
pub fn factory_droid_missions_dir(home: Option<&str>) -> (r: Option<String>)
    ensures
        option_view(r) == (match home {
            Some(h) => Some(path_below(path_below(h@, ".factory"@), "missions"@)),
            None => None,
        }),
{
    match home {
        Some(h) => Some(join_path(join_path(h, ".factory").as_str(), "missions")),
        None => None,
    }
}

fn count_status(file: &FeaturesFile, status: FeatureStatus) -> (r: usize)
    ensures
        r == with_status(file@, status).len(),
{
    let ghost all = file@;
    let mut n: usize = 0;
    let mut i: usize = 0;
    while i < file.features.len()
        invariant
            i <= file.features@.len(),
            n <= i,
            all == file@,
            all.len() == file.features@.len(),
            n == with_status(all.take(i as int), status).len(),
        decreases file.features.len() - i,
    {
        proof {
            assert(all.take(i as int + 1).drop_last() =~= all.take(i as int));
            assert(all[i as int] == file.features@[i as int]@);
        }
        if file.features[i].status == status {
            n += 1;
        }
        i += 1;
    }
    proof {
        assert(all.take(all.len() as int) =~= all);
    }
    n
}

/// Summarizes one mission directory from what could be read of it.
pub fn summarize_mission(
    id: &str,
    source: MissionSource,
    dir: &str,
    state: Option<&MissionStateFile>,
    title: Option<String>,
    working_directory: Option<String>,
    features: Option<&FeaturesFile>,
) -> (r: MissionSummary)
    ensures
        r.id@ == id@,
        r.source == source,
        r.dir@ == dir@,
        r.title@ == (match (title, state) {
            (Some(t), _) => t@,
            (None, Some(s)) => if s.mission_id@.len() > 0 {
                s.mission_id@
            } else {
                id@
            },
            (None, None) => id@,
        }),
        option_view(r.working_directory) == (match (working_directory, state) {
            (Some(w), _) => Some(w@),
            (None, Some(s)) => Some(s.working_directory@),
            (None, None) => None,
        }),
        match state {
            Some(s) => {
                &&& r.state == s.state
                &&& r.mission_id == Some(s.mission_id)
                &&& r.created_at == Some(s.created_at)
                &&& r.updated_at == Some(s.updated_at)
            },
            None => {
                &&& r.state == MissionState::AwaitingInput
                &&& r.mission_id is None
                &&& r.created_at is None
                &&& r.updated_at is None
            },
        },
        match features {
            Some(f) => {
                &&& r.total_features == f@.len()
                &&& r.completed_features == with_status(f@, FeatureStatus::Completed).len()
                &&& r.in_progress_features == with_status(f@, FeatureStatus::InProgress).len()
                &&& r.pending_features == with_status(f@, FeatureStatus::Pending).len()
            },
            None => {
                &&& r.total_features == 0
                &&& r.completed_features == 0
                &&& r.in_progress_features == 0
                &&& r.pending_features == 0
            },
        },
{
    let shown: String = match title {
        Some(t) => t,
        None => match state {
            Some(s) => if !s.mission_id.as_str().is_empty() {
                s.mission_id.clone()
            } else {
                id.to_owned()
            },
            None => id.to_owned(),
        },
    };
    let place: Option<String> = match working_directory {
        Some(w) => Some(w),
        None => match state {
            Some(s) => Some(s.working_directory.clone()),
            None => None,
        },
    };
    let (total, completed, in_progress, pending): (usize, usize, usize, usize) = match features {
        Some(f) => {
            proof {
                assert(f@.len() == f.features@.len());
            }
            (
                f.features.len(),
                count_status(f, FeatureStatus::Completed),
                count_status(f, FeatureStatus::InProgress),
                count_status(f, FeatureStatus::Pending),
            )
        },
        None => (0, 0, 0, 0),
    };
    MissionSummary {
        id: id.to_owned(),
        mission_id: match state {
            Some(s) => Some(s.mission_id.clone()),
            None => None,
        },
        title: shown,
        working_directory: place,
        source,
        dir: dir.to_owned(),
        state: match state {
            Some(s) => s.state,
            None => MissionState::AwaitingInput,
        },
        total_features: total,
        completed_features: completed,
        in_progress_features: in_progress,
        pending_features: pending,
        created_at: match state {
            Some(s) => Some(s.created_at.clone()),
            None => None,
        },
        updated_at: match state {
            Some(s) => Some(s.updated_at.clone()),
            None => None,
        },
    }
}

// ---- the catalog, newest first ----

/// `a` was updated later than `b`; a mission without a time is oldest.
pub open spec fn later(a: MissionSummary, b: MissionSummary) -> bool {
    match (a.updated_at, b.updated_at) {
        (Some(x), Some(y)) => text_before(y@, x@),
        (Some(_), None) => true,
        (None, _) => false,
    }
}

fn is_later(a: &MissionSummary, b: &MissionSummary) -> (r: bool)
    ensures
        r == later(*a, *b),
{
    match &a.updated_at {
        Some(x) => match &b.updated_at {
            Some(y) => is_before(y.as_str(), x.as_str()),
            None => true,
        },
        None => false,
    }
}

/// `m` behind the missions that are not older.
pub open spec fn placed(ms: Seq<MissionSummary>, m: MissionSummary) -> Seq<MissionSummary>
    decreases ms.len(),
{
    if ms.len() > 0 && later(m, ms.last()) {
        placed(ms.drop_last(), m).push(ms.last())
    } else {
        ms.push(m)
    }
}

/// The missions, the most recently updated first; those updated at the same
/// time keep their order.
pub open spec fn newest_first(ms: Seq<MissionSummary>) -> Seq<MissionSummary>
    decreases ms.len(),
{
    if ms.len() == 0 {
        Seq::empty()
    } else {
        placed(newest_first(ms.drop_last()), ms.last())
    }
}

fn place(ms: &mut Vec<MissionSummary>, m: MissionSummary)
    ensures
        final(ms)@ == placed(old(ms)@, m),
{
    let ghost all = ms@;
    let mut at: usize = ms.len();
    proof {
        assert(all.take(all.len() as int) =~= all);
        assert(placed(all, m) + all.skip(all.len() as int) =~= placed(all, m));
    }
    while at > 0 && is_later(&m, &ms[at - 1])
        invariant
            at <= ms@.len(),
            ms@ == all,
            placed(all, m) == placed(all.take(at as int), m) + all.skip(at as int),
        decreases at,
    {
        proof {
            let short = all.take(at as int);
            assert(short.drop_last() =~= all.take(at as int - 1));
            assert(short.last() == all[at as int - 1]);
            assert(placed(all.take(at as int - 1), m).push(all[at as int - 1]) + all.skip(at as int)
                =~= placed(all.take(at as int - 1), m) + all.skip(at as int - 1));
        }
        at -= 1;
    }
    proof {
        assert(all.take(at as int).push(m) + all.skip(at as int) =~= all.insert(at as int, m));
        if at > 0 {
            assert(all.take(at as int).last() == all[at as int - 1]);
        }
    }
    ms.insert(at, m);
}

/// All missions of the two installations, the most recently updated first.
pub fn discover_all_missions(
    native: Vec<MissionSummary>,
    droid: Vec<MissionSummary>,
) -> (r: Vec<MissionSummary>)
    ensures
        r@ == newest_first(native@ + droid@),
{
    let mut rest: Vec<MissionSummary> = native;
    let mut more: Vec<MissionSummary> = droid;
    rest.append(&mut more);
    let ghost all = rest@;
    let mut out: Vec<MissionSummary> = Vec::new();
    let ghost n = 0int;
    while rest.len() > 0
        invariant
            0 <= n <= all.len(),
            rest@ == all.skip(n),
            out@ == newest_first(all.take(n)),
        decreases rest.len(),
    {
        let m: MissionSummary = rest.remove(0);
        proof {
            assert(m == all[n]);
            assert(all.take(n + 1).drop_last() =~= all.take(n));
            assert(all.take(n + 1).last() == all[n]);
            assert(rest@ =~= all.skip(n + 1));
        }
        place(&mut out, m);
        proof {
            n = n + 1;
        }
    }
    proof {
        assert(all.take(n) =~= all);
    }
    out
}

proof fn lemma_later_excludes(a: MissionSummary, b: MissionSummary, c: MissionSummary)
    requires
        !later(b, a),
        !later(c, b),
    ensures
        !later(c, a),
{
    match (a.updated_at, b.updated_at, c.updated_at) {
        (Some(x), Some(y), Some(z)) => {
            lemma_text_before_total(x@, y@);
            lemma_text_before_total(y@, z@);
            if text_before(x@, z@) {
                if x@ != y@ && y@ != z@ {
                    lemma_text_before_transitive(z@, y@, x@);
                    lemma_text_before_asymmetric(x@, z@);
                }
                lemma_text_before_asymmetric(x@, z@);
            }
        },
        _ => {},
    }
}

/// No mission stands behind one that was updated earlier.
pub open spec fn ordered_by_update(ms: Seq<MissionSummary>) -> bool {
    forall|i: int, j: int| 0 <= i < j < ms.len() ==> !later(#[trigger] ms[j], #[trigger] ms[i])
}

proof fn lemma_placed(ms: Seq<MissionSummary>, m: MissionSummary)
    requires
        ordered_by_update(ms),
    ensures
        ordered_by_update(placed(ms, m)),
        placed(ms, m).to_multiset() == ms.to_multiset().insert(m),
        forall|i: int|
            0 <= i < placed(ms, m).len() ==> #[trigger] placed(ms, m)[i] == m || ms.contains(
                placed(ms, m)[i],
            ),
    decreases ms.len(),
{
    broadcast use vstd::seq_lib::group_to_multiset_ensures;

    let out = placed(ms, m);
    if ms.len() > 0 && later(m, ms.last()) {
        let short = ms.drop_last();
        assert(ordered_by_update(short)) by {
            assert forall|i: int, j: int| 0 <= i < j < short.len() implies !later(
                #[trigger] short[j],
                #[trigger] short[i],
            ) by {
                assert(!later(ms[j], ms[i]));
            }
        }
        lemma_placed(short, m);
        let inner = placed(short, m);
        assert(short.push(ms.last()) =~= ms);
        assert(ms.to_multiset() =~= short.to_multiset().insert(ms.last()));
        assert(out.to_multiset() =~= inner.to_multiset().insert(ms.last()));
        assert(out.to_multiset() =~= ms.to_multiset().insert(m));
        assert forall|i: int| 0 <= i < out.len() implies #[trigger] out[i] == m || ms.contains(
            out[i],
        ) by {
            if i < inner.len() {
                assert(out[i] == inner[i]);
                if inner[i] != m {
                    let k = choose|k: int| 0 <= k < short.len() && short[k] == inner[i];
                    assert(ms[k] == inner[i]);
                }
            } else {
                assert(ms[ms.len() - 1] == out[i]);
            }
        }
        assert forall|i: int, j: int| 0 <= i < j < out.len() implies !later(
            #[trigger] out[j],
            #[trigger] out[i],
        ) by {
            if j < inner.len() {
                assert(out[j] == inner[j] && out[i] == inner[i]);
            } else {
                assert(out[j] == ms.last());
                assert(out[i] == inner[i]);
                if inner[i] == m {
                    lemma_later_asymmetric(m, ms.last());
                } else {
                    let k = choose|k: int| 0 <= k < short.len() && short[k] == inner[i];
                    assert(!later(ms[ms.len() - 1], ms[k]));
                }
            }
        }
    } else {
        assert forall|i: int, j: int| 0 <= i < j < out.len() implies !later(
            #[trigger] out[j],
            #[trigger] out[i],
        ) by {
            if j < ms.len() {
                assert(!later(ms[j], ms[i]));
            } else {
                assert(out[j] == m);
                if i < ms.len() - 1 {
                    assert(!later(ms[ms.len() - 1], ms[i]));
                    lemma_later_excludes(ms[i], ms.last(), m);
                }
            }
        }
        assert forall|i: int| 0 <= i < out.len() implies #[trigger] out[i] == m || ms.contains(
            out[i],
        ) by {
            if i < ms.len() {
                assert(ms[i] == out[i]);
            }
        }
    }
}

proof fn lemma_later_asymmetric(a: MissionSummary, b: MissionSummary)
    ensures
        later(a, b) ==> !later(b, a),
{
    if let (Some(x), Some(y)) = (a.updated_at, b.updated_at) {
        lemma_text_before_asymmetric(x@, y@);
    }
}

/// The catalog holds every mission found, as often as it was found, and no
/// mission stands behind one that was updated earlier.
pub proof fn law_catalog_is_sorted(ms: Seq<MissionSummary>)
    ensures
        ordered_by_update(newest_first(ms)),
        newest_first(ms).to_multiset() == ms.to_multiset(),
    decreases ms.len(),
{
    broadcast use vstd::seq_lib::group_to_multiset_ensures;

    if ms.len() > 0 {
        law_catalog_is_sorted(ms.drop_last());
        lemma_placed(newest_first(ms.drop_last()), ms.last());
        assert(ms.drop_last().push(ms.last()) =~= ms);
    } else {
        assert(ms =~= Seq::empty());
    }
}

// ---- a workspace ----

/// The missions whose working directory resolves to the workspace, in order.
pub open spec fn in_workspace(
    ms: Seq<MissionSummary>,
    resolved: Seq<Option<String>>,
    workspace: Seq<char>,
) -> Seq<MissionSummary>
    decreases ms.len(),
{
    if ms.len() == 0 {
        Seq::empty()
    } else {
        let before = in_workspace(ms.drop_last(), resolved, workspace);
        if option_view(resolved[ms.len() - 1]) == Some(workspace) {
            before.push(ms.last())
        } else {
            before
        }
    }
}

/// The missions of a workspace. `resolved` holds for each mission what its
/// working directory resolves to, if it names one.
pub fn discover_missions_for_workspace(
    missions: Vec<MissionSummary>,
    resolved: &Vec<Option<String>>,
    workspace: &str,
) -> (r: Vec<MissionSummary>)
    requires
        resolved@.len() == missions@.len(),
    ensures
        r@ == in_workspace(missions@, resolved@, workspace@),
{
    let ghost all = missions@;
    let mut rest: Vec<MissionSummary> = missions;
    let mut out: Vec<MissionSummary> = Vec::new();
    let mut i: usize = 0;
    proof {
        assert(all.skip(0) =~= all);
    }
    while i < resolved.len()
        invariant
            i <= resolved@.len(),
            resolved@.len() == all.len(),
            rest@ == all.skip(i as int),
            out@ == in_workspace(all.take(i as int), resolved@, workspace@),
        decreases resolved.len() - i,
    {
        let m: MissionSummary = rest.remove(0);
        proof {
            assert(m == all[i as int]);
            assert(all.take(i as int + 1).drop_last() =~= all.take(i as int));
            assert(rest@ =~= all.skip(i as int + 1));
        }
        let here: bool = match &resolved[i] {
            Some(place) => same_text(place.as_str(), workspace),
            None => false,
        };
        if here {
            out.push(m);
        }
        i += 1;
    }
    proof {
        assert(all.take(i as int) =~= all);
    }
    out
}

// ---- finding one mission ----

/// The lower-case texts by which a mission is found.
#[derive(Debug, Clone)]
pub struct MissionKeys {
    pub id: String,
    pub mission_id: Option<String>,
    pub title: String,
}

/// How a query may match, the stronger first.
#[derive(Debug, Clone, Copy, PartialEq, Eq, Structural)]
pub enum MatchRank {
    ExactId,
    ExactMissionId,
    Prefix,
    TitlePart,
}

/// The query matches a mission in one way.
pub open spec fn key_matches(k: MissionKeys, q: Seq<char>, rank: MatchRank) -> bool {
    match rank {
        MatchRank::ExactId => k.id@ == q,
        MatchRank::ExactMissionId => option_view(k.mission_id) == Some(q),
        MatchRank::Prefix => has_prefix(k.id@, q) || (k.mission_id is Some && has_prefix(
            k.mission_id->0@,
            q,
        )),
        MatchRank::TitlePart => has_part(k.title@, q),
    }
}

/// The first mission that the query matches in one way.
pub open spec fn first_match(ks: Seq<MissionKeys>, q: Seq<char>, rank: MatchRank) -> Option<int>
    decreases ks.len(),
{
    if ks.len() == 0 {
        None
    } else if key_matches(ks[0], q, rank) {
        Some(0)
    } else {
        match first_match(ks.drop_first(), q, rank) {
            Some(i) => Some(i + 1),
            None => None,
        }
    }
}

/// The mission that a query finds: by directory id, by mission id, by prefix of
/// either, by part of the title, whichever comes first.
pub open spec fn best_match(ks: Seq<MissionKeys>, q: Seq<char>) -> Option<int> {
    if first_match(ks, q, MatchRank::ExactId) is Some {
        first_match(ks, q, MatchRank::ExactId)
    } else if first_match(ks, q, MatchRank::ExactMissionId) is Some {
        first_match(ks, q, MatchRank::ExactMissionId)
    } else if first_match(ks, q, MatchRank::Prefix) is Some {
        first_match(ks, q, MatchRank::Prefix)
    } else {
        first_match(ks, q, MatchRank::TitlePart)
    }
}

fn matches_key(k: &MissionKeys, q: &str, rank: MatchRank) -> (r: bool)
    ensures
        r == key_matches(*k, q@, rank),
{
    match rank {
        MatchRank::ExactId => same_text(k.id.as_str(), q),
        MatchRank::ExactMissionId => match &k.mission_id {
            Some(id) => same_text(id.as_str(), q),
            None => false,
        },
        MatchRank::Prefix => {
            if starts_with(k.id.as_str(), q) {
                return true;
            }
            match &k.mission_id {
                Some(id) => starts_with(id.as_str(), q),
                None => false,
            }
        },
        MatchRank::TitlePart => contains_text(k.title.as_str(), q),
    }
}

fn find_first(ks: &Vec<MissionKeys>, q: &str, rank: MatchRank) -> (r: Option<usize>)
    ensures
        match (r, first_match(ks@, q@, rank)) {
            (Some(a), Some(b)) => a == b && a < ks@.len(),
            (None, None) => true,
            _ => false,
        },
{
    let ghost all = ks@;
    let mut i: usize = 0;
    proof {
        assert(all.skip(0) =~= all);
    }
    while i < ks.len()
        invariant
            i <= ks@.len(),
            all == ks@,
            first_match(all, q@, rank) == (match first_match(all.skip(i as int), q@, rank) {
                Some(k) => Some(k + i),
                None => None,
            }),
        decreases ks.len() - i,
    {
        proof {
            assert(all.skip(i as int).drop_first() =~= all.skip(i as int + 1));
        }
        if matches_key(&ks[i], q, rank) {
            return Some(i);
        }
        i += 1;
    }
    None
}

/// Finds a mission by lower-case texts and a lower-case query.
pub fn find_by_keys(ks: &Vec<MissionKeys>, q: &str) -> (r: Option<usize>)
    ensures
        match (r, best_match(ks@, q@)) {
            (Some(a), Some(b)) => a == b && a < ks@.len(),
            (None, None) => true,
            _ => false,
        },
{
    if let Some(i) = find_first(ks, q, MatchRank::ExactId) {
        return Some(i);
    }
    if let Some(i) = find_first(ks, q, MatchRank::ExactMissionId) {
        return Some(i);
    }
    if let Some(i) = find_first(ks, q, MatchRank::Prefix) {
        return Some(i);
    }
    find_first(ks, q, MatchRank::TitlePart)
}

/// The keys are the lower-case texts of a mission.
pub open spec fn keys_of(k: MissionKeys, m: MissionSummary) -> bool {
    &&& k.id@ == lowercased(m.id@)
    &&& option_view(k.mission_id) == (match m.mission_id {
        Some(id) => Some(lowercased(id@)),
        None => None,
    })
    &&& k.title@ == lowercased(m.title@)
}

fn lower_keys(all: &Vec<MissionSummary>) -> (r: Vec<MissionKeys>)
    ensures
        r@.len() == all@.len(),
        forall|i: int| 0 <= i < all@.len() ==> keys_of(#[trigger] r@[i], all@[i]),
{
    let mut out: Vec<MissionKeys> = Vec::new();
    let mut i: usize = 0;
    while i < all.len()
        invariant
            i <= all@.len(),
            out@.len() == i,
            forall|j: int| 0 <= j < i ==> keys_of(#[trigger] out@[j], all@[j]),
        decreases all.len() - i,
    {
        let mission_id: Option<String> = match &all[i].mission_id {
            Some(id) => Some(lowercase(id.as_str())),
            None => None,
        };
        out.push(
            MissionKeys {
                id: lowercase(all[i].id.as_str()),
                mission_id,
                title: lowercase(all[i].title.as_str()),
            },
        );
        i += 1;
    }
    out
}

/// Finds a mission by directory name, mission id, prefix or title, in any case.
pub fn find_mission(all: &Vec<MissionSummary>, query: &str) -> (r: Option<usize>)
    ensures
        exists|ks: Seq<MissionKeys>|
            {
                &&& ks.len() == all@.len()
                &&& forall|i: int| 0 <= i < all@.len() ==> keys_of(#[trigger] ks[i], all@[i])
                &&& match (r, #[trigger] best_match(ks, lowercased(trimmed(query@)))) {
                    (Some(a), Some(b)) => a == b && a < all@.len(),
                    (None, None) => true,
                    _ => false,
                }
            },
{
    let ks: Vec<MissionKeys> = lower_keys(all);
    let q: String = lowercase(trim(query));
    let r: Option<usize> = find_by_keys(&ks, q.as_str());
    r
}

} // verus!
