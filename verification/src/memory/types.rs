//! What the memory tools take and give.
use vstd::prelude::*;
#[allow(unused_imports)]
use vstd::string::*;

verus! {

/// Which experiences are wanted.
#[derive(Debug, Clone, Copy, PartialEq, Eq, Structural)]
pub enum ExperienceOutcomeFilter {
    /// What worked.
    Success,
    /// What failed.
    Failure,
}

impl ExperienceOutcomeFilter {
    /// The outcome that is wanted.
    pub fn as_bool(self) -> (r: bool)
        ensures
            r == (self is Success),
    {
        matches!(self, ExperienceOutcomeFilter::Success)
    }
}

/// What to look up among the experiences.
#[derive(Debug, Clone)]
pub struct ExperienceSearchInput {
    pub query: String,
    pub max_results: Option<usize>,
    /// None asks for both outcomes.
    pub outcome: Option<ExperienceOutcomeFilter>,
}

/// What a search of memory found.
#[derive(Debug)]
pub struct MemorySearchOutput {
    pub results: String,
}

/// Which memory file to read.
#[derive(Debug, Clone)]
pub struct MemoryGetInput {
    pub path: String,
    /// The first line, from one on.
    pub from: Option<usize>,
    pub lines: Option<usize>,
}

/// What a memory file holds.
#[derive(Debug)]
pub struct MemoryGetOutput {
    pub content: String,
}

/// Something that was observed.
#[derive(Debug, Clone, PartialEq, Eq)]
pub struct ExperienceEvidenceReference {
    pub kind: String,
    pub verdict: String,
    pub command: Option<String>,
    pub summary: String,
    /// When it was observed, in seconds.
    pub observed_at: i64,
    pub source_run_id: Option<String>,
    pub source_session_id: Option<String>,
}

/// An experience that a search found.
#[derive(Debug, Clone, PartialEq, Eq)]
pub struct ExperienceSearchResult {
    pub id: String,
    pub category: String,
    pub task_summary: String,
    pub lesson: String,
    pub strategy: String,
    pub outcome: bool,
    /// The confidence, to two decimal places.
    pub confidence: String,
    /// The relevance, to two decimal places.
    pub score: String,
    pub failure_reason: Option<String>,
    pub what_worked: Vec<String>,
    pub what_failed: Vec<String>,
    pub tests_run: Vec<String>,
    pub source_run_ids: Vec<String>,
    pub source_session_ids: Vec<String>,
    pub evidence: Vec<ExperienceEvidenceReference>,
}

} // verus!
