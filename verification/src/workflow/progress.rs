//! The progress of a workflow run.
use vstd::prelude::*;
#[allow(unused_imports)]
use vstd::string::*;
use std::collections::VecDeque;
#[allow(unused_imports)]
use crate::text::{cat2, cat3, cat5, decimal, decimal_text, option_view};

verus! {

/// How many lines of the progress log are kept.
pub const PROGRESS_LOG_CAP: usize = 400;

/// How many lines of the progress log are shown.
pub const PROGRESS_TAIL_LINES: usize = 40;

/// How an agent of a run stands.
#[derive(Debug, Clone, Copy, PartialEq, Eq, Structural)]
pub enum AgentStatus {
    Running,
    Done,
    Failed,
    Cached,
}

/// One agent of a run.
#[derive(Debug, Clone)]
pub struct AgentProgressEntry {
    pub index: u32,
    pub label: String,
    pub phase: Option<String>,
    pub status: AgentStatus,
    pub detail: Option<String>,
}

/// The progress of a run.
#[derive(Debug)]
pub struct ProgressState {
    pub current_phase: Option<String>,
    pub agents: Vec<AgentProgressEntry>,
    pub log: VecDeque<String>,
    pub running: usize,
    pub done: usize,
    pub failed: usize,
    pub cached: usize,
}

impl Default for ProgressState {
    fn default() -> (r: ProgressState)
        ensures
            r.wf(),
            r.current_phase is None,
            r.agents@.len() == 0,
            r.log@.len() == 0,
    {
        ProgressState {
            current_phase: None,
            agents: Vec::new(),
            log: VecDeque::new(),
            running: 0,
            done: 0,
            failed: 0,
            cached: 0,
        }
    }
}

/// How many agents have a status.
pub open spec fn with_agent_status(s: Seq<AgentProgressEntry>, status: AgentStatus) -> nat
    decreases s.len(),
{
    if s.len() == 0 {
        0
    } else {
        with_agent_status(s.drop_last(), status) + (if s.last().status == status {
            1nat
        } else {
            0nat
        })
    }
}

/// The position of the agent with an index.
pub open spec fn agent_at(s: Seq<AgentProgressEntry>, index: u32) -> Option<int>
    decreases s.len(),
{
    if s.len() == 0 {
        None
    } else if s[0].index == index {
        Some(0)
    } else {
        match agent_at(s.drop_first(), index) {
            Some(i) => Some(i + 1),
            None => None,
        }
    }
}

/// The agents with an entry, in place of the one with its index.
pub open spec fn with_agent(s: Seq<AgentProgressEntry>, e: AgentProgressEntry) -> Seq<
    AgentProgressEntry,
> {
    match agent_at(s, e.index) {
        Some(i) => s.update(i, e),
        None => s.push(e),
    }
}

/// A log with one more line; the oldest goes once the log is full.
pub open spec fn with_line(s: Seq<String>, line: String) -> Seq<String> {
    if s.len() >= PROGRESS_LOG_CAP {
        s.drop_first().push(line)
    } else {
        s.push(line)
    }
}

/// Lines, each with its end.
pub open spec fn lines_text(s: Seq<String>) -> Seq<char>
    decreases s.len(),
{
    if s.len() == 0 {
        Seq::empty()
    } else {
        lines_text(s.drop_last()) + s.last()@ + "\n"@
    }
}

/// The last lines of a log.
pub open spec fn tail_of(s: Seq<String>) -> Seq<String> {
    if s.len() > PROGRESS_TAIL_LINES {
        s.skip(s.len() - PROGRESS_TAIL_LINES)
    } else {
        s
    }
}

/// The summary of a run in one line.
pub open spec fn summary_text(
    running: nat,
    done: nat,
    cached: nat,
    failed: nat,
    phase: Option<Seq<char>>,
) -> Seq<char> {
    "agents: "@ + decimal(running) + " running, "@ + decimal(done) + " done"@ + (if cached > 0 {
        ", "@ + decimal(cached) + " cached"@
    } else {
        Seq::empty()
    }) + (if failed > 0 {
        ", "@ + decimal(failed) + " failed"@
    } else {
        Seq::empty()
    }) + (match phase {
        Some(p) => " · phase: "@ + p,
        None => Seq::empty(),
    })
}

fn count_agents(v: &Vec<AgentProgressEntry>, status: AgentStatus) -> (r: usize)
    ensures
        r == with_agent_status(v@, status),
{
    let mut n: usize = 0;
    let mut i: usize = 0;
    while i < v.len()
        invariant
            i <= v@.len(),
            n <= i,
            n == with_agent_status(v@.take(i as int), status),
        decreases v.len() - i,
    {
        proof {
            assert(v@.take(i as int + 1).drop_last() =~= v@.take(i as int));
        }
        if v[i].status == status {
            n += 1;
        }
        i += 1;
    }
    proof {
        assert(v@.take(i as int) =~= v@);
    }
    n
}

fn find_agent(v: &Vec<AgentProgressEntry>, index: u32) -> (r: Option<usize>)
    ensures
        match (r, agent_at(v@, index)) {
            (Some(a), Some(b)) => a == b && a < v@.len(),
            (None, None) => true,
            _ => false,
        },
{
    let mut i: usize = 0;
    proof {
        assert(v@.skip(0) =~= v@);
    }
    while i < v.len()
        invariant
            i <= v@.len(),
            agent_at(v@, index) == (match agent_at(v@.skip(i as int), index) {
                Some(x) => Some(x + i),
                None => None,
            }),
        decreases v.len() - i,
    {
        proof {
            assert(v@.skip(i as int).drop_first() =~= v@.skip(i as int + 1));
        }
        if v[i].index == index {
            return Some(i);
        }
        i += 1;
    }
    None
}

impl ProgressState {
    /// The counts are those of the agents, and the log is within its bounds.
    pub open spec fn wf(&self) -> bool {
        &&& self.running == with_agent_status(self.agents@, AgentStatus::Running)
        &&& self.done == with_agent_status(self.agents@, AgentStatus::Done)
        &&& self.failed == with_agent_status(self.agents@, AgentStatus::Failed)
        &&& self.cached == with_agent_status(self.agents@, AgentStatus::Cached)
        &&& self.log@.len() <= PROGRESS_LOG_CAP
    }

    /// Adds a line to the log.
    pub fn push_line(&mut self, line: String)
        ensures
            *final(self) == (ProgressState { log: final(self).log, ..*old(self) }),
            final(self).log@ == with_line(old(self).log@, line),
            old(self).wf() ==> final(self).wf(),
    {
        let ghost before = self.log@;
        if self.log.len() >= PROGRESS_LOG_CAP {
            let _ = self.log.pop_front();
            proof {
                assert(self.log@ =~= before.drop_first());
            }
        }
        self.log.push_back(line);
    }

    /// Puts in an agent, in place of the one with its index, and counts anew.
    pub fn upsert_agent(&mut self, entry: AgentProgressEntry)
        ensures
            final(self).agents@ == with_agent(old(self).agents@, entry),
            final(self).running == with_agent_status(final(self).agents@, AgentStatus::Running),
            final(self).done == with_agent_status(final(self).agents@, AgentStatus::Done),
            final(self).failed == with_agent_status(final(self).agents@, AgentStatus::Failed),
            final(self).cached == with_agent_status(final(self).agents@, AgentStatus::Cached),
            final(self).current_phase == old(self).current_phase,
            final(self).log == old(self).log,
            old(self).wf() ==> final(self).wf(),
    {
        match find_agent(&self.agents, entry.index) {
            Some(i) => {
                self.agents.set(i, entry);
            },
            None => {
                self.agents.push(entry);
            },
        }
        self.running = count_agents(&self.agents, AgentStatus::Running);
        self.done = count_agents(&self.agents, AgentStatus::Done);
        self.failed = count_agents(&self.agents, AgentStatus::Failed);
        self.cached = count_agents(&self.agents, AgentStatus::Cached);
    }

    /// The last lines of the log.
    pub fn render_tail(&self) -> (r: String)
        ensures
            r@ == lines_text(tail_of(self.log@)),
    {
        let mut out: String = String::new();
        let skip: usize = if self.log.len() > PROGRESS_TAIL_LINES {
            self.log.len() - PROGRESS_TAIL_LINES
        } else {
            0
        };
        let ghost tail = tail_of(self.log@);
        let mut i: usize = skip;
        proof {
            assert(self.log@.skip(0) =~= self.log@);
            assert(tail =~= self.log@.skip(skip as int));
            assert(tail.take(0) =~= Seq::empty());
        }
        while i < self.log.len()
            invariant
                skip <= i <= self.log@.len(),
                tail == self.log@.skip(skip as int),
                out@ == lines_text(tail.take(i - skip)),
            decreases self.log.len() - i,
        {
            proof {
                assert(tail.take(i - skip + 1).drop_last() =~= tail.take(i - skip));
                assert(tail[i - skip] == self.log@[i as int]);
            }
            out.append(self.log[i].as_str());
            out.append("\n");
            i += 1;
        }
        proof {
            assert(tail.take(i - skip) =~= tail);
        }
        out
    }

    /// The summary of the run in one line.
    pub fn summary_line(&self) -> (r: String)
        ensures
            r@ == summary_text(
                self.running as nat,
                self.done as nat,
                self.cached as nat,
                self.failed as nat,
                option_view(self.current_phase),
            ),
    {
        let mut out: String = cat5(
            "agents: ",
            decimal_text(self.running as u64).as_str(),
            " running, ",
            decimal_text(self.done as u64).as_str(),
            " done",
        );
        let cached: String = if self.cached > 0 {
            cat3(", ", decimal_text(self.cached as u64).as_str(), " cached")
        } else {
            String::new()
        };
        let failed: String = if self.failed > 0 {
            cat3(", ", decimal_text(self.failed as u64).as_str(), " failed")
        } else {
            String::new()
        };
        let phase: String = match &self.current_phase {
            Some(p) => cat2(" · phase: ", p.as_str()),
            None => String::new(),
        };
        out.append(cached.as_str());
        out.append(failed.as_str());
        out.append(phase.as_str());
        out
    }

    /// What is shown of the run: the summary and the last lines.
    pub fn render(&self) -> (r: String)
        ensures
            r@ == self.shown(),
    {
        cat3(self.summary_line().as_str(), "\n", self.render_tail().as_str())
    }

    /// What is shown of the run.
    pub open spec fn shown(&self) -> Seq<char> {
        summary_text(
            self.running as nat,
            self.done as nat,
            self.cached as nat,
            self.failed as nat,
            option_view(self.current_phase),
        ) + "\n"@ + lines_text(tail_of(self.log@))
    }
}

proof fn lemma_counts(s: Seq<AgentProgressEntry>)
    ensures
        with_agent_status(s, AgentStatus::Running) + with_agent_status(s, AgentStatus::Done)
            + with_agent_status(s, AgentStatus::Failed) + with_agent_status(
            s,
            AgentStatus::Cached,
        ) == s.len(),
    decreases s.len(),
{
    if s.len() > 0 {
        lemma_counts(s.drop_last());
    }
}

/// Every agent is counted once: the four counts add up to the number of agents.
pub proof fn law_counts_add_up(state: ProgressState)
    requires
        state.wf(),
    ensures
        state.running + state.done + state.failed + state.cached == state.agents@.len(),
{
    lemma_counts(state.agents@);
}

} // verus!
