//! What the members of a swarm brought, and how it is shown.
use vstd::prelude::*;
#[allow(unused_imports)]
use vstd::string::*;

#[allow(unused_imports)]
use crate::coordinator::types::{SubagentResult};
#[allow(unused_imports)]
use crate::swarm::plan::{MemberMode, PlannedMember};
#[allow(unused_imports)]
use crate::text::{cat3, cat5, chars_of, copy_option, decimal, decimal_text};

verus! {

/// How a member ended.
#[derive(Debug, Clone, Copy, PartialEq, Eq, Structural)]
pub enum MemberOutcome {
    Completed,
    Failed,
    Aborted,
}

impl MemberOutcome {
    /// The word for the outcome.
    pub open spec fn word(self) -> Seq<char> {
        match self {
            MemberOutcome::Completed => "completed"@,
            MemberOutcome::Failed => "failed"@,
            MemberOutcome::Aborted => "aborted"@,
        }
    }

    /// The word for the outcome.
    pub fn as_str(self) -> (r: &'static str)
        ensures
            r@ == self.word(),
    {
        match self {
            MemberOutcome::Completed => "completed",
            MemberOutcome::Failed => "failed",
            MemberOutcome::Aborted => "aborted",
        }
    }
}

/// Whether a member started.
#[derive(Debug, Clone, Copy, PartialEq, Eq, Structural)]
pub enum MemberState {
    Started,
    NotStarted,
}

impl MemberState {
    /// The word for the state.
    pub open spec fn word(self) -> Seq<char> {
        match self {
            MemberState::Started => "started"@,
            MemberState::NotStarted => "not_started"@,
        }
    }

    /// The word for the state.
    pub fn as_str(self) -> (r: &'static str)
        ensures
            r@ == self.word(),
    {
        match self {
            MemberState::Started => "started",
            MemberState::NotStarted => "not_started",
        }
    }
}

/// What a member brought.
#[derive(Debug, Clone, PartialEq, Eq)]
pub struct MemberResult {
    pub index: u32,
    pub item: Option<String>,
    pub agent_id: String,
    pub outcome: MemberOutcome,
    pub state: MemberState,
    pub mode: MemberMode,
    pub body: String,
}

// ---- the result of a member ----

/// How a result counts.
pub open spec fn outcome_of(result: SubagentResult) -> MemberOutcome {
    if result.cancelled {
        MemberOutcome::Aborted
    } else if result.success {
        MemberOutcome::Completed
    } else {
        MemberOutcome::Failed
    }
}

/// What is shown of a result: the output of a success; else the error, or the
/// output where there is none.
pub open spec fn body_of(result: SubagentResult) -> Seq<char> {
    if outcome_of(result) == MemberOutcome::Completed {
        result.output@
    } else {
        match result.error {
            Some(e) => e@,
            None => result.output@,
        }
    }
}

/// The result of a member from that of its subagent.
pub fn member_result(
    index: u32,
    item: Option<String>,
    mode: MemberMode,
    fallback_agent_id: String,
    result: SubagentResult,
) -> (r: MemberResult)
    ensures
        r.index == index,
        r.item == item,
        r.mode == mode,
        r.state == MemberState::Started,
        r.outcome == outcome_of(result),
        r.body@ == body_of(result),
        r.agent_id@ == (if result.subagent_id@.len() == 0 {
            fallback_agent_id@
        } else {
            result.subagent_id@
        }),
{
    let outcome: MemberOutcome = if result.cancelled {
        MemberOutcome::Aborted
    } else if result.success {
        MemberOutcome::Completed
    } else {
        MemberOutcome::Failed
    };
    let agent_id: String = if result.subagent_id.as_str().is_empty() {
        fallback_agent_id
    } else {
        result.subagent_id
    };
    let body: String = if outcome == MemberOutcome::Completed {
        result.output
    } else {
        match result.error {
            Some(e) => e,
            None => result.output,
        }
    };
    MemberResult { index, item, agent_id, outcome, state: MemberState::Started, mode, body }
}

/// How the subagent of a member came to an end.
#[derive(Debug)]
pub enum MemberEvent {
    Finished(SubagentResult),
    Failed { error: String },
    TimedOut,
}

/// The result of a member for how its subagent ended.
pub fn member_verdict(member: &PlannedMember, agent_id: &str, event: MemberEvent) -> (r:
    MemberResult)
    ensures
        r.index == member.index,
        r.item == member.item,
        r.mode == member.mode,
        r.state == MemberState::Started,
        match event {
            MemberEvent::Finished(result) => {
                &&& r.outcome == outcome_of(result)
                &&& r.body@ == body_of(result)
                &&& r.agent_id@ == (if result.subagent_id@.len() == 0 {
                    agent_id@
                } else {
                    result.subagent_id@
                })
            },
            MemberEvent::Failed { error } => {
                &&& r.outcome == MemberOutcome::Failed
                &&& r.body == error
                &&& r.agent_id@ == agent_id@
            },
            MemberEvent::TimedOut => {
                &&& r.outcome == MemberOutcome::Failed
                &&& r.body@ == "subagent timed out"@
                &&& r.agent_id@ == agent_id@
            },
        },
{
    let item: Option<String> = copy_option(&member.item);
    match event {
        MemberEvent::Finished(result) => member_result(
            member.index,
            item,
            member.mode,
            agent_id.to_owned(),
            result,
        ),
        MemberEvent::Failed { error } => MemberResult {
            index: member.index,
            item,
            agent_id: agent_id.to_owned(),
            outcome: MemberOutcome::Failed,
            state: MemberState::Started,
            mode: member.mode,
            body: error,
        },
        MemberEvent::TimedOut => MemberResult {
            index: member.index,
            item,
            agent_id: agent_id.to_owned(),
            outcome: MemberOutcome::Failed,
            state: MemberState::Started,
            mode: member.mode,
            body: "subagent timed out".to_owned(),
        },
    }
}

// ---- XML ----

/// A character as it stands in XML.
pub open spec fn escaped_char(c: char) -> Seq<char> {
    if c == '&' {
        "&amp;"@
    } else if c == '<' {
        "&lt;"@
    } else if c == '>' {
        "&gt;"@
    } else if c == '"' {
        "&quot;"@
    } else if c == '\'' {
        "&apos;"@
    } else {
        seq![c]
    }
}

/// A text as it stands in XML.
pub open spec fn escaped(s: Seq<char>) -> Seq<char>
    decreases s.len(),
{
    if s.len() == 0 {
        Seq::empty()
    } else {
        escaped(s.drop_last()) + escaped_char(s.last())
    }
}

/// A text as it stands in XML.
pub fn xml_escape(value: &str) -> (r: String)
    ensures
        r@ == escaped(value@),
{
    let v: Vec<char> = chars_of(value);
    let mut out: String = String::new();
    let mut i: usize = 0;
    while i < v.len()
        invariant
            i <= v@.len(),
            v@ == value@,
            out@ == escaped(v@.take(i as int)),
        decreases v.len() - i,
    {
        let c: char = v[i];
        proof {
            assert(v@.take(i as int + 1).drop_last() =~= v@.take(i as int));
        }
        let ghost before = out@;
        if c == '&' {
            out.append("&amp;");
        } else if c == '<' {
            out.append("&lt;");
        } else if c == '>' {
            out.append("&gt;");
        } else if c == '"' {
            out.append("&quot;");
        } else if c == '\'' {
            out.append("&apos;");
        } else {
            out.push(c);
            proof {
                assert(out@ =~= before + seq![c]);
            }
        }
        i += 1;
    }
    proof {
        assert(v@.take(i as int) =~= v@);
    }
    out
}

/// How many results have an outcome.
pub open spec fn outcome_count(s: Seq<MemberResult>, outcome: MemberOutcome) -> nat
    decreases s.len(),
{
    if s.len() == 0 {
        0
    } else {
        outcome_count(s.drop_last(), outcome) + (if s.last().outcome == outcome {
            1nat
        } else {
            0nat
        })
    }
}

/// A member that can be continued.
pub open spec fn can_resume(r: MemberResult) -> bool {
    r.outcome != MemberOutcome::Completed && r.agent_id@.len() > 0
}

/// The element of a result.
pub open spec fn result_xml(r: MemberResult) -> Seq<char> {
    "<subagent agent_id=\""@ + escaped(r.agent_id@) + "\""@ + (match r.item {
        Some(item) => " item=\""@ + escaped(item@) + "\""@,
        None => Seq::empty(),
    }) + (" outcome=\""@ + r.outcome.word() + "\" state=\""@ + r.state.word() + "\""@) + (if r.mode
        == MemberMode::Resume {
        " mode=\"resume\""@
    } else {
        Seq::empty()
    }) + ">"@ + escaped(r.body@) + "</subagent>"@
}

/// The elements of some results.
pub open spec fn results_xml(s: Seq<MemberResult>) -> Seq<char>
    decreases s.len(),
{
    if s.len() == 0 {
        Seq::empty()
    } else {
        results_xml(s.drop_last()) + result_xml(s.last())
    }
}

/// What a swarm brought, as XML: the counts, a hint where members can be
/// continued, and the results in order.
pub open spec fn swarm_xml(s: Seq<MemberResult>) -> Seq<char> {
    "<agent_swarm_result><summary>completed="@ + decimal(
        outcome_count(s, MemberOutcome::Completed),
    ) + " failed="@ + decimal(outcome_count(s, MemberOutcome::Failed)) + " aborted="@ + decimal(
        outcome_count(s, MemberOutcome::Aborted),
    ) + "</summary>"@ + (if exists|i: int| 0 <= i < s.len() && can_resume(#[trigger] s[i]) {
        "<resume_hint>Call agent_swarm with resume_agent_ids mapping unfinished agent_id values to continuation prompts.</resume_hint>"@
    } else {
        Seq::empty()
    }) + results_xml(s) + "</agent_swarm_result>"@
}

fn render_result(r: &MemberResult) -> (x: String)
    ensures
        x@ == result_xml(*r),
{
    let mut out: String = cat3(
        "<subagent agent_id=\"",
        xml_escape(r.agent_id.as_str()).as_str(),
        "\"",
    );
    let item: String = match &r.item {
        Some(item) => cat3(" item=\"", xml_escape(item.as_str()).as_str(), "\""),
        None => String::new(),
    };
    out.append(item.as_str());
    let marks: String = cat5(
        " outcome=\"",
        r.outcome.as_str(),
        "\" state=\"",
        r.state.as_str(),
        "\"",
    );
    out.append(marks.as_str());
    let mode: String = if r.mode == MemberMode::Resume {
        " mode=\"resume\"".to_owned()
    } else {
        String::new()
    };
    out.append(mode.as_str());
    out.append(">");
    out.append(xml_escape(r.body.as_str()).as_str());
    out.append("</subagent>");
    out
}

/// What a swarm brought, as XML.
pub fn render_xml(results: &[MemberResult]) -> (r: String)
    ensures
        r@ == swarm_xml(results@),
{
    let ghost s = results@;
    let mut completed: u64 = 0;
    let mut failed: u64 = 0;
    let mut aborted: u64 = 0;
    let mut hint: bool = false;
    let mut body: String = String::new();
    let mut i: usize = 0;
    while i < results.len()
        invariant
            i <= results@.len(),
            s == results@,
            completed <= i,
            failed <= i,
            aborted <= i,
            completed == outcome_count(s.take(i as int), MemberOutcome::Completed),
            failed == outcome_count(s.take(i as int), MemberOutcome::Failed),
            aborted == outcome_count(s.take(i as int), MemberOutcome::Aborted),
            hint == (exists|j: int| 0 <= j < i && can_resume(#[trigger] s[j])),
            body@ == results_xml(s.take(i as int)),
        decreases results.len() - i,
    {
        let r: &MemberResult = &results[i];
        proof {
            assert(s.take(i as int + 1).drop_last() =~= s.take(i as int));
        }
        match r.outcome {
            MemberOutcome::Completed => {
                completed += 1;
            },
            MemberOutcome::Failed => {
                failed += 1;
            },
            MemberOutcome::Aborted => {
                aborted += 1;
            },
        }
        if r.outcome != MemberOutcome::Completed && !r.agent_id.as_str().is_empty() {
            proof {
                assert(can_resume(s[i as int]));
            }
            hint = true;
        }
        body.append(render_result(r).as_str());
        i += 1;
    }
    proof {
        assert(s.take(i as int) =~= s);
    }
    let mut out: String = cat5(
        "<agent_swarm_result><summary>completed=",
        decimal_text(completed).as_str(),
        " failed=",
        decimal_text(failed).as_str(),
        " aborted=",
    );
    out.append(decimal_text(aborted).as_str());
    out.append("</summary>");
    let hinted: String = if hint {
        "<resume_hint>Call agent_swarm with resume_agent_ids mapping unfinished agent_id values to continuation prompts.</resume_hint>".to_owned()
    } else {
        String::new()
    };
    out.append(hinted.as_str());
    out.append(body.as_str());
    out.append("</agent_swarm_result>");
    out
}

// ---- laws ----

/// Escaped text holds no character that would end an attribute or open a tag.
pub proof fn law_escaped_text_is_inert(s: Seq<char>, i: int)
    requires
        0 <= i < escaped(s).len(),
    ensures
        escaped(s)[i] != '<',
        escaped(s)[i] != '>',
        escaped(s)[i] != '"',
        escaped(s)[i] != '\'',
    decreases s.len(),
{
    reveal_strlit("&amp;");
    reveal_strlit("&lt;");
    reveal_strlit("&gt;");
    reveal_strlit("&quot;");
    reveal_strlit("&apos;");
    let head = escaped(s.drop_last());
    if i < head.len() {
        law_escaped_text_is_inert(s.drop_last(), i);
        assert(escaped(s)[i] == head[i]);
    } else {
        assert(escaped(s)[i] == escaped_char(s.last())[i - head.len()]);
    }
}

} // verus!
