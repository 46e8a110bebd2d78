//! What a swarm is asked to do, and the members that it takes.
use vstd::prelude::*;
#[allow(unused_imports)]
use vstd::string::*;

#[allow(unused_imports)]
use crate::text::{
    cat2, contains_text, has_part, in_list, list_holds, option_view, parse_u64, replace_text,
    replaced, same_text, trim, trimmed, unsigned_value,
};

verus! {

/// How many members a swarm may have.
pub const MAX_MEMBERS: usize = 128;

/// How many members start at once.
pub const INITIAL_LAUNCHES: usize = 5;

/// How long a member may take, in milliseconds, unless it is set.
pub const DEFAULT_TIMEOUT_MS: u64 = 7_200_000;

/// What a swarm is asked to do.
#[derive(Debug, Clone)]
pub struct AgentSwarmToolInput {
    pub description: String,
    pub subagent_type: String,
    pub model: Option<String>,
    pub prompt_template: Option<String>,
    pub items: Option<Vec<String>>,
    /// Agents to continue, each with its prompt, in order.
    pub resume_agent_ids: Option<Vec<(String, String)>>,
}

/// Whether a member is new or continues an agent.
#[derive(Debug, Clone, Copy, PartialEq, Eq, Structural)]
pub enum MemberMode {
    New,
    Resume,
}

/// A member of a swarm.
#[derive(Debug, Clone, PartialEq, Eq)]
pub struct PlannedMember {
    pub index: u32,
    pub item: Option<String>,
    pub prompt: String,
    pub resume_from: Option<String>,
    pub mode: MemberMode,
}

/// What a member holds.
#[verifier::ext_equal]
pub struct MemberView {
    pub index: nat,
    pub item: Option<Seq<char>>,
    pub prompt: Seq<char>,
    pub resume_from: Option<Seq<char>>,
    pub mode: MemberMode,
}

impl View for PlannedMember {
    type V = MemberView;

    open spec fn view(&self) -> MemberView {
        MemberView {
            index: self.index as nat,
            item: option_view(self.item),
            prompt: self.prompt@,
            resume_from: option_view(self.resume_from),
            mode: self.mode,
        }
    }
}

/// What some members hold.
pub open spec fn member_views(s: Seq<PlannedMember>) -> Seq<MemberView> {
    s.map_values(|m: PlannedMember| m@)
}

/// The agents that an input continues.
pub open spec fn resumes_of(input: AgentSwarmToolInput) -> Seq<(String, String)> {
    match input.resume_agent_ids {
        Some(v) => v@,
        None => Seq::empty(),
    }
}

/// The items of an input.
pub open spec fn items_of(input: AgentSwarmToolInput) -> Seq<String> {
    match input.items {
        Some(v) => v@,
        None => Seq::empty(),
    }
}

/// The template of an input.
pub open spec fn template_of(input: AgentSwarmToolInput) -> Seq<char> {
    match input.prompt_template {
        Some(t) => t@,
        None => Seq::empty(),
    }
}

/// The prompt for an item.
pub open spec fn expanded(template: Seq<char>, item: Seq<char>) -> Seq<char> {
    replaced(template, "{{item}}"@, item)
}

/// No two items give the same prompt.
pub open spec fn prompts_differ(template: Seq<char>, items: Seq<String>) -> bool {
    forall|i: int, j: int|
        0 <= i < j < items.len() ==> expanded(template, (#[trigger] items[i])@) != expanded(
            template,
            (#[trigger] items[j])@,
        )
}

/// An id stands for no agent: it is blank, or one of the words that do.
pub open spec fn is_sentinel(id: Seq<char>, placeholders: Seq<String>) -> bool {
    trimmed(id).len() == 0 || in_list(placeholders, trimmed(id))
}

/// Some agent to continue has an id that stands for none.
pub open spec fn has_sentinel(resumes: Seq<(String, String)>, placeholders: Seq<String>) -> bool {
    exists|i: int| 0 <= i < resumes.len() && is_sentinel((#[trigger] resumes[i]).0@, placeholders)
}

/// Why an input is refused, if it is. The first reason that holds counts.
pub open spec fn plan_error(input: AgentSwarmToolInput, placeholders: Seq<String>) -> Option<
    Seq<char>,
> {
    let resumes = resumes_of(input);
    let items = items_of(input);
    if resumes.len() + items.len() > MAX_MEMBERS {
        Some("agent_swarm supports at most 128 total members"@)
    } else if resumes.len() == 0 && items.len() < 2 {
        Some("agent_swarm requires at least 2 items unless resume_agent_ids is supplied"@)
    } else if items.len() > 0 && input.prompt_template is None {
        Some("prompt_template is required when items is supplied"@)
    } else if items.len() > 0 && !has_part(input.prompt_template->0@, "{{item}}"@) {
        Some("prompt_template must contain literal {{item}} when items is supplied"@)
    } else if items.len() > 0 && !prompts_differ(input.prompt_template->0@, items) {
        Some("prompt_template must expand to distinct prompts for each item"@)
    } else if has_sentinel(resumes, placeholders) {
        Some("resume_agent_ids must not contain empty or placeholder agent IDs"@)
    } else {
        None
    }
}

/// The member that continues an agent.
pub open spec fn resumed_member(index: nat, id: Seq<char>, prompt: Seq<char>) -> MemberView {
    MemberView {
        index,
        item: None,
        prompt,
        resume_from: Some(trimmed(id)),
        mode: MemberMode::Resume,
    }
}

/// The member for an item.
pub open spec fn new_member(index: nat, item: Seq<char>, template: Seq<char>) -> MemberView {
    MemberView {
        index,
        item: Some(item),
        prompt: expanded(template, item),
        resume_from: None,
        mode: MemberMode::New,
    }
}

/// The members of a swarm: those that continue agents first, then one for each
/// item, numbered in order.
pub open spec fn planned(input: AgentSwarmToolInput) -> Seq<MemberView> {
    let resumes = resumes_of(input);
    let items = items_of(input);
    let template = template_of(input);
    Seq::new(
        resumes.len() + items.len(),
        |i: int|
            if i < resumes.len() {
                resumed_member(i as nat, resumes[i].0@, resumes[i].1@)
            } else {
                new_member(i as nat, items[i - resumes.len()]@, template)
            },
    )
}

fn is_placeholder(id: &str, placeholders: &Vec<String>) -> (r: bool)
    ensures
        r == is_sentinel(id@, placeholders@),
{
    let t: &str = trim(id);
    t.is_empty() || list_holds(placeholders, t)
}

fn expand_items(template: &str, items: &Vec<String>) -> (r: Vec<String>)
    ensures
        r@.len() == items@.len(),
        forall|i: int| 0 <= i < items@.len() ==> (#[trigger] r@[i])@ == expanded(
            template@,
            items@[i]@,
        ),
{
    let mut out: Vec<String> = Vec::new();
    let mut i: usize = 0;
    proof {
        reveal_strlit("{{item}}");
    }
    while i < items.len()
        invariant
            i <= items@.len(),
            out@.len() == i,
            "{{item}}"@.len() > 0,
            forall|j: int| 0 <= j < i ==> (#[trigger] out@[j])@ == expanded(
                template@,
                items@[j]@,
            ),
        decreases items.len() - i,
    {
        out.push(replace_text(template, "{{item}}", items[i].as_str()));
        i += 1;
    }
    out
}

fn all_differ(v: &Vec<String>) -> (r: bool)
    ensures
        r == (forall|i: int, j: int|
            0 <= i < j < v@.len() ==> (#[trigger] v@[i])@ != (#[trigger] v@[j])@),
{
    let mut i: usize = 0;
    while i < v.len()
        invariant
            i <= v@.len(),
            forall|a: int, b: int|
                0 <= a < b < i ==> (#[trigger] v@[a])@ != (#[trigger] v@[b])@,
        decreases v.len() - i,
    {
        let mut k: usize = 0;
        while k < i
            invariant
                k <= i < v@.len(),
                forall|a: int| 0 <= a < k ==> (#[trigger] v@[a])@ != v@[i as int]@,
            decreases i - k,
        {
            if same_text(v[k].as_str(), v[i].as_str()) {
                proof {
                    assert(v@[k as int]@ == v@[i as int]@);
                }
                return false;
            }
            k += 1;
        }
        i += 1;
    }
    true
}

/// Checks an input and plans the members of the swarm. `placeholders` are the
/// words that stand for no agent.
#[verifier::loop_isolation(false)]
pub fn validate_and_plan(input: &AgentSwarmToolInput, placeholders: &Vec<String>) -> (r: Result<
    Vec<PlannedMember>,
    String,
>)
    ensures
        match r {
            Ok(members) => plan_error(*input, placeholders@) is None && member_views(members@)
                == planned(*input),
            Err(e) => plan_error(*input, placeholders@) == Some(e@),
        },
{
    let no_items: Vec<String> = Vec::new();
    let no_resumes: Vec<(String, String)> = Vec::new();
    let items: &Vec<String> = match &input.items {
        Some(v) => v,
        None => &no_items,
    };
    let resumes: &Vec<(String, String)> = match &input.resume_agent_ids {
        Some(v) => v,
        None => &no_resumes,
    };
    proof {
        assert(items@ =~= items_of(*input));
        assert(resumes@ =~= resumes_of(*input));
    }
    if resumes.len() > MAX_MEMBERS || items.len() > MAX_MEMBERS - resumes.len() {
        return Err("agent_swarm supports at most 128 total members".to_owned());
    }
    if resumes.len() == 0 && items.len() < 2 {
        return Err(
            "agent_swarm requires at least 2 items unless resume_agent_ids is supplied".to_owned(),
        );
    }
    let mut prompts: Vec<String> = Vec::new();
    if items.len() > 0 {
        let template: &str = match &input.prompt_template {
            Some(t) => t.as_str(),
            None => {
                return Err("prompt_template is required when items is supplied".to_owned());
            },
        };
        if !contains_text(template, "{{item}}") {
            return Err(
                "prompt_template must contain literal {{item}} when items is supplied".to_owned(),
            );
        }
        prompts = expand_items(template, items);
        if !all_differ(&prompts) {
            proof {
                let (i, j) = choose|i: int, j: int|
                    0 <= i < j < prompts@.len() && (#[trigger] prompts@[i])@ == (
                    #[trigger] prompts@[j])@;
                assert(expanded(template@, items@[i]@) == expanded(template@, items@[j]@));
            }
            return Err(
                "prompt_template must expand to distinct prompts for each item".to_owned(),
            );
        }
        proof {
            assert(prompts_differ(template@, items@)) by {
                assert forall|i: int, j: int| 0 <= i < j < items@.len() implies expanded(
                    template@,
                    (#[trigger] items@[i])@,
                ) != expanded(template@, (#[trigger] items@[j])@) by {
                    assert(prompts@[i]@ != prompts@[j]@);
                }
            }
        }
    }
    let ghost template = template_of(*input);
    let ghost all = planned(*input);
    let mut members: Vec<PlannedMember> = Vec::new();
    let mut i: usize = 0;
    while i < resumes.len()
        invariant
            i <= resumes@.len() <= MAX_MEMBERS,
            resumes@ == resumes_of(*input),
            all == planned(*input),
            all.len() >= resumes@.len(),
            forall|j: int|
                0 <= j < i ==> !is_sentinel((#[trigger] resumes@[j]).0@, placeholders@),
            member_views(members@) =~= all.take(i as int),
        decreases resumes.len() - i,
    {
        if is_placeholder(resumes[i].0.as_str(), placeholders) {
            proof {
                assert(has_sentinel(resumes@, placeholders@));
            }
            return Err(
                "resume_agent_ids must not contain empty or placeholder agent IDs".to_owned(),
            );
        }
        let ghost before = member_views(members@);
        let m: PlannedMember = PlannedMember {
            index: i as u32,
            item: None,
            prompt: resumes[i].1.clone(),
            resume_from: Some(trim(resumes[i].0.as_str()).to_owned()),
            mode: MemberMode::Resume,
        };
        members.push(m);
        proof {
            assert(member_views(members@) =~= before.push(m@));
            assert(m@ =~= all[i as int]);
            assert(all.take(i as int + 1) =~= all.take(i as int).push(all[i as int]));
        }
        i += 1;
    }
    let base: usize = resumes.len();
    let mut k: usize = 0;
    while k < items.len()
        invariant
            k <= items@.len() <= MAX_MEMBERS,
            base == resumes@.len() <= MAX_MEMBERS,
            resumes@ == resumes_of(*input),
            items@ == items_of(*input),
            all == planned(*input),
            all.len() == base + items@.len(),
            prompts@.len() == items@.len(),
            items@.len() > 0 ==> input.prompt_template is Some,
            template == template_of(*input),
            forall|j: int| 0 <= j < items@.len() ==> (#[trigger] prompts@[j])@ == expanded(
                template,
                items@[j]@,
            ),
            member_views(members@) =~= all.take(base + k),
        decreases items.len() - k,
    {
        let ghost before = member_views(members@);
        let m: PlannedMember = PlannedMember {
            index: (base + k) as u32,
            item: Some(items[k].clone()),
            prompt: prompts[k].clone(),
            resume_from: None,
            mode: MemberMode::New,
        };
        members.push(m);
        proof {
            assert(member_views(members@) =~= before.push(m@));
            assert(m@ =~= all[base + k]);
            assert(all.take(base + k + 1) =~= all.take(base + k).push(all[base + k]));
        }
        k += 1;
    }
    proof {
        assert(all.take(all.len() as int) =~= all);
        assert(member_views(members@) == all);
    }
    Ok(members)
}

// ---- settings ----

/// The positive number that a setting gives, if it is set: `Ok(None)` for a
/// blank one.
pub open spec fn positive_setting(name: Seq<char>, value: Seq<char>) -> Result<
    Option<int>,
    Seq<char>,
> {
    let n = unsigned_value(trimmed(value));
    if trimmed(value).len() == 0 {
        Ok(None)
    } else if n is Some && 0 < n->0 <= usize::MAX {
        Ok(Some(n->0))
    } else {
        Err(name + " must be a positive integer when set"@)
    }
}

/// Reads a setting that is a positive number.
pub fn parse_positive_value(name: &str, value: &str) -> (r: Result<Option<usize>, String>)
    ensures
        match (r, positive_setting(name@, value@)) {
            (Ok(None), Ok(None)) => true,
            (Ok(Some(a)), Ok(Some(b))) => a == b,
            (Err(a), Err(b)) => a@ == b,
            _ => false,
        },
{
    let text: &str = trim(value);
    if text.is_empty() {
        return Ok(None);
    }
    if let Some(n) = parse_u64(text) {
        if n > 0 && n <= usize::MAX as u64 {
            return Ok(Some(n as usize));
        }
    }
    Err(cat2(name, " must be a positive integer when set"))
}

/// What a setting that may be missing gives.
pub open spec fn optional_setting(name: Seq<char>, value: Option<Seq<char>>) -> Result<
    Option<int>,
    Seq<char>,
> {
    match value {
        Some(v) => positive_setting(name, v),
        None => Ok(None),
    }
}

/// The cap on members that run at once, from two settings of which the first
/// goes before: both must be good where they are set.
pub open spec fn concurrency_setting(first: Option<Seq<char>>, second: Option<Seq<char>>) -> Result<
    Option<int>,
    Seq<char>,
> {
    let a = optional_setting("OPENGROK_AGENT_SWARM_MAX_CONCURRENCY"@, first);
    let b = optional_setting("KIMI_CODE_AGENT_SWARM_MAX_CONCURRENCY"@, second);
    if a is Err || b is Ok && a->Ok_0 is Some {
        a
    } else {
        b
    }
}

/// Reads the cap on members that run at once.
pub fn swarm_concurrency(first: Option<&str>, second: Option<&str>) -> (r: Result<
    Option<usize>,
    String,
>)
    ensures
        match (
            r,
            concurrency_setting(
                match first {
                    Some(s) => Some(s@),
                    None => None,
                },
                match second {
                    Some(s) => Some(s@),
                    None => None,
                },
            ),
        ) {
            (Ok(None), Ok(None)) => true,
            (Ok(Some(a)), Ok(Some(b))) => a == b,
            (Err(a), Err(b)) => a@ == b,
            _ => false,
        },
{
    let a: Option<usize> = match first {
        Some(s) => match parse_positive_value("OPENGROK_AGENT_SWARM_MAX_CONCURRENCY", s) {
            Ok(n) => n,
            Err(e) => {
                return Err(e);
            },
        },
        None => None,
    };
    let b: Option<usize> = match second {
        Some(s) => match parse_positive_value("KIMI_CODE_AGENT_SWARM_MAX_CONCURRENCY", s) {
            Ok(n) => n,
            Err(e) => {
                return Err(e);
            },
        },
        None => None,
    };
    if a.is_some() {
        Ok(a)
    } else {
        Ok(b)
    }
}

/// How long a member may take, in milliseconds: the default where it is not
/// set, no limit for zero.
pub open spec fn timeout_setting(value: Option<Seq<char>>) -> Result<Option<int>, Seq<char>> {
    match value {
        None => Ok(Some(DEFAULT_TIMEOUT_MS as int)),
        Some(v) => {
            let n = unsigned_value(trimmed(v));
            if trimmed(v).len() == 0 {
                Ok(Some(DEFAULT_TIMEOUT_MS as int))
            } else if n is Some && n->0 <= u64::MAX {
                Ok(
                    if n->0 == 0 {
                        None
                    } else {
                        Some(n->0)
                    },
                )
            } else {
                Err("OPENGROK_SUBAGENT_TIMEOUT_MS must be a non-negative integer when set"@)
            }
        },
    }
}

/// Reads how long a member may take.
pub fn subagent_timeout(value: Option<&str>) -> (r: Result<Option<u64>, String>)
    ensures
        match (
            r,
            timeout_setting(
                match value {
                    Some(s) => Some(s@),
                    None => None,
                },
            ),
        ) {
            (Ok(None), Ok(None)) => true,
            (Ok(Some(a)), Ok(Some(b))) => a == b,
            (Err(a), Err(b)) => a@ == b,
            _ => false,
        },
{
    match value {
        None => Ok(Some(DEFAULT_TIMEOUT_MS)),
        Some(v) => {
            let text: &str = trim(v);
            if text.is_empty() {
                return Ok(Some(DEFAULT_TIMEOUT_MS));
            }
            match parse_u64(text) {
                Some(n) => if n == 0 {
                    Ok(None)
                } else {
                    Ok(Some(n))
                },
                None => Err(
                    "OPENGROK_SUBAGENT_TIMEOUT_MS must be a non-negative integer when set".to_owned(),
                ),
            }
        },
    }
}

/// The smaller of two numbers.
pub open spec fn least(a: int, b: int) -> int {
    if a < b {
        a
    } else {
        b
    }
}

/// How many members start at once.
pub open spec fn launch_count(total: int, concurrency_cap: Option<usize>) -> int {
    least(
        least(total, INITIAL_LAUNCHES as int),
        match concurrency_cap {
            Some(c) => c as int,
            None => INITIAL_LAUNCHES as int,
        },
    )
}

/// How many members start at once: at most five, the cap, and all there are.
pub fn initial_launch_count(total: usize, concurrency_cap: Option<usize>) -> (r: usize)
    ensures
        r == launch_count(total as int, concurrency_cap),
{
    let a: usize = if total < INITIAL_LAUNCHES {
        total
    } else {
        INITIAL_LAUNCHES
    };
    let b: usize = match concurrency_cap {
        Some(c) => c,
        None => INITIAL_LAUNCHES,
    };
    if a < b {
        a
    } else {
        b
    }
}

// ---- laws ----

/// Members are numbered in order, the continued agents first, and each item
/// has one member.
pub proof fn law_members_are_numbered_in_order(input: AgentSwarmToolInput)
    ensures
        planned(input).len() == resumes_of(input).len() + items_of(input).len(),
        forall|i: int|
            0 <= i < planned(input).len() ==> {
                &&& (#[trigger] planned(input)[i]).index == i
                &&& planned(input)[i].mode == (if i < resumes_of(input).len() {
                    MemberMode::Resume
                } else {
                    MemberMode::New
                })
            },
{
}

/// No two new members of an accepted swarm get the same prompt.
pub proof fn law_new_members_have_distinct_prompts(
    input: AgentSwarmToolInput,
    placeholders: Seq<String>,
    i: int,
    j: int,
)
    requires
        plan_error(input, placeholders) is None,
        resumes_of(input).len() <= i < j < planned(input).len(),
    ensures
        planned(input)[i].prompt != planned(input)[j].prompt,
{
    let base = resumes_of(input).len();
    let items = items_of(input);
    assert(expanded(input.prompt_template->0@, items[i - base]@) != expanded(
        input.prompt_template->0@,
        items[j - base]@,
    ));
}

} // verus!
