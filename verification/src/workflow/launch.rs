//! Launching a workflow: what a launch may ask for, and what it is answered.
use vstd::prelude::*;
#[allow(unused_imports)]
use vstd::string::*;

#[allow(unused_imports)]
use crate::json::{JsonValue};
#[allow(unused_imports)]
use crate::text::{
    blank, byte_count, byte_len, cat2, cat3, cat5, chars_of, decimal, decimal_text, find_char,
    is_blank, option_view, same_text, until,
};
#[allow(unused_imports)]
use crate::tool::{
    ErrorView, MetadataView, ToolError, ToolKind, ToolMetadata, ToolNamespace, custom_error,
};

verus! {

/// The name of the tool.
pub const WORKFLOW_TOOL_NAME: &'static str = "workflow";

/// What the tool says of itself to a model.
pub const WORKFLOW_DESCRIPTION: &'static str =
    "Launch a workflow: a Rhai script that orchestrates subagents as one background run. Provide exactly one tagged `source`: `type: \"name\"` with a registered `name`, `type: \"script\"` with an inline `script`, `type: \"script_path\"` with a `script_path`, or `type: \"resume\"` with `resume_from_run_id`. Registered workflows come from built-ins, project `.opengrok/workflows/`, or user `~/.opengrok/workflows/`. Optionally pass `args` (bound to the script's `args`) and `agent_budget`, an absolute cap on cumulative child-agent calls: every agent() and parallel() item consumes one slot (schema retries do not); default 128. The host also caps live children per run (32 by default, host-configured) — larger parallel() panels are queued and still act as a barrier. The call returns immediately; progress appears in `/workflow runs`${%- if system_reminders_enabled %} and completion is reported automatically — do not poll or sleep-wait${%- endif %}.\n\n\nPrefer a registered workflow when one fits; author a script for bounded fan-out over a known work list, staged research and verification, or several independent perspectives. Before writing or editing a script, read the `create-workflow` skill's SKILL.md. `validate_only: true` runs a path-specific smoke check (metadata, compile, one canned-host path) — not proof that every branch or live tool works.\n\nA started run gets a session-unique display name (e.g. `review-changes`, `review-changes-2`) — the handle to show the user and use with `/workflow pause|resume|stop <name>`; keep run IDs internal. Each launch persists an editable `script_path`; edit it and launch as a new run to iterate. A run that pauses itself (any kind except `user`), blocks on `escalate()`, or fails does NOT just stop: you are woken with the blocking issue and resume instructions. Fix what you can (environment, missing input, open decision), then resume with `resume_from_run_id` — completed agents replay from the journal, a failed step re-executes, and when the run asked via `escalate()` pass `resume_note` so the script receives your answer and continues (`resume_note` is only accepted while the run is blocked at an escalation). A plain `pause()` replays deterministically — a pause about missing launch input needs a corrected NEW run, not a resume. A budget-limited run resumes only with a higher `agent_budget`; process-restart interruptions are terminal. Save reusable scripts to `.opengrok/workflows/<name>.rhai`.";

// ---- tool ids ----

/// What stands behind the last `:` of a text; the whole where there is none.
pub open spec fn after_last_colon(s: Seq<char>) -> Seq<char>
    decreases s.len(),
{
    let k = until(s, ':') as int;
    if k >= s.len() {
        s
    } else {
        after_last_colon(s.skip(k + 1))
    }
}

/// The name in a tool id, without its namespace.
pub fn workflow_tool_short_name(id: &str) -> (r: &str)
    ensures
        r@ == after_last_colon(id@),
{
    let v: Vec<char> = chars_of(id);
    let mut from: usize = 0;
    proof {
        assert(id@.skip(0) =~= id@);
    }
    loop
        invariant
            from <= v@.len(),
            v@ == id@,
            after_last_colon(id@) == after_last_colon(id@.skip(from as int)),
        decreases v.len() - from,
    {
        let k: usize = find_char(&v, from, ':');
        let ghost rest = id@.skip(from as int);
        if k >= v.len() {
            proof {
                assert(id@.subrange(from as int, v@.len() as int) =~= rest);
            }
            return id.substring_char(from, v.len());
        }
        proof {
            assert(rest.skip(k - from + 1) =~= id@.skip(k as int + 1));
        }
        from = k + 1;
    }
}

/// Whether a tool id is that of the workflow tool.
pub fn is_workflow_tool_id(id: &str) -> (r: bool)
    ensures
        r == (after_last_colon(id@) == WORKFLOW_TOOL_NAME@),
{
    same_text(workflow_tool_short_name(id), WORKFLOW_TOOL_NAME)
}

/// Whether a tool is the workflow tool, by its kind or by its id.
pub fn is_workflow_tool(kind: Option<ToolKind>, id: &str) -> (r: bool)
    ensures
        r == (kind == Some(ToolKind::Workflow) || after_last_colon(id@) == WORKFLOW_TOOL_NAME@),
{
    let by_kind: bool = match kind {
        Some(k) => k == ToolKind::Workflow,
        None => false,
    };
    by_kind || is_workflow_tool_id(id)
}

// ---- the input ----

/// Where a workflow comes from.
#[derive(Debug, Clone)]
pub enum WorkflowSource {
    Name { name: String },
    Script { script: String },
    ScriptPath { script_path: String },
    Resume { resume_from_run_id: String },
}

/// What a launch asks for.
#[derive(Debug, Clone)]
pub struct WorkflowToolInput {
    /// How many agents the run may call.
    pub agent_budget: Option<u64>,
    /// The name of a registered workflow.
    pub name: Option<String>,
    /// An inline script.
    pub script: Option<String>,
    /// The path of a script.
    pub script_path: Option<String>,
    /// The arguments of the script.
    pub args: Option<JsonValue>,
    /// A paused run to go on with.
    pub resume_from_run_id: Option<String>,
    /// The answer to the question at which the run waits.
    pub resume_note: Option<String>,
    /// Whether to check without launching.
    pub validate_only: bool,
}

/// A text is there and not blank.
pub open spec fn present(o: Option<String>) -> bool {
    o is Some && !blank(o->0@)
}

/// A text that is there and not blank.
pub open spec fn unless_blank(o: Option<String>) -> Option<String> {
    if present(o) {
        o
    } else {
        None
    }
}

fn is_present(o: &Option<String>) -> (r: bool)
    ensures
        r == present(*o),
{
    match o {
        Some(s) => !is_blank(s.as_str()),
        None => false,
    }
}

fn blank_to_none(o: &mut Option<String>)
    ensures
        *final(o) == unless_blank(*old(o)),
{
    if !is_present(o) {
        *o = None;
    }
}

/// How many sources an input names.
pub open spec fn source_count(input: WorkflowToolInput) -> int {
    (if present(input.name) {
        1int
    } else {
        0
    }) + (if present(input.script) {
        1int
    } else {
        0
    }) + (if present(input.script_path) {
        1int
    } else {
        0
    })
}

/// Why a note to a paused run is refused, if it is.
pub open spec fn note_error(input: WorkflowToolInput) -> Option<Seq<char>> {
    match input.resume_note {
        None => None,
        Some(note) => if blank(note@) {
            Some(
                "`resume_note` must not be blank; omit it entirely to resume without answering the escalation"@,
            )
        } else if input.resume_from_run_id is None {
            Some(
                "`resume_note` answers a blocked run's escalate(); it requires `resume_from_run_id`"@,
            )
        } else if input.validate_only {
            Some(
                "`resume_note` answers a real blocked run; it cannot be combined with `validate_only`"@,
            )
        } else if byte_len(note@) > 16384 {
            Some("`resume_note` must be at most 16384 bytes"@)
        } else {
            None
        },
    }
}

/// Why the source of an input is refused, if it is.
pub open spec fn source_error(input: WorkflowToolInput) -> Option<Seq<char>> {
    let sources = source_count(input);
    if present(input.resume_from_run_id) {
        if input.args is Some {
            Some("resume uses immutable source and arguments; do not provide `args`"@)
        } else if input.validate_only {
            Some("`validate_only` cannot be used when resuming a run"@)
        } else if sources > 0 {
            Some(
                "`resume_from_run_id` continues a same-process paused run's original immutable script and args; do not combine it with `name`, `script`, or `script_path`"@,
            )
        } else {
            None
        }
    } else if sources == 0 {
        Some("provide one of `name`, `script`, or `script_path`"@)
    } else if sources > 1 {
        Some("`name`, `script`, and `script_path` are mutually exclusive"@)
    } else {
        None
    }
}

/// Why an input is refused, if it is.
pub open spec fn input_error(input: WorkflowToolInput) -> Option<Seq<char>> {
    if input.agent_budget == Some(0u64) {
        Some("`agent_budget` must be a positive integer"@)
    } else if input.agent_budget is Some && input.agent_budget->0 > 1024 {
        Some("`agent_budget` must be at most 1024 agents"@)
    } else if note_error(input) is Some {
        note_error(input)
    } else {
        source_error(input)
    }
}

/// An input without its blank texts. The note stays: a blank one is refused.
pub open spec fn normalized(input: WorkflowToolInput) -> WorkflowToolInput {
    WorkflowToolInput {
        name: unless_blank(input.name),
        script: unless_blank(input.script),
        script_path: unless_blank(input.script_path),
        resume_from_run_id: unless_blank(input.resume_from_run_id),
        ..input
    }
}

/// What a result says of an error.
pub open spec fn error_text(r: Result<(), String>) -> Option<Seq<char>> {
    match r {
        Ok(_) => None,
        Err(e) => Some(e@),
    }
}

impl WorkflowToolInput {
    pub const MAX_AGENT_BUDGET: u64 = 1_024;

    pub const MAX_RESUME_NOTE_BYTES: usize = 16_384;

    /// Drops the blank texts.
    pub fn normalize(&mut self)
        ensures
            *final(self) == normalized(*old(self)),
    {
        blank_to_none(&mut self.name);
        blank_to_none(&mut self.script);
        blank_to_none(&mut self.script_path);
        blank_to_none(&mut self.resume_from_run_id);
    }

    fn check_note(&self) -> (r: Result<(), String>)
        ensures
            error_text(r) == note_error(*self),
    {
        if let Some(note) = &self.resume_note {
            if is_blank(note.as_str()) {
                return Err(
                    "`resume_note` must not be blank; omit it entirely to resume without answering the escalation".to_owned(),
                );
            }
            if self.resume_from_run_id.is_none() {
                return Err(
                    "`resume_note` answers a blocked run's escalate(); it requires `resume_from_run_id`".to_owned(),
                );
            }
            if self.validate_only {
                return Err(
                    "`resume_note` answers a real blocked run; it cannot be combined with `validate_only`".to_owned(),
                );
            }
            if byte_count(note.as_str()) > Self::MAX_RESUME_NOTE_BYTES {
                return Err("`resume_note` must be at most 16384 bytes".to_owned());
            }
        }
        Ok(())
    }

    fn check_source(&self) -> (r: Result<(), String>)
        ensures
            error_text(r) == source_error(*self),
    {
        let a: u8 = if is_present(&self.name) {
            1
        } else {
            0
        };
        let b: u8 = if is_present(&self.script) {
            1
        } else {
            0
        };
        let c: u8 = if is_present(&self.script_path) {
            1
        } else {
            0
        };
        let sources: u8 = a + b + c;
        if is_present(&self.resume_from_run_id) {
            if self.args.is_some() {
                return Err(
                    "resume uses immutable source and arguments; do not provide `args`".to_owned(),
                );
            }
            if self.validate_only {
                return Err("`validate_only` cannot be used when resuming a run".to_owned());
            }
            if sources > 0 {
                return Err(
                    "`resume_from_run_id` continues a same-process paused run's original immutable script and args; do not combine it with `name`, `script`, or `script_path`".to_owned(),
                );
            }
            return Ok(());
        }
        if sources == 0 {
            return Err("provide one of `name`, `script`, or `script_path`".to_owned());
        }
        if sources > 1 {
            return Err("`name`, `script`, and `script_path` are mutually exclusive".to_owned());
        }
        Ok(())
    }

    /// Checks that the input names one source and fits together.
    pub fn validate(&self) -> (r: Result<(), String>)
        ensures
            error_text(r) == input_error(*self),
    {
        if let Some(budget) = self.agent_budget {
            if budget == 0 {
                return Err("`agent_budget` must be a positive integer".to_owned());
            }
            if budget > Self::MAX_AGENT_BUDGET {
                return Err("`agent_budget` must be at most 1024 agents".to_owned());
            }
        }
        match self.check_note() {
            Ok(()) => self.check_source(),
            Err(e) => Err(e),
        }
    }

    /// The input for a tagged source beside the untagged fields, which may then
    /// name none.
    pub fn from_wire(source: Option<WorkflowSource>, fields: WorkflowToolInput) -> (r: Result<
        WorkflowToolInput,
        String,
    >)
        ensures
            match (r, wire_input(source, fields)) {
                (Ok(a), Ok(b)) => a == b,
                (Err(a), Err(b)) => a@ == b,
                _ => false,
            },
    {
        let mut input: WorkflowToolInput = fields;
        input.normalize();
        if let Some(source) = source {
            if input.name.is_some() || input.script.is_some() || input.script_path.is_some()
                || input.resume_from_run_id.is_some() {
                return Err(
                    "`source` cannot be combined with legacy workflow source fields".to_owned(),
                );
            }
            match source {
                WorkflowSource::Name { name } => {
                    input.name = Some(name);
                },
                WorkflowSource::Script { script } => {
                    input.script = Some(script);
                },
                WorkflowSource::ScriptPath { script_path } => {
                    input.script_path = Some(script_path);
                },
                WorkflowSource::Resume { resume_from_run_id } => {
                    input.resume_from_run_id = Some(resume_from_run_id);
                },
            }
        }
        match input.validate() {
            Ok(()) => Ok(input),
            Err(e) => Err(e),
        }
    }
}

/// An input with a tagged source.
pub open spec fn with_source(source: WorkflowSource, input: WorkflowToolInput) -> WorkflowToolInput {
    match source {
        WorkflowSource::Name { name } => WorkflowToolInput { name: Some(name), ..input },
        WorkflowSource::Script { script } => WorkflowToolInput { script: Some(script), ..input },
        WorkflowSource::ScriptPath { script_path } => WorkflowToolInput {
            script_path: Some(script_path),
            ..input
        },
        WorkflowSource::Resume { resume_from_run_id } => WorkflowToolInput {
            resume_from_run_id: Some(resume_from_run_id),
            ..input
        },
    }
}

/// The input that a message stands for, or why it is refused.
pub open spec fn wire_input(source: Option<WorkflowSource>, fields: WorkflowToolInput) -> Result<
    WorkflowToolInput,
    Seq<char>,
> {
    let plain = normalized(fields);
    if source is Some && (plain.name is Some || plain.script is Some || plain.script_path is Some
        || plain.resume_from_run_id is Some) {
        Err("`source` cannot be combined with legacy workflow source fields"@)
    } else {
        let input = match source {
            Some(s) => with_source(s, plain),
            None => plain,
        };
        match input_error(input) {
            Some(e) => Err(e),
            None => Ok(input),
        }
    }
}

// ---- the launch ----

/// The request for a launch.
#[derive(Debug)]
pub struct WorkflowLaunchRequest {
    pub input: WorkflowToolInput,
}

/// What the session answers to a launch.
#[derive(Debug)]
pub enum WorkflowLaunchAck {
    Started { run_id: String, task_id: String, name: String, script_path: Option<String> },
    Validated { name: String, phases: usize, summary: String },
    Rejected { code: &'static str, detail: String },
}

/// What came back of a launch.
#[derive(Debug)]
pub enum LaunchEvent {
    /// The request could not be sent.
    ChannelClosed,
    Acknowledged(WorkflowLaunchAck),
    /// The session went away before it answered.
    NoAnswer,
}

/// What the tool answers.
#[derive(Debug, Clone)]
pub struct WorkflowToolOutput {
    pub run_id: String,
    pub task_id: String,
    pub name: String,
    pub script_path: Option<String>,
    pub message: String,
}

/// What an answer of the tool holds.
#[verifier::ext_equal]
pub struct OutputView {
    pub run_id: Seq<char>,
    pub task_id: Seq<char>,
    pub name: Seq<char>,
    pub script_path: Option<Seq<char>>,
    pub message: Seq<char>,
}

impl View for WorkflowToolOutput {
    type V = OutputView;

    open spec fn view(&self) -> OutputView {
        OutputView {
            run_id: self.run_id@,
            task_id: self.task_id@,
            name: self.name@,
            script_path: option_view(self.script_path),
            message: self.message@,
        }
    }
}

/// The message for a run that started.
pub open spec fn started_message(name: Seq<char>, script_path: Option<Seq<char>>) -> Seq<char> {
    "Workflow '"@ + name
        + "' started in the background. Progress appears in /workflow runs and completion is reported automatically. '"@
        + name
        + "' is the session-unique display handle for user-facing status and /workflow management; keep the structured run id internal."@
        + (match script_path {
        Some(p) => " The editable script projection is at "@ + p
            + ". Edit it and launch that `script_path` as a new run to iterate; same-process pause resume continues only this run's original immutable source."@,
        None => Seq::empty(),
    })
}

/// The message for a check that passed.
pub open spec fn validated_message(name: Seq<char>, phases: nat, summary: Seq<char>) -> Seq<char> {
    "Smoke check passed for workflow '"@ + name + "' ("@ + decimal(phases)
        + " declared phases; canned-host path "@ + summary
        + "). This did not launch the workflow and did not exercise every branch or live dependency. Offer a real run next."@
}

/// What the tool answers to what came back of a launch.
pub open spec fn launch_answer(event: LaunchEvent) -> Result<OutputView, ErrorView> {
    match event {
        LaunchEvent::ChannelClosed => Err(
            custom_error(
                "workflow_channel_closed"@,
                "Workflow launch channel closed — the session may be shutting down"@,
            ),
        ),
        LaunchEvent::NoAnswer => Err(
            custom_error(
                "workflow_launch_no_ack"@,
                "The session dropped the launch channel before answering; the workflow may not have started."@,
            ),
        ),
        LaunchEvent::Acknowledged(WorkflowLaunchAck::Rejected { code, detail }) => Err(
            custom_error(code@, detail@),
        ),
        LaunchEvent::Acknowledged(
            WorkflowLaunchAck::Started { run_id, task_id, name, script_path },
        ) => Ok(
            OutputView {
                run_id: run_id@,
                task_id: task_id@,
                name: name@,
                script_path: option_view(script_path),
                message: started_message(name@, option_view(script_path)),
            },
        ),
        LaunchEvent::Acknowledged(
            WorkflowLaunchAck::Validated { name, phases, summary },
        ) => Ok(
            OutputView {
                run_id: Seq::empty(),
                task_id: Seq::empty(),
                name: name@,
                script_path: None,
                message: validated_message(name@, phases as nat, summary@),
            },
        ),
    }
}

#[derive(Debug, Default)]
pub struct WorkflowTool;

impl WorkflowTool {
    /// The request that the tool sends, or why it sends none. Workflows are
    /// launched only from the top, whatever depth subagents may have.
    pub fn prepare_launch(
        &self,
        input: WorkflowToolInput,
        depth: u32,
        can_launch: bool,
    ) -> (r: Result<WorkflowLaunchRequest, ToolError>)
        ensures
            match r {
                Ok(request) => {
                    &&& request.input == normalized(input)
                    &&& input_error(normalized(input)) is None
                    &&& depth == 0
                    &&& can_launch
                },
                Err(e) => if input_error(normalized(input)) is Some {
                    e@ == custom_error(
                        "workflow_invalid_input"@,
                        input_error(normalized(input))->0,
                    )
                } else if depth > 0 {
                    e@ == custom_error(
                        "workflow_depth_exceeded"@,
                        "Workflows can only be launched from a top-level session (subagents and workflow-spawned agents cannot start workflows)"@,
                    )
                } else {
                    &&& !can_launch
                    &&& e@ == custom_error(
                        "workflow_not_available"@,
                        "Workflow launching is not available in this session (WorkflowLaunchHandle not registered)"@,
                    )
                },
            },
    {
        let mut clean: WorkflowToolInput = input;
        clean.normalize();
        if let Err(detail) = clean.validate() {
            return Err(ToolError::custom("workflow_invalid_input", detail.as_str()));
        }
        if depth > 0 {
            return Err(
                ToolError::custom(
                    "workflow_depth_exceeded",
                    "Workflows can only be launched from a top-level session (subagents and workflow-spawned agents cannot start workflows)",
                ),
            );
        }
        if !can_launch {
            return Err(
                ToolError::custom(
                    "workflow_not_available",
                    "Workflow launching is not available in this session (WorkflowLaunchHandle not registered)",
                ),
            );
        }
        Ok(WorkflowLaunchRequest { input: clean })
    }

    /// What the tool answers to what came back of a launch.
    pub fn answer(&self, event: LaunchEvent) -> (r: Result<WorkflowToolOutput, ToolError>)
        ensures
            match (r, launch_answer(event)) {
                (Ok(a), Ok(b)) => a@ == b,
                (Err(a), Err(b)) => a@ == b,
                _ => false,
            },
    {
        match event {
            LaunchEvent::ChannelClosed => Err(
                ToolError::custom(
                    "workflow_channel_closed",
                    "Workflow launch channel closed — the session may be shutting down",
                ),
            ),
            LaunchEvent::NoAnswer => Err(
                ToolError::custom(
                    "workflow_launch_no_ack",
                    "The session dropped the launch channel before answering; the workflow may not have started.",
                ),
            ),
            LaunchEvent::Acknowledged(WorkflowLaunchAck::Rejected { code, detail }) => Err(
                ToolError::custom(code, detail.as_str()),
            ),
            LaunchEvent::Acknowledged(
                WorkflowLaunchAck::Started { run_id, task_id, name, script_path },
            ) => {
                let iterate: String = match &script_path {
                    Some(p) => cat3(
                        " The editable script projection is at ",
                        p.as_str(),
                        ". Edit it and launch that `script_path` as a new run to iterate; same-process pause resume continues only this run's original immutable source.",
                    ),
                    None => String::new(),
                };
                let head: String = cat5(
                    "Workflow '",
                    name.as_str(),
                    "' started in the background. Progress appears in /workflow runs and completion is reported automatically. '",
                    name.as_str(),
                    "' is the session-unique display handle for user-facing status and /workflow management; keep the structured run id internal.",
                );
                let message: String = cat2(head.as_str(), iterate.as_str());
                Ok(WorkflowToolOutput { run_id, task_id, name, script_path, message })
            },
            LaunchEvent::Acknowledged(
                WorkflowLaunchAck::Validated { name, phases, summary },
            ) => {
                let head: String = cat5(
                    "Smoke check passed for workflow '",
                    name.as_str(),
                    "' (",
                    decimal_text(phases as u64).as_str(),
                    " declared phases; canned-host path ",
                );
                let message: String = cat3(
                    head.as_str(),
                    summary.as_str(),
                    "). This did not launch the workflow and did not exercise every branch or live dependency. Offer a real run next.",
                );
                Ok(
                    WorkflowToolOutput {
                        run_id: String::new(),
                        task_id: String::new(),
                        name,
                        script_path: None,
                        message,
                    },
                )
            },
        }
    }

    /// What the tool says of itself.
    pub fn metadata(&self) -> (r: ToolMetadata)
        ensures
            r@ == (MetadataView {
                id: WORKFLOW_TOOL_NAME@,
                kind: ToolKind::Workflow,
                namespace: ToolNamespace::GrokBuild,
                read_only: false,
                description: WORKFLOW_DESCRIPTION@,
            }),
    {
        ToolMetadata {
            id: WORKFLOW_TOOL_NAME,
            kind: ToolKind::Workflow,
            namespace: ToolNamespace::GrokBuild,
            read_only: false,
            description: WORKFLOW_DESCRIPTION,
        }
    }
}

// ---- laws ----

/// Normalizing twice is normalizing once.
pub proof fn law_normalizing_is_stable(input: WorkflowToolInput)
    ensures
        normalized(normalized(input)) == normalized(input),
{
}

/// An input that was accepted is accepted after it was normalized, unless it
/// has a note for a run whose id is blank.
pub proof fn law_accepted_input_stays_accepted(input: WorkflowToolInput)
    requires
        input_error(input) is None,
        input.resume_note is Some ==> present(input.resume_from_run_id),
    ensures
        input_error(normalized(input)) is None,
{
}

/// A blank note is never taken for a resume without a note.
pub proof fn law_blank_note_is_refused(input: WorkflowToolInput)
    requires
        input.resume_note is Some,
        blank(input.resume_note->0@),
    ensures
        input_error(input) is Some,
        input_error(normalized(input)) is Some,
{
}

} // verus!
