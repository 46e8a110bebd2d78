//! Working together with the other sessions of a machine.
use vstd::prelude::*;
#[allow(unused_imports)]
use vstd::string::*;

#[allow(unused_imports)]
use crate::text::{byte_count, byte_len, trim, trimmed};
#[allow(unused_imports)]
use crate::tool::{
    ErrorView, MetadataView, ToolError, ToolKind, ToolMetadata, ToolNamespace, custom_error,
    invalid_arguments,
};

verus! {

/// How many bytes a message may take.
pub const MAX_SESSION_MESSAGE_BYTES: usize = 32_768;

/// How many entries are read unless it is set.
pub const DEFAULT_MAX_UPDATES: usize = 30;

/// How many entries are read at most.
pub const MAX_READ_UPDATES: usize = 200;

/// A live session.
#[derive(Debug, Clone)]
pub struct LiveSessionEntry {
    pub session_id: String,
    pub cwd: String,
    pub project_name: String,
    pub model_id: Option<String>,
    pub title: Option<String>,
    /// `busy` or `idle`.
    pub status: String,
    pub is_self: bool,
}

/// The live sessions.
#[derive(Debug, Clone)]
pub struct ListSessionsOutput {
    /// Whether sessions can reach each other.
    pub bus_enabled: bool,
    pub sessions: Vec<LiveSessionEntry>,
}

/// An entry of a conversation.
#[derive(Debug, Clone)]
pub struct TranscriptEntry {
    /// `user`, `agent` or `peer`.
    pub role: String,
    pub text: String,
}

/// The conversation of a session, newest last.
#[derive(Debug, Clone)]
pub struct ReadSessionOutput {
    pub session_id: String,
    pub title: Option<String>,
    pub live: bool,
    pub updates: Vec<TranscriptEntry>,
}

/// What became of a message.
#[derive(Debug, Clone, Copy, PartialEq, Eq, Structural)]
pub enum MessageSessionStatus {
    Accepted,
    UnknownSession,
    Rejected,
}

impl MessageSessionStatus {
    /// The word for the status.
    pub open spec fn word(self) -> Seq<char> {
        match self {
            MessageSessionStatus::Accepted => "accepted"@,
            MessageSessionStatus::UnknownSession => "unknown_session"@,
            MessageSessionStatus::Rejected => "rejected"@,
        }
    }

    /// The word for the status.
    pub fn as_str(self) -> (r: &'static str)
        ensures
            r@ == self.word(),
    {
        match self {
            MessageSessionStatus::Accepted => "accepted",
            MessageSessionStatus::UnknownSession => "unknown_session",
            MessageSessionStatus::Rejected => "rejected",
        }
    }
}

/// The place of a session among the others.
#[derive(Debug, Clone)]
pub struct SessionBusResource {
    pub self_session_id: String,
    pub self_project: String,
}

impl SessionBusResource {
    /// The place of a session.
    pub fn new(self_session_id: String, self_project: String) -> (r: SessionBusResource)
        ensures
            r.self_session_id == self_session_id,
            r.self_project == self_project,
    {
        SessionBusResource { self_session_id, self_project }
    }

    /// The id of the session.
    pub fn self_session_id(&self) -> (r: &str)
        ensures
            r@ == self.self_session_id@,
    {
        self.self_session_id.as_str()
    }

    /// The project of the session.
    pub fn self_project(&self) -> (r: &str)
        ensures
            r@ == self.self_project@,
    {
        self.self_project.as_str()
    }
}

/// Nothing is asked.
#[derive(Debug, Clone, Default)]
pub struct ListSessionsInput {}

/// Which session to read.
#[derive(Debug, Clone)]
pub struct ReadSessionInput {
    pub session_id: String,
    pub max_updates: Option<usize>,
}

/// What to tell which session.
#[derive(Debug, Clone)]
pub struct MessageSessionInput {
    pub session_id: String,
    pub message: String,
}

/// What became of a message to a session.
#[derive(Debug, Clone)]
pub struct MessageSessionOutput {
    pub target_session_id: String,
    pub status: MessageSessionStatus,
}

/// The error of a session that cannot reach the others.
pub open spec fn no_bus() -> ErrorView {
    custom_error(
        "missing_resource"@,
        "Session collaboration is not initialized for this session"@,
    )
}

fn require_bus(has_bus: bool) -> (r: Result<(), ToolError>)
    ensures
        match r {
            Ok(_) => has_bus,
            Err(e) => !has_bus && e@ == no_bus(),
        },
{
    if has_bus {
        Ok(())
    } else {
        Err(
            ToolError::custom(
                "missing_resource",
                "Session collaboration is not initialized for this session",
            ),
        )
    }
}

/// The tool that lists the sessions.
#[derive(Debug, Default, Clone, Copy)]
pub struct ListSessionsTool;

/// The tool that reads a session.
#[derive(Debug, Default, Clone, Copy)]
pub struct ReadSessionTool;

/// The tool that tells a session something.
#[derive(Debug, Default, Clone, Copy)]
pub struct MessageSessionTool;

/// What the tool that lists the sessions says of itself.
pub const LIST_SESSIONS_DESCRIPTION: &'static str =
    "List the Open Grok sessions live on this machine's session bus — across every project, terminal, and process, including this one. Each entry carries a session id, project, model, title, and busy/idle status. Session ids are the addressing unit: use them verbatim with read_session and message_session. The roster changes as sessions open and close, so call this again when an id stops working.";

/// What the tool that reads a session says of itself.
pub const READ_SESSION_DESCRIPTION: &'static str =
    "Read the recent conversation of another live Open Grok session from its persisted history — the last user and agent messages, newest last. Use it to understand what another session is doing before deciding to message it. The target must be live on the session bus (it appears in list_sessions).";

/// What the tool that tells a session something says of itself.
pub const MESSAGE_SESSION_DESCRIPTION: &'static str =
    "Send a message to another live Open Grok session on this machine. A recipient mid-turn receives it at its next turn boundary; an idle recipient wakes with it as a prompt. The recipient model decides what to do and can reply through message_session addressed to this session's id. Keep messages concise and self-contained, and never resend an accepted message.";

/// What a tool of this module says of itself.
pub open spec fn says(id: Seq<char>, read_only: bool, description: Seq<char>) -> MetadataView {
    MetadataView {
        id,
        kind: ToolKind::AgentCollaboration,
        namespace: ToolNamespace::GrokBuild,
        read_only,
        description,
    }
}

impl ListSessionsTool {
    /// What the tool says of itself.
    pub fn metadata(&self) -> (r: ToolMetadata)
        ensures
            r@ == says("list_sessions"@, true, LIST_SESSIONS_DESCRIPTION@),
    {
        ToolMetadata {
            id: "list_sessions",
            kind: ToolKind::AgentCollaboration,
            namespace: ToolNamespace::GrokBuild,
            read_only: true,
            description: LIST_SESSIONS_DESCRIPTION,
        }
    }

    /// Whether the sessions can be listed.
    pub fn prepare(&self, has_bus: bool) -> (r: Result<(), ToolError>)
        ensures
            match r {
                Ok(_) => has_bus,
                Err(e) => !has_bus && e@ == no_bus(),
            },
    {
        require_bus(has_bus)
    }
}

/// Why a session is not read, if it is not.
pub open spec fn read_error(input: ReadSessionInput, has_bus: bool) -> Option<ErrorView> {
    if trimmed(input.session_id@).len() == 0 {
        Some(invalid_arguments("session_id must not be empty"@))
    } else if !has_bus {
        Some(no_bus())
    } else {
        None
    }
}

impl ReadSessionTool {
    /// What the tool says of itself.
    pub fn metadata(&self) -> (r: ToolMetadata)
        ensures
            r@ == says("read_session"@, true, READ_SESSION_DESCRIPTION@),
    {
        ToolMetadata {
            id: "read_session",
            kind: ToolKind::AgentCollaboration,
            namespace: ToolNamespace::GrokBuild,
            read_only: true,
            description: READ_SESSION_DESCRIPTION,
        }
    }

    /// The session to read, and how many entries: one at least, and not more
    /// than can be told.
    pub fn prepare(&self, input: &ReadSessionInput, has_bus: bool) -> (r: Result<
        (String, usize),
        ToolError,
    >)
        ensures
            match (r, read_error(*input, has_bus)) {
                (Ok((id, n)), None) => {
                    let asked = match input.max_updates {
                        Some(m) => m,
                        None => DEFAULT_MAX_UPDATES,
                    };
                    &&& id@ == trimmed(input.session_id@)
                    &&& n == (if asked < 1 {
                        1
                    } else if asked > MAX_READ_UPDATES {
                        MAX_READ_UPDATES
                    } else {
                        asked
                    })
                },
                (Err(e), Some(expected)) => e@ == expected,
                _ => false,
            },
    {
        let id: &str = trim(input.session_id.as_str());
        if id.is_empty() {
            return Err(ToolError::invalid_arguments("session_id must not be empty"));
        }
        let asked: usize = match input.max_updates {
            Some(m) => m,
            None => DEFAULT_MAX_UPDATES,
        };
        let n: usize = if asked < 1 {
            1
        } else if asked > MAX_READ_UPDATES {
            MAX_READ_UPDATES
        } else {
            asked
        };
        match require_bus(has_bus) {
            Ok(_) => Ok((id.to_owned(), n)),
            Err(e) => Err(e),
        }
    }
}

/// Why a session is not told something, if it is not.
pub open spec fn tell_error(input: MessageSessionInput, has_bus: bool) -> Option<ErrorView> {
    if trimmed(input.session_id@).len() == 0 {
        Some(invalid_arguments("session_id must not be empty"@))
    } else if trimmed(input.message@).len() == 0 {
        Some(invalid_arguments("message must not be empty"@))
    } else if byte_len(trimmed(input.message@)) > MAX_SESSION_MESSAGE_BYTES {
        Some(invalid_arguments("message exceeds the 32768-byte limit"@))
    } else if !has_bus {
        Some(no_bus())
    } else {
        None
    }
}

impl MessageSessionTool {
    /// What the tool says of itself.
    pub fn metadata(&self) -> (r: ToolMetadata)
        ensures
            r@ == says("message_session"@, false, MESSAGE_SESSION_DESCRIPTION@),
    {
        ToolMetadata {
            id: "message_session",
            kind: ToolKind::AgentCollaboration,
            namespace: ToolNamespace::GrokBuild,
            read_only: false,
            description: MESSAGE_SESSION_DESCRIPTION,
        }
    }

    /// The session and the message, without white space at their ends.
    pub fn prepare(&self, input: &MessageSessionInput, has_bus: bool) -> (r: Result<
        (String, String),
        ToolError,
    >)
        ensures
            match (r, tell_error(*input, has_bus)) {
                (Ok((target, message)), None) => target@ == trimmed(input.session_id@) && message@
                    == trimmed(input.message@),
                (Err(e), Some(expected)) => e@ == expected,
                _ => false,
            },
    {
        let target: &str = trim(input.session_id.as_str());
        if target.is_empty() {
            return Err(ToolError::invalid_arguments("session_id must not be empty"));
        }
        let message: &str = trim(input.message.as_str());
        if message.is_empty() {
            return Err(ToolError::invalid_arguments("message must not be empty"));
        }
        if byte_count(message) > MAX_SESSION_MESSAGE_BYTES {
            return Err(ToolError::invalid_arguments("message exceeds the 32768-byte limit"));
        }
        match require_bus(has_bus) {
            Ok(_) => Ok((target.to_owned(), message.to_owned())),
            Err(e) => Err(e),
        }
    }

    /// What a call answers.
    pub fn answer(&self, target: String, status: MessageSessionStatus) -> (r: MessageSessionOutput)
        ensures
            r.target_session_id == target,
            r.status == status,
    {
        MessageSessionOutput { target_session_id: target, status }
    }
}

// ---- laws ----

/// Another session is read where it is named and there is a bus: the session of that
/// name, thirty updates unless the call says otherwise, from one to two hundred.
pub proof fn law_sessions_are_read_by_name(
    tool: &ReadSessionTool,
    input: &ReadSessionInput,
    has_bus: bool,
    r: Result<(String, usize), ToolError>,
)
    requires
        call_ensures(ReadSessionTool::prepare, (tool, input, has_bus), r),
    ensures
        r is Ok <==> trimmed(input.session_id@).len() > 0 && has_bus,
        r matches Ok((id, n)) ==> {
            &&& id@ == trimmed(input.session_id@)
            &&& 1 <= n <= 200
            &&& input.max_updates is None ==> n == 30
            &&& input.max_updates matches Some(m) ==> (1 <= m <= 200 ==> n == m)
        },
{
}

/// A message goes to the session that is named, as it was written but for its outer
/// white space, where it says something in at most 32768 bytes and there is a bus.
pub proof fn law_messages_go_to_the_named_session(
    tool: &MessageSessionTool,
    input: &MessageSessionInput,
    has_bus: bool,
    r: Result<(String, String), ToolError>,
)
    requires
        call_ensures(MessageSessionTool::prepare, (tool, input, has_bus), r),
    ensures
        r is Ok <==> trimmed(input.session_id@).len() > 0 && trimmed(input.message@).len() > 0
            && byte_len(trimmed(input.message@)) <= 32_768 && has_bus,
        r matches Ok((target, message)) ==> target@ == trimmed(input.session_id@) && message@
            == trimmed(input.message@),
{
}

/// The answer names the session that was addressed and how it took the message.
pub proof fn law_answers_name_the_session(
    tool: &MessageSessionTool,
    target: String,
    status: MessageSessionStatus,
    r: MessageSessionOutput,
)
    requires
        call_ensures(MessageSessionTool::answer, (tool, target, status), r),
    ensures
        r.target_session_id@ == target@,
        r.status == status,
{
}

} // verus!
