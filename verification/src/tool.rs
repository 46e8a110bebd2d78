//! What a tool says of itself, and the errors that a tool call ends in.
use vstd::prelude::*;
#[allow(unused_imports)]
use vstd::string::*;

#[allow(unused_imports)]
use crate::text::{option_view};

verus! {

/// The kinds of tools.
#[derive(Debug, Clone, Copy, PartialEq, Eq, Structural)]
pub enum ToolKind {
    Plan,
    Read,
    WebSearch,
    ImageGen,
    MemorySearch,
    AgentSwarm,
    AgentCollaboration,
    Workflow,
    Other,
}

/// The families of tools.
#[derive(Debug, Clone, Copy, PartialEq, Eq, Structural)]
pub enum ToolNamespace {
    GrokBuild,
    Codex,
}

/// What a tool says of itself.
#[derive(Debug, Clone, Copy)]
pub struct ToolMetadata {
    pub id: &'static str,
    pub kind: ToolKind,
    pub namespace: ToolNamespace,
    pub read_only: bool,
    pub description: &'static str,
}

/// What the metadata of a tool holds.
#[verifier::ext_equal]
pub struct MetadataView {
    pub id: Seq<char>,
    pub kind: ToolKind,
    pub namespace: ToolNamespace,
    pub read_only: bool,
    pub description: Seq<char>,
}

impl View for ToolMetadata {
    type V = MetadataView;

    open spec fn view(&self) -> MetadataView {
        MetadataView {
            id: self.id@,
            kind: self.kind,
            namespace: self.namespace,
            read_only: self.read_only,
            description: self.description@,
        }
    }
}

/// The kinds of errors that a tool call ends in.
#[derive(Debug, Clone, Copy, PartialEq, Eq, Structural)]
pub enum ToolErrorKind {
    InvalidArguments,
    Execution,
    Unauthorized,
    Custom,
}

/// The error that a tool call ends in.
#[derive(Debug, Clone)]
pub struct ToolError {
    pub kind: ToolErrorKind,
    /// The code of a custom error; empty for the others.
    pub code: String,
    pub message: String,
    /// The tool that failed, where the error names it.
    pub tool_id: Option<String>,
    /// The HTTP status behind the error, where there is one.
    pub status: Option<u16>,
}

/// What an error holds.
#[verifier::ext_equal]
pub struct ErrorView {
    pub kind: ToolErrorKind,
    pub code: Seq<char>,
    pub message: Seq<char>,
    pub tool_id: Option<Seq<char>>,
    pub status: Option<u16>,
}

impl View for ToolError {
    type V = ErrorView;

    open spec fn view(&self) -> ErrorView {
        ErrorView {
            kind: self.kind,
            code: self.code@,
            message: self.message@,
            tool_id: option_view(self.tool_id),
            status: self.status,
        }
    }
}

/// An error about the arguments.
pub open spec fn invalid_arguments(message: Seq<char>) -> ErrorView {
    ErrorView {
        kind: ToolErrorKind::InvalidArguments,
        code: Seq::empty(),
        message,
        tool_id: None,
        status: None,
    }
}

/// An error in the execution of a tool.
pub open spec fn execution_error(tool: Seq<char>, message: Seq<char>) -> ErrorView {
    ErrorView {
        kind: ToolErrorKind::Execution,
        code: Seq::empty(),
        message,
        tool_id: Some(tool),
        status: None,
    }
}

/// An error of authentication in a tool, with the status that told of it.
pub open spec fn unauthorized(tool: Seq<char>, status: u16, message: Seq<char>) -> ErrorView {
    ErrorView {
        kind: ToolErrorKind::Unauthorized,
        code: Seq::empty(),
        message,
        tool_id: Some(tool),
        status: Some(status),
    }
}

/// An error with a code of its own.
pub open spec fn custom_error(code: Seq<char>, message: Seq<char>) -> ErrorView {
    ErrorView { kind: ToolErrorKind::Custom, code, message, tool_id: None, status: None }
}

/// An error with a code of its own and an HTTP status.
pub open spec fn status_failure(code: Seq<char>, status: u16, message: Seq<char>) -> ErrorView {
    ErrorView { status: Some(status), ..custom_error(code, message) }
}

impl ToolError {
    /// An error about the arguments.
    pub fn invalid_arguments(message: &str) -> (r: ToolError)
        ensures
            r@ == invalid_arguments(message@),
    {
        ToolError {
            kind: ToolErrorKind::InvalidArguments,
            code: String::new(),
            message: message.to_owned(),
            tool_id: None,
            status: None,
        }
    }

    /// An error in the execution of a tool.
    pub fn execution(tool: &str, message: &str) -> (r: ToolError)
        ensures
            r@ == execution_error(tool@, message@),
    {
        ToolError {
            kind: ToolErrorKind::Execution,
            code: String::new(),
            message: message.to_owned(),
            tool_id: Some(tool.to_owned()),
            status: None,
        }
    }

    /// An error of authentication in a tool.
    pub fn unauthorized(tool: &str, status: u16, message: &str) -> (r: ToolError)
        ensures
            r@ == unauthorized(tool@, status, message@),
    {
        ToolError {
            kind: ToolErrorKind::Unauthorized,
            code: String::new(),
            message: message.to_owned(),
            tool_id: Some(tool.to_owned()),
            status: Some(status),
        }
    }

    /// An error with a code of its own.
    pub fn custom(code: &str, message: &str) -> (r: ToolError)
        ensures
            r@ == custom_error(code@, message@),
    {
        ToolError {
            kind: ToolErrorKind::Custom,
            code: code.to_owned(),
            message: message.to_owned(),
            tool_id: None,
            status: None,
        }
    }

    /// An error with a code of its own and an HTTP status.
    pub fn status_failure(code: &str, status: u16, message: &str) -> (r: ToolError)
        ensures
            r@ == status_failure(code@, status, message@),
    {
        ToolError {
            kind: ToolErrorKind::Custom,
            code: code.to_owned(),
            message: message.to_owned(),
            tool_id: None,
            status: Some(status),
        }
    }
}

/// An error says what it is: its kind, its message, the tool and the status that it
/// names, and a code of its own where it has one.
pub proof fn law_errors_say_what_they_are(
    tool: Seq<char>,
    code: Seq<char>,
    message: Seq<char>,
    status: u16,
)
    ensures
        invalid_arguments(message).kind == ToolErrorKind::InvalidArguments,
        invalid_arguments(message).message == message,
        execution_error(tool, message).kind == ToolErrorKind::Execution,
        execution_error(tool, message).message == message,
        execution_error(tool, message).tool_id == Some(tool),
        unauthorized(tool, status, message).kind == ToolErrorKind::Unauthorized,
        unauthorized(tool, status, message).status == Some(status),
        unauthorized(tool, status, message).message == message,
        custom_error(code, message).kind == ToolErrorKind::Custom,
        custom_error(code, message).code == code,
        custom_error(code, message).message == message,
        status_failure(code, status, message).code == code,
        status_failure(code, status, message).status == Some(status),
        status_failure(code, status, message).message == message,
{
}

} // verus!
