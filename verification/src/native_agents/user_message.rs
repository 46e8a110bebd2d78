//! Messages to the user that do not end the turn.
use vstd::prelude::*;
#[allow(unused_imports)]
use vstd::string::*;

#[allow(unused_imports)]
use crate::text::{trim, trimmed};
#[allow(unused_imports)]
use crate::tool::{
    ErrorView, MetadataView, ToolError, ToolKind, ToolMetadata, ToolNamespace, custom_error,
};

verus! {

/// The name of the tool.
pub const TOOL_NAME: &'static str = "send_user_message_async";

/// The key under which such a message is marked.
pub const ASYNC_USER_MESSAGE_META_KEY: &'static str = "x.ai/async_user_message";

/// What the tool says of itself.
pub const USER_MESSAGE_DESCRIPTION: &'static str =
    "Send a concise acknowledgment, important update, or question to the user without ending the turn or waiting for an answer. Returns immediately; any reply arrives asynchronously as a new user message.";

/// Whether such messages are on in a session.
#[derive(Debug, Clone, Copy, PartialEq, Eq, Structural)]
pub struct AsyncUserMessagesEnabled(pub bool);

/// What to tell the user.
#[derive(Debug)]
pub struct SendUserMessageAsyncInput {
    pub message: String,
}

/// That the message is on its way.
#[derive(Debug, Clone, Copy, PartialEq, Eq, Structural)]
pub struct SendUserMessageAsyncOutput {
    pub accepted: bool,
}

/// A message to the user.
#[derive(Debug)]
pub struct AsyncUserMessage {
    pub tool_call_id: String,
    pub message: String,
}

/// The tool.
#[derive(Debug, Default, Clone, Copy)]
pub struct SendUserMessageAsyncTool;

/// Why a message is refused, if it is.
pub open spec fn message_error(
    message: Seq<char>,
    enabled: Option<AsyncUserMessagesEnabled>,
    deliverable: bool,
) -> Option<ErrorView> {
    if trimmed(message).len() == 0 {
        Some(custom_error("invalid_message"@, "message must not be empty"@))
    } else if enabled != Some(AsyncUserMessagesEnabled(true)) {
        Some(
            custom_error(
                "tool_unavailable"@,
                "Asynchronous user messages are not enabled for this session"@,
            ),
        )
    } else if !deliverable {
        Some(custom_error("delivery_unavailable"@, "User message delivery is not available"@))
    } else {
        None
    }
}

impl SendUserMessageAsyncTool {
    /// What the tool says of itself.
    pub fn metadata(&self) -> (r: ToolMetadata)
        ensures
            r@ == (MetadataView {
                id: TOOL_NAME@,
                kind: ToolKind::Other,
                namespace: ToolNamespace::Codex,
                read_only: true,
                description: USER_MESSAGE_DESCRIPTION@,
            }),
    {
        ToolMetadata {
            id: TOOL_NAME,
            kind: ToolKind::Other,
            namespace: ToolNamespace::Codex,
            read_only: true,
            description: USER_MESSAGE_DESCRIPTION,
        }
    }

    /// The message to deliver, without white space at its ends, and what the
    /// call answers then.
    pub fn prepare(
        &self,
        input: &SendUserMessageAsyncInput,
        call_id: &str,
        enabled: Option<AsyncUserMessagesEnabled>,
        deliverable: bool,
    ) -> (r: Result<(AsyncUserMessage, SendUserMessageAsyncOutput), ToolError>)
        ensures
            match (r, message_error(input.message@, enabled, deliverable)) {
                (Ok((m, out)), None) => {
                    &&& m.tool_call_id@ == call_id@
                    &&& m.message@ == trimmed(input.message@)
                    &&& out.accepted
                },
                (Err(e), Some(expected)) => e@ == expected,
                _ => false,
            },
    {
        let message: &str = trim(input.message.as_str());
        if message.is_empty() {
            return Err(ToolError::custom("invalid_message", "message must not be empty"));
        }
        let on: bool = match enabled {
            Some(e) => e.0,
            None => false,
        };
        if !on {
            return Err(
                ToolError::custom(
                    "tool_unavailable",
                    "Asynchronous user messages are not enabled for this session",
                ),
            );
        }
        if !deliverable {
            return Err(
                ToolError::custom("delivery_unavailable", "User message delivery is not available"),
            );
        }
        Ok(
            (
                AsyncUserMessage { tool_call_id: call_id.to_owned(), message: message.to_owned() },
                SendUserMessageAsyncOutput { accepted: true },
            ),
        )
    }
}

} // verus!
