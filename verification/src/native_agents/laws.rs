//! What holds of the tools of a native team, said of what goes in and what comes out.
use vstd::prelude::*;
#[allow(unused_imports)]
use vstd::string::*;

#[allow(unused_imports)]
use crate::coordinator::types::{AgentMailboxIdentity, AgentMailboxMessage, AgentMailboxMessageKind};
#[allow(unused_imports)]
use crate::native_agents::tools::{
    MessageInput, NativeAgentOperation, NativeAgentsEnabled, SpawnAgentInput, SpawnPlan,
    SubagentContextMode, WaitInput, fork_mode, good_task_name, message, message_at, native_access,
    plan_followup, plan_send, plan_spawn, plan_wait, spawn_error, task_char,
};
#[allow(unused_imports)]
use crate::native_agents::user_message::{
    AsyncUserMessage, AsyncUserMessagesEnabled, SendUserMessageAsyncInput,
    SendUserMessageAsyncOutput, SendUserMessageAsyncTool,
};
#[allow(unused_imports)]
use crate::native_agents::wire::{
    Fields, NativeMessageEncryption, count_at, decoded, encoded, private_arguments, text_at,
    to_encode, travels_encrypted,
};
#[allow(unused_imports)]
use crate::text::{blank, byte_len, has_prefix, has_suffix, option_view, trimmed, unsigned_value};
#[allow(unused_imports)]
use crate::tool::{ToolError};

verus! {

/// A message that is sent is what was written: its text, its sender and its team are
/// those of the call, and its kind is that of the tool. A blank one and one of more
/// than 32768 bytes are refused.
pub proof fn law_messages_say_what_was_written(
    identity: &AgentMailboxIdentity,
    body: String,
    kind: AgentMailboxMessageKind,
    encryption: Option<NativeMessageEncryption>,
    call_id: &str,
    id: &str,
    created_at_ms: u64,
    r: Result<AgentMailboxMessage, ToolError>,
)
    requires
        call_ensures(
            message_at,
            (identity, body, kind, encryption, call_id, id, created_at_ms),
            r,
        ),
    ensures
        r is Ok <==> !blank(body@) && byte_len(body@) <= 32_768,
        r matches Ok(m) ==> {
            &&& m.body@ == body@
            &&& m.from_agent_id@ == identity.agent_id@
            &&& m.team_scope_id@ == identity.team_scope_id@
            &&& m.kind == kind
            &&& m.created_at_ms == created_at_ms
            &&& has_suffix(m.message_id@, id@)
            &&& m.native is Some
            &&& encryption matches Some(e) ==> m.native->0.encrypted == e.0
        },
{
    if let Ok(m) = r {
        let head = "amsg_"@;
        assert((head + id@).subrange(head.len() as int, (head + id@).len() as int) =~= id@);
    }
}

/// What is sent to an agent goes to the agent that was named, as a message that steers
/// it, with the text of the call.
pub proof fn law_sends_go_to_their_target(
    identity: &AgentMailboxIdentity,
    input: MessageInput,
    encryption: Option<NativeMessageEncryption>,
    call_id: &str,
    r: Result<NativeAgentOperation, ToolError>,
)
    requires
        call_ensures(plan_send, (identity, input, encryption, call_id), r),
    ensures
        r is Ok <==> !blank(input.message@) && byte_len(input.message@) <= 32_768,
        r matches Ok(op) ==> (op matches NativeAgentOperation::Message { target, message } && {
            &&& target@ == input.target@
            &&& message.body@ == input.message@
            &&& message.from_agent_id@ == identity.agent_id@
            &&& message.team_scope_id@ == identity.team_scope_id@
            &&& message.kind == AgentMailboxMessageKind::NativeMessage
        }),
{
}

/// Work for an agent goes to the agent that was named, with the text of the call; where
/// the root sends it, it knows the prompt that it comes from.
pub proof fn law_followups_go_to_their_target(
    identity: &AgentMailboxIdentity,
    input: MessageInput,
    encryption: Option<NativeMessageEncryption>,
    call_id: &str,
    prompt_id: Option<String>,
    r: Result<NativeAgentOperation, ToolError>,
)
    requires
        call_ensures(plan_followup, (identity, input, encryption, call_id, prompt_id), r),
    ensures
        r is Ok <==> !blank(input.message@) && byte_len(input.message@) <= 32_768,
        r matches Ok(op) ==> (op matches NativeAgentOperation::Message { target, message } && {
            &&& target@ == input.target@
            &&& message.body@ == input.message@
            &&& message.from_agent_id@ == identity.agent_id@
            &&& message.kind == AgentMailboxMessageKind::NativeFollowup
            &&& message.native is Some
            &&& identity.agent_id@ == identity.team_scope_id@
                ==> message.native->0.trigger_prompt_id == prompt_id
            &&& identity.agent_id@ != identity.team_scope_id@
                ==> message.native->0.trigger_prompt_id is None
        }),
{
}

/// A named agent is spawned as it was asked for: under its name, of its type, with its
/// model and effort, and with the message of the call as its work.
pub proof fn law_spawns_carry_their_work(
    identity: &AgentMailboxIdentity,
    input: SpawnAgentInput,
    encryption: Option<NativeMessageEncryption>,
    call_id: &str,
    r: Result<SpawnPlan, ToolError>,
)
    requires
        call_ensures(plan_spawn, (identity, input, encryption, call_id), r),
    ensures
        r is Ok ==> !blank(input.message@) && byte_len(input.message@) <= 32_768,
        r matches Ok(p) ==> {
            &&& p.task_name@ == input.task_name@
            &&& p.message.body@ == input.message@
            &&& p.message.kind == AgentMailboxMessageKind::NativeFollowup
            &&& p.message.from_agent_id@ == identity.agent_id@
            &&& p.model == input.model
            &&& p.reasoning_effort == input.reasoning_effort
            &&& p.service_tier == input.service_tier
            &&& input.agent_type is Some ==> p.subagent_type@ == input.agent_type->0@
            &&& input.agent_type is None ==> p.subagent_type@ == "general-purpose"@
            &&& input.fork_turns is None ==> p.context == SubagentContextMode::Fork
                && p.fork_turns is None
            &&& input.fork_turns is Some && input.fork_turns->0@ == "none"@ ==> p.context
                == SubagentContextMode::Fresh
        },
{
    reveal_strlit("none");
    reveal_strlit("all");
    assert("none"@.len() == 4 && "all"@.len() == 3);
}

/// What an agent knows of its parent: nothing, all, or as many turns as were named.
pub proof fn law_forks_are_named(value: Option<Seq<char>>)
    ensures
        fork_mode(value) matches Ok((mode, turns)) ==> {
            &&& mode == SubagentContextMode::Fresh <==> value == Some("none"@)
            &&& turns is Some ==> value is Some && unsigned_value(value->0) == turns && turns->0
                > 0
            &&& mode == SubagentContextMode::Fork && turns is None ==> value is None || value
                == Some("all"@)
        },
        value == Some("none"@) || value == Some("all"@) || value is None ==> fork_mode(value) is Ok,
{
    reveal_strlit("none");
    reveal_strlit("all");
    assert("none"@.len() == 4 && "all"@.len() == 3);
}

/// The names that an agent may have: lower case letters, digits and underscores, at
/// most 64, and not that of the root.
pub proof fn law_names_are_plain(name: Seq<char>)
    ensures
        good_task_name(name) <==> {
            &&& 0 < name.len() <= 64
            &&& name != "root"@
            &&& forall|i: int|
                0 <= i < name.len() ==> ('a' <= (#[trigger] name[i]) <= 'z') || ('0' <= name[i]
                    <= '9') || name[i] == '_'
        },
{
    if good_task_name(name) {
        assert forall|i: int| 0 <= i < name.len() implies ('a' <= (#[trigger] name[i]) <= 'z') || (
        '0' <= name[i] <= '9') || name[i] == '_' by {
            assert(task_char(name[i]));
        }
    }
}

/// What may be spawned: a good fork, a message that says something, and a good name.
pub proof fn law_what_may_be_spawned(input: SpawnAgentInput)
    ensures
        spawn_error(input) is None <==> fork_mode(option_view(input.fork_turns)) is Ok && !blank(
            input.message@,
        ) && byte_len(input.message@) <= 32_768 && good_task_name(input.task_name@),
{
}

/// A call whose id carries nothing counts as encrypted; one that carries how many of its
/// arguments are encrypted counts as that says.
pub proof fn law_encryption_is_what_the_id_carries(call_id: Seq<char>, name: Seq<char>)
    ensures
        decoded(call_id) is None ==> travels_encrypted(call_id) && !private_arguments(
            call_id,
            name,
        ),
        decoded(call_id) matches Some((_, fields)) ==> {
            let n = count_at(fields, "encrypted_function_args"@);
            &&& travels_encrypted(call_id) <==> n != Some(0nat)
            &&& n is Some ==> (private_arguments(call_id, name) <==> n->0 > 0)
            &&& n is None ==> (private_arguments(call_id, name) <==> name == "spawn_agent"@ || name
                == "send_message"@ || name == "followup_task"@)
        },
{
}

/// A call is given an id that carries its fields exactly where it is a call of a native
/// tool, or has encrypted arguments, and its id carries nothing yet. Nothing but the id
/// changes.
pub proof fn law_native_calls_carry_their_fields(item: Fields)
    ensures
        to_encode(item) <==> {
            let name = text_at(item, "name"@);
            let n = count_at(item, "encrypted_function_args"@);
            &&& text_at(item, "type"@) == Some("function_call"@)
            &&& text_at(item, "call_id"@) is Some
            &&& decoded(text_at(item, "call_id"@)->0) is None
            &&& name == Some("spawn_agent"@) || name == Some("send_message"@) || name == Some(
                "followup_task"@,
            ) || name == Some("list_agents"@) || name == Some("wait_agent"@) || name == Some(
                "interrupt_agent"@,
            ) || (n is Some && n->0 > 0)
        },
        !to_encode(item) ==> encoded(item) == item,
{
}

/// What an id carries is found only behind its mark.
pub proof fn law_plain_ids_carry_nothing(id: Seq<char>)
    requires
        !has_prefix(id, "__codex_function_call__"@),
    ensures
        decoded(id) is None,
{
}

/// Who may use the tools of a team: a session for which they are enabled, with a backend
/// and an identity.
pub proof fn law_tools_need_an_identity(
    enabled: Option<NativeAgentsEnabled>,
    has_backend: bool,
    identity: Option<AgentMailboxIdentity>,
    r: Result<AgentMailboxIdentity, ToolError>,
)
    requires
        call_ensures(native_access, (enabled, has_backend, identity), r),
    ensures
        r is Ok <==> enabled == Some(NativeAgentsEnabled(true)) && has_backend && identity is Some,
        r matches Ok(i) ==> identity == Some(i),
{
}

/// A message to the user is delivered without its outer white space, under the call that
/// sent it, and refused where it says nothing, is not enabled or cannot be delivered.
pub proof fn law_user_messages_are_delivered(
    tool: &SendUserMessageAsyncTool,
    input: &SendUserMessageAsyncInput,
    call_id: &str,
    enabled: Option<AsyncUserMessagesEnabled>,
    deliverable: bool,
    r: Result<(AsyncUserMessage, SendUserMessageAsyncOutput), ToolError>,
)
    requires
        call_ensures(
            SendUserMessageAsyncTool::prepare,
            (tool, input, call_id, enabled, deliverable),
            r,
        ),
    ensures
        r is Ok <==> trimmed(input.message@).len() > 0 && enabled == Some(
            AsyncUserMessagesEnabled(true),
        ) && deliverable,
        r matches Ok((m, out)) ==> m.message@ == trimmed(input.message@) && m.tool_call_id@
            == call_id@ && out.accepted,
{
}

/// A wait takes as long as it says, and half a minute where it says nothing.
pub proof fn law_waits_take_their_time(input: WaitInput, r: NativeAgentOperation)
    requires
        call_ensures(plan_wait, (input,), r),
    ensures
        r matches NativeAgentOperation::Wait { timeout_ms } && (input.timeout_ms matches Some(t)
            ==> timeout_ms == t) && (input.timeout_ms is None ==> timeout_ms == 30_000),
{
}

} // verus!
