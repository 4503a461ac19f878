//! Chat message representation shared by the LLM service and the agents,
//! and the decisions the service makes when it builds a request.

use vstd::prelude::*;
use crate::text::{push_str, string_from_chars};

verus! {

/// Response from a tool execution.
#[derive(Debug)]
pub struct ToolResponse {
    pub tool_name: String,
    pub content: String,
    pub call_id: Option<String>,
}

impl ToolResponse {
    /// Creates a tool response without a call identifier.
    pub fn new(tool_name: String, content: String) -> (r: ToolResponse)
        ensures
            r.tool_name == tool_name,
            r.content == content,
            r.call_id is None,
    {
        ToolResponse { tool_name, content, call_id: None }
    }

    /// Creates a tool response with a call identifier.
    pub fn with_call_id(tool_name: String, content: String, call_id: String) -> (r: ToolResponse)
        ensures
            r.tool_name == tool_name,
            r.content == content,
            r.call_id == Some(call_id),
    {
        ToolResponse { tool_name, content, call_id: Some(call_id) }
    }
}

/// A chat message.
#[derive(Debug)]
pub enum InternalChatMessage {
    System { content: String },
    User { content: String },
    Assistant { content: String, tool_responses: Option<Vec<ToolResponse>> },
    Tool { tool_name: String, content: String, call_id: Option<String> },
}

/// A chunk of text from a streaming response.
#[derive(Debug)]
pub struct ChatStreamChunk {
    pub content: String,
}

/// The role of a message sent to the model.
#[derive(Debug, Clone, Copy, PartialEq, Eq, Structural)]
pub enum ModelRole {
    System,
    User,
    Assistant,
}

/// The content text of a message.
pub open spec fn message_content(m: InternalChatMessage) -> Seq<char> {
    match m {
        InternalChatMessage::System { content } => content@,
        InternalChatMessage::User { content } => content@,
        InternalChatMessage::Assistant { content, .. } => content@,
        InternalChatMessage::Tool { content, .. } => content@,
    }
}

/// How a message is sent to the model: tool results go as assistant
/// messages prefixed with `Tool result: `.
pub open spec fn model_message(m: InternalChatMessage) -> (ModelRole, Seq<char>) {
    match m {
        InternalChatMessage::System { content } => (ModelRole::System, content@),
        InternalChatMessage::User { content } => (ModelRole::User, content@),
        InternalChatMessage::Assistant { content, .. } => (ModelRole::Assistant, content@),
        InternalChatMessage::Tool { content, .. } => (ModelRole::Assistant, "Tool result: "@ + content@),
    }
}

impl InternalChatMessage {
    /// The role and text with which this message is sent to the model.
    pub fn to_model_message(&self) -> (r: (ModelRole, String))
        ensures
            (r.0, r.1@) == model_message(*self),
    {
        match self {
            InternalChatMessage::System { content } => (ModelRole::System, content.clone()),
            InternalChatMessage::User { content } => (ModelRole::User, content.clone()),
            InternalChatMessage::Assistant { content, .. } => (ModelRole::Assistant, content.clone()),
            InternalChatMessage::Tool { content, .. } => {
                let mut out: Vec<char> = Vec::new();
                push_str(&mut out, "Tool result: ");
                push_str(&mut out, content.as_str());
                (ModelRole::Assistant, string_from_chars(out.as_slice()))
            },
        }
    }

    /// The content text of this message.
    pub fn content_text(&self) -> (s: String)
        ensures
            s@ == message_content(*self),
    {
        match self {
            InternalChatMessage::System { content } => content.clone(),
            InternalChatMessage::User { content } => content.clone(),
            InternalChatMessage::Assistant { content, .. } => content.clone(),
            InternalChatMessage::Tool { content, .. } => content.clone(),
        }
    }
}

/// The system prompt is added to a request only when the service has one
/// and the conversation holds no system message.
pub open spec fn adds_system_prompt(has_prompt: bool, messages: Seq<InternalChatMessage>) -> bool {
    has_prompt && !(exists|i: int| 0 <= i < messages.len() && (#[trigger] messages[i]) is System)
}

/// Decides whether the service's system prompt goes into a request.
pub fn should_add_system_prompt(has_prompt: bool, messages: &[InternalChatMessage]) -> (b: bool)
    ensures
        b == adds_system_prompt(has_prompt, messages@),
{
    if !has_prompt {
        return false;
    }
    let mut i: usize = 0;
    while i < messages.len()
        invariant
            i <= messages@.len(),
            forall|j: int| 0 <= j < i ==> !((#[trigger] messages@[j]) is System),
        decreases messages@.len() - i,
    {
        match &messages[i] {
            InternalChatMessage::System { .. } => {
                return false;
            },
            _ => {},
        }
        i = i + 1;
    }
    true
}

/// The content of the last message, or the empty text when there is none.
pub open spec fn last_content(messages: Seq<InternalChatMessage>) -> Seq<char> {
    if messages.len() == 0 {
        seq![]
    } else {
        message_content(messages.last())
    }
}

/// The content of the last message of a conversation, or an empty string.
pub fn last_message_content(messages: &[InternalChatMessage]) -> (s: String)
    ensures
        s@ == last_content(messages@),
{
    if messages.len() == 0 {
        String::new()
    } else {
        messages[messages.len() - 1].content_text()
    }
}

/// Position of the first tool named `name` in a list of tool names.
pub open spec fn first_index_of_name(names: Seq<Seq<char>>, name: Seq<char>, n: nat) -> Option<nat>
    decreases n,
{
    if n == 0 {
        None
    } else {
        match first_index_of_name(names, name, (n - 1) as nat) {
            Some(k) => Some(k),
            None => if names[n - 1] == name {
                Some((n - 1) as nat)
            } else {
                None
            },
        }
    }
}

proof fn lemma_first_index_stable(names: Seq<Seq<char>>, name: Seq<char>, n: nat, m: nat)
    requires
        n <= m,
        first_index_of_name(names, name, n) is Some,
    ensures
        first_index_of_name(names, name, m) == first_index_of_name(names, name, n),
    decreases m,
{
    if n < m {
        lemma_first_index_stable(names, name, n, (m - 1) as nat);
    }
}

/// Removes the first tool named `tool_name` from a list of tool names;
/// fails with `Tool not found: <name>` when there is none.
pub fn remove_tool(tools: &mut Vec<String>, tool_name: &str) -> (r: Result<(), String>)
    ensures
        match first_index_of_name(crate::agents_api::texts(old(tools)@), tool_name@, old(tools)@.len()) {
            Some(k) => r is Ok && final(tools)@ == old(tools)@.remove(k as int),
            None => r is Err && r->Err_0@ == "Tool not found: "@ + tool_name@ && final(tools)@ == old(tools)@,
        },
{
    let ghost names = crate::agents_api::texts(tools@);
    let mut i: usize = 0;
    while i < tools.len()
        invariant
            i <= tools@.len(),
            tools@ == old(tools)@,
            names == crate::agents_api::texts(tools@),
            first_index_of_name(names, tool_name@, i as nat) is None,
        decreases tools@.len() - i,
    {
        if crate::text::str_eq(tools[i].as_str(), tool_name) {
            assert(names[i as int] == tool_name@);
            proof {
                assert(first_index_of_name(names, tool_name@, (i + 1) as nat) == Some(i as nat));
                lemma_first_index_stable(names, tool_name@, (i + 1) as nat, tools@.len());
            }
            tools.remove(i);
            return Ok(());
        }
        i = i + 1;
    }
    let mut out: Vec<char> = Vec::new();
    push_str(&mut out, "Tool not found: ");
    push_str(&mut out, tool_name);
    Err(string_from_chars(out.as_slice()))
}

} // verus!
