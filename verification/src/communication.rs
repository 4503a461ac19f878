//! Messages exchanged between agents and the responses they produce.

use vstd::prelude::*;
use crate::clock::{is_hyphenated_uuid, new_uuid_text, utc_now_timestamp};

verus! {

/// Types of messages between agents.
#[derive(Debug, Clone, Copy, PartialEq, Eq, Structural)]
pub enum MessageType {
    Chat,
    TaskRequest,
    TaskResponse,
    System,
}

/// A message sent between agents. Structured data is carried as JSON text.
#[derive(Debug)]
pub struct AgentMessage {
    pub message_id: String,
    pub from_agent_id: String,
    pub to_agent_id: String,
    pub content: String,
    pub data: Option<String>,
    pub message_type: MessageType,
    pub correlation_id: Option<String>,
    pub timestamp: i64,
}

/// A response to an agent message. Structured data is carried as JSON text.
#[derive(Debug)]
pub struct MessageResponse {
    pub in_response_to: String,
    pub content: String,
    pub data: Option<String>,
    pub success: bool,
    pub error: Option<String>,
    pub timestamp: i64,
}

impl AgentMessage {
    /// Creates a chat message with a fresh random identifier, stamped now.
    pub fn new_chat(from_agent_id: String, to_agent_id: String, content: String) -> (m: AgentMessage)
        ensures
            is_hyphenated_uuid(m.message_id@),
            m.from_agent_id == from_agent_id,
            m.to_agent_id == to_agent_id,
            m.content == content,
            m.data is None,
            m.message_type == MessageType::Chat,
            m.correlation_id is None,
    {
        AgentMessage {
            message_id: new_uuid_text(),
            from_agent_id,
            to_agent_id,
            content,
            data: None,
            message_type: MessageType::Chat,
            correlation_id: None,
            timestamp: utc_now_timestamp(),
        }
    }

    /// Creates a task request with fresh random message and correlation
    /// identifiers, stamped now.
    pub fn new_task_request(
        from_agent_id: String,
        to_agent_id: String,
        content: String,
        data: Option<String>,
    ) -> (m: AgentMessage)
        ensures
            is_hyphenated_uuid(m.message_id@),
            m.correlation_id is Some && is_hyphenated_uuid(m.correlation_id->0@),
            m.from_agent_id == from_agent_id,
            m.to_agent_id == to_agent_id,
            m.content == content,
            m.data == data,
            m.message_type == MessageType::TaskRequest,
    {
        let correlation_id = new_uuid_text();
        AgentMessage {
            message_id: new_uuid_text(),
            from_agent_id,
            to_agent_id,
            content,
            data,
            message_type: MessageType::TaskRequest,
            correlation_id: Some(correlation_id),
            timestamp: utc_now_timestamp(),
        }
    }
}

impl MessageResponse {
    /// A successful response, stamped now.
    pub fn success(in_response_to: String, content: String, data: Option<String>) -> (r: MessageResponse)
        ensures
            r.in_response_to == in_response_to,
            r.content == content,
            r.data == data,
            r.success,
            r.error is None,
    {
        MessageResponse { in_response_to, content, data, success: true, error: None, timestamp: utc_now_timestamp() }
    }

    /// An error response with empty content, stamped now.
    pub fn error(in_response_to: String, error_message: String) -> (r: MessageResponse)
        ensures
            r.in_response_to == in_response_to,
            r.content@ == Seq::<char>::empty(),
            r.data is None,
            !r.success,
            r.error == Some(error_message),
    {
        MessageResponse {
            in_response_to,
            content: String::new(),
            data: None,
            success: false,
            error: Some(error_message),
            timestamp: utc_now_timestamp(),
        }
    }
}

} // verus!
