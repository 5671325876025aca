//! The versioned conversation IPC wire types. Their JSON forms (camelCase
//! field names, unknown fields refused) belong to the application shell.
use vstd::prelude::*;
use crate::provider::contract::{ConversationId, StreamEvent};

verus! {

pub const CONVERSATION_EVENT_NAME: &'static str = "conversation_event";

/// A request to send one message.
#[derive(Debug, PartialEq, Eq)]
pub struct ConversationSendRequest {
    pub contract_version: u32,
    pub message: String,
}

/// The answer to an accepted send or cancel.
#[derive(Debug, PartialEq, Eq)]
pub struct ConversationAccepted {
    pub contract_version: u32,
    pub conversation: ConversationId,
}

/// One neutral event of a conversation, as it is emitted to the frontend.
#[derive(Debug, PartialEq, Eq)]
pub struct ConversationEnvelope {
    pub contract_version: u32,
    pub conversation: ConversationId,
    pub event: StreamEvent,
}

} // verus!
