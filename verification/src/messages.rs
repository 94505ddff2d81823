//! Data model of the conversation: roles, messages, tool calls and the
//! tool catalogue advertised to the model backend.

use vstd::prelude::*;

verus! {

/// Who authored a message in the transcript.
#[derive(Clone, Copy, PartialEq, Eq, Structural, Debug)]
pub enum MessageRole {
    System,
    Tool,
    Assistant,
    User,
}

/// The function a tool call refers to; `arguments` holds the raw JSON text
/// of the call's structured arguments.
#[derive(Clone, Debug)]
pub struct FunctionRef {
    pub name: String,
    pub arguments: String,
}

/// A single model-issued tool call.
#[derive(Clone, Debug)]
pub struct ToolCall {
    pub function: FunctionRef,
}

/// One message of the transcript. Once appended, a message is never mutated.
#[derive(Clone, Debug)]
pub struct ChatMessage {
    pub role: MessageRole,
    pub content: String,
    pub images: Option<Vec<String>>,
    pub tool_calls: Option<Vec<ToolCall>>,
}

impl ChatMessage {
    /// A plain message without images or tool calls.
    pub fn plain(role: MessageRole, content: String) -> (r: ChatMessage)
        ensures
            r.role == role,
            r.content == content,
            r.images is None,
            r.tool_calls is None,
    {
        ChatMessage { role, content, images: None, tool_calls: None }
    }
}

/// Schema of one callable operation, advertised to the model backend;
/// `parameters` holds the JSON-schema text of the expected arguments.
#[derive(Clone, Debug)]
pub struct FunctionDefinition {
    pub name: String,
    pub description: String,
    pub parameters: String,
}

/// Wraps a function schema into a tool catalogue entry.
#[derive(Clone, Debug)]
pub struct ToolDefinition {
    pub type_: String,
    pub function: FunctionDefinition,
}

/// Metadata-bearing reply of the backend's one-shot completion endpoint.
#[derive(Clone, Debug)]
pub struct GenerateResponse {
    pub model: String,
    pub created_at: String,
    pub response: String,
    pub done: bool,
    pub done_reason: Option<String>,
    pub context: Option<Vec<u32>>,
    pub total_duration: Option<u64>,
    pub load_duration: Option<u64>,
    pub prompt_eval_count: Option<u32>,
    pub prompt_eval_duration: Option<u64>,
    pub eval_count: Option<u32>,
    pub eval_duration: Option<u64>,
}

} // verus!
