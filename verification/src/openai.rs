//! OpenAI Chat Completions request and response types.
//!
//! Sampling parameters (`temperature`, `top_p`) are carried as the bit
//! pattern of their `f32` value: this library passes them through or drops
//! them and never computes with them.
use vstd::prelude::*;
use crate::json::Json;

verus! {

/// One part of a multi-part message content (`{"type": "text", "text": ...}`).
#[derive(Debug)]
pub struct ContentPart {
    pub part_type: String,
    pub text: Option<String>,
}

/// The `content` of a chat message.
#[derive(Debug)]
pub enum MessageContent {
    Text(String),
    Parts(Vec<ContentPart>),
    Null,
}

/// The `function` of a tool call.
#[derive(Debug)]
pub struct ToolCallFunction {
    pub name: String,
    pub arguments: String,
}

/// A tool call made by the assistant.
#[derive(Debug)]
pub struct ToolCall {
    pub id: String,
    pub call_type: String,
    pub function: ToolCallFunction,
}

/// A chat message.
#[derive(Debug)]
pub struct Message {
    pub role: String,
    pub content: MessageContent,
    pub tool_call_id: Option<String>,
    pub tool_calls: Option<Vec<ToolCall>>,
    pub name: Option<String>,
}

/// An inbound Chat Completions request.
#[derive(Debug)]
pub struct ChatCompletionRequest {
    pub model: String,
    pub messages: Vec<Message>,
    pub stream: bool,
    pub max_tokens: Option<u32>,
    /// Bit pattern of the `f32` temperature.
    pub temperature: Option<u32>,
    /// Bit pattern of the `f32` nucleus-sampling parameter.
    pub top_p: Option<u32>,
    pub stop: Option<Json>,
    pub system: Option<String>,
    pub user: Option<String>,
    pub tools: Option<Json>,
    pub tool_choice: Option<Json>,
    pub parallel_tool_calls: Option<bool>,
}

/// The assistant message of a non-streaming response.
#[derive(Debug)]
pub struct ResponseMessage {
    pub role: &'static str,
    pub content: Option<String>,
    pub tool_calls: Option<Vec<ToolCall>>,
}

/// One choice of a non-streaming response.
#[derive(Debug)]
pub struct Choice {
    pub index: u32,
    pub message: ResponseMessage,
    pub finish_reason: String,
}

/// Token accounting of a response.
#[derive(Debug)]
pub struct Usage {
    pub prompt_tokens: u32,
    pub completion_tokens: u32,
    pub total_tokens: u32,
}

/// A non-streaming Chat Completions response.
#[derive(Debug)]
pub struct ChatCompletionResponse {
    pub id: String,
    pub object: &'static str,
    pub created: u64,
    pub model: String,
    pub choices: Vec<Choice>,
    pub usage: Usage,
}

/// The mathematical form of a tool call: (id, type, name, arguments).
pub open spec fn tool_call_view(t: ToolCall) -> (Seq<char>, Seq<char>, Seq<char>, Seq<char>) {
    (t.id@, t.call_type@, t.function.name@, t.function.arguments@)
}

pub open spec fn tool_calls_view(v: Seq<ToolCall>) -> Seq<(Seq<char>, Seq<char>, Seq<char>, Seq<char>)> {
    v.map_values(|t: ToolCall| tool_call_view(t))
}

impl ToolCall {
    /// A copy of this tool call.
    pub fn copy(&self) -> (r: ToolCall)
        ensures
            tool_call_view(r) == tool_call_view(*self),
    {
        ToolCall {
            id: self.id.clone(),
            call_type: self.call_type.clone(),
            function: ToolCallFunction {
                name: self.function.name.clone(),
                arguments: self.function.arguments.clone(),
            },
        }
    }
}


/// `m` is a plain text message with the given role and text, and nothing else.
pub open spec fn is_plain_message(m: Message, role: Seq<char>, text: Seq<char>) -> bool {
    &&& m.role@ == role
    &&& (m.content matches MessageContent::Text(t) && t@ == text)
    &&& m.tool_call_id is None
    &&& m.tool_calls is None
    &&& m.name is None
}

} // verus!
