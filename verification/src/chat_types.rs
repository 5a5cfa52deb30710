//! Chat Completions API data structures, held as plain values. Wire
//! (de)serialisation of these types lives with the program around the library.

use vstd::prelude::*;
use crate::json::{JsonV, JsonValue};

verus! {

/// The role of a message author.
#[derive(Debug, Clone, Copy, PartialEq, Eq, Structural)]
pub enum ChatMessageRole {
    System,
    User,
    Assistant,
    Tool,
}

/// The type of a tool. Only functions exist.
#[derive(Debug, Clone, Copy, PartialEq, Eq, Structural)]
pub enum ChatToolType {
    Function,
}

/// Reason why the model stopped generating.
#[derive(Debug, Clone, Copy, PartialEq, Eq, Structural)]
pub enum FinishReason {
    Stop,
    ToolCalls,
    Length,
    ContentFilter,
}

/// Function call details.
#[derive(Debug, PartialEq)]
pub struct ChatFunctionCall {
    pub name: String,
    /// JSON text of the arguments.
    pub arguments: String,
}

/// A tool call made by the model.
#[derive(Debug, PartialEq)]
pub struct ChatToolCall {
    pub id: String,
    pub tool_type: ChatToolType,
    pub function: ChatFunctionCall,
}

/// A message in the chat conversation.
#[derive(Debug, PartialEq)]
pub struct ChatMessage {
    pub role: ChatMessageRole,
    pub content: Option<String>,
    pub tool_calls: Option<Vec<ChatToolCall>>,
    pub tool_call_id: Option<String>,
    pub name: Option<String>,
}

/// Content that can be in a chat message.
#[derive(Debug, PartialEq)]
pub enum ChatMessageContent {
    Text(String),
    Structured { role: ChatMessageRole, content: String },
}

/// Function definition for a tool.
#[derive(Debug, PartialEq)]
pub struct ChatFunction {
    pub name: String,
    pub description: Option<String>,
    /// JSON Schema of the parameters.
    pub parameters: Option<JsonValue>,
    pub strict: Option<bool>,
}

/// A tool definition that the model can call.
#[derive(Debug, PartialEq)]
pub struct ChatTool {
    pub tool_type: ChatToolType,
    pub function: ChatFunction,
}

/// Name of a function to call.
#[derive(Debug, PartialEq)]
pub struct ChatFunctionChoice {
    pub name: String,
}

/// Required function configuration.
#[derive(Debug, PartialEq)]
pub struct ChatRequiredFunction {
    pub function: ChatFunctionChoice,
}

/// Controls which tool to call, if any.
#[derive(Debug, PartialEq)]
pub enum ChatToolChoice {
    Auto,
    /// The model will not call any tool (`"none"` on the wire).
    NoTool,
    Required(ChatRequiredFunction),
    Specific { tool_type: ChatToolType, function: ChatFunctionChoice },
}

/// Stop sequences for completion.
#[derive(Debug, PartialEq)]
pub enum ChatStop {
    Single(String),
    Multiple(Vec<String>),
}

/// Request payload for creating a chat completion: the members that the
/// conversions read. (Sampling parameters travel only on the wire.)
#[derive(Debug, PartialEq)]
pub struct ChatCompletionRequest {
    pub model: String,
    pub messages: Vec<ChatMessage>,
    pub stream: Option<bool>,
    pub max_tokens: Option<u32>,
    pub max_completion_tokens: Option<u32>,
    pub tools: Option<Vec<ChatTool>>,
    pub tool_choice: Option<ChatToolChoice>,
    pub stop: Option<ChatStop>,
}

/// Token usage information.
#[derive(Debug, PartialEq)]
pub struct ChatUsage {
    pub prompt_tokens: u32,
    pub completion_tokens: u32,
    pub total_tokens: u32,
    pub prompt_tokens_details: Option<JsonValue>,
    pub completion_tokens_details: Option<JsonValue>,
}

/// A completion choice.
#[derive(Debug, PartialEq)]
pub struct ChatChoice {
    pub index: u32,
    pub message: ChatMessage,
    pub finish_reason: FinishReason,
    pub logprobs: Option<JsonValue>,
}

/// Non-streaming chat completion response.
#[derive(Debug, PartialEq)]
pub struct ChatCompletionResponse {
    pub id: String,
    pub object: String,
    pub created: u64,
    pub model: String,
    pub choices: Vec<ChatChoice>,
    pub usage: Option<ChatUsage>,
    pub service_tier: Option<String>,
    pub system_fingerprint: Option<String>,
}

/// Delta for function call details during streaming.
#[derive(Debug, PartialEq)]
pub struct ChatFunctionCallDelta {
    pub name: Option<String>,
    pub arguments: Option<String>,
}

/// Delta for a tool call during streaming.
#[derive(Debug, PartialEq)]
pub struct ChatToolCallDelta {
    pub index: u32,
    pub id: Option<String>,
    pub tool_type: Option<ChatToolType>,
    pub function: Option<ChatFunctionCallDelta>,
}

/// Delta message update for streaming.
#[derive(Debug, PartialEq)]
pub struct ChatMessageDelta {
    pub role: Option<ChatMessageRole>,
    pub content: Option<String>,
    pub tool_calls: Option<Vec<ChatToolCallDelta>>,
    pub context: Option<JsonValue>,
}

/// A choice in a streaming chunk.
#[derive(Debug, PartialEq)]
pub struct ChatChunkChoice {
    pub index: u32,
    pub delta: ChatMessageDelta,
    pub finish_reason: Option<FinishReason>,
    pub logprobs: Option<JsonValue>,
}

/// Streaming chunk for chat completion.
#[derive(Debug, PartialEq)]
pub struct ChatCompletionChunk {
    pub id: String,
    pub object: String,
    pub created: u64,
    pub model: String,
    pub choices: Vec<ChatChunkChoice>,
    pub usage: Option<ChatUsage>,
    pub service_tier: Option<String>,
    pub system_fingerprint: Option<String>,
}

// ---------------------------------------------------------------------------
// Mathematical models
// ---------------------------------------------------------------------------

pub struct ChatFunctionCallV {
    pub name: Seq<char>,
    pub arguments: Seq<char>,
}

pub struct ChatToolCallV {
    pub id: Seq<char>,
    pub tool_type: ChatToolType,
    pub function: ChatFunctionCallV,
}

pub struct ChatMessageV {
    pub role: ChatMessageRole,
    pub content: Option<Seq<char>>,
    pub tool_calls: Option<Seq<ChatToolCallV>>,
    pub tool_call_id: Option<Seq<char>>,
    pub name: Option<Seq<char>>,
}

pub struct ChatFunctionV {
    pub name: Seq<char>,
    pub description: Option<Seq<char>>,
    pub parameters: Option<JsonV>,
    pub strict: Option<bool>,
}

pub struct ChatToolV {
    pub tool_type: ChatToolType,
    pub function: ChatFunctionV,
}

pub enum ChatToolChoiceV {
    Auto,
    NoTool,
    Required { name: Seq<char> },
    Specific { tool_type: ChatToolType, name: Seq<char> },
}

pub struct ChatUsageV {
    pub prompt_tokens: u32,
    pub completion_tokens: u32,
    pub total_tokens: u32,
    pub prompt_tokens_details: Option<JsonV>,
    pub completion_tokens_details: Option<JsonV>,
}

pub struct ChatChoiceV {
    pub index: u32,
    pub message: ChatMessageV,
    pub finish_reason: FinishReason,
    pub logprobs: Option<JsonV>,
}

pub struct ChatCompletionResponseV {
    pub id: Seq<char>,
    pub object: Seq<char>,
    pub created: u64,
    pub model: Seq<char>,
    pub choices: Seq<ChatChoiceV>,
    pub usage: Option<ChatUsageV>,
    pub service_tier: Option<Seq<char>>,
    pub system_fingerprint: Option<Seq<char>>,
}

impl DeepView for ChatFunctionCall {
    type V = ChatFunctionCallV;

    open spec fn deep_view(&self) -> ChatFunctionCallV {
        ChatFunctionCallV { name: self.name@, arguments: self.arguments@ }
    }
}

impl DeepView for ChatToolCall {
    type V = ChatToolCallV;

    open spec fn deep_view(&self) -> ChatToolCallV {
        ChatToolCallV {
            id: self.id@,
            tool_type: self.tool_type,
            function: self.function.deep_view(),
        }
    }
}

impl DeepView for ChatMessage {
    type V = ChatMessageV;

    open spec fn deep_view(&self) -> ChatMessageV {
        ChatMessageV {
            role: self.role,
            content: self.content.deep_view(),
            tool_calls: self.tool_calls.deep_view(),
            tool_call_id: self.tool_call_id.deep_view(),
            name: self.name.deep_view(),
        }
    }
}

impl DeepView for ChatFunction {
    type V = ChatFunctionV;

    open spec fn deep_view(&self) -> ChatFunctionV {
        ChatFunctionV {
            name: self.name@,
            description: self.description.deep_view(),
            parameters: self.parameters.deep_view(),
            strict: self.strict,
        }
    }
}

impl DeepView for ChatTool {
    type V = ChatToolV;

    open spec fn deep_view(&self) -> ChatToolV {
        ChatToolV { tool_type: self.tool_type, function: self.function.deep_view() }
    }
}

impl DeepView for ChatToolChoice {
    type V = ChatToolChoiceV;

    open spec fn deep_view(&self) -> ChatToolChoiceV {
        match self {
            ChatToolChoice::Auto => ChatToolChoiceV::Auto,
            ChatToolChoice::NoTool => ChatToolChoiceV::NoTool,
            ChatToolChoice::Required(f) => ChatToolChoiceV::Required { name: f.function.name@ },
            ChatToolChoice::Specific { tool_type, function } => ChatToolChoiceV::Specific {
                tool_type: *tool_type,
                name: function.name@,
            },
        }
    }
}

impl DeepView for ChatUsage {
    type V = ChatUsageV;

    open spec fn deep_view(&self) -> ChatUsageV {
        ChatUsageV {
            prompt_tokens: self.prompt_tokens,
            completion_tokens: self.completion_tokens,
            total_tokens: self.total_tokens,
            prompt_tokens_details: self.prompt_tokens_details.deep_view(),
            completion_tokens_details: self.completion_tokens_details.deep_view(),
        }
    }
}

impl DeepView for ChatChoice {
    type V = ChatChoiceV;

    open spec fn deep_view(&self) -> ChatChoiceV {
        ChatChoiceV {
            index: self.index,
            message: self.message.deep_view(),
            finish_reason: self.finish_reason,
            logprobs: self.logprobs.deep_view(),
        }
    }
}

impl DeepView for ChatCompletionResponse {
    type V = ChatCompletionResponseV;

    open spec fn deep_view(&self) -> ChatCompletionResponseV {
        ChatCompletionResponseV {
            id: self.id@,
            object: self.object@,
            created: self.created,
            model: self.model@,
            choices: self.choices.deep_view(),
            usage: self.usage.deep_view(),
            service_tier: self.service_tier.deep_view(),
            system_fingerprint: self.system_fingerprint.deep_view(),
        }
    }
}

} // verus!
