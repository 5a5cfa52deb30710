//! The Responses API items that the conversions read and write, held as plain
//! values.

use vstd::prelude::*;
use crate::json::{JsonV, JsonValue};

verus! {

/// Phase of an assistant message.
#[derive(Debug, Clone, Copy, PartialEq, Eq, Structural)]
pub enum MessagePhase {
    Commentary,
    FinalAnswer,
}

/// One piece of message content.
#[derive(Debug, PartialEq)]
pub enum ContentItem {
    InputText { text: String },
    InputImage { image_url: String, detail: Option<String> },
    OutputText { text: String },
}

/// One piece of function-call output content.
#[derive(Debug, PartialEq)]
pub enum FunctionCallOutputContentItem {
    InputText { text: String },
    InputImage { image_url: String, detail: Option<String> },
    EncryptedContent { encrypted_content: String },
}

/// The body of a function-call output.
#[derive(Debug, PartialEq)]
pub enum FunctionCallOutputBody {
    Text(String),
    ContentItems(Vec<FunctionCallOutputContentItem>),
}

/// The output a tool produced for a function call.
#[derive(Debug, PartialEq)]
pub struct FunctionCallOutputPayload {
    pub body: FunctionCallOutputBody,
    pub success: Option<bool>,
}

/// Content of a reasoning item.
#[derive(Debug, PartialEq)]
pub enum ReasoningItemContent {
    ReasoningText { text: String },
    Text { text: String },
}

/// An item of a Responses API conversation.
#[derive(Debug, PartialEq)]
pub enum ResponseItem {
    Message { id: Option<String>, role: String, content: Vec<ContentItem>, phase: Option<MessagePhase> },
    Reasoning { id: String, summary: Vec<String>, content: Option<Vec<ReasoningItemContent>> },
    FunctionCall {
        id: Option<String>,
        name: String,
        namespace: Option<String>,
        arguments: String,
        call_id: String,
    },
    FunctionCallOutput { call_id: String, output: FunctionCallOutputPayload },
    /// Any other kind of item; the conversions pass over it.
    Other,
}

/// Token counts reported for a response.
#[derive(Debug, Clone, Copy, PartialEq, Eq, Structural)]
pub struct TokenUsage {
    pub input_tokens: i64,
    pub cached_input_tokens: i64,
    pub output_tokens: i64,
    pub reasoning_output_tokens: i64,
    pub total_tokens: i64,
}

/// A Responses API request.
#[derive(Debug, PartialEq)]
pub struct ResponsesApiRequest {
    pub model: String,
    pub instructions: String,
    pub input: Vec<ResponseItem>,
    pub tools: Vec<JsonValue>,
    pub tool_choice: String,
    pub parallel_tool_calls: bool,
    pub reasoning: Option<JsonValue>,
    pub store: bool,
    pub stream: bool,
    pub included: Vec<String>,
    pub service_tier: Option<String>,
    pub prompt_cache_key: Option<String>,
    pub text: Option<JsonValue>,
    pub client_metadata: Option<JsonValue>,
}

// ---------------------------------------------------------------------------
// Mathematical models
// ---------------------------------------------------------------------------

pub enum ContentItemV {
    InputText { text: Seq<char> },
    InputImage { image_url: Seq<char>, detail: Option<Seq<char>> },
    OutputText { text: Seq<char> },
}

pub enum FunctionCallOutputContentItemV {
    InputText { text: Seq<char> },
    InputImage { image_url: Seq<char>, detail: Option<Seq<char>> },
    EncryptedContent { encrypted_content: Seq<char> },
}

pub enum FunctionCallOutputBodyV {
    Text(Seq<char>),
    ContentItems(Seq<FunctionCallOutputContentItemV>),
}

pub struct FunctionCallOutputPayloadV {
    pub body: FunctionCallOutputBodyV,
    pub success: Option<bool>,
}

pub enum ReasoningItemContentV {
    ReasoningText { text: Seq<char> },
    Text { text: Seq<char> },
}

pub enum ResponseItemV {
    Message {
        id: Option<Seq<char>>,
        role: Seq<char>,
        content: Seq<ContentItemV>,
        phase: Option<MessagePhase>,
    },
    Reasoning { id: Seq<char>, summary: Seq<Seq<char>>, content: Option<Seq<ReasoningItemContentV>> },
    FunctionCall {
        id: Option<Seq<char>>,
        name: Seq<char>,
        namespace: Option<Seq<char>>,
        arguments: Seq<char>,
        call_id: Seq<char>,
    },
    FunctionCallOutput { call_id: Seq<char>, output: FunctionCallOutputPayloadV },
    Other,
}

pub struct ResponsesApiRequestV {
    pub model: Seq<char>,
    pub instructions: Seq<char>,
    pub input: Seq<ResponseItemV>,
    pub tools: Seq<JsonV>,
    pub tool_choice: Seq<char>,
    pub parallel_tool_calls: bool,
    pub reasoning: Option<JsonV>,
    pub store: bool,
    pub stream: bool,
    pub included: Seq<Seq<char>>,
    pub service_tier: Option<Seq<char>>,
    pub prompt_cache_key: Option<Seq<char>>,
    pub text: Option<JsonV>,
    pub client_metadata: Option<JsonV>,
}

impl DeepView for ContentItem {
    type V = ContentItemV;

    open spec fn deep_view(&self) -> ContentItemV {
        match self {
            ContentItem::InputText { text } => ContentItemV::InputText { text: text@ },
            ContentItem::InputImage { image_url, detail } => ContentItemV::InputImage {
                image_url: image_url@,
                detail: detail.deep_view(),
            },
            ContentItem::OutputText { text } => ContentItemV::OutputText { text: text@ },
        }
    }
}

impl DeepView for FunctionCallOutputContentItem {
    type V = FunctionCallOutputContentItemV;

    open spec fn deep_view(&self) -> FunctionCallOutputContentItemV {
        match self {
            FunctionCallOutputContentItem::InputText { text } => FunctionCallOutputContentItemV::InputText {
                text: text@,
            },
            FunctionCallOutputContentItem::InputImage { image_url, detail } => FunctionCallOutputContentItemV::InputImage {
                image_url: image_url@,
                detail: detail.deep_view(),
            },
            FunctionCallOutputContentItem::EncryptedContent { encrypted_content } => FunctionCallOutputContentItemV::EncryptedContent {
                encrypted_content: encrypted_content@,
            },
        }
    }
}

impl DeepView for FunctionCallOutputBody {
    type V = FunctionCallOutputBodyV;

    open spec fn deep_view(&self) -> FunctionCallOutputBodyV {
        match self {
            FunctionCallOutputBody::Text(t) => FunctionCallOutputBodyV::Text(t@),
            FunctionCallOutputBody::ContentItems(items) => FunctionCallOutputBodyV::ContentItems(
                items.deep_view(),
            ),
        }
    }
}

impl DeepView for FunctionCallOutputPayload {
    type V = FunctionCallOutputPayloadV;

    open spec fn deep_view(&self) -> FunctionCallOutputPayloadV {
        FunctionCallOutputPayloadV { body: self.body.deep_view(), success: self.success }
    }
}

impl DeepView for ReasoningItemContent {
    type V = ReasoningItemContentV;

    open spec fn deep_view(&self) -> ReasoningItemContentV {
        match self {
            ReasoningItemContent::ReasoningText { text } => ReasoningItemContentV::ReasoningText {
                text: text@,
            },
            ReasoningItemContent::Text { text } => ReasoningItemContentV::Text { text: text@ },
        }
    }
}

impl DeepView for ResponseItem {
    type V = ResponseItemV;

    open spec fn deep_view(&self) -> ResponseItemV {
        match self {
            ResponseItem::Message { id, role, content, phase } => ResponseItemV::Message {
                id: id.deep_view(),
                role: role@,
                content: content.deep_view(),
                phase: *phase,
            },
            ResponseItem::Reasoning { id, summary, content } => ResponseItemV::Reasoning {
                id: id@,
                summary: summary.deep_view(),
                content: content.deep_view(),
            },
            ResponseItem::FunctionCall { id, name, namespace, arguments, call_id } => ResponseItemV::FunctionCall {
                id: id.deep_view(),
                name: name@,
                namespace: namespace.deep_view(),
                arguments: arguments@,
                call_id: call_id@,
            },
            ResponseItem::FunctionCallOutput { call_id, output } => ResponseItemV::FunctionCallOutput {
                call_id: call_id@,
                output: output.deep_view(),
            },
            ResponseItem::Other => ResponseItemV::Other,
        }
    }
}

impl DeepView for ResponsesApiRequest {
    type V = ResponsesApiRequestV;

    open spec fn deep_view(&self) -> ResponsesApiRequestV {
        ResponsesApiRequestV {
            model: self.model@,
            instructions: self.instructions@,
            input: self.input.deep_view(),
            tools: self.tools.deep_view(),
            tool_choice: self.tool_choice@,
            parallel_tool_calls: self.parallel_tool_calls,
            reasoning: self.reasoning.deep_view(),
            store: self.store,
            stream: self.stream,
            included: self.included.deep_view(),
            service_tier: self.service_tier.deep_view(),
            prompt_cache_key: self.prompt_cache_key.deep_view(),
            text: self.text.deep_view(),
            client_metadata: self.client_metadata.deep_view(),
        }
    }
}

impl FunctionCallOutputPayload {
    /// A payload whose body is the plain text `text`.
    pub fn from_text(text: String) -> (res: FunctionCallOutputPayload)
        ensures
            res.deep_view() == (FunctionCallOutputPayloadV {
                body: FunctionCallOutputBodyV::Text(text@),
                success: None,
            }),
    {
        FunctionCallOutputPayload { body: FunctionCallOutputBody::Text(text), success: None }
    }
}

} // verus!
