//! The chat client's side of the bridge: chat requests, options and stream events.

use serde_json::Value;
use vstd::prelude::*;

use crate::json::{json_tree, opt_tree, JsonTree};

verus! {

/// A chat request.
#[derive(Clone, Debug, PartialEq)]
pub struct ChatRequest {
    pub system: Option<String>,
    pub messages: Vec<ChatMessage>,
    pub tools: Option<Vec<Tool>>,
    pub previous_response_id: Option<String>,
    pub store: Option<bool>,
}

#[derive(Clone, Copy, Debug, PartialEq, Eq)]
pub enum ChatRole {
    System,
    User,
    Assistant,
    Tool,
}

/// One message of a chat.
#[derive(Clone, Debug, PartialEq)]
pub struct ChatMessage {
    pub role: ChatRole,
    pub content: MessageContent,
}

/// The content of a message, part by part.
#[derive(Clone, Debug, PartialEq)]
pub struct MessageContent {
    pub parts: Vec<ContentPart>,
}

#[derive(Clone, Debug, PartialEq)]
pub enum ContentPart {
    Text(String),
    Binary(Binary),
    ToolCall(ToolCall),
    ToolResponse(ToolResponse),
    /// The signature of a thought that belongs to no tool call.
    ThoughtSignature(String),
}

/// A file that a message refers to by its URL.
#[derive(Clone, Debug, PartialEq)]
pub struct Binary {
    pub content_type: String,
    pub url: String,
    pub name: Option<String>,
}

/// A call of a tool by the model.
#[derive(Clone, Debug, PartialEq)]
pub struct ToolCall {
    pub call_id: String,
    pub fn_name: String,
    pub fn_arguments: Value,
    /// Thought signatures that go before the call.
    pub thought_signatures: Option<Vec<String>>,
}

/// What a tool gave back.
#[derive(Clone, Debug, PartialEq)]
pub struct ToolResponse {
    pub call_id: String,
    pub fn_name: Option<String>,
    pub content: String,
}

/// A tool that the model may call.
#[derive(Clone, Debug, PartialEq)]
pub struct Tool {
    pub name: String,
    pub description: Option<String>,
    pub schema: Option<Value>,
    pub strict: Option<bool>,
}

/// Options of a chat request; an option that is not named here is left unset.
pub struct ChatOptions {
    pub capture_usage: Option<bool>,
    pub capture_content: Option<bool>,
    pub capture_reasoning_content: Option<bool>,
    pub capture_tool_calls: Option<bool>,
    pub response_format: Option<JsonSpec>,
    pub reasoning_effort: Option<ReasoningEffort>,
    pub verbosity: Option<Verbosity>,
    pub service_tier: Option<ServiceTier>,
    pub extra_headers: Option<genai::Headers>,
    pub prompt_cache_key: Option<String>,
}

/// A JSON schema for the answer.
#[derive(Clone, Debug, PartialEq)]
pub struct JsonSpec {
    pub name: String,
    pub description: Option<String>,
    pub schema: Value,
}

#[derive(Clone, Copy, Debug, PartialEq, Eq)]
pub enum ReasoningEffort {
    /// No reasoning at all.
    Off,
    Minimal,
    Low,
    Medium,
    High,
}

#[derive(Clone, Copy, Debug, PartialEq, Eq)]
pub enum Verbosity {
    Low,
    Medium,
    High,
}

#[derive(Clone, Copy, Debug, PartialEq, Eq)]
pub enum ServiceTier {
    Flex,
    Auto,
    Default,
}

/// One event of a chat stream.
#[derive(Clone, Debug)]
pub enum ChatStreamEvent {
    Start,
    Chunk(StreamChunk),
    ReasoningChunk(StreamChunk),
    ThoughtSignatureChunk(StreamChunk),
    ToolCallChunk(ToolChunk),
    End(StreamEnd),
}

#[derive(Clone, Debug, PartialEq)]
pub struct StreamChunk {
    pub content: String,
}

/// A tool call as far as it has come; its arguments hold all that has come so far.
#[derive(Clone, Debug, PartialEq)]
pub struct ToolChunk {
    pub tool_call: ToolCall,
}

/// What is known of a response at its end.
#[derive(Clone, Debug)]
pub struct StreamEnd {
    pub captured_usage: Option<Usage>,
    pub captured_stop_reason: Option<StopReason>,
    pub captured_response_id: Option<String>,
}

/// Why a response ended, each with the provider's own word for it.
#[derive(Clone, Debug)]
pub enum StopReason {
    Completed(String),
    MaxTokens(String),
    ToolCall(String),
    ContentFilter(String),
    StopSequence(String),
    Other(String),
}

#[derive(Clone, Copy, Debug, PartialEq, Eq)]
pub struct Usage {
    pub prompt_tokens: Option<i32>,
    pub prompt_tokens_details: Option<PromptTokensDetails>,
    pub completion_tokens: Option<i32>,
    pub completion_tokens_details: Option<CompletionTokensDetails>,
    pub total_tokens: Option<i32>,
}

#[derive(Clone, Copy, Debug, PartialEq, Eq)]
pub struct PromptTokensDetails {
    pub cached_tokens: Option<i32>,
}

#[derive(Clone, Copy, Debug, PartialEq, Eq)]
pub struct CompletionTokensDetails {
    pub reasoning_tokens: Option<i32>,
}

impl MessageContent {
    /// The parts of the content, in order.
    pub fn parts(&self) -> (parts: &Vec<ContentPart>)
        ensures
            *parts == self.parts,
    {
        &self.parts
    }
}

impl StopReason {
    /// The provider's own word for the reason.
    pub open spec fn word(self) -> Seq<char> {
        match self {
            StopReason::Completed(word) => word@,
            StopReason::MaxTokens(word) => word@,
            StopReason::ToolCall(word) => word@,
            StopReason::ContentFilter(word) => word@,
            StopReason::StopSequence(word) => word@,
            StopReason::Other(word) => word@,
        }
    }

    /// The provider's own word for the reason.
    pub fn raw(&self) -> (word: &str)
        ensures
            word@ == self.word(),
    {
        match self {
            StopReason::Completed(word) => word.as_str(),
            StopReason::MaxTokens(word) => word.as_str(),
            StopReason::ToolCall(word) => word.as_str(),
            StopReason::ContentFilter(word) => word.as_str(),
            StopReason::StopSequence(word) => word.as_str(),
            StopReason::Other(word) => word.as_str(),
        }
    }
}

/// A chat request by its texts and JSON contents.
pub struct ChatRequestView {
    pub system: Option<Seq<char>>,
    pub messages: Seq<ChatMessageView>,
    pub tools: Option<Seq<ToolView>>,
    pub previous_response_id: Option<Seq<char>>,
    pub store: Option<bool>,
}

pub struct ChatMessageView {
    pub role: ChatRole,
    pub parts: Seq<ContentPartView>,
}

pub enum ContentPartView {
    Text(Seq<char>),
    Binary(BinaryView),
    ToolCall(ToolCallView),
    ToolResponse(ToolResponseView),
    ThoughtSignature(Seq<char>),
}

pub struct BinaryView {
    pub content_type: Seq<char>,
    pub url: Seq<char>,
    pub name: Option<Seq<char>>,
}

pub struct ToolCallView {
    pub call_id: Seq<char>,
    pub fn_name: Seq<char>,
    pub fn_arguments: JsonTree,
    pub thought_signatures: Option<Seq<Seq<char>>>,
}

pub struct ToolResponseView {
    pub call_id: Seq<char>,
    pub fn_name: Option<Seq<char>>,
    pub content: Seq<char>,
}

pub struct ToolView {
    pub name: Seq<char>,
    pub description: Option<Seq<char>>,
    pub schema: Option<JsonTree>,
    pub strict: Option<bool>,
}

pub struct JsonSpecView {
    pub name: Seq<char>,
    pub description: Option<Seq<char>>,
    pub schema: JsonTree,
}

/// A stream event by its texts and JSON contents.
pub enum ChatStreamEventView {
    Start,
    Chunk(Seq<char>),
    ReasoningChunk(Seq<char>),
    ThoughtSignatureChunk(Seq<char>),
    ToolCallChunk(ToolCallView),
    End(StreamEndView),
}

pub struct StreamEndView {
    pub usage: Option<Usage>,
    pub stop_reason: Option<StopReasonView>,
    pub response_id: Option<Seq<char>>,
}

pub struct StopReasonView {
    /// Whether the response ended for the model to call tools.
    pub is_tool_call: bool,
    pub word: Seq<char>,
}

impl DeepView for ChatRequest {
    type V = ChatRequestView;

    open spec fn deep_view(&self) -> ChatRequestView {
        ChatRequestView {
            system: self.system.deep_view(),
            messages: self.messages.deep_view(),
            tools: self.tools.deep_view(),
            previous_response_id: self.previous_response_id.deep_view(),
            store: self.store,
        }
    }
}

impl DeepView for ChatMessage {
    type V = ChatMessageView;

    open spec fn deep_view(&self) -> ChatMessageView {
        ChatMessageView { role: self.role, parts: self.content.parts.deep_view() }
    }
}

impl DeepView for ContentPart {
    type V = ContentPartView;

    open spec fn deep_view(&self) -> ContentPartView {
        match *self {
            ContentPart::Text(text) => ContentPartView::Text(text@),
            ContentPart::Binary(binary) => ContentPartView::Binary(binary.deep_view()),
            ContentPart::ToolCall(call) => ContentPartView::ToolCall(call.deep_view()),
            ContentPart::ToolResponse(response) =>
                ContentPartView::ToolResponse(response.deep_view()),
            ContentPart::ThoughtSignature(signature) =>
                ContentPartView::ThoughtSignature(signature@),
        }
    }
}

impl DeepView for Binary {
    type V = BinaryView;

    open spec fn deep_view(&self) -> BinaryView {
        BinaryView {
            content_type: self.content_type@,
            url: self.url@,
            name: self.name.deep_view(),
        }
    }
}

impl DeepView for ToolCall {
    type V = ToolCallView;

    open spec fn deep_view(&self) -> ToolCallView {
        ToolCallView {
            call_id: self.call_id@,
            fn_name: self.fn_name@,
            fn_arguments: json_tree(self.fn_arguments),
            thought_signatures: self.thought_signatures.deep_view(),
        }
    }
}

impl DeepView for ToolResponse {
    type V = ToolResponseView;

    open spec fn deep_view(&self) -> ToolResponseView {
        ToolResponseView {
            call_id: self.call_id@,
            fn_name: self.fn_name.deep_view(),
            content: self.content@,
        }
    }
}

impl DeepView for Tool {
    type V = ToolView;

    open spec fn deep_view(&self) -> ToolView {
        ToolView {
            name: self.name@,
            description: self.description.deep_view(),
            schema: opt_tree(self.schema),
            strict: self.strict,
        }
    }
}

impl DeepView for JsonSpec {
    type V = JsonSpecView;

    open spec fn deep_view(&self) -> JsonSpecView {
        JsonSpecView {
            name: self.name@,
            description: self.description.deep_view(),
            schema: json_tree(self.schema),
        }
    }
}

impl DeepView for ChatStreamEvent {
    type V = ChatStreamEventView;

    open spec fn deep_view(&self) -> ChatStreamEventView {
        match *self {
            ChatStreamEvent::Start => ChatStreamEventView::Start,
            ChatStreamEvent::Chunk(chunk) => ChatStreamEventView::Chunk(chunk.content@),
            ChatStreamEvent::ReasoningChunk(chunk) =>
                ChatStreamEventView::ReasoningChunk(chunk.content@),
            ChatStreamEvent::ThoughtSignatureChunk(chunk) =>
                ChatStreamEventView::ThoughtSignatureChunk(chunk.content@),
            ChatStreamEvent::ToolCallChunk(chunk) =>
                ChatStreamEventView::ToolCallChunk(chunk.tool_call.deep_view()),
            ChatStreamEvent::End(end) => ChatStreamEventView::End(end.deep_view()),
        }
    }
}

impl DeepView for StreamEnd {
    type V = StreamEndView;

    open spec fn deep_view(&self) -> StreamEndView {
        StreamEndView {
            usage: self.captured_usage,
            stop_reason: self.captured_stop_reason.deep_view(),
            response_id: self.captured_response_id.deep_view(),
        }
    }
}

impl DeepView for StopReason {
    type V = StopReasonView;

    open spec fn deep_view(&self) -> StopReasonView {
        StopReasonView { is_tool_call: *self is ToolCall, word: self.word() }
    }
}

} // verus!
