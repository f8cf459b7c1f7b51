//! The agent's side of the bridge: requests, conversation items, response events and errors.

use serde_json::Value;
use vstd::prelude::*;

verus! {

/// A request for one model response.
pub struct ResponsesApiRequest {
    pub model: String,
    pub instructions: String,
    /// The conversation so far.
    pub input: Vec<ResponseItem>,
    /// The tools on offer, each as a JSON object.
    pub tools: Vec<Value>,
    pub tool_choice: String,
    pub parallel_tool_calls: bool,
    pub reasoning: Option<Reasoning>,
    pub store: bool,
    pub stream: bool,
    /// The extra parts of a response that the agent asks for.
    pub included: Vec<String>,
    pub service_tier: Option<String>,
    pub prompt_cache_key: Option<String>,
    pub text: Option<TextControls>,
    pub client_metadata: Option<Vec<(String, String)>>,
}

/// How much the model should reason.
pub struct Reasoning {
    pub effort: Option<ReasoningEffort>,
}

#[derive(Clone, Copy, Debug, PartialEq, Eq)]
pub enum ReasoningEffort {
    /// No reasoning at all.
    Off,
    Minimal,
    Low,
    Medium,
    High,
    XHigh,
}

/// How the model should write its answer.
pub struct TextControls {
    pub verbosity: Option<OpenAiVerbosity>,
    pub format: Option<TextFormat>,
}

#[derive(Clone, Copy, Debug, PartialEq, Eq)]
pub enum OpenAiVerbosity {
    Low,
    Medium,
    High,
}

/// A JSON schema that the answer should keep to.
pub struct TextFormat {
    pub name: String,
    pub schema: Value,
}

/// One item of a conversation.
#[derive(Clone, Debug, PartialEq)]
pub enum ResponseItem {
    Message { id: Option<String>, role: String, content: Vec<ContentItem>, phase: Option<String> },
    Reasoning {
        id: String,
        summary: Vec<String>,
        content: Option<Vec<ReasoningItemContent>>,
        encrypted_content: Option<String>,
    },
    FunctionCall {
        id: Option<String>,
        name: String,
        namespace: Option<String>,
        arguments: String,
        call_id: String,
    },
    FunctionCallOutput { call_id: String, output: FunctionCallOutputPayload },
    CustomToolCall {
        id: Option<String>,
        status: Option<String>,
        call_id: String,
        name: String,
        input: String,
    },
    CustomToolCallOutput {
        call_id: String,
        name: Option<String>,
        output: FunctionCallOutputPayload,
    },
    LocalShellCall,
    ToolSearchCall,
    ToolSearchOutput,
    WebSearchCall,
    ImageGenerationCall,
    Compaction,
    ContextCompaction,
    CompactionTrigger,
    Other,
}

/// One piece of a message.
#[derive(Clone, Debug, PartialEq)]
pub enum ContentItem {
    InputText { text: String },
    InputImage { image_url: String, detail: Option<String> },
    OutputText { text: String },
}

/// One piece of a reasoning item.
#[derive(Clone, Debug, PartialEq)]
pub enum ReasoningItemContent {
    ReasoningText { text: String },
}

/// What a tool gave back.
#[derive(Clone, Debug, PartialEq)]
pub struct FunctionCallOutputPayload {
    pub body: FunctionCallOutputBody,
    pub success: Option<bool>,
}

#[derive(Clone, Debug, PartialEq)]
pub enum FunctionCallOutputBody {
    Text(String),
    /// Content items, as the JSON text of their list; nothing where they cannot be written as
    /// JSON.
    ContentItems(Option<String>),
}

/// One event of a response stream.
#[derive(Clone, Debug, PartialEq)]
pub enum ResponseEvent {
    Created,
    OutputItemAdded(ResponseItem),
    OutputItemDone(ResponseItem),
    OutputTextDelta(String),
    ReasoningContentDelta { delta: String, content_index: i64 },
    ToolCallInputDelta { item_id: String, call_id: Option<String>, delta: String },
    Completed { response_id: String, token_usage: Option<TokenUsage>, end_turn: Option<bool> },
}

#[derive(Clone, Copy, Debug, PartialEq, Eq)]
pub struct TokenUsage {
    pub input_tokens: i64,
    pub cached_input_tokens: i64,
    pub output_tokens: i64,
    pub reasoning_output_tokens: i64,
    pub total_tokens: i64,
}

/// Why a request or a stream failed.
#[derive(Clone, Debug, PartialEq)]
pub enum ApiError {
    InvalidRequest { message: String },
    Transport(TransportError),
}

#[derive(Clone, Debug, PartialEq)]
pub enum TransportError {
    Network(String),
    Timeout,
}

/// Where requests go and the headers that all of them carry.
pub struct Provider {
    pub base_url: String,
    pub headers: http::HeaderMap,
}

/// A conversation item by its texts.
pub enum ResponseItemView {
    Message {
        id: Option<Seq<char>>,
        role: Seq<char>,
        content: Seq<ContentItemView>,
        phase: Option<Seq<char>>,
    },
    Reasoning {
        id: Seq<char>,
        summary: Seq<Seq<char>>,
        content: Option<Seq<ReasoningItemContentView>>,
        encrypted_content: Option<Seq<char>>,
    },
    FunctionCall {
        id: Option<Seq<char>>,
        name: Seq<char>,
        namespace: Option<Seq<char>>,
        arguments: Seq<char>,
        call_id: Seq<char>,
    },
    FunctionCallOutput { call_id: Seq<char>, output: FunctionCallOutputPayloadView },
    CustomToolCall {
        id: Option<Seq<char>>,
        status: Option<Seq<char>>,
        call_id: Seq<char>,
        name: Seq<char>,
        input: Seq<char>,
    },
    CustomToolCallOutput {
        call_id: Seq<char>,
        name: Option<Seq<char>>,
        output: FunctionCallOutputPayloadView,
    },
    LocalShellCall,
    ToolSearchCall,
    ToolSearchOutput,
    WebSearchCall,
    ImageGenerationCall,
    Compaction,
    ContextCompaction,
    CompactionTrigger,
    Other,
}

pub enum ContentItemView {
    InputText { text: Seq<char> },
    InputImage { image_url: Seq<char>, detail: Option<Seq<char>> },
    OutputText { text: Seq<char> },
}

pub enum ReasoningItemContentView {
    ReasoningText { text: Seq<char> },
}

pub struct FunctionCallOutputPayloadView {
    pub body: FunctionCallOutputBodyView,
    pub success: Option<bool>,
}

pub enum FunctionCallOutputBodyView {
    Text(Seq<char>),
    ContentItems(Option<Seq<char>>),
}

/// A response event by its texts.
pub enum ResponseEventView {
    Created,
    OutputItemAdded(ResponseItemView),
    OutputItemDone(ResponseItemView),
    OutputTextDelta(Seq<char>),
    ReasoningContentDelta { delta: Seq<char>, content_index: i64 },
    ToolCallInputDelta { item_id: Seq<char>, call_id: Option<Seq<char>>, delta: Seq<char> },
    Completed { response_id: Seq<char>, token_usage: Option<TokenUsage>, end_turn: Option<bool> },
}

pub enum ApiErrorView {
    InvalidRequest { message: Seq<char> },
    Transport(TransportErrorView),
}

pub enum TransportErrorView {
    Network(Seq<char>),
    Timeout,
}

impl DeepView for ResponseItem {
    type V = ResponseItemView;

    open spec fn deep_view(&self) -> ResponseItemView {
        match *self {
            ResponseItem::Message { id, role, content, phase } => ResponseItemView::Message {
                id: id.deep_view(),
                role: role@,
                content: content.deep_view(),
                phase: phase.deep_view(),
            },
            ResponseItem::Reasoning { id, summary, content, encrypted_content } =>
                ResponseItemView::Reasoning {
                id: id@,
                summary: summary.deep_view(),
                content: content.deep_view(),
                encrypted_content: encrypted_content.deep_view(),
            },
            ResponseItem::FunctionCall { id, name, namespace, arguments, call_id } =>
                ResponseItemView::FunctionCall {
                id: id.deep_view(),
                name: name@,
                namespace: namespace.deep_view(),
                arguments: arguments@,
                call_id: call_id@,
            },
            ResponseItem::FunctionCallOutput { call_id, output } =>
                ResponseItemView::FunctionCallOutput {
                call_id: call_id@,
                output: output.deep_view(),
            },
            ResponseItem::CustomToolCall { id, status, call_id, name, input } =>
                ResponseItemView::CustomToolCall {
                id: id.deep_view(),
                status: status.deep_view(),
                call_id: call_id@,
                name: name@,
                input: input@,
            },
            ResponseItem::CustomToolCallOutput { call_id, name, output } =>
                ResponseItemView::CustomToolCallOutput {
                call_id: call_id@,
                name: name.deep_view(),
                output: output.deep_view(),
            },
            ResponseItem::LocalShellCall => ResponseItemView::LocalShellCall,
            ResponseItem::ToolSearchCall => ResponseItemView::ToolSearchCall,
            ResponseItem::ToolSearchOutput => ResponseItemView::ToolSearchOutput,
            ResponseItem::WebSearchCall => ResponseItemView::WebSearchCall,
            ResponseItem::ImageGenerationCall => ResponseItemView::ImageGenerationCall,
            ResponseItem::Compaction => ResponseItemView::Compaction,
            ResponseItem::ContextCompaction => ResponseItemView::ContextCompaction,
            ResponseItem::CompactionTrigger => ResponseItemView::CompactionTrigger,
            ResponseItem::Other => ResponseItemView::Other,
        }
    }
}

impl DeepView for ContentItem {
    type V = ContentItemView;

    open spec fn deep_view(&self) -> ContentItemView {
        match *self {
            ContentItem::InputText { text } => ContentItemView::InputText { text: text@ },
            ContentItem::InputImage { image_url, detail } => ContentItemView::InputImage {
                image_url: image_url@,
                detail: detail.deep_view(),
            },
            ContentItem::OutputText { text } => ContentItemView::OutputText { text: text@ },
        }
    }
}

impl DeepView for ReasoningItemContent {
    type V = ReasoningItemContentView;

    open spec fn deep_view(&self) -> ReasoningItemContentView {
        match *self {
            ReasoningItemContent::ReasoningText { text } =>
                ReasoningItemContentView::ReasoningText { text: text@ },
        }
    }
}

impl DeepView for FunctionCallOutputPayload {
    type V = FunctionCallOutputPayloadView;

    open spec fn deep_view(&self) -> FunctionCallOutputPayloadView {
        FunctionCallOutputPayloadView { body: self.body.deep_view(), success: self.success }
    }
}

impl DeepView for FunctionCallOutputBody {
    type V = FunctionCallOutputBodyView;

    open spec fn deep_view(&self) -> FunctionCallOutputBodyView {
        match *self {
            FunctionCallOutputBody::Text(text) => FunctionCallOutputBodyView::Text(text@),
            FunctionCallOutputBody::ContentItems(json) =>
                FunctionCallOutputBodyView::ContentItems(json.deep_view()),
        }
    }
}

impl DeepView for TokenUsage {
    type V = TokenUsage;

    open spec fn deep_view(&self) -> TokenUsage {
        *self
    }
}

impl DeepView for ResponseEvent {
    type V = ResponseEventView;

    open spec fn deep_view(&self) -> ResponseEventView {
        match *self {
            ResponseEvent::Created => ResponseEventView::Created,
            ResponseEvent::OutputItemAdded(item) =>
                ResponseEventView::OutputItemAdded(item.deep_view()),
            ResponseEvent::OutputItemDone(item) =>
                ResponseEventView::OutputItemDone(item.deep_view()),
            ResponseEvent::OutputTextDelta(delta) => ResponseEventView::OutputTextDelta(delta@),
            ResponseEvent::ReasoningContentDelta { delta, content_index } =>
                ResponseEventView::ReasoningContentDelta { delta: delta@, content_index },
            ResponseEvent::ToolCallInputDelta { item_id, call_id, delta } =>
                ResponseEventView::ToolCallInputDelta {
                item_id: item_id@,
                call_id: call_id.deep_view(),
                delta: delta@,
            },
            ResponseEvent::Completed { response_id, token_usage, end_turn } =>
                ResponseEventView::Completed { response_id: response_id@, token_usage, end_turn },
        }
    }
}

impl DeepView for ApiError {
    type V = ApiErrorView;

    open spec fn deep_view(&self) -> ApiErrorView {
        match *self {
            ApiError::InvalidRequest { message } =>
                ApiErrorView::InvalidRequest { message: message@ },
            ApiError::Transport(error) => ApiErrorView::Transport(error.deep_view()),
        }
    }
}

impl DeepView for TransportError {
    type V = TransportErrorView;

    open spec fn deep_view(&self) -> TransportErrorView {
        match *self {
            TransportError::Network(text) => TransportErrorView::Network(text@),
            TransportError::Timeout => TransportErrorView::Timeout,
        }
    }
}

} // verus!
