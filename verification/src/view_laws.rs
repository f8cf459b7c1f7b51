//! What the views show of the values: each text, number and part under its own name.

use serde_json::Value;
use vstd::prelude::*;

use crate::chat::{
    Binary, ChatMessage, ChatRequest, ChatStreamEvent, ChatStreamEventView, ContentPart,
    ContentPartView, JsonSpec, StopReason, StreamEnd, Tool, ToolCall, ToolResponse,
};
use crate::json::{json_text, json_tree, opt_tree, parsed_or_string, raw_text, JsonTree};
use crate::protocol::{
    ApiError, ApiErrorView, ContentItem, ContentItemView, FunctionCallOutputBody,
    FunctionCallOutputBodyView, FunctionCallOutputPayload, ReasoningItemContent,
    ReasoningItemContentView, ResponseEvent, ResponseEventView, ResponseItem, ResponseItemView,
    TransportError, TransportErrorView,
};
use crate::stream::{sent, StreamPoll, StreamPollView};
use crate::types::{nothing_pending, PendingAssistantMessage, PendingToolCall};

verus! {

/// Whether a view shows a list item by item.
pub open spec fn shows_all<T: DeepView>(list: Seq<T>, view: Seq<T::V>) -> bool {
    &&& view.len() == list.len()
    &&& forall|i: int| 0 <= i < list.len() ==> #[trigger] view[i] == list[i].deep_view()
}

/// Whether a view shows a text that may be missing.
pub open spec fn shows_text(text: Option<String>, view: Option<Seq<char>>) -> bool {
    match text {
        Some(text) => view == Some(text@),
        None => view is None,
    }
}

/// An item shows its texts and its pieces, each under its own name.
pub proof fn law_item_shown(item: ResponseItem)
    ensures
        match item {
            ResponseItem::Message { id, role, content, phase } => {
                &&& item.deep_view() matches ResponseItemView::Message {
                    id: shown_id,
                    role: shown_role,
                    content: shown,
                    phase: shown_phase,
                }
                &&& shows_text(id, shown_id)
                &&& shown_role == role@
                &&& shows_all(content@, shown)
                &&& shows_text(phase, shown_phase)
            },
            ResponseItem::Reasoning { id, summary, content, encrypted_content } => {
                &&& item.deep_view() matches ResponseItemView::Reasoning {
                    id: shown_id,
                    summary: shown_summary,
                    content: shown,
                    encrypted_content: shown_signature,
                }
                &&& shown_id == id@
                &&& shows_all(summary@, shown_summary)
                &&& content is None ==> shown is None
                &&& content matches Some(content) ==> (shown matches Some(shown) && shows_all(
                    content@,
                    shown,
                ))
                &&& shows_text(encrypted_content, shown_signature)
            },
            ResponseItem::FunctionCall { id, name, namespace, arguments, call_id } => {
                &&& item.deep_view() matches ResponseItemView::FunctionCall {
                    id: shown_id,
                    name: shown_name,
                    namespace: shown_namespace,
                    arguments: shown_arguments,
                    call_id: shown_call,
                }
                &&& shows_text(id, shown_id)
                &&& shown_name == name@
                &&& shows_text(namespace, shown_namespace)
                &&& shown_arguments == arguments@
                &&& shown_call == call_id@
            },
            ResponseItem::FunctionCallOutput { call_id, output } => {
                &&& item.deep_view() matches ResponseItemView::FunctionCallOutput {
                    call_id: shown_call,
                    output: shown,
                }
                &&& shown_call == call_id@
                &&& shown == output.deep_view()
            },
            ResponseItem::CustomToolCall { id, status, call_id, name, input } => {
                &&& item.deep_view() matches ResponseItemView::CustomToolCall {
                    id: shown_id,
                    status: shown_status,
                    call_id: shown_call,
                    name: shown_name,
                    input: shown_input,
                }
                &&& shows_text(id, shown_id)
                &&& shows_text(status, shown_status)
                &&& shown_call == call_id@
                &&& shown_name == name@
                &&& shown_input == input@
            },
            ResponseItem::CustomToolCallOutput { call_id, name, output } => {
                &&& item.deep_view() matches ResponseItemView::CustomToolCallOutput {
                    call_id: shown_call,
                    name: shown_name,
                    output: shown,
                }
                &&& shown_call == call_id@
                &&& shows_text(name, shown_name)
                &&& shown == output.deep_view()
            },
            ResponseItem::LocalShellCall => item.deep_view() is LocalShellCall,
            ResponseItem::ToolSearchCall => item.deep_view() is ToolSearchCall,
            ResponseItem::ToolSearchOutput => item.deep_view() is ToolSearchOutput,
            ResponseItem::WebSearchCall => item.deep_view() is WebSearchCall,
            ResponseItem::ImageGenerationCall => item.deep_view() is ImageGenerationCall,
            ResponseItem::Compaction => item.deep_view() is Compaction,
            ResponseItem::ContextCompaction => item.deep_view() is ContextCompaction,
            ResponseItem::CompactionTrigger => item.deep_view() is CompactionTrigger,
            ResponseItem::Other => item.deep_view() is Other,
        },
{
}

/// A piece of a message, a piece of reasoning and an output show their texts.
pub proof fn law_pieces_shown(
    piece: ContentItem,
    reasoning: ReasoningItemContent,
    output: FunctionCallOutputPayload,
)
    ensures
        match piece {
            ContentItem::InputText { text } => piece.deep_view() matches ContentItemView::InputText {
                text: shown,
            } && shown == text@,
            ContentItem::InputImage { image_url, detail } => {
                &&& piece.deep_view() matches ContentItemView::InputImage {
                    image_url: shown,
                    detail: shown_detail,
                }
                &&& shown == image_url@
                &&& shows_text(detail, shown_detail)
            },
            ContentItem::OutputText { text } => piece.deep_view() matches ContentItemView::OutputText {
                text: shown,
            } && shown == text@,
        },
        match reasoning {
            ReasoningItemContent::ReasoningText { text } => reasoning.deep_view() matches ReasoningItemContentView::ReasoningText {
                text: shown,
            } && shown == text@,
        },
        output.deep_view().success == output.success,
        match output.body {
            FunctionCallOutputBody::Text(text) => output.deep_view().body
                == FunctionCallOutputBodyView::Text(text@),
            FunctionCallOutputBody::ContentItems(json) => output.deep_view().body matches FunctionCallOutputBodyView::ContentItems(
                shown,
            ) && shows_text(json, shown),
        },
{
}

/// A response event shows its item, its texts and its numbers, each under its own name.
pub proof fn law_event_shown(event: ResponseEvent)
    ensures
        match event {
            ResponseEvent::Created => event.deep_view() is Created,
            ResponseEvent::OutputItemAdded(item) => event.deep_view()
                == ResponseEventView::OutputItemAdded(item.deep_view()),
            ResponseEvent::OutputItemDone(item) => event.deep_view()
                == ResponseEventView::OutputItemDone(item.deep_view()),
            ResponseEvent::OutputTextDelta(delta) => event.deep_view()
                == ResponseEventView::OutputTextDelta(delta@),
            ResponseEvent::ReasoningContentDelta { delta, content_index } => {
                &&& event.deep_view() matches ResponseEventView::ReasoningContentDelta {
                    delta: shown,
                    content_index: shown_index,
                }
                &&& shown == delta@
                &&& shown_index == content_index
            },
            ResponseEvent::ToolCallInputDelta { item_id, call_id, delta } => {
                &&& event.deep_view() matches ResponseEventView::ToolCallInputDelta {
                    item_id: shown_item,
                    call_id: shown_call,
                    delta: shown,
                }
                &&& shown_item == item_id@
                &&& shows_text(call_id, shown_call)
                &&& shown == delta@
            },
            ResponseEvent::Completed { response_id, token_usage, end_turn } => {
                &&& event.deep_view() matches ResponseEventView::Completed {
                    response_id: shown_id,
                    token_usage: shown_usage,
                    end_turn: shown_end,
                }
                &&& shown_id == response_id@
                &&& shown_usage == token_usage
                &&& shown_end == end_turn
            },
        },
{
}

/// An error shows which one it is and its words, and what is sent shows whether it is an error.
pub proof fn law_error_shown(error: ApiError, message: Result<ResponseEvent, ApiError>)
    ensures
        match error {
            ApiError::InvalidRequest { message } => error.deep_view() matches ApiErrorView::InvalidRequest {
                message: shown,
            } && shown == message@,
            ApiError::Transport(TransportError::Network(words)) => error.deep_view()
                == ApiErrorView::Transport(TransportErrorView::Network(words@)),
            ApiError::Transport(TransportError::Timeout) => error.deep_view()
                == ApiErrorView::Transport(TransportErrorView::Timeout),
        },
        message matches Ok(event) ==> sent(message) == Ok::<ResponseEventView, ApiErrorView>(
            event.deep_view(),
        ),
        message matches Err(error) ==> sent(message) == Err::<ResponseEventView, ApiErrorView>(
            error.deep_view(),
        ),
{
}

/// A chat request shows its system prompt, its messages with their roles and parts, its tools and
/// its flags, each under its own name.
pub proof fn law_request_shown(request: ChatRequest, message: ChatMessage, tool: Tool)
    ensures
        shows_text(request.system, request.deep_view().system),
        shows_all(request.messages@, request.deep_view().messages),
        request.tools is None ==> request.deep_view().tools is None,
        request.tools matches Some(tools) ==> (request.deep_view().tools matches Some(shown)
            && shows_all(tools@, shown)),
        shows_text(request.previous_response_id, request.deep_view().previous_response_id),
        request.deep_view().store == request.store,
        message.deep_view().role == message.role,
        shows_all(message.content.parts@, message.deep_view().parts),
        tool.deep_view().name == tool.name@,
        shows_text(tool.description, tool.deep_view().description),
        tool.schema is None ==> tool.deep_view().schema is None,
        tool.schema matches Some(schema) ==> tool.deep_view().schema == Some(json_tree(schema)),
        tool.deep_view().strict == tool.strict,
{
}

/// A part of a message shows its kind, its texts and the contents of its arguments, each under its
/// own name.
pub proof fn law_part_shown(
    part: ContentPart,
    binary: Binary,
    call: ToolCall,
    response: ToolResponse,
    format: JsonSpec,
)
    ensures
        match part {
            ContentPart::Text(text) => part.deep_view() == ContentPartView::Text(text@),
            ContentPart::Binary(binary) => part.deep_view() == ContentPartView::Binary(
                binary.deep_view(),
            ),
            ContentPart::ToolCall(call) => part.deep_view() == ContentPartView::ToolCall(
                call.deep_view(),
            ),
            ContentPart::ToolResponse(response) => part.deep_view()
                == ContentPartView::ToolResponse(response.deep_view()),
            ContentPart::ThoughtSignature(signature) => part.deep_view()
                == ContentPartView::ThoughtSignature(signature@),
        },
        binary.deep_view().content_type == binary.content_type@,
        binary.deep_view().url == binary.url@,
        shows_text(binary.name, binary.deep_view().name),
        call.deep_view().call_id == call.call_id@,
        call.deep_view().fn_name == call.fn_name@,
        call.deep_view().fn_arguments == json_tree(call.fn_arguments),
        call.thought_signatures is None ==> call.deep_view().thought_signatures is None,
        call.thought_signatures matches Some(signatures) ==> (
        call.deep_view().thought_signatures matches Some(shown) && shows_all(signatures@, shown)),
        response.deep_view().call_id == response.call_id@,
        shows_text(response.fn_name, response.deep_view().fn_name),
        response.deep_view().content == response.content@,
        format.deep_view().name == format.name@,
        shows_text(format.description, format.deep_view().description),
        format.deep_view().schema == json_tree(format.schema),
{
}

/// An event of a chat stream shows its text, its call or its end.
pub proof fn law_stream_event_shown(event: ChatStreamEvent, end: StreamEnd, poll: StreamPoll)
    ensures
        match event {
            ChatStreamEvent::Start => event.deep_view() is Start,
            ChatStreamEvent::Chunk(chunk) => event.deep_view() == ChatStreamEventView::Chunk(
                chunk.content@,
            ),
            ChatStreamEvent::ReasoningChunk(chunk) => event.deep_view()
                == ChatStreamEventView::ReasoningChunk(chunk.content@),
            ChatStreamEvent::ThoughtSignatureChunk(chunk) => event.deep_view()
                == ChatStreamEventView::ThoughtSignatureChunk(chunk.content@),
            ChatStreamEvent::ToolCallChunk(chunk) => event.deep_view()
                == ChatStreamEventView::ToolCallChunk(chunk.tool_call.deep_view()),
            ChatStreamEvent::End(end) => event.deep_view() == ChatStreamEventView::End(
                end.deep_view(),
            ),
        },
        end.deep_view().usage == end.captured_usage,
        shows_text(end.captured_response_id, end.deep_view().response_id),
        end.captured_stop_reason is None ==> end.deep_view().stop_reason is None,
        end.captured_stop_reason matches Some(reason) ==> {
            &&& end.deep_view().stop_reason matches Some(shown)
            &&& shown.is_tool_call <==> reason is ToolCall
        },
        match poll {
            StreamPoll::Event(event) => poll.deep_view() == StreamPollView::Event(event.deep_view()),
            StreamPoll::Failed(words) => poll.deep_view() == StreamPollView::Failed(words@),
            StreamPoll::Closed => poll.deep_view() is Closed,
            StreamPoll::Idle => poll.deep_view() is Idle,
        },
{
}

/// The word of a stop reason is the word that the reason holds, whichever reason it is.
pub proof fn law_word(reason: StopReason, word: String)
    requires
        reason == StopReason::Completed(word) || reason == StopReason::MaxTokens(word) || reason
            == StopReason::ToolCall(word) || reason == StopReason::ContentFilter(word) || reason
            == StopReason::StopSequence(word) || reason == StopReason::Other(word),
    ensures
        reason.word() == word@,
        reason.deep_view().word == word@,
{
}

/// A pending message and its calls show their texts, their lists and their flags, each under its
/// own name; of a new one there is nothing to show.
pub proof fn law_pending_shown(pending: PendingAssistantMessage, call: PendingToolCall)
    ensures
        ({
            let shown = pending.deep_view();
            &&& shown.text == pending.text_buffer@
            &&& shown.reasoning == pending.reasoning_buffer@
            &&& shows_all(pending.tool_calls@, shown.tool_calls)
            &&& shows_text(pending.finish_reason, shown.finish_reason)
            &&& shown.token_usage == pending.token_usage
            &&& shows_text(pending.response_id, shown.response_id)
            &&& shows_all(pending.thought_signatures@, shown.thought_signatures)
            &&& shown.text_item_added == pending.text_item_added
            &&& shows_text(pending.text_item_id, shown.text_item_id)
            &&& shows_all(pending.tool_items_added@, shown.tool_items_added)
            &&& shown.reasoning_content_index == pending.reasoning_content_index
        }),
        call.deep_view().id == call.id@,
        call.deep_view().name == call.name@,
        call.deep_view().arguments == call.arguments_buffer@,
        ({
            let fresh = nothing_pending();
            &&& fresh.text.len() == 0
            &&& fresh.reasoning.len() == 0
            &&& fresh.tool_calls.len() == 0
            &&& fresh.finish_reason is None
            &&& fresh.token_usage is None
            &&& fresh.response_id is None
            &&& fresh.thought_signatures.len() == 0
            &&& !fresh.text_item_added
            &&& fresh.text_item_id is None
            &&& fresh.tool_items_added.len() == 0
            &&& fresh.reasoning_content_index == 0
        }),
{
}

/// A JSON string carries its own text and any other value its JSON text; and a text that was read
/// as JSON stands for what was read, any other for itself as a JSON string.
pub proof fn law_json_texts(
    tree: JsonTree,
    text: Seq<char>,
    parsed: Option<JsonTree>,
    value: Option<Value>,
)
    ensures
        raw_text(JsonTree::String(text)) == text,
        !(tree is String) ==> raw_text(tree) == json_text(tree),
        parsed matches Some(read) ==> parsed_or_string(parsed, text) == read,
        parsed is None ==> parsed_or_string(parsed, text) == JsonTree::String(text),
        value is None ==> opt_tree(value) is None,
        value matches Some(value) ==> opt_tree(Some(value)) == Some(json_tree(value)),
{
}

} // verus!
