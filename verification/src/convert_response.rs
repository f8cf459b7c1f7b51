//! From the events of a chat stream to response events.

use vstd::prelude::*;
use vstd::string::*;

use crate::chat::{
    ChatStreamEvent, ChatStreamEventView, StopReason, StreamChunk, StreamEnd, StreamEndView,
    ToolChunk, Usage,
};
use crate::json::{json_raw_text, raw_text};
use crate::protocol::{
    ContentItem, ContentItemView, ReasoningItemContent, ReasoningItemContentView, ResponseEvent,
    ResponseEventView, ResponseItem, ResponseItemView, TokenUsage,
};
use crate::text::{byte_len, decimal, decimal_text, has_prefix, text_after};
use crate::types::{
    find_call, has_id, position_of_call, put_call, store_call, PendingAssistantMessage,
    PendingToolCall, PendingToolCallView, PendingView,
};

verus! {

/// The id of the message item of a response.
pub open spec fn message_item_id(p: PendingView) -> Seq<char> {
    "txt_"@ + decimal(byte_len(p.text) as nat)
}

/// The id of the reasoning item of a response.
pub open spec fn reasoning_item_id(p: PendingView) -> Seq<char> {
    "rsn_"@ + decimal(p.reasoning_content_index)
}

/// The event that opens the message item of a response.
pub open spec fn message_opened(id: Seq<char>) -> ResponseEventView {
    ResponseEventView::OutputItemAdded(
        ResponseItemView::Message {
            id: Some(id),
            role: "assistant"@,
            content: Seq::empty(),
            phase: None,
        },
    )
}

/// The message item opened, where it is not open yet, and the events that say so.
pub open spec fn open_message(p: PendingView) -> (PendingView, Seq<ResponseEventView>) {
    if p.text_item_added {
        (p, Seq::empty())
    } else {
        (
            PendingView {
                text_item_added: true,
                text_item_id: Some(message_item_id(p)),
                ..p
            },
            seq![message_opened(message_item_id(p))],
        )
    }
}

/// A piece of text.
pub open spec fn text_step(p: PendingView, content: Seq<char>) -> (
    PendingView,
    Seq<ResponseEventView>,
) {
    let (q, opened) = open_message(p);
    (
        PendingView { text: q.text + content, ..q },
        opened.push(ResponseEventView::OutputTextDelta(content)),
    )
}

/// A piece of reasoning.
pub open spec fn reasoning_step(p: PendingView, content: Seq<char>) -> (
    PendingView,
    Seq<ResponseEventView>,
) {
    let (q, opened) = open_message(p);
    (
        PendingView {
            reasoning: q.reasoning + content,
            reasoning_content_index: q.reasoning_content_index + 1,
            ..q
        },
        opened.push(
            ResponseEventView::ReasoningContentDelta {
                delta: content,
                content_index: p.reasoning_content_index as i64,
            },
        ),
    )
}

/// A thought signature.
pub open spec fn signature_step(p: PendingView, content: Seq<char>) -> (
    PendingView,
    Seq<ResponseEventView>,
) {
    let (q, opened) = open_message(p);
    (
        PendingView {
            thought_signatures: q.thought_signatures.push(content),
            reasoning_content_index: q.reasoning_content_index + 1,
            ..q
        },
        opened.push(
            ResponseEventView::ReasoningContentDelta {
                delta: content,
                content_index: p.reasoning_content_index as i64,
            },
        ),
    )
}

/// What of `accumulated` has come since `previous`: what goes beyond it where it continues it, all
/// of it otherwise.
pub open spec fn new_part(previous: Seq<char>, accumulated: Seq<char>) -> Seq<char> {
    if previous.len() < accumulated.len() && previous.is_prefix_of(accumulated) {
        accumulated.skip(previous.len() as int)
    } else {
        accumulated
    }
}

/// What of the arguments of call `id` has come since its last chunk.
pub open spec fn argument_delta(
    calls: Seq<PendingToolCallView>,
    id: Seq<char>,
    accumulated: Seq<char>,
) -> Seq<char> {
    match find_call(calls, id) {
        Some(call) => new_part(call.arguments, accumulated),
        None => accumulated,
    }
}

/// The event that opens the item of a tool call.
pub open spec fn tool_opened(id: Seq<char>, name: Seq<char>) -> ResponseEventView {
    ResponseEventView::OutputItemAdded(
        ResponseItemView::CustomToolCall {
            id: Some(id),
            status: None,
            call_id: id,
            name,
            input: Seq::empty(),
        },
    )
}

/// A tool call of which the arguments have come as far as `accumulated`.
pub open spec fn tool_step(
    p: PendingView,
    id: Seq<char>,
    name: Seq<char>,
    accumulated: Seq<char>,
) -> (PendingView, Seq<ResponseEventView>) {
    let delta = argument_delta(p.tool_calls, id, accumulated);
    let known = p.tool_items_added.contains(id);
    (
        PendingView {
            tool_calls: put_call(
                p.tool_calls,
                PendingToolCallView { id, name, arguments: accumulated },
            ),
            tool_items_added: if known {
                p.tool_items_added
            } else {
                p.tool_items_added.push(id)
            },
            ..p
        },
        (if known {
            Seq::empty()
        } else {
            seq![tool_opened(id, name)]
        }) + (if delta.len() == 0 {
            Seq::empty()
        } else {
            seq![
                ResponseEventView::ToolCallInputDelta { item_id: id, call_id: Some(id), delta },
            ]
        }),
    )
}

/// A token count that may be missing.
pub open spec fn count_or_zero(count: Option<i32>) -> i64 {
    match count {
        Some(n) => n as i64,
        None => 0,
    }
}

/// The usage of a chat stream in the agent's terms; a count that is missing is zero.
pub open spec fn token_usage(usage: Usage) -> TokenUsage {
    TokenUsage {
        input_tokens: count_or_zero(usage.prompt_tokens),
        cached_input_tokens: match usage.prompt_tokens_details {
            Some(details) => count_or_zero(details.cached_tokens),
            None => 0,
        },
        output_tokens: count_or_zero(usage.completion_tokens),
        reasoning_output_tokens: match usage.completion_tokens_details {
            Some(details) => count_or_zero(details.reasoning_tokens),
            None => 0,
        },
        total_tokens: count_or_zero(usage.total_tokens),
    }
}

/// The message item that the end of the stream closes.
pub open spec fn message_done(p: PendingView) -> ResponseItemView {
    ResponseItemView::Message {
        id: p.text_item_id,
        role: "assistant"@,
        content: if p.text.len() == 0 {
            Seq::empty()
        } else {
            seq![ContentItemView::OutputText { text: p.text }]
        },
        phase: None,
    }
}

/// The reasoning item that the end of the stream adds and closes.
pub open spec fn reasoning_done(p: PendingView) -> ResponseItemView {
    ResponseItemView::Reasoning {
        id: reasoning_item_id(p),
        summary: Seq::empty(),
        content: Some(seq![ReasoningItemContentView::ReasoningText { text: p.reasoning }]),
        encrypted_content: Some(p.reasoning),
    }
}

/// The function call item that the end of the stream closes.
pub open spec fn call_done(call: PendingToolCallView) -> ResponseItemView {
    ResponseItemView::FunctionCall {
        id: Some(call.id),
        name: call.name,
        namespace: None,
        arguments: call.arguments,
        call_id: call.id,
    }
}

/// Whether there is text or reasoning for a message item.
pub open spec fn has_message(p: PendingView) -> bool {
    p.text.len() > 0 || p.reasoning.len() > 0
}

/// The events that close the items of a response: its message, its reasoning, its tool calls in
/// the order of their ids.
pub open spec fn closing_events(p: PendingView) -> Seq<ResponseEventView> {
    (if has_message(p) {
        seq![ResponseEventView::OutputItemDone(message_done(p))]
    } else {
        Seq::empty()
    }) + (if p.reasoning.len() > 0 {
        seq![
            ResponseEventView::OutputItemAdded(reasoning_done(p)),
            ResponseEventView::OutputItemDone(reasoning_done(p)),
        ]
    } else {
        Seq::empty()
    }) + p.tool_calls.map_values(
        |call: PendingToolCallView| ResponseEventView::OutputItemDone(call_done(call)),
    )
}

/// The event that ends a response.
pub open spec fn completed(end: StreamEndView) -> ResponseEventView {
    ResponseEventView::Completed {
        response_id: match end.response_id {
            Some(id) => id,
            None => Seq::empty(),
        },
        token_usage: match end.usage {
            Some(usage) => Some(token_usage(usage)),
            None => None,
        },
        end_turn: match end.stop_reason {
            Some(reason) => Some(!reason.is_tool_call),
            None => None,
        },
    }
}

/// The end of the stream.
pub open spec fn end_step(p: PendingView, end: StreamEndView) -> (
    PendingView,
    Seq<ResponseEventView>,
) {
    (
        PendingView {
            text: Seq::empty(),
            reasoning: Seq::empty(),
            tool_calls: Seq::empty(),
            finish_reason: match end.stop_reason {
                Some(reason) => Some(reason.word),
                None => None,
            },
            token_usage: None,
            response_id: end.response_id,
            text_item_id: if has_message(p) {
                None
            } else {
                p.text_item_id
            },
            ..p
        },
        closing_events(p).push(completed(end)),
    )
}

/// What an event of the chat stream makes of a pending message, and the response events for it.
pub open spec fn step(p: PendingView, event: ChatStreamEventView) -> (
    PendingView,
    Seq<ResponseEventView>,
) {
    match event {
        ChatStreamEventView::Start => (p, seq![ResponseEventView::Created]),
        ChatStreamEventView::Chunk(content) => text_step(p, content),
        ChatStreamEventView::ReasoningChunk(content) => reasoning_step(p, content),
        ChatStreamEventView::ThoughtSignatureChunk(content) => signature_step(p, content),
        ChatStreamEventView::ToolCallChunk(call) => tool_step(
            p,
            call.call_id,
            call.fn_name,
            raw_text(call.fn_arguments),
        ),
        ChatStreamEventView::End(end) => end_step(p, end),
    }
}

/// Whether an event takes a reasoning index.
pub open spec fn takes_index(event: ChatStreamEventView) -> bool {
    event is ReasoningChunk || event is ThoughtSignatureChunk
}

/// Converts an event of a chat stream into zero or more response events.
///
/// One `End` event can fan out into several response events, such as `OutputItemDone` and
/// `Completed`.
pub fn chat_event_to_response_event(
    event: ChatStreamEvent,
    pending: &mut PendingAssistantMessage,
) -> (events: Vec<ResponseEvent>)
    requires
        takes_index(event.deep_view()) ==> old(pending).reasoning_content_index < u64::MAX,
    ensures
        final(pending).deep_view() == step(old(pending).deep_view(), event.deep_view()).0,
        events.deep_view() == step(old(pending).deep_view(), event.deep_view()).1,
{
    let ghost before = pending.deep_view();
    match event {
        ChatStreamEvent::Start => {
            let events: Vec<ResponseEvent> = vec![ResponseEvent::Created];
            proof {
                assert(events.deep_view() =~= seq![ResponseEventView::Created]);
            }
            events
        },
        ChatStreamEvent::Chunk(StreamChunk { content }) => {
            let mut events: Vec<ResponseEvent> = Vec::new();
            ensure_message_item_added(pending, &mut events);
            pending.text_buffer.append(content.as_str());
            let ghost opened = events.deep_view();
            events.push(ResponseEvent::OutputTextDelta(content));
            proof {
                assert(opened =~= open_message(before).1);
                assert(events.deep_view() =~= opened.push(
                    ResponseEventView::OutputTextDelta(content@),
                ));
            }
            events
        },
        ChatStreamEvent::ReasoningChunk(StreamChunk { content }) => {
            let mut events: Vec<ResponseEvent> = Vec::new();
            ensure_message_item_added(pending, &mut events);
            let index: u64 = pending.reasoning_content_index;
            pending.reasoning_content_index = index + 1;
            pending.reasoning_buffer.append(content.as_str());
            let ghost opened = events.deep_view();
            events.push(
                ResponseEvent::ReasoningContentDelta {
                    delta: content,
                    content_index: index as i64,
                },
            );
            proof {
                assert(opened =~= open_message(before).1);
                assert(events.deep_view() =~= opened.push(events@.last().deep_view()));
            }
            events
        },
        ChatStreamEvent::ThoughtSignatureChunk(StreamChunk { content }) => {
            let mut events: Vec<ResponseEvent> = Vec::new();
            ensure_message_item_added(pending, &mut events);
            let index: u64 = pending.reasoning_content_index;
            pending.reasoning_content_index = index + 1;
            pending.thought_signatures.push(content.clone());
            let ghost opened = events.deep_view();
            events.push(
                ResponseEvent::ReasoningContentDelta {
                    delta: content,
                    content_index: index as i64,
                },
            );
            proof {
                assert(opened =~= open_message(before).1);
                assert(events.deep_view() =~= opened.push(events@.last().deep_view()));
                assert(pending.thought_signatures.deep_view() =~= before.thought_signatures.push(
                    content@,
                ));
            }
            events
        },
        ChatStreamEvent::ToolCallChunk(ToolChunk { tool_call }) => {
            // A streaming chunk holds the arguments so far as a JSON string: its text counts, not
            // its JSON form with quotes.
            let accumulated: String = json_raw_text(&tool_call.fn_arguments);
            handle_tool_arguments(tool_call.call_id, tool_call.fn_name, accumulated, pending)
        },
        ChatStreamEvent::End(end) => handle_stream_end(end, pending),
    }
}

/// Takes in a tool call of which the arguments have come as far as `accumulated`.
pub fn handle_tool_arguments(
    call_id: String,
    fn_name: String,
    accumulated: String,
    pending: &mut PendingAssistantMessage,
) -> (events: Vec<ResponseEvent>)
    ensures
        final(pending).deep_view() == tool_step(
            old(pending).deep_view(),
            call_id@,
            fn_name@,
            accumulated@,
        ).0,
        events.deep_view() == tool_step(
            old(pending).deep_view(),
            call_id@,
            fn_name@,
            accumulated@,
        ).1,
        !old(pending).tool_items_added.deep_view().contains(call_id@) ==> {
            &&& events@.len() > 0
            &&& events@[0] matches ResponseEvent::OutputItemAdded(item)
            &&& item matches ResponseItem::CustomToolCall {
                id,
                status,
                call_id: opened_id,
                name,
                input,
            }
            &&& id matches Some(item_id)
            &&& item_id@ == call_id@
            &&& status is None
            &&& opened_id@ == call_id@
            &&& name@ == fn_name@
            &&& input@.len() == 0
        },
{
    let ghost before = pending.deep_view();
    let delta: String = match position_of_call(&pending.tool_calls, &call_id) {
        Some(i) => new_text(
            pending.tool_calls[i].arguments_buffer.as_str(),
            accumulated.as_str(),
        ),
        None => accumulated.clone(),
    };

    let mut events: Vec<ResponseEvent> = Vec::new();

    // The item is opened before its first delta.
    if !has_id(&pending.tool_items_added, &call_id) {
        pending.tool_items_added.push(call_id.clone());
        events.push(
            ResponseEvent::OutputItemAdded(
                ResponseItem::CustomToolCall {
                    id: Some(call_id.clone()),
                    status: None,
                    call_id: call_id.clone(),
                    name: fn_name.clone(),
                    input: String::new(),
                },
            ),
        );
        proof {
            assert(pending.tool_items_added.deep_view() =~= before.tool_items_added.push(call_id@));
            assert(events.deep_view() =~= seq![tool_opened(call_id@, fn_name@)]);
        }
    } else {
        proof {
            assert(events.deep_view() =~= Seq::empty());
        }
    }
    let ghost opened = events.deep_view();
    let ghost opening = events@;

    store_call(
        &mut pending.tool_calls,
        PendingToolCall {
            id: call_id.clone(),
            name: fn_name,
            arguments_buffer: accumulated,
        },
    );

    if !delta.as_str().is_empty() {
        let ghost added = ResponseEventView::ToolCallInputDelta {
            item_id: call_id@,
            call_id: Some(call_id@),
            delta: delta@,
        };
        events.push(
            ResponseEvent::ToolCallInputDelta {
                item_id: call_id.clone(),
                call_id: Some(call_id),
                delta,
            },
        );
        proof {
            assert(events@.last().deep_view() == added);
            assert(events.deep_view() =~= opened + seq![added]);
            assert(opening.len() > 0 ==> events@[0] == opening[0]);
        }
    } else {
        proof {
            assert(opened + Seq::empty() =~= opened);
        }
    }
    events
}

/// What of `accumulated` has come since `previous`.
fn new_text(previous: &str, accumulated: &str) -> (delta: String)
    ensures
        delta@ == new_part(previous@, accumulated@),
{
    let count: usize = previous.unicode_len();
    if accumulated.unicode_len() > count && has_prefix(accumulated, previous) {
        text_after(accumulated, count)
    } else {
        accumulated.to_owned()
    }
}

/// A token count that may be missing.
fn tokens_or_zero(count: Option<i32>) -> (n: i64)
    ensures
        n == count_or_zero(count),
{
    match count {
        Some(n) => n as i64,
        None => 0,
    }
}

/// The usage of a chat stream in the agent's terms.
fn convert_usage(usage: &Usage) -> (converted: TokenUsage)
    ensures
        converted == token_usage(*usage),
{
    TokenUsage {
        input_tokens: tokens_or_zero(usage.prompt_tokens),
        cached_input_tokens: match usage.prompt_tokens_details {
            Some(details) => tokens_or_zero(details.cached_tokens),
            None => 0,
        },
        output_tokens: tokens_or_zero(usage.completion_tokens),
        reasoning_output_tokens: match usage.completion_tokens_details {
            Some(details) => tokens_or_zero(details.reasoning_tokens),
            None => 0,
        },
        total_tokens: tokens_or_zero(usage.total_tokens),
    }
}

/// Takes a text out of its place and leaves nothing there.
fn take_text(place: &mut String) -> (text: String)
    ensures
        text@ == old(place)@,
        final(place)@ == Seq::<char>::empty(),
{
    let mut text: String = String::new();
    core::mem::swap(&mut text, place);
    text
}

/// Closes what is pending at the end of the stream.
pub fn handle_stream_end(end: StreamEnd, pending: &mut PendingAssistantMessage) -> (events: Vec<
    ResponseEvent,
>)
    ensures
        final(pending).deep_view() == end_step(old(pending).deep_view(), end.deep_view()).0,
        events.deep_view() == end_step(old(pending).deep_view(), end.deep_view()).1,
        events@.len() > 0,
        events@.last() matches ResponseEvent::Completed { end_turn, .. } && (
        match end.captured_stop_reason {
            Some(StopReason::ToolCall(_)) => end_turn == Some(false),
            Some(_) => end_turn == Some(true),
            None => end_turn is None,
        }),
{
    let ghost before = pending.deep_view();
    let mut events: Vec<ResponseEvent> = Vec::new();

    pending.finish_reason = match &end.captured_stop_reason {
        Some(reason) => Some(reason.raw().to_owned()),
        None => None,
    };
    pending.token_usage = match &end.captured_usage {
        Some(usage) => Some(convert_usage(usage)),
        None => None,
    };
    pending.response_id = end.captured_response_id;

    // The assistant message, where there was text or reasoning.
    if !pending.text_buffer.as_str().is_empty() || !pending.reasoning_buffer.as_str().is_empty() {
        let mut content: Vec<ContentItem> = Vec::new();
        if !pending.text_buffer.as_str().is_empty() {
            content.push(ContentItem::OutputText { text: take_text(&mut pending.text_buffer) });
        }
        proof {
            assert(before.text.len() == 0 ==> before.text =~= Seq::empty());
            assert(before.text.len() == 0 ==> content.deep_view() =~= Seq::empty());
            assert(before.text.len() > 0 ==> content.deep_view() =~= seq![
                ContentItemView::OutputText { text: before.text },
            ]);
        }
        events.push(
            ResponseEvent::OutputItemDone(
                ResponseItem::Message {
                    id: pending.text_item_id.take(),
                    role: "assistant".to_owned(),
                    content,
                    phase: None,
                },
            ),
        );
        proof {
            assert(events.deep_view() =~= seq![
                ResponseEventView::OutputItemDone(message_done(before)),
            ]);
        }
    } else {
        proof {
            assert(before.text =~= Seq::empty());
            assert(events.deep_view() =~= Seq::empty());
        }
    }
    let ghost first = events.deep_view();

    // The reasoning as an item of its own, so that it can be sent back to providers that ask for
    // it in later requests.
    if !pending.reasoning_buffer.as_str().is_empty() {
        let text: String = take_text(&mut pending.reasoning_buffer);
        let index: u64 = pending.reasoning_content_index;
        push_reasoning_item(text, index, &mut events);
        proof {
            assert(events.deep_view() =~= first + seq![
                ResponseEventView::OutputItemAdded(reasoning_done(before)),
                ResponseEventView::OutputItemDone(reasoning_done(before)),
            ]);
        }
    } else {
        proof {
            assert(before.reasoning =~= Seq::empty());
            assert(first + Seq::empty() =~= first);
        }
    }
    let ghost second = events.deep_view();

    // Each tool call as a function call.
    let mut calls: Vec<PendingToolCall> = Vec::new();
    core::mem::swap(&mut calls, &mut pending.tool_calls);
    proof {
        assert(pending.tool_calls.deep_view() =~= Seq::empty());
    }
    push_calls(calls, &mut events);
    let ghost third = events.deep_view();

    let end_turn: Option<bool> = match &end.captured_stop_reason {
        Some(StopReason::ToolCall(_)) => Some(false),
        Some(_) => Some(true),
        None => None,
    };
    let response_id: String = match &pending.response_id {
        Some(id) => id.clone(),
        None => String::new(),
    };
    events.push(
        ResponseEvent::Completed {
            response_id,
            token_usage: pending.token_usage.take(),
            end_turn,
        },
    );
    proof {
        assert(events@.last().deep_view() == completed(end.deep_view()));
        assert(events.deep_view() =~= third.push(completed(end.deep_view())));
        assert(third =~= closing_events(before));
    }
    events
}

/// Adds the events that add and close the reasoning item.
fn push_reasoning_item(text: String, index: u64, events: &mut Vec<ResponseEvent>)
    ensures
        final(events).deep_view() == old(events).deep_view() + ({
            let item = ResponseItemView::Reasoning {
                id: "rsn_"@ + decimal(index as nat),
                summary: Seq::empty(),
                content: Some(seq![ReasoningItemContentView::ReasoningText { text: text@ }]),
                encrypted_content: Some(text@),
            };
            seq![
                ResponseEventView::OutputItemAdded(item),
                ResponseEventView::OutputItemDone(item),
            ]
        }),
{
    let ghost before = events.deep_view();
    let added: ResponseItem = reasoning_item(text.clone(), index);
    let done: ResponseItem = reasoning_item(text, index);
    events.push(ResponseEvent::OutputItemAdded(added));
    events.push(ResponseEvent::OutputItemDone(done));
    proof {
        assert(events.deep_view() =~= before + seq![
            ResponseEventView::OutputItemAdded(added.deep_view()),
            ResponseEventView::OutputItemDone(done.deep_view()),
        ]);
    }
}

/// The reasoning item with this text.
fn reasoning_item(text: String, index: u64) -> (item: ResponseItem)
    ensures
        item.deep_view() == (ResponseItemView::Reasoning {
            id: "rsn_"@ + decimal(index as nat),
            summary: Seq::empty(),
            content: Some(seq![ReasoningItemContentView::ReasoningText { text: text@ }]),
            encrypted_content: Some(text@),
        }),
{
    let mut id: String = "rsn_".to_owned();
    id.append(decimal_text(index).as_str());
    let summary: Vec<String> = Vec::new();
    let content: Vec<ReasoningItemContent> = vec![
        ReasoningItemContent::ReasoningText { text: text.clone() },
    ];
    proof {
        assert(summary.deep_view() =~= Seq::empty());
        assert(content.deep_view() =~= seq![
            ReasoningItemContentView::ReasoningText { text: text@ },
        ]);
    }
    ResponseItem::Reasoning { id, summary, content: Some(content), encrypted_content: Some(text) }
}

/// Adds the event that closes it for each call, in order.
fn push_calls(calls: Vec<PendingToolCall>, events: &mut Vec<ResponseEvent>)
    ensures
        final(events).deep_view() == old(events).deep_view() + calls.deep_view().map_values(
            |call: PendingToolCallView| ResponseEventView::OutputItemDone(call_done(call)),
        ),
{
    let ghost before = events.deep_view();
    let ghost close = |call: PendingToolCallView|
        ResponseEventView::OutputItemDone(call_done(call));
    let mut i: usize = 0;
    proof {
        assert(before + calls.deep_view().take(0).map_values(close) =~= before);
    }
    while i < calls.len()
        invariant
            i <= calls@.len(),
            close == (|call: PendingToolCallView| ResponseEventView::OutputItemDone(
                call_done(call),
            )),
            events.deep_view() == before + calls.deep_view().take(i as int).map_values(close),
        decreases calls@.len() - i,
    {
        let call: &PendingToolCall = &calls[i];
        let ghost so_far = events.deep_view();
        events.push(
            ResponseEvent::OutputItemDone(
                ResponseItem::FunctionCall {
                    id: Some(call.id.clone()),
                    name: call.name.clone(),
                    namespace: None,
                    arguments: call.arguments_buffer.clone(),
                    call_id: call.id.clone(),
                },
            ),
        );
        proof {
            assert(events@.last().deep_view() == close(calls.deep_view()[i as int]));
            assert(events.deep_view() =~= so_far.push(close(calls.deep_view()[i as int])));
            assert(calls.deep_view().take(i + 1).map_values(close) =~= calls.deep_view().take(
                i as int,
            ).map_values(close).push(close(calls.deep_view()[i as int])));
        }
        i = i + 1;
    }
    proof {
        assert(calls.deep_view().take(i as int) =~= calls.deep_view());
    }
}

/// Opens the message item, once, before any text or reasoning delta.
pub fn ensure_message_item_added(
    pending: &mut PendingAssistantMessage,
    events: &mut Vec<ResponseEvent>,
)
    ensures
        final(pending).deep_view() == open_message(old(pending).deep_view()).0,
        final(events).deep_view() == old(events).deep_view() + open_message(
            old(pending).deep_view(),
        ).1,
{
    let ghost before = pending.deep_view();
    let ghost so_far = events.deep_view();
    if !pending.text_item_added {
        pending.text_item_added = true;
        let mut id: String = "txt_".to_owned();
        id.append(decimal_text(pending.text_buffer.as_str().len() as u64).as_str());
        pending.text_item_id = Some(id.clone());
        let content: Vec<ContentItem> = Vec::new();
        proof {
            assert(content.deep_view() =~= Seq::empty());
        }
        events.push(
            ResponseEvent::OutputItemAdded(
                ResponseItem::Message {
                    id: Some(id),
                    role: "assistant".to_owned(),
                    content,
                    phase: None,
                },
            ),
        );
        proof {
            assert(events@.last().deep_view() == message_opened(message_item_id(before)));
            assert(events.deep_view() =~= so_far + seq![message_opened(message_item_id(before))]);
        }
    } else {
        proof {
            assert(so_far + Seq::empty() =~= so_far);
        }
    }
}

} // verus!
