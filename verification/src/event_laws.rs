//! What each event of a chat stream brings about, event by event.

use vstd::prelude::*;

use crate::chat::{
    ChatStreamEvent, ChatStreamEventView, StopReason, StreamChunk, StreamEnd, ToolCall, ToolChunk,
};
use crate::convert_response::{end_step, open_message, step, tool_step};
use crate::json::{json_text, json_tree, raw_text, JsonTree};
use crate::protocol::{
    ContentItemView, ReasoningItemContentView, ResponseEventView, ResponseItemView,
};
use crate::response_laws::{
    is_open, law_find_other_call, law_find_put_call, law_put_call_in_order, law_well_formed,
    lemma_run_add, pending_after, response, run,
};
use crate::text::{byte_len, decimal, lemma_less_irreflexive, text_less};
use crate::types::{find_call, in_order, nothing_pending, PendingToolCallView, PendingView};

verus! {

/// The start of a chat stream says that the response was created, and changes nothing.
pub proof fn law_start(p: PendingView)
    ensures
        step(p, ChatStreamEvent::Start.deep_view()) == (p, seq![ResponseEventView::Created]),
{
}

/// Whether `delta` goes out: alone where the message item is open, and behind the event that opens
/// an empty message of the assistant where it is not. The id in that event is kept for the end.
pub open spec fn goes_out_in_message(
    p: PendingView,
    q: PendingView,
    out: Seq<ResponseEventView>,
    delta: ResponseEventView,
) -> bool {
    &&& q.text_item_added
    &&& if p.text_item_added {
        &&& out == seq![delta]
        &&& q.text_item_id == p.text_item_id
    } else {
        &&& q.text_item_id == Some("txt_"@ + decimal(byte_len(p.text) as nat))
        &&& out.len() == 2
        &&& out[1] == delta
        &&& out[0] matches ResponseEventView::OutputItemAdded(item)
        &&& item matches ResponseItemView::Message { id, role, content, phase }
        &&& id == q.text_item_id
        &&& role == "assistant"@
        &&& content.len() == 0
        &&& phase is None
    }
}

/// Whether nothing of what is pending differs but the text, the reasoning, the thought signatures,
/// the reasoning index and the message item.
pub open spec fn same_but_message(p: PendingView, q: PendingView) -> bool {
    &&& q.tool_calls == p.tool_calls
    &&& q.tool_items_added == p.tool_items_added
    &&& q.finish_reason == p.finish_reason
    &&& q.token_usage == p.token_usage
    &&& q.response_id == p.response_id
}

/// A chunk of text goes out as it came and is added to the pending text.
pub proof fn law_text_chunk(p: PendingView, chunk: StreamChunk)
    ensures
        ({
            let (q, out) = step(p, ChatStreamEvent::Chunk(chunk).deep_view());
            &&& goes_out_in_message(
                p,
                q,
                out,
                ResponseEventView::OutputTextDelta(chunk.content@),
            )
            &&& q.text == p.text + chunk.content@
            &&& q.reasoning == p.reasoning
            &&& q.thought_signatures == p.thought_signatures
            &&& q.reasoning_content_index == p.reasoning_content_index
            &&& same_but_message(p, q)
        }),
{
}

/// A chunk of reasoning goes out as it came, under the next index, and is added to the pending
/// reasoning.
pub proof fn law_reasoning_chunk(p: PendingView, chunk: StreamChunk)
    ensures
        ({
            let (q, out) = step(p, ChatStreamEvent::ReasoningChunk(chunk).deep_view());
            &&& goes_out_in_message(
                p,
                q,
                out,
                ResponseEventView::ReasoningContentDelta {
                    delta: chunk.content@,
                    content_index: p.reasoning_content_index as i64,
                },
            )
            &&& q.text == p.text
            &&& q.reasoning == p.reasoning + chunk.content@
            &&& q.thought_signatures == p.thought_signatures
            &&& q.reasoning_content_index == p.reasoning_content_index + 1
            &&& same_but_message(p, q)
        }),
{
}

/// A thought signature goes out as a reasoning delta, under the next index, and is kept apart from
/// the pending reasoning.
pub proof fn law_signature_chunk(p: PendingView, chunk: StreamChunk)
    ensures
        ({
            let (q, out) = step(p, ChatStreamEvent::ThoughtSignatureChunk(chunk).deep_view());
            &&& goes_out_in_message(
                p,
                q,
                out,
                ResponseEventView::ReasoningContentDelta {
                    delta: chunk.content@,
                    content_index: p.reasoning_content_index as i64,
                },
            )
            &&& q.text == p.text
            &&& q.reasoning == p.reasoning
            &&& q.thought_signatures == p.thought_signatures.push(chunk.content@)
            &&& q.reasoning_content_index == p.reasoning_content_index + 1
            &&& same_but_message(p, q)
        }),
{
}

/// The message item is opened as an empty message of the assistant, with an id that is kept, where
/// it is not open; where it is, nothing happens. Nothing else that is pending changes.
pub proof fn law_message_opening(p: PendingView)
    ensures
        ({
            let (q, out) = open_message(p);
            &&& p.text_item_added ==> q == p && out.len() == 0
            &&& !p.text_item_added ==> {
                &&& out.len() == 1
                &&& forall|delta: ResponseEventView|
                    goes_out_in_message(p, q, #[trigger] out.push(delta), delta)
                &&& q.text == p.text
                &&& q.reasoning == p.reasoning
                &&& q.thought_signatures == p.thought_signatures
                &&& q.reasoning_content_index == p.reasoning_content_index
                &&& same_but_message(p, q)
            }
        }),
{
}

/// The event that opens the item of the call `id` of the tool `name`: with that id as item id and
/// as call id, that name, and no input yet.
pub open spec fn opens_call(event: ResponseEventView, id: Seq<char>, name: Seq<char>) -> bool {
    event matches ResponseEventView::OutputItemAdded(item)
        && item == (ResponseItemView::CustomToolCall {
        id: Some(id),
        status: None,
        call_id: id,
        name,
        input: Seq::empty(),
    })
}

/// Whether `out` says that `delta` was added to the input of the call `id`, and nothing else: in one
/// event, or in none where `delta` is empty.
pub open spec fn says_input(
    out: Seq<ResponseEventView>,
    id: Seq<char>,
    delta: Seq<char>,
) -> bool {
    out == (if delta.len() == 0 {
        Seq::<ResponseEventView>::empty()
    } else {
        seq![ResponseEventView::ToolCallInputDelta { item_id: id, call_id: Some(id), delta }]
    })
}

/// A call of which nothing is pending says all of its arguments. Its item is opened first, under
/// the call's own id and the name that came with it, where that was not done before.
pub proof fn law_new_call(p: PendingView, id: Seq<char>, name: Seq<char>, arguments: Seq<char>)
    requires
        forall|i: int| 0 <= i < p.tool_calls.len() ==> (#[trigger] p.tool_calls[i]).id != id,
    ensures
        ({
            let (q, out) = tool_step(p, id, name, arguments);
            if p.tool_items_added.contains(id) {
                &&& says_input(out, id, arguments)
                &&& q.tool_items_added == p.tool_items_added
            } else {
                &&& out.len() > 0
                &&& opens_call(out[0], id, name)
                &&& says_input(out.skip(1), id, arguments)
                &&& q.tool_items_added == p.tool_items_added.push(id)
            }
        }),
{
    lemma_no_call(p.tool_calls, id);
    let out = tool_step(p, id, name, arguments).1;
    if !p.tool_items_added.contains(id) {
        if arguments.len() == 0 {
            assert(out.skip(1) =~= Seq::empty());
        } else {
            assert(out.skip(1) =~= seq![out[1]]);
        }
    } else if arguments.len() == 0 {
        assert(out =~= Seq::empty());
    } else {
        assert(out =~= seq![out[0]]);
    }
}

/// A call that is pending says what its arguments go beyond those pending, all of them where they
/// do not continue them. Its item is not opened again.
pub proof fn law_pending_call(
    p: PendingView,
    i: int,
    name: Seq<char>,
    arguments: Seq<char>,
    beyond: Seq<char>,
)
    requires
        p.well_formed(),
        0 <= i < p.tool_calls.len(),
    ensures
        ({
            let id = p.tool_calls[i].id;
            let pending = p.tool_calls[i].arguments;
            let (q, out) = tool_step(p, id, name, arguments);
            &&& q.tool_items_added == p.tool_items_added
            &&& beyond.len() > 0 && arguments == pending + beyond ==> says_input(out, id, beyond)
            &&& !(arguments.len() > pending.len() && pending.is_prefix_of(arguments)) ==> says_input(
                out,
                id,
                arguments,
            )
        }),
{
    let id = p.tool_calls[i].id;
    let pending = p.tool_calls[i].arguments;
    let out = tool_step(p, id, name, arguments).1;
    lemma_call_at(p.tool_calls, i);
    assert(p.tool_items_added.contains(id));
    if beyond.len() > 0 && arguments == pending + beyond {
        assert(pending.is_prefix_of(arguments));
        assert(arguments.skip(pending.len() as int) =~= beyond);
        assert(out =~= seq![out[0]]);
    }
    if !(arguments.len() > pending.len() && pending.is_prefix_of(arguments)) {
        if arguments.len() == 0 {
            assert(out =~= Seq::empty());
        } else {
            assert(out =~= seq![out[0]]);
        }
    }
}

/// A call is pending under its id with the name and the arguments that came last, and no other
/// call changes, comes or goes. Nothing else that is pending changes.
pub proof fn law_call_kept(
    p: PendingView,
    id: Seq<char>,
    name: Seq<char>,
    arguments: Seq<char>,
    other: PendingToolCallView,
)
    requires
        p.well_formed(),
    ensures
        ({
            let q = tool_step(p, id, name, arguments).0;
            &&& q.well_formed()
            &&& q.tool_calls.contains(PendingToolCallView { id, name, arguments })
            &&& other.id == id && q.tool_calls.contains(other) ==> other.name == name
                && other.arguments == arguments
            &&& other.id != id ==> (q.tool_calls.contains(other) <==> p.tool_calls.contains(other))
            &&& q == (PendingView {
                tool_calls: q.tool_calls,
                tool_items_added: q.tool_items_added,
                ..p
            })
        }),
{
    let call = PendingToolCallView { id, name, arguments };
    let q = tool_step(p, id, name, arguments).0;
    law_put_call_in_order(p.tool_calls, call);
    law_find_put_call(p.tool_calls, call);
    lemma_tool_step_well_formed(p, id, name, arguments);
    lemma_found(q.tool_calls, id);
    if q.tool_calls.contains(other) {
        let j = choose|j: int| 0 <= j < q.tool_calls.len() && q.tool_calls[j] == other;
        lemma_call_at(q.tool_calls, j);
    }
    if other.id != id {
        law_find_other_call(p.tool_calls, call, other.id);
        if p.tool_calls.contains(other) {
            let j = choose|j: int| 0 <= j < p.tool_calls.len() && p.tool_calls[j] == other;
            lemma_call_at(p.tool_calls, j);
            lemma_found(q.tool_calls, other.id);
        }
        if q.tool_calls.contains(other) {
            lemma_found(p.tool_calls, other.id);
        }
    }
}

proof fn lemma_tool_step_well_formed(
    p: PendingView,
    id: Seq<char>,
    name: Seq<char>,
    arguments: Seq<char>,
)
    requires
        p.well_formed(),
    ensures
        tool_step(p, id, name, arguments).0.well_formed(),
{
    let call = PendingToolCallView { id, name, arguments };
    let q = tool_step(p, id, name, arguments).0;
    let ids = p.tool_items_added;
    law_put_call_in_order(p.tool_calls, call);
    assert forall|x: Seq<char>| ids.contains(x) implies q.tool_items_added.contains(x) by {
        let j = choose|j: int| 0 <= j < ids.len() && ids[j] == x;
        assert(q.tool_items_added[j] == x);
    }
    if !ids.contains(id) {
        assert(q.tool_items_added.last() == id);
        assert forall|i: int, j: int|
            0 <= i < q.tool_items_added.len() && 0 <= j < q.tool_items_added.len() && i
                != j implies q.tool_items_added[i] != q.tool_items_added[j] by {
            if i < ids.len() {
                assert(ids.contains(ids[i]));
            }
            if j < ids.len() {
                assert(ids.contains(ids[j]));
            }
        }
    }
    assert forall|i: int| 0 <= i < q.tool_calls.len() implies q.tool_items_added.contains(
        (#[trigger] q.tool_calls[i]).id,
    ) by {
        if q.tool_calls[i].id != id {
            let j = choose|j: int|
                0 <= j < p.tool_calls.len() && #[trigger] p.tool_calls[j] == q.tool_calls[i];
            assert(ids.contains(p.tool_calls[j].id));
        }
    }
}

/// No call is found where none has the id.
proof fn lemma_no_call(calls: Seq<PendingToolCallView>, id: Seq<char>)
    requires
        forall|i: int| 0 <= i < calls.len() ==> (#[trigger] calls[i]).id != id,
    ensures
        find_call(calls, id) is None,
    decreases calls.len(),
{
    if calls.len() > 0 {
        let rest = calls.drop_first();
        assert(calls[0].id != id);
        assert forall|i: int| 0 <= i < rest.len() implies (#[trigger] rest[i]).id != id by {
            assert(rest[i] == calls[i + 1]);
        }
        lemma_no_call(rest, id);
    }
}

/// A call that is found stands among the calls.
proof fn lemma_found(calls: Seq<PendingToolCallView>, id: Seq<char>)
    ensures
        find_call(calls, id) matches Some(call) ==> calls.contains(call) && call.id == id,
    decreases calls.len(),
{
    if calls.len() > 0 {
        if calls[0].id == id {
            assert(calls.contains(calls[0]));
        } else {
            let rest = calls.drop_first();
            lemma_found(rest, id);
            if let Some(call) = find_call(rest, id) {
                let j = choose|j: int| 0 <= j < rest.len() && rest[j] == call;
                assert(calls[j + 1] == call);
            }
        }
    }
}

/// Each of the calls is found under its id.
pub proof fn lemma_call_at(calls: Seq<PendingToolCallView>, i: int)
    requires
        in_order(calls),
        0 <= i < calls.len(),
    ensures
        find_call(calls, calls[i].id) == Some(calls[i]),
    decreases calls.len(),
{
    let id = calls[i].id;
    if i > 0 {
        assert(text_less(calls[0].id, id));
        lemma_less_irreflexive(id);
        let rest = calls.drop_first();
        assert forall|j: int, k: int| 0 <= j < k < rest.len() implies text_less(
            rest[j].id,
            rest[k].id,
        ) by {
            assert(rest[j] == calls[j + 1] && rest[k] == calls[k + 1]);
        }
        lemma_call_at(rest, i - 1);
        assert(rest[i - 1] == calls[i]);
    }
}

/// A chunk of a tool call counts by its id, its name and the text of its arguments: that of a JSON
/// string as it is, the JSON text of any other value.
pub proof fn law_tool_chunk(p: PendingView, call: ToolCall)
    ensures
        ({
            let arguments = match json_tree(call.fn_arguments) {
                JsonTree::String(text) => text,
                other => json_text(other),
            };
            step(p, ChatStreamEvent::ToolCallChunk(ToolChunk { tool_call: call }).deep_view())
                == tool_step(p, call.call_id@, call.fn_name@, arguments)
        }),
{
}

/// A token count, zero where it is missing.
pub open spec fn counts(stated: i64, count: Option<i32>) -> bool {
    &&& count is None ==> stated == 0
    &&& count matches Some(n) ==> stated == n
}

/// Whether the end of a response is told: with the id of the response, empty where none came; with
/// each token count that came, zero where it is missing, or no usage where none came; and with the
/// end of the turn, unless the model stopped to call tools, whatever the provider's word for it.
pub open spec fn tells_end(event: ResponseEventView, end: StreamEnd) -> bool {
    &&& event matches ResponseEventView::Completed { response_id, token_usage, end_turn }
    &&& end.captured_response_id matches Some(id) ==> response_id == id@
    &&& end.captured_response_id is None ==> response_id.len() == 0
    &&& end.captured_usage is None ==> token_usage is None
    &&& end.captured_usage matches Some(usage) ==> {
        &&& token_usage matches Some(told)
        &&& counts(told.input_tokens, usage.prompt_tokens)
        &&& counts(told.output_tokens, usage.completion_tokens)
        &&& counts(told.total_tokens, usage.total_tokens)
        &&& counts(
            told.cached_input_tokens,
            match usage.prompt_tokens_details {
                Some(details) => details.cached_tokens,
                None => None,
            },
        )
        &&& counts(
            told.reasoning_output_tokens,
            match usage.completion_tokens_details {
                Some(details) => details.reasoning_tokens,
                None => None,
            },
        )
    }
    &&& match end.captured_stop_reason {
        Some(StopReason::ToolCall(_)) => end_turn == Some(false),
        Some(_) => end_turn == Some(true),
        None => end_turn is None,
    }
}

/// Whether an item is the message of the assistant with this id and text.
pub open spec fn is_message(
    item: ResponseItemView,
    item_id: Option<Seq<char>>,
    text: Seq<char>,
) -> bool {
    &&& item matches ResponseItemView::Message { id, role, content, phase }
    &&& id == item_id
    &&& role == "assistant"@
    &&& phase is None
    &&& text.len() == 0 ==> content.len() == 0
    &&& text.len() > 0 ==> content == seq![ContentItemView::OutputText { text }]
}

/// Whether an item holds this reasoning, to be read and to be sent back.
pub open spec fn is_reasoning(item: ResponseItemView, index: nat, reasoning: Seq<char>) -> bool {
    &&& item matches ResponseItemView::Reasoning { id, summary, content, encrypted_content }
    &&& id == "rsn_"@ + decimal(index)
    &&& summary.len() == 0
    &&& content == Some(seq![ReasoningItemContentView::ReasoningText { text: reasoning }])
    &&& encrypted_content == Some(reasoning)
}

/// Whether an item is the function call with the id, the name and the arguments of a call.
pub open spec fn is_call(item: ResponseItemView, call: PendingToolCallView) -> bool {
    &&& item matches ResponseItemView::FunctionCall { id, name, namespace, arguments, call_id }
    &&& id == Some(call.id)
    &&& name == call.name
    &&& namespace is None
    &&& arguments == call.arguments
    &&& call_id == call.id
}

/// Whether an event closes the item of a call.
pub open spec fn closes_call(event: ResponseEventView, call: PendingToolCallView) -> bool {
    event matches ResponseEventView::OutputItemDone(item) && is_call(item, call)
}

/// The end of a chat stream closes the message where there was text or reasoning, opens and closes
/// the reasoning where there was any, closes each pending call in order, and tells the end of the
/// response: these events and no other.
pub proof fn law_stream_end(p: PendingView, end: StreamEnd)
    ensures
        ({
            let out = step(p, ChatStreamEvent::End(end).deep_view()).1;
            let spoke = p.text.len() > 0 || p.reasoning.len() > 0;
            let thought = p.reasoning.len() > 0;
            let n: int = if spoke {
                1
            } else {
                0
            };
            let m: int = if thought {
                n + 2
            } else {
                n
            };
            &&& out.len() == m + p.tool_calls.len() + 1
            &&& spoke ==> (out[0] matches ResponseEventView::OutputItemDone(item) && is_message(
                item,
                p.text_item_id,
                p.text,
            ))
            &&& thought ==> {
                &&& out[n] matches ResponseEventView::OutputItemAdded(item)
                &&& is_reasoning(item, p.reasoning_content_index, p.reasoning)
                &&& out[n + 1] == ResponseEventView::OutputItemDone(item)
            }
            &&& forall|i: int|
                0 <= i < p.tool_calls.len() ==> closes_call(#[trigger] out[m + i], p.tool_calls[i])
            &&& tells_end(out.last(), end)
        }),
{
}

/// The end of a chat stream is closed as every end is.
pub proof fn law_end_is_end(p: PendingView, end: StreamEnd)
    ensures
        step(p, ChatStreamEvent::End(end).deep_view()) == end_step(p, end.deep_view()),
{
}

/// After the end of a chat stream no text, reasoning or call is pending, and the reason and the id
/// of the response are kept.
pub proof fn law_after_stream_end(p: PendingView, end: StreamEnd)
    ensures
        ({
            let q = step(p, ChatStreamEvent::End(end).deep_view()).0;
            &&& q.text.len() == 0
            &&& q.reasoning.len() == 0
            &&& q.tool_calls.len() == 0
            &&& q.token_usage is None
            &&& q.text_item_id == (if p.text.len() > 0 || p.reasoning.len() > 0 {
                None
            } else {
                p.text_item_id
            })
            &&& end.captured_response_id matches Some(id) ==> q.response_id == Some(id@)
            &&& end.captured_response_id is None ==> q.response_id is None
            &&& match end.captured_stop_reason {
                Some(StopReason::Completed(word)) => q.finish_reason == Some(word@),
                Some(StopReason::MaxTokens(word)) => q.finish_reason == Some(word@),
                Some(StopReason::ToolCall(word)) => q.finish_reason == Some(word@),
                Some(StopReason::ContentFilter(word)) => q.finish_reason == Some(word@),
                Some(StopReason::StopSequence(word)) => q.finish_reason == Some(word@),
                Some(StopReason::Other(word)) => q.finish_reason == Some(word@),
                None => q.finish_reason is None,
            }
            &&& q.thought_signatures == p.thought_signatures
            &&& q.text_item_added == p.text_item_added
            &&& q.tool_items_added == p.tool_items_added
            &&& q.reasoning_content_index == p.reasoning_content_index
        }),
{
}

/// A stop for tool calls never ends the turn and any other stop does, whatever the provider's word
/// is and whatever is pending.
pub proof fn law_turn_ends(p: PendingView, end: StreamEnd)
    ensures
        ({
            let out = step(p, ChatStreamEvent::End(end).deep_view()).1;
            let end_turn = out.last()->Completed_end_turn;
            &&& out.last() is Completed
            &&& end_turn is Some <==> end.captured_stop_reason is Some
            &&& end_turn == Some(false) <==> (end.captured_stop_reason matches Some(reason)
                && reason is ToolCall)
        }),
{
    law_stream_end(p, end);
}

/// Whether some event of a chat stream is a chunk of the call `id`.
pub open spec fn came(events: Seq<ChatStreamEventView>, id: Seq<char>) -> bool {
    exists|i: int|
        0 <= i < events.len() && (#[trigger] events[i] matches ChatStreamEventView::ToolCallChunk(
            call,
        ) && call.call_id == id)
}

/// The items of the calls that came are open, and no other.
proof fn lemma_opened_came(events: Seq<ChatStreamEventView>, id: Seq<char>)
    ensures
        pending_after(events).tool_items_added.contains(id) <==> came(events, id),
    decreases events.len(),
{
    if events.len() > 0 {
        let before = events.drop_last();
        let p = pending_after(before);
        let q = pending_after(events);
        lemma_opened_came(before, id);
        if came(before, id) {
            let i = choose|i: int|
                0 <= i < before.len() && (
                #[trigger] before[i] matches ChatStreamEventView::ToolCallChunk(call)
                    && call.call_id == id);
            assert(events[i] == before[i]);
            let j = choose|j: int|
                0 <= j < p.tool_items_added.len() && p.tool_items_added[j] == id;
            assert(q.tool_items_added[j] == id);
        }
        if let ChatStreamEventView::ToolCallChunk(call) = events.last() {
            assert(events[events.len() - 1] == events.last());
            if !p.tool_items_added.contains(call.call_id) {
                assert(q.tool_items_added.last() == call.call_id);
            }
        }
        if came(events, id) && !came(before, id) {
            let i = choose|i: int|
                0 <= i < events.len() && (
                #[trigger] events[i] matches ChatStreamEventView::ToolCallChunk(call)
                    && call.call_id == id);
            if i < before.len() {
                assert(before[i] == events[i]);
            }
        }
    }
}

/// The first chunk of a call, wherever it stands in a chat stream and whatever calls came before
/// it, opens an item with the id and the name of that very chunk and without input; then all of its
/// arguments go out under that id.
pub proof fn law_first_chunk(events: Seq<ChatStreamEventView>, call: ToolCall)
    requires
        !came(events, call.call_id@),
    ensures
        ({
            let chunk = ChatStreamEvent::ToolCallChunk(ToolChunk { tool_call: call }).deep_view();
            let arguments = match json_tree(call.fn_arguments) {
                JsonTree::String(text) => text,
                other => json_text(other),
            };
            let out = response(events.push(chunk));
            let n = response(events).len() as int;
            &&& out.len() > n
            &&& out.take(n) == response(events)
            &&& opens_call(out[n], call.call_id@, call.fn_name@)
            &&& says_input(out.skip(n + 1), call.call_id@, arguments)
        }),
{
    let chunk = ChatStreamEvent::ToolCallChunk(ToolChunk { tool_call: call }).deep_view();
    let arguments = match json_tree(call.fn_arguments) {
        JsonTree::String(text) => text,
        other => json_text(other),
    };
    let id = call.call_id@;
    let p = pending_after(events);
    let n = response(events).len() as int;
    let longer = events.push(chunk);
    lemma_opened_came(events, id);
    law_well_formed(nothing_pending(), events);
    assert forall|i: int| 0 <= i < p.tool_calls.len() implies (#[trigger] p.tool_calls[i]).id
        != id by {
        assert(p.tool_items_added.contains(p.tool_calls[i].id));
    }
    law_tool_chunk(p, call);
    law_new_call(p, id, call.fn_name@, arguments);
    assert(longer.drop_last() =~= events);
    assert(longer.last() == chunk);
    let more = step(p, chunk).1;
    let out = response(longer);
    assert(out == response(events) + more);
    assert(out.take(n) =~= response(events));
    assert(out[n] == more[0]);
    assert(out.skip(n + 1) =~= more.skip(1));
}

/// A later chunk of a call, with no chunk of it and no end since the one before, opens nothing. What
/// its arguments go beyond those of the chunk before goes out under the call's id; all of them go
/// out where they do not continue those.
pub proof fn law_later_chunk(
    events: Seq<ChatStreamEventView>,
    first: ToolCall,
    between: Seq<ChatStreamEventView>,
    next: ToolCall,
    beyond: Seq<char>,
)
    requires
        next.call_id@ == first.call_id@,
        is_open(between),
        !came(between, first.call_id@),
    ensures
        ({
            let earlier = match json_tree(first.fn_arguments) {
                JsonTree::String(text) => text,
                other => json_text(other),
            };
            let arguments = match json_tree(next.fn_arguments) {
                JsonTree::String(text) => text,
                other => json_text(other),
            };
            let so_far = events.push(
                ChatStreamEvent::ToolCallChunk(ToolChunk { tool_call: first }).deep_view(),
            ) + between;
            let out = response(
                so_far.push(
                    ChatStreamEvent::ToolCallChunk(ToolChunk { tool_call: next }).deep_view(),
                ),
            );
            let n = response(so_far).len() as int;
            &&& out.len() >= n
            &&& out.take(n) == response(so_far)
            &&& beyond.len() > 0 && arguments == earlier + beyond ==> says_input(
                out.skip(n),
                first.call_id@,
                beyond,
            )
            &&& !(arguments.len() > earlier.len() && earlier.is_prefix_of(arguments)) ==> says_input(
                out.skip(n),
                first.call_id@,
                arguments,
            )
        }),
{
    let earlier = match json_tree(first.fn_arguments) {
        JsonTree::String(text) => text,
        other => json_text(other),
    };
    let arguments = match json_tree(next.fn_arguments) {
        JsonTree::String(text) => text,
        other => json_text(other),
    };
    let id = first.call_id@;
    let chunk = ChatStreamEvent::ToolCallChunk(ToolChunk { tool_call: first }).deep_view();
    let last = ChatStreamEvent::ToolCallChunk(ToolChunk { tool_call: next }).deep_view();
    let begun = events.push(chunk);
    let so_far = begun + between;
    let p = pending_after(events);
    let q = pending_after(begun);
    let r = pending_after(so_far);
    let call = PendingToolCallView { id, name: first.fn_name@, arguments: earlier };
    law_well_formed(nothing_pending(), events);
    law_well_formed(nothing_pending(), so_far);
    assert(begun.drop_last() =~= events);
    law_tool_chunk(p, first);
    law_find_put_call(p.tool_calls, call);
    lemma_run_add(nothing_pending(), begun, between);
    lemma_call_stays(q, between, id);
    lemma_found(r.tool_calls, id);
    let i = choose|i: int| 0 <= i < r.tool_calls.len() && r.tool_calls[i] == call;
    law_tool_chunk(r, next);
    law_pending_call(r, i, next.fn_name@, arguments, beyond);
    assert(so_far.push(last).drop_last() =~= so_far);
    let n = response(so_far).len() as int;
    let out = response(so_far.push(last));
    assert(out == response(so_far) + step(r, last).1);
    assert(out.take(n) =~= response(so_far));
    assert(out.skip(n) =~= step(r, last).1);
}

/// A pending call stays as it is while no chunk of it and no end comes.
proof fn lemma_call_stays(p: PendingView, events: Seq<ChatStreamEventView>, id: Seq<char>)
    requires
        is_open(events),
        !came(events, id),
    ensures
        find_call(run(p, events).0.tool_calls, id) == find_call(p.tool_calls, id),
    decreases events.len(),
{
    if events.len() > 0 {
        let before = events.drop_last();
        assert forall|i: int| 0 <= i < before.len() implies #[trigger] before[i] == events[i] by {}
        assert(!came(before, id)) by {
            if came(before, id) {
                let i = choose|i: int|
                    0 <= i < before.len() && (
                    #[trigger] before[i] matches ChatStreamEventView::ToolCallChunk(call)
                        && call.call_id == id);
                assert(events[i] == before[i]);
            }
        }
        lemma_call_stays(p, before, id);
        let last = events[events.len() - 1];
        assert(!(last is End));
        if let ChatStreamEventView::ToolCallChunk(call) = last {
            assert(call.call_id != id);
            law_find_other_call(
                run(p, before).0.tool_calls,
                PendingToolCallView {
                    id: call.call_id,
                    name: call.fn_name,
                    arguments: raw_text(call.fn_arguments),
                },
                id,
            );
        }
    }
}

} // verus!
