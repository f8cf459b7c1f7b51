//! What holds of a response stream as a whole.

use vstd::prelude::*;

use crate::chat::{ChatStreamEventView, StreamEndView};
use crate::convert_response::{
    argument_delta, call_done, closing_events, completed, has_message, message_done,
    message_item_id, message_opened, open_message, reasoning_done, step, tool_opened,
};
use crate::gather::{gather, lemma_gather_add, lemma_gather_one, lemma_gather_two, lemma_silent};
use crate::json::raw_text;
use crate::protocol::{ResponseEventView, ResponseItemView};
use crate::text::{lemma_less_total, lemma_less_transitive, text_less};
use crate::types::{
    find_call, in_order, nothing_pending, put_call, PendingToolCallView, PendingView,
};

verus! {

/// What the events of a chat stream make of a pending message, and the response events for them.
pub open spec fn run(p: PendingView, events: Seq<ChatStreamEventView>) -> (
    PendingView,
    Seq<ResponseEventView>,
)
    decreases events.len(),
{
    if events.len() == 0 {
        (p, Seq::empty())
    } else {
        let (q, out) = run(p, events.drop_last());
        let (r, more) = step(q, events.last());
        (r, out + more)
    }
}

/// What is pending after the events of a chat stream.
pub open spec fn pending_after(events: Seq<ChatStreamEventView>) -> PendingView {
    run(nothing_pending(), events).0
}

/// The response events for a chat stream.
pub open spec fn response(events: Seq<ChatStreamEventView>) -> Seq<ResponseEventView> {
    run(nothing_pending(), events).1
}

/// Whether a chat stream has not ended.
pub open spec fn is_open(events: Seq<ChatStreamEventView>) -> bool {
    forall|i: int| 0 <= i < events.len() ==> !(#[trigger] events[i] is End)
}

/// The text of a chunk of text.
pub open spec fn text_chunk(event: ChatStreamEventView) -> Seq<char> {
    match event {
        ChatStreamEventView::Chunk(content) => content,
        _ => Seq::empty(),
    }
}

/// The text of a text delta.
pub open spec fn text_delta(event: ResponseEventView) -> Seq<char> {
    match event {
        ResponseEventView::OutputTextDelta(delta) => delta,
        _ => Seq::empty(),
    }
}

/// The text that came over a chat stream.
pub open spec fn text_in(events: Seq<ChatStreamEventView>) -> Seq<char> {
    gather(events, |event: ChatStreamEventView| text_chunk(event))
}

/// The text that went out in deltas.
pub open spec fn text_out(events: Seq<ResponseEventView>) -> Seq<char> {
    gather(events, |event: ResponseEventView| text_delta(event))
}

/// The text of a chunk of reasoning.
pub open spec fn reasoning_chunk(event: ChatStreamEventView) -> Seq<char> {
    match event {
        ChatStreamEventView::ReasoningChunk(content) => content,
        _ => Seq::empty(),
    }
}

/// The reasoning that came over a chat stream.
pub open spec fn reasoning_in(events: Seq<ChatStreamEventView>) -> Seq<char> {
    gather(events, |event: ChatStreamEventView| reasoning_chunk(event))
}

/// A chunk of reasoning or a thought signature.
pub open spec fn thought_chunk(event: ChatStreamEventView) -> Seq<Seq<char>> {
    match event {
        ChatStreamEventView::ReasoningChunk(content) => seq![content],
        ChatStreamEventView::ThoughtSignatureChunk(content) => seq![content],
        _ => Seq::empty(),
    }
}

/// A reasoning delta with its index.
pub open spec fn thought_delta(event: ResponseEventView) -> Seq<(Seq<char>, i64)> {
    match event {
        ResponseEventView::ReasoningContentDelta { delta, content_index } => seq![
            (delta, content_index),
        ],
        _ => Seq::empty(),
    }
}

/// The chunks of reasoning and thought signatures that came over a chat stream.
pub open spec fn thoughts_in(events: Seq<ChatStreamEventView>) -> Seq<Seq<char>> {
    gather(events, |event: ChatStreamEventView| thought_chunk(event))
}

/// The reasoning deltas that went out, each with its index.
pub open spec fn thoughts_out(events: Seq<ResponseEventView>) -> Seq<(Seq<char>, i64)> {
    gather(events, |event: ResponseEventView| thought_delta(event))
}

/// The steps of a run.
proof fn lemma_run_step(p: PendingView, events: Seq<ChatStreamEventView>)
    requires
        events.len() > 0,
    ensures
        run(p, events).0 == step(run(p, events.drop_last()).0, events.last()).0,
        run(p, events).1 == run(p, events.drop_last()).1 + step(
            run(p, events.drop_last()).0,
            events.last(),
        ).1,
{
}

/// The text and reasoning events of one step.
proof fn lemma_step_texts(p: PendingView, event: ChatStreamEventView)
    ensures
        text_out(step(p, event).1) == text_chunk(event),
        thoughts_out(step(p, event).1) == thought_chunk(event).map_values(
            |content: Seq<char>| (content, p.reasoning_content_index as i64),
        ),
{
    let f = |e: ResponseEventView| text_delta(e);
    let g = |e: ResponseEventView| thought_delta(e);
    let h = |content: Seq<char>| (content, p.reasoning_content_index as i64);
    let out = step(p, event).1;
    match event {
        ChatStreamEventView::Start => {
            lemma_gather_one(ResponseEventView::Created, f);
            lemma_gather_one(ResponseEventView::Created, g);
        },
        ChatStreamEventView::Chunk(_)
        | ChatStreamEventView::ReasoningChunk(_)
        | ChatStreamEventView::ThoughtSignatureChunk(_) => {
            let opened = open_message(p).1;
            assert(out =~= opened + seq![out.last()]);
            lemma_gather_add(opened, seq![out.last()], f);
            lemma_gather_add(opened, seq![out.last()], g);
            lemma_gather_one(out.last(), f);
            lemma_gather_one(out.last(), g);
            lemma_gather_one(message_opened(message_item_id(p)), f);
            lemma_gather_one(message_opened(message_item_id(p)), g);
        },
        ChatStreamEventView::ToolCallChunk(call) => {
            lemma_silent(out, f);
            lemma_silent(out, g);
        },
        ChatStreamEventView::End(end) => {
            lemma_silent(out, f);
            lemma_silent(out, g);
        },
    }
    assert(thought_chunk(event).map_values(h) =~= thoughts_out(out));
}

/// The text deltas of a response, one after the other, are the text that came over the chat
/// stream.
pub proof fn law_text_deltas(p: PendingView, events: Seq<ChatStreamEventView>)
    ensures
        text_out(run(p, events).1) == text_in(events),
    decreases events.len(),
{
    if events.len() > 0 {
        let before = events.drop_last();
        let f = |e: ResponseEventView| text_delta(e);
        law_text_deltas(p, before);
        lemma_run_step(p, events);
        lemma_step_texts(run(p, before).0, events.last());
        lemma_gather_add(run(p, before).1, step(run(p, before).0, events.last()).1, f);
    }
}

/// Each chunk of reasoning and each thought signature goes out as one reasoning delta, in order,
/// and the deltas are numbered from the pending index on without a gap.
pub proof fn law_reasoning_deltas(p: PendingView, events: Seq<ChatStreamEventView>)
    ensures
        run(p, events).0.reasoning_content_index == p.reasoning_content_index + thoughts_in(
            events,
        ).len(),
        thoughts_out(run(p, events).1).len() == thoughts_in(events).len(),
        forall|k: int|
            0 <= k < thoughts_in(events).len() ==> #[trigger] thoughts_out(run(p, events).1)[k] == (
                thoughts_in(events)[k],
                (p.reasoning_content_index + k) as i64,
            ),
    decreases events.len(),
{
    if events.len() > 0 {
        let before = events.drop_last();
        let q = run(p, before).0;
        let g = |e: ResponseEventView| thought_delta(e);
        law_reasoning_deltas(p, before);
        lemma_run_step(p, events);
        lemma_step_texts(q, events.last());
        lemma_gather_add(run(p, before).1, step(q, events.last()).1, g);
        assert(thoughts_out(run(p, events).1) == thoughts_out(run(p, before).1) + thoughts_out(
            step(q, events.last()).1,
        ));
        assert(thoughts_in(events) == thoughts_in(before) + thought_chunk(events.last()));
    }
}

/// The id of the message item of a response.
pub open spec fn message_id() -> Seq<char> {
    message_item_id(nothing_pending())
}

/// Whether an event opens the message item.
pub open spec fn opens_message(event: ResponseEventView) -> bool {
    event matches ResponseEventView::OutputItemAdded(item) && item is Message
}

/// Whether an event carries text or reasoning.
pub open spec fn is_text_or_reasoning(event: ResponseEventView) -> bool {
    event is OutputTextDelta || event is ReasoningContentDelta
}

/// The message item of a response is opened at most once, always with the same id, and before any
/// text or reasoning goes out.
pub proof fn law_message_opened_once(events: Seq<ChatStreamEventView>)
    ensures
        message_id() == "txt_0"@,
        forall|i: int|
            0 <= i < response(events).len() && opens_message(
                #[trigger] response(events)[i],
            ) ==> response(events)[i] == message_opened(message_id()),
        forall|i: int, j: int|
            0 <= i < j < response(events).len() && opens_message(#[trigger] response(events)[i])
                ==> !opens_message(#[trigger] response(events)[j]),
        forall|i: int|
            0 <= i < response(events).len() && is_text_or_reasoning(
                #[trigger] response(events)[i],
            ) ==> response(events).take(i).contains(message_opened(message_id())),
{
    reveal_strlit("txt_");
    reveal_strlit("txt_0");
    assert(message_id() =~= "txt_0"@);
    lemma_message_opened(events);
    let out = response(events);
    assert forall|i: int|
        0 <= i < out.len() && is_text_or_reasoning(#[trigger] out[i]) implies out.take(i).contains(
        message_opened(message_id()),
    ) by {
        let j = choose|j: int| 0 <= j < i && #[trigger] out[j] == message_opened(message_id());
        assert(out.take(i)[j] == out[j]);
    }
}

/// To open the message item twice in a row is to open it once: the second time changes nothing and
/// says nothing.
pub proof fn law_message_opened_twice(p: PendingView)
    ensures
        open_message(open_message(p).0) == (open_message(p).0, Seq::<ResponseEventView>::empty()),
{
}

proof fn lemma_message_opened(events: Seq<ChatStreamEventView>)
    ensures
        pending_after(events).text_item_added <==> (exists|j: int|
            0 <= j < response(events).len() && opens_message(#[trigger] response(events)[j])),
        !pending_after(events).text_item_added ==> pending_after(events).text.len() == 0,
        forall|i: int|
            0 <= i < response(events).len() && opens_message(
                #[trigger] response(events)[i],
            ) ==> response(events)[i] == message_opened(message_id()),
        forall|i: int, j: int|
            0 <= i < j < response(events).len() && opens_message(#[trigger] response(events)[i])
                ==> !opens_message(#[trigger] response(events)[j]),
        forall|i: int|
            0 <= i < response(events).len() && is_text_or_reasoning(#[trigger] response(events)[i])
                ==> exists|j: int|
                0 <= j < i && #[trigger] response(events)[j] == message_opened(message_id()),
    decreases events.len(),
{
    if events.len() > 0 {
        let before = events.drop_last();
        let p = pending_after(before);
        let old_out = response(before);
        let more = step(p, events.last()).1;
        let out = response(events);
        lemma_message_opened(before);
        lemma_run_step(nothing_pending(), events);
        assert(out == old_out + more);
        lemma_message_step(p, events.last());
        assert(forall|i: int| 0 <= i < old_out.len() ==> out[i] == old_out[i]);
        assert(forall|i: int| old_out.len() <= i < out.len() ==> out[i] == more[i - old_out.len()]);
        assert(p.text.len() == 0 ==> p.text =~= Seq::empty());
        if p.text_item_added {
            let j = choose|j: int| 0 <= j < old_out.len() && opens_message(#[trigger] old_out[j]);
            assert(opens_message(out[j]));
            assert(out[j] == message_opened(message_id()));
        } else if pending_after(events).text_item_added {
            assert(out[old_out.len() as int] == more[0]);
            assert(opens_message(out[old_out.len() as int]));
        } else {
            assert forall|j: int| 0 <= j < out.len() implies !opens_message(#[trigger] out[j]) by {
                if j < old_out.len() {
                    assert(!opens_message(old_out[j]));
                } else {
                    assert(out[j] == more[j - old_out.len()]);
                }
            }
        }
        assert forall|i: int|
            0 <= i < out.len() && is_text_or_reasoning(#[trigger] out[i]) implies exists|j: int|
            0 <= j < i && #[trigger] out[j] == message_opened(message_id()) by {
            if i < old_out.len() {
                assert(is_text_or_reasoning(old_out[i]));
                let j = choose|j: int|
                    0 <= j < i && #[trigger] old_out[j] == message_opened(message_id());
                assert(out[j] == message_opened(message_id()));
            } else if p.text_item_added {
                let j = choose|j: int| 0 <= j < old_out.len() && opens_message(#[trigger] old_out[j]);
                assert(out[j] == message_opened(message_id()));
            } else {
                assert(out[old_out.len() as int] == more[0]);
            }
        }
    }
}

/// What one step has to do with the message item.
proof fn lemma_message_step(p: PendingView, event: ChatStreamEventView)
    ensures
        p.text_item_added ==> step(p, event).0.text_item_added,
        p.text_item_added ==> forall|i: int|
            0 <= i < step(p, event).1.len() ==> !opens_message(#[trigger] step(p, event).1[i]),
        !p.text_item_added ==> {
            let (q, more) = step(p, event);
            if q.text_item_added {
                &&& more.len() == 2
                &&& more[0] == message_opened(message_item_id(p))
                &&& is_text_or_reasoning(more[1])
            } else {
                &&& q.text == p.text || q.text == Seq::<char>::empty()
                &&& forall|i: int|
                    0 <= i < more.len() ==> !opens_message(#[trigger] more[i])
                        && !is_text_or_reasoning(more[i])
            }
        },
{
}

/// The call that a chunk tells of, as far as it has come.
pub open spec fn call_chunk(event: ChatStreamEventView, id: Seq<char>) -> Seq<PendingToolCallView> {
    match event {
        ChatStreamEventView::ToolCallChunk(call) => if call.call_id == id {
            seq![
                PendingToolCallView {
                    id,
                    name: call.fn_name,
                    arguments: raw_text(call.fn_arguments),
                },
            ]
        } else {
            Seq::empty()
        },
        _ => Seq::empty(),
    }
}

/// What came over a chat stream of the call `id`, chunk by chunk.
pub open spec fn call_in(events: Seq<ChatStreamEventView>, id: Seq<char>) -> Seq<
    PendingToolCallView,
> {
    gather(events, |event: ChatStreamEventView| call_chunk(event, id))
}

/// The call that is put among others is found there.
pub proof fn law_find_put_call(calls: Seq<PendingToolCallView>, call: PendingToolCallView)
    ensures
        find_call(put_call(calls, call), call.id) == Some(call),
    decreases calls.len(),
{
    if calls.len() > 0 {
        let rest = calls.drop_first();
        law_find_put_call(rest, call);
        let put = put_call(calls, call);
        if calls[0].id != call.id && !text_less(call.id, calls[0].id) {
            assert(put.drop_first() =~= put_call(rest, call));
        }
    }
}

/// To put a call among others leaves the others as they are.
pub proof fn law_find_other_call(
    calls: Seq<PendingToolCallView>,
    call: PendingToolCallView,
    id: Seq<char>,
)
    requires
        id != call.id,
    ensures
        find_call(put_call(calls, call), id) == find_call(calls, id),
    decreases calls.len(),
{
    let put = put_call(calls, call);
    reveal_with_fuel(find_call, 2);
    if calls.len() == 0 {
        assert(put.drop_first() =~= Seq::empty());
    } else {
        let rest = calls.drop_first();
        law_find_other_call(rest, call, id);
        if calls[0].id == call.id {
            assert(put.drop_first() =~= rest);
        } else if text_less(call.id, calls[0].id) {
            assert(put.drop_first() =~= calls);
        } else {
            assert(put.drop_first() =~= put_call(rest, call));
        }
    }
}

/// To put a call among others keeps them in the order of their ids, and adds no id but its own.
pub proof fn law_put_call_in_order(calls: Seq<PendingToolCallView>, call: PendingToolCallView)
    requires
        in_order(calls),
    ensures
        in_order(put_call(calls, call)),
        forall|i: int|
            0 <= i < put_call(calls, call).len() ==> (#[trigger] put_call(calls, call)[i]).id
                == call.id || exists|j: int|
                0 <= j < calls.len() && #[trigger] calls[j] == put_call(calls, call)[i],
    decreases calls.len(),
{
    let put = put_call(calls, call);
    if calls.len() == 0 {
    } else {
        let first = calls[0];
        let rest = calls.drop_first();
        assert(forall|i: int| 0 <= i < rest.len() ==> #[trigger] rest[i] == calls[i + 1]);
        if first.id == call.id {
            assert forall|i: int, j: int| 0 <= i < j < put.len() implies text_less(
                put[i].id,
                put[j].id,
            ) by {
                assert(put[j] == calls[j]);
                assert(put[i].id == calls[i].id);
            }
            assert(forall|i: int| 0 < i < put.len() ==> #[trigger] put[i] == calls[i]);
        } else if text_less(call.id, first.id) {
            assert forall|i: int, j: int| 0 <= i < j < put.len() implies text_less(
                put[i].id,
                put[j].id,
            ) by {
                assert(put[j] == calls[j - 1]);
                if i > 0 {
                    assert(put[i] == calls[i - 1]);
                } else if j > 1 {
                    lemma_less_transitive(call.id, first.id, calls[j - 1].id);
                }
            }
            assert(forall|i: int| 0 < i < put.len() ==> #[trigger] put[i] == calls[i - 1]);
        } else {
            lemma_less_total(first.id, call.id);
            law_put_call_in_order(rest, call);
            let tail = put_call(rest, call);
            assert(put == seq![first] + tail);
            assert forall|i: int| 0 <= i < tail.len() implies text_less(
                first.id,
                (#[trigger] tail[i]).id,
            ) by {
                if tail[i].id != call.id {
                    let j = choose|j: int| 0 <= j < rest.len() && #[trigger] rest[j] == tail[i];
                    assert(rest[j] == calls[j + 1]);
                    assert(text_less(calls[0].id, calls[j + 1].id));
                }
            }
            assert forall|i: int, j: int| 0 <= i < j < put.len() implies text_less(
                put[i].id,
                put[j].id,
            ) by {
                assert(put[j] == tail[j - 1]);
                if i > 0 {
                    assert(put[i] == tail[i - 1]);
                }
            }
            assert forall|i: int| 0 <= i < put.len() implies (#[trigger] put[i]).id == call.id
                || exists|j: int| 0 <= j < calls.len() && #[trigger] calls[j] == put[i] by {
                if i == 0 {
                    assert(calls[0] == put[0]);
                } else {
                    assert(put[i] == tail[i - 1]);
                    if tail[i - 1].id != call.id {
                        let j = choose|j: int|
                            0 <= j < rest.len() && #[trigger] rest[j] == tail[i - 1];
                        assert(calls[j + 1] == put[i]);
                    }
                }
            }
        }
    }
}

/// A pending message stays well formed over a whole chat stream.
pub proof fn law_well_formed(p: PendingView, events: Seq<ChatStreamEventView>)
    requires
        p.well_formed(),
    ensures
        run(p, events).0.well_formed(),
    decreases events.len(),
{
    if events.len() > 0 {
        let before = events.drop_last();
        law_well_formed(p, before);
        lemma_run_step(p, events);
        lemma_step_well_formed(run(p, before).0, events.last());
    }
}

proof fn lemma_step_well_formed(p: PendingView, event: ChatStreamEventView)
    requires
        p.well_formed(),
    ensures
        step(p, event).0.well_formed(),
{
    if let ChatStreamEventView::ToolCallChunk(chunk) = event {
        let q = step(p, event).0;
        let call = PendingToolCallView {
            id: chunk.call_id,
            name: chunk.fn_name,
            arguments: raw_text(chunk.fn_arguments),
        };
        law_put_call_in_order(p.tool_calls, call);
        let ids = p.tool_items_added;
        assert forall|id: Seq<char>| ids.contains(id) implies q.tool_items_added.contains(id) by {
            let j = choose|j: int| 0 <= j < ids.len() && ids[j] == id;
            assert(q.tool_items_added[j] == id);
        }
        if !ids.contains(call.id) {
            assert(q.tool_items_added[ids.len() as int] == call.id);
            assert(q.tool_items_added.no_duplicates()) by {
                assert forall|i: int, j: int|
                    0 <= i < q.tool_items_added.len() && 0 <= j < q.tool_items_added.len() && i
                        != j implies q.tool_items_added[i] != q.tool_items_added[j] by {
                    if i < ids.len() {
                        assert(ids.contains(ids[i]));
                    }
                    if j < ids.len() {
                        assert(ids.contains(ids[j]));
                    }
                }
            }
        }
        assert forall|i: int| 0 <= i < q.tool_calls.len() implies q.tool_items_added.contains(
            (#[trigger] q.tool_calls[i]).id,
        ) by {
            if q.tool_calls[i].id != call.id {
                let j = choose|j: int|
                    0 <= j < p.tool_calls.len() && #[trigger] p.tool_calls[j] == q.tool_calls[i];
                assert(ids.contains(p.tool_calls[j].id));
            }
        }
    }
}

/// While a chat stream has not ended, the calls that are pending are those that chunks have come
/// of, each as its last chunk tells of it, in the order of their ids.
pub proof fn law_pending_calls(events: Seq<ChatStreamEventView>, id: Seq<char>)
    requires
        is_open(events),
    ensures
        in_order(pending_after(events).tool_calls),
        find_call(pending_after(events).tool_calls, id) == (if call_in(events, id).len() == 0 {
            None
        } else {
            Some(call_in(events, id).last())
        }),
    decreases events.len(),
{
    if events.len() > 0 {
        let before = events.drop_last();
        let p = pending_after(before);
        assert(is_open(before)) by {
            assert(forall|i: int| 0 <= i < before.len() ==> before[i] == events[i]);
        }
        law_pending_calls(before, id);
        lemma_run_step(nothing_pending(), events);
        assert(!(events[events.len() - 1] is End));
        if let ChatStreamEventView::ToolCallChunk(chunk) = events.last() {
            let call = PendingToolCallView {
                id: chunk.call_id,
                name: chunk.fn_name,
                arguments: raw_text(chunk.fn_arguments),
            };
            law_put_call_in_order(p.tool_calls, call);
            if call.id == id {
                law_find_put_call(p.tool_calls, call);
            } else {
                law_find_other_call(p.tool_calls, call, id);
            }
        }
    }
}

/// The call that an event opens the item of.
pub open spec fn opened_tool(event: ResponseEventView) -> Seq<Seq<char>> {
    match event {
        ResponseEventView::OutputItemAdded(ResponseItemView::CustomToolCall { call_id, .. }) => seq![
            call_id,
        ],
        _ => Seq::empty(),
    }
}

/// The calls whose items were opened.
pub open spec fn tools_opened(events: Seq<ResponseEventView>) -> Seq<Seq<char>> {
    gather(events, |event: ResponseEventView| opened_tool(event))
}

/// The item of a tool call is opened once, and before any of its input goes out.
pub proof fn law_tools_opened_once(events: Seq<ChatStreamEventView>)
    ensures
        tools_opened(response(events)).no_duplicates(),
        forall|i: int|
            0 <= i < response(events).len() && #[trigger] response(events)[i] is ToolCallInputDelta
                ==> tools_opened(response(events).take(i)).contains(
                response(events)[i]->ToolCallInputDelta_item_id,
            ),
{
    law_well_formed(nothing_pending(), events);
    lemma_tools_opened(events);
}

proof fn lemma_tools_opened(events: Seq<ChatStreamEventView>)
    ensures
        tools_opened(response(events)) == pending_after(events).tool_items_added,
        forall|i: int|
            0 <= i < response(events).len() && #[trigger] response(events)[i] is ToolCallInputDelta
                ==> tools_opened(response(events).take(i)).contains(
                response(events)[i]->ToolCallInputDelta_item_id,
            ),
    decreases events.len(),
{
    let f = |event: ResponseEventView| opened_tool(event);
    if events.len() > 0 {
        let before = events.drop_last();
        let p = pending_after(before);
        let old_out = response(before);
        let more = step(p, events.last()).1;
        let out = response(events);
        lemma_tools_opened(before);
        lemma_run_step(nothing_pending(), events);
        lemma_gather_add(old_out, more, f);
        assert(out == old_out + more);
        if let ChatStreamEventView::ToolCallChunk(call) = events.last() {
            let id = call.call_id;
            let known = p.tool_items_added.contains(id);
            let opened: Seq<ResponseEventView> = if known {
                Seq::empty()
            } else {
                seq![tool_opened(id, call.fn_name)]
            };
            let rest = more.skip(opened.len() as int);
            assert(more =~= opened + rest);
            lemma_gather_add(opened, rest, f);
            lemma_silent(rest, f);
            lemma_gather_one(tool_opened(id, call.fn_name), f);
            lemma_gather_add(old_out, opened, f);
            assert(tools_opened(out) =~= pending_after(events).tool_items_added);
            assert forall|i: int|
                0 <= i < out.len() && #[trigger] out[i] is ToolCallInputDelta implies tools_opened(
                out.take(i),
            ).contains(out[i]->ToolCallInputDelta_item_id) by {
                if i < old_out.len() {
                    assert(out[i] == old_out[i]);
                    assert(out.take(i) =~= old_out.take(i));
                } else {
                    assert(out[i] == more[i - old_out.len()]);
                    assert(out.take(i) =~= old_out + opened);
                    if !known {
                        assert(pending_after(events).tool_items_added.last() == id);
                    }
                    assert(tools_opened(out.take(i)) =~= pending_after(events).tool_items_added);
                }
            }
        } else {
            assert forall|i: int| 0 <= i < more.len() implies f(#[trigger] more[i]) == Seq::<
                Seq<char>,
            >::empty() && !(more[i] is ToolCallInputDelta) by {}
            lemma_silent(more, f);
            assert(tools_opened(out) =~= tools_opened(old_out));
            assert forall|i: int|
                0 <= i < out.len() && #[trigger] out[i] is ToolCallInputDelta implies tools_opened(
                out.take(i),
            ).contains(out[i]->ToolCallInputDelta_item_id) by {
                if i < old_out.len() {
                    assert(out[i] == old_out[i]);
                    assert(out.take(i) =~= old_out.take(i));
                } else {
                    assert(out[i] == more[i - old_out.len()]);
                }
            }
        }
    }
}

/// The input of the call `id` in a delta.
pub open spec fn input_delta(event: ResponseEventView, id: Seq<char>) -> Seq<char> {
    match event {
        ResponseEventView::ToolCallInputDelta { item_id, delta, .. } => if item_id == id {
            delta
        } else {
            Seq::empty()
        },
        _ => Seq::empty(),
    }
}

/// The input of the call `id` that went out in deltas.
pub open spec fn input_out(events: Seq<ResponseEventView>, id: Seq<char>) -> Seq<char> {
    gather(events, |event: ResponseEventView| input_delta(event, id))
}

/// Whether a chunk of a call goes beyond the chunk before it, which may be empty.
pub open spec fn goes_beyond(previous: PendingToolCallView, next: PendingToolCallView) -> bool {
    previous.arguments.len() == 0 || (previous.arguments.len() < next.arguments.len()
        && previous.arguments.is_prefix_of(next.arguments))
}

/// Whether each chunk of a call goes beyond the chunk before it.
pub open spec fn grows(chunks: Seq<PendingToolCallView>) -> bool {
    forall|i: int, j: int|
        0 <= i && j == i + 1 && j < chunks.len() ==> #[trigger] goes_beyond(chunks[i], chunks[j])
}

/// The arguments of a call as far as they have come.
pub open spec fn arguments_so_far(chunks: Seq<PendingToolCallView>) -> Seq<char> {
    if chunks.len() == 0 {
        Seq::empty()
    } else {
        chunks.last().arguments
    }
}

/// Where each chunk of a call goes beyond the chunk before it, the input deltas of the call, one
/// after the other, are its arguments as far as they have come. Where one does not, more than the
/// arguments has gone out.
pub proof fn law_input_deltas(events: Seq<ChatStreamEventView>, id: Seq<char>)
    requires
        is_open(events),
    ensures
        grows(call_in(events, id)) ==> input_out(response(events), id) == arguments_so_far(
            call_in(events, id),
        ),
        !grows(call_in(events, id)) ==> input_out(response(events), id).len() > arguments_so_far(
            call_in(events, id),
        ).len(),
    decreases events.len(),
{
    let f = |event: ResponseEventView| input_delta(event, id);
    if events.len() > 0 {
        let before = events.drop_last();
        let p = pending_after(before);
        let more = step(p, events.last()).1;
        let old_in = call_in(before, id);
        let now_in = call_in(events, id);
        let chunk = call_chunk(events.last(), id);
        assert(is_open(before)) by {
            assert(forall|i: int| 0 <= i < before.len() ==> before[i] == events[i]);
        }
        assert(!(events[events.len() - 1] is End));
        assert(now_in == old_in + chunk);
        law_input_deltas(before, id);
        law_pending_calls(before, id);
        lemma_run_step(nothing_pending(), events);
        lemma_gather_add(response(before), more, f);
        lemma_input_step(p, events.last(), id);
        if chunk.len() == 0 {
            assert(now_in =~= old_in);
            assert(input_out(response(events), id) =~= input_out(response(before), id));
        } else {
            lemma_grows_push(old_in, chunk[0]);
            assert(now_in =~= old_in.push(chunk[0]));
            let previous = arguments_so_far(old_in);
            let accumulated = chunk[0].arguments;
            if previous.len() == 0 {
                assert(previous =~= Seq::empty());
                assert(accumulated.skip(0) =~= accumulated);
            } else if previous.is_prefix_of(accumulated) {
                assert(previous + accumulated.skip(previous.len() as int) =~= accumulated);
            }
            if grows(now_in) {
                assert(input_out(response(events), id) =~= accumulated);
            }
        }
    }
}

/// Whether a call still grows with one chunk more.
proof fn lemma_grows_push(chunks: Seq<PendingToolCallView>, chunk: PendingToolCallView)
    ensures
        grows(chunks.push(chunk)) <==> grows(chunks) && (chunks.len() > 0 ==> goes_beyond(
            chunks.last(),
            chunk,
        )),
{
    let longer = chunks.push(chunk);
    if grows(longer) {
        assert forall|i: int, j: int|
            0 <= i && j == i + 1 && j < chunks.len() implies #[trigger] goes_beyond(
            chunks[i],
            chunks[j],
        ) by {
            assert(goes_beyond(longer[i], longer[j]));
        }
        if chunks.len() > 0 {
            assert(goes_beyond(longer[chunks.len() - 1], longer[chunks.len() as int]));
        }
    } else if grows(chunks) && (chunks.len() > 0 ==> goes_beyond(chunks.last(), chunk)) {
        assert forall|i: int, j: int|
            0 <= i && j == i + 1 && j < longer.len() implies #[trigger] goes_beyond(
            longer[i],
            longer[j],
        ) by {
            if j < chunks.len() {
                assert(goes_beyond(chunks[i], chunks[j]));
            }
        }
    }
}

/// The input of a call that goes out in one step.
proof fn lemma_input_step(p: PendingView, event: ChatStreamEventView, id: Seq<char>)
    ensures
        input_out(step(p, event).1, id) == (if call_chunk(event, id).len() == 0 {
            Seq::empty()
        } else {
            argument_delta(p.tool_calls, id, call_chunk(event, id)[0].arguments)
        }),
{
    let f = |e: ResponseEventView| input_delta(e, id);
    let out = step(p, event).1;
    if call_chunk(event, id).len() == 0 {
        lemma_silent(out, f);
    } else if let ChatStreamEventView::ToolCallChunk(call) = event {
        let delta = argument_delta(p.tool_calls, id, raw_text(call.fn_arguments));
        let opened: Seq<ResponseEventView> = if p.tool_items_added.contains(id) {
            Seq::empty()
        } else {
            seq![tool_opened(id, call.fn_name)]
        };
        let rest = out.skip(opened.len() as int);
        assert(out =~= opened + rest);
        lemma_silent(opened, f);
        lemma_gather_add(opened, rest, f);
        if delta.len() == 0 {
            lemma_silent(rest, f);
            assert(delta =~= Seq::empty());
        } else {
            assert(rest =~= seq![rest[0]]);
            lemma_gather_one(rest[0], f);
        }
        assert(input_out(out, id) =~= delta);
    }
}

/// Whether an event ends a response.
pub open spec fn completes(event: ResponseEventView) -> bool {
    event is Completed
}

/// A response has no end while the chat stream has none; with the end of the chat stream it ends,
/// once and as the last thing that it says.
pub proof fn law_completed_last(events: Seq<ChatStreamEventView>, end: StreamEndView)
    requires
        is_open(events),
    ensures
        forall|i: int| 0 <= i < response(events).len() ==> !completes(#[trigger] response(events)[i]),
        ({
            let whole = response(events.push(ChatStreamEventView::End(end)));
            &&& whole.last() == completed(end)
            &&& forall|i: int| 0 <= i < whole.len() - 1 ==> !completes(#[trigger] whole[i])
        }),
{
    lemma_not_completed(events);
    lemma_whole_response(events, end);
    let whole = response(events.push(ChatStreamEventView::End(end)));
    let closing = closing_events(pending_after(events));
    assert forall|i: int| 0 <= i < whole.len() - 1 implies !completes(#[trigger] whole[i]) by {
        if i < response(events).len() {
            assert(whole[i] == response(events)[i]);
        } else {
            assert(whole[i] == closing[i - response(events).len()]);
        }
    }
}

proof fn lemma_not_completed(events: Seq<ChatStreamEventView>)
    requires
        is_open(events),
    ensures
        forall|i: int| 0 <= i < response(events).len() ==> !completes(#[trigger] response(events)[i]),
    decreases events.len(),
{
    if events.len() > 0 {
        let before = events.drop_last();
        let more = step(pending_after(before), events.last()).1;
        assert(is_open(before)) by {
            assert(forall|i: int| 0 <= i < before.len() ==> before[i] == events[i]);
        }
        assert(!(events[events.len() - 1] is End));
        lemma_not_completed(before);
        lemma_run_step(nothing_pending(), events);
        assert forall|i: int| 0 <= i < response(events).len() implies !completes(
            #[trigger] response(events)[i],
        ) by {
            if i < response(before).len() {
                assert(response(events)[i] == response(before)[i]);
            } else {
                assert(response(events)[i] == more[i - response(before).len()]);
            }
        }
    }
}

/// A chat stream with its end.
proof fn lemma_whole_response(events: Seq<ChatStreamEventView>, end: StreamEndView)
    ensures
        response(events.push(ChatStreamEventView::End(end))) == response(events) + closing_events(
            pending_after(events),
        ).push(completed(end)),
{
    let whole = events.push(ChatStreamEventView::End(end));
    assert(whole.drop_last() =~= events);
    lemma_run_step(nothing_pending(), whole);
}

/// The item that an event closes.
pub open spec fn done_item(event: ResponseEventView) -> Seq<ResponseItemView> {
    match event {
        ResponseEventView::OutputItemDone(item) => seq![item],
        _ => Seq::empty(),
    }
}

/// The items that were closed, in order.
pub open spec fn items_done(events: Seq<ResponseEventView>) -> Seq<ResponseItemView> {
    gather(events, |event: ResponseEventView| done_item(event))
}

/// The items of a pending message: the message itself, its reasoning, its calls.
pub open spec fn pending_items(p: PendingView) -> Seq<ResponseItemView> {
    (if has_message(p) {
        seq![message_done(p)]
    } else {
        Seq::empty()
    }) + (if p.reasoning.len() > 0 {
        seq![reasoning_done(p)]
    } else {
        Seq::empty()
    }) + p.tool_calls.map_values(|call: PendingToolCallView| call_done(call))
}

/// No item is closed while the chat stream has not ended. Its end closes the message, with the id
/// that it was opened with and all the text that came, the reasoning with all the reasoning that
/// came, and the calls.
pub proof fn law_items_closed(events: Seq<ChatStreamEventView>, end: StreamEndView)
    requires
        is_open(events),
    ensures
        items_done(response(events)) == Seq::<ResponseItemView>::empty(),
        items_done(response(events.push(ChatStreamEventView::End(end)))) == pending_items(
            pending_after(events),
        ),
        pending_after(events).text == text_in(events),
        pending_after(events).reasoning == reasoning_in(events),
        pending_after(events).reasoning_content_index == thoughts_in(events).len(),
        has_message(pending_after(events)) ==> pending_after(events).text_item_id == Some(
            message_id(),
        ),
{
    let f = |event: ResponseEventView| done_item(event);
    let p = pending_after(events);
    lemma_none_done(events);
    lemma_pending_texts(events);
    law_reasoning_deltas(nothing_pending(), events);
    lemma_whole_response(events, end);
    let closing = closing_events(p);
    lemma_gather_add(response(events), closing.push(completed(end)), f);
    assert(closing.push(completed(end)) =~= closing + seq![completed(end)]);
    lemma_gather_add(closing, seq![completed(end)], f);
    lemma_gather_one(completed(end), f);
    lemma_closing_items(p);
    assert(items_done(response(events.push(ChatStreamEventView::End(end)))) =~= pending_items(p));
}

/// The items that the closing events close.
proof fn lemma_closing_items(p: PendingView)
    ensures
        items_done(closing_events(p)) == pending_items(p),
{
    let f = |event: ResponseEventView| done_item(event);
    let close = |call: PendingToolCallView| ResponseEventView::OutputItemDone(call_done(call));
    let first: Seq<ResponseEventView> = if has_message(p) {
        seq![ResponseEventView::OutputItemDone(message_done(p))]
    } else {
        Seq::empty()
    };
    let second: Seq<ResponseEventView> = if p.reasoning.len() > 0 {
        seq![
            ResponseEventView::OutputItemAdded(reasoning_done(p)),
            ResponseEventView::OutputItemDone(reasoning_done(p)),
        ]
    } else {
        Seq::empty()
    };
    let third = p.tool_calls.map_values(close);
    lemma_gather_add(first + second, third, f);
    lemma_gather_add(first, second, f);
    lemma_gather_one(ResponseEventView::OutputItemDone(message_done(p)), f);
    lemma_gather_two(
        ResponseEventView::OutputItemAdded(reasoning_done(p)),
        ResponseEventView::OutputItemDone(reasoning_done(p)),
        f,
    );
    lemma_calls_done(p.tool_calls);
    assert(items_done(closing_events(p)) =~= pending_items(p));
}

proof fn lemma_calls_done(calls: Seq<PendingToolCallView>)
    ensures
        items_done(
            calls.map_values(
                |call: PendingToolCallView| ResponseEventView::OutputItemDone(call_done(call)),
            ),
        ) == calls.map_values(|call: PendingToolCallView| call_done(call)),
    decreases calls.len(),
{
    let close = |call: PendingToolCallView| ResponseEventView::OutputItemDone(call_done(call));
    let done = |call: PendingToolCallView| call_done(call);
    if calls.len() > 0 {
        lemma_calls_done(calls.drop_last());
        assert(calls.map_values(close).drop_last() =~= calls.drop_last().map_values(close));
        assert(calls.map_values(done) =~= calls.drop_last().map_values(done) + seq![
            call_done(calls.last()),
        ]);
    } else {
        assert(calls.map_values(done) =~= Seq::empty());
    }
}

proof fn lemma_none_done(events: Seq<ChatStreamEventView>)
    requires
        is_open(events),
    ensures
        items_done(response(events)) == Seq::<ResponseItemView>::empty(),
    decreases events.len(),
{
    let f = |event: ResponseEventView| done_item(event);
    if events.len() > 0 {
        let before = events.drop_last();
        let more = step(pending_after(before), events.last()).1;
        assert(is_open(before)) by {
            assert(forall|i: int| 0 <= i < before.len() ==> before[i] == events[i]);
        }
        assert(!(events[events.len() - 1] is End));
        lemma_none_done(before);
        lemma_run_step(nothing_pending(), events);
        lemma_gather_add(response(before), more, f);
        lemma_silent(more, f);
        assert(items_done(response(events)) =~= Seq::<ResponseItemView>::empty());
    }
}

proof fn lemma_pending_texts(events: Seq<ChatStreamEventView>)
    requires
        is_open(events),
    ensures
        pending_after(events).text == text_in(events),
        pending_after(events).reasoning == reasoning_in(events),
        pending_after(events).text_item_added ==> pending_after(events).text_item_id == Some(
            message_id(),
        ),
        !pending_after(events).text_item_added ==> !has_message(pending_after(events)),
    decreases events.len(),
{
    if events.len() > 0 {
        let before = events.drop_last();
        let p = pending_after(before);
        assert(is_open(before)) by {
            assert(forall|i: int| 0 <= i < before.len() ==> before[i] == events[i]);
        }
        assert(!(events[events.len() - 1] is End));
        lemma_pending_texts(before);
        lemma_run_step(nothing_pending(), events);
        assert(!p.text_item_added ==> p.text =~= Seq::empty());
        assert(pending_after(events).text =~= text_in(events));
        assert(pending_after(events).reasoning =~= reasoning_in(events));
    }
}

/// The end of the chat stream closes each call whose item was opened, with what its last chunk
/// tells of it.
pub proof fn law_opened_calls_closed(
    events: Seq<ChatStreamEventView>,
    end: StreamEndView,
    id: Seq<char>,
)
    requires
        is_open(events),
    ensures
        tools_opened(response(events)).contains(id) <==> call_in(events, id).len() > 0,
        call_in(events, id).len() > 0 ==> items_done(
            response(events.push(ChatStreamEventView::End(end))),
        ).contains(call_done(call_in(events, id).last())),
{
    let p = pending_after(events);
    lemma_tools_opened(events);
    lemma_opened_calls(events, id);
    law_pending_calls(events, id);
    law_items_closed(events, end);
    if call_in(events, id).len() > 0 {
        let call = call_in(events, id).last();
        let done = |call: PendingToolCallView| call_done(call);
        lemma_found_call(p.tool_calls, id);
        let i = choose|i: int| 0 <= i < p.tool_calls.len() && #[trigger] p.tool_calls[i] == call;
        let items = pending_items(p);
        let k = items.len() - p.tool_calls.len() + i;
        assert(p.tool_calls.map_values(done)[i] == call_done(call));
        assert(items[k] == call_done(call));
    }
}

proof fn lemma_found_call(calls: Seq<PendingToolCallView>, id: Seq<char>)
    requires
        find_call(calls, id) is Some,
    ensures
        exists|i: int| 0 <= i < calls.len() && #[trigger] calls[i] == find_call(calls, id)->0,
    decreases calls.len(),
{
    if calls[0].id != id {
        let rest = calls.drop_first();
        lemma_found_call(rest, id);
        let i = choose|i: int| 0 <= i < rest.len() && #[trigger] rest[i] == find_call(rest, id)->0;
        assert(calls[i + 1] == rest[i]);
    }
}

proof fn lemma_opened_calls(events: Seq<ChatStreamEventView>, id: Seq<char>)
    requires
        is_open(events),
    ensures
        pending_after(events).tool_items_added.contains(id) <==> call_in(events, id).len() > 0,
    decreases events.len(),
{
    if events.len() > 0 {
        let before = events.drop_last();
        let p = pending_after(before);
        let q = pending_after(events);
        assert(is_open(before)) by {
            assert(forall|i: int| 0 <= i < before.len() ==> before[i] == events[i]);
        }
        assert(!(events[events.len() - 1] is End));
        lemma_opened_calls(before, id);
        lemma_run_step(nothing_pending(), events);
        if p.tool_items_added.contains(id) {
            let j = choose|j: int|
                0 <= j < p.tool_items_added.len() && p.tool_items_added[j] == id;
            assert(q.tool_items_added[j] == id);
        }
        if let ChatStreamEventView::ToolCallChunk(call) = events.last() {
            if !p.tool_items_added.contains(call.call_id) {
                assert(q.tool_items_added.last() == call.call_id);
            }
        }
    }
}

/// A chat stream in two parts.
pub proof fn lemma_run_add(
    p: PendingView,
    a: Seq<ChatStreamEventView>,
    b: Seq<ChatStreamEventView>,
)
    ensures
        run(p, a + b).0 == run(run(p, a).0, b).0,
        run(p, a + b).1 == run(p, a).1 + run(run(p, a).0, b).1,
    decreases b.len(),
{
    if b.len() == 0 {
        assert(a + b =~= a);
        assert(run(p, a).1 + Seq::empty() =~= run(p, a).1);
    } else {
        assert((a + b).drop_last() =~= a + b.drop_last());
        assert((a + b).last() == b.last());
        lemma_run_add(p, a, b.drop_last());
        assert(run(p, a + b).1 =~= run(p, a).1 + run(run(p, a).0, b).1);
    }
}

} // verus!
