//! What holds of the conversion of a conversation as a whole.

use vstd::prelude::*;

use crate::chat::{
    ChatMessageView, ChatRole, ChatStreamEventView, ContentPartView, StreamEndView, ToolCallView,
};
use crate::convert_request::{
    call_message, calls_end, chat_role, content_parts, conversation, item_step, parsed_text,
    signature_message, trailing, trailing_message, with_calls,
};
use crate::convert_response::{call_done, has_message, message_done, reasoning_done};
use crate::gather::{gather, lemma_gather_add, lemma_gather_one, lemma_silent};
use crate::json::{json_parse, parsed_or_string};
use crate::protocol::{ContentItemView, ResponseItemView};
use crate::response_laws::{
    is_open, items_done, law_items_closed, pending_after, pending_items, response,
};
use crate::types::{PendingToolCallView, PendingView};

verus! {

/// A function call stands just before the end of the calls, and none after it.
pub proof fn lemma_calls_end(items: Seq<ResponseItemView>)
    ensures
        0 <= calls_end(items) <= items.len(),
        calls_end(items) > 0 ==> items[calls_end(items) - 1] is FunctionCall,
        forall|i: int| calls_end(items) <= i < items.len() ==> !(#[trigger] items[i] is FunctionCall),
    decreases items.len(),
{
    if items.len() > 0 && !(items.last() is FunctionCall) {
        let before = items.drop_last();
        lemma_calls_end(before);
        assert forall|i: int| calls_end(items) <= i < items.len() implies !(
        #[trigger] items[i] is FunctionCall) by {
            if i < before.len() {
                assert(!(before[i] is FunctionCall));
            }
        }
    }
}

/// The end of the calls in two parts.
proof fn lemma_calls_end_add(a: Seq<ResponseItemView>, b: Seq<ResponseItemView>)
    ensures
        calls_end(a + b) == (if calls_end(b) > 0 {
            a.len() + calls_end(b)
        } else {
            calls_end(a)
        }),
    decreases b.len(),
{
    if b.len() == 0 {
        assert(a + b =~= a);
    } else {
        assert((a + b).drop_last() =~= a + b.drop_last());
        assert((a + b).last() == b.last());
        lemma_calls_end_add(a, b.drop_last());
    }
}

/// Items up to a function call in two parts.
pub proof fn lemma_with_calls_add(
    waiting: Seq<Seq<char>>,
    a: Seq<ResponseItemView>,
    b: Seq<ResponseItemView>,
)
    ensures
        with_calls(waiting, a + b).0 == with_calls(waiting, a).0 + with_calls(
            with_calls(waiting, a).1,
            b,
        ).0,
        with_calls(waiting, a + b).1 == with_calls(with_calls(waiting, a).1, b).1,
    decreases b.len(),
{
    if b.len() == 0 {
        assert(a + b =~= a);
        assert(with_calls(waiting, a).0 + Seq::empty() =~= with_calls(waiting, a).0);
    } else {
        assert((a + b).drop_last() =~= a + b.drop_last());
        assert((a + b).last() == b.last());
        lemma_with_calls_add(waiting, a, b.drop_last());
        assert(with_calls(waiting, a + b).0 =~= with_calls(waiting, a).0 + with_calls(
            with_calls(waiting, a).1,
            b,
        ).0);
    }
}

/// Items that no function call follows in two parts.
pub proof fn lemma_trailing_add(a: Seq<ResponseItemView>, b: Seq<ResponseItemView>)
    ensures
        trailing(a + b) == trailing(a) + trailing(b),
    decreases b.len(),
{
    if b.len() == 0 {
        assert(a + b =~= a);
        assert(trailing(a) + Seq::empty() =~= trailing(a));
    } else {
        assert((a + b).drop_last() =~= a + b.drop_last());
        assert((a + b).last() == b.last());
        lemma_trailing_add(a, b.drop_last());
        assert(trailing(a + b) =~= trailing(a) + trailing(b));
    }
}

/// A conversation in two parts: the messages for the second part come after those for the first.
/// Nothing of the first part counts for the second but the thought signatures that wait for a
/// function call, and where the second part has none, nothing at all.
pub proof fn law_conversation_parts(a: Seq<ResponseItemView>, b: Seq<ResponseItemView>)
    ensures
        calls_end(b) == 0 ==> conversation(a + b) == conversation(a) + trailing(b),
        calls_end(b) > 0 ==> conversation(a + b) == with_calls(Seq::empty(), a).0 + with_calls(
            with_calls(Seq::empty(), a).1,
            b.take(calls_end(b)),
        ).0 + trailing(b.skip(calls_end(b))),
{
    let all = a + b;
    let k = calls_end(all);
    lemma_calls_end(a);
    lemma_calls_end(b);
    lemma_calls_end_add(a, b);
    if calls_end(b) == 0 {
        assert(all.take(k) =~= a.take(k));
        assert(all.skip(k) =~= a.skip(k) + b);
        lemma_trailing_add(a.skip(k), b);
        assert(conversation(all) =~= conversation(a) + trailing(b));
    } else {
        assert(all.take(k) =~= a + b.take(calls_end(b)));
        assert(all.skip(k) =~= b.skip(calls_end(b)));
        lemma_with_calls_add(Seq::empty(), a, b.take(calls_end(b)));
    }
}

/// Whether an item is an internal event that is not sent to the model.
pub open spec fn is_internal(item: ResponseItemView) -> bool {
    ||| item is LocalShellCall
    ||| item is ToolSearchCall
    ||| item is ToolSearchOutput
    ||| item is WebSearchCall
    ||| item is ImageGenerationCall
    ||| item is Compaction
    ||| item is ContextCompaction
    ||| item is CompactionTrigger
    ||| item is Other
}

/// Internal events make no difference, wherever they stand in a conversation.
pub proof fn law_internal_items(
    a: Seq<ResponseItemView>,
    item: ResponseItemView,
    b: Seq<ResponseItemView>,
)
    requires
        is_internal(item),
    ensures
        conversation(a + seq![item] + b) == conversation(a + b),
{
    let longer = a + seq![item];
    law_conversation_parts(longer, b);
    law_conversation_parts(a, b);
    law_conversation_parts(a, seq![item]);
    assert(longer.drop_last() =~= a);
    assert(longer.last() == item);
    reveal_with_fuel(calls_end, 2);
    assert(seq![item].drop_last() =~= Seq::empty());
    Seq::<ResponseItemView>::lemma_filter_map_singleton(
        item,
        |item: ResponseItemView| trailing_message(item, parsed_text(item)),
    );
    assert(conversation(longer) =~= conversation(a));
    assert(with_calls(Seq::empty(), longer) == with_calls(Seq::empty(), a));
    lemma_calls_end(b);
}

/// The role of the message for an item, if the item gives one.
pub open spec fn item_role(item: ResponseItemView) -> Seq<ChatRole> {
    match item {
        ResponseItemView::Message { role, .. } => seq![chat_role(role)],
        ResponseItemView::FunctionCall { .. } => seq![ChatRole::Assistant],
        ResponseItemView::CustomToolCall { .. } => seq![ChatRole::Assistant],
        ResponseItemView::FunctionCallOutput { .. } => seq![ChatRole::Tool],
        ResponseItemView::CustomToolCallOutput { .. } => seq![ChatRole::Tool],
        _ => Seq::empty(),
    }
}

/// The role of the message for an item that no function call follows, if the item gives one.
pub open spec fn trailing_role(item: ResponseItemView) -> Seq<ChatRole> {
    match item {
        ResponseItemView::Reasoning { encrypted_content: Some(_), .. } => seq![ChatRole::Assistant],
        _ => item_role(item),
    }
}

/// Each message, call and output of a conversation gives one message, in order, and so does each
/// reasoning with a thought signature that no function call follows; no other item gives one.
pub proof fn law_one_message_each(items: Seq<ResponseItemView>)
    ensures
        conversation(items).map_values(|message: ChatMessageView| message.role) == gather(
            items.take(calls_end(items)),
            |item: ResponseItemView| item_role(item),
        ) + gather(
            items.skip(calls_end(items)),
            |item: ResponseItemView| trailing_role(item),
        ),
{
    let role = |message: ChatMessageView| message.role;
    let first = items.take(calls_end(items));
    let rest = items.skip(calls_end(items));
    lemma_roles_with_calls(Seq::empty(), first);
    lemma_roles_trailing(rest);
    assert(conversation(items).map_values(role) =~= with_calls(Seq::empty(), first).0.map_values(
        role,
    ) + trailing(rest).map_values(role));
}

proof fn lemma_roles_with_calls(waiting: Seq<Seq<char>>, items: Seq<ResponseItemView>)
    ensures
        with_calls(waiting, items).0.map_values(|message: ChatMessageView| message.role) == gather(
            items,
            |item: ResponseItemView| item_role(item),
        ),
    decreases items.len(),
{
    let role = |message: ChatMessageView| message.role;
    if items.len() > 0 {
        lemma_roles_with_calls(waiting, items.drop_last());
        let (messages, so_far) = with_calls(waiting, items.drop_last());
        assert(with_calls(waiting, items).0.map_values(role) =~= messages.map_values(role)
            + item_role(items.last()));
    } else {
        assert(with_calls(waiting, items).0.map_values(role) =~= Seq::empty());
    }
}

proof fn lemma_roles_trailing(items: Seq<ResponseItemView>)
    ensures
        trailing(items).map_values(|message: ChatMessageView| message.role) == gather(
            items,
            |item: ResponseItemView| trailing_role(item),
        ),
    decreases items.len(),
{
    let role = |message: ChatMessageView| message.role;
    if items.len() > 0 {
        lemma_roles_trailing(items.drop_last());
        assert(trailing(items).map_values(role) =~= trailing(items.drop_last()).map_values(role)
            + trailing_role(items.last()));
    } else {
        assert(trailing(items).map_values(role) =~= Seq::empty());
    }
}

/// Whether an item has nothing to send: an internal event, or reasoning without a thought
/// signature.
pub open spec fn has_nothing(item: ResponseItemView) -> bool {
    is_internal(item) || (item matches ResponseItemView::Reasoning { encrypted_content, .. }
        && encrypted_content is None)
}

/// A conversation gives no message at all where no item has anything to send, and only there.
pub proof fn law_nothing_convertible(items: Seq<ResponseItemView>)
    ensures
        conversation(items).len() == 0 <==> forall|i: int|
            0 <= i < items.len() ==> has_nothing(#[trigger] items[i]),
{
    let k = calls_end(items);
    lemma_calls_end(items);
    if k > 0 {
        let first = items.take(k);
        assert(first.last() == items[k - 1]);
        assert(!has_nothing(items[k - 1]));
        assert(with_calls(Seq::empty(), first).0.len() > 0);
    } else {
        assert(items.skip(0) =~= items);
        lemma_trailing_empty(items);
    }
}

proof fn lemma_trailing_empty(items: Seq<ResponseItemView>)
    ensures
        trailing(items).len() == 0 <==> forall|i: int|
            0 <= i < items.len() ==> has_nothing(#[trigger] items[i]),
    decreases items.len(),
{
    if items.len() > 0 {
        let before = items.drop_last();
        lemma_trailing_empty(before);
        assert(items.last() == items[items.len() - 1]);
        assert(has_nothing(items.last()) <==> trailing_message(
            items.last(),
            parsed_text(items.last()),
        ) is None);
        if trailing(items).len() == 0 {
            assert forall|i: int| 0 <= i < items.len() implies has_nothing(#[trigger] items[i]) by {
                if i < before.len() {
                    assert(has_nothing(before[i]));
                }
            }
        } else if forall|i: int| 0 <= i < items.len() ==> has_nothing(#[trigger] items[i]) {
            assert forall|i: int| 0 <= i < before.len() implies has_nothing(
                #[trigger] before[i],
            ) by {
                assert(has_nothing(items[i]));
            }
        }
    }
}

/// The thought signatures of a part of a message.
pub open spec fn part_signatures(part: ContentPartView) -> Seq<Seq<char>> {
    match part {
        ContentPartView::ToolCall(call) => match call.thought_signatures {
            Some(signatures) => signatures,
            None => Seq::empty(),
        },
        ContentPartView::ThoughtSignature(signature) => seq![signature],
        _ => Seq::empty(),
    }
}

/// The thought signatures that a message carries.
pub open spec fn message_signatures(message: ChatMessageView) -> Seq<Seq<char>> {
    gather(message.parts, |part: ContentPartView| part_signatures(part))
}

/// The thought signature of an item.
pub open spec fn item_signature(item: ResponseItemView) -> Seq<Seq<char>> {
    match item {
        ResponseItemView::Reasoning { encrypted_content: Some(signature), .. } => seq![signature],
        _ => Seq::empty(),
    }
}

/// No thought signature is lost, doubled or moved past another: those that the messages carry are
/// those of the conversation, in order.
pub proof fn law_signatures_kept(items: Seq<ResponseItemView>)
    ensures
        gather(
            conversation(items),
            |message: ChatMessageView| message_signatures(message),
        ) == gather(items, |item: ResponseItemView| item_signature(item)),
{
    let f = |item: ResponseItemView| item_signature(item);
    let g = |message: ChatMessageView| message_signatures(message);
    let k = calls_end(items);
    let first = items.take(k);
    let rest = items.skip(k);
    lemma_calls_end(items);
    lemma_signatures_with_calls(Seq::empty(), first);
    lemma_signatures_trailing(rest);
    if k > 0 {
        assert(first.last() == items[k - 1]);
    }
    assert(with_calls(Seq::empty(), first).1 =~= Seq::empty());
    assert(items =~= first + rest);
    lemma_gather_add(first, rest, f);
    lemma_gather_add(with_calls(Seq::empty(), first).0, trailing(rest), g);
    assert(gather(with_calls(Seq::empty(), first).0, g) =~= gather(first, f));
}

proof fn lemma_signatures_with_calls(waiting: Seq<Seq<char>>, items: Seq<ResponseItemView>)
    ensures
        gather(
            with_calls(waiting, items).0,
            |message: ChatMessageView| message_signatures(message),
        ) + with_calls(waiting, items).1 == waiting + gather(
            items,
            |item: ResponseItemView| item_signature(item),
        ),
    decreases items.len(),
{
    let f = |item: ResponseItemView| item_signature(item);
    let g = |message: ChatMessageView| message_signatures(message);
    if items.len() > 0 {
        lemma_signatures_with_calls(waiting, items.drop_last());
        let (messages, so_far) = with_calls(waiting, items.drop_last());
        let item = items.last();
        let (message, still_waiting) = item_step(item, parsed_text(item), so_far);
        lemma_step_signatures(item, so_far);
        if let Some(message) = message {
            assert(messages.push(message) =~= messages + seq![message]);
            lemma_gather_add(messages, seq![message], g);
            lemma_gather_one(message, g);
        }
        assert(gather(with_calls(waiting, items).0, g) + still_waiting =~= gather(messages, g) + (
        so_far + item_signature(item)));
        assert(gather(messages, g) + (so_far + item_signature(item)) =~= (gather(messages, g)
            + so_far) + item_signature(item));
        assert((waiting + gather(items.drop_last(), f)) + item_signature(item) =~= waiting + gather(
            items,
            f,
        ));
    } else {
        assert(gather(with_calls(waiting, items).0, g) + waiting =~= waiting + gather(items, f));
    }
}

proof fn lemma_signatures_trailing(items: Seq<ResponseItemView>)
    ensures
        gather(
            trailing(items),
            |message: ChatMessageView| message_signatures(message),
        ) == gather(items, |item: ResponseItemView| item_signature(item)),
    decreases items.len(),
{
    let f = |item: ResponseItemView| item_signature(item);
    let g = |message: ChatMessageView| message_signatures(message);
    let h = |part: ContentPartView| part_signatures(part);
    if items.len() > 0 {
        let before = items.drop_last();
        let item = items.last();
        lemma_signatures_trailing(before);
        lemma_step_signatures(item, Seq::empty());
        match trailing_message(item, parsed_text(item)) {
            Some(message) => {
                lemma_gather_add(trailing(before), seq![message], g);
                lemma_gather_one(message, g);
                if item_signature(item).len() > 0 {
                    lemma_gather_one(message.parts[0], h);
                }
                assert(message_signatures(message) =~= item_signature(item));
            },
            None => {
                assert(item_signature(item) =~= Seq::empty());
            },
        }
        assert(gather(trailing(items), g) =~= gather(items, f));
    }
}

/// The thought signatures of one step.
proof fn lemma_step_signatures(item: ResponseItemView, waiting: Seq<Seq<char>>)
    ensures
        ({
            let (message, still_waiting) = item_step(item, parsed_text(item), waiting);
            match message {
                Some(message) => message_signatures(message) + still_waiting == waiting
                    + item_signature(item),
                None => still_waiting == waiting + item_signature(item),
            }
        }),
{
    let f = |part: ContentPartView| part_signatures(part);
    let (message, still_waiting) = item_step(item, parsed_text(item), waiting);
    match message {
        Some(message) => {
            if let ResponseItemView::Message { content, .. } = item {
                assert forall|i: int| 0 <= i < message.parts.len() implies f(
                    #[trigger] message.parts[i],
                ) == Seq::<Seq<char>>::empty() by {
                    assert(message.parts[i] == content_parts(content)[i]);
                }
                lemma_silent(message.parts, f);
            } else {
                assert(message.parts =~= seq![message.parts[0]]);
                lemma_gather_one(message.parts[0], f);
            }
            assert(message_signatures(message) + still_waiting =~= waiting + item_signature(item));
        },
        None => {
            assert(still_waiting =~= waiting + item_signature(item));
        },
    }
}

/// The message with a call, as it is sent back.
pub open spec fn echoed_call(
    call: PendingToolCallView,
    signatures: Option<Seq<Seq<char>>>,
) -> ChatMessageView {
    call_message(
        ToolCallView {
            call_id: call.id,
            fn_name: call.name,
            fn_arguments: parsed_or_string(json_parse(call.arguments), call.arguments),
            thought_signatures: signatures,
        },
    )
}

/// The message with the text of a response, as it is sent back.
pub open spec fn echoed_text(p: PendingView) -> Seq<ChatMessageView> {
    if has_message(p) {
        seq![
            ChatMessageView {
                role: ChatRole::Assistant,
                parts: if p.text.len() == 0 {
                    Seq::empty()
                } else {
                    seq![ContentPartView::Text(p.text)]
                },
            },
        ]
    } else {
        Seq::empty()
    }
}

/// The messages for what a response said: its text in a message of the assistant; then its calls,
/// the first of them with its reasoning, or its reasoning in a message of its own where there is
/// no call.
pub open spec fn echoed(p: PendingView) -> Seq<ChatMessageView> {
    echoed_text(p) + (if p.tool_calls.len() > 0 {
        Seq::new(
            p.tool_calls.len(),
            |i: int|
                echoed_call(
                    p.tool_calls[i],
                    if i == 0 && p.reasoning.len() > 0 {
                        Some(seq![p.reasoning])
                    } else {
                        None
                    },
                ),
        )
    } else if p.reasoning.len() > 0 {
        seq![signature_message(p.reasoning)]
    } else {
        Seq::empty()
    })
}

/// What a response said can be sent back: the items that it closes, as the conversation of the
/// next request, give its text, its calls and its reasoning.
pub proof fn law_response_sent_back(events: Seq<ChatStreamEventView>, end: StreamEndView)
    requires
        is_open(events),
    ensures
        conversation(items_done(response(events.push(ChatStreamEventView::End(end))))) == echoed(
            pending_after(events),
        ),
{
    law_items_closed(events, end);
    lemma_items_echoed(pending_after(events));
}

proof fn lemma_items_echoed(p: PendingView)
    ensures
        conversation(pending_items(p)) == echoed(p),
{
    let done = |call: PendingToolCallView| call_done(call);
    let give = |item: ResponseItemView| trailing_message(item, parsed_text(item));
    let first: Seq<ResponseItemView> = if has_message(p) {
        seq![message_done(p)]
    } else {
        Seq::empty()
    };
    let second: Seq<ResponseItemView> = if p.reasoning.len() > 0 {
        seq![reasoning_done(p)]
    } else {
        Seq::empty()
    };
    let third = p.tool_calls.map_values(done);
    let waiting: Seq<Seq<char>> = if p.reasoning.len() > 0 {
        seq![p.reasoning]
    } else {
        Seq::empty()
    };
    let items = pending_items(p);
    assert(items == first + second + third);
    reveal_with_fuel(with_calls, 2);
    reveal_with_fuel(calls_end, 2);
    assert(seq![message_done(p)].drop_last() =~= Seq::empty());
    assert(seq![reasoning_done(p)].drop_last() =~= Seq::empty());
    if p.text.len() == 0 {
        assert(content_parts(Seq::empty()) =~= Seq::empty());
    } else {
        assert(content_parts(seq![ContentItemView::OutputText { text: p.text }]) =~= seq![
            ContentPartView::Text(p.text),
        ]);
    }
    if p.tool_calls.len() > 0 {
        assert(items.last() == call_done(p.tool_calls.last()));
        assert(items.take(items.len() as int) =~= items);
        assert(items.skip(items.len() as int) =~= Seq::empty());
        lemma_with_calls_add(Seq::empty(), first + second, third);
        lemma_with_calls_add(Seq::empty(), first, second);
        assert(with_calls(Seq::empty(), first).0 =~= echoed_text(p));
        assert(with_calls(Seq::empty(), first).1 =~= Seq::empty());
        assert(with_calls(Seq::empty(), second).0 =~= Seq::empty());
        assert(with_calls(Seq::empty(), second).1 =~= waiting);
        lemma_calls_echoed(waiting, p.tool_calls);
    } else {
        assert(items =~= first + second);
        lemma_calls_end_add(first, second);
        assert(calls_end(items) == 0);
        assert(items.take(0) =~= Seq::empty());
        assert(items.skip(0) =~= items);
        lemma_trailing_add(first, second);
        Seq::<ResponseItemView>::lemma_filter_map_singleton(message_done(p), give);
        Seq::<ResponseItemView>::lemma_filter_map_singleton(reasoning_done(p), give);
        assert(trailing(first) =~= echoed_text(p));
    }
    assert(conversation(items) =~= echoed(p));
}

/// Calls that are sent back while thought signatures wait.
proof fn lemma_calls_echoed(waiting: Seq<Seq<char>>, calls: Seq<PendingToolCallView>)
    ensures
        ({
            let items = calls.map_values(|call: PendingToolCallView| call_done(call));
            let (messages, still_waiting) = with_calls(waiting, items);
            &&& messages.len() == calls.len()
            &&& forall|i: int|
                0 <= i < calls.len() ==> #[trigger] messages[i] == echoed_call(
                    calls[i],
                    if i == 0 && waiting.len() > 0 {
                        Some(waiting)
                    } else {
                        None
                    },
                )
            &&& still_waiting == (if calls.len() == 0 {
                waiting
            } else {
                Seq::empty()
            })
        }),
    decreases calls.len(),
{
    let done = |call: PendingToolCallView| call_done(call);
    if calls.len() > 0 {
        lemma_calls_echoed(waiting, calls.drop_last());
        assert(calls.map_values(done).drop_last() =~= calls.drop_last().map_values(done));
        assert(calls.map_values(done).last() == call_done(calls.last()));
    }
}

} // verus!
