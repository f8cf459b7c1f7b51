//! What is known of an assistant message while it streams in.

use vstd::prelude::*;

use crate::protocol::TokenUsage;
use crate::text::{is_less, lemma_less_irreflexive, lemma_less_total, lemma_less_transitive, text_less};

verus! {

/// Accumulates streaming partials into a complete assistant message plus final metadata.
pub struct PendingAssistantMessage {
    /// Aggregated text from `OutputTextDelta` events.
    pub text_buffer: String,
    /// Aggregated reasoning from `ReasoningContentDelta` events.
    pub reasoning_buffer: String,
    /// Tool calls, one for each `call_id`, in the order of their ids.
    pub tool_calls: Vec<PendingToolCall>,
    /// Normalized finish reason from the stream end event.
    pub finish_reason: Option<String>,
    /// Token usage captured at stream end.
    pub token_usage: Option<TokenUsage>,
    /// Response ID captured at stream end.
    pub response_id: Option<String>,
    /// Thought signatures collected during streaming.
    pub thought_signatures: Vec<String>,
    /// Whether `OutputItemAdded(Message)` has been emitted for the text item.
    pub text_item_added: bool,
    /// Synthetic ID for the text message item, the same in `OutputItemAdded` and
    /// `OutputItemDone`.
    pub text_item_id: Option<String>,
    /// The `call_id`s for which `OutputItemAdded` was emitted, each once.
    pub tool_items_added: Vec<String>,
    /// Incrementing counter for `ReasoningContentDelta.content_index`.
    pub reasoning_content_index: u64,
}

/// A tool call being incrementally built from streaming deltas.
pub struct PendingToolCall {
    pub id: String,
    pub name: String,
    /// The arguments as far as they have come.
    pub arguments_buffer: String,
}

/// A pending message by its texts.
pub struct PendingView {
    pub text: Seq<char>,
    pub reasoning: Seq<char>,
    pub tool_calls: Seq<PendingToolCallView>,
    pub finish_reason: Option<Seq<char>>,
    pub token_usage: Option<TokenUsage>,
    pub response_id: Option<Seq<char>>,
    pub thought_signatures: Seq<Seq<char>>,
    pub text_item_added: bool,
    pub text_item_id: Option<Seq<char>>,
    pub tool_items_added: Seq<Seq<char>>,
    pub reasoning_content_index: nat,
}

pub struct PendingToolCallView {
    pub id: Seq<char>,
    pub name: Seq<char>,
    pub arguments: Seq<char>,
}

impl DeepView for PendingAssistantMessage {
    type V = PendingView;

    open spec fn deep_view(&self) -> PendingView {
        PendingView {
            text: self.text_buffer@,
            reasoning: self.reasoning_buffer@,
            tool_calls: self.tool_calls.deep_view(),
            finish_reason: self.finish_reason.deep_view(),
            token_usage: self.token_usage,
            response_id: self.response_id.deep_view(),
            thought_signatures: self.thought_signatures.deep_view(),
            text_item_added: self.text_item_added,
            text_item_id: self.text_item_id.deep_view(),
            tool_items_added: self.tool_items_added.deep_view(),
            reasoning_content_index: self.reasoning_content_index as nat,
        }
    }
}

impl DeepView for PendingToolCall {
    type V = PendingToolCallView;

    open spec fn deep_view(&self) -> PendingToolCallView {
        PendingToolCallView {
            id: self.id@,
            name: self.name@,
            arguments: self.arguments_buffer@,
        }
    }
}

/// A message of which nothing has come yet.
pub open spec fn nothing_pending() -> PendingView {
    PendingView {
        text: Seq::empty(),
        reasoning: Seq::empty(),
        tool_calls: Seq::empty(),
        finish_reason: None,
        token_usage: None,
        response_id: None,
        thought_signatures: Seq::empty(),
        text_item_added: false,
        text_item_id: None,
        tool_items_added: Seq::empty(),
        reasoning_content_index: 0,
    }
}

impl PendingView {
    /// The tool calls stand in the order of their ids, no id twice, and `OutputItemAdded` was
    /// emitted once for each of them.
    pub open spec fn well_formed(self) -> bool {
        &&& in_order(self.tool_calls)
        &&& self.tool_items_added.no_duplicates()
        &&& forall|i: int|
            0 <= i < self.tool_calls.len() ==> self.tool_items_added.contains(
                (#[trigger] self.tool_calls[i]).id,
            )
    }
}

impl PendingAssistantMessage {
    /// A message of which nothing has come yet.
    pub fn new() -> (pending: Self)
        ensures
            pending.deep_view() == nothing_pending(),
            pending.deep_view().well_formed(),
    {
        let pending = PendingAssistantMessage {
            text_buffer: String::new(),
            reasoning_buffer: String::new(),
            tool_calls: Vec::new(),
            finish_reason: None,
            token_usage: None,
            response_id: None,
            thought_signatures: Vec::new(),
            text_item_added: false,
            text_item_id: None,
            tool_items_added: Vec::new(),
            reasoning_content_index: 0,
        };
        proof {
            assert(pending.tool_calls.deep_view() =~= Seq::empty());
            assert(pending.thought_signatures.deep_view() =~= Seq::empty());
            assert(pending.tool_items_added.deep_view() =~= Seq::empty());
        }
        pending
    }
}

/// Whether calls stand in the order of their ids, no id twice.
pub open spec fn in_order(calls: Seq<PendingToolCallView>) -> bool {
    forall|i: int, j: int| 0 <= i < j < calls.len() ==> text_less(calls[i].id, calls[j].id)
}

/// The call with this id.
pub open spec fn find_call(calls: Seq<PendingToolCallView>, id: Seq<char>) -> Option<
    PendingToolCallView,
>
    decreases calls.len(),
{
    if calls.len() == 0 {
        None
    } else if calls[0].id == id {
        Some(calls[0])
    } else {
        find_call(calls.drop_first(), id)
    }
}

/// The calls with `call` in its place among them, in place of a call with the same id.
pub open spec fn put_call(calls: Seq<PendingToolCallView>, call: PendingToolCallView) -> Seq<
    PendingToolCallView,
>
    decreases calls.len(),
{
    if calls.len() == 0 {
        seq![call]
    } else if calls[0].id == call.id {
        seq![call] + calls.drop_first()
    } else if text_less(call.id, calls[0].id) {
        seq![call] + calls
    } else {
        seq![calls[0]] + put_call(calls.drop_first(), call)
    }
}

/// What `find_call` gives, with the calls taken from position `i` on.
proof fn lemma_find_call_from(calls: Seq<PendingToolCallView>, id: Seq<char>, i: int)
    requires
        0 <= i <= calls.len(),
        forall|j: int| 0 <= j < i ==> (#[trigger] calls[j]).id != id,
    ensures
        find_call(calls, id) == find_call(calls.skip(i), id),
    decreases i,
{
    if i == 0 {
        assert(calls.skip(0) =~= calls);
    } else {
        let rest = calls.drop_first();
        assert(calls[0].id != id);
        assert forall|j: int| 0 <= j < i - 1 implies (#[trigger] rest[j]).id != id by {
            assert(rest[j] == calls[j + 1]);
        }
        lemma_find_call_from(rest, id, i - 1);
        assert(rest.skip(i - 1) =~= calls.skip(i));
    }
}

/// What `put_call` gives, with the calls taken from position `i` on.
proof fn lemma_put_call_from(calls: Seq<PendingToolCallView>, call: PendingToolCallView, i: int)
    requires
        0 <= i <= calls.len(),
        forall|j: int| 0 <= j < i ==> text_less((#[trigger] calls[j]).id, call.id),
    ensures
        put_call(calls, call) == calls.take(i) + put_call(calls.skip(i), call),
    decreases i,
{
    if i == 0 {
        assert(calls.skip(0) =~= calls);
        assert(calls.take(0) + put_call(calls, call) =~= put_call(calls, call));
    } else {
        let rest = calls.drop_first();
        assert(text_less(calls[0].id, call.id));
        lemma_less_irreflexive(call.id);
        if text_less(call.id, calls[0].id) {
            lemma_less_transitive(call.id, calls[0].id, call.id);
        }
        assert forall|j: int| 0 <= j < i - 1 implies text_less(
            (#[trigger] rest[j]).id,
            call.id,
        ) by {
            assert(rest[j] == calls[j + 1]);
        }
        lemma_put_call_from(rest, call, i - 1);
        assert(rest.skip(i - 1) =~= calls.skip(i));
        assert(seq![calls[0]] + (rest.take(i - 1) + put_call(calls.skip(i), call)) =~= calls.take(i)
            + put_call(calls.skip(i), call));
    }
}

/// The position of the call with this id.
pub(crate) fn position_of_call(calls: &Vec<PendingToolCall>, id: &String) -> (position: Option<
    usize,
>)
    ensures
        position is Some <==> find_call(calls.deep_view(), id@) is Some,
        position matches Some(i) ==> i < calls@.len() && find_call(calls.deep_view(), id@) == Some(
            calls@[i as int].deep_view(),
        ),
{
    let mut i: usize = 0;
    while i < calls.len()
        invariant
            i <= calls@.len(),
            forall|j: int| 0 <= j < i ==> (#[trigger] calls.deep_view()[j]).id != id@,
        decreases calls@.len() - i,
    {
        if calls[i].id == *id {
            proof {
                lemma_find_call_from(calls.deep_view(), id@, i as int);
            }
            return Some(i);
        }
        i = i + 1;
    }
    proof {
        lemma_find_call_from(calls.deep_view(), id@, i as int);
    }
    None
}

/// Puts a call in its place, in place of a call with the same id.
pub(crate) fn store_call(calls: &mut Vec<PendingToolCall>, call: PendingToolCall)
    ensures
        final(calls).deep_view() == put_call(old(calls).deep_view(), call.deep_view()),
{
    let ghost before = calls.deep_view();
    let ghost added = call.deep_view();
    let mut i: usize = 0;
    while i < calls.len() && is_less(calls[i].id.as_str(), call.id.as_str())
        invariant
            i <= calls@.len(),
            calls.deep_view() == before,
            added == call.deep_view(),
            forall|j: int| 0 <= j < i ==> text_less((#[trigger] before[j]).id, added.id),
        decreases calls@.len() - i,
    {
        i = i + 1;
    }
    proof {
        lemma_put_call_from(before, added, i as int);
        if i < before.len() {
            lemma_less_total(before[i as int].id, added.id);
            lemma_less_irreflexive(added.id);
        }
    }
    if i < calls.len() && calls[i].id == call.id {
        calls.set(i, call);
        proof {
            assert(before.skip(i as int)[0] == before[i as int]);
            assert(calls.deep_view() =~= before.update(i as int, added));
            assert(calls.deep_view() =~= before.take(i as int) + (seq![added] + before.skip(
                i as int,
            ).drop_first()));
        }
    } else {
        calls.insert(i, call);
        proof {
            assert(calls.deep_view() =~= before.insert(i as int, added));
            if i < before.len() {
                assert(before.skip(i as int)[0] == before[i as int]);
                assert(calls.deep_view() =~= before.take(i as int) + (seq![added] + before.skip(
                    i as int,
                )));
            } else {
                assert(calls.deep_view() =~= before.take(i as int) + seq![added]);
            }
        }
    }
}

/// Whether an id stands in a list.
pub(crate) fn has_id(ids: &Vec<String>, id: &String) -> (found: bool)
    ensures
        found == ids.deep_view().contains(id@),
{
    let mut i: usize = 0;
    while i < ids.len()
        invariant
            i <= ids@.len(),
            forall|j: int| 0 <= j < i ==> #[trigger] ids.deep_view()[j] != id@,
        decreases ids@.len() - i,
    {
        if ids[i] == *id {
            proof {
                assert(ids.deep_view()[i as int] == id@);
            }
            return true;
        }
        i = i + 1;
    }
    false
}

} // verus!
