//! What each item of a conversation gives, item by item, and where it stands among the messages.

use serde_json::Value;
use vstd::prelude::*;

use crate::chat::{ChatMessageView, ChatRole, ContentPartView};
use crate::convert_request::{
    calls_end, chat_request, chat_role, content_parts, conversation, described_tool,
    described_tools, item_step, json_trees, parsed_text, trailing, trailing_message, with_calls,
};
use crate::gather::gather;
use crate::json::{json_parse, json_tree, JsonTree};
use crate::protocol::{
    ContentItemView, FunctionCallOutputBodyView, FunctionCallOutputPayloadView, ResponseItemView,
    ResponsesApiRequest,
};
use crate::request_laws::{
    is_internal, item_signature, lemma_calls_end, lemma_trailing_add, lemma_with_calls_add,
};

verus! {

/// Whether a chat role is the one for the role of a message. Developers speak as the system, and
/// whoever is not known as the user.
pub open spec fn speaks_as(role: Seq<char>, chat: ChatRole) -> bool {
    &&& chat == ChatRole::Assistant <==> role == "assistant"@
    &&& chat == ChatRole::System <==> role == "developer"@ || role == "system"@
    &&& chat == ChatRole::Tool <==> role == "tool"@
}

/// Whether a part of a chat message is what a piece of a message says: the same text, or the image
/// at the same URL, of the type that the end of the URL tells.
pub open spec fn says_the_same(piece: ContentItemView, part: ContentPartView) -> bool {
    match piece {
        ContentItemView::InputText { text } => part == ContentPartView::Text(text),
        ContentItemView::OutputText { text } => part == ContentPartView::Text(text),
        ContentItemView::InputImage { image_url, .. } => {
            &&& part matches ContentPartView::Binary(image)
            &&& image.url == image_url
            &&& image.name is None
            &&& image.content_type == "image/jpeg"@ || image.content_type == "image/webp"@
                || image.content_type == "image/gif"@ || image.content_type == "image/png"@
            &&& ".jpg"@.is_suffix_of(image_url) ==> image.content_type == "image/jpeg"@
            &&& ".jpeg"@.is_suffix_of(image_url) ==> image.content_type == "image/jpeg"@
            &&& ".webp"@.is_suffix_of(image_url) ==> image.content_type == "image/webp"@
            &&& ".gif"@.is_suffix_of(image_url) ==> image.content_type == "image/gif"@
            &&& !".jpg"@.is_suffix_of(image_url) && !".jpeg"@.is_suffix_of(image_url)
                && !".webp"@.is_suffix_of(image_url) && !".gif"@.is_suffix_of(image_url)
                ==> image.content_type == "image/png"@
        },
    }
}

/// Whether a message is the assistant's call of a tool: with this id, name and thought signatures,
/// and with what was read from the text of its arguments, or that text itself where it is no JSON.
pub open spec fn calls_tool(
    message: ChatMessageView,
    call_id: Seq<char>,
    name: Seq<char>,
    text: Seq<char>,
    parsed: Option<JsonTree>,
    signatures: Seq<Seq<char>>,
) -> bool {
    &&& message.role == ChatRole::Assistant
    &&& message.parts.len() == 1
    &&& message.parts[0] matches ContentPartView::ToolCall(call)
    &&& call.call_id == call_id
    &&& call.fn_name == name
    &&& parsed matches Some(tree) ==> call.fn_arguments == tree
    &&& parsed is None ==> call.fn_arguments == JsonTree::String(text)
    &&& signatures.len() == 0 ==> call.thought_signatures is None
    &&& signatures.len() > 0 ==> call.thought_signatures == Some(signatures)
}

/// Whether a message is the tool's answer to this call: with the text of the output, or the JSON
/// text of its content items, empty where they have none.
pub open spec fn answers_call(
    message: ChatMessageView,
    call_id: Seq<char>,
    output: FunctionCallOutputPayloadView,
) -> bool {
    &&& message.role == ChatRole::Tool
    &&& message.parts.len() == 1
    &&& message.parts[0] matches ContentPartView::ToolResponse(response)
    &&& response.call_id == call_id
    &&& response.fn_name is None
    &&& output.body matches FunctionCallOutputBodyView::Text(text) ==> response.content == text
    &&& output.body matches FunctionCallOutputBodyView::ContentItems(Some(json))
        ==> response.content == json
    &&& output.body matches FunctionCallOutputBodyView::ContentItems(None)
        ==> response.content.len() == 0
}

/// Whether a message carries what an item says. `parsed` is what was read from the text of a call,
/// and `signatures` are the thought signatures that a function call takes.
pub open spec fn carries(
    message: ChatMessageView,
    item: ResponseItemView,
    parsed: Option<JsonTree>,
    signatures: Seq<Seq<char>>,
) -> bool {
    match item {
        ResponseItemView::Message { role, content, .. } => {
            &&& speaks_as(role, message.role)
            &&& message.parts.len() == content.len()
            &&& forall|i: int|
                0 <= i < content.len() ==> says_the_same(content[i], #[trigger] message.parts[i])
        },
        ResponseItemView::FunctionCall { name, arguments, call_id, .. } => calls_tool(
            message,
            call_id,
            name,
            arguments,
            parsed,
            signatures,
        ),
        ResponseItemView::CustomToolCall { name, input, call_id, .. } => calls_tool(
            message,
            call_id,
            name,
            input,
            parsed,
            Seq::empty(),
        ),
        ResponseItemView::FunctionCallOutput { call_id, output } => answers_call(
            message,
            call_id,
            output,
        ),
        ResponseItemView::CustomToolCallOutput { call_id, output, .. } => answers_call(
            message,
            call_id,
            output,
        ),
        ResponseItemView::Reasoning { encrypted_content: Some(signature), .. } => {
            &&& message.role == ChatRole::Assistant
            &&& message.parts == seq![ContentPartView::ThoughtSignature(signature)]
        },
        _ => false,
    }
}

/// No URL ends in two of the endings that tell different types.
proof fn lemma_endings(url: Seq<char>)
    ensures
        ".jpg"@.is_suffix_of(url) || ".jpeg"@.is_suffix_of(url) ==> !".webp"@.is_suffix_of(url)
            && !".gif"@.is_suffix_of(url),
        ".webp"@.is_suffix_of(url) ==> !".gif"@.is_suffix_of(url),
{
    reveal_strlit(".jpg");
    reveal_strlit(".jpeg");
    reveal_strlit(".webp");
    reveal_strlit(".gif");
    let n = url.len();
    if ".jpg"@.is_suffix_of(url) {
        assert(url[n - 1] == ".jpg"@[3]);
    }
    if ".jpeg"@.is_suffix_of(url) {
        assert(url[n - 1] == ".jpeg"@[4]);
    }
    if ".webp"@.is_suffix_of(url) {
        assert(url[n - 1] == ".webp"@[4]);
    }
    if ".gif"@.is_suffix_of(url) {
        assert(url[n - 1] == ".gif"@[3]);
    }
}

/// The names of the roles differ.
proof fn lemma_role_names()
    ensures
        "assistant"@ != "developer"@,
        "assistant"@ != "system"@,
        "assistant"@ != "tool"@,
        "developer"@ != "tool"@,
        "system"@ != "tool"@,
{
    reveal_strlit("assistant");
    reveal_strlit("developer");
    reveal_strlit("system");
    reveal_strlit("tool");
    assert("assistant"@[0] == 'a');
    assert("developer"@[0] == 'd');
    assert("system"@[0] == 's');
    assert("tool"@[0] == 't');
}

/// Whoever speaks is known by name, and the pieces of a message are told one by one, in order.
pub proof fn law_role_and_parts(role: Seq<char>, pieces: Seq<ContentItemView>)
    ensures
        speaks_as(role, chat_role(role)),
        content_parts(pieces).len() == pieces.len(),
        forall|i: int|
            0 <= i < pieces.len() ==> says_the_same(pieces[i], #[trigger] content_parts(pieces)[i]),
{
    lemma_role_names();
    assert forall|i: int| 0 <= i < pieces.len() implies says_the_same(
        pieces[i],
        #[trigger] content_parts(pieces)[i],
    ) by {
        if let ContentItemView::InputImage { image_url, .. } = pieces[i] {
            lemma_endings(image_url);
        }
    }
}

/// Each message, call and output gives a message that carries what it says, and no other item gives
/// one. Reasoning makes its thought signature wait, a function call takes all that wait, and no
/// other item changes what waits.
pub proof fn law_item(
    item: ResponseItemView,
    parsed: Option<JsonTree>,
    waiting: Seq<Seq<char>>,
)
    ensures
        ({
            let (message, still_waiting) = item_step(item, parsed, waiting);
            &&& message is None <==> item is Reasoning || is_internal(item)
            &&& message matches Some(message) ==> carries(message, item, parsed, waiting)
            &&& item is FunctionCall ==> still_waiting.len() == 0
            &&& !(item is FunctionCall) ==> still_waiting == waiting + item_signature(item)
        }),
{
    if let ResponseItemView::Message { role, content, .. } = item {
        law_role_and_parts(role, content);
    }
    if !(item is FunctionCall) {
        assert(item_step(item, parsed, waiting).1 =~= waiting + item_signature(item));
    }
}

/// An item that no function call follows gives a message that carries what it says, its thought
/// signature included; internal events and reasoning without a thought signature give none.
pub proof fn law_trailing_item(item: ResponseItemView, parsed: Option<JsonTree>)
    ensures
        trailing_message(item, parsed) is None <==> is_internal(item) || (item is Reasoning
            && item_signature(item).len() == 0),
        trailing_message(item, parsed) matches Some(message) ==> carries(
            message,
            item,
            parsed,
            Seq::empty(),
        ),
{
    law_item(item, parsed, Seq::empty());
}

/// Whether the item at position `i` of a conversation gives a message: every message, call and
/// output does, and reasoning with a thought signature where no function call follows.
pub open spec fn gives(items: Seq<ResponseItemView>, i: int) -> bool {
    &&& !is_internal(items[i])
    &&& items[i] is Reasoning ==> item_signature(items[i]).len() > 0 && forall|j: int|
        i < j < items.len() ==> !(#[trigger] items[j] is FunctionCall)
}

/// How many of the first `i` items of a conversation give a message.
pub open spec fn place(items: Seq<ResponseItemView>, i: int) -> nat
    decreases i,
{
    if i <= 0 {
        0
    } else if gives(items, i - 1) {
        place(items, i - 1) + 1
    } else {
        place(items, i - 1)
    }
}

/// The text of an item that is read as JSON gives what `serde_json` reads from it.
pub open spec fn read_from(item: ResponseItemView) -> Option<JsonTree> {
    match item {
        ResponseItemView::FunctionCall { arguments, .. } => json_parse(arguments),
        ResponseItemView::CustomToolCall { input, .. } => json_parse(input),
        _ => None,
    }
}

/// A conversation gives as many messages as it has items that give one.
pub proof fn law_message_count(items: Seq<ResponseItemView>)
    ensures
        conversation(items).len() == place(items, items.len() as int),
{
    let k = calls_end(items);
    lemma_calls_end(items);
    lemma_place_of_calls(items, k);
    lemma_place_of_trailing(items, items.len() as int);
    assert(items.subrange(k, items.len() as int) =~= items.skip(k));
}

/// Each item that gives a message gives it in its place: with as many messages before it as there
/// are items before it that give one. The message carries what the item says. A function call takes
/// the thought signatures that stand between it and the function call before it, those and no
/// other, in order: `start` is the position just after that call, or 0 where there is none.
pub proof fn law_message_in_place(items: Seq<ResponseItemView>, i: int, start: int)
    requires
        0 <= start <= i < items.len(),
        gives(items, i),
        start == 0 || items[start - 1] is FunctionCall,
        forall|j: int| start <= j < i ==> !(#[trigger] items[j] is FunctionCall),
    ensures
        place(items, i) < conversation(items).len(),
        carries(
            conversation(items)[place(items, i) as int],
            items[i],
            read_from(items[i]),
            gather(items.subrange(start, i), |item: ResponseItemView| item_signature(item)),
        ),
{
    let none = Seq::<Seq<char>>::empty();
    let k = calls_end(items);
    lemma_calls_end(items);
    law_message_count(items);
    if i < k {
        let first = items.take(k);
        let waiting = with_calls(none, items.take(i)).1;
        lemma_place_of_calls(items, i);
        lemma_place_of_calls(items, i + 1);
        assert(items.take(i + 1).drop_last() =~= items.take(i));
        assert(items.take(i + 1).last() == items[i]);
        if items[i] is Reasoning {
            assert(items[k - 1] is FunctionCall);
        }
        law_item(items[i], parsed_text(items[i]), waiting);
        assert(first =~= items.take(i + 1) + items.subrange(i + 1, k));
        lemma_with_calls_add(none, items.take(i + 1), items.subrange(i + 1, k));
        assert(conversation(items)[place(items, i) as int] == with_calls(
            none,
            items.take(i + 1),
        ).0.last());
        lemma_waiting_at(items, i, start);
    } else {
        let rest = items.skip(k);
        lemma_place_of_calls(items, k);
        lemma_place_of_trailing(items, i);
        lemma_place_of_trailing(items, i + 1);
        law_trailing_item(items[i], parsed_text(items[i]));
        assert(items.subrange(k, i + 1).drop_last() =~= items.subrange(k, i));
        assert(items.subrange(k, i + 1).last() == items[i]);
        assert(rest =~= items.subrange(k, i + 1) + items.skip(i + 1));
        lemma_trailing_add(items.subrange(k, i + 1), items.skip(i + 1));
        assert(conversation(items)[place(items, i) as int] == trailing(
            items.subrange(k, i + 1),
        ).last());
        assert(!(items[i] is FunctionCall));
    }
}

/// The places of the items up to the last function call.
proof fn lemma_place_of_calls(items: Seq<ResponseItemView>, i: int)
    requires
        0 <= i <= calls_end(items),
    ensures
        with_calls(Seq::empty(), items.take(i)).0.len() == place(items, i),
    decreases i,
{
    let none = Seq::<Seq<char>>::empty();
    lemma_calls_end(items);
    if i > 0 {
        let k = calls_end(items);
        lemma_place_of_calls(items, i - 1);
        assert(items.take(i).drop_last() =~= items.take(i - 1));
        assert(items.take(i).last() == items[i - 1]);
        law_item(
            items[i - 1],
            parsed_text(items[i - 1]),
            with_calls(none, items.take(i - 1)).1,
        );
        if items[i - 1] is Reasoning {
            assert(items[k - 1] is FunctionCall);
            assert(!gives(items, i - 1));
        }
    }
}

/// The places of the items after the last function call.
proof fn lemma_place_of_trailing(items: Seq<ResponseItemView>, i: int)
    requires
        calls_end(items) <= i <= items.len(),
    ensures
        place(items, calls_end(items)) + trailing(items.subrange(calls_end(items), i)).len()
            == place(items, i),
    decreases i,
{
    let k = calls_end(items);
    lemma_calls_end(items);
    if i > k {
        lemma_place_of_trailing(items, i - 1);
        assert(items.subrange(k, i).drop_last() =~= items.subrange(k, i - 1));
        assert(items.subrange(k, i).last() == items[i - 1]);
        law_trailing_item(items[i - 1], parsed_text(items[i - 1]));
        assert forall|j: int| i - 1 < j < items.len() implies !(
        #[trigger] items[j] is FunctionCall) by {}
    }
}

/// The thought signatures that wait before the item at position `i`.
proof fn lemma_waiting_at(items: Seq<ResponseItemView>, i: int, start: int)
    requires
        0 <= start <= i <= items.len(),
        start == 0 || items[start - 1] is FunctionCall,
        forall|j: int| start <= j < i ==> !(#[trigger] items[j] is FunctionCall),
    ensures
        with_calls(Seq::empty(), items.take(i)).1 == gather(
            items.subrange(start, i),
            |item: ResponseItemView| item_signature(item),
        ),
    decreases i,
{
    let none = Seq::<Seq<char>>::empty();
    let f = |item: ResponseItemView| item_signature(item);
    if i > 0 {
        let before = items.take(i - 1);
        assert(items.take(i).drop_last() =~= before);
        assert(items.take(i).last() == items[i - 1]);
        law_item(items[i - 1], parsed_text(items[i - 1]), with_calls(none, before).1);
        if i == start {
            assert(items.subrange(start, i) =~= Seq::empty());
            assert(with_calls(none, items.take(i)).1 =~= gather(items.subrange(start, i), f));
        } else {
            lemma_waiting_at(items, i - 1, start);
            assert(items.subrange(start, i).drop_last() =~= items.subrange(start, i - 1));
            assert(items.subrange(start, i).last() == items[i - 1]);
        }
    } else {
        assert(items.subrange(start, i) =~= Seq::empty());
    }
}

/// Tools are read one by one, in order.
pub proof fn law_tools_in_order(a: Seq<JsonTree>, b: Seq<JsonTree>)
    ensures
        described_tools(Seq::empty()).len() == 0,
        described_tools(a + b) == described_tools(a) + described_tools(b),
    decreases b.len(),
{
    if b.len() == 0 {
        assert(a + b =~= a);
        assert(described_tools(a) + Seq::empty() =~= described_tools(a));
    } else {
        assert((a + b).drop_last() =~= a + b.drop_last());
        assert((a + b).last() == b.last());
        law_tools_in_order(a, b.drop_last());
        assert(described_tools(a + b) =~= described_tools(a) + described_tools(b));
    }
}

/// A JSON value gives a tool exactly where it has a name that is a string. The tool has that name;
/// the description where it is a string that is not empty; the parameters as its schema, or else
/// the input schema; and whether it is strict where that is a truth value.
pub proof fn law_tool(tree: JsonTree)
    ensures
        ({
            let tools = described_tools(seq![tree]);
            match tree.member("name"@) {
                Some(JsonTree::String(name)) => {
                    &&& tools.len() == 1
                    &&& tools[0].name == name
                    &&& match tree.member("description"@) {
                        Some(JsonTree::String(text)) => if text.len() > 0 {
                            tools[0].description == Some(text)
                        } else {
                            tools[0].description is None
                        },
                        _ => tools[0].description is None,
                    }
                    &&& tree.member("parameters"@) is Some ==> tools[0].schema == tree.member(
                        "parameters"@,
                    )
                    &&& tree.member("parameters"@) is None ==> tools[0].schema == tree.member(
                        "input_schema"@,
                    )
                    &&& match tree.member("strict"@) {
                        Some(JsonTree::Bool(strict)) => tools[0].strict == Some(strict),
                        _ => tools[0].strict is None,
                    }
                },
                _ => tools.len() == 0,
            }
        }),
{
    Seq::<JsonTree>::lemma_filter_map_singleton(tree, |tree: JsonTree| described_tool(tree));
}

/// The system prompt of a chat request is the instructions of the request, none where they are
/// empty, whatever its tools, its conversation and its other parts are.
pub proof fn law_system(request: ResponsesApiRequest, messages: Seq<ChatMessageView>)
    ensures
        request.instructions@.len() == 0 ==> chat_request(request, messages).system is None,
        request.instructions@.len() > 0 ==> chat_request(request, messages).system == Some(
            request.instructions@,
        ),
{
}

/// The messages go into a chat request as they are, the tools that the request describes go with
/// them where there are any, and the response is stored exactly where the request asks for it. No
/// earlier response is referred to.
pub proof fn law_rest_of_request(request: ResponsesApiRequest, messages: Seq<ChatMessageView>)
    ensures
        ({
            let chat = chat_request(request, messages);
            let tools = described_tools(
                request.tools@.map_values(|value: Value| json_tree(value)),
            );
            &&& chat.messages == messages
            &&& tools.len() == 0 ==> chat.tools is None
            &&& tools.len() > 0 ==> chat.tools == Some(tools)
            &&& request.store ==> chat.store == Some(true)
            &&& !request.store ==> chat.store is None
            &&& chat.previous_response_id is None
        }),
{
    assert(json_trees(request.tools@) =~= request.tools@.map_values(
        |value: Value| json_tree(value),
    ));
}

/// Two requests that agree in their instructions have the same system prompt, those that agree in
/// their tools the same tools, and those that agree in `store` the same `store`, however they
/// differ otherwise.
pub proof fn law_parts_apart(
    a: ResponsesApiRequest,
    b: ResponsesApiRequest,
    messages: Seq<ChatMessageView>,
    others: Seq<ChatMessageView>,
)
    ensures
        a.instructions@ == b.instructions@ ==> chat_request(a, messages).system == chat_request(
            b,
            others,
        ).system,
        json_trees(a.tools@) == json_trees(b.tools@) ==> chat_request(a, messages).tools
            == chat_request(b, others).tools,
        a.store == b.store ==> chat_request(a, messages).store == chat_request(b, others).store,
{
}

} // verus!
