//! From requests to chat requests.

use serde_json::Value;
use vstd::prelude::*;

use crate::chat::{
    Binary, BinaryView, ChatMessage, ChatMessageView, ChatRequest, ChatRequestView, ChatRole,
    ContentPart, ContentPartView, MessageContent, Tool, ToolCall, ToolCallView, ToolResponse,
    ToolResponseView, ToolView,
};
use crate::json::{
    json_get, json_parse, json_tree, opt_tree, parse_json, parsed_or_string, value_or_string,
    JsonTree,
};
use crate::protocol::{
    ContentItem, ContentItemView, FunctionCallOutputBody, FunctionCallOutputBodyView,
    FunctionCallOutputPayload, FunctionCallOutputPayloadView, ResponseItem, ResponseItemView,
    ResponsesApiRequest,
};
use crate::text::{has_suffix, same_text};

verus! {

/// The chat role for the role of a message; a role that is not known is the user's.
pub open spec fn chat_role(role: Seq<char>) -> ChatRole {
    if role == "assistant"@ {
        ChatRole::Assistant
    } else if role == "developer"@ || role == "system"@ {
        ChatRole::System
    } else if role == "tool"@ {
        ChatRole::Tool
    } else {
        ChatRole::User
    }
}

/// The content type of an image, told by the end of its URL.
pub open spec fn image_type(url: Seq<char>) -> Seq<char> {
    if ".jpg"@.is_suffix_of(url) || ".jpeg"@.is_suffix_of(url) {
        "image/jpeg"@
    } else if ".webp"@.is_suffix_of(url) {
        "image/webp"@
    } else if ".gif"@.is_suffix_of(url) {
        "image/gif"@
    } else {
        "image/png"@
    }
}

/// A piece of a message as a part of a chat message.
pub open spec fn content_part(item: ContentItemView) -> ContentPartView {
    match item {
        ContentItemView::InputText { text } => ContentPartView::Text(text),
        ContentItemView::OutputText { text } => ContentPartView::Text(text),
        ContentItemView::InputImage { image_url, .. } => ContentPartView::Binary(
            BinaryView { content_type: image_type(image_url), url: image_url, name: None },
        ),
    }
}

/// The pieces of a message as parts of a chat message.
pub open spec fn content_parts(items: Seq<ContentItemView>) -> Seq<ContentPartView> {
    items.map_values(|item: ContentItemView| content_part(item))
}

/// The text of a tool's output; empty where its content items could not be written as JSON.
pub open spec fn output_text(output: FunctionCallOutputPayloadView) -> Seq<char> {
    match output.body {
        FunctionCallOutputBodyView::Text(text) => text,
        FunctionCallOutputBodyView::ContentItems(Some(json)) => json,
        FunctionCallOutputBodyView::ContentItems(None) => Seq::empty(),
    }
}

/// The assistant's message with one tool call.
pub open spec fn call_message(call: ToolCallView) -> ChatMessageView {
    ChatMessageView {
        role: ChatRole::Assistant,
        parts: seq![ContentPartView::ToolCall(call)],
    }
}

/// The tool's message with the output of a call.
pub open spec fn output_message(
    call_id: Seq<char>,
    output: FunctionCallOutputPayloadView,
) -> ChatMessageView {
    ChatMessageView {
        role: ChatRole::Tool,
        parts: seq![
            ContentPartView::ToolResponse(
                ToolResponseView { call_id, fn_name: None, content: output_text(output) },
            ),
        ],
    }
}

/// The text of an item that is read as JSON, and what was read from it.
pub open spec fn parsed_text(item: ResponseItemView) -> Option<JsonTree> {
    match item {
        ResponseItemView::FunctionCall { arguments, .. } => json_parse(arguments),
        ResponseItemView::CustomToolCall { input, .. } => json_parse(input),
        _ => None,
    }
}

/// The message for an item, if it gives one, and the thought signatures that wait after it.
///
/// `parsed` is what was read from the arguments of a call, and `waiting` holds the thought
/// signatures that wait for a function call.
pub open spec fn item_step(
    item: ResponseItemView,
    parsed: Option<JsonTree>,
    waiting: Seq<Seq<char>>,
) -> (Option<ChatMessageView>, Seq<Seq<char>>) {
    match item {
        ResponseItemView::Message { role, content, .. } => (
            Some(ChatMessageView { role: chat_role(role), parts: content_parts(content) }),
            waiting,
        ),
        ResponseItemView::Reasoning { encrypted_content, .. } => (
            None,
            match encrypted_content {
                Some(signature) => waiting.push(signature),
                None => waiting,
            },
        ),
        ResponseItemView::FunctionCall { name, arguments, call_id, .. } => (
            Some(
                call_message(
                    ToolCallView {
                        call_id,
                        fn_name: name,
                        fn_arguments: parsed_or_string(parsed, arguments),
                        thought_signatures: if waiting.len() == 0 {
                            None
                        } else {
                            Some(waiting)
                        },
                    },
                ),
            ),
            Seq::empty(),
        ),
        ResponseItemView::CustomToolCall { name, input, call_id, .. } => (
            Some(
                call_message(
                    ToolCallView {
                        call_id,
                        fn_name: name,
                        fn_arguments: parsed_or_string(parsed, input),
                        thought_signatures: None,
                    },
                ),
            ),
            waiting,
        ),
        ResponseItemView::FunctionCallOutput { call_id, output } => (
            Some(output_message(call_id, output)),
            waiting,
        ),
        ResponseItemView::CustomToolCallOutput { call_id, output, .. } => (
            Some(output_message(call_id, output)),
            waiting,
        ),
        _ => (None, waiting),
    }
}

/// The messages for items up to a function call, in order, and the thought signatures that wait
/// after them. `waiting` holds those that wait before them.
pub open spec fn with_calls(waiting: Seq<Seq<char>>, items: Seq<ResponseItemView>) -> (
    Seq<ChatMessageView>,
    Seq<Seq<char>>,
)
    decreases items.len(),
{
    if items.len() == 0 {
        (Seq::empty(), waiting)
    } else {
        let (messages, so_far) = with_calls(waiting, items.drop_last());
        let (message, still_waiting) = item_step(items.last(), parsed_text(items.last()), so_far);
        (
            match message {
                Some(message) => messages.push(message),
                None => messages,
            },
            still_waiting,
        )
    }
}

/// The assistant's message with one thought signature.
pub open spec fn signature_message(signature: Seq<char>) -> ChatMessageView {
    ChatMessageView {
        role: ChatRole::Assistant,
        parts: seq![ContentPartView::ThoughtSignature(signature)],
    }
}

/// The message for an item that no function call follows, if it gives one: a thought signature
/// that no call can take has a message of its own.
pub open spec fn trailing_message(item: ResponseItemView, parsed: Option<JsonTree>) -> Option<
    ChatMessageView,
> {
    match item {
        ResponseItemView::Reasoning { encrypted_content: Some(signature), .. } => Some(
            signature_message(signature),
        ),
        _ => item_step(item, parsed, Seq::empty()).0,
    }
}

/// The messages for items that no function call follows, in order.
pub open spec fn trailing(items: Seq<ResponseItemView>) -> Seq<ChatMessageView> {
    items.filter_map(|item: ResponseItemView| trailing_message(item, parsed_text(item)))
}

/// The position just after the last function call; 0 where there is none.
pub open spec fn calls_end(items: Seq<ResponseItemView>) -> int
    decreases items.len(),
{
    if items.len() == 0 {
        0
    } else if items.last() is FunctionCall {
        items.len() as int
    } else {
        calls_end(items.drop_last())
    }
}

/// The messages for the items of a conversation, in order. A function call takes the thought
/// signatures that stand before it; those after the last function call have messages of their own.
pub open spec fn conversation(items: Seq<ResponseItemView>) -> Seq<ChatMessageView> {
    with_calls(Seq::empty(), items.take(calls_end(items))).0 + trailing(
        items.skip(calls_end(items)),
    )
}

/// The tool that a JSON object describes; nothing where it gives no name.
pub open spec fn described_tool(tree: JsonTree) -> Option<ToolView> {
    match tree.member("name"@) {
        Some(JsonTree::String(name)) => Some(
            ToolView {
                name,
                description: match tree.member("description"@) {
                    Some(JsonTree::String(text)) => if text.len() == 0 {
                        None
                    } else {
                        Some(text)
                    },
                    _ => None,
                },
                schema: match tree.member("parameters"@) {
                    Some(schema) => Some(schema),
                    None => tree.member("input_schema"@),
                },
                strict: match tree.member("strict"@) {
                    Some(JsonTree::Bool(strict)) => Some(strict),
                    _ => None,
                },
            },
        ),
        _ => None,
    }
}

/// The contents of JSON values.
pub open spec fn json_trees(values: Seq<Value>) -> Seq<JsonTree> {
    values.map_values(|value: Value| json_tree(value))
}

/// The tools that JSON objects describe, in order; one without a name is left out.
pub open spec fn described_tools(trees: Seq<JsonTree>) -> Seq<ToolView> {
    trees.filter_map(|tree: JsonTree| described_tool(tree))
}

/// The chat request with these messages for a request.
pub open spec fn chat_request(
    request: ResponsesApiRequest,
    messages: Seq<ChatMessageView>,
) -> ChatRequestView {
    let tools = described_tools(json_trees(request.tools@));
    ChatRequestView {
        system: if request.instructions@.len() == 0 {
            None
        } else {
            Some(request.instructions@)
        },
        messages,
        tools: if tools.len() == 0 {
            None
        } else {
            Some(tools)
        },
        previous_response_id: None,
        store: if request.store {
            Some(true)
        } else {
            None
        },
    }
}

/// Converts a request into a chat request.
///
/// Returns `None` if the input contains no convertible messages (e.g. only internal items).
pub fn responses_request_to_chat_request(request: &ResponsesApiRequest) -> (converted: Option<
    ChatRequest,
>)
    ensures
        converted is None <==> conversation(request.input.deep_view()).len() == 0,
        converted matches Some(chat) ==> chat.deep_view() == chat_request(
            *request,
            conversation(request.input.deep_view()),
        ),
        converted matches Some(chat) ==> {
            &&& request.instructions@.len() == 0 ==> chat.system is None
            &&& request.instructions@.len() > 0 ==> (chat.system matches Some(system) && system@
                == request.instructions@)
            &&& chat.messages.deep_view() == conversation(request.input.deep_view())
            &&& chat.store == (if request.store {
                Some(true)
            } else {
                None
            })
            &&& chat.previous_response_id is None
        },
{
    let messages: Vec<ChatMessage> = convert_response_items(request.input.as_slice());
    if messages.len() == 0 {
        return None;
    }
    let system: Option<String> = if request.instructions.as_str().is_empty() {
        None
    } else {
        Some(request.instructions.clone())
    };
    let tools: Vec<Tool> = parse_tools(request.tools.as_slice());
    Some(
        ChatRequest {
            system,
            messages,
            tools: if tools.len() == 0 {
                None
            } else {
                Some(tools)
            },
            previous_response_id: None,
            store: if request.store {
                Some(true)
            } else {
                None
            },
        },
    )
}

/// Converts the items of a conversation into chat messages.
pub fn convert_response_items(items: &[ResponseItem]) -> (messages: Vec<ChatMessage>)
    ensures
        messages.deep_view() == conversation(items.deep_view()),
{
    let mut messages: Vec<ChatMessage> = Vec::new();
    let mut waiting: Vec<String> = Vec::new();
    let ghost all = items.deep_view();
    let end: usize = end_of_calls(items);
    let mut i: usize = 0;
    proof {
        assert(messages.deep_view() =~= Seq::empty());
        assert(waiting.deep_view() =~= Seq::empty());
        assert(all.take(0) =~= Seq::empty());
    }
    while i < end
        invariant
            i <= end <= items@.len(),
            all == items.deep_view(),
            (messages.deep_view(), waiting.deep_view()) == with_calls(
                Seq::empty(),
                all.take(i as int),
            ),
        decreases end - i,
    {
        let item: &ResponseItem = &items[i];
        let parsed: Option<Value> = parse_item(item);
        let ghost before = messages.deep_view();
        proof {
            assert(all.take(i + 1).drop_last() =~= all.take(i as int));
            assert(all.take(i + 1).last() == item.deep_view());
        }
        match convert_response_item(item, parsed, &mut waiting) {
            Some(message) => {
                messages.push(message);
                proof {
                    assert(messages.deep_view() =~= before.push(message.deep_view()));
                }
            },
            None => {},
        }
        i = i + 1;
    }

    let ghost first = messages.deep_view();
    let ghost rest = all.skip(end as int);
    let ghost give = |item: ResponseItemView| trailing_message(item, parsed_text(item));
    proof {
        assert(rest.take(0).filter_map(give) =~= Seq::empty());
        assert(first + Seq::empty() =~= first);
    }
    while i < items.len()
        invariant
            end <= i <= items@.len(),
            all == items.deep_view(),
            rest == all.skip(end as int),
            give == (|item: ResponseItemView| trailing_message(item, parsed_text(item))),
            messages.deep_view() == first + rest.take(i - end).filter_map(give),
        decreases items@.len() - i,
    {
        let item: &ResponseItem = &items[i];
        let parsed: Option<Value> = parse_item(item);
        let ghost before = messages.deep_view();
        proof {
            rest.lemma_filter_map_take_succ(give, i - end);
            assert(rest[i - end] == item.deep_view());
        }
        match convert_trailing_item(item, parsed) {
            Some(message) => {
                messages.push(message);
                proof {
                    assert(messages.deep_view() =~= before.push(message.deep_view()));
                    assert(messages.deep_view() =~= first + rest.take(i + 1 - end).filter_map(
                        give,
                    ));
                }
            },
            None => {
                proof {
                    assert(messages.deep_view() =~= first + rest.take(i + 1 - end).filter_map(
                        give,
                    ));
                }
            },
        }
        i = i + 1;
    }
    proof {
        assert(rest.take(i - end) =~= rest);
    }
    messages
}

/// The position just after the last function call.
fn end_of_calls(items: &[ResponseItem]) -> (end: usize)
    ensures
        end <= items@.len(),
        end == calls_end(items.deep_view()),
{
    let ghost all = items.deep_view();
    let mut i: usize = items.len();
    proof {
        assert(all.take(i as int) =~= all);
    }
    while i > 0
        invariant
            i <= items@.len(),
            all == items.deep_view(),
            calls_end(all) == calls_end(all.take(i as int)),
        decreases i,
    {
        proof {
            assert(all.take(i as int).last() == items@[i - 1].deep_view());
            assert(all.take(i as int).drop_last() =~= all.take(i - 1));
        }
        if let ResponseItem::FunctionCall { .. } = &items[i - 1] {
            return i;
        }
        i = i - 1;
    }
    0
}

/// Reads the arguments of a call as JSON.
fn parse_item(item: &ResponseItem) -> (parsed: Option<Value>)
    ensures
        opt_tree(parsed) == parsed_text(item.deep_view()),
{
    match item {
        ResponseItem::FunctionCall { arguments, .. } => parse_json(arguments.as_str()),
        ResponseItem::CustomToolCall { input, .. } => parse_json(input.as_str()),
        _ => None,
    }
}

/// Converts one item that a function call may follow; `parsed` is what was read from the arguments
/// of a call, and `waiting` holds the thought signatures that wait for a function call.
pub fn convert_response_item(
    item: &ResponseItem,
    parsed: Option<Value>,
    waiting: &mut Vec<String>,
) -> (message: Option<ChatMessage>)
    ensures
        message.deep_view() == item_step(
            item.deep_view(),
            opt_tree(parsed),
            old(waiting).deep_view(),
        ).0,
        final(waiting).deep_view() == item_step(
            item.deep_view(),
            opt_tree(parsed),
            old(waiting).deep_view(),
        ).1,
        item matches ResponseItem::FunctionCallOutput { call_id, output } ==> {
            &&& message matches Some(message)
            &&& is_output(message, call_id@, output.body)
        },
        item matches ResponseItem::CustomToolCallOutput { call_id, output, .. } ==> {
            &&& message matches Some(message)
            &&& is_output(message, call_id@, output.body)
        },
{
    let ghost before = waiting.deep_view();
    match item {
        ResponseItem::Message { role, content, .. } => Some(
            ChatMessage {
                role: map_role(role.as_str()),
                content: MessageContent { parts: convert_content_items(content.as_slice()) },
            },
        ),
        ResponseItem::Reasoning { encrypted_content, .. } => {
            if let Some(signature) = encrypted_content {
                waiting.push(signature.clone());
                proof {
                    assert(waiting.deep_view() =~= before.push(signature@));
                }
            }
            None
        },
        ResponseItem::FunctionCall { name, arguments, call_id, .. } => {
            let fn_arguments: Value = value_or_string(parsed, arguments.as_str());
            // The first function call takes the signatures that wait.
            let thought_signatures: Option<Vec<String>> = if waiting.len() == 0 {
                None
            } else {
                let mut taken: Vec<String> = Vec::new();
                core::mem::swap(&mut taken, waiting);
                Some(taken)
            };
            proof {
                assert(waiting.deep_view() =~= Seq::empty());
            }
            Some(
                tool_call_message(
                    ToolCall {
                        call_id: call_id.clone(),
                        fn_name: name.clone(),
                        fn_arguments,
                        thought_signatures,
                    },
                ),
            )
        },
        ResponseItem::CustomToolCall { name, input, call_id, .. } => {
            let fn_arguments: Value = value_or_string(parsed, input.as_str());
            Some(
                tool_call_message(
                    ToolCall {
                        call_id: call_id.clone(),
                        fn_name: name.clone(),
                        fn_arguments,
                        thought_signatures: None,
                    },
                ),
            )
        },
        ResponseItem::FunctionCallOutput { call_id, output } => Some(
            tool_output_message(call_id, output),
        ),
        ResponseItem::CustomToolCallOutput { call_id, output, .. } => Some(
            tool_output_message(call_id, output),
        ),
        // Internal events, not sent to the model.
        ResponseItem::LocalShellCall
        | ResponseItem::ToolSearchCall
        | ResponseItem::ToolSearchOutput
        | ResponseItem::WebSearchCall
        | ResponseItem::ImageGenerationCall
        | ResponseItem::Compaction
        | ResponseItem::ContextCompaction
        | ResponseItem::CompactionTrigger
        | ResponseItem::Other => None,
    }
}

/// Converts one item that no function call follows; `parsed` is what was read from the arguments
/// of a call.
pub fn convert_trailing_item(item: &ResponseItem, parsed: Option<Value>) -> (message: Option<
    ChatMessage,
>)
    ensures
        message.deep_view() == trailing_message(item.deep_view(), opt_tree(parsed)),
{
    if let ResponseItem::Reasoning { encrypted_content: Some(signature), .. } = item {
        let parts: Vec<ContentPart> = vec![ContentPart::ThoughtSignature(signature.clone())];
        proof {
            assert(parts.deep_view() =~= seq![ContentPartView::ThoughtSignature(signature@)]);
        }
        return Some(ChatMessage { role: ChatRole::Assistant, content: MessageContent { parts } });
    }
    let mut waiting: Vec<String> = Vec::new();
    proof {
        assert(waiting.deep_view() =~= Seq::empty());
    }
    convert_response_item(item, parsed, &mut waiting)
}

/// The assistant's message with one tool call.
fn tool_call_message(call: ToolCall) -> (message: ChatMessage)
    ensures
        message.deep_view() == call_message(call.deep_view()),
{
    let parts: Vec<ContentPart> = vec![ContentPart::ToolCall(call)];
    proof {
        assert(parts.deep_view() =~= seq![ContentPartView::ToolCall(call.deep_view())]);
    }
    ChatMessage { role: ChatRole::Assistant, content: MessageContent { parts } }
}

/// Whether a message is the tool's answer to this call, with the text of its output, or the JSON
/// text of its content items.
pub open spec fn is_output(
    message: ChatMessage,
    call_id: Seq<char>,
    body: FunctionCallOutputBody,
) -> bool {
    &&& message.role == ChatRole::Tool
    &&& message.content.parts@.len() == 1
    &&& message.content.parts@[0] matches ContentPart::ToolResponse(response)
    &&& response.call_id@ == call_id
    &&& response.fn_name is None
    &&& body matches FunctionCallOutputBody::Text(text) ==> response.content@ == text@
    &&& body matches FunctionCallOutputBody::ContentItems(Some(json)) ==> response.content@
        == json@
    &&& body matches FunctionCallOutputBody::ContentItems(None) ==> response.content@.len() == 0
}

/// The tool's message with the output of a call.
fn tool_output_message(call_id: &String, output: &FunctionCallOutputPayload) -> (message:
    ChatMessage)
    ensures
        message.deep_view() == output_message(call_id@, output.deep_view()),
        is_output(message, call_id@, output.body),
{
    let content: String = match &output.body {
        FunctionCallOutputBody::Text(text) => text.clone(),
        FunctionCallOutputBody::ContentItems(Some(json)) => json.clone(),
        FunctionCallOutputBody::ContentItems(None) => String::new(),
    };
    let response: ToolResponse = ToolResponse { call_id: call_id.clone(), fn_name: None, content };
    let parts: Vec<ContentPart> = vec![ContentPart::ToolResponse(response)];
    proof {
        assert(parts.deep_view() =~= seq![ContentPartView::ToolResponse(response.deep_view())]);
    }
    ChatMessage { role: ChatRole::Tool, content: MessageContent { parts } }
}

/// The chat role for the role of a message.
pub fn map_role(role: &str) -> (mapped: ChatRole)
    ensures
        mapped == chat_role(role@),
{
    if same_text(role, "assistant") {
        ChatRole::Assistant
    } else if same_text(role, "developer") || same_text(role, "system") {
        ChatRole::System
    } else if same_text(role, "tool") {
        ChatRole::Tool
    } else {
        ChatRole::User
    }
}

/// Converts the pieces of a message into parts of a chat message.
pub fn convert_content_items(items: &[ContentItem]) -> (parts: Vec<ContentPart>)
    ensures
        parts.deep_view() == content_parts(items.deep_view()),
{
    let mut parts: Vec<ContentPart> = Vec::new();
    let mut i: usize = 0;
    while i < items.len()
        invariant
            i <= items@.len(),
            parts@.len() == i,
            forall|j: int|
                0 <= j < i ==> (#[trigger] parts@[j]).deep_view() == content_part(
                    items.deep_view()[j],
                ),
        decreases items@.len() - i,
    {
        let part: ContentPart = match &items[i] {
            ContentItem::InputText { text } => ContentPart::Text(text.clone()),
            ContentItem::OutputText { text } => ContentPart::Text(text.clone()),
            ContentItem::InputImage { image_url, .. } => ContentPart::Binary(
                Binary {
                    content_type: image_content_type(image_url.as_str()).to_owned(),
                    url: image_url.clone(),
                    name: None,
                },
            ),
        };
        parts.push(part);
        i = i + 1;
    }
    proof {
        assert(parts.deep_view() =~= content_parts(items.deep_view()));
    }
    parts
}

/// The content type of an image, told by the end of its URL.
fn image_content_type(url: &str) -> (content_type: &'static str)
    ensures
        content_type@ == image_type(url@),
{
    if has_suffix(url, ".jpg") || has_suffix(url, ".jpeg") {
        "image/jpeg"
    } else if has_suffix(url, ".webp") {
        "image/webp"
    } else if has_suffix(url, ".gif") {
        "image/gif"
    } else {
        "image/png"
    }
}

/// The tools that JSON objects describe; one without a name is left out.
pub fn parse_tools(tools: &[Value]) -> (parsed: Vec<Tool>)
    ensures
        parsed.deep_view() == described_tools(json_trees(tools@)),
{
    let mut parsed: Vec<Tool> = Vec::new();
    let ghost trees = json_trees(tools@);
    let ghost describe = |tree: JsonTree| described_tool(tree);
    let mut i: usize = 0;
    proof {
        assert(parsed.deep_view() =~= trees.take(0).filter_map(describe));
    }
    while i < tools.len()
        invariant
            i <= tools@.len(),
            trees == json_trees(tools@),
            describe == (|tree: JsonTree| described_tool(tree)),
            parsed.deep_view() == trees.take(i as int).filter_map(describe),
        decreases tools@.len() - i,
    {
        let ghost before = parsed.deep_view();
        proof {
            trees.lemma_filter_map_take_succ(describe, i as int);
        }
        match parse_tool(&tools[i]) {
            Some(tool) => {
                parsed.push(tool);
                proof {
                    assert(parsed.deep_view() =~= before + seq![tool.deep_view()]);
                }
            },
            None => {
                proof {
                    assert(before + Seq::empty() =~= before);
                }
            },
        }
        i = i + 1;
    }
    proof {
        assert(trees.take(i as int) =~= trees);
    }
    parsed
}

/// The tool that a JSON object describes.
fn parse_tool(value: &Value) -> (tool: Option<Tool>)
    ensures
        tool.deep_view() == described_tool(json_tree(*value)),
{
    let name: &str = match json_get(value, "name") {
        Some(member) => match member.as_str() {
            Some(name) => name,
            None => return None,
        },
        None => return None,
    };
    let description: Option<String> = match json_get(value, "description") {
        Some(member) => match member.as_str() {
            Some(text) => if text.is_empty() {
                None
            } else {
                Some(text.to_owned())
            },
            None => None,
        },
        None => None,
    };
    let schema: Option<Value> = match json_get(value, "parameters") {
        Some(member) => Some(member.clone()),
        None => match json_get(value, "input_schema") {
            Some(member) => Some(member.clone()),
            None => None,
        },
    };
    let strict: Option<bool> = match json_get(value, "strict") {
        Some(member) => member.as_bool(),
        None => None,
    };
    Some(Tool { name: name.to_owned(), description, schema, strict })
}

} // verus!
