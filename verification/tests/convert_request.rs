use genai_bridge::chat::{ChatRequest, ChatRole, ContentPart, ToolCall, ToolResponse};
use genai_bridge::convert_request::{
    convert_content_items, convert_response_item, convert_response_items, convert_trailing_item,
    map_role, parse_tools, responses_request_to_chat_request,
};
use genai_bridge::json::{json_raw_text, parse_json, value_or_string};
use genai_bridge::protocol::{
    ContentItem, FunctionCallOutputBody, FunctionCallOutputPayload, ResponseItem,
    ResponsesApiRequest,
};
use serde_json::Value;

fn request(instructions: &str, input: Vec<ResponseItem>) -> ResponsesApiRequest {
    ResponsesApiRequest {
        model: "gpt-5".into(),
        instructions: instructions.into(),
        input,
        tools: vec![],
        tool_choice: "auto".into(),
        parallel_tool_calls: true,
        reasoning: None,
        store: false,
        stream: true,
        included: vec![],
        service_tier: None,
        prompt_cache_key: None,
        text: None,
        client_metadata: None,
    }
}

fn user(text: &str) -> ResponseItem {
    ResponseItem::Message {
        id: None,
        role: "user".into(),
        content: vec![ContentItem::InputText { text: text.into() }],
        phase: None,
    }
}

fn call(id: &str, arguments: &str) -> ResponseItem {
    ResponseItem::FunctionCall {
        id: None,
        name: "get_weather".into(),
        namespace: None,
        arguments: arguments.into(),
        call_id: id.into(),
    }
}

fn reasoning(signature: Option<&str>) -> ResponseItem {
    ResponseItem::Reasoning {
        id: "rsn_1".into(),
        summary: vec![],
        content: None,
        encrypted_content: signature.map(|s| s.to_string()),
    }
}

fn output(body: FunctionCallOutputBody) -> FunctionCallOutputPayload {
    FunctionCallOutputPayload { body, success: None }
}

fn json(text: &str) -> Value {
    serde_json::from_str(text).unwrap()
}

fn tool_call(request: &ChatRequest, i: usize) -> &ToolCall {
    match &request.messages[i].content.parts()[0] {
        ContentPart::ToolCall(call) => call,
        other => panic!("no tool call: {:?}", other),
    }
}

#[test]
fn test_single_user_message() {
    let request = request("", vec![user("Hello")]);

    let result = responses_request_to_chat_request(&request).unwrap();
    assert_eq!(result.messages.len(), 1);
    let msg = &result.messages[0];
    assert_eq!(msg.role, ChatRole::User);
    assert_eq!(msg.content.parts().len(), 1);
}

#[test]
fn test_system_instructions() {
    let request = request("You are helpful.", vec![user("Hi")]);

    let result = responses_request_to_chat_request(&request).unwrap();
    assert_eq!(result.system, Some("You are helpful.".into()));
}

#[test]
fn test_function_call_and_output() {
    let request = request(
        "",
        vec![
            ResponseItem::FunctionCall {
                id: None,
                name: "get_weather".into(),
                namespace: None,
                arguments: r#"{"city":"SF"}"#.into(),
                call_id: "call_1".into(),
            },
            ResponseItem::FunctionCallOutput {
                call_id: "call_1".into(),
                output: FunctionCallOutputPayload {
                    body: FunctionCallOutputBody::Text("Sunny".into()),
                    success: Some(true),
                },
            },
        ],
    );

    let result = responses_request_to_chat_request(&request).unwrap();
    assert_eq!(result.messages.len(), 2);
    assert_eq!(result.messages[0].role, ChatRole::Assistant);
    assert_eq!(result.messages[1].role, ChatRole::Tool);
}

#[test]
fn test_empty_input() {
    let request = request("", vec![]);

    assert!(responses_request_to_chat_request(&request).is_none());
}

#[test]
fn nothing_convertible_gives_nothing() {
    let internal = vec![
        ResponseItem::LocalShellCall,
        ResponseItem::ToolSearchCall,
        ResponseItem::ToolSearchOutput,
        ResponseItem::WebSearchCall,
        ResponseItem::ImageGenerationCall,
        ResponseItem::Compaction,
        ResponseItem::ContextCompaction,
        ResponseItem::CompactionTrigger,
        ResponseItem::Other,
        reasoning(None),
    ];
    assert!(responses_request_to_chat_request(&request("", internal.clone())).is_none());
    assert!(responses_request_to_chat_request(&request("Be brief.", internal)).is_none());
}

#[test]
fn lone_reasoning_is_a_message_of_its_own() {
    let messages = convert_response_items(&[reasoning(Some("sig"))]);
    assert_eq!(messages.len(), 1);
    assert_eq!(messages[0].role, ChatRole::Assistant);
    assert_eq!(messages[0].content.parts(), &[ContentPart::ThoughtSignature("sig".into())]);
    let request = request("", vec![reasoning(Some("sig"))]);
    assert_eq!(responses_request_to_chat_request(&request).unwrap().messages, messages);
}

#[test]
fn reasoning_after_the_last_call_stays_in_its_place() {
    let messages = convert_response_items(&[
        reasoning(Some("one")),
        call("call_1", "{}"),
        user("a"),
        reasoning(Some("two")),
        reasoning(None),
        ResponseItem::CustomToolCall {
            id: None,
            status: None,
            call_id: "custom".into(),
            name: "apply_patch".into(),
            input: "{}".into(),
        },
        reasoning(Some("three")),
        user("b"),
    ]);
    let signatures: Vec<(usize, &str)> = messages
        .iter()
        .enumerate()
        .filter_map(|(i, message)| match &message.content.parts()[0] {
            ContentPart::ThoughtSignature(signature) => Some((i, signature.as_str())),
            ContentPart::ToolCall(call) => {
                call.thought_signatures.as_ref().map(|taken| (i, taken[0].as_str()))
            }
            _ => None,
        })
        .collect();
    assert_eq!(messages.len(), 6);
    assert_eq!(signatures, vec![(0, "one"), (2, "two"), (4, "three")]);
    assert!(matches!(messages[2].content.parts()[0], ContentPart::ThoughtSignature(_)));
    assert!(matches!(messages[3].content.parts()[0], ContentPart::ToolCall(_)));
}

#[test]
fn one_trailing_item() {
    let message = convert_trailing_item(&reasoning(Some("sig")), None).unwrap();
    assert_eq!(message.content.parts(), &[ContentPart::ThoughtSignature("sig".into())]);
    assert!(convert_trailing_item(&reasoning(None), None).is_none());
    assert!(convert_trailing_item(&ResponseItem::Other, None).is_none());
    assert_eq!(
        convert_trailing_item(&user("Hi"), None).unwrap().content.parts(),
        &[ContentPart::Text("Hi".into())]
    );
}

#[test]
fn user_message_keeps_its_text() {
    let result = responses_request_to_chat_request(&request("", vec![user("Hello")])).unwrap();
    assert_eq!(result.messages[0].content.parts()[0], ContentPart::Text("Hello".into()));
    assert_eq!(result.system, None);
    assert_eq!(result.tools, None);
    assert_eq!(result.store, None);
    assert_eq!(result.previous_response_id, None);
}

#[test]
fn store_and_tools_are_passed_on() {
    let mut asked = request("", vec![user("Hello")]);
    asked.store = true;
    asked.tools = vec![json(r#"{"name":"f"}"#), json(r#"{"type":"web_search"}"#)];
    let result = responses_request_to_chat_request(&asked).unwrap();
    assert_eq!(result.store, Some(true));
    let tools = result.tools.unwrap();
    assert_eq!(tools.len(), 1);
    assert_eq!(tools[0].name, "f");

    asked.tools = vec![json(r#"{"type":"web_search"}"#)];
    assert_eq!(responses_request_to_chat_request(&asked).unwrap().tools, None);
}

#[test]
fn arguments_are_read_as_json() {
    let input = vec![call("call_1", r#"{"city":"SF"}"#), call("call_2", "not json")];
    let result = responses_request_to_chat_request(&request("", input)).unwrap();
    let first = tool_call(&result, 0);
    assert_eq!(first.call_id, "call_1");
    assert_eq!(first.fn_name, "get_weather");
    assert_eq!(first.fn_arguments.get("city"), Some(&Value::String("SF".into())));
    assert_eq!(first.thought_signatures, None);
    assert_eq!(tool_call(&result, 1).fn_arguments, Value::String("not json".into()));
}

#[test]
fn json_texts() {
    assert_eq!(parse_json(" [1, true ] ").unwrap().to_string(), "[1,true]");
    assert!(parse_json("[1").is_none());
    assert_eq!(json_raw_text(&Value::String("a\"b".into())), "a\"b");
    assert_eq!(json_raw_text(&json(r#"{ "a" : [ null ] }"#)), r#"{"a":[null]}"#);
    assert_eq!(value_or_string(None, "x"), Value::String("x".into()));
    assert_eq!(value_or_string(Some(Value::Null), "x"), Value::Null);
}

#[test]
fn first_function_call_takes_the_signatures() {
    let input = vec![
        reasoning(Some("one")),
        reasoning(None),
        reasoning(Some("two")),
        ResponseItem::CustomToolCall {
            id: None,
            status: None,
            call_id: "custom".into(),
            name: "apply_patch".into(),
            input: "*** Begin Patch".into(),
        },
        call("call_1", "{}"),
        call("call_2", "{}"),
        reasoning(Some("three")),
        call("call_3", "{}"),
    ];
    let result = responses_request_to_chat_request(&request("", input)).unwrap();
    assert_eq!(result.messages.len(), 4);
    assert_eq!(tool_call(&result, 0).fn_name, "apply_patch");
    assert_eq!(tool_call(&result, 0).fn_arguments, Value::String("*** Begin Patch".into()));
    assert_eq!(tool_call(&result, 0).thought_signatures, None);
    assert_eq!(
        tool_call(&result, 1).thought_signatures,
        Some(vec!["one".to_string(), "two".to_string()])
    );
    assert_eq!(tool_call(&result, 2).thought_signatures, None);
    assert_eq!(tool_call(&result, 3).thought_signatures, Some(vec!["three".to_string()]));
}

#[test]
fn internal_items_make_no_difference() {
    let plain = convert_response_items(&[reasoning(Some("one")), call("call_1", "{}"), user("Hi")]);
    let mixed = convert_response_items(&[
        ResponseItem::Compaction,
        reasoning(Some("one")),
        ResponseItem::WebSearchCall,
        call("call_1", "{}"),
        ResponseItem::Other,
        user("Hi"),
    ]);
    assert_eq!(plain, mixed);
}

#[test]
fn a_conversation_in_two_parts() {
    let mut whole = convert_response_items(&[user("a"), call("c", "{}")]);
    let rest = convert_response_items(&[user("b")]);
    whole.extend(rest);
    assert_eq!(whole, convert_response_items(&[user("a"), call("c", "{}"), user("b")]));
}

#[test]
fn one_item_with_what_was_parsed() {
    let mut waiting = vec!["sig".to_string()];
    let message = convert_response_item(&call("c", "ignored"), Some(Value::Bool(true)), &mut waiting)
        .unwrap();
    assert!(waiting.is_empty());
    assert_eq!(
        message.content.parts()[0],
        ContentPart::ToolCall(ToolCall {
            call_id: "c".into(),
            fn_name: "get_weather".into(),
            fn_arguments: Value::Bool(true),
            thought_signatures: Some(vec!["sig".into()]),
        })
    );
    assert!(convert_response_item(&reasoning(Some("x")), None, &mut waiting).is_none());
    assert_eq!(waiting, vec!["x".to_string()]);
}

#[test]
fn outputs_of_tools() {
    let items = vec![
        ResponseItem::FunctionCallOutput {
            call_id: "a".into(),
            output: output(FunctionCallOutputBody::ContentItems(Some("[1]".into()))),
        },
        ResponseItem::CustomToolCallOutput {
            call_id: "b".into(),
            name: Some("apply_patch".into()),
            output: output(FunctionCallOutputBody::ContentItems(None)),
        },
        ResponseItem::CustomToolCallOutput {
            call_id: "c".into(),
            name: None,
            output: output(FunctionCallOutputBody::Text("Sunny".into())),
        },
    ];
    let messages = convert_response_items(&items);
    let expected = [("a", "[1]"), ("b", ""), ("c", "Sunny")];
    assert_eq!(messages.len(), 3);
    for (message, (id, content)) in messages.iter().zip(expected) {
        assert_eq!(message.role, ChatRole::Tool);
        assert_eq!(
            message.content.parts()[0],
            ContentPart::ToolResponse(ToolResponse {
                call_id: id.into(),
                fn_name: None,
                content: content.into(),
            })
        );
    }
}

#[test]
fn roles() {
    assert_eq!(map_role("user"), ChatRole::User);
    assert_eq!(map_role("assistant"), ChatRole::Assistant);
    assert_eq!(map_role("developer"), ChatRole::System);
    assert_eq!(map_role("system"), ChatRole::System);
    assert_eq!(map_role("tool"), ChatRole::Tool);
    assert_eq!(map_role("narrator"), ChatRole::User);
    assert_eq!(map_role(""), ChatRole::User);
}

#[test]
fn images_by_the_end_of_their_url() {
    let cases = [
        ("https://x/a.jpg", "image/jpeg"),
        ("https://x/a.jpeg", "image/jpeg"),
        ("https://x/a.webp", "image/webp"),
        ("https://x/a.gif", "image/gif"),
        ("https://x/a.png", "image/png"),
        ("https://x/a.JPG", "image/png"),
        ("https://x/a.jpg?size=1", "image/png"),
        ("", "image/png"),
    ];
    for (url, expected) in cases {
        let parts = convert_content_items(&[ContentItem::InputImage {
            image_url: url.into(),
            detail: None,
        }]);
        match &parts[0] {
            ContentPart::Binary(binary) => {
                assert_eq!(binary.content_type, expected);
                assert_eq!(binary.url, url);
                assert_eq!(binary.name, None);
            }
            other => panic!("no binary: {:?}", other),
        }
    }
}

#[test]
fn output_text_is_text() {
    let parts = convert_content_items(&[
        ContentItem::OutputText { text: "a".into() },
        ContentItem::InputText { text: "b".into() },
    ]);
    assert_eq!(parts, vec![ContentPart::Text("a".into()), ContentPart::Text("b".into())]);
}

#[test]
fn tools_from_json() {
    let tools = parse_tools(&[
        json(r#"{"name":"f","description":"does f","parameters":{"type":"object"},"strict":true}"#),
        json(r#"{"name":"g","description":"","input_schema":{"a":1},"strict":"yes"}"#),
        json(r#"{"name":"h","parameters":null,"input_schema":{"a":1}}"#),
        json(r#"{"name":7}"#),
        json(r#"["name"]"#),
    ]);
    assert_eq!(tools.len(), 3);
    assert_eq!(tools[0].name, "f");
    assert_eq!(tools[0].description, Some("does f".into()));
    assert_eq!(tools[0].schema, Some(json(r#"{"type":"object"}"#)));
    assert_eq!(tools[0].strict, Some(true));
    assert_eq!(tools[1].description, None);
    assert_eq!(tools[1].schema, Some(json(r#"{"a":1}"#)));
    assert_eq!(tools[1].strict, None);
    assert_eq!(tools[2].schema, Some(Value::Null));
}
