use genai_bridge::chat::{
    ChatStreamEvent, CompletionTokensDetails, ContentPart, PromptTokensDetails, StopReason, StreamChunk,
    StreamEnd, ToolCall, ToolChunk, Usage,
};
use genai_bridge::convert_request::convert_response_items;
use genai_bridge::convert_response::{
    chat_event_to_response_event, ensure_message_item_added, handle_tool_arguments,
};
use genai_bridge::protocol::{
    ContentItem, ReasoningItemContent, ResponseEvent, ResponseItem, TokenUsage,
};
use genai_bridge::types::PendingAssistantMessage;

fn text(content: &str) -> ChatStreamEvent {
    ChatStreamEvent::Chunk(StreamChunk { content: content.into() })
}

fn thought(content: &str) -> ChatStreamEvent {
    ChatStreamEvent::ReasoningChunk(StreamChunk { content: content.into() })
}

fn tool(id: &str, arguments: serde_json::Value) -> ChatStreamEvent {
    ChatStreamEvent::ToolCallChunk(ToolChunk {
        tool_call: ToolCall {
            call_id: id.into(),
            fn_name: "get_weather".into(),
            fn_arguments: arguments,
            thought_signatures: None,
        },
    })
}

fn raw(arguments: &str) -> serde_json::Value {
    serde_json::Value::String(arguments.into())
}

fn end(reason: Option<StopReason>) -> ChatStreamEvent {
    ChatStreamEvent::End(StreamEnd {
        captured_usage: None,
        captured_stop_reason: reason,
        captured_response_id: Some("resp_1".into()),
    })
}

fn run(events: Vec<ChatStreamEvent>) -> Vec<ResponseEvent> {
    let mut pending = PendingAssistantMessage::new();
    let mut out = Vec::new();
    for event in events {
        out.extend(chat_event_to_response_event(event, &mut pending));
    }
    out
}

fn input(id: &str, delta: &str) -> ResponseEvent {
    ResponseEvent::ToolCallInputDelta {
        item_id: id.into(),
        call_id: Some(id.into()),
        delta: delta.into(),
    }
}

fn opened(id: &str) -> ResponseEvent {
    ResponseEvent::OutputItemAdded(ResponseItem::CustomToolCall {
        id: Some(id.into()),
        status: None,
        call_id: id.into(),
        name: "get_weather".into(),
        input: String::new(),
    })
}

fn done_call(id: &str, arguments: &str) -> ResponseEvent {
    ResponseEvent::OutputItemDone(ResponseItem::FunctionCall {
        id: Some(id.into()),
        name: "get_weather".into(),
        namespace: None,
        arguments: arguments.into(),
        call_id: id.into(),
    })
}

fn message(content: Vec<ContentItem>) -> ResponseItem {
    ResponseItem::Message {
        id: Some("txt_0".into()),
        role: "assistant".into(),
        content,
        phase: None,
    }
}

#[test]
fn test_start_event() {
    let mut pending = PendingAssistantMessage::new();
    let events = chat_event_to_response_event(ChatStreamEvent::Start, &mut pending);
    assert_eq!(events.len(), 1);
    assert!(matches!(events[0], ResponseEvent::Created));
}

#[test]
fn test_chunk_emits_output_item_added_then_delta() {
    let mut pending = PendingAssistantMessage::new();
    let events = chat_event_to_response_event(
        ChatStreamEvent::Chunk(StreamChunk { content: "Hello".into() }),
        &mut pending,
    );
    // First chunk emits OutputItemAdded(Message) + OutputTextDelta
    assert_eq!(events.len(), 2);
    assert!(matches!(&events[0], ResponseEvent::OutputItemAdded(
        ResponseItem::Message { role, .. }
    ) if role == "assistant"));
    assert!(matches!(&events[1], ResponseEvent::OutputTextDelta(t) if t == "Hello"));
    assert_eq!(pending.text_buffer, "Hello");
    assert!(pending.text_item_added);
}

#[test]
fn test_multiple_chunks_only_one_added() {
    let mut pending = PendingAssistantMessage::new();
    let events1 = chat_event_to_response_event(
        ChatStreamEvent::Chunk(StreamChunk { content: "Hello ".into() }),
        &mut pending,
    );
    assert_eq!(events1.len(), 2); // OutputItemAdded + OutputTextDelta

    let events2 = chat_event_to_response_event(
        ChatStreamEvent::Chunk(StreamChunk { content: "world".into() }),
        &mut pending,
    );
    assert_eq!(events2.len(), 1); // Only OutputTextDelta, no duplicate OutputItemAdded
    assert_eq!(pending.text_buffer, "Hello world");
}

#[test]
fn test_end_with_stop() {
    let mut pending = PendingAssistantMessage::new();
    pending.text_buffer = "Done".into();

    let end = StreamEnd {
        captured_usage: None,
        captured_stop_reason: Some(StopReason::Completed("stop".into())),
        captured_response_id: Some("resp_1".into()),
    };

    let events = chat_event_to_response_event(ChatStreamEvent::End(end), &mut pending);
    // Should emit OutputItemDone(Message) + Completed
    assert_eq!(events.len(), 2);
    assert!(matches!(events[0], ResponseEvent::OutputItemDone(..)));
    assert!(matches!(&events[1], ResponseEvent::Completed { end_turn: Some(true), .. }));
}

#[test]
fn test_end_with_tool_calls() {
    let mut pending = PendingAssistantMessage::new();

    let end = StreamEnd {
        captured_usage: None,
        captured_stop_reason: Some(StopReason::ToolCall("tool_calls".into())),
        captured_response_id: Some("resp_2".into()),
    };

    let events = chat_event_to_response_event(ChatStreamEvent::End(end), &mut pending);
    assert!(events
        .iter()
        .any(|e| matches!(e, ResponseEvent::Completed { end_turn: Some(false), .. })));
}

#[test]
fn test_reasoning_chunk_increments_content_index() {
    let mut pending = PendingAssistantMessage::new();
    let events1 = chat_event_to_response_event(
        ChatStreamEvent::ReasoningChunk(StreamChunk { content: "first".into() }),
        &mut pending,
    );
    // First reasoning chunk emits OutputItemAdded(Message) + ReasoningContentDelta
    assert_eq!(events1.len(), 2);
    assert!(matches!(&events1[0], ResponseEvent::OutputItemAdded(..)));
    assert!(matches!(&events1[1], ResponseEvent::ReasoningContentDelta {
        delta, content_index: 0
    } if delta == "first"));

    let events2 = chat_event_to_response_event(
        ChatStreamEvent::ReasoningChunk(StreamChunk { content: "second".into() }),
        &mut pending,
    );
    assert_eq!(events2.len(), 1);
    assert!(matches!(&events2[0], ResponseEvent::ReasoningContentDelta {
        delta, content_index: 1
    } if delta == "second"));

    assert_eq!(pending.reasoning_buffer, "firstsecond");
}

#[test]
fn test_reasoning_does_not_duplicate_output_item_added_when_text_arrives_first() {
    let mut pending = PendingAssistantMessage::new();
    // Text arrives first, OutputItemAdded emitted
    chat_event_to_response_event(
        ChatStreamEvent::Chunk(StreamChunk { content: "Hello ".into() }),
        &mut pending,
    );
    assert!(pending.text_item_added);
    // Reasoning arrives later, should NOT emit another OutputItemAdded
    let events = chat_event_to_response_event(
        ChatStreamEvent::ReasoningChunk(StreamChunk { content: "thinking...".into() }),
        &mut pending,
    );
    assert_eq!(events.len(), 1, "should not emit duplicate OutputItemAdded");
    assert!(matches!(&events[0], ResponseEvent::ReasoningContentDelta { .. }));
}

#[test]
fn test_tool_call_first_chunk() {
    let mut pending = PendingAssistantMessage::new();
    let events = chat_event_to_response_event(
        ChatStreamEvent::ToolCallChunk(ToolChunk {
            tool_call: ToolCall {
                call_id: "call_1".into(),
                fn_name: "get_weather".into(),
                fn_arguments: serde_json::Value::String(r#"{"city":"SF"}"#.into()),
                thought_signatures: None,
            },
        }),
        &mut pending,
    );
    // First chunk: OutputItemAdded(CustomToolCall) + ToolCallInputDelta
    assert_eq!(events.len(), 2);
    assert!(matches!(&events[0], ResponseEvent::OutputItemAdded(
        ResponseItem::CustomToolCall { call_id, name, .. }
    ) if call_id == "call_1" && name == "get_weather"));
    assert!(matches!(&events[1], ResponseEvent::ToolCallInputDelta {
        call_id, ..
    } if call_id.as_deref() == Some("call_1")));
}

#[test]
fn test_tool_call_subsequent_chunk_computes_delta() {
    let mut pending = PendingAssistantMessage::new();
    // First chunk: partial arguments (simulating streaming accumulation)
    let partial = serde_json::Value::String(r#"{"city":"#.into());
    chat_event_to_response_event(
        ChatStreamEvent::ToolCallChunk(ToolChunk {
            tool_call: ToolCall {
                call_id: "call_1".into(),
                fn_name: "get_weather".into(),
                fn_arguments: partial,
                thought_signatures: None,
            },
        }),
        &mut pending,
    );
    // Second chunk: accumulated to full arguments
    let full = serde_json::Value::String(r#"{"city":"SF"}"#.into());
    let events = chat_event_to_response_event(
        ChatStreamEvent::ToolCallChunk(ToolChunk {
            tool_call: ToolCall {
                call_id: "call_1".into(),
                fn_name: "get_weather".into(),
                fn_arguments: full,
                thought_signatures: None,
            },
        }),
        &mut pending,
    );
    // Second chunk: only ToolCallInputDelta (OutputItemAdded already emitted)
    assert_eq!(events.len(), 1);
    // Delta should be only the new part: "SF"}"
    assert!(
        matches!(&events[0], ResponseEvent::ToolCallInputDelta { delta, .. } if delta == "\"SF\"}")
    );
}

#[test]
fn whole_text_response() {
    let events = run(vec![
        ChatStreamEvent::Start,
        text("Hel"),
        text("lo"),
        end(Some(StopReason::Completed("stop".into()))),
    ]);
    assert_eq!(
        events,
        vec![
            ResponseEvent::Created,
            ResponseEvent::OutputItemAdded(message(vec![])),
            ResponseEvent::OutputTextDelta("Hel".into()),
            ResponseEvent::OutputTextDelta("lo".into()),
            ResponseEvent::OutputItemDone(message(vec![ContentItem::OutputText {
                text: "Hello".into()
            }])),
            ResponseEvent::Completed {
                response_id: "resp_1".into(),
                token_usage: None,
                end_turn: Some(true),
            },
        ]
    );
}

#[test]
fn whole_reasoning_response() {
    let events = run(vec![
        thought("a"),
        ChatStreamEvent::ThoughtSignatureChunk(StreamChunk { content: "sig".into() }),
        thought("b"),
        end(None),
    ]);
    let item = ResponseItem::Reasoning {
        id: "rsn_3".into(),
        summary: vec![],
        content: Some(vec![ReasoningItemContent::ReasoningText { text: "ab".into() }]),
        encrypted_content: Some("ab".into()),
    };
    let delta = |delta: &str, content_index: i64| ResponseEvent::ReasoningContentDelta {
        delta: delta.into(),
        content_index,
    };
    assert_eq!(
        events,
        vec![
            ResponseEvent::OutputItemAdded(message(vec![])),
            delta("a", 0),
            delta("sig", 1),
            delta("b", 2),
            ResponseEvent::OutputItemDone(message(vec![])),
            ResponseEvent::OutputItemAdded(item.clone()),
            ResponseEvent::OutputItemDone(item),
            ResponseEvent::Completed {
                response_id: "resp_1".into(),
                token_usage: None,
                end_turn: None,
            },
        ]
    );
}

#[test]
fn signatures_are_kept_apart_from_reasoning() {
    let mut pending = PendingAssistantMessage::new();
    chat_event_to_response_event(
        ChatStreamEvent::ThoughtSignatureChunk(StreamChunk { content: "sig".into() }),
        &mut pending,
    );
    assert_eq!(pending.thought_signatures, vec!["sig".to_string()]);
    assert_eq!(pending.reasoning_buffer, "");
    assert_eq!(pending.reasoning_content_index, 1);
}

#[test]
fn calls_close_in_the_order_of_their_ids() {
    let events = run(vec![
        tool("b", raw("{")),
        tool("a", raw("[")),
        tool("b", raw("{}")),
        tool("a", raw("[]")),
        tool("ab", raw("")),
        end(Some(StopReason::ToolCall("tool_calls".into()))),
    ]);
    assert_eq!(
        events,
        vec![
            opened("b"),
            input("b", "{"),
            opened("a"),
            input("a", "["),
            input("b", "}"),
            input("a", "]"),
            opened("ab"),
            done_call("a", "[]"),
            done_call("ab", ""),
            done_call("b", "{}"),
            ResponseEvent::Completed {
                response_id: "resp_1".into(),
                token_usage: None,
                end_turn: Some(false),
            },
        ]
    );
}

#[test]
fn arguments_that_do_not_continue_go_out_whole() {
    let events = run(vec![
        tool("a", raw("{\"x\":1")),
        tool("a", raw("{\"x\":1")),
        tool("a", raw("[]")),
        tool("a", raw("")),
    ]);
    assert_eq!(
        events,
        vec![opened("a"), input("a", "{\"x\":1"), input("a", "{\"x\":1"), input("a", "[]")]
    );
}

#[test]
fn arguments_with_wide_characters() {
    let events = run(vec![tool("a", raw("\u{e9}")), tool("a", raw("\u{e9}\u{1f600}x"))]);
    assert_eq!(events, vec![opened("a"), input("a", "\u{e9}"), input("a", "\u{1f600}x")]);
}

#[test]
fn arguments_that_are_no_string_are_written_as_json() {
    let value = serde_json::from_str("{ \"x\" : [1, 2] }").unwrap();
    let events = run(vec![tool("a", value)]);
    assert_eq!(events, vec![opened("a"), input("a", "{\"x\":[1,2]}")]);
}

#[test]
fn tool_arguments_as_text() {
    let mut pending = PendingAssistantMessage::new();
    let first =
        handle_tool_arguments("a".into(), "get_weather".into(), "{".into(), &mut pending);
    let second =
        handle_tool_arguments("a".into(), "get_weather".into(), "{}".into(), &mut pending);
    assert_eq!(first, vec![opened("a"), input("a", "{")]);
    assert_eq!(second, vec![input("a", "}")]);
    assert_eq!(pending.tool_calls.len(), 1);
    assert_eq!(pending.tool_calls[0].arguments_buffer, "{}");
    assert_eq!(pending.tool_items_added, vec!["a".to_string()]);
}

#[test]
fn usage_counts() {
    let mut pending = PendingAssistantMessage::new();
    let end = StreamEnd {
        captured_usage: Some(Usage {
            prompt_tokens: Some(10),
            prompt_tokens_details: Some(PromptTokensDetails { cached_tokens: Some(4) }),
            completion_tokens: Some(7),
            completion_tokens_details: Some(CompletionTokensDetails { reasoning_tokens: None }),
            total_tokens: None,
        }),
        captured_stop_reason: Some(StopReason::MaxTokens("length".into())),
        captured_response_id: None,
    };
    let events = chat_event_to_response_event(ChatStreamEvent::End(end), &mut pending);
    assert_eq!(
        events,
        vec![ResponseEvent::Completed {
            response_id: String::new(),
            token_usage: Some(TokenUsage {
                input_tokens: 10,
                cached_input_tokens: 4,
                output_tokens: 7,
                reasoning_output_tokens: 0,
                total_tokens: 0,
            }),
            end_turn: Some(true),
        }]
    );
    assert_eq!(pending.finish_reason, Some("length".into()));
    assert_eq!(pending.token_usage, None);
}

#[test]
fn item_id_counts_bytes() {
    let mut pending = PendingAssistantMessage::new();
    pending.text_buffer = "\u{e9}\u{e9}\u{e9}\u{e9}\u{e9}\u{e9}".into();
    chat_event_to_response_event(text("x"), &mut pending);
    assert_eq!(pending.text_item_id, Some("txt_12".into()));
}

#[test]
fn stop_reasons_by_their_words() {
    assert_eq!(StopReason::Completed("stop".into()).raw(), "stop");
    assert_eq!(StopReason::MaxTokens("length".into()).raw(), "length");
    assert_eq!(StopReason::ToolCall("tool_use".into()).raw(), "tool_use");
    assert_eq!(StopReason::ContentFilter("SAFETY".into()).raw(), "SAFETY");
    assert_eq!(StopReason::StopSequence("stop_sequence".into()).raw(), "stop_sequence");
    assert_eq!(StopReason::Other("odd".into()).raw(), "odd");
}

#[test]
fn response_can_be_sent_back() {
    let events = run(vec![
        thought("because"),
        text("Let me look."),
        tool("a", raw("{\"x\":1}")),
        tool("b", raw("oops")),
        end(Some(StopReason::ToolCall("tool_calls".into()))),
    ]);
    let mut items = Vec::new();
    for event in events {
        if let ResponseEvent::OutputItemDone(item) = event {
            items.push(item);
        }
    }
    let messages = convert_response_items(&items);
    assert_eq!(messages.len(), 3);
    let parts = |i: usize| format!("{:?}", messages[i].content.parts());
    assert!(parts(0).contains("Let me look."));
    assert!(parts(1).contains("Some([\"because\"])"));
    assert!(parts(2).contains("thought_signatures: None"));
}

#[test]
fn reasoning_without_a_call_can_be_sent_back() {
    let events = run(vec![thought("because"), text("Hello."), end(None)]);
    let mut items = Vec::new();
    for event in events {
        if let ResponseEvent::OutputItemDone(item) = event {
            items.push(item);
        }
    }
    let messages = convert_response_items(&items);
    assert_eq!(messages.len(), 2);
    assert_eq!(messages[0].content.parts(), &[ContentPart::Text("Hello.".into())]);
    assert_eq!(messages[1].content.parts(), &[ContentPart::ThoughtSignature("because".into())]);
}

#[test]
fn message_opened_twice() {
    let mut pending = PendingAssistantMessage::new();
    let mut events = Vec::new();
    ensure_message_item_added(&mut pending, &mut events);
    ensure_message_item_added(&mut pending, &mut events);
    assert_eq!(events, vec![ResponseEvent::OutputItemAdded(message(vec![]))]);
    assert_eq!(pending.text_item_id, Some("txt_0".into()));
}
