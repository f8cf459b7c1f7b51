use genai_bridge::chat::{
    ChatStreamEvent, JsonSpec, ReasoningEffort, ServiceTier, StreamChunk, Verbosity,
};
use genai_bridge::protocol::{
    ApiError, ContentItem, OpenAiVerbosity, Provider, Reasoning,
    ReasoningEffort as RequestedEffort, ResponseEvent, ResponseItem, ResponsesApiRequest,
    TextControls, TextFormat, TransportError,
};
use genai_bridge::stream::{
    build_chat_options, chat_request_to_send, map_effort, map_service_tier, map_verbosity, on_poll,
    stream_error, StreamPoll,
};
use genai_bridge::types::PendingAssistantMessage;
use http::{HeaderMap, HeaderValue};

fn request() -> ResponsesApiRequest {
    ResponsesApiRequest {
        model: "gpt-5".into(),
        instructions: "Be brief.".into(),
        input: vec![ResponseItem::Message {
            id: None,
            role: "user".into(),
            content: vec![ContentItem::InputText { text: "Hi".into() }],
            phase: None,
        }],
        tools: vec![],
        tool_choice: "auto".into(),
        parallel_tool_calls: true,
        reasoning: None,
        store: false,
        stream: true,
        included: vec![],
        service_tier: None,
        prompt_cache_key: None,
        text: None,
        client_metadata: None,
    }
}

fn provider() -> Provider {
    let mut headers = HeaderMap::new();
    headers.insert("x-provider", HeaderValue::from_static("1"));
    Provider { base_url: "https://example.com".into(), headers }
}

#[test]
fn plain_options() {
    let mut extra = HeaderMap::new();
    extra.insert("x-extra", HeaderValue::from_static("2"));
    let options = build_chat_options(&request(), &provider(), &HeaderMap::new(), extra);
    assert_eq!(options.capture_usage, Some(true));
    assert_eq!(options.capture_content, Some(true));
    assert_eq!(options.capture_reasoning_content, Some(true));
    assert_eq!(options.capture_tool_calls, Some(true));
    assert_eq!(options.reasoning_effort, None);
    assert_eq!(options.service_tier, None);
    assert_eq!(options.verbosity, None);
    assert_eq!(options.response_format, None);
    assert_eq!(options.prompt_cache_key, None);
    let mut headers: Vec<(String, String)> = options.extra_headers.unwrap().into_iter().collect();
    headers.sort();
    assert_eq!(
        headers,
        vec![
            ("x-extra".to_string(), "2".to_string()),
            ("x-provider".to_string(), "1".to_string()),
        ]
    );
}

#[test]
fn full_options() {
    let schema: serde_json::Value = serde_json::from_str(r#"{"type":"object"}"#).unwrap();
    let mut asked = request();
    asked.reasoning = Some(Reasoning { effort: Some(RequestedEffort::XHigh) });
    asked.service_tier = Some("flex".into());
    asked.prompt_cache_key = Some("key".into());
    asked.text = Some(TextControls {
        verbosity: Some(OpenAiVerbosity::Low),
        format: Some(TextFormat { name: "answer".into(), schema: schema.clone() }),
    });
    let options = build_chat_options(&asked, &provider(), &HeaderMap::new(), HeaderMap::new());
    assert_eq!(options.reasoning_effort, Some(ReasoningEffort::High));
    assert_eq!(options.service_tier, Some(ServiceTier::Flex));
    assert_eq!(options.prompt_cache_key, Some("key".into()));
    assert_eq!(options.verbosity, Some(Verbosity::Low));
    assert_eq!(
        options.response_format,
        Some(JsonSpec { name: "answer".into(), description: None, schema })
    );
}

#[test]
fn unset_parts_of_options() {
    let mut asked = request();
    asked.reasoning = Some(Reasoning { effort: None });
    asked.text = Some(TextControls { verbosity: None, format: None });
    let options = build_chat_options(&asked, &provider(), &HeaderMap::new(), HeaderMap::new());
    assert_eq!(options.reasoning_effort, None);
    assert_eq!(options.verbosity, None);
    assert_eq!(options.response_format, None);
}

#[test]
fn efforts() {
    assert_eq!(map_effort(RequestedEffort::Off), ReasoningEffort::Off);
    assert_eq!(map_effort(RequestedEffort::Minimal), ReasoningEffort::Minimal);
    assert_eq!(map_effort(RequestedEffort::Low), ReasoningEffort::Low);
    assert_eq!(map_effort(RequestedEffort::Medium), ReasoningEffort::Medium);
    assert_eq!(map_effort(RequestedEffort::High), ReasoningEffort::High);
    assert_eq!(map_effort(RequestedEffort::XHigh), ReasoningEffort::High);
}

#[test]
fn service_tiers() {
    assert_eq!(map_service_tier("flex"), ServiceTier::Flex);
    assert_eq!(map_service_tier("auto"), ServiceTier::Auto);
    assert_eq!(map_service_tier("default"), ServiceTier::Default);
    assert_eq!(map_service_tier("priority"), ServiceTier::Default);
}

#[test]
fn verbosities() {
    assert_eq!(map_verbosity(OpenAiVerbosity::Low), Verbosity::Low);
    assert_eq!(map_verbosity(OpenAiVerbosity::Medium), Verbosity::Medium);
    assert_eq!(map_verbosity(OpenAiVerbosity::High), Verbosity::High);
}

#[test]
fn request_without_messages_is_refused() {
    let mut asked = request();
    assert_eq!(chat_request_to_send(&asked).unwrap().messages.len(), 1);
    asked.input = vec![ResponseItem::Compaction];
    assert_eq!(
        chat_request_to_send(&asked),
        Err(ApiError::InvalidRequest { message: "No convertible messages in request".into() })
    );
}

#[test]
fn failure_of_a_stream() {
    assert_eq!(
        stream_error("reset"),
        ApiError::Transport(TransportError::Network("genai stream error: reset".into()))
    );
}

#[test]
fn polls_of_a_stream() {
    let mut pending = PendingAssistantMessage::new();
    let action = on_poll(
        StreamPoll::Event(ChatStreamEvent::Chunk(StreamChunk { content: "x".into() })),
        &mut pending,
    );
    assert!(!action.last);
    assert_eq!(action.sends.len(), 2);
    assert_eq!(action.sends[1], Ok(ResponseEvent::OutputTextDelta("x".into())));

    let action = on_poll(StreamPoll::Failed("reset".into()), &mut pending);
    assert!(action.last);
    assert_eq!(action.sends, vec![Err(stream_error("reset"))]);

    let action = on_poll(StreamPoll::Idle, &mut pending);
    assert!(action.last);
    assert_eq!(action.sends, vec![Err(ApiError::Transport(TransportError::Timeout))]);

    let action = on_poll(StreamPoll::Closed, &mut pending);
    assert!(action.last);
    assert!(action.sends.is_empty());
    assert_eq!(pending.text_buffer, "x");
}
