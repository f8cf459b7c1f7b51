//! What happens between a request and the end of its response stream.

use http::HeaderMap;
use vstd::prelude::*;
use vstd::string::*;

use crate::chat::{
    ChatOptions, ChatRequest, ChatStreamEvent, ChatStreamEventView, JsonSpec, JsonSpecView,
    ReasoningEffort, ServiceTier, Verbosity,
};
use crate::convert_request::{chat_request, conversation, responses_request_to_chat_request};
use crate::convert_response::{chat_event_to_response_event, step, takes_index};
use crate::headers::{header_entries, headers_map};
use crate::json::json_tree;
use crate::protocol::{
    ApiError, ApiErrorView, OpenAiVerbosity, Provider, Reasoning,
    ReasoningEffort as RequestedEffort,
    ResponseEvent, ResponseEventView, ResponsesApiRequest, TransportError, TransportErrorView,
};
use crate::resolver::{build_extra_headers, request_headers};
use crate::response_laws::{lemma_run_add, run};
use crate::text::same_text;
use crate::types::{PendingAssistantMessage, PendingView};

verus! {

/// The chat client's reasoning effort for a requested one; it knows none above `High`.
pub open spec fn chat_effort(effort: RequestedEffort) -> ReasoningEffort {
    match effort {
        RequestedEffort::Off => ReasoningEffort::Off,
        RequestedEffort::Minimal => ReasoningEffort::Minimal,
        RequestedEffort::Low => ReasoningEffort::Low,
        RequestedEffort::Medium => ReasoningEffort::Medium,
        RequestedEffort::High => ReasoningEffort::High,
        RequestedEffort::XHigh => ReasoningEffort::High,
    }
}

/// The service tier with this name; a name that is not known stands for the default tier.
pub open spec fn named_tier(name: Seq<char>) -> ServiceTier {
    if name == "flex"@ {
        ServiceTier::Flex
    } else if name == "auto"@ {
        ServiceTier::Auto
    } else {
        ServiceTier::Default
    }
}

/// The chat client's verbosity for a requested one.
pub open spec fn chat_verbosity(verbosity: OpenAiVerbosity) -> Verbosity {
    match verbosity {
        OpenAiVerbosity::Low => Verbosity::Low,
        OpenAiVerbosity::Medium => Verbosity::Medium,
        OpenAiVerbosity::High => Verbosity::High,
    }
}

/// The reasoning effort that a request asks for.
pub open spec fn effort_option(request: ResponsesApiRequest) -> Option<ReasoningEffort> {
    match request.reasoning {
        Some(reasoning) => match reasoning.effort {
            Some(effort) => Some(chat_effort(effort)),
            None => None,
        },
        None => None,
    }
}

/// The service tier that a request asks for.
pub open spec fn tier_option(request: ResponsesApiRequest) -> Option<ServiceTier> {
    match request.service_tier {
        Some(name) => Some(named_tier(name@)),
        None => None,
    }
}

/// The verbosity that a request asks for.
pub open spec fn verbosity_option(request: ResponsesApiRequest) -> Option<Verbosity> {
    match request.text {
        Some(text) => match text.verbosity {
            Some(verbosity) => Some(chat_verbosity(verbosity)),
            None => None,
        },
        None => None,
    }
}

/// The form of the answer that a request asks for.
pub open spec fn format_option(request: ResponsesApiRequest) -> Option<JsonSpecView> {
    match request.text {
        Some(text) => match text.format {
            Some(format) => Some(
                JsonSpecView {
                    name: format.name@,
                    description: None,
                    schema: json_tree(format.schema),
                },
            ),
            None => None,
        },
        None => None,
    }
}

/// The options for a request.
pub fn build_chat_options(
    request: &ResponsesApiRequest,
    api_provider: &Provider,
    auth_headers: &HeaderMap,
    extra_headers: HeaderMap,
) -> (options: ChatOptions)
    ensures
        options.capture_usage == Some(true),
        options.capture_content == Some(true),
        options.capture_reasoning_content == Some(true),
        options.capture_tool_calls == Some(true),
        options.reasoning_effort == effort_option(*request),
        request.reasoning matches Some(reasoning) ==> match reasoning.effort {
            Some(RequestedEffort::Off) => options.reasoning_effort == Some(ReasoningEffort::Off),
            Some(RequestedEffort::Minimal) => options.reasoning_effort == Some(
                ReasoningEffort::Minimal,
            ),
            Some(RequestedEffort::Low) => options.reasoning_effort == Some(ReasoningEffort::Low),
            Some(RequestedEffort::Medium) => options.reasoning_effort == Some(
                ReasoningEffort::Medium,
            ),
            Some(RequestedEffort::High) => options.reasoning_effort == Some(ReasoningEffort::High),
            Some(RequestedEffort::XHigh) => options.reasoning_effort == Some(ReasoningEffort::High),
            None => options.reasoning_effort is None,
        },
        request.reasoning is None ==> options.reasoning_effort is None,
        options.service_tier == tier_option(*request),
        options.verbosity == verbosity_option(*request),
        options.response_format.deep_view() == format_option(*request),
        options.prompt_cache_key.deep_view() == request.prompt_cache_key.deep_view(),
        options.extra_headers matches Some(headers) && headers_map(headers) == request_headers(
            header_entries(api_provider.headers),
            header_entries(*auth_headers),
            header_entries(extra_headers),
        ),
{
    let reasoning_effort: Option<ReasoningEffort> = match &request.reasoning {
        Some(reasoning) => match reasoning.effort {
            Some(effort) => Some(map_effort(effort)),
            None => None,
        },
        None => None,
    };
    let service_tier: Option<ServiceTier> = match &request.service_tier {
        Some(name) => Some(map_service_tier(name.as_str())),
        None => None,
    };
    let verbosity: Option<Verbosity> = match &request.text {
        Some(text) => match text.verbosity {
            Some(verbosity) => Some(map_verbosity(verbosity)),
            None => None,
        },
        None => None,
    };
    let response_format: Option<JsonSpec> = match &request.text {
        Some(text) => match &text.format {
            Some(format) => Some(
                JsonSpec {
                    name: format.name.clone(),
                    description: None,
                    schema: format.schema.clone(),
                },
            ),
            None => None,
        },
        None => None,
    };
    let prompt_cache_key: Option<String> = match &request.prompt_cache_key {
        Some(key) => Some(key.clone()),
        None => None,
    };
    ChatOptions {
        capture_usage: Some(true),
        capture_content: Some(true),
        capture_reasoning_content: Some(true),
        capture_tool_calls: Some(true),
        response_format,
        reasoning_effort,
        verbosity,
        service_tier,
        extra_headers: Some(build_extra_headers(api_provider, auth_headers, &extra_headers)),
        prompt_cache_key,
    }
}

/// The chat client's reasoning effort for a requested one.
pub fn map_effort(effort: RequestedEffort) -> (mapped: ReasoningEffort)
    ensures
        mapped == chat_effort(effort),
{
    match effort {
        RequestedEffort::Off => ReasoningEffort::Off,
        RequestedEffort::Minimal => ReasoningEffort::Minimal,
        RequestedEffort::Low => ReasoningEffort::Low,
        RequestedEffort::Medium => ReasoningEffort::Medium,
        RequestedEffort::High => ReasoningEffort::High,
        RequestedEffort::XHigh => ReasoningEffort::High,
    }
}

/// The service tier with this name.
pub fn map_service_tier(name: &str) -> (tier: ServiceTier)
    ensures
        tier == named_tier(name@),
{
    if same_text(name, "flex") {
        ServiceTier::Flex
    } else if same_text(name, "auto") {
        ServiceTier::Auto
    } else {
        ServiceTier::Default
    }
}

/// The chat client's verbosity for a requested one.
pub fn map_verbosity(verbosity: OpenAiVerbosity) -> (mapped: Verbosity)
    ensures
        mapped == chat_verbosity(verbosity),
{
    match verbosity {
        OpenAiVerbosity::Low => Verbosity::Low,
        OpenAiVerbosity::Medium => Verbosity::Medium,
        OpenAiVerbosity::High => Verbosity::High,
    }
}

/// The error for a request without a message to send.
pub open spec fn nothing_to_send() -> ApiErrorView {
    ApiErrorView::InvalidRequest { message: "No convertible messages in request"@ }
}

/// Converts a request into a chat request to send; one without a convertible message is refused.
pub fn chat_request_to_send(request: &ResponsesApiRequest) -> (converted: Result<
    ChatRequest,
    ApiError,
>)
    ensures
        converted is Err <==> conversation(request.input.deep_view()).len() == 0,
        converted matches Ok(chat) ==> chat.deep_view() == chat_request(
            *request,
            conversation(request.input.deep_view()),
        ),
        converted matches Err(error) ==> error.deep_view() == nothing_to_send(),
        converted matches Err(error) ==> (error matches ApiError::InvalidRequest { message }
            && message@ == "No convertible messages in request"@),
{
    match responses_request_to_chat_request(request) {
        Some(chat) => Ok(chat),
        None => Err(
            ApiError::InvalidRequest { message: "No convertible messages in request".to_owned() },
        ),
    }
}

/// The error for a chat stream that failed, with the chat client's own words.
pub open spec fn stream_failure(words: Seq<char>) -> ApiErrorView {
    ApiErrorView::Transport(TransportErrorView::Network("genai stream error: "@ + words))
}

/// The error for a chat stream that failed, with the chat client's own words.
pub fn stream_error(words: &str) -> (error: ApiError)
    ensures
        error.deep_view() == stream_failure(words@),
{
    let mut text: String = "genai stream error: ".to_owned();
    text.append(words);
    ApiError::Transport(TransportError::Network(text))
}

/// What waiting for the chat stream came to.
pub enum StreamPoll {
    /// An event came.
    Event(ChatStreamEvent),
    /// The stream failed, with the chat client's own words.
    Failed(String),
    /// The stream is at its end.
    Closed,
    /// Nothing came for as long as the stream may be idle.
    Idle,
}

/// What waiting for the chat stream came to, by its texts.
pub enum StreamPollView {
    Event(ChatStreamEventView),
    Failed(Seq<char>),
    Closed,
    Idle,
}

impl DeepView for StreamPoll {
    type V = StreamPollView;

    open spec fn deep_view(&self) -> StreamPollView {
        match *self {
            StreamPoll::Event(event) => StreamPollView::Event(event.deep_view()),
            StreamPoll::Failed(words) => StreamPollView::Failed(words@),
            StreamPoll::Closed => StreamPollView::Closed,
            StreamPoll::Idle => StreamPollView::Idle,
        }
    }
}

/// What to do next for a response stream.
pub struct StreamAction {
    /// What to send, in order.
    pub sends: Vec<Result<ResponseEvent, ApiError>>,
    /// Whether the response stream ends once that is sent.
    pub last: bool,
}

/// What is sent on a response stream, by its texts.
pub open spec fn sent(message: Result<ResponseEvent, ApiError>) -> Result<
    ResponseEventView,
    ApiErrorView,
> {
    match message {
        Ok(event) => Ok(event.deep_view()),
        Err(error) => Err(error.deep_view()),
    }
}

/// Events as they are sent.
pub open spec fn sent_events(events: Seq<ResponseEventView>) -> Seq<
    Result<ResponseEventView, ApiErrorView>,
> {
    events.map_values(|event: ResponseEventView| Ok::<ResponseEventView, ApiErrorView>(event))
}

/// What `poll` makes of a pending message, what is sent for it, and whether the response stream
/// ends with that.
pub open spec fn poll_step(p: PendingView, poll: StreamPollView) -> (
    PendingView,
    Seq<Result<ResponseEventView, ApiErrorView>>,
    bool,
) {
    match poll {
        StreamPollView::Event(event) => (
            step(p, event).0,
            sent_events(step(p, event).1),
            false,
        ),
        StreamPollView::Failed(words) => (p, seq![Err(stream_failure(words))], true),
        StreamPollView::Closed => (p, Seq::empty(), true),
        StreamPollView::Idle => (
            p,
            seq![Err(ApiErrorView::Transport(TransportErrorView::Timeout))],
            true,
        ),
    }
}

/// Decides what to do next for a response stream.
pub fn on_poll(poll: StreamPoll, pending: &mut PendingAssistantMessage) -> (action: StreamAction)
    requires
        poll.deep_view() matches StreamPollView::Event(event) ==> takes_index(event) ==> old(
            pending,
        ).reasoning_content_index < u64::MAX,
    ensures
        final(pending).deep_view() == poll_step(old(pending).deep_view(), poll.deep_view()).0,
        action.sends@.map_values(|message: Result<ResponseEvent, ApiError>| sent(message))
            == poll_step(old(pending).deep_view(), poll.deep_view()).1,
        action.last == poll_step(old(pending).deep_view(), poll.deep_view()).2,
{
    let mut sends: Vec<Result<ResponseEvent, ApiError>> = Vec::new();
    match poll {
        StreamPoll::Event(event) => {
            let events: Vec<ResponseEvent> = chat_event_to_response_event(event, pending);
            StreamAction { sends: as_sends(events), last: false }
        },
        StreamPoll::Failed(words) => {
            sends.push(Err(stream_error(words.as_str())));
            StreamAction { sends, last: true }
        },
        StreamPoll::Closed => StreamAction { sends, last: true },
        StreamPoll::Idle => {
            sends.push(Err(ApiError::Transport(TransportError::Timeout)));
            StreamAction { sends, last: true }
        },
    }
}

/// Events as they are sent.
fn as_sends(events: Vec<ResponseEvent>) -> (sends: Vec<Result<ResponseEvent, ApiError>>)
    ensures
        sends@.map_values(|message: Result<ResponseEvent, ApiError>| sent(message)) == sent_events(
            events.deep_view(),
        ),
{
    let mut sends: Vec<Result<ResponseEvent, ApiError>> = Vec::new();
    let ghost all = events.deep_view();
    for event in iter: events
        invariant
            sends@.len() == iter.index(),
            all.len() == iter.seq().len(),
            forall|j: int| 0 <= j < all.len() ==> (#[trigger] iter.seq()[j]).deep_view() == all[j],
            forall|j: int|
                0 <= j < sends@.len() ==> sent(#[trigger] sends@[j]) == Ok::<
                    ResponseEventView,
                    ApiErrorView,
                >(all[j]),
    {
        sends.push(Ok(event));
    }
    proof {
        assert(sends@.map_values(|message: Result<ResponseEvent, ApiError>| sent(message))
            =~= sent_events(all));
    }
    sends
}

/// What is sent on a response stream that waits for the chat stream as often as `polls` says.
pub open spec fn session(p: PendingView, polls: Seq<StreamPollView>) -> Seq<
    Result<ResponseEventView, ApiErrorView>,
>
    decreases polls.len(),
{
    if polls.len() == 0 {
        Seq::empty()
    } else {
        let (q, sends, last) = poll_step(p, polls[0]);
        if last {
            sends
        } else {
            sends + session(q, polls.drop_first())
        }
    }
}

/// An error is the last thing that is sent on a response stream.
pub proof fn law_error_is_last(p: PendingView, polls: Seq<StreamPollView>)
    ensures
        forall|i: int|
            0 <= i < session(p, polls).len() - 1 ==> #[trigger] session(p, polls)[i] is Ok,
    decreases polls.len(),
{
    if polls.len() > 0 {
        let (q, sends, last) = poll_step(p, polls[0]);
        law_error_is_last(q, polls.drop_first());
        if !last {
            let rest = session(q, polls.drop_first());
            assert forall|i: int|
                0 <= i < session(p, polls).len() - 1 implies #[trigger] session(
                p,
                polls,
            )[i] is Ok by {
                if i >= sends.len() {
                    assert(session(p, polls)[i] == rest[i - sends.len()]);
                }
            }
        }
    }
}

/// The events of a chat stream as what waiting for it came to.
pub open spec fn as_polls(events: Seq<ChatStreamEventView>) -> Seq<StreamPollView> {
    events.map_values(|event: ChatStreamEventView| StreamPollView::Event(event))
}

/// A chat stream that fails, ends or is idle too long ends the response stream: the response
/// events for what came before are sent, then the error where there is one, and nothing that
/// would come later counts.
pub proof fn law_session_ends(
    p: PendingView,
    events: Seq<ChatStreamEventView>,
    stop: StreamPollView,
    later: Seq<StreamPollView>,
)
    requires
        !(stop is Event),
    ensures
        session(p, as_polls(events) + seq![stop] + later) == sent_events(run(p, events).1)
            + poll_step(run(p, events).0, stop).1,
    decreases events.len(),
{
    let polls = as_polls(events) + seq![stop] + later;
    if events.len() == 0 {
        assert(polls[0] == stop);
        assert(sent_events(Seq::empty()) =~= Seq::empty());
        assert(session(p, polls) =~= sent_events(run(p, events).1) + poll_step(
            run(p, events).0,
            stop,
        ).1);
    } else {
        let first = events[0];
        let rest = events.drop_first();
        let (q, out) = step(p, first);
        assert(polls[0] == StreamPollView::Event(first));
        assert(polls.drop_first() =~= as_polls(rest) + seq![stop] + later);
        law_session_ends(q, rest, stop, later);
        assert(events =~= seq![first] + rest);
        lemma_run_add(p, seq![first], rest);
        reveal_with_fuel(run, 2);
        assert(seq![first].drop_last() =~= Seq::empty());
        assert(run(p, seq![first]).1 =~= out);
        assert(sent_events(run(p, events).1) =~= sent_events(out) + sent_events(run(q, rest).1));
        assert(session(p, polls) =~= sent_events(run(p, events).1) + poll_step(
            run(p, events).0,
            stop,
        ).1);
    }
}

/// A request that asks for a reasoning effort gets the effort of the same name; one that asks for
/// more than the chat client knows gets the highest that it knows.
pub proof fn law_effort(request: ResponsesApiRequest, reasoning: Reasoning, effort: RequestedEffort)
    requires
        request.reasoning == Some(reasoning),
        reasoning.effort == Some(effort),
    ensures
        effort == RequestedEffort::Off ==> effort_option(request) == Some(ReasoningEffort::Off),
        effort == RequestedEffort::Minimal ==> effort_option(request) == Some(
            ReasoningEffort::Minimal,
        ),
        effort == RequestedEffort::Low ==> effort_option(request) == Some(ReasoningEffort::Low),
        effort == RequestedEffort::Medium ==> effort_option(request) == Some(
            ReasoningEffort::Medium,
        ),
        effort == RequestedEffort::High ==> effort_option(request) == Some(ReasoningEffort::High),
        effort == RequestedEffort::XHigh ==> effort_option(request) == Some(ReasoningEffort::High),
{
}

/// Each effort up to the highest that the chat client knows stands for itself, so different ones
/// stay different; the one above it stands for the highest.
pub proof fn law_efforts_apart(a: RequestedEffort, b: RequestedEffort)
    ensures
        chat_effort(a) == ReasoningEffort::Off <==> a == RequestedEffort::Off,
        chat_effort(a) == ReasoningEffort::Minimal <==> a == RequestedEffort::Minimal,
        chat_effort(a) == ReasoningEffort::Low <==> a == RequestedEffort::Low,
        chat_effort(a) == ReasoningEffort::Medium <==> a == RequestedEffort::Medium,
        chat_effort(a) == chat_effort(b) ==> a == b || (chat_effort(a) == ReasoningEffort::High
            && (a == RequestedEffort::XHigh || b == RequestedEffort::XHigh)),
{
}

/// Only its own name stands for the flexible and for the automatic tier, and each verbosity stands
/// for the one of the same name.
pub proof fn law_names_apart(name: Seq<char>, verbosity: OpenAiVerbosity)
    ensures
        named_tier(name) == ServiceTier::Flex <==> name == "flex"@,
        named_tier(name) == ServiceTier::Auto <==> name == "auto"@,
        chat_verbosity(verbosity) == Verbosity::Low <==> verbosity == OpenAiVerbosity::Low,
        chat_verbosity(verbosity) == Verbosity::Medium <==> verbosity == OpenAiVerbosity::Medium,
        chat_verbosity(verbosity) == Verbosity::High <==> verbosity == OpenAiVerbosity::High,
{
    reveal_strlit("flex");
    reveal_strlit("auto");
    assert("flex"@[0] == 'f');
    assert("auto"@[0] == 'a');
}

/// The service tier of a request is set exactly where the request names one: flexible or automatic
/// where that is its name, the default for every other name.
pub proof fn law_service_tier(request: ResponsesApiRequest)
    ensures
        match request.service_tier {
            Some(name) => {
                &&& tier_option(request) is Some
                &&& tier_option(request) == Some(ServiceTier::Flex) <==> name@ == "flex"@
                &&& tier_option(request) == Some(ServiceTier::Auto) <==> name@ == "auto"@
            },
            None => tier_option(request) is None,
        },
{
    reveal_strlit("flex");
    reveal_strlit("auto");
    assert("flex"@[0] == 'f');
    assert("auto"@[0] == 'a');
}

/// The verbosity of a request is the one that it asks for, and the form of the answer has the name
/// and the schema that it asks for. What a request does not ask for is not set.
pub proof fn law_text_options(request: ResponsesApiRequest)
    ensures
        request.text is None ==> verbosity_option(request) is None && format_option(
            request,
        ) is None,
        request.text matches Some(text) ==> {
            &&& text.verbosity is None ==> verbosity_option(request) is None
            &&& text.verbosity == Some(OpenAiVerbosity::Low) ==> verbosity_option(request) == Some(
                Verbosity::Low,
            )
            &&& text.verbosity == Some(OpenAiVerbosity::Medium) ==> verbosity_option(request)
                == Some(Verbosity::Medium)
            &&& text.verbosity == Some(OpenAiVerbosity::High) ==> verbosity_option(request) == Some(
                Verbosity::High,
            )
            &&& text.format is None ==> format_option(request) is None
            &&& text.format matches Some(format) ==> {
                &&& format_option(request) matches Some(asked)
                &&& asked.name == format.name@
                &&& asked.description is None
                &&& asked.schema == json_tree(format.schema)
            }
        },
        request.reasoning is None ==> effort_option(request) is None,
        request.reasoning matches Some(reasoning) ==> reasoning.effort is None ==> effort_option(
            request,
        ) is None,
{
}

/// An event of the chat stream has its response events sent, each as it is and in order, and the
/// response stream goes on. A failure, the end and idleness leave what is pending and end it: with
/// the chat client's words, with nothing, and with a timeout.
pub proof fn law_polls(p: PendingView, poll: StreamPollView)
    ensures
        ({
            let (q, sends, last) = poll_step(p, poll);
            match poll {
                StreamPollView::Event(event) => {
                    &&& q == step(p, event).0
                    &&& !last
                    &&& sends.len() == step(p, event).1.len()
                    &&& forall|i: int|
                        0 <= i < sends.len() ==> ((#[trigger] sends[i]) matches Ok(sent)
                            && sent == step(p, event).1[i])
                },
                StreamPollView::Failed(words) => {
                    &&& q == p
                    &&& last
                    &&& sends.len() == 1
                    &&& sends[0] matches Err(ApiErrorView::Transport(error))
                    &&& error == TransportErrorView::Network("genai stream error: "@ + words)
                },
                StreamPollView::Closed => q == p && last && sends.len() == 0,
                StreamPollView::Idle => {
                    &&& q == p
                    &&& last
                    &&& sends.len() == 1
                    &&& sends[0] matches Err(ApiErrorView::Transport(error))
                    &&& error == TransportErrorView::Timeout
                },
            }
        }),
{
}

/// The errors in words: a request without a convertible message is invalid, and a stream that
/// failed is a network error with the chat client's words.
pub proof fn law_errors(words: Seq<char>)
    ensures
        nothing_to_send() matches ApiErrorView::InvalidRequest { message } && message
            == "No convertible messages in request"@,
        stream_failure(words) matches ApiErrorView::Transport(error) && error
            == TransportErrorView::Network("genai stream error: "@ + words),
{
}

} // verus!
