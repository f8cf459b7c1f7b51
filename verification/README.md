# genai_bridge

A bridge between the item-based protocol of a coding agent and the `genai` chat client, which
speaks to many providers. The logic is verified with Verus.

- `src/protocol.rs`, `src/chat.rs`: the types on the agent's side and on the chat client's side.
- `src/convert_request.rs`: a request with its conversation and tools becomes a chat request.
- `src/convert_response.rs`, `src/types.rs`: each event of a chat stream becomes response events,
  with what is pending of the message in between.
- `src/resolver.rs`: endpoint, key and headers of a request.
- `src/stream.rs`: options of a request, its refusal, and what to do on each poll of its stream.
- `src/request_laws.rs`, `src/response_laws.rs`: what holds of whole conversations and whole
  response streams.
- `src/json.rs`, `src/headers.rs`: what is taken on trust of `serde_json`, `http` and `genai`.
- `src/text.rs`, `src/gather.rs`: text and list helpers.
- `app/`: the ordinary Rust around the library, which makes the client and runs the stream.
