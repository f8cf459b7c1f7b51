//! Bridge between the item-based protocol of a coding agent and a chat client that speaks to
//! many providers.

pub mod chat;
pub mod convert_request;
pub mod convert_response;
pub mod event_laws;
pub mod gather;
pub mod headers;
pub mod item_laws;
pub mod json;
pub mod protocol;
pub mod request_laws;
pub mod resolver;
pub mod response_laws;
pub mod stream;
pub mod text;
pub mod types;
pub mod view_laws;
