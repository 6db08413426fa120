//! An adapter between the Responses API, which callers speak, and the Chat Completions API, which
//! the endpoint speaks: requests go one way, streamed events come back the other.

pub mod chat;
pub mod content;
pub mod content_laws;
pub mod contract_laws;
pub mod conversion_laws;
pub mod event_laws;
pub mod group_laws;
pub mod headers;
pub mod json;
pub mod json_laws;
pub mod protocol;
pub mod reasoning_laws;
pub mod replay_laws;
pub mod report;
pub mod request;
pub mod request_laws;
pub mod session;
pub mod session_laws;
pub mod stream;
pub mod stream_laws;
pub mod text;
pub mod text_laws;
pub mod tool_calls;
pub mod tools;
pub mod view_laws;
pub mod wire_laws;
