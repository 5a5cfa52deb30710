//! Verified core of a Chat Completions compatibility layer: conversions
//! between Chat Completions and Responses API payloads, the rules that decide
//! retries and back-off after transport errors, the translation of a Responses
//! event stream into Chat Completions chunks, and the decisions behind the
//! human-readable event output.

pub mod chat_to_responses;
pub mod chat_stream;
pub mod chat_types;
pub mod clock;
pub mod endpoint;
pub mod human_output;
pub mod integer_math;
pub mod json;
pub mod nearest_double;
pub mod protocol;
pub mod request_builder;
pub mod proxy;
pub mod responses_to_chat;
pub mod retry;
pub mod text;
