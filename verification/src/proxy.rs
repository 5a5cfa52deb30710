//! The decisions of the Responses API proxy: which requests it serves, which
//! headers it forwards, how it answers a failed conversion, and how a
//! Responses API reply becomes a Chat Completions reply. The socket and HTTP
//! client work stays with the program around the library.

use vstd::prelude::*;
use vstd::string::*;
use crate::chat_to_responses::ConversionError;
use crate::chat_types::ChatCompletionResponse;
use crate::json::{json_view, JsonV, JsonValue};
use crate::protocol::{ResponseItem, TokenUsage};
use crate::responses_to_chat::{convert_responses_to_chat, converted_response};
use crate::text::{ascii_lower, decimal_text, push_decimal, str_eq, to_ascii_lowercase};

verus! {

/// CLI arguments for the proxy.
#[derive(Debug, Clone, PartialEq)]
pub struct Args {
    /// Port to listen on. If not set, an ephemeral port is used.
    pub port: Option<u16>,
    /// Path of a JSON file to write startup info to.
    pub server_info: Option<String>,
    /// Enable the HTTP shutdown endpoint at GET /shutdown.
    pub http_shutdown: bool,
    /// Absolute URL the proxy forwards requests to.
    pub upstream_url: String,
    /// Directory where request/response dumps are written.
    pub dump_dir: Option<String>,
}

/// Where an incoming request goes.
#[derive(Debug, Clone, Copy, PartialEq, Eq, Structural)]
pub enum ProxyRoute {
    /// Answered with 403.
    Forbidden,
    /// `POST /v1/responses`, passed through.
    Responses,
    /// `POST /v1/chat/completions`, converted.
    ChatCompletions,
}

pub open spec fn route_of(method: Seq<char>, path: Seq<char>) -> ProxyRoute {
    if method == "POST"@ && path == "/v1/responses"@ {
        ProxyRoute::Responses
    } else if method == "POST"@ && path == "/v1/chat/completions"@ {
        ProxyRoute::ChatCompletions
    } else {
        ProxyRoute::Forbidden
    }
}

/// Only `POST /v1/responses` and `POST /v1/chat/completions` are served.
pub fn route_request(method: &str, path: &str) -> (res: ProxyRoute)
    ensures
        res == route_of(method@, path@),
{
    if str_eq(method, "POST") {
        if str_eq(path, "/v1/responses") {
            return ProxyRoute::Responses;
        }
        if str_eq(path, "/v1/chat/completions") {
            return ProxyRoute::ChatCompletions;
        }
    }
    ProxyRoute::Forbidden
}

/// Why the proxy refuses a request itself, before anything reaches upstream.
#[derive(Debug, Clone, Copy, PartialEq, Eq, Structural)]
pub enum Refusal {
    /// The route is not served.
    UnsupportedRoute,
    /// The body is no JSON text of a chat request.
    InvalidJson,
    /// The chat request cannot be converted to a Responses API request.
    ConversionFailed,
}

/// The status of each refusal: 403 for an unsupported route, 400 for a
/// body that is no valid chat request and for one that cannot be converted.
pub open spec fn refusal_status_code(r: Refusal) -> u16 {
    match r {
        Refusal::UnsupportedRoute => 403,
        Refusal::InvalidJson => 400,
        Refusal::ConversionFailed => 400,
    }
}

/// The HTTP status the proxy answers a refusal with.
pub fn refusal_status(r: Refusal) -> (res: u16)
    ensures
        res == refusal_status_code(r),
{
    match r {
        Refusal::UnsupportedRoute => 403,
        Refusal::InvalidJson => 400,
        Refusal::ConversionFailed => 400,
    }
}

/// Whether the shutdown endpoint answers this request.
pub fn is_shutdown_request(http_shutdown: bool, method: &str, path: &str) -> (res: bool)
    ensures
        res == (http_shutdown && method@ == "GET"@ && path@ == "/shutdown"@),
{
    http_shutdown && str_eq(method, "GET") && str_eq(path, "/shutdown")
}

pub open spec fn forwards_request_header_name(name: Seq<char>) -> bool {
    ascii_lower(name) != "authorization"@ && ascii_lower(name) != "host"@
}

/// Incoming headers are forwarded upstream except `Authorization` and `Host`
/// (in any letter case), which the proxy sets itself.
pub fn forwards_request_header(name: &str) -> (res: bool)
    ensures
        res == forwards_request_header_name(name@),
{
    let lower = to_ascii_lowercase(name);
    !str_eq(lower.as_str(), "authorization") && !str_eq(lower.as_str(), "host")
}

pub open spec fn forwards_response_header_name(name: Seq<char>) -> bool {
    name != "content-length"@ && name != "transfer-encoding"@ && name != "connection"@ && name
        != "trailer"@ && name != "upgrade"@
}

/// Upstream response headers are copied back except those the HTTP server
/// manages itself.
pub fn forwards_response_header(name: &str) -> (res: bool)
    ensures
        res == forwards_response_header_name(name@),
{
    !(str_eq(name, "content-length") || str_eq(name, "transfer-encoding") || str_eq(
        name,
        "connection",
    ) || str_eq(name, "trailer") || str_eq(name, "upgrade"))
}

pub open spec fn host_header_text(host: Option<Seq<char>>, port: Option<u16>) -> Option<Seq<char>> {
    match host {
        Some(h) => match port {
            Some(p) => Some(h + seq![':'] + decimal_text(p as nat)),
            None => Some(h),
        },
        None => None,
    }
}

/// The `Host` header for the upstream URL: `host:port` when the URL names a
/// port, `host` otherwise; `None` when the URL has no host.
pub fn upstream_host_header(host: Option<&str>, port: Option<u16>) -> (res: Option<String>)
    ensures
        res.deep_view() == host_header_text(
            match host {
                Some(h) => Some(h@),
                None => None,
            },
            port,
        ),
{
    match host {
        Some(h) => {
            let mut s = String::from_str(h);
            if let Some(p) = port {
                s.append(":");
                assert(":"@ == seq![':']) by {
                    reveal_strlit(":");
                }
                push_decimal(&mut s, p as u64);
            }
            Some(s)
        },
        None => None,
    }
}

pub open spec fn error_body_json(message: Seq<char>) -> JsonV {
    JsonV::Object(seq![("error"@, JsonV::Str(message))])
}

/// The JSON body `{"error": message}` of an error reply.
pub fn error_body(message: String) -> (res: JsonValue)
    ensures
        res.deep_view() == error_body_json(message@),
{
    let ghost text = message@;
    let mut members: Vec<(String, JsonValue)> = Vec::new();
    members.push((String::from_str("error"), JsonValue::Str(message)));
    let res = JsonValue::Object(members);
    assert(res.deep_view() == error_body_json(text)) by {
        assert(json_view(members@[0].1) == JsonV::Str(text));
        if let JsonV::Object(ms) = res.deep_view() {
            assert(ms =~= seq![("error"@, JsonV::Str(text))]);
        }
    }
    res
}

/// The body of the 403 reply to a request on an unsupported route.
pub fn forbidden_body() -> (res: JsonValue)
    ensures
        res.deep_view() == error_body_json("forbidden: route not supported"@),
{
    error_body(String::from_str("forbidden: route not supported"))
}

/// The body of the reply when a chat request cannot be converted.
pub fn conversion_failure_body(e: &ConversionError) -> (res: JsonValue)
    ensures
        res.deep_view() == error_body_json("conversion failed: "@ + e.message_text()),
{
    let mut msg = String::from_str("conversion failed: ");
    let detail = e.message();
    msg.append(detail.as_str());
    error_body(msg)
}

/// Upstream replies with a client or server error status (400..=599) are
/// passed back unchanged.
pub fn passes_upstream_error(status: u16) -> (res: bool)
    ensures
        res == (400 <= status <= 599),
{
    400 <= status && status <= 599
}

/// A Responses API reply as the proxy reads it.
#[derive(Debug, PartialEq)]
pub struct UpstreamResponse {
    pub id: String,
    pub model: Option<String>,
    pub created_at: Option<u64>,
    pub output: Vec<ResponseItem>,
    pub status: Option<String>,
    pub usage: Option<TokenUsage>,
}

/// The Chat Completions reply for a non-streaming Responses API reply: the
/// creation time defaults to now and the status to `completed`.
pub fn chat_response_from_upstream(resp: &UpstreamResponse, model: &str) -> (res: ChatCompletionResponse)
    ensures
        (match resp.created_at {
            Some(c) => c > 0,
            None => false,
        }) ==> res.created == resp.created_at->0,
        res.deep_view() == converted_response(
            resp.id@,
            model@,
            res.created,
            resp.output.deep_view(),
            match resp.status {
                Some(s) => s@,
                None => "completed"@,
            },
            resp.usage,
        ),
{
    let created_at = match resp.created_at {
        Some(c) => c,
        None => 0,
    };
    let completed = String::from_str("completed");
    let status: &str = match &resp.status {
        Some(s) => s.as_str(),
        None => completed.as_str(),
    };
    let usage = match &resp.usage {
        Some(u) => Some(u),
        None => None,
    };
    convert_responses_to_chat(resp.id.as_str(), model, created_at, resp.output.as_slice(), status, usage)
}

} // verus!
