//! The client of the Chat Completions streaming endpoint: what it holds and
//! the request it sends for a prompt.

use vstd::prelude::*;
use crate::json::JsonValue;
use crate::protocol::ResponseItem;
use crate::request_builder::{
    chat_body, request_headers, ApiError, ChatRequest, ChatRequestBuilder, Provider, SessionSource,
};
use crate::text::ascii_lower;

verus! {

/// A client of the Chat Completions endpoint over the transport `T`, with the
/// credentials `A` and optional request and stream telemetry `R` and `S`.
pub struct ChatClient<T, A, R, S> {
    transport: T,
    provider: Provider,
    auth: A,
    request_telemetry: Option<R>,
    sse_telemetry: Option<S>,
}

impl<T, A, R, S> ChatClient<T, A, R, S> {
    pub closed spec fn spec_transport(&self) -> T {
        self.transport
    }

    pub closed spec fn spec_provider(&self) -> Provider {
        self.provider
    }

    pub closed spec fn spec_auth(&self) -> A {
        self.auth
    }

    pub closed spec fn spec_request_telemetry(&self) -> Option<R> {
        self.request_telemetry
    }

    pub closed spec fn spec_sse_telemetry(&self) -> Option<S> {
        self.sse_telemetry
    }

    /// A client for `provider` over `transport`, with no telemetry.
    pub fn new(transport: T, provider: Provider, auth: A) -> (res: Self)
        ensures
            res.spec_transport() == transport,
            res.spec_provider() == provider,
            res.spec_auth() == auth,
            res.spec_request_telemetry() is None,
            res.spec_sse_telemetry() is None,
    {
        ChatClient { transport, provider, auth, request_telemetry: None, sse_telemetry: None }
    }

    /// The same client with the given request and stream telemetry.
    pub fn with_telemetry(self, request: Option<R>, sse: Option<S>) -> (res: Self)
        ensures
            res.spec_transport() == self.spec_transport(),
            res.spec_provider() == self.spec_provider(),
            res.spec_auth() == self.spec_auth(),
            res.spec_request_telemetry() == request,
            res.spec_sse_telemetry() == sse,
    {
        ChatClient {
            transport: self.transport,
            provider: self.provider,
            auth: self.auth,
            request_telemetry: request,
            sse_telemetry: sse,
        }
    }

    /// The endpoint's path below the provider's base URL.
    pub fn path() -> (res: &'static str)
        ensures
            res@ == "chat/completions"@,
    {
        "chat/completions"
    }

    pub fn transport(&self) -> (res: &T)
        ensures
            *res == self.spec_transport(),
    {
        &self.transport
    }

    pub fn provider(&self) -> (res: &Provider)
        ensures
            *res == self.spec_provider(),
    {
        &self.provider
    }

    pub fn auth(&self) -> (res: &A)
        ensures
            *res == self.spec_auth(),
    {
        &self.auth
    }

    pub fn request_telemetry(&self) -> (res: &Option<R>)
        ensures
            *res == self.spec_request_telemetry(),
    {
        &self.request_telemetry
    }

    pub fn sse_telemetry(&self) -> (res: &Option<S>)
        ensures
            *res == self.spec_sse_telemetry(),
    {
        &self.sse_telemetry
    }

    /// The request that streaming a prompt sends: the builder's request for
    /// the prompt and this client's provider.
    pub fn prompt_request(
        &self,
        model: &str,
        instructions: &str,
        input: &[ResponseItem],
        tools: &[JsonValue],
        conversation_id: Option<String>,
        session_source: Option<SessionSource>,
    ) -> (res: Result<ChatRequest, ApiError>)
        ensures
            res matches Ok(req) && req.body.deep_view() == chat_body(
                model@,
                instructions@,
                input.deep_view(),
                tools.deep_view(),
            ) && req.headers.deep_view() == request_headers(session_source),
    {
        ChatRequestBuilder::new(model, instructions, input, tools).conversation_id(conversation_id).session_source(
            session_source,
        ).build(&self.provider)
    }
}

/// The headers of a streaming call: the extra headers without any `accept`
/// header, then `accept: text/event-stream`.
pub open spec fn event_stream_headers(extra: Seq<(Seq<char>, Seq<char>)>) -> Seq<(Seq<char>, Seq<char>)> {
    extra.filter(|h: (Seq<char>, Seq<char>)| ascii_lower(h.0) != "accept"@).push(("accept"@, "text/event-stream"@))
}

/// The headers of a streaming call, as the request is prepared: `accept`
/// set to `text/event-stream`, replacing any `accept` header among the
/// extra ones.
pub fn with_event_stream_accept(extra: Vec<(String, String)>) -> (res: Vec<(String, String)>)
    ensures
        res.deep_view() == event_stream_headers(extra.deep_view()),
{
    let ghost ev = extra.deep_view();
    let mut out: Vec<(String, String)> = Vec::new();
    let n = extra.len();
    let mut i: usize = 0;
    while i < n
        invariant
            n == extra@.len(),
            i <= n,
            ev == extra.deep_view(),
            out.deep_view() == ev.take(i as int).filter(
                |h: (Seq<char>, Seq<char>)| ascii_lower(h.0) != "accept"@,
            ),
        decreases n - i,
    {
        let name = crate::text::to_ascii_lowercase(extra[i].0.as_str());
        let keep = !crate::text::str_eq(name.as_str(), "accept");
        let ghost before = out.deep_view();
        if keep {
            out.push((extra[i].0.clone(), extra[i].1.clone()));
        }
        proof {
            assert(ev.take(i + 1).drop_last() =~= ev.take(i as int));
            assert(ev[i as int] == extra@[i as int].deep_view());
            reveal(Seq::filter);
            if keep {
                assert(out.deep_view() =~= before.push(ev[i as int]));
            } else {
                assert(out.deep_view() =~= before);
            }
        }
        i = i + 1;
    }
    assert(ev.take(n as int) =~= ev);
    out.push((String::from_str("accept"), String::from_str("text/event-stream")));
    out
}

} // verus!
