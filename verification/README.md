# codex_chat_compat

A verified library for a Chat Completions compatibility layer in front of a
Responses API backend, written in Verus.

`src/` holds the verified library:

- `chat_to_responses`, `responses_to_chat`: the two conversions between Chat
  Completions and Responses API payloads, with laws relating them (tool calls
  survive the round trip; system messages reach only the instructions).
- `chat_stream`: the translation of a Responses event stream into Chat
  Completions chunks, with the framing of server-sent events.
- `request_builder`, `endpoint`: the streaming request the client sends for a
  prompt.
- `retry`: which transport errors are retried, the delay an error's
  rate-limit headers ask for (waited only after a 429 response), and
  exponential back-off with jitter, capped at 60 seconds.
- `nearest_double`: decimal numbers of seconds read as IEEE 754 doubles
  (nearest double, ties to even, infinite past the largest one), computed
  exactly on decimal digit strings.
- `proxy`: the proxy's routing, header and error-body rules.
- `human_output`: what the non-interactive run prints for each server
  notification, and the statistics and final message at the end.
- `integer_math`: factorials and Fibonacci numbers.
- `json`, `protocol`, `chat_types`, `text`, `clock`: the data the others share.

`app/` is the program around it: serde wire formats, the HTTP proxy, terminal
output, the asynchronous retry loop and the floating-point helpers.

`tests/` runs the library on concrete values.
