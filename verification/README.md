# codex_api

An adapter between two APIs of language models. Callers speak the Responses API; the endpoint
speaks Chat Completions. The library turns a request of the one into a request of the other, and
the stream of chunks that comes back into response events. It is verified with Verus.

| Module | What it does |
|---|---|
| `protocol` | conversation items, requests, events and errors |
| `chat` | the chat request and its JSON form |
| `request`, `content`, `tool_calls`, `tools` | from conversations and tools to the chat request |
| `stream` | from the chunks of a stream to response events |
| `session` | one streamed response, step by step |
| `headers` | the headers of requests and responses |
| `report` | which messages carry reasoning |
| `json`, `text` | plain JSON values, text helpers |
| `request_laws`, `reasoning_laws`, `wire_laws`, `stream_laws`, `session_laws`, `replay_laws` | what holds across functions |

Every type that holds text has a model in which texts are sequences of characters, and
`deep_view` leads to it. The contracts speak of these models: `chat_request` says what a request
becomes, `step` what a streamed response does next.

Some of what the laws state:

* A message that calls tools is followed by one answer to each call; a run of calls without all
  its outputs is left out.
* Nothing that was said is lost or reordered.
* One reasoning text goes to one message of the assistant, and to no other.
* The reasoning that a message of the assistant or an answered tool call carries goes out again.
* A streamed message is started and finished under one id, and its text is the text that was
  passed on.
* A finished response goes back to the model, in the next request, with its text, its tool calls
  and its reasoning.

`app/` is the client around the library: the connection, the decoding of chunks, and the task
that drives a stream. It is ordinary Rust.

Trusted without proof are the contracts of `http::HeaderMap`, `http::HeaderName` and
`http::HeaderValue` in `headers`.
