# halter_providers

Adapters between an agent runtime and the HTTP APIs of model providers
(Anthropic Messages, OpenAI Responses and Chat, OpenRouter), with the decisions
proved in Verus.

`src/` holds everything that decides or computes: how a conversation becomes a
request body, how replies and event streams become events, which failures are
worth another attempt and how long to wait for it, how a shared rate budget is
divided, and how a panel of models is asked and judged. Every function states
what it returns; laws that span functions are public proof functions whose names
start with `law_`.

`app/` is ordinary asynchronous Rust around it: sockets, clocks, locks, tasks.
It performs what the library decides and hands back what happened.

| Modules | What they cover |
| --- | --- |
| `protocol`, `content`, `capabilities`, `ids`, `time`, `secret` | the values that requests, replies and errors are made of |
| `json`, `text`, `hash`, `headers` | JSON values, text, digests and header maps |
| `naturals`, `doubles`, `decimals` | whole numbers of any size, numbers of double precision, and how they are written |
| `anthropic`, `anthropic_codec`, `anthropic_stream` | the Messages API |
| `openai`, `openrouter`, `responses_provider`, `responses_transport`, `openai_codec`, `response_events`, `openai_stream` | the Responses API |
| `openai_chat` | the Chat API |
| `codec_common`, `keyed`, `brackets`, `message_collector` | what the codecs share |
| `http_client`, `http_message`, `header_overrides` | requests over HTTP and their replies |
| `openai_error`, `retry`, `resilience` | which failures pass, and what follows them |
| `openai_rate_limit_policy`, `openai_rate_limit` | rate budgets |
| `model_judge`, `registry`, `fake`, `unsupported` | panels, lookup and providers without a network |
| `anthropic_laws`, `openai_laws`, `openai_message_laws`, `reply_laws`, `request_laws`, `resilience_laws` | laws that span several of these |

Outside crates are called through small wrappers marked
`#[verifier::external_body]`. Each says in its doc comment what is taken on trust
about the function that it calls.
