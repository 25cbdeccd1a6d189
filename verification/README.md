# openai-proxy

An OpenAI-compatible proxy that serves the Chat Completions API on top of the
ChatGPT Codex backend, the OpenAI Responses API or the OpenAI Chat Completions
API, with optional skill injection, MCP tools, webhooks and AG-UI / ACP / A2A
front ends.

## Layout

- `src/` — the core of the proxy, written in Verus and verified: request
  conversion between the wire formats, the model catalogue, streaming event
  conversion and accumulation, SSE framing, skill tokenising and ranking,
  MCP dispatch, hook payloads, configuration layering and the text the CLI
  prints. Each public function states its result in its `ensures`; the
  `law_*` proof functions state properties that span several calls.
- `app/` — the server and CLI around the library: HTTP handlers (axum),
  upstream requests (reqwest), the MCP and ACP transports, file and
  environment access, JSON and TOML parsing (serde), and skill scoring,
  which is floating-point.
- `tests/` — tests of the library on concrete values.

Calls into outside crates that the library makes (`dirs`, `uuid`, and a few
`std` functions) go through small trusted wrappers whose contracts are
stated next to them.
