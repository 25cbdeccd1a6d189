//! The MCP server surface: JSON-RPC 2.0 messages, the tool catalogue, the
//! synchronous tools and the routing of requests.
use vstd::prelude::*;
use crate::codex::{
    map_model, opt_str_view, spec_resolve_model, BackendProfile, CodexAuth, ResponseStreamEvent,
};
use crate::json::{
    json_as_str, json_as_u64, json_at, json_entries_view, json_get, json_index, lemma_entries_empty,
    push_elem, push_entry, Json, JsonV,
};
use crate::openai::{ChatCompletionRequest, Message};
use crate::text::{
    concat, contains, decimal, decimal_string, owned, seq_contains, str_eq, to_lowercase,
    unicode_lowercase,
};

verus! {

broadcast use vstd::string::group_string_axioms;

// ---------------------------------------------------------------------------
// JSON-RPC 2.0
// ---------------------------------------------------------------------------

/// An incoming JSON-RPC request (`params` is `null` when absent).
#[derive(Debug)]
pub struct JsonRpcRequest {
    pub jsonrpc: String,
    pub id: Option<Json>,
    pub method: String,
    pub params: Json,
}

/// The error member of a JSON-RPC response.
#[derive(Debug)]
pub struct JsonRpcError {
    pub code: i32,
    pub message: String,
}

/// A JSON-RPC response: exactly one of `result` and `error` is set.
#[derive(Debug)]
pub struct JsonRpcResponse {
    pub jsonrpc: &'static str,
    pub id: Option<Json>,
    pub result: Option<Json>,
    pub error: Option<JsonRpcError>,
}

/// The decimal text of an integer, with a leading `-` when negative.
pub open spec fn int_text(n: int) -> Seq<char> {
    if n < 0 {
        "-"@ + decimal((-n) as nat)
    } else {
        decimal(n as nat)
    }
}

fn i32_text(n: i32) -> (r: String)
    ensures
        r@ == int_text(n as int),
{
    let m: i64 = n as i64;
    if m < 0 {
        let d = decimal_string((-m) as u64);
        concat("-", d.as_str())
    } else {
        decimal_string(m as u64)
    }
}

/// The entries of an object value (none for other values).
pub open spec fn members(v: JsonV) -> Seq<(Seq<char>, JsonV)> {
    match v {
        JsonV::Object(es) => es,
        _ => Seq::empty(),
    }
}

/// The serialised form of a response: `jsonrpc`, then `id`, `result` and
/// `error` when present.
pub open spec fn spec_response_json(jsonrpc: Seq<char>, id: Option<JsonV>, result: Option<JsonV>, error: Option<(int, Seq<char>)>) -> JsonV {
    JsonV::Object(
        seq![("jsonrpc"@, JsonV::Str(jsonrpc))]
        + match id { Some(i) => seq![("id"@, i)], None => Seq::empty() }
        + match result { Some(r) => seq![("result"@, r)], None => Seq::empty() }
        + match error {
            Some((c, m)) => seq![("error"@, JsonV::Object(seq![("code"@, JsonV::Number(int_text(c))), ("message"@, JsonV::Str(m))]))],
            None => Seq::empty(),
        }
    )
}

/// The view of an optional JSON value.
pub open spec fn opt_json(o: Option<Json>) -> Option<JsonV> {
    match o {
        Some(j) => Some(j@),
        None => None,
    }
}

/// The view of an optional error member.
pub open spec fn opt_error(o: Option<JsonRpcError>) -> Option<(int, Seq<char>)> {
    match o {
        Some(e) => Some((e.code as int, e.message@)),
        None => None,
    }
}

fn clone_opt_json(o: &Option<Json>) -> (r: Option<Json>)
    ensures
        opt_json(r) == opt_json(*o),
{
    match o {
        Some(j) => Some(j.deep_clone()),
        None => None,
    }
}

impl JsonRpcResponse {
    /// A success response.
    pub fn ok(id: Option<Json>, result: Json) -> (r: JsonRpcResponse)
        ensures
            r.jsonrpc@ == "2.0"@,
            r.id == id,
            r.result == Some(result),
            r.error is None,
    {
        JsonRpcResponse { jsonrpc: "2.0", id, result: Some(result), error: None }
    }

    /// An error response.
    pub fn err(id: Option<Json>, code: i32, message: String) -> (r: JsonRpcResponse)
        ensures
            r.jsonrpc@ == "2.0"@,
            r.id == id,
            r.result is None,
            r.error matches Some(e) && e.code == code && e.message == message,
    {
        JsonRpcResponse { jsonrpc: "2.0", id, result: None, error: Some(JsonRpcError { code, message }) }
    }

    /// A notification message (no `id`).
    pub fn notification(method: &str, params: Json) -> (r: Json)
        ensures
            r@ == JsonV::Object(seq![
                ("jsonrpc"@, JsonV::Str("2.0"@)),
                ("method"@, JsonV::Str(method@)),
                ("params"@, params@),
            ]),
    {
        let mut es: Vec<(String, Json)> = Vec::new();
        proof {
            lemma_entries_empty();
        }
        push_entry(&mut es, "jsonrpc", Json::string("2.0"));
        push_entry(&mut es, "method", Json::string(method));
        let ghost pv = params@;
        push_entry(&mut es, "params", params);
        assert(json_entries_view(es@) =~= seq![
            ("jsonrpc"@, JsonV::Str("2.0"@)),
            ("method"@, JsonV::Str(method@)),
            ("params"@, pv),
        ]);
        Json::Object(es)
    }

    /// The JSON value of this response, absent members left out.
    pub fn to_json(&self) -> (r: Json)
        ensures
            r@ == spec_response_json(self.jsonrpc@, opt_json(self.id), opt_json(self.result), opt_error(self.error)),
    {
        let mut es: Vec<(String, Json)> = Vec::new();
        proof {
            lemma_entries_empty();
        }
        push_entry(&mut es, "jsonrpc", Json::string(self.jsonrpc));
        let ghost p1: Seq<(Seq<char>, JsonV)> = seq![("jsonrpc"@, JsonV::Str(self.jsonrpc@))];
        let ghost p2: Seq<(Seq<char>, JsonV)> = match opt_json(self.id) { Some(i) => seq![("id"@, i)], None => Seq::empty() };
        let ghost p3: Seq<(Seq<char>, JsonV)> = match opt_json(self.result) { Some(r) => seq![("result"@, r)], None => Seq::empty() };
        let ghost p4: Seq<(Seq<char>, JsonV)> = match opt_error(self.error) {
            Some((c, m)) => seq![("error"@, JsonV::Object(seq![("code"@, JsonV::Number(int_text(c))), ("message"@, JsonV::Str(m))]))],
            None => Seq::empty(),
        };
        assert(json_entries_view(es@) =~= p1);
        match &self.id {
            Some(i) => push_entry(&mut es, "id", i.deep_clone()),
            None => {},
        }
        assert(json_entries_view(es@) =~= p1 + p2);
        match &self.result {
            Some(x) => push_entry(&mut es, "result", x.deep_clone()),
            None => {},
        }
        assert(json_entries_view(es@) =~= p1 + p2 + p3);
        match &self.error {
            Some(e) => {
                let mut ee: Vec<(String, Json)> = Vec::new();
                push_entry(&mut ee, "code", Json::Number(i32_text(e.code)));
                push_entry(&mut ee, "message", Json::string(e.message.as_str()));
                assert(json_entries_view(ee@) =~= seq![("code"@, JsonV::Number(int_text(e.code as int))), ("message"@, JsonV::Str(e.message@))]);
                push_entry(&mut es, "error", Json::Object(ee));
            },
            None => {},
        }
        assert(json_entries_view(es@) =~= p1 + p2 + p3 + p4);
        Json::Object(es)
    }
}

// ---------------------------------------------------------------------------
// Tool catalogue
// ---------------------------------------------------------------------------

/// The `chat_completion` tool: messages, optional model, token limit and temperature.
pub open spec fn spec_chat_completion_def() -> JsonV {
    JsonV::Object(Seq::empty()
        .push(("name"@, JsonV::Str("chat_completion"@)))
        .push(("description"@, JsonV::Str("Send a chat completion request through the openai-proxy to the Codex backend using your ChatGPT subscription. Returns the assistant's response text."@)))
        .push(("inputSchema"@, JsonV::Object(Seq::empty()
            .push(("type"@, JsonV::Str("object"@)))
            .push(("properties"@, JsonV::Object(Seq::empty()
                .push(("model"@, JsonV::Object(Seq::empty()
                    .push(("type"@, JsonV::Str("string"@)))
                    .push(("description"@, JsonV::Str("Model to use (e.g. gpt-5.3-codex, codex-mini). Defaults to gpt-5.3-codex."@)))
                    .push(("default"@, JsonV::Str("gpt-5.3-codex"@))))))
                .push(("messages"@, JsonV::Object(Seq::empty()
                    .push(("type"@, JsonV::Str("array"@)))
                    .push(("description"@, JsonV::Str("Conversation messages in OpenAI format."@)))
                    .push(("items"@, JsonV::Object(Seq::empty()
                        .push(("type"@, JsonV::Str("object"@)))
                        .push(("properties"@, JsonV::Object(Seq::empty()
                            .push(("role"@, JsonV::Object(Seq::empty()
                                .push(("type"@, JsonV::Str("string"@)))
                                .push(("enum"@, JsonV::Array(Seq::empty()
                                    .push(JsonV::Str("system"@))
                                    .push(JsonV::Str("user"@))
                                    .push(JsonV::Str("assistant"@))))))))
                            .push(("content"@, JsonV::Object(Seq::empty()
                                .push(("type"@, JsonV::Str("string"@)))))))))
                        .push(("required"@, JsonV::Array(Seq::empty()
                            .push(JsonV::Str("role"@))
                            .push(JsonV::Str("content"@)))))))))))
                .push(("max_tokens"@, JsonV::Object(Seq::empty()
                    .push(("type"@, JsonV::Str("integer"@)))
                    .push(("description"@, JsonV::Str("Maximum tokens to generate."@))))))
                .push(("temperature"@, JsonV::Object(Seq::empty()
                    .push(("type"@, JsonV::Str("number"@)))
                    .push(("description"@, JsonV::Str("Sampling temperature (0.0–2.0)."@)))))))))
            .push(("required"@, JsonV::Array(Seq::empty()
                .push(JsonV::Str("messages"@)))))))))
}

fn chat_completion_def() -> (r: Json)
    ensures
        r@ == spec_chat_completion_def(),
{
    proof {
        lemma_entries_empty();
    }
    let mut o1: Vec<(String, Json)> = Vec::new();
    push_entry(&mut o1, "name", Json::string("chat_completion"));
    push_entry(&mut o1, "description", Json::string("Send a chat completion request through the openai-proxy to the Codex backend using your ChatGPT subscription. Returns the assistant's response text."));
    let mut o2: Vec<(String, Json)> = Vec::new();
    push_entry(&mut o2, "type", Json::string("object"));
    let mut o3: Vec<(String, Json)> = Vec::new();
    let mut o4: Vec<(String, Json)> = Vec::new();
    push_entry(&mut o4, "type", Json::string("string"));
    push_entry(&mut o4, "description", Json::string("Model to use (e.g. gpt-5.3-codex, codex-mini). Defaults to gpt-5.3-codex."));
    push_entry(&mut o4, "default", Json::string("gpt-5.3-codex"));
    let j5 = Json::Object(o4);
    push_entry(&mut o3, "model", j5);
    let mut o6: Vec<(String, Json)> = Vec::new();
    push_entry(&mut o6, "type", Json::string("array"));
    push_entry(&mut o6, "description", Json::string("Conversation messages in OpenAI format."));
    let mut o7: Vec<(String, Json)> = Vec::new();
    push_entry(&mut o7, "type", Json::string("object"));
    let mut o8: Vec<(String, Json)> = Vec::new();
    let mut o9: Vec<(String, Json)> = Vec::new();
    push_entry(&mut o9, "type", Json::string("string"));
    let mut a10: Vec<Json> = Vec::new();
    push_elem(&mut a10, Json::string("system"));
    push_elem(&mut a10, Json::string("user"));
    push_elem(&mut a10, Json::string("assistant"));
    let j11 = Json::Array(a10);
    push_entry(&mut o9, "enum", j11);
    let j12 = Json::Object(o9);
    push_entry(&mut o8, "role", j12);
    let mut o13: Vec<(String, Json)> = Vec::new();
    push_entry(&mut o13, "type", Json::string("string"));
    let j14 = Json::Object(o13);
    push_entry(&mut o8, "content", j14);
    let j15 = Json::Object(o8);
    push_entry(&mut o7, "properties", j15);
    let mut a16: Vec<Json> = Vec::new();
    push_elem(&mut a16, Json::string("role"));
    push_elem(&mut a16, Json::string("content"));
    let j17 = Json::Array(a16);
    push_entry(&mut o7, "required", j17);
    let j18 = Json::Object(o7);
    push_entry(&mut o6, "items", j18);
    let j19 = Json::Object(o6);
    push_entry(&mut o3, "messages", j19);
    let mut o20: Vec<(String, Json)> = Vec::new();
    push_entry(&mut o20, "type", Json::string("integer"));
    push_entry(&mut o20, "description", Json::string("Maximum tokens to generate."));
    let j21 = Json::Object(o20);
    push_entry(&mut o3, "max_tokens", j21);
    let mut o22: Vec<(String, Json)> = Vec::new();
    push_entry(&mut o22, "type", Json::string("number"));
    push_entry(&mut o22, "description", Json::string("Sampling temperature (0.0–2.0)."));
    let j23 = Json::Object(o22);
    push_entry(&mut o3, "temperature", j23);
    let j24 = Json::Object(o3);
    push_entry(&mut o2, "properties", j24);
    let mut a25: Vec<Json> = Vec::new();
    push_elem(&mut a25, Json::string("messages"));
    let j26 = Json::Array(a25);
    push_entry(&mut o2, "required", j26);
    let j27 = Json::Object(o2);
    push_entry(&mut o1, "inputSchema", j27);
    let j28 = Json::Object(o1);
    j28
}

/// The `list_models` tool, without arguments.
pub open spec fn spec_list_models_def() -> JsonV {
    JsonV::Object(Seq::empty()
        .push(("name"@, JsonV::Str("list_models"@)))
        .push(("description"@, JsonV::Str("List available Codex models that can be used with this proxy."@)))
        .push(("inputSchema"@, JsonV::Object(Seq::empty()
            .push(("type"@, JsonV::Str("object"@)))
            .push(("properties"@, JsonV::Object(Seq::empty())))))))
}

fn list_models_def() -> (r: Json)
    ensures
        r@ == spec_list_models_def(),
{
    proof {
        lemma_entries_empty();
    }
    let mut o1: Vec<(String, Json)> = Vec::new();
    push_entry(&mut o1, "name", Json::string("list_models"));
    push_entry(&mut o1, "description", Json::string("List available Codex models that can be used with this proxy."));
    let mut o2: Vec<(String, Json)> = Vec::new();
    push_entry(&mut o2, "type", Json::string("object"));
    let mut o3: Vec<(String, Json)> = Vec::new();
    let j4 = Json::Object(o3);
    push_entry(&mut o2, "properties", j4);
    let j5 = Json::Object(o2);
    push_entry(&mut o1, "inputSchema", j5);
    let j6 = Json::Object(o1);
    j6
}

/// The `check_auth` tool, without arguments.
pub open spec fn spec_check_auth_def() -> JsonV {
    JsonV::Object(Seq::empty()
        .push(("name"@, JsonV::Str("check_auth"@)))
        .push(("description"@, JsonV::Str("Check whether valid Codex credentials are loaded. Returns the auth status and which backend will be used."@)))
        .push(("inputSchema"@, JsonV::Object(Seq::empty()
            .push(("type"@, JsonV::Str("object"@)))
            .push(("properties"@, JsonV::Object(Seq::empty())))))))
}

fn check_auth_def() -> (r: Json)
    ensures
        r@ == spec_check_auth_def(),
{
    proof {
        lemma_entries_empty();
    }
    let mut o1: Vec<(String, Json)> = Vec::new();
    push_entry(&mut o1, "name", Json::string("check_auth"));
    push_entry(&mut o1, "description", Json::string("Check whether valid Codex credentials are loaded. Returns the auth status and which backend will be used."));
    let mut o2: Vec<(String, Json)> = Vec::new();
    push_entry(&mut o2, "type", Json::string("object"));
    let mut o3: Vec<(String, Json)> = Vec::new();
    let j4 = Json::Object(o3);
    push_entry(&mut o2, "properties", j4);
    let j5 = Json::Object(o2);
    push_entry(&mut o1, "inputSchema", j5);
    let j6 = Json::Object(o1);
    j6
}

/// The `set_model` tool: a task description.
pub open spec fn spec_set_model_def() -> JsonV {
    JsonV::Object(Seq::empty()
        .push(("name"@, JsonV::Str("set_model"@)))
        .push(("description"@, JsonV::Str("Get a recommendation for which model to use based on your task. Does not persist state — this is advisory only."@)))
        .push(("inputSchema"@, JsonV::Object(Seq::empty()
            .push(("type"@, JsonV::Str("object"@)))
            .push(("properties"@, JsonV::Object(Seq::empty()
                .push(("task"@, JsonV::Object(Seq::empty()
                    .push(("type"@, JsonV::Str("string"@)))
                    .push(("description"@, JsonV::Str("Describe your task to get a model recommendation (e.g. 'code generation', 'quick question', 'complex reasoning')."@)))))))))
            .push(("required"@, JsonV::Array(Seq::empty()
                .push(JsonV::Str("task"@)))))))))
}

fn set_model_def() -> (r: Json)
    ensures
        r@ == spec_set_model_def(),
{
    proof {
        lemma_entries_empty();
    }
    let mut o1: Vec<(String, Json)> = Vec::new();
    push_entry(&mut o1, "name", Json::string("set_model"));
    push_entry(&mut o1, "description", Json::string("Get a recommendation for which model to use based on your task. Does not persist state — this is advisory only."));
    let mut o2: Vec<(String, Json)> = Vec::new();
    push_entry(&mut o2, "type", Json::string("object"));
    let mut o3: Vec<(String, Json)> = Vec::new();
    let mut o4: Vec<(String, Json)> = Vec::new();
    push_entry(&mut o4, "type", Json::string("string"));
    push_entry(&mut o4, "description", Json::string("Describe your task to get a model recommendation (e.g. 'code generation', 'quick question', 'complex reasoning')."));
    let j5 = Json::Object(o4);
    push_entry(&mut o3, "task", j5);
    let j6 = Json::Object(o3);
    push_entry(&mut o2, "properties", j6);
    let mut a7: Vec<Json> = Vec::new();
    push_elem(&mut a7, Json::string("task"));
    let j8 = Json::Array(a7);
    push_entry(&mut o2, "required", j8);
    let j9 = Json::Object(o2);
    push_entry(&mut o1, "inputSchema", j9);
    let j10 = Json::Object(o1);
    j10
}

/// The tools the server offers, in the order `tools/list` returns them.
pub open spec fn spec_tool_definitions() -> JsonV {
    JsonV::Array(seq![
        spec_chat_completion_def(),
        spec_list_models_def(),
        spec_check_auth_def(),
        spec_set_model_def(),
    ])
}

/// The tool catalogue returned by `tools/list`.
pub fn tool_definitions() -> (r: Json)
    ensures
        r@ == spec_tool_definitions(),
{
    let mut a: Vec<Json> = Vec::new();
    proof {
        lemma_entries_empty();
    }
    push_elem(&mut a, chat_completion_def());
    push_elem(&mut a, list_models_def());
    push_elem(&mut a, check_auth_def());
    push_elem(&mut a, set_model_def());
    assert(crate::json::json_seq_view(a@) =~= seq![
        spec_chat_completion_def(),
        spec_list_models_def(),
        spec_check_auth_def(),
        spec_set_model_def(),
    ]);
    Json::Array(a)
}

// ---------------------------------------------------------------------------
// Synchronous tools
// ---------------------------------------------------------------------------

/// The model listing of each backend profile.
pub open spec fn spec_list_models_text(p: BackendProfile) -> Seq<char> {
    match p {
        BackendProfile::ChatGptCodex => "Available models (ChatGPT subscription):\n• gpt-5.3-codex — Codex model (400K context)\n• gpt-5.4 — GPT-5.4 (400K context)\n• gpt-5.5 — GPT-5.5 (400K context)\n\nAliases: gpt-4o, gpt-4, gpt-4-turbo, gpt-3.5-turbo → gpt-5.3-codex"@,
        BackendProfile::OpenAiResponses => "Available models (OpenAI Responses API):\n• gpt-5.5 — GPT-5.5 (1M context)\n• gpt-5.5-pro — GPT-5.5 Pro (Pro/Business/Enterprise only)\n• gpt-5.4 — GPT-5.4\n• gpt-5.3-codex — Codex model\n• codex-mini — Faster, lighter Codex model"@,
        BackendProfile::OpenAiChatCompletions => "Available models (OpenAI Chat Completions):\n• gpt-5.5 — GPT-5.5\n• gpt-5.4 — GPT-5.4\n• gpt-5.3-codex — Codex model\n• codex-mini — Faster, lighter Codex model\n• gpt-4o — GPT-4o\n• gpt-4o-mini — GPT-4o Mini\n• gpt-3.5-turbo — GPT-3.5 Turbo"@,
    }
}

/// The `list_models` tool: the models of the configured profile.
pub fn list_models_tool(p: BackendProfile) -> (r: String)
    ensures
        r@ == spec_list_models_text(p),
{
    match p {
        BackendProfile::ChatGptCodex => owned("Available models (ChatGPT subscription):\n• gpt-5.3-codex — Codex model (400K context)\n• gpt-5.4 — GPT-5.4 (400K context)\n• gpt-5.5 — GPT-5.5 (400K context)\n\nAliases: gpt-4o, gpt-4, gpt-4-turbo, gpt-3.5-turbo → gpt-5.3-codex"),
        BackendProfile::OpenAiResponses => owned("Available models (OpenAI Responses API):\n• gpt-5.5 — GPT-5.5 (1M context)\n• gpt-5.5-pro — GPT-5.5 Pro (Pro/Business/Enterprise only)\n• gpt-5.4 — GPT-5.4\n• gpt-5.3-codex — Codex model\n• codex-mini — Faster, lighter Codex model"),
        BackendProfile::OpenAiChatCompletions => owned("Available models (OpenAI Chat Completions):\n• gpt-5.5 — GPT-5.5\n• gpt-5.4 — GPT-5.4\n• gpt-5.3-codex — Codex model\n• codex-mini — Faster, lighter Codex model\n• gpt-4o — GPT-4o\n• gpt-4o-mini — GPT-4o Mini\n• gpt-3.5-turbo — GPT-3.5 Turbo"),
    }
}

/// The credential report: OAuth token (with the account, or `(not set)`),
/// else API key, else the instruction to log in.
pub open spec fn spec_check_auth_text(auth: CodexAuth, backend_url: Seq<char>) -> Seq<char> {
    if auth.access_token is Some {
        "✓ Authenticated via ChatGPT OAuth token (ChatGPT Plus/Pro subscription)\nBackend: "@ + backend_url
            + "\nAccount ID: "@ + match auth.account_id { Some(a) => a@, None => "(not set)"@ }
    } else if auth.api_key is Some {
        "✓ Authenticated via OpenAI API key\nBackend: "@ + backend_url
    } else {
        "✗ No credentials loaded. Run `codex login` or set OPENAI_API_KEY."@
    }
}

/// The `check_auth` tool: which credentials are loaded and which backend is used.
pub fn check_auth_tool(auth: &CodexAuth, backend_url: &str) -> (r: String)
    ensures
        r@ == spec_check_auth_text(*auth, backend_url@),
{
    if auth.access_token.is_some() {
        let a = concat("✓ Authenticated via ChatGPT OAuth token (ChatGPT Plus/Pro subscription)\nBackend: ", backend_url);
        let b = concat(a.as_str(), "\nAccount ID: ");
        match &auth.account_id {
            Some(id) => concat(b.as_str(), id.as_str()),
            None => concat(b.as_str(), "(not set)"),
        }
    } else if auth.api_key.is_some() {
        concat("✓ Authenticated via OpenAI API key\nBackend: ", backend_url)
    } else {
        owned("✗ No credentials loaded. Run `codex login` or set OPENAI_API_KEY.")
    }
}

/// A string member of an object, if present and a string.
pub open spec fn str_member(v: JsonV, key: Seq<char>) -> Option<Seq<char>> {
    match json_get(v, key) {
        Some(x) => json_as_str(x),
        None => None,
    }
}

fn str_member_exec<'a>(v: &'a Json, key: &str) -> (r: Option<&'a str>)
    ensures
        opt_str_view(r) == str_member(v@, key@),
{
    match v.get(key) {
        Some(x) => x.as_str(),
        None => None,
    }
}

/// The task a `set_model` call describes (`general` when none is given).
pub open spec fn spec_task(args: JsonV) -> Seq<char> {
    match str_member(args, "task"@) {
        Some(t) => t,
        None => "general"@,
    }
}

/// The model recommended for a task, and why: a light model for quick,
/// fast, simple or short tasks; the Codex model otherwise, with deeper
/// reasoning named for complex, reasoning, architecture, design or long tasks.
pub open spec fn spec_recommendation(task: Seq<char>) -> (Seq<char>, Seq<char>) {
    let l = unicode_lowercase(task);
    if seq_contains(l, "quick"@) || seq_contains(l, "fast"@) || seq_contains(l, "simple"@) || seq_contains(l, "short"@) {
        ("codex-mini"@, "faster responses for simple tasks"@)
    } else if seq_contains(l, "complex"@) || seq_contains(l, "reason"@) || seq_contains(l, "architect"@)
        || seq_contains(l, "design"@) || seq_contains(l, "long"@) {
        ("gpt-5.3-codex"@, "deeper reasoning for complex tasks"@)
    } else {
        ("gpt-5.3-codex"@, "general-purpose default"@)
    }
}

/// The `set_model` answer for a task.
pub open spec fn spec_set_model_text(task: Seq<char>) -> Seq<char> {
    let (m, why) = spec_recommendation(task);
    "Recommended model for '"@ + task + "': "@ + m + "\nReason: "@ + why
        + "\n\nTo use this model, set it in your request or set CODEX_DEFAULT_MODEL="@ + m
}

/// The `set_model` tool: an advisory model recommendation for a task.
pub fn set_model_tool(args: &Json) -> (r: String)
    ensures
        r@ == spec_set_model_text(spec_task(args@)),
{
    let task = match str_member_exec(args, "task") {
        Some(t) => t,
        None => "general",
    };
    let l = to_lowercase(task);
    let ls = l.as_str();
    let (m, why) = if contains(ls, "quick") || contains(ls, "fast") || contains(ls, "simple") || contains(ls, "short") {
        ("codex-mini", "faster responses for simple tasks")
    } else if contains(ls, "complex") || contains(ls, "reason") || contains(ls, "architect") || contains(ls, "design")
        || contains(ls, "long") {
        ("gpt-5.3-codex", "deeper reasoning for complex tasks")
    } else {
        ("gpt-5.3-codex", "general-purpose default")
    };
    let a = concat("Recommended model for '", task);
    let b = concat(a.as_str(), "': ");
    let c = concat(b.as_str(), m);
    let d = concat(c.as_str(), "\nReason: ");
    let e = concat(d.as_str(), why);
    let f = concat(e.as_str(), "\n\nTo use this model, set it in your request or set CODEX_DEFAULT_MODEL=");
    concat(f.as_str(), m)
}

// ---------------------------------------------------------------------------
// The chat_completion tool
// ---------------------------------------------------------------------------

/// The `messages` argument of a `chat_completion` call, or the error reported
/// when it is missing.
pub fn chat_tool_messages(args: &Json) -> (r: Result<&Json, String>)
    ensures
        match r {
            Ok(m) => json_get(args@, "messages"@) == Some(m@),
            Err(e) => json_get(args@, "messages"@) is None && e@ == "missing required field: messages"@,
        },
{
    match args.get("messages") {
        Some(m) => Ok(m),
        None => Err(owned("missing required field: messages")),
    }
}

/// The model a `chat_completion` call uses: without a `model` argument the
/// proxy default, else `gpt-5.3-codex`; with one, its mapping (a non-string
/// `model` counts as `gpt-5.3-codex`).
pub open spec fn spec_tool_model(args: JsonV, default_model: Option<Seq<char>>) -> Seq<char> {
    if json_get(args, "model"@) is None {
        match default_model {
            Some(d) => d,
            None => "gpt-5.3-codex"@,
        }
    } else {
        spec_resolve_model(match str_member(args, "model"@) {
            Some(m) => m,
            None => "gpt-5.3-codex"@,
        }).0
    }
}

/// The model a `chat_completion` call names is the model it runs on, after
/// alias resolution: a string `model` argument `m` gives the resolution of
/// `m`, so an explicit id such as `gpt-5.5` is kept as it is; the proxy
/// default applies only when no `model` is given.
pub proof fn law_tool_model_follows_argument(args: JsonV, default_model: Option<Seq<char>>, m: Seq<char>)
    requires
        json_get(args, "model"@) == Some(JsonV::Str(m)),
    ensures
        spec_tool_model(args, default_model) == spec_resolve_model(m).0,
        (crate::text::seq_starts_with(m, "gpt-5."@) || crate::text::seq_starts_with(m, "codex"@)) ==> spec_tool_model(args, default_model) == m,
{
    if crate::text::seq_starts_with(m, "gpt-5."@) || crate::text::seq_starts_with(m, "codex"@) {
        crate::codex::law_explicit_models_resolve_to_themselves(m);
    }
}

/// The token limit of a `chat_completion` call: `max_tokens` when it is an
/// unsigned integer, truncated to 32 bits.
pub open spec fn spec_tool_max_tokens(args: JsonV) -> Option<u32> {
    match json_get(args, "max_tokens"@) {
        Some(v) => match json_as_u64(v) {
            Some(n) => Some((n as u64) as u32),
            None => None,
        },
        None => None,
    }
}

/// The non-streaming chat request a `chat_completion` call makes, from its
/// arguments, the parsed messages and the temperature's bit pattern.
pub fn chat_tool_request(args: &Json, messages: Vec<Message>, temperature: Option<u32>, default_model: Option<&str>) -> (r: ChatCompletionRequest)
    ensures
        r.model@ == spec_tool_model(args@, opt_str_view(default_model)),
        r.messages == messages,
        !r.stream,
        r.max_tokens == spec_tool_max_tokens(args@),
        r.temperature == temperature,
        r.top_p is None && r.stop is None && r.system is None && r.user is None,
        r.tools is None && r.tool_choice is None && r.parallel_tool_calls is None,
{
    let model = match args.get("model") {
        None => match default_model {
            Some(d) => owned(d),
            None => owned("gpt-5.3-codex"),
        },
        Some(_) => match str_member_exec(args, "model") {
            Some(m) => map_model(m),
            None => map_model("gpt-5.3-codex"),
        },
    };
    let max_tokens = match args.get("max_tokens") {
        Some(v) => match v.as_u64() {
            Some(n) => Some(#[verifier::truncate] (n as u32)),
            None => None,
        },
        None => None,
    };
    ChatCompletionRequest {
        model,
        messages,
        stream: false,
        max_tokens,
        temperature,
        top_p: None,
        stop: None,
        system: None,
        user: None,
        tools: None,
        tool_choice: None,
        parallel_tool_calls: None,
    }
}

/// The assistant text of a Chat Completions response body
/// (`choices[0].message.content`, empty when absent).
pub open spec fn spec_reply_text(body: JsonV) -> Seq<char> {
    match json_as_str(json_index(json_index(json_at(json_index(body, "choices"@), 0), "message"@), "content"@)) {
        Some(t) => t,
        None => Seq::empty(),
    }
}

/// The assistant text of a Chat Completions response body.
pub fn chat_tool_reply_text(body: &Json) -> (r: String)
    ensures
        r@ == spec_reply_text(body@),
{
    let t = match body.index("choices") {
        Some(c) => match c.at(0) {
            Some(f) => match f.index("message") {
                Some(m) => match m.index("content") {
                    Some(x) => x.as_str(),
                    None => None,
                },
                None => None,
            },
            None => None,
        },
        None => None,
    };
    match t {
        Some(s) => owned(s),
        None => String::new(),
    }
}

/// The concatenated text deltas of a Responses API stream.
pub fn text_of_events(events: &Vec<ResponseStreamEvent>) -> (r: String)
    ensures
        r@ == crate::proxy::spec_text_deltas(events@),
{
    let mut out = String::new();
    let mut i: usize = 0;
    while i < events.len()
        invariant
            i <= events.len(),
            out@ == crate::proxy::spec_text_deltas(events@.take(i as int)),
        decreases events.len() - i,
    {
        proof {
            assert(events@.take(i + 1).drop_last() =~= events@.take(i as int));
        }
        match &events[i] {
            ResponseStreamEvent::ResponseOutputTextDelta { delta, .. } => {
                out = concat(out.as_str(), delta.as_str());
            },
            _ => {
                assert(out@ =~= out@ + Seq::<char>::empty());
            },
        }
        i = i + 1;
    }
    assert(events@.take(events.len() as int) =~= events@);
    out
}


// ---------------------------------------------------------------------------
// Request routing
// ---------------------------------------------------------------------------

/// What the server does with a request.
#[derive(Debug)]
pub enum McpAction {
    /// Answer with this response.
    Reply(JsonRpcResponse),
    /// Answer nothing (a notification).
    NoReply,
    /// Run the `chat_completion` tool with these arguments and answer with
    /// `tool_call_response` of its outcome.
    ChatCompletion { id: Option<Json>, args: Json },
}

/// The JSON-RPC version every reply carries.
pub open spec fn jsonrpc_version() -> Seq<char> {
    "2.0"@
}

/// The abstract form of an action; a reply as its `jsonrpc` version, id,
/// result and error.
pub enum McpActionV {
    Reply(Seq<char>, Option<JsonV>, Option<JsonV>, Option<(int, Seq<char>)>),
    NoReply,
    ChatCompletion(Option<JsonV>, JsonV),
}

/// The abstract form of a response.
pub open spec fn reply_view(r: JsonRpcResponse) -> McpActionV {
    McpActionV::Reply(r.jsonrpc@, opt_json(r.id), opt_json(r.result), opt_error(r.error))
}

/// The abstract form of an action.
pub open spec fn action_view(a: McpAction) -> McpActionV {
    match a {
        McpAction::Reply(r) => reply_view(r),
        McpAction::NoReply => McpActionV::NoReply,
        McpAction::ChatCompletion { id, args } => McpActionV::ChatCompletion(opt_json(id), args@),
    }
}

/// The `initialize` result: protocol version, tool capability, server info.
pub open spec fn spec_init_result(version: Seq<char>) -> JsonV {
    JsonV::Object(seq![
        ("protocolVersion"@, JsonV::Str("2024-11-05"@)),
        ("capabilities"@, JsonV::Object(seq![("tools"@, JsonV::Object(Seq::empty()))])),
        ("serverInfo"@, JsonV::Object(seq![("name"@, JsonV::Str("openai-proxy"@)), ("version"@, JsonV::Str(version))])),
    ])
}

/// The result of a tool call: one text content item and the error flag.
pub open spec fn spec_tool_result(text: Seq<char>, is_error: bool) -> JsonV {
    JsonV::Object(seq![
        ("content"@, JsonV::Array(seq![JsonV::Object(seq![("type"@, JsonV::Str("text"@)), ("text"@, JsonV::Str(text))])])),
        ("isError"@, JsonV::Bool(is_error)),
    ])
}

/// The tool a `tools/call` names (empty when none).
pub open spec fn spec_call_name(params: JsonV) -> Seq<char> {
    match str_member(params, "name"@) {
        Some(n) => n,
        None => Seq::empty(),
    }
}

/// The arguments of a `tools/call` (an empty object when none).
pub open spec fn spec_call_args(params: JsonV) -> JsonV {
    match json_get(params, "arguments"@) {
        Some(a) => a,
        None => JsonV::Object(Seq::empty()),
    }
}

/// How the server answers a request: `initialize`, `ping` and `tools/list`
/// with their results; `notifications/initialized` with nothing; `tools/call`
/// with the tool's text (`chat_completion` goes to the backend; an unknown
/// tool is an error result); any other method with error -32601.
pub open spec fn spec_dispatch(
    method: Seq<char>,
    id: Option<JsonV>,
    params: JsonV,
    profile: BackendProfile,
    auth: CodexAuth,
    backend_url: Seq<char>,
    version: Seq<char>,
) -> McpActionV {
    if method == "initialize"@ {
        McpActionV::Reply(jsonrpc_version(), id, Some(spec_init_result(version)), None)
    } else if method == "notifications/initialized"@ {
        McpActionV::NoReply
    } else if method == "ping"@ {
        McpActionV::Reply(jsonrpc_version(), id, Some(JsonV::Object(Seq::empty())), None)
    } else if method == "tools/list"@ {
        McpActionV::Reply(jsonrpc_version(), id, Some(JsonV::Object(seq![("tools"@, spec_tool_definitions())])), None)
    } else if method == "tools/call"@ {
        let name = spec_call_name(params);
        let args = spec_call_args(params);
        if name == "chat_completion"@ {
            McpActionV::ChatCompletion(id, args)
        } else if name == "list_models"@ {
            McpActionV::Reply(jsonrpc_version(), id, Some(spec_tool_result(spec_list_models_text(profile), false)), None)
        } else if name == "check_auth"@ {
            McpActionV::Reply(jsonrpc_version(), id, Some(spec_tool_result(spec_check_auth_text(auth, backend_url), false)), None)
        } else if name == "set_model"@ {
            McpActionV::Reply(jsonrpc_version(), id, Some(spec_tool_result(spec_set_model_text(spec_task(args)), false)), None)
        } else {
            McpActionV::Reply(jsonrpc_version(), id, Some(spec_tool_result("Unknown tool: "@ + name, true)), None)
        }
    } else {
        McpActionV::Reply(jsonrpc_version(), id, None, Some((-32601, "Method not found: "@ + method)))
    }
}

fn tool_result(text: &str, is_error: bool) -> (r: Json)
    ensures
        r@ == spec_tool_result(text@, is_error),
{
    let mut item: Vec<(String, Json)> = Vec::new();
    proof {
        lemma_entries_empty();
    }
    push_entry(&mut item, "type", Json::string("text"));
    push_entry(&mut item, "text", Json::string(text));
    assert(json_entries_view(item@) =~= seq![("type"@, JsonV::Str("text"@)), ("text"@, JsonV::Str(text@))]);
    let mut content: Vec<Json> = Vec::new();
    push_elem(&mut content, Json::Object(item));
    let mut es: Vec<(String, Json)> = Vec::new();
    push_entry(&mut es, "content", Json::Array(content));
    push_entry(&mut es, "isError", Json::Bool(is_error));
    assert(json_entries_view(es@) =~= match spec_tool_result(text@, is_error) {
        JsonV::Object(e) => e,
        _ => Seq::empty(),
    });
    Json::Object(es)
}

/// The response to a tool call that produced `text`.
pub fn tool_call_response(id: Option<Json>, text: &str, is_error: bool) -> (r: JsonRpcResponse)
    ensures
        reply_view(r) == McpActionV::Reply(jsonrpc_version(), opt_json(id), Some(spec_tool_result(text@, is_error)), None),
{
    JsonRpcResponse::ok(id, tool_result(text, is_error))
}

fn init_result(version: &str) -> (r: Json)
    ensures
        r@ == spec_init_result(version@),
{
    proof {
        lemma_entries_empty();
    }
    let mut caps: Vec<(String, Json)> = Vec::new();
    push_entry(&mut caps, "tools", Json::Object(Vec::new()));
    let mut info: Vec<(String, Json)> = Vec::new();
    push_entry(&mut info, "name", Json::string("openai-proxy"));
    push_entry(&mut info, "version", Json::string(version));
    assert(json_entries_view(info@) =~= seq![("name"@, JsonV::Str("openai-proxy"@)), ("version"@, JsonV::Str(version@))]);
    let mut es: Vec<(String, Json)> = Vec::new();
    push_entry(&mut es, "protocolVersion", Json::string("2024-11-05"));
    push_entry(&mut es, "capabilities", Json::Object(caps));
    push_entry(&mut es, "serverInfo", Json::Object(info));
    assert(json_entries_view(es@) =~= match spec_init_result(version@) {
        JsonV::Object(e) => e,
        _ => Seq::empty(),
    });
    Json::Object(es)
}

/// Routes a request: the reply, nothing, or the chat completion to run.
pub fn dispatch(req: JsonRpcRequest, profile: BackendProfile, auth: &CodexAuth, backend_url: &str, version: &str) -> (r: McpAction)
    ensures
        action_view(r) == spec_dispatch(req.method@, opt_json(req.id), req.params@, profile, *auth, backend_url@, version@),
{
    let m = req.method.as_str();
    if str_eq(m, "initialize") {
        McpAction::Reply(JsonRpcResponse::ok(req.id, init_result(version)))
    } else if str_eq(m, "notifications/initialized") {
        McpAction::NoReply
    } else if str_eq(m, "ping") {
        proof {
            lemma_entries_empty();
        }
        McpAction::Reply(JsonRpcResponse::ok(req.id, Json::Object(Vec::new())))
    } else if str_eq(m, "tools/list") {
        let mut es: Vec<(String, Json)> = Vec::new();
        proof {
            lemma_entries_empty();
        }
        push_entry(&mut es, "tools", tool_definitions());
        assert(json_entries_view(es@) =~= seq![("tools"@, spec_tool_definitions())]);
        McpAction::Reply(JsonRpcResponse::ok(req.id, Json::Object(es)))
    } else if str_eq(m, "tools/call") {
        let name = match str_member_exec(&req.params, "name") {
            Some(n) => owned(n),
            None => String::new(),
        };
        let args = match req.params.get("arguments") {
            Some(a) => a.deep_clone(),
            None => {
                proof {
                    lemma_entries_empty();
                }
                Json::Object(Vec::new())
            },
        };
        let n = name.as_str();
        if str_eq(n, "chat_completion") {
            McpAction::ChatCompletion { id: req.id, args }
        } else if str_eq(n, "list_models") {
            let t = list_models_tool(profile);
            McpAction::Reply(tool_call_response(req.id, t.as_str(), false))
        } else if str_eq(n, "check_auth") {
            let t = check_auth_tool(auth, backend_url);
            McpAction::Reply(tool_call_response(req.id, t.as_str(), false))
        } else if str_eq(n, "set_model") {
            let t = set_model_tool(&args);
            McpAction::Reply(tool_call_response(req.id, t.as_str(), false))
        } else {
            let t = concat("Unknown tool: ", n);
            McpAction::Reply(tool_call_response(req.id, t.as_str(), true))
        }
    } else {
        let msg = concat("Method not found: ", m);
        McpAction::Reply(JsonRpcResponse::err(req.id, -32601, msg))
    }
}


/// Every request is answered under its own id, as JSON-RPC 2.0, with exactly one of a result
/// and an error; only `notifications/initialized` goes unanswered, and only
/// `tools/call` reaches the backend.
pub proof fn law_dispatch_answers(
    method: Seq<char>,
    id: Option<JsonV>,
    params: JsonV,
    profile: BackendProfile,
    auth: CodexAuth,
    backend_url: Seq<char>,
    version: Seq<char>,
)
    ensures
        match spec_dispatch(method, id, params, profile, auth, backend_url, version) {
            McpActionV::Reply(v, i, r, e) => v == "2.0"@ && i == id && (r is Some) != (e is Some),
            McpActionV::NoReply => method == "notifications/initialized"@,
            McpActionV::ChatCompletion(i, _) => i == id && method == "tools/call"@,
        },
{
}

} // verus!
