//! Codex / Responses API conversion: credentials, backend profiles, the model
//! catalogue, request conversion and streaming event types.
use vstd::prelude::*;
use crate::json::{
    Json, JsonV, has_str_member, json_entries_view, json_get, json_seq_view, json_view,
    lemma_entries_view_push, lemma_seq_view, lemma_seq_view_push, push_entry, push_elem,
    lemma_entries_empty,
};
use crate::openai::{ChatCompletionRequest, Message, MessageContent, ToolCall};
use crate::text::{
    concat, join, seq_join, views, contains, eq_ignore_ascii_case, eq_ignore_ascii_case_spec, owned, seq_contains,
    seq_starts_with, starts_with, str_eq,
};

verus! {

// ---------------------------------------------------------------------------
// Backend profiles
// ---------------------------------------------------------------------------

pub const CODEX_BACKEND_URL: &'static str = "https://chatgpt.com/backend-api/codex/responses";
pub const OPENAI_RESPONSES_URL: &'static str = "https://api.openai.com/v1/responses";
pub const OPENAI_CHAT_URL: &'static str = "https://api.openai.com/v1/chat/completions";

/// The upstream API that requests are sent to.
#[derive(Debug, Clone, Copy, PartialEq, Eq, Structural)]
pub enum BackendProfile {
    /// ChatGPT subscription (`chatgpt.com/backend-api/codex/responses`): requires
    /// `stream = true`, `store = false`, and rejects sampling parameters.
    ChatGptCodex,
    /// OpenAI API key, Responses API wire format.
    OpenAiResponses,
    /// OpenAI API key, Chat Completions wire format.
    OpenAiChatCompletions,
}

pub open spec fn spec_backend_url(p: BackendProfile) -> Seq<char> {
    match p {
        BackendProfile::ChatGptCodex => CODEX_BACKEND_URL@,
        BackendProfile::OpenAiResponses => OPENAI_RESPONSES_URL@,
        BackendProfile::OpenAiChatCompletions => OPENAI_CHAT_URL@,
    }
}

pub open spec fn spec_profile_name(p: BackendProfile) -> Seq<char> {
    match p {
        BackendProfile::ChatGptCodex => "ChatGPT subscription (chatgpt.com/backend-api/codex/responses)"@,
        BackendProfile::OpenAiResponses => "OpenAI Responses API (api.openai.com/v1/responses)"@,
        BackendProfile::OpenAiChatCompletions => "OpenAI Chat Completions (api.openai.com/v1/chat/completions)"@,
    }
}

impl BackendProfile {
    /// The upstream endpoint of this profile.
    pub fn backend_url(&self) -> (r: &'static str)
        ensures
            r@ == spec_backend_url(*self),
    {
        match self {
            BackendProfile::ChatGptCodex => CODEX_BACKEND_URL,
            BackendProfile::OpenAiResponses => OPENAI_RESPONSES_URL,
            BackendProfile::OpenAiChatCompletions => OPENAI_CHAT_URL,
        }
    }

    /// A human-readable name of this profile.
    pub fn name(&self) -> (r: &'static str)
        ensures
            r@ == spec_profile_name(*self),
    {
        match self {
            BackendProfile::ChatGptCodex => "ChatGPT subscription (chatgpt.com/backend-api/codex/responses)",
            BackendProfile::OpenAiResponses => "OpenAI Responses API (api.openai.com/v1/responses)",
            BackendProfile::OpenAiChatCompletions => "OpenAI Chat Completions (api.openai.com/v1/chat/completions)",
        }
    }
}

/// The profile chosen at startup: an explicit URL decides by its text; otherwise
/// an OAuth access token selects the ChatGPT backend, and `wire_api = "chat"`
/// (in any ASCII case) the Chat Completions backend.
pub open spec fn spec_select_backend(url_override: Option<Seq<char>>, has_access_token: bool, wire_api: Seq<char>) -> (Seq<char>, BackendProfile) {
    match url_override {
        Some(url) => {
            let profile = if seq_contains(url, "chatgpt.com"@) {
                BackendProfile::ChatGptCodex
            } else if seq_contains(url, "/v1/chat/completions"@) || eq_ignore_ascii_case_spec(wire_api, "chat"@) {
                BackendProfile::OpenAiChatCompletions
            } else {
                BackendProfile::OpenAiResponses
            };
            (url, profile)
        },
        None => if has_access_token {
            (CODEX_BACKEND_URL@, BackendProfile::ChatGptCodex)
        } else if eq_ignore_ascii_case_spec(wire_api, "chat"@) {
            (OPENAI_CHAT_URL@, BackendProfile::OpenAiChatCompletions)
        } else {
            (OPENAI_RESPONSES_URL@, BackendProfile::OpenAiResponses)
        },
    }
}

/// Chooses the backend URL and profile from the startup settings.
pub fn select_backend(url_override: Option<&str>, has_access_token: bool, wire_api: &str) -> (r: (String, BackendProfile))
    ensures
        (r.0@, r.1) == spec_select_backend(
            match url_override { Some(u) => Some(u@), None => None },
            has_access_token,
            wire_api@,
        ),
{
    match url_override {
        Some(url) => {
            let profile = if contains(url, "chatgpt.com") {
                BackendProfile::ChatGptCodex
            } else if contains(url, "/v1/chat/completions") || eq_ignore_ascii_case(wire_api, "chat") {
                BackendProfile::OpenAiChatCompletions
            } else {
                BackendProfile::OpenAiResponses
            };
            (owned(url), profile)
        },
        None => if has_access_token {
            (owned(CODEX_BACKEND_URL), BackendProfile::ChatGptCodex)
        } else if eq_ignore_ascii_case(wire_api, "chat") {
            (owned(OPENAI_CHAT_URL), BackendProfile::OpenAiChatCompletions)
        } else {
            (owned(OPENAI_RESPONSES_URL), BackendProfile::OpenAiResponses)
        },
    }
}

// ---------------------------------------------------------------------------
// Credentials
// ---------------------------------------------------------------------------

/// Credentials read from `auth.json`.
#[derive(Debug)]
pub struct CodexAuth {
    pub access_token: Option<String>,
    pub account_id: Option<String>,
    pub api_key: Option<String>,
}

/// The nested `tokens` block written by newer Codex CLI versions.
#[derive(Debug)]
pub struct TokensBlock {
    pub access_token: Option<String>,
    pub account_id: Option<String>,
}

/// The fields of `auth.json` in either of its layouts.
#[derive(Debug)]
pub struct CodexAuthFile {
    pub access_token: Option<String>,
    pub account_id: Option<String>,
    pub api_key: Option<String>,
    pub tokens: Option<TokensBlock>,
    /// The `OPENAI_API_KEY` member.
    pub openai_api_key: Option<String>,
}

pub open spec fn opt_view(o: Option<String>) -> Option<Seq<char>> {
    match o {
        Some(s) => Some(s@),
        None => None,
    }
}

/// `true` when `bearer` can produce a header (it panics otherwise in the original).
pub open spec fn has_credentials(a: CodexAuth) -> bool {
    (a.access_token is Some && a.account_id is Some) || a.api_key is Some
}

impl CodexAuth {
    /// Merges the two layouts of `auth.json`: a `tokens` block, when present,
    /// supplies the OAuth token and account; `api_key` falls back to `OPENAI_API_KEY`.
    pub fn from_auth_file(raw: CodexAuthFile) -> (r: CodexAuth)
        ensures
            match raw.tokens {
                Some(t) => opt_view(r.access_token) == opt_view(t.access_token)
                    && opt_view(r.account_id) == opt_view(t.account_id),
                None => opt_view(r.access_token) == opt_view(raw.access_token)
                    && opt_view(r.account_id) == opt_view(raw.account_id),
            },
            opt_view(r.api_key) == (if raw.api_key is Some { opt_view(raw.api_key) } else { opt_view(raw.openai_api_key) }),
    {
        let (access_token, account_id) = match raw.tokens {
            Some(t) => (t.access_token, t.account_id),
            None => (raw.access_token, raw.account_id),
        };
        let api_key = match raw.api_key {
            Some(k) => Some(k),
            None => raw.openai_api_key,
        };
        CodexAuth { access_token, account_id, api_key }
    }

    /// The `Authorization` header value and the ChatGPT account id, if any.
    /// An OAuth token with an account id wins over an API key.
    pub fn bearer(&self) -> (r: (String, Option<String>))
        requires
            has_credentials(*self),
        ensures
            (self.access_token is Some && self.account_id is Some) ==> r.0@ == "Bearer "@ + self.access_token.unwrap()@
                && opt_view(r.1) == opt_view(self.account_id),
            !(self.access_token is Some && self.account_id is Some) ==> r.0@ == "Bearer "@ + self.api_key.unwrap()@
                && r.1 is None,
    {
        match (&self.access_token, &self.account_id) {
            (Some(token), Some(account_id)) => (concat("Bearer ", token.as_str()), Some(account_id.clone())),
            _ => match &self.api_key {
                Some(key) => (concat("Bearer ", key.as_str()), None),
                None => {
                    proof {
                        assert(false);
                    }
                    (String::new(), None)
                },
            },
        }
    }
}


// ---------------------------------------------------------------------------
// Model catalogue
// ---------------------------------------------------------------------------

/// The canonical model a requested name resolves to, and the backends that serve it.
#[derive(Debug)]
pub struct ModelTarget {
    pub model_id: String,
    pub supports_codex_backend: bool,
    pub supports_responses_api: bool,
    pub supports_chat_completions: bool,
}

/// A model name that is passed through as given (`gpt-5.*` and `codex*`).
pub open spec fn is_explicit_model(m: Seq<char>) -> bool {
    seq_starts_with(m, "gpt-5."@) || seq_starts_with(m, "codex"@)
}

/// Legacy and generic names that are served by `gpt-5.3-codex`.
pub open spec fn is_codex_alias(m: Seq<char>) -> bool {
    m == "gpt-5.3-codex"@ || m == "gpt-4o"@ || m == "gpt-4o-2024-11-20"@ || m == "gpt-4"@
        || m == "gpt-4-turbo"@ || m == "gpt-4-turbo-preview"@ || m == "gpt-4o-mini"@
        || m == "gpt-3.5-turbo"@ || m == "gpt-3.5-turbo-0125"@
}

/// The resolution of a requested model: (model id, ChatGPT backend,
/// Responses API, Chat Completions).
pub open spec fn spec_resolve_model(m: Seq<char>) -> (Seq<char>, bool, bool, bool) {
    if m == "gpt-5.5"@ {
        ("gpt-5.5"@, true, true, true)
    } else if m == "gpt-5.5-pro"@ {
        ("gpt-5.5-pro"@, false, true, false)
    } else if m == "gpt-5.4"@ {
        ("gpt-5.4"@, true, true, true)
    } else if is_codex_alias(m) {
        ("gpt-5.3-codex"@, true, true, true)
    } else if m == "codex-mini"@ {
        ("codex-mini"@, false, true, true)
    } else if is_explicit_model(m) {
        (m, true, true, true)
    } else {
        ("gpt-5.3-codex"@, true, true, true)
    }
}

pub open spec fn model_target_view(t: ModelTarget) -> (Seq<char>, bool, bool, bool) {
    (t.model_id@, t.supports_codex_backend, t.supports_responses_api, t.supports_chat_completions)
}

fn target(id: &str, codex: bool, responses: bool, chat: bool) -> (t: ModelTarget)
    ensures
        model_target_view(t) == (id@, codex, responses, chat),
{
    ModelTarget {
        model_id: owned(id),
        supports_codex_backend: codex,
        supports_responses_api: responses,
        supports_chat_completions: chat,
    }
}

fn is_codex_alias_exec(m: &str) -> (b: bool)
    ensures
        b == is_codex_alias(m@),
{
    str_eq(m, "gpt-5.3-codex") || str_eq(m, "gpt-4o") || str_eq(m, "gpt-4o-2024-11-20")
        || str_eq(m, "gpt-4") || str_eq(m, "gpt-4-turbo") || str_eq(m, "gpt-4-turbo-preview")
        || str_eq(m, "gpt-4o-mini") || str_eq(m, "gpt-3.5-turbo") || str_eq(m, "gpt-3.5-turbo-0125")
}

/// Resolves a requested model name against the catalogue.
pub fn resolve_model(input: &str) -> (t: ModelTarget)
    ensures
        model_target_view(t) == spec_resolve_model(input@),
{
    if str_eq(input, "gpt-5.5") {
        target("gpt-5.5", true, true, true)
    } else if str_eq(input, "gpt-5.5-pro") {
        target("gpt-5.5-pro", false, true, false)
    } else if str_eq(input, "gpt-5.4") {
        target("gpt-5.4", true, true, true)
    } else if is_codex_alias_exec(input) {
        target("gpt-5.3-codex", true, true, true)
    } else if str_eq(input, "codex-mini") {
        target("codex-mini", false, true, true)
    } else if starts_with(input, "gpt-5.") || starts_with(input, "codex") {
        target(input, true, true, true)
    } else {
        target("gpt-5.3-codex", true, true, true)
    }
}

/// The canonical model id for a requested model name.
pub fn map_model(input: &str) -> (r: String)
    ensures
        r@ == spec_resolve_model(input@).0,
{
    resolve_model(input).model_id
}

proof fn lemma_not_prefixed(m: Seq<char>, a: Seq<char>)
    requires
        m == a,
        a.len() > 4,
        a[0] == 'g' && a[4] != '5',
    ensures
        !seq_starts_with(m, "gpt-5."@),
        !seq_starts_with(m, "codex"@),
{
    reveal_strlit("gpt-5.");
    reveal_strlit("codex");
    if seq_starts_with(m, "gpt-5."@) {
        assert(m.subrange(0, 6)[4] == m[4]);
    }
    if seq_starts_with(m, "codex"@) {
        assert(m.subrange(0, 5)[0] == m[0]);
    }
}

/// Explicit model ids pass through: every name that starts with `gpt-5.` or
/// `codex` resolves to itself, so a request for a catalogue model such as
/// `gpt-5.4-mini` reaches the backend under its own name.
pub proof fn law_explicit_models_resolve_to_themselves(m: Seq<char>)
    requires
        seq_starts_with(m, "gpt-5."@) || seq_starts_with(m, "codex"@),
    ensures
        spec_resolve_model(m).0 == m,
{
    reveal_strlit("gpt-4o");
    reveal_strlit("gpt-4o-2024-11-20");
    reveal_strlit("gpt-4");
    reveal_strlit("gpt-4-turbo");
    reveal_strlit("gpt-4-turbo-preview");
    reveal_strlit("gpt-4o-mini");
    reveal_strlit("gpt-3.5-turbo");
    reveal_strlit("gpt-3.5-turbo-0125");
    if m == "gpt-4o"@ { lemma_not_prefixed(m, "gpt-4o"@); }
    if m == "gpt-4o-2024-11-20"@ { lemma_not_prefixed(m, "gpt-4o-2024-11-20"@); }
    if m == "gpt-4"@ { lemma_not_prefixed(m, "gpt-4"@); }
    if m == "gpt-4-turbo"@ { lemma_not_prefixed(m, "gpt-4-turbo"@); }
    if m == "gpt-4-turbo-preview"@ { lemma_not_prefixed(m, "gpt-4-turbo-preview"@); }
    if m == "gpt-4o-mini"@ { lemma_not_prefixed(m, "gpt-4o-mini"@); }
    if m == "gpt-3.5-turbo"@ { lemma_not_prefixed(m, "gpt-3.5-turbo"@); }
    if m == "gpt-3.5-turbo-0125"@ { lemma_not_prefixed(m, "gpt-3.5-turbo-0125"@); }
}

/// Whether the resolved model is served by `profile`.
pub open spec fn spec_model_available(m: Seq<char>, profile: BackendProfile) -> bool {
    let t = spec_resolve_model(m);
    match profile {
        BackendProfile::ChatGptCodex => t.1,
        BackendProfile::OpenAiResponses => t.2,
        BackendProfile::OpenAiChatCompletions => t.3,
    }
}

/// Whether `target` is served by `profile`.
pub fn model_available(target: &ModelTarget, profile: BackendProfile) -> (b: bool)
    ensures
        b == match profile {
            BackendProfile::ChatGptCodex => target.supports_codex_backend,
            BackendProfile::OpenAiResponses => target.supports_responses_api,
            BackendProfile::OpenAiChatCompletions => target.supports_chat_completions,
        },
{
    match profile {
        BackendProfile::ChatGptCodex => target.supports_codex_backend,
        BackendProfile::OpenAiResponses => target.supports_responses_api,
        BackendProfile::OpenAiChatCompletions => target.supports_chat_completions,
    }
}

/// The model id sent upstream: an explicit `gpt-5.*`/`codex*` request keeps its
/// resolution; any other request is replaced by the configured default, if any.
pub open spec fn spec_resolve_model_id(req_model: Seq<char>, default_model: Option<Seq<char>>) -> Seq<char> {
    match default_model {
        Some(dm) => if is_explicit_model(req_model) { spec_resolve_model(req_model).0 } else { dm },
        None => spec_resolve_model(req_model).0,
    }
}

pub open spec fn opt_str_view(o: Option<&str>) -> Option<Seq<char>> {
    match o {
        Some(s) => Some(s@),
        None => None,
    }
}

fn resolve_model_id(req_model: &str, default_model: Option<&str>) -> (r: String)
    ensures
        r@ == spec_resolve_model_id(req_model@, opt_str_view(default_model)),
{
    let target = resolve_model(req_model);
    match default_model {
        Some(dm) => {
            let is_explicit = starts_with(req_model, "gpt-5.") || starts_with(req_model, "codex");
            if is_explicit {
                target.model_id
            } else {
                owned(dm)
            }
        },
        None => target.model_id,
    }
}


// ---------------------------------------------------------------------------
// Tool format conversion
// ---------------------------------------------------------------------------

/// The members `[(key, func[key])]` when `func` has the member `key`, else none.
pub open spec fn opt_member(func: JsonV, key: Seq<char>) -> Seq<(Seq<char>, JsonV)> {
    match json_get(func, key) {
        Some(v) => seq![(key, v)],
        None => Seq::empty(),
    }
}

/// A Chat Completions tool `{type: function, function: {...}}` flattened to the
/// Responses API form `{type: function, name, description, parameters, strict}`;
/// any other value is kept.
pub open spec fn spec_convert_tool(t: JsonV) -> JsonV {
    if has_str_member(t, "type"@, "function"@) && json_get(t, "function"@) is Some {
        let func = json_get(t, "function"@).unwrap();
        JsonV::Object(
            seq![("type"@, JsonV::Str("function"@))] + opt_member(func, "name"@) + opt_member(
                func,
                "description"@,
            ) + opt_member(func, "parameters"@) + opt_member(func, "strict"@),
        )
    } else {
        t
    }
}

/// Each tool of an array converted; a non-array value is kept.
pub open spec fn spec_convert_tools(v: JsonV) -> JsonV {
    match v {
        JsonV::Array(a) => JsonV::Array(a.map_values(|t: JsonV| spec_convert_tool(t))),
        _ => v,
    }
}

/// A Chat Completions `tool_choice` naming a function, `{type: function,
/// function: {name}}`, in the Responses API form `{type: function, name}`;
/// strings and other values are kept.
pub open spec fn spec_convert_tool_choice(v: JsonV) -> JsonV {
    if has_str_member(v, "type"@, "function"@) && json_get(v, "function"@) is Some
        && json_get(json_get(v, "function"@).unwrap(), "name"@) is Some {
        JsonV::Object(
            seq![
                ("type"@, JsonV::Str("function"@)),
                ("name"@, json_get(json_get(v, "function"@).unwrap(), "name"@).unwrap()),
            ],
        )
    } else {
        v
    }
}

fn push_member_if_present(entries: &mut Vec<(String, Json)>, func: &Json, key: &str)
    ensures
        json_entries_view(final(entries)@) == json_entries_view(old(entries)@) + opt_member(func@, key@),
{
    match func.get(key) {
        Some(v) => {
            let ghost before = entries@;
            let item = (owned(key), v.deep_clone());
            entries.push(item);
            proof {
                lemma_entries_view_push(before, item);
                assert(json_entries_view(entries@) =~= json_entries_view(before) + opt_member(func@, key@));
            }
        },
        None => {
            assert(json_entries_view(entries@) =~= json_entries_view(entries@) + opt_member(func@, key@));
        },
    }
}

fn convert_tool(tool: &Json) -> (r: Json)
    ensures
        r@ == spec_convert_tool(tool@),
{
    if tool.has_str_member("type", "function") {
        if let Some(func) = tool.get("function") {
            let mut entries: Vec<(String, Json)> = Vec::new();
            let first = (owned("type"), Json::string("function"));
            entries.push(first);
            proof {
                lemma_entries_view_push(Seq::empty(), first);
                assert(Seq::<(String, Json)>::empty().push(first) == entries@);
                assert(json_entries_view(Seq::<(String, Json)>::empty()) =~= Seq::empty());
            }
            push_member_if_present(&mut entries, func, "name");
            push_member_if_present(&mut entries, func, "description");
            push_member_if_present(&mut entries, func, "parameters");
            push_member_if_present(&mut entries, func, "strict");
            proof {
                assert(json_entries_view(entries@) =~= seq![("type"@, JsonV::Str("function"@))] + opt_member(func@, "name"@)
                    + opt_member(func@, "description"@) + opt_member(func@, "parameters"@) + opt_member(func@, "strict"@));
            }
            return Json::Object(entries);
        }
    }
    tool.deep_clone()
}

/// Converts a Chat Completions `tools` array to the Responses API format.
pub fn convert_tools_to_responses_format(tools: &Json) -> (r: Json)
    ensures
        r@ == spec_convert_tools(tools@),
{
    match tools {
        Json::Array(arr) => {
            let mut out: Vec<Json> = Vec::new();
            let mut i: usize = 0;
            proof {
                lemma_seq_view(arr@);
            }
            while i < arr.len()
                invariant
                    i <= arr.len(),
                    json_seq_view(arr@).len() == arr@.len(),
                    forall|k: int| 0 <= k < arr@.len() ==> #[trigger] json_seq_view(arr@)[k] == json_view(arr@[k]),
                    json_seq_view(out@) == json_seq_view(arr@).take(i as int).map_values(|t: JsonV| spec_convert_tool(t)),
                decreases arr.len() - i,
            {
                let c = convert_tool(&arr[i]);
                let ghost before = out@;
                out.push(c);
                proof {
                    lemma_seq_view_push(before, c);
                    assert(json_seq_view(arr@)[i as int] == arr@[i as int]@);
                    assert(json_seq_view(out@) =~= json_seq_view(arr@).take(i + 1).map_values(|t: JsonV| spec_convert_tool(t)));
                }
                i = i + 1;
            }
            proof {
                assert(json_seq_view(arr@).take(arr.len() as int) =~= json_seq_view(arr@));
            }
            Json::Array(out)
        },
        _ => tools.deep_clone(),
    }
}

/// Converts a Chat Completions `tool_choice` to the Responses API format.
pub fn convert_tool_choice_to_responses_format(tool_choice: &Json) -> (r: Json)
    ensures
        r@ == spec_convert_tool_choice(tool_choice@),
{
    if tool_choice.has_str_member("type", "function") {
        if let Some(func) = tool_choice.get("function") {
            if let Some(name) = func.get("name") {
                let mut entries: Vec<(String, Json)> = Vec::new();
                let a = (owned("type"), Json::string("function"));
                let b = (owned("name"), name.deep_clone());
                entries.push(a);
                entries.push(b);
                proof {
                    lemma_entries_view_push(Seq::empty(), a);
                    lemma_entries_view_push(seq![a], b);
                    assert(Seq::<(String, Json)>::empty().push(a) =~= seq![a]);
                    assert(seq![a].push(b) =~= entries@);
                    assert(json_entries_view(Seq::<(String, Json)>::empty()) =~= Seq::empty());
                    assert(json_entries_view(entries@) =~= seq![("type"@, JsonV::Str("function"@)), ("name"@, name@)]);
                }
                return Json::Object(entries);
            }
        }
    }
    tool_choice.deep_clone()
}


// ---------------------------------------------------------------------------
// Responses API request types
// ---------------------------------------------------------------------------

/// A content part of a Responses API message (`input_text` or `output_text`).
#[derive(Debug)]
pub struct ContentPart {
    pub part_type: String,
    pub text: String,
}

/// A user/assistant message of the Responses API input.
#[derive(Debug)]
pub struct InputMessage {
    pub role: String,
    pub content: Vec<ContentPart>,
}

/// `{ "type": "function_call_output", "call_id": ..., "output": ... }`
#[derive(Debug)]
pub struct FunctionCallOutput {
    pub item_type: String,
    pub call_id: String,
    pub output: String,
}

/// `{ "type": "function_call", "call_id": ..., "name": ..., "arguments": ... }`
#[derive(Debug)]
pub struct FunctionCallItem {
    pub item_type: String,
    pub call_id: String,
    pub name: String,
    pub arguments: String,
}

/// An input item of the Responses API.
#[derive(Debug)]
pub enum ResponsesInputItem {
    Message(InputMessage),
    FunctionCallOutput(FunctionCallOutput),
    FunctionCall(FunctionCallItem),
}

/// A Responses API request.
#[derive(Debug)]
pub struct ResponsesRequest {
    pub model: String,
    pub instructions: Option<String>,
    pub input: Vec<ResponsesInputItem>,
    pub stream: bool,
    pub max_output_tokens: Option<u32>,
    /// Bit pattern of the `f32` temperature.
    pub temperature: Option<u32>,
    /// Bit pattern of the `f32` nucleus-sampling parameter.
    pub top_p: Option<u32>,
    pub stop: Option<Json>,
    pub store: Option<bool>,
    pub tools: Option<Json>,
    pub tool_choice: Option<Json>,
    pub parallel_tool_calls: Option<bool>,
}

/// The mathematical form of an input item.
pub enum InputItemV {
    /// (role, [(part type, text)])
    Message(Seq<char>, Seq<(Seq<char>, Seq<char>)>),
    /// (item type, call id, output)
    CallOutput(Seq<char>, Seq<char>, Seq<char>),
    /// (item type, call id, name, arguments)
    Call(Seq<char>, Seq<char>, Seq<char>, Seq<char>),
}

pub open spec fn parts_view(v: Seq<ContentPart>) -> Seq<(Seq<char>, Seq<char>)> {
    v.map_values(|p: ContentPart| (p.part_type@, p.text@))
}

pub open spec fn input_item_view(x: ResponsesInputItem) -> InputItemV {
    match x {
        ResponsesInputItem::Message(m) => InputItemV::Message(m.role@, parts_view(m.content@)),
        ResponsesInputItem::FunctionCallOutput(o) => InputItemV::CallOutput(o.item_type@, o.call_id@, o.output@),
        ResponsesInputItem::FunctionCall(c) => InputItemV::Call(c.item_type@, c.call_id@, c.name@, c.arguments@),
    }
}

pub open spec fn items_view(v: Seq<ResponsesInputItem>) -> Seq<InputItemV> {
    v.map_values(|x: ResponsesInputItem| input_item_view(x))
}

pub open spec fn opt_json_view(o: Option<Json>) -> Option<JsonV> {
    match o {
        Some(j) => Some(j@),
        None => None,
    }
}

/// The mathematical form of a Responses API request.
pub struct ResponsesRequestV {
    pub model: Seq<char>,
    pub instructions: Option<Seq<char>>,
    pub input: Seq<InputItemV>,
    pub stream: bool,
    pub max_output_tokens: Option<u32>,
    pub temperature: Option<u32>,
    pub top_p: Option<u32>,
    pub stop: Option<JsonV>,
    pub store: Option<bool>,
    pub tools: Option<JsonV>,
    pub tool_choice: Option<JsonV>,
    pub parallel_tool_calls: Option<bool>,
}

impl View for ResponsesRequest {
    type V = ResponsesRequestV;

    open spec fn view(&self) -> ResponsesRequestV {
        ResponsesRequestV {
            model: self.model@,
            instructions: opt_view(self.instructions),
            input: items_view(self.input@),
            stream: self.stream,
            max_output_tokens: self.max_output_tokens,
            temperature: self.temperature,
            top_p: self.top_p,
            stop: opt_json_view(self.stop),
            store: self.store,
            tools: opt_json_view(self.tools),
            tool_choice: opt_json_view(self.tool_choice),
            parallel_tool_calls: self.parallel_tool_calls,
        }
    }
}

// ---------------------------------------------------------------------------
// Request conversion
// ---------------------------------------------------------------------------

/// The text of a content part list: the `text` of every part of type `text`, concatenated.
pub open spec fn spec_parts_text(parts: Seq<crate::openai::ContentPart>) -> Seq<char>
    decreases parts.len(),
{
    if parts.len() == 0 {
        Seq::empty()
    } else {
        let p = parts.last();
        spec_parts_text(parts.drop_last()) + if p.part_type@ == "text"@ && p.text is Some {
            p.text.unwrap()@
        } else {
            Seq::empty()
        }
    }
}

/// The plain text of a message content.
pub open spec fn spec_extract_text(c: MessageContent) -> Seq<char> {
    match c {
        MessageContent::Text(t) => t@,
        MessageContent::Parts(parts) => spec_parts_text(parts@),
        MessageContent::Null => Seq::empty(),
    }
}

/// Extracts the plain text of a message content.
pub fn extract_text(content: &MessageContent) -> (r: String)
    ensures
        r@ == spec_extract_text(*content),
{
    match content {
        MessageContent::Text(t) => t.clone(),
        MessageContent::Parts(parts) => {
            let mut out = String::new();
            let mut i: usize = 0;
            while i < parts.len()
                invariant
                    i <= parts.len(),
                    out@ == spec_parts_text(parts@.take(i as int)),
                decreases parts.len() - i,
            {
                proof {
                    assert(parts@.take(i + 1).drop_last() =~= parts@.take(i as int));
                }
                let p = &parts[i];
                if str_eq(p.part_type.as_str(), "text") {
                    if let Some(t) = &p.text {
                        out.append(t.as_str());
                    }
                }
                i = i + 1;
            }
            proof {
                assert(parts@.take(parts.len() as int) =~= parts@);
            }
            out
        },
        MessageContent::Null => String::new(),
    }
}

/// The `function_call` items re-submitting an assistant's tool calls.
pub open spec fn spec_call_items(calls: Seq<ToolCall>) -> Seq<InputItemV> {
    calls.map_values(|t: ToolCall| InputItemV::Call("function_call"@, t.id@, t.function.name@, t.function.arguments@))
}

/// The input items one chat message becomes: none for `system`; a
/// `function_call_output` for `tool`; the tool calls and any text for
/// `assistant`; an `input_text` message for any other role.
pub open spec fn spec_message_items(m: Message) -> Seq<InputItemV> {
    let text = spec_extract_text(m.content);
    if m.role@ == "system"@ {
        Seq::empty()
    } else if m.role@ == "tool"@ {
        seq![InputItemV::CallOutput(
            "function_call_output"@,
            match m.tool_call_id { Some(id) => id@, None => Seq::empty() },
            text,
        )]
    } else if m.role@ == "assistant"@ {
        (match m.tool_calls { Some(calls) => spec_call_items(calls@), None => Seq::empty() })
            + if text.len() > 0 {
            seq![InputItemV::Message("assistant"@, seq![("output_text"@, text)])]
        } else {
            Seq::empty()
        }
    } else {
        seq![InputItemV::Message(m.role@, seq![("input_text"@, text)])]
    }
}

/// The input items of a conversation, in order.
pub open spec fn spec_input_items(msgs: Seq<Message>) -> Seq<InputItemV>
    decreases msgs.len(),
{
    if msgs.len() == 0 {
        Seq::empty()
    } else {
        spec_input_items(msgs.drop_last()) + spec_message_items(msgs.last())
    }
}

/// The texts of the `system` messages of a conversation, in order.
pub open spec fn spec_system_parts(msgs: Seq<Message>) -> Seq<Seq<char>>
    decreases msgs.len(),
{
    if msgs.len() == 0 {
        Seq::empty()
    } else {
        spec_system_parts(msgs.drop_last()) + if msgs.last().role@ == "system"@ {
            seq![spec_extract_text(msgs.last().content)]
        } else {
            Seq::empty()
        }
    }
}

/// The Responses input: the conversation's items, or one empty user message
/// when there are none.
pub open spec fn spec_input(msgs: Seq<Message>) -> Seq<InputItemV> {
    if spec_input_items(msgs).len() == 0 {
        seq![InputItemV::Message("user"@, seq![("input_text"@, Seq::empty())])]
    } else {
        spec_input_items(msgs)
    }
}

/// The instructions: the system texts joined by blank lines, or a default prompt.
pub open spec fn spec_instructions(msgs: Seq<Message>) -> Seq<char> {
    if spec_system_parts(msgs).len() == 0 {
        "You are a helpful assistant."@
    } else {
        seq_join(spec_system_parts(msgs), "\n\n"@)
    }
}

/// The Responses API request for a Chat Completions request on a Responses profile.
pub open spec fn spec_convert_request(
    req: ChatCompletionRequest,
    default_model: Option<Seq<char>>,
    profile: BackendProfile,
) -> ResponsesRequestV {
    let codex = profile == BackendProfile::ChatGptCodex;
    ResponsesRequestV {
        model: spec_resolve_model_id(req.model@, default_model),
        instructions: Some(spec_instructions(req.messages@)),
        input: spec_input(req.messages@),
        stream: if codex { true } else { req.stream },
        max_output_tokens: if codex { None } else { req.max_tokens },
        temperature: if codex { None } else { req.temperature },
        top_p: if codex { None } else { req.top_p },
        stop: if codex { None } else { opt_json_view(req.stop) },
        store: if codex { Some(false) } else { None },
        tools: match req.tools { Some(t) => Some(spec_convert_tools(t@)), None => None },
        tool_choice: match req.tool_choice { Some(t) => Some(spec_convert_tool_choice(t@)), None => None },
        parallel_tool_calls: req.parallel_tool_calls,
    }
}

fn text_message(role: &str, part_type: &str, text: String) -> (r: ResponsesInputItem)
    ensures
        input_item_view(r) == InputItemV::Message(role@, seq![(part_type@, text@)]),
{
    let part = ContentPart { part_type: owned(part_type), text };
    let mut content: Vec<ContentPart> = Vec::new();
    content.push(part);
    proof {
        assert(parts_view(content@) =~= seq![(part_type@, text@)]);
    }
    ResponsesInputItem::Message(InputMessage { role: owned(role), content })
}

fn push_item(items: &mut Vec<ResponsesInputItem>, x: ResponsesInputItem)
    ensures
        items_view(final(items)@) == items_view(old(items)@).push(input_item_view(x)),
{
    items.push(x);
    proof {
        assert(items_view(final(items)@) =~= items_view(old(items)@).push(input_item_view(x)));
    }
}

fn push_message_items(items: &mut Vec<ResponsesInputItem>, msg: &Message)
    ensures
        items_view(final(items)@) == items_view(old(items)@) + spec_message_items(*msg),
{
    let ghost start = items_view(items@);
    if str_eq(msg.role.as_str(), "system") {
        assert(items_view(items@) =~= start + spec_message_items(*msg));
    } else if str_eq(msg.role.as_str(), "tool") {
        let call_id = match &msg.tool_call_id {
            Some(id) => id.clone(),
            None => String::new(),
        };
        let output = extract_text(&msg.content);
        push_item(items, ResponsesInputItem::FunctionCallOutput(FunctionCallOutput {
            item_type: owned("function_call_output"),
            call_id,
            output,
        }));
        assert(items_view(items@) =~= start + spec_message_items(*msg));
    } else if str_eq(msg.role.as_str(), "assistant") {
        let ghost calls_spec = match &msg.tool_calls { Some(calls) => spec_call_items(calls@), None => Seq::empty() };
        if let Some(tool_calls) = &msg.tool_calls {
            let mut j: usize = 0;
            while j < tool_calls.len()
                invariant
                    j <= tool_calls.len(),
                    msg.tool_calls == Some(*tool_calls),
                    items_view(items@) == start + spec_call_items(tool_calls@.take(j as int)),
                decreases tool_calls.len() - j,
            {
                let tc = &tool_calls[j];
                push_item(items, ResponsesInputItem::FunctionCall(FunctionCallItem {
                    item_type: owned("function_call"),
                    call_id: tc.id.clone(),
                    name: tc.function.name.clone(),
                    arguments: tc.function.arguments.clone(),
                }));
                proof {
                    assert(spec_call_items(tool_calls@.take(j + 1)) =~= spec_call_items(tool_calls@.take(j as int)).push(
                        InputItemV::Call("function_call"@, tc.id@, tc.function.name@, tc.function.arguments@),
                    ));
                }
                j = j + 1;
            }
            proof {
                assert(tool_calls@.take(tool_calls.len() as int) =~= tool_calls@);
            }
        } else {
            assert(items_view(items@) =~= start + calls_spec);
        }
        let text = extract_text(&msg.content);
        if !text.as_str().is_empty() {
            push_item(items, text_message("assistant", "output_text", text));
        }
        assert(items_view(items@) =~= start + spec_message_items(*msg));
    } else {
        let text = extract_text(&msg.content);
        push_item(items, text_message(msg.role.as_str(), "input_text", text));
        assert(items_view(items@) =~= start + spec_message_items(*msg));
    }
}

/// An input item that is a message with the `system` role.
pub open spec fn is_system_item(x: InputItemV) -> bool {
    x matches InputItemV::Message(role, _) && role == "system"@
}

/// System messages never reach the Responses input: their text goes to the
/// instructions, and the input is never empty.
pub proof fn law_system_text_goes_to_instructions(msgs: Seq<Message>)
    ensures
        forall|i: int| 0 <= i < spec_input(msgs).len() ==> !is_system_item(#[trigger] spec_input(msgs)[i]),
        spec_input(msgs).len() >= 1,
{
    reveal_strlit("system");
    reveal_strlit("user");
    lemma_no_system_items(msgs);
    if spec_input_items(msgs).len() == 0 {
        assert("user"@[0] != "system"@[0]);
        assert(!is_system_item(spec_input(msgs)[0]));
    }
}

proof fn lemma_no_system_items(msgs: Seq<Message>)
    ensures
        forall|i: int| 0 <= i < spec_input_items(msgs).len() ==> !is_system_item(#[trigger] spec_input_items(msgs)[i]),
    decreases msgs.len(),
{
    reveal_strlit("system");
    reveal_strlit("assistant");
    if msgs.len() > 0 {
        lemma_no_system_items(msgs.drop_last());
        let prev = spec_input_items(msgs.drop_last());
        let last = spec_message_items(msgs.last());
        assert forall|i: int| 0 <= i < last.len() implies !is_system_item(#[trigger] last[i]) by {
            let m = msgs.last();
            if m.role@ != "system"@ && m.role@ != "tool"@ && m.role@ == "assistant"@ {
                let calls = match m.tool_calls { Some(calls) => spec_call_items(calls@), None => Seq::<InputItemV>::empty() };
                if i < calls.len() {
                    assert(calls[i] is Call);
                }
            }
        }
        assert forall|i: int| 0 <= i < spec_input_items(msgs).len() implies !is_system_item(#[trigger] spec_input_items(msgs)[i]) by {
            if i < prev.len() {
                assert(spec_input_items(msgs)[i] == prev[i]);
            } else {
                assert(spec_input_items(msgs)[i] == last[i - prev.len()]);
            }
        }
    }
}

proof fn lemma_items_contain(msgs: Seq<Message>, i: int, x: InputItemV)
    requires
        0 <= i < msgs.len(),
        spec_message_items(msgs[i]).contains(x),
    ensures
        spec_input_items(msgs).contains(x),
    decreases msgs.len(),
{
    let prev = spec_input_items(msgs.drop_last());
    let last = spec_message_items(msgs.last());
    assert(spec_input_items(msgs) == prev + last);
    if i < msgs.len() - 1 {
        assert(msgs.drop_last()[i] == msgs[i]);
        lemma_items_contain(msgs.drop_last(), i, x);
        let k = choose|k: int| 0 <= k < prev.len() && prev[k] == x;
        assert((prev + last)[k] == x);
    } else {
        let k = choose|k: int| 0 <= k < last.len() && last[k] == x;
        assert((prev + last)[prev.len() + k] == x);
    }
}

/// No conversation text is lost in the conversion, except system text (which
/// becomes the instructions): each assistant message's text reaches the input
/// as an assistant `output_text` message, and each of its tool calls as a
/// `function_call` item; each tool result as a `function_call_output`; and each
/// message of any other role as an `input_text` message of that role.
pub proof fn law_conversation_kept(msgs: Seq<Message>, i: int)
    requires
        0 <= i < msgs.len(),
    ensures
        ({
            let m = msgs[i];
            let text = spec_extract_text(m.content);
            let input = spec_input(msgs);
            &&& (m.role@ == "assistant"@ && text.len() > 0)
                ==> input.contains(InputItemV::Message("assistant"@, seq![("output_text"@, text)]))
            &&& (m.role@ == "assistant"@ && m.tool_calls is Some) ==> forall|j: int| 0 <= j < m.tool_calls->0@.len()
                ==> input.contains(InputItemV::Call(
                    "function_call"@,
                    #[trigger] m.tool_calls->0@[j].id@,
                    m.tool_calls->0@[j].function.name@,
                    m.tool_calls->0@[j].function.arguments@,
                ))
            &&& m.role@ == "tool"@ ==> input.contains(InputItemV::CallOutput(
                "function_call_output"@,
                match m.tool_call_id { Some(id) => id@, None => Seq::empty() },
                text,
            ))
            &&& (m.role@ != "system"@ && m.role@ != "tool"@ && m.role@ != "assistant"@)
                ==> input.contains(InputItemV::Message(m.role@, seq![("input_text"@, text)]))
        }),
{
    let m = msgs[i];
    let text = spec_extract_text(m.content);
    let items = spec_message_items(m);
    reveal_strlit("system");
    reveal_strlit("tool");
    reveal_strlit("assistant");
    assert("system"@.len() == 6 && "tool"@.len() == 4 && "assistant"@.len() == 9);
    if m.role@ == "assistant"@ {
        assert(m.role@ != "system"@ && m.role@ != "tool"@);
        let calls = match m.tool_calls { Some(c) => spec_call_items(c@), None => Seq::<InputItemV>::empty() };
        let tail = if text.len() > 0 {
            seq![InputItemV::Message("assistant"@, seq![("output_text"@, text)])]
        } else {
            Seq::<InputItemV>::empty()
        };
        assert(items == calls + tail);
        if text.len() > 0 {
            let x = InputItemV::Message("assistant"@, seq![("output_text"@, text)]);
            assert(items[calls.len() as int] == x);
            lemma_items_contain(msgs, i, x);
        }
        if m.tool_calls is Some {
            assert forall|j: int| 0 <= j < m.tool_calls->0@.len() implies spec_input(msgs).contains(InputItemV::Call(
                "function_call"@,
                #[trigger] m.tool_calls->0@[j].id@,
                m.tool_calls->0@[j].function.name@,
                m.tool_calls->0@[j].function.arguments@,
            )) by {
                let t = m.tool_calls->0@[j];
                let x = InputItemV::Call("function_call"@, t.id@, t.function.name@, t.function.arguments@);
                assert(calls[j] == x);
                assert(items[j] == x);
                lemma_items_contain(msgs, i, x);
            }
        }
    } else if m.role@ == "tool"@ {
        assert(m.role@ != "system"@);
        let x = InputItemV::CallOutput(
            "function_call_output"@,
            match m.tool_call_id { Some(id) => id@, None => Seq::empty() },
            text,
        );
        assert(items[0] == x);
        lemma_items_contain(msgs, i, x);
    } else if m.role@ != "system"@ {
        let x = InputItemV::Message(m.role@, seq![("input_text"@, text)]);
        assert(items[0] == x);
        lemma_items_contain(msgs, i, x);
    }
}

/// The backend profile decides only the sampling parameters, `stream` and
/// `store`: the ChatGPT backend always streams, never stores and gets no
/// `temperature`, `top_p`, `max_output_tokens` or `stop`; the Responses API
/// gets them as the client sent them. Model, instructions, input and tools are
/// the same on both.
pub proof fn law_profile_parameters(req: ChatCompletionRequest, default_model: Option<Seq<char>>)
    ensures
        ({
            let c = spec_convert_request(req, default_model, BackendProfile::ChatGptCodex);
            let o = spec_convert_request(req, default_model, BackendProfile::OpenAiResponses);
            &&& c.stream && c.store == Some(false)
            &&& c.temperature is None && c.top_p is None && c.max_output_tokens is None && c.stop is None
            &&& o.stream == req.stream && o.store is None
            &&& o.temperature == req.temperature && o.top_p == req.top_p
            &&& o.max_output_tokens == req.max_tokens && o.stop == opt_json_view(req.stop)
            &&& c.model == o.model && c.instructions == o.instructions && c.input == o.input
            &&& c.tools == o.tools && c.tool_choice == o.tool_choice
            &&& c.parallel_tool_calls == o.parallel_tool_calls
        }),
{
}

/// Converts a Chat Completions request to the Responses API wire format.
/// The Chat Completions profile does not use this conversion.
pub fn convert_request(
    req: &ChatCompletionRequest,
    default_model: Option<&str>,
    profile: BackendProfile,
) -> (r: ResponsesRequest)
    requires
        profile != BackendProfile::OpenAiChatCompletions,
    ensures
        r@ == spec_convert_request(*req, opt_str_view(default_model), profile),
{
    let model = resolve_model_id(req.model.as_str(), default_model);
    let mut system_parts: Vec<String> = Vec::new();
    let mut input_items: Vec<ResponsesInputItem> = Vec::new();
    let mut i: usize = 0;
    while i < req.messages.len()
        invariant
            i <= req.messages.len(),
            items_view(input_items@) == spec_input_items(req.messages@.take(i as int)),
            views(system_parts@) == spec_system_parts(req.messages@.take(i as int)),
        decreases req.messages.len() - i,
    {
        let msg = &req.messages[i];
        proof {
            assert(req.messages@.take(i + 1).drop_last() =~= req.messages@.take(i as int));
            assert(req.messages@.take(i + 1).last() == *msg);
        }
        if str_eq(msg.role.as_str(), "system") {
            let t = extract_text(&msg.content);
            let ghost before = system_parts@;
            system_parts.push(t);
            proof {
                assert(views(system_parts@) =~= views(before).push(t@));
            }
        }
        push_message_items(&mut input_items, msg);
        i = i + 1;
    }
    proof {
        assert(req.messages@.take(req.messages.len() as int) =~= req.messages@);
    }
    if input_items.len() == 0 {
        push_item(&mut input_items, text_message("user", "input_text", String::new()));
        assert(items_view(input_items@) =~= spec_input(req.messages@));
    }
    let instructions = if system_parts.len() == 0 {
        owned("You are a helpful assistant.")
    } else {
        join(&system_parts, "\n\n")
    };
    let tools = match &req.tools {
        Some(t) => Some(convert_tools_to_responses_format(t)),
        None => None,
    };
    let tool_choice = match &req.tool_choice {
        Some(t) => Some(convert_tool_choice_to_responses_format(t)),
        None => None,
    };
    let codex = match profile {
        BackendProfile::ChatGptCodex => true,
        _ => false,
    };
    let stop = if codex {
        None
    } else {
        match &req.stop {
            Some(s) => Some(s.deep_clone()),
            None => None,
        }
    };
    ResponsesRequest {
        model,
        instructions: Some(instructions),
        input: input_items,
        stream: if codex { true } else { req.stream },
        max_output_tokens: if codex { None } else { req.max_tokens },
        temperature: if codex { None } else { req.temperature },
        top_p: if codex { None } else { req.top_p },
        stop,
        store: if codex { Some(false) } else { None },
        tools,
        tool_choice,
        parallel_tool_calls: req.parallel_tool_calls,
    }
}


// ---------------------------------------------------------------------------
// Chat Completions outbound
// ---------------------------------------------------------------------------

/// A Chat Completions request forwarded to the Chat Completions backend.
#[derive(Debug)]
pub struct ChatCompletionsOutbound {
    pub model: String,
    pub messages: Vec<Json>,
    pub stream: bool,
    pub max_completion_tokens: Option<u32>,
    /// Bit pattern of the `f32` temperature.
    pub temperature: Option<u32>,
    /// Bit pattern of the `f32` nucleus-sampling parameter.
    pub top_p: Option<u32>,
    pub stop: Option<Json>,
    pub tools: Option<Json>,
    pub tool_choice: Option<Json>,
    pub parallel_tool_calls: Option<bool>,
}

/// The JSON form of a content part: `{type, text?}`.
pub open spec fn spec_part_json(p: crate::openai::ContentPart) -> JsonV {
    JsonV::Object(
        seq![("type"@, JsonV::Str(p.part_type@))] + match p.text {
            Some(t) => seq![("text"@, JsonV::Str(t@))],
            None => Seq::empty(),
        },
    )
}

/// The JSON form of a message content.
pub open spec fn spec_content_json(c: MessageContent) -> JsonV {
    match c {
        MessageContent::Text(t) => JsonV::Str(t@),
        MessageContent::Parts(ps) => JsonV::Array(ps@.map_values(|p: crate::openai::ContentPart| spec_part_json(p))),
        MessageContent::Null => JsonV::Null,
    }
}

/// The JSON form of a tool call: `{id, type, function: {name, arguments}}`.
pub open spec fn spec_tool_call_json(t: ToolCall) -> JsonV {
    JsonV::Object(
        seq![
            ("id"@, JsonV::Str(t.id@)),
            ("type"@, JsonV::Str(t.call_type@)),
            ("function"@, JsonV::Object(seq![
                ("name"@, JsonV::Str(t.function.name@)),
                ("arguments"@, JsonV::Str(t.function.arguments@)),
            ])),
        ],
    )
}

/// The JSON form of a chat message; absent optional members are omitted.
pub open spec fn spec_message_json(m: Message) -> JsonV {
    JsonV::Object(
        seq![("role"@, JsonV::Str(m.role@)), ("content"@, spec_content_json(m.content))]
            + match m.tool_call_id {
            Some(id) => seq![("tool_call_id"@, JsonV::Str(id@))],
            None => Seq::empty(),
        } + match m.tool_calls {
            Some(calls) => seq![("tool_calls"@, JsonV::Array(calls@.map_values(|t: ToolCall| spec_tool_call_json(t))))],
            None => Seq::empty(),
        } + match m.name {
            Some(n) => seq![("name"@, JsonV::Str(n@))],
            None => Seq::empty(),
        },
    )
}

fn part_json(p: &crate::openai::ContentPart) -> (r: Json)
    ensures
        r@ == spec_part_json(*p),
{
    let mut es: Vec<(String, Json)> = Vec::new();
    proof { lemma_entries_empty(); }
    push_entry(&mut es, "type", Json::string(p.part_type.as_str()));
    match &p.text {
        Some(t) => {
            push_entry(&mut es, "text", Json::string(t.as_str()));
        },
        None => {},
    }
    assert(json_entries_view(es@) =~= (seq![("type"@, JsonV::Str(p.part_type@))] + match p.text {
            Some(t) => seq![("text"@, JsonV::Str(t@))],
            None => Seq::empty(),
        }));
    Json::Object(es)
}

fn content_json(c: &MessageContent) -> (r: Json)
    ensures
        r@ == spec_content_json(*c),
{
    match c {
        MessageContent::Text(t) => Json::string(t.as_str()),
        MessageContent::Parts(ps) => {
            let mut out: Vec<Json> = Vec::new();
            let mut i: usize = 0;
            proof { lemma_entries_empty(); }
            while i < ps.len()
                invariant
                    i <= ps.len(),
                    json_seq_view(out@) == ps@.take(i as int).map_values(|p: crate::openai::ContentPart| spec_part_json(p)),
                decreases ps.len() - i,
            {
                push_elem(&mut out, part_json(&ps[i]));
                proof {
                    assert(ps@.take(i + 1).map_values(|p: crate::openai::ContentPart| spec_part_json(p))
                        =~= ps@.take(i as int).map_values(|p: crate::openai::ContentPart| spec_part_json(p)).push(spec_part_json(ps@[i as int])));
                }
                i = i + 1;
            }
            proof {
                assert(ps@.take(ps.len() as int) =~= ps@);
            }
            Json::Array(out)
        },
        MessageContent::Null => Json::Null,
    }
}

fn tool_call_json(t: &ToolCall) -> (r: Json)
    ensures
        r@ == spec_tool_call_json(*t),
{
    let mut f: Vec<(String, Json)> = Vec::new();
    proof { lemma_entries_empty(); }
    push_entry(&mut f, "name", Json::string(t.function.name.as_str()));
    push_entry(&mut f, "arguments", Json::string(t.function.arguments.as_str()));
    let mut es: Vec<(String, Json)> = Vec::new();
    push_entry(&mut es, "id", Json::string(t.id.as_str()));
    push_entry(&mut es, "type", Json::string(t.call_type.as_str()));
    push_entry(&mut es, "function", Json::Object(f));
    assert(json_entries_view(f@) =~= seq![("name"@, JsonV::Str(t.function.name@)), ("arguments"@, JsonV::Str(t.function.arguments@))]);
    assert(json_entries_view(es@) =~= seq![
            ("id"@, JsonV::Str(t.id@)),
            ("type"@, JsonV::Str(t.call_type@)),
            ("function"@, JsonV::Object(json_entries_view(f@))),
        ]);
    Json::Object(es)
}

/// The JSON form of a chat message.
pub fn message_to_json(m: &Message) -> (r: Json)
    ensures
        r@ == spec_message_json(*m),
{
    let mut es: Vec<(String, Json)> = Vec::new();
    proof { lemma_entries_empty(); }
    push_entry(&mut es, "role", Json::string(m.role.as_str()));
    push_entry(&mut es, "content", content_json(&m.content));
    let ghost base = json_entries_view(es@);
    match &m.tool_call_id {
        Some(id) => push_entry(&mut es, "tool_call_id", Json::string(id.as_str())),
        None => {},
    }
    let ghost after_id = json_entries_view(es@);
    match &m.tool_calls {
        Some(calls) => {
            let mut arr: Vec<Json> = Vec::new();
            let mut i: usize = 0;
            while i < calls.len()
                invariant
                    i <= calls.len(),
                    json_seq_view(arr@) == calls@.take(i as int).map_values(|t: ToolCall| spec_tool_call_json(t)),
                decreases calls.len() - i,
            {
                push_elem(&mut arr, tool_call_json(&calls[i]));
                proof {
                    assert(calls@.take(i + 1).map_values(|t: ToolCall| spec_tool_call_json(t))
                        =~= calls@.take(i as int).map_values(|t: ToolCall| spec_tool_call_json(t)).push(spec_tool_call_json(calls@[i as int])));
                }
                i = i + 1;
            }
            proof {
                assert(calls@.take(calls.len() as int) =~= calls@);
            }
            push_entry(&mut es, "tool_calls", Json::Array(arr));
        },
        None => {},
    }
    let ghost after_calls = json_entries_view(es@);
    match &m.name {
        Some(n) => push_entry(&mut es, "name", Json::string(n.as_str())),
        None => {},
    }
    assert(base =~= seq![("role"@, JsonV::Str(m.role@)), ("content"@, spec_content_json(m.content))]);
    assert(json_entries_view(es@) =~= seq![("role"@, JsonV::Str(m.role@)), ("content"@, spec_content_json(m.content))]
            + match m.tool_call_id {
            Some(id) => seq![("tool_call_id"@, JsonV::Str(id@))],
            None => Seq::empty(),
        } + match m.tool_calls {
            Some(calls) => seq![("tool_calls"@, JsonV::Array(calls@.map_values(|t: ToolCall| spec_tool_call_json(t))))],
            None => Seq::empty(),
        } + match m.name {
            Some(n) => seq![("name"@, JsonV::Str(n@))],
            None => Seq::empty(),
        });
    Json::Object(es)
}

/// The mathematical form of a Chat Completions outbound request.
pub struct ChatCompletionsOutboundV {
    pub model: Seq<char>,
    pub messages: Seq<JsonV>,
    pub stream: bool,
    pub max_completion_tokens: Option<u32>,
    pub temperature: Option<u32>,
    pub top_p: Option<u32>,
    pub stop: Option<JsonV>,
    pub tools: Option<JsonV>,
    pub tool_choice: Option<JsonV>,
    pub parallel_tool_calls: Option<bool>,
}

impl View for ChatCompletionsOutbound {
    type V = ChatCompletionsOutboundV;

    open spec fn view(&self) -> ChatCompletionsOutboundV {
        ChatCompletionsOutboundV {
            model: self.model@,
            messages: json_seq_view(self.messages@),
            stream: self.stream,
            max_completion_tokens: self.max_completion_tokens,
            temperature: self.temperature,
            top_p: self.top_p,
            stop: opt_json_view(self.stop),
            tools: opt_json_view(self.tools),
            tool_choice: opt_json_view(self.tool_choice),
            parallel_tool_calls: self.parallel_tool_calls,
        }
    }
}

/// The Chat Completions backend receives the request as it came, with the
/// model resolved and `max_tokens` sent as `max_completion_tokens`.
pub open spec fn spec_build_chat_completions_request(
    req: ChatCompletionRequest,
    default_model: Option<Seq<char>>,
) -> ChatCompletionsOutboundV {
    ChatCompletionsOutboundV {
        model: spec_resolve_model_id(req.model@, default_model),
        messages: req.messages@.map_values(|m: Message| spec_message_json(m)),
        stream: req.stream,
        max_completion_tokens: req.max_tokens,
        temperature: req.temperature,
        top_p: req.top_p,
        stop: opt_json_view(req.stop),
        tools: opt_json_view(req.tools),
        tool_choice: opt_json_view(req.tool_choice),
        parallel_tool_calls: req.parallel_tool_calls,
    }
}

fn clone_opt_json(o: &Option<Json>) -> (r: Option<Json>)
    ensures
        opt_json_view(r) == opt_json_view(*o),
{
    match o {
        Some(j) => Some(j.deep_clone()),
        None => None,
    }
}

/// Builds the request sent to the Chat Completions backend.
pub fn build_chat_completions_request(req: &ChatCompletionRequest, default_model: Option<&str>) -> (r: ChatCompletionsOutbound)
    ensures
        r@ == spec_build_chat_completions_request(*req, opt_str_view(default_model)),
{
    let model = resolve_model_id(req.model.as_str(), default_model);
    let mut messages: Vec<Json> = Vec::new();
    let mut i: usize = 0;
    proof { lemma_entries_empty(); }
    while i < req.messages.len()
        invariant
            i <= req.messages.len(),
            json_seq_view(messages@) == req.messages@.take(i as int).map_values(|m: Message| spec_message_json(m)),
        decreases req.messages.len() - i,
    {
        push_elem(&mut messages, message_to_json(&req.messages[i]));
        proof {
            assert(req.messages@.take(i + 1).map_values(|m: Message| spec_message_json(m))
                =~= req.messages@.take(i as int).map_values(|m: Message| spec_message_json(m)).push(spec_message_json(req.messages@[i as int])));
        }
        i = i + 1;
    }
    proof {
        assert(req.messages@.take(req.messages.len() as int) =~= req.messages@);
    }
    ChatCompletionsOutbound {
        model,
        messages,
        stream: req.stream,
        max_completion_tokens: req.max_tokens,
        temperature: req.temperature,
        top_p: req.top_p,
        stop: clone_opt_json(&req.stop),
        tools: clone_opt_json(&req.tools),
        tool_choice: clone_opt_json(&req.tool_choice),
        parallel_tool_calls: req.parallel_tool_calls,
    }
}


// ---------------------------------------------------------------------------
// Responses API streaming events
// ---------------------------------------------------------------------------

/// Metadata of an output item when it first appears.
#[derive(Debug)]
pub struct OutputItemMeta {
    pub id: Option<String>,
    pub item_type: Option<String>,
    pub name: Option<String>,
    pub call_id: Option<String>,
}

/// An output item once it is complete.
#[derive(Debug)]
pub struct OutputItemFull {
    pub id: Option<String>,
    pub item_type: Option<String>,
    pub name: Option<String>,
    pub call_id: Option<String>,
    pub arguments: Option<String>,
}

/// The type of a content part.
#[derive(Debug)]
pub struct ContentPartMeta {
    pub part_type: String,
}

/// `response.created` data.
#[derive(Debug)]
pub struct ResponseCreatedData {
    pub id: String,
    pub model: String,
}

/// Token usage reported on completion.
#[derive(Debug)]
pub struct ResponseUsage {
    pub input_tokens: u32,
    pub output_tokens: u32,
    pub total_tokens: u32,
}

/// `response.completed` data.
#[derive(Debug)]
pub struct ResponseDoneData {
    pub id: String,
    pub model: String,
    pub usage: Option<ResponseUsage>,
    pub status: Option<String>,
}

/// A server-sent event of the Responses API stream.
#[derive(Debug)]
pub enum ResponseStreamEvent {
    ResponseCreated { response: ResponseCreatedData },
    ResponseInProgress {},
    ResponseOutputItemAdded { output_index: u32, item: OutputItemMeta },
    ResponseContentPartAdded { output_index: u32, content_index: u32, part: ContentPartMeta },
    ResponseOutputTextDelta { output_index: u32, content_index: u32, delta: String },
    ResponseOutputTextDone { output_index: u32, content_index: u32, text: String },
    ResponseContentPartDone { output_index: u32, content_index: u32, part: ContentPartMeta },
    ResponseFunctionCallArgumentsDelta { output_index: u32, delta: String },
    ResponseFunctionCallArgumentsDone { output_index: u32, arguments: String },
    ResponseOutputItemDone { output_index: u32, item: OutputItemFull },
    ResponseDone { response: ResponseDoneData },
    Unknown,
}

/// The Chat Completions finish reason for a Responses status.
pub open spec fn spec_map_finish_reason(status: Option<Seq<char>>) -> Seq<char> {
    match status {
        Some(s) => if s == "completed"@ {
            "stop"@
        } else if s == "max_tokens"@ || s == "length"@ || s == "incomplete"@ {
            "length"@
        } else if s == "tool_calls"@ {
            "tool_calls"@
        } else {
            s
        },
        None => "stop"@,
    }
}

/// Maps a Responses API status to a Chat Completions finish reason.
pub fn map_finish_reason(status: Option<&str>) -> (r: String)
    ensures
        r@ == spec_map_finish_reason(opt_str_view(status)),
{
    match status {
        Some(s) => if str_eq(s, "completed") {
            owned("stop")
        } else if str_eq(s, "max_tokens") || str_eq(s, "length") || str_eq(s, "incomplete") {
            owned("length")
        } else if str_eq(s, "tool_calls") {
            owned("tool_calls")
        } else {
            owned(s)
        },
        None => owned("stop"),
    }
}

// ---------------------------------------------------------------------------
// Chat Completions streaming chunks
// ---------------------------------------------------------------------------

/// A streaming `chat.completion.chunk`.
#[derive(Debug)]
pub struct ChatCompletionChunk {
    pub id: String,
    pub object: &'static str,
    pub created: u64,
    pub model: String,
    pub choices: Vec<ChunkChoice>,
}

/// The single choice of a chunk.
#[derive(Debug)]
pub struct ChunkChoice {
    pub index: u32,
    pub delta: Delta,
    pub finish_reason: Option<String>,
}

/// The delta of a chunk.
#[derive(Debug)]
pub struct Delta {
    pub role: Option<&'static str>,
    pub content: Option<String>,
    pub tool_calls: Option<Vec<ToolCallDelta>>,
}

/// A streaming tool call delta.
#[derive(Debug)]
pub struct ToolCallDelta {
    pub index: u32,
    pub id: Option<String>,
    pub call_type: Option<&'static str>,
    pub function: ToolCallFunctionDelta,
}

/// The function part of a streaming tool call delta.
#[derive(Debug)]
pub struct ToolCallFunctionDelta {
    pub name: Option<String>,
    pub arguments: String,
}

/// A function call accumulated from Responses API events.
#[derive(Debug)]
pub struct PendingFunctionCall {
    pub output_index: u32,
    pub call_id: String,
    pub name: String,
    pub arguments: String,
}

impl PendingFunctionCall {
    /// The Chat Completions tool call for this function call.
    pub fn into_tool_call(self) -> (r: ToolCall)
        ensures
            r.id@ == self.call_id@,
            r.call_type@ == "function"@,
            r.function.name@ == self.name@,
            r.function.arguments@ == self.arguments@,
    {
        ToolCall {
            id: self.call_id,
            call_type: owned("function"),
            function: crate::openai::ToolCallFunction { name: self.name, arguments: self.arguments },
        }
    }
}

} // verus!
