//! `serve` and `setup`: the server's startup plan, and the configuration
//! entries written for opencode and MCP clients.
use vstd::prelude::*;
use std::path::PathBuf;
use crate::codex::{opt_str_view, opt_view, select_backend, spec_select_backend, BackendProfile};
use crate::config::{path_from, path_from_text, path_join, path_joined, user_config_dir, ProxyConfig};
use crate::json::{
    entries_set, json_entries_view, json_get, lemma_entries_empty, push_entry, set_entry, Json, JsonV,
};
use crate::mcp::members;
use crate::text::{concat, decimal, decimal_string, owned};

verus! {

broadcast use vstd::string::group_string_axioms;

// ---------------------------------------------------------------------------
// serve
// ---------------------------------------------------------------------------

/// Flags of `serve` (and of the bare command).
#[derive(Debug)]
pub struct ServeArgs {
    pub host: Option<String>,
    pub port: Option<u16>,
    /// Path to Codex `auth.json` (default `~/.codex/auth.json`).
    pub auth_path: Option<PathBuf>,
    /// Overrides the backend URL.
    pub backend_url: Option<String>,
    /// Wire API for API-key users: `responses` (default) or `chat`.
    pub wire_api: Option<String>,
    /// Run as an MCP stdio server instead of the HTTP proxy.
    pub mcp_stdio: bool,
    /// Run as an ACP stdio server instead of the HTTP proxy.
    pub acp_stdio: bool,
    /// Also start an MCP Streamable HTTP server on this port.
    pub mcp_http_port: Option<u16>,
    /// Expose the A2A Agent Card.
    pub a2a: bool,
    /// Path to `hooks.toml`.
    pub hooks_config: Option<String>,
}

impl Default for ServeArgs {
    fn default() -> (r: Self)
        ensures
            r.host is None && r.port is None && r.auth_path is None && r.backend_url is None,
            r.wire_api is None && !r.mcp_stdio && !r.acp_stdio && r.mcp_http_port is None,
            !r.a2a && r.hooks_config is None,
    {
        ServeArgs {
            host: None,
            port: None,
            auth_path: None,
            backend_url: None,
            wire_api: None,
            mcp_stdio: false,
            acp_stdio: false,
            mcp_http_port: None,
            a2a: false,
            hooks_config: None,
        }
    }
}

/// How the process serves.
#[derive(Clone, Copy, Debug, PartialEq, Eq, Structural)]
pub enum ServeMode {
    /// MCP over stdin/stdout.
    McpStdio,
    /// ACP over stdin/stdout.
    AcpStdio,
    /// The HTTP proxy (optionally with an MCP HTTP server beside it).
    Http,
}

/// What the server is started with, once flags, configuration and
/// credentials are combined.
#[derive(Debug)]
pub struct ServerPlan {
    pub host: String,
    pub port: u16,
    pub wire_api: String,
    pub backend_url: String,
    pub profile: BackendProfile,
    pub hooks_config: Option<String>,
    /// `host:port`.
    pub bind_addr: String,
    pub enable_a2a: bool,
    pub mode: ServeMode,
    pub mcp_http_port: Option<u16>,
}

/// The mode chosen by the flags: MCP stdio first, then ACP stdio, else HTTP.
pub open spec fn spec_serve_mode(mcp_stdio: bool, acp_stdio: bool) -> ServeMode {
    if mcp_stdio {
        ServeMode::McpStdio
    } else if acp_stdio {
        ServeMode::AcpStdio
    } else {
        ServeMode::Http
    }
}

/// Combines the `serve` flags with the configuration: a flag wins over the
/// configuration; the backend follows `spec_select_backend`.
pub fn plan_server(serve: &ServeArgs, cfg: &ProxyConfig, has_access_token: bool) -> (r: ServerPlan)
    ensures
        r.host@ == match serve.host { Some(h) => h@, None => cfg.server.host@ },
        r.port == match serve.port { Some(p) => p, None => cfg.server.port },
        r.wire_api@ == match serve.wire_api { Some(w) => w@, None => cfg.backend.wire_api@ },
        (r.backend_url@, r.profile) == spec_select_backend(opt_view(serve.backend_url), has_access_token, r.wire_api@),
        opt_view(r.hooks_config) == match serve.hooks_config {
            Some(h) => Some(h@),
            None => opt_view(cfg.hooks.config_path),
        },
        r.bind_addr@ == r.host@ + ":"@ + decimal(r.port as nat),
        r.enable_a2a == (serve.a2a || cfg.modes.a2a),
        r.mode == spec_serve_mode(serve.mcp_stdio, serve.acp_stdio),
        r.mcp_http_port == serve.mcp_http_port,
{
    let host = match &serve.host {
        Some(h) => owned(h.as_str()),
        None => owned(cfg.server.host.as_str()),
    };
    let port = match serve.port {
        Some(p) => p,
        None => cfg.server.port,
    };
    let wire_api = match &serve.wire_api {
        Some(w) => owned(w.as_str()),
        None => owned(cfg.backend.wire_api.as_str()),
    };
    let url_override = match &serve.backend_url {
        Some(u) => Some(u.as_str()),
        None => None,
    };
    let (backend_url, profile) = select_backend(url_override, has_access_token, wire_api.as_str());
    let hooks_config = match &serve.hooks_config {
        Some(h) => Some(owned(h.as_str())),
        None => match &cfg.hooks.config_path {
            Some(p) => Some(owned(p.as_str())),
            None => None,
        },
    };
    let a = concat(host.as_str(), ":");
    let ps = decimal_string(port as u64);
    let bind_addr = concat(a.as_str(), ps.as_str());
    let mode = if serve.mcp_stdio {
        ServeMode::McpStdio
    } else if serve.acp_stdio {
        ServeMode::AcpStdio
    } else {
        ServeMode::Http
    };
    ServerPlan {
        host,
        port,
        wire_api,
        backend_url,
        profile,
        hooks_config,
        bind_addr,
        enable_a2a: serve.a2a || cfg.modes.a2a,
        mode,
        mcp_http_port: serve.mcp_http_port,
    }
}

// ---------------------------------------------------------------------------
// setup opencode
// ---------------------------------------------------------------------------

/// Flags of `setup opencode`.
#[derive(Debug)]
pub struct SetupOpencodeArgs {
    /// Write to the global opencode config.
    pub global: bool,
    /// Proxy port registered in the opencode config (default 8080).
    pub port: u16,
    /// Print what would be written without writing.
    pub dry_run: bool,
    /// Overwrite an existing provider entry.
    pub force: bool,
}

/// The base URL registered with opencode: the given one, else the local
/// proxy's `/v1` on `port`.
pub open spec fn spec_opencode_base_url(port: u16, base_url: Option<Seq<char>>) -> Seq<char> {
    match base_url {
        Some(u) => u,
        None => "http://127.0.0.1:"@ + decimal(port as nat) + "/v1"@,
    }
}

/// Chooses the base URL registered with opencode.
pub fn opencode_base_url(port: u16, base_url: Option<&str>) -> (r: String)
    ensures
        r@ == spec_opencode_base_url(port, opt_str_view(base_url)),
{
    match base_url {
        Some(u) => owned(u),
        None => {
            let p = decimal_string(port as u64);
            let a = concat("http://127.0.0.1:", p.as_str());
            concat(a.as_str(), "/v1")
        },
    }
}

/// Whether a parsed `auth.json` holds a non-null `access_token`.
pub open spec fn spec_has_access_token(auth: JsonV) -> bool {
    match json_get(auth, "access_token"@) {
        Some(t) => t != JsonV::Null,
        None => false,
    }
}

/// Tells whether a parsed `auth.json` belongs to a ChatGPT subscription.
pub fn auth_has_access_token(auth: &Json) -> (r: bool)
    ensures
        r == spec_has_access_token(auth@),
{
    match auth.get("access_token") {
        Some(t) => match t {
            Json::Null => false,
            _ => true,
        },
        None => false,
    }
}

/// The models offered to a ChatGPT subscription.
pub open spec fn spec_subscription_models() -> JsonV {
    JsonV::Object(Seq::empty()
        .push(("gpt-5.3-codex"@, JsonV::Object(Seq::empty()
            .push(("name"@, JsonV::Str("GPT-5.3 Codex"@)))
            .push(("limit"@, JsonV::Object(Seq::empty()
                .push(("context"@, JsonV::Number("400000"@)))
                .push(("output"@, JsonV::Number("32768"@)))))))))
        .push(("gpt-5.4"@, JsonV::Object(Seq::empty()
            .push(("name"@, JsonV::Str("GPT-5.4"@)))
            .push(("limit"@, JsonV::Object(Seq::empty()
                .push(("context"@, JsonV::Number("400000"@)))
                .push(("output"@, JsonV::Number("32768"@)))))))))
        .push(("gpt-5.5"@, JsonV::Object(Seq::empty()
            .push(("name"@, JsonV::Str("GPT-5.5"@)))
            .push(("limit"@, JsonV::Object(Seq::empty()
                .push(("context"@, JsonV::Number("400000"@)))
                .push(("output"@, JsonV::Number("32768"@))))))))))
}

fn subscription_models() -> (r: Json)
    ensures
        r@ == spec_subscription_models(),
{
    proof {
        lemma_entries_empty();
    }
    let mut o1: Vec<(String, Json)> = Vec::new();
    let mut o2: Vec<(String, Json)> = Vec::new();
    push_entry(&mut o2, "name", Json::string("GPT-5.3 Codex"));
    let mut o3: Vec<(String, Json)> = Vec::new();
    push_entry(&mut o3, "context", Json::Number(owned("400000")));
    push_entry(&mut o3, "output", Json::Number(owned("32768")));
    let j4 = Json::Object(o3);
    push_entry(&mut o2, "limit", j4);
    let j5 = Json::Object(o2);
    push_entry(&mut o1, "gpt-5.3-codex", j5);
    let mut o6: Vec<(String, Json)> = Vec::new();
    push_entry(&mut o6, "name", Json::string("GPT-5.4"));
    let mut o7: Vec<(String, Json)> = Vec::new();
    push_entry(&mut o7, "context", Json::Number(owned("400000")));
    push_entry(&mut o7, "output", Json::Number(owned("32768")));
    let j8 = Json::Object(o7);
    push_entry(&mut o6, "limit", j8);
    let j9 = Json::Object(o6);
    push_entry(&mut o1, "gpt-5.4", j9);
    let mut o10: Vec<(String, Json)> = Vec::new();
    push_entry(&mut o10, "name", Json::string("GPT-5.5"));
    let mut o11: Vec<(String, Json)> = Vec::new();
    push_entry(&mut o11, "context", Json::Number(owned("400000")));
    push_entry(&mut o11, "output", Json::Number(owned("32768")));
    let j12 = Json::Object(o11);
    push_entry(&mut o10, "limit", j12);
    let j13 = Json::Object(o10);
    push_entry(&mut o1, "gpt-5.5", j13);
    let j14 = Json::Object(o1);
    j14
}

/// The models offered to an API key.
pub open spec fn spec_api_key_models() -> JsonV {
    JsonV::Object(Seq::empty()
        .push(("gpt-5.5"@, JsonV::Object(Seq::empty()
            .push(("name"@, JsonV::Str("GPT-5.5"@)))
            .push(("limit"@, JsonV::Object(Seq::empty()
                .push(("context"@, JsonV::Number("1000000"@)))
                .push(("output"@, JsonV::Number("32768"@)))))))))
        .push(("gpt-5.5-pro"@, JsonV::Object(Seq::empty()
            .push(("name"@, JsonV::Str("GPT-5.5 Pro"@)))
            .push(("limit"@, JsonV::Object(Seq::empty()
                .push(("context"@, JsonV::Number("1000000"@)))
                .push(("output"@, JsonV::Number("32768"@)))))))))
        .push(("gpt-5.4"@, JsonV::Object(Seq::empty()
            .push(("name"@, JsonV::Str("GPT-5.4"@)))
            .push(("limit"@, JsonV::Object(Seq::empty()
                .push(("context"@, JsonV::Number("200000"@)))
                .push(("output"@, JsonV::Number("16384"@)))))))))
        .push(("gpt-5.3-codex"@, JsonV::Object(Seq::empty()
            .push(("name"@, JsonV::Str("GPT-5.3 Codex"@)))
            .push(("limit"@, JsonV::Object(Seq::empty()
                .push(("context"@, JsonV::Number("200000"@)))
                .push(("output"@, JsonV::Number("16384"@)))))))))
        .push(("codex-mini"@, JsonV::Object(Seq::empty()
            .push(("name"@, JsonV::Str("Codex Mini"@)))
            .push(("limit"@, JsonV::Object(Seq::empty()
                .push(("context"@, JsonV::Number("96000"@)))
                .push(("output"@, JsonV::Number("8192"@))))))))))
}

fn api_key_models() -> (r: Json)
    ensures
        r@ == spec_api_key_models(),
{
    proof {
        lemma_entries_empty();
    }
    let mut o1: Vec<(String, Json)> = Vec::new();
    let mut o2: Vec<(String, Json)> = Vec::new();
    push_entry(&mut o2, "name", Json::string("GPT-5.5"));
    let mut o3: Vec<(String, Json)> = Vec::new();
    push_entry(&mut o3, "context", Json::Number(owned("1000000")));
    push_entry(&mut o3, "output", Json::Number(owned("32768")));
    let j4 = Json::Object(o3);
    push_entry(&mut o2, "limit", j4);
    let j5 = Json::Object(o2);
    push_entry(&mut o1, "gpt-5.5", j5);
    let mut o6: Vec<(String, Json)> = Vec::new();
    push_entry(&mut o6, "name", Json::string("GPT-5.5 Pro"));
    let mut o7: Vec<(String, Json)> = Vec::new();
    push_entry(&mut o7, "context", Json::Number(owned("1000000")));
    push_entry(&mut o7, "output", Json::Number(owned("32768")));
    let j8 = Json::Object(o7);
    push_entry(&mut o6, "limit", j8);
    let j9 = Json::Object(o6);
    push_entry(&mut o1, "gpt-5.5-pro", j9);
    let mut o10: Vec<(String, Json)> = Vec::new();
    push_entry(&mut o10, "name", Json::string("GPT-5.4"));
    let mut o11: Vec<(String, Json)> = Vec::new();
    push_entry(&mut o11, "context", Json::Number(owned("200000")));
    push_entry(&mut o11, "output", Json::Number(owned("16384")));
    let j12 = Json::Object(o11);
    push_entry(&mut o10, "limit", j12);
    let j13 = Json::Object(o10);
    push_entry(&mut o1, "gpt-5.4", j13);
    let mut o14: Vec<(String, Json)> = Vec::new();
    push_entry(&mut o14, "name", Json::string("GPT-5.3 Codex"));
    let mut o15: Vec<(String, Json)> = Vec::new();
    push_entry(&mut o15, "context", Json::Number(owned("200000")));
    push_entry(&mut o15, "output", Json::Number(owned("16384")));
    let j16 = Json::Object(o15);
    push_entry(&mut o14, "limit", j16);
    let j17 = Json::Object(o14);
    push_entry(&mut o1, "gpt-5.3-codex", j17);
    let mut o18: Vec<(String, Json)> = Vec::new();
    push_entry(&mut o18, "name", Json::string("Codex Mini"));
    let mut o19: Vec<(String, Json)> = Vec::new();
    push_entry(&mut o19, "context", Json::Number(owned("96000")));
    push_entry(&mut o19, "output", Json::Number(owned("8192")));
    let j20 = Json::Object(o19);
    push_entry(&mut o18, "limit", j20);
    let j21 = Json::Object(o18);
    push_entry(&mut o1, "codex-mini", j21);
    let j22 = Json::Object(o1);
    j22
}

/// The provider name shown in opencode.
pub open spec fn spec_provider_name(is_subscription: bool) -> Seq<char> {
    if is_subscription {
        "OpenAI Proxy (ChatGPT Subscription Plus/Pro)"@
    } else {
        "OpenAI Proxy (API Key — Responses API)"@
    }
}

/// The key of the proxy's provider in an opencode config.
pub open spec fn provider_key() -> Seq<char> {
    "codex"@
}

/// The default model opencode is pointed at: `gpt-5.5` of the `codex` provider.
pub fn opencode_default_model(is_subscription: bool) -> (r: &'static str)
    ensures
        r@ == "codex/gpt-5.5"@,
{
    if is_subscription {
        "codex/gpt-5.5"
    } else {
        "codex/gpt-5.5"
    }
}

/// The `codex` provider entry: the OpenAI-compatible SDK, the base URL,
/// no API key, and the models of the credential kind.
pub open spec fn spec_provider_entry(url: Seq<char>, is_subscription: bool) -> JsonV {
    JsonV::Object(seq![
        ("npm"@, JsonV::Str("@ai-sdk/openai-compatible"@)),
        ("name"@, JsonV::Str(spec_provider_name(is_subscription))),
        ("options"@, JsonV::Object(seq![("baseURL"@, JsonV::Str(url)), ("apiKey"@, JsonV::Str("not-required"@))])),
        ("models"@, if is_subscription { spec_subscription_models() } else { spec_api_key_models() }),
    ])
}

/// Builds the `codex` provider entry.
pub fn opencode_provider_entry(url: &str, is_subscription: bool) -> (r: Json)
    ensures
        r@ == spec_provider_entry(url@, is_subscription),
{
    proof {
        lemma_entries_empty();
    }
    let mut opts: Vec<(String, Json)> = Vec::new();
    push_entry(&mut opts, "baseURL", Json::string(url));
    push_entry(&mut opts, "apiKey", Json::string("not-required"));
    assert(json_entries_view(opts@) =~= seq![("baseURL"@, JsonV::Str(url@)), ("apiKey"@, JsonV::Str("not-required"@))]);
    let name = if is_subscription {
        "OpenAI Proxy (ChatGPT Subscription Plus/Pro)"
    } else {
        "OpenAI Proxy (API Key — Responses API)"
    };
    let models = if is_subscription { subscription_models() } else { api_key_models() };
    let mut es: Vec<(String, Json)> = Vec::new();
    push_entry(&mut es, "npm", Json::string("@ai-sdk/openai-compatible"));
    push_entry(&mut es, "name", Json::string(name));
    push_entry(&mut es, "options", Json::Object(opts));
    push_entry(&mut es, "models", models);
    assert(json_entries_view(es@) =~= members(spec_provider_entry(url@, is_subscription)));
    Json::Object(es)
}

/// The `$schema` of opencode configuration files.
pub open spec fn schema_member() -> (Seq<char>, JsonV) {
    ("$schema"@, JsonV::Str("https://opencode.ai/config.json"@))
}

/// What a dry run prints: a whole config with the provider and default model.
pub open spec fn spec_opencode_preview(entry: JsonV, default_model: Seq<char>) -> JsonV {
    JsonV::Object(seq![
        schema_member(),
        ("provider"@, JsonV::Object(seq![(provider_key(), entry)])),
        ("model"@, JsonV::Str(default_model)),
    ])
}

/// The config a dry run shows.
pub fn opencode_preview(entry: Json, default_model: &str) -> (r: Json)
    ensures
        r@ == spec_opencode_preview(entry@, default_model@),
{
    proof {
        lemma_entries_empty();
    }
    let ghost ev = entry@;
    let mut prov: Vec<(String, Json)> = Vec::new();
    push_entry(&mut prov, "codex", entry);
    let mut es: Vec<(String, Json)> = Vec::new();
    push_entry(&mut es, "$schema", Json::string("https://opencode.ai/config.json"));
    push_entry(&mut es, "provider", Json::Object(prov));
    push_entry(&mut es, "model", Json::string(default_model));
    assert(json_entries_view(es@) =~= members(spec_opencode_preview(ev, default_model@)));
    Json::Object(es)
}

/// A new opencode config: only the schema.
pub fn new_opencode_config() -> (r: Json)
    ensures
        r@ == JsonV::Object(seq![schema_member()]),
{
    proof {
        lemma_entries_empty();
    }
    let mut es: Vec<(String, Json)> = Vec::new();
    push_entry(&mut es, "$schema", Json::string("https://opencode.ai/config.json"));
    assert(json_entries_view(es@) =~= seq![schema_member()]);
    Json::Object(es)
}

/// `v` is an object, and its member `key`, when present, is an object too.
pub open spec fn object_with_object_member(v: JsonV, key: Seq<char>) -> bool {
    &&& v is Object
    &&& match json_get(v, key) {
        Some(m) => m is Object,
        None => true,
    }
}

/// `existing` with `entry` stored as `section.key`, the section created when
/// missing.
pub open spec fn spec_with_section_entry(existing: JsonV, section: Seq<char>, key: Seq<char>, entry: JsonV) -> Seq<(Seq<char>, JsonV)> {
    let old_section = match json_get(existing, section) {
        Some(s) => members(s),
        None => Seq::empty(),
    };
    entries_set(members(existing), section, JsonV::Object(entries_set(old_section, key, entry)))
}

/// The key the proxy's MCP server is registered under.
pub open spec fn mcp_server_key() -> Seq<char> {
    "openai-proxy"@
}

/// Merging the provider into an existing opencode config: `None` when an
/// `codex` provider is already there and `force` is off; otherwise the
/// config with the provider set and, when it has none, the default model.
pub open spec fn spec_merge_opencode(existing: JsonV, entry: JsonV, default_model: Seq<char>, force: bool) -> Option<JsonV> {
    let configured = match json_get(existing, "provider"@) {
        Some(p) => json_get(p, provider_key()) is Some,
        None => false,
    };
    if !force && configured {
        None
    } else {
        let es = spec_with_section_entry(existing, "provider"@, provider_key(), entry);
        Some(JsonV::Object(if json_get(existing, "model"@) is None {
            entries_set(es, "model"@, JsonV::Str(default_model))
        } else {
            es
        }))
    }
}

fn section_entries(existing: &Json, section: &str) -> (r: Vec<(String, Json)>)
    requires
        object_with_object_member(existing@, section@),
    ensures
        json_entries_view(r@) == match json_get(existing@, section@) {
            Some(s) => members(s),
            None => Seq::empty(),
        },
{
    proof {
        lemma_entries_empty();
    }
    match existing.get(section) {
        Some(s) => match s {
            Json::Object(es) => {
                let mut out: Vec<(String, Json)> = Vec::new();
                let mut i: usize = 0;
                proof {
                    crate::json::lemma_entries_view(es@);
                }
                while i < es.len()
                    invariant
                        i <= es.len(),
                        json_entries_view(out@) == json_entries_view(es@).take(i as int),
                        json_entries_view(es@).len() == es@.len(),
                        forall|k: int| 0 <= k < es@.len() ==> #[trigger] json_entries_view(es@)[k] == (es@[k].0@, es@[k].1@),
                    decreases es.len() - i,
                {
                    push_entry(&mut out, es[i].0.as_str(), es[i].1.deep_clone());
                    assert(json_entries_view(out@) =~= json_entries_view(es@).take(i + 1));
                    i = i + 1;
                }
                assert(json_entries_view(es@).take(es.len() as int) =~= json_entries_view(es@));
                out
            },
            _ => Vec::new(),
        },
        None => Vec::new(),
    }
}

fn with_section_entry(existing: Json, section: &str, key: &str, entry: Json) -> (r: Vec<(String, Json)>)
    requires
        object_with_object_member(existing@, section@),
    ensures
        json_entries_view(r@) == spec_with_section_entry(existing@, section@, key@, entry@),
{
    let mut sec = section_entries(&existing, section);
    set_entry(&mut sec, key, entry);
    match existing {
        Json::Object(es) => {
            let mut es = es;
            set_entry(&mut es, section, Json::Object(sec));
            es
        },
        _ => Vec::new(),
    }
}

/// Merges the `codex` provider into an existing opencode config.
pub fn merge_opencode_provider(existing: Json, entry: Json, default_model: &str, force: bool) -> (r: Option<Json>)
    requires
        object_with_object_member(existing@, "provider"@),
    ensures
        match r {
            Some(j) => spec_merge_opencode(existing@, entry@, default_model@, force) == Some(j@),
            None => spec_merge_opencode(existing@, entry@, default_model@, force) is None,
        },
{
    let configured = match existing.get("provider") {
        Some(p) => p.get("codex").is_some(),
        None => false,
    };
    if !force && configured {
        return None;
    }
    let has_model = existing.get("model").is_some();
    let mut es = with_section_entry(existing, "provider", "codex", entry);
    if !has_model {
        set_entry(&mut es, "model", Json::string(default_model));
    }
    Some(Json::Object(es))
}

/// The directory of the opencode config: under the user's configuration
/// directory (or `~/.config`) when global, else `.opencode`.
pub open spec fn spec_opencode_dir(global: bool, base: Option<PathBuf>) -> PathBuf {
    if global {
        path_joined(match base { Some(b) => b, None => path_from_text("~/.config"@) }, "opencode"@)
    } else {
        path_from_text(".opencode"@)
    }
}

/// The directory the opencode config is written to.
pub fn opencode_config_dir(global: bool) -> (r: PathBuf)
    ensures
        exists|base: Option<PathBuf>| r == #[trigger] spec_opencode_dir(global, base),
{
    if global {
        let base = user_config_dir();
        let b = match base {
            Some(b) => b,
            None => path_from("~/.config"),
        };
        let r = path_join(&b, "opencode");
        proof {
            assert(r == spec_opencode_dir(global, base));
        }
        r
    } else {
        let r = path_from(".opencode");
        proof {
            assert(r == spec_opencode_dir(global, None));
        }
        r
    }
}

// ---------------------------------------------------------------------------
// setup mcp
// ---------------------------------------------------------------------------

/// Flags of `setup mcp`.
#[derive(Debug)]
pub struct SetupMcpArgs {
    /// Register with opencode.
    pub opencode: bool,
    /// Register in the MCP client config of the home directory.
    pub claude: bool,
    /// MCP server port registered (default 8081).
    pub port: u16,
}

/// The URL of the local MCP server on `port`.
pub open spec fn spec_mcp_url(port: u16) -> Seq<char> {
    "http://127.0.0.1:"@ + decimal(port as nat) + "/mcp"@
}

/// Builds the local MCP server URL.
pub fn mcp_server_url(port: u16) -> (r: String)
    ensures
        r@ == spec_mcp_url(port),
{
    let p = decimal_string(port as u64);
    let a = concat("http://127.0.0.1:", p.as_str());
    concat(a.as_str(), "/mcp")
}

/// An MCP server entry: its transport kind (`remote` for opencode, `http`
/// for the home-directory client) and URL.
pub fn mcp_server_entry(kind: &str, url: &str) -> (r: Json)
    ensures
        r@ == JsonV::Object(seq![("type"@, JsonV::Str(kind@)), ("url"@, JsonV::Str(url@))]),
{
    proof {
        lemma_entries_empty();
    }
    let mut es: Vec<(String, Json)> = Vec::new();
    push_entry(&mut es, "type", Json::string(kind));
    push_entry(&mut es, "url", Json::string(url));
    assert(json_entries_view(es@) =~= seq![("type"@, JsonV::Str(kind@)), ("url"@, JsonV::Str(url@))]);
    Json::Object(es)
}

/// Registers the proxy as `section.openai-proxy` (`mcp` for opencode,
/// `mcpServers` for the home-directory client) in an existing config.
pub fn merge_mcp_server(existing: Json, section: &str, entry: Json) -> (r: Json)
    requires
        object_with_object_member(existing@, section@),
    ensures
        r@ == JsonV::Object(spec_with_section_entry(existing@, section@, mcp_server_key(), entry@)),
{
    Json::Object(with_section_entry(existing, section, "openai-proxy", entry))
}

// ---------------------------------------------------------------------------
// setup config
// ---------------------------------------------------------------------------

/// The `config.toml` scaffold: every section with its default.
pub fn config_template() -> (r: &'static str)
    ensures
        r@ == "[server]\nhost = \"0.0.0.0\"\nport = 8080\n\n[backend]\nwire_api = \"responses\"\n\n[skills]\ndirs = []\nmax_injected = 3\n\n[mcp]\n# config_path = \"~/.config/oproxy/mcp.toml\"\n\n[hooks]\n# config_path = \"~/.config/oproxy/hooks.toml\"\n\n[memory]\nenabled = false\ndb_path = \"\"\nembedding_model = \"text-embedding-3-small\"\n\n[modes]\na2a = false\n"@,
{
    "[server]\nhost = \"0.0.0.0\"\nport = 8080\n\n[backend]\nwire_api = \"responses\"\n\n[skills]\ndirs = []\nmax_injected = 3\n\n[mcp]\n# config_path = \"~/.config/oproxy/mcp.toml\"\n\n[hooks]\n# config_path = \"~/.config/oproxy/hooks.toml\"\n\n[memory]\nenabled = false\ndb_path = \"\"\nembedding_model = \"text-embedding-3-small\"\n\n[modes]\na2a = false\n"
}


/// Read after write for `setup mcp`: the merged config has the entry under
/// `section.openai-proxy`, keeps the other servers of the section, and keeps
/// every other top-level member as it was.
pub proof fn law_merge_mcp_sets_entry(existing: JsonV, section: Seq<char>, entry: JsonV, other: Seq<char>, other_server: Seq<char>)
    requires
        object_with_object_member(existing, section),
    ensures
        ({
            let m = JsonV::Object(spec_with_section_entry(existing, section, mcp_server_key(), entry));
            &&& json_get(m, section) matches Some(s) && json_get(s, mcp_server_key()) == Some(entry)
            &&& other != section ==> json_get(m, other) == json_get(existing, other)
            &&& other_server != mcp_server_key() ==> (json_get(m, section) matches Some(s)
                && json_get(s, other_server) == match json_get(existing, section) {
                    Some(old) => json_get(old, other_server),
                    None => None,
                })
        }),
{
    let old_section = match json_get(existing, section) {
        Some(s) => members(s),
        None => Seq::empty(),
    };
    let newp = JsonV::Object(entries_set(old_section, mcp_server_key(), entry));
    crate::json::lemma_entries_set_get(old_section, mcp_server_key(), entry, other_server);
    crate::json::lemma_entries_set_get(members(existing), section, newp, other);
}

/// Read after write: a merge that goes ahead leaves the config with the new
/// provider under `provider.codex`, a model (the existing one, else the
/// default), and every other member as it was; it is skipped only when a
/// provider is already configured and `force` is off.
pub proof fn law_merge_sets_provider(existing: JsonV, entry: JsonV, default_model: Seq<char>, force: bool, other: Seq<char>)
    requires
        object_with_object_member(existing, "provider"@),
    ensures
        match spec_merge_opencode(existing, entry, default_model, force) {
            Some(m) => {
                &&& json_get(m, "provider"@) matches Some(p) && json_get(p, provider_key()) == Some(entry)
                &&& json_get(m, "model"@) == Some(match json_get(existing, "model"@) {
                    Some(x) => x,
                    None => JsonV::Str(default_model),
                })
                &&& (other != "provider"@ && other != "model"@) ==> json_get(m, other) == json_get(existing, other)
            },
            None => !force && (json_get(existing, "provider"@) matches Some(p) && json_get(p, provider_key()) is Some),
        },
{
    reveal_strlit("provider");
    reveal_strlit("model");
    let old_section = match json_get(existing, "provider"@) {
        Some(s) => members(s),
        None => Seq::empty(),
    };
    let newp = JsonV::Object(entries_set(old_section, provider_key(), entry));
    let es = spec_with_section_entry(existing, "provider"@, provider_key(), entry);
    crate::json::lemma_entries_set_get(old_section, provider_key(), entry, provider_key());
    crate::json::lemma_entries_set_get(members(existing), "provider"@, newp, other);
    crate::json::lemma_entries_set_get(members(existing), "provider"@, newp, "model"@);
    assert("provider"@.len() == 8 && "model"@.len() == 5);
    assert("provider"@ != "model"@);
    if json_get(existing, "model"@) is None {
        crate::json::lemma_entries_set_get(es, "model"@, JsonV::Str(default_model), other);
        crate::json::lemma_entries_set_get(es, "model"@, JsonV::Str(default_model), "provider"@);
    }
}

} // verus!
