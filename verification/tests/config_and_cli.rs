use std::path::PathBuf;

use openai_proxy_lib::cli::config::config_show_text;
use openai_proxy_lib::cli::setup::{
    auth_has_access_token, config_template, mcp_server_entry, mcp_server_url, merge_mcp_server,
    merge_opencode_provider, new_opencode_config, opencode_base_url, opencode_default_model,
    opencode_preview, opencode_provider_entry, plan_server, ServeArgs, ServeMode,
};
use openai_proxy_lib::codex::BackendProfile;
use openai_proxy_lib::config::{
    codex_auth_path, default_auth_path, dir_names, expand_tilde, expand_tilde_with, resolve_dirs_with, EnvOverrides,
    ProxyConfig,
};
use openai_proxy_lib::json::Json;

fn s(x: &str) -> Json {
    Json::Str(x.to_string())
}

fn obj(members: Vec<(&str, Json)>) -> Json {
    Json::Object(members.into_iter().map(|(k, v)| (k.to_string(), v)).collect())
}

fn value(j: &Json) -> serde_json::Value {
    match j {
        Json::Null => serde_json::Value::Null,
        Json::Bool(b) => serde_json::Value::Bool(*b),
        Json::Number(n) => serde_json::from_str(n).unwrap(),
        Json::Str(t) => serde_json::Value::String(t.clone()),
        Json::Array(a) => serde_json::Value::Array(a.iter().map(value).collect()),
        Json::Object(es) => {
            let mut m = serde_json::Map::new();
            for (k, v) in es {
                m.insert(k.clone(), value(v));
            }
            serde_json::Value::Object(m)
        }
    }
}

fn no_env() -> EnvOverrides {
    EnvOverrides { host: None, port: None, wire_api: None, skills_dirs: None, skills_max: None, hooks_config: None }
}

#[test]
fn tilde_expansion_works() {
    let expanded = expand_tilde("~/foo/bar");
    let home = dirs::home_dir().unwrap();
    assert_eq!(expanded, home.join("foo/bar"));
}

#[test]
fn tilde_expansion_no_op_for_absolute() {
    let path = "/absolute/path";
    assert_eq!(expand_tilde(path), PathBuf::from(path));
}

#[test]
fn tilde_expansion_without_home_keeps_path() {
    assert_eq!(expand_tilde_with("~/x", None), PathBuf::from("~/x"));
    let home = PathBuf::from("/home/u");
    assert_eq!(expand_tilde_with("~/x", Some(&home)), PathBuf::from("/home/u/x"));
    assert_eq!(expand_tilde_with("~x", Some(&home)), PathBuf::from("~x"));
}

#[test]
fn defaults_match_documented_values() {
    let cfg = ProxyConfig::default();
    assert_eq!(cfg.server.host, "0.0.0.0");
    assert_eq!(cfg.server.port, 8080);
    assert_eq!(cfg.backend.wire_api, "responses");
    assert!(cfg.skills.dirs.is_empty());
    assert_eq!(cfg.skills.max_injected, 3);
    assert!(!cfg.memory.enabled);
    assert_eq!(cfg.memory.embedding_model, "text-embedding-3-small");
    assert!(!cfg.modes.a2a);
}

#[test]
fn env_values_override_config() {
    let mut cfg = ProxyConfig::default();
    cfg.server.port = 9090;
    let mut env = no_env();
    env.port = Some("7777".to_string());
    env.skills_dirs = Some("/a::/b:".to_string());
    env.skills_max = Some("5".to_string());
    env.hooks_config = Some("/h.toml".to_string());
    cfg.apply_env_values(&env);
    assert_eq!(cfg.server.port, 7777);
    assert_eq!(cfg.skills.dirs, vec!["/a".to_string(), "/b".to_string()]);
    assert_eq!(cfg.skills.max_injected, 5);
    assert_eq!(cfg.hooks.config_path.as_deref(), Some("/h.toml"));
}

#[test]
fn unparsable_port_keeps_config_value() {
    let mut cfg = ProxyConfig::default();
    let mut env = no_env();
    env.port = Some("70000".to_string());
    env.skills_max = Some("many".to_string());
    cfg.apply_env_values(&env);
    assert_eq!(cfg.server.port, 8080);
    assert_eq!(cfg.skills.max_injected, 3);
    let mut unchanged = ProxyConfig::default();
    unchanged.apply_env_values(&no_env());
    assert_eq!(unchanged.server.host, "0.0.0.0");
}

#[test]
fn dirs_flag_wins_over_config() {
    let cfg = vec!["~/skills".to_string()];
    assert_eq!(dir_names(Some("a::b"), &cfg), vec!["a".to_string(), "b".to_string()]);
    assert_eq!(dir_names(None, &cfg), cfg);
    let home = PathBuf::from("/h");
    assert_eq!(resolve_dirs_with(None, &cfg, Some(&home)), vec![PathBuf::from("/h/skills")]);
}

#[test]
fn serve_flags_win_over_config() {
    let mut cfg = ProxyConfig::default();
    cfg.modes.a2a = true;
    cfg.hooks.config_path = Some("/cfg/hooks.toml".to_string());
    let mut serve = ServeArgs::default();
    serve.port = Some(9000);
    serve.wire_api = Some("chat".to_string());
    let plan = plan_server(&serve, &cfg, false);
    assert_eq!(plan.bind_addr, "0.0.0.0:9000");
    assert_eq!(plan.profile, BackendProfile::OpenAiChatCompletions);
    assert_eq!(plan.hooks_config.as_deref(), Some("/cfg/hooks.toml"));
    assert!(plan.enable_a2a);
    assert_eq!(plan.mode, ServeMode::Http);
    serve.mcp_stdio = true;
    serve.acp_stdio = true;
    assert_eq!(plan_server(&serve, &cfg, true).mode, ServeMode::McpStdio);
    assert_eq!(plan_server(&serve, &cfg, true).profile, BackendProfile::ChatGptCodex);
}

#[test]
fn opencode_provider_entry_points_at_proxy() {
    let url = opencode_base_url(8080, None);
    assert_eq!(url, "http://127.0.0.1:8080/v1");
    assert_eq!(opencode_base_url(1, Some("http://x/v1")), "http://x/v1");
    let entry = value(&opencode_provider_entry(&url, true));
    assert_eq!(entry["npm"], "@ai-sdk/openai-compatible");
    assert_eq!(entry["options"]["baseURL"], "http://127.0.0.1:8080/v1");
    assert_eq!(entry["options"]["apiKey"], "not-required");
    assert_eq!(entry["models"]["gpt-5.3-codex"]["limit"]["context"], 400000);
    let api = value(&opencode_provider_entry(&url, false));
    assert_eq!(api["name"], "OpenAI Proxy (API Key — Responses API)");
    assert_eq!(api["models"]["codex-mini"]["limit"]["output"], 8192);
    assert_eq!(opencode_default_model(false), "codex/gpt-5.5");
}

#[test]
fn opencode_merge_respects_existing_provider() {
    let existing = obj(vec![("provider", obj(vec![("codex", obj(vec![]))]))]);
    assert!(merge_opencode_provider(existing, obj(vec![("npm", s("x"))]), "m", false).is_none());
    let existing = obj(vec![("provider", obj(vec![("codex", obj(vec![]))])), ("model", s("keep"))]);
    let merged = value(&merge_opencode_provider(existing, obj(vec![("npm", s("x"))]), "m", true).unwrap());
    assert_eq!(merged["provider"]["codex"]["npm"], "x");
    assert_eq!(merged["model"], "keep");
    let fresh = value(&merge_opencode_provider(new_opencode_config(), s("e"), "codex/gpt-5.5", false).unwrap());
    assert_eq!(fresh["$schema"], "https://opencode.ai/config.json");
    assert_eq!(fresh["provider"]["codex"], "e");
    assert_eq!(fresh["model"], "codex/gpt-5.5");
    let old_key = obj(vec![("provider", obj(vec![("openai-proxy", obj(vec![]))]))]);
    let added = value(&merge_opencode_provider(old_key, s("e"), "m", false).unwrap());
    assert_eq!(added["provider"]["codex"], "e");
    assert_eq!(added["provider"]["openai-proxy"], serde_json::Value::Object(serde_json::Map::new()));
    let preview = value(&opencode_preview(s("e"), "m"));
    assert_eq!(preview["provider"]["codex"], "e");
}

#[test]
fn mcp_setup_registers_server() {
    let url = mcp_server_url(8081);
    assert_eq!(url, "http://127.0.0.1:8081/mcp");
    let merged = value(&merge_mcp_server(obj(vec![("other", s("kept"))]), "mcpServers", mcp_server_entry("http", &url)));
    assert_eq!(merged["mcpServers"]["openai-proxy"]["type"], "http");
    assert_eq!(merged["mcpServers"]["openai-proxy"]["url"], "http://127.0.0.1:8081/mcp");
    assert_eq!(merged["other"], "kept");
}

#[test]
fn access_token_detection() {
    assert!(auth_has_access_token(&obj(vec![("access_token", s("t"))])));
    assert!(!auth_has_access_token(&obj(vec![("access_token", Json::Null)])));
    assert!(!auth_has_access_token(&obj(vec![])));
}

#[test]
fn config_show_prints_resolved_values() {
    let mut cfg = ProxyConfig::default();
    cfg.skills.dirs = vec!["/s".to_string()];
    let text = config_show_text(&cfg);
    assert!(text.starts_with("# Resolved configuration\n[server]\nhost = \"0.0.0.0\"\nport = 8080\n\n"));
    assert!(text.contains("dirs = [\"/s\"]\n"));
    assert!(text.contains("# config_path not set\n"));
    assert!(text.contains("# db_path defaults to $XDG_DATA_HOME/oproxy/memory.db\n"));
    assert!(text.ends_with("[modes]\na2a = false\n"));
}

#[test]
fn config_template_parses_as_defaults() {
    let t: toml::Value = toml::from_str(config_template()).unwrap();
    assert_eq!(t["server"]["port"].as_integer(), Some(8080));
    assert_eq!(t["skills"]["max_injected"].as_integer(), Some(3));
}

#[test]
fn codex_auth_file_lives_under_home() {
    assert_eq!(codex_auth_path(&PathBuf::from("/home/u")), PathBuf::from("/home/u/.codex/auth.json"));
    if let Some(p) = default_auth_path() {
        assert!(p.ends_with(".codex/auth.json"));
    }
}
