use openai_proxy_lib::codex::{BackendProfile, CodexAuth};
use openai_proxy_lib::error::ProxyError;
use openai_proxy_lib::json::Json;
use openai_proxy_lib::mcp::{chat_tool_messages, dispatch, tool_call_response, JsonRpcRequest, JsonRpcResponse, McpAction};
use openai_proxy_lib::models::model_list;
use openai_proxy_lib::proxy::check_model_available;

fn s(x: &str) -> Json {
    Json::Str(x.to_string())
}

fn n(x: u64) -> Json {
    Json::Number(x.to_string())
}

fn obj(members: Vec<(&str, Json)>) -> Json {
    Json::Object(members.into_iter().map(|(k, v)| (k.to_string(), v)).collect())
}

fn value(j: &Json) -> serde_json::Value {
    match j {
        Json::Null => serde_json::Value::Null,
        Json::Bool(b) => serde_json::Value::Bool(*b),
        Json::Number(n) => serde_json::from_str(n).unwrap(),
        Json::Str(t) => serde_json::Value::String(t.clone()),
        Json::Array(a) => serde_json::Value::Array(a.iter().map(value).collect()),
        Json::Object(es) => {
            let mut m = serde_json::Map::new();
            for (k, v) in es {
                m.insert(k.clone(), value(v));
            }
            serde_json::Value::Object(m)
        }
    }
}

fn subscription_auth() -> CodexAuth {
    CodexAuth { access_token: Some("tok".to_string()), account_id: Some("acct-9".to_string()), api_key: None }
}

fn api_key_auth() -> CodexAuth {
    CodexAuth { access_token: None, account_id: None, api_key: Some("sk-test".to_string()) }
}

fn dispatch_on(profile: BackendProfile, auth: &CodexAuth, req: JsonRpcRequest) -> Option<JsonRpcResponse> {
    let url = match profile {
        BackendProfile::ChatGptCodex => "https://chatgpt.com/backend-api/codex/responses",
        BackendProfile::OpenAiResponses => "https://api.openai.com/v1/responses",
        BackendProfile::OpenAiChatCompletions => "https://api.openai.com/v1/chat/completions",
    };
    match dispatch(req, profile, auth, url, "0.1.0") {
        McpAction::Reply(r) => Some(r),
        McpAction::NoReply => None,
        other => panic!("unexpected action {:?}", other),
    }
}

fn request(id: Option<Json>, method: &str, params: Json) -> JsonRpcRequest {
    JsonRpcRequest { jsonrpc: "2.0".to_string(), id, method: method.to_string(), params }
}

fn tool_text(resp: &JsonRpcResponse) -> String {
    value(resp.result.as_ref().unwrap())["content"][0]["text"].as_str().unwrap().to_string()
}

#[test]
fn mcp_initialize_returns_protocol_version() {
    let req = request(
        Some(n(1)),
        "initialize",
        obj(vec![
            ("protocolVersion", s("2024-11-05")),
            ("capabilities", obj(vec![])),
            ("clientInfo", obj(vec![("name", s("test")), ("version", s("1"))])),
        ]),
    );
    let resp = dispatch_on(BackendProfile::ChatGptCodex, &subscription_auth(), req).expect("initialize should return a response");
    assert!(resp.error.is_none(), "initialize should not return an error");
    let result = value(resp.result.as_ref().unwrap());
    assert_eq!(result["protocolVersion"], "2024-11-05");
    assert_eq!(result["serverInfo"]["name"], "openai-proxy");
}

#[test]
fn mcp_ping_returns_empty_result() {
    let req = request(Some(n(2)), "ping", obj(vec![]));
    let resp = dispatch_on(BackendProfile::ChatGptCodex, &subscription_auth(), req).expect("ping should respond");
    assert!(resp.error.is_none());
    assert_eq!(value(resp.result.as_ref().unwrap()), serde_json::Value::Object(serde_json::Map::new()));
}

#[test]
fn mcp_tools_list_returns_four_tools() {
    let req = request(Some(n(3)), "tools/list", obj(vec![]));
    let resp = dispatch_on(BackendProfile::ChatGptCodex, &subscription_auth(), req).expect("tools/list should respond");
    assert!(resp.error.is_none());
    let tools = value(resp.result.as_ref().unwrap())["tools"].as_array().unwrap().clone();
    assert_eq!(tools.len(), 4, "expected 4 MCP tools, got {}", tools.len());
    let names: Vec<&str> = tools.iter().filter_map(|t| t["name"].as_str()).collect();
    assert!(names.contains(&"chat_completion"));
    assert!(names.contains(&"list_models"));
    assert!(names.contains(&"check_auth"));
    assert!(names.contains(&"set_model"));
}

#[test]
fn mcp_tools_list_tools_have_input_schema() {
    let req = request(Some(n(4)), "tools/list", obj(vec![]));
    let resp = dispatch_on(BackendProfile::ChatGptCodex, &subscription_auth(), req).unwrap();
    for tool in value(resp.result.as_ref().unwrap())["tools"].as_array().unwrap() {
        assert!(tool["inputSchema"].is_object(), "tool {} missing inputSchema", tool["name"]);
    }
}

#[test]
fn mcp_list_models_tool_returns_models_for_profile() {
    for (profile, auth) in [
        (BackendProfile::ChatGptCodex, subscription_auth()),
        (BackendProfile::OpenAiResponses, api_key_auth()),
        (BackendProfile::OpenAiChatCompletions, api_key_auth()),
    ] {
        let req = request(Some(n(5)), "tools/call", obj(vec![("name", s("list_models")), ("arguments", obj(vec![]))]));
        let resp = dispatch_on(profile, &auth, req).unwrap();
        assert!(resp.error.is_none());
        let result = value(resp.result.as_ref().unwrap());
        assert_eq!(result["isError"], false);
        let text = result["content"][0]["text"].as_str().unwrap();
        assert!(text.contains("gpt-5.3-codex"), "list_models should mention gpt-5.3-codex");
        match profile {
            BackendProfile::ChatGptCodex => {
                assert!(!text.contains("codex-mini"), "ChatGptCodex should not list codex-mini");
            }
            _ => {
                assert!(text.contains("codex-mini"), "API key profiles should list codex-mini");
            }
        }
    }
}

#[test]
fn mcp_check_auth_tool_reports_authenticated() {
    for (profile, auth) in [
        (BackendProfile::ChatGptCodex, subscription_auth()),
        (BackendProfile::OpenAiResponses, api_key_auth()),
    ] {
        let req = request(Some(n(6)), "tools/call", obj(vec![("name", s("check_auth")), ("arguments", obj(vec![]))]));
        let resp = dispatch_on(profile, &auth, req).unwrap();
        assert!(resp.error.is_none());
        let result = value(resp.result.as_ref().unwrap());
        assert_eq!(result["isError"], false);
        let text = result["content"][0]["text"].as_str().unwrap();
        assert!(text.contains('✓'), "check_auth should indicate authenticated status");
    }
}

#[test]
fn mcp_set_model_recommends_mini_for_simple_task() {
    let req = request(
        Some(n(7)),
        "tools/call",
        obj(vec![("name", s("set_model")), ("arguments", obj(vec![("task", s("quick question"))]))]),
    );
    let text = tool_text(&dispatch_on(BackendProfile::ChatGptCodex, &subscription_auth(), req).unwrap());
    assert!(text.contains("codex-mini"), "simple task should recommend codex-mini");
}

#[test]
fn mcp_set_model_recommends_full_for_complex_task() {
    let req = request(
        Some(n(8)),
        "tools/call",
        obj(vec![("name", s("set_model")), ("arguments", obj(vec![("task", s("complex architecture design"))]))]),
    );
    let text = tool_text(&dispatch_on(BackendProfile::ChatGptCodex, &subscription_auth(), req).unwrap());
    assert!(text.contains("gpt-5.3-codex"), "complex task should recommend gpt-5.3-codex");
}

#[test]
fn mcp_unknown_tool_returns_is_error_true() {
    let req = request(Some(n(9)), "tools/call", obj(vec![("name", s("does_not_exist")), ("arguments", obj(vec![]))]));
    let resp = dispatch_on(BackendProfile::ChatGptCodex, &subscription_auth(), req).unwrap();
    let result = value(resp.result.as_ref().unwrap());
    assert_eq!(result["isError"], true, "unknown tool should set isError=true");
    let text = result["content"][0]["text"].as_str().unwrap();
    assert!(text.contains("Unknown tool"), "should report unknown tool name");
}

#[test]
fn mcp_unknown_method_returns_method_not_found_error() {
    let req = request(Some(n(10)), "nonexistent/method", obj(vec![]));
    let resp = dispatch_on(BackendProfile::ChatGptCodex, &subscription_auth(), req).unwrap();
    assert!(resp.error.is_some(), "unknown method should return JSON-RPC error");
    assert_eq!(resp.jsonrpc, "2.0");
    assert_eq!(resp.error.unwrap().code, -32601);
}

#[test]
fn mcp_notifications_initialized_returns_none() {
    let req = request(None, "notifications/initialized", obj(vec![]));
    let resp = dispatch_on(BackendProfile::ChatGptCodex, &subscription_auth(), req);
    assert!(resp.is_none(), "notifications/initialized should return None (no response)");
}

#[test]
fn models_list_returns_object_type() {
    for profile in [BackendProfile::ChatGptCodex, BackendProfile::OpenAiResponses, BackendProfile::OpenAiChatCompletions] {
        assert_eq!(model_list(profile).object, "list");
    }
}

#[test]
fn models_list_contains_gpt_5_3_codex() {
    for profile in [BackendProfile::ChatGptCodex, BackendProfile::OpenAiResponses, BackendProfile::OpenAiChatCompletions] {
        let ids: Vec<String> = model_list(profile).data.into_iter().map(|m| m.id).collect();
        assert!(ids.contains(&"gpt-5.3-codex".to_string()), "expected gpt-5.3-codex in model list, got: {ids:?}");
    }
}

#[test]
fn models_list_contains_codex_mini_for_api_key_profile() {
    for profile in [BackendProfile::OpenAiResponses, BackendProfile::OpenAiChatCompletions] {
        let ids: Vec<String> = model_list(profile).data.into_iter().map(|m| m.id).collect();
        assert!(ids.contains(&"codex-mini".to_string()), "expected codex-mini in API key model list");
    }
}

#[test]
fn models_list_all_have_required_fields() {
    for profile in [BackendProfile::ChatGptCodex, BackendProfile::OpenAiResponses, BackendProfile::OpenAiChatCompletions] {
        for model in model_list(profile).data {
            assert!(!model.id.is_empty(), "model missing id");
            assert_eq!(model.object, "model", "model missing object field");
            assert!(!model.owned_by.is_empty(), "model missing owned_by");
        }
    }
}

#[test]
fn codex_mini_rejected_on_chatgpt_profile() {
    assert!(check_model_available("codex-mini", BackendProfile::ChatGptCodex).is_err(), "codex-mini should be rejected on ChatGptCodex profile");
    assert!(check_model_available("codex-mini", BackendProfile::OpenAiResponses).is_ok());
}

#[test]
fn gpt55_pro_rejected_on_chatgpt_profile() {
    assert!(check_model_available("gpt-5.5-pro", BackendProfile::ChatGptCodex).is_err(), "gpt-5.5-pro should be rejected on ChatGptCodex profile");
}

#[test]
fn model_not_available_on_wrong_profile() {
    let err = check_model_available("gpt-5.5-pro", BackendProfile::ChatGptCodex).unwrap_err();
    let (status, kind, message) = err.parts();
    assert_eq!(status, 400, "expected 400 for gpt-5.5-pro on ChatGptCodex, got: {status}");
    assert_eq!(kind, "model_not_available", "expected model_not_available error type");
    assert_eq!(message, "Model 'gpt-5.5-pro' is not available on ChatGPT subscription (chatgpt.com/backend-api/codex/responses)");
    assert!(matches!(err, ProxyError::ModelNotAvailable { .. }));
    assert!(check_model_available("gpt-5.5", BackendProfile::ChatGptCodex).is_ok());
}

#[test]
fn mcp_chat_completion_tool_missing_messages_is_error() {
    let req = request(
        Some(n(22)),
        "tools/call",
        obj(vec![("name", s("chat_completion")), ("arguments", obj(vec![("model", s("gpt-5.3-codex"))]))]),
    );
    let resp = match dispatch(req, BackendProfile::ChatGptCodex, &subscription_auth(), "https://chatgpt.com/backend-api/codex/responses", "0.1.0") {
        McpAction::ChatCompletion { id, args } => match chat_tool_messages(&args) {
            Ok(_) => panic!("messages are missing"),
            Err(e) => tool_call_response(id, &e, true),
        },
        other => panic!("expected the chat completion tool, got {:?}", other),
    };
    let result = value(resp.result.as_ref().unwrap());
    assert_eq!(result["isError"], true, "missing messages should set isError=true");
    let text = result["content"][0]["text"].as_str().unwrap();
    assert!(text.contains("messages"), "error should mention the missing field");
    assert_eq!(value(&resp.to_json())["id"], 22);
}
