use openai_proxy_lib::codex::{
    convert_request, convert_tool_choice_to_responses_format, convert_tools_to_responses_format,
    map_finish_reason, map_model, resolve_model, select_backend, BackendProfile, CodexAuth,
    ResponsesInputItem, CODEX_BACKEND_URL, OPENAI_CHAT_URL, OPENAI_RESPONSES_URL,
};
use openai_proxy_lib::json::Json;
use openai_proxy_lib::openai::{ChatCompletionRequest, Message, MessageContent, ToolCall, ToolCallFunction};

fn s(x: &str) -> Json {
    Json::Str(x.to_string())
}

fn obj(members: Vec<(&str, Json)>) -> Json {
    Json::Object(members.into_iter().map(|(k, v)| (k.to_string(), v)).collect())
}

fn value(j: &Json) -> serde_json::Value {
    match j {
        Json::Null => serde_json::Value::Null,
        Json::Bool(b) => serde_json::Value::Bool(*b),
        Json::Number(n) => serde_json::from_str(n).unwrap(),
        Json::Str(t) => serde_json::Value::String(t.clone()),
        Json::Array(a) => serde_json::Value::Array(a.iter().map(value).collect()),
        Json::Object(es) => {
            let mut m = serde_json::Map::new();
            for (k, v) in es {
                m.insert(k.clone(), value(v));
            }
            serde_json::Value::Object(m)
        }
    }
}

fn msg(role: &str, content: &str) -> Message {
    Message {
        role: role.to_string(),
        content: MessageContent::Text(content.to_string()),
        tool_call_id: None,
        tool_calls: None,
        name: None,
    }
}

fn chat_req(model: &str, messages: Vec<Message>) -> ChatCompletionRequest {
    ChatCompletionRequest {
        model: model.to_string(),
        messages,
        stream: false,
        max_tokens: None,
        temperature: None,
        top_p: None,
        stop: None,
        system: None,
        user: None,
        tools: None,
        tool_choice: None,
        parallel_tool_calls: None,
    }
}

#[test]
fn tool_format_conversion_unwraps_nested_function() {
    let tools = Json::Array(vec![obj(vec![
        ("type", s("function")),
        ("function", obj(vec![
            ("name", s("get_weather")),
            ("description", s("Get weather")),
            ("parameters", obj(vec![
                ("type", s("object")),
                ("properties", obj(vec![("location", obj(vec![("type", s("string"))]))])),
                ("required", Json::Array(vec![s("location")])),
            ])),
        ])),
    ])]);

    let converted = value(&convert_tools_to_responses_format(&tools));
    let tool = &converted[0];
    assert_eq!(tool["type"], "function");
    assert_eq!(tool["name"], "get_weather");
    assert_eq!(tool["description"], "Get weather");
    assert!(tool["parameters"].is_object());
    assert!(tool.get("function").is_none(), "function wrapper should be removed");
}

#[test]
fn tool_choice_conversion_function_object() {
    let choice = obj(vec![("type", s("function")), ("function", obj(vec![("name", s("my_tool"))]))]);
    let converted = value(&convert_tool_choice_to_responses_format(&choice));
    assert_eq!(converted["type"], "function");
    assert_eq!(converted["name"], "my_tool");
    assert!(converted.get("function").is_none(), "nested function should be removed");
}

#[test]
fn tool_choice_conversion_string_passthrough() {
    for x in &["auto", "none", "required"] {
        let choice = s(x);
        let converted = convert_tool_choice_to_responses_format(&choice);
        assert_eq!(value(&converted), value(&choice), "string tool_choice should pass through unchanged");
    }
}

#[test]
fn convert_request_tool_messages_become_function_call_output() {
    let assistant_msg = Message {
        role: "assistant".to_string(),
        content: MessageContent::Null,
        tool_call_id: None,
        tool_calls: Some(vec![ToolCall {
            id: "call_abc".to_string(),
            call_type: "function".to_string(),
            function: ToolCallFunction {
                name: "get_weather".to_string(),
                arguments: r#"{"location":"NYC"}"#.to_string(),
            },
        }]),
        name: None,
    };
    let tool_result_msg = Message {
        role: "tool".to_string(),
        content: MessageContent::Text(r#"{"temp":"72F"}"#.to_string()),
        tool_call_id: Some("call_abc".to_string()),
        tool_calls: None,
        name: None,
    };
    let req = chat_req("gpt-5.3-codex", vec![msg("user", "What's the weather?"), assistant_msg, tool_result_msg]);

    let codex_req = convert_request(&req, None, BackendProfile::OpenAiResponses);

    assert_eq!(codex_req.input.len(), 3);
    assert!(matches!(codex_req.input[0], ResponsesInputItem::Message(_)));
    assert!(matches!(codex_req.input[1], ResponsesInputItem::FunctionCall(_)));
    assert!(matches!(codex_req.input[2], ResponsesInputItem::FunctionCallOutput(_)));
    if let ResponsesInputItem::FunctionCall(ref fc) = codex_req.input[1] {
        assert_eq!(fc.call_id, "call_abc");
        assert_eq!(fc.name, "get_weather");
        assert_eq!(fc.arguments, r#"{"location":"NYC"}"#);
    }
    if let ResponsesInputItem::FunctionCallOutput(ref fco) = codex_req.input[2] {
        assert_eq!(fco.call_id, "call_abc");
        assert_eq!(fco.output, r#"{"temp":"72F"}"#);
    }
}

#[test]
fn convert_request_parallel_tool_calls_forwarded() {
    let mut req = chat_req("gpt-5.3-codex", vec![msg("user", "Hi")]);
    req.parallel_tool_calls = Some(false);
    let codex_req = convert_request(&req, None, BackendProfile::OpenAiResponses);
    assert_eq!(codex_req.parallel_tool_calls, Some(false));
}

#[test]
fn model_mapping_gpt4o_to_codex() {
    assert_eq!(map_model("gpt-4o"), "gpt-5.3-codex");
    assert_eq!(map_model("gpt-4o-2024-11-20"), "gpt-5.3-codex");
}

#[test]
fn model_mapping_gpt4o_mini_to_codex() {
    assert_eq!(map_model("gpt-4o-mini"), "gpt-5.3-codex");
}

#[test]
fn model_mapping_gpt4_variants_to_codex() {
    assert_eq!(map_model("gpt-4"), "gpt-5.3-codex");
    assert_eq!(map_model("gpt-4-turbo"), "gpt-5.3-codex");
    assert_eq!(map_model("gpt-4-turbo-preview"), "gpt-5.3-codex");
}

#[test]
fn model_mapping_gpt35_to_codex() {
    assert_eq!(map_model("gpt-3.5-turbo"), "gpt-5.3-codex");
    assert_eq!(map_model("gpt-3.5-turbo-0125"), "gpt-5.3-codex");
}

#[test]
fn model_mapping_explicit_codex_passthrough() {
    assert_eq!(map_model("gpt-5.3-codex"), "gpt-5.3-codex");
    assert_eq!(map_model("codex-mini"), "codex-mini");
}

#[test]
fn model_mapping_unknown_falls_back_to_codex() {
    assert_eq!(map_model("some-unknown-model"), "gpt-5.3-codex");
}

#[test]
fn finish_reason_mapping_completed() {
    assert_eq!(map_finish_reason(Some("completed")), "stop");
}

#[test]
fn finish_reason_mapping_max_tokens() {
    assert_eq!(map_finish_reason(Some("max_tokens")), "length");
    assert_eq!(map_finish_reason(Some("length")), "length");
}

#[test]
fn finish_reason_mapping_none() {
    assert_eq!(map_finish_reason(None), "stop");
}

#[test]
fn finish_reason_mapping_passthrough() {
    assert_eq!(map_finish_reason(Some("content_filter")), "content_filter");
}

#[test]
fn finish_reason_mapping_tool_calls() {
    assert_eq!(map_finish_reason(Some("tool_calls")), "tool_calls");
}

#[test]
fn convert_request_system_message_becomes_instructions() {
    let req = chat_req("gpt-5.3-codex", vec![msg("system", "Be helpful."), msg("user", "Hello")]);
    let codex_req = convert_request(&req, None, BackendProfile::ChatGptCodex);
    assert_eq!(codex_req.instructions.as_deref(), Some("Be helpful."));
    assert_eq!(codex_req.input.len(), 1);
    if let ResponsesInputItem::Message(ref m) = codex_req.input[0] {
        assert_eq!(m.role, "user");
        assert_eq!(m.content[0].text, "Hello");
    } else {
        panic!("expected Message variant");
    }
}

#[test]
fn convert_request_no_system_message_injects_default_instructions() {
    let req = chat_req("gpt-5.3-codex", vec![msg("user", "Hello")]);
    let codex_req = convert_request(&req, None, BackendProfile::ChatGptCodex);
    assert!(codex_req.instructions.is_some(), "default instructions should be injected");
}

#[test]
fn convert_request_multiple_system_messages_joined() {
    let req = chat_req("gpt-5.3-codex", vec![msg("system", "Rule 1."), msg("system", "Rule 2."), msg("user", "Hi")]);
    let codex_req = convert_request(&req, None, BackendProfile::ChatGptCodex);
    assert_eq!(codex_req.instructions.as_deref(), Some("Rule 1.\n\nRule 2."));
}

#[test]
fn convert_request_empty_messages_injects_empty_user_item() {
    let req = chat_req("gpt-5.3-codex", vec![]);
    let codex_req = convert_request(&req, None, BackendProfile::ChatGptCodex);
    assert_eq!(codex_req.input.len(), 1);
    if let ResponsesInputItem::Message(ref m) = codex_req.input[0] {
        assert_eq!(m.role, "user");
    } else {
        panic!("expected Message variant");
    }
}

#[test]
fn convert_request_store_is_false() {
    let req = chat_req("gpt-5.3-codex", vec![msg("user", "Hi")]);
    let codex_req = convert_request(&req, None, BackendProfile::ChatGptCodex);
    assert_eq!(codex_req.store, Some(false));
}

#[test]
fn convert_request_chatgpt_profile_strips_temperature() {
    let mut req = chat_req("gpt-5.3-codex", vec![msg("user", "Hi")]);
    req.max_tokens = Some(100);
    req.temperature = Some(0.7f32.to_bits());
    req.top_p = Some(0.9f32.to_bits());
    let codex_req = convert_request(&req, None, BackendProfile::ChatGptCodex);
    assert!(codex_req.temperature.is_none(), "ChatGptCodex must strip temperature");
    assert!(codex_req.top_p.is_none(), "ChatGptCodex must strip top_p");
    assert!(codex_req.max_output_tokens.is_none(), "ChatGptCodex must strip max_output_tokens");
}

#[test]
fn convert_request_responses_api_profile_preserves_temperature() {
    let mut req = chat_req("gpt-5.3-codex", vec![msg("user", "Hi")]);
    req.max_tokens = Some(50);
    req.temperature = Some(0.5f32.to_bits());
    req.top_p = Some(0.8f32.to_bits());
    let codex_req = convert_request(&req, None, BackendProfile::OpenAiResponses);
    assert_eq!(codex_req.temperature.map(f32::from_bits), Some(0.5), "OpenAiResponses should preserve temperature");
    assert_eq!(codex_req.top_p.map(f32::from_bits), Some(0.8), "OpenAiResponses should preserve top_p");
    assert_eq!(codex_req.max_output_tokens, Some(50), "OpenAiResponses should preserve max_output_tokens");
}

#[test]
fn convert_request_default_model_overrides_generic_alias() {
    let req = chat_req("gpt-4o", vec![msg("user", "Hi")]);
    let codex_req = convert_request(&req, Some("codex-mini"), BackendProfile::OpenAiResponses);
    assert_eq!(codex_req.model, "codex-mini");
}

#[test]
fn convert_request_default_model_does_not_override_explicit_codex_id() {
    let req = chat_req("gpt-5.3-codex", vec![msg("user", "Hi")]);
    let codex_req = convert_request(&req, Some("codex-mini"), BackendProfile::OpenAiResponses);
    assert_eq!(codex_req.model, "gpt-5.3-codex");
}

#[test]
fn resolve_model_gpt55_supports_all_profiles() {
    let t = resolve_model("gpt-5.5");
    assert!(t.supports_codex_backend);
    assert!(t.supports_responses_api);
    assert!(t.supports_chat_completions);
    assert_eq!(t.model_id, "gpt-5.5");
}

#[test]
fn resolve_model_gpt55_pro_responses_api_only() {
    let t = resolve_model("gpt-5.5-pro");
    assert!(!t.supports_codex_backend, "gpt-5.5-pro should not be available on ChatGptCodex");
    assert!(t.supports_responses_api);
    assert!(!t.supports_chat_completions, "gpt-5.5-pro should not be available on Chat Completions");
}

#[test]
fn resolve_model_codex_mini_api_key_only() {
    let t = resolve_model("codex-mini");
    assert!(!t.supports_codex_backend, "codex-mini must not be available on ChatGptCodex profile");
    assert!(t.supports_responses_api);
    assert!(t.supports_chat_completions);
}

#[test]
fn resolve_model_gpt54_all_profiles() {
    let t = resolve_model("gpt-5.4");
    assert!(t.supports_codex_backend);
    assert!(t.supports_responses_api);
    assert!(t.supports_chat_completions);
}

#[test]
fn backend_selection_follows_credentials() {
    assert_eq!(select_backend(None, true, ""), (CODEX_BACKEND_URL.to_string(), BackendProfile::ChatGptCodex));
    assert_eq!(select_backend(None, false, "CHAT"), (OPENAI_CHAT_URL.to_string(), BackendProfile::OpenAiChatCompletions));
    assert_eq!(select_backend(None, false, "responses"), (OPENAI_RESPONSES_URL.to_string(), BackendProfile::OpenAiResponses));
    assert_eq!(
        select_backend(Some("https://chatgpt.com/x"), false, "chat").1,
        BackendProfile::ChatGptCodex
    );
    assert_eq!(
        select_backend(Some("http://localhost/v1/chat/completions"), true, "").1,
        BackendProfile::OpenAiChatCompletions
    );
}

#[test]
fn bearer_prefers_oauth_token_with_account() {
    let oauth = CodexAuth {
        access_token: Some("tok".to_string()),
        account_id: Some("acct".to_string()),
        api_key: Some("key".to_string()),
    };
    assert_eq!(oauth.bearer(), ("Bearer tok".to_string(), Some("acct".to_string())));
    let key_only = CodexAuth { access_token: Some("tok".to_string()), account_id: None, api_key: Some("key".to_string()) };
    assert_eq!(key_only.bearer(), ("Bearer key".to_string(), None));
}

#[test]
fn chatgpt_profile_forces_streaming() {
    let req = chat_req("gpt-5.3-codex", vec![msg("user", "Hi")]);
    assert!(!req.stream);
    let codex_req = convert_request(&req, None, BackendProfile::ChatGptCodex);
    assert!(codex_req.stream);
    let api_req = convert_request(&req, None, BackendProfile::OpenAiResponses);
    assert!(!api_req.stream);
    assert_eq!(api_req.store, None);
}
