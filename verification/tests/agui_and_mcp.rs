use openai_proxy_lib::acp::{acp_chat_request, extract_prompt_text, message_chunk, PromptBlock};
use openai_proxy_lib::agui::{agui_chat_request, agui_content_events, agui_failed_run, AguiEvent, AguiRequest};
use openai_proxy_lib::codex::{BackendProfile, CodexAuth, ResponseStreamEvent};
use openai_proxy_lib::json::Json;
use openai_proxy_lib::mcp::{
    chat_tool_messages, chat_tool_reply_text, chat_tool_request, dispatch, tool_definitions, JsonRpcRequest,
    JsonRpcResponse, McpAction,
};
use openai_proxy_lib::mcp_client::{McpFunctionDef, McpToolSchema};
use openai_proxy_lib::openai::MessageContent;

fn s(x: &str) -> Json {
    Json::Str(x.to_string())
}

fn obj(members: Vec<(&str, Json)>) -> Json {
    Json::Object(members.into_iter().map(|(k, v)| (k.to_string(), v)).collect())
}

fn value(j: &Json) -> serde_json::Value {
    match j {
        Json::Null => serde_json::Value::Null,
        Json::Bool(b) => serde_json::Value::Bool(*b),
        Json::Number(n) => serde_json::from_str(n).unwrap(),
        Json::Str(t) => serde_json::Value::String(t.clone()),
        Json::Array(a) => serde_json::Value::Array(a.iter().map(value).collect()),
        Json::Object(es) => {
            let mut m = serde_json::Map::new();
            for (k, v) in es {
                m.insert(k.clone(), value(v));
            }
            serde_json::Value::Object(m)
        }
    }
}

fn auth() -> CodexAuth {
    CodexAuth { access_token: Some("t".to_string()), account_id: Some("acct-1".to_string()), api_key: None }
}

fn call(method: &str, params: Json) -> McpAction {
    let req = JsonRpcRequest { jsonrpc: "2.0".to_string(), id: Some(Json::Number("1".to_string())), method: method.to_string(), params };
    dispatch(req, BackendProfile::ChatGptCodex, &auth(), "https://chatgpt.com/backend-api/codex/responses", "0.1.0")
}

fn reply(a: McpAction) -> JsonRpcResponse {
    match a {
        McpAction::Reply(r) => r,
        other => panic!("expected a reply, got {:?}", other),
    }
}

#[test]
fn agui_event_serializes_correctly() {
    let ev = AguiEvent::RunStarted { run_id: "abc".to_string() };
    let json = serde_json::to_string(&value(&ev.to_json())).unwrap();
    assert!(json.contains("\"type\":\"RUN_STARTED\""));
    assert!(json.contains("\"run_id\":\"abc\""));
}

#[test]
fn agui_text_content_serializes_correctly() {
    let ev = AguiEvent::TextMessageContent { message_id: "m1".to_string(), delta: "hello".to_string() };
    let json = serde_json::to_string(&value(&ev.to_json())).unwrap();
    assert!(json.contains("\"type\":\"TEXT_MESSAGE_CONTENT\""));
    assert!(json.contains("\"delta\":\"hello\""));
}

#[test]
fn agui_run_finished_serializes_correctly() {
    let ev = AguiEvent::RunFinished { run_id: "r1".to_string() };
    let json = serde_json::to_string(&value(&ev.to_json())).unwrap();
    assert!(json.contains("\"type\":\"RUN_FINISHED\""));
}

#[test]
fn agui_content_skips_empty_deltas() {
    let events = vec![
        ResponseStreamEvent::ResponseOutputTextDelta { output_index: 0, content_index: 0, delta: "".to_string() },
        ResponseStreamEvent::ResponseInProgress {},
        ResponseStreamEvent::ResponseOutputTextDelta { output_index: 0, content_index: 0, delta: "hi".to_string() },
    ];
    let out = agui_content_events("m", &events);
    assert_eq!(out.len(), 1);
    assert!(matches!(&out[0], AguiEvent::TextMessageContent { message_id, delta } if message_id == "m" && delta == "hi"));
    let failed = agui_failed_run("r");
    assert!(matches!(&failed[0], AguiEvent::RunStarted { run_id } if run_id == "r"));
    assert!(matches!(&failed[1], AguiEvent::RunFinished { run_id } if run_id == "r"));
}

#[test]
fn agui_request_model_falls_back() {
    let r = agui_chat_request(AguiRequest { messages: vec![], model: None }, None);
    assert_eq!(r.model, "gpt-5.3-codex");
    assert!(r.stream);
    let r = agui_chat_request(AguiRequest { messages: vec![], model: None }, Some("gpt-5.4"));
    assert_eq!(r.model, "gpt-5.4");
    let r = agui_chat_request(AguiRequest { messages: vec![], model: Some("x".to_string()) }, Some("gpt-5.4"));
    assert_eq!(r.model, "x");
}

#[test]
fn tool_serializes_as_openai_format() {
    let tool = McpToolSchema {
        tool_type: "function".to_string(),
        function: McpFunctionDef {
            name: "test_fn".to_string(),
            description: "A test".to_string(),
            parameters: Some(obj(vec![("type", s("object"))])),
        },
    };
    let json = serde_json::to_string(&value(&tool.to_json())).unwrap();
    assert!(json.contains("\"type\":\"function\""));
    assert!(json.contains("\"name\":\"test_fn\""));
}

#[test]
fn mcp_initialize_reports_protocol_and_server() {
    let r = reply(call("initialize", obj(vec![])));
    assert!(r.error.is_none());
    let v = value(r.result.as_ref().unwrap());
    assert_eq!(v["protocolVersion"], "2024-11-05");
    assert_eq!(v["serverInfo"]["name"], "openai-proxy");
    assert_eq!(v["serverInfo"]["version"], "0.1.0");
    let wire = value(&r.to_json());
    assert_eq!(wire["jsonrpc"], "2.0");
    assert_eq!(wire["id"], 1);
    assert!(wire.get("error").is_none());
}

#[test]
fn mcp_ping_and_notifications() {
    let r = reply(call("ping", obj(vec![])));
    assert_eq!(value(r.result.as_ref().unwrap()), serde_json::Value::Object(serde_json::Map::new()));
    assert!(matches!(call("notifications/initialized", obj(vec![])), McpAction::NoReply));
}

#[test]
fn mcp_tools_list_has_four_tools_with_schemas() {
    let tools = value(&tool_definitions());
    let arr = tools.as_array().unwrap();
    assert_eq!(arr.len(), 4);
    let names: Vec<&str> = arr.iter().filter_map(|t| t["name"].as_str()).collect();
    assert_eq!(names, vec!["chat_completion", "list_models", "check_auth", "set_model"]);
    for t in arr {
        assert!(t["inputSchema"].is_object());
    }
}

#[test]
fn mcp_tool_calls_answer_with_text() {
    let r = value(reply(call("tools/call", obj(vec![("name", s("list_models")), ("arguments", obj(vec![]))]))).result.as_ref().unwrap());
    assert_eq!(r["isError"], false);
    let text = r["content"][0]["text"].as_str().unwrap();
    assert!(text.contains("gpt-5.3-codex"));
    assert!(!text.contains("codex-mini"));
    let r = value(reply(call("tools/call", obj(vec![("name", s("check_auth"))]))).result.as_ref().unwrap());
    let text = r["content"][0]["text"].as_str().unwrap();
    assert!(text.contains('✓'));
    assert!(text.ends_with("Account ID: acct-1"));
    let r = value(reply(call("tools/call", obj(vec![("name", s("set_model")), ("arguments", obj(vec![("task", s("Quick question"))]))]))).result.as_ref().unwrap());
    assert!(r["content"][0]["text"].as_str().unwrap().starts_with("Recommended model for 'Quick question': codex-mini\n"));
    let r = value(reply(call("tools/call", obj(vec![("name", s("set_model")), ("arguments", obj(vec![("task", s("complex architecture design"))]))]))).result.as_ref().unwrap());
    assert!(r["content"][0]["text"].as_str().unwrap().contains("gpt-5.3-codex"));
    let r = value(reply(call("tools/call", obj(vec![("name", s("does_not_exist"))]))).result.as_ref().unwrap());
    assert_eq!(r["isError"], true);
    assert_eq!(r["content"][0]["text"], "Unknown tool: does_not_exist");
}

#[test]
fn mcp_unknown_method_is_method_not_found() {
    let r = reply(call("nonexistent/method", obj(vec![])));
    assert!(r.result.is_none());
    let e = r.error.as_ref().unwrap();
    assert_eq!(e.code, -32601);
    assert_eq!(e.message, "Method not found: nonexistent/method");
    let wire = value(&r.to_json());
    assert_eq!(wire["error"]["code"], -32601);
}

#[test]
fn mcp_chat_completion_is_deferred_to_backend() {
    match call("tools/call", obj(vec![("name", s("chat_completion")), ("arguments", obj(vec![("max_tokens", Json::Number("4294967297".to_string()))]))])) {
        McpAction::ChatCompletion { args, .. } => {
            let req = chat_tool_request(&args, vec![], None, Some("gpt-5.4"));
            assert_eq!(req.model, "gpt-5.4");
            assert_eq!(req.max_tokens, Some(1));
            assert!(!req.stream);
            assert!(chat_tool_messages(&args).is_err());
            assert_eq!(chat_tool_messages(&args).unwrap_err(), "missing required field: messages");
        }
        other => panic!("expected chat completion, got {:?}", other),
    }
    let args = obj(vec![("model", s("gpt-4o")), ("messages", Json::Array(vec![]))]);
    assert_eq!(chat_tool_request(&args, vec![], None, Some("gpt-5.4")).model, "gpt-5.3-codex");
    assert!(chat_tool_messages(&args).is_ok());
}

#[test]
fn mcp_chat_reply_text_reads_first_choice() {
    let body = obj(vec![("choices", Json::Array(vec![obj(vec![("message", obj(vec![("content", s("answer"))]))])]))]);
    assert_eq!(chat_tool_reply_text(&body), "answer");
    assert_eq!(chat_tool_reply_text(&obj(vec![])), "");
}

#[test]
fn acp_prompt_becomes_request() {
    let blocks = vec![PromptBlock::Text("line one".to_string()), PromptBlock::Other, PromptBlock::Text("line two".to_string())];
    let text = extract_prompt_text(&blocks);
    assert_eq!(text, "line one\nline two");
    let req = acp_chat_request(&text, &vec!["skill A".to_string(), "skill B".to_string()], None);
    assert_eq!(req.model, "gpt-5.3-codex");
    assert_eq!(req.messages.len(), 2);
    assert_eq!(req.messages[0].role, "system");
    assert!(matches!(&req.messages[0].content, MessageContent::Text(t) if t == "# Active Skills\n\nskill A\n\n---\n\nskill B"));
    assert!(matches!(&req.messages[1].content, MessageContent::Text(t) if t == "line one\nline two"));
    let plain = acp_chat_request("hi", &vec![], Some("gpt-5.4"));
    assert_eq!(plain.messages.len(), 1);
    assert_eq!(plain.model, "gpt-5.4");
    let chunk = message_chunk(&ResponseStreamEvent::ResponseOutputTextDelta { output_index: 0, content_index: 0, delta: "x".to_string() });
    assert_eq!(chunk.as_deref(), Some("x"));
    assert!(message_chunk(&ResponseStreamEvent::Unknown).is_none());
}
