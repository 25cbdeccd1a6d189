use openai_proxy_lib::codex::{
    CodexAuth, OutputItemFull, OutputItemMeta, ResponseCreatedData, ResponseDoneData, ResponseStreamEvent, ResponseUsage,
};
use openai_proxy_lib::hooks::HookEvent;
use openai_proxy_lib::json::Json;
use openai_proxy_lib::mcp_client::{McpFunctionDef, McpToolSchema};
use openai_proxy_lib::proxy::{
    accumulate, chat_completions_headers, inject_mcp_tools, parse_chat_completions_response,
    responses_headers, skills_limit, StreamTranslator,
};
use openai_proxy_lib::sse::{sse_payloads, LineBuffer, StreamScanner};

fn s(x: &str) -> Json {
    Json::Str(x.to_string())
}

fn obj(members: Vec<(&str, Json)>) -> Json {
    Json::Object(members.into_iter().map(|(k, v)| (k.to_string(), v)).collect())
}

fn num(n: u64) -> Json {
    Json::Number(n.to_string())
}

fn text_delta(d: &str) -> ResponseStreamEvent {
    ResponseStreamEvent::ResponseOutputTextDelta { output_index: 0, content_index: 0, delta: d.to_string() }
}

fn done(status: Option<&str>, input: u32, output: u32) -> ResponseStreamEvent {
    ResponseStreamEvent::ResponseDone {
        response: ResponseDoneData {
            id: "resp_1".to_string(),
            model: "gpt-5.3-codex".to_string(),
            usage: Some(ResponseUsage { input_tokens: input, output_tokens: output, total_tokens: input + output }),
            status: status.map(|x| x.to_string()),
        },
    }
}

#[test]
fn accumulated_text_is_concatenation_of_deltas() {
    let events = vec![text_delta("Hel"), text_delta("lo"), done(Some("completed"), 3, 2)];
    let (acc, hooks) = accumulate(events);
    let resp = acc.finish("gpt-5.3-codex".to_string(), 7);
    assert_eq!(resp.choices[0].message.content.as_deref(), Some("Hello"));
    assert_eq!(resp.choices[0].finish_reason, "stop");
    assert_eq!(resp.usage.prompt_tokens, 3);
    assert_eq!(resp.usage.completion_tokens, 2);
    assert_eq!(resp.usage.total_tokens, 5);
    assert_eq!(resp.created, 7);
    let deltas: String = hooks
        .iter()
        .filter_map(|h| match h {
            HookEvent::TextDelta { delta } => Some(delta.clone()),
            _ => None,
        })
        .collect();
    assert_eq!(deltas, "Hello");
    assert!(matches!(hooks.last(), Some(HookEvent::ResponseComplete { .. })));
}

#[test]
fn accumulated_tool_call_reports_tool_calls() {
    let events = vec![
        ResponseStreamEvent::ResponseOutputItemAdded {
            output_index: 0,
            item: OutputItemMeta {
                id: Some("fc_1".to_string()),
                item_type: Some("function_call".to_string()),
                name: Some("get_weather".to_string()),
                call_id: Some("call_1".to_string()),
            },
        },
        ResponseStreamEvent::ResponseFunctionCallArgumentsDelta { output_index: 0, delta: "{\"city\":".to_string() },
        ResponseStreamEvent::ResponseFunctionCallArgumentsDelta { output_index: 0, delta: "\"NYC\"}".to_string() },
        ResponseStreamEvent::ResponseOutputItemDone {
            output_index: 0,
            item: OutputItemFull {
                id: Some("fc_1".to_string()),
                item_type: Some("function_call".to_string()),
                name: Some("get_weather".to_string()),
                call_id: Some("call_1".to_string()),
                arguments: Some("{\"city\":\"NYC\"}".to_string()),
            },
        },
        done(Some("completed"), 1, 1),
    ];
    let (acc, hooks) = accumulate(events);
    let resp = acc.finish("gpt-5.3-codex".to_string(), 0);
    assert_eq!(resp.choices[0].finish_reason, "tool_calls");
    let calls = resp.choices[0].message.tool_calls.as_ref().expect("tool calls");
    assert_eq!(calls.len(), 1);
    assert_eq!(calls[0].id, "call_1");
    assert_eq!(calls[0].function.name, "get_weather");
    assert_eq!(calls[0].function.arguments, "{\"city\":\"NYC\"}");
    assert!(matches!(hooks[0], HookEvent::ToolCallStart { .. }));
}

#[test]
fn stream_translator_shares_completion_id() {
    let mut t = StreamTranslator::new("chatcmpl-1".to_string(), 5, "gpt-5.3-codex".to_string());
    let (_, c1) = t.translate(text_delta("a"));
    let (_, c2) = t.translate(done(Some("completed"), 0, 0));
    let c1 = c1.expect("delta chunk");
    assert_eq!(c1.id, "chatcmpl-1");
    assert_eq!(c1.choices[0].delta.content.as_deref(), Some("a"));
    let c2 = c2.expect("final chunk");
    assert_eq!(c2.id, "chatcmpl-1");
    assert_eq!(c2.choices[0].finish_reason.as_deref(), Some("stop"));
}

#[test]
fn stream_translator_emits_role_then_tool_call_chunks() {
    let mut t = StreamTranslator::new("chatcmpl-2".to_string(), 9, "gpt-5.4".to_string());
    let (_, first) = t.translate(ResponseStreamEvent::ResponseCreated {
        response: ResponseCreatedData { id: "resp_1".to_string(), model: "gpt-5.4".to_string() },
    });
    let first = first.expect("role chunk");
    assert_eq!(first.object, "chat.completion.chunk");
    assert_eq!(first.choices[0].delta.role, Some("assistant"));
    assert!(first.choices[0].finish_reason.is_none());
    let meta = OutputItemMeta {
        id: Some("fc_1".to_string()),
        item_type: Some("function_call".to_string()),
        name: Some("lookup".to_string()),
        call_id: Some("call_7".to_string()),
    };
    let (hooks, header) = t.translate(ResponseStreamEvent::ResponseOutputItemAdded { output_index: 3, item: meta });
    assert!(matches!(&hooks[..], [HookEvent::ToolCallStart { name, call_id }] if name == "lookup" && call_id == "call_7"));
    let header = header.expect("tool call header");
    let tc = &header.choices[0].delta.tool_calls.as_ref().unwrap()[0];
    assert_eq!(tc.index, 0);
    assert_eq!(tc.id.as_deref(), Some("call_7"));
    assert_eq!(tc.call_type, Some("function"));
    assert_eq!(tc.function.name.as_deref(), Some("lookup"));
    assert_eq!(tc.function.arguments, "");
    let (_, args) = t.translate(ResponseStreamEvent::ResponseFunctionCallArgumentsDelta { output_index: 3, delta: "{}".to_string() });
    let args = args.expect("arguments chunk");
    let tc = &args.choices[0].delta.tool_calls.as_ref().unwrap()[0];
    assert_eq!(tc.index, 0);
    assert!(tc.id.is_none());
    assert_eq!(tc.function.arguments, "{}");
    let (_, unknown) = t.translate(ResponseStreamEvent::ResponseFunctionCallArgumentsDelta { output_index: 4, delta: "x".to_string() });
    assert!(unknown.is_none());
    let full = OutputItemFull {
        id: Some("fc_1".to_string()),
        item_type: Some("function_call".to_string()),
        name: Some("lookup".to_string()),
        call_id: Some("call_7".to_string()),
        arguments: Some("{}".to_string()),
    };
    let (_, fin) = t.translate(ResponseStreamEvent::ResponseOutputItemDone { output_index: 3, item: full });
    assert_eq!(fin.expect("finish chunk").choices[0].finish_reason.as_deref(), Some("tool_calls"));
    let (_, after) = t.translate(done(Some("completed"), 1, 1));
    assert!(after.is_none(), "a stream with tool calls ends on the tool_calls chunk");
}

#[test]
fn tool_call_positions_follow_announcement_order() {
    let mut t = StreamTranslator::new("chatcmpl-3".to_string(), 1, "gpt-5.4".to_string());
    let announce = |oi: u32, call: &str| ResponseStreamEvent::ResponseOutputItemAdded {
        output_index: oi,
        item: OutputItemMeta {
            id: None,
            item_type: Some("function_call".to_string()),
            name: Some("f".to_string()),
            call_id: Some(call.to_string()),
        },
    };
    let mut positions = Vec::new();
    for (oi, call) in [(5, "a"), (2, "b"), (9, "c")] {
        let (_, c) = t.translate(announce(oi, call));
        positions.push(c.unwrap().choices[0].delta.tool_calls.as_ref().unwrap()[0].index);
    }
    assert_eq!(positions, vec![0, 1, 2]);
    let (_, c) = t.translate(ResponseStreamEvent::ResponseFunctionCallArgumentsDelta { output_index: 2, delta: "x".to_string() });
    assert_eq!(c.unwrap().choices[0].delta.tool_calls.as_ref().unwrap()[0].index, 1);
}

#[test]
fn chat_completions_body_is_read() {
    let body = obj(vec![
        ("id", s("chatcmpl-9")),
        ("choices", Json::Array(vec![obj(vec![
            ("message", obj(vec![("role", s("assistant")), ("content", s("Hi there"))])),
            ("finish_reason", s("stop")),
        ])])),
        ("usage", obj(vec![("prompt_tokens", num(4)), ("completion_tokens", num(2))])),
    ]);
    let (resp, hook) = parse_chat_completions_response(&body, "gpt-5.5".to_string(), 11);
    assert_eq!(resp.id, "chatcmpl-9");
    assert_eq!(resp.choices[0].message.content.as_deref(), Some("Hi there"));
    assert_eq!(resp.usage.total_tokens, 6);
    assert!(matches!(hook, HookEvent::ResponseComplete { ref finish_reason } if finish_reason == "stop"));
}

#[test]
fn sse_body_payloads_stop_at_done() {
    let raw = "data: one\r\n\nevent: x\ndata: two\ndata: [DONE]\ndata: three\n";
    assert_eq!(sse_payloads(raw), vec!["one".to_string(), "two".to_string()]);
}

#[test]
fn line_buffer_keeps_unfinished_line() {
    let mut b = LineBuffer::new();
    assert_eq!(b.push("data: a\ndata: b"), vec!["data: a".to_string()]);
    assert_eq!(b.pending, "data: b");
    assert_eq!(b.push("c\n"), vec!["data: bc".to_string()]);
    assert_eq!(b.pending, "");
}

#[test]
fn line_buffer_is_independent_of_chunk_boundaries() {
    let text = "data: one\r\n\nevent: x\ndata: two";
    let mut whole = LineBuffer::new();
    let all = whole.push(text);
    let mut split = LineBuffer::new();
    let mut joined = split.push(&text[..4]);
    joined.extend(split.push(&text[4..12]));
    joined.extend(split.push(&text[12..]));
    assert_eq!(joined, all);
    assert_eq!(all, vec!["data: one\r".to_string(), "".to_string(), "event: x".to_string()]);
    assert_eq!(split.pending, whole.pending);
    assert_eq!(whole.pending, "data: two");
}

#[test]
fn scanner_is_independent_of_chunk_boundaries() {
    let text = "data: {\"a\":1}\r\ndata: {\"b\":2}\n: comment\ndata: [DONE]\ndata: late\n";
    let mut whole = StreamScanner::new();
    let (all, done_all) = whole.push_chunk(text);
    let mut split = StreamScanner::new();
    let (p1, d1) = split.push_chunk(&text[..10]);
    let (p2, d2) = split.push_chunk(&text[10..]);
    assert!(!d1);
    let mut joined = p1.clone();
    joined.extend(p2);
    assert_eq!(joined, all);
    assert_eq!(d2, done_all);
    assert!(done_all);
    assert_eq!(all, vec!["{\"a\":1}".to_string(), "{\"b\":2}".to_string()]);
    assert_eq!(whole.remainder, "data: late\n");
}

#[test]
fn scanner_decodes_bytes_lossily() {
    let mut sc = StreamScanner::new();
    let (p, d) = sc.push_bytes(b"data: h\xffi\n");
    assert!(!d);
    assert_eq!(p, vec!["h\u{fffd}i".to_string()]);
}

#[test]
fn responses_headers_carry_account_id() {
    let auth = CodexAuth { access_token: Some("tok".to_string()), account_id: Some("acct".to_string()), api_key: None };
    let hs = responses_headers(&auth, "text/event-stream");
    assert_eq!(hs[0], ("authorization".to_string(), "Bearer tok".to_string()));
    assert_eq!(hs[2], ("accept".to_string(), "text/event-stream".to_string()));
    assert_eq!(hs.last().unwrap(), &("chatgpt-account-id".to_string(), "acct".to_string()));
    assert_eq!(hs.len(), 12);
    let key = CodexAuth { access_token: None, account_id: None, api_key: Some("sk".to_string()) };
    assert_eq!(responses_headers(&key, "application/json").len(), 11);
    assert_eq!(
        chat_completions_headers(&key),
        vec![
            ("authorization".to_string(), "Bearer sk".to_string()),
            ("content-type".to_string(), "application/json".to_string())
        ]
    );
}

#[test]
fn mcp_tools_are_injected_once() {
    let tool = McpToolSchema {
        tool_type: "function".to_string(),
        function: McpFunctionDef { name: "search".to_string(), description: "Search".to_string(), parameters: None },
    };
    let existing = Json::Array(vec![obj(vec![("type", s("function")), ("function", obj(vec![("name", s("search"))]))])]);
    match inject_mcp_tools(Some(existing), &vec![tool]) {
        Some(Json::Array(a)) => assert_eq!(a.len(), 1),
        other => panic!("unexpected {:?}", other),
    }
    let tool2 = McpToolSchema {
        tool_type: "function".to_string(),
        function: McpFunctionDef { name: "fetch".to_string(), description: "Fetch".to_string(), parameters: None },
    };
    match inject_mcp_tools(None, &vec![tool2]) {
        Some(Json::Array(a)) => assert_eq!(a.len(), 1),
        other => panic!("unexpected {:?}", other),
    }
}

#[test]
fn skills_limit_reads_the_env_value() {
    assert_eq!(skills_limit(None), 3);
    assert_eq!(skills_limit(Some("5")), 5);
    assert_eq!(skills_limit(Some("+2")), 2);
    assert_eq!(skills_limit(Some("0")), 0);
    assert_eq!(skills_limit(Some("-1")), 3);
    assert_eq!(skills_limit(Some("")), 3);
    assert_eq!(skills_limit(Some("99999999999999999999999")), 3);
}
