use pi::json::{Json, JsonNumber};
use pi::model::{
    AssistantMessage, ContentBlock, Message, StopReason, TextContent, ThinkingLevel, ToolCall,
    ToolResultMessage, Usage, UserContent, UserMessage,
};
use pi::provider::ToolDef;
use pi::rpc::{parse_request, response, session_stats, session_stats_data, RpcCommand};
use pi::text::{decimal_string, signed_decimal_string, trim};
use pi::tools::ToolRegistry;

#[test]
fn thinking_levels_have_names_and_budgets() {
    assert_eq!(ThinkingLevel::Off.default_budget(), 0);
    assert_eq!(ThinkingLevel::Minimal.default_budget(), 1024);
    assert_eq!(ThinkingLevel::Low.default_budget(), 2048);
    assert_eq!(ThinkingLevel::Medium.default_budget(), 8192);
    assert_eq!(ThinkingLevel::High.default_budget(), 16384);
    assert_eq!(ThinkingLevel::XHigh.default_budget(), u32::MAX);
    assert_eq!(ThinkingLevel::from_str("XHigh"), Ok(ThinkingLevel::XHigh));
    assert_eq!(ThinkingLevel::from_str("off"), Ok(ThinkingLevel::Off));
    assert_eq!(ThinkingLevel::from_str("Loud"), Err("Invalid thinking level: Loud".to_string()));
    assert_eq!(ThinkingLevel::Medium.as_str(), "medium");
    assert_eq!(ThinkingLevel::default(), ThinkingLevel::Off);
    assert_eq!(StopReason::default(), StopReason::Stop);
    assert!(StopReason::Aborted.is_terminal());
    assert!(!StopReason::ToolUse.is_terminal());
}

#[test]
fn text_content_has_no_signature_at_first() {
    let t = TextContent::new("hello");
    assert_eq!(t.text, "hello");
    assert!(t.text_signature.is_none());
}

#[test]
fn usage_adds_up_and_stops_at_the_top() {
    let mut total = Usage::default();
    total.add(&Usage { input: 1, output: 2, cache_read: 3, cache_write: 4, total_tokens: 10 });
    total.add(&Usage { input: u64::MAX, output: 2, cache_read: 3, cache_write: 4, total_tokens: 10 });
    assert_eq!(total, Usage { input: u64::MAX, output: 4, cache_read: 6, cache_write: 8, total_tokens: 20 });
}

#[test]
fn numbers_are_written_in_decimal() {
    assert_eq!(decimal_string(0), "0");
    assert_eq!(decimal_string(9), "9");
    assert_eq!(decimal_string(10), "10");
    assert_eq!(decimal_string(u64::MAX), "18446744073709551615");
    assert_eq!(signed_decimal_string(-1), "-1");
    assert_eq!(signed_decimal_string(i64::MIN), "-9223372036854775808");
    assert_eq!(signed_decimal_string(i64::MAX), "9223372036854775807");
    assert_eq!(trim(" \t a b \u{a0}\n"), "a b");
    assert_eq!(trim("\n"), "");
}

#[test]
fn json_is_read_printed_and_compared() {
    let doc = Json::parse("{\"b\":[1,-2,1.5,\"x\",null,true],\"a\":{}}").expect("json");
    assert_eq!(doc.to_compact(), "{\"a\":{},\"b\":[1,-2,1.5,\"x\",null,true]}");
    assert_eq!(doc.to_pretty(), "{\n  \"a\": {},\n  \"b\": [\n    1,\n    -2,\n    1.5,\n    \"x\",\n    null,\n    true\n  ]\n}");
    match doc.get("b") {
        Some(Json::Array(items)) => {
            assert!(matches!(&items[0], Json::Number(JsonNumber::Unsigned(1))));
            assert!(matches!(&items[1], Json::Number(JsonNumber::Negative(-2))));
            assert!(matches!(&items[2], Json::Number(JsonNumber::Float(t)) if t == "1.5"));
            assert_eq!(items[0].as_u64(), Some(1));
            assert_eq!(items[1].as_u64(), None);
            assert_eq!(items[3].as_str(), Some("x"));
        }
        other => panic!("expected an array, got {other:?}"),
    }
    assert!(doc.get("c").is_none());
    assert!(Json::Null.get("a").is_none());
    assert!(Json::parse("{ this is not json }").is_err());
    assert!(doc.same(&doc.clone()));
    assert!(!doc.same(&Json::parse("{\"a\":{},\"b\":[1,-2,1.5,\"x\",null,false]}").expect("json")));
    assert!(!Json::Number(JsonNumber::Unsigned(1)).same(&Json::Number(JsonNumber::Float("1.0".to_string()))));
    let again = Json::from_serde(&doc.to_serde());
    assert!(again.same(&doc));
    let twice = Json::Object(vec![("k".to_string(), Json::Null), ("k".to_string(), Json::Bool(true))]);
    assert!(matches!(twice.get("k"), Some(Json::Null)));
}

#[test]
fn rpc_requests_and_responses() {
    let request = parse_request("{\"id\":\"1\",\"type\":\"get_state\"}").expect("request");
    assert_eq!(request.id, "1");
    assert!(matches!(request.command, RpcCommand::GetState));
    let request = parse_request("{\"id\":\"2\",\"type\":\"prompt\",\"message\":\"hi\"}").expect("request");
    assert!(matches!(request.command, RpcCommand::Prompt { message } if message == "hi"));
    let request = parse_request("{\"id\":\"3\",\"type\":\"get_session_stats\"}").expect("request");
    assert!(matches!(request.command, RpcCommand::GetSessionStats));
    let request = parse_request("{\"id\":\"4\",\"type\":\"fly\"}").expect("request");
    assert!(matches!(request.command, RpcCommand::Other { name } if name == "fly"));
    assert_eq!(parse_request("{\"type\":\"get_state\"}").unwrap_err(), "request needs the strings `id` and `type`");
    assert!(parse_request("nonsense").is_err());
    assert_eq!(parse_request("").unwrap_err(), "EOF while parsing a value at line 1 column 0");
    let ok = response("1", "get_state", true, Some(Json::Null), None);
    assert_eq!(ok.get("type").and_then(|v| v.as_str()), Some("response"));
    assert_eq!(ok.get("command").and_then(|v| v.as_str()), Some("get_state"));
    assert!(matches!(ok.get("success"), Some(Json::Bool(true))));
    assert!(matches!(ok.get("data"), Some(Json::Null)));
    assert!(ok.get("error").is_none());
    let failed = response("1", "prompt", false, None, Some("busy"));
    assert_eq!(failed.get("error").and_then(|v| v.as_str()), Some("busy"));
    assert!(failed.get("data").is_none());
}

#[test]
fn session_stats_count_every_tool_call() {
    let call = |id: &str| {
        ContentBlock::ToolCall(ToolCall {
            id: id.to_string(),
            name: "read".to_string(),
            arguments: Json::Object(vec![("path".to_string(), Json::Text("test.txt".to_string()))]),
            thought_signature: None,
        })
    };
    let messages = vec![
        Message::User(UserMessage { content: UserContent::Text("hi".to_string()), timestamp: 0 }),
        Message::Assistant(AssistantMessage {
            content: vec![call("tc1"), ContentBlock::Text(TextContent::new("x")), call("tc2")],
            api: "a".to_string(),
            provider: "mock".to_string(),
            model: "mock-model".to_string(),
            usage: Usage { input: 10, output: 5, cache_read: 0, cache_write: 0, total_tokens: 15 },
            stop_reason: StopReason::ToolUse,
            error_message: None,
            timestamp: 0,
        }),
        Message::ToolResult(ToolResultMessage {
            tool_call_id: "tc1".to_string(),
            tool_name: "read".to_string(),
            content: vec![],
            details: None,
            is_error: false,
            timestamp: 0,
        }),
    ];
    let stats = session_stats(&messages);
    assert_eq!(stats.user_messages, 1);
    assert_eq!(stats.assistant_messages, 1);
    assert_eq!(stats.tool_calls, 2);
    assert_eq!(stats.tool_results, 1);
    assert_eq!(stats.total_messages, 3);
    let data = session_stats_data(&stats, None);
    assert!(matches!(data.get("sessionFile"), Some(Json::Null)));
    assert_eq!(data.get("toolCalls").and_then(|v| v.as_u64()), Some(2));
    assert_eq!(data.get("tokens").and_then(|t| t.get("total")).and_then(|v| v.as_u64()), Some(15));
    assert_eq!(data.get("tokens").and_then(|t| t.get("input")).and_then(|v| v.as_u64()), Some(10));
    assert_eq!(session_stats_data(&stats, Some("/s.jsonl")).get("sessionFile").and_then(|v| v.as_str()), Some("/s.jsonl"));
}

#[test]
fn the_tool_registry_goes_by_the_whitelist() {
    let def = |name: &str| ToolDef { name: name.to_string(), description: String::new(), parameters: Json::Null };
    let registry = ToolRegistry::new(vec![def("read"), def("bash"), def("write")], &["write", "read", "Bash"]);
    assert_eq!(registry.names(), vec!["read", "write"]);
    assert!(registry.get("read").is_some());
    assert!(registry.get("Read").is_none());
    assert!(registry.get("bash").is_none());
    assert_eq!(registry.tools().len(), 2);
    assert!(ToolRegistry::new(vec![def("read")], &[]).tools.is_empty());
}
