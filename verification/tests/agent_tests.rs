use pi::agent::{extract_tool_calls, AgentConfig};
use pi::json::Json;
use pi::model::{ContentBlock, TextContent, ToolCall};

fn object(members: Vec<(&str, Json)>) -> Json {
    Json::Object(members.into_iter().map(|(k, v)| (k.to_string(), v)).collect())
}

#[test]
fn test_extract_tool_calls() {
    let content = vec![
        ContentBlock::Text(TextContent::new("Hello")),
        ContentBlock::ToolCall(ToolCall {
            id: "tc1".to_string(),
            name: "read".to_string(),
            arguments: object(vec![("path", Json::Text("file.txt".to_string()))]),
            thought_signature: None,
        }),
        ContentBlock::Text(TextContent::new("World")),
        ContentBlock::ToolCall(ToolCall {
            id: "tc2".to_string(),
            name: "bash".to_string(),
            arguments: object(vec![("command", Json::Text("ls".to_string()))]),
            thought_signature: None,
        }),
    ];

    let tool_calls = extract_tool_calls(&content);
    assert_eq!(tool_calls.len(), 2);
    assert_eq!(tool_calls[0].name, "read");
    assert_eq!(tool_calls[1].name, "bash");
}

#[test]
fn test_agent_config_default() {
    let config = AgentConfig::default();
    assert_eq!(config.max_tool_iterations, 50);
    assert!(config.system_prompt.is_none());
}
