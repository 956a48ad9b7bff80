use pi::agent::{Agent, AgentConfig, AgentSession, Step};
use pi::json::Json;
use pi::model::{
    AssistantMessage, ContentBlock, Message, StopReason, StreamEvent, TextContent, ToolCall,
    Usage, UserContent, UserMessage,
};
use pi::provider::ProviderInfo;
use pi::rpc::{
    answer, parse_request, prompt_lines, prompt_response, prompt_transcript, session_stats,
    state_data, RpcAction,
};
use pi::session::{Session, SessionHeader, SessionMessage};

fn mock_agent() -> Agent {
    let provider = ProviderInfo {
        name: "mock".to_string(),
        api: "mock".to_string(),
        model_id: "mock-model".to_string(),
    };
    let mut config = AgentConfig::default();
    config.stream_options.api_key = Some("test-key".to_string());
    Agent::new(provider, Vec::new(), config)
}

fn mock_session() -> Session {
    let mut header = SessionHeader::new("s1".to_string(), "2026-01-01T00:00:00.000Z".to_string(), "/w".to_string());
    header.provider = Some("mock".to_string());
    header.model_id = Some("mock-model".to_string());
    header.thinking_level = Some("off".to_string());
    Session::create(header)
}

fn mock_answer(now: i64) -> AssistantMessage {
    AssistantMessage {
        content: vec![ContentBlock::Text(TextContent::new("hello"))],
        api: "mock".to_string(),
        provider: "mock".to_string(),
        model: "mock-model".to_string(),
        usage: Usage { input: 10, output: 5, total_tokens: 15, ..Usage::default() },
        stop_reason: StopReason::Stop,
        error_message: None,
        timestamp: now,
    }
}

/// Serves one line of input as the front end does: the response to a
/// request that is answered at once; for a prompt the lines of its events,
/// the `agent_end`, and then the response.
fn serve(bound: &mut AgentSession, line: &str) -> Vec<Json> {
    let request = parse_request(line).expect("request");
    match answer(request, bound, None) {
        RpcAction::Respond(response) => vec![response],
        RpcAction::Prompt { id, message } => {
            let (mut step, start) = bound.run_text(&message);
            let error = loop {
                step = match step {
                    Step::Stream(_) => {
                        let message = mock_answer(1);
                        bound.agent.on_stream_event(StreamEvent::Done { reason: StopReason::Stop, message });
                        bound.agent.on_stream_end()
                    }
                    Step::Finished(Ok(_)) => break None,
                    Step::Finished(Err(e)) => break Some(e.to_string()),
                    other => panic!("the mock provider calls no tool: {other:?}"),
                };
            };
            let user = match &bound.agent.messages()[start] {
                Message::User(user) => user.clone(),
                other => panic!("a prompt starts with the user's message: {other:?}"),
            };
            prompt_transcript(&id, &user, bound.agent.events(), Some(error.as_deref()))
        }
    }
}

fn text_at<'a>(doc: &'a Json, key: &str) -> Option<&'a str> {
    doc.get(key).and_then(|v| v.as_str())
}

fn count_at(doc: &Json, key: &str) -> Option<u64> {
    doc.get(key).and_then(|v| v.as_u64())
}

#[test]
fn rpc_get_state_and_prompt() {
    let mut bound = AgentSession::new(mock_agent(), mock_session(), false);

    let lines = serve(&mut bound, "{\"id\":\"1\",\"type\":\"get_state\"}");
    assert_eq!(lines.len(), 1);
    let get_state_response = &lines[0];
    assert_eq!(text_at(get_state_response, "type"), Some("response"));
    assert_eq!(text_at(get_state_response, "command"), Some("get_state"));
    assert!(matches!(get_state_response.get("success"), Some(Json::Bool(true))));
    let data = get_state_response.get("data").expect("data");
    assert!(matches!(data, Json::Object(_)));
    assert!(matches!(data.get("sessionFile"), Some(Json::Null)));
    assert!(matches!(data.get("sessionName"), Some(Json::Null)));
    assert!(matches!(data.get("model"), Some(Json::Null)));

    let lines = serve(&mut bound, "{\"id\":\"2\",\"type\":\"prompt\",\"message\":\"hi\"}");
    let prompt_resp = lines.last().expect("response");
    assert_eq!(text_at(prompt_resp, "type"), Some("response"));
    assert_eq!(text_at(prompt_resp, "command"), Some("prompt"));
    assert!(matches!(prompt_resp.get("success"), Some(Json::Bool(true))));
    assert_eq!(text_at(&lines[lines.len() - 2], "type"), Some("agent_end"));

    let mut saw_agent_end = false;
    let mut message_end_count = 0usize;
    for event in lines.iter().take(10) {
        if text_at(event, "type") == Some("message_end") {
            message_end_count += 1;
        }
        if text_at(event, "type") == Some("agent_end") {
            saw_agent_end = true;
            break;
        }
    }
    assert!(saw_agent_end, "did not receive agent_end event");
    assert!(message_end_count >= 2, "expected at least user+assistant message_end events");

    let lines = serve(&mut bound, "{\"id\":\"3\",\"type\":\"get_session_stats\"}");
    let get_stats_response = &lines[0];
    assert_eq!(text_at(get_stats_response, "type"), Some("response"));
    assert_eq!(text_at(get_stats_response, "command"), Some("get_session_stats"));
    assert!(matches!(get_stats_response.get("success"), Some(Json::Bool(true))));
    let data = get_stats_response.get("data").expect("data");
    assert!(matches!(data, Json::Object(_)));
    assert!(matches!(data.get("sessionFile"), Some(Json::Null)));
    assert_eq!(count_at(data, "userMessages"), Some(1));
    assert_eq!(count_at(data, "assistantMessages"), Some(1));
    assert_eq!(count_at(data, "toolCalls"), Some(0));
    assert_eq!(count_at(data, "toolResults"), Some(0));
    assert_eq!(count_at(data, "totalMessages"), Some(2));
    let tokens = data.get("tokens").expect("tokens");
    assert_eq!(count_at(tokens, "input"), Some(10));
    assert_eq!(count_at(tokens, "output"), Some(5));
    assert_eq!(count_at(tokens, "total"), Some(15));
}

#[test]
fn rpc_session_stats_counts_tool_calls_and_results() {
    let now: i64 = 1_700_000_000_000;
    let mut session = mock_session();
    session.append_message(SessionMessage::User {
        content: UserContent::Text("hi".to_string()),
        timestamp: Some(now),
    });
    session.append_message(SessionMessage::Assistant {
        message: AssistantMessage {
            content: vec![ContentBlock::ToolCall(ToolCall {
                id: "tc1".to_string(),
                name: "read".to_string(),
                arguments: Json::Object(vec![("path".to_string(), Json::Text("test.txt".to_string()))]),
                thought_signature: None,
            })],
            api: "mock".to_string(),
            provider: "mock".to_string(),
            model: "mock-model".to_string(),
            usage: Usage { input: 2, output: 3, total_tokens: 5, ..Usage::default() },
            stop_reason: StopReason::ToolUse,
            error_message: None,
            timestamp: now,
        },
    });
    session.append_message(SessionMessage::ToolResult {
        tool_call_id: "tc1".to_string(),
        tool_name: "read".to_string(),
        content: vec![ContentBlock::Text(TextContent::new("ok"))],
        details: None,
        is_error: false,
        timestamp: Some(now),
    });

    let mut agent = mock_agent();
    agent.replace_messages(session.to_messages());
    let mut bound = AgentSession::new(agent, session, false);

    let lines = serve(&mut bound, "{\"id\":\"1\",\"type\":\"get_session_stats\"}");
    let stats_resp = &lines[0];
    assert_eq!(text_at(stats_resp, "type"), Some("response"));
    assert_eq!(text_at(stats_resp, "command"), Some("get_session_stats"));
    assert!(matches!(stats_resp.get("success"), Some(Json::Bool(true))));
    let data = stats_resp.get("data").expect("data");
    assert!(matches!(data, Json::Object(_)));
    assert!(matches!(data.get("sessionFile"), Some(Json::Null)));
    assert_eq!(count_at(data, "userMessages"), Some(1));
    assert_eq!(count_at(data, "assistantMessages"), Some(1));
    assert_eq!(count_at(data, "toolCalls"), Some(1));
    assert_eq!(count_at(data, "toolResults"), Some(1));
    assert_eq!(count_at(data, "totalMessages"), Some(3));
    assert_eq!(data.get("tokens").and_then(|t| count_at(t, "total")), Some(5));
}

#[test]
fn a_prompt_ends_with_one_agent_end() {
    let user = UserMessage { content: UserContent::Text("hi".to_string()), timestamp: 3 };
    let mut bound = AgentSession::new(mock_agent(), mock_session(), false);
    let (_, _) = bound.run_text("hi");
    bound.agent.on_stream_event(StreamEvent::TextDelta {
        content_index: 0,
        delta: "hel".to_string(),
        partial: mock_answer(4),
    });
    bound.agent.on_stream_event(StreamEvent::Done { reason: StopReason::Stop, message: mock_answer(4) });
    bound.agent.on_stream_end();
    let lines = prompt_lines(&user, bound.agent.events(), None);
    let kinds: Vec<&str> = lines.iter().map(|l| text_at(l, "type").expect("type")).collect();
    assert_eq!(
        kinds,
        vec!["message_start", "message_end", "message_start", "delta", "message_end", "agent_end"]
    );
    assert_eq!(text_at(&lines[0], "role"), Some("user"));
    assert_eq!(text_at(&lines[2], "role"), Some("assistant"));
    assert_eq!(text_at(&lines[3], "text"), Some("hel"));
    assert_eq!(text_at(&lines[3], "kind"), Some("text"));
    let carried = lines[1].get("message").expect("message");
    assert_eq!(text_at(carried, "role"), Some("user"));
    assert_eq!(text_at(carried, "content"), Some("hi"));
    assert!(matches!(lines[5].get("error"), Some(Json::Null)));

    let failed = prompt_lines(&user, &[], Some("overloaded"));
    assert_eq!(failed.len(), 3);
    assert_eq!(text_at(&failed[2], "type"), Some("agent_end"));
    assert_eq!(text_at(&failed[2], "error"), Some("overloaded"));
    let response = prompt_response("9", Some("overloaded"));
    assert!(matches!(response.get("success"), Some(Json::Bool(false))));
    assert_eq!(text_at(&response, "error"), Some("overloaded"));
}

#[test]
fn requests_of_other_types_are_refused() {
    let bound = AgentSession::new(mock_agent(), mock_session(), false);
    let request = parse_request("{\"id\":\"4\",\"type\":\"fly\"}").expect("request");
    match answer(request, &bound, Some("mock-model")) {
        RpcAction::Respond(response) => {
            assert_eq!(text_at(&response, "id"), Some("4"));
            assert_eq!(text_at(&response, "command"), Some("fly"));
            assert!(matches!(response.get("success"), Some(Json::Bool(false))));
            assert_eq!(text_at(&response, "error"), Some("Unknown command: fly"));
        }
        other => panic!("expected a response, got {other:?}"),
    }
}

#[test]
fn the_state_names_model_file_and_session() {
    let data = state_data(Some("mock-model"), Some("/s/a.jsonl"), None);
    assert_eq!(text_at(&data, "model"), Some("mock-model"));
    assert_eq!(text_at(&data, "sessionFile"), Some("/s/a.jsonl"));
    assert!(matches!(data.get("sessionName"), Some(Json::Null)));

    let mut session = mock_session();
    assert_eq!(session.name(), None);
    session.append_session_info(Some("first".to_string()));
    session.append_thinking_level_change("high".to_string());
    assert_eq!(session.name(), Some("first"));
    session.append_session_info(None);
    assert_eq!(session.name(), None);
    session.path = Some("/s/b.jsonl".to_string());
    session.append_session_info(Some("second".to_string()));
    let bound = AgentSession::new(mock_agent(), session, false);
    let request = parse_request("{\"id\":\"1\",\"type\":\"get_state\"}").expect("request");
    match answer(request, &bound, Some("mock-model")) {
        RpcAction::Respond(response) => {
            let data = response.get("data").expect("data");
            assert_eq!(text_at(data, "model"), Some("mock-model"));
            assert_eq!(text_at(data, "sessionFile"), Some("/s/b.jsonl"));
            assert_eq!(text_at(data, "sessionName"), Some("second"));
        }
        other => panic!("expected a response, got {other:?}"),
    }
}

#[test]
fn a_journal_gives_its_conversation_back() {
    let mut session = mock_session();
    let messages = vec![
        Message::User(UserMessage { content: UserContent::Text("hi".to_string()), timestamp: 11 }),
        Message::Assistant(mock_answer(12)),
    ];
    session.append_model_messages(messages.clone());
    session.append_model_change("mock".to_string(), "other".to_string());
    session.append_message(SessionMessage::BashExecution {
        command: "ls".to_string(),
        output: String::new(),
        exit_code: 0,
    });
    session.append_message(SessionMessage::User { content: UserContent::Text("again".to_string()), timestamp: None });
    let back = session.to_messages();
    assert_eq!(back.len(), 3);
    assert!(matches!(&back[0], Message::User(u) if u.timestamp == 11));
    assert!(matches!(&back[1], Message::Assistant(a) if a.timestamp == 12 && a.usage.total_tokens == 15));
    assert!(matches!(&back[2], Message::User(u) if u.timestamp == 0));
    let stats = session_stats(&back);
    assert_eq!(stats.user_messages, 2);
    assert_eq!(stats.total_messages, 3);
}

#[test]
fn the_conversation_follows_the_active_branch() {
    let mut session = mock_session();
    let root = session.append_message(SessionMessage::User {
        content: UserContent::Text("Root".to_string()),
        timestamp: Some(1),
    });
    let mut first = mock_answer(2);
    first.content = vec![ContentBlock::Text(TextContent::new("Branch A"))];
    session.append_message(SessionMessage::Assistant { message: first });
    assert!(session.create_branch_from(&root));
    let mut second = mock_answer(3);
    second.content = vec![ContentBlock::Text(TextContent::new("Branch B"))];
    session.append_message(SessionMessage::Assistant { message: second });

    let branch = session.to_messages();
    assert_eq!(branch.len(), 2);
    assert!(matches!(&branch[0], Message::User(u) if u.timestamp == 1));
    assert!(matches!(&branch[1], Message::Assistant(a) if a.timestamp == 3));

    assert!(session.create_branch_from(&root));
    assert_eq!(session.to_messages().len(), 1);
    assert!(mock_session().to_messages().is_empty());
}

#[test]
fn what_is_written_for_a_prompt_only_grows() {
    let user = UserMessage { content: UserContent::Text("hi".to_string()), timestamp: 3 };
    let mut bound = AgentSession::new(mock_agent(), mock_session(), false);
    bound.run_text("hi");
    bound.agent.on_stream_event(StreamEvent::TextDelta {
        content_index: 0,
        delta: "hel".to_string(),
        partial: mock_answer(4),
    });
    let early = prompt_transcript("7", &user, bound.agent.events(), None);
    bound.agent.on_stream_event(StreamEvent::Done { reason: StopReason::Stop, message: mock_answer(4) });
    bound.agent.on_stream_end();
    let whole = prompt_transcript("7", &user, bound.agent.events(), Some(None));
    assert!(early.len() < whole.len());
    for (a, b) in early.iter().zip(whole.iter()) {
        assert!(a.same(b));
    }
    let kinds: Vec<&str> = whole.iter().map(|l| text_at(l, "type").expect("type")).collect();
    assert_eq!(
        kinds,
        vec!["message_start", "message_end", "message_start", "delta", "message_end", "agent_end", "response"]
    );
    assert_eq!(text_at(whole.last().expect("response"), "id"), Some("7"));
}

#[test]
fn a_failed_prompt_closes_with_its_error() {
    let user = UserMessage { content: UserContent::Text("hi".to_string()), timestamp: 3 };
    let mut bound = AgentSession::new(mock_agent(), mock_session(), false);
    bound.run_text("hi");
    let step = bound.agent.on_stream_end();
    let error = match step {
        Step::Finished(Err(e)) => e.to_string(),
        other => panic!("expected a failure, got {other:?}"),
    };
    let whole = prompt_transcript("8", &user, bound.agent.events(), Some(Some(&error)));
    let end = &whole[whole.len() - 2];
    assert_eq!(text_at(end, "type"), Some("agent_end"));
    assert_eq!(text_at(end, "error"), Some("API error: Stream ended without Done event"));
    let response = whole.last().expect("response");
    assert!(matches!(response.get("success"), Some(Json::Bool(false))));
    assert_eq!(text_at(response, "error"), Some("API error: Stream ended without Done event"));
}
