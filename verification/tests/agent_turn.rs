use pi::agent::{Agent, AgentConfig, AgentEvent, AgentSession, Step, ToolOutcome, ToolOutput};
use pi::error::Error;
use pi::json::Json;
use pi::model::{
    AssistantMessage, ContentBlock, Message, StopReason, StreamEvent, TextContent, ToolCall,
    Usage, UserContent,
};
use pi::provider::{ProviderInfo, StreamOptions, ToolDef};
use pi::session::{EntryKind, Session, SessionHeader, SessionMessage};
use pi::turn::{Ending, Phase};

fn provider() -> ProviderInfo {
    ProviderInfo { name: "mock".to_string(), api: "mock-api".to_string(), model_id: "mock-model".to_string() }
}

fn agent(max_tool_iterations: usize) -> Agent {
    let tools = vec![ToolDef {
        name: "read".to_string(),
        description: "Read a file".to_string(),
        parameters: Json::Object(vec![]),
    }];
    Agent::new(
        provider(),
        tools,
        AgentConfig {
            system_prompt: Some("be brief".to_string()),
            max_tool_iterations,
            stream_options: StreamOptions::default(),
        },
    )
}

fn assistant(content: Vec<ContentBlock>, stop_reason: StopReason) -> AssistantMessage {
    AssistantMessage {
        content,
        api: "mock-api".to_string(),
        provider: "mock".to_string(),
        model: "mock-model".to_string(),
        usage: Usage { input: 1, output: 2, cache_read: 0, cache_write: 0, total_tokens: 3 },
        stop_reason,
        error_message: None,
        timestamp: 7,
    }
}

fn tool_call(id: &str, name: &str) -> ContentBlock {
    ContentBlock::ToolCall(ToolCall {
        id: id.to_string(),
        name: name.to_string(),
        arguments: Json::Object(vec![("path".to_string(), Json::Text("test.txt".to_string()))]),
        thought_signature: None,
    })
}

fn text(s: &str) -> ContentBlock {
    ContentBlock::Text(TextContent::new(s))
}

fn done(message: AssistantMessage) -> StreamEvent {
    StreamEvent::Done { reason: message.stop_reason, message }
}

fn event_names(agent: &Agent) -> Vec<&'static str> {
    agent
        .events()
        .iter()
        .map(|e| match e {
            AgentEvent::RequestStart => "RequestStart",
            AgentEvent::TextDelta { .. } => "TextDelta",
            AgentEvent::ThinkingDelta { .. } => "ThinkingDelta",
            AgentEvent::ToolCallStart { .. } => "ToolCallStart",
            AgentEvent::ToolExecuteStart { .. } => "ToolExecuteStart",
            AgentEvent::ToolExecuteEnd { .. } => "ToolExecuteEnd",
            AgentEvent::ToolUpdate { .. } => "ToolUpdate",
            AgentEvent::AssistantDone { .. } => "AssistantDone",
            AgentEvent::Error { .. } => "Error",
            AgentEvent::Done { .. } => "Done",
        })
        .collect()
}

#[test]
fn tool_use_round_trip() {
    let mut agent = agent(50);
    let step = agent.begin(UserContent::Text("read test.txt".to_string()), 1, false);
    let context = match step {
        Step::Stream(context) => context,
        other => panic!("expected a stream request, got {other:?}"),
    };
    assert_eq!(context.system_prompt.as_deref(), Some("be brief"));
    assert_eq!(context.messages.len(), 1);
    assert_eq!(context.tools.len(), 1);

    let first = assistant(vec![tool_call("tc1", "read")], StopReason::ToolUse);
    assert!(matches!(agent.on_stream_event(done(first)), Step::Continue));
    let call = match agent.on_stream_end() {
        Step::Execute(call) => call,
        other => panic!("expected a tool run, got {other:?}"),
    };
    assert_eq!(call.id, "tc1");
    assert_eq!(call.name, "read");
    assert_eq!(agent.phase(), Phase::Tools);

    let output = ToolOutput { content: vec![text("hello world")], details: None };
    assert!(matches!(agent.on_tool_outcome(ToolOutcome::Output(output), 5), Step::Advance));
    assert_eq!(agent.phase(), Phase::Ready);

    let context = match agent.advance(false, 9) {
        Step::Stream(context) => context,
        other => panic!("expected a stream request, got {other:?}"),
    };
    assert_eq!(context.messages.len(), 3);
    agent.on_stream_event(done(assistant(vec![text("done")], StopReason::Stop)));
    let last = match agent.on_stream_end() {
        Step::Finished(Ok(message)) => message,
        other => panic!("expected the final message, got {other:?}"),
    };
    assert_eq!(last.stop_reason, StopReason::Stop);
    assert_eq!(agent.messages().len(), 4);
    assert!(matches!(agent.messages()[0], Message::User(_)));
    assert!(matches!(agent.messages()[1], Message::Assistant(_)));
    match &agent.messages()[2] {
        Message::ToolResult(result) => {
            assert_eq!(result.tool_call_id, "tc1");
            assert_eq!(result.tool_name, "read");
            assert!(!result.is_error);
            assert_eq!(result.timestamp, 5);
            assert!(matches!(&result.content[0], ContentBlock::Text(t) if t.text.contains("hello world")));
        }
        other => panic!("expected a tool result, got {other:?}"),
    }
    assert!(matches!(agent.messages()[3], Message::Assistant(_)));
    assert_eq!(
        event_names(&agent),
        vec![
            "RequestStart",
            "AssistantDone",
            "ToolExecuteStart",
            "ToolExecuteEnd",
            "RequestStart",
            "AssistantDone",
            "Done"
        ]
    );
    assert_eq!(agent.phase(), Phase::Finished(Ending::Completed));
}

#[test]
fn iteration_cap() {
    let mut agent = agent(2);
    let mut step = agent.begin(UserContent::Text("loop".to_string()), 1, false);
    let mut rounds = 0;
    let error = loop {
        match step {
            Step::Stream(_) => {
                rounds += 1;
                agent.on_stream_event(done(assistant(vec![tool_call("tc", "read")], StopReason::ToolUse)));
                step = agent.on_stream_end();
            }
            Step::Execute(_) => {
                step = agent.on_tool_outcome(ToolOutcome::Failed("nope".to_string()), 0);
            }
            Step::Advance => {
                step = agent.advance(false, 0);
            }
            Step::Finished(Err(e)) => break e,
            other => panic!("unexpected step {other:?}"),
        }
    };
    assert_eq!(rounds, 2);
    assert!(matches!(&error, Error::Api(m) if m.contains("Maximum tool iterations (2)")));
    assert_eq!(error.to_string(), "API error: Maximum tool iterations (2) exceeded");
    assert_eq!(agent.phase(), Phase::Finished(Ending::Failed));
    let names = event_names(&agent);
    assert!(!names.contains(&"Done"));
    assert_eq!(names.iter().filter(|n| **n == "Error").count(), 1);
    assert_eq!(names.last(), Some(&"Error"));
    assert!(matches!(
        agent.events().last(),
        Some(AgentEvent::Error { error }) if error == "API error: Maximum tool iterations (2) exceeded"
    ));
}

#[test]
fn abort_mid_stream() {
    let mut agent = agent(50);
    agent.begin(UserContent::Text("hi".to_string()), 1, false);
    let partial = assistant(vec![text("partial")], StopReason::Stop);
    let step = agent.on_stream_event(StreamEvent::TextDelta {
        content_index: 0,
        delta: "partial".to_string(),
        partial,
    });
    assert!(matches!(step, Step::Continue));
    let message = match agent.on_abort(99) {
        Step::Finished(Ok(message)) => message,
        other => panic!("expected the abort message, got {other:?}"),
    };
    assert_eq!(message.stop_reason, StopReason::Aborted);
    assert_eq!(message.error_message.as_deref(), Some("Aborted"));
    assert_eq!(message.timestamp, 99);
    assert_eq!(message.content.len(), 1);
    let names = event_names(&agent);
    assert_eq!(names, vec!["RequestStart", "TextDelta", "AssistantDone", "Done"]);
    assert_eq!(agent.messages().len(), 2);
}

#[test]
fn abort_before_the_request_gives_an_empty_abort_message() {
    let mut agent = agent(50);
    let message = match agent.begin(UserContent::Text("hi".to_string()), 4, true) {
        Step::Finished(Ok(message)) => message,
        other => panic!("expected the abort message, got {other:?}"),
    };
    assert_eq!(message.stop_reason, StopReason::Aborted);
    assert_eq!(message.error_message.as_deref(), Some("Aborted"));
    assert!(message.content.is_empty());
    assert_eq!(message.api, "mock-api");
    assert_eq!(message.provider, "mock");
    assert_eq!(message.model, "mock-model");
    assert_eq!(message.timestamp, 4);
    assert_eq!(event_names(&agent), vec!["AssistantDone", "Done"]);
}

#[test]
fn stream_errors_and_streams_without_done() {
    let mut a = agent(50);
    a.begin(UserContent::Text("hi".to_string()), 1, false);
    let mut failed = assistant(vec![], StopReason::Error);
    failed.error_message = Some("overloaded".to_string());
    let step = a.on_stream_event(StreamEvent::Error { reason: StopReason::Error, error: failed });
    assert!(matches!(&step, Step::Finished(Err(Error::Api(m))) if m == "overloaded"));
    assert_eq!(event_names(&a), vec!["RequestStart", "Error"]);
    assert_eq!(a.phase(), Phase::Finished(Ending::StreamError));
    assert!(matches!(a.on_stream_end(), Step::Refused));

    let mut b = agent(50);
    b.begin(UserContent::Text("hi".to_string()), 1, false);
    let step = b.on_stream_event(StreamEvent::Error {
        reason: StopReason::Error,
        error: assistant(vec![], StopReason::Error),
    });
    assert!(matches!(&step, Step::Finished(Err(Error::Api(m))) if m == "Unknown error"));

    let mut c = agent(50);
    c.begin(UserContent::Text("hi".to_string()), 1, false);
    let step = c.on_stream_end();
    assert!(matches!(&step, Step::Finished(Err(Error::Api(m))) if m == "Stream ended without Done event"));
    assert_eq!(event_names(&c), vec!["RequestStart", "Error"]);
    assert!(matches!(
        c.events().last(),
        Some(AgentEvent::Error { error }) if error == "API error: Stream ended without Done event"
    ));
    assert_eq!(c.phase(), Phase::Finished(Ending::Failed));

    let mut d = agent(50);
    d.begin(UserContent::Text("hi".to_string()), 1, false);
    let step = d.on_stream_failure(Error::provider("mock", "no route"));
    assert!(matches!(&step, Step::Finished(Err(Error::Provider { .. }))));
    assert_eq!(d.messages().len(), 1);
    assert_eq!(event_names(&d), vec!["RequestStart", "Error"]);
    let told = match d.events().last() {
        Some(AgentEvent::Error { error }) => error.clone(),
        other => panic!("expected the error as the last event, got {other:?}"),
    };
    assert_eq!(told, Error::provider("mock", "no route").to_string());
    assert_eq!(d.phase(), Phase::Finished(Ending::Failed));
}

#[test]
fn tool_results_follow_their_calls_in_order() {
    let mut agent = agent(50);
    agent.begin(UserContent::Text("go".to_string()), 1, false);
    agent.on_stream_event(StreamEvent::ToolCallStart {
        content_index: 0,
        partial: assistant(vec![tool_call("a", "read")], StopReason::ToolUse),
    });
    agent.on_stream_event(done(assistant(
        vec![tool_call("a", "read"), text("and"), tool_call("b", "missing"), tool_call("c", "read")],
        StopReason::ToolUse,
    )));
    let mut step = agent.on_stream_end();
    let mut seen = Vec::new();
    loop {
        match step {
            Step::Execute(call) => {
                seen.push(call.id.clone());
                assert!(matches!(
                    agent.on_tool_update(vec![text("working")], None),
                    Step::Continue
                ));
                let outcome = match call.id.as_str() {
                    "a" => ToolOutcome::Output(ToolOutput {
                        content: vec![text("A")],
                        details: Some(Json::Bool(true)),
                    }),
                    "b" => ToolOutcome::NotFound,
                    _ => ToolOutcome::Failed("boom".to_string()),
                };
                step = agent.on_tool_outcome(outcome, 3);
            }
            Step::Advance => break,
            other => panic!("unexpected step {other:?}"),
        }
    }
    assert_eq!(seen, vec!["a", "b", "c"]);
    let ids: Vec<(String, bool, String)> = agent.messages()[2..]
        .iter()
        .map(|m| match m {
            Message::ToolResult(r) => (
                r.tool_call_id.clone(),
                r.is_error,
                match &r.content[0] {
                    ContentBlock::Text(t) => t.text.clone(),
                    _ => String::new(),
                },
            ),
            other => panic!("expected a tool result, got {other:?}"),
        })
        .collect();
    assert_eq!(
        ids,
        vec![
            ("a".to_string(), false, "A".to_string()),
            ("b".to_string(), true, "Error: Tool 'missing' not found".to_string()),
            ("c".to_string(), true, "Error: boom".to_string()),
        ]
    );
    assert_eq!(
        event_names(&agent),
        vec![
            "RequestStart",
            "ToolCallStart",
            "AssistantDone",
            "ToolExecuteStart",
            "ToolUpdate",
            "ToolExecuteEnd",
            "ToolExecuteStart",
            "ToolUpdate",
            "ToolExecuteEnd",
            "ToolExecuteStart",
            "ToolUpdate",
            "ToolExecuteEnd",
        ]
    );
}

#[test]
fn tool_use_without_calls_ends_the_turn() {
    let mut agent = agent(50);
    agent.begin(UserContent::Text("go".to_string()), 1, false);
    agent.on_stream_event(done(assistant(vec![text("nothing to run")], StopReason::ToolUse)));
    assert!(matches!(agent.on_stream_end(), Step::Finished(Ok(_))));
    let mut other = self::agent(50);
    other.begin(UserContent::Text("go".to_string()), 1, false);
    other.on_stream_event(done(assistant(vec![tool_call("x", "read")], StopReason::Stop)));
    assert!(matches!(other.on_stream_end(), Step::Finished(Ok(_))));
    assert_eq!(other.messages().len(), 2);
}

#[test]
fn reports_out_of_phase_are_refused_and_change_nothing() {
    let mut agent = agent(50);
    assert!(matches!(agent.advance(false, 0), Step::Refused));
    assert!(matches!(agent.on_stream_end(), Step::Refused));
    assert!(matches!(agent.on_abort(0), Step::Refused));
    assert!(matches!(agent.on_tool_outcome(ToolOutcome::NotFound, 0), Step::Refused));
    assert!(matches!(agent.on_tool_update(vec![], None), Step::Refused));
    assert!(agent.messages().is_empty());
    assert!(agent.events().is_empty());
    assert_eq!(agent.phase(), Phase::Idle);
}

#[test]
fn history_can_be_changed_between_turns() {
    let mut agent = agent(50);
    agent.add_message(Message::Assistant(assistant(vec![text("old")], StopReason::Stop)));
    assert_eq!(agent.messages().len(), 1);
    agent.replace_messages(vec![]);
    assert!(agent.messages().is_empty());
    agent.run("hello");
    assert_eq!(agent.messages().len(), 1);
    assert!(matches!(&agent.messages()[0], Message::User(u) if matches!(&u.content, UserContent::Text(t) if t == "hello") && u.timestamp > 1_600_000_000_000));
    agent.clear_messages();
    assert!(agent.messages().is_empty());
    assert_eq!(agent.phase(), Phase::Idle);
    agent.set_provider(ProviderInfo { name: "n".to_string(), api: "a".to_string(), model_id: "m".to_string() });
    match agent.run_with_content_with_abort(vec![text("x")], true) {
        Step::Finished(Ok(m)) => assert_eq!(m.provider, "n"),
        other => panic!("unexpected step {other:?}"),
    }
    assert_eq!(agent.build_tool_defs().len(), 1);
}

#[test]
fn agent_session_persists_what_a_turn_added() {
    let session = Session::create(SessionHeader::new("s".to_string(), "t".to_string(), "/c".to_string()));
    let mut bound = AgentSession::new(agent(50), session, true);
    let (step, start_len) = bound.run_text("hi");
    assert!(matches!(step, Step::Stream(_)));
    assert_eq!(start_len, 0);
    bound.agent.on_stream_event(done(assistant(vec![text("hello")], StopReason::Stop)));
    assert!(matches!(bound.agent.on_stream_end(), Step::Finished(Ok(_))));
    assert!(bound.persist_new_messages(start_len));
    assert_eq!(bound.session.entries.len(), 2);
    assert!(matches!(&bound.session.entries[0].kind, EntryKind::Message { message: SessionMessage::User { .. } }));
    assert!(matches!(&bound.session.entries[1].kind, EntryKind::Message { message: SessionMessage::Assistant { .. } }));
    assert_eq!(bound.session.entries[1].base.parent_id, Some(bound.session.entries[0].base.id.clone()));
    assert_eq!(bound.session.leaf_id, Some(bound.session.entries[1].base.id.clone()));

    let session = Session::create(SessionHeader::new("s".to_string(), "t".to_string(), "/c".to_string()));
    let mut unsaved = AgentSession::new(agent(50), session, false);
    let (_, start_len) = unsaved.run_text_with_abort("hi", true);
    assert!(!unsaved.persist_new_messages(start_len));
    assert!(unsaved.session.entries.is_empty());
    assert!(!unsaved.save_enabled());
}

#[test]
fn the_steps_of_a_turn_leave_the_stream_options_alone() {
    let mut agent = agent(50);
    let mut options = StreamOptions::default();
    options.api_key = Some("k".to_string());
    options.max_tokens = Some(9);
    agent.set_stream_options(options);
    agent.begin(UserContent::Text("go".to_string()), 1, false);
    agent.on_stream_event(done(assistant(vec![tool_call("a", "read")], StopReason::ToolUse)));
    agent.on_stream_end();
    agent.on_tool_outcome(ToolOutcome::NotFound, 2);
    agent.advance(false, 3);
    agent.on_stream_failure(Error::provider("mock", "down"));
    assert_eq!(agent.stream_options().api_key.as_deref(), Some("k"));
    assert_eq!(agent.stream_options().max_tokens, Some(9));
    agent.add_message(Message::Assistant(assistant(vec![], StopReason::Stop)));
    agent.clear_messages();
    assert_eq!(agent.stream_options().api_key.as_deref(), Some("k"));
}

#[test]
fn a_thinking_level_and_a_model_are_set_in_agent_and_session() {
    let mut agent = agent(50);
    agent.set_thinking_level(pi::model::ThinkingLevel::High);
    assert_eq!(agent.stream_options().thinking_level, Some(pi::model::ThinkingLevel::High));
    assert!(agent.stream_options().api_key.is_none());
    agent.set_model(
        ProviderInfo { name: "n".to_string(), api: "a".to_string(), model_id: "m".to_string() },
        "key".to_string(),
        vec![("x-h".to_string(), "1".to_string())],
    );
    assert_eq!(agent.stream_options().api_key.as_deref(), Some("key"));
    assert_eq!(agent.stream_options().headers, vec![("x-h".to_string(), "1".to_string())]);
    assert_eq!(agent.stream_options().thinking_level, Some(pi::model::ThinkingLevel::High));

    let mut session = Session::create(SessionHeader::new("s".to_string(), "t".to_string(), "/w".to_string()));
    let first = session.set_thinking_level(pi::model::ThinkingLevel::High);
    assert_eq!(session.header.thinking_level.as_deref(), Some("high"));
    assert_eq!(session.entries.len(), 1);
    assert!(matches!(
        &session.entries[0].kind,
        EntryKind::ThinkingLevelChange { thinking_level } if thinking_level == "high"
    ));
    let second = session.set_model("openai", "gpt");
    assert_eq!(session.header.provider.as_deref(), Some("openai"));
    assert_eq!(session.header.model_id.as_deref(), Some("gpt"));
    assert_eq!(session.entries.len(), 2);
    assert!(matches!(
        &session.entries[1].kind,
        EntryKind::ModelChange { provider, model_id } if provider == "openai" && model_id == "gpt"
    ));
    assert_eq!(session.entries[1].base.parent_id.as_deref(), Some(first.as_str()));
    assert_eq!(session.leaf_id.as_deref(), Some(second.as_str()));
}

#[test]
fn nothing_is_persisted_with_saving_disabled_whatever_the_start() {
    let session = Session::create(SessionHeader::new("s".to_string(), "t".to_string(), "/w".to_string()));
    let mut bound = AgentSession::new(agent(50), session, false);
    bound.run_text("hi");
    assert!(!bound.persist_new_messages(usize::MAX));
    assert!(!bound.persist_new_messages(0));
    assert!(bound.session.entries.is_empty());
    assert!(bound.session.leaf_id.is_none());
    assert!(bound.session.path.is_none());
    assert_eq!(bound.agent.messages().len(), 1);
}
