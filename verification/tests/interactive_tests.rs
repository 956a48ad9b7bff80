use pi::agent::AgentEvent;
use pi::interactive::{truncate, MessageRole, SlashCommand};

#[test]
fn test_truncate() {
    assert_eq!(truncate("hello", 10), "hello");
    assert_eq!(truncate("hello world", 8), "hello...");
    assert_eq!(truncate("hi", 5), "hi");
}

#[test]
fn test_message_role() {
    let user = MessageRole::User;
    let assistant = MessageRole::Assistant;
    assert_ne!(user, assistant);
}

#[test]
fn slash_command_parses_aliases_and_arguments() {
    assert_eq!(SlashCommand::parse("/help"), Some((SlashCommand::Help, "")));
    assert_eq!(SlashCommand::parse("  /M  openai/gpt-4o  "), Some((SlashCommand::Model, "openai/gpt-4o")));
    assert_eq!(SlashCommand::parse("/t\thigh"), Some((SlashCommand::Thinking, "high")));
    assert_eq!(SlashCommand::parse("/QUIT"), Some((SlashCommand::Exit, "")));
    assert_eq!(SlashCommand::parse("help"), None);
    assert_eq!(SlashCommand::parse("/nope"), None);
    assert_eq!(SlashCommand::parse(""), None);
}

use pi::interactive::{
    assistant_content_to_text, content_blocks_to_text, format_tool_output,
    load_conversation_from_session, parse_model_selector, parse_thinking_level, push_line,
    thinking_level_to_str, user_content_to_text, AgentState, InputMode, PendingInput,
};
use pi::json::Json;
use pi::model::{
    AssistantMessage, ContentBlock, ImageContent, StopReason, TextContent, ThinkingContent,
    ThinkingLevel, ToolCall, Usage, UserContent,
};
use pi::session::{Session, SessionHeader, SessionMessage};
use pi::ui_state::{
    classify_submission, find_model, map_agent_event, scroll_window, HistoryMove, InputHistory,
    Key, KeyAction, KeyKind, ModelRef, PiMsg, SlashAction, SlashContext, Submission, UiState,
};
use std::collections::VecDeque;

fn text_block(s: &str) -> ContentBlock {
    ContentBlock::Text(TextContent::new(s))
}

fn blocks() -> Vec<ContentBlock> {
    vec![
        text_block("one"),
        ContentBlock::Thinking(ThinkingContent { thinking: "hmm".to_string(), thinking_signature: None }),
        text_block(""),
        ContentBlock::Image(ImageContent { data: "AAAA".to_string(), mime_type: "image/png".to_string() }),
        ContentBlock::ToolCall(ToolCall {
            id: "tc".to_string(),
            name: "read".to_string(),
            arguments: Json::Null,
            thought_signature: None,
        }),
    ]
}

#[test]
fn truncate_counts_characters_and_keeps_within_the_limit() {
    assert_eq!(truncate("hello", 0), "");
    assert_eq!(truncate("hello", 3), "...");
    assert_eq!(truncate("hello", 2), "..");
    assert_eq!(truncate("hello", 4), "h...");
    assert_eq!(truncate("hello", 5), "hello");
    assert_eq!(truncate("héllo wörld", 8), "héllo...");
}

#[test]
fn content_is_shown_line_by_line() {
    assert_eq!(content_blocks_to_text(&blocks()), "one\nhmm\n[image: image/png]\n[tool call: read]");
    let (text, thinking) = assistant_content_to_text(&blocks());
    assert_eq!(text, "one\n[image: image/png]\n[tool call: read]");
    assert_eq!(thinking.as_deref(), Some("hmm"));
    let (text, thinking) = assistant_content_to_text(&[text_block("only")]);
    assert_eq!((text.as_str(), thinking), ("only", None));
    assert_eq!(user_content_to_text(&UserContent::Text("plain".to_string())), "plain");
    assert_eq!(user_content_to_text(&UserContent::Blocks(vec![text_block("a"), text_block("b")])), "a\nb");
    let mut buffer = String::new();
    push_line(&mut buffer, "");
    push_line(&mut buffer, "a");
    push_line(&mut buffer, "");
    push_line(&mut buffer, "b");
    assert_eq!(buffer, "a\nb");
}

#[test]
fn tool_output_falls_back_to_details() {
    let details = Json::Object(vec![("k".to_string(), Json::Bool(true))]);
    assert_eq!(format_tool_output(&[text_block("out")], Some(&details)).as_deref(), Some("out"));
    assert_eq!(format_tool_output(&[text_block("  ")], Some(&details)).as_deref(), Some("{\n  \"k\": true\n}"));
    assert_eq!(format_tool_output(&[], None), None);
    assert_eq!(format_tool_output(&[text_block(" \n")], None), None);
}

#[test]
fn model_selectors_and_thinking_levels_are_read() {
    assert_eq!(parse_model_selector(" openai : gpt-4o ", "anthropic"), ("openai".to_string(), "gpt-4o".to_string()));
    assert_eq!(parse_model_selector("openai/gpt-4o", "anthropic"), ("openai".to_string(), "gpt-4o".to_string()));
    assert_eq!(parse_model_selector("a:b/c", "x"), ("a".to_string(), "b/c".to_string()));
    assert_eq!(parse_model_selector("  sonnet ", "anthropic"), ("anthropic".to_string(), "sonnet".to_string()));
    assert_eq!(parse_thinking_level(" HIGH "), Some(ThinkingLevel::High));
    assert_eq!(parse_thinking_level("none"), Some(ThinkingLevel::Off));
    assert_eq!(parse_thinking_level("0"), Some(ThinkingLevel::Off));
    assert_eq!(parse_thinking_level("min"), Some(ThinkingLevel::Minimal));
    assert_eq!(parse_thinking_level("1"), Some(ThinkingLevel::Low));
    assert_eq!(parse_thinking_level("Med"), Some(ThinkingLevel::Medium));
    assert_eq!(parse_thinking_level("4"), Some(ThinkingLevel::XHigh));
    assert_eq!(parse_thinking_level("5"), None);
    assert_eq!(thinking_level_to_str(ThinkingLevel::XHigh), "xhigh");
    assert_eq!(thinking_level_to_str(ThinkingLevel::Off), "off");
}

#[test]
fn help_text_lists_the_commands() {
    let help = SlashCommand::help_text();
    assert!(help.starts_with("Available commands:\n  /help, /h, /?      - Show this help message\n"));
    assert!(help.contains("  • Use ↑/↓ arrows or Ctrl+P/N to navigate input history\n"));
    assert!(help.ends_with("  • Use /skill:name or /template to expand resources"));
}

#[test]
fn a_session_is_shown_as_a_conversation() {
    let mut session = Session::create(SessionHeader::new("s".to_string(), "t".to_string(), "/c".to_string()));
    session.append_message(SessionMessage::User { content: UserContent::Text("hi".to_string()), timestamp: None });
    session.append_message(SessionMessage::User { content: UserContent::Text("  ".to_string()), timestamp: None });
    session.append_message(SessionMessage::Assistant {
        message: AssistantMessage {
            content: blocks(),
            api: "a".to_string(),
            provider: "p".to_string(),
            model: "m".to_string(),
            usage: Usage { input: 10, output: 5, cache_read: 1, cache_write: 2, total_tokens: 18 },
            stop_reason: StopReason::ToolUse,
            error_message: None,
            timestamp: 0,
        },
    });
    session.append_message(SessionMessage::ToolResult {
        tool_call_id: "tc".to_string(),
        tool_name: "read".to_string(),
        content: vec![text_block("file body")],
        details: None,
        is_error: true,
        timestamp: None,
    });
    session.append_message(SessionMessage::BashExecution { command: "ls".to_string(), output: "a".to_string(), exit_code: 2 });
    session.append_message(SessionMessage::Custom {
        custom_type: "note".to_string(),
        content: "c".to_string(),
        display: true,
        details: Some(Json::Bool(false)),
        timestamp: None,
    });
    session.append_message(SessionMessage::Custom {
        custom_type: "hidden".to_string(),
        content: "c".to_string(),
        display: false,
        details: None,
        timestamp: None,
    });
    session.append_message(SessionMessage::BranchSummary { summary: "s".to_string(), from_id: "0".to_string() });
    session.append_message(SessionMessage::CompactionSummary { summary: "s".to_string(), tokens_before: 1200 });
    session.append_model_change("openai".to_string(), "gpt".to_string());
    session.append_thinking_level_change("low".to_string());
    session.append_session_info(Some("name".to_string()));
    session.append_message(SessionMessage::Assistant {
        message: AssistantMessage {
            content: vec![],
            api: "a".to_string(),
            provider: "p".to_string(),
            model: "m".to_string(),
            usage: Usage { input: u64::MAX, output: 5, cache_read: 0, cache_write: 0, total_tokens: 5 },
            stop_reason: StopReason::Stop,
            error_message: None,
            timestamp: 0,
        },
    });

    let (messages, usage) = load_conversation_from_session(&session);
    let shown: Vec<(MessageRole, &str)> = messages.iter().map(|m| (m.role, m.content.as_str())).collect();
    assert_eq!(
        shown,
        vec![
            (MessageRole::User, "hi"),
            (MessageRole::Assistant, "one\n[image: image/png]\n[tool call: read]"),
            (MessageRole::System, "Tool error (read):\nfile body"),
            (MessageRole::System, "bash (error) ls\na"),
            (MessageRole::System, "note: c\nfalse"),
            (MessageRole::System, "Branch summary from 0: s"),
            (MessageRole::System, "Compaction summary (1200 tokens): s"),
            (MessageRole::System, "Model set to openai/gpt"),
            (MessageRole::System, "Thinking level: low"),
        ]
    );
    assert_eq!(messages[1].thinking.as_deref(), Some("hmm"));
    assert_eq!(usage, Usage { input: u64::MAX, output: 10, cache_read: 1, cache_write: 2, total_tokens: 23 });
}

fn ui() -> UiState {
    UiState::new(Vec::new(), Usage::default(), VecDeque::new())
}

#[test]
fn agent_messages_move_the_front_end() {
    let mut ui = ui();
    ui.handle_pi_message(PiMsg::AgentStart);
    assert_eq!(ui.agent_state, AgentState::Processing);
    ui.handle_pi_message(PiMsg::ThinkingDelta("th".to_string()));
    ui.handle_pi_message(PiMsg::TextDelta("Hel".to_string()));
    ui.handle_pi_message(PiMsg::TextDelta("lo".to_string()));
    assert_eq!(ui.current_response, "Hello");
    ui.handle_pi_message(PiMsg::ToolStart { name: "read".to_string(), tool_id: "1".to_string() });
    assert_eq!(ui.agent_state, AgentState::ToolRunning);
    assert_eq!(ui.current_tool.as_deref(), Some("read"));
    ui.handle_pi_message(PiMsg::ToolUpdate {
        name: "read".to_string(),
        tool_id: "1".to_string(),
        content: vec![text_block("body")],
        details: None,
    });
    ui.handle_pi_message(PiMsg::ToolUpdate { name: "read".to_string(), tool_id: "1".to_string(), content: vec![], details: None });
    let outcome = ui.handle_pi_message(PiMsg::ToolEnd { name: "read".to_string(), tool_id: "1".to_string(), is_error: false });
    assert!(outcome.scroll_to_bottom);
    assert_eq!(ui.messages.len(), 1);
    assert_eq!(ui.messages[0].content, "Tool read output:\nbody");
    assert_eq!(ui.messages[0].role, MessageRole::System);
    assert_eq!(ui.agent_state, AgentState::Processing);
    let outcome = ui.handle_pi_message(PiMsg::AgentDone {
        usage: Some(Usage { input: 3, output: 4, cache_read: 9, cache_write: 9, total_tokens: 7 }),
        stop_reason: StopReason::Aborted,
    });
    assert!(outcome.focus_input);
    assert!(!outcome.run_pending);
    assert_eq!(ui.messages.len(), 2);
    assert_eq!(ui.messages[1].content, "Hello");
    assert_eq!(ui.messages[1].thinking.as_deref(), Some("th"));
    assert_eq!(ui.total_usage, Usage { input: 3, output: 4, cache_read: 0, cache_write: 0, total_tokens: 7 });
    assert_eq!(ui.status_message.as_deref(), Some("Request aborted"));
    assert_eq!(ui.agent_state, AgentState::Idle);
    assert!(ui.current_response.is_empty());
    ui.handle_pi_message(PiMsg::AgentError("boom".to_string()));
    assert_eq!(ui.messages[2].content, "Error: boom");
    ui.handle_pi_message(PiMsg::System("note".to_string()));
    assert_eq!(ui.messages[3].content, "note");
}

#[test]
fn queued_inputs_run_when_the_agent_is_idle() {
    let mut queue = VecDeque::new();
    queue.push_back(PendingInput::Text("first".to_string()));
    queue.push_back(PendingInput::Content(vec![text_block("second")]));
    let mut ui = UiState::new(Vec::new(), Usage::default(), queue);
    assert!(ui.handle_pi_message(PiMsg::RunPending).run_pending);
    ui.agent_state = AgentState::Processing;
    assert!(!ui.handle_pi_message(PiMsg::RunPending).run_pending);
    assert!(ui.run_next_pending().is_none());
    ui.agent_state = AgentState::Idle;
    assert!(matches!(ui.run_next_pending(), Some(PendingInput::Text(t)) if t == "first"));
    assert!(ui.handle_pi_message(PiMsg::System("s".to_string())).run_pending);
    assert!(matches!(ui.run_next_pending(), Some(PendingInput::Content(_))));
    assert!(ui.run_next_pending().is_none());
    assert!(!ui.handle_pi_message(PiMsg::System("s".to_string())).run_pending);
}

#[test]
fn history_is_browsed_back_and_forth() {
    let mut history = InputHistory::new();
    assert!(matches!(history.navigate_history_back(), HistoryMove::Stay));
    assert!(matches!(history.navigate_history_forward(), HistoryMove::Stay));
    history.record("one".to_string());
    history.record("two".to_string());
    assert!(matches!(history.navigate_history_back(), HistoryMove::Show(s) if s == "two"));
    assert!(matches!(history.navigate_history_back(), HistoryMove::Show(s) if s == "one"));
    assert!(matches!(history.navigate_history_back(), HistoryMove::Show(s) if s == "one"));
    assert_eq!(history.index, Some(0));
    assert!(matches!(history.navigate_history_forward(), HistoryMove::Show(s) if s == "two"));
    assert!(matches!(history.navigate_history_forward(), HistoryMove::Reset));
    assert_eq!(history.index, None);
    history.record("x".repeat(61));
    assert_eq!(history.listing(), format!("  1: one\n  2: two\n  3: {}...", "x".repeat(57)));
}

#[test]
fn slash_commands_change_the_state_or_ask_for_work() {
    let models = vec![
        ModelRef { provider: "anthropic".to_string(), id: "sonnet".to_string() },
        ModelRef { provider: "openai".to_string(), id: "gpt".to_string() },
    ];
    let mut history = InputHistory::new();
    let mut ui = ui();
    {
        let context = SlashContext { provider: "anthropic", model_id: "sonnet", models: &models, history: &history };
        let out = ui.handle_slash_command(SlashCommand::Help, "", &context);
        assert!(out.scroll_to_bottom);
        assert_eq!(ui.messages[0].content, SlashCommand::help_text());
        assert!(matches!(ui.handle_slash_command(SlashCommand::Login, "", &context).action, SlashAction::StartLogin { provider } if provider == "anthropic"));
        ui.handle_slash_command(SlashCommand::Login, "openai", &context);
        assert_eq!(ui.status_message.as_deref(), Some("OAuth login not supported for openai (supported: anthropic)"));
        ui.handle_slash_command(SlashCommand::Model, "", &context);
        assert_eq!(ui.status_message.as_deref(), Some("Current model: anthropic/sonnet"));
        assert!(matches!(ui.handle_slash_command(SlashCommand::Model, "openai/gpt", &context).action, SlashAction::ChangeModel { position: 1 }));
        assert!(matches!(ui.handle_slash_command(SlashCommand::Model, "sonnet", &context).action, SlashAction::ChangeModel { position: 0 }));
        ui.handle_slash_command(SlashCommand::Model, "nope", &context);
        assert_eq!(ui.status_message.as_deref(), Some("Unknown model: nope"));
        assert!(matches!(ui.handle_slash_command(SlashCommand::Thinking, "", &context).action, SlashAction::ShowThinking));
        assert!(matches!(ui.handle_slash_command(SlashCommand::Thinking, "HIGH", &context).action, SlashAction::SetThinking { level: ThinkingLevel::High }));
        ui.handle_slash_command(SlashCommand::Thinking, "loud", &context);
        assert_eq!(ui.status_message.as_deref(), Some("Unknown thinking level. Use: off/minimal/low/medium/high/xhigh"));
        ui.handle_slash_command(SlashCommand::History, "", &context);
        assert_eq!(ui.status_message.as_deref(), Some("No input history"));
        ui.handle_slash_command(SlashCommand::Export, "", &context);
        assert_eq!(ui.status_message.as_deref(), Some("Export to 'conversation.html' not yet implemented"));
        ui.handle_slash_command(SlashCommand::Export, "out.html", &context);
        assert_eq!(ui.status_message.as_deref(), Some("Export to 'out.html' not yet implemented"));
        assert!(matches!(ui.handle_slash_command(SlashCommand::Exit, "", &context).action, SlashAction::Quit));
        ui.handle_slash_command(SlashCommand::Clear, "", &context);
        assert!(ui.messages.is_empty());
        assert_eq!(ui.status_message.as_deref(), Some("Conversation cleared"));
        ui.agent_state = AgentState::Processing;
        for (cmd, status) in [
            (SlashCommand::Login, "Cannot login while processing"),
            (SlashCommand::Logout, "Cannot logout while processing"),
            (SlashCommand::Model, "Cannot change model while processing"),
            (SlashCommand::Thinking, "Cannot change thinking while processing"),
        ] {
            assert!(matches!(ui.handle_slash_command(cmd, "x", &context).action, SlashAction::Nothing));
            assert_eq!(ui.status_message.as_deref(), Some(status));
        }
        ui.agent_state = AgentState::Idle;
        assert!(matches!(ui.handle_slash_command(SlashCommand::Logout, "", &context).action, SlashAction::Logout { provider } if provider == "anthropic"));
        assert_eq!(ui.agent_state, AgentState::Processing);
    }
    history.record("first".to_string());
    let context = SlashContext { provider: "anthropic", model_id: "sonnet", models: &models, history: &history };
    ui.handle_slash_command(SlashCommand::History, "", &context);
    assert_eq!(ui.messages[0].content, "Input history:\n  1: first");
    ui.show_thinking_level(None);
    assert_eq!(ui.status_message.as_deref(), Some("Current thinking level: off"));
    ui.thinking_level_set(ThinkingLevel::Low);
    assert_eq!(ui.status_message.as_deref(), Some("Thinking level: low"));
    ui.model_changed("openai", "gpt");
    assert_eq!(ui.status_message.as_deref(), Some("Model changed to: openai/gpt"));
    assert_eq!(find_model(&models, "openai", "sonnet"), None);
}

#[test]
fn keys_are_handled_by_mode_and_state() {
    let press = |kind: KeyKind, alt: bool| Key { kind, alt };
    let mut ui = ui();
    ui.status_message = Some("old".to_string());
    assert_eq!(ui.handle_key(press(KeyKind::Enter, false), false).action, KeyAction::Submit);
    assert_eq!(ui.status_message, None);
    assert_eq!(ui.handle_key(press(KeyKind::Enter, false), true).action, KeyAction::ToInput);
    let out = ui.handle_key(press(KeyKind::Enter, true), true);
    assert_eq!((out.action, out.input_height), (KeyAction::Nothing, Some(6)));
    assert_eq!(ui.input_mode, InputMode::MultiLine);
    assert_eq!(ui.status_message.as_deref(), Some("Multi-line mode: Alt+Enter to submit"));
    assert_eq!(ui.handle_key(press(KeyKind::Enter, false), false).action, KeyAction::ToInput);
    assert_eq!(ui.handle_key(press(KeyKind::Up, false), false).action, KeyAction::ToInput);
    assert_eq!(ui.handle_key(press(KeyKind::Enter, true), false).action, KeyAction::Submit);
    assert_eq!(ui.handle_key(press(KeyKind::Enter, true), true).action, KeyAction::Nothing);
    let out = ui.handle_key(press(KeyKind::Esc, false), false);
    assert_eq!((out.action, out.input_height), (KeyAction::Nothing, Some(3)));
    assert_eq!(ui.input_mode, InputMode::SingleLine);
    assert_eq!(ui.handle_key(press(KeyKind::Esc, false), false).action, KeyAction::Quit);
    assert_eq!(ui.handle_key(press(KeyKind::CtrlC, false), false).action, KeyAction::Quit);
    assert_eq!(ui.handle_key(press(KeyKind::Up, false), false).action, KeyAction::HistoryBack);
    assert_eq!(ui.handle_key(press(KeyKind::Down, false), false).action, KeyAction::HistoryForward);
    assert_eq!(ui.handle_key(press(KeyKind::PgUp, false), false).action, KeyAction::PageUp);
    assert_eq!(ui.handle_key(press(KeyKind::PgDown, false), false).action, KeyAction::PageDown);
    ui.agent_state = AgentState::Processing;
    assert_eq!(ui.handle_key(press(KeyKind::CtrlC, false), false).action, KeyAction::Abort);
    assert_eq!(ui.status_message.as_deref(), Some("Aborting request..."));
    assert_eq!(ui.handle_key(press(KeyKind::Enter, false), false).action, KeyAction::ToSpinner);
    assert_eq!(ui.handle_key(press(KeyKind::Esc, false), false).action, KeyAction::ToSpinner);
    assert_eq!(ui.handle_key(press(KeyKind::Enter, true), false).action, KeyAction::Nothing);
    assert_eq!(ui.handle_key(press(KeyKind::Other, false), false).action, KeyAction::ToSpinner);
}

#[test]
fn input_is_classified_and_sent() {
    assert!(matches!(classify_submission("   ", false), Submission::Nothing));
    assert!(matches!(classify_submission(" code#state ", true), Submission::OAuthCode { code } if code == "code#state"));
    assert!(matches!(classify_submission(" /model  x ", false), Submission::Command { command: SlashCommand::Model, args } if args == "x"));
    assert!(matches!(classify_submission(" /unknown x", false), Submission::Prompt { text } if text == "/unknown x"));
    assert!(matches!(classify_submission("hello", false), Submission::Prompt { text } if text == "hello"));
    let mut ui = ui();
    let mut history = InputHistory::new();
    ui.input_mode = InputMode::MultiLine;
    ui.submit_message("typed".to_string(), "expanded", &mut history);
    assert_eq!(history.entries, vec!["typed"]);
    assert_eq!(ui.messages[0].content, "expanded");
    assert_eq!(ui.messages[0].role, MessageRole::User);
    assert_eq!(ui.agent_state, AgentState::Processing);
    assert_eq!(ui.input_mode, InputMode::SingleLine);
    assert!(ui.can_abort);
    let mut ui = self::ui();
    assert!(!ui.submit_content(&[]));
    assert_eq!(ui.agent_state, AgentState::Idle);
    assert!(ui.submit_content(&[text_block("  ")]));
    assert!(ui.messages.is_empty());
    assert!(ui.submit_content(&[text_block("shown")]));
    assert_eq!(ui.messages[0].content, "shown");
    let mut ui = self::ui();
    ui.submit_oauth_code();
    assert_eq!(ui.agent_state, AgentState::Processing);
    assert!(ui.messages.is_empty());
}

#[test]
fn the_scroll_window_stays_within_the_lines() {
    let w = scroll_window(0, 10, 0);
    assert_eq!((w.start, w.end, w.percent), (0, 0, None));
    let w = scroll_window(0, 10, 5);
    assert_eq!((w.start, w.end, w.percent), (0, 5, None));
    let w = scroll_window(5, 10, 30);
    assert_eq!((w.start, w.end, w.percent), (5, 15, Some(25)));
    let w = scroll_window(100, 10, 30);
    assert_eq!((w.start, w.end, w.percent), (29, 30, Some(100)));
    let w = scroll_window(20, 10, 30);
    assert_eq!((w.start, w.end, w.percent), (20, 30, Some(100)));
    let w = scroll_window(usize::MAX, usize::MAX, 3);
    assert_eq!((w.start, w.end, w.percent), (2, 3, None));
}

#[test]
fn agent_events_are_mapped_for_the_front_end() {
    assert!(matches!(map_agent_event(AgentEvent::RequestStart), Some(PiMsg::AgentStart)));
    assert!(matches!(map_agent_event(AgentEvent::TextDelta { text: "t".to_string() }), Some(PiMsg::TextDelta(t)) if t == "t"));
    assert!(map_agent_event(AgentEvent::ToolCallStart { name: "n".to_string(), id: "i".to_string() }).is_none());
    assert!(matches!(map_agent_event(AgentEvent::ToolExecuteStart { name: "n".to_string(), id: "i".to_string() }), Some(PiMsg::ToolStart { name, tool_id }) if name == "n" && tool_id == "i"));
    assert!(matches!(map_agent_event(AgentEvent::ToolExecuteEnd { name: "n".to_string(), id: "i".to_string(), is_error: true }), Some(PiMsg::ToolEnd { is_error: true, .. })));
    assert!(matches!(map_agent_event(AgentEvent::Error { error: "e".to_string() }), Some(PiMsg::AgentError(e)) if e == "e"));
    let message = AssistantMessage {
        content: vec![],
        api: "a".to_string(),
        provider: "p".to_string(),
        model: "m".to_string(),
        usage: Usage { input: 1, output: 2, cache_read: 3, cache_write: 4, total_tokens: 10 },
        stop_reason: StopReason::Length,
        error_message: None,
        timestamp: 0,
    };
    assert!(map_agent_event(AgentEvent::AssistantDone { message: message.clone() }).is_none());
    assert!(matches!(map_agent_event(AgentEvent::Done { final_message: message }), Some(PiMsg::AgentDone { usage: Some(u), stop_reason: StopReason::Length }) if u.total_tokens == 10));
}

#[test]
fn a_login_that_has_begun_is_shown_and_awaited() {
    let mut state = ui();
    state.login_started("anthropic", "https://example.test/auth", Some("Sign in, then copy the code."));
    assert_eq!(state.status_message.as_deref(), Some("Awaiting OAuth code..."));
    assert_eq!(state.messages.len(), 1);
    assert_eq!(
        state.messages[0].content,
        "OAuth login: anthropic\n\nOpen this URL:\nhttps://example.test/auth\n\
         \nSign in, then copy the code.\n\
         \nPaste the callback URL or authorization code as your next message."
    );
    let mut plain = ui();
    plain.login_started("p", "u", None);
    assert_eq!(
        plain.messages[0].content,
        "OAuth login: p\n\nOpen this URL:\nu\n\nPaste the callback URL or authorization code as your next message."
    );
}

#[test]
fn failures_of_login_and_model_change_are_told() {
    let mut state = ui();
    state.login_failed("no browser");
    assert_eq!(state.status_message.as_deref(), Some("OAuth login failed: no browser"));
    state.model_change_failed("Provider error (x): down");
    assert_eq!(state.status_message.as_deref(), Some("Model change failed: Provider error (x): down"));
    state.no_api_key("openai");
    assert_eq!(state.status_message.as_deref(), Some("No API key for provider openai"));
    assert!(state.messages.is_empty());
}
