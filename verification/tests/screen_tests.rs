use pi::interactive::{AgentState, ConversationMessage, InputMode, MessageRole};
use pi::model::Usage;
use pi::screen::{
    build_conversation_content, render_current_response, render_footer, render_header,
    render_input, render_messages, view, welcome, wrap_width, Piece, Surroundings, Tone,
};

fn message(role: MessageRole, content: &str, thinking: Option<&str>) -> ConversationMessage {
    ConversationMessage { role, content: content.to_string(), thinking: thinking.map(str::to_string) }
}

/// The pieces as text, with each tone and each outside picture named.
fn sketch(pieces: &[Piece]) -> String {
    let mut out = String::new();
    for piece in pieces {
        match piece {
            Piece::Plain(text) => out.push_str(text),
            Piece::Styled { tone, text } => out.push_str(&format!("<{tone:?}:{text}>")),
            Piece::Markdown { text, wrap } => out.push_str(&format!("<md {wrap}:{text}>")),
            Piece::Indented(text) => out.push_str(&format!("<lines:{text}>")),
            Piece::Spinner => out.push_str("<spinner>"),
            Piece::InputArea => out.push_str("<input>"),
            Piece::Window => out.push_str("<window>"),
        }
    }
    out
}

#[test]
fn markdown_is_wrapped_six_columns_short_and_at_forty_at_least() {
    assert_eq!(wrap_width(80), 74);
    assert_eq!(wrap_width(46), 40);
    assert_eq!(wrap_width(47), 41);
    assert_eq!(wrap_width(45), 40);
    assert_eq!(wrap_width(0), 40);
    assert_eq!(wrap_width(usize::MAX), usize::MAX - 6);
}

#[test]
fn the_conversation_shows_each_role_in_its_way() {
    let messages = vec![
        message(MessageRole::User, "hi", None),
        message(MessageRole::Assistant, "**yes**", Some("hm")),
        message(MessageRole::Assistant, "plain", None),
        message(MessageRole::System, "Model set", None),
    ];
    let pieces = build_conversation_content(&messages, "", "", 80);
    assert_eq!(
        sketch(&pieces),
        "\n  <User:You:> hi\n\
         \n  <Assistant:Assistant:>\n  <FaintItalic:Thinking: hm>\n<md 74:**yes**>\
         \n  <Assistant:Assistant:>\n<md 74:plain>\
         \n  <Notice:Model set>\n"
    );
    assert_eq!(
        sketch(&render_messages(&messages[3..])),
        "\n  <Alarm:Model set>\n"
    );
    assert_eq!(sketch(&render_messages(&messages[2..3])), "\n  <Assistant:Assistant:>\n<md 76:plain>");
}

#[test]
fn the_streamed_answer_follows_the_messages() {
    let messages = vec![message(MessageRole::User, "hi", None)];
    let pieces = build_conversation_content(&messages, "so far", "", 30);
    assert_eq!(sketch(&pieces), "\n  <User:You:> hi\n\n  <Assistant:Assistant:>\n<lines:so far>");
    let thinking_only = build_conversation_content(&[], "", "why", 30);
    assert_eq!(sketch(&thinking_only), "\n  <Assistant:Assistant:>\n  <FaintItalic:Thinking: why>\n");
    assert_eq!(sketch(&render_current_response("", "")), "\n  <Assistant:Assistant:>\n");
    assert!(build_conversation_content(&[], "", "", 30).is_empty());
    assert!(!build_conversation_content(&[], "x", "", 30).is_empty());
}

#[test]
fn a_long_thought_is_cut_to_a_hundred_characters() {
    let thought = "t".repeat(101);
    let pieces = render_current_response("", &thought);
    let shown = match &pieces[4] {
        Piece::Styled { tone: Tone::FaintItalic, text } => text.clone(),
        other => panic!("expected the thought, got {other:?}"),
    };
    assert_eq!(shown, format!("Thinking: {}...", "t".repeat(97)));
    let fits = "t".repeat(100);
    let pieces = render_current_response("", &fits);
    assert!(matches!(&pieces[4], Piece::Styled { text, .. } if *text == format!("Thinking: {fits}")));
}

#[test]
fn header_input_and_footer() {
    assert_eq!(sketch(&render_header("mock/mock-model")), "  <Title:Pi> <Faint:(mock/mock-model)>\n");
    assert_eq!(
        sketch(&render_input(InputMode::SingleLine)),
        "\n  <Faint:[single-line] Enter to send>\n  <input>"
    );
    assert_eq!(
        sketch(&render_input(InputMode::MultiLine)),
        "\n  <Faint:[multi-line] Alt+Enter to send, Esc to cancel>\n  <input>"
    );
    let usage = Usage { input: 1200, output: 34, ..Usage::default() };
    assert_eq!(
        sketch(&render_footer(&usage, "", InputMode::SingleLine)),
        "\n  <Faint:Tokens: 1200 in / 34 out  |  Alt+Enter: multi-line  |  /help  |  Esc: quit>\n"
    );
    assert_eq!(
        sketch(&render_footer(&usage, " ($0.0123)", InputMode::MultiLine)),
        "\n  <Faint:Tokens: 1200 in / 34 out ($0.0123)  |  Esc: single-line  |  /help  |  Esc: quit>\n"
    );
    assert_eq!(
        sketch(&[welcome()]),
        "<FaintItalic:  Welcome to Pi! Type a message to begin, or /help for commands.>"
    );
}

#[test]
fn the_view_from_top_to_bottom() {
    let none: Option<String> = None;
    let idle = Surroundings {
        model: "m",
        percent: None,
        current_tool: &none,
        status_message: &none,
        agent_state: AgentState::Idle,
        input_mode: InputMode::SingleLine,
        usage: Usage::default(),
        cost: "",
    };
    assert_eq!(
        sketch(&view(&idle)),
        "  <Title:Pi> <Faint:(m)>\n\n<window>\n\
         \n  <Faint:[single-line] Enter to send>\n  <input>\
         \n  <Faint:Tokens: 0 in / 0 out  |  Alt+Enter: multi-line  |  /help  |  Esc: quit>\n"
    );

    let tool = Some("read".to_string());
    let status = Some("Copied".to_string());
    let busy = Surroundings {
        model: "m",
        percent: Some(50),
        current_tool: &tool,
        status_message: &status,
        agent_state: AgentState::ToolRunning,
        input_mode: InputMode::MultiLine,
        usage: Usage::default(),
        cost: "",
    };
    assert_eq!(
        sketch(&view(&busy)),
        "  <Title:Pi> <Faint:(m)>\n\n<window>\n\
         <Faint:  [50%] ↑/↓ PgUp/PgDn to scroll>\n\
         \n  <spinner> <Tool:Running read> ...\n\
         \n  <Status:Copied>\n\
         \n  <spinner> <Busy:Processing...>\n\
         \n  <Faint:Tokens: 0 in / 0 out  |  Esc: single-line  |  /help  |  Esc: quit>\n"
    );
}

#[test]
fn the_screen_is_divided_by_its_size() {
    let usual = pi::screen::layout(Some((100, 40)));
    assert_eq!(
        (usual.term_width, usual.term_height, usual.input_width, usual.viewport_width, usual.viewport_height),
        (100, 40, 96, 98, 31)
    );
    let unknown = pi::screen::layout(None);
    assert_eq!((unknown.term_width, unknown.term_height), (80, 24));
    assert_eq!((unknown.input_width, unknown.viewport_width, unknown.viewport_height), (76, 78, 15));
    let tiny = pi::screen::layout(Some((3, 5)));
    assert_eq!((tiny.input_width, tiny.viewport_width, tiny.viewport_height), (0, 1, 0));
}
