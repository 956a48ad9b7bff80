//! What the interactive screen shows, as a list of pieces for the terminal
//! to draw: which texts stand where, and how each is to look. Colours,
//! markdown and the input area's own picture are the terminal's business.

use crate::interactive::{
    shown_view, truncate, truncated, AgentState, ConversationMessage, ConversationMessageV,
    InputMode, MessageRole,
};
use crate::model::{opt_text, Usage};
use crate::text::{decimal, decimal_string};
use vstd::prelude::*;

verus! {

/// How a piece of the screen is to look.
#[derive(Debug, Clone, Copy, PartialEq, Eq, Structural)]
pub enum Tone {
    /// The program's name.
    Title,
    /// Less important text.
    Faint,
    /// Less important text, slanted.
    FaintItalic,
    /// The label of the user's messages.
    User,
    /// The label of the assistant's messages.
    Assistant,
    /// A message of the program itself.
    Notice,
    /// A message of the program itself, as an alarm.
    Alarm,
    /// The tool that runs.
    Tool,
    /// What a slash command answered.
    Status,
    /// The sign that the agent is at work.
    Busy,
}

/// A piece of the screen.
#[derive(Debug)]
pub enum Piece {
    /// Text as it is.
    Plain(String),
    /// Text in the given tone.
    Styled { tone: Tone, text: String },
    /// Markdown, to be rendered for `wrap` columns; each line of the result
    /// is indented by two spaces and ended by a line feed.
    Markdown { text: String, wrap: usize },
    /// Text of which each line is indented by two spaces and ended by a
    /// line feed.
    Indented(String),
    /// The spinner's present frame.
    Spinner,
    /// The picture of the input area, each line indented by two spaces and
    /// ended by a line feed.
    InputArea,
    /// The lines of the conversation that fit the window, joined by line
    /// feeds.
    Window,
}

/// [`Piece`] as plain data.
pub enum PieceV {
    Plain(Seq<char>),
    Styled { tone: Tone, text: Seq<char> },
    Markdown { text: Seq<char>, wrap: usize },
    Indented(Seq<char>),
    Spinner,
    InputArea,
    Window,
}

impl View for Piece {
    type V = PieceV;

    open spec fn view(&self) -> PieceV {
        match self {
            Piece::Plain(t) => PieceV::Plain(t@),
            Piece::Styled { tone, text } => PieceV::Styled { tone: *tone, text: text@ },
            Piece::Markdown { text, wrap } => PieceV::Markdown { text: text@, wrap: *wrap },
            Piece::Indented(t) => PieceV::Indented(t@),
            Piece::Spinner => PieceV::Spinner,
            Piece::InputArea => PieceV::InputArea,
            Piece::Window => PieceV::Window,
        }
    }
}

/// The views of a run of pieces.
pub open spec fn pieces_view(pieces: Seq<Piece>) -> Seq<PieceV> {
    pieces.map_values(|p: Piece| p@)
}

/// How long a thought may be where it is shown.
pub const THINKING_SHOWN: usize = 100;

/// The least width that markdown is wrapped at.
pub const WRAP_AT_LEAST: usize = 40;

/// The width that markdown is wrapped at where the screen's width is not
/// taken into account.
pub const WRAP_FIXED: usize = 76;

/// The width that markdown is wrapped at on a screen of the given width:
/// six columns less, and forty at least.
pub open spec fn wrap_width_of(term_width: usize) -> usize {
    if term_width >= WRAP_AT_LEAST + 6 {
        (term_width - 6) as usize
    } else {
        WRAP_AT_LEAST
    }
}

/// The width that markdown is wrapped at on a screen of the given width.
pub fn wrap_width(term_width: usize) -> (r: usize)
    ensures
        r == wrap_width_of(term_width),
{
    if term_width >= WRAP_AT_LEAST + 6 {
        term_width - 6
    } else {
        WRAP_AT_LEAST
    }
}

/// A label on a line of its own, after an empty line.
pub open spec fn labelled(tone: Tone, label: Seq<char>, after: Seq<char>) -> Seq<PieceV> {
    seq![PieceV::Plain("\n  "@), PieceV::Styled { tone, text: label }, PieceV::Plain(after)]
}

/// The line that shows a thought, cut to a hundred characters.
pub open spec fn thinking_line(thinking: Seq<char>) -> Seq<PieceV> {
    seq![
        PieceV::Plain("  "@),
        PieceV::Styled {
            tone: Tone::FaintItalic,
            text: "Thinking: "@ + truncated(thinking, THINKING_SHOWN as nat),
        },
        PieceV::Plain("\n"@),
    ]
}

/// The pieces of one message. The user's text follows its label on the
/// same line; the assistant's stands below its label, after its thought
/// where it has one, as markdown; a message of the program is shown in the
/// tone `notice`.
pub open spec fn message_pieces(m: ConversationMessageV, wrap: usize, notice: Tone) -> Seq<PieceV> {
    match m.role {
        MessageRole::User => labelled(Tone::User, "You:"@, " "@ + m.content + "\n"@),
        MessageRole::Assistant => labelled(Tone::Assistant, "Assistant:"@, "\n"@) + (match m.thinking {
            Some(t) => thinking_line(t),
            None => Seq::empty(),
        }) + seq![PieceV::Markdown { text: m.content, wrap }],
        MessageRole::System => labelled(notice, m.content, "\n"@),
    }
}

/// The pieces of the messages, in their order.
pub open spec fn messages_pieces(
    messages: Seq<ConversationMessageV>,
    wrap: usize,
    notice: Tone,
) -> Seq<PieceV>
    decreases messages.len(),
{
    if messages.len() == 0 {
        Seq::empty()
    } else {
        messages_pieces(messages.drop_last(), wrap, notice) + message_pieces(
            messages.last(),
            wrap,
            notice,
        )
    }
}

/// The pieces of the answer that is being streamed: the label, the thought
/// where there is one, and the text so far, which is not yet rendered as
/// markdown.
pub open spec fn response_pieces(response: Seq<char>, thinking: Seq<char>) -> Seq<PieceV> {
    labelled(Tone::Assistant, "Assistant:"@, "\n"@) + (if thinking.len() > 0 {
        thinking_line(thinking)
    } else {
        Seq::empty()
    }) + (if response.len() > 0 {
        seq![PieceV::Indented(response)]
    } else {
        Seq::empty()
    })
}

/// The conversation: the messages, and the answer that is being streamed
/// where anything of it has come.
pub open spec fn conversation_pieces(
    messages: Seq<ConversationMessageV>,
    response: Seq<char>,
    thinking: Seq<char>,
    term_width: usize,
) -> Seq<PieceV> {
    messages_pieces(messages, wrap_width_of(term_width), Tone::Notice) + (if response.len() > 0
        || thinking.len() > 0 {
        response_pieces(response, thinking)
    } else {
        Seq::empty()
    })
}

fn plain(text: &str) -> (r: Piece)
    ensures
        r@ == PieceV::Plain(text@),
{
    Piece::Plain(String::from_str(text))
}

fn styled(tone: Tone, text: &str) -> (r: Piece)
    ensures
        r@ == (PieceV::Styled { tone, text: text@ }),
{
    Piece::Styled { tone, text: String::from_str(text) }
}

fn push_labelled(out: &mut Vec<Piece>, tone: Tone, label: &str, after: String)
    ensures
        pieces_view(final(out)@) == pieces_view(old(out)@) + labelled(tone, label@, after@),
{
    out.push(plain("\n  "));
    out.push(styled(tone, label));
    out.push(Piece::Plain(after));
    assert(pieces_view(out@) =~= pieces_view(old(out)@) + labelled(tone, label@, after@));
}

fn push_thinking(out: &mut Vec<Piece>, thinking: &str)
    ensures
        pieces_view(final(out)@) == pieces_view(old(out)@) + thinking_line(thinking@),
{
    let cut = truncate(thinking, THINKING_SHOWN);
    let text = String::from_str("Thinking: ").concat(cut.as_str());
    out.push(plain("  "));
    out.push(Piece::Styled { tone: Tone::FaintItalic, text });
    out.push(plain("\n"));
    assert(pieces_view(out@) =~= pieces_view(old(out)@) + thinking_line(thinking@));
}

fn push_message(out: &mut Vec<Piece>, m: &ConversationMessage, wrap: usize, notice: Tone)
    ensures
        pieces_view(final(out)@) == pieces_view(old(out)@) + message_pieces(m@, wrap, notice),
{
    match m.role {
        MessageRole::User => {
            let after = String::from_str(" ").concat(m.content.as_str()).concat("\n");
            assert(after@ =~= " "@ + m.content@ + "\n"@);
            push_labelled(out, Tone::User, "You:", after);
        },
        MessageRole::Assistant => {
            push_labelled(out, Tone::Assistant, "Assistant:", String::from_str("\n"));
            let ghost with_label = pieces_view(out@);
            match &m.thinking {
                Some(t) => {
                    push_thinking(out, t.as_str());
                },
                None => {
                    assert(pieces_view(out@) =~= with_label + Seq::<PieceV>::empty());
                },
            }
            let ghost with_thought = pieces_view(out@);
            out.push(Piece::Markdown { text: m.content.clone(), wrap });
            assert(pieces_view(out@) =~= with_thought.push(
                PieceV::Markdown { text: m.content@, wrap },
            ));
            assert(pieces_view(out@) =~= pieces_view(old(out)@) + message_pieces(m@, wrap, notice));
        },
        MessageRole::System => {
            push_labelled(out, notice, m.content.as_str(), String::from_str("\n"));
        },
    }
}

fn push_messages(out: &mut Vec<Piece>, messages: &[ConversationMessage], wrap: usize, notice: Tone)
    ensures
        pieces_view(final(out)@) == pieces_view(old(out)@) + messages_pieces(
            shown_view(messages@),
            wrap,
            notice,
        ),
{
    let ghost all = shown_view(messages@);
    let mut i: usize = 0;
    assert(pieces_view(out@) =~= pieces_view(old(out)@) + messages_pieces(all.take(0), wrap, notice));
    while i < messages.len()
        invariant
            i <= messages.len(),
            all == shown_view(messages@),
            pieces_view(out@) == pieces_view(old(out)@) + messages_pieces(
                all.take(i as int),
                wrap,
                notice,
            ),
        decreases messages.len() - i,
    {
        proof {
            assert(all.take(i + 1).drop_last() =~= all.take(i as int));
            assert(all.take(i + 1).last() == messages@[i as int]@);
        }
        let ghost before = pieces_view(out@);
        push_message(out, &messages[i], wrap, notice);
        assert(pieces_view(out@) =~= pieces_view(old(out)@) + messages_pieces(
            all.take(i + 1),
            wrap,
            notice,
        ));
        i += 1;
    }
    assert(all.take(i as int) =~= all);
}

fn push_response(out: &mut Vec<Piece>, response: &str, thinking: &str)
    ensures
        pieces_view(final(out)@) == pieces_view(old(out)@) + response_pieces(response@, thinking@),
{
    push_labelled(out, Tone::Assistant, "Assistant:", String::from_str("\n"));
    let ghost with_label = pieces_view(out@);
    if thinking.unicode_len() > 0 {
        push_thinking(out, thinking);
    } else {
        assert(pieces_view(out@) =~= with_label + Seq::<PieceV>::empty());
    }
    let ghost with_thought = pieces_view(out@);
    if response.unicode_len() > 0 {
        out.push(Piece::Indented(String::from_str(response)));
        assert(pieces_view(out@) =~= with_thought + seq![PieceV::Indented(response@)]);
    } else {
        assert(pieces_view(out@) =~= with_thought + Seq::<PieceV>::empty());
    }
    assert(pieces_view(out@) =~= pieces_view(old(out)@) + response_pieces(response@, thinking@));
}

/// Render the conversation messages, wrapped at the fixed width, with the
/// program's own messages as alarms.
pub fn render_messages(messages: &[ConversationMessage]) -> (r: Vec<Piece>)
    ensures
        pieces_view(r@) == messages_pieces(shown_view(messages@), WRAP_FIXED, Tone::Alarm),
{
    let mut out: Vec<Piece> = Vec::new();
    push_messages(&mut out, messages, WRAP_FIXED, Tone::Alarm);
    assert(pieces_view(out@) =~= messages_pieces(shown_view(messages@), WRAP_FIXED, Tone::Alarm));
    out
}

/// Render the answer that is being streamed.
pub fn render_current_response(response: &str, thinking: &str) -> (r: Vec<Piece>)
    ensures
        pieces_view(r@) == response_pieces(response@, thinking@),
{
    let mut out: Vec<Piece> = Vec::new();
    push_response(&mut out, response, thinking);
    assert(pieces_view(out@) =~= response_pieces(response@, thinking@));
    out
}

/// Build the conversation for the window: the messages, then the answer
/// that is being streamed. Empty exactly when there is neither.
pub fn build_conversation_content(
    messages: &[ConversationMessage],
    response: &str,
    thinking: &str,
    term_width: usize,
) -> (r: Vec<Piece>)
    ensures
        pieces_view(r@) == conversation_pieces(shown_view(messages@), response@, thinking@, term_width),
        r@.len() == 0 <==> messages@.len() == 0 && response@.len() == 0 && thinking@.len() == 0,
{
    let mut out: Vec<Piece> = Vec::new();
    push_messages(&mut out, messages, wrap_width(term_width), Tone::Notice);
    let ghost first = pieces_view(out@);
    if response.unicode_len() > 0 || thinking.unicode_len() > 0 {
        push_response(&mut out, response, thinking);
    } else {
        assert(pieces_view(out@) =~= first + Seq::<PieceV>::empty());
    }
    proof {
        assert(pieces_view(out@) =~= conversation_pieces(
            shown_view(messages@),
            response@,
            thinking@,
            term_width,
        ));
        lemma_messages_pieces_len(shown_view(messages@), wrap_width_of(term_width), Tone::Notice);
    }
    out
}

/// Every message is shown by three pieces at least.
pub proof fn lemma_messages_pieces_len(messages: Seq<ConversationMessageV>, wrap: usize, notice: Tone)
    ensures
        messages_pieces(messages, wrap, notice).len() >= 3 * messages.len(),
    decreases messages.len(),
{
    if messages.len() > 0 {
        lemma_messages_pieces_len(messages.drop_last(), wrap, notice);
    }
}

/// The line that greets the user while the conversation is empty.
pub open spec fn welcome_piece() -> PieceV {
    PieceV::Styled {
        tone: Tone::FaintItalic,
        text: "  Welcome to Pi! Type a message to begin, or /help for commands."@,
    }
}

/// The line that greets the user while the conversation is empty.
pub fn welcome() -> (r: Piece)
    ensures
        r@ == welcome_piece(),
{
    styled(Tone::FaintItalic, "  Welcome to Pi! Type a message to begin, or /help for commands.")
}

/// The header: the program's name, and the model in brackets.
pub open spec fn header_pieces(model: Seq<char>) -> Seq<PieceV> {
    seq![
        PieceV::Plain("  "@),
        PieceV::Styled { tone: Tone::Title, text: "Pi"@ },
        PieceV::Plain(" "@),
        PieceV::Styled { tone: Tone::Faint, text: "("@ + model + ")"@ },
        PieceV::Plain("\n"@),
    ]
}

/// Render the header.
pub fn render_header(model: &str) -> (r: Vec<Piece>)
    ensures
        pieces_view(r@) == header_pieces(model@),
{
    let label = String::from_str("(").concat(model).concat(")");
    assert(label@ =~= "("@ + model@ + ")"@);
    let out: Vec<Piece> = vec![
        plain("  "),
        styled(Tone::Title, "Pi"),
        plain(" "),
        Piece::Styled { tone: Tone::Faint, text: label },
        plain("\n"),
    ];
    assert(pieces_view(out@) =~= header_pieces(model@));
    out
}

/// What the input area says of its mode.
pub open spec fn mode_text(mode: InputMode) -> Seq<char> {
    match mode {
        InputMode::SingleLine => "[single-line] Enter to send"@,
        InputMode::MultiLine => "[multi-line] Alt+Enter to send, Esc to cancel"@,
    }
}

/// What the footer says of the other mode.
pub open spec fn mode_hint(mode: InputMode) -> Seq<char> {
    match mode {
        InputMode::SingleLine => "Alt+Enter: multi-line"@,
        InputMode::MultiLine => "Esc: single-line"@,
    }
}

/// The input area: the mode on a line of its own, then the area's picture.
pub open spec fn input_pieces(mode: InputMode) -> Seq<PieceV> {
    seq![
        PieceV::Plain("\n  "@),
        PieceV::Styled { tone: Tone::Faint, text: mode_text(mode) },
        PieceV::Plain("\n"@),
        PieceV::Plain("  "@),
        PieceV::InputArea,
    ]
}

/// Render the input area.
pub fn render_input(mode: InputMode) -> (r: Vec<Piece>)
    ensures
        pieces_view(r@) == input_pieces(mode),
{
    let text = match mode {
        InputMode::SingleLine => "[single-line] Enter to send",
        InputMode::MultiLine => "[multi-line] Alt+Enter to send, Esc to cancel",
    };
    let out: Vec<Piece> = vec![
        plain("\n  "),
        styled(Tone::Faint, text),
        plain("\n"),
        plain("  "),
        Piece::InputArea,
    ];
    assert(pieces_view(out@) =~= input_pieces(mode));
    out
}

/// The text of the footer: the tokens that went in and came out, the cost
/// where one is given, and the keys that matter.
pub open spec fn footer_text(input: u64, output: u64, cost: Seq<char>, mode: InputMode) -> Seq<char> {
    "Tokens: "@ + decimal(input as nat) + " in / "@ + decimal(output as nat) + " out"@ + cost
        + "  |  "@ + mode_hint(mode) + "  |  /help  |  Esc: quit"@
}

/// The footer, on a line of its own after an empty line.
pub open spec fn footer_pieces(input: u64, output: u64, cost: Seq<char>, mode: InputMode) -> Seq<
    PieceV,
> {
    labelled(Tone::Faint, footer_text(input, output, cost, mode), "\n"@)
}

/// Render the footer with usage stats. `cost` is the text that shows what
/// the tokens cost, or empty where they cost nothing.
pub fn render_footer(usage: &Usage, cost: &str, mode: InputMode) -> (r: Vec<Piece>)
    ensures
        pieces_view(r@) == footer_pieces(usage.input, usage.output, cost@, mode),
{
    let hint = match mode {
        InputMode::SingleLine => "Alt+Enter: multi-line",
        InputMode::MultiLine => "Esc: single-line",
    };
    let text = String::from_str("Tokens: ").concat(decimal_string(usage.input).as_str()).concat(
        " in / ",
    ).concat(decimal_string(usage.output).as_str()).concat(" out").concat(cost).concat(
        "  |  ",
    ).concat(hint).concat("  |  /help  |  Esc: quit");
    assert(text@ =~= footer_text(usage.input, usage.output, cost@, mode));
    let mut out: Vec<Piece> = Vec::new();
    push_labelled(&mut out, Tone::Faint, text.as_str(), String::from_str("\n"));
    assert(pieces_view(out@) =~= footer_pieces(usage.input, usage.output, cost@, mode));
    out
}

/// The line below the window that says how far it has been scrolled.
pub open spec fn scroll_pieces(percent: Option<u64>) -> Seq<PieceV> {
    match percent {
        Some(p) => seq![
            PieceV::Styled {
                tone: Tone::Faint,
                text: "  ["@ + decimal(p as nat) + "%] ↑/↓ PgUp/PgDn to scroll"@,
            },
            PieceV::Plain("\n"@),
        ],
        None => Seq::empty(),
    }
}

/// The line that names the tool that runs.
pub open spec fn tool_pieces(tool: Option<Seq<char>>) -> Seq<PieceV> {
    match tool {
        Some(name) => seq![
            PieceV::Plain("\n  "@),
            PieceV::Spinner,
            PieceV::Plain(" "@),
            PieceV::Styled { tone: Tone::Tool, text: "Running "@ + name },
            PieceV::Plain(" ...\n"@),
        ],
        None => Seq::empty(),
    }
}

/// The line that shows what a slash command answered.
pub open spec fn status_pieces(status: Option<Seq<char>>) -> Seq<PieceV> {
    match status {
        Some(text) => labelled(Tone::Status, text, "\n"@),
        None => Seq::empty(),
    }
}

/// What stands in the place of the input while the agent is at work.
pub open spec fn busy_pieces() -> Seq<PieceV> {
    seq![
        PieceV::Plain("\n  "@),
        PieceV::Spinner,
        PieceV::Plain(" "@),
        PieceV::Styled { tone: Tone::Busy, text: "Processing..."@ },
        PieceV::Plain("\n"@),
    ]
}

/// What the screen shows beside the conversation.
pub struct Surroundings<'a> {
    /// The model in use.
    pub model: &'a str,
    /// How far the window has been scrolled, where the conversation does
    /// not fit it.
    pub percent: Option<u64>,
    /// The tool that runs.
    pub current_tool: &'a Option<String>,
    /// What a slash command answered.
    pub status_message: &'a Option<String>,
    /// What the agent does.
    pub agent_state: AgentState,
    /// How the input is taken.
    pub input_mode: InputMode,
    /// The tokens used so far.
    pub usage: Usage,
    /// The text that shows what the tokens cost; empty where they cost
    /// nothing.
    pub cost: &'a str,
}

/// The whole screen, from top to bottom: the header, the window on the
/// conversation, how far it is scrolled, the tool that runs, the status,
/// the input area while the agent is idle and the sign that it is at work
/// otherwise, and the footer.
pub open spec fn view_pieces(
    model: Seq<char>,
    percent: Option<u64>,
    tool: Option<Seq<char>>,
    status: Option<Seq<char>>,
    agent_state: AgentState,
    mode: InputMode,
    usage: Usage,
    cost: Seq<char>,
) -> Seq<PieceV> {
    header_pieces(model) + seq![PieceV::Plain("\n"@), PieceV::Window, PieceV::Plain("\n"@)]
        + scroll_pieces(percent) + tool_pieces(tool) + status_pieces(status) + (if agent_state
        == AgentState::Idle {
        input_pieces(mode)
    } else {
        busy_pieces()
    }) + footer_pieces(usage.input, usage.output, cost, mode)
}

fn append(out: &mut Vec<Piece>, more: Vec<Piece>)
    ensures
        pieces_view(final(out)@) == pieces_view(old(out)@) + pieces_view(more@),
{
    let mut more = more;
    let ghost given = more@;
    out.append(&mut more);
    assert(pieces_view(out@) =~= pieces_view(old(out)@) + pieces_view(given));
}

/// Render the view.
pub fn view(around: &Surroundings) -> (r: Vec<Piece>)
    ensures
        pieces_view(r@) == view_pieces(
            around.model@,
            around.percent,
            opt_text(*around.current_tool),
            opt_text(*around.status_message),
            around.agent_state,
            around.input_mode,
            around.usage,
            around.cost@,
        ),
{
    let mut out = render_header(around.model);
    out.push(plain("\n"));
    out.push(Piece::Window);
    out.push(plain("\n"));
    let ghost top = pieces_view(out@);
    assert(top =~= header_pieces(around.model@) + seq![
        PieceV::Plain("\n"@),
        PieceV::Window,
        PieceV::Plain("\n"@),
    ]);
    match around.percent {
        Some(p) => {
            let text = String::from_str("  [").concat(decimal_string(p).as_str()).concat(
                "%] ↑/↓ PgUp/PgDn to scroll",
            );
            assert(text@ =~= "  ["@ + decimal(p as nat) + "%] ↑/↓ PgUp/PgDn to scroll"@);
            out.push(Piece::Styled { tone: Tone::Faint, text });
            out.push(plain("\n"));
        },
        None => {},
    }
    let ghost scrolled = pieces_view(out@);
    assert(scrolled =~= top + scroll_pieces(around.percent));
    match around.current_tool {
        Some(name) => {
            let text = String::from_str("Running ").concat(name.as_str());
            out.push(plain("\n  "));
            out.push(Piece::Spinner);
            out.push(plain(" "));
            out.push(Piece::Styled { tone: Tone::Tool, text });
            out.push(plain(" ...\n"));
        },
        None => {},
    }
    let ghost tooled = pieces_view(out@);
    assert(tooled =~= scrolled + tool_pieces(opt_text(*around.current_tool)));
    match around.status_message {
        Some(text) => {
            push_labelled(&mut out, Tone::Status, text.as_str(), String::from_str("\n"));
        },
        None => {},
    }
    let ghost told = pieces_view(out@);
    assert(told =~= tooled + status_pieces(opt_text(*around.status_message)));
    match around.agent_state {
        AgentState::Idle => {
            append(&mut out, render_input(around.input_mode));
        },
        _ => {
            out.push(plain("\n  "));
            out.push(Piece::Spinner);
            out.push(plain(" "));
            out.push(styled(Tone::Busy, "Processing..."));
            out.push(plain("\n"));
            assert(pieces_view(out@) =~= told + busy_pieces());
        },
    }
    append(&mut out, render_footer(&around.usage, around.cost, around.input_mode));
    out
}

/// What the input area shows while it is empty.
pub const INPUT_PLACEHOLDER: &'static str =
    "Type your message... (Enter to send, Alt+Enter for multi-line, Esc to quit)";

/// What stands before each line of the input.
pub const INPUT_PROMPT: &'static str = "> ";

/// The most lines that the input area grows to.
pub const INPUT_MAX_HEIGHT: usize = 10;

/// How many lines a turn of the mouse wheel moves the window.
pub const WHEEL_DELTA: usize = 3;

/// The size that a terminal is taken to have where it does not tell.
pub const DEFAULT_SIZE: (usize, usize) = (80, 24);

/// How the screen is divided.
#[derive(Debug, Clone, Copy, PartialEq, Eq, Structural)]
pub struct Layout {
    pub term_width: usize,
    pub term_height: usize,
    /// The width of the input area: four columns less than the screen.
    pub input_width: usize,
    /// The width of the window on the conversation: two columns less than
    /// the screen.
    pub viewport_width: usize,
    /// The height of the window: nine lines less than the screen, which the
    /// header, the input area and the footer take.
    pub viewport_height: usize,
}

/// `a - b`, and zero where `b` is the larger.
pub open spec fn less(a: usize, b: usize) -> usize {
    if a >= b {
        (a - b) as usize
    } else {
        0
    }
}

/// How a screen of the given size is divided; a terminal that does not
/// tell its size counts as eighty columns by twenty-four lines.
pub open spec fn layout_of(size: Option<(u16, u16)>) -> Layout {
    let (term_width, term_height) = match size {
        Some((w, h)) => (w as usize, h as usize),
        None => DEFAULT_SIZE,
    };
    Layout {
        term_width,
        term_height,
        input_width: less(term_width, 4),
        viewport_width: less(term_width, 2),
        viewport_height: less(term_height, 9),
    }
}

fn minus(a: usize, b: usize) -> (r: usize)
    ensures
        r == less(a, b),
{
    if a >= b {
        a - b
    } else {
        0
    }
}

/// How a screen of the given size is divided.
pub fn layout(size: Option<(u16, u16)>) -> (r: Layout)
    ensures
        r == layout_of(size),
{
    let (term_width, term_height): (usize, usize) = match size {
        Some((w, h)) => (w as usize, h as usize),
        None => DEFAULT_SIZE,
    };
    Layout {
        term_width,
        term_height,
        input_width: minus(term_width, 4),
        viewport_width: minus(term_width, 2),
        viewport_height: minus(term_height, 9),
    }
}

} // verus!
