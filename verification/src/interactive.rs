//! The rules of the interactive front end that do not draw: slash commands,
//! the conversation as it is shown, and the state that agent events move.

use crate::model::{ContentBlock, ContentBlockV, ThinkingLevel, UserContent, UserContentV};
use crate::text::{
    chars_of, find_space, first_space, lowercased, push_char, repeated, str_eq, string_of,
    to_lowercase, trim_bounds, trimmed,
};
use crate::session::{
    EntryKind, EntryKindV, Session, SessionEntry, SessionEntryV, SessionMessage, SessionMessageV,
};
use vstd::prelude::*;

verus! {

/// The commands that a line beginning with `/` can name.
#[derive(Debug, Clone, Copy, PartialEq, Eq, Structural)]
pub enum SlashCommand {
    Help,
    Login,
    Logout,
    Clear,
    Model,
    Thinking,
    Exit,
    History,
    Export,
}

/// The first word of a command line: what stands before the first white
/// space.
pub open spec fn command_word(line: Seq<char>) -> Seq<char> {
    line.take(first_space(line) as int)
}

/// What follows the first word and the one white-space character after it.
pub open spec fn command_rest(line: Seq<char>) -> Seq<char> {
    if first_space(line) < line.len() {
        line.skip(first_space(line) as int + 1)
    } else {
        Seq::empty()
    }
}

impl SlashCommand {
    /// The command that a lower-case word names.
    pub open spec fn named(lower: Seq<char>) -> Option<SlashCommand> {
        if lower == "/help"@ || lower == "/h"@ || lower == "/?"@ {
            Some(SlashCommand::Help)
        } else if lower == "/login"@ {
            Some(SlashCommand::Login)
        } else if lower == "/logout"@ {
            Some(SlashCommand::Logout)
        } else if lower == "/clear"@ || lower == "/cls"@ {
            Some(SlashCommand::Clear)
        } else if lower == "/model"@ || lower == "/m"@ {
            Some(SlashCommand::Model)
        } else if lower == "/thinking"@ || lower == "/think"@ || lower == "/t"@ {
            Some(SlashCommand::Thinking)
        } else if lower == "/exit"@ || lower == "/quit"@ || lower == "/q"@ {
            Some(SlashCommand::Exit)
        } else if lower == "/history"@ || lower == "/hist"@ {
            Some(SlashCommand::History)
        } else if lower == "/export"@ {
            Some(SlashCommand::Export)
        } else {
            None
        }
    }

    /// The command that a lower-case word names.
    pub fn from_lower(lower: &str) -> (r: Option<SlashCommand>)
        ensures
            r == SlashCommand::named(lower@),
    {
        if str_eq(lower, "/help") || str_eq(lower, "/h") || str_eq(lower, "/?") {
            Some(SlashCommand::Help)
        } else if str_eq(lower, "/login") {
            Some(SlashCommand::Login)
        } else if str_eq(lower, "/logout") {
            Some(SlashCommand::Logout)
        } else if str_eq(lower, "/clear") || str_eq(lower, "/cls") {
            Some(SlashCommand::Clear)
        } else if str_eq(lower, "/model") || str_eq(lower, "/m") {
            Some(SlashCommand::Model)
        } else if str_eq(lower, "/thinking") || str_eq(lower, "/think") || str_eq(lower, "/t") {
            Some(SlashCommand::Thinking)
        } else if str_eq(lower, "/exit") || str_eq(lower, "/quit") || str_eq(lower, "/q") {
            Some(SlashCommand::Exit)
        } else if str_eq(lower, "/history") || str_eq(lower, "/hist") {
            Some(SlashCommand::History)
        } else if str_eq(lower, "/export") {
            Some(SlashCommand::Export)
        } else {
            None
        }
    }

    /// What a line of input says as a command: the command that its first
    /// word names in any letter case, and the rest of the line without white
    /// space at either end. `None` for a line that does not begin with `/`
    /// once trimmed, and for a word that names no command.
    pub open spec fn parsed(input: Seq<char>) -> Option<(SlashCommand, Seq<char>)> {
        let line = trimmed(input);
        if line.len() == 0 || line[0] != '/' {
            None
        } else {
            match SlashCommand::named(lowercased(command_word(line))) {
                Some(command) => Some((command, trimmed(command_rest(line)))),
                None => None,
            }
        }
    }

    /// Parse a slash command from input.
    pub fn parse(input: &str) -> (r: Option<(SlashCommand, &str)>)
        ensures
            match r {
                Some((command, args)) => SlashCommand::parsed(input@) == Some((command, args@)),
                None => SlashCommand::parsed(input@).is_none(),
            },
    {
        let v = chars_of(input);
        let (start, end) = trim_bounds(v.as_slice());
        if start == end || v[start] != '/' {
            return None;
        }
        let ghost line = trimmed(input@);
        let word_len = find_space(v.as_slice(), start, end);
        let word_chars = crate::text::slice_chars(v.as_slice(), start, start + word_len);
        assert(word_chars@ =~= command_word(line));
        let word = string_of(word_chars.as_slice());
        let lower = to_lowercase(word.as_str());
        let command = match SlashCommand::from_lower(lower.as_str()) {
            Some(command) => command,
            None => {
                return None;
            },
        };
        if start + word_len < end {
            let rest = crate::text::slice_chars(v.as_slice(), start + word_len + 1, end);
            assert(rest@ =~= command_rest(line));
            let (from, to) = trim_bounds(rest.as_slice());
            let args = input.substring_char(start + word_len + 1 + from, start + word_len + 1 + to);
            assert(args@ =~= trimmed(command_rest(line)));
            Some((command, args))
        } else {
            let args = input.substring_char(end, end);
            proof {
                assert(command_rest(line) =~= Seq::<char>::empty());
                assert(crate::text::leading_space(Seq::<char>::empty()) == 0);
                assert(trimmed(Seq::<char>::empty()) =~= Seq::<char>::empty());
                assert(args@ =~= Seq::<char>::empty());
            }
            Some((command, args))
        }
    }

    /// Get help text for all commands.
    pub fn help_text() -> (r: &'static str)
        ensures
            r@ == HELP_TEXT@,
    {
        HELP_TEXT
    }
}

/// The help text for all commands.
pub const HELP_TEXT: &'static str = "Available commands:\n  /help, /h, /?      - Show this help message\n  /login [provider]  - OAuth login (currently: anthropic)\n  /logout [provider] - Remove stored OAuth credentials\n  /clear, /cls       - Clear conversation history\n  /model, /m [id|provider/id] - Show or change the current model\n  /thinking, /t [level] - Set thinking level (off/minimal/low/medium/high/xhigh)\n  /history, /hist    - Show input history\n  /export [path]     - Export conversation to HTML\n  /exit, /quit, /q   - Exit Pi\n\nTips:\n  • Use ↑/↓ arrows or Ctrl+P/N to navigate input history\n  • Use Alt+Enter to submit multi-line input\n  • Use PageUp/PageDown to scroll conversation history\n  • Use Escape to cancel current input\n  • Use /skill:name or /template to expand resources";

/// State of the agent processing.
#[derive(Debug, Clone, Copy, PartialEq, Eq, Structural)]
pub enum AgentState {
    /// Ready for input.
    Idle,
    /// Processing user request.
    Processing,
    /// Executing a tool.
    ToolRunning,
}

/// Input mode of the editor.
#[derive(Debug, Clone, Copy, PartialEq, Eq, Structural)]
pub enum InputMode {
    /// Single-line input mode (default).
    SingleLine,
    /// Multi-line input mode.
    MultiLine,
}

/// Role of a message.
#[derive(Debug, Clone, Copy, PartialEq, Eq, Structural)]
pub enum MessageRole {
    User,
    Assistant,
    System,
}

/// A message in the conversation as it is shown.
#[derive(Debug)]
pub struct ConversationMessage {
    pub role: MessageRole,
    pub content: String,
    pub thinking: Option<String>,
}

/// [`ConversationMessage`] as plain data.
pub struct ConversationMessageV {
    pub role: MessageRole,
    pub content: Seq<char>,
    pub thinking: Option<Seq<char>>,
}

impl View for ConversationMessage {
    type V = ConversationMessageV;

    open spec fn view(&self) -> ConversationMessageV {
        ConversationMessageV {
            role: self.role,
            content: self.content@,
            thinking: crate::model::opt_text(self.thinking),
        }
    }
}

impl Clone for ConversationMessage {
    fn clone(&self) -> (r: Self)
        ensures
            r@ == self@,
    {
        ConversationMessage {
            role: self.role,
            content: self.content.clone(),
            thinking: crate::model::clone_opt_text(&self.thinking),
        }
    }
}

/// The views of a sequence of shown messages.
pub open spec fn shown_view(messages: Seq<ConversationMessage>) -> Seq<ConversationMessageV> {
    messages.map_values(|m: ConversationMessage| m@)
}

/// A system message with the given content.
pub open spec fn system_note(content: Seq<char>) -> ConversationMessageV {
    ConversationMessageV { role: MessageRole::System, content, thinking: None }
}

/// Input that waits to be sent to the agent.
#[derive(Debug, Clone)]
pub enum PendingInput {
    Text(String),
    Content(Vec<ContentBlock>),
}

/// A text cut to at most `max_len` characters: the text itself where it
/// fits, dots alone where `max_len` is at most three, else the first
/// `max_len - 3` characters and three dots.
pub open spec fn truncated(s: Seq<char>, max_len: nat) -> Seq<char> {
    if max_len == 0 {
        Seq::empty()
    } else if s.len() <= max_len {
        s
    } else if max_len <= 3 {
        repeated('.', max_len)
    } else {
        s.take(max_len - 3) + "..."@
    }
}

/// Truncate a string to `max_len` characters with ellipsis.
pub fn truncate(s: &str, max_len: usize) -> (r: String)
    ensures
        r@ == truncated(s@, max_len as nat),
{
    if max_len == 0 {
        return String::new();
    }
    let v = chars_of(s);
    if v.len() <= max_len {
        return String::from_str(s);
    }
    if max_len <= 3 {
        let mut out = String::new();
        let mut i: usize = 0;
        while i < max_len
            invariant
                i <= max_len,
                out@ == repeated('.', i as nat),
            decreases max_len - i,
        {
            push_char(&mut out, '.');
            assert(out@ =~= repeated('.', (i + 1) as nat));
            i += 1;
        }
        return out;
    }
    let head = crate::text::slice_chars(v.as_slice(), 0, max_len - 3);
    assert(head@ =~= s@.take(max_len - 3));
    string_of(head.as_slice()).concat("...")
}

/// A buffer with one more line: an empty line adds nothing, and a line
/// feed parts the line from what the buffer held.
pub open spec fn with_line(buffer: Seq<char>, line: Seq<char>) -> Seq<char> {
    if line.len() == 0 {
        buffer
    } else if buffer.len() == 0 {
        line
    } else {
        buffer.push('\n') + line
    }
}

/// Appends a line to the buffer, after a line feed where the buffer is not
/// empty. An empty line is left out.
pub fn push_line(buffer: &mut String, line: &str)
    ensures
        final(buffer)@ == with_line(old(buffer)@, line@),
{
    if line.is_empty() {
        return ;
    }
    if !buffer.as_str().is_empty() {
        push_char(buffer, '\n');
    }
    buffer.append(line);
    assert(buffer@ =~= with_line(old(buffer)@, line@));
}

/// The lines, joined by line feeds, without the empty ones.
pub open spec fn joined_lines(lines: Seq<Seq<char>>) -> Seq<char>
    decreases lines.len(),
{
    if lines.len() == 0 {
        Seq::empty()
    } else {
        with_line(joined_lines(lines.drop_last()), lines.last())
    }
}

/// The line that stands for a block: its text, or a note in brackets for an
/// image or a tool call.
pub open spec fn block_line(block: ContentBlockV) -> Seq<char> {
    match block {
        ContentBlockV::Text(t) => t.text,
        ContentBlockV::Thinking(t) => t.thinking,
        ContentBlockV::Image(i) => "[image: "@ + i.mime_type + "]"@,
        ContentBlockV::ToolCall(c) => "[tool call: "@ + c.name + "]"@,
    }
}

/// The line that stands for a block.
pub fn line_of_block(block: &ContentBlock) -> (r: String)
    ensures
        r@ == block_line(block@),
{
    match block {
        ContentBlock::Text(t) => t.text.clone(),
        ContentBlock::Thinking(t) => t.thinking.clone(),
        ContentBlock::Image(i) => String::from_str("[image: ").concat(i.mime_type.as_str()).concat(
            "]",
        ),
        ContentBlock::ToolCall(c) => String::from_str("[tool call: ").concat(
            c.name.as_str(),
        ).concat("]"),
    }
}

/// The blocks as text, one line for each block that has any.
pub open spec fn blocks_text(blocks: Seq<ContentBlockV>) -> Seq<char> {
    joined_lines(blocks.map_values(|b: ContentBlockV| block_line(b)))
}

/// The blocks as text, one line for each block that has any.
pub fn content_blocks_to_text(blocks: &[ContentBlock]) -> (r: String)
    ensures
        r@ == blocks_text(crate::model::blocks_view(blocks@)),
{
    let mut output = String::new();
    let ghost lines = crate::model::blocks_view(blocks@).map_values(|b: ContentBlockV| block_line(b));
    let mut i: usize = 0;
    while i < blocks.len()
        invariant
            i <= blocks.len(),
            lines == crate::model::blocks_view(blocks@).map_values(
                |b: ContentBlockV| block_line(b),
            ),
            output@ == joined_lines(lines.take(i as int)),
        decreases blocks.len() - i,
    {
        let line = line_of_block(&blocks[i]);
        push_line(&mut output, line.as_str());
        proof {
            assert(lines.take(i + 1).drop_last() =~= lines.take(i as int));
            assert(lines.take(i + 1).last() == block_line(blocks@[i as int]@));
        }
        i += 1;
    }
    assert(lines.take(i as int) =~= lines);
    output
}

/// What a user sent, as text.
pub open spec fn user_text(content: UserContentV) -> Seq<char> {
    match content {
        UserContentV::Text(s) => s,
        UserContentV::Blocks(blocks) => blocks_text(blocks),
    }
}

/// What a user sent, as text.
pub fn user_content_to_text(content: &UserContent) -> (r: String)
    ensures
        r@ == user_text(content@),
{
    match content {
        UserContent::Text(text) => text.clone(),
        UserContent::Blocks(blocks) => content_blocks_to_text(blocks.as_slice()),
    }
}

/// The line of a block in the answer of an assistant message: thinking
/// blocks have none.
pub open spec fn answer_line(block: ContentBlockV) -> Seq<char> {
    match block {
        ContentBlockV::Thinking(t) => Seq::empty(),
        _ => block_line(block),
    }
}

/// The line of a block in the thinking of an assistant message: only
/// thinking blocks have one.
pub open spec fn thinking_line(block: ContentBlockV) -> Seq<char> {
    match block {
        ContentBlockV::Thinking(t) => t.thinking,
        _ => Seq::empty(),
    }
}

/// The answer of an assistant message as text.
pub open spec fn answer_text(blocks: Seq<ContentBlockV>) -> Seq<char> {
    joined_lines(blocks.map_values(|b: ContentBlockV| answer_line(b)))
}

/// The thinking of an assistant message as text, or `None` where it holds
/// nothing but white space.
pub open spec fn thinking_text(blocks: Seq<ContentBlockV>) -> Option<Seq<char>> {
    let all = joined_lines(blocks.map_values(|b: ContentBlockV| thinking_line(b)));
    if trimmed(all).len() == 0 {
        None
    } else {
        Some(all)
    }
}

/// An assistant message as text: its answer, and its thinking where it has
/// any.
pub fn assistant_content_to_text(blocks: &[ContentBlock]) -> (r: (String, Option<String>))
    ensures
        r.0@ == answer_text(crate::model::blocks_view(blocks@)),
        crate::model::opt_text(r.1) == thinking_text(crate::model::blocks_view(blocks@)),
{
    let mut text = String::new();
    let mut thinking = String::new();
    let ghost views = crate::model::blocks_view(blocks@);
    let ghost answers = views.map_values(|b: ContentBlockV| answer_line(b));
    let ghost thoughts = views.map_values(|b: ContentBlockV| thinking_line(b));
    let mut i: usize = 0;
    while i < blocks.len()
        invariant
            i <= blocks.len(),
            views == crate::model::blocks_view(blocks@),
            answers == views.map_values(|b: ContentBlockV| answer_line(b)),
            thoughts == views.map_values(|b: ContentBlockV| thinking_line(b)),
            text@ == joined_lines(answers.take(i as int)),
            thinking@ == joined_lines(thoughts.take(i as int)),
        decreases blocks.len() - i,
    {
        proof {
            assert(answers.take(i + 1).drop_last() =~= answers.take(i as int));
            assert(thoughts.take(i + 1).drop_last() =~= thoughts.take(i as int));
            assert(answers.take(i + 1).last() == answer_line(blocks@[i as int]@));
            assert(thoughts.take(i + 1).last() == thinking_line(blocks@[i as int]@));
        }
        match &blocks[i] {
            ContentBlock::Thinking(t) => {
                push_line(&mut thinking, t.thinking.as_str());
            },
            other => {
                let line = line_of_block(other);
                push_line(&mut text, line.as_str());
            },
        }
        i += 1;
    }
    proof {
        assert(answers.take(i as int) =~= answers);
        assert(thoughts.take(i as int) =~= thoughts);
    }
    let thinking = if crate::text::is_blank(thinking.as_str()) {
        None
    } else {
        Some(thinking)
    };
    (text, thinking)
}

/// What a tool put out, for display: its content as text, else its details
/// printed as JSON; `None` where both hold nothing but white space.
pub open spec fn tool_output_text(
    content: Seq<ContentBlockV>,
    details: Option<crate::json::JsonV>,
) -> Option<Seq<char>> {
    let text = blocks_text(content);
    let output = if trimmed(text).len() == 0 && details is Some {
        crate::json::pretty_text(details->Some_0)
    } else {
        text
    };
    if trimmed(output).len() == 0 {
        None
    } else {
        Some(output)
    }
}

/// What a tool put out, for display.
pub fn format_tool_output(content: &[ContentBlock], details: Option<&crate::json::Json>) -> (r:
    Option<String>)
    ensures
        crate::model::opt_text(r) == tool_output_text(
            crate::model::blocks_view(content@),
            match details {
                Some(d) => Some(d@),
                None => None,
            },
        ),
{
    let mut output = content_blocks_to_text(content);
    if crate::text::is_blank(output.as_str()) {
        match details {
            Some(d) => {
                output = pretty_json(d);
            },
            None => {},
        }
    }
    if crate::text::is_blank(output.as_str()) {
        None
    } else {
        Some(output)
    }
}

/// A JSON document printed over several lines.
pub fn pretty_json(value: &crate::json::Json) -> (r: String)
    ensures
        r@ == crate::json::pretty_text(value@),
{
    value.to_pretty()
}

/// The provider and the model that a selector names: `provider:model`,
/// else `provider/model`, else the model alone with the default provider.
/// White space round either part does not count.
pub open spec fn model_selection(input: Seq<char>, default_provider: Seq<char>) -> (
    Seq<char>,
    Seq<char>,
) {
    let t = trimmed(input);
    let colon = crate::text::first_index_of(t, ':') as int;
    let slash = crate::text::first_index_of(t, '/') as int;
    if colon < t.len() {
        (trimmed(t.take(colon)), trimmed(t.skip(colon + 1)))
    } else if slash < t.len() {
        (trimmed(t.take(slash)), trimmed(t.skip(slash + 1)))
    } else {
        (default_provider, t)
    }
}

/// Reads a model selector.
pub fn parse_model_selector(input: &str, default_provider: &str) -> (r: (String, String))
    ensures
        (r.0@, r.1@) == model_selection(input@, default_provider@),
{
    let v = chars_of(input);
    let t = crate::text::trim_chars(v.as_slice());
    let colon = crate::text::find_char(t.as_slice(), ':');
    let at = if colon < t.len() {
        colon
    } else {
        crate::text::find_char(t.as_slice(), '/')
    };
    if at < t.len() {
        let left = crate::text::slice_chars(t.as_slice(), 0, at);
        let right = crate::text::slice_chars(t.as_slice(), at + 1, t.len());
        assert(left@ =~= t@.take(at as int));
        assert(right@ =~= t@.skip(at + 1));
        let provider = crate::text::trim_chars(left.as_slice());
        let model = crate::text::trim_chars(right.as_slice());
        return (string_of(provider.as_slice()), string_of(model.as_slice()));
    }
    (String::from_str(default_provider), string_of(t.as_slice()))
}

/// The thinking level that a lower-case word stands for: a name, a short
/// name or a digit.
pub open spec fn thinking_level_named(lower: Seq<char>) -> Option<ThinkingLevel> {
    if lower == "off"@ || lower == "none"@ || lower == "0"@ {
        Some(ThinkingLevel::Off)
    } else if lower == "minimal"@ || lower == "min"@ {
        Some(ThinkingLevel::Minimal)
    } else if lower == "low"@ || lower == "1"@ {
        Some(ThinkingLevel::Low)
    } else if lower == "medium"@ || lower == "med"@ || lower == "2"@ {
        Some(ThinkingLevel::Medium)
    } else if lower == "high"@ || lower == "3"@ {
        Some(ThinkingLevel::High)
    } else if lower == "xhigh"@ || lower == "4"@ {
        Some(ThinkingLevel::XHigh)
    } else {
        None
    }
}

/// The thinking level that a lower-case word stands for.
pub fn thinking_level_from_lower(lower: &str) -> (r: Option<ThinkingLevel>)
    ensures
        r == thinking_level_named(lower@),
{
    if str_eq(lower, "off") || str_eq(lower, "none") || str_eq(lower, "0") {
        Some(ThinkingLevel::Off)
    } else if str_eq(lower, "minimal") || str_eq(lower, "min") {
        Some(ThinkingLevel::Minimal)
    } else if str_eq(lower, "low") || str_eq(lower, "1") {
        Some(ThinkingLevel::Low)
    } else if str_eq(lower, "medium") || str_eq(lower, "med") || str_eq(lower, "2") {
        Some(ThinkingLevel::Medium)
    } else if str_eq(lower, "high") || str_eq(lower, "3") {
        Some(ThinkingLevel::High)
    } else if str_eq(lower, "xhigh") || str_eq(lower, "4") {
        Some(ThinkingLevel::XHigh)
    } else {
        None
    }
}

/// Reads a thinking level as a user types it: white space round it and the
/// case of its letters do not count.
pub fn parse_thinking_level(input: &str) -> (r: Option<ThinkingLevel>)
    ensures
        r == thinking_level_named(lowercased(trimmed(input@))),
{
    let t = crate::text::trim(input);
    let normalized = to_lowercase(t.as_str());
    thinking_level_from_lower(normalized.as_str())
}

/// The name of a thinking level.
pub fn thinking_level_to_str(level: ThinkingLevel) -> (r: &'static str)
    ensures
        r@ == level.name(),
{
    level.as_str()
}

/// Adds the counters of `usage` to `total`.
pub fn add_usage(total: &mut crate::model::Usage, usage: &crate::model::Usage)
    ensures
        *final(total) == old(total).plus(*usage),
{
    total.add(usage);
}

/// What a custom message shows: its content, and its details printed as
/// JSON on a line of their own where they print as anything.
pub open spec fn custom_text(content: Seq<char>, details: Option<crate::json::JsonV>) -> Seq<char> {
    match details {
        Some(d) => if crate::json::pretty_text(d).len() == 0 {
            content
        } else {
            content.push('\n') + crate::json::pretty_text(d)
        },
        None => content,
    }
}

/// What an entry of the journal shows in the conversation, if anything.
pub open spec fn entry_note(entry: SessionEntryV) -> Option<ConversationMessageV> {
    match entry.kind {
        EntryKindV::Message { message } => match message {
            SessionMessageV::User { content, timestamp } => if trimmed(user_text(content)).len()
                == 0 {
                None
            } else {
                Some(
                    ConversationMessageV {
                        role: MessageRole::User,
                        content: user_text(content),
                        thinking: None,
                    },
                )
            },
            SessionMessageV::Assistant { message } => if trimmed(answer_text(message.content)).len()
                == 0 && thinking_text(message.content).is_none() {
                None
            } else {
                Some(
                    ConversationMessageV {
                        role: MessageRole::Assistant,
                        content: answer_text(message.content),
                        thinking: thinking_text(message.content),
                    },
                )
            },
            SessionMessageV::ToolResult {
                tool_call_id,
                tool_name,
                content,
                details,
                is_error,
                timestamp,
            } => match tool_output_text(content, details) {
                Some(output) => Some(
                    system_note(
                        (if is_error {
                            "Tool error"@
                        } else {
                            "Tool result"@
                        }) + " ("@ + tool_name + "):\n"@ + output,
                    ),
                ),
                None => None,
            },
            SessionMessageV::BashExecution { command, output, exit_code } => Some(
                system_note(
                    "bash ("@ + (if exit_code == 0 {
                        "ok"@
                    } else {
                        "error"@
                    }) + ") "@ + command + "\n"@ + output,
                ),
            ),
            SessionMessageV::Custom { custom_type, content, display, details, timestamp } => if display {
                Some(system_note(custom_type + ": "@ + custom_text(content, details)))
            } else {
                None
            },
            SessionMessageV::BranchSummary { summary, from_id } => Some(
                system_note("Branch summary from "@ + from_id + ": "@ + summary),
            ),
            SessionMessageV::CompactionSummary { summary, tokens_before } => Some(
                system_note(
                    "Compaction summary ("@ + crate::text::decimal(tokens_before as nat)
                        + " tokens): "@ + summary,
                ),
            ),
        },
        EntryKindV::ModelChange { provider, model_id } => Some(
            system_note("Model set to "@ + provider + "/"@ + model_id),
        ),
        EntryKindV::ThinkingLevelChange { thinking_level } => Some(
            system_note("Thinking level: "@ + thinking_level),
        ),
        _ => None,
    }
}

/// The usage that an entry adds to the total: that of an assistant message.
pub open spec fn entry_usage(entry: SessionEntryV) -> crate::model::Usage {
    match entry.kind {
        EntryKindV::Message { message: SessionMessageV::Assistant { message } } => message.usage,
        _ => crate::model::Usage::zero(),
    }
}

/// What the entries of a journal show in the conversation, in order.
pub open spec fn shown_entries(entries: Seq<SessionEntryV>) -> Seq<ConversationMessageV>
    decreases entries.len(),
{
    if entries.len() == 0 {
        Seq::empty()
    } else {
        match entry_note(entries.last()) {
            Some(note) => shown_entries(entries.drop_last()).push(note),
            None => shown_entries(entries.drop_last()),
        }
    }
}

/// The usage of the assistant messages of a journal, added up.
pub open spec fn usage_of_entries(entries: Seq<SessionEntryV>) -> crate::model::Usage
    decreases entries.len(),
{
    if entries.len() == 0 {
        crate::model::Usage::zero()
    } else {
        usage_of_entries(entries.drop_last()).plus(entry_usage(entries.last()))
    }
}

/// A system message with the given content.
pub fn note(content: String) -> (r: ConversationMessage)
    ensures
        r@ == system_note(content@),
{
    ConversationMessage { role: MessageRole::System, content, thinking: None }
}

/// What an entry of the journal shows in the conversation, if anything.
pub fn show_entry(entry: &SessionEntry) -> (r: Option<ConversationMessage>)
    ensures
        match r {
            Some(m) => entry_note(entry@) == Some(m@),
            None => entry_note(entry@).is_none(),
        },
{
    match &entry.kind {
        EntryKind::Message { message } => match message {
            SessionMessage::User { content, timestamp } => {
                let text = user_content_to_text(content);
                if crate::text::is_blank(text.as_str()) {
                    None
                } else {
                    Some(ConversationMessage { role: MessageRole::User, content: text, thinking: None })
                }
            },
            SessionMessage::Assistant { message } => {
                let (text, thinking) = assistant_content_to_text(message.content.as_slice());
                if crate::text::is_blank(text.as_str()) && thinking.is_none() {
                    None
                } else {
                    Some(ConversationMessage { role: MessageRole::Assistant, content: text, thinking })
                }
            },
            SessionMessage::ToolResult {
                tool_call_id,
                tool_name,
                content,
                details,
                is_error,
                timestamp,
            } => {
                let output = format_tool_output(
                    content.as_slice(),
                    match details {
                        Some(d) => Some(d),
                        None => None,
                    },
                );
                match output {
                    Some(output) => {
                        let label = if *is_error {
                            "Tool error"
                        } else {
                            "Tool result"
                        };
                        Some(
                            note(
                                String::from_str(label).concat(" (").concat(
                                    tool_name.as_str(),
                                ).concat("):\n").concat(output.as_str()),
                            ),
                        )
                    },
                    None => None,
                }
            },
            SessionMessage::BashExecution { command, output, exit_code } => {
                let status = if *exit_code == 0 {
                    "ok"
                } else {
                    "error"
                };
                Some(
                    note(
                        String::from_str("bash (").concat(status).concat(") ").concat(
                            command.as_str(),
                        ).concat("\n").concat(output.as_str()),
                    ),
                )
            },
            SessionMessage::Custom { custom_type, content, display, details, timestamp } => {
                if *display {
                    let mut combined = content.clone();
                    match details {
                        Some(d) => {
                            let details_text = pretty_json(d);
                            if !details_text.as_str().is_empty() {
                                push_char(&mut combined, '\n');
                                combined.append(details_text.as_str());
                            }
                        },
                        None => {},
                    }
                    assert(combined@ =~= custom_text(content@, crate::model::opt_json(*details)));
                    Some(
                        note(
                            custom_type.clone().concat(": ").concat(combined.as_str()),
                        ),
                    )
                } else {
                    None
                }
            },
            SessionMessage::BranchSummary { summary, from_id } => Some(
                note(
                    String::from_str("Branch summary from ").concat(from_id.as_str()).concat(
                        ": ",
                    ).concat(summary.as_str()),
                ),
            ),
            SessionMessage::CompactionSummary { summary, tokens_before } => Some(
                note(
                    String::from_str("Compaction summary (").concat(
                        crate::text::decimal_string(*tokens_before).as_str(),
                    ).concat(" tokens): ").concat(summary.as_str()),
                ),
            ),
        },
        EntryKind::ModelChange { provider, model_id } => Some(
            note(
                String::from_str("Model set to ").concat(provider.as_str()).concat("/").concat(
                    model_id.as_str(),
                ),
            ),
        ),
        EntryKind::ThinkingLevelChange { thinking_level } => Some(
            note(String::from_str("Thinking level: ").concat(thinking_level.as_str())),
        ),
        _ => None,
    }
}

/// The conversation that a session shows when it is opened, and the usage
/// of its assistant messages.
pub fn load_conversation_from_session(session: &Session) -> (r: (
    Vec<ConversationMessage>,
    crate::model::Usage,
))
    ensures
        shown_view(r.0@) == shown_entries(session@.entries),
        r.1 == usage_of_entries(session@.entries),
{
    let mut messages: Vec<ConversationMessage> = Vec::new();
    let mut total_usage = crate::model::Usage::default();
    let ghost all = session@.entries;
    let mut i: usize = 0;
    assert(shown_view(messages@) =~= shown_entries(all.take(0)));
    while i < session.entries.len()
        invariant
            i <= session.entries.len(),
            all == session@.entries,
            shown_view(messages@) == shown_entries(all.take(i as int)),
            total_usage == usage_of_entries(all.take(i as int)),
        decreases session.entries.len() - i,
    {
        proof {
            assert(all.take(i + 1).drop_last() =~= all.take(i as int));
            assert(all.take(i + 1).last() == session.entries@[i as int]@);
        }
        let entry = &session.entries[i];
        match show_entry(entry) {
            Some(m) => {
                messages.push(m);
                assert(shown_view(messages@) =~= shown_entries(all.take(i + 1)));
            },
            None => {},
        }
        match &entry.kind {
            EntryKind::Message { message: SessionMessage::Assistant { message } } => {
                add_usage(&mut total_usage, &message.usage);
            },
            _ => {
                assert(total_usage.plus(crate::model::Usage::zero()) == total_usage);
            },
        }
        i += 1;
    }
    assert(all.take(i as int) =~= all);
    (messages, total_usage)
}

} // verus!
