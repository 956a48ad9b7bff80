//! Messages, content blocks and stream events: the wire model that the agent,
//! the providers and the session journal share.

use crate::json::{Json, JsonV};
use crate::text::{lowercased, str_eq, to_lowercase};
use vstd::prelude::*;

verus! {

/// The view of an optional string.
pub open spec fn opt_text(o: Option<String>) -> Option<Seq<char>> {
    match o {
        Some(s) => Some(s@),
        None => None,
    }
}

/// The view of an optional JSON document.
pub open spec fn opt_json(o: Option<Json>) -> Option<JsonV> {
    match o {
        Some(j) => Some(j@),
        None => None,
    }
}

/// A copy of an optional string.
pub fn clone_opt_text(o: &Option<String>) -> (r: Option<String>)
    ensures
        opt_text(r) == opt_text(*o),
{
    match o {
        Some(s) => Some(s.clone()),
        None => None,
    }
}

/// A copy of an optional JSON document.
pub fn clone_opt_json(o: &Option<Json>) -> (r: Option<Json>)
    ensures
        opt_json(r) == opt_json(*o),
{
    match o {
        Some(j) => Some(j.clone()),
        None => None,
    }
}

/// Why a response ended. Every reason but `ToolUse` ends the turn.
#[derive(Debug, Clone, Copy, PartialEq, Eq, Structural)]
pub enum StopReason {
    /// The provider signalled a normal stop.
    Stop,
    /// The provider hit a token limit.
    Length,
    /// The provider asks for tools to be run.
    ToolUse,
    /// The stream ended in an error.
    Error,
    /// The request was aborted locally.
    Aborted,
}

impl Default for StopReason {
    fn default() -> (r: Self)
        ensures
            r == StopReason::Stop,
    {
        StopReason::Stop
    }
}

impl StopReason {
    /// Whether a response that ended for this reason ends the turn.
    pub fn is_terminal(self) -> (r: bool)
        ensures
            r == (self != StopReason::ToolUse),
    {
        match self {
            StopReason::ToolUse => false,
            _ => true,
        }
    }
}

/// Token counters of one response, or their sum over several.
#[derive(Debug, Clone, Copy, PartialEq, Eq, Structural)]
pub struct Usage {
    pub input: u64,
    pub output: u64,
    pub cache_read: u64,
    pub cache_write: u64,
    pub total_tokens: u64,
}

impl Default for Usage {
    fn default() -> (r: Self)
        ensures
            r == Usage::zero(),
    {
        Usage { input: 0, output: 0, cache_read: 0, cache_write: 0, total_tokens: 0 }
    }
}

impl Usage {
    /// The usage with every counter at zero.
    pub open spec fn zero() -> Usage {
        Usage { input: 0, output: 0, cache_read: 0, cache_write: 0, total_tokens: 0 }
    }

    /// Counter by counter, the sum of two usages, held at `u64::MAX` where it
    /// would pass it.
    pub open spec fn plus(self, other: Usage) -> Usage {
        Usage {
            input: saturating_sum(self.input, other.input),
            output: saturating_sum(self.output, other.output),
            cache_read: saturating_sum(self.cache_read, other.cache_read),
            cache_write: saturating_sum(self.cache_write, other.cache_write),
            total_tokens: saturating_sum(self.total_tokens, other.total_tokens),
        }
    }

    /// Adds the counters of `other` to these.
    pub fn add(&mut self, other: &Usage)
        ensures
            *final(self) == old(self).plus(*other),
    {
        self.input = saturating_add(self.input, other.input);
        self.output = saturating_add(self.output, other.output);
        self.cache_read = saturating_add(self.cache_read, other.cache_read);
        self.cache_write = saturating_add(self.cache_write, other.cache_write);
        self.total_tokens = saturating_add(self.total_tokens, other.total_tokens);
    }
}

/// `a + b`, held at `u64::MAX`.
pub open spec fn saturating_sum(a: u64, b: u64) -> u64 {
    if a + b > u64::MAX {
        u64::MAX
    } else {
        (a + b) as u64
    }
}

/// `a + b`, held at `u64::MAX`.
pub fn saturating_add(a: u64, b: u64) -> (r: u64)
    ensures
        r == saturating_sum(a, b),
{
    if a > u64::MAX - b {
        u64::MAX
    } else {
        a + b
    }
}

/// A block of plain text.
#[derive(Debug)]
pub struct TextContent {
    pub text: String,
    pub text_signature: Option<String>,
}

/// [`TextContent`] as plain data.
pub struct TextContentV {
    pub text: Seq<char>,
    pub text_signature: Option<Seq<char>>,
}

impl View for TextContent {
    type V = TextContentV;

    open spec fn view(&self) -> TextContentV {
        TextContentV { text: self.text@, text_signature: opt_text(self.text_signature) }
    }
}

impl Clone for TextContent {
    fn clone(&self) -> (r: Self)
        ensures
            r@ == self@,
    {
        TextContent {
            text: self.text.clone(),
            text_signature: clone_opt_text(&self.text_signature),
        }
    }
}

impl TextContent {
    /// A text block without a signature.
    pub fn new(text: &str) -> (r: Self)
        ensures
            r@ == (TextContentV { text: text@, text_signature: None }),
    {
        TextContent { text: String::from_str(text), text_signature: None }
    }
}

/// A block of the model's reasoning.
#[derive(Debug)]
pub struct ThinkingContent {
    pub thinking: String,
    pub thinking_signature: Option<String>,
}

/// [`ThinkingContent`] as plain data.
pub struct ThinkingContentV {
    pub thinking: Seq<char>,
    pub thinking_signature: Option<Seq<char>>,
}

impl View for ThinkingContent {
    type V = ThinkingContentV;

    open spec fn view(&self) -> ThinkingContentV {
        ThinkingContentV {
            thinking: self.thinking@,
            thinking_signature: opt_text(self.thinking_signature),
        }
    }
}

impl Clone for ThinkingContent {
    fn clone(&self) -> (r: Self)
        ensures
            r@ == self@,
    {
        ThinkingContent {
            thinking: self.thinking.clone(),
            thinking_signature: clone_opt_text(&self.thinking_signature),
        }
    }
}

/// An inline image: base64 data and its MIME type.
#[derive(Debug)]
pub struct ImageContent {
    pub data: String,
    pub mime_type: String,
}

/// [`ImageContent`] as plain data.
pub struct ImageContentV {
    pub data: Seq<char>,
    pub mime_type: Seq<char>,
}

impl View for ImageContent {
    type V = ImageContentV;

    open spec fn view(&self) -> ImageContentV {
        ImageContentV { data: self.data@, mime_type: self.mime_type@ }
    }
}

impl Clone for ImageContent {
    fn clone(&self) -> (r: Self)
        ensures
            r@ == self@,
    {
        ImageContent { data: self.data.clone(), mime_type: self.mime_type.clone() }
    }
}

/// A request of the model to run a tool with JSON arguments.
#[derive(Debug)]
pub struct ToolCall {
    pub id: String,
    pub name: String,
    pub arguments: Json,
    pub thought_signature: Option<String>,
}

/// [`ToolCall`] as plain data.
pub struct ToolCallV {
    pub id: Seq<char>,
    pub name: Seq<char>,
    pub arguments: JsonV,
    pub thought_signature: Option<Seq<char>>,
}

impl View for ToolCall {
    type V = ToolCallV;

    open spec fn view(&self) -> ToolCallV {
        ToolCallV {
            id: self.id@,
            name: self.name@,
            arguments: self.arguments@,
            thought_signature: opt_text(self.thought_signature),
        }
    }
}

impl Clone for ToolCall {
    fn clone(&self) -> (r: Self)
        ensures
            r@ == self@,
    {
        ToolCall {
            id: self.id.clone(),
            name: self.name.clone(),
            arguments: self.arguments.clone(),
            thought_signature: clone_opt_text(&self.thought_signature),
        }
    }
}

/// One block of a message's content.
#[derive(Debug)]
pub enum ContentBlock {
    Text(TextContent),
    Thinking(ThinkingContent),
    Image(ImageContent),
    ToolCall(ToolCall),
}

/// [`ContentBlock`] as plain data.
pub enum ContentBlockV {
    Text(TextContentV),
    Thinking(ThinkingContentV),
    Image(ImageContentV),
    ToolCall(ToolCallV),
}

impl View for ContentBlock {
    type V = ContentBlockV;

    open spec fn view(&self) -> ContentBlockV {
        match self {
            ContentBlock::Text(t) => ContentBlockV::Text(t@),
            ContentBlock::Thinking(t) => ContentBlockV::Thinking(t@),
            ContentBlock::Image(i) => ContentBlockV::Image(i@),
            ContentBlock::ToolCall(c) => ContentBlockV::ToolCall(c@),
        }
    }
}

impl Clone for ContentBlock {
    fn clone(&self) -> (r: Self)
        ensures
            r@ == self@,
    {
        match self {
            ContentBlock::Text(t) => ContentBlock::Text(t.clone()),
            ContentBlock::Thinking(t) => ContentBlock::Thinking(t.clone()),
            ContentBlock::Image(i) => ContentBlock::Image(i.clone()),
            ContentBlock::ToolCall(c) => ContentBlock::ToolCall(c.clone()),
        }
    }
}

/// The views of a sequence of blocks.
pub open spec fn blocks_view(blocks: Seq<ContentBlock>) -> Seq<ContentBlockV> {
    blocks.map_values(|b: ContentBlock| b@)
}

/// A copy of a list of blocks.
pub fn clone_blocks(blocks: &Vec<ContentBlock>) -> (r: Vec<ContentBlock>)
    ensures
        blocks_view(r@) == blocks_view(blocks@),
{
    let mut out: Vec<ContentBlock> = Vec::new();
    let mut i: usize = 0;
    while i < blocks.len()
        invariant
            i <= blocks.len(),
            out@.len() == i,
            forall|k: int| 0 <= k < i ==> (#[trigger] out@[k])@ == blocks@[k]@,
        decreases blocks.len() - i,
    {
        out.push(blocks[i].clone());
        i += 1;
    }
    assert(blocks_view(out@) =~= blocks_view(blocks@));
    out
}

/// What a user sent: plain text, or blocks (text and images).
#[derive(Debug)]
pub enum UserContent {
    Text(String),
    Blocks(Vec<ContentBlock>),
}

/// [`UserContent`] as plain data.
pub enum UserContentV {
    Text(Seq<char>),
    Blocks(Seq<ContentBlockV>),
}

impl View for UserContent {
    type V = UserContentV;

    open spec fn view(&self) -> UserContentV {
        match self {
            UserContent::Text(s) => UserContentV::Text(s@),
            UserContent::Blocks(b) => UserContentV::Blocks(blocks_view(b@)),
        }
    }
}

impl Clone for UserContent {
    fn clone(&self) -> (r: Self)
        ensures
            r@ == self@,
    {
        match self {
            UserContent::Text(s) => UserContent::Text(s.clone()),
            UserContent::Blocks(b) => UserContent::Blocks(clone_blocks(b)),
        }
    }
}

/// A message written by the user.
#[derive(Debug)]
pub struct UserMessage {
    pub content: UserContent,
    pub timestamp: i64,
}

/// [`UserMessage`] as plain data.
pub struct UserMessageV {
    pub content: UserContentV,
    pub timestamp: i64,
}

impl View for UserMessage {
    type V = UserMessageV;

    open spec fn view(&self) -> UserMessageV {
        UserMessageV { content: self.content@, timestamp: self.timestamp }
    }
}

impl Clone for UserMessage {
    fn clone(&self) -> (r: Self)
        ensures
            r@ == self@,
    {
        UserMessage { content: self.content.clone(), timestamp: self.timestamp }
    }
}

/// A message written by the model.
#[derive(Debug)]
pub struct AssistantMessage {
    pub content: Vec<ContentBlock>,
    pub api: String,
    pub provider: String,
    pub model: String,
    pub usage: Usage,
    pub stop_reason: StopReason,
    pub error_message: Option<String>,
    pub timestamp: i64,
}

/// [`AssistantMessage`] as plain data.
pub struct AssistantMessageV {
    pub content: Seq<ContentBlockV>,
    pub api: Seq<char>,
    pub provider: Seq<char>,
    pub model: Seq<char>,
    pub usage: Usage,
    pub stop_reason: StopReason,
    pub error_message: Option<Seq<char>>,
    pub timestamp: i64,
}

impl View for AssistantMessage {
    type V = AssistantMessageV;

    open spec fn view(&self) -> AssistantMessageV {
        AssistantMessageV {
            content: blocks_view(self.content@),
            api: self.api@,
            provider: self.provider@,
            model: self.model@,
            usage: self.usage,
            stop_reason: self.stop_reason,
            error_message: opt_text(self.error_message),
            timestamp: self.timestamp,
        }
    }
}

impl Clone for AssistantMessage {
    fn clone(&self) -> (r: Self)
        ensures
            r@ == self@,
    {
        AssistantMessage {
            content: clone_blocks(&self.content),
            api: self.api.clone(),
            provider: self.provider.clone(),
            model: self.model.clone(),
            usage: self.usage,
            stop_reason: self.stop_reason,
            error_message: clone_opt_text(&self.error_message),
            timestamp: self.timestamp,
        }
    }
}

/// What the host answers to one tool call.
#[derive(Debug)]
pub struct ToolResultMessage {
    pub tool_call_id: String,
    pub tool_name: String,
    pub content: Vec<ContentBlock>,
    pub details: Option<Json>,
    pub is_error: bool,
    pub timestamp: i64,
}

/// [`ToolResultMessage`] as plain data.
pub struct ToolResultMessageV {
    pub tool_call_id: Seq<char>,
    pub tool_name: Seq<char>,
    pub content: Seq<ContentBlockV>,
    pub details: Option<JsonV>,
    pub is_error: bool,
    pub timestamp: i64,
}

impl View for ToolResultMessage {
    type V = ToolResultMessageV;

    open spec fn view(&self) -> ToolResultMessageV {
        ToolResultMessageV {
            tool_call_id: self.tool_call_id@,
            tool_name: self.tool_name@,
            content: blocks_view(self.content@),
            details: opt_json(self.details),
            is_error: self.is_error,
            timestamp: self.timestamp,
        }
    }
}

impl Clone for ToolResultMessage {
    fn clone(&self) -> (r: Self)
        ensures
            r@ == self@,
    {
        ToolResultMessage {
            tool_call_id: self.tool_call_id.clone(),
            tool_name: self.tool_name.clone(),
            content: clone_blocks(&self.content),
            details: clone_opt_json(&self.details),
            is_error: self.is_error,
            timestamp: self.timestamp,
        }
    }
}

/// A message that the host or an extension put into the conversation.
#[derive(Debug)]
pub struct CustomMessage {
    pub content: String,
    pub custom_type: String,
    pub display: bool,
    pub details: Option<Json>,
    pub timestamp: i64,
}

/// [`CustomMessage`] as plain data.
pub struct CustomMessageV {
    pub content: Seq<char>,
    pub custom_type: Seq<char>,
    pub display: bool,
    pub details: Option<JsonV>,
    pub timestamp: i64,
}

impl View for CustomMessage {
    type V = CustomMessageV;

    open spec fn view(&self) -> CustomMessageV {
        CustomMessageV {
            content: self.content@,
            custom_type: self.custom_type@,
            display: self.display,
            details: opt_json(self.details),
            timestamp: self.timestamp,
        }
    }
}

impl Clone for CustomMessage {
    fn clone(&self) -> (r: Self)
        ensures
            r@ == self@,
    {
        CustomMessage {
            content: self.content.clone(),
            custom_type: self.custom_type.clone(),
            display: self.display,
            details: clone_opt_json(&self.details),
            timestamp: self.timestamp,
        }
    }
}

/// One message of a conversation.
#[derive(Debug)]
pub enum Message {
    User(UserMessage),
    Assistant(AssistantMessage),
    ToolResult(ToolResultMessage),
    Custom(CustomMessage),
}

/// [`Message`] as plain data.
pub enum MessageV {
    User(UserMessageV),
    Assistant(AssistantMessageV),
    ToolResult(ToolResultMessageV),
    Custom(CustomMessageV),
}

impl View for Message {
    type V = MessageV;

    open spec fn view(&self) -> MessageV {
        match self {
            Message::User(m) => MessageV::User(m@),
            Message::Assistant(m) => MessageV::Assistant(m@),
            Message::ToolResult(m) => MessageV::ToolResult(m@),
            Message::Custom(m) => MessageV::Custom(m@),
        }
    }
}

impl Clone for Message {
    fn clone(&self) -> (r: Self)
        ensures
            r@ == self@,
    {
        match self {
            Message::User(m) => Message::User(m.clone()),
            Message::Assistant(m) => Message::Assistant(m.clone()),
            Message::ToolResult(m) => Message::ToolResult(m.clone()),
            Message::Custom(m) => Message::Custom(m.clone()),
        }
    }
}

/// The views of a sequence of messages.
pub open spec fn messages_view(messages: Seq<Message>) -> Seq<MessageV> {
    messages.map_values(|m: Message| m@)
}

/// A copy of a list of messages.
pub fn clone_messages(messages: &Vec<Message>) -> (r: Vec<Message>)
    ensures
        messages_view(r@) == messages_view(messages@),
{
    let mut out: Vec<Message> = Vec::new();
    let mut i: usize = 0;
    while i < messages.len()
        invariant
            i <= messages.len(),
            out@.len() == i,
            forall|k: int| 0 <= k < i ==> (#[trigger] out@[k])@ == messages@[k]@,
        decreases messages.len() - i,
    {
        out.push(messages[i].clone());
        i += 1;
    }
    assert(messages_view(out@) =~= messages_view(messages@));
    out
}

/// How much the model may reason before it answers.
#[derive(Debug, Clone, Copy, PartialEq, Eq, Structural)]
pub enum ThinkingLevel {
    Off,
    Minimal,
    Low,
    Medium,
    High,
    XHigh,
}

impl Default for ThinkingLevel {
    fn default() -> (r: Self)
        ensures
            r == ThinkingLevel::Off,
    {
        ThinkingLevel::Off
    }
}

impl ThinkingLevel {
    /// The token budget of this level; `XHigh` stands for the model's maximum.
    pub open spec fn budget(self) -> u32 {
        match self {
            ThinkingLevel::Off => 0,
            ThinkingLevel::Minimal => 1024,
            ThinkingLevel::Low => 2048,
            ThinkingLevel::Medium => 8192,
            ThinkingLevel::High => 16384,
            ThinkingLevel::XHigh => u32::MAX,
        }
    }

    /// The token budget of this level.
    pub fn default_budget(self) -> (r: u32)
        ensures
            r == self.budget(),
    {
        match self {
            ThinkingLevel::Off => 0,
            ThinkingLevel::Minimal => 1024,
            ThinkingLevel::Low => 2048,
            ThinkingLevel::Medium => 8192,
            ThinkingLevel::High => 16384,
            ThinkingLevel::XHigh => u32::MAX,
        }
    }

    /// The lower-case name of this level.
    pub open spec fn name(self) -> Seq<char> {
        match self {
            ThinkingLevel::Off => "off"@,
            ThinkingLevel::Minimal => "minimal"@,
            ThinkingLevel::Low => "low"@,
            ThinkingLevel::Medium => "medium"@,
            ThinkingLevel::High => "high"@,
            ThinkingLevel::XHigh => "xhigh"@,
        }
    }

    /// The lower-case name of this level.
    pub fn as_str(self) -> (r: &'static str)
        ensures
            r@ == self.name(),
    {
        match self {
            ThinkingLevel::Off => "off",
            ThinkingLevel::Minimal => "minimal",
            ThinkingLevel::Low => "low",
            ThinkingLevel::Medium => "medium",
            ThinkingLevel::High => "high",
            ThinkingLevel::XHigh => "xhigh",
        }
    }

    /// The level whose name is the given text, which is already lower-case.
    pub open spec fn named(lower: Seq<char>) -> Option<ThinkingLevel> {
        if lower == "off"@ {
            Some(ThinkingLevel::Off)
        } else if lower == "minimal"@ {
            Some(ThinkingLevel::Minimal)
        } else if lower == "low"@ {
            Some(ThinkingLevel::Low)
        } else if lower == "medium"@ {
            Some(ThinkingLevel::Medium)
        } else if lower == "high"@ {
            Some(ThinkingLevel::High)
        } else if lower == "xhigh"@ {
            Some(ThinkingLevel::XHigh)
        } else {
            None
        }
    }

    /// The level that a lower-case name stands for.
    pub fn from_lower(lower: &str) -> (r: Option<ThinkingLevel>)
        ensures
            r == ThinkingLevel::named(lower@),
    {
        if str_eq(lower, "off") {
            Some(ThinkingLevel::Off)
        } else if str_eq(lower, "minimal") {
            Some(ThinkingLevel::Minimal)
        } else if str_eq(lower, "low") {
            Some(ThinkingLevel::Low)
        } else if str_eq(lower, "medium") {
            Some(ThinkingLevel::Medium)
        } else if str_eq(lower, "high") {
            Some(ThinkingLevel::High)
        } else if str_eq(lower, "xhigh") {
            Some(ThinkingLevel::XHigh)
        } else {
            None
        }
    }

    /// The message of the error for a text that names no level.
    pub open spec fn invalid_message(s: Seq<char>) -> Seq<char> {
        "Invalid thinking level: "@ + s
    }

    /// Reads a level from its name, in any letter case. A text that names
    /// none gives `Err` with a message that quotes it.
    pub fn from_str(s: &str) -> (r: Result<ThinkingLevel, String>)
        ensures
            match ThinkingLevel::named(lowercased(s@)) {
                Some(level) => r == Ok::<ThinkingLevel, String>(level),
                None => r is Err && r->Err_0@ == ThinkingLevel::invalid_message(s@),
            },
    {
        let lower = to_lowercase(s);
        match ThinkingLevel::from_lower(lower.as_str()) {
            Some(level) => Ok(level),
            None => Err(String::from_str("Invalid thinking level: ").concat(s)),
        }
    }
}

/// One event of a provider's stream. Every event but `Done` and `Error`
/// carries `partial`, the message as far as it has been put together.
#[derive(Debug, Clone)]
pub enum StreamEvent {
    Start { partial: AssistantMessage },
    TextStart { content_index: usize, partial: AssistantMessage },
    TextDelta { content_index: usize, delta: String, partial: AssistantMessage },
    TextEnd { content_index: usize, content: String, partial: AssistantMessage },
    ThinkingStart { content_index: usize, partial: AssistantMessage },
    ThinkingDelta { content_index: usize, delta: String, partial: AssistantMessage },
    ThinkingEnd { content_index: usize, content: String, partial: AssistantMessage },
    ToolCallStart { content_index: usize, partial: AssistantMessage },
    ToolCallDelta { content_index: usize, delta: String, partial: AssistantMessage },
    ToolCallEnd { content_index: usize, tool_call: ToolCall, partial: AssistantMessage },
    Done { reason: StopReason, message: AssistantMessage },
    Error { reason: StopReason, error: AssistantMessage },
}

/// [`StreamEvent`] as plain data.
pub enum StreamEventV {
    Start { partial: AssistantMessageV },
    TextStart { content_index: usize, partial: AssistantMessageV },
    TextDelta { content_index: usize, delta: Seq<char>, partial: AssistantMessageV },
    TextEnd { content_index: usize, content: Seq<char>, partial: AssistantMessageV },
    ThinkingStart { content_index: usize, partial: AssistantMessageV },
    ThinkingDelta { content_index: usize, delta: Seq<char>, partial: AssistantMessageV },
    ThinkingEnd { content_index: usize, content: Seq<char>, partial: AssistantMessageV },
    ToolCallStart { content_index: usize, partial: AssistantMessageV },
    ToolCallDelta { content_index: usize, delta: Seq<char>, partial: AssistantMessageV },
    ToolCallEnd { content_index: usize, tool_call: ToolCallV, partial: AssistantMessageV },
    Done { reason: StopReason, message: AssistantMessageV },
    Error { reason: StopReason, error: AssistantMessageV },
}

impl View for StreamEvent {
    type V = StreamEventV;

    open spec fn view(&self) -> StreamEventV {
        match self {
            StreamEvent::Start { partial } => StreamEventV::Start { partial: partial@ },
            StreamEvent::TextStart { content_index, partial } => StreamEventV::TextStart { content_index: *content_index, partial: partial@ },
            StreamEvent::TextDelta { content_index, delta, partial } => StreamEventV::TextDelta { content_index: *content_index, delta: delta@, partial: partial@ },
            StreamEvent::TextEnd { content_index, content, partial } => StreamEventV::TextEnd { content_index: *content_index, content: content@, partial: partial@ },
            StreamEvent::ThinkingStart { content_index, partial } => StreamEventV::ThinkingStart { content_index: *content_index, partial: partial@ },
            StreamEvent::ThinkingDelta { content_index, delta, partial } => StreamEventV::ThinkingDelta { content_index: *content_index, delta: delta@, partial: partial@ },
            StreamEvent::ThinkingEnd { content_index, content, partial } => StreamEventV::ThinkingEnd { content_index: *content_index, content: content@, partial: partial@ },
            StreamEvent::ToolCallStart { content_index, partial } => StreamEventV::ToolCallStart { content_index: *content_index, partial: partial@ },
            StreamEvent::ToolCallDelta { content_index, delta, partial } => StreamEventV::ToolCallDelta { content_index: *content_index, delta: delta@, partial: partial@ },
            StreamEvent::ToolCallEnd { content_index, tool_call, partial } => StreamEventV::ToolCallEnd { content_index: *content_index, tool_call: tool_call@, partial: partial@ },
            StreamEvent::Done { reason, message } => StreamEventV::Done {
                reason: *reason,
                message: message@,
            },
            StreamEvent::Error { reason, error } => StreamEventV::Error {
                reason: *reason,
                error: error@,
            },
        }
    }
}

impl StreamEventV {
    /// The snapshot that the event carries, if it carries one.
    pub open spec fn partial(self) -> Option<AssistantMessageV> {
        match self {
            StreamEventV::Start { partial, .. } => Some(partial),
            StreamEventV::TextStart { partial, .. } => Some(partial),
            StreamEventV::TextDelta { partial, .. } => Some(partial),
            StreamEventV::TextEnd { partial, .. } => Some(partial),
            StreamEventV::ThinkingStart { partial, .. } => Some(partial),
            StreamEventV::ThinkingDelta { partial, .. } => Some(partial),
            StreamEventV::ThinkingEnd { partial, .. } => Some(partial),
            StreamEventV::ToolCallStart { partial, .. } => Some(partial),
            StreamEventV::ToolCallDelta { partial, .. } => Some(partial),
            StreamEventV::ToolCallEnd { partial, .. } => Some(partial),
            StreamEventV::Done { .. } => None,
            StreamEventV::Error { .. } => None,
        }
    }
}

} // verus!
