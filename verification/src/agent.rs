//! The agent turn: from a user's input to the final assistant message,
//! through model calls and tool runs.
//!
//! The agent decides and its caller performs. A turn is a dialogue of steps:
//! the agent says what it needs next (a stream from the provider, the run of
//! a tool), the caller does it and reports what came of it. Every message
//! that a turn appends and every event that it emits is recorded here.

use crate::error::Error;
use crate::json::{Json, JsonV};
use crate::model::{
    blocks_view, clone_messages, clone_opt_text, messages_view, opt_json, opt_text,
    AssistantMessage, AssistantMessageV, ContentBlock, ContentBlockV, Message, MessageV,
    StopReason, StreamEvent, TextContent, TextContentV, ToolCall, ToolCallV, ToolResultMessage,
    ToolResultMessageV, Usage, UserContent, UserContentV, UserMessage, ThinkingLevel,
};
use crate::provider::{
    clone_tool_defs, tool_defs_view, Context, ProviderInfo, ProviderInfoV, StreamOptions, ToolDef,
};
use crate::session::{
    append_each, appended_now, fresh_id_of, EntryKindV, Session, SessionHeaderV, SessionV,
};
use crate::text::decimal_string;
use crate::turn::{limit_message, AgentV, Ending, Phase, StepV};
use vstd::prelude::*;

verus! {

/// Configuration for the agent.
#[derive(Debug, Clone)]
pub struct AgentConfig {
    /// System prompt to use for all requests.
    pub system_prompt: Option<String>,
    /// How many assistant messages one turn may ask for.
    pub max_tool_iterations: usize,
    /// Default stream options.
    pub stream_options: StreamOptions,
}

impl Default for AgentConfig {
    fn default() -> (r: Self)
        ensures
            r.system_prompt is None,
            r.max_tool_iterations == 50,
            r.stream_options.api_key is None,
            r.stream_options.headers@.len() == 0,
            r.stream_options.thinking_level is None,
            r.stream_options.max_tokens is None,
    {
        AgentConfig {
            system_prompt: None,
            max_tool_iterations: 50,
            stream_options: StreamOptions::default(),
        }
    }
}

/// Events emitted by the agent during a turn.
#[derive(Debug, Clone)]
pub enum AgentEvent {
    /// Starting a new request to the model.
    RequestStart,
    /// Streaming text delta from the assistant.
    TextDelta { text: String },
    /// Streaming thinking delta from the assistant.
    ThinkingDelta { text: String },
    /// The model begins to write a tool call.
    ToolCallStart { name: String, id: String },
    /// Tool execution starting.
    ToolExecuteStart { name: String, id: String },
    /// Tool execution completed.
    ToolExecuteEnd { name: String, id: String, is_error: bool },
    /// Tool execution update (streaming output).
    ToolUpdate { name: String, id: String, content: Vec<ContentBlock>, details: Option<Json> },
    /// Assistant message completed.
    AssistantDone { message: AssistantMessage },
    /// Error during execution.
    Error { error: String },
    /// The turn completed.
    Done { final_message: AssistantMessage },
}

/// [`AgentEvent`] as plain data.
pub enum AgentEventV {
    RequestStart,
    TextDelta { text: Seq<char> },
    ThinkingDelta { text: Seq<char> },
    ToolCallStart { name: Seq<char>, id: Seq<char> },
    ToolExecuteStart { name: Seq<char>, id: Seq<char> },
    ToolExecuteEnd { name: Seq<char>, id: Seq<char>, is_error: bool },
    ToolUpdate { name: Seq<char>, id: Seq<char>, content: Seq<ContentBlockV>, details: Option<JsonV> },
    AssistantDone { message: AssistantMessageV },
    Error { error: Seq<char> },
    Done { final_message: AssistantMessageV },
}

impl View for AgentEvent {
    type V = AgentEventV;

    open spec fn view(&self) -> AgentEventV {
        match self {
            AgentEvent::RequestStart => AgentEventV::RequestStart,
            AgentEvent::TextDelta { text } => AgentEventV::TextDelta { text: text@ },
            AgentEvent::ThinkingDelta { text } => AgentEventV::ThinkingDelta { text: text@ },
            AgentEvent::ToolCallStart { name, id } => AgentEventV::ToolCallStart {
                name: name@,
                id: id@,
            },
            AgentEvent::ToolExecuteStart { name, id } => AgentEventV::ToolExecuteStart {
                name: name@,
                id: id@,
            },
            AgentEvent::ToolExecuteEnd { name, id, is_error } => AgentEventV::ToolExecuteEnd {
                name: name@,
                id: id@,
                is_error: *is_error,
            },
            AgentEvent::ToolUpdate { name, id, content, details } => AgentEventV::ToolUpdate {
                name: name@,
                id: id@,
                content: blocks_view(content@),
                details: opt_json(*details),
            },
            AgentEvent::AssistantDone { message } => AgentEventV::AssistantDone {
                message: message@,
            },
            AgentEvent::Error { error } => AgentEventV::Error { error: error@ },
            AgentEvent::Done { final_message } => AgentEventV::Done {
                final_message: final_message@,
            },
        }
    }
}

impl AgentEventV {
    /// Whether the event ends a turn: `Done` and `Error` do.
    pub open spec fn is_terminal(self) -> bool {
        self is Done || self is Error
    }
}

/// The views of a sequence of events.
pub open spec fn events_view(events: Seq<AgentEvent>) -> Seq<AgentEventV> {
    events.map_values(|e: AgentEvent| e@)
}

/// The tool calls among the blocks, in the order of the blocks.
pub open spec fn tool_calls_of(content: Seq<ContentBlockV>) -> Seq<ToolCallV>
    decreases content.len(),
{
    if content.len() == 0 {
        Seq::empty()
    } else {
        match content.last() {
            ContentBlockV::ToolCall(call) => tool_calls_of(content.drop_last()).push(call),
            _ => tool_calls_of(content.drop_last()),
        }
    }
}

/// The ids of the tool calls among the blocks, in the order of the blocks.
pub open spec fn tool_call_ids(content: Seq<ContentBlockV>) -> Seq<Seq<char>> {
    tool_calls_of(content).map_values(|c: ToolCallV| c.id)
}

/// Extract tool calls from content blocks.
pub fn extract_tool_calls(content: &[ContentBlock]) -> (r: Vec<&ToolCall>)
    ensures
        r@.map_values(|c: &ToolCall| c@) == tool_calls_of(blocks_view(content@)),
{
    let mut out: Vec<&ToolCall> = Vec::new();
    let ghost views = blocks_view(content@);
    let mut i: usize = 0;
    assert(out@.map_values(|c: &ToolCall| c@) =~= tool_calls_of(views.take(0)));
    while i < content.len()
        invariant
            i <= content.len(),
            views == blocks_view(content@),
            out@.map_values(|c: &ToolCall| c@) == tool_calls_of(views.take(i as int)),
        decreases content.len() - i,
    {
        proof {
            assert(views.take(i + 1).drop_last() =~= views.take(i as int));
            assert(views.take(i + 1).last() == content@[i as int]@);
        }
        match &content[i] {
            ContentBlock::ToolCall(call) => {
                out.push(call);
                assert(out@.map_values(|c: &ToolCall| c@) =~= tool_calls_of(views.take(i + 1)));
            },
            _ => {},
        }
        i += 1;
    }
    assert(views.take(i as int) =~= views);
    out
}

/// Calls `chrono::Utc::now` and `timestamp_millis`: the time of the call in
/// milliseconds since the Unix epoch. Nothing is known of it beforehand.
#[verifier::external_body]
fn now_millis() -> i64 {
    chrono::Utc::now().timestamp_millis()
}

/// The time of the call in milliseconds since the Unix epoch.
pub fn current_time_millis() -> i64 {
    now_millis()
}

/// The message that ends an aborted request: the snapshot of what the model
/// had written, or an empty message of the provider where there is none,
/// marked as aborted at the given time.
pub open spec fn abort_message(
    partial: Option<AssistantMessageV>,
    provider: ProviderInfoV,
    now: i64,
) -> AssistantMessageV {
    let base = match partial {
        Some(p) => p,
        None => AssistantMessageV {
            content: Seq::empty(),
            api: provider.api,
            provider: provider.name,
            model: provider.model_id,
            usage: Usage::zero(),
            stop_reason: StopReason::Aborted,
            error_message: Some("Aborted"@),
            timestamp: now,
        },
    };
    AssistantMessageV {
        stop_reason: StopReason::Aborted,
        error_message: Some("Aborted"@),
        timestamp: now,
        ..base
    }
}

/// Builds the message that ends an aborted request.
pub fn build_abort_message(partial: Option<AssistantMessage>, provider: &ProviderInfo, now: i64) -> (r:
    AssistantMessage)
    ensures
        r@ == abort_message(
            match partial {
                Some(p) => Some(p@),
                None => None,
            },
            provider@,
            now,
        ),
{
    let mut message = match partial {
        Some(p) => p,
        None => {
            let content: Vec<ContentBlock> = Vec::new();
            assert(blocks_view(content@) =~= Seq::<ContentBlockV>::empty());
            AssistantMessage {
                content,
                api: provider.api.clone(),
                provider: provider.name.clone(),
                model: provider.model_id.clone(),
                usage: Usage::default(),
                stop_reason: StopReason::Aborted,
                error_message: Some(String::from_str("Aborted")),
                timestamp: now,
            }
        },
    };
    message.stop_reason = StopReason::Aborted;
    message.error_message = Some(String::from_str("Aborted"));
    message.timestamp = now;
    message
}

/// What a tool put out.
#[derive(Debug, Clone)]
pub struct ToolOutput {
    pub content: Vec<ContentBlock>,
    pub details: Option<Json>,
}

/// What came of running a tool.
#[derive(Debug, Clone)]
pub enum ToolOutcome {
    /// No tool of that name is registered.
    NotFound,
    /// The tool ran and put this out.
    Output(ToolOutput),
    /// The tool failed with this message.
    Failed(String),
}

/// [`ToolOutcome`] as plain data.
pub enum ToolOutcomeV {
    NotFound,
    Output { content: Seq<ContentBlockV>, details: Option<JsonV> },
    Failed(Seq<char>),
}

impl View for ToolOutcome {
    type V = ToolOutcomeV;

    open spec fn view(&self) -> ToolOutcomeV {
        match self {
            ToolOutcome::NotFound => ToolOutcomeV::NotFound,
            ToolOutcome::Output(o) => ToolOutcomeV::Output {
                content: blocks_view(o.content@),
                details: opt_json(o.details),
            },
            ToolOutcome::Failed(m) => ToolOutcomeV::Failed(m@),
        }
    }
}

/// A single text block.
pub open spec fn one_text(text: Seq<char>) -> Seq<ContentBlockV> {
    seq![ContentBlockV::Text(TextContentV { text, text_signature: None })]
}

/// The message that answers a tool call. A tool that is missing and a tool
/// that failed give an error message that begins with `Error: `; the model
/// sees it and may try again.
pub open spec fn tool_result_of(call: ToolCallV, outcome: ToolOutcomeV, timestamp: i64) -> ToolResultMessageV {
    match outcome {
        ToolOutcomeV::NotFound => ToolResultMessageV {
            tool_call_id: call.id,
            tool_name: call.name,
            content: one_text("Error: Tool '"@ + call.name + "' not found"@),
            details: None,
            is_error: true,
            timestamp,
        },
        ToolOutcomeV::Output { content, details } => ToolResultMessageV {
            tool_call_id: call.id,
            tool_name: call.name,
            content,
            details,
            is_error: false,
            timestamp,
        },
        ToolOutcomeV::Failed(message) => ToolResultMessageV {
            tool_call_id: call.id,
            tool_name: call.name,
            content: one_text("Error: "@ + message),
            details: None,
            is_error: true,
            timestamp,
        },
    }
}

/// A single text block.
pub fn text_block(text: String) -> (r: Vec<ContentBlock>)
    ensures
        blocks_view(r@) == one_text(text@),
{
    let r = vec![ContentBlock::Text(TextContent { text, text_signature: None })];
    assert(blocks_view(r@) =~= one_text(text@));
    r
}

/// Builds the message that answers a tool call.
pub fn tool_result(call: &ToolCall, outcome: ToolOutcome, timestamp: i64) -> (r: ToolResultMessage)
    ensures
        r@ == tool_result_of(call@, outcome@, timestamp),
{
    match outcome {
        ToolOutcome::NotFound => ToolResultMessage {
            tool_call_id: call.id.clone(),
            tool_name: call.name.clone(),
            content: text_block(
                String::from_str("Error: Tool '").concat(call.name.as_str()).concat("' not found"),
            ),
            details: None,
            is_error: true,
            timestamp,
        },
        ToolOutcome::Output(output) => ToolResultMessage {
            tool_call_id: call.id.clone(),
            tool_name: call.name.clone(),
            content: output.content,
            details: output.details,
            is_error: false,
            timestamp,
        },
        ToolOutcome::Failed(message) => ToolResultMessage {
            tool_call_id: call.id.clone(),
            tool_name: call.name.clone(),
            content: text_block(String::from_str("Error: ").concat(message.as_str())),
            details: None,
            is_error: true,
            timestamp,
        },
    }
}

/// The tool calls among the blocks, in the order of the blocks, as values
/// of their own.
pub fn owned_tool_calls(content: &[ContentBlock]) -> (r: Vec<ToolCall>)
    ensures
        calls_view(r@) == tool_calls_of(blocks_view(content@)),
{
    let found = extract_tool_calls(content);
    let mut out: Vec<ToolCall> = Vec::new();
    let mut i: usize = 0;
    while i < found.len()
        invariant
            i <= found.len(),
            out@.len() == i,
            forall|k: int| 0 <= k < i ==> (#[trigger] out@[k])@ == found@[k]@,
        decreases found.len() - i,
    {
        out.push(found[i].clone());
        i += 1;
    }
    assert(calls_view(out@) =~= found@.map_values(|c: &ToolCall| c@));
    out
}

/// The views of a sequence of tool calls.
pub open spec fn calls_view(calls: Seq<ToolCall>) -> Seq<ToolCallV> {
    calls.map_values(|c: ToolCall| c@)
}

/// The view of an optional assistant message.
pub open spec fn opt_message(o: Option<AssistantMessage>) -> Option<AssistantMessageV> {
    match o {
        Some(m) => Some(m@),
        None => None,
    }
}

/// What the caller of the agent is to do next.
#[derive(Debug)]
pub enum Step {
    /// Ask the provider to stream an answer to this context, and report its
    /// events with `on_stream_event`, its end with `on_stream_end`.
    Stream(Context),
    /// Go on with the stream or the tool.
    Continue,
    /// Run this tool call and report with `on_tool_outcome`.
    Execute(ToolCall),
    /// Every tool call is answered: call `advance`.
    Advance,
    /// The turn is over, with this result.
    Finished(Result<AssistantMessage, Error>),
    /// The report does not fit the phase; nothing has changed.
    Refused,
}

impl View for Step {
    type V = StepV;

    open spec fn view(&self) -> StepV {
        match self {
            Step::Stream(c) => StepV::Stream(c@),
            Step::Continue => StepV::Continue,
            Step::Execute(c) => StepV::Execute(c@),
            Step::Advance => StepV::Advance,
            Step::Finished(Ok(m)) => StepV::Finished(Ok(m@)),
            Step::Finished(Err(e)) => StepV::Finished(Err(e@)),
            Step::Refused => StepV::Refused,
        }
    }
}

/// The agent: a provider, tools, a configuration and the conversation, and
/// the record of the turn that is under way.
#[derive(Debug)]
pub struct Agent {
    provider: ProviderInfo,
    tools: Vec<ToolDef>,
    config: AgentConfig,
    messages: Vec<Message>,
    phase: Phase,
    iterations: usize,
    events: Vec<AgentEvent>,
    turn_start: usize,
    last_partial: Option<AssistantMessage>,
    final_message: Option<AssistantMessage>,
    calls: Vec<ToolCall>,
    next_call: usize,
}

impl View for Agent {
    type V = AgentV;

    closed spec fn view(&self) -> AgentV {
        AgentV {
            provider: self.provider@,
            system_prompt: opt_text(self.config.system_prompt),
            tools: tool_defs_view(self.tools@),
            limit: self.config.max_tool_iterations as nat,
            messages: messages_view(self.messages@),
            phase: self.phase,
            iterations: self.iterations as nat,
            events: events_view(self.events@),
            turn_start: self.turn_start as nat,
            last_partial: opt_message(self.last_partial),
            final_message: opt_message(self.final_message),
            calls: calls_view(self.calls@),
            next_call: self.next_call as nat,
        }
    }
}

impl Agent {
    /// Create a new agent with the given provider and tools, and an empty
    /// conversation.
    pub fn new(provider: ProviderInfo, tools: Vec<ToolDef>, config: AgentConfig) -> (r: Self)
        ensures
            r@.wf(),
            r@.provider == provider@,
            r@.tools == tool_defs_view(tools@),
            r@.system_prompt == opt_text(config.system_prompt),
            r@.limit == config.max_tool_iterations,
            r@.messages == Seq::<MessageV>::empty(),
            r@.phase == Phase::Idle,
            r@.events == Seq::<AgentEventV>::empty(),
    {
        let r = Agent {
            provider,
            tools,
            config,
            messages: Vec::new(),
            phase: Phase::Idle,
            iterations: 0,
            events: Vec::new(),
            turn_start: 0,
            last_partial: None,
            final_message: None,
            calls: Vec::new(),
            next_call: 0,
        };
        assert(r@.messages =~= Seq::<MessageV>::empty());
        assert(r@.events =~= Seq::<AgentEventV>::empty());
        r
    }

    /// Get the current message history.
    pub fn messages(&self) -> (r: &[Message])
        ensures
            messages_view(r@) == self@.messages,
    {
        self.messages.as_slice()
    }

    /// The events of the turn, oldest first.
    pub fn events(&self) -> (r: &[AgentEvent])
        ensures
            events_view(r@) == self@.events,
    {
        self.events.as_slice()
    }

    /// Where the turn stands.
    pub fn phase(&self) -> (r: Phase)
        ensures
            r == self@.phase,
    {
        self.phase
    }

    fn forget_turn(&mut self)
        ensures
            final(self).options() == old(self).options(),
            final(self)@ == old(self)@.reset(old(self)@.messages),
            final(self).messages == old(self).messages,
            final(self).config == old(self).config,
    {
        self.phase = Phase::Idle;
        self.iterations = 0;
        self.events = Vec::new();
        self.turn_start = self.messages.len();
        self.last_partial = None;
        self.final_message = None;
        self.calls = Vec::new();
        self.next_call = 0;
        assert(self@.events =~= Seq::<AgentEventV>::empty());
        assert(self@.calls =~= Seq::<ToolCallV>::empty());
    }

    /// Clear the message history. A turn that is under way is given up.
    pub fn clear_messages(&mut self)
        ensures
            final(self).options() == old(self).options(),
            final(self)@ == old(self)@.reset(Seq::empty()),
            final(self)@.wf(),
    {
        self.messages = Vec::new();
        self.forget_turn();
        assert(self@.messages =~= Seq::<MessageV>::empty());
        proof {
            old(self)@.lemma_reset_wf(Seq::empty());
        }
    }

    /// Add a message to the history. A turn that is under way is given up.
    pub fn add_message(&mut self, message: Message)
        ensures
            final(self).options() == old(self).options(),
            final(self)@ == old(self)@.reset(old(self)@.messages.push(message@)),
            final(self)@.wf(),
    {
        self.messages.push(message);
        self.forget_turn();
        assert(self@.messages =~= old(self)@.messages.push(message@));
        proof {
            old(self)@.lemma_reset_wf(old(self)@.messages.push(message@));
        }
    }

    /// Replace the message history. A turn that is under way is given up.
    pub fn replace_messages(&mut self, messages: Vec<Message>)
        ensures
            final(self).options() == old(self).options(),
            final(self)@ == old(self)@.reset(messages_view(messages@)),
            final(self)@.wf(),
    {
        self.messages = messages;
        self.forget_turn();
        proof {
            old(self)@.lemma_reset_wf(messages_view(messages@));
        }
    }

    /// Replace the provider (used for model and provider switching).
    pub fn set_provider(&mut self, provider: ProviderInfo)
        ensures
            final(self).options() == old(self).options(),
            final(self)@ == (AgentV { provider: provider@, ..old(self)@ }),
    {
        self.provider = provider;
    }

    /// The options of the streams that the agent asks for.
    pub closed spec fn options(&self) -> StreamOptions {
        self.config.stream_options
    }

    /// The options of the streams that the agent asks for.
    pub fn stream_options(&self) -> (r: &StreamOptions)
        ensures
            *r == self.options(),
    {
        &self.config.stream_options
    }

    /// Replaces the options of the streams that the agent asks for. Nothing
    /// else changes.
    pub fn set_stream_options(&mut self, options: StreamOptions)
        ensures
            final(self).options() == options,
            final(self)@ == old(self)@,
    {
        self.config.stream_options = options;
    }

    /// Sets the thinking level that the streams are asked for. Nothing
    /// else changes.
    pub fn set_thinking_level(&mut self, level: ThinkingLevel)
        ensures
            final(self).options() == (StreamOptions {
                thinking_level: Some(level),
                ..old(self).options()
            }),
            final(self)@ == old(self)@,
    {
        self.config.stream_options.thinking_level = Some(level);
    }

    /// Switches to a model: the provider is replaced, and the streams are
    /// asked for with the model's key and headers. Nothing else changes.
    pub fn set_model(&mut self, provider: ProviderInfo, api_key: String, headers: Vec<(String, String)>)
        ensures
            final(self).options() == (StreamOptions {
                api_key: Some(api_key),
                headers,
                ..old(self).options()
            }),
            final(self)@ == (AgentV { provider: provider@, ..old(self)@ }),
    {
        self.provider = provider;
        self.config.stream_options.api_key = Some(api_key);
        self.config.stream_options.headers = headers;
    }

    /// Build tool definitions for the API.
    pub fn build_tool_defs(&self) -> (r: Vec<ToolDef>)
        ensures
            tool_defs_view(r@) == self@.tools,
    {
        clone_tool_defs(&self.tools)
    }

    /// Build context for a completion request.
    pub fn build_context(&self) -> (r: Context)
        ensures
            r@ == self@.context(),
    {
        Context {
            system_prompt: clone_opt_text(&self.config.system_prompt),
            messages: clone_messages(&self.messages),
            tools: self.build_tool_defs(),
        }
    }

    fn emit(&mut self, event: AgentEvent)
        ensures
            final(self).options() == old(self).options(),
            final(self)@ == old(self)@.emit(event@),
    {
        self.events.push(event);
        assert(self@.events =~= old(self)@.events.push(event@));
    }

    fn append(&mut self, message: Message)
        ensures
            final(self).options() == old(self).options(),
            final(self)@ == old(self)@.append(message@),
    {
        self.messages.push(message);
        assert(self@.messages =~= old(self)@.messages.push(message@));
    }

    fn finish(&mut self, ending: Ending)
        ensures
            final(self).options() == old(self).options(),
            final(self)@ == old(self)@.finish(ending),
    {
        self.phase = Phase::Finished(ending);
    }

    /// The turn fails: the error is told as the last event, and the turn is
    /// over.
    fn fail(&mut self, error: Error) -> (step: Step)
        ensures
            (final(self)@, step@) == old(self)@.fail(error@),
            final(self).options() == old(self).options(),
    {
        self.emit(AgentEvent::Error { error: error.to_string() });
        self.finish(Ending::Failed);
        Step::Finished(Err(error))
    }

    fn respond(&mut self, message: AssistantMessage) -> (step: Step)
        requires
            old(self)@.wf(),
            old(self)@.phase == Phase::Ready || old(self)@.phase == Phase::Streaming,
        ensures
            final(self).options() == old(self).options(),
            (final(self)@, step@) == old(self)@.respond(message@),
            final(self)@.wf(),
    {
        proof {
            old(self)@.lemma_respond_wf(message@);
        }
        self.append(Message::Assistant(message.clone()));
        self.emit(AgentEvent::AssistantDone { message: message.clone() });
        let calls = owned_tool_calls(message.content.as_slice());
        if calls.len() == 0 || message.stop_reason != StopReason::ToolUse {
            self.emit(AgentEvent::Done { final_message: message.clone() });
            self.finish(Ending::Completed);
            Step::Finished(Ok(message))
        } else {
            self.emit(
                AgentEvent::ToolExecuteStart { name: calls[0].name.clone(), id: calls[0].id.clone() },
            );
            let first = calls[0].clone();
            self.calls = calls;
            self.next_call = 0;
            self.phase = Phase::Tools;
            Step::Execute(first)
        }
    }

    /// The top of the loop: see `AgentV::advance`. `now` is the time, in
    /// milliseconds since the epoch, that an abort message is stamped with.
    pub fn advance(&mut self, aborted: bool, now: i64) -> (step: Step)
        requires
            old(self)@.wf(),
        ensures
            final(self).options() == old(self).options(),
            (final(self)@, step@) == old(self)@.advance(aborted, now),
            final(self)@.wf(),
    {
        proof {
            old(self)@.lemma_advance_wf(aborted, now);
        }
        match self.phase {
            Phase::Ready => {},
            _ => {
                return Step::Refused;
            },
        }
        if self.iterations >= self.config.max_tool_iterations {
            let mut text = String::from_str("Maximum tool iterations (");
            text.append(decimal_string(self.config.max_tool_iterations as u64).as_str());
            text.append(") exceeded");
            assert(text@ =~= limit_message(old(self)@.limit));
            return self.fail(Error::Api(text));
        }
        self.iterations = self.iterations + 1;
        self.last_partial = None;
        self.final_message = None;
        if aborted {
            let message = build_abort_message(None, &self.provider, now);
            return self.respond(message);
        }
        self.emit(AgentEvent::RequestStart);
        self.phase = Phase::Streaming;
        Step::Stream(self.build_context())
    }

    /// Begins a turn with what the user sent, at the given time, and goes to
    /// the top of the loop.
    pub fn begin(&mut self, content: UserContent, now: i64, aborted: bool) -> (step: Step)
        ensures
            final(self).options() == old(self).options(),
            (final(self)@, step@) == old(self)@.begin(content@, now).advance(aborted, now),
            final(self)@.wf(),
    {
        proof {
            old(self)@.lemma_begin_wf(content@, now);
        }
        self.turn_start = self.messages.len();
        self.messages.push(Message::User(UserMessage { content, timestamp: now }));
        self.phase = Phase::Ready;
        self.iterations = 0;
        self.events = Vec::new();
        self.last_partial = None;
        self.final_message = None;
        self.calls = Vec::new();
        self.next_call = 0;
        proof {
            assert(self@.messages =~= old(self)@.begin(content@, now).messages);
            assert(self@.events =~= Seq::<AgentEventV>::empty());
            assert(self@.calls =~= Seq::<ToolCallV>::empty());
            assert(self@ == old(self)@.begin(content@, now));
        }
        self.advance(aborted, now)
    }

    /// Run the agent with a user message: begins a turn at the present
    /// time.
    pub fn run(&mut self, user_input: &str) -> (step: Step)
        ensures
            final(self).options() == old(self).options(),
            final(self)@.wf(),
            exists|now: i64|
                (final(self)@, step@) == (#[trigger] old(self)@.begin(
                    UserContentV::Text(user_input@),
                    now,
                )).advance(false, now),
    {
        self.run_with_abort(user_input, false)
    }

    /// Run the agent with a user message and an abort signal: begins a turn
    /// at the present time.
    pub fn run_with_abort(&mut self, user_input: &str, aborted: bool) -> (step: Step)
        ensures
            final(self).options() == old(self).options(),
            final(self)@.wf(),
            exists|now: i64|
                (final(self)@, step@) == (#[trigger] old(self)@.begin(
                    UserContentV::Text(user_input@),
                    now,
                )).advance(aborted, now),
    {
        let now = now_millis();
        let step = self.begin(UserContent::Text(String::from_str(user_input)), now, aborted);
        assert((self@, step@) == old(self)@.begin(UserContentV::Text(user_input@), now).advance(
            aborted,
            now,
        ));
        step
    }

    /// Run the agent with structured content (text and images).
    pub fn run_with_content(&mut self, content: Vec<ContentBlock>) -> (step: Step)
        ensures
            final(self).options() == old(self).options(),
            final(self)@.wf(),
            exists|now: i64|
                (final(self)@, step@) == (#[trigger] old(self)@.begin(
                    UserContentV::Blocks(blocks_view(content@)),
                    now,
                )).advance(false, now),
    {
        self.run_with_content_with_abort(content, false)
    }

    /// Run the agent with structured content and an abort signal.
    pub fn run_with_content_with_abort(&mut self, content: Vec<ContentBlock>, aborted: bool) -> (step:
        Step)
        ensures
            final(self).options() == old(self).options(),
            final(self)@.wf(),
            exists|now: i64|
                (final(self)@, step@) == (#[trigger] old(self)@.begin(
                    UserContentV::Blocks(blocks_view(content@)),
                    now,
                )).advance(aborted, now),
    {
        let now = now_millis();
        let ghost shown = blocks_view(content@);
        let step = self.begin(UserContent::Blocks(content), now, aborted);
        assert((self@, step@) == old(self)@.begin(UserContentV::Blocks(shown), now).advance(
            aborted,
            now,
        ));
        step
    }

    /// Takes one event of the stream: see `AgentV::stream_event`.
    pub fn on_stream_event(&mut self, event: StreamEvent) -> (step: Step)
        requires
            old(self)@.wf(),
        ensures
            final(self).options() == old(self).options(),
            (final(self)@, step@) == old(self)@.stream_event(event@),
            final(self)@.wf(),
    {
        proof {
            old(self)@.lemma_stream_event_wf(event@);
        }
        match self.phase {
            Phase::Streaming => {},
            _ => {
                return Step::Refused;
            },
        }
        match event {
            StreamEvent::TextDelta { content_index, delta, partial } => {
                self.last_partial = Some(partial);
                self.emit(AgentEvent::TextDelta { text: delta });
            },
            StreamEvent::ThinkingDelta { content_index, delta, partial } => {
                self.last_partial = Some(partial);
                self.emit(AgentEvent::ThinkingDelta { text: delta });
            },
            StreamEvent::ToolCallStart { content_index, partial } => {
                let started: Option<(String, String)> = if partial.content.len() > 0 {
                    match &partial.content[partial.content.len() - 1] {
                        ContentBlock::ToolCall(call) => Some((call.name.clone(), call.id.clone())),
                        _ => None,
                    }
                } else {
                    None
                };
                self.last_partial = Some(partial);
                match started {
                    Some((name, id)) => {
                        self.emit(AgentEvent::ToolCallStart { name, id });
                    },
                    None => {},
                }
            },
            StreamEvent::Start { partial } => {
                self.last_partial = Some(partial);
            },
            StreamEvent::TextStart { content_index, partial } => {
                self.last_partial = Some(partial);
            },
            StreamEvent::TextEnd { content_index, content, partial } => {
                self.last_partial = Some(partial);
            },
            StreamEvent::ThinkingStart { content_index, partial } => {
                self.last_partial = Some(partial);
            },
            StreamEvent::ThinkingEnd { content_index, content, partial } => {
                self.last_partial = Some(partial);
            },
            StreamEvent::ToolCallDelta { content_index, delta, partial } => {
                self.last_partial = Some(partial);
            },
            StreamEvent::ToolCallEnd { content_index, tool_call, partial } => {
                self.last_partial = Some(partial);
            },
            StreamEvent::Done { reason, message } => {
                self.final_message = Some(message);
            },
            StreamEvent::Error { reason, error } => {
                let text = match error.error_message {
                    Some(m) => m,
                    None => String::from_str("Unknown error"),
                };
                self.emit(AgentEvent::Error { error: text.clone() });
                self.finish(Ending::StreamError);
                return Step::Finished(Err(Error::Api(text)));
            },
        }
        Step::Continue
    }

    /// The stream is exhausted: see `AgentV::stream_end`.
    pub fn on_stream_end(&mut self) -> (step: Step)
        requires
            old(self)@.wf(),
        ensures
            final(self).options() == old(self).options(),
            (final(self)@, step@) == old(self)@.stream_end(),
            final(self)@.wf(),
    {
        proof {
            old(self)@.lemma_stream_end_wf();
        }
        match self.phase {
            Phase::Streaming => {},
            _ => {
                return Step::Refused;
            },
        }
        match self.final_message.take() {
            Some(message) => self.respond(message),
            None => self.fail(Error::api("Stream ended without Done event")),
        }
    }

    /// The provider could not stream, or the stream broke: see
    /// `AgentV::stream_failure`.
    pub fn on_stream_failure(&mut self, error: Error) -> (step: Step)
        requires
            old(self)@.wf(),
        ensures
            final(self).options() == old(self).options(),
            (final(self)@, step@) == old(self)@.stream_failure(error@),
            final(self)@.wf(),
    {
        match self.phase {
            Phase::Streaming => {},
            _ => {
                return Step::Refused;
            },
        }
        proof {
            old(self)@.lemma_stream_failure_wf(error@);
        }
        self.fail(error)
    }

    /// The request is aborted while the provider streams: see
    /// `AgentV::stream_abort`.
    pub fn on_abort(&mut self, now: i64) -> (step: Step)
        requires
            old(self)@.wf(),
        ensures
            final(self).options() == old(self).options(),
            (final(self)@, step@) == old(self)@.stream_abort(now),
            final(self)@.wf(),
    {
        proof {
            old(self)@.lemma_stream_abort_wf(now);
        }
        match self.phase {
            Phase::Streaming => {},
            _ => {
                return Step::Refused;
            },
        }
        let message = build_abort_message(self.last_partial.take(), &self.provider, now);
        self.respond(message)
    }

    /// The tool that runs reports output on the way: see
    /// `AgentV::tool_update`.
    pub fn on_tool_update(&mut self, content: Vec<ContentBlock>, details: Option<Json>) -> (step:
        Step)
        requires
            old(self)@.wf(),
        ensures
            final(self).options() == old(self).options(),
            (final(self)@, step@) == old(self)@.tool_update(blocks_view(content@), opt_json(details)),
            final(self)@.wf(),
    {
        proof {
            old(self)@.lemma_tool_update_wf(blocks_view(content@), opt_json(details));
        }
        match self.phase {
            Phase::Tools => {},
            _ => {
                return Step::Refused;
            },
        }
        let name = self.calls[self.next_call].name.clone();
        let id = self.calls[self.next_call].id.clone();
        self.emit(AgentEvent::ToolUpdate { name, id, content, details });
        Step::Continue
    }

    /// The tool call that was being run has come to an end: see
    /// `AgentV::tool_outcome`. `timestamp` is the time at which the run
    /// began.
    pub fn on_tool_outcome(&mut self, outcome: ToolOutcome, timestamp: i64) -> (step: Step)
        requires
            old(self)@.wf(),
        ensures
            final(self).options() == old(self).options(),
            (final(self)@, step@) == old(self)@.tool_outcome(outcome@, timestamp),
            final(self)@.wf(),
    {
        proof {
            old(self)@.lemma_tool_outcome_wf(outcome@, timestamp);
        }
        match self.phase {
            Phase::Tools => {},
            _ => {
                return Step::Refused;
            },
        }
        let result = tool_result(&self.calls[self.next_call], outcome, timestamp);
        let name = self.calls[self.next_call].name.clone();
        let id = self.calls[self.next_call].id.clone();
        self.emit(AgentEvent::ToolExecuteEnd { name, id, is_error: result.is_error });
        self.append(Message::ToolResult(result));
        let count = self.calls.len();
        assert(self@.next_call < self@.calls.len());
        self.next_call = self.next_call + 1;
        if self.next_call < count {
            let next = self.calls[self.next_call].clone();
            self.emit(AgentEvent::ToolExecuteStart { name: next.name.clone(), id: next.id.clone() });
            Step::Execute(next)
        } else {
            self.phase = Phase::Ready;
            Step::Advance
        }
    }
}

/// An agent bound to a session: what a turn adds to the conversation is
/// appended to the journal.
#[derive(Debug)]
pub struct AgentSession {
    pub agent: Agent,
    pub session: Session,
    pub save_enabled: bool,
}

impl AgentSession {
    /// Binds an agent to a session. With `save_enabled` unset, nothing is
    /// ever appended to the journal.
    pub fn new(agent: Agent, session: Session, save_enabled: bool) -> (r: Self)
        ensures
            r.agent == agent,
            r.session == session,
            r.saves() == save_enabled,
    {
        AgentSession { agent, session, save_enabled }
    }

    /// Whether turns are appended to the journal.
    pub open spec fn saves(&self) -> bool {
        self.save_enabled
    }

    /// Whether turns are appended to the journal.
    pub fn save_enabled(&self) -> (r: bool)
        ensures
            r == self.saves(),
    {
        self.save_enabled
    }

    /// Begins a turn with a text. Returns the step to take and the length
    /// of the conversation before the turn.
    pub fn run_text(&mut self, input: &str) -> (r: (Step, usize))
        ensures
            final(self).agent.options() == old(self).agent.options(),
            r.1 == old(self).agent@.messages.len(),
            final(self).agent@.wf(),
            final(self).session == old(self).session,
            final(self).saves() == old(self).saves(),
            exists|now: i64|
                (final(self).agent@, r.0@) == (#[trigger] old(self).agent@.begin(
                    UserContentV::Text(input@),
                    now,
                )).advance(false, now),
    {
        self.run_text_with_abort(input, false)
    }

    /// Begins a turn with a text and an abort signal.
    pub fn run_text_with_abort(&mut self, input: &str, aborted: bool) -> (r: (Step, usize))
        ensures
            final(self).agent.options() == old(self).agent.options(),
            r.1 == old(self).agent@.messages.len(),
            final(self).agent@.wf(),
            final(self).session == old(self).session,
            final(self).saves() == old(self).saves(),
            exists|now: i64|
                (final(self).agent@, r.0@) == (#[trigger] old(self).agent@.begin(
                    UserContentV::Text(input@),
                    now,
                )).advance(aborted, now),
    {
        let start_len = self.agent.messages().len();
        let step = self.agent.run_with_abort(input, aborted);
        (step, start_len)
    }

    /// Begins a turn with structured content.
    pub fn run_with_content(&mut self, content: Vec<ContentBlock>) -> (r: (Step, usize))
        ensures
            final(self).agent.options() == old(self).agent.options(),
            r.1 == old(self).agent@.messages.len(),
            final(self).agent@.wf(),
            final(self).session == old(self).session,
            final(self).saves() == old(self).saves(),
            exists|now: i64|
                (final(self).agent@, r.0@) == (#[trigger] old(self).agent@.begin(
                    UserContentV::Blocks(blocks_view(content@)),
                    now,
                )).advance(false, now),
    {
        self.run_with_content_with_abort(content, false)
    }

    /// Begins a turn with structured content and an abort signal.
    pub fn run_with_content_with_abort(&mut self, content: Vec<ContentBlock>, aborted: bool) -> (r: (
        Step,
        usize,
    ))
        ensures
            final(self).agent.options() == old(self).agent.options(),
            r.1 == old(self).agent@.messages.len(),
            final(self).agent@.wf(),
            final(self).session == old(self).session,
            final(self).saves() == old(self).saves(),
            exists|now: i64|
                (final(self).agent@, r.0@) == (#[trigger] old(self).agent@.begin(
                    UserContentV::Blocks(blocks_view(content@)),
                    now,
                )).advance(aborted, now),
    {
        let start_len = self.agent.messages().len();
        let step = self.agent.run_with_content_with_abort(content, aborted);
        (step, start_len)
    }

    /// Sets the thinking level: the streams are asked for with it, the
    /// header of the session holds it, and the journal gains the one entry
    /// that records the change. Returns the id of that entry.
    pub fn set_thinking_level(&mut self, level: ThinkingLevel) -> (id: String)
        ensures
            final(self).agent.options() == (StreamOptions {
                thinking_level: Some(level),
                ..old(self).agent.options()
            }),
            final(self).agent@ == old(self).agent@,
            appended_now(
                SessionV {
                    header: SessionHeaderV {
                        thinking_level: Some(level.name()),
                        ..old(self).session@.header
                    },
                    ..old(self).session@
                },
                final(self).session@,
                EntryKindV::ThinkingLevelChange { thinking_level: level.name() },
            ),
            id@ == fresh_id_of(old(self).session@.entries),
            old(self).session@.wf() ==> final(self).session@.wf(),
            final(self).session.path == old(self).session.path,
            final(self).saves() == old(self).saves(),
    {
        self.agent.set_thinking_level(level);
        self.session.set_thinking_level(level)
    }

    /// Switches to a model: the agent asks the provider with the model's
    /// key and headers, the header of the session holds the model, and the
    /// journal gains the one entry that records the change. Returns the id
    /// of that entry.
    pub fn set_model(&mut self, provider: ProviderInfo, api_key: String, headers: Vec<(String, String)>) -> (id:
        String)
        ensures
            final(self).agent.options() == (StreamOptions {
                api_key: Some(api_key),
                headers,
                ..old(self).agent.options()
            }),
            final(self).agent@ == (AgentV { provider: provider@, ..old(self).agent@ }),
            appended_now(
                SessionV {
                    header: SessionHeaderV {
                        provider: Some(provider.name@),
                        model_id: Some(provider.model_id@),
                        ..old(self).session@.header
                    },
                    ..old(self).session@
                },
                final(self).session@,
                EntryKindV::ModelChange { provider: provider.name@, model_id: provider.model_id@ },
            ),
            id@ == fresh_id_of(old(self).session@.entries),
            old(self).session@.wf() ==> final(self).session@.wf(),
            final(self).session.path == old(self).session.path,
            final(self).saves() == old(self).saves(),
    {
        let id = self.session.set_model(provider.name.as_str(), provider.model_id.as_str());
        self.agent.set_model(provider, api_key, headers);
        id
    }

    /// Appends to the journal the messages that the conversation has gained
    /// since it had `start_len` messages, in order. Returns whether the
    /// session is to be saved and indexed: that is, whether saving is
    /// enabled. With saving disabled nothing is appended, whatever
    /// `start_len` is.
    pub fn persist_new_messages(&mut self, start_len: usize) -> (save: bool)
        requires
            old(self).saves() ==> start_len <= old(self).agent@.messages.len(),
        ensures
            save == old(self).saves(),
            final(self).saves() == old(self).saves(),
            final(self).agent == old(self).agent,
            final(self).session.path == old(self).session.path,
            !save ==> final(self).session == old(self).session,
            save ==> exists|stamps: Seq<Seq<char>>|
                stamps.len() == old(self).agent@.messages.len() - start_len
                    && final(self).session@ == #[trigger] append_each(
                    old(self).session@,
                    old(self).agent@.messages.skip(start_len as int),
                    stamps,
                ),
            old(self).session@.wf() ==> final(self).session@.wf(),
    {
        if !self.save_enabled {
            return false;
        }
        let all = self.agent.messages();
        let mut gained: Vec<Message> = Vec::new();
        let mut i: usize = start_len;
        while i < all.len()
            invariant
                start_len <= i <= all@.len(),
                gained@.len() == i - start_len,
                forall|k: int| 0 <= k < gained@.len() ==> (#[trigger] gained@[k])@ == all@[start_len + k]@,
            decreases all.len() - i,
        {
            gained.push(all[i].clone());
            i += 1;
        }
        assert(messages_view(gained@) =~= messages_view(all@).skip(start_len as int));
        self.session.append_model_messages(gained);
        true
    }
}

} // verus!
