//! The state of the interactive front end, and how the messages of the
//! agent and the commands of the user move it. Nothing here draws or
//! waits: what has to happen outside is handed back as an action.

use crate::agent::{AgentEvent, AgentEventV};
use crate::interactive::{
    content_blocks_to_text, format_tool_output, model_selection, parse_model_selector,
    parse_thinking_level, shown_view, system_note, thinking_level_named, tool_output_text,
    truncate, truncated, AgentState, ConversationMessage, ConversationMessageV, InputMode,
    MessageRole, PendingInput, SlashCommand, HELP_TEXT,
};
use crate::text::{lowercased, trimmed};
use std::collections::VecDeque;
use crate::json::{Json, JsonV};
use crate::model::{
    blocks_view, opt_json, opt_text, ContentBlock, ContentBlockV, StopReason, ThinkingLevel,
    Usage,
};
use crate::text::{decimal, decimal_string, push_char, str_eq};
use vstd::prelude::*;

verus! {

/// What the agent's run tells the front end.
#[derive(Debug, Clone)]
pub enum PiMsg {
    /// Agent started processing.
    AgentStart,
    /// Process the next queued input.
    RunPending,
    /// Text delta from assistant.
    TextDelta(String),
    /// Thinking delta from assistant.
    ThinkingDelta(String),
    /// Tool execution started.
    ToolStart { name: String, tool_id: String },
    /// Tool execution update (streaming output).
    ToolUpdate { name: String, tool_id: String, content: Vec<ContentBlock>, details: Option<Json> },
    /// Tool execution ended.
    ToolEnd { name: String, tool_id: String, is_error: bool },
    /// Agent finished with final message.
    AgentDone { usage: Option<Usage>, stop_reason: StopReason },
    /// Agent error.
    AgentError(String),
    /// Non-error system message.
    System(String),
}

/// [`PiMsg`] as plain data.
pub enum PiMsgV {
    AgentStart,
    RunPending,
    TextDelta(Seq<char>),
    ThinkingDelta(Seq<char>),
    ToolStart { name: Seq<char>, tool_id: Seq<char> },
    ToolUpdate {
        name: Seq<char>,
        tool_id: Seq<char>,
        content: Seq<ContentBlockV>,
        details: Option<JsonV>,
    },
    ToolEnd { name: Seq<char>, tool_id: Seq<char>, is_error: bool },
    AgentDone { usage: Option<Usage>, stop_reason: StopReason },
    AgentError(Seq<char>),
    System(Seq<char>),
}

impl View for PiMsg {
    type V = PiMsgV;

    open spec fn view(&self) -> PiMsgV {
        match self {
            PiMsg::AgentStart => PiMsgV::AgentStart,
            PiMsg::RunPending => PiMsgV::RunPending,
            PiMsg::TextDelta(t) => PiMsgV::TextDelta(t@),
            PiMsg::ThinkingDelta(t) => PiMsgV::ThinkingDelta(t@),
            PiMsg::ToolStart { name, tool_id } => PiMsgV::ToolStart {
                name: name@,
                tool_id: tool_id@,
            },
            PiMsg::ToolUpdate { name, tool_id, content, details } => PiMsgV::ToolUpdate {
                name: name@,
                tool_id: tool_id@,
                content: blocks_view(content@),
                details: opt_json(*details),
            },
            PiMsg::ToolEnd { name, tool_id, is_error } => PiMsgV::ToolEnd {
                name: name@,
                tool_id: tool_id@,
                is_error: *is_error,
            },
            PiMsg::AgentDone { usage, stop_reason } => PiMsgV::AgentDone {
                usage: *usage,
                stop_reason: *stop_reason,
            },
            PiMsg::AgentError(e) => PiMsgV::AgentError(e@),
            PiMsg::System(m) => PiMsgV::System(m@),
        }
    }
}

/// What the front end is told of an event of the agent; `None` for the
/// events that it does not show.
pub open spec fn message_for(event: AgentEventV) -> Option<PiMsgV> {
    match event {
        AgentEventV::RequestStart => Some(PiMsgV::AgentStart),
        AgentEventV::TextDelta { text } => Some(PiMsgV::TextDelta(text)),
        AgentEventV::ThinkingDelta { text } => Some(PiMsgV::ThinkingDelta(text)),
        AgentEventV::ToolExecuteStart { name, id } => Some(PiMsgV::ToolStart { name, tool_id: id }),
        AgentEventV::ToolExecuteEnd { name, id, is_error } => Some(
            PiMsgV::ToolEnd { name, tool_id: id, is_error },
        ),
        AgentEventV::ToolUpdate { name, id, content, details } => Some(
            PiMsgV::ToolUpdate { name, tool_id: id, content, details },
        ),
        AgentEventV::Done { final_message } => Some(
            PiMsgV::AgentDone {
                usage: Some(final_message.usage),
                stop_reason: final_message.stop_reason,
            },
        ),
        AgentEventV::Error { error } => Some(PiMsgV::AgentError(error)),
        _ => None,
    }
}

/// What the front end is told of an event of the agent.
pub fn map_agent_event(event: AgentEvent) -> (r: Option<PiMsg>)
    ensures
        match r {
            Some(m) => message_for(event@) == Some(m@),
            None => message_for(event@).is_none(),
        },
{
    match event {
        AgentEvent::RequestStart => Some(PiMsg::AgentStart),
        AgentEvent::TextDelta { text } => Some(PiMsg::TextDelta(text)),
        AgentEvent::ThinkingDelta { text } => Some(PiMsg::ThinkingDelta(text)),
        AgentEvent::ToolExecuteStart { name, id } => Some(PiMsg::ToolStart { name, tool_id: id }),
        AgentEvent::ToolExecuteEnd { name, id, is_error } => Some(
            PiMsg::ToolEnd { name, tool_id: id, is_error },
        ),
        AgentEvent::ToolUpdate { name, id, content, details } => Some(
            PiMsg::ToolUpdate { name, tool_id: id, content, details },
        ),
        AgentEvent::Done { final_message } => Some(
            PiMsg::AgentDone {
                usage: Some(final_message.usage),
                stop_reason: final_message.stop_reason,
            },
        ),
        AgentEvent::Error { error } => Some(PiMsg::AgentError(error)),
        _ => None,
    }
}

/// The state of the front end that the agent's messages and the user's
/// commands move.
#[derive(Debug)]
pub struct UiState {
    pub agent_state: AgentState,
    pub input_mode: InputMode,
    /// The conversation as it is shown.
    pub messages: Vec<ConversationMessage>,
    /// The answer that is being streamed.
    pub current_response: String,
    /// The thinking that is being streamed.
    pub current_thinking: String,
    /// The tool that runs.
    pub current_tool: Option<String>,
    /// What the running tool has put out last.
    pub pending_tool_output: Option<String>,
    pub total_usage: Usage,
    /// Feedback on the last command.
    pub status_message: Option<String>,
    /// Whether a request can be aborted.
    pub can_abort: bool,
    /// The inputs that wait to be sent, the next one first.
    pub pending_inputs: VecDeque<PendingInput>,
}

/// [`UiState`] as plain data.
pub struct UiStateV {
    pub agent_state: AgentState,
    pub input_mode: InputMode,
    pub messages: Seq<ConversationMessageV>,
    pub current_response: Seq<char>,
    pub current_thinking: Seq<char>,
    pub current_tool: Option<Seq<char>>,
    pub pending_tool_output: Option<Seq<char>>,
    pub total_usage: Usage,
    pub status_message: Option<Seq<char>>,
    pub can_abort: bool,
    pub pending_inputs: nat,
}

impl View for UiState {
    type V = UiStateV;

    open spec fn view(&self) -> UiStateV {
        UiStateV {
            agent_state: self.agent_state,
            input_mode: self.input_mode,
            messages: shown_view(self.messages@),
            current_response: self.current_response@,
            current_thinking: self.current_thinking@,
            current_tool: opt_text(self.current_tool),
            pending_tool_output: opt_text(self.pending_tool_output),
            total_usage: self.total_usage,
            status_message: opt_text(self.status_message),
            can_abort: self.can_abort,
            pending_inputs: self.pending_inputs@.len(),
        }
    }
}

/// What the front end is to do once a message is handled.
#[derive(Debug, Clone, Copy, PartialEq, Eq, Structural)]
pub struct UiOutcome {
    /// Show the end of the conversation.
    pub scroll_to_bottom: bool,
    /// Give the focus to the input.
    pub focus_input: bool,
    /// Send the next queued input.
    pub run_pending: bool,
}

/// Nothing to do.
pub open spec fn quiet() -> UiOutcome {
    UiOutcome { scroll_to_bottom: false, focus_input: false, run_pending: false }
}

impl UiStateV {
    /// The state with one more message shown.
    pub open spec fn show(self, m: ConversationMessageV) -> UiStateV {
        UiStateV { messages: self.messages.push(m), ..self }
    }

    /// The state once a run is over: idle, with no tool and nothing to
    /// abort.
    pub open spec fn settled(self) -> UiStateV {
        UiStateV { agent_state: AgentState::Idle, current_tool: None, can_abort: false, ..self }
    }

    /// What is to be done once a run is over: the input gets the focus, and
    /// the next queued input is sent if one waits.
    pub open spec fn after_run(self) -> UiOutcome {
        UiOutcome { scroll_to_bottom: false, focus_input: true, run_pending: self.pending_inputs > 0 }
    }

    /// The state after a message of the agent's run, and what is to be done.
    pub open spec fn handle(self, msg: PiMsgV) -> (UiStateV, UiOutcome) {
        match msg {
            PiMsgV::AgentStart => (
                UiStateV {
                    agent_state: AgentState::Processing,
                    current_response: Seq::empty(),
                    current_thinking: Seq::empty(),
                    ..self
                },
                quiet(),
            ),
            PiMsgV::RunPending => (
                self,
                UiOutcome {
                    run_pending: self.agent_state == AgentState::Idle && self.pending_inputs > 0,
                    ..quiet()
                },
            ),
            PiMsgV::TextDelta(text) => (
                UiStateV { current_response: self.current_response + text, ..self },
                quiet(),
            ),
            PiMsgV::ThinkingDelta(text) => (
                UiStateV { current_thinking: self.current_thinking + text, ..self },
                quiet(),
            ),
            PiMsgV::ToolStart { name, tool_id } => (
                UiStateV {
                    agent_state: AgentState::ToolRunning,
                    current_tool: Some(name),
                    pending_tool_output: None,
                    ..self
                },
                quiet(),
            ),
            PiMsgV::ToolUpdate { name, tool_id, content, details } => match tool_output_text(
                content,
                details,
            ) {
                Some(output) => (
                    UiStateV {
                        pending_tool_output: Some("Tool "@ + name + " output:\n"@ + output),
                        ..self
                    },
                    quiet(),
                ),
                None => (self, quiet()),
            },
            PiMsgV::ToolEnd { name, tool_id, is_error } => {
                let s = UiStateV {
                    agent_state: AgentState::Processing,
                    current_tool: None,
                    pending_tool_output: None,
                    ..self
                };
                match self.pending_tool_output {
                    Some(output) => (
                        s.show(system_note(output)),
                        UiOutcome { scroll_to_bottom: true, ..quiet() },
                    ),
                    None => (s, quiet()),
                }
            },
            PiMsgV::AgentDone { usage, stop_reason } => {
                let shown = if self.current_response.len() > 0 {
                    UiStateV {
                        current_response: Seq::empty(),
                        current_thinking: if self.current_thinking.len() > 0 {
                            Seq::empty()
                        } else {
                            self.current_thinking
                        },
                        ..self.show(
                            ConversationMessageV {
                                role: MessageRole::Assistant,
                                content: self.current_response,
                                thinking: if self.current_thinking.len() > 0 {
                                    Some(self.current_thinking)
                                } else {
                                    None
                                },
                            },
                        )
                    }
                } else {
                    self
                };
                let counted = match usage {
                    Some(u) => UiStateV {
                        total_usage: Usage {
                            input: crate::model::saturating_sum(shown.total_usage.input, u.input),
                            output: crate::model::saturating_sum(shown.total_usage.output, u.output),
                            total_tokens: crate::model::saturating_sum(
                                shown.total_usage.total_tokens,
                                u.total_tokens,
                            ),
                            ..shown.total_usage
                        },
                        ..shown
                    },
                    None => shown,
                };
                let done = counted.settled();
                (
                    if stop_reason == StopReason::Aborted {
                        UiStateV { status_message: Some("Request aborted"@), ..done }
                    } else {
                        done
                    },
                    self.after_run(),
                )
            },
            PiMsgV::AgentError(error) => (
                self.show(system_note("Error: "@ + error)).settled(),
                self.after_run(),
            ),
            PiMsgV::System(message) => (self.show(system_note(message)).settled(), self.after_run()),
        }
    }
}

impl UiState {
    /// The state of a front end that has shown the given conversation and
    /// counted the given usage.
    pub fn new(
        messages: Vec<ConversationMessage>,
        total_usage: Usage,
        pending_inputs: VecDeque<PendingInput>,
    ) -> (r: Self)
        ensures
            r@ == (UiStateV {
                agent_state: AgentState::Idle,
                input_mode: InputMode::SingleLine,
                messages: shown_view(messages@),
                current_response: Seq::empty(),
                current_thinking: Seq::empty(),
                current_tool: None,
                pending_tool_output: None,
                total_usage,
                status_message: None,
                can_abort: false,
                pending_inputs: pending_inputs@.len(),
            }),
            r.pending_inputs == pending_inputs,
    {
        UiState {
            agent_state: AgentState::Idle,
            input_mode: InputMode::SingleLine,
            messages,
            current_response: String::new(),
            current_thinking: String::new(),
            current_tool: None,
            pending_tool_output: None,
            total_usage,
            status_message: None,
            can_abort: false,
            pending_inputs,
        }
    }

    fn show(&mut self, role: MessageRole, content: String, thinking: Option<String>)
        ensures
            final(self)@ == old(self)@.show(
                ConversationMessageV { role, content: content@, thinking: opt_text(thinking) },
            ),
            final(self).pending_inputs == old(self).pending_inputs,
    {
        self.messages.push(ConversationMessage { role, content, thinking });
        assert(self@.messages =~= old(self)@.messages.push(
            ConversationMessageV { role, content: content@, thinking: opt_text(thinking) },
        ));
    }

    fn settle(&mut self)
        ensures
            final(self)@ == old(self)@.settled(),
            final(self).pending_inputs == old(self).pending_inputs,
    {
        self.agent_state = AgentState::Idle;
        self.current_tool = None;
        self.can_abort = false;
    }

    /// Handle a message of the agent's run.
    pub fn handle_pi_message(&mut self, msg: PiMsg) -> (r: UiOutcome)
        ensures
            (final(self)@, r) == old(self)@.handle(msg@),
            final(self).pending_inputs == old(self).pending_inputs,
    {
        let after_run = UiOutcome {
            scroll_to_bottom: false,
            focus_input: true,
            run_pending: self.pending_inputs.len() > 0,
        };
        let quiet = UiOutcome { scroll_to_bottom: false, focus_input: false, run_pending: false };
        match msg {
            PiMsg::AgentStart => {
                self.agent_state = AgentState::Processing;
                self.current_response = String::new();
                self.current_thinking = String::new();
                quiet
            },
            PiMsg::RunPending => {
                let idle = match self.agent_state {
                    AgentState::Idle => true,
                    _ => false,
                };
                UiOutcome {
                    scroll_to_bottom: false,
                    focus_input: false,
                    run_pending: idle && self.pending_inputs.len() > 0,
                }
            },
            PiMsg::TextDelta(text) => {
                self.current_response.append(text.as_str());
                quiet
            },
            PiMsg::ThinkingDelta(text) => {
                self.current_thinking.append(text.as_str());
                quiet
            },
            PiMsg::ToolStart { name, tool_id } => {
                self.agent_state = AgentState::ToolRunning;
                self.current_tool = Some(name);
                self.pending_tool_output = None;
                quiet
            },
            PiMsg::ToolUpdate { name, tool_id, content, details } => {
                let output = format_tool_output(
                    content.as_slice(),
                    match &details {
                        Some(d) => Some(d),
                        None => None,
                    },
                );
                match output {
                    Some(output) => {
                        self.pending_tool_output = Some(
                            String::from_str("Tool ").concat(name.as_str()).concat(
                                " output:\n",
                            ).concat(output.as_str()),
                        );
                    },
                    None => {},
                }
                quiet
            },
            PiMsg::ToolEnd { name, tool_id, is_error } => {
                self.agent_state = AgentState::Processing;
                self.current_tool = None;
                match self.pending_tool_output.take() {
                    Some(output) => {
                        self.show(MessageRole::System, output, None);
                        UiOutcome { scroll_to_bottom: true, focus_input: false, run_pending: false }
                    },
                    None => quiet,
                }
            },
            PiMsg::AgentDone { usage, stop_reason } => {
                if !self.current_response.as_str().is_empty() {
                    let mut content = String::new();
                    std::mem::swap(&mut content, &mut self.current_response);
                    let thinking = if self.current_thinking.as_str().is_empty() {
                        None
                    } else {
                        let mut t = String::new();
                        std::mem::swap(&mut t, &mut self.current_thinking);
                        Some(t)
                    };
                    self.show(MessageRole::Assistant, content, thinking);
                }
                match usage {
                    Some(u) => {
                        self.total_usage.input = crate::model::saturating_add(
                            self.total_usage.input,
                            u.input,
                        );
                        self.total_usage.output = crate::model::saturating_add(
                            self.total_usage.output,
                            u.output,
                        );
                        self.total_usage.total_tokens = crate::model::saturating_add(
                            self.total_usage.total_tokens,
                            u.total_tokens,
                        );
                    },
                    None => {},
                }
                self.settle();
                match stop_reason {
                    StopReason::Aborted => {
                        self.status_message = Some(String::from_str("Request aborted"));
                    },
                    _ => {},
                }
                after_run
            },
            PiMsg::AgentError(error) => {
                self.show(
                    MessageRole::System,
                    String::from_str("Error: ").concat(error.as_str()),
                    None,
                );
                self.settle();
                after_run
            },
            PiMsg::System(message) => {
                self.show(MessageRole::System, message, None);
                self.settle();
                after_run
            },
        }
    }
}

impl UiState {
    /// Takes the next queued input, if the agent is idle and one waits.
    pub fn run_next_pending(&mut self) -> (r: Option<PendingInput>)
        ensures
            old(self).agent_state == AgentState::Idle && old(self).pending_inputs@.len() > 0 ==> r
                == Some(old(self).pending_inputs@[0])
                && final(self).pending_inputs@ == old(self).pending_inputs@.drop_first(),
            !(old(self).agent_state == AgentState::Idle && old(self).pending_inputs@.len() > 0)
                ==> r.is_none() && final(self).pending_inputs@ == old(self).pending_inputs@,
            final(self)@ == (UiStateV { pending_inputs: final(self)@.pending_inputs, ..old(self)@ }),
    {
        match self.agent_state {
            AgentState::Idle => {},
            _ => {
                return None;
            },
        }
        let r = self.pending_inputs.pop_front();
        assert(r is Some ==> self.pending_inputs@ =~= old(self).pending_inputs@.drop_first());
        r
    }
}

/// The inputs that the user has sent, and where in them the user is
/// browsing.
#[derive(Debug, Clone)]
pub struct InputHistory {
    pub entries: Vec<String>,
    pub index: Option<usize>,
}

/// What a step through the history does to the input.
#[derive(Debug, Clone)]
pub enum HistoryMove {
    /// Nothing.
    Stay,
    /// The input shows this entry.
    Show(String),
    /// The input is emptied.
    Reset,
}

impl InputHistory {
    /// An empty history.
    pub fn new() -> (r: Self)
        ensures
            r.entries@.len() == 0,
            r.index is None,
    {
        InputHistory { entries: Vec::new(), index: None }
    }

    /// Records an input that was sent; browsing starts anew.
    pub fn record(&mut self, input: String)
        ensures
            final(self).entries@ == old(self).entries@.push(input),
            final(self).index is None,
    {
        self.entries.push(input);
        self.index = None;
    }

    /// Where a step back leads: the last entry from outside the history,
    /// else the entry before, and the first entry stays where it is.
    pub open spec fn back_index(entries: nat, index: Option<usize>) -> int {
        match index {
            None => entries - 1,
            Some(i) => if i == 0 {
                0
            } else {
                i - 1
            },
        }
    }

    /// Navigate to the previous history entry.
    pub fn navigate_history_back(&mut self) -> (r: HistoryMove)
        ensures
            final(self).entries == old(self).entries,
            ({
                let n = old(self).entries@.len();
                let to = InputHistory::back_index(n, old(self).index);
                if n > 0 && to < n {
                    final(self).index == Some(to as usize) && r == HistoryMove::Show(
                        old(self).entries@[to],
                    )
                } else {
                    final(self).index == old(self).index && r is Stay
                }
            }),
    {
        if self.entries.len() == 0 {
            return HistoryMove::Stay;
        }
        let new_index: usize = match self.index {
            None => self.entries.len() - 1,
            Some(i) => if i == 0 {
                0
            } else {
                i - 1
            },
        };
        if new_index < self.entries.len() {
            self.index = Some(new_index);
            HistoryMove::Show(self.entries[new_index].clone())
        } else {
            HistoryMove::Stay
        }
    }

    /// Navigate to the next history entry; past the last one the input is
    /// emptied and browsing ends.
    pub fn navigate_history_forward(&mut self) -> (r: HistoryMove)
        ensures
            final(self).entries == old(self).entries,
            match old(self).index {
                None => final(self).index is None && r is Stay,
                Some(i) => if i + 1 < old(self).entries@.len() {
                    final(self).index == Some((i + 1) as usize) && r == HistoryMove::Show(
                        old(self).entries@[i + 1],
                    )
                } else {
                    final(self).index is None && r is Reset
                },
            },
    {
        match self.index {
            None => HistoryMove::Stay,
            Some(i) => {
                if i < self.entries.len() && i + 1 < self.entries.len() {
                    self.index = Some(i + 1);
                    HistoryMove::Show(self.entries[i + 1].clone())
                } else {
                    self.index = None;
                    HistoryMove::Reset
                }
            },
        }
    }

    /// The line of the listing for the entry at `i`: its number from one,
    /// and the entry cut to sixty characters.
    pub open spec fn listing_line(entry: Seq<char>, i: nat) -> Seq<char> {
        "  "@ + decimal(i + 1) + ": "@ + truncated(entry, 60)
    }

    /// The listing of the first `limit` entries, a line for each.
    pub open spec fn listing_of(entries: Seq<String>, limit: int) -> Seq<char>
        decreases limit,
    {
        if limit <= 0 || limit > entries.len() {
            Seq::empty()
        } else if limit == 1 {
            InputHistory::listing_line(entries[0]@, 0)
        } else {
            InputHistory::listing_of(entries, limit - 1).push('\n') + InputHistory::listing_line(
                entries[limit - 1]@,
                (limit - 1) as nat,
            )
        }
    }

    /// The history as text, a numbered line for each entry.
    pub fn listing(&self) -> (r: String)
        ensures
            r@ == InputHistory::listing_of(self.entries@, self.entries@.len() as int),
    {
        let mut out = String::new();
        let mut i: usize = 0;
        while i < self.entries.len()
            invariant
                i <= self.entries.len(),
                out@ == InputHistory::listing_of(self.entries@, i as int),
            decreases self.entries.len() - i,
        {
            if i > 0 {
                push_char(&mut out, '\n');
            }
            out.append("  ");
            out.append(decimal_string((i + 1) as u64).as_str());
            out.append(": ");
            out.append(truncate(self.entries[i].as_str(), 60).as_str());
            assert(out@ =~= InputHistory::listing_of(self.entries@, i + 1));
            i += 1;
        }
        out
    }
}

/// What has to happen outside once a slash command is handled.
#[derive(Debug, Clone)]
pub enum SlashAction {
    /// Nothing.
    Nothing,
    /// Leave the program.
    Quit,
    /// Start the OAuth login of the provider.
    StartLogin { provider: String },
    /// Remove the stored credentials of the provider.
    Logout { provider: String },
    /// Switch to the model at this position in the list of known models.
    ChangeModel { position: usize },
    /// Show the thinking level of the session.
    ShowThinking,
    /// Set the thinking level.
    SetThinking { level: ThinkingLevel },
}

/// [`SlashAction`] as plain data.
pub enum SlashActionV {
    Nothing,
    Quit,
    StartLogin { provider: Seq<char> },
    Logout { provider: Seq<char> },
    ChangeModel { position: int },
    ShowThinking,
    SetThinking { level: ThinkingLevel },
}

impl View for SlashAction {
    type V = SlashActionV;

    open spec fn view(&self) -> SlashActionV {
        match self {
            SlashAction::Nothing => SlashActionV::Nothing,
            SlashAction::Quit => SlashActionV::Quit,
            SlashAction::StartLogin { provider } => SlashActionV::StartLogin { provider: provider@ },
            SlashAction::Logout { provider } => SlashActionV::Logout { provider: provider@ },
            SlashAction::ChangeModel { position } => SlashActionV::ChangeModel {
                position: *position as int,
            },
            SlashAction::ShowThinking => SlashActionV::ShowThinking,
            SlashAction::SetThinking { level } => SlashActionV::SetThinking { level: *level },
        }
    }
}

/// A model that can be chosen: its provider and its id.
#[derive(Debug, Clone)]
pub struct ModelRef {
    pub provider: String,
    pub id: String,
}

/// The position of the first model with the given provider and id.
pub open spec fn model_position(models: Seq<ModelRef>, provider: Seq<char>, id: Seq<char>, limit: int) -> Option<
    int,
>
    decreases limit,
{
    if limit <= 0 || limit > models.len() {
        None
    } else {
        match model_position(models, provider, id, limit - 1) {
            Some(i) => Some(i),
            None => if models[limit - 1].provider@ == provider && models[limit - 1].id@ == id {
                Some(limit - 1)
            } else {
                None
            },
        }
    }
}

/// Once a model is found, it stays the first one.
pub proof fn lemma_model_position_stays(
    models: Seq<ModelRef>,
    provider: Seq<char>,
    id: Seq<char>,
    found: int,
    limit: int,
)
    requires
        model_position(models, provider, id, found) is Some,
        found <= limit <= models.len(),
    ensures
        model_position(models, provider, id, limit) == model_position(models, provider, id, found),
    decreases limit - found,
{
    if found < limit {
        lemma_model_position_stays(models, provider, id, found, limit - 1);
    }
}

/// The position of the first model with the given provider and id.
pub fn find_model(models: &[ModelRef], provider: &str, id: &str) -> (r: Option<usize>)
    ensures
        match r {
            Some(i) => model_position(models@, provider@, id@, models@.len() as int) == Some(
                i as int,
            ),
            None => model_position(models@, provider@, id@, models@.len() as int).is_none(),
        },
{
    let mut i: usize = 0;
    while i < models.len()
        invariant
            i <= models.len(),
            model_position(models@, provider@, id@, i as int).is_none(),
        decreases models.len() - i,
    {
        if str_eq(models[i].provider.as_str(), provider) && str_eq(models[i].id.as_str(), id) {
            proof {
                assert(model_position(models@, provider@, id@, i + 1) == Some(i as int));
                lemma_model_position_stays(models@, provider@, id@, i + 1, models@.len() as int);
            }
            return Some(i);
        }
        i += 1;
    }
    None
}

/// What a slash command needs to know of the program.
#[derive(Debug)]
pub struct SlashContext<'a> {
    /// The provider of the model in use.
    pub provider: &'a str,
    /// The id of the model in use.
    pub model_id: &'a str,
    /// The models that can be chosen, those in scope first.
    pub models: &'a [ModelRef],
    /// The inputs sent so far.
    pub history: &'a InputHistory,
}

/// The note that tells the user how to go on with a login: the provider,
/// the address to open, the provider's instructions where it has any, and
/// what to paste.
pub open spec fn login_note(provider: Seq<char>, url: Seq<char>, instructions: Option<Seq<char>>) -> Seq<
    char,
> {
    "OAuth login: "@ + provider + "\n\nOpen this URL:\n"@ + url + "\n"@ + (match instructions {
        Some(i) => "\n"@ + i + "\n"@,
        None => Seq::empty(),
    }) + "\nPaste the callback URL or authorization code as your next message."@
}

impl UiStateV {
    /// The state with the given feedback.
    pub open spec fn status(self, text: Seq<char>) -> UiStateV {
        UiStateV { status_message: Some(text), ..self }
    }

    /// The provider that a login or logout is about: the argument, or the
    /// provider in use where there is none.
    pub open spec fn named_provider(args: Seq<char>, provider: Seq<char>) -> Seq<char> {
        if args.len() == 0 {
            provider
        } else {
            args
        }
    }

    /// The state after a slash command, and what has to happen outside.
    pub open spec fn command(
        self,
        cmd: SlashCommand,
        args: Seq<char>,
        provider: Seq<char>,
        model_id: Seq<char>,
        models: Seq<ModelRef>,
        history: Seq<String>,
    ) -> (UiStateV, SlashActionV, bool) {
        let idle = self.agent_state == AgentState::Idle;
        match cmd {
            SlashCommand::Help => (self.show(system_note(HELP_TEXT@)), SlashActionV::Nothing, true),
            SlashCommand::Login => if !idle {
                (self.status("Cannot login while processing"@), SlashActionV::Nothing, false)
            } else {
                let wanted = UiStateV::named_provider(args, provider);
                if wanted != "anthropic"@ {
                    (
                        self.status(
                            "OAuth login not supported for "@ + wanted
                                + " (supported: anthropic)"@,
                        ),
                        SlashActionV::Nothing,
                        false,
                    )
                } else {
                    (self, SlashActionV::StartLogin { provider: wanted }, false)
                }
            },
            SlashCommand::Logout => if !idle {
                (self.status("Cannot logout while processing"@), SlashActionV::Nothing, false)
            } else {
                (
                    UiStateV { agent_state: AgentState::Processing, ..self },
                    SlashActionV::Logout { provider: UiStateV::named_provider(args, provider) },
                    false,
                )
            },
            SlashCommand::Clear => (
                UiStateV {
                    messages: Seq::empty(),
                    current_response: Seq::empty(),
                    current_thinking: Seq::empty(),
                    ..self
                }.status("Conversation cleared"@),
                SlashActionV::Nothing,
                false,
            ),
            SlashCommand::Model => if !idle {
                (self.status("Cannot change model while processing"@), SlashActionV::Nothing, false)
            } else if args.len() == 0 {
                (
                    self.status("Current model: "@ + provider + "/"@ + model_id),
                    SlashActionV::Nothing,
                    false,
                )
            } else {
                let wanted = model_selection(args, provider);
                match model_position(models, wanted.0, wanted.1, models.len() as int) {
                    Some(position) => (self, SlashActionV::ChangeModel { position }, false),
                    None => (self.status("Unknown model: "@ + args), SlashActionV::Nothing, false),
                }
            },
            SlashCommand::Thinking => if !idle {
                (
                    self.status("Cannot change thinking while processing"@),
                    SlashActionV::Nothing,
                    false,
                )
            } else if args.len() == 0 {
                (self, SlashActionV::ShowThinking, false)
            } else {
                match thinking_level_named(lowercased(trimmed(args))) {
                    Some(level) => (self, SlashActionV::SetThinking { level }, false),
                    None => (
                        self.status(
                            "Unknown thinking level. Use: off/minimal/low/medium/high/xhigh"@,
                        ),
                        SlashActionV::Nothing,
                        false,
                    ),
                }
            },
            SlashCommand::Exit => (self, SlashActionV::Quit, false),
            SlashCommand::History => if history.len() == 0 {
                (self.status("No input history"@), SlashActionV::Nothing, false)
            } else {
                (
                    self.show(
                        system_note(
                            "Input history:\n"@ + InputHistory::listing_of(
                                history,
                                history.len() as int,
                            ),
                        ),
                    ),
                    SlashActionV::Nothing,
                    true,
                )
            },
            SlashCommand::Export => (
                self.status(
                    "Export to '"@ + (if args.len() == 0 {
                        "conversation.html"@
                    } else {
                        args
                    }) + "' not yet implemented"@,
                ),
                SlashActionV::Nothing,
                false,
            ),
        }
    }
}

/// What handling a slash command comes to: what has to happen outside, and
/// whether the end of the conversation is to be shown.
#[derive(Debug, Clone)]
pub struct SlashOutcome {
    pub action: SlashAction,
    pub scroll_to_bottom: bool,
}

impl UiState {
    fn set_status(&mut self, text: String)
        ensures
            final(self)@ == old(self)@.status(text@),
            final(self).pending_inputs == old(self).pending_inputs,
    {
        self.status_message = Some(text);
    }

    /// Handle a slash command: what can be done to the state at once is
    /// done, and what has to happen outside is handed back.
    pub fn handle_slash_command(&mut self, cmd: SlashCommand, args: &str, context: &SlashContext) -> (r:
        SlashOutcome)
        ensures
            (final(self)@, r.action@, r.scroll_to_bottom) == old(self)@.command(
                cmd,
                args@,
                context.provider@,
                context.model_id@,
                context.models@,
                context.history.entries@,
            ),
            final(self).pending_inputs == old(self).pending_inputs,
    {
        let idle = match self.agent_state {
            AgentState::Idle => true,
            _ => false,
        };
        let mut scroll = false;
        let action = match cmd {
            SlashCommand::Help => {
                self.show(MessageRole::System, String::from_str(HELP_TEXT), None);
                scroll = true;
                SlashAction::Nothing
            },
            SlashCommand::Login => {
                if !idle {
                    self.set_status(String::from_str("Cannot login while processing"));
                    SlashAction::Nothing
                } else {
                    let wanted = if args.is_empty() {
                        context.provider
                    } else {
                        args
                    };
                    if !str_eq(wanted, "anthropic") {
                        self.set_status(
                            String::from_str("OAuth login not supported for ").concat(
                                wanted,
                            ).concat(" (supported: anthropic)"),
                        );
                        SlashAction::Nothing
                    } else {
                        SlashAction::StartLogin { provider: String::from_str(wanted) }
                    }
                }
            },
            SlashCommand::Logout => {
                if !idle {
                    self.set_status(String::from_str("Cannot logout while processing"));
                    SlashAction::Nothing
                } else {
                    let wanted = if args.is_empty() {
                        context.provider
                    } else {
                        args
                    };
                    self.agent_state = AgentState::Processing;
                    SlashAction::Logout { provider: String::from_str(wanted) }
                }
            },
            SlashCommand::Clear => {
                self.messages = Vec::new();
                self.current_response = String::new();
                self.current_thinking = String::new();
                assert(shown_view(self.messages@) =~= Seq::<ConversationMessageV>::empty());
                self.set_status(String::from_str("Conversation cleared"));
                SlashAction::Nothing
            },
            SlashCommand::Model => {
                if !idle {
                    self.set_status(String::from_str("Cannot change model while processing"));
                    SlashAction::Nothing
                } else if args.is_empty() {
                    self.set_status(
                        String::from_str("Current model: ").concat(context.provider).concat(
                            "/",
                        ).concat(context.model_id),
                    );
                    SlashAction::Nothing
                } else {
                    let (provider, id) = parse_model_selector(args, context.provider);
                    match find_model(context.models, provider.as_str(), id.as_str()) {
                        Some(position) => SlashAction::ChangeModel { position },
                        None => {
                            self.set_status(String::from_str("Unknown model: ").concat(args));
                            SlashAction::Nothing
                        },
                    }
                }
            },
            SlashCommand::Thinking => {
                if !idle {
                    self.set_status(String::from_str("Cannot change thinking while processing"));
                    SlashAction::Nothing
                } else if args.is_empty() {
                    SlashAction::ShowThinking
                } else {
                    match parse_thinking_level(args) {
                        Some(level) => SlashAction::SetThinking { level },
                        None => {
                            self.set_status(
                                String::from_str(
                                    "Unknown thinking level. Use: off/minimal/low/medium/high/xhigh",
                                ),
                            );
                            SlashAction::Nothing
                        },
                    }
                }
            },
            SlashCommand::Exit => SlashAction::Quit,
            SlashCommand::History => {
                if context.history.entries.len() == 0 {
                    self.set_status(String::from_str("No input history"));
                    SlashAction::Nothing
                } else {
                    let listing = context.history.listing();
                    self.show(
                        MessageRole::System,
                        String::from_str("Input history:\n").concat(listing.as_str()),
                        None,
                    );
                    scroll = true;
                    SlashAction::Nothing
                }
            },
            SlashCommand::Export => {
                let path = if args.is_empty() {
                    "conversation.html"
                } else {
                    args
                };
                self.set_status(
                    String::from_str("Export to '").concat(path).concat("' not yet implemented"),
                );
                SlashAction::Nothing
            },
        };
        SlashOutcome { action, scroll_to_bottom: scroll }
    }

    /// Records what the session's thinking level is, as feedback.
    pub fn show_thinking_level(&mut self, level: Option<&str>)
        ensures
            final(self).pending_inputs == old(self).pending_inputs,
            final(self)@ == old(self)@.status(
                "Current thinking level: "@ + (match level {
                    Some(l) => l@,
                    None => "off"@,
                }),
            ),
    {
        let current = match level {
            Some(l) => l,
            None => "off",
        };
        self.set_status(String::from_str("Current thinking level: ").concat(current));
    }

    /// Records that the thinking level was set, as feedback.
    pub fn thinking_level_set(&mut self, level: ThinkingLevel)
        ensures
            final(self).pending_inputs == old(self).pending_inputs,
            final(self)@ == old(self)@.status("Thinking level: "@ + level.name()),
    {
        self.set_status(String::from_str("Thinking level: ").concat(level.as_str()));
    }

    /// Records that a login has begun: the note that tells the user what
    /// to open and to paste is shown, and the feedback says that the code
    /// is awaited.
    pub fn login_started(&mut self, provider: &str, url: &str, instructions: Option<&str>)
        ensures
            final(self)@ == old(self)@.show(
                system_note(
                    login_note(
                        provider@,
                        url@,
                        match instructions {
                            Some(i) => Some(i@),
                            None => None,
                        },
                    ),
                ),
            ).status("Awaiting OAuth code..."@),
            final(self).pending_inputs == old(self).pending_inputs,
    {
        let mut text = String::from_str("OAuth login: ").concat(provider).concat(
            "\n\nOpen this URL:\n",
        ).concat(url).concat("\n");
        let ghost head = text@;
        match instructions {
            Some(i) => {
                text = text.concat("\n").concat(i).concat("\n");
            },
            None => {},
        }
        let ghost mid = text@;
        text = text.concat("\nPaste the callback URL or authorization code as your next message.");
        proof {
            let want = login_note(
                provider@,
                url@,
                match instructions {
                    Some(i) => Some(i@),
                    None => None,
                },
            );
            assert(head =~= "OAuth login: "@ + provider@ + "\n\nOpen this URL:\n"@ + url@ + "\n"@);
            match instructions {
                Some(i) => {
                    assert(mid =~= head + ("\n"@ + i@ + "\n"@));
                },
                None => {
                    assert(mid =~= head + Seq::<char>::empty());
                },
            }
            assert(text@ =~= want);
        }
        self.show(MessageRole::System, text, None);
        self.set_status(String::from_str("Awaiting OAuth code..."));
    }

    /// Records that a login could not begin, as feedback.
    pub fn login_failed(&mut self, error: &str)
        ensures
            final(self)@ == old(self)@.status("OAuth login failed: "@ + error@),
            final(self).pending_inputs == old(self).pending_inputs,
    {
        self.set_status(String::from_str("OAuth login failed: ").concat(error));
    }

    /// Records that the model could not be changed, as feedback.
    pub fn model_change_failed(&mut self, error: &str)
        ensures
            final(self)@ == old(self)@.status("Model change failed: "@ + error@),
            final(self).pending_inputs == old(self).pending_inputs,
    {
        self.set_status(String::from_str("Model change failed: ").concat(error));
    }

    /// Records that the provider of the wanted model has no key, as
    /// feedback.
    pub fn no_api_key(&mut self, provider: &str)
        ensures
            final(self)@ == old(self)@.status("No API key for provider "@ + provider@),
            final(self).pending_inputs == old(self).pending_inputs,
    {
        self.set_status(String::from_str("No API key for provider ").concat(provider));
    }

    /// Records that the model was changed, as feedback.
    pub fn model_changed(&mut self, provider: &str, id: &str)
        ensures
            final(self).pending_inputs == old(self).pending_inputs,
            final(self)@ == old(self)@.status("Model changed to: "@ + provider@ + "/"@ + id@),
    {
        self.set_status(
            String::from_str("Model changed to: ").concat(provider).concat("/").concat(id),
        );
    }
}

/// The part of the conversation that is on screen.
#[derive(Debug, Clone, Copy, PartialEq, Eq, Structural)]
pub struct ScrollWindow {
    /// The first line shown.
    pub start: usize,
    /// The line after the last line shown.
    pub end: usize,
    /// How far down the view is, in percent, where not everything fits.
    pub percent: Option<u64>,
}

/// The lines that are on screen for a view of the given height at the
/// given offset, and how far down that is.
pub open spec fn window_of(offset: nat, height: nat, lines: nat) -> (nat, nat, Option<nat>) {
    let start = if lines == 0 {
        0
    } else if offset < lines - 1 {
        offset
    } else {
        (lines - 1) as nat
    };
    let end = if start + height < lines {
        start + height
    } else {
        lines
    };
    let percent = if lines > height {
        let p = (start * 100) as int / ((lines - height) as int);
        Some(
            if p < 100 {
                p as nat
            } else {
                100
            },
        )
    } else {
        None
    };
    (start, end, percent)
}

/// The part of the conversation that is on screen.
pub fn scroll_window(offset: usize, height: usize, lines: usize) -> (r: ScrollWindow)
    ensures
        (r.start as nat, r.end as nat, match r.percent {
            Some(p) => Some(p as nat),
            None => None,
        }) == window_of(offset as nat, height as nat, lines as nat),
        r.start <= r.end <= lines,
{
    let start = if lines == 0 {
        0
    } else if offset < lines - 1 {
        offset
    } else {
        lines - 1
    };
    let end = if height < lines - start {
        start + height
    } else {
        lines
    };
    let percent = if lines > height {
        let total: u128 = (lines - height) as u128;
        let p: u128 = (start as u128 * 100) / total;
        assert(p == (start as int * 100) / ((lines - height) as int));
        Some(
            if p < 100 {
                p as u64
            } else {
                100
            },
        )
    } else {
        None
    };
    ScrollWindow { start, end, percent }
}

/// The keys that the front end tells apart.
#[derive(Debug, Clone, Copy, PartialEq, Eq, Structural)]
pub enum KeyKind {
    Enter,
    CtrlC,
    Esc,
    Up,
    Down,
    PgUp,
    PgDown,
    Other,
}

/// A key press.
#[derive(Debug, Clone, Copy, PartialEq, Eq, Structural)]
pub struct Key {
    pub kind: KeyKind,
    pub alt: bool,
}

/// What a key press leads to.
#[derive(Debug, Clone, Copy, PartialEq, Eq, Structural)]
pub enum KeyAction {
    /// Nothing more.
    Nothing,
    /// Send what the input holds.
    Submit,
    /// Abort the request that is under way.
    Abort,
    /// Leave the program.
    Quit,
    /// Step back in the input history.
    HistoryBack,
    /// Step forward in the input history.
    HistoryForward,
    /// Scroll the conversation up by a page.
    PageUp,
    /// Scroll the conversation down by a page.
    PageDown,
    /// Hand the key to the input.
    ToInput,
    /// Hand the key to the spinner.
    ToSpinner,
}

/// What handling a key comes to: the action, and the height that the input
/// is to take, where it changes.
#[derive(Debug, Clone, Copy, PartialEq, Eq, Structural)]
pub struct KeyOutcome {
    pub action: KeyAction,
    pub input_height: Option<usize>,
}

/// The height of the input in single-line mode.
pub const SINGLE_LINE_HEIGHT: usize = 3;

/// The height of the input in multi-line mode.
pub const MULTI_LINE_HEIGHT: usize = 6;

impl UiStateV {
    /// Where a key goes that nothing else takes: to the input while the
    /// agent is idle, else to the spinner.
    pub open spec fn pass_on(self) -> KeyAction {
        if self.agent_state == AgentState::Idle {
            KeyAction::ToInput
        } else {
            KeyAction::ToSpinner
        }
    }

    /// The state after a key press, and what it leads to. `input_blank`
    /// says whether the input holds nothing but white space. Any key takes
    /// the feedback on the last command away.
    pub open spec fn key(self, key: Key, input_blank: bool) -> (UiStateV, KeyOutcome) {
        let s = UiStateV { status_message: None, ..self };
        let idle = self.agent_state == AgentState::Idle;
        let plain = |action: KeyAction| KeyOutcome { action, input_height: None };
        match key.kind {
            KeyKind::Enter => if key.alt {
                if idle && self.input_mode == InputMode::MultiLine {
                    (
                        s,
                        plain(
                            if input_blank {
                                KeyAction::Nothing
                            } else {
                                KeyAction::Submit
                            },
                        ),
                    )
                } else if idle {
                    (
                        UiStateV { input_mode: InputMode::MultiLine, ..s }.status(
                            "Multi-line mode: Alt+Enter to submit"@,
                        ),
                        KeyOutcome {
                            action: KeyAction::Nothing,
                            input_height: Some(MULTI_LINE_HEIGHT),
                        },
                    )
                } else {
                    (s, plain(KeyAction::Nothing))
                }
            } else if idle && self.input_mode == InputMode::SingleLine && !input_blank {
                (s, plain(KeyAction::Submit))
            } else {
                (s, plain(self.pass_on()))
            },
            KeyKind::CtrlC => if !idle {
                (s.status("Aborting request..."@), plain(KeyAction::Abort))
            } else {
                (s, plain(KeyAction::Quit))
            },
            KeyKind::Esc => if idle && self.input_mode == InputMode::MultiLine {
                (
                    UiStateV { input_mode: InputMode::SingleLine, ..s }.status(
                        "Single-line mode"@,
                    ),
                    KeyOutcome { action: KeyAction::Nothing, input_height: Some(SINGLE_LINE_HEIGHT) },
                )
            } else if idle {
                (s, plain(KeyAction::Quit))
            } else {
                (s, plain(self.pass_on()))
            },
            KeyKind::Up => if idle && self.input_mode == InputMode::SingleLine {
                (s, plain(KeyAction::HistoryBack))
            } else {
                (s, plain(self.pass_on()))
            },
            KeyKind::Down => if idle && self.input_mode == InputMode::SingleLine {
                (s, plain(KeyAction::HistoryForward))
            } else {
                (s, plain(self.pass_on()))
            },
            KeyKind::PgUp => (s, plain(KeyAction::PageUp)),
            KeyKind::PgDown => (s, plain(KeyAction::PageDown)),
            KeyKind::Other => (s, plain(self.pass_on())),
        }
    }

    /// The state once a prompt is on its way to the agent: the prompt is
    /// shown, the input is back in single-line mode, and the agent works.
    pub open spec fn sending(self, shown: Option<Seq<char>>) -> UiStateV {
        let s = match shown {
            Some(text) => self.show(
                ConversationMessageV { role: MessageRole::User, content: text, thinking: None },
            ),
            None => self,
        };
        UiStateV {
            input_mode: InputMode::SingleLine,
            agent_state: AgentState::Processing,
            can_abort: true,
            ..s
        }
    }
}

impl UiState {
    /// Handle a key press.
    pub fn handle_key(&mut self, key: Key, input_blank: bool) -> (r: KeyOutcome)
        ensures
            (final(self)@, r) == old(self)@.key(key, input_blank),
            final(self).pending_inputs == old(self).pending_inputs,
    {
        self.status_message = None;
        let idle = match self.agent_state {
            AgentState::Idle => true,
            _ => false,
        };
        let multi = match self.input_mode {
            InputMode::MultiLine => true,
            InputMode::SingleLine => false,
        };
        let pass_on = if idle {
            KeyAction::ToInput
        } else {
            KeyAction::ToSpinner
        };
        let mut input_height: Option<usize> = None;
        let action = match key.kind {
            KeyKind::Enter => {
                if key.alt {
                    if idle && multi {
                        if input_blank {
                            KeyAction::Nothing
                        } else {
                            KeyAction::Submit
                        }
                    } else if idle {
                        self.input_mode = InputMode::MultiLine;
                        input_height = Some(MULTI_LINE_HEIGHT);
                        self.set_status(String::from_str("Multi-line mode: Alt+Enter to submit"));
                        KeyAction::Nothing
                    } else {
                        KeyAction::Nothing
                    }
                } else if idle && !multi && !input_blank {
                    KeyAction::Submit
                } else {
                    pass_on
                }
            },
            KeyKind::CtrlC => {
                if !idle {
                    self.set_status(String::from_str("Aborting request..."));
                    KeyAction::Abort
                } else {
                    KeyAction::Quit
                }
            },
            KeyKind::Esc => {
                if idle && multi {
                    self.input_mode = InputMode::SingleLine;
                    input_height = Some(SINGLE_LINE_HEIGHT);
                    self.set_status(String::from_str("Single-line mode"));
                    KeyAction::Nothing
                } else if idle {
                    KeyAction::Quit
                } else {
                    pass_on
                }
            },
            KeyKind::Up => {
                if idle && !multi {
                    KeyAction::HistoryBack
                } else {
                    pass_on
                }
            },
            KeyKind::Down => {
                if idle && !multi {
                    KeyAction::HistoryForward
                } else {
                    pass_on
                }
            },
            KeyKind::PgUp => KeyAction::PageUp,
            KeyKind::PgDown => KeyAction::PageDown,
            KeyKind::Other => pass_on,
        };
        KeyOutcome { action, input_height }
    }

    /// A prompt goes to the agent: it is recorded in the history as it was
    /// typed and shown as it is sent.
    pub fn submit_message(&mut self, typed: String, sent: &str, history: &mut InputHistory)
        ensures
            final(self)@ == old(self)@.sending(Some(sent@)),
            final(history).entries@ == old(history).entries@.push(typed),
            final(history).index is None,
            final(self).pending_inputs == old(self).pending_inputs,
    {
        history.record(typed);
        self.show(MessageRole::User, String::from_str(sent), None);
        self.input_mode = InputMode::SingleLine;
        self.agent_state = AgentState::Processing;
        self.can_abort = true;
    }

    /// Content goes to the agent: it is shown as text, where it shows as
    /// anything. Returns whether there was content; nothing changes where
    /// there was none.
    pub fn submit_content(&mut self, content: &[ContentBlock]) -> (sent: bool)
        ensures
            sent == (content@.len() > 0),
            final(self).pending_inputs == old(self).pending_inputs,
            ({
                let text = crate::interactive::blocks_text(blocks_view(content@));
                if content@.len() == 0 {
                    final(self)@ == old(self)@
                } else if trimmed(text).len() == 0 {
                    final(self)@ == old(self)@.sending(None)
                } else {
                    final(self)@ == old(self)@.sending(Some(text))
                }
            }),
    {
        if content.len() == 0 {
            return false;
        }
        let display = content_blocks_to_text(content);
        if !crate::text::is_blank(display.as_str()) {
            self.show(MessageRole::User, display, None);
        }
        self.input_mode = InputMode::SingleLine;
        self.agent_state = AgentState::Processing;
        self.can_abort = true;
        true
    }

    /// An OAuth code goes to the login: it is neither shown nor recorded.
    pub fn submit_oauth_code(&mut self)
        ensures
            final(self)@ == (UiStateV {
                input_mode: InputMode::SingleLine,
                agent_state: AgentState::Processing,
                ..old(self)@
            }),
            final(self).pending_inputs == old(self).pending_inputs,
    {
        self.input_mode = InputMode::SingleLine;
        self.agent_state = AgentState::Processing;
    }
}

/// What a line of input is.
#[derive(Debug, Clone)]
pub enum Submission {
    /// Nothing but white space.
    Nothing,
    /// The code that a login waits for.
    OAuthCode { code: String },
    /// A slash command and its arguments.
    Command { command: SlashCommand, args: String },
    /// A prompt for the agent.
    Prompt { text: String },
}

/// [`Submission`] as plain data.
pub enum SubmissionV {
    Nothing,
    OAuthCode { code: Seq<char> },
    Command { command: SlashCommand, args: Seq<char> },
    Prompt { text: Seq<char> },
}

impl View for Submission {
    type V = SubmissionV;

    open spec fn view(&self) -> SubmissionV {
        match self {
            Submission::Nothing => SubmissionV::Nothing,
            Submission::OAuthCode { code } => SubmissionV::OAuthCode { code: code@ },
            Submission::Command { command, args } => SubmissionV::Command {
                command: *command,
                args: args@,
            },
            Submission::Prompt { text } => SubmissionV::Prompt { text: text@ },
        }
    }
}

/// What a line of input is: white space round it does not count; while a
/// login waits for its code, every line is the code; else a line that
/// parses as a slash command is that command; anything else is a prompt.
pub open spec fn submission_of(input: Seq<char>, awaiting_code: bool) -> SubmissionV {
    let line = trimmed(input);
    if line.len() == 0 {
        SubmissionV::Nothing
    } else if awaiting_code {
        SubmissionV::OAuthCode { code: line }
    } else {
        match SlashCommand::parsed(line) {
            Some((command, args)) => SubmissionV::Command { command, args },
            None => SubmissionV::Prompt { text: line },
        }
    }
}

/// Says what a line of input is.
pub fn classify_submission(input: &str, awaiting_code: bool) -> (r: Submission)
    ensures
        r@ == submission_of(input@, awaiting_code),
{
    let line = crate::text::trim(input);
    if line.as_str().is_empty() {
        return Submission::Nothing;
    }
    if awaiting_code {
        return Submission::OAuthCode { code: line };
    }
    let parsed: Option<(SlashCommand, String)> = match SlashCommand::parse(line.as_str()) {
        Some((command, args)) => Some((command, String::from_str(args))),
        None => None,
    };
    match parsed {
        Some((command, args)) => Submission::Command { command, args },
        None => Submission::Prompt { text: line },
    }
}

} // verus!
