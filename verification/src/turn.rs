//! The agent turn as a state machine over plain values: the states, the
//! steps, and what holds of every state that a turn can reach.
//!
//! `crate::agent::Agent` carries this machine out; its methods are specified
//! by the functions here.

use crate::agent::{
    abort_message, tool_call_ids, tool_calls_of, tool_result_of, AgentEventV, ToolOutcomeV,
};
use crate::error::ErrorV;
use crate::json::JsonV;
use crate::model::{
    AssistantMessageV, ContentBlockV, MessageV, StopReason, StreamEventV, ToolCallV,
    UserContentV, UserMessageV,
};
use crate::provider::{ContextV, ProviderInfoV, ToolDefV};
use crate::text::decimal;
use vstd::prelude::*;

verus! {

/// How a turn ended.
#[derive(Debug, Clone, Copy, PartialEq, Eq, Structural)]
pub enum Ending {
    /// With a final message and the event `Done`.
    Completed,
    /// With an error that the stream reported and the event `Error`.
    StreamError,
    /// With an error of the turn itself and the event `Error`: the
    /// iteration limit, a provider that could not stream, or a stream that
    /// ended without `Done`.
    Failed,
}

/// Where a turn stands.
#[derive(Debug, Clone, Copy, PartialEq, Eq, Structural)]
pub enum Phase {
    /// No turn has begun.
    Idle,
    /// Between two requests to the model.
    Ready,
    /// The provider streams an answer.
    Streaming,
    /// The tool calls of the last answer are being run.
    Tools,
    /// The turn is over.
    Finished(Ending),
}

/// What the caller is to do next.
pub enum StepV {
    /// Ask the provider to stream an answer to this context.
    Stream(ContextV),
    /// Go on with the stream.
    Continue,
    /// Run this tool call.
    Execute(ToolCallV),
    /// Every tool call is answered: go to the next request.
    Advance,
    /// The turn is over, with this result.
    Finished(Result<AssistantMessageV, ErrorV>),
    /// The report does not fit the phase; nothing has changed.
    Refused,
}

/// The agent as plain data.
pub struct AgentV {
    pub provider: ProviderInfoV,
    pub system_prompt: Option<Seq<char>>,
    pub tools: Seq<ToolDefV>,
    /// How many requests to the model one turn may make.
    pub limit: nat,
    /// The conversation.
    pub messages: Seq<MessageV>,
    pub phase: Phase,
    /// The requests that this turn has made.
    pub iterations: nat,
    /// The events of this turn, oldest first.
    pub events: Seq<AgentEventV>,
    /// Where in `messages` this turn began.
    pub turn_start: nat,
    /// The last snapshot that the stream carried.
    pub last_partial: Option<AssistantMessageV>,
    /// The message of the last `Done` of the stream.
    pub final_message: Option<AssistantMessageV>,
    /// The tool calls of the answer that is being served.
    pub calls: Seq<ToolCallV>,
    /// How many of them are answered.
    pub next_call: nat,
}

/// Whether a message is an assistant message that stopped for tool use.
pub open spec fn is_tool_request(m: MessageV) -> bool {
    m is Assistant && m->Assistant_0.stop_reason == StopReason::ToolUse
}

/// The ids of the tool calls of an assistant message, in order.
pub open spec fn request_ids(m: MessageV) -> Seq<Seq<char>> {
    tool_call_ids(m->Assistant_0.content)
}

/// Whether a message is the result of the tool call with the given id.
pub open spec fn is_result_for(m: MessageV, id: Seq<char>) -> bool {
    m is ToolResult && m->ToolResult_0.tool_call_id == id
}

/// Whether the message at `i` is followed by the results of its tool calls
/// and by no other tool result: one result for each call, under the call's
/// id, in the order of the calls.
pub open spec fn answered(messages: Seq<MessageV>, i: int) -> bool {
    let ids = request_ids(messages[i]);
    &&& i + ids.len() < messages.len()
    &&& forall|k: int| 0 <= k < ids.len() ==> is_result_for(messages[i + 1 + k], #[trigger] ids[k])
    &&& (i + 1 + ids.len() < messages.len() ==> !(messages[i + 1 + ids.len()] is ToolResult))
}

/// Whether every assistant message from `from` on that stopped for tool use
/// is answered.
pub open spec fn all_answered(messages: Seq<MessageV>, from: nat) -> bool {
    forall|i: int|
        from <= i < messages.len() && is_tool_request(#[trigger] messages[i]) ==> answered(
            messages,
            i,
        )
}

/// Whether none of the events ends a turn.
pub open spec fn none_terminal(events: Seq<AgentEventV>) -> bool {
    forall|i: int| 0 <= i < events.len() ==> !(#[trigger] events[i]).is_terminal()
}

/// The message of the error for a turn that asked the model too often.
pub open spec fn limit_message(limit: nat) -> Seq<char> {
    "Maximum tool iterations ("@ + decimal(limit) + ") exceeded"@
}

impl AgentV {
    /// The state with one more event.
    pub open spec fn emit(self, event: AgentEventV) -> AgentV {
        AgentV { events: self.events.push(event), ..self }
    }

    /// The state with one more message.
    pub open spec fn append(self, message: MessageV) -> AgentV {
        AgentV { messages: self.messages.push(message), ..self }
    }

    /// The state of a turn that is over.
    pub open spec fn finish(self, ending: Ending) -> AgentV {
        AgentV { phase: Phase::Finished(ending), ..self }
    }

    /// The turn fails: the error is told as the last event of the turn, and
    /// the turn is over.
    pub open spec fn fail(self, error: ErrorV) -> (AgentV, StepV) {
        (
            self.emit(AgentEventV::Error { error: error.text() }).finish(Ending::Failed),
            StepV::Finished(Err(error)),
        )
    }

    /// What a provider is asked to continue.
    pub open spec fn context(self) -> ContextV {
        ContextV { system_prompt: self.system_prompt, messages: self.messages, tools: self.tools }
    }

    /// The tool call that is being run.
    pub open spec fn current_call(self) -> ToolCallV {
        self.calls[self.next_call as int]
    }

    /// A turn begins: the user's message is appended, and the record of the
    /// turn starts empty.
    pub open spec fn begin(self, content: UserContentV, now: i64) -> AgentV {
        AgentV {
            messages: self.messages.push(
                MessageV::User(UserMessageV { content, timestamp: now }),
            ),
            phase: Phase::Ready,
            iterations: 0,
            events: Seq::empty(),
            turn_start: self.messages.len(),
            last_partial: None,
            final_message: None,
            calls: Seq::empty(),
            next_call: 0,
            ..self
        }
    }

    /// The conversation is changed from outside a turn: any turn is given
    /// up.
    pub open spec fn reset(self, messages: Seq<MessageV>) -> AgentV {
        AgentV {
            messages,
            phase: Phase::Idle,
            iterations: 0,
            events: Seq::empty(),
            turn_start: messages.len(),
            last_partial: None,
            final_message: None,
            calls: Seq::empty(),
            next_call: 0,
            ..self
        }
    }

    /// An answer of the model is taken into the conversation. It ends the
    /// turn unless it stopped for tool use and holds tool calls; then the
    /// first call is to be run.
    pub open spec fn respond(self, message: AssistantMessageV) -> (AgentV, StepV) {
        let s = self.append(MessageV::Assistant(message)).emit(
            AgentEventV::AssistantDone { message },
        );
        let calls = tool_calls_of(message.content);
        if calls.len() == 0 || message.stop_reason != StopReason::ToolUse {
            (
                s.emit(AgentEventV::Done { final_message: message }).finish(Ending::Completed),
                StepV::Finished(Ok(message)),
            )
        } else {
            (
                AgentV {
                    phase: Phase::Tools,
                    calls,
                    next_call: 0,
                    ..s.emit(AgentEventV::ToolExecuteStart { name: calls[0].name, id: calls[0].id })
                },
                StepV::Execute(calls[0]),
            )
        }
    }

    /// The top of the loop. A turn that has made as many requests as it may
    /// fails; an abort ends it with the abort message; else a request
    /// starts.
    pub open spec fn advance(self, aborted: bool, now: i64) -> (AgentV, StepV) {
        if self.phase != Phase::Ready {
            (self, StepV::Refused)
        } else if self.iterations >= self.limit {
            self.fail(ErrorV::Api(limit_message(self.limit)))
        } else {
            let s = AgentV {
                iterations: (self.iterations + 1) as nat,
                last_partial: None,
                final_message: None,
                ..self
            };
            if aborted {
                s.respond(abort_message(None, self.provider, now))
            } else {
                let t = AgentV { phase: Phase::Streaming, ..s.emit(AgentEventV::RequestStart) };
                (t, StepV::Stream(t.context()))
            }
        }
    }

    /// One event of the stream. Deltas of text and thinking and the start of
    /// a tool call are passed on as events; an error of the stream ends the
    /// turn; everything else only moves the snapshot.
    pub open spec fn stream_event(self, event: StreamEventV) -> (AgentV, StepV) {
        if self.phase != Phase::Streaming {
            (self, StepV::Refused)
        } else {
            match event {
                StreamEventV::TextDelta { content_index, delta, partial } => (
                    AgentV {
                        last_partial: Some(partial),
                        ..self.emit(AgentEventV::TextDelta { text: delta })
                    },
                    StepV::Continue,
                ),
                StreamEventV::ThinkingDelta { content_index, delta, partial } => (
                    AgentV {
                        last_partial: Some(partial),
                        ..self.emit(AgentEventV::ThinkingDelta { text: delta })
                    },
                    StepV::Continue,
                ),
                StreamEventV::ToolCallStart { content_index, partial } => {
                    let s = AgentV { last_partial: Some(partial), ..self };
                    if partial.content.len() > 0 && partial.content.last() is ToolCall {
                        (
                            s.emit(
                                AgentEventV::ToolCallStart {
                                    name: partial.content.last()->ToolCall_0.name,
                                    id: partial.content.last()->ToolCall_0.id,
                                },
                            ),
                            StepV::Continue,
                        )
                    } else {
                        (s, StepV::Continue)
                    }
                },
                StreamEventV::Done { reason, message } => (
                    AgentV { final_message: Some(message), ..self },
                    StepV::Continue,
                ),
                StreamEventV::Error { reason, error } => {
                    let text = match error.error_message {
                        Some(m) => m,
                        None => "Unknown error"@,
                    };
                    (
                        self.emit(AgentEventV::Error { error: text }).finish(Ending::StreamError),
                        StepV::Finished(Err(ErrorV::Api(text))),
                    )
                },
                _ => (AgentV { last_partial: event.partial(), ..self }, StepV::Continue),
            }
        }
    }

    /// The stream is exhausted. The message of its last `Done` is the
    /// answer; a stream without `Done` fails the turn.
    pub open spec fn stream_end(self) -> (AgentV, StepV) {
        if self.phase != Phase::Streaming {
            (self, StepV::Refused)
        } else {
            match self.final_message {
                Some(message) => AgentV { final_message: None, ..self }.respond(message),
                None => self.fail(ErrorV::Api("Stream ended without Done event"@)),
            }
        }
    }

    /// The provider could not stream, or the stream broke: the turn fails
    /// with that error.
    pub open spec fn stream_failure(self, error: ErrorV) -> (AgentV, StepV) {
        if self.phase != Phase::Streaming {
            (self, StepV::Refused)
        } else {
            self.fail(error)
        }
    }

    /// The request is aborted while the provider streams: what the model
    /// had written, marked as aborted, is the answer.
    pub open spec fn stream_abort(self, now: i64) -> (AgentV, StepV) {
        if self.phase != Phase::Streaming {
            (self, StepV::Refused)
        } else {
            AgentV { last_partial: None, ..self }.respond(
                abort_message(self.last_partial, self.provider, now),
            )
        }
    }

    /// The tool that runs reports output on the way.
    pub open spec fn tool_update(self, content: Seq<ContentBlockV>, details: Option<JsonV>) -> (
        AgentV,
        StepV,
    ) {
        if self.phase != Phase::Tools {
            (self, StepV::Refused)
        } else {
            (
                self.emit(
                    AgentEventV::ToolUpdate {
                        name: self.current_call().name,
                        id: self.current_call().id,
                        content,
                        details,
                    },
                ),
                StepV::Continue,
            )
        }
    }

    /// The tool call that was being run has come to an end: its result is
    /// appended, and the next call is to be run, or the next request made.
    pub open spec fn tool_outcome(self, outcome: ToolOutcomeV, timestamp: i64) -> (AgentV, StepV) {
        if self.phase != Phase::Tools {
            (self, StepV::Refused)
        } else {
            let call = self.current_call();
            let result = tool_result_of(call, outcome, timestamp);
            let s = self.emit(
                AgentEventV::ToolExecuteEnd {
                    name: call.name,
                    id: call.id,
                    is_error: result.is_error,
                },
            ).append(MessageV::ToolResult(result));
            if self.next_call + 1 < self.calls.len() {
                let next = self.calls[self.next_call + 1 as int];
                (
                    AgentV {
                        next_call: (self.next_call + 1) as nat,
                        ..s.emit(AgentEventV::ToolExecuteStart { name: next.name, id: next.id })
                    },
                    StepV::Execute(next),
                )
            } else {
                (AgentV { phase: Phase::Ready, next_call: (self.next_call + 1) as nat, ..s }, StepV::Advance)
            }
        }
    }

    /// Where in the conversation the answer stands whose tool calls are
    /// being run.
    pub open spec fn request_at(self) -> int {
        self.messages.len() - 1 - self.next_call
    }

    /// What holds of every state that a turn can reach.
    pub open spec fn wf(self) -> bool {
        &&& self.turn_start <= self.messages.len()
        &&& match self.phase {
            Phase::Tools => {
                let a = self.request_at();
                &&& self.next_call < self.calls.len()
                &&& self.turn_start <= a
                &&& is_tool_request(self.messages[a])
                &&& self.calls == tool_calls_of(self.messages[a]->Assistant_0.content)
                &&& forall|k: int|
                    0 <= k < self.next_call ==> is_result_for(
                        self.messages[a + 1 + k],
                        (#[trigger] self.calls[k]).id,
                    )
                &&& all_answered(self.messages.take(a), self.turn_start)
            },
            _ => all_answered(self.messages, self.turn_start),
        }
        &&& match self.phase {
            Phase::Finished(Ending::Completed) => {
                &&& self.events.len() > 0
                &&& self.events.last() is Done
                &&& none_terminal(self.events.drop_last())
            },
            Phase::Finished(_) => {
                &&& self.events.len() > 0
                &&& self.events.last() is Error
                &&& none_terminal(self.events.drop_last())
            },
            _ => none_terminal(self.events),
        }
    }
}

/// Appending a message that is no tool result, and that asks for no tool
/// if it is a request, keeps every request answered.
pub proof fn lemma_push_keeps_answered(messages: Seq<MessageV>, from: nat, m: MessageV)
    requires
        all_answered(messages, from),
        !(m is ToolResult),
        is_tool_request(m) ==> request_ids(m).len() == 0,
    ensures
        all_answered(messages.push(m), from),
{
    let after = messages.push(m);
    assert forall|i: int| from <= i < after.len() && is_tool_request(#[trigger] after[i]) implies answered(
        after,
        i,
    ) by {
        if i < messages.len() {
            assert(after[i] == messages[i]);
            assert(answered(messages, i));
            let ids = request_ids(messages[i]);
            assert forall|k: int| 0 <= k < ids.len() implies is_result_for(
                after[i + 1 + k],
                #[trigger] ids[k],
            ) by {
                assert(after[i + 1 + k] == messages[i + 1 + k]);
            }
        }
    }
}

/// Once the last tool call of a request is answered, every request is.
pub proof fn lemma_last_result_answers(
    messages: Seq<MessageV>,
    from: nat,
    a: int,
    calls: Seq<ToolCallV>,
)
    requires
        from <= a < messages.len(),
        is_tool_request(messages[a]),
        calls == tool_calls_of(messages[a]->Assistant_0.content),
        messages.len() == a + 1 + calls.len(),
        forall|k: int| 0 <= k < calls.len() ==> is_result_for(messages[a + 1 + k], (#[trigger] calls[k]).id),
        all_answered(messages.take(a), from),
    ensures
        all_answered(messages, from),
{
    let ids = request_ids(messages[a]);
    assert(ids.len() == calls.len());
    assert forall|i: int| from <= i < messages.len() && is_tool_request(#[trigger] messages[i]) implies answered(
        messages,
        i,
    ) by {
        if i < a {
            let before = messages.take(a);
            assert(before[i] == messages[i]);
            assert(answered(before, i));
            let mine = request_ids(messages[i]);
            assert forall|k: int| 0 <= k < mine.len() implies is_result_for(
                messages[i + 1 + k],
                #[trigger] mine[k],
            ) by {
                assert(before[i + 1 + k] == messages[i + 1 + k]);
            }
            if i + 1 + mine.len() < a {
                assert(before[i + 1 + mine.len()] == messages[i + 1 + mine.len()]);
            }
        } else if i == a {
            assert forall|k: int| 0 <= k < ids.len() implies is_result_for(
                messages[a + 1 + k],
                #[trigger] ids[k],
            ) by {
                assert(ids[k] == calls[k].id);
            }
        } else {
            let k = i - a - 1;
            assert(is_result_for(messages[a + 1 + k], calls[k].id));
        }
    }
}

impl AgentV {
    /// A turn that begins is well formed.
    pub proof fn lemma_begin_wf(self, content: UserContentV, now: i64)
        ensures
            self.begin(content, now).wf(),
    {
    }

    /// A conversation that is changed from outside leaves a well-formed
    /// state.
    pub proof fn lemma_reset_wf(self, messages: Seq<MessageV>)
        ensures
            self.reset(messages).wf(),
    {
    }

    /// Taking an answer into the conversation keeps the state well formed.
    pub proof fn lemma_respond_wf(self, message: AssistantMessageV)
        requires
            self.wf(),
            self.phase == Phase::Ready || self.phase == Phase::Streaming,
        ensures
            self.respond(message).0.wf(),
    {
        let m = MessageV::Assistant(message);
        let after = self.respond(message).0;
        let calls = tool_calls_of(message.content);
        assert(request_ids(m).len() == calls.len());
        if calls.len() == 0 || message.stop_reason != StopReason::ToolUse {
            lemma_push_keeps_answered(self.messages, self.turn_start, m);
            assert(after.events.drop_last() =~= self.events.push(
                AgentEventV::AssistantDone { message },
            ));
        } else {
            assert(after.messages.take(after.request_at()) =~= self.messages);
        }
    }

    /// The top of the loop keeps the state well formed.
    /// A turn that fails stays well formed, if it fails while no tool call
    /// is being run.
    pub proof fn lemma_fail_wf(self, error: ErrorV)
        requires
            self.wf(),
            self.phase == Phase::Ready || self.phase == Phase::Streaming,
        ensures
            self.fail(error).0.wf(),
    {
        let after = self.fail(error).0;
        assert(after.events.drop_last() =~= self.events);
    }

    pub proof fn lemma_advance_wf(self, aborted: bool, now: i64)
        requires
            self.wf(),
        ensures
            self.advance(aborted, now).0.wf(),
    {
        if self.phase == Phase::Ready && self.iterations >= self.limit {
            self.lemma_fail_wf(ErrorV::Api(limit_message(self.limit)));
        }
        if self.phase == Phase::Ready && self.iterations < self.limit {
            let s = AgentV {
                iterations: (self.iterations + 1) as nat,
                last_partial: None,
                final_message: None,
                ..self
            };
            if aborted {
                s.lemma_respond_wf(abort_message(None, self.provider, now));
            }
        }
    }

    /// An event of the stream keeps the state well formed.
    pub proof fn lemma_stream_event_wf(self, event: StreamEventV)
        requires
            self.wf(),
        ensures
            self.stream_event(event).0.wf(),
    {
        if self.phase == Phase::Streaming {
            let after = self.stream_event(event).0;
            if event is Error {
                assert(after.events.drop_last() =~= self.events);
            }
        }
    }

    /// The end of the stream keeps the state well formed.
    pub proof fn lemma_stream_end_wf(self)
        requires
            self.wf(),
        ensures
            self.stream_end().0.wf(),
    {
        if self.phase == Phase::Streaming && self.final_message is Some {
            AgentV { final_message: None, ..self }.lemma_respond_wf(self.final_message->Some_0);
        }
        if self.phase == Phase::Streaming && self.final_message is None {
            self.lemma_fail_wf(ErrorV::Api("Stream ended without Done event"@));
        }
    }

    /// A failure of the stream keeps the state well formed.
    pub proof fn lemma_stream_failure_wf(self, error: ErrorV)
        requires
            self.wf(),
        ensures
            self.stream_failure(error).0.wf(),
    {
        if self.phase == Phase::Streaming {
            self.lemma_fail_wf(error);
        }
    }

    /// An abort of the stream keeps the state well formed.
    pub proof fn lemma_stream_abort_wf(self, now: i64)
        requires
            self.wf(),
        ensures
            self.stream_abort(now).0.wf(),
    {
        if self.phase == Phase::Streaming {
            AgentV { last_partial: None, ..self }.lemma_respond_wf(
                abort_message(self.last_partial, self.provider, now),
            );
        }
    }

    /// A report of a running tool keeps the state well formed.
    pub proof fn lemma_tool_update_wf(self, content: Seq<ContentBlockV>, details: Option<JsonV>)
        requires
            self.wf(),
        ensures
            self.tool_update(content, details).0.wf(),
    {
    }

    /// The end of a tool call keeps the state well formed.
    pub proof fn lemma_tool_outcome_wf(self, outcome: ToolOutcomeV, timestamp: i64)
        requires
            self.wf(),
        ensures
            self.tool_outcome(outcome, timestamp).0.wf(),
    {
        if self.phase == Phase::Tools {
            let after = self.tool_outcome(outcome, timestamp).0;
            let a = self.request_at();
            let call = self.current_call();
            let result = tool_result_of(call, outcome, timestamp);
            assert(after.messages == self.messages.push(MessageV::ToolResult(result)));
            assert(after.messages[a] == self.messages[a]);
            assert(after.messages.take(a) =~= self.messages.take(a));
            assert forall|k: int| 0 <= k < self.next_call + 1 implies is_result_for(
                after.messages[a + 1 + k],
                (#[trigger] self.calls[k]).id,
            ) by {
                if k < self.next_call {
                    assert(after.messages[a + 1 + k] == self.messages[a + 1 + k]);
                }
            }
            if self.next_call + 1 < self.calls.len() {
                assert(after.request_at() == a);
            } else {
                lemma_last_result_answers(after.messages, self.turn_start, a, self.calls);
            }
        }
    }

    /// Within a turn, every assistant message that stopped for tool use is
    /// followed at once by the results of its tool calls: one for each call,
    /// under the call's id, in the order of the calls, and by no other tool
    /// result. This holds whenever no tool call is being run.
    pub proof fn lemma_tool_results_follow(self, i: int)
        requires
            self.wf(),
            self.phase != Phase::Tools,
            self.turn_start <= i < self.messages.len(),
            is_tool_request(self.messages[i]),
        ensures
            answered(self.messages, i),
    {
    }

    /// While tool calls are being run, the calls that are done have their
    /// results, in order, right after the message that asked for them.
    pub proof fn lemma_tool_results_so_far(self, k: int)
        requires
            self.wf(),
            self.phase == Phase::Tools,
            0 <= k < self.next_call,
        ensures
            is_result_for(self.messages[self.request_at() + 1 + k], self.calls[k].id),
    {
    }

    /// Every turn that is over has exactly one event that ends a turn, and
    /// it is the last: `Done` where the turn gave a final message, `Error`
    /// where it failed. Never both, never neither.
    pub proof fn lemma_one_final_event(self)
        requires
            self.wf(),
            self.phase is Finished,
        ensures
            self.events.len() > 0,
            self.events.last() is Done || self.events.last() is Error,
            self.events.last().is_terminal(),
            forall|i: int| 0 <= i < self.events.len() - 1 ==> !(#[trigger] self.events[i]).is_terminal(),
            self.events.last() is Done <==> self.phase == Phase::Finished(Ending::Completed),
            self.events.last() is Error <==> self.phase != Phase::Finished(Ending::Completed),
    {
        assert forall|i: int| 0 <= i < self.events.len() - 1 implies !(#[trigger] self.events[i]).is_terminal() by {
            assert(self.events.drop_last()[i] == self.events[i]);
        }
    }

    /// A turn that is not over has emitted no event that ends a turn.
    pub proof fn lemma_no_final_event_yet(self, i: int)
        requires
            self.wf(),
            !(self.phase is Finished),
            0 <= i < self.events.len(),
        ensures
            !self.events[i].is_terminal(),
    {
    }
}

} // verus!
