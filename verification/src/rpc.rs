//! The RPC front end's own rules: how a request line is read, what a
//! response looks like, and the statistics of a session.

use crate::agent::{events_view, tool_calls_of, AgentEvent, AgentEventV, AgentSession};
use crate::json::{first_member, lemma_object_value, Json, JsonNumber, JsonV, NumberV};
use crate::model::{
    messages_view, opt_json, saturating_add, saturating_sum, Message, MessageV, UserMessage,
};
use crate::session::{journal_message, SessionMessage};
use crate::session_file::{
    assistant_doc, assistant_json, block_docs, blocks_json, member, message_doc, message_json,
    object, opt_doc, opt_json_doc, opt_text_doc, text, text_doc,
};
use crate::text::str_eq;
use vstd::prelude::*;

verus! {

/// What a request asks for.
#[derive(Debug, Clone)]
pub enum RpcCommand {
    GetState,
    GetSessionStats,
    Prompt { message: String },
    /// A type that this front end does not serve.
    Other { name: String },
}

/// [`RpcCommand`] as plain data.
pub enum RpcCommandV {
    GetState,
    GetSessionStats,
    Prompt { message: Seq<char> },
    Other { name: Seq<char> },
}

impl View for RpcCommand {
    type V = RpcCommandV;

    open spec fn view(&self) -> RpcCommandV {
        match self {
            RpcCommand::GetState => RpcCommandV::GetState,
            RpcCommand::GetSessionStats => RpcCommandV::GetSessionStats,
            RpcCommand::Prompt { message } => RpcCommandV::Prompt { message: message@ },
            RpcCommand::Other { name } => RpcCommandV::Other { name: name@ },
        }
    }
}

/// A request: its id and what it asks for.
#[derive(Debug, Clone)]
pub struct RpcRequest {
    pub id: String,
    pub command: RpcCommand,
}

/// The string under `key`, if the document is an object that holds one.
pub open spec fn string_at(doc: JsonV, key: Seq<char>) -> Option<Seq<char>> {
    match doc.member(key) {
        Some(v) => v.text(),
        None => None,
    }
}

/// What a request document asks for, by its `type`; a prompt without a
/// `message` string asks for an empty one.
pub open spec fn command_of(doc: JsonV, name: Seq<char>) -> RpcCommandV {
    if name == "get_state"@ {
        RpcCommandV::GetState
    } else if name == "get_session_stats"@ {
        RpcCommandV::GetSessionStats
    } else if name == "prompt"@ {
        RpcCommandV::Prompt {
            message: match string_at(doc, "message"@) {
                Some(m) => m,
                None => Seq::empty(),
            },
        }
    } else {
        RpcCommandV::Other { name }
    }
}

/// The request that a document is: it must hold the strings `id` and
/// `type`.
pub open spec fn request_of(doc: JsonV) -> Option<(Seq<char>, RpcCommandV)> {
    match (string_at(doc, "id"@), string_at(doc, "type"@)) {
        (Some(id), Some(name)) => Some((id, command_of(doc, name))),
        _ => None,
    }
}

/// The string under `key`, if the document is an object that holds one.
pub fn get_string<'a>(doc: &'a Json, key: &str) -> (r: Option<&'a str>)
    ensures
        match r {
            Some(s) => string_at(doc@, key@) == Some(s@),
            None => string_at(doc@, key@).is_none(),
        },
{
    match doc.get(key) {
        Some(v) => v.as_str(),
        None => None,
    }
}

/// Reads a request from its document. `None` where `id` or `type` is
/// missing or no string.
pub fn read_request(doc: &Json) -> (r: Option<RpcRequest>)
    ensures
        match r {
            Some(request) => request_of(doc@) == Some((request.id@, request.command@)),
            None => request_of(doc@).is_none(),
        },
{
    let id = match get_string(doc, "id") {
        Some(id) => id,
        None => {
            return None;
        },
    };
    let name = match get_string(doc, "type") {
        Some(name) => name,
        None => {
            return None;
        },
    };
    let command = if str_eq(name, "get_state") {
        RpcCommand::GetState
    } else if str_eq(name, "get_session_stats") {
        RpcCommand::GetSessionStats
    } else if str_eq(name, "prompt") {
        RpcCommand::Prompt {
            message: match get_string(doc, "message") {
                Some(m) => String::from_str(m),
                None => String::new(),
            },
        }
    } else {
        RpcCommand::Other { name: String::from_str(name) }
    };
    Some(RpcRequest { id: String::from_str(id), command })
}

/// Reads a request from one line of input. `Err` holds the parser's
/// message for a line that is no JSON, and a fixed message for a document
/// that is no request.
pub fn parse_request(line: &str) -> (r: Result<RpcRequest, String>)
    ensures
        match crate::json::parsed_json(line@) {
            Ok(doc) => match request_of(doc) {
                Some(request) => r is Ok && (r->Ok_0.id@, r->Ok_0.command@) == request,
                None => r is Err && r->Err_0@ == "request needs the strings `id` and `type`"@,
            },
            Err(message) => r is Err && r->Err_0@ == message,
        },
{
    let doc = match Json::parse(line) {
        Ok(doc) => doc,
        Err(message) => {
            return Err(message);
        },
    };
    match read_request(&doc) {
        Some(request) => Ok(request),
        None => Err(String::from_str("request needs the strings `id` and `type`")),
    }
}

/// The members that a response always has.
pub open spec fn response_head(id: Seq<char>, command: Seq<char>, success: bool) -> Seq<
    (Seq<char>, JsonV),
> {
    seq![
        ("id"@, JsonV::Text(id)),
        ("type"@, JsonV::Text("response"@)),
        ("command"@, JsonV::Text(command)),
        ("success"@, JsonV::Bool(success)),
    ]
}

/// The response to a request: `id`, `type`, `command` and `success`, then
/// `data` and `error` where there are any.
pub open spec fn response_of(
    id: Seq<char>,
    command: Seq<char>,
    success: bool,
    data: Option<JsonV>,
    error: Option<Seq<char>>,
) -> JsonV {
    let head = response_head(id, command, success);
    let with_data = match data {
        Some(d) => head.push(("data"@, d)),
        None => head,
    };
    JsonV::Object(
        match error {
            Some(e) => with_data.push(("error"@, JsonV::Text(e))),
            None => with_data,
        },
    )
}

/// Builds the response to a request.
pub fn response(id: &str, command: &str, success: bool, data: Option<Json>, error: Option<&str>) -> (r:
    Json)
    ensures
        r@ == response_of(
            id@,
            command@,
            success,
            crate::model::opt_json(data),
            match error {
                Some(e) => Some(e@),
                None => None,
            },
        ),
{
    let mut members: Vec<(String, Json)> = vec![
        (String::from_str("id"), Json::Text(String::from_str(id))),
        (String::from_str("type"), Json::Text(String::from_str("response"))),
        (String::from_str("command"), Json::Text(String::from_str(command))),
        (String::from_str("success"), Json::Bool(success)),
    ];
    match data {
        Some(d) => {
            members.push((String::from_str("data"), d));
        },
        None => {},
    }
    match error {
        Some(e) => {
            members.push((String::from_str("error"), Json::Text(String::from_str(e))));
        },
        None => {},
    }
    let r = Json::Object(members);
    proof {
        lemma_object_value(members@);
        assert(r@->Object_0 =~= response_of(
            id@,
            command@,
            success,
            crate::model::opt_json(data),
            match error {
                Some(e) => Some(e@),
                None => None,
            },
        )->Object_0);
    }
    r
}

/// The statistics of a conversation. Every count is held at `u64::MAX`.
#[derive(Debug, Clone, Copy, PartialEq, Eq, Structural)]
pub struct SessionStats {
    pub user_messages: u64,
    pub assistant_messages: u64,
    /// The tool calls among the blocks of the assistant messages.
    pub tool_calls: u64,
    /// The tool result messages.
    pub tool_results: u64,
    pub total_messages: u64,
    pub input_tokens: u64,
    pub output_tokens: u64,
    pub total_tokens: u64,
}

/// `n` as a count, held at `u64::MAX`.
pub open spec fn as_count(n: nat) -> u64 {
    if n > u64::MAX {
        u64::MAX
    } else {
        n as u64
    }
}

impl SessionStats {
    /// The statistics of no messages.
    pub open spec fn none() -> SessionStats {
        SessionStats {
            user_messages: 0,
            assistant_messages: 0,
            tool_calls: 0,
            tool_results: 0,
            total_messages: 0,
            input_tokens: 0,
            output_tokens: 0,
            total_tokens: 0,
        }
    }

    /// The statistics with one more message counted.
    pub open spec fn with(self, m: MessageV) -> SessionStats {
        let counted = SessionStats {
            total_messages: saturating_sum(self.total_messages, 1),
            ..self
        };
        match m {
            MessageV::User(u) => SessionStats {
                user_messages: saturating_sum(self.user_messages, 1),
                ..counted
            },
            MessageV::Assistant(a) => SessionStats {
                assistant_messages: saturating_sum(self.assistant_messages, 1),
                tool_calls: saturating_sum(self.tool_calls, as_count(tool_calls_of(a.content).len())),
                input_tokens: saturating_sum(self.input_tokens, a.usage.input),
                output_tokens: saturating_sum(self.output_tokens, a.usage.output),
                total_tokens: saturating_sum(self.total_tokens, a.usage.total_tokens),
                ..counted
            },
            MessageV::ToolResult(t) => SessionStats {
                tool_results: saturating_sum(self.tool_results, 1),
                ..counted
            },
            MessageV::Custom(c) => counted,
        }
    }

    /// The statistics of a conversation.
    pub open spec fn of(messages: Seq<MessageV>) -> SessionStats
        decreases messages.len(),
    {
        if messages.len() == 0 {
            SessionStats::none()
        } else {
            SessionStats::of(messages.drop_last()).with(messages.last())
        }
    }
}

/// The statistics of a conversation.
pub fn session_stats(messages: &[Message]) -> (r: SessionStats)
    ensures
        r == SessionStats::of(messages_view(messages@)),
{
    let mut stats = SessionStats {
        user_messages: 0,
        assistant_messages: 0,
        tool_calls: 0,
        tool_results: 0,
        total_messages: 0,
        input_tokens: 0,
        output_tokens: 0,
        total_tokens: 0,
    };
    let ghost all = messages_view(messages@);
    let mut i: usize = 0;
    while i < messages.len()
        invariant
            i <= messages.len(),
            all == messages_view(messages@),
            stats == SessionStats::of(all.take(i as int)),
        decreases messages.len() - i,
    {
        proof {
            assert(all.take(i + 1).drop_last() =~= all.take(i as int));
            assert(all.take(i + 1).last() == messages@[i as int]@);
        }
        stats.total_messages = saturating_add(stats.total_messages, 1);
        match &messages[i] {
            Message::User(_) => {
                stats.user_messages = saturating_add(stats.user_messages, 1);
            },
            Message::Assistant(a) => {
                let calls = crate::agent::extract_tool_calls(a.content.as_slice());
                assert(calls@.len() == calls@.map_values(|c: &crate::model::ToolCall| c@).len());
                stats.assistant_messages = saturating_add(stats.assistant_messages, 1);
                stats.tool_calls = saturating_add(stats.tool_calls, calls.len() as u64);
                stats.input_tokens = saturating_add(stats.input_tokens, a.usage.input);
                stats.output_tokens = saturating_add(stats.output_tokens, a.usage.output);
                stats.total_tokens = saturating_add(stats.total_tokens, a.usage.total_tokens);
            },
            Message::ToolResult(_) => {
                stats.tool_results = saturating_add(stats.tool_results, 1);
            },
            Message::Custom(_) => {},
        }
        i += 1;
    }
    assert(all.take(i as int) =~= all);
    stats
}

/// A count as a JSON number.
pub open spec fn count_json(n: u64) -> JsonV {
    JsonV::Number(NumberV::Unsigned(n))
}

/// The statistics as the `data` of a response.
pub open spec fn stats_json(stats: SessionStats, session_file: Option<Seq<char>>) -> JsonV {
    JsonV::Object(
        seq![
            (
                "sessionFile"@,
                match session_file {
                    Some(f) => JsonV::Text(f),
                    None => JsonV::Null,
                },
            ),
            ("userMessages"@, count_json(stats.user_messages)),
            ("assistantMessages"@, count_json(stats.assistant_messages)),
            ("toolCalls"@, count_json(stats.tool_calls)),
            ("toolResults"@, count_json(stats.tool_results)),
            ("totalMessages"@, count_json(stats.total_messages)),
            (
                "tokens"@,
                JsonV::Object(
                    seq![
                        ("input"@, count_json(stats.input_tokens)),
                        ("output"@, count_json(stats.output_tokens)),
                        ("total"@, count_json(stats.total_tokens)),
                    ],
                ),
            ),
        ],
    )
}

fn count(n: u64) -> (r: Json)
    ensures
        r@ == count_json(n),
{
    Json::Number(JsonNumber::Unsigned(n))
}

/// The statistics as the `data` of a response.
pub fn session_stats_data(stats: &SessionStats, session_file: Option<&str>) -> (r: Json)
    ensures
        r@ == stats_json(
            *stats,
            match session_file {
                Some(f) => Some(f@),
                None => None,
            },
        ),
{
    let tokens: Vec<(String, Json)> = vec![
        (String::from_str("input"), count(stats.input_tokens)),
        (String::from_str("output"), count(stats.output_tokens)),
        (String::from_str("total"), count(stats.total_tokens)),
    ];
    let tokens_doc = Json::Object(tokens);
    proof {
        lemma_object_value(tokens@);
        assert(tokens_doc@->Object_0 =~= seq![
            ("input"@, count_json(stats.input_tokens)),
            ("output"@, count_json(stats.output_tokens)),
            ("total"@, count_json(stats.total_tokens)),
        ]);
    }
    let members: Vec<(String, Json)> = vec![
        (
            String::from_str("sessionFile"),
            match session_file {
                Some(f) => Json::Text(String::from_str(f)),
                None => Json::Null,
            },
        ),
        (String::from_str("userMessages"), count(stats.user_messages)),
        (String::from_str("assistantMessages"), count(stats.assistant_messages)),
        (String::from_str("toolCalls"), count(stats.tool_calls)),
        (String::from_str("toolResults"), count(stats.tool_results)),
        (String::from_str("totalMessages"), count(stats.total_messages)),
        (String::from_str("tokens"), tokens_doc),
    ];
    let r = Json::Object(members);
    proof {
        lemma_object_value(members@);
        assert(r@->Object_0 =~= stats_json(
            *stats,
            match session_file {
                Some(f) => Some(f@),
                None => None,
            },
        )->Object_0);
    }
    r
}

/// What `get_state` reports: the model, the session's file and the
/// session's name, each `null` where there is none.
pub open spec fn state_doc(
    model: Option<Seq<char>>,
    session_file: Option<Seq<char>>,
    session_name: Option<Seq<char>>,
) -> JsonV {
    JsonV::Object(
        seq![
            ("model"@, opt_text_doc(model)),
            ("sessionFile"@, opt_text_doc(session_file)),
            ("sessionName"@, opt_text_doc(session_name)),
        ],
    )
}

/// The text behind an optional borrowed text.
pub open spec fn opt_str(o: Option<&str>) -> Option<Seq<char>> {
    match o {
        Some(s) => Some(s@),
        None => None,
    }
}

fn opt_str_json(o: Option<&str>) -> (r: Json)
    ensures
        r@ == opt_text_doc(opt_str(o)),
{
    match o {
        Some(s) => Json::Text(String::from_str(s)),
        None => Json::Null,
    }
}

/// The data of the response to `get_state`.
pub fn state_data(model: Option<&str>, session_file: Option<&str>, session_name: Option<&str>) -> (r:
    Json)
    ensures
        r@ == state_doc(opt_str(model), opt_str(session_file), opt_str(session_name)),
{
    let members: Vec<(String, Json)> = vec![
        member("model", opt_str_json(model)),
        member("sessionFile", opt_str_json(session_file)),
        member("sessionName", opt_str_json(session_name)),
    ];
    let r = object(members);
    proof {
        lemma_object_value(members@);
        assert(r@->Object_0 =~= state_doc(
            opt_str(model),
            opt_str(session_file),
            opt_str(session_name),
        )->Object_0);
    }
    r
}

/// An event line: its `type`, then its other members.
pub open spec fn event_line(kind: Seq<char>, rest: Seq<(Seq<char>, JsonV)>) -> JsonV {
    JsonV::Object(seq![("type"@, JsonV::Text(kind))] + rest)
}

/// The `type` of an event line.
pub open spec fn line_type(line: JsonV) -> Option<JsonV> {
    line.member("type"@)
}

/// The line that opens a message of the given role.
pub open spec fn message_start_doc(role: Seq<char>) -> JsonV {
    event_line("message_start"@, seq![("role"@, JsonV::Text(role))])
}

/// The line that closes a message and carries it.
pub open spec fn message_end_doc(role: Seq<char>, message: JsonV) -> JsonV {
    event_line("message_end"@, seq![("role"@, JsonV::Text(role)), ("message"@, message)])
}

/// The line that ends a prompt, with the error that ended it, if one did.
pub open spec fn agent_end_doc(error: Option<Seq<char>>) -> JsonV {
    event_line("agent_end"@, seq![("error"@, opt_text_doc(error))])
}

/// The line of a tool event: the tool's name and the call's id.
pub open spec fn tool_line(kind: Seq<char>, name: Seq<char>, id: Seq<char>, more: Seq<
    (Seq<char>, JsonV),
>) -> JsonV {
    event_line(
        kind,
        seq![("toolName"@, JsonV::Text(name)), ("toolCallId"@, JsonV::Text(id))] + more,
    )
}

/// The line of an event of the agent. The two events that end a turn have
/// none: the end of a prompt is told once, by the `agent_end` line.
pub open spec fn event_doc(event: AgentEventV) -> Option<JsonV> {
    match event {
        AgentEventV::RequestStart => Some(message_start_doc("assistant"@)),
        AgentEventV::TextDelta { text } => Some(
            event_line("delta"@, seq![("kind"@, JsonV::Text("text"@)), ("text"@, JsonV::Text(text))]),
        ),
        AgentEventV::ThinkingDelta { text } => Some(
            event_line(
                "delta"@,
                seq![("kind"@, JsonV::Text("thinking"@)), ("text"@, JsonV::Text(text))],
            ),
        ),
        AgentEventV::ToolCallStart { name, id } => Some(
            tool_line("tool_call_start"@, name, id, Seq::empty()),
        ),
        AgentEventV::ToolExecuteStart { name, id } => Some(
            tool_line("tool_execution_start"@, name, id, Seq::empty()),
        ),
        AgentEventV::ToolExecuteEnd { name, id, is_error } => Some(
            tool_line("tool_execution_end"@, name, id, seq![("isError"@, JsonV::Bool(is_error))]),
        ),
        AgentEventV::ToolUpdate { name, id, content, details } => Some(
            tool_line(
                "tool_execution_update"@,
                name,
                id,
                seq![
                    ("content"@, JsonV::Array(block_docs(content))),
                    ("details"@, opt_doc(details)),
                ],
            ),
        ),
        AgentEventV::AssistantDone { message } => Some(
            message_end_doc("assistant"@, assistant_doc(message)),
        ),
        AgentEventV::Error { .. } => None,
        AgentEventV::Done { .. } => None,
    }
}

/// The lines of a run of events, in the order of the events.
pub open spec fn event_docs(events: Seq<AgentEventV>) -> Seq<JsonV>
    decreases events.len(),
{
    if events.len() == 0 {
        Seq::empty()
    } else {
        let before = event_docs(events.drop_last());
        match event_doc(events.last()) {
            Some(line) => before.push(line),
            None => before,
        }
    }
}

/// The views of a run of lines.
pub open spec fn lines_view(lines: Seq<Json>) -> Seq<JsonV> {
    lines.map_values(|j: Json| j@)
}

/// The two lines of the user's message that starts a prompt.
pub open spec fn user_lines(message: MessageV) -> Seq<JsonV> {
    seq![
        message_start_doc("user"@),
        message_end_doc("user"@, message_doc(journal_message(message))),
    ]
}

/// Every line of a prompt: the user's message, the events of the agent in
/// their order, and the one line that ends the prompt.
pub open spec fn prompt_docs(
    message: MessageV,
    events: Seq<AgentEventV>,
    error: Option<Seq<char>>,
) -> Seq<JsonV> {
    (user_lines(message) + event_docs(events)).push(agent_end_doc(error))
}

/// Whether a line ends a prompt.
pub open spec fn is_agent_end(line: JsonV) -> bool {
    line_type(line) == Some(JsonV::Text("agent_end"@))
}

/// The type of an event line is the one it was made with.
pub proof fn lemma_line_type(kind: Seq<char>, rest: Seq<(Seq<char>, JsonV)>)
    ensures
        line_type(event_line(kind, rest)) == Some(JsonV::Text(kind)),
{
    let members = seq![("type"@, JsonV::Text(kind))] + rest;
    assert(members[0].0 == "type"@);
    assert(first_member(members, "type"@) == Some(members[0].1));
}

/// No event of the agent gives a line that ends a prompt.
pub proof fn lemma_event_is_no_end(event: AgentEventV)
    ensures
        match event_doc(event) {
            Some(line) => !is_agent_end(line),
            None => true,
        },
{
    reveal_strlit("agent_end");
    reveal_strlit("message_start");
    reveal_strlit("message_end");
    reveal_strlit("delta");
    reveal_strlit("tool_call_start");
    reveal_strlit("tool_execution_start");
    reveal_strlit("tool_execution_end");
    reveal_strlit("tool_execution_update");
    assert("agent_end"@.len() == 9);
    assert("message_start"@.len() == 13);
    assert("message_end"@.len() == 11);
    assert("delta"@.len() == 5);
    assert("tool_call_start"@.len() == 15);
    assert("tool_execution_start"@.len() == 20);
    assert("tool_execution_end"@.len() == 18);
    assert("tool_execution_update"@.len() == 21);
    match event {
        AgentEventV::RequestStart => {
            lemma_line_type("message_start"@, seq![("role"@, JsonV::Text("assistant"@))]);
        },
        AgentEventV::TextDelta { text } => {
            lemma_line_type(
                "delta"@,
                seq![("kind"@, JsonV::Text("text"@)), ("text"@, JsonV::Text(text))],
            );
        },
        AgentEventV::ThinkingDelta { text } => {
            lemma_line_type(
                "delta"@,
                seq![("kind"@, JsonV::Text("thinking"@)), ("text"@, JsonV::Text(text))],
            );
        },
        AgentEventV::ToolCallStart { name, id } => {
            lemma_line_type(
                "tool_call_start"@,
                seq![("toolName"@, JsonV::Text(name)), ("toolCallId"@, JsonV::Text(id))]
                    + Seq::empty(),
            );
        },
        AgentEventV::ToolExecuteStart { name, id } => {
            lemma_line_type(
                "tool_execution_start"@,
                seq![("toolName"@, JsonV::Text(name)), ("toolCallId"@, JsonV::Text(id))]
                    + Seq::empty(),
            );
        },
        AgentEventV::ToolExecuteEnd { name, id, is_error } => {
            lemma_line_type(
                "tool_execution_end"@,
                seq![("toolName"@, JsonV::Text(name)), ("toolCallId"@, JsonV::Text(id))]
                    + seq![("isError"@, JsonV::Bool(is_error))],
            );
        },
        AgentEventV::ToolUpdate { name, id, content, details } => {
            lemma_line_type(
                "tool_execution_update"@,
                seq![("toolName"@, JsonV::Text(name)), ("toolCallId"@, JsonV::Text(id))]
                    + seq![
                    ("content"@, JsonV::Array(block_docs(content))),
                    ("details"@, opt_doc(details)),
                ],
            );
        },
        AgentEventV::AssistantDone { message } => {
            lemma_line_type(
                "message_end"@,
                seq![("role"@, JsonV::Text("assistant"@)), ("message"@, assistant_doc(message))],
            );
        },
        AgentEventV::Error { .. } => {},
        AgentEventV::Done { .. } => {},
    }
}

/// No line of a run of events ends a prompt.
pub proof fn lemma_events_hold_no_end(events: Seq<AgentEventV>)
    ensures
        forall|i: int|
            0 <= i < event_docs(events).len() ==> !is_agent_end(#[trigger] event_docs(events)[i]),
    decreases events.len(),
{
    if events.len() > 0 {
        lemma_events_hold_no_end(events.drop_last());
        lemma_event_is_no_end(events.last());
        let before = event_docs(events.drop_last());
        assert forall|i: int| 0 <= i < event_docs(events).len() implies !is_agent_end(
            #[trigger] event_docs(events)[i],
        ) by {
            if i < before.len() {
                assert(event_docs(events)[i] == before[i]);
            }
        }
    }
}

/// The lines of a run of events that came in two parts are the lines of
/// the first part, then those of the second: the lines keep the order of
/// the events, however the events arrive.
pub proof fn lemma_event_docs_concat(first: Seq<AgentEventV>, second: Seq<AgentEventV>)
    ensures
        event_docs(first + second) == event_docs(first) + event_docs(second),
    decreases second.len(),
{
    if second.len() == 0 {
        assert(first + second =~= first);
        assert(event_docs(first) + event_docs(second) =~= event_docs(first));
    } else {
        let all = first + second;
        assert(all.drop_last() =~= first + second.drop_last());
        assert(all.last() == second.last());
        lemma_event_docs_concat(first, second.drop_last());
        match event_doc(second.last()) {
            Some(line) => {
                assert((event_docs(first) + event_docs(second.drop_last())).push(line)
                    =~= event_docs(first) + event_docs(second.drop_last()).push(line));
            },
            None => {},
        }
    }
}

/// Every prompt ends with one `agent_end` line: the last line is one, and
/// no line before it is.
pub proof fn lemma_one_agent_end(
    message: MessageV,
    events: Seq<AgentEventV>,
    error: Option<Seq<char>>,
)
    ensures
        is_agent_end(prompt_docs(message, events, error).last()),
        forall|i: int|
            0 <= i < prompt_docs(message, events, error).len() - 1 ==> !is_agent_end(
                #[trigger] prompt_docs(message, events, error)[i],
            ),
{
    let lines = prompt_docs(message, events, error);
    lemma_line_type("agent_end"@, seq![("error"@, opt_text_doc(error))]);
    lemma_events_hold_no_end(events);
    reveal_strlit("agent_end");
    reveal_strlit("message_start");
    reveal_strlit("message_end");
    assert("agent_end"@.len() == 9);
    assert("message_start"@.len() == 13);
    assert("message_end"@.len() == 11);
    lemma_line_type("message_start"@, seq![("role"@, JsonV::Text("user"@))]);
    lemma_line_type(
        "message_end"@,
        seq![
            ("role"@, JsonV::Text("user"@)),
            ("message"@, message_doc(journal_message(message))),
        ],
    );
    assert forall|i: int| 0 <= i < lines.len() - 1 implies !is_agent_end(#[trigger] lines[i]) by {
        if i >= 2 {
            assert(lines[i] == event_docs(events)[i - 2]);
        }
    }
}

fn made(members: Vec<(String, Json)>) -> (r: Json)
    ensures
        r@ matches JsonV::Object(m) && m.len() == members.len() && forall|k: int|
            0 <= k < members.len() ==> (#[trigger] m[k]) == (members[k].0@, members[k].1@),
{
    proof {
        lemma_object_value(members@);
    }
    object(members)
}

fn tool_members(kind: &str, name: &str, id: &str) -> (r: Vec<(String, Json)>)
    ensures
        r@.len() == 3,
        r@[0].0@ == "type"@ && r@[0].1@ == JsonV::Text(kind@),
        r@[1].0@ == "toolName"@ && r@[1].1@ == JsonV::Text(name@),
        r@[2].0@ == "toolCallId"@ && r@[2].1@ == JsonV::Text(id@),
{
    vec![member("type", text(kind)), member("toolName", text(name)), member("toolCallId", text(id))]
}

/// The line that opens a message of the given role.
pub fn message_start(role: &str) -> (r: Json)
    ensures
        r@ == message_start_doc(role@),
{
    let r = made(vec![member("type", text("message_start")), member("role", text(role))]);
    assert(r@->Object_0 =~= message_start_doc(role@)->Object_0);
    r
}

/// The line that closes a message and carries it.
pub fn message_end(role: &str, message: Json) -> (r: Json)
    ensures
        r@ == message_end_doc(role@, message@),
{
    let r = made(
        vec![
            member("type", text("message_end")),
            member("role", text(role)),
            member("message", message),
        ],
    );
    assert(r@->Object_0 =~= message_end_doc(role@, message@)->Object_0);
    r
}

/// The line that ends a prompt.
pub fn agent_end(error: Option<&str>) -> (r: Json)
    ensures
        r@ == agent_end_doc(opt_str(error)),
        is_agent_end(r@),
{
    let r = made(vec![member("type", text("agent_end")), member("error", opt_str_json(error))]);
    proof {
        assert(r@->Object_0 =~= agent_end_doc(opt_str(error))->Object_0);
        lemma_line_type("agent_end"@, seq![("error"@, opt_text_doc(opt_str(error)))]);
    }
    r
}

/// The line of an event of the agent, if it has one.
pub fn event_json(event: &AgentEvent) -> (r: Option<Json>)
    ensures
        match r {
            Some(line) => event_doc(event@) == Some(line@) && !is_agent_end(line@),
            None => event_doc(event@).is_none(),
        },
{
    proof {
        lemma_event_is_no_end(event@);
    }
    match event {
        AgentEvent::RequestStart => Some(message_start("assistant")),
        AgentEvent::TextDelta { text: delta } => {
            let r = made(
                vec![
                    member("type", text("delta")),
                    member("kind", text("text")),
                    member("text", text(delta.as_str())),
                ],
            );
            assert(r@->Object_0 =~= event_doc(event@)->Some_0->Object_0);
            Some(r)
        },
        AgentEvent::ThinkingDelta { text: delta } => {
            let r = made(
                vec![
                    member("type", text("delta")),
                    member("kind", text("thinking")),
                    member("text", text(delta.as_str())),
                ],
            );
            assert(r@->Object_0 =~= event_doc(event@)->Some_0->Object_0);
            Some(r)
        },
        AgentEvent::ToolCallStart { name, id } => {
            let r = made(tool_members("tool_call_start", name.as_str(), id.as_str()));
            assert(r@->Object_0 =~= event_doc(event@)->Some_0->Object_0);
            Some(r)
        },
        AgentEvent::ToolExecuteStart { name, id } => {
            let r = made(tool_members("tool_execution_start", name.as_str(), id.as_str()));
            assert(r@->Object_0 =~= event_doc(event@)->Some_0->Object_0);
            Some(r)
        },
        AgentEvent::ToolExecuteEnd { name, id, is_error } => {
            let mut members = tool_members("tool_execution_end", name.as_str(), id.as_str());
            members.push(member("isError", Json::Bool(*is_error)));
            let r = made(members);
            assert(r@->Object_0 =~= event_doc(event@)->Some_0->Object_0);
            Some(r)
        },
        AgentEvent::ToolUpdate { name, id, content, details } => {
            let mut members = tool_members("tool_execution_update", name.as_str(), id.as_str());
            members.push(member("content", blocks_json(content.as_slice())));
            members.push(member("details", opt_json_doc(details)));
            let r = made(members);
            assert(r@->Object_0 =~= event_doc(event@)->Some_0->Object_0);
            Some(r)
        },
        AgentEvent::AssistantDone { message } => Some(
            message_end("assistant", assistant_json(message)),
        ),
        AgentEvent::Error { .. } => None,
        AgentEvent::Done { .. } => None,
    }
}

/// The two lines of the user's message that starts a prompt.
pub fn lines_of_user(user: &UserMessage) -> (r: Vec<Json>)
    ensures
        lines_view(r@) == user_lines(MessageV::User(user@)),
{
    let journal = SessionMessage::from_message(Message::User(user.clone()));
    let lines: Vec<Json> = vec![message_start("user"), message_end("user", message_json(&journal))];
    assert(lines_view(lines@) =~= user_lines(MessageV::User(user@)));
    lines
}

/// The lines of the user's message and of the events, in their order.
fn lines_so_far(user: &UserMessage, events: &[AgentEvent]) -> (r: Vec<Json>)
    ensures
        lines_view(r@) == user_lines(MessageV::User(user@)) + event_docs(events_view(events@)),
{
    let mut lines = lines_of_user(user);
    let ghost head = user_lines(MessageV::User(user@));
    let mut i: usize = 0;
    while i < events.len()
        invariant
            i <= events.len(),
            lines_view(lines@) == head + event_docs(events_view(events@).take(i as int)),
        decreases events.len() - i,
    {
        let ghost before = events_view(events@).take(i as int);
        let ghost now = events_view(events@).take(i + 1);
        assert(now.drop_last() =~= before);
        assert(now.last() == events@[i as int]@);
        let ghost written = lines_view(lines@);
        match event_json(&events[i]) {
            Some(line) => {
                lines.push(line);
                assert(event_docs(now) == event_docs(before).push(line@));
                assert(lines_view(lines@) =~= written.push(line@));
                assert(written.push(line@) =~= head + event_docs(now));
            },
            None => {
                assert(event_docs(now) == event_docs(before));
            },
        }
        i += 1;
    }
    assert(events_view(events@).take(events@.len() as int) =~= events_view(events@));
    lines
}

/// Every line of a prompt, in the order in which it is written: the
/// user's message, the events of the agent, and the one `agent_end`.
pub fn prompt_lines(user: &UserMessage, events: &[AgentEvent], error: Option<&str>) -> (r: Vec<Json>)
    ensures
        lines_view(r@) == prompt_docs(
            MessageV::User(user@),
            events_view(events@),
            opt_str(error),
        ),
{
    let mut lines = lines_so_far(user, events);
    lines.push(agent_end(error));
    assert(lines_view(lines@) =~= prompt_docs(
        MessageV::User(user@),
        events_view(events@),
        opt_str(error),
    ));
    lines
}

/// How a prompt has ended, if it has: without an error, or with one.
pub open spec fn ended_view(ended: Option<Option<&str>>) -> Option<Option<Seq<char>>> {
    match ended {
        Some(error) => Some(opt_str(error)),
        None => None,
    }
}

/// The two lines that close a prompt: the `agent_end`, then the response
/// to the request.
pub open spec fn closing_docs(id: Seq<char>, error: Option<Seq<char>>) -> Seq<JsonV> {
    seq![agent_end_doc(error), prompt_response_of(id, error)]
}

/// Everything that is written for a prompt, in order: the lines of the
/// user's message, the lines of the events of the agent, and, once the
/// prompt has ended, the `agent_end` and after it the response to the
/// request.
pub open spec fn transcript(
    id: Seq<char>,
    message: MessageV,
    events: Seq<AgentEventV>,
    ended: Option<Option<Seq<char>>>,
) -> Seq<JsonV> {
    user_lines(message) + event_docs(events) + (match ended {
        Some(error) => closing_docs(id, error),
        None => Seq::empty(),
    })
}

/// What is written for a prompt only grows: the lines for the events so
/// far, while the prompt runs, are the first lines of everything that is
/// written for it in the end.
pub proof fn lemma_transcript_grows(
    id: Seq<char>,
    message: MessageV,
    events: Seq<AgentEventV>,
    so_far: int,
    ended: Option<Option<Seq<char>>>,
)
    requires
        0 <= so_far <= events.len(),
    ensures
        transcript(id, message, events.take(so_far), None).is_prefix_of(
            transcript(id, message, events, ended),
        ),
{
    let first = events.take(so_far);
    let rest = events.skip(so_far);
    assert(first + rest =~= events);
    lemma_event_docs_concat(first, rest);
    let early = transcript(id, message, first, None);
    let whole = transcript(id, message, events, ended);
    assert(early =~= user_lines(message) + event_docs(first));
    assert(early.len() <= whole.len());
    assert(whole.subrange(0, early.len() as int) =~= early);
}

/// A prompt that has ended closes with its `agent_end` and, after it, the
/// response; no line before them ends the prompt.
pub proof fn lemma_transcript_closes(
    id: Seq<char>,
    message: MessageV,
    events: Seq<AgentEventV>,
    error: Option<Seq<char>>,
)
    ensures
        ({
            let all = transcript(id, message, events, Some(error));
            &&& all.len() >= 4
            &&& all[all.len() - 1] == prompt_response_of(id, error)
            &&& all[all.len() - 2] == agent_end_doc(error)
            &&& is_agent_end(all[all.len() - 2])
            &&& forall|i: int| 0 <= i < all.len() - 2 ==> !is_agent_end(#[trigger] all[i])
        }),
{
    let all = transcript(id, message, events, Some(error));
    let lines = prompt_docs(message, events, error);
    lemma_one_agent_end(message, events, error);
    assert(all =~= lines.push(prompt_response_of(id, error)));
    assert(lines.last() == agent_end_doc(error));
    assert forall|i: int| 0 <= i < all.len() - 2 implies !is_agent_end(#[trigger] all[i]) by {
        assert(all[i] == lines[i]);
    }
}

/// Everything that is written for a prompt, in order. While the prompt
/// runs, `ended` is `None`; once it is over, `ended` holds the error that
/// ended it, if one did.
pub fn prompt_transcript(
    id: &str,
    user: &UserMessage,
    events: &[AgentEvent],
    ended: Option<Option<&str>>,
) -> (r: Vec<Json>)
    ensures
        lines_view(r@) == transcript(
            id@,
            MessageV::User(user@),
            events_view(events@),
            ended_view(ended),
        ),
{
    let mut lines = lines_so_far(user, events);
    let ghost body = lines_view(lines@);
    match ended {
        Some(error) => {
            lines.push(agent_end(error));
            lines.push(prompt_response(id, error));
            assert(lines_view(lines@) =~= body + closing_docs(id@, opt_str(error)));
        },
        None => {
            assert(lines_view(lines@) =~= body + Seq::<JsonV>::empty());
        },
    }
    lines
}

/// What the front end does with a request.
#[derive(Debug)]
pub enum RpcAction {
    /// Write this response.
    Respond(Json),
    /// Run a prompt with this message, for the request with this id.
    Prompt { id: String, message: String },
}

/// [`RpcAction`] as plain data.
pub enum RpcActionV {
    Respond(JsonV),
    Prompt { id: Seq<char>, message: Seq<char> },
}

impl View for RpcAction {
    type V = RpcActionV;

    open spec fn view(&self) -> RpcActionV {
        match self {
            RpcAction::Respond(j) => RpcActionV::Respond(j@),
            RpcAction::Prompt { id, message } => RpcActionV::Prompt { id: id@, message: message@ },
        }
    }
}

/// The message of the response to a request of a type that is not served.
pub open spec fn unknown_command(name: Seq<char>) -> Seq<char> {
    "Unknown command: "@ + name
}

/// What a request leads to: the state and the statistics are answered at
/// once, from the model in use, the session's file and name, and the
/// conversation; a prompt is to be run; any other type is refused.
pub open spec fn action_of(
    id: Seq<char>,
    command: RpcCommandV,
    model: Option<Seq<char>>,
    session_file: Option<Seq<char>>,
    session_name: Option<Seq<char>>,
    messages: Seq<MessageV>,
) -> RpcActionV {
    match command {
        RpcCommandV::GetState => RpcActionV::Respond(
            response_of(
                id,
                "get_state"@,
                true,
                Some(state_doc(model, session_file, session_name)),
                None,
            ),
        ),
        RpcCommandV::GetSessionStats => RpcActionV::Respond(
            response_of(
                id,
                "get_session_stats"@,
                true,
                Some(stats_json(SessionStats::of(messages), session_file)),
                None,
            ),
        ),
        RpcCommandV::Prompt { message } => RpcActionV::Prompt { id, message },
        RpcCommandV::Other { name } => RpcActionV::Respond(
            response_of(id, name, false, None, Some(unknown_command(name))),
        ),
    }
}

/// The response that follows the events of a prompt: it reports success
/// exactly when the prompt ended without an error.
pub open spec fn prompt_response_of(id: Seq<char>, error: Option<Seq<char>>) -> JsonV {
    response_of(id, "prompt"@, error is None, None, error)
}

/// The response that follows the events of a prompt.
pub fn prompt_response(id: &str, error: Option<&str>) -> (r: Json)
    ensures
        r@ == prompt_response_of(id@, opt_str(error)),
{
    response(id, "prompt", error.is_none(), None, error)
}

fn opt_as_str(o: &Option<String>) -> (r: Option<&str>)
    ensures
        opt_str(r) == crate::model::opt_text(*o),
{
    match o {
        Some(s) => Some(s.as_str()),
        None => None,
    }
}

/// Decides what to do with a request, for a session and the model in use.
pub fn answer(request: RpcRequest, session: &AgentSession, model: Option<&str>) -> (r: RpcAction)
    ensures
        r@ == action_of(
            request.id@,
            request.command@,
            opt_str(model),
            crate::model::opt_text(session.session.path),
            crate::session::name_of(session.session@.entries),
            session.agent@.messages,
        ),
{
    let file = opt_as_str(&session.session.path);
    match request.command {
        RpcCommand::GetState => {
            let name = session.session.name();
            assert(opt_str(name) == crate::session::name_of(session.session@.entries));
            RpcAction::Respond(
                response(
                    request.id.as_str(),
                    "get_state",
                    true,
                    Some(state_data(model, file, name)),
                    None,
                ),
            )
        },
        RpcCommand::GetSessionStats => {
            let stats = session_stats(session.agent.messages());
            RpcAction::Respond(
                response(
                    request.id.as_str(),
                    "get_session_stats",
                    true,
                    Some(session_stats_data(&stats, file)),
                    None,
                ),
            )
        },
        RpcCommand::Prompt { message } => RpcAction::Prompt { id: request.id, message },
        RpcCommand::Other { name } => {
            let error = String::from_str("Unknown command: ").concat(name.as_str());
            RpcAction::Respond(
                response(request.id.as_str(), name.as_str(), false, None, Some(error.as_str())),
            )
        },
    }
}

} // verus!
