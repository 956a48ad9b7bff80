//! The hostcall dispatcher: what an extension's request leads to, and the one
//! completion that answers it.
//!
//! The dispatcher decides; its caller performs. `plan` says what a request
//! needs from outside (a tool run, a child process, a collaborator), the
//! caller does that, and `dispatch_and_complete` turns what came back into the
//! outcome and records it. Requests wait in a mailbox that the dispatcher
//! owns.

use crate::error::Error;
use crate::json::{Json, JsonNumber, JsonV, NumberV};
use crate::model::opt_text;
use crate::text::str_eq;
use std::collections::VecDeque;
use vstd::prelude::*;

verus! {

/// What a hostcall asks for.
#[derive(Debug, Clone)]
pub enum HostcallKind {
    /// Run the named tool.
    Tool { name: String },
    /// Run a command as a child process.
    Exec { cmd: String },
    /// An HTTP request, served by the HTTP connector.
    Http,
    /// An operation on the session, served by the session collaborator.
    Session { op: String },
    /// A prompt to the user, served by the UI handler.
    Ui { op: String },
    /// A kind that this host does not know.
    Unknown { name: String },
}

/// [`HostcallKind`] as plain data.
pub enum HostcallKindV {
    Tool { name: Seq<char> },
    Exec { cmd: Seq<char> },
    Http,
    Session { op: Seq<char> },
    Ui { op: Seq<char> },
    Unknown { name: Seq<char> },
}

impl View for HostcallKind {
    type V = HostcallKindV;

    open spec fn view(&self) -> HostcallKindV {
        match self {
            HostcallKind::Tool { name } => HostcallKindV::Tool { name: name@ },
            HostcallKind::Exec { cmd } => HostcallKindV::Exec { cmd: cmd@ },
            HostcallKind::Http => HostcallKindV::Http,
            HostcallKind::Session { op } => HostcallKindV::Session { op: op@ },
            HostcallKind::Ui { op } => HostcallKindV::Ui { op: op@ },
            HostcallKind::Unknown { name } => HostcallKindV::Unknown { name: name@ },
        }
    }
}

/// A request that crossed from the sandbox to the host.
#[derive(Debug, Clone)]
pub struct HostcallRequest {
    pub call_id: String,
    pub kind: HostcallKind,
    pub payload: Json,
}

/// [`HostcallRequest`] as plain data.
pub struct HostcallRequestV {
    pub call_id: Seq<char>,
    pub kind: HostcallKindV,
    pub payload: JsonV,
}

impl View for HostcallRequest {
    type V = HostcallRequestV;

    open spec fn view(&self) -> HostcallRequestV {
        HostcallRequestV { call_id: self.call_id@, kind: self.kind@, payload: self.payload@ }
    }
}

/// How a hostcall ended: the promise in the sandbox resolves with the value
/// or rejects with the code and message.
#[derive(Debug, Clone)]
pub enum HostcallOutcome {
    Success(Json),
    Error { code: String, message: String },
}

/// [`HostcallOutcome`] as plain data.
pub enum HostcallOutcomeV {
    Success(JsonV),
    Error { code: Seq<char>, message: Seq<char> },
}

impl View for HostcallOutcome {
    type V = HostcallOutcomeV;

    open spec fn view(&self) -> HostcallOutcomeV {
        match self {
            HostcallOutcome::Success(j) => HostcallOutcomeV::Success(j@),
            HostcallOutcome::Error { code, message } => HostcallOutcomeV::Error {
                code: code@,
                message: message@,
            },
        }
    }
}

/// The failed outcome with the given code and message.
pub open spec fn failure(code: Seq<char>, message: Seq<char>) -> HostcallOutcomeV {
    HostcallOutcomeV::Error { code, message }
}

/// The failed outcome with the given code and message.
pub fn fail(code: &str, message: String) -> (r: HostcallOutcome)
    ensures
        r@ == failure(code@, message@),
{
    HostcallOutcome::Error { code: String::from_str(code), message }
}

/// A child process to run: the command, its arguments, the directory to run
/// it in and the time after which it is killed.
#[derive(Debug, Clone)]
pub struct ExecPlan {
    pub cmd: String,
    pub args: Vec<String>,
    pub cwd: Option<String>,
    pub timeout_ms: Option<u64>,
}

/// [`ExecPlan`] as plain data.
pub struct ExecPlanV {
    pub cmd: Seq<char>,
    pub args: Seq<Seq<char>>,
    pub cwd: Option<Seq<char>>,
    pub timeout_ms: Option<u64>,
}

impl View for ExecPlan {
    type V = ExecPlanV;

    open spec fn view(&self) -> ExecPlanV {
        ExecPlanV {
            cmd: self.cmd@,
            args: self.args@.map_values(|s: String| s@),
            cwd: opt_text(self.cwd),
            timeout_ms: self.timeout_ms,
        }
    }
}

/// The argument that one item of `args` stands for: a string stands for
/// itself, any other value for its compact JSON text.
pub open spec fn exec_arg_of(item: JsonV) -> Seq<char> {
    match item {
        JsonV::Text(s) => s,
        _ => crate::json::compact_text(item),
    }
}

/// The arguments of an exec request: those of the array under `args`, none
/// where `args` is missing or `null`, and `None` where it is anything else.
pub open spec fn exec_args_of(payload: JsonV) -> Option<Seq<Seq<char>>> {
    match payload.member("args"@) {
        None => Some(Seq::empty()),
        Some(JsonV::Null) => Some(Seq::empty()),
        Some(JsonV::Array(items)) => Some(items.map_values(|item: JsonV| exec_arg_of(item))),
        Some(_) => None,
    }
}

/// The options of an exec request: the value under `options`, or `null`.
pub open spec fn exec_options_of(payload: JsonV) -> JsonV {
    match payload.member("options"@) {
        Some(o) => o,
        None => JsonV::Null,
    }
}

/// The non-negative integer under `key`, if there is one.
pub open spec fn unsigned_member(options: JsonV, key: Seq<char>) -> Option<u64> {
    match options.member(key) {
        Some(v) => v.unsigned(),
        None => None,
    }
}

/// The timeout that the options ask for, in milliseconds: the first of
/// `timeout`, `timeoutMs` and `timeout_ms` that holds a non-negative integer,
/// and no timeout where that integer is zero.
pub open spec fn exec_timeout_of(options: JsonV) -> Option<u64> {
    let first = if unsigned_member(options, "timeout"@) is Some {
        unsigned_member(options, "timeout"@)
    } else if unsigned_member(options, "timeoutMs"@) is Some {
        unsigned_member(options, "timeoutMs"@)
    } else {
        unsigned_member(options, "timeout_ms"@)
    };
    match first {
        Some(ms) if ms > 0 => Some(ms),
        _ => None,
    }
}

/// The directory that the options ask for: the string under `cwd`.
pub open spec fn exec_cwd_of(options: JsonV) -> Option<Seq<char>> {
    match options.member("cwd"@) {
        Some(v) => v.text(),
        None => None,
    }
}

/// What an exec request asks for, or `None` where its `args` are no array.
pub open spec fn exec_plan_of(cmd: Seq<char>, payload: JsonV) -> Option<ExecPlanV> {
    match exec_args_of(payload) {
        None => None,
        Some(args) => Some(
            ExecPlanV {
                cmd,
                args,
                cwd: exec_cwd_of(exec_options_of(payload)),
                timeout_ms: exec_timeout_of(exec_options_of(payload)),
            },
        ),
    }
}

/// The non-negative integer under `key`, if there is one.
pub fn get_unsigned(options: &Json, key: &str) -> (r: Option<u64>)
    ensures
        r == unsigned_member(options@, key@),
{
    match options.get(key) {
        Some(v) => v.as_u64(),
        None => None,
    }
}

/// The timeout that the options of an exec request ask for.
pub fn exec_timeout(options: &Json) -> (r: Option<u64>)
    ensures
        r == exec_timeout_of(options@),
{
    let mut first = get_unsigned(options, "timeout");
    if first.is_none() {
        first = get_unsigned(options, "timeoutMs");
    }
    if first.is_none() {
        first = get_unsigned(options, "timeout_ms");
    }
    match first {
        Some(ms) => if ms > 0 {
            Some(ms)
        } else {
            None
        },
        None => None,
    }
}

/// The arguments of an exec request.
pub fn exec_args(payload: &Json) -> (r: Option<Vec<String>>)
    ensures
        match r {
            Some(args) => exec_args_of(payload@) == Some(args@.map_values(|s: String| s@)),
            None => exec_args_of(payload@).is_none(),
        },
{
    match payload.get("args") {
        None => {
            let none: Vec<String> = Vec::new();
            assert(none@.map_values(|s: String| s@) =~= Seq::<Seq<char>>::empty());
            Some(none)
        },
        Some(Json::Null) => {
            let none: Vec<String> = Vec::new();
            assert(none@.map_values(|s: String| s@) =~= Seq::<Seq<char>>::empty());
            Some(none)
        },
        Some(Json::Array(items)) => {
            let mut args: Vec<String> = Vec::new();
            let mut i: usize = 0;
            proof {
                crate::json::lemma_array_value(items@);
            }
            while i < items.len()
                invariant
                    i <= items.len(),
                    args@.len() == i,
                    forall|k: int| 0 <= k < i ==> (#[trigger] args@[k])@ == exec_arg_of(items@[k]@),
                decreases items.len() - i,
            {
                let arg = match items[i].as_str() {
                    Some(s) => String::from_str(s),
                    None => items[i].to_compact(),
                };
                args.push(arg);
                i += 1;
            }
            assert(args@.map_values(|s: String| s@) =~= crate::json::array_value(
                items@,
            ).map_values(|item: JsonV| exec_arg_of(item)));
            Some(args)
        },
        Some(_) => None,
    }
}

/// Reads an exec request. Where `args` is neither missing, `null` nor an
/// array, the request is refused with `invalid_request`.
pub fn parse_exec(cmd: &str, payload: &Json) -> (r: Result<ExecPlan, HostcallOutcome>)
    ensures
        match r {
            Ok(plan) => exec_plan_of(cmd@, payload@) == Some(plan@),
            Err(outcome) => exec_plan_of(cmd@, payload@).is_none() && outcome@ == failure(
                "invalid_request"@,
                "exec args must be an array"@,
            ),
        },
{
    let args = match exec_args(payload) {
        Some(args) => args,
        None => {
            return Err(fail("invalid_request", String::from_str("exec args must be an array")));
        },
    };
    let null = Json::Null;
    let options: &Json = match payload.get("options") {
        Some(o) => o,
        None => &null,
    };
    let cwd: Option<String> = match options.get("cwd") {
        Some(v) => match v.as_str() {
            Some(s) => Some(String::from_str(s)),
            None => None,
        },
        None => None,
    };
    let timeout_ms = exec_timeout(options);
    Ok(ExecPlan { cmd: String::from_str(cmd), args, cwd, timeout_ms })
}

/// What `String::from_utf8_lossy` makes of bytes: their text, with U+FFFD in
/// place of what is no valid UTF-8.
pub uninterp spec fn lossy_text(bytes: Seq<u8>) -> Seq<char>;

/// Calls `String::from_utf8_lossy` and owns the result.
#[verifier::external_body]
fn text_of_bytes(bytes: &[u8]) -> (r: String)
    ensures
        r@ == lossy_text(bytes@),
{
    String::from_utf8_lossy(bytes).to_string()
}

/// What is known of a child process once it has ended: what it wrote, its
/// exit code where it has one, and whether the host killed it.
#[derive(Debug, Clone)]
pub struct ExecReport {
    pub stdout: Vec<u8>,
    pub stderr: Vec<u8>,
    pub code: Option<i32>,
    pub killed: bool,
}

/// The JSON number of an exit code.
pub open spec fn code_number(code: i32) -> NumberV {
    if code >= 0 {
        NumberV::Unsigned(code as u64)
    } else {
        NumberV::Negative(code as i64)
    }
}

/// The value that an exec hostcall resolves with: `stdout` and `stderr` as
/// text, `code` (0 where the process has none) and `killed`.
pub open spec fn exec_value_of(
    stdout: Seq<u8>,
    stderr: Seq<u8>,
    code: Option<i32>,
    killed: bool,
) -> JsonV {
    JsonV::Object(
        seq![
            (
                "code"@,
                JsonV::Number(
                    code_number(
                        match code {
                            Some(c) => c,
                            None => 0,
                        },
                    ),
                ),
            ),
            ("killed"@, JsonV::Bool(killed)),
            ("stderr"@, JsonV::Text(lossy_text(stderr))),
            ("stdout"@, JsonV::Text(lossy_text(stdout))),
        ],
    )
}

/// The value that an exec hostcall resolves with.
pub fn exec_value(report: &ExecReport) -> (r: Json)
    ensures
        r@ == exec_value_of(report.stdout@, report.stderr@, report.code, report.killed),
{
    let code: i32 = match report.code {
        Some(c) => c,
        None => 0,
    };
    let number = if code >= 0 {
        JsonNumber::Unsigned(code as u64)
    } else {
        JsonNumber::Negative(code as i64)
    };
    let members: Vec<(String, Json)> = vec![
        (String::from_str("code"), Json::Number(number)),
        (String::from_str("killed"), Json::Bool(report.killed)),
        (String::from_str("stderr"), Json::Text(text_of_bytes(report.stderr.as_slice()))),
        (String::from_str("stdout"), Json::Text(text_of_bytes(report.stdout.as_slice()))),
    ];
    let r = Json::Object(members);
    proof {
        crate::json::lemma_object_value(members@);
        assert(r@->Object_0 =~= exec_value_of(
            report.stdout@,
            report.stderr@,
            report.code,
            report.killed,
        )->Object_0);
    }
    r
}

/// What to do next with a child process that is being waited for.
#[derive(Debug, Clone, Copy, PartialEq, Eq, Structural)]
pub enum ExecPoll {
    /// The process has ended: collect its output.
    Collect,
    /// The timeout has passed: kill the process tree, then collect.
    Kill,
    /// Sleep for the given milliseconds, then look again.
    Sleep(u64),
}

/// The pause between two looks at a child process, in milliseconds.
pub const EXEC_POLL_MS: u64 = 10;

/// What to do with a child process: collect once it has ended, kill it once
/// the timeout has passed, else sleep and look again.
pub open spec fn exec_poll_of(exited: bool, elapsed_ms: u64, timeout_ms: Option<u64>) -> ExecPoll {
    if exited {
        ExecPoll::Collect
    } else if timeout_ms is Some && elapsed_ms >= timeout_ms->Some_0 {
        ExecPoll::Kill
    } else {
        ExecPoll::Sleep(EXEC_POLL_MS)
    }
}

/// Decides one round of waiting for a child process.
pub fn exec_poll(exited: bool, elapsed_ms: u64, timeout_ms: Option<u64>) -> (r: ExecPoll)
    ensures
        r == exec_poll_of(exited, elapsed_ms, timeout_ms),
{
    if exited {
        return ExecPoll::Collect;
    }
    match timeout_ms {
        Some(limit) => {
            if elapsed_ms >= limit {
                return ExecPoll::Kill;
            }
        },
        None => {},
    }
    ExecPoll::Sleep(EXEC_POLL_MS)
}

/// The collaborators that serve the hostcalls which are neither tool runs
/// nor child processes.
#[derive(Debug, Clone, Copy, PartialEq, Eq, Structural)]
pub enum Collaborator {
    Http,
    Session,
    Ui,
}

/// What a request needs before it can be completed.
#[derive(Debug, Clone)]
pub enum DispatchPlan {
    /// Nothing: the outcome is decided.
    Complete(HostcallOutcome),
    /// A run of the named tool with the payload as its arguments.
    RunTool { name: String },
    /// A child process.
    RunExec(ExecPlan),
    /// The answer of a collaborator.
    Delegate(Collaborator),
}

/// [`DispatchPlan`] as plain data.
pub enum DispatchPlanV {
    Complete(HostcallOutcomeV),
    RunTool { name: Seq<char> },
    RunExec(ExecPlanV),
    Delegate(Collaborator),
}

impl View for DispatchPlan {
    type V = DispatchPlanV;

    open spec fn view(&self) -> DispatchPlanV {
        match self {
            DispatchPlan::Complete(o) => DispatchPlanV::Complete(o@),
            DispatchPlan::RunTool { name } => DispatchPlanV::RunTool { name: name@ },
            DispatchPlan::RunExec(p) => DispatchPlanV::RunExec(p@),
            DispatchPlan::Delegate(c) => DispatchPlanV::Delegate(*c),
        }
    }
}

/// What the work outside came to.
#[derive(Debug, Clone)]
pub enum WorkResult {
    /// The tool ran; this is its output as JSON.
    ToolOutput(Json),
    /// The tool ran, but its output could not be written as JSON.
    ToolOutputUnwritable(String),
    /// The tool failed with the given message.
    ToolFailed(String),
    /// The child process ended.
    ExecEnded(ExecReport),
    /// The child process could not be started or waited for.
    ExecFailed(String),
    /// The task that ran the child process was cancelled.
    ExecCancelled,
    /// The collaborator answered.
    Answered(HostcallOutcome),
    /// The handler panicked.
    Panicked(String),
}

/// [`WorkResult`] as plain data.
pub enum WorkResultV {
    ToolOutput(JsonV),
    ToolOutputUnwritable(Seq<char>),
    ToolFailed(Seq<char>),
    ExecEnded { stdout: Seq<u8>, stderr: Seq<u8>, code: Option<i32>, killed: bool },
    ExecFailed(Seq<char>),
    ExecCancelled,
    Answered(HostcallOutcomeV),
    Panicked(Seq<char>),
}

impl View for WorkResult {
    type V = WorkResultV;

    open spec fn view(&self) -> WorkResultV {
        match self {
            WorkResult::ToolOutput(j) => WorkResultV::ToolOutput(j@),
            WorkResult::ToolOutputUnwritable(m) => WorkResultV::ToolOutputUnwritable(m@),
            WorkResult::ToolFailed(m) => WorkResultV::ToolFailed(m@),
            WorkResult::ExecEnded(r) => WorkResultV::ExecEnded {
                stdout: r.stdout@,
                stderr: r.stderr@,
                code: r.code,
                killed: r.killed,
            },
            WorkResult::ExecFailed(m) => WorkResultV::ExecFailed(m@),
            WorkResult::ExecCancelled => WorkResultV::ExecCancelled,
            WorkResult::Answered(o) => WorkResultV::Answered(o@),
            WorkResult::Panicked(m) => WorkResultV::Panicked(m@),
        }
    }
}

/// Whether a text is among the given names, letter for letter.
pub open spec fn is_listed(names: Seq<String>, wanted: Seq<char>) -> bool {
    exists|k: int| 0 <= k < names.len() && (#[trigger] names[k])@ == wanted
}

/// What a request needs, given the names of the registered tools.
///
/// A tool that is not registered, an exec request whose `args` are no array
/// and a kind that the host does not know are refused with `invalid_request`
/// at once.
pub open spec fn plan_of(tools: Seq<String>, request: HostcallRequestV) -> DispatchPlanV {
    match request.kind {
        HostcallKindV::Tool { name } => if is_listed(tools, name) {
            DispatchPlanV::RunTool { name }
        } else {
            DispatchPlanV::Complete(failure("invalid_request"@, "Unknown tool: "@ + name))
        },
        HostcallKindV::Exec { cmd } => match exec_plan_of(cmd, request.payload) {
            Some(plan) => DispatchPlanV::RunExec(plan),
            None => DispatchPlanV::Complete(
                failure("invalid_request"@, "exec args must be an array"@),
            ),
        },
        HostcallKindV::Http => DispatchPlanV::Delegate(Collaborator::Http),
        HostcallKindV::Session { op } => DispatchPlanV::Delegate(Collaborator::Session),
        HostcallKindV::Ui { op } => DispatchPlanV::Delegate(Collaborator::Ui),
        HostcallKindV::Unknown { name } => DispatchPlanV::Complete(
            failure("invalid_request"@, "Unsupported hostcall kind: "@ + name),
        ),
    }
}

/// The outcome of a request whose plan was carried out with the given
/// result. A panic of the handler, and a result that does not belong to the
/// plan, end the call with `internal`.
pub open spec fn outcome_of(plan: DispatchPlanV, result: WorkResultV) -> HostcallOutcomeV {
    match (plan, result) {
        (DispatchPlanV::Complete(outcome), _) => outcome,
        (_, WorkResultV::Panicked(m)) => failure("internal"@, m),
        (DispatchPlanV::RunTool { name }, WorkResultV::ToolOutput(j)) => HostcallOutcomeV::Success(
            j,
        ),
        (DispatchPlanV::RunTool { name }, WorkResultV::ToolOutputUnwritable(m)) => failure(
            "internal"@,
            "Serialize tool output: "@ + m,
        ),
        (DispatchPlanV::RunTool { name }, WorkResultV::ToolFailed(m)) => failure("tool_error"@, m),
        (
            DispatchPlanV::RunExec(p),
            WorkResultV::ExecEnded { stdout, stderr, code, killed },
        ) => HostcallOutcomeV::Success(exec_value_of(stdout, stderr, code, killed)),
        (DispatchPlanV::RunExec(p), WorkResultV::ExecFailed(m)) => failure("io"@, m),
        (DispatchPlanV::RunExec(p), WorkResultV::ExecCancelled) => failure(
            "internal"@,
            "exec task cancelled"@,
        ),
        (DispatchPlanV::Delegate(c), WorkResultV::Answered(outcome)) => outcome,
        _ => failure("internal"@, "hostcall result does not match the request"@),
    }
}

/// One completion: the id of the call and how it ended.
#[derive(Debug, Clone)]
pub struct Completion {
    pub call_id: String,
    pub outcome: HostcallOutcome,
}

/// [`Completion`] as plain data.
pub struct CompletionV {
    pub call_id: Seq<char>,
    pub outcome: HostcallOutcomeV,
}

impl View for Completion {
    type V = CompletionV;

    open spec fn view(&self) -> CompletionV {
        CompletionV { call_id: self.call_id@, outcome: self.outcome@ }
    }
}

/// The views of a sequence of completions.
pub open spec fn completions_view(completions: Seq<Completion>) -> Seq<CompletionV> {
    completions.map_values(|c: Completion| c@)
}

/// Routes hostcalls from the sandbox to the host's handlers.
#[derive(Debug)]
pub struct ExtensionDispatcher {
    /// Requests that the sandbox has made and nobody has drained yet.
    pub requests: VecDeque<HostcallRequest>,
    /// The completions that go back to the sandbox, oldest first.
    pub completions: Vec<Completion>,
    /// The names of the registered tools.
    pub tool_names: Vec<String>,
    /// The directory that relative paths start from.
    pub cwd: String,
}

impl ExtensionDispatcher {
    /// A dispatcher for the given tools, with an empty mailbox.
    pub fn new(tool_names: Vec<String>, cwd: String) -> (r: Self)
        ensures
            r.requests@ == Seq::<HostcallRequest>::empty(),
            r.completions@ == Seq::<Completion>::empty(),
            r.tool_names == tool_names,
            r.cwd == cwd,
    {
        ExtensionDispatcher { requests: VecDeque::new(), completions: Vec::new(), tool_names, cwd }
    }

    /// Puts a request of the sandbox into the mailbox.
    pub fn submit(&mut self, request: HostcallRequest)
        ensures
            final(self).requests@ == old(self).requests@.push(request),
            final(self).completions == old(self).completions,
            final(self).tool_names == old(self).tool_names,
            final(self).cwd == old(self).cwd,
    {
        self.requests.push_back(request);
    }

    /// Takes every waiting request out of the mailbox, oldest first.
    pub fn drain_hostcall_requests(&mut self) -> (r: VecDeque<HostcallRequest>)
        ensures
            r@ == old(self).requests@,
            final(self).requests@ == Seq::<HostcallRequest>::empty(),
            final(self).completions == old(self).completions,
            final(self).tool_names == old(self).tool_names,
            final(self).cwd == old(self).cwd,
    {
        let mut out: VecDeque<HostcallRequest> = VecDeque::new();
        out.append(&mut self.requests);
        assert(out@ =~= old(self).requests@);
        out
    }

    /// Whether a tool of that name is registered.
    pub fn has_tool(&self, name: &str) -> (b: bool)
        ensures
            b == is_listed(self.tool_names@, name@),
    {
        let mut i: usize = 0;
        while i < self.tool_names.len()
            invariant
                i <= self.tool_names.len(),
                forall|k: int| 0 <= k < i ==> (#[trigger] self.tool_names@[k])@ != name@,
            decreases self.tool_names.len() - i,
        {
            if str_eq(self.tool_names[i].as_str(), name) {
                return true;
            }
            i += 1;
        }
        false
    }

    /// Says what a request needs before it can be completed.
    pub fn plan(&self, request: &HostcallRequest) -> (r: DispatchPlan)
        ensures
            r@ == plan_of(self.tool_names@, request@),
    {
        match &request.kind {
            HostcallKind::Tool { name } => {
                if self.has_tool(name.as_str()) {
                    DispatchPlan::RunTool { name: name.clone() }
                } else {
                    DispatchPlan::Complete(
                        fail(
                            "invalid_request",
                            String::from_str("Unknown tool: ").concat(name.as_str()),
                        ),
                    )
                }
            },
            HostcallKind::Exec { cmd } => match parse_exec(cmd.as_str(), &request.payload) {
                Ok(plan) => DispatchPlan::RunExec(plan),
                Err(outcome) => DispatchPlan::Complete(outcome),
            },
            HostcallKind::Http => DispatchPlan::Delegate(Collaborator::Http),
            HostcallKind::Session { .. } => DispatchPlan::Delegate(Collaborator::Session),
            HostcallKind::Ui { .. } => DispatchPlan::Delegate(Collaborator::Ui),
            HostcallKind::Unknown { name } => DispatchPlan::Complete(
                fail(
                    "invalid_request",
                    String::from_str("Unsupported hostcall kind: ").concat(name.as_str()),
                ),
            ),
        }
    }

    /// Completes a request: works out how it ended from its plan and from
    /// what the work outside came to, and records exactly one completion
    /// under the call's id. Nothing else changes.
    pub fn dispatch_and_complete(&mut self, request: HostcallRequest, result: WorkResult)
        ensures
            completions_view(final(self).completions@) == completions_view(
                old(self).completions@,
            ).push(
                CompletionV {
                    call_id: request.call_id@,
                    outcome: outcome_of(plan_of(old(self).tool_names@, request@), result@),
                },
            ),
            final(self).requests == old(self).requests,
            final(self).tool_names == old(self).tool_names,
            final(self).cwd == old(self).cwd,
    {
        let plan = self.plan(&request);
        let outcome = settle(plan, result);
        self.completions.push(Completion { call_id: request.call_id, outcome });
        assert(completions_view(self.completions@) =~= completions_view(
            old(self).completions@,
        ).push(
            CompletionV {
                call_id: request.call_id@,
                outcome: outcome_of(plan_of(old(self).tool_names@, request@), result@),
            },
        ));
    }
}

/// The outcome of a plan that was carried out with the given result.
pub fn settle(plan: DispatchPlan, result: WorkResult) -> (r: HostcallOutcome)
    ensures
        r@ == outcome_of(plan@, result@),
{
    match plan {
        DispatchPlan::Complete(outcome) => outcome,
        DispatchPlan::RunTool { name } => match result {
            WorkResult::Panicked(m) => fail("internal", m),
            WorkResult::ToolOutput(j) => HostcallOutcome::Success(j),
            WorkResult::ToolOutputUnwritable(m) => fail(
                "internal",
                String::from_str("Serialize tool output: ").concat(m.as_str()),
            ),
            WorkResult::ToolFailed(m) => fail("tool_error", m),
            _ => mismatch(),
        },
        DispatchPlan::RunExec(p) => match result {
            WorkResult::Panicked(m) => fail("internal", m),
            WorkResult::ExecEnded(report) => HostcallOutcome::Success(exec_value(&report)),
            WorkResult::ExecFailed(m) => fail("io", m),
            WorkResult::ExecCancelled => fail("internal", String::from_str("exec task cancelled")),
            _ => mismatch(),
        },
        DispatchPlan::Delegate(c) => match result {
            WorkResult::Panicked(m) => fail("internal", m),
            WorkResult::Answered(outcome) => outcome,
            _ => mismatch(),
        },
    }
}

/// The outcome of a result that does not belong to the plan.
fn mismatch() -> (r: HostcallOutcome)
    ensures
        r@ == failure("internal"@, "hostcall result does not match the request"@),
{
    fail("internal", String::from_str("hostcall result does not match the request"))
}

/// What an extension asks of the user interface.
#[derive(Debug, Clone)]
pub struct ExtensionUiRequest {
    pub id: String,
    pub method: String,
    pub payload: Json,
}

/// What the user interface answers.
#[derive(Debug, Clone)]
pub struct ExtensionUiResponse {
    pub id: String,
    pub value: Option<Json>,
    pub cancelled: bool,
}

/// The method that a hostcall asks of the user interface: the operation of
/// a prompt to the user, and none for any other kind.
pub open spec fn ui_method_of(kind: HostcallKindV) -> Seq<char> {
    match kind {
        HostcallKindV::Ui { op } => op,
        _ => Seq::empty(),
    }
}

/// The request that is put to the user interface for a hostcall: under the
/// call's id, with the call's operation and payload.
pub fn ui_request(request: &HostcallRequest) -> (r: ExtensionUiRequest)
    ensures
        r.id@ == request.call_id@,
        r.method@ == ui_method_of(request.kind@),
        r.payload@ == request.payload@,
{
    ExtensionUiRequest {
        id: request.call_id.clone(),
        method: match &request.kind {
            HostcallKind::Ui { op } => op.clone(),
            _ => String::new(),
        },
        payload: request.payload.clone(),
    }
}

/// How a prompt to the user ends the hostcall: with the value of the
/// answer, with `null` where the answer has no value or there is no
/// answer, and as an internal error where the user interface failed.
pub open spec fn ui_outcome_of(answer: Result<Option<Option<JsonV>>, Seq<char>>) -> HostcallOutcomeV {
    match answer {
        Ok(Some(Some(value))) => HostcallOutcomeV::Success(value),
        Ok(_) => HostcallOutcomeV::Success(JsonV::Null),
        Err(message) => failure("internal"@, message),
    }
}

/// What the user interface answered, as plain data.
pub open spec fn ui_answer(answer: Result<Option<ExtensionUiResponse>, Error>) -> Result<
    Option<Option<JsonV>>,
    Seq<char>,
> {
    match answer {
        Ok(Some(response)) => Ok(Some(crate::model::opt_json(response.value))),
        Ok(None) => Ok(None),
        Err(e) => Err(e@.text()),
    }
}

/// How a prompt to the user ends the hostcall.
pub fn ui_outcome(answer: Result<Option<ExtensionUiResponse>, Error>) -> (r: HostcallOutcome)
    ensures
        r@ == ui_outcome_of(ui_answer(answer)),
{
    match answer {
        Ok(Some(response)) => match response.value {
            Some(value) => HostcallOutcome::Success(value),
            None => HostcallOutcome::Success(Json::Null),
        },
        Ok(None) => HostcallOutcome::Success(Json::Null),
        Err(e) => fail("internal", e.to_string()),
    }
}

/// Handles one kind of hostcall.
pub trait HostcallHandler {
    /// Process a hostcall request and return the outcome.
    fn handle(&self, params: Json) -> HostcallOutcome;

    /// The capability name for policy checking (for example `read`, `exec`,
    /// `http`).
    fn capability(&self) -> &'static str;
}

/// Handles the hostcalls that prompt the user.
pub trait ExtensionUiHandler {
    /// Puts a request to the user; `None` where there is no answer.
    fn request_ui(&self, request: ExtensionUiRequest) -> Result<Option<ExtensionUiResponse>, Error>;
}

} // verus!
