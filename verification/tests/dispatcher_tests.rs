use pi::extension_dispatcher::{
    exec_poll, parse_exec, Collaborator, DispatchPlan, ExecPoll, ExecReport, ExtensionDispatcher,
    HostcallKind, HostcallOutcome, HostcallRequest, WorkResult,
};
use pi::json::{Json, JsonNumber};

fn object(members: Vec<(&str, Json)>) -> Json {
    Json::Object(members.into_iter().map(|(k, v)| (k.to_string(), v)).collect())
}

fn text(s: &str) -> Json {
    Json::Text(s.to_string())
}

fn request(call_id: &str, kind: HostcallKind, payload: Json) -> HostcallRequest {
    HostcallRequest { call_id: call_id.to_string(), kind, payload }
}

fn dispatcher() -> ExtensionDispatcher {
    ExtensionDispatcher::new(vec!["read".to_string()], ".".to_string())
}

fn error_of(outcome: &HostcallOutcome) -> (&str, &str) {
    match outcome {
        HostcallOutcome::Error { code, message } => (code.as_str(), message.as_str()),
        other => panic!("expected an error, got {other:?}"),
    }
}

#[test]
fn dispatcher_constructs() {
    let dispatcher = dispatcher();
    assert_eq!(dispatcher.cwd, ".");
    assert!(dispatcher.requests.is_empty());
    assert!(dispatcher.completions.is_empty());
    assert!(dispatcher.has_tool("read"));
    assert!(!dispatcher.has_tool("Read"));
}

#[test]
fn dispatcher_drains_empty_queue() {
    let mut dispatcher = dispatcher();
    let drained = dispatcher.drain_hostcall_requests();
    assert!(drained.is_empty());
}

#[test]
fn dispatcher_drains_runtime_requests() {
    let mut dispatcher = dispatcher();
    dispatcher.submit(request("1", HostcallKind::Tool { name: "read".to_string() }, object(vec![("path", text("test.txt"))])));
    dispatcher.submit(request("2", HostcallKind::Http, Json::Null));
    let drained = dispatcher.drain_hostcall_requests();
    assert_eq!(drained.len(), 2);
    assert_eq!(drained[0].call_id, "1");
    assert_eq!(drained[1].call_id, "2");
    assert!(dispatcher.drain_hostcall_requests().is_empty());
}

#[test]
fn dispatcher_tool_hostcall_executes_and_resolves_promise() {
    let mut dispatcher = dispatcher();
    let req = request("7", HostcallKind::Tool { name: "read".to_string() }, object(vec![("path", text("test.txt"))]));
    assert!(matches!(dispatcher.plan(&req), DispatchPlan::RunTool { name } if name == "read"));
    let output = object(vec![("content", Json::Array(vec![text("hello world")]))]);
    dispatcher.dispatch_and_complete(req, WorkResult::ToolOutput(output));
    assert_eq!(dispatcher.completions.len(), 1);
    assert_eq!(dispatcher.completions[0].call_id, "7");
    match &dispatcher.completions[0].outcome {
        HostcallOutcome::Success(value) => assert!(value.to_compact().contains("hello world")),
        other => panic!("expected success, got {other:?}"),
    }
}

#[test]
fn dispatcher_tool_hostcall_unknown_tool_rejects_promise() {
    let mut dispatcher = dispatcher();
    let req = request("8", HostcallKind::Tool { name: "nope".to_string() }, object(vec![]));
    assert!(matches!(dispatcher.plan(&req), DispatchPlan::Complete(_)));
    dispatcher.dispatch_and_complete(req, WorkResult::ToolOutput(Json::Null));
    assert_eq!(dispatcher.completions.len(), 1);
    assert_eq!(error_of(&dispatcher.completions[0].outcome), ("invalid_request", "Unknown tool: nope"));
}

#[test]
fn dispatcher_exec_hostcall_executes_and_resolves_promise() {
    let mut dispatcher = dispatcher();
    let payload = object(vec![("args", Json::Array(vec![text("-c"), text("printf hello")])), ("options", object(vec![]))]);
    let req = request("9", HostcallKind::Exec { cmd: "sh".to_string() }, payload);
    match dispatcher.plan(&req) {
        DispatchPlan::RunExec(plan) => {
            assert_eq!(plan.cmd, "sh");
            assert_eq!(plan.args, vec!["-c", "printf hello"]);
            assert_eq!(plan.cwd, None);
            assert_eq!(plan.timeout_ms, None);
        }
        other => panic!("expected an exec plan, got {other:?}"),
    }
    let report = ExecReport { stdout: b"hello".to_vec(), stderr: vec![0xff], code: Some(0), killed: false };
    dispatcher.dispatch_and_complete(req, WorkResult::ExecEnded(report));
    match &dispatcher.completions[0].outcome {
        HostcallOutcome::Success(value) => {
            assert_eq!(value.get("stdout").and_then(|v| v.as_str()), Some("hello"));
            assert_eq!(value.get("stderr").and_then(|v| v.as_str()), Some("\u{fffd}"));
            assert_eq!(value.get("code").and_then(|v| v.as_u64()), Some(0));
            assert!(matches!(value.get("killed"), Some(Json::Bool(false))));
        }
        other => panic!("expected success, got {other:?}"),
    }
}

#[test]
fn dispatcher_exec_hostcall_command_not_found_rejects_promise() {
    let mut dispatcher = dispatcher();
    let req = request("10", HostcallKind::Exec { cmd: "definitely_not_a_real_command".to_string() }, object(vec![("args", Json::Array(vec![]))]));
    dispatcher.dispatch_and_complete(req, WorkResult::ExecFailed("No such file or directory".to_string()));
    assert_eq!(error_of(&dispatcher.completions[0].outcome), ("io", "No such file or directory"));
}

#[test]
fn exec_timeout_kills_and_reports_killed() {
    let payload = object(vec![
        ("args", Json::Array(vec![text("-c"), text("sleep 5")])),
        ("options", object(vec![("timeout_ms", Json::Number(JsonNumber::Unsigned(50)))])),
    ]);
    let plan = parse_exec("sh", &payload).expect("plan");
    assert_eq!(plan.timeout_ms, Some(50));
    assert_eq!(exec_poll(false, 0, plan.timeout_ms), ExecPoll::Sleep(10));
    assert_eq!(exec_poll(false, 49, plan.timeout_ms), ExecPoll::Sleep(10));
    assert_eq!(exec_poll(false, 50, plan.timeout_ms), ExecPoll::Kill);
    assert_eq!(exec_poll(true, 50, plan.timeout_ms), ExecPoll::Collect);
    assert_eq!(exec_poll(false, u64::MAX, None), ExecPoll::Sleep(10));

    let mut dispatcher = dispatcher();
    let req = request("11", HostcallKind::Exec { cmd: "sh".to_string() }, payload);
    let report = ExecReport { stdout: vec![], stderr: vec![], code: None, killed: true };
    dispatcher.dispatch_and_complete(req, WorkResult::ExecEnded(report));
    match &dispatcher.completions[0].outcome {
        HostcallOutcome::Success(value) => {
            assert_eq!(value.to_compact(), "{\"code\":0,\"killed\":true,\"stderr\":\"\",\"stdout\":\"\"}");
        }
        other => panic!("expected success, got {other:?}"),
    }
}

#[test]
fn exec_requests_are_read_as_documented() {
    let plan = parse_exec("ls", &Json::Null).expect("plan");
    assert!(plan.args.is_empty());
    let plan = parse_exec("ls", &object(vec![("args", Json::Null)])).expect("plan");
    assert!(plan.args.is_empty());
    let payload = object(vec![
        ("args", Json::Array(vec![text("a"), Json::Number(JsonNumber::Unsigned(5)), Json::Bool(true), Json::Null])),
        (
            "options",
            object(vec![
                ("cwd", text("/tmp")),
                ("timeout", Json::Number(JsonNumber::Unsigned(0))),
                ("timeoutMs", Json::Number(JsonNumber::Unsigned(70))),
            ]),
        ),
    ]);
    let plan = parse_exec("ls", &payload).expect("plan");
    assert_eq!(plan.args, vec!["a", "5", "true", "null"]);
    assert_eq!(plan.cwd.as_deref(), Some("/tmp"));
    assert_eq!(plan.timeout_ms, None);
    let payload = object(vec![("options", object(vec![("timeout", text("soon")), ("timeoutMs", Json::Number(JsonNumber::Unsigned(70)))]))]);
    assert_eq!(parse_exec("ls", &payload).expect("plan").timeout_ms, Some(70));
    let refused = parse_exec("ls", &object(vec![("args", text("-l"))])).expect_err("refused");
    assert_eq!(error_of(&refused), ("invalid_request", "exec args must be an array"));
}

#[test]
fn every_dispatch_ends_in_exactly_one_completion() {
    let mut dispatcher = dispatcher();
    let cases: Vec<(HostcallKind, WorkResult, &str)> = vec![
        (HostcallKind::Tool { name: "read".to_string() }, WorkResult::ToolFailed("bad".to_string()), "tool_error"),
        (HostcallKind::Tool { name: "read".to_string() }, WorkResult::ToolOutputUnwritable("nan".to_string()), "internal"),
        (HostcallKind::Tool { name: "read".to_string() }, WorkResult::Panicked("oops".to_string()), "internal"),
        (HostcallKind::Tool { name: "read".to_string() }, WorkResult::ExecCancelled, "internal"),
        (HostcallKind::Exec { cmd: "sh".to_string() }, WorkResult::ExecCancelled, "internal"),
        (HostcallKind::Unknown { name: "teleport".to_string() }, WorkResult::ExecCancelled, "invalid_request"),
        (HostcallKind::Http, WorkResult::Answered(HostcallOutcome::Error { code: "timeout".to_string(), message: "slow".to_string() }), "timeout"),
        (HostcallKind::Ui { op: "confirm".to_string() }, WorkResult::Panicked("ui".to_string()), "internal"),
    ];
    let count = cases.len();
    for (i, (kind, result, code)) in cases.into_iter().enumerate() {
        let id = format!("call-{i}");
        dispatcher.dispatch_and_complete(request(&id, kind, Json::Null), result);
        assert_eq!(dispatcher.completions.len(), i + 1);
        assert_eq!(dispatcher.completions[i].call_id, id);
        assert_eq!(error_of(&dispatcher.completions[i].outcome).0, code);
    }
    assert_eq!(dispatcher.completions.len(), count);
    assert_eq!(error_of(&dispatcher.completions[4].outcome).1, "exec task cancelled");
    assert_eq!(error_of(&dispatcher.completions[5].outcome).1, "Unsupported hostcall kind: teleport");
    let session = request("s", HostcallKind::Session { op: "get_state".to_string() }, Json::Null);
    assert!(matches!(dispatcher.plan(&session), DispatchPlan::Delegate(Collaborator::Session)));
    dispatcher.dispatch_and_complete(session, WorkResult::Answered(HostcallOutcome::Success(Json::Bool(true))));
    assert!(matches!(dispatcher.completions[count].outcome, HostcallOutcome::Success(Json::Bool(true))));
}

#[test]
fn a_prompt_to_the_user_ends_the_hostcall() {
    let ask = request("call-3", HostcallKind::Ui { op: "confirm".to_string() }, Json::Bool(true));
    let put = pi::extension_dispatcher::ui_request(&ask);
    assert_eq!(put.id, "call-3");
    assert_eq!(put.method, "confirm");
    assert!(matches!(put.payload, Json::Bool(true)));
    let other = pi::extension_dispatcher::ui_request(&request("call-4", HostcallKind::Http, Json::Null));
    assert_eq!(other.method, "");

    let answered = pi::extension_dispatcher::ExtensionUiResponse {
        id: "call-3".to_string(),
        value: Some(text("yes")),
        cancelled: false,
    };
    let outcome = pi::extension_dispatcher::ui_outcome(Ok(Some(answered)));
    assert!(matches!(outcome, HostcallOutcome::Success(Json::Text(t)) if t == "yes"));
    let silent = pi::extension_dispatcher::ExtensionUiResponse {
        id: "call-3".to_string(),
        value: None,
        cancelled: true,
    };
    assert!(matches!(
        pi::extension_dispatcher::ui_outcome(Ok(Some(silent))),
        HostcallOutcome::Success(Json::Null)
    ));
    assert!(matches!(pi::extension_dispatcher::ui_outcome(Ok(None)), HostcallOutcome::Success(Json::Null)));
    let failed = pi::extension_dispatcher::ui_outcome(Err(pi::error::Error::extension("no terminal")));
    assert_eq!(error_of(&failed), ("internal", "Extension error: no terminal"));
}
