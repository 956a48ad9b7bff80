use pi::extension_dispatcher::{
    ExtensionDispatcher, HostcallKind, HostcallOutcome, WorkResult,
};
use pi::hostcall_queue::{call_id, HostcallQueue, Settlement};
use pi::json::Json;

fn tool_call(name: &str) -> HostcallKind {
    HostcallKind::Tool { name: name.to_string() }
}

#[test]
fn call_ids_count_up_from_zero() {
    let mut queue = HostcallQueue::new();
    assert_eq!(queue.call(tool_call("read"), Json::Null).as_deref(), Some("call-0"));
    assert_eq!(queue.call(tool_call("read"), Json::Null).as_deref(), Some("call-1"));
    assert_eq!(call_id(10), "call-10");
    assert_eq!(call_id(u64::MAX), "call-18446744073709551615");
}

#[test]
fn requests_are_drained_in_the_order_of_the_calls() {
    let mut queue = HostcallQueue::new();
    queue.call(tool_call("read"), Json::Bool(true));
    queue.call(HostcallKind::Exec { cmd: "ls".to_string() }, Json::Null);
    let drained = queue.drain_hostcall_requests();
    let ids: Vec<&str> = drained.iter().map(|r| r.call_id.as_str()).collect();
    assert_eq!(ids, vec!["call-0", "call-1"]);
    assert!(matches!(&drained[0].kind, HostcallKind::Tool { name } if name == "read"));
    assert!(matches!(&drained[1].kind, HostcallKind::Exec { cmd } if cmd == "ls"));
    assert!(queue.drain_hostcall_requests().is_empty());
    assert!(queue.is_waiting("call-0"));
    assert!(queue.is_waiting("call-1"));
}

#[test]
fn a_completion_settles_its_call_once() {
    let mut queue = HostcallQueue::new();
    queue.call(tool_call("read"), Json::Null);
    queue.call(tool_call("read"), Json::Null);
    let first = queue.complete_hostcall("call-1", HostcallOutcome::Success(Json::Bool(true)));
    assert!(matches!(first, Some(Settlement::Resolved(Json::Bool(true)))));
    assert!(!queue.is_waiting("call-1"));
    assert!(queue.is_waiting("call-0"));
    let again = queue.complete_hostcall("call-1", HostcallOutcome::Success(Json::Null));
    assert!(again.is_none());
    assert!(queue.is_waiting("call-0"));
}

#[test]
fn an_error_rejects_the_promise() {
    let mut queue = HostcallQueue::new();
    queue.call(tool_call("nope"), Json::Null);
    let outcome = HostcallOutcome::Error {
        code: "invalid_request".to_string(),
        message: "Unknown tool: nope".to_string(),
    };
    match queue.complete_hostcall("call-0", outcome) {
        Some(Settlement::Rejected { code, message }) => {
            assert_eq!(code, "invalid_request");
            assert_eq!(message, "Unknown tool: nope");
        }
        other => panic!("expected a rejection, got {other:?}"),
    }
}

#[test]
fn a_completion_for_an_unknown_call_settles_nothing() {
    let mut queue = HostcallQueue::new();
    queue.call(tool_call("read"), Json::Null);
    assert!(queue.complete_hostcall("call-7", HostcallOutcome::Success(Json::Null)).is_none());
    assert!(queue.complete_hostcall("", HostcallOutcome::Success(Json::Null)).is_none());
    assert!(queue.is_waiting("call-0"));
}

#[test]
fn dispatched_calls_are_settled_through_the_queue() {
    let mut queue = HostcallQueue::new();
    let mut dispatcher = ExtensionDispatcher::new(vec!["read".to_string()], ".".to_string());
    queue.call(tool_call("read"), Json::Null);
    queue.call(tool_call("missing"), Json::Null);
    for request in queue.drain_hostcall_requests() {
        let result = WorkResult::ToolOutput(Json::Text("ok".to_string()));
        dispatcher.dispatch_and_complete(request, result);
    }
    let mut settled = Vec::new();
    for completion in dispatcher.completions.drain(..) {
        settled.push(queue.complete_hostcall(&completion.call_id, completion.outcome));
    }
    assert_eq!(settled.len(), 2);
    assert!(matches!(settled[0], Some(Settlement::Resolved(_))));
    assert!(matches!(settled[1], Some(Settlement::Rejected { .. })));
    assert!(!queue.is_waiting("call-0"));
    assert!(!queue.is_waiting("call-1"));
}
