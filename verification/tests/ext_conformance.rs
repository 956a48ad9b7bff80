use pi::ext_log::{
    diff_key, diff_normalized_jsonl, normalize_ext_log_line, normalize_string,
    PLACEHOLDER_ARTIFACT_ID, PLACEHOLDER_HOST, PLACEHOLDER_RUN_ID, PLACEHOLDER_SESSION_ID,
    PLACEHOLDER_SPAN_ID, PLACEHOLDER_TRACE_ID, PLACEHOLDER_TS,
};
use pi::json::{Json, JsonNumber};

fn text(s: &str) -> Json {
    Json::Text(s.to_string())
}

fn object(members: Vec<(&str, Json)>) -> Json {
    Json::Object(members.into_iter().map(|(k, v)| (k.to_string(), v)).collect())
}

fn at<'a>(value: &'a Json, path: &[&str]) -> &'a Json {
    let mut cur = value;
    for key in path {
        cur = cur.get(key).expect("member");
    }
    cur
}

#[test]
fn normalizes_dynamic_fields_paths_and_ansi() {
    let cwd = "/tmp/pi_ext_conformance";
    let original = object(vec![
        ("schema", text("pi.ext.log.v1")),
        ("ts", text("2026-02-03T03:01:02.123Z")),
        ("level", text("info")),
        ("event", text("tool_call.start")),
        (
            "message",
            text(&format!("opened {}/file.txt \u{1b}[31mERR\u{1b}[0m", cwd)),
        ),
        (
            "correlation",
            object(vec![
                ("extension_id", text("ext.demo")),
                ("scenario_id", text("scn-001")),
                ("session_id", text("sess-abc123")),
                ("run_id", text("run-20260203-0001")),
                ("artifact_id", text("sha256:deadbeef")),
                ("trace_id", text("trace-xyz")),
                ("span_id", text("span-123")),
            ]),
        ),
        (
            "source",
            object(vec![
                ("component", text("runtime")),
                ("host", text("host.name")),
                ("pid", Json::Number(JsonNumber::Unsigned(4242))),
            ]),
        ),
        (
            "data",
            object(vec![
                ("path", text(&format!("{}/dir/sub/file.rs", cwd))),
                ("note", text("\u{1b}[1mBold\u{1b}[0m")),
            ]),
        ),
    ]);

    let normalized = normalize_ext_log_line(&original, cwd);

    assert_eq!(at(&normalized, &["ts"]).as_str(), Some(PLACEHOLDER_TS));
    assert_eq!(
        at(&normalized, &["correlation", "session_id"]).as_str(),
        Some(PLACEHOLDER_SESSION_ID)
    );
    assert_eq!(at(&normalized, &["correlation", "run_id"]).as_str(), Some(PLACEHOLDER_RUN_ID));
    assert_eq!(
        at(&normalized, &["correlation", "artifact_id"]).as_str(),
        Some(PLACEHOLDER_ARTIFACT_ID)
    );
    assert_eq!(at(&normalized, &["correlation", "trace_id"]).as_str(), Some(PLACEHOLDER_TRACE_ID));
    assert_eq!(at(&normalized, &["correlation", "span_id"]).as_str(), Some(PLACEHOLDER_SPAN_ID));
    assert_eq!(at(&normalized, &["source", "host"]).as_str(), Some(PLACEHOLDER_HOST));
    assert_eq!(at(&normalized, &["source", "pid"]).as_u64(), Some(0));

    let msg = at(&normalized, &["message"]).as_str().unwrap_or_default();
    assert!(msg.contains("<cwd>/file.txt"));
    assert!(!msg.contains(cwd));
    assert!(!msg.contains("\u{1b}["));
    assert!(msg.contains("ERR"));

    let path = at(&normalized, &["data", "path"]).as_str().unwrap_or_default();
    assert!(path.contains("<cwd>/dir/sub/file.rs"));
    assert!(!path.contains(cwd));

    assert_eq!(at(&normalized, &["data", "note"]).as_str(), Some("Bold"));
}

#[test]
fn diff_key_prefers_most_specific_correlation_id() {
    let value = object(vec![
        ("event", text("tool_call.start")),
        (
            "correlation",
            object(vec![("scenario_id", text("scn-001")), ("tool_call_id", text("tool-42"))]),
        ),
    ]);

    assert_eq!(diff_key(&value), "tool_call.start::tool_call_id:tool-42");
}

#[test]
fn diff_normalized_jsonl_treats_dynamic_fields_as_equal() {
    let cwd = "/tmp/pi_ext_conformance";
    let expected = r#"
{"schema":"pi.ext.log.v1","ts":"2026-02-03T03:01:02.123Z","level":"info","event":"tool_call.start","message":"opened /tmp/pi_ext_conformance/file.txt","correlation":{"extension_id":"ext.demo","scenario_id":"scn-001","session_id":"sess-a","run_id":"run-a"},"source":{"component":"runtime","host":"a","pid":1}}
"#;
    let actual = r#"
{"schema":"pi.ext.log.v1","ts":"2026-02-03T03:01:02.999Z","level":"info","event":"tool_call.start","message":"opened /tmp/pi_ext_conformance/file.txt","correlation":{"extension_id":"ext.demo","scenario_id":"scn-001","session_id":"sess-b","run_id":"run-b"},"source":{"component":"runtime","host":"b","pid":9999}}
"#;

    diff_normalized_jsonl(expected, actual, cwd).unwrap();
}

#[test]
fn diff_normalized_jsonl_reports_a_change_outside_the_dynamic_fields() {
    let expected = "{\"event\":\"e\",\"message\":\"one\",\"ts\":\"a\"}\n";
    let actual = "{\"event\":\"e\",\"message\":\"two\",\"ts\":\"b\"}\n";
    let report = diff_normalized_jsonl(expected, actual, "/work").unwrap_err();
    assert!(report.contains("=== DIFF GROUP: e::id:<missing> ==="));
    assert!(report.contains("-    \"message\": \"one\","));
    assert!(report.contains("+    \"message\": \"two\","));
}

#[test]
fn diff_normalized_jsonl_names_the_line_that_is_no_json() {
    let err = diff_normalized_jsonl("{}\n\n{ this is not json }\n", "{}", "").unwrap_err();
    assert!(err.starts_with("line 2: JSON parse error: "));
    assert_eq!(err, "line 2: JSON parse error: key must be a string at line 1 column 3");
}

#[test]
fn normalize_string_strips_ansi_and_rewrites_both_spellings_of_cwd() {
    assert_eq!(normalize_string("\u{1b}[1;31mred\u{1b}[0m", ""), "red");
    assert_eq!(normalize_string("\u{1b}[", "/w"), "\u{1b}[");
    assert_eq!(normalize_string("/w/a and \\w\\a", "/w"), "<cwd>/a and <cwd>\\a");
    assert_eq!(normalize_string("aaa", "aa"), "<cwd>a");
}

#[test]
fn normalized_lines_have_their_keys_in_order() {
    let line = object(vec![("b", Json::Null), ("a", object(vec![("z", Json::Null), ("y", Json::Null)]))]);
    let normalized = normalize_ext_log_line(&line, "");
    assert_eq!(normalized.to_compact(), "{\"a\":{\"y\":null,\"z\":null},\"b\":null}");
    match normalized {
        Json::Object(members) => {
            assert_eq!(members[0].0, "a");
            assert_eq!(members[1].0, "b");
        }
        _ => panic!("expected an object"),
    }
}

#[test]
fn lines_with_ansi_text_still_differ_in_what_is_not_dynamic() {
    let line = |level: &str, ts: &str, cwd: &str| {
        object(vec![
            ("ts", text(ts)),
            ("level", text(level)),
            ("message", text(&format!("\u{1b}[1mran\u{1b}[0m in {cwd}/src"))),
            ("source", object(vec![("pid", Json::Number(JsonNumber::Unsigned(7))), ("host", text("h"))])),
        ])
    };
    let info = normalize_ext_log_line(&line("info", "t1", "/w"), "/w");
    let warn = normalize_ext_log_line(&line("warn", "t2", "/w"), "/w");
    assert!(!info.same(&warn));
    let again = normalize_ext_log_line(&line("info", "t3", "/w"), "/w");
    assert!(info.same(&again));
    let elsewhere = normalize_ext_log_line(&line("info", "t4", "/home/u/p"), "/home/u/p");
    assert!(info.same(&elsewhere));
    assert_eq!(info.get("message").and_then(|m| m.as_str()), Some("ran in <cwd>/src"));
}
