use pi::error::{Error, IoFailure, IoKind};
use pi::json::{Json, JsonNumber};
use pi::model::{AssistantMessage, ContentBlock, StopReason, TextContent, Usage, UserContent};
use pi::session::{EntryBase, EntryKind, Session, SessionEntry, SessionHeader, SessionMessage};
use pi::session_file::header_json;
use pi::session_index::{SessionIndex, SessionMeta};

fn new_session() -> Session {
    Session::create(SessionHeader::new(
        "sess-1".to_string(),
        "2026-02-03T00:00:00.000Z".to_string(),
        "/tmp/project".to_string(),
    ))
}

fn make_user_message(text: &str) -> SessionMessage {
    SessionMessage::User { content: UserContent::Text(text.to_string()), timestamp: Some(0) }
}

fn make_assistant_message(text: &str) -> SessionMessage {
    SessionMessage::Assistant {
        message: AssistantMessage {
            content: vec![ContentBlock::Text(TextContent::new(text))],
            api: "test".to_string(),
            provider: "test".to_string(),
            model: "test".to_string(),
            usage: Usage::default(),
            stop_reason: StopReason::Stop,
            error_message: None,
            timestamp: 0,
        },
    }
}

fn save_and_reopen(session: &Session) -> Session {
    Session::from_jsonl(&session.to_jsonl()).expect("reopen session")
}

fn contains_entry(entries: &[SessionEntry], predicate: impl Fn(&SessionEntry) -> bool, description: &str) {
    assert!(entries.iter().any(predicate), "Expected session entries to contain {description}");
}

#[test]
fn load_session_accepts_parent_session_alias_and_fills_ids() {
    let jsonl = r#"
{"type":"session","version":3,"id":"sess-123","timestamp":"2026-02-03T00:00:00.000Z","cwd":"/tmp/project","provider":"anthropic","modelId":"sonnet-4-20250514","thinkingLevel":"medium","parentSession":"/tmp/parent.jsonl"}
{"type":"message","parentId":"root","timestamp":"2026-02-03T00:00:01.000Z","message":{"role":"user","content":"Hello","timestamp":1706918401000}}
{"type":"model_change","timestamp":"2026-02-03T00:00:02.000Z","provider":"anthropic","modelId":"sonnet-4-20250514"}
{"type":"thinking_level_change","timestamp":"2026-02-03T00:00:03.000Z","thinkingLevel":"medium"}
{"type":"compaction","timestamp":"2026-02-03T00:00:04.000Z","summary":"compacted","firstKeptEntryId":"a1b2c3d4","tokensBefore":128}
{"type":"branch_summary","timestamp":"2026-02-03T00:00:05.000Z","fromId":"root","summary":"branch summary"}
{"type":"label","timestamp":"2026-02-03T00:00:06.000Z","targetId":"a1b2c3d4","label":"checkpoint"}
{"type":"session_info","timestamp":"2026-02-03T00:00:07.000Z","name":"demo session"}
{"type":"custom","timestamp":"2026-02-03T00:00:08.000Z","customType":"note","data":{"tag":"demo"}}
"#;

    let session = Session::from_jsonl(jsonl.trim_start()).expect("open session");

    assert_eq!(session.header.parent_session.as_deref(), Some("/tmp/parent.jsonl"));
    assert_eq!(session.entries.len(), 8);
    assert!(session.entries.iter().all(|entry| !entry.base().id.is_empty()));
    let mut ids: Vec<&String> = session.entries.iter().map(SessionEntry::base_id).collect();
    ids.sort();
    ids.dedup();
    assert_eq!(ids.len(), 8);

    let leaf = session.leaf_id.as_deref();
    let last_id = session.entries.last().map(SessionEntry::base_id).map(String::as_str);
    assert_eq!(leaf, last_id);
}

#[test]
fn session_header_serializes_branched_from_field() {
    let mut session = new_session();
    session.header.parent_session = Some("/tmp/parent.jsonl".to_string());

    let header_json = header_json(&session.header).to_compact();
    assert!(header_json.contains("\"branchedFrom\""));
    assert!(!header_json.contains("parentSession"));
}

#[test]
fn open_empty_session_file_errors() {
    let err = Session::from_jsonl("").err().expect("expected error");
    assert!(matches!(err, Error::Session(_)), "Expected Session error, got: {}", err.to_string());
    let err = Session::from_jsonl("\n  \n").err().expect("expected error");
    assert_eq!(err.to_string(), "Session error: Empty session file");
}

#[test]
fn open_header_only_session_succeeds_with_no_entries() {
    let header = SessionHeader::new("h".to_string(), "t".to_string(), "/c".to_string());
    let jsonl = format!("{}\n", header_json(&header).to_compact());

    let loaded = Session::from_jsonl(&jsonl).expect("open header-only session");
    assert!(loaded.entries.is_empty());
    assert!(loaded.leaf_id.is_none());
    assert_eq!(loaded.header.id, "h");
    assert_eq!(loaded.header.version, 3);
}

#[test]
fn open_rejects_a_first_line_that_is_no_header() {
    let err = Session::from_jsonl("{\"type\":\"message\"}\n").err().expect("expected error");
    assert_eq!(err.to_string(), "Session error: Invalid session header");
    let err = Session::from_jsonl("{ this is not json }\n").err().expect("expected error");
    assert_eq!(err.to_string(), "Session error: Invalid session header");
}

#[test]
fn save_and_open_round_trip_linear_messages_preserves_leaf_id() {
    let mut session = new_session();

    let id1 = session.append_message(make_user_message("Hello"));
    let id2 = session.append_message(make_assistant_message("Hi there!"));

    let loaded = save_and_reopen(&session);

    assert_eq!(loaded.entries.len(), 2);
    assert_eq!(loaded.leaf_id.as_deref(), Some(id2.as_str()));

    let path = loaded.get_path_to_entry(&id2);
    assert_eq!(path, vec![id1, id2]);
}

#[test]
fn save_and_open_round_trip_branching_preserves_leaves_and_branch_point() {
    let mut session = new_session();

    let root = session.append_message(make_user_message("Root"));
    let leaf_a = session.append_message(make_assistant_message("Branch A"));
    assert!(session.create_branch_from(&root));
    let leaf_b = session.append_message(make_assistant_message("Branch B"));

    let loaded = save_and_reopen(&session);
    let parents: Vec<Option<&str>> =
        loaded.entries.iter().map(|e| e.base.parent_id.as_deref()).collect();
    assert_eq!(parents, vec![None, Some(root.as_str()), Some(root.as_str())]);
    let summary = loaded.branch_summary();

    let leaves = summary.leaves.into_iter().collect::<std::collections::HashSet<_>>();
    assert_eq!(
        leaves,
        [leaf_a.clone(), leaf_b.clone()].into_iter().collect::<std::collections::HashSet<_>>()
    );
    assert!(summary.branch_points.contains(&root), "Expected root entry to be a branch point");
    assert_eq!(summary.branch_points.len(), 1);
}

#[test]
fn open_skips_corrupted_entries_and_keeps_valid_ones() {
    let mut session = new_session();
    session.append_message(make_user_message("Hello"));
    session.append_message(make_assistant_message("World"));

    let original = session.to_jsonl();
    let mut lines: Vec<&str> = original.lines().collect();
    assert!(lines.len() >= 2);
    lines.insert(2.min(lines.len()), "{ this is not json }");

    let loaded =
        Session::from_jsonl(&format!("{}\n", lines.join("\n"))).expect("open corrupted session");
    assert_eq!(loaded.entries.len(), session.entries.len());
}

#[test]
fn open_skips_entries_of_an_unknown_kind() {
    let text = format!(
        "{}\n{}\n{}\n",
        header_json(&new_session().header).to_compact(),
        "{\"type\":\"from_the_future\",\"id\":\"x\",\"timestamp\":\"t\"}",
        "{\"type\":\"session_info\",\"id\":\"y\",\"timestamp\":\"t\",\"name\":null}",
    );
    let loaded = Session::from_jsonl(&text).expect("open");
    assert_eq!(loaded.entries.len(), 1);
    assert_eq!(loaded.leaf_id.as_deref(), Some("y"));
}

#[test]
fn save_round_trips_model_change_entry() {
    let mut session = new_session();
    session.append_message(make_user_message("Hello"));
    session.append_model_change("anthropic".to_string(), "model-test".to_string());

    let loaded = save_and_reopen(&session);
    contains_entry(
        &loaded.entries,
        |entry| matches!(&entry.kind, EntryKind::ModelChange { provider, model_id } if provider == "anthropic" && model_id == "model-test"),
        "ModelChange(provider=anthropic, model_id=model-test)",
    );
}

#[test]
fn save_round_trips_thinking_level_change_entry() {
    let mut session = new_session();
    session.append_message(make_user_message("Hello"));
    session.append_thinking_level_change("high".to_string());

    let loaded = save_and_reopen(&session);
    contains_entry(
        &loaded.entries,
        |entry| matches!(&entry.kind, EntryKind::ThinkingLevelChange { thinking_level } if thinking_level == "high"),
        "ThinkingLevelChange(thinking_level=high)",
    );
}

#[test]
fn save_round_trips_session_info_entry() {
    let mut session = new_session();
    session.append_message(make_user_message("Hello"));
    session.append_session_info(Some("demo session".to_string()));

    let loaded = save_and_reopen(&session);
    contains_entry(
        &loaded.entries,
        |entry| matches!(&entry.kind, EntryKind::SessionInfo { name } if name.as_deref() == Some("demo session")),
        "SessionInfo(name=demo session)",
    );
}

#[test]
fn save_round_trips_label_entry() {
    let mut session = new_session();
    let target_id = session.append_message(make_user_message("Hello"));
    let label_id = session.add_label(&target_id, Some("checkpoint".to_string())).expect("label created");
    assert!(session.add_label("no-such-entry", None).is_none());

    let loaded = save_and_reopen(&session);
    contains_entry(
        &loaded.entries,
        |entry| {
            entry.base.id == label_id
                && matches!(&entry.kind, EntryKind::Label { target_id: t, label } if *t == target_id && label.as_deref() == Some("checkpoint"))
        },
        "Label(target_id=..., label=checkpoint)",
    );
}

#[test]
fn save_round_trips_compaction_entry() {
    let mut session = new_session();
    let first = session.append_message(make_user_message("Hello"));
    let keep = session.append_message(make_user_message("Keep me"));
    session.append_message(make_assistant_message("Ignore me"));
    session.append_compaction(
        "compacted".to_string(),
        keep.clone(),
        128,
        Some(Json::Object(vec![("from".to_string(), Json::Text("test".to_string()))])),
        Some(false),
    );

    let loaded = save_and_reopen(&session);
    contains_entry(
        &loaded.entries,
        |entry| {
            matches!(
                &entry.kind,
                EntryKind::Compaction { summary, first_kept_entry_id, tokens_before, details, from_hook }
                    if summary == "compacted"
                        && *first_kept_entry_id == keep
                        && *tokens_before == 128
                        && details.as_ref().is_some_and(|v| v.get("from").and_then(|v| v.as_str()) == Some("test"))
                        && *from_hook == Some(false)
            )
        },
        "Compaction(summary=compacted, firstKeptEntryId=..., tokensBefore=128)",
    );
    contains_entry(&loaded.entries, |entry| entry.base().id == first, "first message entry id");
}

#[test]
fn save_round_trips_branch_summary_entry() {
    let mut session = new_session();
    let root = session.append_message(make_user_message("Hello"));
    session.append_branch_summary(root.clone(), "branch summary".to_string());

    let loaded = save_and_reopen(&session);
    contains_entry(
        &loaded.entries,
        |entry| matches!(&entry.kind, EntryKind::BranchSummary { from_id, summary } if *from_id == root && summary == "branch summary"),
        "BranchSummary(from_id=..., summary=branch summary)",
    );
}

#[test]
fn save_round_trips_custom_entry() {
    let mut session = new_session();
    session.append_message(make_user_message("Hello"));

    let custom_id = "c0ffee00".to_string();
    let base = EntryBase::new(session.leaf_id.clone(), custom_id.clone(), "t".to_string());
    session.entries.push(SessionEntry {
        base,
        kind: EntryKind::Custom {
            custom_type: "note".to_string(),
            data: Some(Json::Object(vec![("tag".to_string(), Json::Text("demo".to_string()))])),
        },
        extra: Vec::new(),
    });
    session.leaf_id = Some(custom_id.clone());

    let loaded = save_and_reopen(&session);
    contains_entry(
        &loaded.entries,
        |entry| matches!(&entry.kind, EntryKind::Custom { custom_type, data } if custom_type == "note" && data.as_ref().is_some_and(|v| v.get("tag").and_then(|v| v.as_str()) == Some("demo"))),
        "Custom(customType=note, data.tag=demo)",
    );
    assert_eq!(loaded.leaf_id, Some(custom_id));
}

#[test]
fn a_reloaded_session_has_the_saved_entries_in_order() {
    let mut session = new_session();
    session.append_message(make_user_message("one"));
    session.append_message(SessionMessage::ToolResult {
        tool_call_id: "tc".to_string(),
        tool_name: "read".to_string(),
        content: vec![ContentBlock::Text(TextContent::new("out"))],
        details: Some(Json::Array(vec![Json::Number(JsonNumber::Negative(-3)), Json::Bool(true)])),
        is_error: false,
        timestamp: Some(-5),
    });
    session.append_message(SessionMessage::BashExecution {
        command: "ls".to_string(),
        output: "a\nb".to_string(),
        exit_code: -1,
    });
    session.push("note".to_string(), None);
    let text = session.to_jsonl();
    let loaded = Session::from_jsonl(&text).expect("reload");
    assert_eq!(loaded.to_jsonl(), text);
    assert_eq!(loaded.entries.len(), 4);
    assert_eq!(loaded.leaf_id, session.leaf_id);
    assert_eq!(text.lines().count(), 5);
}

#[test]
fn appended_entries_get_fresh_ids_and_hang_under_the_leaf() {
    let mut session = new_session();
    session.entries.push(SessionEntry {
        base: EntryBase::new(None, "1".to_string(), "t".to_string()),
        kind: EntryKind::SessionInfo { name: None },
        extra: Vec::new(),
    });
    session.leaf_id = Some("1".to_string());
    let id = session.append_message(make_user_message("x"));
    assert_eq!(id, "00");
    assert_eq!(session.entries[1].base.parent_id.as_deref(), Some("1"));
    let next = session.append_message(make_user_message("y"));
    assert_eq!(next, "2");
    assert_eq!(session.leaf_id.as_deref(), Some("2"));
    assert!(!session.create_branch_from("missing"));
    assert_eq!(session.leaf_id.as_deref(), Some("2"));
}

#[test]
fn path_to_entry_runs_from_the_root() {
    let mut session = new_session();
    let r = session.append_message(make_user_message("r"));
    let a = session.append_message(make_user_message("a"));
    let b = session.append_message(make_user_message("b"));
    session.create_branch_from(&a);
    let c = session.append_message(make_user_message("c"));
    let stamp = &session.entries[0].base.timestamp;
    assert_eq!(stamp.len(), "2026-02-03T00:00:00.000Z".len());
    assert!(stamp.ends_with('Z') && stamp.as_bytes()[10] == b'T');
    assert_eq!(session.get_path_to_entry(&b), vec![r.clone(), a.clone(), b]);
    assert_eq!(session.get_path_to_entry(&c), vec![r.clone(), a, c]);
    assert_eq!(session.get_path_to_entry(&r), vec![r]);
    assert!(session.get_path_to_entry("missing").is_empty());
}

#[test]
fn save_updates_session_index_for_override_dir() {
    let mut session = new_session();
    session.append_message(make_user_message("Hello"));
    session.append_session_info(Some("named".to_string()));

    let mut index = SessionIndex::new();
    index.index_session(SessionMeta::of_session(&session, "/s/a.jsonl", 10, 100));
    let indexed =
        index.list_sessions(Some(&session.header.cwd)).into_iter().any(|meta| meta.id == session.header.id);
    assert!(indexed, "Expected session to be indexed after save()");
    let rows = index.list_sessions(None);
    assert_eq!(rows[0].message_count, 1);
    assert_eq!(rows[0].name.as_deref(), Some("named"));
    assert!(index.list_sessions(Some("/elsewhere")).is_empty());
}

#[test]
fn list_sessions_for_project_orders_by_mtime() {
    let meta = |id: &str, cwd: &str, mtime: i64| SessionMeta {
        path: format!("/s/{id}.jsonl"),
        id: id.to_string(),
        cwd: cwd.to_string(),
        timestamp: "2026-02-03T12:00:00.000Z".to_string(),
        message_count: 0,
        last_modified_ms: mtime,
        size_bytes: 1,
        name: None,
    };
    let mut index = SessionIndex::new();
    index.index_session(meta("aaaaaaa1", "/p", 1000));
    index.index_session(meta("bbbbbbb2", "/p", 2000));
    index.index_session(meta("ccccccc3", "/q", 3000));
    index.index_session(meta("zzzz", "/p", 1000));
    index.index_session(meta("bbbbbbb2", "/p", 2500));

    let sessions = index.list_sessions(Some("/p"));
    let ids: Vec<&str> = sessions.iter().map(|m| m.id.as_str()).collect();
    assert_eq!(ids, vec!["bbbbbbb2", "aaaaaaa1", "zzzz"]);
    assert_eq!(sessions[0].last_modified_ms, 2500);
    assert_eq!(index.list_sessions(None).len(), 4);
}

#[test]
fn save_creates_path_under_override_dir() {
    let path = pi::session_path::session_path("/tmp/sessions", "/home/me/my project", "abc123");
    assert_eq!(path, "/tmp/sessions/%00002fhome%00002fme%00002fmy%000020project/abc123.jsonl");
    assert!(path.starts_with(&format!("/tmp/sessions/{}", pi::session_path::encode_cwd("/home/me/my project"))));
    assert_eq!(pi::session_path::encode_cwd("a.b_c-D9"), "a.b_c-D9");
    assert_eq!(pi::session_path::encode_cwd("%é\u{10ffff}"), "%000025%0000e9%10ffff");
    assert_ne!(pi::session_path::encode_cwd("/a/b"), pi::session_path::encode_cwd("/a%00002fb"));
}

#[test]
fn open_missing_session_returns_session_not_found_error() {
    let missing = "/tmp/sessions/missing.jsonl";
    let read = Err(IoFailure::of(&std::io::Error::from(std::io::ErrorKind::NotFound)));
    let err = Session::open(missing, read).err().expect("expected error");
    assert!(
        matches!(&err, Error::SessionNotFound { path } if path == missing),
        "Expected SessionNotFound, got: {}",
        err.to_string()
    );
}

#[test]
fn a_file_that_cannot_be_read_is_an_io_error() {
    let read = Err(IoFailure::of(&std::io::Error::from(std::io::ErrorKind::PermissionDenied)));
    let err = Session::open("/tmp/s.jsonl", read).err().expect("expected error");
    assert!(matches!(&err, Error::Io(failure) if failure.kind == IoKind::PermissionDenied));
}

#[test]
fn an_opened_session_knows_its_file() {
    let mut session = Session::create(SessionHeader::new(
        "s1".to_string(),
        "2026-01-01T00:00:00.000Z".to_string(),
        "/w".to_string(),
    ));
    session.append_session_info(Some("named".to_string()));
    let opened = Session::open("/tmp/s.jsonl", Ok(session.to_jsonl())).expect("open");
    assert_eq!(opened.path.as_deref(), Some("/tmp/s.jsonl"));
    assert_eq!(opened.entries.len(), 1);
    assert_eq!(opened.name(), Some("named"));
    let empty = Session::open("/tmp/s.jsonl", Ok(String::new())).err().expect("expected error");
    assert!(matches!(&empty, Error::Session(m) if m == "Empty session file"));
}

#[test]
fn appended_messages_lengthen_the_path_and_move_the_leaf() {
    let mut session = new_session();
    let root = session.append_message(SessionMessage::User {
        content: UserContent::Text("Root".to_string()),
        timestamp: Some(1),
    });
    let a = session.append_message(SessionMessage::User {
        content: UserContent::Text("A".to_string()),
        timestamp: Some(2),
    });
    assert!(session.create_branch_from(&root));
    let old_path = session.get_path_to_entry(&root);
    let path_to_a = session.get_path_to_entry(&a);
    let before = session.branch_summary();
    assert_eq!(before.leaves, vec![a.clone()]);
    assert!(before.branch_points.is_empty());

    let count = session.entries.len();
    session.append_model_messages(vec![
        pi::model::Message::User(pi::model::UserMessage {
            content: UserContent::Text("B".to_string()),
            timestamp: 3,
        }),
        pi::model::Message::User(pi::model::UserMessage {
            content: UserContent::Text("C".to_string()),
            timestamp: 4,
        }),
    ]);
    let new_ids: Vec<String> = session.entries[count..].iter().map(|e| e.base.id.clone()).collect();
    assert_eq!(new_ids.len(), 2);
    let tip = session.leaf_id.clone().expect("tip");
    assert_eq!(tip, new_ids[1]);
    let mut expected = old_path.clone();
    expected.extend(new_ids.iter().cloned());
    assert_eq!(session.get_path_to_entry(&tip), expected);
    assert_eq!(session.get_path_to_entry(&a), path_to_a);

    let after = session.branch_summary();
    let mut leaves = after.leaves.clone();
    leaves.sort();
    let mut wanted = vec![a.clone(), new_ids[1].clone()];
    wanted.sort();
    assert_eq!(leaves, wanted);
    assert_eq!(after.branch_points, vec![root.clone()]);
    assert!(!after.leaves.contains(&new_ids[0]));
}

#[test]
fn unknown_fields_are_kept_on_read_and_written_back() {
    let text = "{\"type\":\"session\",\"version\":3,\"id\":\"s\",\"timestamp\":\"t\",\"cwd\":\"/w\",\"futureFlag\":true}\n\
                {\"type\":\"session_info\",\"id\":\"e1\",\"parentId\":null,\"timestamp\":\"t1\",\"name\":\"n\",\"colour\":\"red\",\"weight\":7}\n";
    let session = Session::from_jsonl(text).expect("load");
    assert_eq!(session.header.extra.len(), 1);
    assert_eq!(session.header.extra[0].0, "futureFlag");
    assert!(matches!(session.header.extra[0].1, Json::Bool(true)));
    assert_eq!(session.entries.len(), 1);
    let keys: Vec<&str> = session.entries[0].extra.iter().map(|m| m.0.as_str()).collect();
    assert_eq!(keys, vec!["colour", "weight"]);
    assert_eq!(session.name(), Some("n"));

    let written = session.to_jsonl();
    let lines: Vec<&str> = written.lines().collect();
    assert!(lines[0].contains("\"futureFlag\":true"));
    assert!(lines[1].contains("\"colour\":\"red\""));
    assert!(lines[1].contains("\"weight\":7"));

    let again = Session::from_jsonl(&written).expect("reload");
    assert_eq!(again.header.extra.len(), 1);
    assert_eq!(again.entries[0].extra.len(), 2);
    assert!(again.entries[0].extra[0].1.same(&session.entries[0].extra[0].1));
    assert!(again.entries[0].extra[1].1.same(&session.entries[0].extra[1].1));

    let mut fresh = new_session();
    let id = fresh.append_session_info(None);
    assert!(fresh.header.extra.is_empty());
    assert!(fresh.entries.iter().all(|e| e.extra.is_empty()));
    assert!(!fresh.to_jsonl().contains("extra"));
    assert_eq!(fresh.leaf_id.as_deref(), Some(id.as_str()));
}
