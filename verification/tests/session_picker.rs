use pi::session_index::SessionMeta;
use pi::session_picker::{format_time, PickerKey, SessionPicker};

fn meta(path: &str, id: &str, timestamp: &str, message_count: u64, last_modified_ms: i64, size_bytes: u64) -> SessionMeta {
    SessionMeta {
        path: path.to_string(),
        id: id.to_string(),
        cwd: "/tmp".to_string(),
        timestamp: timestamp.to_string(),
        message_count,
        last_modified_ms,
        size_bytes,
        name: None,
    }
}

fn two_sessions() -> Vec<SessionMeta> {
    vec![
        meta("/tmp/a.jsonl", "aaaaaaaa", "2026-02-03T10:00:00.000Z", 1, 1000, 100),
        meta("/tmp/b.jsonl", "bbbbbbbb", "2026-02-03T11:00:00.000Z", 2, 2000, 200),
    ]
}

fn one_session() -> Vec<SessionMeta> {
    vec![meta("/tmp/a.jsonl", "aaaaaaaa", "2026-02-03T10:00:00.000Z", 1, 1000, 100)]
}

fn selected_line(view: &str) -> Option<&str> {
    view.lines().find(|line| line.starts_with('>'))
}

#[test]
fn format_time_parses_rfc3339() {
    let input = "2026-02-03T10:30:00.000Z";
    let formatted = format_time(input);
    assert!(formatted.contains("2026-02-03"));
    assert!(formatted.contains("10:30"));
}

#[test]
fn format_time_falls_back_for_invalid() {
    let input = "not-a-timestamp";
    let formatted = format_time(input);
    assert_eq!(formatted, input);
}

#[test]
fn format_time_keeps_the_offset_of_the_text() {
    assert_eq!(format_time("2026-02-03T10:30:59.999Z"), "2026-02-03 10:30");
    assert_eq!(format_time("1996-12-19T16:39:57-08:00"), "1996-12-19 16:39");
    assert_eq!(format_time(""), "");
    assert_eq!(format_time("2026-02-30T10:30:00Z"), "2026-02-30T10:30:00Z");
}

#[test]
fn session_picker_navigation_down_up() {
    let mut picker = SessionPicker::new(two_sessions());
    let initial_view = picker.view();
    assert!(selected_line(&initial_view).unwrap_or_default().contains("aaaaaaaa"));

    picker.update(PickerKey::Down);
    let after_down = picker.view();
    assert!(selected_line(&after_down).unwrap_or_default().contains("bbbbbbbb"));

    picker.update(PickerKey::Up);
    let after_up = picker.view();
    assert!(selected_line(&after_up).unwrap_or_default().contains("aaaaaaaa"));
}

#[test]
fn session_picker_navigation_with_jk() {
    let mut picker = SessionPicker::new(two_sessions());
    picker.update(PickerKey::Rune('j'));
    let after_j = picker.view();
    assert!(selected_line(&after_j).unwrap_or_default().contains("bbbbbbbb"));

    picker.update(PickerKey::Rune('k'));
    let after_k = picker.view();
    assert!(selected_line(&after_k).unwrap_or_default().contains("aaaaaaaa"));
}

#[test]
fn session_picker_enter_sets_chosen_path() {
    let mut picker = SessionPicker::new(one_session());
    picker.update(PickerKey::Enter);
    assert_eq!(picker.selected_path(), Some("/tmp/a.jsonl"));
}

#[test]
fn session_picker_cancel_sets_flag() {
    let mut picker = SessionPicker::new(one_session());
    picker.update(PickerKey::Esc);
    assert!(picker.was_cancelled());
}

#[test]
fn the_selection_stops_at_both_ends() {
    let mut picker = SessionPicker::new(two_sessions());
    assert!(!picker.update(PickerKey::Up));
    assert!(selected_line(&picker.view()).unwrap_or_default().contains("aaaaaaaa"));
    picker.update(PickerKey::Down);
    assert!(!picker.update(PickerKey::Down));
    assert!(selected_line(&picker.view()).unwrap_or_default().contains("bbbbbbbb"));
    assert!(!picker.update(PickerKey::Rune('x')));
    assert!(!picker.update(PickerKey::Other));
    assert_eq!(picker.selected_path(), None);
    assert!(!picker.was_cancelled());
    assert!(picker.update(PickerKey::Enter));
    assert_eq!(picker.selected_path(), Some("/tmp/b.jsonl"));
}

#[test]
fn an_empty_picker_has_nothing_to_choose() {
    let mut picker = SessionPicker::new(Vec::new());
    assert_eq!(picker.view(), "No sessions found for this project.\n");
    assert!(!picker.update(PickerKey::Down));
    assert!(!picker.update(PickerKey::Enter));
    assert_eq!(picker.selected_path(), None);
    assert!(picker.update(PickerKey::Rune('q')));
    assert!(picker.was_cancelled());
    let mut other = SessionPicker::new(Vec::new());
    assert!(other.update(PickerKey::CtrlC));
    assert!(other.was_cancelled());
}

#[test]
fn the_picker_shows_each_session_on_a_line() {
    let mut sessions = two_sessions();
    sessions[1].id = "bbbbbbbb-and-more".to_string();
    sessions[1].name = Some("fix the build".to_string());
    sessions[0].timestamp = "yesterday".to_string();
    let mut picker = SessionPicker::new(sessions);
    picker.update(PickerKey::Down);
    assert_eq!(
        picker.view(),
        "Select a session to resume:\n\n\
         \x20 aaaaaaaa  yesterday  1 messages\n\
         > bbbbbbbb  2026-02-03 11:00  2 messages  fix the build\n\
         \n↑/↓ or j/k: move  Enter: open  Esc: cancel\n"
    );
}

#[test]
fn list_sessions_for_project_returns_empty_if_missing() {
    let index = pi::session_index::SessionIndex::new();
    let sessions = index.list_sessions(Some("/tmp/project"));
    assert!(sessions.is_empty());
    let picker = SessionPicker::new(sessions);
    assert_eq!(picker.view(), "No sessions found for this project.\n");
}
