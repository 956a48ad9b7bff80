use pi::error::{
    auth_hints, build_hints, config_hints, contains_any, io_hints, provider_hints,
    provider_key_hint, session_hints, sqlite_hints, tool_hints, Error, IoFailure, IoKind,
};

#[test]
fn every_error_has_its_line() {
    assert_eq!(Error::config("x").to_string(), "Configuration error: x");
    assert_eq!(Error::session("x").to_string(), "Session error: x");
    assert_eq!(
        Error::SessionNotFound { path: "/p".to_string() }.to_string(),
        "Session not found: /p"
    );
    assert_eq!(Error::provider("openai", "boom").to_string(), "Provider error: openai: boom");
    assert_eq!(Error::auth("x").to_string(), "Authentication error: x");
    assert_eq!(Error::tool("bash", "boom").to_string(), "Tool error: bash: boom");
    assert_eq!(Error::validation("x").to_string(), "Validation error: x");
    assert_eq!(Error::extension("x").to_string(), "Extension error: x");
    assert_eq!(Error::Json("x".to_string()).to_string(), "JSON error: x");
    assert_eq!(Error::Sqlite("x".to_string()).to_string(), "SQLite error: x");
    assert_eq!(Error::Aborted.to_string(), "Operation aborted");
    assert_eq!(Error::api("x").to_string(), "API error: x");
}

#[test]
fn io_errors_keep_kind_and_message() {
    let e = Error::from_io(&std::io::Error::new(std::io::ErrorKind::NotFound, "gone"));
    assert_eq!(e.to_string(), "IO error: gone");
    let hints = e.hints();
    assert_eq!(hints.summary, "Required file or directory not found.");
    assert_eq!(
        hints.context,
        vec![
            ("error_kind".to_string(), "NotFound".to_string()),
            ("details".to_string(), "gone".to_string())
        ]
    );
    let e = Error::from_io(&std::io::Error::new(std::io::ErrorKind::BrokenPipe, "pipe"));
    assert_eq!(e.hints().summary, "I/O error occurred.");
    let other = io_hints(&IoFailure {
        kind: IoKind::TimedOut,
        kind_name: "TimedOut".to_string(),
        details: "slow".to_string(),
    });
    assert_eq!(other.summary, "I/O operation timed out.");
    assert_eq!(other.hints.len(), 2);
}

#[test]
fn provider_hints_go_by_the_first_rule_that_matches() {
    let h = provider_hints("anthropic", "HTTP 401 Unauthorized");
    assert_eq!(h.summary, "Provider authentication failed.");
    assert_eq!(h.hints[0], "Set `ANTHROPIC_API_KEY` (or use `/login anthropic`).");
    assert_eq!(h.hints[1], "If using OAuth, run `/login` again.");
    assert_eq!(
        h.context,
        vec![
            ("provider".to_string(), "anthropic".to_string()),
            ("details".to_string(), "HTTP 401 Unauthorized".to_string())
        ]
    );
    assert_eq!(provider_hints("x", "403 and 429").summary, "Provider access forbidden.");
    assert_eq!(provider_hints("x", "Rate Limit hit").summary, "Provider rate limited the request.");
    assert_eq!(provider_hints("x", "server OVERLOADED").summary, "Provider is overloaded.");
    assert_eq!(provider_hints("x", "request timed out").summary, "Provider request timed out.");
    assert_eq!(provider_hints("x", "Bad Request").summary, "Provider rejected the request.");
    assert_eq!(provider_hints("x", "500").summary, "Provider encountered a server error.");
    let fallback = provider_hints("Mistral", "what");
    assert_eq!(fallback.summary, "Provider request failed.");
    assert_eq!(fallback.hints[0], "Check API key configuration for provider `Mistral`.");
}

#[test]
fn provider_key_hint_knows_the_providers_in_any_case() {
    assert_eq!(provider_key_hint("OpenAI"), "Set `OPENAI_API_KEY` for OpenAI requests.");
    assert_eq!(provider_key_hint("google"), "Set `GOOGLE_API_KEY` for Gemini requests.");
    assert_eq!(provider_key_hint("GEMINI"), "Set `GOOGLE_API_KEY` for Gemini requests.");
    assert_eq!(provider_key_hint("azure-openai"), "Set `AZURE_OPENAI_API_KEY` for Azure OpenAI.");
    assert_eq!(provider_key_hint("azure_openai"), "Set `AZURE_OPENAI_API_KEY` for Azure OpenAI.");
}

#[test]
fn the_other_hint_tables() {
    assert_eq!(config_hints("Failed to PARSE settings").summary, "Configuration file is not valid JSON.");
    assert_eq!(config_hints("settings not found").summary, "Configuration file is missing.");
    assert_eq!(config_hints("odd").summary, "Configuration error.");
    assert_eq!(session_hints("Empty session file").summary, "Session file is empty or corrupted.");
    assert_eq!(session_hints("failed to read dir").summary, "Failed to read session data.");
    assert_eq!(session_hints("odd").summary, "Session error.");
    assert_eq!(auth_hints("Missing authorization code").summary, "OAuth login did not complete.");
    assert_eq!(auth_hints("token exchange failed").summary, "OAuth token exchange failed.");
    assert_eq!(auth_hints("odd").summary, "Authentication error.");
    let t = tool_hints("bash", "command not found: foo");
    assert_eq!(t.summary, "Tool executable or target not found.");
    assert_eq!(t.context[0], ("tool".to_string(), "bash".to_string()));
    assert_eq!(tool_hints("bash", "odd").summary, "Tool execution failed.");
    assert_eq!(sqlite_hints("Database is LOCKED").summary, "SQLite database is locked.");
    assert_eq!(sqlite_hints("odd").summary, "SQLite error.");
    assert_eq!(Error::Aborted.hints().hints.len(), 0);
    assert_eq!(Error::validation("v").hints().summary, "Validation failed for input or config.");
    assert_eq!(Error::extension("v").hints().summary, "Extension failed to load or run.");
    assert_eq!(Error::Json("v".to_string()).hints().summary, "JSON parsing failed.");
    assert_eq!(Error::api("v").hints().summary, "API request failed.");
    assert_eq!(
        Error::SessionNotFound { path: "/p".to_string() }.hints().context,
        vec![("path".to_string(), "/p".to_string())]
    );
}

#[test]
fn lock_errors_become_aborted_or_session_errors() {
    let e = Error::from_lock(&asupersync::sync::LockError::Cancelled);
    assert!(matches!(e, Error::Aborted));
    let e = Error::from_lock(&asupersync::sync::LockError::Poisoned);
    assert_eq!(e.to_string(), "Session error: mutex poisoned");
}

#[test]
fn contains_any_and_build_hints() {
    assert!(contains_any("hello world", &["xyz", "lo w"]));
    assert!(!contains_any("hello", &["xyz", "hello!"]));
    assert!(!contains_any("hello", &[]));
    assert!(contains_any("hello", &[""]));
    let h = build_hints("s", vec!["a".to_string()], vec![("k", "v".to_string())]);
    assert_eq!(h.summary, "s");
    assert_eq!(h.hints, vec!["a".to_string()]);
    assert_eq!(h.context, vec![("k".to_string(), "v".to_string())]);
}

#[test]
fn an_io_error_is_kept_by_kind_name_and_message() {
    let e = std::io::Error::new(std::io::ErrorKind::TimedOut, "too slow");
    let failure = pi::error::IoFailure::of(&e);
    assert_eq!(failure.kind, pi::error::IoKind::TimedOut);
    assert_eq!(failure.kind_name, "TimedOut");
    assert_eq!(failure.details, "too slow");
    match Error::from_io(&std::io::Error::new(std::io::ErrorKind::ConnectionRefused, "no")) {
        Error::Io(f) => {
            assert_eq!(f.kind, pi::error::IoKind::ConnectionRefused);
            assert_eq!(f.kind_name, "ConnectionRefused");
            assert_eq!(f.details, "no");
        }
        other => panic!("expected an I/O error, got {other:?}"),
    }
    let other = pi::error::IoFailure::of(&std::io::Error::new(std::io::ErrorKind::InvalidData, "bad"));
    assert_eq!(other.kind, pi::error::IoKind::Other);
    assert_eq!(other.kind_name, "InvalidData");
}
