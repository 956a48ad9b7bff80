//! The error type of the crate, and the hints that go with each error.

use crate::text::{
    chars_of, contains_chars, contains_text, lowercased, str_eq, to_lowercase,
};
use vstd::prelude::*;

verus! {

/// What to tell a user about an error: a summary, things to try, and labelled
/// context.
#[derive(Debug, Clone)]
pub struct ErrorHints {
    /// Brief summary of the error category.
    pub summary: String,
    /// Actionable hints for the user.
    pub hints: Vec<String>,
    /// Key-value context pairs for display.
    pub context: Vec<(String, String)>,
}

/// [`ErrorHints`] as plain data.
pub struct ErrorHintsV {
    pub summary: Seq<char>,
    pub hints: Seq<Seq<char>>,
    pub context: Seq<(Seq<char>, Seq<char>)>,
}

/// The views of a sequence of strings.
pub open spec fn texts_view(texts: Seq<String>) -> Seq<Seq<char>> {
    texts.map_values(|s: String| s@)
}

/// The views of a sequence of labelled strings.
pub open spec fn pairs_view(pairs: Seq<(String, String)>) -> Seq<(Seq<char>, Seq<char>)> {
    pairs.map_values(|p: (String, String)| (p.0@, p.1@))
}

/// The views of a sequence of strings under literal labels.
pub open spec fn labelled_view(pairs: Seq<(&str, String)>) -> Seq<(Seq<char>, Seq<char>)> {
    pairs.map_values(|p: (&str, String)| (p.0@, p.1@))
}

impl View for ErrorHints {
    type V = ErrorHintsV;

    open spec fn view(&self) -> ErrorHintsV {
        ErrorHintsV {
            summary: self.summary@,
            hints: texts_view(self.hints@),
            context: pairs_view(self.context@),
        }
    }
}

/// The hints with the given parts.
pub open spec fn hints_v(
    summary: Seq<char>,
    hints: Seq<Seq<char>>,
    context: Seq<(Seq<char>, Seq<char>)>,
) -> ErrorHintsV {
    ErrorHintsV { summary, hints, context }
}

/// Puts a summary, hints and labelled context together.
pub fn build_hints(summary: &str, hints: Vec<String>, context: Vec<(&str, String)>) -> (r:
    ErrorHints)
    ensures
        r@ == hints_v(summary@, texts_view(hints@), labelled_view(context@)),
{
    let mut pairs: Vec<(String, String)> = Vec::new();
    let mut i: usize = 0;
    while i < context.len()
        invariant
            i <= context.len(),
            pairs@.len() == i,
            forall|k: int|
                0 <= k < i ==> (#[trigger] pairs@[k]).0@ == context@[k].0@ && pairs@[k].1@
                    == context@[k].1@,
        decreases context.len() - i,
    {
        pairs.push((String::from_str(context[i].0), context[i].1.clone()));
        i += 1;
    }
    assert(pairs_view(pairs@) =~= labelled_view(context@));
    ErrorHints { summary: String::from_str(summary), hints, context: pairs }
}

/// Whether one of the needles stands somewhere in the text.
pub open spec fn any_of(hay: Seq<char>, needles: Seq<&str>) -> bool {
    exists|k: int| 0 <= k < needles.len() && contains_text(hay, (#[trigger] needles[k])@)
}

/// Whether one of the needles stands somewhere in the text.
pub fn contains_any(haystack: &str, needles: &[&str]) -> (b: bool)
    ensures
        b == any_of(haystack@, needles@),
{
    let hay = chars_of(haystack);
    let mut i: usize = 0;
    while i < needles.len()
        invariant
            i <= needles.len(),
            hay@ == haystack@,
            forall|k: int| 0 <= k < i ==> !contains_text(hay@, (#[trigger] needles@[k])@),
        decreases needles.len() - i,
    {
        let needle = chars_of(needles[i]);
        if contains_chars(hay.as_slice(), needle.as_slice()) {
            return true;
        }
        i += 1;
    }
    false
}

/// Two texts as a list of owned strings.
pub fn two_texts(first: &str, second: &str) -> (r: Vec<String>)
    ensures
        texts_view(r@) == seq![first@, second@],
{
    let r = vec![String::from_str(first), String::from_str(second)];
    assert(texts_view(r@) =~= seq![first@, second@]);
    r
}

/// One labelled value as a context list.
pub fn one_pair<'a>(label: &'a str, value: &str) -> (r: Vec<(&'a str, String)>)
    ensures
        labelled_view(r@) == seq![(label@, value@)],
{
    let r = vec![(label, String::from_str(value))];
    assert(labelled_view(r@) =~= seq![(label@, value@)]);
    r
}

/// Two labelled values as a context list.
pub fn two_pairs<'a>(label: &'a str, value: &str, second_label: &'a str, second: &str) -> (r: Vec<
    (&'a str, String),
>)
    ensures
        labelled_view(r@) == seq![(label@, value@), (second_label@, second@)],
{
    let r = vec![(label, String::from_str(value)), (second_label, String::from_str(second))];
    assert(labelled_view(r@) =~= seq![(label@, value@), (second_label@, second@)]);
    r
}

/// The hints for a configuration error: the first rule whose words occur in the
/// lower-case message decides.
pub open spec fn config_hints_of(lower: Seq<char>, message: Seq<char>) -> ErrorHintsV {
    let context = seq![("details"@, message)];
    if any_of(lower, seq!["json", "parse", "serde"]) {
        hints_v("Configuration file is not valid JSON."@, seq!["Fix JSON formatting in the active settings file."@, "Run `pi config` to see which settings file is in use."@], context)
    } else if any_of(lower, seq!["missing", "not found", "no such file"]) {
        hints_v("Configuration file is missing."@, seq!["Create `~/.pi/agent/settings.json` or set `PI_CONFIG_PATH`."@, "Run `pi config` to confirm the resolved path."@], context)
    } else {
        hints_v("Configuration error."@, seq!["Review your settings file for incorrect values."@, "Run `pi config` to verify settings precedence."@], context)
    }
}

/// The hints for a configuration error, given the message in lower case.
pub fn config_hints_for(lower: &str, message: &str) -> (r: ErrorHints)
    ensures
        r@ == config_hints_of(lower@, message@),
{
    let context = one_pair("details", message);
    if contains_any(lower, vec!["json", "parse", "serde"].as_slice()) {
        return build_hints("Configuration file is not valid JSON.", two_texts("Fix JSON formatting in the active settings file.", "Run `pi config` to see which settings file is in use."), context);
    }
    if contains_any(lower, vec!["missing", "not found", "no such file"].as_slice()) {
        return build_hints("Configuration file is missing.", two_texts("Create `~/.pi/agent/settings.json` or set `PI_CONFIG_PATH`.", "Run `pi config` to confirm the resolved path."), context);
    }
    build_hints("Configuration error.", two_texts("Review your settings file for incorrect values.", "Run `pi config` to verify settings precedence."), context)
}

/// The hints for a configuration error.
pub fn config_hints(message: &str) -> (r: ErrorHints)
    ensures
        r@ == config_hints_of(lowercased(message@), message@),
{
    let lower = to_lowercase(message);
    config_hints_for(lower.as_str(), message)
}

/// The hints for a session error: the first rule whose words occur in the
/// lower-case message decides.
pub open spec fn session_hints_of(lower: Seq<char>, message: Seq<char>) -> ErrorHintsV {
    let context = seq![("details"@, message)];
    if any_of(lower, seq!["empty session file", "empty session"]) {
        hints_v("Session file is empty or corrupted."@, seq!["Start a new session with `pi --no-session`."@, "Inspect the session file for truncation."@], context)
    } else if any_of(lower, seq!["failed to read", "read dir", "read session"]) {
        hints_v("Failed to read session data."@, seq!["Check file permissions for the sessions directory."@, "Verify `PI_SESSIONS_DIR` if you set it."@], context)
    } else {
        hints_v("Session error."@, seq!["Try `pi --continue` or specify `--session <path>`."@, "Check session file integrity in the sessions directory."@], context)
    }
}

/// The hints for a session error, given the message in lower case.
pub fn session_hints_for(lower: &str, message: &str) -> (r: ErrorHints)
    ensures
        r@ == session_hints_of(lower@, message@),
{
    let context = one_pair("details", message);
    if contains_any(lower, vec!["empty session file", "empty session"].as_slice()) {
        return build_hints("Session file is empty or corrupted.", two_texts("Start a new session with `pi --no-session`.", "Inspect the session file for truncation."), context);
    }
    if contains_any(lower, vec!["failed to read", "read dir", "read session"].as_slice()) {
        return build_hints("Failed to read session data.", two_texts("Check file permissions for the sessions directory.", "Verify `PI_SESSIONS_DIR` if you set it."), context);
    }
    build_hints("Session error.", two_texts("Try `pi --continue` or specify `--session <path>`.", "Check session file integrity in the sessions directory."), context)
}

/// The hints for a session error.
pub fn session_hints(message: &str) -> (r: ErrorHints)
    ensures
        r@ == session_hints_of(lowercased(message@), message@),
{
    let lower = to_lowercase(message);
    session_hints_for(lower.as_str(), message)
}

/// The hints for an authentication error: the first rule whose words occur in the
/// lower-case message decides.
pub open spec fn auth_hints_of(lower: Seq<char>, message: Seq<char>) -> ErrorHintsV {
    let context = seq![("details"@, message)];
    if any_of(lower, seq!["missing authorization code", "authorization code"]) {
        hints_v("OAuth login did not complete."@, seq!["Run `/login` again to restart the flow."@, "Ensure the browser redirect URL was opened."@], context)
    } else if any_of(lower, seq!["token exchange failed", "invalid token response"]) {
        hints_v("OAuth token exchange failed."@, seq!["Retry `/login` to refresh credentials."@, "Check network connectivity during the login flow."@], context)
    } else {
        hints_v("Authentication error."@, seq!["Verify API keys or run `/login`."@, "Check auth.json permissions in the Pi config directory."@], context)
    }
}

/// The hints for an authentication error, given the message in lower case.
pub fn auth_hints_for(lower: &str, message: &str) -> (r: ErrorHints)
    ensures
        r@ == auth_hints_of(lower@, message@),
{
    let context = one_pair("details", message);
    if contains_any(lower, vec!["missing authorization code", "authorization code"].as_slice()) {
        return build_hints("OAuth login did not complete.", two_texts("Run `/login` again to restart the flow.", "Ensure the browser redirect URL was opened."), context);
    }
    if contains_any(lower, vec!["token exchange failed", "invalid token response"].as_slice()) {
        return build_hints("OAuth token exchange failed.", two_texts("Retry `/login` to refresh credentials.", "Check network connectivity during the login flow."), context);
    }
    build_hints("Authentication error.", two_texts("Verify API keys or run `/login`.", "Check auth.json permissions in the Pi config directory."), context)
}

/// The hints for an authentication error.
pub fn auth_hints(message: &str) -> (r: ErrorHints)
    ensures
        r@ == auth_hints_of(lowercased(message@), message@),
{
    let lower = to_lowercase(message);
    auth_hints_for(lower.as_str(), message)
}

/// The hints for a failed tool: the first rule whose words occur in the
/// lower-case message decides.
pub open spec fn tool_hints_of(lower: Seq<char>, tool: Seq<char>, message: Seq<char>) -> ErrorHintsV {
    let context = seq![("tool"@, tool), ("details"@, message)];
    if any_of(lower, seq!["not found", "no such file", "command not found"]) {
        hints_v("Tool executable or target not found."@, seq!["Check PATH and tool installation."@, "Verify the tool input path exists."@], context)
    } else {
        hints_v("Tool execution failed."@, seq!["Check the tool output for details."@, "Re-run with simpler inputs to isolate the failure."@], context)
    }
}

/// The hints for a failed tool, given the message in lower case.
pub fn tool_hints_for(lower: &str, tool: &str, message: &str) -> (r: ErrorHints)
    ensures
        r@ == tool_hints_of(lower@, tool@, message@),
{
    let context = two_pairs("tool", tool, "details", message);
    if contains_any(lower, vec!["not found", "no such file", "command not found"].as_slice()) {
        return build_hints("Tool executable or target not found.", two_texts("Check PATH and tool installation.", "Verify the tool input path exists."), context);
    }
    build_hints("Tool execution failed.", two_texts("Check the tool output for details.", "Re-run with simpler inputs to isolate the failure."), context)
}

/// The hints for a failed tool.
pub fn tool_hints(tool: &str, message: &str) -> (r: ErrorHints)
    ensures
        r@ == tool_hints_of(lowercased(message@), tool@, message@),
{
    let lower = to_lowercase(message);
    tool_hints_for(lower.as_str(), tool, message)
}

/// The hints for an error of the index database: the first rule whose words occur in the
/// lower-case message decides.
pub open spec fn sqlite_hints_of(lower: Seq<char>, details: Seq<char>) -> ErrorHintsV {
    let context = seq![("details"@, details)];
    if any_of(lower, seq!["database is locked", "busy"]) {
        hints_v("SQLite database is locked."@, seq!["Close other Pi instances using the same database."@, "Retry once the lock clears."@], context)
    } else {
        hints_v("SQLite error."@, seq!["Ensure the database path is writable."@, "Check for schema or migration issues."@], context)
    }
}

/// The hints for an error of the index database, given the message in lower case.
pub fn sqlite_hints_for(lower: &str, details: &str) -> (r: ErrorHints)
    ensures
        r@ == sqlite_hints_of(lower@, details@),
{
    let context = one_pair("details", details);
    if contains_any(lower, vec!["database is locked", "busy"].as_slice()) {
        return build_hints("SQLite database is locked.", two_texts("Close other Pi instances using the same database.", "Retry once the lock clears."), context);
    }
    build_hints("SQLite error.", two_texts("Ensure the database path is writable.", "Check for schema or migration issues."), context)
}

/// The hints for an error of the index database.
pub fn sqlite_hints(details: &str) -> (r: ErrorHints)
    ensures
        r@ == sqlite_hints_of(lowercased(details@), details@),
{
    let lower = to_lowercase(details);
    sqlite_hints_for(lower.as_str(), details)
}


/// One owned text and one literal as a list of owned strings.
pub fn text_then(first: String, second: &str) -> (r: Vec<String>)
    ensures
        texts_view(r@) == seq![first@, second@],
{
    let r = vec![first, String::from_str(second)];
    assert(texts_view(r@) =~= seq![first@, second@]);
    r
}

/// How to set the API key of a provider, by the provider's lower-case name.
pub open spec fn provider_key_hint_of(lower: Seq<char>, provider: Seq<char>) -> Seq<char> {
    if lower == "anthropic"@ {
        "Set `ANTHROPIC_API_KEY` (or use `/login anthropic`)."@
    } else if lower == "openai"@ {
        "Set `OPENAI_API_KEY` for OpenAI requests."@
    } else if lower == "gemini"@ || lower == "google"@ {
        "Set `GOOGLE_API_KEY` for Gemini requests."@
    } else if lower == "azure"@ || lower == "azure_openai"@ || lower == "azure-openai"@ {
        "Set `AZURE_OPENAI_API_KEY` for Azure OpenAI."@
    } else {
        "Check API key configuration for provider `"@ + provider + "`."@
    }
}

/// How to set the API key of a provider, given its name in lower case.
pub fn provider_key_hint_for(lower: &str, provider: &str) -> (r: String)
    ensures
        r@ == provider_key_hint_of(lower@, provider@),
{
    if str_eq(lower, "anthropic") {
        String::from_str("Set `ANTHROPIC_API_KEY` (or use `/login anthropic`).")
    } else if str_eq(lower, "openai") {
        String::from_str("Set `OPENAI_API_KEY` for OpenAI requests.")
    } else if str_eq(lower, "gemini") || str_eq(lower, "google") {
        String::from_str("Set `GOOGLE_API_KEY` for Gemini requests.")
    } else if str_eq(lower, "azure") || str_eq(lower, "azure_openai") || str_eq(
        lower,
        "azure-openai",
    ) {
        String::from_str("Set `AZURE_OPENAI_API_KEY` for Azure OpenAI.")
    } else {
        String::from_str("Check API key configuration for provider `").concat(provider).concat(
            "`.",
        )
    }
}

/// How to set the API key of a provider.
pub fn provider_key_hint(provider: &str) -> (r: String)
    ensures
        r@ == provider_key_hint_of(lowercased(provider@), provider@),
{
    let lower = to_lowercase(provider);
    provider_key_hint_for(lower.as_str(), provider)
}

/// The hints for a failed provider request.
pub fn provider_hints(provider: &str, message: &str) -> (r: ErrorHints)
    ensures
        r@ == provider_hints_of(
            lowercased(message@),
            provider_key_hint_of(lowercased(provider@), provider@),
            provider@,
            message@,
        ),
{
    let lower = to_lowercase(message);
    let key_hint = provider_key_hint(provider);
    provider_hints_for(lower.as_str(), key_hint, provider, message)
}

/// The kinds of I/O failure that get hints of their own.
#[derive(Debug, Clone, Copy, PartialEq, Eq, Structural)]
pub enum IoKind {
    NotFound,
    PermissionDenied,
    TimedOut,
    ConnectionRefused,
    Other,
}

/// What is kept of an I/O error: its kind, the kind's name and the message.
#[derive(Debug, Clone)]
pub struct IoFailure {
    pub kind: IoKind,
    pub kind_name: String,
    pub details: String,
}

/// [`IoFailure`] as plain data.
pub struct IoFailureV {
    pub kind: IoKind,
    pub kind_name: Seq<char>,
    pub details: Seq<char>,
}

impl View for IoFailure {
    type V = IoFailureV;

    open spec fn view(&self) -> IoFailureV {
        IoFailureV { kind: self.kind, kind_name: self.kind_name@, details: self.details@ }
    }
}

/// The hints for a failed provider request: the first rule whose words occur
/// in the lower-case message decides. `key_hint` says how to set the
/// provider's API key.
pub open spec fn provider_hints_of(
    lower: Seq<char>,
    key_hint: Seq<char>,
    provider: Seq<char>,
    message: Seq<char>,
) -> ErrorHintsV {
    let context = seq![("provider"@, provider), ("details"@, message)];
    if any_of(lower, seq!["401", "unauthorized", "invalid api key", "api key"]) {
        hints_v("Provider authentication failed."@, seq![key_hint, "If using OAuth, run `/login` again."@], context)
    } else if any_of(lower, seq!["403", "forbidden"]) {
        hints_v("Provider access forbidden."@, seq!["Verify the account has access to the requested model."@, "Check organization/project permissions for the API key."@], context)
    } else if any_of(lower, seq!["429", "rate limit", "too many requests"]) {
        hints_v("Provider rate limited the request."@, seq!["Wait and retry, or reduce request rate."@, "Consider smaller max_tokens to lower load."@], context)
    } else if any_of(lower, seq!["529", "overloaded"]) {
        hints_v("Provider is overloaded."@, seq!["Retry after a short delay."@, "Switch to a different model if available."@], context)
    } else if any_of(lower, seq!["timeout", "timed out"]) {
        hints_v("Provider request timed out."@, seq!["Check network stability and retry."@, "Lower max_tokens to shorten responses."@], context)
    } else if any_of(lower, seq!["400", "bad request", "invalid request"]) {
        hints_v("Provider rejected the request."@, seq!["Check model name, tools schema, and request size."@, "Reduce message size or tool payloads."@], context)
    } else if any_of(lower, seq!["500", "internal server error", "server error"]) {
        hints_v("Provider encountered a server error."@, seq!["Retry after a short delay."@, "If persistent, try a different model/provider."@], context)
    } else {
        hints_v("Provider request failed."@, seq![key_hint, "Check network connectivity and provider status."@], context)
    }
}

/// The hints for a failed provider request, given the message in lower case
/// and the hint on the provider's API key.
pub fn provider_hints_for(lower: &str, key_hint: String, provider: &str, message: &str) -> (r:
    ErrorHints)
    ensures
        r@ == provider_hints_of(lower@, key_hint@, provider@, message@),
{
    let context = two_pairs("provider", provider, "details", message);
    if contains_any(lower, vec!["401", "unauthorized", "invalid api key", "api key"].as_slice()) {
        return build_hints("Provider authentication failed.", text_then(key_hint, "If using OAuth, run `/login` again."), context);
    }
    if contains_any(lower, vec!["403", "forbidden"].as_slice()) {
        return build_hints("Provider access forbidden.", two_texts("Verify the account has access to the requested model.", "Check organization/project permissions for the API key."), context);
    }
    if contains_any(lower, vec!["429", "rate limit", "too many requests"].as_slice()) {
        return build_hints("Provider rate limited the request.", two_texts("Wait and retry, or reduce request rate.", "Consider smaller max_tokens to lower load."), context);
    }
    if contains_any(lower, vec!["529", "overloaded"].as_slice()) {
        return build_hints("Provider is overloaded.", two_texts("Retry after a short delay.", "Switch to a different model if available."), context);
    }
    if contains_any(lower, vec!["timeout", "timed out"].as_slice()) {
        return build_hints("Provider request timed out.", two_texts("Check network stability and retry.", "Lower max_tokens to shorten responses."), context);
    }
    if contains_any(lower, vec!["400", "bad request", "invalid request"].as_slice()) {
        return build_hints("Provider rejected the request.", two_texts("Check model name, tools schema, and request size.", "Reduce message size or tool payloads."), context);
    }
    if contains_any(lower, vec!["500", "internal server error", "server error"].as_slice()) {
        return build_hints("Provider encountered a server error.", two_texts("Retry after a short delay.", "If persistent, try a different model/provider."), context);
    }
    build_hints("Provider request failed.", text_then(key_hint, "Check network connectivity and provider status."), context)
}

/// The hints for an I/O failure, by its kind.
pub open spec fn io_hints_of(failure: IoFailureV) -> ErrorHintsV {
    let context = seq![("error_kind"@, failure.kind_name), ("details"@, failure.details)];
    match failure.kind {
        IoKind::NotFound => hints_v("Required file or directory not found."@, seq!["Verify the path exists and is spelled correctly."@, "Check `PI_CONFIG_PATH` or `PI_SESSIONS_DIR` overrides."@], context),
        IoKind::PermissionDenied => hints_v("Permission denied while accessing a file."@, seq!["Check file permissions or ownership."@, "Try a different location with write access."@], context),
        IoKind::TimedOut => hints_v("I/O operation timed out."@, seq!["Check network or filesystem latency."@, "Retry after confirming connectivity."@], context),
        IoKind::ConnectionRefused => hints_v("Connection refused."@, seq!["Check network connectivity or proxy settings."@, "Verify the target service is reachable."@], context),
        IoKind::Other => hints_v("I/O error occurred."@, seq!["Check file paths and permissions."@, "Retry after resolving any transient issues."@], context),
    }
}

/// The hints for an I/O failure.
pub fn io_hints(failure: &IoFailure) -> (r: ErrorHints)
    ensures
        r@ == io_hints_of(failure@),
{
    let context = two_pairs(
        "error_kind",
        failure.kind_name.as_str(),
        "details",
        failure.details.as_str(),
    );
    match failure.kind {
        IoKind::NotFound => build_hints("Required file or directory not found.", two_texts("Verify the path exists and is spelled correctly.", "Check `PI_CONFIG_PATH` or `PI_SESSIONS_DIR` overrides."), context),
        IoKind::PermissionDenied => build_hints("Permission denied while accessing a file.", two_texts("Check file permissions or ownership.", "Try a different location with write access."), context),
        IoKind::TimedOut => build_hints("I/O operation timed out.", two_texts("Check network or filesystem latency.", "Retry after confirming connectivity."), context),
        IoKind::ConnectionRefused => build_hints("Connection refused.", two_texts("Check network connectivity or proxy settings.", "Verify the target service is reachable."), context),
        IoKind::Other => build_hints("I/O error occurred.", two_texts("Check file paths and permissions.", "Retry after resolving any transient issues."), context),
    }
}

/// The error type of the crate.
#[derive(Debug)]
pub enum Error {
    /// Configuration errors.
    Config(String),
    /// Session errors.
    Session(String),
    /// No session file at the given path.
    SessionNotFound { path: String },
    /// Provider or API errors.
    Provider { provider: String, message: String },
    /// Authentication errors.
    Auth(String),
    /// Tool execution errors.
    Tool { tool: String, message: String },
    /// Validation errors.
    Validation(String),
    /// Extension errors.
    Extension(String),
    /// I/O errors.
    Io(IoFailure),
    /// JSON errors, with the parser's message.
    Json(String),
    /// Errors of the index database, with its message.
    Sqlite(String),
    /// The operation was aborted.
    Aborted,
    /// API errors of any other kind.
    Api(String),
}

/// [`Error`] as plain data.
pub enum ErrorV {
    Config(Seq<char>),
    Session(Seq<char>),
    SessionNotFound { path: Seq<char> },
    Provider { provider: Seq<char>, message: Seq<char> },
    Auth(Seq<char>),
    Tool { tool: Seq<char>, message: Seq<char> },
    Validation(Seq<char>),
    Extension(Seq<char>),
    Io(IoFailureV),
    Json(Seq<char>),
    Sqlite(Seq<char>),
    Aborted,
    Api(Seq<char>),
}

impl View for Error {
    type V = ErrorV;

    open spec fn view(&self) -> ErrorV {
        match self {
            Error::Config(m) => ErrorV::Config(m@),
            Error::Session(m) => ErrorV::Session(m@),
            Error::SessionNotFound { path } => ErrorV::SessionNotFound { path: path@ },
            Error::Provider { provider, message } => ErrorV::Provider {
                provider: provider@,
                message: message@,
            },
            Error::Auth(m) => ErrorV::Auth(m@),
            Error::Tool { tool, message } => ErrorV::Tool { tool: tool@, message: message@ },
            Error::Validation(m) => ErrorV::Validation(m@),
            Error::Extension(m) => ErrorV::Extension(m@),
            Error::Io(f) => ErrorV::Io(f@),
            Error::Json(m) => ErrorV::Json(m@),
            Error::Sqlite(m) => ErrorV::Sqlite(m@),
            Error::Aborted => ErrorV::Aborted,
            Error::Api(m) => ErrorV::Api(m@),
        }
    }
}

impl ErrorV {
    /// The line that describes the error.
    pub open spec fn text(self) -> Seq<char> {
        match self {
            ErrorV::Config(m) => "Configuration error: "@ + m,
            ErrorV::Session(m) => "Session error: "@ + m,
            ErrorV::SessionNotFound { path } => "Session not found: "@ + path,
            ErrorV::Provider { provider, message } => "Provider error: "@ + provider + ": "@
                + message,
            ErrorV::Auth(m) => "Authentication error: "@ + m,
            ErrorV::Tool { tool, message } => "Tool error: "@ + tool + ": "@ + message,
            ErrorV::Validation(m) => "Validation error: "@ + m,
            ErrorV::Extension(m) => "Extension error: "@ + m,
            ErrorV::Io(f) => "IO error: "@ + f.details,
            ErrorV::Json(m) => "JSON error: "@ + m,
            ErrorV::Sqlite(m) => "SQLite error: "@ + m,
            ErrorV::Aborted => "Operation aborted"@,
            ErrorV::Api(m) => "API error: "@ + m,
        }
    }

    /// The hints that go with the error.
    pub open spec fn hints(self) -> ErrorHintsV {
        match self {
            ErrorV::Config(m) => config_hints_of(lowercased(m), m),
            ErrorV::Session(m) => session_hints_of(lowercased(m), m),
            ErrorV::SessionNotFound { path } => hints_v(
                "Session file not found."@,
                seq![
                    "Use `pi --continue` to open the most recent session."@,
                    "Verify the path or move the session back into the sessions directory."@,
                ],
                seq![("path"@, path)],
            ),
            ErrorV::Provider { provider, message } => provider_hints_of(
                lowercased(message),
                provider_key_hint_of(lowercased(provider), provider),
                provider,
                message,
            ),
            ErrorV::Auth(m) => auth_hints_of(lowercased(m), m),
            ErrorV::Tool { tool, message } => tool_hints_of(lowercased(message), tool, message),
            ErrorV::Validation(m) => hints_v(
                "Validation failed for input or config."@,
                seq![
                    "Check the specific fields mentioned in the error."@,
                    "Review CLI flags or settings for typos."@,
                ],
                seq![("details"@, m)],
            ),
            ErrorV::Extension(m) => hints_v(
                "Extension failed to load or run."@,
                seq![
                    "Try `--no-extensions` to isolate the issue."@,
                    "Check the extension manifest and dependencies."@,
                ],
                seq![("details"@, m)],
            ),
            ErrorV::Io(f) => io_hints_of(f),
            ErrorV::Json(m) => hints_v(
                "JSON parsing failed."@,
                seq![
                    "Validate the JSON syntax (no trailing commas)."@,
                    "Check that the file is UTF-8 and not truncated."@,
                ],
                seq![("details"@, m)],
            ),
            ErrorV::Sqlite(m) => sqlite_hints_of(lowercased(m), m),
            ErrorV::Aborted => hints_v(
                "Operation aborted."@,
                Seq::empty(),
                seq![("details"@, "Operation cancelled by user or runtime."@)],
            ),
            ErrorV::Api(m) => hints_v(
                "API request failed."@,
                seq![
                    "Check your network connection and retry."@,
                    "Verify your API key and provider selection."@,
                ],
                seq![("details"@, m)],
            ),
        }
    }
}

impl Error {
    /// A configuration error.
    pub fn config(message: &str) -> (r: Self)
        ensures
            r@ == ErrorV::Config(message@),
    {
        Error::Config(String::from_str(message))
    }

    /// A session error.
    pub fn session(message: &str) -> (r: Self)
        ensures
            r@ == ErrorV::Session(message@),
    {
        Error::Session(String::from_str(message))
    }

    /// A provider error.
    pub fn provider(provider: &str, message: &str) -> (r: Self)
        ensures
            r@ == (ErrorV::Provider { provider: provider@, message: message@ }),
    {
        Error::Provider {
            provider: String::from_str(provider),
            message: String::from_str(message),
        }
    }

    /// An authentication error.
    pub fn auth(message: &str) -> (r: Self)
        ensures
            r@ == ErrorV::Auth(message@),
    {
        Error::Auth(String::from_str(message))
    }

    /// A tool error.
    pub fn tool(tool: &str, message: &str) -> (r: Self)
        ensures
            r@ == (ErrorV::Tool { tool: tool@, message: message@ }),
    {
        Error::Tool { tool: String::from_str(tool), message: String::from_str(message) }
    }

    /// A validation error.
    pub fn validation(message: &str) -> (r: Self)
        ensures
            r@ == ErrorV::Validation(message@),
    {
        Error::Validation(String::from_str(message))
    }

    /// An extension error.
    pub fn extension(message: &str) -> (r: Self)
        ensures
            r@ == ErrorV::Extension(message@),
    {
        Error::Extension(String::from_str(message))
    }

    /// An API error.
    pub fn api(message: &str) -> (r: Self)
        ensures
            r@ == ErrorV::Api(message@),
    {
        Error::Api(String::from_str(message))
    }

    /// The line that describes the error.
    pub fn to_string(&self) -> (r: String)
        ensures
            r@ == self@.text(),
    {
        match self {
            Error::Config(m) => String::from_str("Configuration error: ").concat(m.as_str()),
            Error::Session(m) => String::from_str("Session error: ").concat(m.as_str()),
            Error::SessionNotFound { path } => String::from_str("Session not found: ").concat(
                path.as_str(),
            ),
            Error::Provider { provider, message } => String::from_str("Provider error: ").concat(
                provider.as_str(),
            ).concat(": ").concat(message.as_str()),
            Error::Auth(m) => String::from_str("Authentication error: ").concat(m.as_str()),
            Error::Tool { tool, message } => String::from_str("Tool error: ").concat(
                tool.as_str(),
            ).concat(": ").concat(message.as_str()),
            Error::Validation(m) => String::from_str("Validation error: ").concat(m.as_str()),
            Error::Extension(m) => String::from_str("Extension error: ").concat(m.as_str()),
            Error::Io(f) => String::from_str("IO error: ").concat(f.details.as_str()),
            Error::Json(m) => String::from_str("JSON error: ").concat(m.as_str()),
            Error::Sqlite(m) => String::from_str("SQLite error: ").concat(m.as_str()),
            Error::Aborted => String::from_str("Operation aborted"),
            Error::Api(m) => String::from_str("API error: ").concat(m.as_str()),
        }
    }

    /// The hints that go with this error: a stable taxonomy for users.
    pub fn hints(&self) -> (r: ErrorHints)
        ensures
            r@ == self@.hints(),
    {
        match self {
            Error::Config(m) => config_hints(m.as_str()),
            Error::Session(m) => session_hints(m.as_str()),
            Error::SessionNotFound { path } => build_hints(
                "Session file not found.",
                two_texts(
                    "Use `pi --continue` to open the most recent session.",
                    "Verify the path or move the session back into the sessions directory.",
                ),
                one_pair("path", path.as_str()),
            ),
            Error::Provider { provider, message } => provider_hints(
                provider.as_str(),
                message.as_str(),
            ),
            Error::Auth(m) => auth_hints(m.as_str()),
            Error::Tool { tool, message } => tool_hints(tool.as_str(), message.as_str()),
            Error::Validation(m) => build_hints(
                "Validation failed for input or config.",
                two_texts(
                    "Check the specific fields mentioned in the error.",
                    "Review CLI flags or settings for typos.",
                ),
                one_pair("details", m.as_str()),
            ),
            Error::Extension(m) => build_hints(
                "Extension failed to load or run.",
                two_texts(
                    "Try `--no-extensions` to isolate the issue.",
                    "Check the extension manifest and dependencies.",
                ),
                one_pair("details", m.as_str()),
            ),
            Error::Io(f) => io_hints(f),
            Error::Json(m) => build_hints(
                "JSON parsing failed.",
                two_texts(
                    "Validate the JSON syntax (no trailing commas).",
                    "Check that the file is UTF-8 and not truncated.",
                ),
                one_pair("details", m.as_str()),
            ),
            Error::Sqlite(m) => sqlite_hints(m.as_str()),
            Error::Aborted => {
                let none: Vec<String> = Vec::new();
                assert(texts_view(none@) =~= Seq::<Seq<char>>::empty());
                build_hints(
                    "Operation aborted.",
                    none,
                    one_pair("details", "Operation cancelled by user or runtime."),
                )
            },
            Error::Api(m) => build_hints(
                "API request failed.",
                two_texts(
                    "Check your network connection and retry.",
                    "Verify your API key and provider selection.",
                ),
                one_pair("details", m.as_str()),
            ),
        }
    }
}

/// `std::io::Error`, carried through as it is.
#[verifier::external_type_specification]
#[verifier::external_body]
pub struct ExIoError(std::io::Error);

/// `asupersync::sync::LockError`, carried through as it is.
#[verifier::external_type_specification]
#[verifier::external_body]
pub struct ExLockError(asupersync::sync::LockError);

/// The kind of an I/O error, as `std::io::Error::kind` gives it: one of the
/// four kinds that have hints of their own, or `Other` for every other
/// kind.
pub uninterp spec fn io_kind_of(e: std::io::Error) -> IoKind;

/// The name of the kind of an I/O error, as `Debug` prints the
/// `std::io::ErrorKind` that `std::io::Error::kind` gives.
pub uninterp spec fn io_kind_name_of(e: std::io::Error) -> Seq<char>;

/// The message of an I/O error, as `Display` prints it.
pub uninterp spec fn io_message_of(e: std::io::Error) -> Seq<char>;

/// Whether a `LockError` is `Cancelled`: the wait for the lock was given
/// up.
pub uninterp spec fn cancelled_wait(e: asupersync::sync::LockError) -> bool;

/// The message of a `LockError`, as `Display` prints it.
pub uninterp spec fn lock_message(e: asupersync::sync::LockError) -> Seq<char>;

/// Calls `std::io::Error::kind` and tells the four kinds that have hints of
/// their own from the rest: the kind that `io_kind_of` names.
#[verifier::external_body]
fn io_error_kind(e: &std::io::Error) -> (r: IoKind)
    ensures
        r == io_kind_of(*e),
{
    match e.kind() {
        std::io::ErrorKind::NotFound => IoKind::NotFound,
        std::io::ErrorKind::PermissionDenied => IoKind::PermissionDenied,
        std::io::ErrorKind::TimedOut => IoKind::TimedOut,
        std::io::ErrorKind::ConnectionRefused => IoKind::ConnectionRefused,
        _ => IoKind::Other,
    }
}

/// The name of the error's kind, as `Debug` prints `std::io::ErrorKind`:
/// the text that `io_kind_name_of` names.
#[verifier::external_body]
fn io_error_kind_name(e: &std::io::Error) -> (r: String)
    ensures
        r@ == io_kind_name_of(*e),
{
    format!("{:?}", e.kind())
}

/// The message of the error, as `Display` prints `std::io::Error`: the
/// text that `io_message_of` names.
#[verifier::external_body]
fn io_error_message(e: &std::io::Error) -> (r: String)
    ensures
        r@ == io_message_of(*e),
{
    e.to_string()
}

/// Whether waiting for the lock was cancelled (`LockError::Cancelled`).
#[verifier::external_body]
fn lock_was_cancelled(e: &asupersync::sync::LockError) -> (r: bool)
    ensures
        r == cancelled_wait(*e),
{
    matches!(e, asupersync::sync::LockError::Cancelled)
}

/// The message of the error, as `Display` prints `LockError`: the text
/// that `lock_message` names.
#[verifier::external_body]
fn lock_error_message(e: &asupersync::sync::LockError) -> (r: String)
    ensures
        r@ == lock_message(*e),
{
    e.to_string()
}

/// What is kept of an I/O error: its kind, the name of the kind, and its
/// message.
pub open spec fn io_failure_of(e: std::io::Error) -> IoFailureV {
    IoFailureV { kind: io_kind_of(e), kind_name: io_kind_name_of(e), details: io_message_of(e) }
}

impl IoFailure {
    /// What is kept of an I/O error: kind, kind name and message are read
    /// from it once.
    pub fn of(e: &std::io::Error) -> (r: Self)
        ensures
            r@ == io_failure_of(*e),
    {
        IoFailure {
            kind: io_error_kind(e),
            kind_name: io_error_kind_name(e),
            details: io_error_message(e),
        }
    }
}

impl Error {
    /// The error for a failed I/O operation.
    pub fn from_io(e: &std::io::Error) -> (r: Self)
        ensures
            r@ == ErrorV::Io(io_failure_of(*e)),
    {
        Error::Io(IoFailure::of(e))
    }

    /// The error for a lock that was not acquired: `Aborted` where the wait
    /// was cancelled, else a session error with the lock's message.
    pub fn lock_failure(cancelled: bool, message: String) -> (r: Self)
        ensures
            r@ == if cancelled {
                ErrorV::Aborted
            } else {
                ErrorV::Session(message@)
            },
    {
        if cancelled {
            Error::Aborted
        } else {
            Error::Session(message)
        }
    }

    /// The error for a lock that was not acquired: a wait that was
    /// cancelled gives the distinct `Aborted`, any other failure a session
    /// error with the lock's message.
    pub fn from_lock(e: &asupersync::sync::LockError) -> (r: Self)
        ensures
            r@ == if cancelled_wait(*e) {
                ErrorV::Aborted
            } else {
                ErrorV::Session(lock_message(*e))
            },
    {
        Error::lock_failure(lock_was_cancelled(e), lock_error_message(e))
    }
}

} // verus!
