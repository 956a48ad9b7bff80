//! The session journal: a header and an append-only sequence of entries
//! whose parent links form a forest. Branches are made by moving the leaf
//! back to an earlier entry and appending from there.

use crate::json::{Json, JsonV};
use crate::model::{
    blocks_view, clone_blocks, clone_opt_json, clone_opt_text, messages_view, opt_json, opt_text,
    AssistantMessage, AssistantMessageV, ContentBlock, ContentBlockV, CustomMessage,
    CustomMessageV, Message, MessageV, ThinkingLevel, ToolResultMessage, ToolResultMessageV,
    UserContent, UserContentV, UserMessage, UserMessageV,
};
use crate::text::{chars_of, decimal, decimal_string, push_char, repeated, str_matches};
use vstd::prelude::*;

verus! {

/// The version of the session file format.
pub const SESSION_VERSION: u64 = 3;

/// The first line of a session file.
#[derive(Debug, Clone)]
pub struct SessionHeader {
    pub version: u64,
    pub id: String,
    pub timestamp: String,
    pub cwd: String,
    pub provider: Option<String>,
    pub model_id: Option<String>,
    pub thinking_level: Option<String>,
    /// The path of the session that this one was branched from.
    pub parent_session: Option<String>,
    /// The members of the header's line in the file that this version of
    /// the format does not know, in their order. They are written back as
    /// they were read.
    pub extra: Vec<(String, Json)>,
}

/// [`SessionHeader`] as plain data.
pub struct SessionHeaderV {
    pub version: u64,
    pub id: Seq<char>,
    pub timestamp: Seq<char>,
    pub cwd: Seq<char>,
    pub provider: Option<Seq<char>>,
    pub model_id: Option<Seq<char>>,
    pub thinking_level: Option<Seq<char>>,
    pub parent_session: Option<Seq<char>>,
    pub extra: Seq<(Seq<char>, JsonV)>,
}

impl View for SessionHeader {
    type V = SessionHeaderV;

    open spec fn view(&self) -> SessionHeaderV {
        SessionHeaderV {
            version: self.version,
            id: self.id@,
            timestamp: self.timestamp@,
            cwd: self.cwd@,
            provider: opt_text(self.provider),
            model_id: opt_text(self.model_id),
            thinking_level: opt_text(self.thinking_level),
            parent_session: opt_text(self.parent_session),
            extra: crate::json::object_value(self.extra@),
        }
    }
}

impl SessionHeader {
    /// A header of the current version with the given id, time and working
    /// directory.
    pub fn new(id: String, timestamp: String, cwd: String) -> (r: Self)
        ensures
            r@ == (SessionHeaderV {
                version: SESSION_VERSION,
                id: id@,
                timestamp: timestamp@,
                cwd: cwd@,
                provider: None,
                model_id: None,
                thinking_level: None,
                parent_session: None,
                extra: Seq::empty(),
            }),
    {
        SessionHeader {
            version: SESSION_VERSION,
            id,
            timestamp,
            cwd,
            provider: None,
            model_id: None,
            thinking_level: None,
            parent_session: None,
            extra: Vec::new(),
        }
    }
}

/// What every entry has: its id, the id of its parent, and its time.
#[derive(Debug, Clone)]
pub struct EntryBase {
    pub id: String,
    pub parent_id: Option<String>,
    pub timestamp: String,
}

/// [`EntryBase`] as plain data.
pub struct EntryBaseV {
    pub id: Seq<char>,
    pub parent_id: Option<Seq<char>>,
    pub timestamp: Seq<char>,
}

impl View for EntryBase {
    type V = EntryBaseV;

    open spec fn view(&self) -> EntryBaseV {
        EntryBaseV { id: self.id@, parent_id: opt_text(self.parent_id), timestamp: self.timestamp@ }
    }
}

impl EntryBase {
    /// The base of an entry with the given parent and id.
    pub fn new(parent_id: Option<String>, id: String, timestamp: String) -> (r: Self)
        ensures
            r@ == (EntryBaseV { id: id@, parent_id: opt_text(parent_id), timestamp: timestamp@ }),
    {
        EntryBase { id, parent_id, timestamp }
    }
}

/// A message as the journal keeps it.
#[allow(inconsistent_fields)]
#[derive(Debug, Clone)]
pub enum SessionMessage {
    User { content: UserContent, timestamp: Option<i64> },
    Assistant { message: AssistantMessage },
    ToolResult {
        tool_call_id: String,
        tool_name: String,
        content: Vec<ContentBlock>,
        details: Option<Json>,
        is_error: bool,
        timestamp: Option<i64>,
    },
    BashExecution { command: String, output: String, exit_code: i32 },
    Custom {
        custom_type: String,
        content: String,
        display: bool,
        details: Option<Json>,
        timestamp: Option<i64>,
    },
    BranchSummary { summary: String, from_id: String },
    CompactionSummary { summary: String, tokens_before: u64 },
}

/// [`SessionMessage`] as plain data.
#[allow(inconsistent_fields)]
pub enum SessionMessageV {
    User { content: UserContentV, timestamp: Option<i64> },
    Assistant { message: AssistantMessageV },
    ToolResult {
        tool_call_id: Seq<char>,
        tool_name: Seq<char>,
        content: Seq<ContentBlockV>,
        details: Option<JsonV>,
        is_error: bool,
        timestamp: Option<i64>,
    },
    BashExecution { command: Seq<char>, output: Seq<char>, exit_code: i32 },
    Custom {
        custom_type: Seq<char>,
        content: Seq<char>,
        display: bool,
        details: Option<JsonV>,
        timestamp: Option<i64>,
    },
    BranchSummary { summary: Seq<char>, from_id: Seq<char> },
    CompactionSummary { summary: Seq<char>, tokens_before: u64 },
}

impl View for SessionMessage {
    type V = SessionMessageV;

    open spec fn view(&self) -> SessionMessageV {
        match self {
            SessionMessage::User { content, timestamp } => SessionMessageV::User {
                content: content@,
                timestamp: *timestamp,
            },
            SessionMessage::Assistant { message } => SessionMessageV::Assistant {
                message: message@,
            },
            SessionMessage::ToolResult {
                tool_call_id,
                tool_name,
                content,
                details,
                is_error,
                timestamp,
            } => SessionMessageV::ToolResult {
                tool_call_id: tool_call_id@,
                tool_name: tool_name@,
                content: blocks_view(content@),
                details: opt_json(*details),
                is_error: *is_error,
                timestamp: *timestamp,
            },
            SessionMessage::BashExecution { command, output, exit_code } => SessionMessageV::BashExecution {
                command: command@,
                output: output@,
                exit_code: *exit_code,
            },
            SessionMessage::Custom {
                custom_type,
                content,
                display,
                details,
                timestamp,
            } => SessionMessageV::Custom {
                custom_type: custom_type@,
                content: content@,
                display: *display,
                details: opt_json(*details),
                timestamp: *timestamp,
            },
            SessionMessage::BranchSummary { summary, from_id } => SessionMessageV::BranchSummary {
                summary: summary@,
                from_id: from_id@,
            },
            SessionMessage::CompactionSummary { summary, tokens_before } => SessionMessageV::CompactionSummary {
                summary: summary@,
                tokens_before: *tokens_before,
            },
        }
    }
}

/// The journal's form of a message of the conversation.
pub open spec fn journal_message(m: MessageV) -> SessionMessageV {
    match m {
        MessageV::User(u) => SessionMessageV::User {
            content: u.content,
            timestamp: Some(u.timestamp),
        },
        MessageV::Assistant(a) => SessionMessageV::Assistant { message: a },
        MessageV::ToolResult(t) => SessionMessageV::ToolResult {
            tool_call_id: t.tool_call_id,
            tool_name: t.tool_name,
            content: t.content,
            details: t.details,
            is_error: t.is_error,
            timestamp: Some(t.timestamp),
        },
        MessageV::Custom(c) => SessionMessageV::Custom {
            custom_type: c.custom_type,
            content: c.content,
            display: c.display,
            details: c.details,
            timestamp: Some(c.timestamp),
        },
    }
}

impl SessionMessage {
    /// The journal's form of a message of the conversation.
    pub fn from_message(message: Message) -> (r: Self)
        ensures
            r@ == journal_message(message@),
    {
        match message {
            Message::User(u) => SessionMessage::User {
                content: u.content,
                timestamp: Some(u.timestamp),
            },
            Message::Assistant(a) => SessionMessage::Assistant { message: a },
            Message::ToolResult(t) => SessionMessage::ToolResult {
                tool_call_id: t.tool_call_id,
                tool_name: t.tool_name,
                content: t.content,
                details: t.details,
                is_error: t.is_error,
                timestamp: Some(t.timestamp),
            },
            Message::Custom(c) => SessionMessage::Custom {
                custom_type: c.custom_type,
                content: c.content,
                display: c.display,
                details: c.details,
                timestamp: Some(c.timestamp),
            },
        }
    }
}

/// The time of a message whose time the journal may have left out.
pub open spec fn time_or_zero(timestamp: Option<i64>) -> i64 {
    match timestamp {
        Some(t) => t,
        None => 0,
    }
}

/// The message of the conversation that a message of the journal stands
/// for. A time that the journal left out counts as zero. The records of a
/// shell command and the two summaries stand for none.
pub open spec fn conversation_message(m: SessionMessageV) -> Option<MessageV> {
    match m {
        SessionMessageV::User { content, timestamp } => Some(
            MessageV::User(UserMessageV { content, timestamp: time_or_zero(timestamp) }),
        ),
        SessionMessageV::Assistant { message } => Some(MessageV::Assistant(message)),
        SessionMessageV::ToolResult {
            tool_call_id,
            tool_name,
            content,
            details,
            is_error,
            timestamp,
        } => Some(
            MessageV::ToolResult(
                ToolResultMessageV {
                    tool_call_id,
                    tool_name,
                    content,
                    details,
                    is_error,
                    timestamp: time_or_zero(timestamp),
                },
            ),
        ),
        SessionMessageV::Custom { custom_type, content, display, details, timestamp } => Some(
            MessageV::Custom(
                CustomMessageV {
                    content,
                    custom_type,
                    display,
                    details,
                    timestamp: time_or_zero(timestamp),
                },
            ),
        ),
        _ => None,
    }
}

/// A message that went into the journal comes back as it was.
pub proof fn lemma_conversation_message(m: MessageV)
    ensures
        conversation_message(journal_message(m)) == Some(m),
{
}

/// The messages of the conversation that an entry stands for: one, or none.
pub open spec fn own_messages(e: SessionEntryV) -> Seq<MessageV> {
    match e.kind {
        EntryKindV::Message { message } => match conversation_message(message) {
            Some(m) => seq![m],
            None => Seq::empty(),
        },
        _ => Seq::empty(),
    }
}

/// The conversation from a root down to the entry at `at`: what the
/// entry's parent leads to, then the entry's own message.
pub open spec fn branch_from(entries: Seq<SessionEntryV>, at: int) -> Seq<MessageV>
    decreases at,
{
    if at < 0 || at >= entries.len() {
        Seq::empty()
    } else {
        match entries[at].base.parent_id {
            None => own_messages(entries[at]),
            Some(p) => match index_of_id(entries, p, at) {
                Some(j) => if 0 <= j < at {
                    branch_from(entries, j) + own_messages(entries[at])
                } else {
                    own_messages(entries[at])
                },
                None => own_messages(entries[at]),
            },
        }
    }
}

/// The conversation of the active branch: the messages from a root down
/// to the leaf. This is what a turn goes on from.
pub open spec fn conversation_of(s: SessionV) -> Seq<MessageV> {
    match s.leaf_id {
        Some(id) => match index_of_id(s.entries, id, s.entries.len() as int) {
            Some(at) => branch_from(s.entries, at),
            None => Seq::empty(),
        },
        None => Seq::empty(),
    }
}

/// The conversation down to an entry depends on the entries up to it only.
pub proof fn lemma_branch_same_prefix(a: Seq<SessionEntryV>, b: Seq<SessionEntryV>, at: int)
    requires
        0 <= at < a.len(),
        at < b.len(),
        forall|k: int| 0 <= k <= at ==> a[k] == b[k],
    ensures
        branch_from(a, at) == branch_from(b, at),
    decreases at,
{
    match a[at].base.parent_id {
        None => {},
        Some(p) => {
            lemma_index_same_prefix(a, b, p, at);
            match index_of_id(a, p, at) {
                Some(j) => {
                    if 0 <= j < at {
                        lemma_branch_same_prefix(a, b, j);
                    }
                },
                None => {},
            }
        },
    }
}

/// A message that is appended to a journal goes to the end of the
/// conversation of the active branch.
pub proof fn lemma_appended_message(s: SessionV, id: Seq<char>, timestamp: Seq<char>, m: MessageV)
    requires
        s.wf(),
        !has_id(s.entries, id),
    ensures
        conversation_of(
            s.appended(id, timestamp, EntryKindV::Message { message: journal_message(m) }),
        ) == conversation_of(s).push(m),
{
    let after = s.appended(id, timestamp, EntryKindV::Message { message: journal_message(m) });
    let n = s.entries.len() as int;
    lemma_conversation_message(m);
    lemma_index_of_id(after.entries, id, n + 1);
    assert(after.entries[n].base.id == id);
    assert forall|k: int| 0 <= k < n implies (#[trigger] after.entries[k]).base.id != id by {
        assert(after.entries[k] == s.entries[k]);
    }
    assert(index_of_id(after.entries, id, n + 1) == Some(n));
    assert(own_messages(after.entries[n]) == seq![m]);
    match s.leaf_id {
        None => {
            assert(conversation_of(after) =~= conversation_of(s).push(m));
        },
        Some(p) => {
            lemma_index_same_prefix(s.entries, after.entries, p, n);
            lemma_index_of_id(s.entries, p, n);
            let j = index_of_id(s.entries, p, n)->Some_0;
            lemma_branch_same_prefix(s.entries, after.entries, j);
            assert(conversation_of(after) =~= conversation_of(s).push(m));
        },
    }
}

impl SessionMessage {
    /// The message of the conversation that this message stands for.
    pub fn to_message(&self) -> (r: Option<Message>)
        ensures
            match r {
                Some(m) => conversation_message(self@) == Some(m@),
                None => conversation_message(self@).is_none(),
            },
    {
        match self {
            SessionMessage::User { content, timestamp } => Some(
                Message::User(
                    UserMessage { content: content.clone(), timestamp: or_zero(*timestamp) },
                ),
            ),
            SessionMessage::Assistant { message } => Some(Message::Assistant(message.clone())),
            SessionMessage::ToolResult {
                tool_call_id,
                tool_name,
                content,
                details,
                is_error,
                timestamp,
            } => Some(
                Message::ToolResult(
                    ToolResultMessage {
                        tool_call_id: tool_call_id.clone(),
                        tool_name: tool_name.clone(),
                        content: clone_blocks(content),
                        details: clone_opt_json(details),
                        is_error: *is_error,
                        timestamp: or_zero(*timestamp),
                    },
                ),
            ),
            SessionMessage::Custom { custom_type, content, display, details, timestamp } => Some(
                Message::Custom(
                    CustomMessage {
                        content: content.clone(),
                        custom_type: custom_type.clone(),
                        display: *display,
                        details: clone_opt_json(details),
                        timestamp: or_zero(*timestamp),
                    },
                ),
            ),
            _ => None,
        }
    }
}

fn or_zero(timestamp: Option<i64>) -> (r: i64)
    ensures
        r == time_or_zero(timestamp),
{
    match timestamp {
        Some(t) => t,
        None => 0,
    }
}

/// What an entry records, apart from its base.
#[derive(Debug, Clone)]
pub enum EntryKind {
    Message { message: SessionMessage },
    ModelChange { provider: String, model_id: String },
    ThinkingLevelChange { thinking_level: String },
    SessionInfo { name: Option<String> },
    Label { target_id: String, label: Option<String> },
    Compaction {
        summary: String,
        first_kept_entry_id: String,
        tokens_before: u64,
        details: Option<Json>,
        from_hook: Option<bool>,
    },
    BranchSummary { from_id: String, summary: String },
    Custom { custom_type: String, data: Option<Json> },
}

/// [`EntryKind`] as plain data.
pub enum EntryKindV {
    Message { message: SessionMessageV },
    ModelChange { provider: Seq<char>, model_id: Seq<char> },
    ThinkingLevelChange { thinking_level: Seq<char> },
    SessionInfo { name: Option<Seq<char>> },
    Label { target_id: Seq<char>, label: Option<Seq<char>> },
    Compaction {
        summary: Seq<char>,
        first_kept_entry_id: Seq<char>,
        tokens_before: u64,
        details: Option<JsonV>,
        from_hook: Option<bool>,
    },
    BranchSummary { from_id: Seq<char>, summary: Seq<char> },
    Custom { custom_type: Seq<char>, data: Option<JsonV> },
}

impl View for EntryKind {
    type V = EntryKindV;

    open spec fn view(&self) -> EntryKindV {
        match self {
            EntryKind::Message { message } => EntryKindV::Message { message: message@ },
            EntryKind::ModelChange { provider, model_id } => EntryKindV::ModelChange {
                provider: provider@,
                model_id: model_id@,
            },
            EntryKind::ThinkingLevelChange { thinking_level } => EntryKindV::ThinkingLevelChange {
                thinking_level: thinking_level@,
            },
            EntryKind::SessionInfo { name } => EntryKindV::SessionInfo { name: opt_text(*name) },
            EntryKind::Label { target_id, label } => EntryKindV::Label {
                target_id: target_id@,
                label: opt_text(*label),
            },
            EntryKind::Compaction {
                summary,
                first_kept_entry_id,
                tokens_before,
                details,
                from_hook,
            } => EntryKindV::Compaction {
                summary: summary@,
                first_kept_entry_id: first_kept_entry_id@,
                tokens_before: *tokens_before,
                details: opt_json(*details),
                from_hook: *from_hook,
            },
            EntryKind::BranchSummary { from_id, summary } => EntryKindV::BranchSummary {
                from_id: from_id@,
                summary: summary@,
            },
            EntryKind::Custom { custom_type, data } => EntryKindV::Custom {
                custom_type: custom_type@,
                data: opt_json(*data),
            },
        }
    }
}

/// One entry of the journal.
#[derive(Debug, Clone)]
pub struct SessionEntry {
    pub base: EntryBase,
    pub kind: EntryKind,
    /// The members of the entry's line in the file that this version of
    /// the format does not know, in their order. They are written back as
    /// they were read.
    pub extra: Vec<(String, Json)>,
}

/// [`SessionEntry`] as plain data.
pub struct SessionEntryV {
    pub base: EntryBaseV,
    pub kind: EntryKindV,
    pub extra: Seq<(Seq<char>, JsonV)>,
}

impl View for SessionEntry {
    type V = SessionEntryV;

    open spec fn view(&self) -> SessionEntryV {
        SessionEntryV {
            base: self.base@,
            kind: self.kind@,
            extra: crate::json::object_value(self.extra@),
        }
    }
}

impl SessionEntry {
    /// What every entry has.
    pub fn base(&self) -> (r: &EntryBase)
        ensures
            r@ == self@.base,
    {
        &self.base
    }

    /// The id of the entry.
    pub fn base_id(&self) -> (r: &String)
        ensures
            r@ == self@.base.id,
    {
        &self.base.id
    }
}

/// The views of a sequence of entries.
pub open spec fn entries_view(entries: Seq<SessionEntry>) -> Seq<SessionEntryV> {
    entries.map_values(|e: SessionEntry| e@)
}

/// The position of the first entry with the given id among the first
/// `limit` entries.
pub open spec fn index_of_id(entries: Seq<SessionEntryV>, id: Seq<char>, limit: int) -> Option<int>
    decreases limit,
{
    if limit <= 0 {
        None
    } else {
        match index_of_id(entries, id, limit - 1) {
            Some(i) => Some(i),
            None => if limit <= entries.len() && entries[limit - 1].base.id == id {
                Some(limit - 1)
            } else {
                None
            },
        }
    }
}

/// `index_of_id` finds the first position that holds the id, if any does.
pub proof fn lemma_index_of_id(entries: Seq<SessionEntryV>, id: Seq<char>, limit: int)
    requires
        limit <= entries.len(),
    ensures
        match index_of_id(entries, id, limit) {
            Some(i) => 0 <= i < limit && entries[i].base.id == id && forall|j: int|
                0 <= j < i ==> (#[trigger] entries[j]).base.id != id,
            None => forall|j: int| 0 <= j < limit ==> (#[trigger] entries[j]).base.id != id,
        },
    decreases limit,
{
    if limit > 0 {
        lemma_index_of_id(entries, id, limit - 1);
    }
}

/// Whether some entry has the given id.
pub open spec fn has_id(entries: Seq<SessionEntryV>, id: Seq<char>) -> bool {
    exists|i: int| 0 <= i < entries.len() && (#[trigger] entries[i]).base.id == id
}

/// Whether the entries form a forest: no two have the same id, and each
/// parent is the id of an earlier entry.
pub open spec fn is_forest(entries: Seq<SessionEntryV>) -> bool {
    &&& forall|i: int, j: int|
        0 <= i < j < entries.len() ==> (#[trigger] entries[i]).base.id != (
        #[trigger] entries[j]).base.id
    &&& forall|i: int|
        0 <= i < entries.len() && (#[trigger] entries[i]).base.parent_id is Some ==> index_of_id(
            entries,
            entries[i].base.parent_id->Some_0,
            i,
        ) is Some
}

/// What the journal holds, as plain data.
pub struct SessionV {
    pub header: SessionHeaderV,
    pub entries: Seq<SessionEntryV>,
    pub leaf_id: Option<Seq<char>>,
}

impl SessionV {
    /// The invariants of a journal: the entries form a forest, and the leaf
    /// is the id of an entry, or nothing exactly when there are no entries.
    pub open spec fn wf(self) -> bool {
        &&& is_forest(self.entries)
        &&& self.leaf_id is None <==> self.entries.len() == 0
        &&& self.leaf_id is Some ==> has_id(self.entries, self.leaf_id->Some_0)
    }

    /// The journal with one more entry of the given kind under the leaf: it
    /// becomes the leaf.
    pub open spec fn appended(self, id: Seq<char>, timestamp: Seq<char>, kind: EntryKindV) -> SessionV {
        SessionV {
            entries: self.entries.push(
                SessionEntryV {
                    base: EntryBaseV { id, parent_id: self.leaf_id, timestamp },
                    kind,
                    extra: Seq::empty(),
                },
            ),
            leaf_id: Some(id),
            ..self
        }
    }

    /// Appending an entry under the leaf with an id that no entry has keeps
    /// the invariants.
    pub proof fn lemma_appended_wf(self, id: Seq<char>, timestamp: Seq<char>, kind: EntryKindV)
        requires
            self.wf(),
            !has_id(self.entries, id),
        ensures
            self.appended(id, timestamp, kind).wf(),
    {
        let after = self.appended(id, timestamp, kind).entries;
        let n = self.entries.len() as int;
        assert(after[n].base.id == id);
        assert forall|i: int, j: int| 0 <= i < j < after.len() implies (#[trigger] after[i]).base.id != (
        #[trigger] after[j]).base.id by {
            if j == n {
                assert(after[i] == self.entries[i]);
            } else {
                assert(after[i] == self.entries[i] && after[j] == self.entries[j]);
            }
        }
        assert forall|i: int|
            0 <= i < after.len() && (#[trigger] after[i]).base.parent_id is Some implies index_of_id(
            after,
            after[i].base.parent_id->Some_0,
            i,
        ) is Some by {
            let p = after[i].base.parent_id->Some_0;
            if i < n {
                assert(after[i] == self.entries[i]);
                lemma_index_same_prefix(self.entries, after, p, i);
            } else {
                let w = choose|w: int| 0 <= w < n && (#[trigger] self.entries[w]).base.id == p;
                lemma_index_of_id(self.entries, p, n);
                lemma_index_same_prefix(self.entries, after, p, n);
            }
        }
        assert(has_id(after, id));
    }
}

/// Looking an id up among the first `limit` entries depends on those
/// entries only.
pub proof fn lemma_index_same_prefix(
    a: Seq<SessionEntryV>,
    b: Seq<SessionEntryV>,
    id: Seq<char>,
    limit: int,
)
    requires
        limit <= a.len(),
        limit <= b.len(),
        forall|k: int| 0 <= k < limit ==> a[k] == b[k],
    ensures
        index_of_id(a, id, limit) == index_of_id(b, id, limit),
    decreases limit,
{
    if limit > 0 {
        lemma_index_same_prefix(a, b, id, limit - 1);
    }
}

/// The ids from a root down to the entry at `at`: the entry's own id after
/// the path of its parent, where the parent is an earlier entry.
pub open spec fn path_from(entries: Seq<SessionEntryV>, at: int) -> Seq<Seq<char>>
    decreases at,
{
    if at < 0 || at >= entries.len() {
        Seq::empty()
    } else {
        match entries[at].base.parent_id {
            None => seq![entries[at].base.id],
            Some(p) => match index_of_id(entries, p, at) {
                Some(j) => if 0 <= j < at {
                    path_from(entries, j).push(entries[at].base.id)
                } else {
                    seq![entries[at].base.id]
                },
                None => seq![entries[at].base.id],
            },
        }
    }
}

/// The ids from a root down to the entry with the given id; empty where no
/// entry has it.
pub open spec fn path_to(entries: Seq<SessionEntryV>, id: Seq<char>) -> Seq<Seq<char>> {
    match index_of_id(entries, id, entries.len() as int) {
        Some(i) => path_from(entries, i),
        None => Seq::empty(),
    }
}

/// The entry that the `k`-th id of a path names.
pub open spec fn named_entry(entries: Seq<SessionEntryV>, path: Seq<Seq<char>>, k: int) -> SessionEntryV {
    entries[index_of_id(entries, path[k], entries.len() as int)->Some_0]
}

/// Whether a path runs from a root to the entry with the given id: every id
/// on it names an entry, the first of them has no parent, each next one has
/// the one before it as its parent, and the last is the given id.
pub open spec fn is_lineage(entries: Seq<SessionEntryV>, path: Seq<Seq<char>>, id: Seq<char>) -> bool {
    &&& path.len() > 0
    &&& path.last() == id
    &&& forall|k: int|
        0 <= k < path.len() ==> index_of_id(entries, #[trigger] path[k], entries.len() as int) is Some
    &&& named_entry(entries, path, 0).base.parent_id is None
    &&& forall|k: int|
        0 <= k < path.len() - 1 ==> (#[trigger] named_entry(entries, path, k + 1)).base.parent_id
            == Some(path[k])
}

/// In a forest, looking up the id of the entry at `i` finds `i`.
pub proof fn lemma_index_of_own_id(entries: Seq<SessionEntryV>, i: int, limit: int)
    requires
        is_forest(entries),
        0 <= i < limit <= entries.len(),
    ensures
        index_of_id(entries, entries[i].base.id, limit) == Some(i),
{
    lemma_index_of_id(entries, entries[i].base.id, limit);
}

/// In a forest, the path from a root to an entry is a lineage of that
/// entry.
pub proof fn lemma_path_is_lineage(entries: Seq<SessionEntryV>, at: int)
    requires
        is_forest(entries),
        0 <= at < entries.len(),
    ensures
        is_lineage(entries, path_from(entries, at), entries[at].base.id),
    decreases at,
{
    let n = entries.len() as int;
    let id = entries[at].base.id;
    let path = path_from(entries, at);
    lemma_index_of_own_id(entries, at, n);
    match entries[at].base.parent_id {
        None => {
            assert(path =~= seq![id]);
            assert(named_entry(entries, path, 0) == entries[at]);
        },
        Some(p) => {
            lemma_index_of_id(entries, p, at);
            let j = index_of_id(entries, p, at)->Some_0;
            lemma_path_is_lineage(entries, j);
            let up = path_from(entries, j);
            assert(path =~= up.push(id));
            assert(up.last() == p);
            assert forall|k: int| 0 <= k < path.len() implies index_of_id(
                entries,
                #[trigger] path[k],
                n,
            ) is Some by {
                if k < up.len() {
                    assert(path[k] == up[k]);
                }
            }
            assert(named_entry(entries, path, 0) == named_entry(entries, up, 0));
            assert forall|k: int| 0 <= k < path.len() - 1 implies (#[trigger] named_entry(
                entries,
                path,
                k + 1,
            )).base.parent_id == Some(path[k]) by {
                if k + 1 < up.len() {
                    assert(named_entry(entries, path, k + 1) == named_entry(entries, up, k + 1));
                    assert(path[k] == up[k]);
                } else {
                    assert(named_entry(entries, path, k + 1) == entries[at]);
                    assert(path[k] == up.last());
                }
            }
        },
    }
}

/// The path that `get_path_to_entry` returns for the id of an entry runs
/// from a root to that entry: its first id names an entry without a parent,
/// each pair of neighbours is a parent and its child, and its last id is
/// the given one.
pub proof fn lemma_path_to_entry(session: SessionV, id: Seq<char>)
    requires
        session.wf(),
        has_id(session.entries, id),
    ensures
        is_lineage(session.entries, path_to(session.entries, id), id),
{
    lemma_index_of_id(session.entries, id, session.entries.len() as int);
    let i = index_of_id(session.entries, id, session.entries.len() as int)->Some_0;
    lemma_path_is_lineage(session.entries, i);
}

/// How many of the first `limit` entries, the one at `i` apart, have the
/// entry at `i` as their parent.
pub open spec fn child_count(entries: Seq<SessionEntryV>, i: int, limit: int) -> nat
    decreases limit,
{
    if limit <= 0 {
        0
    } else {
        let before = child_count(entries, i, limit - 1);
        if limit - 1 != i && limit <= entries.len() && entries[limit - 1].base.parent_id == Some(
            entries[i].base.id,
        ) {
            before + 1
        } else {
            before
        }
    }
}

/// The number of children of the entry at `i`.
pub open spec fn children(entries: Seq<SessionEntryV>, i: int) -> nat {
    child_count(entries, i, entries.len() as int)
}

/// The ids of those of the first `limit` entries that have at least `least`
/// and at most `most` children, in the order of the entries.
pub open spec fn ids_by_children(
    entries: Seq<SessionEntryV>,
    least: nat,
    most: nat,
    limit: int,
) -> Seq<Seq<char>>
    decreases limit,
{
    if limit <= 0 || limit > entries.len() {
        Seq::empty()
    } else {
        let before = ids_by_children(entries, least, most, limit - 1);
        if least <= children(entries, limit - 1) <= most {
            before.push(entries[limit - 1].base.id)
        } else {
            before
        }
    }
}

/// The leaves: the ids of the entries that are no other entry's parent.
pub open spec fn leaves_of(entries: Seq<SessionEntryV>) -> Seq<Seq<char>> {
    ids_by_children(entries, 0, 0, entries.len() as int)
}

/// The branch points: the ids of the entries with two children or more.
pub open spec fn branch_points_of(entries: Seq<SessionEntryV>) -> Seq<Seq<char>> {
    ids_by_children(entries, 2, entries.len(), entries.len() as int)
}

/// `child_count` is zero exactly when none of the entries counted is a
/// child, and at least two exactly when two of them are.
pub proof fn lemma_child_count(entries: Seq<SessionEntryV>, i: int, limit: int)
    requires
        0 <= i < entries.len(),
        limit <= entries.len(),
    ensures
        child_count(entries, i, limit) <= limit || limit < 0,
        child_count(entries, i, limit) == 0 <==> forall|j: int|
            0 <= j < limit && j != i ==> (#[trigger] entries[j]).base.parent_id != Some(
                entries[i].base.id,
            ),
        child_count(entries, i, limit) >= 2 <==> exists|j: int, k: int|
            0 <= j < k < limit && j != i && k != i && (#[trigger] entries[j]).base.parent_id
                == Some(entries[i].base.id) && (#[trigger] entries[k]).base.parent_id == Some(
                entries[i].base.id,
            ),
    decreases limit,
{
    if limit > 0 {
        lemma_child_count(entries, i, limit - 1);
        let mine = Some(entries[i].base.id);
        let last_is_child = limit - 1 != i && entries[limit - 1].base.parent_id == mine;
        if child_count(entries, i, limit) >= 2 {
            if child_count(entries, i, limit - 1) >= 2 {
                let (j, k) = choose|j: int, k: int|
                    0 <= j < k < limit - 1 && j != i && k != i && (
                    #[trigger] entries[j]).base.parent_id == mine && (
                    #[trigger] entries[k]).base.parent_id == mine;
                assert(0 <= j < k < limit && entries[j].base.parent_id == mine
                    && entries[k].base.parent_id == mine);
            } else {
                assert(last_is_child);
                assert(child_count(entries, i, limit - 1) != 0);
                let j = choose|j: int|
                    0 <= j < limit - 1 && j != i && (#[trigger] entries[j]).base.parent_id == mine;
                assert(0 <= j < limit - 1 < limit && entries[j].base.parent_id == mine
                    && entries[limit - 1].base.parent_id == mine);
            }
        }
        if exists|j: int, k: int|
            0 <= j < k < limit && j != i && k != i && (#[trigger] entries[j]).base.parent_id
                == mine && (#[trigger] entries[k]).base.parent_id == mine {
            let (j, k) = choose|j: int, k: int|
                0 <= j < k < limit && j != i && k != i && (#[trigger] entries[j]).base.parent_id
                    == mine && (#[trigger] entries[k]).base.parent_id == mine;
            if k < limit - 1 {
                assert(child_count(entries, i, limit - 1) >= 2);
            } else {
                assert(entries[j].base.parent_id == mine);
                assert(child_count(entries, i, limit - 1) != 0);
            }
        }
    }
}

/// An id is among `ids_by_children` exactly when it is the id of one of the
/// entries counted whose number of children lies in the range.
pub proof fn lemma_ids_by_children(
    entries: Seq<SessionEntryV>,
    least: nat,
    most: nat,
    limit: int,
    id: Seq<char>,
)
    requires
        limit <= entries.len(),
    ensures
        ids_by_children(entries, least, most, limit).contains(id) <==> exists|i: int|
            0 <= i < limit && (#[trigger] entries[i]).base.id == id && least <= children(
                entries,
                i,
            ) <= most,
    decreases limit,
{
    if limit > 0 {
        lemma_ids_by_children(entries, least, most, limit - 1, id);
        let before = ids_by_children(entries, least, most, limit - 1);
        let all = ids_by_children(entries, least, most, limit);
        let last = entries[limit - 1];
        if least <= children(entries, limit - 1) <= most {
            assert(all == before.push(last.base.id));
            if all.contains(id) {
                let w = choose|w: int| 0 <= w < all.len() && all[w] == id;
                if w < before.len() {
                    assert(before[w] == id);
                    assert(before.contains(id));
                } else {
                    assert(entries[limit - 1].base.id == id);
                }
            }
            if exists|i: int|
                0 <= i < limit && (#[trigger] entries[i]).base.id == id && least <= children(
                    entries,
                    i,
                ) <= most {
                let i = choose|i: int|
                    0 <= i < limit && (#[trigger] entries[i]).base.id == id && least <= children(
                        entries,
                        i,
                    ) <= most;
                if i < limit - 1 {
                    assert(before.contains(id));
                    let w = choose|w: int| 0 <= w < before.len() && before[w] == id;
                    assert(all[w] == id);
                } else {
                    assert(all[all.len() - 1] == id);
                }
            }
        } else {
            assert(all == before);
            if exists|i: int|
                0 <= i < limit && (#[trigger] entries[i]).base.id == id && least <= children(
                    entries,
                    i,
                ) <= most {
                let i = choose|i: int|
                    0 <= i < limit && (#[trigger] entries[i]).base.id == id && least <= children(
                        entries,
                        i,
                    ) <= most;
                assert(i < limit - 1);
            }
        }
    }
}

/// The leaves are the ids of the entries that are no other entry's parent.
pub proof fn lemma_leaves(entries: Seq<SessionEntryV>, id: Seq<char>)
    ensures
        leaves_of(entries).contains(id) <==> exists|i: int|
            0 <= i < entries.len() && (#[trigger] entries[i]).base.id == id && forall|j: int|
                0 <= j < entries.len() && j != i ==> (#[trigger] entries[j]).base.parent_id
                    != Some(id),
{
    let n = entries.len() as int;
    lemma_ids_by_children(entries, 0, 0, n, id);
    assert forall|i: int| 0 <= i < n implies (children(entries, i) == 0 <==> forall|j: int|
        0 <= j < n && j != i ==> (#[trigger] entries[j]).base.parent_id != Some(
            (#[trigger] entries[i]).base.id,
        )) by {
        lemma_child_count(entries, i, n);
    }
    if leaves_of(entries).contains(id) {
        let i = choose|i: int|
            0 <= i < n && (#[trigger] entries[i]).base.id == id && 0 <= children(entries, i) <= 0;
        assert(forall|j: int|
            0 <= j < n && j != i ==> (#[trigger] entries[j]).base.parent_id != Some(id));
    }
    if exists|i: int|
        0 <= i < n && (#[trigger] entries[i]).base.id == id && forall|j: int|
            0 <= j < n && j != i ==> (#[trigger] entries[j]).base.parent_id != Some(id) {
        let i = choose|i: int|
            0 <= i < n && (#[trigger] entries[i]).base.id == id && forall|j: int|
                0 <= j < n && j != i ==> (#[trigger] entries[j]).base.parent_id != Some(id);
        assert(children(entries, i) == 0);
    }
}

/// The branch points are the ids of the entries that are the parent of two
/// other entries or more.
pub proof fn lemma_branch_points(entries: Seq<SessionEntryV>, id: Seq<char>)
    ensures
        branch_points_of(entries).contains(id) <==> exists|i: int, j: int, k: int|
            0 <= i < entries.len() && (#[trigger] entries[i]).base.id == id && 0 <= j < k
                < entries.len() && j != i && k != i && (#[trigger] entries[j]).base.parent_id
                == Some(id) && (#[trigger] entries[k]).base.parent_id == Some(id),
{
    let n = entries.len() as int;
    lemma_ids_by_children(entries, 2, entries.len(), n, id);
    if branch_points_of(entries).contains(id) {
        let i = choose|i: int|
            0 <= i < n && (#[trigger] entries[i]).base.id == id && 2 <= children(entries, i)
                <= entries.len();
        lemma_child_count(entries, i, n);
        let (j, k) = choose|j: int, k: int|
            0 <= j < k < n && j != i && k != i && (#[trigger] entries[j]).base.parent_id == Some(
                entries[i].base.id,
            ) && (#[trigger] entries[k]).base.parent_id == Some(entries[i].base.id);
        assert(0 <= i < n && entries[i].base.id == id && 0 <= j < k < n && j != i && k != i
            && entries[j].base.parent_id == Some(id) && entries[k].base.parent_id == Some(id));
    }
    if exists|i: int, j: int, k: int|
        0 <= i < entries.len() && (#[trigger] entries[i]).base.id == id && 0 <= j < k
            < entries.len() && j != i && k != i && (#[trigger] entries[j]).base.parent_id == Some(
            id,
        ) && (#[trigger] entries[k]).base.parent_id == Some(id) {
        let (i, j, k) = choose|i: int, j: int, k: int|
            0 <= i < entries.len() && (#[trigger] entries[i]).base.id == id && 0 <= j < k
                < entries.len() && j != i && k != i && (#[trigger] entries[j]).base.parent_id
                == Some(id) && (#[trigger] entries[k]).base.parent_id == Some(id);
        lemma_child_count(entries, i, n);
        assert(entries[j].base.parent_id == Some(entries[i].base.id)
            && entries[k].base.parent_id == Some(entries[i].base.id));
        assert(children(entries, i) >= 2);
    }
}

/// The length of the longest id among the first `limit` entries.
pub open spec fn longest_id(entries: Seq<SessionEntryV>, limit: int) -> nat
    decreases limit,
{
    if limit <= 0 || limit > entries.len() {
        0
    } else {
        let before = longest_id(entries, limit - 1);
        if entries[limit - 1].base.id.len() > before {
            entries[limit - 1].base.id.len()
        } else {
            before
        }
    }
}

/// No id among the entries counted is longer than `longest_id`.
pub proof fn lemma_longest_id(entries: Seq<SessionEntryV>, limit: int, i: int)
    requires
        0 <= i < limit <= entries.len(),
    ensures
        entries[i].base.id.len() <= longest_id(entries, limit),
    decreases limit,
{
    if i < limit - 1 {
        lemma_longest_id(entries, limit - 1, i);
    }
}

/// The id that the next entry gets: the number of entries so far in
/// decimal, or, where an entry has that id already, zeros, one more than
/// the longest id has characters.
pub open spec fn fresh_id_of(entries: Seq<SessionEntryV>) -> Seq<char> {
    let candidate = decimal(entries.len());
    if !has_id(entries, candidate) {
        candidate
    } else {
        repeated('0', longest_id(entries, entries.len() as int) + 1)
    }
}

/// No entry has the id that the next entry gets.
pub proof fn lemma_fresh_id(entries: Seq<SessionEntryV>)
    ensures
        !has_id(entries, fresh_id_of(entries)),
{
    let candidate = decimal(entries.len());
    if has_id(entries, candidate) {
        let fresh = fresh_id_of(entries);
        assert forall|i: int| 0 <= i < entries.len() implies (#[trigger] entries[i]).base.id
            != fresh by {
            lemma_longest_id(entries, entries.len() as int, i);
        }
    }
}

/// Calls `chrono::Utc::now` and `to_rfc3339_opts` with milliseconds and `Z`:
/// the time of the call as RFC 3339 text. Nothing is known of it
/// beforehand.
#[verifier::external_body]
fn now_rfc3339() -> String {
    chrono::Utc::now().to_rfc3339_opts(chrono::SecondsFormat::Millis, true)
}

/// The leaves and the branch points of a journal.
#[derive(Debug, Clone)]
pub struct BranchSummary {
    /// The ids of the entries that are no other entry's parent.
    pub leaves: Vec<String>,
    /// The ids of the entries with two children or more.
    pub branch_points: Vec<String>,
}

/// A session: its header, its entries, the leaf that the next entry goes
/// under, and the path of its file once it has one.
#[derive(Debug, Clone)]
pub struct Session {
    pub header: SessionHeader,
    pub entries: Vec<SessionEntry>,
    pub leaf_id: Option<String>,
    pub path: Option<String>,
}

impl View for Session {
    type V = SessionV;

    open spec fn view(&self) -> SessionV {
        SessionV {
            header: self.header@,
            entries: entries_view(self.entries@),
            leaf_id: opt_text(self.leaf_id),
        }
    }
}

/// Whether `after` is `before` with one more entry of the given kind under
/// the leaf, with the id that the next entry gets and some time.
pub open spec fn appended_now(before: SessionV, after: SessionV, kind: EntryKindV) -> bool {
    exists|timestamp: Seq<char>|
        after == #[trigger] before.appended(fresh_id_of(before.entries), timestamp, kind)
}

impl Session {
    /// A session without entries.
    pub fn create(header: SessionHeader) -> (r: Self)
        ensures
            r@ == (SessionV { header: header@, entries: Seq::empty(), leaf_id: None }),
            r@.wf(),
            r.path is None,
    {
        let r = Session { header, entries: Vec::new(), leaf_id: None, path: None };
        assert(r@.entries =~= Seq::<SessionEntryV>::empty());
        r
    }

    /// The position of the first entry with the given id among the first
    /// `limit` entries.
    pub fn position_of(&self, id: &str, limit: usize) -> (r: Option<usize>)
        requires
            limit <= self.entries@.len(),
        ensures
            match r {
                Some(i) => index_of_id(self@.entries, id@, limit as int) == Some(i as int),
                None => index_of_id(self@.entries, id@, limit as int).is_none(),
            },
    {
        let wanted = chars_of(id);
        let mut i: usize = 0;
        while i < limit
            invariant
                i <= limit <= self.entries@.len(),
                wanted@ == id@,
                index_of_id(self@.entries, id@, i as int).is_none(),
            decreases limit - i,
        {
            if str_matches(self.entries[i].base.id.as_str(), &wanted) {
                proof {
                    lemma_index_of_id(self@.entries, id@, i as int);
                    lemma_index_of_id(self@.entries, id@, limit as int);
                    assert(self@.entries[i as int].base.id == id@);
                }
                return Some(i);
            }
            i += 1;
        }
        None
    }

    /// Whether some entry has the given id.
    pub fn contains_id(&self, id: &str) -> (b: bool)
        ensures
            b == has_id(self@.entries, id@),
    {
        proof {
            lemma_index_of_id(self@.entries, id@, self@.entries.len() as int);
        }
        self.position_of(id, self.entries.len()).is_some()
    }

    /// The id that the next entry gets.
    pub fn fresh_id(&self) -> (r: String)
        ensures
            r@ == fresh_id_of(self@.entries),
            !has_id(self@.entries, r@),
    {
        proof {
            lemma_fresh_id(self@.entries);
        }
        let candidate = decimal_string(self.entries.len() as u64);
        if !self.contains_id(candidate.as_str()) {
            return candidate;
        }
        let mut longest: usize = 0;
        let mut i: usize = 0;
        while i < self.entries.len()
            invariant
                i <= self.entries.len(),
                longest == longest_id(self@.entries, i as int),
            decreases self.entries.len() - i,
        {
            let here = self.entries[i].base.id.as_str().unicode_len();
            if here > longest {
                longest = here;
            }
            i += 1;
        }
        let mut out = String::new();
        let mut k: usize = 0;
        assert(out@ =~= repeated('0', 0));
        while k < longest
            invariant
                k <= longest,
                out@ == repeated('0', k as nat),
            decreases longest - k,
        {
            push_char(&mut out, '0');
            assert(out@ =~= repeated('0', (k + 1) as nat));
            k += 1;
        }
        push_char(&mut out, '0');
        assert(out@ =~= repeated('0', (longest + 1) as nat));
        out
    }

    /// Appends an entry of the given kind and time under the leaf; it gets
    /// the next id and becomes the leaf. Returns its id.
    pub fn push_entry(&mut self, kind: EntryKind, timestamp: String) -> (id: String)
        ensures
            final(self)@ == old(self)@.appended(fresh_id_of(old(self)@.entries), timestamp@, kind@),
            id@ == fresh_id_of(old(self)@.entries),
            old(self)@.wf() ==> final(self)@.wf(),
            final(self).path == old(self).path,
    {
        let id = self.fresh_id();
        proof {
            if old(self)@.wf() {
                old(self)@.lemma_appended_wf(id@, timestamp@, kind@);
            }
        }
        let parent_id = clone_opt_text(&self.leaf_id);
        self.entries.push(
            SessionEntry {
                base: EntryBase { id: id.clone(), parent_id, timestamp },
                kind,
                extra: Vec::new(),
            },
        );
        self.leaf_id = Some(id.clone());
        assert(self@.entries =~= old(self)@.appended(
            fresh_id_of(old(self)@.entries),
            timestamp@,
            kind@,
        ).entries);
        id
    }

    /// The present time as RFC 3339 text, as entries are stamped with it.
    pub fn timestamp_now() -> String {
        now_rfc3339()
    }

    fn push_now(&mut self, kind: EntryKind) -> (id: String)
        ensures
            appended_now(old(self)@, final(self)@, kind@),
            id@ == fresh_id_of(old(self)@.entries),
            old(self)@.wf() ==> final(self)@.wf(),
            final(self).path == old(self).path,
    {
        let timestamp = now_rfc3339();
        let ghost at = timestamp@;
        let id = self.push_entry(kind, timestamp);
        assert(self@ == old(self)@.appended(fresh_id_of(old(self)@.entries), at, kind@));
        id
    }

    /// Appends a message under the leaf, at the present time.
    pub fn append_message(&mut self, message: SessionMessage) -> (id: String)
        ensures
            final(self).path == old(self).path,
            appended_now(old(self)@, final(self)@, EntryKindV::Message { message: message@ }),
            id@ == fresh_id_of(old(self)@.entries),
            old(self)@.wf() ==> final(self)@.wf(),
    {
        self.push_now(EntryKind::Message { message })
    }

    /// Appends a message of the conversation under the leaf, at the present
    /// time.
    pub fn append_model_message(&mut self, message: Message) -> (id: String)
        ensures
            final(self).path == old(self).path,
            appended_now(
                old(self)@,
                final(self)@,
                EntryKindV::Message { message: journal_message(message@) },
            ),
            id@ == fresh_id_of(old(self)@.entries),
            old(self)@.wf() ==> final(self)@.wf(),
    {
        self.push_now(EntryKind::Message { message: SessionMessage::from_message(message) })
    }

    /// Records a change of model.
    pub fn append_model_change(&mut self, provider: String, model_id: String) -> (id: String)
        ensures
            final(self).path == old(self).path,
            appended_now(
                old(self)@,
                final(self)@,
                EntryKindV::ModelChange { provider: provider@, model_id: model_id@ },
            ),
            id@ == fresh_id_of(old(self)@.entries),
            old(self)@.wf() ==> final(self)@.wf(),
    {
        self.push_now(EntryKind::ModelChange { provider, model_id })
    }

    /// Records a change of thinking level.
    pub fn append_thinking_level_change(&mut self, thinking_level: String) -> (id: String)
        ensures
            final(self).path == old(self).path,
            appended_now(
                old(self)@,
                final(self)@,
                EntryKindV::ThinkingLevelChange { thinking_level: thinking_level@ },
            ),
            id@ == fresh_id_of(old(self)@.entries),
            old(self)@.wf() ==> final(self)@.wf(),
    {
        self.push_now(EntryKind::ThinkingLevelChange { thinking_level })
    }

    /// Sets the thinking level of the session: the header holds it, and
    /// the journal gains the one entry that records the change.
    pub fn set_thinking_level(&mut self, level: ThinkingLevel) -> (id: String)
        ensures
            appended_now(
                SessionV {
                    header: SessionHeaderV {
                        thinking_level: Some(level.name()),
                        ..old(self)@.header
                    },
                    ..old(self)@
                },
                final(self)@,
                EntryKindV::ThinkingLevelChange { thinking_level: level.name() },
            ),
            id@ == fresh_id_of(old(self)@.entries),
            old(self)@.wf() ==> final(self)@.wf(),
            final(self).path == old(self).path,
    {
        self.header.thinking_level = Some(String::from_str(level.as_str()));
        self.push_now(
            EntryKind::ThinkingLevelChange { thinking_level: String::from_str(level.as_str()) },
        )
    }

    /// Sets the model of the session: the header holds its provider and its
    /// id, and the journal gains the one entry that records the change.
    pub fn set_model(&mut self, provider: &str, model_id: &str) -> (id: String)
        ensures
            appended_now(
                SessionV {
                    header: SessionHeaderV {
                        provider: Some(provider@),
                        model_id: Some(model_id@),
                        ..old(self)@.header
                    },
                    ..old(self)@
                },
                final(self)@,
                EntryKindV::ModelChange { provider: provider@, model_id: model_id@ },
            ),
            id@ == fresh_id_of(old(self)@.entries),
            old(self)@.wf() ==> final(self)@.wf(),
            final(self).path == old(self).path,
    {
        self.header.provider = Some(String::from_str(provider));
        self.header.model_id = Some(String::from_str(model_id));
        self.push_now(
            EntryKind::ModelChange {
                provider: String::from_str(provider),
                model_id: String::from_str(model_id),
            },
        )
    }

    /// Records the name of the session.
    pub fn append_session_info(&mut self, name: Option<String>) -> (id: String)
        ensures
            final(self).path == old(self).path,
            appended_now(
                old(self)@,
                final(self)@,
                EntryKindV::SessionInfo { name: opt_text(name) },
            ),
            id@ == fresh_id_of(old(self)@.entries),
            old(self)@.wf() ==> final(self)@.wf(),
    {
        self.push_now(EntryKind::SessionInfo { name })
    }

    /// Records a compaction: a summary of earlier entries, and the first
    /// entry that is kept.
    pub fn append_compaction(
        &mut self,
        summary: String,
        first_kept_entry_id: String,
        tokens_before: u64,
        details: Option<Json>,
        from_hook: Option<bool>,
    ) -> (id: String)
        ensures
            final(self).path == old(self).path,
            appended_now(
                old(self)@,
                final(self)@,
                EntryKindV::Compaction {
                    summary: summary@,
                    first_kept_entry_id: first_kept_entry_id@,
                    tokens_before,
                    details: opt_json(details),
                    from_hook,
                },
            ),
            id@ == fresh_id_of(old(self)@.entries),
            old(self)@.wf() ==> final(self)@.wf(),
    {
        self.push_now(
            EntryKind::Compaction { summary, first_kept_entry_id, tokens_before, details, from_hook },
        )
    }

    /// Records the summary of a branch that was left.
    pub fn append_branch_summary(&mut self, from_id: String, summary: String) -> (id: String)
        ensures
            final(self).path == old(self).path,
            appended_now(
                old(self)@,
                final(self)@,
                EntryKindV::BranchSummary { from_id: from_id@, summary: summary@ },
            ),
            id@ == fresh_id_of(old(self)@.entries),
            old(self)@.wf() ==> final(self)@.wf(),
    {
        self.push_now(EntryKind::BranchSummary { from_id, summary })
    }

    /// Records an entry of an extension's own kind.
    pub fn push(&mut self, custom_type: String, data: Option<Json>) -> (id: String)
        ensures
            final(self).path == old(self).path,
            appended_now(
                old(self)@,
                final(self)@,
                EntryKindV::Custom { custom_type: custom_type@, data: opt_json(data) },
            ),
            id@ == fresh_id_of(old(self)@.entries),
            old(self)@.wf() ==> final(self)@.wf(),
    {
        self.push_now(EntryKind::Custom { custom_type, data })
    }

    /// Puts a label on an entry, or takes it off with `None`. Returns the id
    /// of the label entry, or `None`, with nothing changed, where no entry
    /// has the target id.
    pub fn add_label(&mut self, target_id: &str, label: Option<String>) -> (r: Option<String>)
        ensures
            final(self).path == old(self).path,
            match r {
                Some(id) => has_id(old(self)@.entries, target_id@) && id@ == fresh_id_of(
                    old(self)@.entries,
                ) && appended_now(
                    old(self)@,
                    final(self)@,
                    EntryKindV::Label { target_id: target_id@, label: opt_text(label) },
                ),
                None => !has_id(old(self)@.entries, target_id@) && final(self)@ == old(self)@,
            },
            old(self)@.wf() ==> final(self)@.wf(),
    {
        if !self.contains_id(target_id) {
            return None;
        }
        Some(self.push_now(EntryKind::Label { target_id: String::from_str(target_id), label }))
    }

    /// Makes the entry with the given id the leaf, so that the next entry
    /// becomes one more child of it. Returns whether there is such an
    /// entry; where there is none, nothing changes.
    pub fn create_branch_from(&mut self, entry_id: &str) -> (b: bool)
        ensures
            final(self).path == old(self).path,
            b == has_id(old(self)@.entries, entry_id@),
            b ==> final(self)@ == (SessionV { leaf_id: Some(entry_id@), ..old(self)@ }),
            !b ==> final(self)@ == old(self)@,
            old(self)@.wf() ==> final(self)@.wf(),
    {
        if !self.contains_id(entry_id) {
            return false;
        }
        self.leaf_id = Some(String::from_str(entry_id));
        true
    }

    /// The number of children of the entry at `i`.
    pub fn count_children(&self, i: usize) -> (n: usize)
        requires
            i < self.entries@.len(),
        ensures
            n == children(self@.entries, i as int),
    {
        let mine = chars_of(self.entries[i].base.id.as_str());
        let mut n: usize = 0;
        let mut j: usize = 0;
        while j < self.entries.len()
            invariant
                j <= self.entries.len(),
                i < self.entries@.len(),
                mine@ == self@.entries[i as int].base.id,
                n == child_count(self@.entries, i as int, j as int),
                n <= j,
            decreases self.entries.len() - j,
        {
            let is_child = j != i && match &self.entries[j].base.parent_id {
                Some(p) => str_matches(p.as_str(), &mine),
                None => false,
            };
            if is_child {
                n += 1;
            }
            j += 1;
        }
        n
    }

    /// The leaves and the branch points, each in the order of the entries.
    pub fn branch_summary(&self) -> (r: BranchSummary)
        ensures
            crate::error::texts_view(r.leaves@) == leaves_of(self@.entries),
            crate::error::texts_view(r.branch_points@) == branch_points_of(self@.entries),
    {
        let mut leaves: Vec<String> = Vec::new();
        let mut branch_points: Vec<String> = Vec::new();
        let mut i: usize = 0;
        let ghost all = self@.entries;
        assert(crate::error::texts_view(leaves@) =~= ids_by_children(all, 0, 0, 0));
        assert(crate::error::texts_view(branch_points@) =~= ids_by_children(all, 2, all.len(), 0));
        while i < self.entries.len()
            invariant
                i <= self.entries.len(),
                all == self@.entries,
                crate::error::texts_view(leaves@) == ids_by_children(all, 0, 0, i as int),
                crate::error::texts_view(branch_points@) == ids_by_children(
                    all,
                    2,
                    all.len(),
                    i as int,
                ),
            decreases self.entries.len() - i,
        {
            let n = self.count_children(i);
            proof {
                lemma_child_count(all, i as int, all.len() as int);
            }
            if n == 0 {
                leaves.push(self.entries[i].base.id.clone());
                assert(crate::error::texts_view(leaves@) =~= ids_by_children(all, 0, 0, i + 1));
            }
            if n >= 2 {
                branch_points.push(self.entries[i].base.id.clone());
                assert(crate::error::texts_view(branch_points@) =~= ids_by_children(
                    all,
                    2,
                    all.len(),
                    i + 1,
                ));
            }
            i += 1;
        }
        BranchSummary { leaves, branch_points }
    }

    /// The ids from a root down to the entry with the given id; empty where
    /// no entry has it.
    pub fn get_path_to_entry(&self, id: &str) -> (r: Vec<String>)
        ensures
            crate::error::texts_view(r@) == path_to(self@.entries, id@),
    {
        let mut out: Vec<String> = Vec::new();
        let mut at: usize = match self.position_of(id, self.entries.len()) {
            Some(i) => i,
            None => {
                assert(crate::error::texts_view(out@) =~= Seq::<Seq<char>>::empty());
                return out;
            },
        };
        let ghost all = self@.entries;
        let ghost whole = path_to(all, id@);
        proof {
            lemma_index_of_id(all, id@, all.len() as int);
        }
        assert(whole =~= path_from(all, at as int) + crate::error::texts_view(out@));
        loop
            invariant_except_break
                whole == path_from(all, at as int) + crate::error::texts_view(out@),
            invariant
                all == self@.entries,
                at < self.entries@.len(),
            ensures
                crate::error::texts_view(out@) == whole,
            decreases at,
        {
            let ghost below = crate::error::texts_view(out@);
            out.insert(0, self.entries[at].base.id.clone());
            assert(crate::error::texts_view(out@) =~= seq![all[at as int].base.id] + below);
            let parent: Option<usize> = match &self.entries[at].base.parent_id {
                Some(p) => self.position_of(p.as_str(), at),
                None => None,
            };
            match parent {
                Some(j) => {
                    proof {
                        lemma_index_of_id(all, all[at as int].base.parent_id->Some_0, at as int);
                        assert(path_from(all, at as int) =~= path_from(all, j as int).push(
                            all[at as int].base.id,
                        ));
                        assert(whole =~= path_from(all, j as int) + crate::error::texts_view(out@));
                    }
                    at = j;
                },
                None => {
                    proof {
                        assert(path_from(all, at as int) =~= seq![all[at as int].base.id]);
                        assert(whole =~= crate::error::texts_view(out@));
                    }
                    break ;
                },
            }
        }
        out
    }
}

/// The journal after each of the messages is appended in turn, each under
/// the one before it, stamped with the time at its place in `stamps`.
pub open spec fn append_each(before: SessionV, messages: Seq<MessageV>, stamps: Seq<Seq<char>>) -> SessionV
    decreases messages.len(),
{
    if messages.len() == 0 || stamps.len() != messages.len() {
        before
    } else {
        let so_far = append_each(before, messages.drop_last(), stamps.drop_last());
        so_far.appended(
            fresh_id_of(so_far.entries),
            stamps.last(),
            EntryKindV::Message { message: journal_message(messages.last()) },
        )
    }
}

/// Appending messages keeps the invariants of the journal.
pub proof fn lemma_append_each_wf(before: SessionV, messages: Seq<MessageV>, stamps: Seq<Seq<char>>)
    requires
        before.wf(),
    ensures
        append_each(before, messages, stamps).wf(),
    decreases messages.len(),
{
    if messages.len() != 0 && stamps.len() == messages.len() {
        lemma_append_each_wf(before, messages.drop_last(), stamps.drop_last());
        let so_far = append_each(before, messages.drop_last(), stamps.drop_last());
        lemma_fresh_id(so_far.entries);
        so_far.lemma_appended_wf(
            fresh_id_of(so_far.entries),
            stamps.last(),
            EntryKindV::Message { message: journal_message(messages.last()) },
        );
    }
}

/// No entry of a journal has a parent that no entry is named by.
pub proof fn lemma_parents_are_entries(entries: Seq<SessionEntryV>, j: int, id: Seq<char>)
    requires
        is_forest(entries),
        !has_id(entries, id),
        0 <= j < entries.len(),
    ensures
        entries[j].base.parent_id != Some(id),
{
    if entries[j].base.parent_id == Some(id) {
        lemma_index_of_id(entries, id, j);
        let k = index_of_id(entries, id, j)->Some_0;
        assert(entries[k].base.id == id);
    }
}

/// Whether some entry has the entry with the given id as its parent.
pub open spec fn has_child(entries: Seq<SessionEntryV>, id: Seq<char>) -> bool {
    exists|j: int| 0 <= j < entries.len() && (#[trigger] entries[j]).base.parent_id == Some(id)
}

/// How an entry that is appended changes the leaves: the new entry is a
/// leaf, the old tip is none any more, and every other leaf stays one.
pub proof fn lemma_appended_leaves(
    s: SessionV,
    id: Seq<char>,
    timestamp: Seq<char>,
    kind: EntryKindV,
    x: Seq<char>,
)
    requires
        s.wf(),
        !has_id(s.entries, id),
    ensures
        leaves_of(s.appended(id, timestamp, kind).entries).contains(x) <==> (x == id || (leaves_of(
            s.entries,
        ).contains(x) && s.leaf_id != Some(x))),
{
    let before = s.entries;
    let after = s.appended(id, timestamp, kind).entries;
    let n = before.len() as int;
    lemma_leaves(before, x);
    lemma_leaves(after, x);
    assert(after[n].base.id == id && after[n].base.parent_id == s.leaf_id);
    assert forall|k: int| 0 <= k < n implies #[trigger] after[k] == before[k] by {}
    if leaves_of(after).contains(x) {
        let i = choose|i: int|
            0 <= i < after.len() && (#[trigger] after[i]).base.id == x && forall|j: int|
                0 <= j < after.len() && j != i ==> (#[trigger] after[j]).base.parent_id != Some(x);
        if i < n {
            assert(after[i] == before[i]);
            assert(before[i].base.id == x);
            assert forall|j: int| 0 <= j < n && j != i implies (#[trigger] before[j]).base.parent_id
                != Some(x) by {
                assert(after[j] == before[j]);
            }
            assert(after[n].base.parent_id != Some(x));
            assert(leaves_of(before).contains(x));
        }
    }
    if x == id {
        assert forall|j: int| 0 <= j < after.len() && j != n implies (
        #[trigger] after[j]).base.parent_id != Some(x) by {
            assert(after[j] == before[j]);
            lemma_parents_are_entries(before, j, id);
        }
        assert(after[n].base.id == x);
        assert(leaves_of(after).contains(x));
    }
    if leaves_of(before).contains(x) && s.leaf_id != Some(x) {
        let i = choose|i: int|
            0 <= i < n && (#[trigger] before[i]).base.id == x && forall|j: int|
                0 <= j < n && j != i ==> (#[trigger] before[j]).base.parent_id != Some(x);
        assert(after[i] == before[i]);
        assert forall|j: int| 0 <= j < after.len() && j != i implies (
        #[trigger] after[j]).base.parent_id != Some(x) by {
            if j < n {
                assert(after[j] == before[j]);
            }
        }
        assert(after[i].base.id == x);
        assert(leaves_of(after).contains(x));
    }
}

/// How an entry that is appended changes the branch points: the old tip
/// becomes one if it had a child already, the new entry is none, and every
/// branch point stays one.
pub proof fn lemma_appended_branch_points(
    s: SessionV,
    id: Seq<char>,
    timestamp: Seq<char>,
    kind: EntryKindV,
    x: Seq<char>,
)
    requires
        s.wf(),
        !has_id(s.entries, id),
    ensures
        branch_points_of(s.appended(id, timestamp, kind).entries).contains(x) <==> (
        branch_points_of(s.entries).contains(x) || (s.leaf_id == Some(x) && has_child(
            s.entries,
            x,
        ))),
        !branch_points_of(s.appended(id, timestamp, kind).entries).contains(id),
{
    let before = s.entries;
    let after = s.appended(id, timestamp, kind).entries;
    let n = before.len() as int;
    lemma_branch_points(before, x);
    lemma_branch_points(after, x);
    lemma_branch_points(after, id);
    assert(after[n].base.id == id && after[n].base.parent_id == s.leaf_id);
    assert forall|k: int| 0 <= k < n implies #[trigger] after[k] == before[k] by {}
    if branch_points_of(after).contains(id) {
        let (i, j, k) = choose|i: int, j: int, k: int|
            0 <= i < after.len() && (#[trigger] after[i]).base.id == id && 0 <= j < k < after.len()
                && j != i && k != i && (#[trigger] after[j]).base.parent_id == Some(id) && (
            #[trigger] after[k]).base.parent_id == Some(id);
        assert(after[j] == before[j]);
        lemma_parents_are_entries(before, j, id);
    }
    if branch_points_of(after).contains(x) {
        let (i, j, k) = choose|i: int, j: int, k: int|
            0 <= i < after.len() && (#[trigger] after[i]).base.id == x && 0 <= j < k < after.len()
                && j != i && k != i && (#[trigger] after[j]).base.parent_id == Some(x) && (
            #[trigger] after[k]).base.parent_id == Some(x);
        assert(after[j] == before[j]);
        if i == n {
            lemma_parents_are_entries(before, j, id);
        } else {
            assert(after[i] == before[i]);
            if k < n {
                assert(after[k] == before[k]);
                assert(before[i].base.id == x && before[j].base.parent_id == Some(x)
                    && before[k].base.parent_id == Some(x));
                assert(branch_points_of(before).contains(x));
            } else {
                assert(s.leaf_id == Some(x));
                assert(before[j].base.parent_id == Some(x));
                assert(has_child(before, x));
            }
        }
    }
    if branch_points_of(before).contains(x) {
        let (i, j, k) = choose|i: int, j: int, k: int|
            0 <= i < n && (#[trigger] before[i]).base.id == x && 0 <= j < k < n && j != i && k != i
                && (#[trigger] before[j]).base.parent_id == Some(x) && (
            #[trigger] before[k]).base.parent_id == Some(x);
        assert(after[i] == before[i] && after[j] == before[j] && after[k] == before[k]);
        assert(after[i].base.id == x && after[j].base.parent_id == Some(x)
            && after[k].base.parent_id == Some(x));
        assert(branch_points_of(after).contains(x));
    }
    if s.leaf_id == Some(x) && has_child(before, x) {
        let j = choose|j: int| 0 <= j < n && (#[trigger] before[j]).base.parent_id == Some(x);
        lemma_index_of_id(before, x, n);
        let i = index_of_id(before, x, n)->Some_0;
        assert(after[i] == before[i] && after[j] == before[j]);
        if j == i {
            lemma_index_of_id(before, x, j);
            let p = index_of_id(before, x, j)->Some_0;
            assert(before[p].base.id == x && p < i);
        }
        assert(after[i].base.id == x && after[j].base.parent_id == Some(x)
            && after[n].base.parent_id == Some(x));
        assert(branch_points_of(after).contains(x));
    }
}

/// The path from a root down to an entry depends on the entries up to it
/// only.
pub proof fn lemma_path_same_prefix(a: Seq<SessionEntryV>, b: Seq<SessionEntryV>, at: int)
    requires
        0 <= at < a.len(),
        at < b.len(),
        forall|k: int| 0 <= k <= at ==> a[k] == b[k],
    ensures
        path_from(a, at) == path_from(b, at),
    decreases at,
{
    match a[at].base.parent_id {
        None => {},
        Some(p) => {
            lemma_index_same_prefix(a, b, p, at);
            match index_of_id(a, p, at) {
                Some(j) => {
                    if 0 <= j < at {
                        lemma_path_same_prefix(a, b, j);
                    }
                },
                None => {},
            }
        },
    }
}

/// The path from a root down to the leaf; empty for a journal without
/// entries.
pub open spec fn tip_path(s: SessionV) -> Seq<Seq<char>> {
    match s.leaf_id {
        Some(id) => path_to(s.entries, id),
        None => Seq::empty(),
    }
}

/// An entry that is appended lengthens the path to the tip by its own id.
pub proof fn lemma_appended_path(s: SessionV, id: Seq<char>, timestamp: Seq<char>, kind: EntryKindV)
    requires
        s.wf(),
        !has_id(s.entries, id),
    ensures
        tip_path(s.appended(id, timestamp, kind)) == tip_path(s).push(id),
{
    let after = s.appended(id, timestamp, kind);
    let n = s.entries.len() as int;
    lemma_index_of_id(after.entries, id, n + 1);
    assert(after.entries[n].base.id == id);
    assert forall|k: int| 0 <= k < n implies (#[trigger] after.entries[k]).base.id != id by {
        assert(after.entries[k] == s.entries[k]);
    }
    assert(index_of_id(after.entries, id, n + 1) == Some(n));
    match s.leaf_id {
        None => {
            assert(path_from(after.entries, n) =~= seq![id]);
            assert(tip_path(after) =~= tip_path(s).push(id));
        },
        Some(p) => {
            lemma_index_same_prefix(s.entries, after.entries, p, n);
            lemma_index_of_id(s.entries, p, n);
            let j = index_of_id(s.entries, p, n)->Some_0;
            lemma_path_same_prefix(s.entries, after.entries, j);
            assert(tip_path(after) =~= tip_path(s).push(id));
        },
    }
}

/// An entry that is appended leaves every entry that was there, and the
/// path to it, as they were.
pub proof fn lemma_appended_keeps(
    s: SessionV,
    id: Seq<char>,
    timestamp: Seq<char>,
    kind: EntryKindV,
    other: Seq<char>,
)
    requires
        has_id(s.entries, other),
    ensures
        has_id(s.appended(id, timestamp, kind).entries, other),
        path_to(s.appended(id, timestamp, kind).entries, other) == path_to(s.entries, other),
{
    let after = s.appended(id, timestamp, kind);
    let n = s.entries.len() as int;
    lemma_index_of_id(s.entries, other, n);
    let i = index_of_id(s.entries, other, n)->Some_0;
    assert(after.entries[i] == s.entries[i]);
    lemma_index_same_prefix(s.entries, after.entries, other, n);
    assert(index_of_id(after.entries, other, n + 1) == Some(i));
    lemma_path_same_prefix(s.entries, after.entries, i);
}

/// The ids of the entries that `append_each` appends, in their order.
pub open spec fn appended_ids(before: SessionV, messages: Seq<MessageV>, stamps: Seq<Seq<char>>) -> Seq<
    Seq<char>,
>
    decreases messages.len(),
{
    if messages.len() == 0 || stamps.len() != messages.len() {
        Seq::empty()
    } else {
        appended_ids(before, messages.drop_last(), stamps.drop_last()).push(
            fresh_id_of(append_each(before, messages.drop_last(), stamps.drop_last()).entries),
        )
    }
}

/// Messages that are appended lengthen the path to the tip by their own
/// ids, in their order: the path to the new tip is the path to the old
/// one, then the new ids.
pub proof fn lemma_append_each_path(
    before: SessionV,
    messages: Seq<MessageV>,
    stamps: Seq<Seq<char>>,
)
    requires
        before.wf(),
        stamps.len() == messages.len(),
    ensures
        tip_path(append_each(before, messages, stamps)) == tip_path(before) + appended_ids(
            before,
            messages,
            stamps,
        ),
        appended_ids(before, messages, stamps).len() == messages.len(),
    decreases messages.len(),
{
    if messages.len() == 0 {
        assert(tip_path(before) + appended_ids(before, messages, stamps) =~= tip_path(before));
    } else {
        let m = messages.drop_last();
        let t = stamps.drop_last();
        lemma_append_each_path(before, m, t);
        lemma_append_each_wf(before, m, t);
        let so_far = append_each(before, m, t);
        let id = fresh_id_of(so_far.entries);
        let kind = EntryKindV::Message { message: journal_message(messages.last()) };
        lemma_fresh_id(so_far.entries);
        lemma_appended_path(so_far, id, stamps.last(), kind);
        assert((tip_path(before) + appended_ids(before, m, t)).push(id) =~= tip_path(before)
            + appended_ids(before, messages, stamps));
    }
}

/// Messages that are appended leave every entry that was there, and the
/// path to it, as they were.
pub proof fn lemma_append_each_keeps(
    before: SessionV,
    messages: Seq<MessageV>,
    stamps: Seq<Seq<char>>,
    other: Seq<char>,
)
    requires
        stamps.len() == messages.len(),
        has_id(before.entries, other),
    ensures
        has_id(append_each(before, messages, stamps).entries, other),
        path_to(append_each(before, messages, stamps).entries, other) == path_to(
            before.entries,
            other,
        ),
    decreases messages.len(),
{
    if messages.len() != 0 {
        let m = messages.drop_last();
        let t = stamps.drop_last();
        lemma_append_each_keeps(before, m, t, other);
        let so_far = append_each(before, m, t);
        lemma_appended_keeps(
            so_far,
            fresh_id_of(so_far.entries),
            stamps.last(),
            EntryKindV::Message { message: journal_message(messages.last()) },
            other,
        );
    }
}

/// After messages are appended, the tip is the last of them, and its id is
/// the id of no entry that was there before.
pub proof fn lemma_append_each_tip(before: SessionV, messages: Seq<MessageV>, stamps: Seq<Seq<char>>)
    requires
        before.wf(),
        stamps.len() == messages.len(),
        messages.len() > 0,
    ensures
        append_each(before, messages, stamps).leaf_id == Some(
            appended_ids(before, messages, stamps).last(),
        ),
        !has_id(before.entries, appended_ids(before, messages, stamps).last()),
{
    let m = messages.drop_last();
    let t = stamps.drop_last();
    let so_far = append_each(before, m, t);
    let id = fresh_id_of(so_far.entries);
    lemma_fresh_id(so_far.entries);
    if has_id(before.entries, id) {
        lemma_append_each_keeps(before, m, t, id);
    }
}

/// How messages that are appended change the leaves: the last of them is
/// a leaf, the old tip is none any more, every other leaf stays one, and
/// none of the others that were appended is one.
pub proof fn lemma_append_each_leaves(
    before: SessionV,
    messages: Seq<MessageV>,
    stamps: Seq<Seq<char>>,
    x: Seq<char>,
)
    requires
        before.wf(),
        stamps.len() == messages.len(),
        messages.len() > 0,
    ensures
        leaves_of(append_each(before, messages, stamps).entries).contains(x) <==> (x
            == appended_ids(before, messages, stamps).last() || (leaves_of(before.entries).contains(
            x,
        ) && before.leaf_id != Some(x))),
    decreases messages.len(),
{
    let m = messages.drop_last();
    let t = stamps.drop_last();
    let so_far = append_each(before, m, t);
    let id = fresh_id_of(so_far.entries);
    let kind = EntryKindV::Message { message: journal_message(messages.last()) };
    lemma_append_each_wf(before, m, t);
    lemma_fresh_id(so_far.entries);
    lemma_appended_leaves(so_far, id, stamps.last(), kind, x);
    if m.len() > 0 {
        lemma_append_each_leaves(before, m, t, x);
        lemma_append_each_tip(before, m, t);
        if leaves_of(before.entries).contains(x) {
            lemma_leaves(before.entries, x);
            assert(has_id(before.entries, x));
        }
    }
}

/// How messages that are appended change the branch points: the old tip
/// becomes one if it had a child already, every branch point stays one,
/// and none of the entries that were appended is one.
pub proof fn lemma_append_each_branch_points(
    before: SessionV,
    messages: Seq<MessageV>,
    stamps: Seq<Seq<char>>,
    x: Seq<char>,
)
    requires
        before.wf(),
        stamps.len() == messages.len(),
        messages.len() > 0,
    ensures
        branch_points_of(append_each(before, messages, stamps).entries).contains(x) <==> (
        branch_points_of(before.entries).contains(x) || (before.leaf_id == Some(x) && has_child(
            before.entries,
            x,
        ))),
    decreases messages.len(),
{
    let m = messages.drop_last();
    let t = stamps.drop_last();
    let so_far = append_each(before, m, t);
    let id = fresh_id_of(so_far.entries);
    let kind = EntryKindV::Message { message: journal_message(messages.last()) };
    lemma_append_each_wf(before, m, t);
    lemma_fresh_id(so_far.entries);
    lemma_appended_branch_points(so_far, id, stamps.last(), kind, x);
    if m.len() > 0 {
        lemma_append_each_branch_points(before, m, t, x);
        lemma_append_each_tip(before, m, t);
        let tip = appended_ids(before, m, t).last();
        lemma_append_each_leaves(before, m, t, tip);
        lemma_leaves(so_far.entries, tip);
        if so_far.leaf_id == Some(x) && has_child(so_far.entries, x) {
            let j = choose|j: int|
                0 <= j < so_far.entries.len() && (#[trigger] so_far.entries[j]).base.parent_id
                    == Some(x);
            let i = choose|i: int|
                0 <= i < so_far.entries.len() && (#[trigger] so_far.entries[i]).base.id == tip
                    && forall|k: int|
                    0 <= k < so_far.entries.len() && k != i ==> (
                    #[trigger] so_far.entries[k]).base.parent_id != Some(tip);
            if j == i {
                lemma_index_of_id(so_far.entries, tip, j);
                let p = index_of_id(so_far.entries, tip, j)->Some_0;
                assert(so_far.entries[p].base.id == tip && p < i);
            }
        }
    }
}

/// What is appended to a journal is read back from it: the conversation
/// of the active branch after the messages are appended is the
/// conversation before, then the messages.
pub proof fn lemma_appended_conversation(
    before: SessionV,
    messages: Seq<MessageV>,
    stamps: Seq<Seq<char>>,
)
    requires
        before.wf(),
        stamps.len() == messages.len(),
    ensures
        conversation_of(append_each(before, messages, stamps)) == conversation_of(before)
            + messages,
    decreases messages.len(),
{
    if messages.len() == 0 {
        assert(conversation_of(before) + messages =~= conversation_of(before));
    } else {
        lemma_appended_conversation(before, messages.drop_last(), stamps.drop_last());
        lemma_append_each_wf(before, messages.drop_last(), stamps.drop_last());
        let so_far = append_each(before, messages.drop_last(), stamps.drop_last());
        lemma_fresh_id(so_far.entries);
        lemma_appended_message(so_far, fresh_id_of(so_far.entries), stamps.last(), messages.last());
        assert((conversation_of(before) + messages.drop_last()).push(messages.last())
            =~= conversation_of(before) + messages);
    }
}

/// The name of a session: the one that its last entry of session
/// information gives, which may take the name away.
pub open spec fn name_of(entries: Seq<SessionEntryV>) -> Option<Seq<char>>
    decreases entries.len(),
{
    if entries.len() == 0 {
        None
    } else {
        match entries.last().kind {
            EntryKindV::SessionInfo { name } => name,
            _ => name_of(entries.drop_last()),
        }
    }
}

impl Session {
    /// The name of the session, if it has one.
    pub fn name(&self) -> (r: Option<&str>)
        ensures
            match r {
                Some(n) => name_of(self@.entries) == Some(n@),
                None => name_of(self@.entries).is_none(),
            },
    {
        let ghost all = self@.entries;
        let mut i: usize = self.entries.len();
        assert(all.take(i as int) =~= all);
        while i > 0
            invariant
                i <= self.entries.len(),
                all == self@.entries,
                all.len() == self.entries@.len(),
                name_of(all) == name_of(all.take(i as int)),
            decreases i,
        {
            proof {
                assert(all.take(i as int).drop_last() =~= all.take(i - 1));
                assert(all.take(i as int).last() == self.entries@[i - 1]@);
            }
            match &self.entries[i - 1].kind {
                EntryKind::SessionInfo { name } => {
                    return match name {
                        Some(n) => Some(n.as_str()),
                        None => None,
                    };
                },
                _ => {},
            }
            i -= 1;
        }
        None
    }

    /// The conversation of the active branch: what a turn goes on from
    /// when the session is opened again.
    pub fn to_messages(&self) -> (r: Vec<Message>)
        ensures
            messages_view(r@) == conversation_of(self@),
    {
        let mut out: Vec<Message> = Vec::new();
        let ghost all = self@.entries;
        let ghost whole = conversation_of(self@);
        let leaf = match &self.leaf_id {
            Some(id) => self.position_of(id.as_str(), self.entries.len()),
            None => None,
        };
        let mut at: usize = match leaf {
            Some(i) => i,
            None => {
                assert(messages_view(out@) =~= whole);
                return out;
            },
        };
        proof {
            lemma_index_of_id(all, self@.leaf_id->Some_0, all.len() as int);
        }
        assert(whole =~= branch_from(all, at as int) + messages_view(out@));
        loop
            invariant_except_break
                whole == branch_from(all, at as int) + messages_view(out@),
            invariant
                all == self@.entries,
                at < self.entries@.len(),
            ensures
                messages_view(out@) == whole,
            decreases at,
        {
            let ghost below = messages_view(out@);
            match &self.entries[at].kind {
                EntryKind::Message { message } => match message.to_message() {
                    Some(m) => {
                        out.insert(0, m);
                    },
                    None => {},
                },
                _ => {},
            }
            assert(messages_view(out@) =~= own_messages(all[at as int]) + below);
            let parent: Option<usize> = match &self.entries[at].base.parent_id {
                Some(p) => self.position_of(p.as_str(), at),
                None => None,
            };
            match parent {
                Some(j) => {
                    proof {
                        lemma_index_of_id(all, all[at as int].base.parent_id->Some_0, at as int);
                        assert(branch_from(all, at as int) =~= branch_from(all, j as int)
                            + own_messages(all[at as int]));
                        assert(whole =~= branch_from(all, j as int) + messages_view(out@));
                    }
                    at = j;
                },
                None => {
                    proof {
                        assert(branch_from(all, at as int) =~= own_messages(all[at as int]));
                        assert(whole =~= messages_view(out@));
                    }
                    break ;
                },
            }
        }
        out
    }

    /// Appends the messages in turn, each under the one before it, at the
    /// present time.
    pub fn append_model_messages(&mut self, messages: Vec<Message>)
        ensures
            exists|stamps: Seq<Seq<char>>|
                stamps.len() == messages@.len() && final(self)@ == #[trigger] append_each(
                    old(self)@,
                    crate::model::messages_view(messages@),
                    stamps,
                ),
            old(self)@.wf() ==> final(self)@.wf(),
            final(self).path == old(self).path,
    {
        let ghost all = crate::model::messages_view(messages@);
        let ghost stamps: Seq<Seq<char>> = Seq::empty();
        let mut done: usize = 0;
        proof {
            assert(all.take(0) =~= Seq::<MessageV>::empty());
        }
        while done < messages.len()
            invariant
                done <= messages.len(),
                all == crate::model::messages_view(messages@),
                stamps.len() == done,
                self@ == append_each(old(self)@, all.take(done as int), stamps),
                self.path == old(self).path,
            decreases messages.len() - done,
        {
            let message = messages[done].clone();
            let timestamp = Session::timestamp_now();
            proof {
                assert(all.take(done + 1).drop_last() =~= all.take(done as int));
                assert(all.take(done + 1).last() == message@);
                assert(stamps.push(timestamp@).drop_last() =~= stamps);
                stamps = stamps.push(timestamp@);
            }
            self.push_entry(
                EntryKind::Message { message: SessionMessage::from_message(message) },
                timestamp,
            );
            done += 1;
        }
        proof {
            assert(all.take(done as int) =~= all);
            if old(self)@.wf() {
                lemma_append_each_wf(old(self)@, all, stamps);
            }
        }
    }
}

} // verus!
