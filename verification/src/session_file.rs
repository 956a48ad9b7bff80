//! The session file: one JSON document to a line, the header first, then
//! the entries. This module turns a session into its documents and back.
//!
//! Every document is written with all of its members, `null` standing for
//! what is absent. On reading, a member that is missing counts as `null`.
//! Members of a header or of an entry that this version of the format does
//! not know are kept with it and written back after the known ones.

use crate::error::{Error, ErrorV, IoFailure, IoFailureV, IoKind};
use crate::json::{
    array_value, first_member, lemma_array_value, lemma_object_value, object_value, parsed_json,
    Json, JsonNumber, JsonV, NumberV,
};
use crate::session::{fresh_id_of, Session, SessionV};
use crate::text::{lines_of, push_char, split_lines, str_eq, string_of, trim_chars, trimmed};
use crate::model::{
    blocks_view, opt_json, opt_text, AssistantMessage, AssistantMessageV, ContentBlock,
    ContentBlockV, ImageContent, ImageContentV, StopReason, TextContent, TextContentV,
    ThinkingContent, ThinkingContentV, ToolCall, ToolCallV, Usage, UserContent, UserContentV,
};
use crate::session::{
    EntryBase, EntryBaseV, EntryKind, EntryKindV, SessionEntry, SessionEntryV, SessionHeader,
    SessionHeaderV, SessionMessage, SessionMessageV, SESSION_VERSION,
};
use vstd::prelude::*;

verus! {

/// A member of a JSON object: its key and its value.
pub type Member = (Seq<char>, JsonV);

/// The member at `at` is what a lookup of its key finds, where no member
/// before it has that key.
pub proof fn lemma_member_at(members: Seq<Member>, key: Seq<char>, at: int)
    requires
        0 <= at < members.len(),
        members[at].0 == key,
        forall|j: int| 0 <= j < at ==> (#[trigger] members[j]).0 != key,
    ensures
        first_member(members, key) == Some(members[at].1),
    decreases at,
{
    if at > 0 {
        assert(members[0].0 != key);
        assert forall|j: int| 0 <= j < at - 1 implies (#[trigger] members.drop_first()[j]).0
            != key by {
            assert(members.drop_first()[j] == members[j + 1]);
        }
        lemma_member_at(members.drop_first(), key, at - 1);
    }
}

/// A key that no member has is not found.
pub proof fn lemma_member_missing(members: Seq<Member>, key: Seq<char>)
    requires
        forall|j: int| 0 <= j < members.len() ==> (#[trigger] members[j]).0 != key,
    ensures
        first_member(members, key).is_none(),
    decreases members.len(),
{
    if members.len() > 0 {
        assert(members[0].0 != key);
        assert forall|j: int| 0 <= j < members.drop_first().len() implies (
        #[trigger] members.drop_first()[j]).0 != key by {
            assert(members.drop_first()[j] == members[j + 1]);
        }
        lemma_member_missing(members.drop_first(), key);
    }
}

/// The document of a text.
pub open spec fn text_doc(s: Seq<char>) -> JsonV {
    JsonV::Text(s)
}

/// The document of an optional text: `null` for none.
pub open spec fn opt_text_doc(o: Option<Seq<char>>) -> JsonV {
    match o {
        Some(s) => JsonV::Text(s),
        None => JsonV::Null,
    }
}

/// The document of an optional document: `null` for none.
pub open spec fn opt_doc(o: Option<JsonV>) -> JsonV {
    match o {
        Some(d) => d,
        None => JsonV::Null,
    }
}

/// The document of a count.
pub open spec fn unsigned_doc(n: u64) -> JsonV {
    JsonV::Number(NumberV::Unsigned(n))
}

/// The document of an integer.
pub open spec fn signed_doc(i: i64) -> JsonV {
    if i >= 0 {
        JsonV::Number(NumberV::Unsigned(i as u64))
    } else {
        JsonV::Number(NumberV::Negative(i))
    }
}

/// The document of an optional integer: `null` for none.
pub open spec fn opt_signed_doc(o: Option<i64>) -> JsonV {
    match o {
        Some(i) => signed_doc(i),
        None => JsonV::Null,
    }
}

/// The document of an optional truth value: `null` for none.
pub open spec fn opt_bool_doc(o: Option<bool>) -> JsonV {
    match o {
        Some(b) => JsonV::Bool(b),
        None => JsonV::Null,
    }
}

/// The value under `key`; `null` where the document is no object or has no
/// such member.
pub open spec fn at(doc: JsonV, key: Seq<char>) -> JsonV {
    match doc.member(key) {
        Some(v) => v,
        None => JsonV::Null,
    }
}

/// The text that a document is.
pub open spec fn as_text(doc: JsonV) -> Option<Seq<char>> {
    doc.text()
}

/// The optional text that a document is: none for `null`, and no reading at
/// all for anything but a string.
pub open spec fn as_opt_text(doc: JsonV) -> Option<Option<Seq<char>>> {
    match doc {
        JsonV::Null => Some(None),
        JsonV::Text(s) => Some(Some(s)),
        _ => None,
    }
}

/// The optional document that a document is: none for `null`.
pub open spec fn as_opt_doc(doc: JsonV) -> Option<JsonV> {
    match doc {
        JsonV::Null => None,
        _ => Some(doc),
    }
}

/// The count that a document is.
pub open spec fn as_unsigned(doc: JsonV) -> Option<u64> {
    doc.unsigned()
}

/// The integer that a document is.
pub open spec fn as_signed(doc: JsonV) -> Option<i64> {
    match doc {
        JsonV::Number(NumberV::Unsigned(u)) => if u <= i64::MAX as u64 {
            Some(u as i64)
        } else {
            None
        },
        JsonV::Number(NumberV::Negative(i)) => Some(i),
        _ => None,
    }
}

/// The optional integer that a document is.
pub open spec fn as_opt_signed(doc: JsonV) -> Option<Option<i64>> {
    match doc {
        JsonV::Null => Some(None),
        _ => match as_signed(doc) {
            Some(i) => Some(Some(i)),
            None => None,
        },
    }
}

/// The truth value that a document is.
pub open spec fn as_bool(doc: JsonV) -> Option<bool> {
    match doc {
        JsonV::Bool(b) => Some(b),
        _ => None,
    }
}

/// The optional truth value that a document is.
pub open spec fn as_opt_bool(doc: JsonV) -> Option<Option<bool>> {
    match doc {
        JsonV::Null => Some(None),
        JsonV::Bool(b) => Some(Some(b)),
        _ => None,
    }
}

/// The value under `key`, or `null`.
fn member_or_null<'a>(doc: &'a Json, key: &str, null: &'a Json) -> (r: &'a Json)
    requires
        null@ == JsonV::Null,
    ensures
        r@ == at(doc@, key@),
{
    match doc.get(key) {
        Some(v) => v,
        None => null,
    }
}

/// The text under `key`.
pub fn read_text(doc: &Json, key: &str) -> (r: Option<String>)
    ensures
        opt_text(r) == as_text(at(doc@, key@)),
{
    match doc.get(key) {
        Some(v) => match v.as_str() {
            Some(s) => Some(String::from_str(s)),
            None => None,
        },
        None => None,
    }
}

/// The optional text under `key`.
pub fn read_opt_text(doc: &Json, key: &str) -> (r: Option<Option<String>>)
    ensures
        match r {
            Some(o) => as_opt_text(at(doc@, key@)) == Some(opt_text(o)),
            None => as_opt_text(at(doc@, key@)).is_none(),
        },
{
    match doc.get(key) {
        Some(Json::Null) => Some(None),
        Some(Json::Text(s)) => Some(Some(s.clone())),
        Some(_) => None,
        None => Some(None),
    }
}

/// The optional document under `key`.
pub fn read_opt_doc(doc: &Json, key: &str) -> (r: Option<Json>)
    ensures
        opt_json(r) == as_opt_doc(at(doc@, key@)),
{
    match doc.get(key) {
        Some(Json::Null) => None,
        Some(v) => Some(v.clone()),
        None => None,
    }
}

/// The count under `key`.
pub fn read_unsigned(doc: &Json, key: &str) -> (r: Option<u64>)
    ensures
        r == as_unsigned(at(doc@, key@)),
{
    match doc.get(key) {
        Some(v) => v.as_u64(),
        None => None,
    }
}

/// The integer that a document is.
pub fn signed_of(doc: &Json) -> (r: Option<i64>)
    ensures
        r == as_signed(doc@),
{
    match doc {
        Json::Number(JsonNumber::Unsigned(u)) => if *u <= 9223372036854775807u64 {
            Some(*u as i64)
        } else {
            None
        },
        Json::Number(JsonNumber::Negative(i)) => Some(*i),
        _ => None,
    }
}

/// The integer under `key`.
pub fn read_signed(doc: &Json, key: &str) -> (r: Option<i64>)
    ensures
        r == as_signed(at(doc@, key@)),
{
    match doc.get(key) {
        Some(v) => signed_of(v),
        None => None,
    }
}

/// The optional integer under `key`.
pub fn read_opt_signed(doc: &Json, key: &str) -> (r: Option<Option<i64>>)
    ensures
        r == as_opt_signed(at(doc@, key@)),
{
    match doc.get(key) {
        Some(Json::Null) => Some(None),
        Some(v) => match signed_of(v) {
            Some(i) => Some(Some(i)),
            None => None,
        },
        None => Some(None),
    }
}

/// The truth value under `key`.
pub fn read_bool(doc: &Json, key: &str) -> (r: Option<bool>)
    ensures
        r == as_bool(at(doc@, key@)),
{
    match doc.get(key) {
        Some(Json::Bool(b)) => Some(*b),
        _ => None,
    }
}

/// The optional truth value under `key`.
pub fn read_opt_bool(doc: &Json, key: &str) -> (r: Option<Option<bool>>)
    ensures
        r == as_opt_bool(at(doc@, key@)),
{
    match doc.get(key) {
        Some(Json::Null) => Some(None),
        Some(Json::Bool(b)) => Some(Some(*b)),
        Some(_) => None,
        None => Some(None),
    }
}

/// The document of a text.
pub fn text(s: &str) -> (r: Json)
    ensures
        r@ == text_doc(s@),
{
    Json::Text(String::from_str(s))
}

/// The document of an optional text.
pub fn opt_text_json(o: &Option<String>) -> (r: Json)
    ensures
        r@ == opt_text_doc(opt_text(*o)),
{
    match o {
        Some(s) => Json::Text(s.clone()),
        None => Json::Null,
    }
}

/// The document of an optional document.
pub fn opt_json_doc(o: &Option<Json>) -> (r: Json)
    ensures
        r@ == opt_doc(opt_json(*o)),
{
    match o {
        Some(d) => d.clone(),
        None => Json::Null,
    }
}

/// The document of a count.
pub fn unsigned(n: u64) -> (r: Json)
    ensures
        r@ == unsigned_doc(n),
{
    Json::Number(JsonNumber::Unsigned(n))
}

/// The document of an integer.
pub fn signed(i: i64) -> (r: Json)
    ensures
        r@ == signed_doc(i),
{
    if i >= 0 {
        Json::Number(JsonNumber::Unsigned(i as u64))
    } else {
        Json::Number(JsonNumber::Negative(i))
    }
}

/// The document of an optional integer.
pub fn opt_signed(o: Option<i64>) -> (r: Json)
    ensures
        r@ == opt_signed_doc(o),
{
    match o {
        Some(i) => signed(i),
        None => Json::Null,
    }
}

/// The document of an optional truth value.
pub fn opt_bool(o: Option<bool>) -> (r: Json)
    ensures
        r@ == opt_bool_doc(o),
{
    match o {
        Some(b) => Json::Bool(b),
        None => Json::Null,
    }
}

/// An object with the given members.
pub fn object(members: Vec<(String, Json)>) -> (r: Json)
    ensures
        r@ == JsonV::Object(crate::json::object_value(members@)),
{
    Json::Object(members)
}

/// A member of an object.
pub fn member(key: &str, value: Json) -> (r: (String, Json))
    ensures
        r.0@ == key@,
        r.1@ == value@,
{
    (String::from_str(key), value)
}

/// The members of a header's document that this version of the format
/// knows.
pub open spec fn known_header_members(h: SessionHeaderV) -> Seq<Member> {
    seq![
        ("type"@, text_doc("session"@)),
        ("version"@, unsigned_doc(h.version)),
        ("id"@, text_doc(h.id)),
        ("timestamp"@, text_doc(h.timestamp)),
        ("cwd"@, text_doc(h.cwd)),
        ("provider"@, opt_text_doc(h.provider)),
        ("modelId"@, opt_text_doc(h.model_id)),
        ("thinkingLevel"@, opt_text_doc(h.thinking_level)),
        ("branchedFrom"@, opt_text_doc(h.parent_session)),
    ]
}

/// The document of a header: the first line of a session file. The
/// members that the format knows come first, then the unknown members that
/// the header carries.
pub open spec fn header_doc(h: SessionHeaderV) -> JsonV {
    JsonV::Object(known_header_members(h) + h.extra)
}

/// Whether a key is one that the format gives a meaning in the document of
/// a header.
pub open spec fn is_header_key(key: Seq<char>) -> bool {
    key == "type"@ || key == "version"@ || key == "id"@ || key == "timestamp"@ || key == "cwd"@
        || key == "provider"@ || key == "modelId"@ || key == "thinkingLevel"@ || key
        == "branchedFrom"@ || key == "parentSession"@
}

/// The members of a header's document whose keys the format gives no
/// meaning, in their order.
pub open spec fn unknown_header_members(members: Seq<Member>) -> Seq<Member>
    decreases members.len(),
{
    if members.len() == 0 {
        Seq::empty()
    } else if is_header_key(members.last().0) {
        unknown_header_members(members.drop_last())
    } else {
        unknown_header_members(members.drop_last()).push(members.last())
    }
}

/// Whether a file keeps a header as it is: the format gives no meaning to
/// the key of any of the unknown members that the header carries.
pub open spec fn header_kept(h: SessionHeaderV) -> bool {
    forall|i: int| 0 <= i < h.extra.len() ==> !is_header_key(#[trigger] h.extra[i].0)
}

/// Unknown members that follow the members of a header that the format
/// knows are all the unknown members of the document.
pub proof fn lemma_unknown_header_members(first: Seq<Member>, extra: Seq<Member>)
    requires
        forall|i: int| 0 <= i < first.len() ==> is_header_key(#[trigger] first[i].0),
        forall|i: int| 0 <= i < extra.len() ==> !is_header_key(#[trigger] extra[i].0),
    ensures
        unknown_header_members(first + extra) == extra,
    decreases first.len() + extra.len(),
{
    let all = first + extra;
    if extra.len() > 0 {
        assert(all.drop_last() =~= first + extra.drop_last());
        assert(all.last() == extra.last());
        assert(!is_header_key(extra[extra.len() - 1].0));
        assert forall|i: int| 0 <= i < extra.drop_last().len() implies !is_header_key(
            #[trigger] extra.drop_last()[i].0,
        ) by {
            assert(extra.drop_last()[i] == extra[i]);
        }
        lemma_unknown_header_members(first, extra.drop_last());
        assert(extra.drop_last().push(extra.last()) =~= extra);
    } else if first.len() > 0 {
        assert(all =~= first);
        assert(is_header_key(first[first.len() - 1].0));
        assert forall|i: int| 0 <= i < first.drop_last().len() implies is_header_key(
            #[trigger] first.drop_last()[i].0,
        ) by {
            assert(first.drop_last()[i] == first[i]);
        }
        lemma_unknown_header_members(first.drop_last(), extra);
        assert(first.drop_last() + extra =~= first.drop_last());
        assert(unknown_header_members(first) =~= extra);
    } else {
        assert(all =~= Seq::<Member>::empty());
        assert(extra =~= Seq::<Member>::empty());
    }
}

/// The header that a document is. Its `type` must be `session`; `id`,
/// `timestamp` and `cwd` must be strings; the version is 3 where none is
/// given. The source session is read from `branchedFrom`, or from
/// `parentSession` where that is absent.
pub open spec fn read_header_doc(doc: JsonV) -> Option<SessionHeaderV> {
    if as_text(at(doc, "type"@)) != Some("session"@) {
        None
    } else {
        let version = match as_unsigned(at(doc, "version"@)) {
            Some(v) => v,
            None => SESSION_VERSION,
        };
        let branched = if at(doc, "branchedFrom"@) is Null {
            as_opt_text(at(doc, "parentSession"@))
        } else {
            as_opt_text(at(doc, "branchedFrom"@))
        };
        match (
            as_text(at(doc, "id"@)),
            as_text(at(doc, "timestamp"@)),
            as_text(at(doc, "cwd"@)),
            as_opt_text(at(doc, "provider"@)),
            as_opt_text(at(doc, "modelId"@)),
            as_opt_text(at(doc, "thinkingLevel"@)),
            branched,
        ) {
            (
                Some(id),
                Some(timestamp),
                Some(cwd),
                Some(provider),
                Some(model_id),
                Some(thinking_level),
                Some(parent_session),
            ) => Some(
                SessionHeaderV {
                    version,
                    id,
                    timestamp,
                    cwd,
                    provider,
                    model_id,
                    thinking_level,
                    parent_session,
                    extra: unknown_header_members(doc_members(doc)),
                },
            ),
            _ => None,
        }
    }
}

/// A header that is written and read back is the same header.
pub proof fn lemma_header_round_trip(h: SessionHeaderV)
    requires
        header_kept(h),
    ensures
        read_header_doc(header_doc(h)) == Some(h),
{
    let members = header_doc(h)->Object_0;
    let known = known_header_members(h);
    assert forall|i: int| 0 <= i < known.len() implies is_header_key(#[trigger] known[i].0) by {}
    lemma_unknown_header_members(known, h.extra);
    reveal_strlit("type");
    reveal_strlit("version");
    reveal_strlit("id");
    reveal_strlit("timestamp");
    reveal_strlit("cwd");
    reveal_strlit("provider");
    reveal_strlit("modelId");
    reveal_strlit("thinkingLevel");
    reveal_strlit("branchedFrom");
    reveal_strlit("parentSession");
    assert("type"@.len() == 4);
    assert("version"@.len() == 7);
    assert("id"@.len() == 2);
    assert("timestamp"@.len() == 9);
    assert("cwd"@.len() == 3);
    assert("provider"@.len() == 8);
    assert("modelId"@.len() == 7);
    assert("thinkingLevel"@.len() == 13);
    assert("branchedFrom"@.len() == 12);
    assert("parentSession"@.len() == 13);
    assert("version"@[0] == 'v');
    assert("modelId"@[0] == 'm');
    assert("thinkingLevel"@[0] == 't');
    assert("parentSession"@[0] == 'p');
    lemma_member_at(members, "type"@, 0);
    lemma_member_at(members, "version"@, 1);
    lemma_member_at(members, "id"@, 2);
    lemma_member_at(members, "timestamp"@, 3);
    lemma_member_at(members, "cwd"@, 4);
    lemma_member_at(members, "provider"@, 5);
    lemma_member_at(members, "modelId"@, 6);
    lemma_member_at(members, "thinkingLevel"@, 7);
    lemma_member_at(members, "branchedFrom"@, 8);
    assert forall|j: int| 0 <= j < members.len() implies (#[trigger] members[j]).0
        != "parentSession"@ by {
        if j >= 9 {
            assert(members[j] == h.extra[j - 9]);
            assert(!is_header_key(h.extra[j - 9].0));
        }
    }
    lemma_member_missing(members, "parentSession"@);
}

/// The document of a reason to stop.
pub open spec fn stop_reason_doc(r: StopReason) -> JsonV {
    JsonV::Text(
        match r {
            StopReason::Stop => "stop"@,
            StopReason::Length => "length"@,
            StopReason::ToolUse => "toolUse"@,
            StopReason::Error => "error"@,
            StopReason::Aborted => "aborted"@,
        },
    )
}

/// The reason to stop that a document is.
pub open spec fn as_stop_reason(doc: JsonV) -> Option<StopReason> {
    match doc {
        JsonV::Text(s) => if s == "stop"@ {
            Some(StopReason::Stop)
        } else if s == "length"@ {
            Some(StopReason::Length)
        } else if s == "toolUse"@ {
            Some(StopReason::ToolUse)
        } else if s == "error"@ {
            Some(StopReason::Error)
        } else if s == "aborted"@ {
            Some(StopReason::Aborted)
        } else {
            None
        },
        _ => None,
    }
}

/// A reason to stop that is written and read back is the same.
pub proof fn lemma_stop_reason_round_trip(r: StopReason)
    ensures
        as_stop_reason(stop_reason_doc(r)) == Some(r),
{
    reveal_strlit("stop");
    reveal_strlit("length");
    reveal_strlit("toolUse");
    reveal_strlit("error");
    reveal_strlit("aborted");
    assert("stop"@.len() == 4);
    assert("length"@.len() == 6);
    assert("toolUse"@.len() == 7);
    assert("error"@.len() == 5);
    assert("aborted"@.len() == 7);
    assert("toolUse"@[0] == 't');
    assert("aborted"@[0] == 'a');
}

/// The document of a usage.
pub open spec fn usage_doc(u: Usage) -> JsonV {
    JsonV::Object(
        seq![
            ("input"@, unsigned_doc(u.input)),
            ("output"@, unsigned_doc(u.output)),
            ("cacheRead"@, unsigned_doc(u.cache_read)),
            ("cacheWrite"@, unsigned_doc(u.cache_write)),
            ("totalTokens"@, unsigned_doc(u.total_tokens)),
        ],
    )
}

/// The usage that a document is: a counter that is missing counts as zero.
pub open spec fn read_usage_doc(doc: JsonV) -> Option<Usage> {
    Some(
        Usage {
            input: counter(at(doc, "input"@)),
            output: counter(at(doc, "output"@)),
            cache_read: counter(at(doc, "cacheRead"@)),
            cache_write: counter(at(doc, "cacheWrite"@)),
            total_tokens: counter(at(doc, "totalTokens"@)),
        },
    )
}

/// The counter that a document is, or zero.
pub open spec fn counter(doc: JsonV) -> u64 {
    match as_unsigned(doc) {
        Some(n) => n,
        None => 0,
    }
}

/// A usage that is written and read back is the same.
pub proof fn lemma_usage_round_trip(u: Usage)
    ensures
        read_usage_doc(usage_doc(u)) == Some(u),
{
    let members = usage_doc(u)->Object_0;
    reveal_strlit("input");
    reveal_strlit("output");
    reveal_strlit("cacheRead");
    reveal_strlit("cacheWrite");
    reveal_strlit("totalTokens");
    assert("input"@.len() == 5);
    assert("output"@.len() == 6);
    assert("cacheRead"@.len() == 9);
    assert("cacheWrite"@.len() == 10);
    assert("totalTokens"@.len() == 11);
    lemma_member_at(members, "input"@, 0);
    lemma_member_at(members, "output"@, 1);
    lemma_member_at(members, "cacheRead"@, 2);
    lemma_member_at(members, "cacheWrite"@, 3);
    lemma_member_at(members, "totalTokens"@, 4);

}

/// The document of a content block.
pub open spec fn block_doc(b: ContentBlockV) -> JsonV {
    match b {
        ContentBlockV::Text(t) => JsonV::Object(
            seq![
                ("type"@, text_doc("text"@)),
                ("text"@, text_doc(t.text)),
                ("textSignature"@, opt_text_doc(t.text_signature)),
            ],
        ),
        ContentBlockV::Thinking(t) => JsonV::Object(
            seq![
                ("type"@, text_doc("thinking"@)),
                ("thinking"@, text_doc(t.thinking)),
                ("thinkingSignature"@, opt_text_doc(t.thinking_signature)),
            ],
        ),
        ContentBlockV::Image(i) => JsonV::Object(
            seq![
                ("type"@, text_doc("image"@)),
                ("data"@, text_doc(i.data)),
                ("mimeType"@, text_doc(i.mime_type)),
            ],
        ),
        ContentBlockV::ToolCall(c) => JsonV::Object(
            seq![
                ("type"@, text_doc("toolCall"@)),
                ("id"@, text_doc(c.id)),
                ("name"@, text_doc(c.name)),
                ("arguments"@, c.arguments),
                ("thoughtSignature"@, opt_text_doc(c.thought_signature)),
            ],
        ),
    }
}

/// The content block that a document is, by its `type`.
pub open spec fn read_block_doc(doc: JsonV) -> Option<ContentBlockV> {
    let kind = as_text(at(doc, "type"@));
    if kind == Some("text"@) {
        match (as_text(at(doc, "text"@)), as_opt_text(at(doc, "textSignature"@))) {
            (Some(text), Some(text_signature)) => Some(
                ContentBlockV::Text(TextContentV { text, text_signature }),
            ),
            _ => None,
        }
    } else if kind == Some("thinking"@) {
        match (as_text(at(doc, "thinking"@)), as_opt_text(at(doc, "thinkingSignature"@))) {
            (Some(thinking), Some(thinking_signature)) => Some(
                ContentBlockV::Thinking(ThinkingContentV { thinking, thinking_signature }),
            ),
            _ => None,
        }
    } else if kind == Some("image"@) {
        match (as_text(at(doc, "data"@)), as_text(at(doc, "mimeType"@))) {
            (Some(data), Some(mime_type)) => Some(
                ContentBlockV::Image(ImageContentV { data, mime_type }),
            ),
            _ => None,
        }
    } else if kind == Some("toolCall"@) {
        match (
            as_text(at(doc, "id"@)),
            as_text(at(doc, "name"@)),
            as_opt_text(at(doc, "thoughtSignature"@)),
        ) {
            (Some(id), Some(name), Some(thought_signature)) => Some(
                ContentBlockV::ToolCall(
                    ToolCallV { id, name, arguments: at(doc, "arguments"@), thought_signature },
                ),
            ),
            _ => None,
        }
    } else {
        None
    }
}

/// A content block that is written and read back is the same.
pub proof fn lemma_block_round_trip(b: ContentBlockV)
    ensures
        read_block_doc(block_doc(b)) == Some(b),
{
    let members = block_doc(b)->Object_0;
    reveal_strlit("type");
    reveal_strlit("text");
    reveal_strlit("thinking");
    reveal_strlit("image");
    reveal_strlit("toolCall");
    reveal_strlit("textSignature");
    reveal_strlit("thinkingSignature");
    reveal_strlit("data");
    reveal_strlit("mimeType");
    reveal_strlit("id");
    reveal_strlit("name");
    reveal_strlit("arguments");
    reveal_strlit("thoughtSignature");
    assert("type"@.len() == 4);
    assert("text"@.len() == 4);
    assert("thinking"@.len() == 8);
    assert("image"@.len() == 5);
    assert("toolCall"@.len() == 8);
    assert("textSignature"@.len() == 13);
    assert("thinkingSignature"@.len() == 17);
    assert("data"@.len() == 4);
    assert("mimeType"@.len() == 8);
    assert("id"@.len() == 2);
    assert("name"@.len() == 4);
    assert("arguments"@.len() == 9);
    assert("thoughtSignature"@.len() == 16);
    assert("type"@[1] == 'y');
    assert("text"@[1] == 'e');
    assert("type"@[0] == 't');
    assert("data"@[0] == 'd');
    assert("name"@[0] == 'n');
    assert("text"@[0] == 't');
    assert("thinking"@[1] == 'h');
    assert("toolCall"@[1] == 'o');
    assert("thinking"@[0] == 't');
    assert("mimeType"@[0] == 'm');
    assert("toolCall"@[0] == 't');
    lemma_member_at(members, "type"@, 0);
    match b {
        ContentBlockV::Text(t) => {
            lemma_member_at(members, "text"@, 1);
            lemma_member_at(members, "textSignature"@, 2);
        },
        ContentBlockV::Thinking(t) => {
            lemma_member_at(members, "thinking"@, 1);
            lemma_member_at(members, "thinkingSignature"@, 2);
        },
        ContentBlockV::Image(i) => {
            lemma_member_at(members, "data"@, 1);
            lemma_member_at(members, "mimeType"@, 2);
        },
        ContentBlockV::ToolCall(c) => {
            lemma_member_at(members, "id"@, 1);
            lemma_member_at(members, "name"@, 2);
            lemma_member_at(members, "arguments"@, 3);
            lemma_member_at(members, "thoughtSignature"@, 4);
        },
    }
}

/// The documents of blocks, in order.
pub open spec fn block_docs(blocks: Seq<ContentBlockV>) -> Seq<JsonV> {
    blocks.map_values(|b: ContentBlockV| block_doc(b))
}

/// The blocks that documents are; none at all where one of them is no
/// block.
pub open spec fn read_block_docs(docs: Seq<JsonV>) -> Option<Seq<ContentBlockV>>
    decreases docs.len(),
{
    if docs.len() == 0 {
        Some(Seq::empty())
    } else {
        match (read_block_docs(docs.drop_last()), read_block_doc(docs.last())) {
            (Some(before), Some(b)) => Some(before.push(b)),
            _ => None,
        }
    }
}

/// Blocks that are written and read back are the same.
pub proof fn lemma_blocks_round_trip(blocks: Seq<ContentBlockV>)
    ensures
        read_block_docs(block_docs(blocks)) == Some(blocks),
    decreases blocks.len(),
{
    if blocks.len() > 0 {
        lemma_blocks_round_trip(blocks.drop_last());
        lemma_block_round_trip(blocks.last());
        assert(block_docs(blocks).drop_last() =~= block_docs(blocks.drop_last()));
        assert(block_docs(blocks).last() == block_doc(blocks.last()));
        assert(blocks.drop_last().push(blocks.last()) =~= blocks);
    } else {
        assert(block_docs(blocks) =~= Seq::<JsonV>::empty());
        assert(blocks =~= Seq::<ContentBlockV>::empty());
    }
}

/// The blocks that a document is: it must be an array of blocks.
pub open spec fn as_blocks(doc: JsonV) -> Option<Seq<ContentBlockV>> {
    match doc {
        JsonV::Array(items) => read_block_docs(items),
        _ => None,
    }
}

/// The document of what a user sent.
pub open spec fn user_content_doc(c: UserContentV) -> JsonV {
    match c {
        UserContentV::Text(s) => JsonV::Text(s),
        UserContentV::Blocks(blocks) => JsonV::Array(block_docs(blocks)),
    }
}

/// What a user sent, from its document: a string or an array of blocks.
pub open spec fn as_user_content(doc: JsonV) -> Option<UserContentV> {
    match doc {
        JsonV::Text(s) => Some(UserContentV::Text(s)),
        JsonV::Array(items) => match read_block_docs(items) {
            Some(blocks) => Some(UserContentV::Blocks(blocks)),
            None => None,
        },
        _ => None,
    }
}

/// The document of an assistant message, under the role `assistant`.
pub open spec fn assistant_doc(m: AssistantMessageV) -> JsonV {
    JsonV::Object(
        seq![
            ("role"@, text_doc("assistant"@)),
            ("content"@, JsonV::Array(block_docs(m.content))),
            ("api"@, text_doc(m.api)),
            ("provider"@, text_doc(m.provider)),
            ("model"@, text_doc(m.model)),
            ("usage"@, usage_doc(m.usage)),
            ("stopReason"@, stop_reason_doc(m.stop_reason)),
            ("errorMessage"@, opt_text_doc(m.error_message)),
            ("timestamp"@, signed_doc(m.timestamp)),
        ],
    )
}

/// The assistant message that a document is.
pub open spec fn read_assistant_doc(doc: JsonV) -> Option<AssistantMessageV> {
    match (
        as_blocks(at(doc, "content"@)),
        as_text(at(doc, "api"@)),
        as_text(at(doc, "provider"@)),
        as_text(at(doc, "model"@)),
        read_usage_doc(at(doc, "usage"@)),
        as_stop_reason(at(doc, "stopReason"@)),
        as_opt_text(at(doc, "errorMessage"@)),
        as_signed(at(doc, "timestamp"@)),
    ) {
        (
            Some(content),
            Some(api),
            Some(provider),
            Some(model),
            Some(usage),
            Some(stop_reason),
            Some(error_message),
            Some(timestamp),
        ) => Some(
            AssistantMessageV {
                content,
                api,
                provider,
                model,
                usage,
                stop_reason,
                error_message,
                timestamp,
            },
        ),
        _ => None,
    }
}

/// An assistant message that is written and read back is the same.
pub proof fn lemma_assistant_round_trip(m: AssistantMessageV)
    ensures
        read_assistant_doc(assistant_doc(m)) == Some(m),
{
    let members = assistant_doc(m)->Object_0;
    lemma_blocks_round_trip(m.content);
    lemma_usage_round_trip(m.usage);
    lemma_stop_reason_round_trip(m.stop_reason);
    reveal_strlit("role");
    reveal_strlit("content");
    reveal_strlit("api");
    reveal_strlit("provider");
    reveal_strlit("model");
    reveal_strlit("usage");
    reveal_strlit("stopReason");
    reveal_strlit("errorMessage");
    reveal_strlit("timestamp");
    assert("role"@.len() == 4);
    assert("content"@.len() == 7);
    assert("api"@.len() == 3);
    assert("provider"@.len() == 8);
    assert("model"@.len() == 5);
    assert("usage"@.len() == 5);
    assert("stopReason"@.len() == 10);
    assert("errorMessage"@.len() == 12);
    assert("timestamp"@.len() == 9);
    assert("model"@[0] == 'm');
    assert("usage"@[0] == 'u');
    lemma_member_at(members, "role"@, 0);
    lemma_member_at(members, "content"@, 1);
    lemma_member_at(members, "api"@, 2);
    lemma_member_at(members, "provider"@, 3);
    lemma_member_at(members, "model"@, 4);
    lemma_member_at(members, "usage"@, 5);
    lemma_member_at(members, "stopReason"@, 6);
    lemma_member_at(members, "errorMessage"@, 7);
    lemma_member_at(members, "timestamp"@, 8);

}

/// Whether an optional document is kept by a file: `null` stands for
/// none, so a `null` that is there cannot be told from one that is not.
pub open spec fn kept(o: Option<JsonV>) -> bool {
    o != Some(JsonV::Null)
}

/// The document of a message of the journal, under its role.
pub open spec fn message_doc(m: SessionMessageV) -> JsonV {
    match m {
        SessionMessageV::User { content, timestamp } => JsonV::Object(
            seq![
                ("role"@, text_doc("user"@)),
                ("content"@, user_content_doc(content)),
                ("timestamp"@, opt_signed_doc(timestamp)),
            ],
        ),
        SessionMessageV::Assistant { message } => assistant_doc(message),
        SessionMessageV::ToolResult {
            tool_call_id,
            tool_name,
            content,
            details,
            is_error,
            timestamp,
        } => JsonV::Object(
            seq![
                ("role"@, text_doc("toolResult"@)),
                ("toolCallId"@, text_doc(tool_call_id)),
                ("toolName"@, text_doc(tool_name)),
                ("content"@, JsonV::Array(block_docs(content))),
                ("details"@, opt_doc(details)),
                ("isError"@, JsonV::Bool(is_error)),
                ("timestamp"@, opt_signed_doc(timestamp)),
            ],
        ),
        SessionMessageV::BashExecution { command, output, exit_code } => JsonV::Object(
            seq![
                ("role"@, text_doc("bashExecution"@)),
                ("command"@, text_doc(command)),
                ("output"@, text_doc(output)),
                ("exitCode"@, signed_doc(exit_code as i64)),
            ],
        ),
        SessionMessageV::Custom { custom_type, content, display, details, timestamp } => JsonV::Object(
            seq![
                ("role"@, text_doc("custom"@)),
                ("customType"@, text_doc(custom_type)),
                ("content"@, text_doc(content)),
                ("display"@, JsonV::Bool(display)),
                ("details"@, opt_doc(details)),
                ("timestamp"@, opt_signed_doc(timestamp)),
            ],
        ),
        SessionMessageV::BranchSummary { summary, from_id } => JsonV::Object(
            seq![
                ("role"@, text_doc("branchSummary"@)),
                ("summary"@, text_doc(summary)),
                ("fromId"@, text_doc(from_id)),
            ],
        ),
        SessionMessageV::CompactionSummary { summary, tokens_before } => JsonV::Object(
            seq![
                ("role"@, text_doc("compactionSummary"@)),
                ("summary"@, text_doc(summary)),
                ("tokensBefore"@, unsigned_doc(tokens_before)),
            ],
        ),
    }
}

/// The exit code that a document is.
pub open spec fn as_exit_code(doc: JsonV) -> Option<i32> {
    match as_signed(doc) {
        Some(i) => if i32::MIN <= i <= i32::MAX {
            Some(i as i32)
        } else {
            None
        },
        None => None,
    }
}

/// The message of the journal that a document is, by its `role`.
pub open spec fn read_message_doc(doc: JsonV) -> Option<SessionMessageV> {
    let role = as_text(at(doc, "role"@));
    if role == Some("user"@) {
        match (as_user_content(at(doc, "content"@)), as_opt_signed(at(doc, "timestamp"@))) {
            (Some(content), Some(timestamp)) => Some(SessionMessageV::User { content, timestamp }),
            _ => None,
        }
    } else if role == Some("assistant"@) {
        match read_assistant_doc(doc) {
            Some(message) => Some(SessionMessageV::Assistant { message }),
            None => None,
        }
    } else if role == Some("toolResult"@) {
        match (
            as_text(at(doc, "toolCallId"@)),
            as_text(at(doc, "toolName"@)),
            as_blocks(at(doc, "content"@)),
            as_bool(at(doc, "isError"@)),
            as_opt_signed(at(doc, "timestamp"@)),
        ) {
            (
                Some(tool_call_id),
                Some(tool_name),
                Some(content),
                Some(is_error),
                Some(timestamp),
            ) => Some(
                SessionMessageV::ToolResult {
                    tool_call_id,
                    tool_name,
                    content,
                    details: as_opt_doc(at(doc, "details"@)),
                    is_error,
                    timestamp,
                },
            ),
            _ => None,
        }
    } else if role == Some("bashExecution"@) {
        match (
            as_text(at(doc, "command"@)),
            as_text(at(doc, "output"@)),
            as_exit_code(at(doc, "exitCode"@)),
        ) {
            (Some(command), Some(output), Some(exit_code)) => Some(
                SessionMessageV::BashExecution { command, output, exit_code },
            ),
            _ => None,
        }
    } else if role == Some("custom"@) {
        match (
            as_text(at(doc, "customType"@)),
            as_text(at(doc, "content"@)),
            as_bool(at(doc, "display"@)),
            as_opt_signed(at(doc, "timestamp"@)),
        ) {
            (Some(custom_type), Some(content), Some(display), Some(timestamp)) => Some(
                SessionMessageV::Custom {
                    custom_type,
                    content,
                    display,
                    details: as_opt_doc(at(doc, "details"@)),
                    timestamp,
                },
            ),
            _ => None,
        }
    } else if role == Some("branchSummary"@) {
        match (as_text(at(doc, "summary"@)), as_text(at(doc, "fromId"@))) {
            (Some(summary), Some(from_id)) => Some(
                SessionMessageV::BranchSummary { summary, from_id },
            ),
            _ => None,
        }
    } else if role == Some("compactionSummary"@) {
        match (as_text(at(doc, "summary"@)), as_unsigned(at(doc, "tokensBefore"@))) {
            (Some(summary), Some(tokens_before)) => Some(
                SessionMessageV::CompactionSummary { summary, tokens_before },
            ),
            _ => None,
        }
    } else {
        None
    }
}

/// Whether a file keeps a message as it is.
pub open spec fn message_kept(m: SessionMessageV) -> bool {
    match m {
        SessionMessageV::ToolResult { details, .. } => kept(details),
        SessionMessageV::Custom { details, .. } => kept(details),
        _ => true,
    }
}

/// A message of the journal that is written and read back is the same.
pub proof fn lemma_message_round_trip(m: SessionMessageV)
    requires
        message_kept(m),
    ensures
        read_message_doc(message_doc(m)) == Some(m),
{
    let members = message_doc(m)->Object_0;
    reveal_strlit("role");
    reveal_strlit("user");
    reveal_strlit("assistant");
    reveal_strlit("toolResult");
    reveal_strlit("bashExecution");
    reveal_strlit("custom");
    reveal_strlit("branchSummary");
    reveal_strlit("compactionSummary");
    reveal_strlit("content");
    reveal_strlit("timestamp");
    reveal_strlit("toolCallId");
    reveal_strlit("toolName");
    reveal_strlit("details");
    reveal_strlit("isError");
    reveal_strlit("command");
    reveal_strlit("output");
    reveal_strlit("exitCode");
    reveal_strlit("customType");
    reveal_strlit("display");
    reveal_strlit("summary");
    reveal_strlit("fromId");
    reveal_strlit("tokensBefore");
    reveal_strlit("api");
    reveal_strlit("provider");
    reveal_strlit("model");
    reveal_strlit("usage");
    reveal_strlit("stopReason");
    reveal_strlit("errorMessage");
    assert("role"@.len() == 4);
    assert("user"@.len() == 4);
    assert("assistant"@.len() == 9);
    assert("toolResult"@.len() == 10);
    assert("bashExecution"@.len() == 13);
    assert("custom"@.len() == 6);
    assert("branchSummary"@.len() == 13);
    assert("compactionSummary"@.len() == 17);
    assert("content"@.len() == 7);
    assert("timestamp"@.len() == 9);
    assert("toolCallId"@.len() == 10);
    assert("toolName"@.len() == 8);
    assert("details"@.len() == 7);
    assert("isError"@.len() == 7);
    assert("command"@.len() == 7);
    assert("output"@.len() == 6);
    assert("exitCode"@.len() == 8);
    assert("customType"@.len() == 10);
    assert("display"@.len() == 7);
    assert("summary"@.len() == 7);
    assert("fromId"@.len() == 6);
    assert("tokensBefore"@.len() == 12);
    assert("api"@.len() == 3);
    assert("provider"@.len() == 8);
    assert("model"@.len() == 5);
    assert("usage"@.len() == 5);
    assert("stopReason"@.len() == 10);
    assert("errorMessage"@.len() == 12);
    assert("role"@[0] == 'r');
    assert("user"@[0] == 'u');
    assert("assistant"@[0] == 'a');
    assert("timestamp"@[0] == 't');
    assert("toolResult"@[4] == 'R');
    assert("toolCallId"@[4] == 'C');
    assert("toolResult"@[0] == 't');
    assert("customType"@[0] == 'c');
    assert("stopReason"@[0] == 's');
    assert("bashExecution"@[1] == 'a');
    assert("branchSummary"@[1] == 'r');
    assert("custom"@[0] == 'c');
    assert("output"@[0] == 'o');
    assert("fromId"@[0] == 'f');
    assert("content"@[0] == 'c');
    assert("details"@[0] == 'd');
    assert("isError"@[0] == 'i');
    assert("content"@[2] == 'n');
    assert("command"@[2] == 'm');
    assert("display"@[0] == 'd');
    assert("summary"@[0] == 's');
    assert("toolCallId"@[0] == 't');
    assert("toolName"@[0] == 't');
    assert("exitCode"@[0] == 'e');
    assert("provider"@[0] == 'p');
    assert("command"@[0] == 'c');
    assert("details"@[1] == 'e');
    assert("display"@[1] == 'i');
    assert("tokensBefore"@[0] == 't');
    assert("errorMessage"@[0] == 'e');
    assert("model"@[0] == 'm');
    assert("usage"@[0] == 'u');
    lemma_member_at(members, "role"@, 0);
    match m {
        SessionMessageV::User { content, timestamp } => {
            lemma_member_at(members, "content"@, 1);
            lemma_member_at(members, "timestamp"@, 2);
            match content {
                UserContentV::Blocks(blocks) => {
                    lemma_blocks_round_trip(blocks);
                },
                _ => {},
            }
        },
        SessionMessageV::Assistant { message } => {
            lemma_assistant_round_trip(message);
        },
        SessionMessageV::ToolResult {
            tool_call_id,
            tool_name,
            content,
            details,
            is_error,
            timestamp,
        } => {
            lemma_member_at(members, "toolCallId"@, 1);
            lemma_member_at(members, "toolName"@, 2);
            lemma_member_at(members, "content"@, 3);
            lemma_member_at(members, "details"@, 4);
            lemma_member_at(members, "isError"@, 5);
            lemma_member_at(members, "timestamp"@, 6);
            lemma_blocks_round_trip(content);
        },
        SessionMessageV::BashExecution { command, output, exit_code } => {
            lemma_member_at(members, "command"@, 1);
            lemma_member_at(members, "output"@, 2);
            lemma_member_at(members, "exitCode"@, 3);
        },
        SessionMessageV::Custom { custom_type, content, display, details, timestamp } => {
            lemma_member_at(members, "customType"@, 1);
            lemma_member_at(members, "content"@, 2);
            lemma_member_at(members, "display"@, 3);
            lemma_member_at(members, "details"@, 4);
            lemma_member_at(members, "timestamp"@, 5);
        },
        SessionMessageV::BranchSummary { summary, from_id } => {
            lemma_member_at(members, "summary"@, 1);
            lemma_member_at(members, "fromId"@, 2);
        },
        SessionMessageV::CompactionSummary { summary, tokens_before } => {
            lemma_member_at(members, "summary"@, 1);
            lemma_member_at(members, "tokensBefore"@, 2);
        },
    }
}

/// The name of the kind of an entry, as files have it under `type`.
pub open spec fn kind_name(k: EntryKindV) -> Seq<char> {
    match k {
        EntryKindV::Message { .. } => "message"@,
        EntryKindV::ModelChange { .. } => "model_change"@,
        EntryKindV::ThinkingLevelChange { .. } => "thinking_level_change"@,
        EntryKindV::SessionInfo { .. } => "session_info"@,
        EntryKindV::Label { .. } => "label"@,
        EntryKindV::Compaction { .. } => "compaction"@,
        EntryKindV::BranchSummary { .. } => "branch_summary"@,
        EntryKindV::Custom { .. } => "custom"@,
    }
}

/// The members of an entry's document that belong to its kind.
pub open spec fn kind_members(k: EntryKindV) -> Seq<Member> {
    match k {
        EntryKindV::Message { message } => seq![("message"@, message_doc(message))],
        EntryKindV::ModelChange { provider, model_id } => seq![
            ("provider"@, text_doc(provider)),
            ("modelId"@, text_doc(model_id)),
        ],
        EntryKindV::ThinkingLevelChange { thinking_level } => seq![
            ("thinkingLevel"@, text_doc(thinking_level)),
        ],
        EntryKindV::SessionInfo { name } => seq![("name"@, opt_text_doc(name))],
        EntryKindV::Label { target_id, label } => seq![
            ("targetId"@, text_doc(target_id)),
            ("label"@, opt_text_doc(label)),
        ],
        EntryKindV::Compaction {
            summary,
            first_kept_entry_id,
            tokens_before,
            details,
            from_hook,
        } => seq![
            ("summary"@, text_doc(summary)),
            ("firstKeptEntryId"@, text_doc(first_kept_entry_id)),
            ("tokensBefore"@, unsigned_doc(tokens_before)),
            ("details"@, opt_doc(details)),
            ("fromHook"@, opt_bool_doc(from_hook)),
        ],
        EntryKindV::BranchSummary { from_id, summary } => seq![
            ("fromId"@, text_doc(from_id)),
            ("summary"@, text_doc(summary)),
        ],
        EntryKindV::Custom { custom_type, data } => seq![
            ("customType"@, text_doc(custom_type)),
            ("data"@, opt_doc(data)),
        ],
    }
}

/// The members of an entry's document that this version of the format
/// knows: the base of the entry, then what belongs to its kind.
pub open spec fn known_members(e: SessionEntryV) -> Seq<Member> {
    seq![
        ("type"@, text_doc(kind_name(e.kind))),
        ("id"@, text_doc(e.base.id)),
        ("parentId"@, opt_text_doc(e.base.parent_id)),
        ("timestamp"@, text_doc(e.base.timestamp)),
    ] + kind_members(e.kind)
}

/// The document of an entry: one line of a session file. The members that
/// the format knows come first, then the unknown members that the entry
/// carries.
pub open spec fn entry_doc(e: SessionEntryV) -> JsonV {
    JsonV::Object(known_members(e) + e.extra)
}

/// Whether a key is one that the format gives a meaning in the document of
/// an entry of some kind.
pub open spec fn is_entry_key(key: Seq<char>) -> bool {
    key == "type"@ || key == "id"@ || key == "parentId"@ || key == "timestamp"@ || key
        == "message"@ || key == "provider"@ || key == "modelId"@ || key == "thinkingLevel"@ || key
        == "name"@ || key == "targetId"@ || key == "label"@ || key == "summary"@ || key
        == "firstKeptEntryId"@ || key == "tokensBefore"@ || key == "details"@ || key
        == "fromHook"@ || key == "fromId"@ || key == "customType"@ || key == "data"@
}

/// The members whose keys the format gives no meaning, in their order.
pub open spec fn unknown_members(members: Seq<Member>) -> Seq<Member>
    decreases members.len(),
{
    if members.len() == 0 {
        Seq::empty()
    } else if is_entry_key(members.last().0) {
        unknown_members(members.drop_last())
    } else {
        unknown_members(members.drop_last()).push(members.last())
    }
}

/// Whether the format gives no meaning to the key of any of the members.
pub open spec fn all_unknown(members: Seq<Member>) -> bool {
    forall|i: int| 0 <= i < members.len() ==> !is_entry_key(#[trigger] members[i].0)
}

/// The members of a document; none for what is no object.
pub open spec fn doc_members(doc: JsonV) -> Seq<Member> {
    match doc {
        JsonV::Object(members) => members,
        _ => Seq::empty(),
    }
}

/// Members with known keys only hold no unknown member.
pub proof fn lemma_unknown_of_known(members: Seq<Member>)
    requires
        forall|i: int| 0 <= i < members.len() ==> is_entry_key(#[trigger] members[i].0),
    ensures
        unknown_members(members) == Seq::<Member>::empty(),
    decreases members.len(),
{
    if members.len() > 0 {
        assert forall|i: int| 0 <= i < members.drop_last().len() implies is_entry_key(
            #[trigger] members.drop_last()[i].0,
        ) by {
            assert(members.drop_last()[i] == members[i]);
        }
        lemma_unknown_of_known(members.drop_last());
        assert(is_entry_key(members[members.len() - 1].0));
    }
}

/// Unknown members that follow other members are found after the unknown
/// ones among those.
pub proof fn lemma_unknown_append(first: Seq<Member>, extra: Seq<Member>)
    requires
        all_unknown(extra),
    ensures
        unknown_members(first + extra) == unknown_members(first) + extra,
    decreases extra.len(),
{
    if extra.len() == 0 {
        assert(first + extra =~= first);
        assert(unknown_members(first) + extra =~= unknown_members(first));
    } else {
        let all = first + extra;
        assert(all.drop_last() =~= first + extra.drop_last());
        assert(all.last() == extra.last());
        assert(!is_entry_key(extra[extra.len() - 1].0));
        assert forall|i: int| 0 <= i < extra.drop_last().len() implies !is_entry_key(
            #[trigger] extra.drop_last()[i].0,
        ) by {
            assert(extra.drop_last()[i] == extra[i]);
        }
        lemma_unknown_append(first, extra.drop_last());
        assert((unknown_members(first) + extra.drop_last()).push(extra.last())
            =~= unknown_members(first) + extra);
    }
}

/// The format gives a meaning to the key of every member that it writes
/// for an entry.
pub proof fn lemma_known_members(e: SessionEntryV)
    ensures
        unknown_members(known_members(e)) == Seq::<Member>::empty(),
        4 <= known_members(e).len() <= 9,
{
    let known = known_members(e);
    assert forall|i: int| 0 <= i < known.len() implies is_entry_key(#[trigger] known[i].0) by {
        if i >= 4 {
            assert(known[i] == kind_members(e.kind)[i - 4]);
        }
    }
    lemma_unknown_of_known(known);
}

/// What an entry records, from its document, by its `type`.
pub open spec fn read_kind_doc(doc: JsonV) -> Option<EntryKindV> {
    let kind = as_text(at(doc, "type"@));
    if kind == Some("message"@) {
        match read_message_doc(at(doc, "message"@)) {
            Some(message) => Some(EntryKindV::Message { message }),
            None => None,
        }
    } else if kind == Some("model_change"@) {
        match (as_text(at(doc, "provider"@)), as_text(at(doc, "modelId"@))) {
            (Some(provider), Some(model_id)) => Some(EntryKindV::ModelChange { provider, model_id }),
            _ => None,
        }
    } else if kind == Some("thinking_level_change"@) {
        match as_text(at(doc, "thinkingLevel"@)) {
            Some(thinking_level) => Some(EntryKindV::ThinkingLevelChange { thinking_level }),
            None => None,
        }
    } else if kind == Some("session_info"@) {
        match as_opt_text(at(doc, "name"@)) {
            Some(name) => Some(EntryKindV::SessionInfo { name }),
            None => None,
        }
    } else if kind == Some("label"@) {
        match (as_text(at(doc, "targetId"@)), as_opt_text(at(doc, "label"@))) {
            (Some(target_id), Some(label)) => Some(EntryKindV::Label { target_id, label }),
            _ => None,
        }
    } else if kind == Some("compaction"@) {
        match (
            as_text(at(doc, "summary"@)),
            as_text(at(doc, "firstKeptEntryId"@)),
            as_unsigned(at(doc, "tokensBefore"@)),
            as_opt_bool(at(doc, "fromHook"@)),
        ) {
            (Some(summary), Some(first_kept_entry_id), Some(tokens_before), Some(from_hook)) => Some(
                EntryKindV::Compaction {
                    summary,
                    first_kept_entry_id,
                    tokens_before,
                    details: as_opt_doc(at(doc, "details"@)),
                    from_hook,
                },
            ),
            _ => None,
        }
    } else if kind == Some("branch_summary"@) {
        match (as_text(at(doc, "fromId"@)), as_text(at(doc, "summary"@))) {
            (Some(from_id), Some(summary)) => Some(EntryKindV::BranchSummary { from_id, summary }),
            _ => None,
        }
    } else if kind == Some("custom"@) {
        match as_text(at(doc, "customType"@)) {
            Some(custom_type) => Some(
                EntryKindV::Custom { custom_type, data: as_opt_doc(at(doc, "data"@)) },
            ),
            None => None,
        }
    } else {
        None
    }
}

/// The entry that a document is. An entry without an `id` gets the one
/// given; its `timestamp` must be a string, and its kind must be known.
/// The members that the format does not know are kept with the entry.
pub open spec fn read_entry_doc(doc: JsonV, id_if_missing: Seq<char>) -> Option<SessionEntryV> {
    match (
        as_opt_text(at(doc, "id"@)),
        as_opt_text(at(doc, "parentId"@)),
        as_text(at(doc, "timestamp"@)),
        read_kind_doc(doc),
    ) {
        (Some(id), Some(parent_id), Some(timestamp), Some(kind)) => Some(
            SessionEntryV {
                base: EntryBaseV {
                    id: match id {
                        Some(given) => given,
                        None => id_if_missing,
                    },
                    parent_id,
                    timestamp,
                },
                kind,
                extra: unknown_members(doc_members(doc)),
            },
        ),
        _ => None,
    }
}

/// Whether a file keeps an entry as it is.
pub open spec fn entry_kept(e: SessionEntryV) -> bool {
    &&& all_unknown(e.extra)
    &&& match e.kind {
        EntryKindV::Message { message } => message_kept(message),
        EntryKindV::Compaction { details, .. } => kept(details),
        EntryKindV::Custom { data, .. } => kept(data),
        _ => true,
    }
}

/// An entry that is written and read back is the same entry.
pub proof fn lemma_entry_round_trip(e: SessionEntryV, id_if_missing: Seq<char>)
    requires
        entry_kept(e),
    ensures
        read_entry_doc(entry_doc(e), id_if_missing) == Some(e),
{
    let members = entry_doc(e)->Object_0;
    lemma_known_members(e);
    lemma_unknown_append(known_members(e), e.extra);
    assert(unknown_members(members) =~= e.extra);
    reveal_strlit("type");
    reveal_strlit("id");
    reveal_strlit("parentId");
    reveal_strlit("timestamp");
    reveal_strlit("message");
    reveal_strlit("provider");
    reveal_strlit("modelId");
    reveal_strlit("thinkingLevel");
    reveal_strlit("name");
    reveal_strlit("targetId");
    reveal_strlit("label");
    reveal_strlit("summary");
    reveal_strlit("firstKeptEntryId");
    reveal_strlit("tokensBefore");
    reveal_strlit("details");
    reveal_strlit("fromHook");
    reveal_strlit("fromId");
    reveal_strlit("customType");
    reveal_strlit("data");
    reveal_strlit("model_change");
    reveal_strlit("thinking_level_change");
    reveal_strlit("session_info");
    reveal_strlit("compaction");
    reveal_strlit("branch_summary");
    reveal_strlit("custom");
    assert("type"@.len() == 4);
    assert("id"@.len() == 2);
    assert("parentId"@.len() == 8);
    assert("timestamp"@.len() == 9);
    assert("message"@.len() == 7);
    assert("provider"@.len() == 8);
    assert("modelId"@.len() == 7);
    assert("thinkingLevel"@.len() == 13);
    assert("name"@.len() == 4);
    assert("targetId"@.len() == 8);
    assert("label"@.len() == 5);
    assert("summary"@.len() == 7);
    assert("firstKeptEntryId"@.len() == 16);
    assert("tokensBefore"@.len() == 12);
    assert("details"@.len() == 7);
    assert("fromHook"@.len() == 8);
    assert("fromId"@.len() == 6);
    assert("customType"@.len() == 10);
    assert("data"@.len() == 4);
    assert("model_change"@.len() == 12);
    assert("thinking_level_change"@.len() == 21);
    assert("session_info"@.len() == 12);
    assert("compaction"@.len() == 10);
    assert("branch_summary"@.len() == 14);
    assert("custom"@.len() == 6);
    assert("type"@[0] == 't');
    assert("name"@[0] == 'n');
    assert("data"@[0] == 'd');
    assert("parentId"@[1] == 'a');
    assert("provider"@[1] == 'r');
    assert("parentId"@[0] == 'p');
    assert("targetId"@[0] == 't');
    assert("fromHook"@[0] == 'f');
    assert("message"@[1] == 'e');
    assert("modelId"@[1] == 'o');
    assert("message"@[0] == 'm');
    assert("summary"@[0] == 's');
    assert("details"@[0] == 'd');
    assert("provider"@[0] == 'p');
    assert("modelId"@[0] == 'm');
    assert("tokensBefore"@[0] == 't');
    assert("model_change"@[0] == 'm');
    assert("session_info"@[0] == 's');
    assert("fromId"@[0] == 'f');
    assert("custom"@[0] == 'c');
    assert("customType"@[1] == 'u');
    assert("compaction"@[1] == 'o');
    lemma_member_at(members, "type"@, 0);
    lemma_member_at(members, "id"@, 1);
    lemma_member_at(members, "parentId"@, 2);
    lemma_member_at(members, "timestamp"@, 3);
    match e.kind {
        EntryKindV::Message { message } => {
            lemma_member_at(members, "message"@, 4);
            lemma_message_round_trip(message);
        },
        EntryKindV::ModelChange { provider, model_id } => {
            lemma_member_at(members, "provider"@, 4);
            lemma_member_at(members, "modelId"@, 5);
        },
        EntryKindV::ThinkingLevelChange { thinking_level } => {
            lemma_member_at(members, "thinkingLevel"@, 4);
        },
        EntryKindV::SessionInfo { name } => {
            lemma_member_at(members, "name"@, 4);
        },
        EntryKindV::Label { target_id, label } => {
            lemma_member_at(members, "targetId"@, 4);
            lemma_member_at(members, "label"@, 5);
        },
        EntryKindV::Compaction { summary, first_kept_entry_id, tokens_before, details, from_hook } => {
            lemma_member_at(members, "summary"@, 4);
            lemma_member_at(members, "firstKeptEntryId"@, 5);
            lemma_member_at(members, "tokensBefore"@, 6);
            lemma_member_at(members, "details"@, 7);
            lemma_member_at(members, "fromHook"@, 8);
        },
        EntryKindV::BranchSummary { from_id, summary } => {
            lemma_member_at(members, "fromId"@, 4);
            lemma_member_at(members, "summary"@, 5);
        },
        EntryKindV::Custom { custom_type, data } => {
            lemma_member_at(members, "customType"@, 4);
            lemma_member_at(members, "data"@, 5);
        },
    }
}

/// The document of a header.
pub fn header_json(h: &SessionHeader) -> (r: Json)
    ensures
        r@ == header_doc(h@),
{
    let mut members: Vec<(String, Json)> = vec![
        member("type", text("session")),
        member("version", unsigned(h.version)),
        member("id", text(h.id.as_str())),
        member("timestamp", text(h.timestamp.as_str())),
        member("cwd", text(h.cwd.as_str())),
        member("provider", opt_text_json(&h.provider)),
        member("modelId", opt_text_json(&h.model_id)),
        member("thinkingLevel", opt_text_json(&h.thinking_level)),
        member("branchedFrom", opt_text_json(&h.parent_session)),
    ];
    proof {
        lemma_object_value(members@);
        assert(object_value(members@) =~= known_header_members(h@));
    }
    let ghost extra = object_value(h.extra@);
    let mut k: usize = 0;
    proof {
        lemma_object_value(h.extra@);
        assert(known_header_members(h@) + extra.take(0) =~= known_header_members(h@));
    }
    while k < h.extra.len()
        invariant
            k <= h.extra.len(),
            extra == object_value(h.extra@),
            extra.len() == h.extra@.len(),
            forall|i: int| 0 <= i < h.extra@.len() ==> (#[trigger] extra[i]) == (
                h.extra@[i].0@,
                h.extra@[i].1@,
            ),
            object_value(members@) == known_header_members(h@) + extra.take(k as int),
        decreases h.extra.len() - k,
    {
        let ghost before = members@;
        let key = h.extra[k].0.clone();
        let value = h.extra[k].1.clone();
        members.push((key, value));
        proof {
            assert(members@.drop_last() =~= before);
            assert(object_value(members@) == object_value(before).push((key@, value@)));
            assert(extra.take(k + 1) =~= extra.take(k as int).push(extra[k as int]));
            assert(object_value(members@) =~= known_header_members(h@) + extra.take(k + 1));
        }
        k += 1;
    }
    proof {
        assert(extra.take(k as int) =~= extra);
    }
    object(members)
}

/// Whether the format gives a key a meaning in the document of a header.
pub fn header_key(key: &str) -> (r: bool)
    ensures
        r == is_header_key(key@),
{
    str_eq(key, "type") || str_eq(key, "version") || str_eq(key, "id") || str_eq(key, "timestamp")
        || str_eq(key, "cwd") || str_eq(key, "provider") || str_eq(key, "modelId") || str_eq(
        key,
        "thinkingLevel",
    ) || str_eq(key, "branchedFrom") || str_eq(key, "parentSession")
}

/// The members of a header's document that the format does not know, in
/// their order.
pub fn read_header_extra(doc: &Json) -> (r: Vec<(String, Json)>)
    ensures
        object_value(r@) == unknown_header_members(doc_members(doc@)),
{
    let mut out: Vec<(String, Json)> = Vec::new();
    match doc {
        Json::Object(members) => {
            let ghost all = object_value(members@);
            let mut i: usize = 0;
            proof {
                lemma_object_value(members@);
                assert(all.take(0) =~= Seq::<Member>::empty());
            }
            while i < members.len()
                invariant
                    i <= members.len(),
                    all == object_value(members@),
                    all.len() == members@.len(),
                    forall|k: int| 0 <= k < members@.len() ==> (#[trigger] all[k]) == (
                        members@[k].0@,
                        members@[k].1@,
                    ),
                    object_value(out@) == unknown_header_members(all.take(i as int)),
                decreases members.len() - i,
            {
                proof {
                    assert(all.take(i + 1).drop_last() =~= all.take(i as int));
                    assert(all.take(i + 1).last() == all[i as int]);
                }
                if !header_key(members[i].0.as_str()) {
                    let ghost before = out@;
                    let key = members[i].0.clone();
                    let value = members[i].1.clone();
                    out.push((key, value));
                    proof {
                        assert(out@.drop_last() =~= before);
                        assert(object_value(out@) == object_value(before).push((key@, value@)));
                    }
                }
                i += 1;
            }
            proof {
                assert(all.take(i as int) =~= all);
            }
        },
        _ => {},
    }
    out
}

/// Whether the text under `key` is the given one.
pub fn text_is(doc: &Json, key: &str, wanted: &str) -> (r: bool)
    ensures
        r == (as_text(at(doc@, key@)) == Some(wanted@)),
{
    match doc.get(key) {
        Some(v) => match v.as_str() {
            Some(s) => str_eq(s, wanted),
            None => false,
        },
        None => false,
    }
}

/// The header that a document is.
pub fn read_header(doc: &Json) -> (r: Option<SessionHeader>)
    ensures
        match r {
            Some(h) => read_header_doc(doc@) == Some(h@),
            None => read_header_doc(doc@).is_none(),
        },
{
    if !text_is(doc, "type", "session") {
        return None;
    }
    let version = match read_unsigned(doc, "version") {
        Some(v) => v,
        None => SESSION_VERSION,
    };
    let null = Json::Null;
    let branched = match member_or_null(doc, "branchedFrom", &null) {
        Json::Null => read_opt_text(doc, "parentSession"),
        _ => read_opt_text(doc, "branchedFrom"),
    };
    let id = read_text(doc, "id");
    let timestamp = read_text(doc, "timestamp");
    let cwd = read_text(doc, "cwd");
    let provider = read_opt_text(doc, "provider");
    let model_id = read_opt_text(doc, "modelId");
    let thinking_level = read_opt_text(doc, "thinkingLevel");
    match (id, timestamp, cwd, provider, model_id, thinking_level, branched) {
        (
            Some(id),
            Some(timestamp),
            Some(cwd),
            Some(provider),
            Some(model_id),
            Some(thinking_level),
            Some(parent_session),
        ) => Some(
            SessionHeader {
                extra: read_header_extra(doc),
                version,
                id,
                timestamp,
                cwd,
                provider,
                model_id,
                thinking_level,
                parent_session,
            },
        ),
        _ => None,
    }
}

/// The document of a reason to stop.
pub fn stop_reason_json(r: StopReason) -> (j: Json)
    ensures
        j@ == stop_reason_doc(r),
{
    match r {
        StopReason::Stop => text("stop"),
        StopReason::Length => text("length"),
        StopReason::ToolUse => text("toolUse"),
        StopReason::Error => text("error"),
        StopReason::Aborted => text("aborted"),
    }
}

/// The reason to stop that a document is.
pub fn read_stop_reason(doc: &Json) -> (r: Option<StopReason>)
    ensures
        r == as_stop_reason(doc@),
{
    match doc.as_str() {
        Some(s) => if str_eq(s, "stop") {
            Some(StopReason::Stop)
        } else if str_eq(s, "length") {
            Some(StopReason::Length)
        } else if str_eq(s, "toolUse") {
            Some(StopReason::ToolUse)
        } else if str_eq(s, "error") {
            Some(StopReason::Error)
        } else if str_eq(s, "aborted") {
            Some(StopReason::Aborted)
        } else {
            None
        },
        None => None,
    }
}

/// The document of a usage.
pub fn usage_json(u: &Usage) -> (r: Json)
    ensures
        r@ == usage_doc(*u),
{
    let members: Vec<(String, Json)> = vec![
        member("input", unsigned(u.input)),
        member("output", unsigned(u.output)),
        member("cacheRead", unsigned(u.cache_read)),
        member("cacheWrite", unsigned(u.cache_write)),
        member("totalTokens", unsigned(u.total_tokens)),
    ];
    let r = object(members);
    proof {
        lemma_object_value(members@);
        assert(r@->Object_0 =~= (usage_doc(*u))->Object_0);
    }
    r
}

fn read_counter(doc: &Json, key: &str) -> (r: u64)
    ensures
        r == counter(at(doc@, key@)),
{
    match read_unsigned(doc, key) {
        Some(n) => n,
        None => 0,
    }
}

/// The usage that a document is.
pub fn read_usage(doc: &Json) -> (r: Usage)
    ensures
        Some(r) == read_usage_doc(doc@),
{
    Usage {
        input: read_counter(doc, "input"),
        output: read_counter(doc, "output"),
        cache_read: read_counter(doc, "cacheRead"),
        cache_write: read_counter(doc, "cacheWrite"),
        total_tokens: read_counter(doc, "totalTokens"),
    }
}

/// The document of a content block.
pub fn block_json(b: &ContentBlock) -> (r: Json)
    ensures
        r@ == block_doc(b@),
{
    match b {
        ContentBlock::Text(t) => {
            let members: Vec<(String, Json)> = vec![
                member("type", text("text")),
                member("text", text(t.text.as_str())),
                member("textSignature", opt_text_json(&t.text_signature)),
            ];
            let r = object(members);
            proof {
                lemma_object_value(members@);
                assert(r@->Object_0 =~= (block_doc(b@))->Object_0);
            }
            r
        },
        ContentBlock::Thinking(t) => {
            let members: Vec<(String, Json)> = vec![
                member("type", text("thinking")),
                member("thinking", text(t.thinking.as_str())),
                member("thinkingSignature", opt_text_json(&t.thinking_signature)),
            ];
            let r = object(members);
            proof {
                lemma_object_value(members@);
                assert(r@->Object_0 =~= (block_doc(b@))->Object_0);
            }
            r
        },
        ContentBlock::Image(i) => {
            let members: Vec<(String, Json)> = vec![
                member("type", text("image")),
                member("data", text(i.data.as_str())),
                member("mimeType", text(i.mime_type.as_str())),
            ];
            let r = object(members);
            proof {
                lemma_object_value(members@);
                assert(r@->Object_0 =~= (block_doc(b@))->Object_0);
            }
            r
        },
        ContentBlock::ToolCall(c) => {
            let members: Vec<(String, Json)> = vec![
                member("type", text("toolCall")),
                member("id", text(c.id.as_str())),
                member("name", text(c.name.as_str())),
                member("arguments", c.arguments.clone()),
                member("thoughtSignature", opt_text_json(&c.thought_signature)),
            ];
            let r = object(members);
            proof {
                lemma_object_value(members@);
                assert(r@->Object_0 =~= (block_doc(b@))->Object_0);
            }
            r
        },
    }
}

/// The content block that a document is.
pub fn read_block(doc: &Json) -> (r: Option<ContentBlock>)
    ensures
        match r {
            Some(b) => read_block_doc(doc@) == Some(b@),
            None => read_block_doc(doc@).is_none(),
        },
{
    if text_is(doc, "type", "text") {
        match (read_text(doc, "text"), read_opt_text(doc, "textSignature")) {
            (Some(text), Some(text_signature)) => Some(
                ContentBlock::Text(TextContent { text, text_signature }),
            ),
            _ => None,
        }
    } else if text_is(doc, "type", "thinking") {
        match (read_text(doc, "thinking"), read_opt_text(doc, "thinkingSignature")) {
            (Some(thinking), Some(thinking_signature)) => Some(
                ContentBlock::Thinking(ThinkingContent { thinking, thinking_signature }),
            ),
            _ => None,
        }
    } else if text_is(doc, "type", "image") {
        match (read_text(doc, "data"), read_text(doc, "mimeType")) {
            (Some(data), Some(mime_type)) => Some(
                ContentBlock::Image(ImageContent { data, mime_type }),
            ),
            _ => None,
        }
    } else if text_is(doc, "type", "toolCall") {
        let null = Json::Null;
        match (read_text(doc, "id"), read_text(doc, "name"), read_opt_text(doc, "thoughtSignature")) {
            (Some(id), Some(name), Some(thought_signature)) => Some(
                ContentBlock::ToolCall(
                    ToolCall {
                        id,
                        name,
                        arguments: member_or_null(doc, "arguments", &null).clone(),
                        thought_signature,
                    },
                ),
            ),
            _ => None,
        }
    } else {
        None
    }
}

/// The document of blocks: an array with the document of each.
pub fn blocks_json(blocks: &[ContentBlock]) -> (r: Json)
    ensures
        r@ == JsonV::Array(block_docs(blocks_view(blocks@))),
{
    let mut out: Vec<Json> = Vec::new();
    let mut i: usize = 0;
    while i < blocks.len()
        invariant
            i <= blocks.len(),
            out@.len() == i,
            forall|k: int| 0 <= k < i ==> (#[trigger] out@[k])@ == block_doc(blocks@[k]@),
        decreases blocks.len() - i,
    {
        out.push(block_json(&blocks[i]));
        i += 1;
    }
    let r = Json::Array(out);
    proof {
        lemma_array_value(out@);
        assert(r@->Array_0 =~= block_docs(blocks_view(blocks@)));
    }
    r
}

/// The blocks that a document is.
pub fn read_blocks(doc: &Json) -> (r: Option<Vec<ContentBlock>>)
    ensures
        match r {
            Some(blocks) => as_blocks(doc@) == Some(blocks_view(blocks@)),
            None => as_blocks(doc@).is_none(),
        },
{
    match doc {
        Json::Array(items) => {
            let ghost all = array_value(items@);
            let mut out: Vec<ContentBlock> = Vec::new();
            let mut i: usize = 0;
            proof {
                lemma_array_value(items@);
                assert(all.take(0) =~= Seq::<JsonV>::empty());
                assert(blocks_view(out@) =~= Seq::<ContentBlockV>::empty());
            }
            while i < items.len()
                invariant
                    i <= items.len(),
                    *doc == Json::Array(*items),
                    all == array_value(items@),
                    all.len() == items@.len(),
                    forall|k: int| 0 <= k < items@.len() ==> (#[trigger] all[k]) == items@[k]@,
                    read_block_docs(all.take(i as int)) == Some(blocks_view(out@)),
                decreases items.len() - i,
            {
                proof {
                    assert(all.take(i + 1).drop_last() =~= all.take(i as int));
                    assert(all.take(i + 1).last() == all[i as int]);
                }
                match read_block(&items[i]) {
                    Some(b) => {
                        let ghost before = blocks_view(out@);
                        out.push(b);
                        assert(blocks_view(out@) =~= before.push(b@));
                    },
                    None => {
                        proof {
                            assert(read_block_docs(all.take(i + 1)).is_none());
                            lemma_read_blocks_fail(all, i + 1);
                        }
                        return None;
                    },
                }
                i += 1;
            }
            assert(all.take(i as int) =~= all);
            Some(out)
        },
        _ => None,
    }
}

/// Once a document is no block, the documents are no blocks however many
/// more are read.
pub proof fn lemma_read_blocks_fail(docs: Seq<JsonV>, failed: int)
    requires
        0 <= failed <= docs.len(),
        read_block_docs(docs.take(failed)).is_none(),
    ensures
        read_block_docs(docs).is_none(),
    decreases docs.len() - failed,
{
    if failed < docs.len() {
        assert(docs.take(failed + 1).drop_last() =~= docs.take(failed));
        lemma_read_blocks_fail(docs, failed + 1);
    } else {
        assert(docs.take(failed) =~= docs);
    }
}

/// The document of what a user sent.
pub fn user_content_json(c: &UserContent) -> (r: Json)
    ensures
        r@ == user_content_doc(c@),
{
    match c {
        UserContent::Text(s) => text(s.as_str()),
        UserContent::Blocks(blocks) => blocks_json(blocks.as_slice()),
    }
}

/// What a user sent, from its document.
pub fn read_user_content(doc: &Json) -> (r: Option<UserContent>)
    ensures
        match r {
            Some(c) => as_user_content(doc@) == Some(c@),
            None => as_user_content(doc@).is_none(),
        },
{
    match doc {
        Json::Text(s) => Some(UserContent::Text(s.clone())),
        Json::Array(_) => match read_blocks(doc) {
            Some(blocks) => Some(UserContent::Blocks(blocks)),
            None => None,
        },
        _ => None,
    }
}

/// The document of an assistant message.
pub fn assistant_json(m: &AssistantMessage) -> (r: Json)
    ensures
        r@ == assistant_doc(m@),
{
    let members: Vec<(String, Json)> = vec![
        member("role", text("assistant")),
        member("content", blocks_json(m.content.as_slice())),
        member("api", text(m.api.as_str())),
        member("provider", text(m.provider.as_str())),
        member("model", text(m.model.as_str())),
        member("usage", usage_json(&m.usage)),
        member("stopReason", stop_reason_json(m.stop_reason)),
        member("errorMessage", opt_text_json(&m.error_message)),
        member("timestamp", signed(m.timestamp)),
    ];
    let r = object(members);
    proof {
        lemma_object_value(members@);
        assert(r@->Object_0 =~= (assistant_doc(m@))->Object_0);
    }
    r
}

/// The assistant message that a document is.
pub fn read_assistant(doc: &Json) -> (r: Option<AssistantMessage>)
    ensures
        match r {
            Some(m) => read_assistant_doc(doc@) == Some(m@),
            None => read_assistant_doc(doc@).is_none(),
        },
{
    let null = Json::Null;
    let content = read_blocks(member_or_null(doc, "content", &null));
    let api = read_text(doc, "api");
    let provider = read_text(doc, "provider");
    let model = read_text(doc, "model");
    let usage = read_usage(member_or_null(doc, "usage", &null));
    let stop_reason = read_stop_reason(member_or_null(doc, "stopReason", &null));
    let error_message = read_opt_text(doc, "errorMessage");
    let timestamp = read_signed(doc, "timestamp");
    match (content, api, provider, model, stop_reason, error_message, timestamp) {
        (
            Some(content),
            Some(api),
            Some(provider),
            Some(model),
            Some(stop_reason),
            Some(error_message),
            Some(timestamp),
        ) => Some(
            AssistantMessage {
                content,
                api,
                provider,
                model,
                usage,
                stop_reason,
                error_message,
                timestamp,
            },
        ),
        _ => None,
    }
}

/// The document of a message of the journal.
pub fn message_json(m: &SessionMessage) -> (r: Json)
    ensures
        r@ == message_doc(m@),
{
    match m {
        SessionMessage::User { content, timestamp } => {
            let members: Vec<(String, Json)> = vec![
                member("role", text("user")),
                member("content", user_content_json(content)),
                member("timestamp", opt_signed(*timestamp)),
            ];
            let r = object(members);
            proof {
                lemma_object_value(members@);
                assert(r@->Object_0 =~= (message_doc(m@))->Object_0);
            }
            r
        },
        SessionMessage::Assistant { message } => assistant_json(message),
        SessionMessage::ToolResult {
            tool_call_id,
            tool_name,
            content,
            details,
            is_error,
            timestamp,
        } => {
            let members: Vec<(String, Json)> = vec![
                member("role", text("toolResult")),
                member("toolCallId", text(tool_call_id.as_str())),
                member("toolName", text(tool_name.as_str())),
                member("content", blocks_json(content.as_slice())),
                member("details", opt_json_doc(details)),
                member("isError", Json::Bool(*is_error)),
                member("timestamp", opt_signed(*timestamp)),
            ];
            let r = object(members);
            proof {
                lemma_object_value(members@);
                assert(r@->Object_0 =~= (message_doc(m@))->Object_0);
            }
            r
        },
        SessionMessage::BashExecution { command, output, exit_code } => {
            let members: Vec<(String, Json)> = vec![
                member("role", text("bashExecution")),
                member("command", text(command.as_str())),
                member("output", text(output.as_str())),
                member("exitCode", signed(*exit_code as i64)),
            ];
            let r = object(members);
            proof {
                lemma_object_value(members@);
                assert(r@->Object_0 =~= (message_doc(m@))->Object_0);
            }
            r
        },
        SessionMessage::Custom { custom_type, content, display, details, timestamp } => {
            let members: Vec<(String, Json)> = vec![
                member("role", text("custom")),
                member("customType", text(custom_type.as_str())),
                member("content", text(content.as_str())),
                member("display", Json::Bool(*display)),
                member("details", opt_json_doc(details)),
                member("timestamp", opt_signed(*timestamp)),
            ];
            let r = object(members);
            proof {
                lemma_object_value(members@);
                assert(r@->Object_0 =~= (message_doc(m@))->Object_0);
            }
            r
        },
        SessionMessage::BranchSummary { summary, from_id } => {
            let members: Vec<(String, Json)> = vec![
                member("role", text("branchSummary")),
                member("summary", text(summary.as_str())),
                member("fromId", text(from_id.as_str())),
            ];
            let r = object(members);
            proof {
                lemma_object_value(members@);
                assert(r@->Object_0 =~= (message_doc(m@))->Object_0);
            }
            r
        },
        SessionMessage::CompactionSummary { summary, tokens_before } => {
            let members: Vec<(String, Json)> = vec![
                member("role", text("compactionSummary")),
                member("summary", text(summary.as_str())),
                member("tokensBefore", unsigned(*tokens_before)),
            ];
            let r = object(members);
            proof {
                lemma_object_value(members@);
                assert(r@->Object_0 =~= (message_doc(m@))->Object_0);
            }
            r
        },
    }
}

fn read_exit_code(doc: &Json, key: &str) -> (r: Option<i32>)
    ensures
        r == as_exit_code(at(doc@, key@)),
{
    match read_signed(doc, key) {
        Some(i) => if -2147483648 <= i && i <= 2147483647 {
            Some(i as i32)
        } else {
            None
        },
        None => None,
    }
}

/// The message of the journal that a document is.
pub fn read_message(doc: &Json) -> (r: Option<SessionMessage>)
    ensures
        match r {
            Some(m) => read_message_doc(doc@) == Some(m@),
            None => read_message_doc(doc@).is_none(),
        },
{
    let null = Json::Null;
    if text_is(doc, "role", "user") {
        match (
            read_user_content(member_or_null(doc, "content", &null)),
            read_opt_signed(doc, "timestamp"),
        ) {
            (Some(content), Some(timestamp)) => Some(SessionMessage::User { content, timestamp }),
            _ => None,
        }
    } else if text_is(doc, "role", "assistant") {
        match read_assistant(doc) {
            Some(message) => Some(SessionMessage::Assistant { message }),
            None => None,
        }
    } else if text_is(doc, "role", "toolResult") {
        match (
            read_text(doc, "toolCallId"),
            read_text(doc, "toolName"),
            read_blocks(member_or_null(doc, "content", &null)),
            read_bool(doc, "isError"),
            read_opt_signed(doc, "timestamp"),
        ) {
            (
                Some(tool_call_id),
                Some(tool_name),
                Some(content),
                Some(is_error),
                Some(timestamp),
            ) => Some(
                SessionMessage::ToolResult {
                    tool_call_id,
                    tool_name,
                    content,
                    details: read_opt_doc(doc, "details"),
                    is_error,
                    timestamp,
                },
            ),
            _ => None,
        }
    } else if text_is(doc, "role", "bashExecution") {
        match (read_text(doc, "command"), read_text(doc, "output"), read_exit_code(doc, "exitCode")) {
            (Some(command), Some(output), Some(exit_code)) => Some(
                SessionMessage::BashExecution { command, output, exit_code },
            ),
            _ => None,
        }
    } else if text_is(doc, "role", "custom") {
        match (
            read_text(doc, "customType"),
            read_text(doc, "content"),
            read_bool(doc, "display"),
            read_opt_signed(doc, "timestamp"),
        ) {
            (Some(custom_type), Some(content), Some(display), Some(timestamp)) => Some(
                SessionMessage::Custom {
                    custom_type,
                    content,
                    display,
                    details: read_opt_doc(doc, "details"),
                    timestamp,
                },
            ),
            _ => None,
        }
    } else if text_is(doc, "role", "branchSummary") {
        match (read_text(doc, "summary"), read_text(doc, "fromId")) {
            (Some(summary), Some(from_id)) => Some(
                SessionMessage::BranchSummary { summary, from_id },
            ),
            _ => None,
        }
    } else if text_is(doc, "role", "compactionSummary") {
        match (read_text(doc, "summary"), read_unsigned(doc, "tokensBefore")) {
            (Some(summary), Some(tokens_before)) => Some(
                SessionMessage::CompactionSummary { summary, tokens_before },
            ),
            _ => None,
        }
    } else {
        None
    }
}

/// The document of an entry.
pub fn entry_json(e: &SessionEntry) -> (r: Json)
    ensures
        r@ == entry_doc(e@),
{
    let mut members: Vec<(String, Json)> = vec![
        member("id", text(e.base.id.as_str())),
        member("parentId", opt_text_json(&e.base.parent_id)),
        member("timestamp", text(e.base.timestamp.as_str())),
    ];
    let name: &str = match &e.kind {
        EntryKind::Message { message } => {
            members.push(member("message", message_json(message)));
            "message"
        },
        EntryKind::ModelChange { provider, model_id } => {
            members.push(member("provider", text(provider.as_str())));
            members.push(member("modelId", text(model_id.as_str())));
            "model_change"
        },
        EntryKind::ThinkingLevelChange { thinking_level } => {
            members.push(member("thinkingLevel", text(thinking_level.as_str())));
            "thinking_level_change"
        },
        EntryKind::SessionInfo { name } => {
            members.push(member("name", opt_text_json(name)));
            "session_info"
        },
        EntryKind::Label { target_id, label } => {
            members.push(member("targetId", text(target_id.as_str())));
            members.push(member("label", opt_text_json(label)));
            "label"
        },
        EntryKind::Compaction { summary, first_kept_entry_id, tokens_before, details, from_hook } => {
            members.push(member("summary", text(summary.as_str())));
            members.push(member("firstKeptEntryId", text(first_kept_entry_id.as_str())));
            members.push(member("tokensBefore", unsigned(*tokens_before)));
            members.push(member("details", opt_json_doc(details)));
            members.push(member("fromHook", opt_bool(*from_hook)));
            "compaction"
        },
        EntryKind::BranchSummary { from_id, summary } => {
            members.push(member("fromId", text(from_id.as_str())));
            members.push(member("summary", text(summary.as_str())));
            "branch_summary"
        },
        EntryKind::Custom { custom_type, data } => {
            members.push(member("customType", text(custom_type.as_str())));
            members.push(member("data", opt_json_doc(data)));
            "custom"
        },
    };
    members.insert(0, member("type", text(name)));
    proof {
        lemma_object_value(members@);
        assert(object_value(members@) =~= known_members(e@));
    }
    let ghost extra = object_value(e.extra@);
    let mut k: usize = 0;
    proof {
        lemma_object_value(e.extra@);
        assert(known_members(e@) + extra.take(0) =~= known_members(e@));
    }
    while k < e.extra.len()
        invariant
            k <= e.extra.len(),
            extra == object_value(e.extra@),
            extra.len() == e.extra@.len(),
            forall|i: int| 0 <= i < e.extra@.len() ==> (#[trigger] extra[i]) == (
                e.extra@[i].0@,
                e.extra@[i].1@,
            ),
            object_value(members@) == known_members(e@) + extra.take(k as int),
        decreases e.extra.len() - k,
    {
        let ghost before = members@;
        let key = e.extra[k].0.clone();
        let value = e.extra[k].1.clone();
        members.push((key, value));
        proof {
            assert(members@.drop_last() =~= before);
            assert(object_value(members@) == object_value(before).push((key@, value@)));
            assert(extra.take(k + 1) =~= extra.take(k as int).push(extra[k as int]));
            assert(object_value(members@) =~= known_members(e@) + extra.take(k + 1));
        }
        k += 1;
    }
    proof {
        assert(extra.take(k as int) =~= extra);
    }
    object(members)
}

/// Whether the format gives a key a meaning in the document of an entry.
pub fn entry_key(key: &str) -> (r: bool)
    ensures
        r == is_entry_key(key@),
{
    str_eq(key, "type") || str_eq(key, "id") || str_eq(key, "parentId") || str_eq(key, "timestamp")
        || str_eq(key, "message") || str_eq(key, "provider") || str_eq(key, "modelId") || str_eq(
        key,
        "thinkingLevel",
    ) || str_eq(key, "name") || str_eq(key, "targetId") || str_eq(key, "label") || str_eq(
        key,
        "summary",
    ) || str_eq(key, "firstKeptEntryId") || str_eq(key, "tokensBefore") || str_eq(key, "details")
        || str_eq(key, "fromHook") || str_eq(key, "fromId") || str_eq(key, "customType") || str_eq(
        key,
        "data",
    )
}

/// The members of a document that the format does not know, in their
/// order.
pub fn read_extra(doc: &Json) -> (r: Vec<(String, Json)>)
    ensures
        object_value(r@) == unknown_members(doc_members(doc@)),
{
    let mut out: Vec<(String, Json)> = Vec::new();
    match doc {
        Json::Object(members) => {
            let ghost all = object_value(members@);
            let mut i: usize = 0;
            proof {
                lemma_object_value(members@);
                assert(all.take(0) =~= Seq::<Member>::empty());
            }
            while i < members.len()
                invariant
                    i <= members.len(),
                    all == object_value(members@),
                    all.len() == members@.len(),
                    forall|k: int| 0 <= k < members@.len() ==> (#[trigger] all[k]) == (
                        members@[k].0@,
                        members@[k].1@,
                    ),
                    object_value(out@) == unknown_members(all.take(i as int)),
                decreases members.len() - i,
            {
                proof {
                    assert(all.take(i + 1).drop_last() =~= all.take(i as int));
                    assert(all.take(i + 1).last() == all[i as int]);
                }
                if !entry_key(members[i].0.as_str()) {
                    let ghost before = out@;
                    let key = members[i].0.clone();
                    let value = members[i].1.clone();
                    out.push((key, value));
                    proof {
                        assert(out@.drop_last() =~= before);
                        assert(object_value(out@) == object_value(before).push((key@, value@)));
                    }
                }
                i += 1;
            }
            proof {
                assert(all.take(i as int) =~= all);
            }
        },
        _ => {},
    }
    out
}

/// What an entry records, from its document.
pub fn read_kind(doc: &Json) -> (r: Option<EntryKind>)
    ensures
        match r {
            Some(k) => read_kind_doc(doc@) == Some(k@),
            None => read_kind_doc(doc@).is_none(),
        },
{
    let null = Json::Null;
    if text_is(doc, "type", "message") {
        match read_message(member_or_null(doc, "message", &null)) {
            Some(message) => Some(EntryKind::Message { message }),
            None => None,
        }
    } else if text_is(doc, "type", "model_change") {
        match (read_text(doc, "provider"), read_text(doc, "modelId")) {
            (Some(provider), Some(model_id)) => Some(EntryKind::ModelChange { provider, model_id }),
            _ => None,
        }
    } else if text_is(doc, "type", "thinking_level_change") {
        match read_text(doc, "thinkingLevel") {
            Some(thinking_level) => Some(EntryKind::ThinkingLevelChange { thinking_level }),
            None => None,
        }
    } else if text_is(doc, "type", "session_info") {
        match read_opt_text(doc, "name") {
            Some(name) => Some(EntryKind::SessionInfo { name }),
            None => None,
        }
    } else if text_is(doc, "type", "label") {
        match (read_text(doc, "targetId"), read_opt_text(doc, "label")) {
            (Some(target_id), Some(label)) => Some(EntryKind::Label { target_id, label }),
            _ => None,
        }
    } else if text_is(doc, "type", "compaction") {
        match (
            read_text(doc, "summary"),
            read_text(doc, "firstKeptEntryId"),
            read_unsigned(doc, "tokensBefore"),
            read_opt_bool(doc, "fromHook"),
        ) {
            (Some(summary), Some(first_kept_entry_id), Some(tokens_before), Some(from_hook)) => Some(
                EntryKind::Compaction {
                    summary,
                    first_kept_entry_id,
                    tokens_before,
                    details: read_opt_doc(doc, "details"),
                    from_hook,
                },
            ),
            _ => None,
        }
    } else if text_is(doc, "type", "branch_summary") {
        match (read_text(doc, "fromId"), read_text(doc, "summary")) {
            (Some(from_id), Some(summary)) => Some(EntryKind::BranchSummary { from_id, summary }),
            _ => None,
        }
    } else if text_is(doc, "type", "custom") {
        match read_text(doc, "customType") {
            Some(custom_type) => Some(
                EntryKind::Custom { custom_type, data: read_opt_doc(doc, "data") },
            ),
            None => None,
        }
    } else {
        None
    }
}

/// The entries that documents are, in order. A line that is no document
/// and a document that is no entry are skipped. An entry without an id
/// gets the id that the next entry would get among those read before it.
pub open spec fn read_entries(docs: Seq<Option<JsonV>>) -> Seq<SessionEntryV>
    decreases docs.len(),
{
    if docs.len() == 0 {
        Seq::empty()
    } else {
        let before = read_entries(docs.drop_last());
        match docs.last() {
            Some(d) => match read_entry_doc(d, fresh_id_of(before)) {
                Some(e) => before.push(e),
                None => before,
            },
            None => before,
        }
    }
}

/// The id of the last entry.
pub open spec fn last_id(entries: Seq<SessionEntryV>) -> Option<Seq<char>> {
    if entries.len() == 0 {
        None
    } else {
        Some(entries.last().base.id)
    }
}

/// The documents of entries, in order.
pub open spec fn entry_docs(entries: Seq<SessionEntryV>) -> Seq<Option<JsonV>> {
    entries.map_values(|e: SessionEntryV| Some(entry_doc(e)))
}

/// The session that a header document and the lines after it are: the
/// leaf is the last entry.
pub open spec fn reloaded(header: JsonV, docs: Seq<Option<JsonV>>) -> Option<SessionV> {
    match read_header_doc(header) {
        Some(h) => Some(
            SessionV {
                header: h,
                entries: read_entries(docs),
                leaf_id: last_id(read_entries(docs)),
            },
        ),
        None => None,
    }
}

/// Entries that are written and read back are the same entries.
pub proof fn lemma_entries_round_trip(entries: Seq<SessionEntryV>)
    requires
        forall|i: int| 0 <= i < entries.len() ==> entry_kept(#[trigger] entries[i]),
    ensures
        read_entries(entry_docs(entries)) == entries,
    decreases entries.len(),
{
    if entries.len() > 0 {
        let before = entries.drop_last();
        assert forall|i: int| 0 <= i < before.len() implies entry_kept(#[trigger] before[i]) by {
            assert(before[i] == entries[i]);
        }
        lemma_entries_round_trip(before);
        assert(entry_docs(entries).drop_last() =~= entry_docs(before));
        assert(entry_docs(entries).last() == Some(entry_doc(entries.last())));
        assert(entry_kept(entries[entries.len() - 1]));
        lemma_entry_round_trip(entries.last(), fresh_id_of(before));
        assert(before.push(entries.last()) =~= entries);
    } else {
        assert(entry_docs(entries) =~= Seq::<Option<JsonV>>::empty());
        assert(entries =~= Seq::<SessionEntryV>::empty());
    }
}

/// A session that is saved and loaded again has the same header and the
/// same entries in the same order, and its leaf is its last entry. This is
/// stated of the documents of the file; it holds of every session whose
/// optional documents are not `null`, which a file cannot tell from none.
pub proof fn lemma_reload(session: SessionV)
    requires
        header_kept(session.header),
        forall|i: int| 0 <= i < session.entries.len() ==> entry_kept(#[trigger] session.entries[i]),
    ensures
        reloaded(header_doc(session.header), entry_docs(session.entries)) == Some(
            SessionV { leaf_id: last_id(session.entries), ..session },
        ),
{
    lemma_header_round_trip(session.header);
    lemma_entries_round_trip(session.entries);
}

/// A line that cannot be read changes nothing of what is loaded, wherever
/// it stands.
pub proof fn lemma_unreadable_line_is_skipped(docs: Seq<Option<JsonV>>, at: int)
    requires
        0 <= at <= docs.len(),
    ensures
        read_entries(docs.insert(at, None)) == read_entries(docs),
    decreases docs.len() - at,
{
    let with = docs.insert(at, None);
    if at == docs.len() {
        assert(with.drop_last() =~= docs);
    } else {
        assert(with.drop_last() =~= docs.drop_last().insert(at, None));
        assert(with.last() == docs.last());
        lemma_unreadable_line_is_skipped(docs.drop_last(), at);
    }
}

/// The document that a line of a file is: none for a blank line and for a
/// line that is no JSON.
pub open spec fn line_doc(line: Seq<char>) -> Option<JsonV> {
    if trimmed(line).len() == 0 {
        None
    } else {
        match parsed_json(trimmed(line)) {
            Ok(doc) => Some(doc),
            Err(_) => None,
        }
    }
}

/// The position of the first line at or after `from` that is not blank,
/// or the number of lines.
pub open spec fn first_content(lines: Seq<Seq<char>>, from: int) -> int
    decreases lines.len() - from,
{
    if from < 0 || from >= lines.len() {
        lines.len() as int
    } else if trimmed(lines[from]).len() != 0 {
        from
    } else {
        first_content(lines, from + 1)
    }
}

/// What loading the text of a session file comes to. The first line that is
/// not blank must be the header; a file without one is empty. Every later
/// line is an entry, or is skipped.
pub open spec fn loaded(text: Seq<char>) -> Result<SessionV, ErrorV> {
    let lines = lines_of(text);
    let head = first_content(lines, 0);
    if head >= lines.len() {
        Err(ErrorV::Session("Empty session file"@))
    } else {
        let header = match line_doc(lines[head]) {
            Some(d) => read_header_doc(d),
            None => None,
        };
        match header {
            Some(h) => {
                let entries = read_entries(
                    lines.skip(head + 1).map_values(|l: Seq<char>| line_doc(l)),
                );
                Ok(SessionV { header: h, entries, leaf_id: last_id(entries) })
            },
            None => Err(ErrorV::Session("Invalid session header"@)),
        }
    }
}

/// The text of a file: each document on a line of its own.
pub open spec fn lines_text(docs: Seq<JsonV>) -> Seq<char>
    decreases docs.len(),
{
    if docs.len() == 0 {
        Seq::empty()
    } else {
        (lines_text(docs.drop_last()) + crate::json::compact_text(docs.last())).push('\n')
    }
}

/// The documents of a session's file: the header, then the entries.
pub open spec fn session_docs(session: SessionV) -> Seq<JsonV> {
    seq![header_doc(session.header)] + session.entries.map_values(|e: SessionEntryV| entry_doc(e))
}

fn parse_line(line: &[char]) -> (r: Option<Json>)
    ensures
        match r {
            Some(d) => line_doc(line@) == Some(d@),
            None => line_doc(line@).is_none(),
        },
{
    let t = trim_chars(line);
    if t.len() == 0 {
        return None;
    }
    let text = string_of(t.as_slice());
    match Json::parse(text.as_str()) {
        Ok(d) => Some(d),
        Err(_) => None,
    }
}

impl Session {
    /// The documents of the session's file: the header, then the entries.
    pub fn to_documents(&self) -> (r: Vec<Json>)
        ensures
            crate::ext_log::docs_view(r@) == session_docs(self@),
    {
        let mut out: Vec<Json> = Vec::new();
        out.push(header_json(&self.header));
        let mut i: usize = 0;
        while i < self.entries.len()
            invariant
                i <= self.entries.len(),
                out@.len() == i + 1,
                out@[0]@ == header_doc(self@.header),
                forall|k: int| 0 <= k < i ==> (#[trigger] out@[k + 1])@ == entry_doc(self.entries@[k]@),
            decreases self.entries.len() - i,
        {
            out.push(entry_json(&self.entries[i]));
            i += 1;
        }
        proof {
            let docs = crate::ext_log::docs_view(out@);
            let want = session_docs(self@);
            assert(docs.len() == want.len());
            assert forall|k: int| 0 <= k < docs.len() implies docs[k] == want[k] by {
                if k > 0 {
                    assert(out@[(k - 1) + 1]@ == entry_doc(self.entries@[k - 1]@));
                }
            }
            assert(docs =~= want);
        }
        out
    }

    /// The text of the session's file: one document to a line.
    pub fn to_jsonl(&self) -> (r: String)
        ensures
            r@ == lines_text(session_docs(self@)),
    {
        let docs = self.to_documents();
        let ghost all = crate::ext_log::docs_view(docs@);
        let mut out = String::new();
        let mut i: usize = 0;
        assert(all.take(0) =~= Seq::<JsonV>::empty());
        while i < docs.len()
            invariant
                i <= docs.len(),
                all == crate::ext_log::docs_view(docs@),
                out@ == lines_text(all.take(i as int)),
            decreases docs.len() - i,
        {
            proof {
                assert(all.take(i + 1).drop_last() =~= all.take(i as int));
                assert(all.take(i + 1).last() == docs@[i as int]@);
            }
            out.append(docs[i].to_compact().as_str());
            push_char(&mut out, '\n');
            assert(out@ =~= lines_text(all.take(i + 1)));
            i += 1;
        }
        assert(all.take(i as int) =~= all);
        out
    }

    /// Loads a session from the text of its file.
    pub fn from_jsonl(text: &str) -> (r: Result<Session, Error>)
        ensures
            match loaded(text@) {
                Ok(session) => r is Ok && r->Ok_0@ == session && r->Ok_0.path is None,
                Err(e) => r is Err && r->Err_0@ == e,
            },
    {
        let lines = split_lines(text);
        let ghost all = lines_of(text@);
        let mut head: usize = 0;
        while head < lines.len() && is_blank_line(&lines[head])
            invariant
                head <= lines.len(),
                lines@.map_values(|l: Vec<char>| l@) == all,
                first_content(all, 0) == first_content(all, head as int),
            decreases lines.len() - head,
        {
            assert(all[head as int] == lines@[head as int]@);
            head += 1;
        }
        if head >= lines.len() {
            return Err(Error::session("Empty session file"));
        }
        assert(all[head as int] == lines@[head as int]@);
        let header = match parse_line(lines[head].as_slice()) {
            Some(d) => read_header(&d),
            None => None,
        };
        let header = match header {
            Some(h) => h,
            None => {
                return Err(Error::session("Invalid session header"));
            },
        };
        let mut session = Session { header, entries: Vec::new(), leaf_id: None, path: None };
        let ghost docs = all.skip(head + 1).map_values(|l: Seq<char>| line_doc(l));
        let mut i: usize = head + 1;
        proof {
            assert(docs.take(0) =~= Seq::<Option<JsonV>>::empty());
            assert(session@.entries =~= Seq::<SessionEntryV>::empty());
        }
        while i < lines.len()
            invariant
                head < i <= lines.len(),
                all == lines_of(text@),
                lines@.map_values(|l: Vec<char>| l@) == all,
                docs == all.skip(head + 1).map_values(|l: Seq<char>| line_doc(l)),
                session@.header == loaded(text@)->Ok_0.header,
                loaded(text@) is Ok,
                first_content(all, 0) == head,
                session@.entries == read_entries(docs.take(i - head - 1)),
                session@.leaf_id == last_id(session@.entries),
                session.path is None,
            decreases lines.len() - i,
        {
            proof {
                assert(all[i as int] == lines@[i as int]@);
                assert(docs.take(i - head).drop_last() =~= docs.take(i - head - 1));
                assert(docs.take(i - head).last() == line_doc(all[i as int]));
            }
            match parse_line(lines[i].as_slice()) {
                Some(d) => {
                    let given = read_opt_text(&d, "id");
                    let fallback = match given {
                        Some(None) => session.fresh_id(),
                        _ => String::new(),
                    };
                    match read_entry(&d, fallback.as_str()) {
                        Some(e) => {
                            let ghost before = session@.entries;
                            session.leaf_id = Some(e.base.id.clone());
                            session.entries.push(e);
                            assert(session@.entries =~= before.push(e@));
                        },
                        None => {},
                    }
                },
                None => {},
            }
            i += 1;
        }
        proof {
            assert(docs.take(i - head - 1) =~= docs);
        }
        Ok(session)
    }
}

/// What opening the session file at a path comes to, from what reading
/// the file gave: the session that the text holds, with the path as its
/// own; `SessionNotFound` for a file that is not there; the I/O error for
/// any other failure to read.
pub open spec fn opened(path: Seq<char>, read: Result<Seq<char>, IoFailureV>) -> Result<
    (SessionV, Option<Seq<char>>),
    ErrorV,
> {
    match read {
        Ok(text) => match loaded(text) {
            Ok(session) => Ok((session, Some(path))),
            Err(e) => Err(e),
        },
        Err(failure) => if failure.kind == IoKind::NotFound {
            Err(ErrorV::SessionNotFound { path })
        } else {
            Err(ErrorV::Io(failure))
        },
    }
}

impl Session {
    /// Opens the session file at `path`, given what reading the file gave.
    pub fn open(path: &str, read: Result<String, IoFailure>) -> (r: Result<Session, Error>)
        ensures
            match opened(
                path@,
                match read {
                    Ok(text) => Ok(text@),
                    Err(failure) => Err(failure@),
                },
            ) {
                Ok((session, file)) => r is Ok && r->Ok_0@ == session && opt_text(r->Ok_0.path)
                    == file,
                Err(e) => r is Err && r->Err_0@ == e,
            },
    {
        match read {
            Ok(text) => match Session::from_jsonl(text.as_str()) {
                Ok(session) => {
                    let mut session = session;
                    session.path = Some(String::from_str(path));
                    Ok(session)
                },
                Err(e) => Err(e),
            },
            Err(failure) => match failure.kind {
                IoKind::NotFound => Err(Error::SessionNotFound { path: String::from_str(path) }),
                _ => Err(Error::Io(failure)),
            },
        }
    }
}

fn is_blank_line(line: &Vec<char>) -> (r: bool)
    ensures
        r == (trimmed(line@).len() == 0),
{
    trim_chars(line.as_slice()).len() == 0
}

/// The entry that a document is; an entry without an id gets the one
/// given.
pub fn read_entry(doc: &Json, id_if_missing: &str) -> (r: Option<SessionEntry>)
    ensures
        match r {
            Some(e) => read_entry_doc(doc@, id_if_missing@) == Some(e@),
            None => read_entry_doc(doc@, id_if_missing@).is_none(),
        },
        as_opt_text(at(doc@, "id"@)) != Some(None::<Seq<char>>) ==> forall|other: Seq<char>|
            #[trigger] read_entry_doc(doc@, other) == read_entry_doc(doc@, id_if_missing@),
{
    let id = read_opt_text(doc, "id");
    let parent_id = read_opt_text(doc, "parentId");
    let timestamp = read_text(doc, "timestamp");
    let kind = read_kind(doc);
    match (id, parent_id, timestamp, kind) {
        (Some(id), Some(parent_id), Some(timestamp), Some(kind)) => Some(
            SessionEntry {
                base: EntryBase {
                    id: match id {
                        Some(given) => given,
                        None => String::from_str(id_if_missing),
                    },
                    parent_id,
                    timestamp,
                },
                kind,
                extra: read_extra(doc),
            },
        ),
        _ => None,
    }
}

} // verus!
