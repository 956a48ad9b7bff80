//! Extension logs made comparable: what changes from run to run is put
//! behind fixed placeholders, so that two logs of the same behaviour are
//! equal line for line.

use crate::json::{
    array_value, lemma_array_value, lemma_object_value, object_value, Json, JsonNumber, JsonV,
    NumberV,
};
use crate::json::parsed_json;
use crate::text::{
    chars_le, chars_of, decimal, decimal_string, has_prefix, lex_le, lines_of, matches_at,
    occurs_at, push_char, split_lines, str_eq, string_of, trim_chars, trimmed,
};
use vstd::prelude::*;

verus! {

/// What stands for the time of a line.
pub const PLACEHOLDER_TS: &'static str = "<ts>";

/// What stands for the host of a line.
pub const PLACEHOLDER_HOST: &'static str = "<host>";

/// What stands for the id of the session.
pub const PLACEHOLDER_SESSION_ID: &'static str = "<session_id>";

/// What stands for the id of the run.
pub const PLACEHOLDER_RUN_ID: &'static str = "<run_id>";

/// What stands for the id of the artifact.
pub const PLACEHOLDER_ARTIFACT_ID: &'static str = "<artifact_id>";

/// What stands for the id of the trace.
pub const PLACEHOLDER_TRACE_ID: &'static str = "<trace_id>";

/// What stands for the id of the span.
pub const PLACEHOLDER_SPAN_ID: &'static str = "<span_id>";

/// What stands for the working directory in a string.
pub const PLACEHOLDER_CWD: &'static str = "<cwd>";

/// Whether a character can stand among the parameters of an ANSI control
/// sequence: a digit or `;`.
pub open spec fn is_csi_param(c: char) -> bool {
    ('0' <= c && c <= '9') || c == ';'
}

/// Whether a character can end an ANSI control sequence: an ASCII letter.
pub open spec fn is_csi_final(c: char) -> bool {
    ('a' <= c && c <= 'z') || ('A' <= c && c <= 'Z')
}

/// How many parameter characters stand in a row from `at`.
pub open spec fn csi_params(s: Seq<char>, at: int) -> nat
    decreases s.len() - at,
{
    if 0 <= at < s.len() && is_csi_param(s[at]) {
        1 + csi_params(s, at + 1)
    } else {
        0
    }
}

/// The length of the ANSI control sequence that begins at `at`: ESC, `[`,
/// parameters and a letter. Zero where none begins there.
pub open spec fn csi_len(s: Seq<char>, at: int) -> nat {
    if 0 <= at && at + 1 < s.len() && s[at] == '\u{1b}' && s[at + 1] == '[' {
        let params = csi_params(s, at + 2);
        if at + 2 + params < s.len() && is_csi_final(s[at + 2 + params]) {
            params + 3
        } else {
            0
        }
    } else {
        0
    }
}

/// The text from `at` on without its ANSI control sequences.
pub open spec fn without_ansi_from(s: Seq<char>, at: int) -> Seq<char>
    decreases s.len() - at,
{
    if at < 0 || at >= s.len() {
        Seq::empty()
    } else if csi_len(s, at) > 0 {
        without_ansi_from(s, at + csi_len(s, at))
    } else {
        seq![s[at]] + without_ansi_from(s, at + 1)
    }
}

/// The text without its ANSI control sequences.
pub open spec fn without_ansi(s: Seq<char>) -> Seq<char> {
    without_ansi_from(s, 0)
}

/// The text from `at` on with every occurrence of `pattern` replaced, from
/// left to right, occurrences that overlap an earlier one left out.
pub open spec fn replaced_from(s: Seq<char>, pattern: Seq<char>, with: Seq<char>, at: int) -> Seq<
    char,
>
    decreases s.len() - at,
{
    if at < 0 || at >= s.len() {
        Seq::empty()
    } else if pattern.len() > 0 && occurs_at(s, pattern, at) {
        with + replaced_from(s, pattern, with, at + pattern.len())
    } else {
        seq![s[at]] + replaced_from(s, pattern, with, at + 1)
    }
}

/// The text with every occurrence of `pattern` replaced; an empty pattern
/// replaces nothing.
pub open spec fn replaced(s: Seq<char>, pattern: Seq<char>, with: Seq<char>) -> Seq<char> {
    replaced_from(s, pattern, with, 0)
}

/// The path with `\` in place of every `/`.
pub open spec fn backslashed(path: Seq<char>) -> Seq<char> {
    path.map_values(
        |c: char|
            if c == '/' {
                '\\'
            } else {
                c
            },
    )
}

/// A string of a log as it is compared: without ANSI control sequences, and
/// with `<cwd>` in place of the working directory, written with `/` or
/// with `\`.
pub open spec fn normal_text(s: Seq<char>, cwd: Seq<char>) -> Seq<char> {
    replaced(replaced(without_ansi(s), cwd, PLACEHOLDER_CWD@), backslashed(cwd), PLACEHOLDER_CWD@)
}

/// How many parameter characters stand in a row from `at`.
pub fn count_csi_params(s: &[char], at: usize) -> (n: usize)
    requires
        at <= s@.len(),
    ensures
        n == csi_params(s@, at as int),
        at + n <= s@.len(),
{
    let mut i: usize = at;
    while i < s.len() && (('0' <= s[i] && s[i] <= '9') || s[i] == ';')
        invariant
            at <= i <= s@.len(),
            csi_params(s@, at as int) == (i - at) + csi_params(s@, i as int),
        decreases s.len() - i,
    {
        i += 1;
    }
    i - at
}

/// The length of the ANSI control sequence that begins at `at`, or zero.
pub fn ansi_sequence_len(s: &[char], at: usize) -> (n: usize)
    requires
        at < s@.len(),
    ensures
        n == csi_len(s@, at as int),
        at + n <= s@.len(),
{
    if s.len() - at < 2 || s[at] != '\u{1b}' || s[at + 1] != '[' {
        return 0;
    }
    let params = count_csi_params(s, at + 2);
    let end = at + 2 + params;
    if end < s.len() && (('a' <= s[end] && s[end] <= 'z') || ('A' <= s[end] && s[end] <= 'Z')) {
        params + 3
    } else {
        0
    }
}

/// The characters without the ANSI control sequences among them.
pub fn strip_ansi(s: &[char]) -> (r: Vec<char>)
    ensures
        r@ == without_ansi(s@),
{
    let mut out: Vec<char> = Vec::new();
    let mut i: usize = 0;
    while i < s.len()
        invariant
            i <= s@.len(),
            without_ansi(s@) == out@ + without_ansi_from(s@, i as int),
        decreases s.len() - i,
    {
        let n = ansi_sequence_len(s, i);
        if n > 0 {
            i += n;
        } else {
            let ghost before = out@;
            out.push(s[i]);
            assert(out@ + without_ansi_from(s@, i + 1) =~= before + (seq![s@[i as int]]
                + without_ansi_from(s@, i + 1)));
            i += 1;
        }
    }
    assert(out@ + without_ansi_from(s@, i as int) =~= out@);
    out
}

/// The characters with every occurrence of `pattern` replaced by `with`.
pub fn replace_all(s: &[char], pattern: &[char], with: &[char]) -> (r: Vec<char>)
    ensures
        r@ == replaced(s@, pattern@, with@),
{
    let mut out: Vec<char> = Vec::new();
    let mut i: usize = 0;
    while i < s.len()
        invariant
            i <= s@.len(),
            replaced(s@, pattern@, with@) == out@ + replaced_from(s@, pattern@, with@, i as int),
        decreases s.len() - i,
    {
        let ghost before = out@;
        if pattern.len() > 0 && matches_at(s, pattern, i) {
            let mut k: usize = 0;
            while k < with.len()
                invariant
                    k <= with@.len(),
                    out@ == before + with@.take(k as int),
                decreases with.len() - k,
            {
                out.push(with[k]);
                assert(before + with@.take(k + 1) =~= (before + with@.take(k as int)).push(
                    with@[k as int],
                ));
                k += 1;
            }
            assert(with@.take(k as int) =~= with@);
            assert(out@ + replaced_from(s@, pattern@, with@, i + pattern@.len()) =~= before + (
            with@ + replaced_from(s@, pattern@, with@, i + pattern@.len())));
            i += pattern.len();
        } else {
            out.push(s[i]);
            assert(out@ + replaced_from(s@, pattern@, with@, i + 1) =~= before + (seq![
                s@[i as int],
            ] + replaced_from(s@, pattern@, with@, i + 1)));
            i += 1;
        }
    }
    assert(out@ + replaced_from(s@, pattern@, with@, i as int) =~= out@);
    out
}

/// The path with `\` in place of every `/`.
pub fn with_backslashes(path: &[char]) -> (r: Vec<char>)
    ensures
        r@ == backslashed(path@),
{
    let mut out: Vec<char> = Vec::new();
    let mut i: usize = 0;
    while i < path.len()
        invariant
            i <= path@.len(),
            out@ == backslashed(path@.take(i as int)),
        decreases path.len() - i,
    {
        let c = if path[i] == '/' {
            '\\'
        } else {
            path[i]
        };
        out.push(c);
        assert(out@ =~= backslashed(path@.take(i + 1)));
        i += 1;
    }
    assert(path@.take(i as int) =~= path@);
    out
}

/// A string of a log as it is compared.
pub fn normalize_string(input: &str, cwd: &str) -> (r: String)
    ensures
        r@ == normal_text(input@, cwd@),
{
    let s = chars_of(input);
    let dir = chars_of(cwd);
    let mark = chars_of(PLACEHOLDER_CWD);
    let plain = strip_ansi(s.as_slice());
    let first = replace_all(plain.as_slice(), dir.as_slice(), mark.as_slice());
    let other = with_backslashes(dir.as_slice());
    let second = replace_all(first.as_slice(), other.as_slice(), mark.as_slice());
    string_of(second.as_slice())
}

/// A member of a JSON object: its key and its value.
pub type MemberV = (Seq<char>, JsonV);

/// A document with every string in it as it is compared. Keys are left as
/// they are.
pub open spec fn normal_strings(v: JsonV, cwd: Seq<char>) -> JsonV
    decreases v,
{
    match v {
        JsonV::Text(s) => JsonV::Text(normal_text(s, cwd)),
        JsonV::Array(items) => JsonV::Array(normal_items(items, cwd)),
        JsonV::Object(members) => JsonV::Object(normal_members(members, cwd)),
        _ => v,
    }
}

/// `normal_strings` of each item.
pub open spec fn normal_items(items: Seq<JsonV>, cwd: Seq<char>) -> Seq<JsonV>
    decreases items,
{
    if items.len() == 0 {
        Seq::empty()
    } else {
        normal_items(items.drop_last(), cwd).push(normal_strings(items.last(), cwd))
    }
}

/// `normal_strings` of the value of each member.
pub open spec fn normal_members(members: Seq<MemberV>, cwd: Seq<char>) -> Seq<MemberV>
    decreases members,
{
    if members.len() == 0 {
        Seq::empty()
    } else {
        normal_members(members.drop_last(), cwd).push(
            (members.last().0, normal_strings(members.last().1, cwd)),
        )
    }
}

/// How many members at the front have a key that does not come after
/// `key`, before the first that does.
pub open spec fn insert_position(sorted: Seq<MemberV>, key: Seq<char>) -> nat
    decreases sorted.len(),
{
    if sorted.len() == 0 || !lex_le(sorted[0].0, key) {
        0
    } else {
        1 + insert_position(sorted.drop_first(), key)
    }
}

/// `insert_position` is a position in the sequence or its length.
pub proof fn lemma_insert_position(sorted: Seq<MemberV>, key: Seq<char>)
    ensures
        insert_position(sorted, key) <= sorted.len(),
    decreases sorted.len(),
{
    if sorted.len() > 0 && lex_le(sorted[0].0, key) {
        lemma_insert_position(sorted.drop_first(), key);
    }
}

/// The members in the order of their keys; members with the same key stay
/// in the order in which they came.
pub open spec fn sorted_members(members: Seq<MemberV>) -> Seq<MemberV>
    decreases members.len(),
{
    if members.len() == 0 {
        Seq::empty()
    } else {
        let before = sorted_members(members.drop_last());
        before.insert(insert_position(before, members.last().0) as int, members.last())
    }
}

/// A document with the members of every object in the order of their keys.
pub open spec fn canonical(v: JsonV) -> JsonV
    decreases v,
{
    match v {
        JsonV::Array(items) => JsonV::Array(canonical_items(items)),
        JsonV::Object(members) => JsonV::Object(sorted_members(canonical_members(members))),
        _ => v,
    }
}

/// `canonical` of each item.
pub open spec fn canonical_items(items: Seq<JsonV>) -> Seq<JsonV>
    decreases items,
{
    if items.len() == 0 {
        Seq::empty()
    } else {
        canonical_items(items.drop_last()).push(canonical(items.last()))
    }
}

/// `canonical` of the value of each member.
pub open spec fn canonical_members(members: Seq<MemberV>) -> Seq<MemberV>
    decreases members,
{
    if members.len() == 0 {
        Seq::empty()
    } else {
        canonical_members(members.drop_last()).push(
            (members.last().0, canonical(members.last().1)),
        )
    }
}

/// A string becomes the placeholder; anything else stays.
pub open spec fn masked_text(v: JsonV, placeholder: Seq<char>) -> JsonV {
    if v is Text {
        JsonV::Text(placeholder)
    } else {
        v
    }
}

/// A number becomes zero; anything else stays.
pub open spec fn masked_number(v: JsonV) -> JsonV {
    if v is Number {
        JsonV::Number(NumberV::Unsigned(0))
    } else {
        v
    }
}

/// A member of `correlation` with its id behind a placeholder, where the id
/// changes from run to run.
pub open spec fn masked_correlation_member(m: MemberV) -> MemberV {
    if m.0 == "session_id"@ {
        (m.0, masked_text(m.1, PLACEHOLDER_SESSION_ID@))
    } else if m.0 == "run_id"@ {
        (m.0, masked_text(m.1, PLACEHOLDER_RUN_ID@))
    } else if m.0 == "artifact_id"@ {
        (m.0, masked_text(m.1, PLACEHOLDER_ARTIFACT_ID@))
    } else if m.0 == "trace_id"@ {
        (m.0, masked_text(m.1, PLACEHOLDER_TRACE_ID@))
    } else if m.0 == "span_id"@ {
        (m.0, masked_text(m.1, PLACEHOLDER_SPAN_ID@))
    } else {
        m
    }
}

/// A member of `source` with the host and the process id behind
/// placeholders.
pub open spec fn masked_source_member(m: MemberV) -> MemberV {
    if m.0 == "host"@ {
        (m.0, masked_text(m.1, PLACEHOLDER_HOST@))
    } else if m.0 == "pid"@ {
        (m.0, masked_number(m.1))
    } else {
        m
    }
}

/// The members of an object, each as `f` makes it; anything but an object
/// stays.
pub open spec fn with_members(v: JsonV, f: spec_fn(MemberV) -> MemberV) -> JsonV {
    match v {
        JsonV::Object(members) => JsonV::Object(members.map_values(f)),
        _ => v,
    }
}

/// A member of a log line with what changes from run to run behind
/// placeholders: the time, and the dynamic parts of `correlation` and
/// `source`.
pub open spec fn masked_member(m: MemberV) -> MemberV {
    if m.0 == "ts"@ {
        (m.0, masked_text(m.1, PLACEHOLDER_TS@))
    } else if m.0 == "correlation"@ {
        (m.0, with_members(m.1, |c: MemberV| masked_correlation_member(c)))
    } else if m.0 == "source"@ {
        (m.0, with_members(m.1, |c: MemberV| masked_source_member(c)))
    } else {
        m
    }
}

/// A log line with what changes from run to run behind placeholders.
pub open spec fn masked(v: JsonV) -> JsonV {
    with_members(v, |m: MemberV| masked_member(m))
}

/// A document as it is compared apart from the dynamic fields: strings
/// normalised, members in the order of their keys.
pub open spec fn cleaned(v: JsonV, cwd: Seq<char>) -> JsonV {
    canonical(normal_strings(v, cwd))
}

/// A log line as it is compared.
pub open spec fn normalized(v: JsonV, cwd: Seq<char>) -> JsonV {
    cleaned(masked(v), cwd)
}

/// Whether two values are the same, or both strings.
pub open spec fn same_or_both_text(a: JsonV, b: JsonV) -> bool {
    a == b || (a is Text && b is Text)
}

/// Whether two values are the same, or both numbers.
pub open spec fn same_or_both_numbers(a: JsonV, b: JsonV) -> bool {
    a == b || (a is Number && b is Number)
}

/// Whether a key of `correlation` names an id that changes from run to run.
pub open spec fn is_dynamic_id(key: Seq<char>) -> bool {
    key == "session_id"@ || key == "run_id"@ || key == "artifact_id"@ || key == "trace_id"@ || key
        == "span_id"@
}

/// Whether two members of `correlation` differ in a dynamic id at most.
pub open spec fn correlation_members_agree(a: MemberV, b: MemberV) -> bool {
    a.0 == b.0 && if is_dynamic_id(a.0) {
        same_or_both_text(a.1, b.1)
    } else {
        a.1 == b.1
    }
}

/// Whether two members of `source` differ in host and process id at most.
pub open spec fn source_members_agree(a: MemberV, b: MemberV) -> bool {
    a.0 == b.0 && if a.0 == "host"@ {
        same_or_both_text(a.1, b.1)
    } else if a.0 == "pid"@ {
        same_or_both_numbers(a.1, b.1)
    } else {
        a.1 == b.1
    }
}

/// Whether two values are objects whose members agree one by one, or are
/// the same.
pub open spec fn members_agree(a: JsonV, b: JsonV, agree: spec_fn(MemberV, MemberV) -> bool) -> bool {
    match (a, b) {
        (JsonV::Object(x), JsonV::Object(y)) => x.len() == y.len() && forall|i: int|
            0 <= i < x.len() ==> agree(#[trigger] x[i], y[i]),
        _ => a == b,
    }
}

/// Whether two members of a log line differ in dynamic fields at most.
pub open spec fn line_members_agree(a: MemberV, b: MemberV) -> bool {
    a.0 == b.0 && if a.0 == "ts"@ {
        same_or_both_text(a.1, b.1)
    } else if a.0 == "correlation"@ {
        members_agree(a.1, b.1, |x: MemberV, y: MemberV| correlation_members_agree(x, y))
    } else if a.0 == "source"@ {
        members_agree(a.1, b.1, |x: MemberV, y: MemberV| source_members_agree(x, y))
    } else {
        a.1 == b.1
    }
}

/// Whether two log lines differ only in the dynamic fields: the time `ts`,
/// the ids `session_id`, `run_id`, `artifact_id`, `trace_id` and `span_id`
/// of `correlation` where both are strings, and `host` and `pid` of
/// `source` where both are a string and a number.
pub open spec fn differ_in_dynamic_fields_only(a: JsonV, b: JsonV) -> bool {
    members_agree(a, b, |x: MemberV, y: MemberV| line_members_agree(x, y))
}

/// Objects whose members are made by `f` are equal exactly when the
/// objects' members agree one by one, given that `f` makes two members
/// equal exactly when they agree.
pub proof fn lemma_with_members_equal(
    a: JsonV,
    b: JsonV,
    f: spec_fn(MemberV) -> MemberV,
    agree: spec_fn(MemberV, MemberV) -> bool,
)
    requires
        forall|x: MemberV, y: MemberV| (#[trigger] f(x) == #[trigger] f(y)) <==> agree(x, y),
    ensures
        with_members(a, f) == with_members(b, f) <==> members_agree(a, b, agree),
{
    match (a, b) {
        (JsonV::Object(x), JsonV::Object(y)) => {
            let fx = x.map_values(f);
            let fy = y.map_values(f);
            assert(fx.len() == x.len() && fy.len() == y.len());
            if fx == fy {
                assert(x.len() == y.len());
                assert forall|i: int| 0 <= i < x.len() implies agree(#[trigger] x[i], y[i]) by {
                    assert(fx[i] == f(x[i]) && fy[i] == f(y[i]));
                }
            }
            if members_agree(a, b, agree) {
                assert forall|i: int| 0 <= i < x.len() implies fx[i] == fy[i] by {
                    assert(agree(x[i], y[i]));
                    assert(f(x[i]) == f(y[i]));
                }
                assert(fx =~= fy);
            }
        },
        _ => {},
    }
}

/// Two log lines are equal once their dynamic fields are behind
/// placeholders exactly when they differ only in those fields.
pub proof fn lemma_masked_equal(a: JsonV, b: JsonV)
    ensures
        masked(a) == masked(b) <==> differ_in_dynamic_fields_only(a, b),
{
    let fc = |c: MemberV| masked_correlation_member(c);
    let ac = |x: MemberV, y: MemberV| correlation_members_agree(x, y);
    let fs = |c: MemberV| masked_source_member(c);
    let asrc = |x: MemberV, y: MemberV| source_members_agree(x, y);
    let fm = |m: MemberV| masked_member(m);
    let am = |x: MemberV, y: MemberV| line_members_agree(x, y);
    assert forall|x: MemberV, y: MemberV| (#[trigger] fc(x) == #[trigger] fc(y)) <==> ac(x, y) by {}
    assert forall|x: MemberV, y: MemberV| (#[trigger] fs(x) == #[trigger] fs(y)) <==> asrc(x, y) by {}
    assert forall|x: MemberV, y: MemberV| (#[trigger] fm(x) == #[trigger] fm(y)) <==> am(x, y) by {
        lemma_with_members_equal(x.1, y.1, fc, ac);
        lemma_with_members_equal(x.1, y.1, fs, asrc);
    }
    lemma_with_members_equal(a, b, fm, am);
}

/// Two log lines are equal as they are compared exactly when they differ
/// only in the dynamic fields. This is stated of lines that hold nothing
/// else that normalisation changes: once the dynamic fields are behind
/// placeholders, their strings hold no ANSI control sequence and no working
/// directory, and the members of their objects are in the order of their
/// keys.
pub proof fn lemma_normalized_equal_iff_dynamic_fields_differ(a: JsonV, b: JsonV, cwd: Seq<char>)
    requires
        cleaned(masked(a), cwd) == masked(a),
        cleaned(masked(b), cwd) == masked(b),
    ensures
        normalized(a, cwd) == normalized(b, cwd) <==> differ_in_dynamic_fields_only(a, b),
{
    lemma_masked_equal(a, b);
}

/// A member with its value as it is compared apart from the dynamic
/// fields.
pub open spec fn cleaned_member(m: MemberV, cwd: Seq<char>) -> MemberV {
    (m.0, cleaned(m.1, cwd))
}

/// Cleaning the members of an object cleans each member.
pub proof fn lemma_cleaned_members(members: Seq<MemberV>, cwd: Seq<char>)
    ensures
        canonical_members(normal_members(members, cwd)) == members.map_values(
            |m: MemberV| cleaned_member(m, cwd),
        ),
    decreases members.len(),
{
    let want = members.map_values(|m: MemberV| cleaned_member(m, cwd));
    if members.len() == 0 {
        assert(canonical_members(normal_members(members, cwd)) =~= want);
    } else {
        let before = members.drop_last();
        lemma_cleaned_members(before, cwd);
        let normal = normal_members(members, cwd);
        assert(normal.drop_last() =~= normal_members(before, cwd));
        assert(normal.last() == (members.last().0, normal_strings(members.last().1, cwd)));
        assert(canonical_members(normal) =~= want);
    }
}

/// Where a new member goes among sorted members depends on the keys only.
pub proof fn lemma_insert_position_by_keys(a: Seq<MemberV>, b: Seq<MemberV>, key: Seq<char>)
    requires
        a.len() == b.len(),
        forall|i: int| 0 <= i < a.len() ==> (#[trigger] a[i]).0 == b[i].0,
    ensures
        insert_position(a, key) == insert_position(b, key),
    decreases a.len(),
{
    if a.len() > 0 && lex_le(a[0].0, key) {
        assert forall|i: int| 0 <= i < a.drop_first().len() implies (#[trigger] a.drop_first()[i]).0
            == b.drop_first()[i].0 by {
            assert(a.drop_first()[i] == a[i + 1]);
            assert(b.drop_first()[i] == b[i + 1]);
        }
        lemma_insert_position_by_keys(a.drop_first(), b.drop_first(), key);
    }
}

/// Sorting members by their keys and changing their values, one by one,
/// can be done in either order.
pub proof fn lemma_sorted_members_map(members: Seq<MemberV>, g: spec_fn(MemberV) -> MemberV)
    requires
        forall|x: MemberV| (#[trigger] g(x)).0 == x.0,
    ensures
        sorted_members(members.map_values(g)) == sorted_members(members).map_values(g),
    decreases members.len(),
{
    let mapped = members.map_values(g);
    if members.len() == 0 {
        assert(sorted_members(mapped) =~= sorted_members(members).map_values(g));
    } else {
        let before = members.drop_last();
        lemma_sorted_members_map(before, g);
        assert(mapped.drop_last() =~= before.map_values(g));
        assert(mapped.last() == g(members.last()));
        let sorted = sorted_members(before);
        let sorted_mapped = sorted_members(before.map_values(g));
        assert(sorted_mapped == sorted.map_values(g));
        lemma_insert_position_by_keys(sorted_mapped, sorted, members.last().0);
        lemma_insert_position(sorted, members.last().0);
        let at = insert_position(sorted, members.last().0) as int;
        assert(sorted_members(mapped) == sorted_mapped.insert(at, g(members.last())));
        assert(sorted.map_values(g).insert(at, g(members.last())) =~= sorted.insert(
            at,
            members.last(),
        ).map_values(g));
    }
}

/// Cleaning keeps what kind of value a value is.
pub proof fn lemma_cleaned_kind(v: JsonV, cwd: Seq<char>)
    ensures
        cleaned(v, cwd) is Text <==> v is Text,
        cleaned(v, cwd) is Number <==> v is Number,
        cleaned(v, cwd) is Object <==> v is Object,
        v is Number ==> cleaned(v, cwd) == v,
        v is Text ==> cleaned(v, cwd) == JsonV::Text(normal_text(v->Text_0, cwd)),
        v is Object ==> cleaned(v, cwd) == JsonV::Object(
            sorted_members(v->Object_0.map_values(|m: MemberV| cleaned_member(m, cwd))),
        ),
{
    match v {
        JsonV::Object(members) => {
            lemma_cleaned_members(members, cwd);
        },
        _ => {},
    }
}

/// Changing the members of an object one by one and cleaning it can be
/// done in either order, if the change that is made after cleaning is the
/// cleaned form of the change that is made before.
pub proof fn lemma_cleaned_with_members(
    v: JsonV,
    cwd: Seq<char>,
    f: spec_fn(MemberV) -> MemberV,
    g: spec_fn(MemberV) -> MemberV,
)
    requires
        forall|x: MemberV| (#[trigger] g(x)).0 == x.0,
        forall|x: MemberV| cleaned_member(#[trigger] f(x), cwd) == g(cleaned_member(x, cwd)),
    ensures
        cleaned(with_members(v, f), cwd) == with_members(cleaned(v, cwd), g),
{
    lemma_cleaned_kind(v, cwd);
    match v {
        JsonV::Object(members) => {
            let c = |m: MemberV| cleaned_member(m, cwd);
            lemma_cleaned_kind(with_members(v, f), cwd);
            assert(members.map_values(f).map_values(c) =~= members.map_values(c).map_values(g)) by {
                assert forall|i: int| 0 <= i < members.len() implies members.map_values(f).map_values(
                    c,
                )[i] == members.map_values(c).map_values(g)[i] by {
                    assert(c(f(members[i])) == g(c(members[i])));
                }
            }
            lemma_sorted_members_map(members.map_values(c), g);
        },
        _ => {},
    }
}

/// A placeholder as it stands in a line that is compared.
pub open spec fn cleaned_placeholder(placeholder: Seq<char>, cwd: Seq<char>) -> Seq<char> {
    normal_text(placeholder, cwd)
}

/// A member of the cleaned `correlation` with its dynamic id behind the
/// placeholder.
pub open spec fn remasked_correlation_member(m: MemberV, cwd: Seq<char>) -> MemberV {
    if m.0 == "session_id"@ {
        (m.0, masked_text(m.1, cleaned_placeholder(PLACEHOLDER_SESSION_ID@, cwd)))
    } else if m.0 == "run_id"@ {
        (m.0, masked_text(m.1, cleaned_placeholder(PLACEHOLDER_RUN_ID@, cwd)))
    } else if m.0 == "artifact_id"@ {
        (m.0, masked_text(m.1, cleaned_placeholder(PLACEHOLDER_ARTIFACT_ID@, cwd)))
    } else if m.0 == "trace_id"@ {
        (m.0, masked_text(m.1, cleaned_placeholder(PLACEHOLDER_TRACE_ID@, cwd)))
    } else if m.0 == "span_id"@ {
        (m.0, masked_text(m.1, cleaned_placeholder(PLACEHOLDER_SPAN_ID@, cwd)))
    } else {
        m
    }
}

/// A member of the cleaned `source` with the host and the process id
/// behind placeholders.
pub open spec fn remasked_source_member(m: MemberV, cwd: Seq<char>) -> MemberV {
    if m.0 == "host"@ {
        (m.0, masked_text(m.1, cleaned_placeholder(PLACEHOLDER_HOST@, cwd)))
    } else if m.0 == "pid"@ {
        (m.0, masked_number(m.1))
    } else {
        m
    }
}

/// A member of a cleaned log line with its dynamic fields behind
/// placeholders.
pub open spec fn remasked_member(m: MemberV, cwd: Seq<char>) -> MemberV {
    if m.0 == "ts"@ {
        (m.0, masked_text(m.1, cleaned_placeholder(PLACEHOLDER_TS@, cwd)))
    } else if m.0 == "correlation"@ {
        (m.0, with_members(m.1, |c: MemberV| remasked_correlation_member(c, cwd)))
    } else if m.0 == "source"@ {
        (m.0, with_members(m.1, |c: MemberV| remasked_source_member(c, cwd)))
    } else {
        m
    }
}

/// A cleaned log line with its dynamic fields behind placeholders.
pub open spec fn remasked(v: JsonV, cwd: Seq<char>) -> JsonV {
    with_members(v, |m: MemberV| remasked_member(m, cwd))
}

/// Putting the dynamic fields behind placeholders and cleaning can be done
/// in either order: a line as it is compared is the cleaned line with its
/// dynamic fields behind placeholders.
pub proof fn lemma_normalized_is_remasked(v: JsonV, cwd: Seq<char>)
    ensures
        normalized(v, cwd) == remasked(cleaned(v, cwd), cwd),
{
    let fc = |c: MemberV| masked_correlation_member(c);
    let gc = |c: MemberV| remasked_correlation_member(c, cwd);
    let fs = |c: MemberV| masked_source_member(c);
    let gs = |c: MemberV| remasked_source_member(c, cwd);
    let fm = |m: MemberV| masked_member(m);
    let gm = |m: MemberV| remasked_member(m, cwd);
    assert forall|x: MemberV| cleaned_member(#[trigger] fc(x), cwd) == gc(
        cleaned_member(x, cwd),
    ) by {
        lemma_cleaned_kind(x.1, cwd);
        lemma_cleaned_kind(fc(x).1, cwd);
    }
    assert forall|x: MemberV| cleaned_member(#[trigger] fs(x), cwd) == gs(
        cleaned_member(x, cwd),
    ) by {
        lemma_cleaned_kind(x.1, cwd);
        lemma_cleaned_kind(fs(x).1, cwd);
    }
    assert forall|x: MemberV| cleaned_member(#[trigger] fm(x), cwd) == gm(
        cleaned_member(x, cwd),
    ) by {
        lemma_cleaned_kind(x.1, cwd);
        lemma_cleaned_kind(fm(x).1, cwd);
        lemma_cleaned_with_members(x.1, cwd, fc, gc);
        lemma_cleaned_with_members(x.1, cwd, fs, gs);
    }
    lemma_cleaned_with_members(v, cwd, fm, gm);
}

/// Two cleaned log lines are equal once their dynamic fields are behind
/// placeholders exactly when they differ only in those fields.
pub proof fn lemma_remasked_equal(a: JsonV, b: JsonV, cwd: Seq<char>)
    ensures
        remasked(a, cwd) == remasked(b, cwd) <==> differ_in_dynamic_fields_only(a, b),
{
    let fc = |c: MemberV| remasked_correlation_member(c, cwd);
    let ac = |x: MemberV, y: MemberV| correlation_members_agree(x, y);
    let fs = |c: MemberV| remasked_source_member(c, cwd);
    let asrc = |x: MemberV, y: MemberV| source_members_agree(x, y);
    let fm = |m: MemberV| remasked_member(m, cwd);
    let am = |x: MemberV, y: MemberV| line_members_agree(x, y);
    assert forall|x: MemberV, y: MemberV| (#[trigger] fc(x) == #[trigger] fc(y)) <==> ac(x, y) by {}
    assert forall|x: MemberV, y: MemberV| (#[trigger] fs(x) == #[trigger] fs(y)) <==> asrc(x, y) by {}
    assert forall|x: MemberV, y: MemberV| (#[trigger] fm(x) == #[trigger] fm(y)) <==> am(x, y) by {
        lemma_with_members_equal(x.1, y.1, fc, ac);
        lemma_with_members_equal(x.1, y.1, fs, asrc);
    }
    lemma_with_members_equal(a, b, fm, am);
}

/// Two log lines, whatever they hold, are equal as they are compared
/// exactly when their cleaned forms differ only in the dynamic fields:
/// normalisation erases the dynamic fields, and beside them only what
/// cleaning erases.
pub proof fn lemma_normalized_equal_iff_cleaned_differ_in_dynamic_fields(
    a: JsonV,
    b: JsonV,
    cwd: Seq<char>,
)
    ensures
        normalized(a, cwd) == normalized(b, cwd) <==> differ_in_dynamic_fields_only(
            cleaned(a, cwd),
            cleaned(b, cwd),
        ),
{
    lemma_normalized_is_remasked(a, cwd);
    lemma_normalized_is_remasked(b, cwd);
    lemma_remasked_equal(cleaned(a, cwd), cleaned(b, cwd), cwd);
}

/// Whether a character can stand in a placeholder: a small letter, `<`,
/// `>` or `_`.
pub open spec fn is_placeholder_char(c: char) -> bool {
    ('a' <= c && c <= 'z') || c == '<' || c == '>' || c == '_'
}

/// Whether a text is made of characters that can stand in a placeholder.
pub open spec fn is_placeholder_text(s: Seq<char>) -> bool {
    forall|i: int| 0 <= i < s.len() ==> is_placeholder_char(#[trigger] s[i])
}

/// Whether a working directory begins as a path does: with a character
/// that stands in no placeholder, such as `/` or the capital letter of a
/// drive.
pub open spec fn begins_as_path(cwd: Seq<char>) -> bool {
    cwd.len() > 0 && !is_placeholder_char(cwd[0])
}

/// A text without the escape character holds no ANSI control sequence.
pub proof fn lemma_without_ansi_plain(s: Seq<char>, at: int)
    requires
        forall|i: int| 0 <= i < s.len() ==> (#[trigger] s[i]) != '\u{1b}',
        0 <= at <= s.len(),
    ensures
        without_ansi_from(s, at) == s.skip(at),
    decreases s.len() - at,
{
    if at < s.len() {
        lemma_without_ansi_plain(s, at + 1);
        assert(csi_len(s, at) == 0);
        assert(seq![s[at]] + s.skip(at + 1) =~= s.skip(at));
    } else {
        assert(s.skip(at) =~= Seq::<char>::empty());
    }
}

/// A text that does not hold the first character of a pattern is not
/// changed when the pattern is replaced.
pub proof fn lemma_replaced_absent(s: Seq<char>, pattern: Seq<char>, with: Seq<char>, at: int)
    requires
        pattern.len() > 0,
        forall|i: int| 0 <= i < s.len() ==> (#[trigger] s[i]) != pattern[0],
        0 <= at <= s.len(),
    ensures
        replaced_from(s, pattern, with, at) == s.skip(at),
    decreases s.len() - at,
{
    if at < s.len() {
        lemma_replaced_absent(s, pattern, with, at + 1);
        if occurs_at(s, pattern, at) {
            assert(s.subrange(at, at + pattern.len())[0] == pattern[0]);
            assert(s[at] == pattern[0]);
        }
        assert(seq![s[at]] + s.skip(at + 1) =~= s.skip(at));
    } else {
        assert(s.skip(at) =~= Seq::<char>::empty());
    }
}

/// A placeholder is not changed by cleaning, if the working directory
/// begins as a path does.
pub proof fn lemma_placeholder_stays(p: Seq<char>, cwd: Seq<char>)
    requires
        is_placeholder_text(p),
        begins_as_path(cwd),
    ensures
        cleaned_placeholder(p, cwd) == p,
{
    assert forall|i: int| 0 <= i < p.len() implies (#[trigger] p[i]) != '\u{1b}' by {
        assert(is_placeholder_char(p[i]));
    }
    lemma_without_ansi_plain(p, 0);
    assert(p.skip(0) =~= p);
    assert forall|i: int| 0 <= i < p.len() implies (#[trigger] p[i]) != cwd[0] by {
        assert(is_placeholder_char(p[i]));
    }
    lemma_replaced_absent(p, cwd, PLACEHOLDER_CWD@, 0);
    let back = backslashed(cwd);
    assert(back.len() == cwd.len());
    assert(back[0] == cwd[0] || back[0] == '\\');
    assert forall|i: int| 0 <= i < p.len() implies (#[trigger] p[i]) != back[0] by {
        assert(is_placeholder_char(p[i]));
    }
    lemma_replaced_absent(p, back, PLACEHOLDER_CWD@, 0);
}

/// Each of the placeholders for the dynamic fields is made of characters
/// that can stand in a placeholder.
pub proof fn lemma_placeholders()
    ensures
        is_placeholder_text(PLACEHOLDER_TS@),
        is_placeholder_text(PLACEHOLDER_HOST@),
        is_placeholder_text(PLACEHOLDER_SESSION_ID@),
        is_placeholder_text(PLACEHOLDER_RUN_ID@),
        is_placeholder_text(PLACEHOLDER_ARTIFACT_ID@),
        is_placeholder_text(PLACEHOLDER_TRACE_ID@),
        is_placeholder_text(PLACEHOLDER_SPAN_ID@),
{
    reveal_strlit("<ts>");
    reveal_strlit("<host>");
    reveal_strlit("<session_id>");
    reveal_strlit("<run_id>");
    reveal_strlit("<artifact_id>");
    reveal_strlit("<trace_id>");
    reveal_strlit("<span_id>");
    assert("<ts>"@.len() == 4);
    assert("<host>"@.len() == 6);
    assert("<session_id>"@.len() == 12);
    assert("<run_id>"@.len() == 8);
    assert("<artifact_id>"@.len() == 13);
    assert("<trace_id>"@.len() == 10);
    assert("<span_id>"@.len() == 9);
}

/// Where the working directory begins as a path does, the placeholders in
/// a line that is compared are the placeholders themselves.
pub proof fn lemma_remasked_is_masked(v: JsonV, cwd: Seq<char>)
    requires
        begins_as_path(cwd),
    ensures
        remasked(v, cwd) == masked(v),
{
    lemma_placeholders();
    lemma_placeholder_stays(PLACEHOLDER_TS@, cwd);
    lemma_placeholder_stays(PLACEHOLDER_HOST@, cwd);
    lemma_placeholder_stays(PLACEHOLDER_SESSION_ID@, cwd);
    lemma_placeholder_stays(PLACEHOLDER_RUN_ID@, cwd);
    lemma_placeholder_stays(PLACEHOLDER_ARTIFACT_ID@, cwd);
    lemma_placeholder_stays(PLACEHOLDER_TRACE_ID@, cwd);
    lemma_placeholder_stays(PLACEHOLDER_SPAN_ID@, cwd);
    let fc = |c: MemberV| masked_correlation_member(c);
    let gc = |c: MemberV| remasked_correlation_member(c, cwd);
    let fs = |c: MemberV| masked_source_member(c);
    let gs = |c: MemberV| remasked_source_member(c, cwd);
    let fm = |m: MemberV| masked_member(m);
    let gm = |m: MemberV| remasked_member(m, cwd);
    assert forall|x: JsonV| #[trigger] with_members(x, gc) == with_members(x, fc) by {
        if x is Object {
            assert(x->Object_0.map_values(gc) =~= x->Object_0.map_values(fc));
        }
    }
    assert forall|x: JsonV| #[trigger] with_members(x, gs) == with_members(x, fs) by {
        if x is Object {
            assert(x->Object_0.map_values(gs) =~= x->Object_0.map_values(fs));
        }
    }
    assert forall|m: MemberV| #[trigger] gm(m) == fm(m) by {
        assert(with_members(m.1, gc) == with_members(m.1, fc));
        assert(with_members(m.1, gs) == with_members(m.1, fs));
    }
    if v is Object {
        assert(v->Object_0.map_values(gm) =~= v->Object_0.map_values(fm));
    }
}

/// Lines of two runs, each under its own working directory, are equal as
/// they are compared exactly when their cleaned forms differ only in the
/// dynamic fields. Each working directory must begin as a path does.
pub proof fn lemma_runs_agree(a: JsonV, cwd_a: Seq<char>, b: JsonV, cwd_b: Seq<char>)
    requires
        begins_as_path(cwd_a),
        begins_as_path(cwd_b),
    ensures
        normalized(a, cwd_a) == normalized(b, cwd_b) <==> differ_in_dynamic_fields_only(
            cleaned(a, cwd_a),
            cleaned(b, cwd_b),
        ),
{
    lemma_normalized_is_remasked(a, cwd_a);
    lemma_normalized_is_remasked(b, cwd_b);
    lemma_remasked_is_masked(cleaned(a, cwd_a), cwd_a);
    lemma_remasked_is_masked(cleaned(b, cwd_b), cwd_b);
    lemma_masked_equal(cleaned(a, cwd_a), cleaned(b, cwd_b));
}

/// Lines that differ only in the dynamic fields are equal as they are
/// compared, whatever else they hold.
pub proof fn lemma_dynamic_fields_are_erased(a: JsonV, b: JsonV, cwd: Seq<char>)
    requires
        differ_in_dynamic_fields_only(a, b),
    ensures
        normalized(a, cwd) == normalized(b, cwd),
{
    lemma_masked_equal(a, b);
}

/// The value, or the placeholder where the value is a string.
pub fn mask_text(value: &Json, placeholder: &str) -> (r: Json)
    ensures
        r@ == masked_text(value@, placeholder@),
{
    match value {
        Json::Text(_) => Json::Text(String::from_str(placeholder)),
        _ => value.clone(),
    }
}

/// The value, or zero where the value is a number.
pub fn mask_number(value: &Json) -> (r: Json)
    ensures
        r@ == masked_number(value@),
{
    match value {
        Json::Number(_) => Json::Number(JsonNumber::Unsigned(0)),
        _ => value.clone(),
    }
}

/// A member of `correlation` with its dynamic id behind a placeholder.
pub fn mask_correlation_member(key: &str, value: &Json) -> (r: Json)
    ensures
        (key@, r@) == masked_correlation_member((key@, value@)),
{
    if str_eq(key, "session_id") {
        mask_text(value, PLACEHOLDER_SESSION_ID)
    } else if str_eq(key, "run_id") {
        mask_text(value, PLACEHOLDER_RUN_ID)
    } else if str_eq(key, "artifact_id") {
        mask_text(value, PLACEHOLDER_ARTIFACT_ID)
    } else if str_eq(key, "trace_id") {
        mask_text(value, PLACEHOLDER_TRACE_ID)
    } else if str_eq(key, "span_id") {
        mask_text(value, PLACEHOLDER_SPAN_ID)
    } else {
        value.clone()
    }
}

/// A member of `source` with host and process id behind placeholders.
pub fn mask_source_member(key: &str, value: &Json) -> (r: Json)
    ensures
        (key@, r@) == masked_source_member((key@, value@)),
{
    if str_eq(key, "host") {
        mask_text(value, PLACEHOLDER_HOST)
    } else if str_eq(key, "pid") {
        mask_number(value)
    } else {
        value.clone()
    }
}

/// Which object of a log line a member belongs to.
#[derive(Debug, Clone, Copy, PartialEq, Eq, Structural)]
pub enum Section {
    Line,
    Correlation,
    Source,
}

/// What masking does to a member of the given section.
pub open spec fn section_mask(section: Section) -> spec_fn(MemberV) -> MemberV {
    match section {
        Section::Line => |m: MemberV| masked_member(m),
        Section::Correlation => |m: MemberV| masked_correlation_member(m),
        Section::Source => |m: MemberV| masked_source_member(m),
    }
}

/// An object of a log line with the dynamic members of its section behind
/// placeholders; anything but an object stays as it is.
pub fn mask_section(value: &Json, section: Section) -> (r: Json)
    ensures
        r@ == with_members(value@, section_mask(section)),
    decreases
            (if section is Line {
                1nat
            } else {
                0nat
            }),
{
    match value {
        Json::Object(members) => {
            let mut out: Vec<(String, Json)> = Vec::new();
            let mut i: usize = 0;
            proof {
                lemma_object_value(members@);
            }
            while i < members.len()
                invariant
                    i <= members.len(),
                    out@.len() == i,
                    forall|k: int|
                        0 <= k < i ==> ((#[trigger] out@[k]).0@, out@[k].1@) == section_mask(
                            section,
                        )((members@[k].0@, members@[k].1@)),
                decreases members.len() - i,
            {
                let key = members[i].0.as_str();
                let value = &members[i].1;
                let masked = match section {
                    Section::Line => {
                        if str_eq(key, "ts") {
                            mask_text(value, PLACEHOLDER_TS)
                        } else if str_eq(key, "correlation") {
                            mask_section(value, Section::Correlation)
                        } else if str_eq(key, "source") {
                            mask_section(value, Section::Source)
                        } else {
                            value.clone()
                        }
                    },
                    Section::Correlation => mask_correlation_member(key, value),
                    Section::Source => mask_source_member(key, value),
                };
                out.push((members[i].0.clone(), masked));
                i += 1;
            }
            let r = Json::Object(out);
            proof {
                lemma_object_value(out@);
                assert(r@->Object_0 =~= object_value(members@).map_values(section_mask(section)));
            }
            r
        },
        _ => value.clone(),
    }
}

/// A log line with what changes from run to run behind placeholders.
pub fn normalize_known_dynamic_fields(value: &Json) -> (r: Json)
    ensures
        r@ == masked(value@),
{
    let r = mask_section(value, Section::Line);
    assert(section_mask(Section::Line) == (|m: MemberV| masked_member(m)));
    r
}

/// A document with every string in it as it is compared.
pub fn normalize_strings_in_value(value: &Json, cwd: &str) -> (r: Json)
    ensures
        r@ == normal_strings(value@, cwd@),
    decreases value,
{
    match value {
        Json::Text(s) => Json::Text(normalize_string(s.as_str(), cwd)),
        Json::Array(items) => {
            let mut out: Vec<Json> = Vec::new();
            let mut i: usize = 0;
            let ghost all = array_value(items@);
            proof {
                lemma_array_value(items@);
                assert(all.take(0) =~= Seq::<JsonV>::empty());
            }
            while i < items.len()
                invariant
                    *value == Json::Array(*items),
                    i <= items.len(),
                    all == array_value(items@),
                    all.len() == items@.len(),
                    forall|k: int| 0 <= k < items@.len() ==> (#[trigger] all[k]) == items@[k]@,
                    array_value(out@) == normal_items(all.take(i as int), cwd@),
                decreases items.len() - i,
            {
                let item = &items[i];
                assert(*value is Array && value->Array_0 == *items);
                assert(decreases_to!(*value => value->Array_0));
                let done = normalize_strings_in_value(item, cwd);
                let ghost before = out@;
                out.push(done);
                proof {
                    assert(out@.drop_last() =~= before);
                    assert(all.take(i + 1).drop_last() =~= all.take(i as int));
                    assert(all.take(i + 1).last() == all[i as int]);
                }
                i += 1;
            }
            assert(all.take(i as int) =~= all);
            Json::Array(out)
        },
        Json::Object(members) => {
            let mut out: Vec<(String, Json)> = Vec::new();
            let mut i: usize = 0;
            let ghost all = object_value(members@);
            proof {
                lemma_object_value(members@);
                assert(all.take(0) =~= Seq::<MemberV>::empty());
            }
            while i < members.len()
                invariant
                    *value == Json::Object(*members),
                    i <= members.len(),
                    all == object_value(members@),
                    all.len() == members@.len(),
                    forall|k: int|
                        0 <= k < members@.len() ==> (#[trigger] all[k]) == (
                            members@[k].0@,
                            members@[k].1@,
                        ),
                    object_value(out@) == normal_members(all.take(i as int), cwd@),
                decreases members.len() - i,
            {
                let member = &members[i];
                assert(*value is Object && value->Object_0 == *members);
                assert(decreases_to!(*value => value->Object_0));
                assert(decreases_to!(*members => members[i as int]));
                assert(decreases_to!(*member => member.1));
                let done = normalize_strings_in_value(&member.1, cwd);
                let ghost before = out@;
                out.push((member.0.clone(), done));
                proof {
                    assert(out@.drop_last() =~= before);
                    assert(all.take(i + 1).drop_last() =~= all.take(i as int));
                    assert(all.take(i + 1).last() == all[i as int]);
                }
                i += 1;
            }
            assert(all.take(i as int) =~= all);
            Json::Object(out)
        },
        _ => value.clone(),
    }
}

/// Where a member with the given key goes among members that are in the
/// order of their keys: before the first whose key comes after it.
pub fn find_insert_position(sorted: &Vec<(String, Json)>, key: &[char]) -> (at: usize)
    ensures
        at == insert_position(object_value(sorted@), key@),
        at <= sorted@.len(),
{
    let ghost all = object_value(sorted@);
    let mut at: usize = 0;
    proof {
        lemma_object_value(sorted@);
        assert(all.skip(0) =~= all);
    }
    while at < sorted.len() && key_comes_first(&sorted[at].0, key)
        invariant
            at <= sorted.len(),
            all == object_value(sorted@),
            all.len() == sorted@.len(),
            forall|k: int| 0 <= k < sorted@.len() ==> (#[trigger] all[k]).0 == sorted@[k].0@,
            insert_position(all, key@) == at + insert_position(all.skip(at as int), key@),
        decreases sorted.len() - at,
    {
        proof {
            assert(all.skip(at as int)[0] == all[at as int]);
            assert(all.skip(at as int).drop_first() =~= all.skip(at + 1));
        }
        at += 1;
    }
    proof {
        if at < sorted.len() {
            assert(all.skip(at as int)[0] == all[at as int]);
        }
    }
    at
}

/// Whether a key comes before the other or equals it, in the order of
/// `str`.
fn key_comes_first(key: &String, other: &[char]) -> (r: bool)
    ensures
        r == lex_le(key@, other@),
{
    let here = chars_of(key.as_str());
    chars_le(here.as_slice(), other)
}

/// A document with the members of every object in the order of their keys.
pub fn canonicalize_json_keys(value: &Json) -> (r: Json)
    ensures
        r@ == canonical(value@),
    decreases value,
{
    match value {
        Json::Array(items) => {
            let mut out: Vec<Json> = Vec::new();
            let mut i: usize = 0;
            let ghost all = array_value(items@);
            proof {
                lemma_array_value(items@);
                assert(all.take(0) =~= Seq::<JsonV>::empty());
            }
            while i < items.len()
                invariant
                    *value == Json::Array(*items),
                    i <= items.len(),
                    all == array_value(items@),
                    all.len() == items@.len(),
                    forall|k: int| 0 <= k < items@.len() ==> (#[trigger] all[k]) == items@[k]@,
                    array_value(out@) == canonical_items(all.take(i as int)),
                decreases items.len() - i,
            {
                let item = &items[i];
                assert(*value is Array && value->Array_0 == *items);
                assert(decreases_to!(*value => value->Array_0));
                let done = canonicalize_json_keys(item);
                let ghost before = out@;
                out.push(done);
                proof {
                    assert(out@.drop_last() =~= before);
                    assert(all.take(i + 1).drop_last() =~= all.take(i as int));
                    assert(all.take(i + 1).last() == all[i as int]);
                }
                i += 1;
            }
            assert(all.take(i as int) =~= all);
            Json::Array(out)
        },
        Json::Object(members) => {
            let mut out: Vec<(String, Json)> = Vec::new();
            let mut i: usize = 0;
            let ghost all = object_value(members@);
            let ghost made = canonical_members(all);
            proof {
                lemma_object_value(members@);
                assert(all.take(0) =~= Seq::<MemberV>::empty());
                assert(made.take(0) =~= Seq::<MemberV>::empty());
                lemma_canonical_members(all);
            }
            while i < members.len()
                invariant
                    *value == Json::Object(*members),
                    i <= members.len(),
                    all == object_value(members@),
                    made == canonical_members(all),
                    all.len() == members@.len(),
                    made.len() == all.len(),
                    forall|k: int|
                        0 <= k < members@.len() ==> (#[trigger] all[k]) == (
                            members@[k].0@,
                            members@[k].1@,
                        ),
                    forall|k: int|
                        0 <= k < all.len() ==> (#[trigger] made[k]) == (all[k].0, canonical(all[k].1)),
                    object_value(out@) == sorted_members(made.take(i as int)),
                decreases members.len() - i,
            {
                let member = &members[i];
                assert(*value is Object && value->Object_0 == *members);
                assert(decreases_to!(*value => value->Object_0));
                assert(decreases_to!(*members => members[i as int]));
                assert(decreases_to!(*member => member.1));
                let done = canonicalize_json_keys(&member.1);
                let key = chars_of(member.0.as_str());
                let at = find_insert_position(&out, key.as_slice());
                let ghost before = out@;
                out.insert(at, (member.0.clone(), done));
                proof {
                    lemma_object_value(before);
                    lemma_object_value(out@);
                    assert(object_value(out@) =~= object_value(before).insert(
                        at as int,
                        made[i as int],
                    ));
                    assert(made.take(i + 1).drop_last() =~= made.take(i as int));
                    assert(made.take(i + 1).last() == made[i as int]);
                }
                i += 1;
            }
            assert(made.take(i as int) =~= made);
            Json::Object(out)
        },
        _ => value.clone(),
    }
}

/// `canonical_members` maps `canonical` over the values of the members.
pub proof fn lemma_canonical_members(members: Seq<MemberV>)
    ensures
        canonical_members(members).len() == members.len(),
        forall|k: int|
            0 <= k < members.len() ==> (#[trigger] canonical_members(members)[k]) == (
                members[k].0,
                canonical(members[k].1),
            ),
    decreases members.len(),
{
    if members.len() > 0 {
        lemma_canonical_members(members.drop_last());
    }
}

/// A log line as it is compared: dynamic fields behind placeholders,
/// strings without ANSI control sequences and with `<cwd>` for the working
/// directory, members in the order of their keys.
pub fn normalize_ext_log_line(value: &Json, cwd: &str) -> (r: Json)
    ensures
        r@ == normalized(value@, cwd@),
{
    let masked = normalize_known_dynamic_fields(value);
    let plain = normalize_strings_in_value(&masked, cwd);
    canonicalize_json_keys(&plain)
}

/// The string under `key` in an object.
pub open spec fn text_member(v: JsonV, key: Seq<char>) -> Option<Seq<char>> {
    match v.member(key) {
        Some(x) => x.text(),
        None => None,
    }
}

/// The id under `key` in `correlation`: the string there without white
/// space at either end, unless nothing is left of it.
pub open spec fn correlation_id(correlation: Option<JsonV>, key: Seq<char>) -> Option<Seq<char>> {
    match correlation {
        Some(c) => match text_member(c, key) {
            Some(s) => if trimmed(s).len() == 0 {
                None
            } else {
                Some(trimmed(s))
            },
            None => None,
        },
        None => None,
    }
}

/// The kinds of id by which lines are grouped, the most specific first.
pub open spec fn id_kinds() -> Seq<&'static str> {
    seq!["tool_call_id", "slash_command_id", "event_id", "host_call_id", "rpc_id", "scenario_id"]
}

/// The first kind of id that `correlation` holds, with the id; `id` and
/// `<missing>` where it holds none.
pub open spec fn preferred_id(correlation: Option<JsonV>, kinds: Seq<&'static str>) -> (
    Seq<char>,
    Seq<char>,
)
    decreases kinds.len(),
{
    if kinds.len() == 0 {
        ("id"@, "<missing>"@)
    } else {
        match correlation_id(correlation, kinds[0]@) {
            Some(id) => (kinds[0]@, id),
            None => preferred_id(correlation, kinds.drop_first()),
        }
    }
}

/// The key under which a line is grouped: its event, the kind of its most
/// specific id, and that id.
pub open spec fn diff_key_of(v: JsonV) -> Seq<char> {
    let event = match text_member(v, "event"@) {
        Some(e) => e,
        None => "<missing>"@,
    };
    let chosen = preferred_id(v.member("correlation"@), id_kinds());
    event + "::"@ + chosen.0 + ":"@ + chosen.1
}

/// The id under `key` in `correlation`.
pub fn preferred_correlation_id(correlation: Option<&Json>, key: &str) -> (r: Option<String>)
    ensures
        crate::model::opt_text(r) == correlation_id(
            match correlation {
                Some(c) => Some(c@),
                None => None,
            },
            key@,
        ),
{
    let c = match correlation {
        Some(c) => c,
        None => {
            return None;
        },
    };
    let text = match c.get(key) {
        Some(x) => match x.as_str() {
            Some(s) => s,
            None => {
                return None;
            },
        },
        None => {
            return None;
        },
    };
    let v = chars_of(text);
    let t = trim_chars(v.as_slice());
    if t.len() == 0 {
        None
    } else {
        Some(string_of(t.as_slice()))
    }
}

/// The first kind of id that `correlation` holds, with the id.
pub fn preferred_of(correlation: Option<&Json>) -> (r: (String, String))
    ensures
        (r.0@, r.1@) == preferred_id(
            match correlation {
                Some(c) => Some(c@),
                None => None,
            },
            id_kinds(),
        ),
{
    let ghost corr: Option<JsonV> = match correlation {
        Some(c) => Some(c@),
        None => None,
    };
    let kinds = vec![
        "tool_call_id",
        "slash_command_id",
        "event_id",
        "host_call_id",
        "rpc_id",
        "scenario_id",
    ];
    assert(kinds@ =~= id_kinds());
    let mut i: usize = 0;
    assert(kinds@.skip(0) =~= kinds@);
    while i < kinds.len()
        invariant
            i <= kinds.len(),
            kinds@ == id_kinds(),
            match correlation {
                Some(c) => corr == Some(c@),
                None => corr.is_none(),
            },
            preferred_id(corr, kinds@) == preferred_id(corr, kinds@.skip(i as int)),
        decreases kinds.len() - i,
    {
        proof {
            assert(kinds@.skip(i as int)[0] == kinds@[i as int]);
            assert(kinds@.skip(i as int).drop_first() =~= kinds@.skip(i + 1));
        }
        match preferred_correlation_id(correlation, kinds[i]) {
            Some(id) => {
                return (String::from_str(kinds[i]), id);
            },
            None => {},
        }
        i += 1;
    }
    proof {
        assert(kinds@.skip(i as int) =~= Seq::<&'static str>::empty());
    }
    (String::from_str("id"), String::from_str("<missing>"))
}

/// The key under which a line is grouped.
pub fn diff_key(value: &Json) -> (r: String)
    ensures
        r@ == diff_key_of(value@),
{
    let event: String = match value.get("event") {
        Some(e) => match e.as_str() {
            Some(s) => String::from_str(s),
            None => String::from_str("<missing>"),
        },
        None => String::from_str("<missing>"),
    };
    let (kind, id) = preferred_of(value.get("correlation"));
    let r = event.concat("::").concat(kind.as_str()).concat(":").concat(id.as_str());
    assert(r@ =~= diff_key_of(value@));
    r
}

/// How two texts differ in one line.
#[derive(Debug, Clone, Copy, PartialEq, Eq, Structural)]
pub enum ChangeKind {
    /// The line stands in both.
    Equal,
    /// The line stands in the first only.
    Delete,
    /// The line stands in the second only.
    Insert,
}

/// The line diff that `similar::TextDiff::from_lines` finds between two
/// texts: their lines in order, each marked as kept, deleted or inserted.
pub uninterp spec fn line_changes(expected: Seq<char>, actual: Seq<char>) -> Seq<
    (ChangeKind, Seq<char>),
>;

/// Calls `similar::TextDiff::from_lines` and `iter_all_changes`, and copies
/// the tag and the text of each change.
#[verifier::external_body]
fn diff_lines(expected: &str, actual: &str) -> (r: Vec<(ChangeKind, String)>)
    ensures
        r@.map_values(|c: (ChangeKind, String)| (c.0, c.1@)) == line_changes(expected@, actual@),
{
    similar::TextDiff::from_lines(expected, actual).iter_all_changes().map(
        |change|
            (
                match change.tag() {
                    similar::ChangeTag::Equal => ChangeKind::Equal,
                    similar::ChangeTag::Delete => ChangeKind::Delete,
                    similar::ChangeTag::Insert => ChangeKind::Insert,
                },
                change.value().to_string(),
            ),
    ).collect()
}

/// The sign that a change is shown with.
pub open spec fn change_sign(kind: ChangeKind) -> char {
    match kind {
        ChangeKind::Equal => ' ',
        ChangeKind::Delete => '-',
        ChangeKind::Insert => '+',
    }
}

/// The changes as text: each line after its sign.
pub open spec fn rendered_changes(changes: Seq<(ChangeKind, Seq<char>)>) -> Seq<char>
    decreases changes.len(),
{
    if changes.len() == 0 {
        Seq::empty()
    } else {
        rendered_changes(changes.drop_last()).push(change_sign(changes.last().0))
            + changes.last().1
    }
}

/// The line diff of two texts, each line after `-`, `+` or a space.
pub fn render_text_diff(expected: &str, actual: &str) -> (r: String)
    ensures
        r@ == rendered_changes(line_changes(expected@, actual@)),
{
    let changes = diff_lines(expected, actual);
    let ghost all = line_changes(expected@, actual@);
    let mut out = String::new();
    let mut i: usize = 0;
    assert(all.take(0) =~= Seq::<(ChangeKind, Seq<char>)>::empty());
    while i < changes.len()
        invariant
            i <= changes.len(),
            changes@.map_values(|c: (ChangeKind, String)| (c.0, c.1@)) == all,
            out@ == rendered_changes(all.take(i as int)),
        decreases changes.len() - i,
    {
        let sign = match changes[i].0 {
            ChangeKind::Equal => ' ',
            ChangeKind::Delete => '-',
            ChangeKind::Insert => '+',
        };
        proof {
            assert(all.take(i + 1).drop_last() =~= all.take(i as int));
            assert(all.take(i + 1).last() == all[i as int]);
            assert(all[i as int] == (changes@[i as int].0, changes@[i as int].1@));
        }
        push_char(&mut out, sign);
        out.append(changes[i].1.as_str());
        i += 1;
    }
    assert(all.take(i as int) =~= all);
    out
}

/// The views of a sequence of documents.
pub open spec fn docs_view(docs: Seq<Json>) -> Seq<JsonV> {
    docs.map_values(|j: Json| j@)
}

/// The position of the first of the first `limit` lines that is not blank
/// and is no JSON.
pub open spec fn first_unreadable(lines: Seq<Seq<char>>, limit: int) -> Option<int>
    decreases limit,
{
    if limit <= 0 || limit > lines.len() {
        None
    } else {
        match first_unreadable(lines, limit - 1) {
            Some(i) => Some(i),
            None => if trimmed(lines[limit - 1]).len() != 0 && parsed_json(
                trimmed(lines[limit - 1]),
            ) is Err {
                Some(limit - 1)
            } else {
                None
            },
        }
    }
}

/// The log lines among the first `limit` lines of a text, each as it is
/// compared. Blank lines are left out.
pub open spec fn normalized_lines(lines: Seq<Seq<char>>, cwd: Seq<char>, limit: int) -> Seq<JsonV>
    decreases limit,
{
    if limit <= 0 || limit > lines.len() {
        Seq::empty()
    } else {
        let before = normalized_lines(lines, cwd, limit - 1);
        let line = trimmed(lines[limit - 1]);
        if line.len() != 0 && parsed_json(line) is Ok {
            before.push(normalized(parsed_json(line)->Ok_0, cwd))
        } else {
            before
        }
    }
}

/// How the message for an unreadable line begins.
pub open spec fn parse_error_prefix(index: nat) -> Seq<char> {
    "line "@ + decimal(index) + ": JSON parse error: "@
}

/// The message for the line at `index`, which is no JSON: where the line
/// stands, and what the parser says of it.
pub open spec fn parse_error_of(lines: Seq<Seq<char>>, index: int) -> Seq<char> {
    parse_error_prefix(index as nat) + parsed_json(trimmed(lines[index]))->Err_0
}

/// What reading a log comes to: its lines as they are compared, or an error
/// that names the first line that is no JSON.
pub open spec fn log_read(r: Result<Vec<Json>, String>, text: Seq<char>, cwd: Seq<char>) -> bool {
    let lines = lines_of(text);
    match first_unreadable(lines, lines.len() as int) {
        Some(i) => r is Err && r->Err_0@ == parse_error_of(lines, i),
        None => r is Ok && docs_view(r->Ok_0@) == normalized_lines(lines, cwd, lines.len() as int),
    }
}

/// Reads a log, one JSON document to a line, and normalises each line.
/// Blank lines are skipped; the first line that is no JSON fails the whole.
pub fn parse_and_normalize_jsonl(input: &str, cwd: &str) -> (r: Result<Vec<Json>, String>)
    ensures
        log_read(r, input@, cwd@),
{
    let lines = split_lines(input);
    let ghost all = lines_of(input@);
    let mut out: Vec<Json> = Vec::new();
    let mut i: usize = 0;
    assert(docs_view(out@) =~= normalized_lines(all, cwd@, 0));
    while i < lines.len()
        invariant
            i <= lines.len(),
            all == lines_of(input@),
            lines@.map_values(|l: Vec<char>| l@) == all,
            first_unreadable(all, i as int).is_none(),
            docs_view(out@) == normalized_lines(all, cwd@, i as int),
        decreases lines.len() - i,
    {
        assert(all[i as int] == lines@[i as int]@);
        let t = trim_chars(lines[i].as_slice());
        if t.len() != 0 {
            let line = string_of(t.as_slice());
            match Json::parse(line.as_str()) {
                Ok(parsed) => {
                    let done = normalize_ext_log_line(&parsed, cwd);
                    out.push(done);
                    assert(docs_view(out@) =~= normalized_lines(all, cwd@, i + 1));
                },
                Err(message) => {
                    let mut text = String::from_str("line ");
                    text.append(decimal_string(i as u64).as_str());
                    text.append(": JSON parse error: ");
                    let ghost prefix = text@;
                    text.append(message.as_str());
                    proof {
                        assert(prefix =~= parse_error_prefix(i as nat));
                        assert(line@ == trimmed(all[i as int]));
                        assert(parsed_json(trimmed(all[i as int])) == Err::<JsonV, Seq<char>>(
                            message@,
                        ));
                        assert(text@ =~= parse_error_of(all, i as int));
                        assert(first_unreadable(all, i + 1) == Some(i as int));
                        lemma_first_unreadable_stays(all, i + 1, all.len() as int);
                    }
                    return Err(text);
                },
            }
        }
        i += 1;
    }
    Ok(out)
}

/// Once a line is found unreadable, it stays the first one.
pub proof fn lemma_first_unreadable_stays(lines: Seq<Seq<char>>, found: int, limit: int)
    requires
        first_unreadable(lines, found) is Some,
        found <= limit <= lines.len(),
    ensures
        first_unreadable(lines, limit) == first_unreadable(lines, found),
    decreases limit - found,
{
    if found < limit {
        lemma_first_unreadable_stays(lines, found, limit - 1);
    }
}

/// The lines that are grouped under the given key, in order.
pub open spec fn with_key(lines: Seq<JsonV>, key: Seq<char>) -> Seq<JsonV>
    decreases lines.len(),
{
    if lines.len() == 0 {
        Seq::empty()
    } else if diff_key_of(lines.last()) == key {
        with_key(lines.drop_last(), key).push(lines.last())
    } else {
        with_key(lines.drop_last(), key)
    }
}

/// Whether two logs hold the same lines in the same order under every key.
pub open spec fn groups_agree(expected: Seq<JsonV>, actual: Seq<JsonV>) -> bool {
    forall|key: Seq<char>| #[trigger] with_key(expected, key) == with_key(actual, key)
}

/// A key that no line has groups no line.
pub proof fn lemma_with_key_empty(lines: Seq<JsonV>, key: Seq<char>)
    requires
        forall|i: int| 0 <= i < lines.len() ==> diff_key_of(#[trigger] lines[i]) != key,
    ensures
        with_key(lines, key) == Seq::<JsonV>::empty(),
    decreases lines.len(),
{
    if lines.len() > 0 {
        assert forall|i: int| 0 <= i < lines.drop_last().len() implies diff_key_of(
            #[trigger] lines.drop_last()[i],
        ) != key by {
            assert(lines.drop_last()[i] == lines[i]);
        }
        lemma_with_key_empty(lines.drop_last(), key);
        assert(diff_key_of(lines[lines.len() - 1]) != key);
    }
}

/// The lines that are grouped under the given key, in order.
pub fn group_by_diff_key(values: &[Json], key: &str) -> (r: Vec<Json>)
    ensures
        docs_view(r@) == with_key(docs_view(values@), key@),
{
    let mut out: Vec<Json> = Vec::new();
    let ghost all = docs_view(values@);
    let mut i: usize = 0;
    assert(docs_view(out@) =~= with_key(all.take(0), key@));
    while i < values.len()
        invariant
            i <= values.len(),
            all == docs_view(values@),
            docs_view(out@) == with_key(all.take(i as int), key@),
        decreases values.len() - i,
    {
        proof {
            assert(all.take(i + 1).drop_last() =~= all.take(i as int));
            assert(all.take(i + 1).last() == values@[i as int]@);
        }
        let k = diff_key(&values[i]);
        if str_eq(k.as_str(), key) {
            out.push(values[i].clone());
            assert(docs_view(out@) =~= with_key(all.take(i + 1), key@));
        }
        i += 1;
    }
    assert(all.take(i as int) =~= all);
    out
}

/// Whether two lists hold the same documents in the same order.
pub fn same_docs(a: &[Json], b: &[Json]) -> (r: bool)
    ensures
        r == (docs_view(a@) == docs_view(b@)),
{
    if a.len() != b.len() {
        assert(docs_view(a@).len() != docs_view(b@).len());
        return false;
    }
    let mut i: usize = 0;
    while i < a.len()
        invariant
            i <= a.len(),
            a.len() == b.len(),
            forall|k: int| 0 <= k < i ==> (#[trigger] a@[k])@ == b@[k]@,
        decreases a.len() - i,
    {
        if !a[i].same(&b[i]) {
            assert(docs_view(a@)[i as int] != docs_view(b@)[i as int]);
            return false;
        }
        i += 1;
    }
    assert(docs_view(a@) =~= docs_view(b@));
    true
}

/// The documents printed as one JSON array over several lines.
pub fn render_group(values: Vec<Json>) -> (r: String)
    ensures
        r@ == crate::json::pretty_text(JsonV::Array(docs_view(values@))),
{
    let doc = Json::Array(values);
    proof {
        lemma_array_value(values@);
        assert(doc@->Array_0 =~= docs_view(values@));
    }
    doc.to_pretty()
}

/// Where a key stands or would stand among keys in order: the number of
/// keys at the front that come before it.
pub open spec fn key_position(keys: Seq<Seq<char>>, key: Seq<char>) -> nat
    decreases keys.len(),
{
    if keys.len() == 0 || lex_le(key, keys[0]) {
        0
    } else {
        1 + key_position(keys.drop_first(), key)
    }
}

/// `key_position` is a position among the keys or their number.
pub proof fn lemma_key_position(keys: Seq<Seq<char>>, key: Seq<char>)
    ensures
        key_position(keys, key) <= keys.len(),
    decreases keys.len(),
{
    if keys.len() > 0 && !lex_le(key, keys[0]) {
        lemma_key_position(keys.drop_first(), key);
    }
}

/// The keys with one more key at its place, unless it stands there
/// already.
pub open spec fn with_group_key(keys: Seq<Seq<char>>, key: Seq<char>) -> Seq<Seq<char>> {
    let at = key_position(keys, key) as int;
    if at < keys.len() && keys[at] == key {
        keys
    } else {
        keys.insert(at, key)
    }
}

/// The keys of the lines, each once, in the order of `str`.
pub open spec fn group_keys(lines: Seq<JsonV>) -> Seq<Seq<char>>
    decreases lines.len(),
{
    if lines.len() == 0 {
        Seq::empty()
    } else {
        with_group_key(group_keys(lines.drop_last()), diff_key_of(lines.last()))
    }
}

/// The key of every line is among the keys of the lines.
pub proof fn lemma_group_keys_hold(lines: Seq<JsonV>, i: int)
    requires
        0 <= i < lines.len(),
    ensures
        group_keys(lines).contains(diff_key_of(lines[i])),
    decreases lines.len(),
{
    let before = group_keys(lines.drop_last());
    let key = diff_key_of(lines.last());
    let at = key_position(before, key) as int;
    lemma_key_position(before, key);
    let after = group_keys(lines);
    if i < lines.len() - 1 {
        lemma_group_keys_hold(lines.drop_last(), i);
        let wanted = diff_key_of(lines[i]);
        assert(lines.drop_last()[i] == lines[i]);
        let w = choose|w: int| 0 <= w < before.len() && before[w] == wanted;
        if at < before.len() && before[at] == key {
            assert(after[w] == wanted);
        } else if w < at {
            assert(after[w] == wanted);
        } else {
            assert(after[w + 1] == wanted);
        }
    } else {
        if at < before.len() && before[at] == key {
            assert(after[at] == key);
        } else {
            assert(after[at] == key);
        }
    }
}

/// What the report says of one group that differs: a heading with the key,
/// and the line diff of the two groups printed as JSON.
pub open spec fn group_report(key: Seq<char>, expected: Seq<JsonV>, actual: Seq<JsonV>) -> Seq<
    char,
> {
    ("\n=== DIFF GROUP: "@ + key + " ===\n"@ + rendered_changes(
        line_changes(
            crate::json::pretty_text(JsonV::Array(expected)),
            crate::json::pretty_text(JsonV::Array(actual)),
        ),
    )).push('\n')
}

/// The report on the groups under the given keys: one part for each group
/// that differs, in the order of the keys.
pub open spec fn report_of(keys: Seq<Seq<char>>, expected: Seq<JsonV>, actual: Seq<JsonV>) -> Seq<
    char,
>
    decreases keys.len(),
{
    if keys.len() == 0 {
        Seq::empty()
    } else {
        let before = report_of(keys.drop_last(), expected, actual);
        let key = keys.last();
        if with_key(expected, key) == with_key(actual, key) {
            before
        } else {
            before + group_report(key, with_key(expected, key), with_key(actual, key))
        }
    }
}

/// Whether the groups under each of the keys are the same in both logs.
pub open spec fn keys_agree(keys: Seq<Seq<char>>, expected: Seq<JsonV>, actual: Seq<JsonV>) -> bool {
    forall|k: int|
        0 <= k < keys.len() ==> with_key(expected, #[trigger] keys[k]) == with_key(actual, keys[k])
}

/// Two logs agree in every group exactly when they agree in the groups of
/// the keys that their lines have.
pub proof fn lemma_groups_agree(expected: Seq<JsonV>, actual: Seq<JsonV>)
    ensures
        groups_agree(expected, actual) <==> keys_agree(
            group_keys(expected + actual),
            expected,
            actual,
        ),
{
    let keys = group_keys(expected + actual);
    if keys_agree(keys, expected, actual) {
        assert forall|key: Seq<char>| #[trigger]
            with_key(expected, key) == with_key(actual, key) by {
            if exists|i: int| 0 <= i < expected.len() && diff_key_of(#[trigger] expected[i]) == key {
                let i = choose|i: int|
                    0 <= i < expected.len() && diff_key_of(#[trigger] expected[i]) == key;
                assert((expected + actual)[i] == expected[i]);
                lemma_group_keys_hold(expected + actual, i);
                let k = choose|k: int| 0 <= k < keys.len() && keys[k] == key;
                assert(with_key(expected, keys[k]) == with_key(actual, keys[k]));
            } else if exists|i: int|
                0 <= i < actual.len() && diff_key_of(#[trigger] actual[i]) == key {
                let i = choose|i: int|
                    0 <= i < actual.len() && diff_key_of(#[trigger] actual[i]) == key;
                assert((expected + actual)[expected.len() + i] == actual[i]);
                lemma_group_keys_hold(expected + actual, expected.len() + i);
                let k = choose|k: int| 0 <= k < keys.len() && keys[k] == key;
                assert(with_key(expected, keys[k]) == with_key(actual, keys[k]));
            } else {
                lemma_with_key_empty(expected, key);
                lemma_with_key_empty(actual, key);
            }
        }
    }
    if groups_agree(expected, actual) {
        assert forall|k: int| 0 <= k < keys.len() implies with_key(expected, #[trigger] keys[k])
            == with_key(actual, keys[k]) by {}
    }
}

/// The report is empty exactly when the groups under the keys agree.
pub proof fn lemma_report_empty(keys: Seq<Seq<char>>, expected: Seq<JsonV>, actual: Seq<JsonV>)
    ensures
        report_of(keys, expected, actual).len() == 0 <==> keys_agree(keys, expected, actual),
    decreases keys.len(),
{
    if keys.len() > 0 {
        lemma_report_empty(keys.drop_last(), expected, actual);
        let before = keys.drop_last();
        if keys_agree(keys, expected, actual) {
            assert forall|k: int| 0 <= k < before.len() implies with_key(
                expected,
                #[trigger] before[k],
            ) == with_key(actual, before[k]) by {
                assert(before[k] == keys[k]);
            }
            assert(with_key(expected, keys[keys.len() - 1]) == with_key(
                actual,
                keys[keys.len() - 1],
            ));
        }
        if report_of(keys, expected, actual).len() == 0 {
            assert forall|k: int| 0 <= k < keys.len() implies with_key(expected, #[trigger] keys[k])
                == with_key(actual, keys[k]) by {
                if k < before.len() {
                    assert(before[k] == keys[k]);
                }
            }
        }
    }
}

fn key_comes_before(key: &[char], other: &String) -> (r: bool)
    ensures
        r == lex_le(key@, other@),
{
    let there = chars_of(other.as_str());
    chars_le(key, there.as_slice())
}

/// Puts the key of a line at its place among the keys, unless it stands
/// there already.
pub fn insert_group_key(keys: &mut Vec<String>, key: String)
    ensures
        crate::error::texts_view(final(keys)@) == with_group_key(
            crate::error::texts_view(old(keys)@),
            key@,
        ),
{
    let ghost before = crate::error::texts_view(keys@);
    let wanted = chars_of(key.as_str());
    let mut at: usize = 0;
    proof {
        assert(before.skip(0) =~= before);
    }
    while at < keys.len() && !key_comes_before(wanted.as_slice(), &keys[at])
        invariant
            at <= keys.len(),
            *keys == *old(keys),
            wanted@ == key@,
            before == crate::error::texts_view(keys@),
            key_position(before, key@) == at + key_position(before.skip(at as int), key@),
        decreases keys.len() - at,
    {
        proof {
            assert(before.skip(at as int)[0] == keys@[at as int]@);
            assert(before.skip(at as int).drop_first() =~= before.skip(at + 1));
        }
        at += 1;
    }
    proof {
        if at < keys.len() {
            assert(before.skip(at as int)[0] == keys@[at as int]@);
        }
        assert(key_position(before, key@) == at);
    }
    if at < keys.len() && str_eq(keys[at].as_str(), key.as_str()) {
        proof {
            assert(before[at as int] == keys@[at as int]@);
        }
        return ;
    }
    proof {
        if at < keys.len() {
            assert(before[at as int] == keys@[at as int]@);
        }
    }
    keys.insert(at, key);
    assert(crate::error::texts_view(keys@) =~= before.insert(at as int, key@));
}

/// Puts the keys of the lines among the keys.
fn collect_group_keys(keys: &mut Vec<String>, lines: &[Json], Ghost(seen): Ghost<Seq<JsonV>>)
    requires
        crate::error::texts_view(old(keys)@) == group_keys(seen),
    ensures
        crate::error::texts_view(final(keys)@) == group_keys(seen + docs_view(lines@)),
{
    let ghost all = docs_view(lines@);
    let mut i: usize = 0;
    proof {
        assert(seen + all.take(0) =~= seen);
    }
    while i < lines.len()
        invariant
            i <= lines.len(),
            all == docs_view(lines@),
            crate::error::texts_view(keys@) == group_keys(seen + all.take(i as int)),
        decreases lines.len() - i,
    {
        proof {
            assert((seen + all.take(i + 1)).drop_last() =~= seen + all.take(i as int));
            assert((seen + all.take(i + 1)).last() == lines@[i as int]@);
        }
        insert_group_key(keys, diff_key(&lines[i]));
        i += 1;
    }
    proof {
        assert(all.take(i as int) =~= all);
    }
}

/// The heading of a group in the report.
pub fn group_header(key: &str) -> (r: String)
    ensures
        r@ == "\n=== DIFF GROUP: "@ + key@ + " ===\n"@,
{
    String::from_str("\n=== DIFF GROUP: ").concat(key).concat(" ===\n")
}

/// What comparing two logs comes to: nothing to report where every group
/// holds the same lines in both, else the report; an error that names the
/// line where a line is no JSON.
pub open spec fn diff_result(
    r: Result<(), String>,
    expected_text: Seq<char>,
    actual_text: Seq<char>,
    cwd: Seq<char>,
) -> bool {
    let e = lines_of(expected_text);
    let a = lines_of(actual_text);
    match first_unreadable(e, e.len() as int) {
        Some(i) => r is Err && r->Err_0@ == parse_error_of(e, i),
        None => match first_unreadable(a, a.len() as int) {
            Some(i) => r is Err && r->Err_0@ == parse_error_of(a, i),
            None => {
                let expected = normalized_lines(e, cwd, e.len() as int);
                let actual = normalized_lines(a, cwd, a.len() as int);
                let report = report_of(group_keys(expected + actual), expected, actual);
                &&& r is Ok <==> groups_agree(expected, actual)
                &&& r is Err ==> r->Err_0@ == report
            },
        },
    }
}

/// Compares two logs as they are compared for conformance: line by line
/// within each group, after normalisation. `Ok` where every group holds the
/// same lines in both; else a report of the groups that differ, in the
/// order of their keys. A line that is no JSON fails the comparison with
/// an error that names it.
pub fn diff_normalized_jsonl(expected_jsonl: &str, actual_jsonl: &str, cwd: &str) -> (r: Result<
    (),
    String,
>)
    ensures
        diff_result(r, expected_jsonl@, actual_jsonl@, cwd@),
{
    let expected = match parse_and_normalize_jsonl(expected_jsonl, cwd) {
        Ok(lines) => lines,
        Err(e) => {
            return Err(e);
        },
    };
    let actual = match parse_and_normalize_jsonl(actual_jsonl, cwd) {
        Ok(lines) => lines,
        Err(e) => {
            return Err(e);
        },
    };
    let ghost e = docs_view(expected@);
    let ghost a = docs_view(actual@);
    let mut keys: Vec<String> = Vec::new();
    proof {
        assert(crate::error::texts_view(keys@) =~= group_keys(Seq::<JsonV>::empty()));
        assert(Seq::<JsonV>::empty() + e =~= e);
    }
    collect_group_keys(&mut keys, expected.as_slice(), Ghost(Seq::empty()));
    collect_group_keys(&mut keys, actual.as_slice(), Ghost(e));
    let ghost all_keys = group_keys(e + a);
    let mut problems = String::new();
    let mut i: usize = 0;
    proof {
        assert(all_keys.take(0) =~= Seq::<Seq<char>>::empty());
    }
    while i < keys.len()
        invariant
            i <= keys.len(),
            e == docs_view(expected@),
            a == docs_view(actual@),
            crate::error::texts_view(keys@) == all_keys,
            problems@ == report_of(all_keys.take(i as int), e, a),
        decreases keys.len() - i,
    {
        proof {
            assert(all_keys.take(i + 1).drop_last() =~= all_keys.take(i as int));
            assert(all_keys.take(i + 1).last() == keys@[i as int]@);
        }
        let key = keys[i].as_str();
        let expected_items = group_by_diff_key(expected.as_slice(), key);
        let actual_items = group_by_diff_key(actual.as_slice(), key);
        if !same_docs(expected_items.as_slice(), actual_items.as_slice()) {
            let ghost before = problems@;
            let expected_text = render_group(expected_items);
            let actual_text = render_group(actual_items);
            let group_diff = render_text_diff(expected_text.as_str(), actual_text.as_str());
            problems.append(group_header(key).as_str());
            problems.append(group_diff.as_str());
            push_char(&mut problems, '\n');
            assert(problems@ =~= before + group_report(key@, with_key(e, key@), with_key(a, key@)));
        }
        i += 1;
    }
    proof {
        assert(all_keys.take(i as int) =~= all_keys);
        lemma_report_empty(all_keys, e, a);
        lemma_groups_agree(e, a);
    }
    if problems.as_str().is_empty() {
        Ok(())
    } else {
        Err(problems)
    }
}

} // verus!
