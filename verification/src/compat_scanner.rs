//! The compatibility scanner: a survey of an extension's sources for the
//! effects that they reach for. It reads text and nothing else; the result
//! is a ledger of signals in a fixed order, whatever order the files come
//! in.

use crate::error::{any_of, contains_any};
use crate::json::{lemma_array_value, lemma_object_value, Json, JsonNumber, JsonV, NumberV};
use crate::text::{
    chars_le, chars_of, lemma_lex_antisymmetric, lemma_lex_total, lemma_lex_transitive, lex_le,
    lines_of, split_lines, str_eq, string_of,
};
use vstd::prelude::*;
use vstd::relations::{sorted_by, total_ordering};

verus! {

/// The kinds of signal, in the order in which a ledger lists them.
#[derive(Debug, Clone, Copy, PartialEq, Eq, Structural)]
pub enum SignalKind {
    /// A mention of `pi.tool`.
    Tool,
    /// A mention of `pi.exec`.
    Exec,
    /// A mention of `pi.http`.
    Http,
    /// An import of a network module.
    NetworkImport,
    /// An import of a filesystem module.
    FilesystemImport,
    /// Code made from text at run time: `eval(` or `new Function(`.
    DynamicEval,
    /// A mention of `process.env`.
    EnvAccess,
}

impl SignalKind {
    /// The place of the kind in the order of kinds.
    pub open spec fn rank(self) -> nat {
        match self {
            SignalKind::Tool => 0,
            SignalKind::Exec => 1,
            SignalKind::Http => 2,
            SignalKind::NetworkImport => 3,
            SignalKind::FilesystemImport => 4,
            SignalKind::DynamicEval => 5,
            SignalKind::EnvAccess => 6,
        }
    }

    /// The place of the kind in the order of kinds.
    pub fn order(self) -> (r: u8)
        ensures
            r == self.rank(),
    {
        match self {
            SignalKind::Tool => 0,
            SignalKind::Exec => 1,
            SignalKind::Http => 2,
            SignalKind::NetworkImport => 3,
            SignalKind::FilesystemImport => 4,
            SignalKind::DynamicEval => 5,
            SignalKind::EnvAccess => 6,
        }
    }

    /// The name of the kind in a ledger.
    pub open spec fn name(self) -> Seq<char> {
        match self {
            SignalKind::Tool => "tool"@,
            SignalKind::Exec => "exec"@,
            SignalKind::Http => "http"@,
            SignalKind::NetworkImport => "network_import"@,
            SignalKind::FilesystemImport => "filesystem_import"@,
            SignalKind::DynamicEval => "dynamic_eval"@,
            SignalKind::EnvAccess => "env_access"@,
        }
    }

    /// The name of the kind in a ledger.
    pub fn as_str(self) -> (r: &'static str)
        ensures
            r@ == self.name(),
    {
        match self {
            SignalKind::Tool => "tool",
            SignalKind::Exec => "exec",
            SignalKind::Http => "http",
            SignalKind::NetworkImport => "network_import",
            SignalKind::FilesystemImport => "filesystem_import",
            SignalKind::DynamicEval => "dynamic_eval",
            SignalKind::EnvAccess => "env_access",
        }
    }

    /// The texts of which one must stand in a line for the line to give a
    /// signal of this kind.
    pub open spec fn marks(self) -> Seq<&'static str> {
        match self {
            SignalKind::Tool => seq!["pi.tool"],
            SignalKind::Exec => seq!["pi.exec"],
            SignalKind::Http => seq!["pi.http"],
            SignalKind::NetworkImport => seq![
                "from 'http'",
                "require('http')",
                "import('http')",
                "from \"http\"",
                "require(\"http\")",
                "import(\"http\")",
                "from 'node:http'",
                "require('node:http')",
                "import('node:http')",
                "from \"node:http\"",
                "require(\"node:http\")",
                "import(\"node:http\")",
                "from 'https'",
                "require('https')",
                "import('https')",
                "from \"https\"",
                "require(\"https\")",
                "import(\"https\")",
                "from 'node:https'",
                "require('node:https')",
                "import('node:https')",
                "from \"node:https\"",
                "require(\"node:https\")",
                "import(\"node:https\")",
                "from 'net'",
                "require('net')",
                "import('net')",
                "from \"net\"",
                "require(\"net\")",
                "import(\"net\")",
                "from 'node:net'",
                "require('node:net')",
                "import('node:net')",
                "from \"node:net\"",
                "require(\"node:net\")",
                "import(\"node:net\")",
                "from 'tls'",
                "require('tls')",
                "import('tls')",
                "from \"tls\"",
                "require(\"tls\")",
                "import(\"tls\")",
                "from 'node:tls'",
                "require('node:tls')",
                "import('node:tls')",
                "from \"node:tls\"",
                "require(\"node:tls\")",
                "import(\"node:tls\")",
                "from 'dgram'",
                "require('dgram')",
                "import('dgram')",
                "from \"dgram\"",
                "require(\"dgram\")",
                "import(\"dgram\")",
                "from 'node:dgram'",
                "require('node:dgram')",
                "import('node:dgram')",
                "from \"node:dgram\"",
                "require(\"node:dgram\")",
                "import(\"node:dgram\")",
                "from 'dns'",
                "require('dns')",
                "import('dns')",
                "from \"dns\"",
                "require(\"dns\")",
                "import(\"dns\")",
                "from 'node:dns'",
                "require('node:dns')",
                "import('node:dns')",
                "from \"node:dns\"",
                "require(\"node:dns\")",
                "import(\"node:dns\")",
            ],
            SignalKind::FilesystemImport => seq![
                "from 'fs'",
                "require('fs')",
                "import('fs')",
                "from \"fs\"",
                "require(\"fs\")",
                "import(\"fs\")",
                "from 'node:fs'",
                "require('node:fs')",
                "import('node:fs')",
                "from \"node:fs\"",
                "require(\"node:fs\")",
                "import(\"node:fs\")",
                "from 'fs/promises'",
                "require('fs/promises')",
                "import('fs/promises')",
                "from \"fs/promises\"",
                "require(\"fs/promises\")",
                "import(\"fs/promises\")",
                "from 'node:fs/promises'",
                "require('node:fs/promises')",
                "import('node:fs/promises')",
                "from \"node:fs/promises\"",
                "require(\"node:fs/promises\")",
                "import(\"node:fs/promises\")",
            ],
            SignalKind::DynamicEval => seq!["eval(", "new Function("],
            SignalKind::EnvAccess => seq!["process.env"],
        }
    }

    /// The texts of which one must stand in a line for the line to give a
    /// signal of this kind.
    pub fn needles(self) -> (r: Vec<&'static str>)
        ensures
            r@ == self.marks(),
    {
        match self {
            SignalKind::Tool => vec!["pi.tool"],
            SignalKind::Exec => vec!["pi.exec"],
            SignalKind::Http => vec!["pi.http"],
            SignalKind::NetworkImport => vec![
                "from 'http'",
                "require('http')",
                "import('http')",
                "from \"http\"",
                "require(\"http\")",
                "import(\"http\")",
                "from 'node:http'",
                "require('node:http')",
                "import('node:http')",
                "from \"node:http\"",
                "require(\"node:http\")",
                "import(\"node:http\")",
                "from 'https'",
                "require('https')",
                "import('https')",
                "from \"https\"",
                "require(\"https\")",
                "import(\"https\")",
                "from 'node:https'",
                "require('node:https')",
                "import('node:https')",
                "from \"node:https\"",
                "require(\"node:https\")",
                "import(\"node:https\")",
                "from 'net'",
                "require('net')",
                "import('net')",
                "from \"net\"",
                "require(\"net\")",
                "import(\"net\")",
                "from 'node:net'",
                "require('node:net')",
                "import('node:net')",
                "from \"node:net\"",
                "require(\"node:net\")",
                "import(\"node:net\")",
                "from 'tls'",
                "require('tls')",
                "import('tls')",
                "from \"tls\"",
                "require(\"tls\")",
                "import(\"tls\")",
                "from 'node:tls'",
                "require('node:tls')",
                "import('node:tls')",
                "from \"node:tls\"",
                "require(\"node:tls\")",
                "import(\"node:tls\")",
                "from 'dgram'",
                "require('dgram')",
                "import('dgram')",
                "from \"dgram\"",
                "require(\"dgram\")",
                "import(\"dgram\")",
                "from 'node:dgram'",
                "require('node:dgram')",
                "import('node:dgram')",
                "from \"node:dgram\"",
                "require(\"node:dgram\")",
                "import(\"node:dgram\")",
                "from 'dns'",
                "require('dns')",
                "import('dns')",
                "from \"dns\"",
                "require(\"dns\")",
                "import(\"dns\")",
                "from 'node:dns'",
                "require('node:dns')",
                "import('node:dns')",
                "from \"node:dns\"",
                "require(\"node:dns\")",
                "import(\"node:dns\")",
            ],
            SignalKind::FilesystemImport => vec![
                "from 'fs'",
                "require('fs')",
                "import('fs')",
                "from \"fs\"",
                "require(\"fs\")",
                "import(\"fs\")",
                "from 'node:fs'",
                "require('node:fs')",
                "import('node:fs')",
                "from \"node:fs\"",
                "require(\"node:fs\")",
                "import(\"node:fs\")",
                "from 'fs/promises'",
                "require('fs/promises')",
                "import('fs/promises')",
                "from \"fs/promises\"",
                "require(\"fs/promises\")",
                "import(\"fs/promises\")",
                "from 'node:fs/promises'",
                "require('node:fs/promises')",
                "import('node:fs/promises')",
                "from \"node:fs/promises\"",
                "require(\"node:fs/promises\")",
                "import(\"node:fs/promises\")",
            ],
            SignalKind::DynamicEval => vec!["eval(", "new Function("],
            SignalKind::EnvAccess => vec!["process.env"],
        }
    }
}

/// The kinds, in their order.
pub open spec fn all_kinds() -> Seq<SignalKind> {
    seq![
        SignalKind::Tool,
        SignalKind::Exec,
        SignalKind::Http,
        SignalKind::NetworkImport,
        SignalKind::FilesystemImport,
        SignalKind::DynamicEval,
        SignalKind::EnvAccess,
    ]
}

/// One signal: the file, the kind, and the line, counted from one.
#[derive(Debug, Clone)]
pub struct Signal {
    pub path: String,
    pub kind: SignalKind,
    pub line: usize,
}

/// [`Signal`] as plain data.
pub struct SignalV {
    pub path: Seq<char>,
    pub kind: SignalKind,
    pub line: nat,
}

impl View for Signal {
    type V = SignalV;

    open spec fn view(&self) -> SignalV {
        SignalV { path: self.path@, kind: self.kind, line: self.line as nat }
    }
}

/// The views of a sequence of signals.
pub open spec fn signals_view(signals: Seq<Signal>) -> Seq<SignalV> {
    signals.map_values(|s: Signal| s@)
}

/// A source file: its path below the root, with `/` between its parts, and
/// its text.
#[derive(Debug, Clone)]
pub struct SourceFile {
    pub path: String,
    pub content: String,
}

/// [`SourceFile`] as plain data.
pub struct SourceFileV {
    pub path: Seq<char>,
    pub content: Seq<char>,
}

impl View for SourceFile {
    type V = SourceFileV;

    open spec fn view(&self) -> SourceFileV {
        SourceFileV { path: self.path@, content: self.content@ }
    }
}

/// The views of a sequence of files.
pub open spec fn files_view(files: Seq<SourceFile>) -> Seq<SourceFileV> {
    files.map_values(|f: SourceFile| f@)
}

/// The signals of one line: one for each of the first `limit` kinds whose
/// marks the line holds, in the order of the kinds.
pub open spec fn line_signals(path: Seq<char>, line: Seq<char>, number: nat, limit: int) -> Seq<
    SignalV,
>
    decreases limit,
{
    if limit <= 0 || limit > all_kinds().len() {
        Seq::empty()
    } else {
        let before = line_signals(path, line, number, limit - 1);
        let kind = all_kinds()[limit - 1];
        if any_of(line, kind.marks()) {
            before.push(SignalV { path, kind, line: number })
        } else {
            before
        }
    }
}

/// The signals of the first `limit` lines of a file.
pub open spec fn lines_signals(path: Seq<char>, lines: Seq<Seq<char>>, limit: int) -> Seq<SignalV>
    decreases limit,
{
    if limit <= 0 || limit > lines.len() {
        Seq::empty()
    } else {
        lines_signals(path, lines, limit - 1) + line_signals(
            path,
            lines[limit - 1],
            limit as nat,
            all_kinds().len() as int,
        )
    }
}

/// The signals of a file, line by line.
pub open spec fn file_signals(file: SourceFileV) -> Seq<SignalV> {
    lines_signals(file.path, lines_of(file.content), lines_of(file.content).len() as int)
}

/// The signals of files, file by file.
pub open spec fn found_signals(files: Seq<SourceFileV>) -> Seq<SignalV>
    decreases files.len(),
{
    if files.len() == 0 {
        Seq::empty()
    } else {
        found_signals(files.drop_last()) + file_signals(files.last())
    }
}

/// Whether signal `a` is listed before signal `b`, or is the same: by path,
/// then by kind, then by line.
pub open spec fn listed_first(a: SignalV, b: SignalV) -> bool {
    if a.path != b.path {
        lex_le(a.path, b.path)
    } else if a.kind.rank() != b.kind.rank() {
        a.kind.rank() < b.kind.rank()
    } else {
        a.line <= b.line
    }
}

/// The order of the ledger as a relation.
pub open spec fn ledger_order() -> spec_fn(SignalV, SignalV) -> bool {
    |a: SignalV, b: SignalV| listed_first(a, b)
}

/// The order of the ledger is a total order: signals that may stand in
/// either order are the same signal.
pub proof fn lemma_ledger_order_total()
    ensures
        total_ordering(ledger_order()),
{
    let leq = ledger_order();
    assert forall|x: SignalV| #[trigger] leq(x, x) by {}
    assert forall|x: SignalV, y: SignalV| #[trigger] leq(x, y) && #[trigger] leq(y, x) implies x
        == y by {
        if x.path != y.path {
            lemma_lex_antisymmetric(x.path, y.path);
        }
    }
    assert forall|x: SignalV, y: SignalV, z: SignalV| #[trigger] leq(x, y) && #[trigger] leq(
        y,
        z,
    ) implies leq(x, z) by {
        if x.path != y.path && y.path != z.path {
            lemma_lex_transitive(x.path, y.path, z.path);
            if x.path == z.path {
                lemma_lex_antisymmetric(x.path, y.path);
            }
        }
    }
    assert forall|x: SignalV, y: SignalV| #[trigger] leq(x, y) || #[trigger] leq(y, x) by {
        lemma_lex_total(x.path, y.path);
    }
}

/// The ledger of files: their signals in the order of the ledger.
pub open spec fn ledger_of(files: Seq<SourceFileV>) -> Seq<SignalV> {
    found_signals(files).sort_by(ledger_order())
}

/// The signals of files are the signals of the files without one of them
/// and the signals of that one, counted together.
pub proof fn lemma_found_without(files: Seq<SourceFileV>, at: int)
    requires
        0 <= at < files.len(),
    ensures
        found_signals(files).to_multiset() == found_signals(files.remove(at)).to_multiset().add(
            file_signals(files[at]).to_multiset(),
        ),
    decreases files.len(),
{
    let last = files.len() - 1;
    vstd::seq_lib::lemma_multiset_commutative(
        found_signals(files.drop_last()),
        file_signals(files.last()),
    );
    if at == last {
        assert(files.remove(at) =~= files.drop_last());
    } else {
        lemma_found_without(files.drop_last(), at);
        let rest = files.remove(at);
        assert(rest.drop_last() =~= files.drop_last().remove(at));
        assert(rest.last() == files.last());
        assert(files.drop_last()[at] == files[at]);
        vstd::seq_lib::lemma_multiset_commutative(
            found_signals(rest.drop_last()),
            file_signals(rest.last()),
        );
        assert(found_signals(files).to_multiset() =~= found_signals(rest).to_multiset().add(
            file_signals(files[at]).to_multiset(),
        ));
    }
}

/// The same files give the same signals, counted together, in whatever
/// order the files come.
pub proof fn lemma_found_ignores_order(a: Seq<SourceFileV>, b: Seq<SourceFileV>)
    requires
        a.to_multiset() == b.to_multiset(),
    ensures
        found_signals(a).to_multiset() == found_signals(b).to_multiset(),
    decreases a.len(),
{
    broadcast use vstd::seq_lib::group_to_multiset_ensures;

    a.to_multiset_ensures();
    b.to_multiset_ensures();
    assert(a.len() == b.len());
    if a.len() == 0 {
        assert(a =~= Seq::<SourceFileV>::empty());
        assert(b =~= Seq::<SourceFileV>::empty());
    } else {
        let last = a.last();
        assert(a.to_multiset().contains(last));
        assert(b.to_multiset().contains(last));
        let j = choose|j: int| 0 <= j < b.len() && b[j] == last;
        vstd::seq_lib::to_multiset_remove(a, a.len() - 1);
        vstd::seq_lib::to_multiset_remove(b, j);
        assert(a.remove(a.len() - 1) =~= a.drop_last());
        lemma_found_ignores_order(a.drop_last(), b.remove(j));
        lemma_found_without(a, a.len() - 1);
        lemma_found_without(b, j);
    }
}

/// The scanner is deterministic: the same files give the same ledger, in
/// whatever order they are handed over.
pub proof fn lemma_ledger_ignores_order(a: Seq<SourceFileV>, b: Seq<SourceFileV>)
    requires
        a.to_multiset() == b.to_multiset(),
    ensures
        ledger_of(a) == ledger_of(b),
{
    lemma_found_ignores_order(a, b);
    lemma_ledger_order_total();
    found_signals(a).lemma_sort_by_ensures(ledger_order());
    found_signals(b).lemma_sort_by_ensures(ledger_order());
    vstd::seq_lib::lemma_sorted_unique(ledger_of(a), ledger_of(b), ledger_order());
}

/// Whether each signal is listed before the next or is the same.
pub open spec fn in_ledger_order(signals: Seq<SignalV>) -> bool {
    forall|i: int| 0 <= i < signals.len() - 1 ==> listed_first(#[trigger] signals[i], signals[i + 1])
}

/// Signals of which each is listed before the next are sorted by the order
/// of the ledger.
pub proof fn lemma_in_order_is_sorted(signals: Seq<SignalV>)
    requires
        in_ledger_order(signals),
    ensures
        sorted_by(signals, ledger_order()),
{
    lemma_ledger_order_total();
    let leq = ledger_order();
    assert forall|i: int, j: int| 0 <= i < j < signals.len() implies #[trigger] leq(
        signals[i],
        signals[j],
    ) by {
        lemma_in_order_pair(signals, i, j);
    }
}

/// In signals of which each is listed before the next, an earlier one is
/// listed before a later one.
pub proof fn lemma_in_order_pair(signals: Seq<SignalV>, i: int, j: int)
    requires
        in_ledger_order(signals),
        0 <= i < j < signals.len(),
    ensures
        listed_first(signals[i], signals[j]),
    decreases j - i,
{
    lemma_ledger_order_total();
    let leq = ledger_order();
    if i + 1 < j {
        lemma_in_order_pair(signals, i, j - 1);
        assert(listed_first(signals[j - 1], signals[j - 1 + 1]));
        assert(leq(signals[i], signals[j - 1]) && leq(signals[j - 1], signals[j]));
    } else {
        assert(listed_first(signals[i], signals[i + 1]));
    }
}

fn comes_first(a: &Signal, b: &Signal) -> (r: bool)
    ensures
        r == listed_first(a@, b@),
{
    if !str_eq(a.path.as_str(), b.path.as_str()) {
        let x = chars_of(a.path.as_str());
        let y = chars_of(b.path.as_str());
        return chars_le(x.as_slice(), y.as_slice());
    }
    let ra = a.kind.order();
    let rb = b.kind.order();
    if ra != rb {
        return ra < rb;
    }
    a.line <= b.line
}

/// Puts a signal into signals that stand in the order of the ledger, at the
/// place that keeps them in order.
fn insert_signal(signals: &mut Vec<Signal>, signal: Signal)
    requires
        in_ledger_order(signals_view(old(signals)@)),
    ensures
        in_ledger_order(signals_view(final(signals)@)),
        signals_view(final(signals)@).to_multiset() == signals_view(
            old(signals)@,
        ).to_multiset().insert(signal@),
{
    let mut at: usize = 0;
    while at < signals.len() && comes_first(&signals[at], &signal)
        invariant
            at <= signals.len(),
            *signals == *old(signals),
            forall|k: int| 0 <= k < at ==> listed_first((#[trigger] signals@[k])@, signal@),
        decreases signals.len() - at,
    {
        at += 1;
    }
    proof {
        if at < signals.len() {
            lemma_lex_total(signals@[at as int]@.path, signal@.path);
        }
    }
    let ghost before = signals_view(signals@);
    signals.insert(at, signal);
    proof {
        let after = signals_view(signals@);
        assert(after =~= before.insert(at as int, signal@));
        vstd::seq_lib::to_multiset_insert(before, at as int, signal@);
        assert forall|i: int| 0 <= i < after.len() - 1 implies listed_first(
            #[trigger] after[i],
            after[i + 1],
        ) by {
            if i + 1 < at {
                assert(after[i] == before[i] && after[i + 1] == before[i + 1]);
            } else if i + 1 == at {
                assert(after[i] == before[i]);
                assert(before[i] == old(signals)@[i]@);
            } else if i == at {
                assert(after[i + 1] == before[i]);
                assert(before[i] == old(signals)@[i]@);
            } else {
                assert(after[i] == before[i - 1] && after[i + 1] == before[i]);
            }
        }
    }
}

/// The kinds, in their order.
pub fn kinds() -> (r: Vec<SignalKind>)
    ensures
        r@ == all_kinds(),
{
    vec![
        SignalKind::Tool,
        SignalKind::Exec,
        SignalKind::Http,
        SignalKind::NetworkImport,
        SignalKind::FilesystemImport,
        SignalKind::DynamicEval,
        SignalKind::EnvAccess,
    ]
}

/// Appends the signals of one line to `out`.
pub fn scan_line(path: &str, line: &str, number: usize, out: &mut Vec<Signal>)
    ensures
        signals_view(final(out)@) == signals_view(old(out)@) + line_signals(
            path@,
            line@,
            number as nat,
            all_kinds().len() as int,
        ),
{
    let all = kinds();
    let ghost before = signals_view(out@);
    let mut i: usize = 0;
    assert(signals_view(out@) =~= before + line_signals(path@, line@, number as nat, 0));
    while i < all.len()
        invariant
            i <= all.len(),
            all@ == all_kinds(),
            signals_view(out@) == before + line_signals(path@, line@, number as nat, i as int),
        decreases all.len() - i,
    {
        let kind = all[i];
        proof {
            assert(all_kinds().len() == 7);
            assert(all_kinds()[i as int] == kind);
        }
        if contains_any(line, kind.needles().as_slice()) {
            let ghost so_far = signals_view(out@);
            out.push(Signal { path: String::from_str(path), kind, line: number });
            proof {
                let made = SignalV { path: path@, kind, line: number as nat };
                assert(signals_view(out@) =~= so_far.push(made));
                assert(line_signals(path@, line@, number as nat, i + 1) == line_signals(
                    path@,
                    line@,
                    number as nat,
                    i as int,
                ).push(made));
                assert(signals_view(out@) =~= before + line_signals(
                    path@,
                    line@,
                    number as nat,
                    i + 1,
                ));
            }
        }
        i += 1;
    }
}

/// Appends the signals of a file to `out`, line by line.
pub fn scan_file(file: &SourceFile, out: &mut Vec<Signal>)
    ensures
        signals_view(final(out)@) == signals_view(old(out)@) + file_signals(file@),
{
    let lines = split_lines(file.content.as_str());
    let ghost all = lines_of(file@.content);
    let ghost before = signals_view(out@);
    let mut i: usize = 0;
    assert(signals_view(out@) =~= before + lines_signals(file@.path, all, 0));
    while i < lines.len()
        invariant
            i <= lines.len(),
            lines@.map_values(|l: Vec<char>| l@) == all,
            signals_view(out@) == before + lines_signals(file@.path, all, i as int),
        decreases lines.len() - i,
    {
        assert(all[i as int] == lines@[i as int]@);
        let line = string_of(lines[i].as_slice());
        let ghost so_far = signals_view(out@);
        scan_line(file.path.as_str(), line.as_str(), i + 1, out);
        assert(signals_view(out@) =~= before + lines_signals(file@.path, all, i + 1));
        i += 1;
    }
}

/// The ledger of an extension's sources.
#[derive(Debug)]
pub struct CompatLedger {
    pub signals: Vec<Signal>,
}

/// Scans the files of an extension: every signal of every file, in the
/// order of the ledger. The order in which the files are given does not
/// matter.
pub fn scan_root(files: &[SourceFile]) -> (r: CompatLedger)
    ensures
        signals_view(r.signals@) == ledger_of(files_view(files@)),
{
    let mut found: Vec<Signal> = Vec::new();
    let ghost all = files_view(files@);
    let mut i: usize = 0;
    assert(all.take(0) =~= Seq::<SourceFileV>::empty());
    assert(signals_view(found@) =~= found_signals(all.take(0)));
    while i < files.len()
        invariant
            i <= files.len(),
            all == files_view(files@),
            signals_view(found@) == found_signals(all.take(i as int)),
        decreases files.len() - i,
    {
        proof {
            assert(all.take(i + 1).drop_last() =~= all.take(i as int));
            assert(all.take(i + 1).last() == files@[i as int]@);
        }
        scan_file(&files[i], &mut found);
        i += 1;
    }
    assert(all.take(i as int) =~= all);
    let ghost unsorted = signals_view(found@);
    let mut sorted: Vec<Signal> = Vec::new();
    proof {
        broadcast use vstd::seq_lib::group_to_multiset_ensures;

        assert(signals_view(sorted@) =~= Seq::<SignalV>::empty());
        signals_view(sorted@).to_multiset_ensures();
        assert(signals_view(sorted@).to_multiset().len() == 0);
        assert(signals_view(sorted@).to_multiset().add(unsorted.to_multiset())
            =~= unsorted.to_multiset());
    }
    while found.len() > 0
        invariant
            unsorted == found_signals(all),
            in_ledger_order(signals_view(sorted@)),
            signals_view(sorted@).to_multiset().add(signals_view(found@).to_multiset())
                == unsorted.to_multiset(),
        decreases found.len(),
    {
        let ghost rest = signals_view(found@);
        let ghost done = signals_view(sorted@);
        let signal = found.pop().unwrap();
        proof {
            assert(signals_view(found@) =~= rest.drop_last());
            assert(signal@ == rest.last());
            vstd::seq_lib::to_multiset_build(rest.drop_last(), rest.last());
            assert(rest.drop_last().push(rest.last()) =~= rest);
        }
        insert_signal(&mut sorted, signal);
        proof {
            assert(signals_view(sorted@).to_multiset().add(signals_view(found@).to_multiset())
                =~= done.to_multiset().add(rest.to_multiset()));
        }
    }
    proof {
        broadcast use vstd::seq_lib::group_to_multiset_ensures;

        assert(signals_view(found@) =~= Seq::<SignalV>::empty());
        signals_view(found@).to_multiset_ensures();
        assert(signals_view(found@).to_multiset().len() == 0);
        assert(signals_view(sorted@).to_multiset() =~= signals_view(sorted@).to_multiset().add(
            signals_view(found@).to_multiset(),
        ));
        lemma_ledger_order_total();
        lemma_in_order_is_sorted(signals_view(sorted@));
        unsorted.lemma_sort_by_ensures(ledger_order());
        vstd::seq_lib::lemma_sorted_unique(
            signals_view(sorted@),
            unsorted.sort_by(ledger_order()),
            ledger_order(),
        );
    }
    CompatLedger { signals: sorted }
}

/// The document of a signal.
pub open spec fn signal_doc(s: SignalV) -> JsonV {
    JsonV::Object(
        seq![
            ("path"@, JsonV::Text(s.path)),
            ("kind"@, JsonV::Text(s.kind.name())),
            ("line"@, JsonV::Number(NumberV::Unsigned(s.line as u64))),
        ],
    )
}

/// The document of a ledger: its signals, in order, under `signals`.
pub open spec fn ledger_doc(signals: Seq<SignalV>) -> JsonV {
    JsonV::Object(
        seq![("signals"@, JsonV::Array(signals.map_values(|s: SignalV| signal_doc(s))))],
    )
}

impl CompatLedger {
    /// The ledger as a JSON document.
    pub fn to_json(&self) -> (r: Json)
        ensures
            r@ == ledger_doc(signals_view(self.signals@)),
    {
        let mut items: Vec<Json> = Vec::new();
        let mut i: usize = 0;
        while i < self.signals.len()
            invariant
                i <= self.signals.len(),
                items@.len() == i,
                forall|k: int| 0 <= k < i ==> (#[trigger] items@[k])@ == signal_doc(self.signals@[k]@),
            decreases self.signals.len() - i,
        {
            let s = &self.signals[i];
            let members: Vec<(String, Json)> = vec![
                (String::from_str("path"), Json::Text(s.path.clone())),
                (String::from_str("kind"), Json::Text(String::from_str(s.kind.as_str()))),
                (String::from_str("line"), Json::Number(JsonNumber::Unsigned(s.line as u64))),
            ];
            let item = Json::Object(members);
            proof {
                lemma_object_value(members@);
                assert(item@->Object_0 =~= signal_doc(s@)->Object_0);
            }
            items.push(item);
            i += 1;
        }
        let list = Json::Array(items);
        proof {
            lemma_array_value(items@);
            assert(list@->Array_0 =~= signals_view(self.signals@).map_values(
                |s: SignalV| signal_doc(s),
            ));
        }
        let members: Vec<(String, Json)> = vec![(String::from_str("signals"), list)];
        let r = Json::Object(members);
        proof {
            lemma_object_value(members@);
            assert(r@->Object_0 =~= ledger_doc(signals_view(self.signals@))->Object_0);
        }
        r
    }

    /// The ledger printed as JSON over several lines.
    pub fn to_json_pretty(&self) -> (r: String)
        ensures
            r@ == crate::json::pretty_text(ledger_doc(signals_view(self.signals@))),
    {
        self.to_json().to_pretty()
    }
}

/// The parts of a path joined by `/`, whatever the host joins them by.
pub fn relative_posix(parts: &[String]) -> (r: String)
    ensures
        r@ == crate::tui::joined(crate::error::texts_view(parts@), '/'),
{
    crate::tui::join(parts, '/')
}

} // verus!
