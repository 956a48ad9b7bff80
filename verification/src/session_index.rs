//! The session index: one row for each session, by which the sessions of a
//! project are listed without reading their files. The index is a cache:
//! every row can be made again from the session it stands for.

use crate::model::{clone_opt_text, opt_text};
use crate::session::{EntryKind, EntryKindV, Session, SessionEntryV};
use crate::text::{chars_le, chars_of, lemma_lex_total, lex_le, str_eq};
use vstd::prelude::*;

verus! {

/// One row of the index.
#[derive(Debug)]
pub struct SessionMeta {
    pub path: String,
    pub id: String,
    pub cwd: String,
    pub timestamp: String,
    pub message_count: u64,
    pub last_modified_ms: i64,
    pub size_bytes: u64,
    pub name: Option<String>,
}

/// [`SessionMeta`] as plain data.
pub struct SessionMetaV {
    pub path: Seq<char>,
    pub id: Seq<char>,
    pub cwd: Seq<char>,
    pub timestamp: Seq<char>,
    pub message_count: u64,
    pub last_modified_ms: i64,
    pub size_bytes: u64,
    pub name: Option<Seq<char>>,
}

impl View for SessionMeta {
    type V = SessionMetaV;

    open spec fn view(&self) -> SessionMetaV {
        SessionMetaV {
            path: self.path@,
            id: self.id@,
            cwd: self.cwd@,
            timestamp: self.timestamp@,
            message_count: self.message_count,
            last_modified_ms: self.last_modified_ms,
            size_bytes: self.size_bytes,
            name: opt_text(self.name),
        }
    }
}

impl Clone for SessionMeta {
    fn clone(&self) -> (r: Self)
        ensures
            r@ == self@,
    {
        SessionMeta {
            path: self.path.clone(),
            id: self.id.clone(),
            cwd: self.cwd.clone(),
            timestamp: self.timestamp.clone(),
            message_count: self.message_count,
            last_modified_ms: self.last_modified_ms,
            size_bytes: self.size_bytes,
            name: clone_opt_text(&self.name),
        }
    }
}

/// The views of a sequence of rows.
pub open spec fn rows_view(rows: Seq<SessionMeta>) -> Seq<SessionMetaV> {
    rows.map_values(|r: SessionMeta| r@)
}

/// How many of the entries are messages, up to `u64::MAX`.
pub open spec fn message_count_of(entries: Seq<SessionEntryV>) -> u64
    decreases entries.len(),
{
    if entries.len() == 0 {
        0
    } else {
        let before = message_count_of(entries.drop_last());
        if entries.last().kind is Message {
            crate::model::saturating_sum(before, 1)
        } else {
            before
        }
    }
}

/// The name of the session: the one that its last `session_info` entry
/// gives.
pub open spec fn name_of(entries: Seq<SessionEntryV>) -> Option<Seq<char>>
    decreases entries.len(),
{
    if entries.len() == 0 {
        None
    } else {
        match entries.last().kind {
            EntryKindV::SessionInfo { name } => name,
            _ => name_of(entries.drop_last()),
        }
    }
}

impl SessionMeta {
    /// The row for a session whose file stands at `path`, was last modified
    /// at `last_modified_ms` and has `size_bytes` bytes.
    pub fn of_session(session: &Session, path: &str, last_modified_ms: i64, size_bytes: u64) -> (r:
        Self)
        ensures
            r@ == (SessionMetaV {
                path: path@,
                id: session@.header.id,
                cwd: session@.header.cwd,
                timestamp: session@.header.timestamp,
                message_count: message_count_of(session@.entries),
                last_modified_ms,
                size_bytes,
                name: name_of(session@.entries),
            }),
    {
        let mut message_count: u64 = 0;
        let mut name: Option<String> = None;
        let ghost all = session@.entries;
        let mut i: usize = 0;
        while i < session.entries.len()
            invariant
                i <= session.entries.len(),
                all == session@.entries,
                message_count == message_count_of(all.take(i as int)),
                opt_text(name) == name_of(all.take(i as int)),
            decreases session.entries.len() - i,
        {
            proof {
                assert(all.take(i + 1).drop_last() =~= all.take(i as int));
                assert(all.take(i + 1).last() == session.entries@[i as int]@);
            }
            match &session.entries[i].kind {
                EntryKind::Message { message } => {
                    message_count = crate::model::saturating_add(message_count, 1);
                },
                EntryKind::SessionInfo { name: given } => {
                    name = clone_opt_text(given);
                },
                _ => {},
            }
            i += 1;
        }
        assert(all.take(i as int) =~= all);
        SessionMeta {
            path: String::from_str(path),
            id: session.header.id.clone(),
            cwd: session.header.cwd.clone(),
            timestamp: session.header.timestamp.clone(),
            message_count,
            last_modified_ms,
            size_bytes,
            name,
        }
    }
}

/// Whether row `a` is listed before row `b`, or they may stand in either
/// order: the row that was modified later comes first, and of two that
/// were modified at the same time, the one whose id comes first.
pub open spec fn listed_before(a: SessionMetaV, b: SessionMetaV) -> bool {
    a.last_modified_ms > b.last_modified_ms || (a.last_modified_ms == b.last_modified_ms && lex_le(
        a.id,
        b.id,
    ))
}

/// Whether the rows stand in the order of the listing.
pub open spec fn in_listing_order(rows: Seq<SessionMetaV>) -> bool {
    forall|i: int| 0 <= i < rows.len() - 1 ==> listed_before(#[trigger] rows[i], rows[i + 1])
}

/// The rows for the given working directory, or all rows where none is
/// given, in the order in which they stand.
pub open spec fn rows_for(rows: Seq<SessionMetaV>, cwd: Option<Seq<char>>) -> Seq<SessionMetaV>
    decreases rows.len(),
{
    if rows.len() == 0 {
        Seq::empty()
    } else if cwd is None || rows.last().cwd == cwd->Some_0 {
        rows_for(rows.drop_last(), cwd).push(rows.last())
    } else {
        rows_for(rows.drop_last(), cwd)
    }
}

/// The position of the first of the first `limit` rows with the given
/// working directory and id.
pub open spec fn row_position(rows: Seq<SessionMetaV>, cwd: Seq<char>, id: Seq<char>, limit: int) -> Option<
    int,
>
    decreases limit,
{
    if limit <= 0 || limit > rows.len() {
        None
    } else {
        match row_position(rows, cwd, id, limit - 1) {
            Some(i) => Some(i),
            None => if rows[limit - 1].cwd == cwd && rows[limit - 1].id == id {
                Some(limit - 1)
            } else {
                None
            },
        }
    }
}

/// Once a row is found, it stays the first one.
pub proof fn lemma_row_position_stays(
    rows: Seq<SessionMetaV>,
    cwd: Seq<char>,
    id: Seq<char>,
    found: int,
    limit: int,
)
    requires
        row_position(rows, cwd, id, found) is Some,
        found <= limit <= rows.len(),
    ensures
        row_position(rows, cwd, id, limit) == row_position(rows, cwd, id, found),
    decreases limit - found,
{
    if found < limit {
        lemma_row_position_stays(rows, cwd, id, found, limit - 1);
    }
}

/// The rows with the given row put in: in place of the row of the same
/// working directory and id, or at the end where there is none.
pub open spec fn upserted(rows: Seq<SessionMetaV>, row: SessionMetaV) -> Seq<SessionMetaV> {
    match row_position(rows, row.cwd, row.id, rows.len() as int) {
        Some(i) => rows.update(i, row),
        None => rows.push(row),
    }
}

/// The index, held in memory.
#[derive(Debug)]
pub struct SessionIndex {
    pub rows: Vec<SessionMeta>,
}

fn listed_first(a: &SessionMeta, b: &SessionMeta) -> (r: bool)
    ensures
        r == listed_before(a@, b@),
{
    if a.last_modified_ms > b.last_modified_ms {
        return true;
    }
    if a.last_modified_ms < b.last_modified_ms {
        return false;
    }
    let x = chars_of(a.id.as_str());
    let y = chars_of(b.id.as_str());
    chars_le(x.as_slice(), y.as_slice())
}

impl SessionIndex {
    /// An empty index.
    pub fn new() -> (r: Self)
        ensures
            r.rows@.len() == 0,
    {
        SessionIndex { rows: Vec::new() }
    }

    /// Puts the row of a session into the index, in place of the row that
    /// the session had.
    pub fn index_session(&mut self, row: SessionMeta)
        ensures
            rows_view(final(self).rows@) == upserted(rows_view(old(self).rows@), row@),
    {
        let ghost before = rows_view(self.rows@);
        let mut i: usize = 0;
        while i < self.rows.len()
            invariant
                i <= self.rows.len(),
                self.rows == old(self).rows,
                before == rows_view(self.rows@),
                row_position(before, row@.cwd, row@.id, i as int).is_none(),
            decreases self.rows.len() - i,
        {
            if str_eq(self.rows[i].cwd.as_str(), row.cwd.as_str()) && str_eq(
                self.rows[i].id.as_str(),
                row.id.as_str(),
            ) {
                proof {
                    assert(before[i as int] == self.rows@[i as int]@);
                    assert(row_position(before, row@.cwd, row@.id, i + 1) == Some(i as int));
                    lemma_row_position_stays(before, row@.cwd, row@.id, i + 1, before.len() as int);
                }
                self.rows[i] = row;
                assert(rows_view(self.rows@) =~= before.update(i as int, row@));
                return ;
            }
            proof {
                assert(before[i as int] == self.rows@[i as int]@);
            }
            i += 1;
        }
        self.rows.push(row);
        assert(rows_view(self.rows@) =~= before.push(row@));
    }

    /// The rows for the given working directory, or all rows where none is
    /// given: the row that was modified last first, and rows that were
    /// modified at the same time in the order of their ids.
    pub fn list_sessions(&self, cwd: Option<&str>) -> (r: Vec<SessionMeta>)
        ensures
            in_listing_order(rows_view(r@)),
            rows_view(r@).to_multiset() == rows_for(
                rows_view(self.rows@),
                match cwd {
                    Some(c) => Some(c@),
                    None => None,
                },
            ).to_multiset(),
    {
        let ghost wanted: Option<Seq<char>> = match cwd {
            Some(c) => Some(c@),
            None => None,
        };
        let ghost all = rows_view(self.rows@);
        let mut out: Vec<SessionMeta> = Vec::new();
        let mut i: usize = 0;
        assert(rows_view(out@) =~= rows_for(all.take(0), wanted));
        while i < self.rows.len()
            invariant
                i <= self.rows.len(),
                all == rows_view(self.rows@),
                match cwd {
                    Some(c) => wanted == Some(c@),
                    None => wanted.is_none(),
                },
                in_listing_order(rows_view(out@)),
                rows_view(out@).to_multiset() == rows_for(all.take(i as int), wanted).to_multiset(),
            decreases self.rows.len() - i,
        {
            proof {
                assert(all.take(i + 1).drop_last() =~= all.take(i as int));
                assert(all.take(i + 1).last() == self.rows@[i as int]@);
            }
            let keep = match cwd {
                Some(c) => str_eq(self.rows[i].cwd.as_str(), c),
                None => true,
            };
            if keep {
                let ghost so_far = rows_for(all.take(i as int), wanted);
                proof {
                    vstd::seq_lib::to_multiset_build(so_far, self.rows@[i as int]@);
                }
                insert_row(&mut out, self.rows[i].clone());
            }
            i += 1;
        }
        assert(all.take(i as int) =~= all);
        out
    }
}

/// Puts a row into rows that stand in the order of the listing, at the
/// place that keeps them in order.
fn insert_row(rows: &mut Vec<SessionMeta>, row: SessionMeta)
    requires
        in_listing_order(rows_view(old(rows)@)),
    ensures
        in_listing_order(rows_view(final(rows)@)),
        rows_view(final(rows)@).to_multiset() == rows_view(old(rows)@).to_multiset().insert(row@),
{
    let mut at: usize = 0;
    while at < rows.len() && listed_first(&rows[at], &row)
        invariant
            at <= rows.len(),
            *rows == *old(rows),
            forall|k: int| 0 <= k < at ==> listed_before((#[trigger] rows@[k])@, row@),
        decreases rows.len() - at,
    {
        at += 1;
    }
    proof {
        if at < rows.len() {
            lemma_lex_total(rows@[at as int]@.id, row@.id);
        }
    }
    let ghost before = rows_view(rows@);
    rows.insert(at, row);
    proof {
        let after = rows_view(rows@);
        assert(after =~= before.insert(at as int, row@));
        vstd::seq_lib::to_multiset_insert(before, at as int, row@);
        assert forall|i: int| 0 <= i < after.len() - 1 implies listed_before(
            #[trigger] after[i],
            after[i + 1],
        ) by {
            if i + 1 < at {
                assert(after[i] == before[i] && after[i + 1] == before[i + 1]);
            } else if i + 1 == at {
                assert(after[i] == before[i]);
                assert(before[i] == old(rows)@[i]@);
            } else if i == at {
                assert(after[i + 1] == before[i]);
                assert(before[i] == old(rows)@[i]@);
            } else {
                assert(after[i] == before[i - 1] && after[i + 1] == before[i]);
            }
        }
    }
}

} // verus!
