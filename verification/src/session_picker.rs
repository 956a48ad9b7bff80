//! The session picker: a list of the sessions of a project, one of which
//! the user chooses, or none.

use crate::model::opt_text;
use crate::session_index::{SessionMeta, SessionMetaV};
use crate::text::{chars_of, decimal, push_decimal, slice_chars, string_of};
use vstd::prelude::*;

verus! {

/// What `chrono::DateTime::parse_from_rfc3339` reads from a text, printed
/// with `format` as year, month, day, hour and minute in the text's own
/// offset; `None` where the text is no RFC 3339 time.
pub uninterp spec fn minutes_of(timestamp: Seq<char>) -> Option<Seq<char>>;

/// Calls `chrono::DateTime::parse_from_rfc3339` and prints the time that it
/// reads with `format("%Y-%m-%d %H:%M")`. `None` where the text is
/// rejected.
#[verifier::external_body]
fn minutes(timestamp: &str) -> (r: Option<String>)
    ensures
        opt_text(r) == minutes_of(timestamp@),
{
    match chrono::DateTime::parse_from_rfc3339(timestamp) {
        Ok(time) => Some(time.format("%Y-%m-%d %H:%M").to_string()),
        Err(_) => None,
    }
}

/// A time as the picker shows it: to the minute, or as it is written
/// where it cannot be read.
pub open spec fn shown_time(timestamp: Seq<char>) -> Seq<char> {
    match minutes_of(timestamp) {
        Some(t) => t,
        None => timestamp,
    }
}

/// A time as the picker shows it.
pub fn format_time(timestamp: &str) -> (r: String)
    ensures
        r@ == shown_time(timestamp@),
{
    match minutes(timestamp) {
        Some(t) => t,
        None => String::from_str(timestamp),
    }
}

/// How many characters of a session's id are shown.
pub const ID_SHOWN: usize = 8;

/// The id of a session as it is shown: its first eight characters.
pub open spec fn short_id(id: Seq<char>) -> Seq<char> {
    if id.len() > ID_SHOWN {
        id.take(ID_SHOWN as int)
    } else {
        id
    }
}

/// The line of a session: a mark where it is the selected one, the id, the
/// time, the number of messages, and the name where there is one.
pub open spec fn row_text(m: SessionMetaV, selected: bool) -> Seq<char> {
    (if selected {
        "> "@
    } else {
        "  "@
    }) + short_id(m.id) + "  "@ + shown_time(m.timestamp) + "  "@ + decimal(
        m.message_count as nat,
    ) + " messages"@ + (match m.name {
        Some(n) => "  "@ + n,
        None => Seq::empty(),
    }) + "\n"@
}

/// The lines of the first `limit` sessions.
pub open spec fn rows_text(sessions: Seq<SessionMetaV>, selected: nat, limit: int) -> Seq<char>
    decreases limit,
{
    if limit <= 0 || limit > sessions.len() {
        Seq::empty()
    } else {
        rows_text(sessions, selected, limit - 1) + row_text(
            sessions[limit - 1],
            selected == limit - 1,
        )
    }
}

/// What the picker shows: a title, the sessions, and the keys; or that
/// there are no sessions.
pub open spec fn picker_text(sessions: Seq<SessionMetaV>, selected: nat) -> Seq<char> {
    if sessions.len() == 0 {
        "No sessions found for this project.\n"@
    } else {
        "Select a session to resume:\n\n"@ + rows_text(sessions, selected, sessions.len() as int)
            + "\n↑/↓ or j/k: move  Enter: open  Esc: cancel\n"@
    }
}

/// A key as the picker takes it.
#[derive(Debug, Clone, Copy, PartialEq, Eq, Structural)]
pub enum PickerKey {
    Up,
    Down,
    Enter,
    Esc,
    CtrlC,
    /// A character that was typed.
    Rune(char),
    /// Any other key.
    Other,
}

/// What a key means to the picker.
#[derive(Debug, Clone, Copy, PartialEq, Eq, Structural)]
pub enum PickerMove {
    Up,
    Down,
    Choose,
    Cancel,
    Nothing,
}

/// What a key means: the arrows and `k`, `j` move, Enter chooses, Esc,
/// Ctrl-C and `q` cancel.
pub open spec fn move_of(key: PickerKey) -> PickerMove {
    match key {
        PickerKey::Up => PickerMove::Up,
        PickerKey::Down => PickerMove::Down,
        PickerKey::Enter => PickerMove::Choose,
        PickerKey::Esc => PickerMove::Cancel,
        PickerKey::CtrlC => PickerMove::Cancel,
        PickerKey::Rune(c) => if c == 'k' {
            PickerMove::Up
        } else if c == 'j' {
            PickerMove::Down
        } else if c == 'q' {
            PickerMove::Cancel
        } else {
            PickerMove::Nothing
        },
        PickerKey::Other => PickerMove::Nothing,
    }
}

/// The picker as plain data.
pub struct SessionPickerV {
    pub sessions: Seq<SessionMetaV>,
    /// The position of the selected session.
    pub selected: nat,
    /// The position of the session that was chosen.
    pub chosen: Option<nat>,
    pub cancelled: bool,
}

impl SessionPickerV {
    /// What holds of every picker: the selected session is one of the
    /// list, and so is the chosen one.
    pub open spec fn wf(self) -> bool {
        &&& self.selected < self.sessions.len() || (self.sessions.len() == 0 && self.selected == 0)
        &&& self.chosen is Some ==> self.chosen->Some_0 < self.sessions.len()
    }

    /// The picker after a key, and whether it is done. The selection stops
    /// at both ends of the list; an empty list has nothing to choose.
    pub open spec fn after(self, key: PickerKey) -> (SessionPickerV, bool) {
        match move_of(key) {
            PickerMove::Up => (
                SessionPickerV {
                    selected: if self.selected > 0 {
                        (self.selected - 1) as nat
                    } else {
                        self.selected
                    },
                    ..self
                },
                false,
            ),
            PickerMove::Down => (
                SessionPickerV {
                    selected: if self.selected + 1 < self.sessions.len() {
                        self.selected + 1
                    } else {
                        self.selected
                    },
                    ..self
                },
                false,
            ),
            PickerMove::Choose => if self.selected < self.sessions.len() {
                (SessionPickerV { chosen: Some(self.selected), ..self }, true)
            } else {
                (self, false)
            },
            PickerMove::Cancel => (SessionPickerV { cancelled: true, ..self }, true),
            PickerMove::Nothing => (self, false),
        }
    }

    /// Every key leaves the picker in order.
    pub proof fn lemma_after_wf(self, key: PickerKey)
        requires
            self.wf(),
        ensures
            self.after(key).0.wf(),
            self.after(key).0.sessions == self.sessions,
    {
    }
}

/// The session picker.
#[derive(Debug)]
pub struct SessionPicker {
    sessions: Vec<SessionMeta>,
    selected: usize,
    chosen: Option<usize>,
    cancelled: bool,
}

/// The views of a list of sessions.
pub open spec fn sessions_view(sessions: Seq<SessionMeta>) -> Seq<SessionMetaV> {
    sessions.map_values(|m: SessionMeta| m@)
}

impl SessionPicker {
    /// The picker as plain data.
    pub closed spec fn state(&self) -> SessionPickerV {
        SessionPickerV {
            sessions: sessions_view(self.sessions@),
            selected: self.selected as nat,
            chosen: match self.chosen {
                Some(i) => Some(i as nat),
                None => None,
            },
            cancelled: self.cancelled,
        }
    }
}

/// What a key means to the picker.
pub fn key_move(key: PickerKey) -> (r: PickerMove)
    ensures
        r == move_of(key),
{
    match key {
        PickerKey::Up => PickerMove::Up,
        PickerKey::Down => PickerMove::Down,
        PickerKey::Enter => PickerMove::Choose,
        PickerKey::Esc => PickerMove::Cancel,
        PickerKey::CtrlC => PickerMove::Cancel,
        PickerKey::Rune(c) => if c == 'k' {
            PickerMove::Up
        } else if c == 'j' {
            PickerMove::Down
        } else if c == 'q' {
            PickerMove::Cancel
        } else {
            PickerMove::Nothing
        },
        PickerKey::Other => PickerMove::Nothing,
    }
}

impl SessionPicker {
    /// A picker for the given sessions, with the first one selected.
    pub fn new(sessions: Vec<SessionMeta>) -> (r: Self)
        ensures
            r.state() == (SessionPickerV {
                sessions: sessions_view(sessions@),
                selected: 0,
                chosen: None,
                cancelled: false,
            }),
            r.state().wf(),
    {
        SessionPicker { sessions, selected: 0, chosen: None, cancelled: false }
    }

    /// Takes a key. Returns whether the picker is done: a session was
    /// chosen, or the user cancelled.
    pub fn update(&mut self, key: PickerKey) -> (done: bool)
        requires
            old(self).state().wf(),
        ensures
            (final(self).state(), done) == old(self).state().after(key),
            final(self).state().wf(),
    {
        match key_move(key) {
            PickerMove::Up => {
                if self.selected > 0 {
                    self.selected = self.selected - 1;
                }
                false
            },
            PickerMove::Down => {
                if self.selected < self.sessions.len() && self.selected + 1 < self.sessions.len() {
                    self.selected = self.selected + 1;
                }
                false
            },
            PickerMove::Choose => {
                if self.selected < self.sessions.len() {
                    self.chosen = Some(self.selected);
                    true
                } else {
                    false
                }
            },
            PickerMove::Cancel => {
                self.cancelled = true;
                true
            },
            PickerMove::Nothing => false,
        }
    }

    /// The path of the session that was chosen.
    pub fn selected_path(&self) -> (r: Option<&str>)
        requires
            self.state().wf(),
        ensures
            match r {
                Some(path) => self.state().chosen is Some && path@ == self.state().sessions[self.state().chosen->Some_0 as int].path,
                None => self.state().chosen is None,
            },
    {
        match self.chosen {
            Some(i) => Some(self.sessions[i].path.as_str()),
            None => None,
        }
    }

    /// Whether the user cancelled.
    pub fn was_cancelled(&self) -> (r: bool)
        ensures
            r == self.state().cancelled,
    {
        self.cancelled
    }

    /// What the picker shows.
    pub fn view(&self) -> (r: String)
        ensures
            r@ == picker_text(self.state().sessions, self.state().selected),
    {
        if self.sessions.len() == 0 {
            return String::from_str("No sessions found for this project.\n");
        }
        let mut out = String::from_str("Select a session to resume:\n\n");
        let ghost all = sessions_view(self.sessions@);
        let ghost title = out@;
        let mut i: usize = 0;
        assert(out@ =~= title + rows_text(all, self.selected as nat, 0));
        while i < self.sessions.len()
            invariant
                i <= self.sessions.len(),
                all == sessions_view(self.sessions@),
                out@ == title + rows_text(all, self.selected as nat, i as int),
            decreases self.sessions.len() - i,
        {
            let ghost before = out@;
            push_row(&mut out, &self.sessions[i], i == self.selected);
            assert(out@ =~= title + rows_text(all, self.selected as nat, i + 1)) by {
                assert(all[i as int] == self.sessions@[i as int]@);
            }
            i += 1;
        }
        out.append("\n↑/↓ or j/k: move  Enter: open  Esc: cancel\n");
        out
    }
}

/// The id of a session as it is shown.
fn shown_id(id: &str) -> (r: String)
    ensures
        r@ == short_id(id@),
{
    let v = chars_of(id);
    if v.len() > ID_SHOWN {
        let head = slice_chars(v.as_slice(), 0, ID_SHOWN);
        assert(head@ =~= id@.take(ID_SHOWN as int));
        string_of(head.as_slice())
    } else {
        String::from_str(id)
    }
}

/// The line of a session.
fn row(m: &SessionMeta, selected: bool) -> (r: String)
    ensures
        r@ == row_text(m@, selected),
{
    let mut out = String::from_str(
        if selected {
            "> "
        } else {
            "  "
        },
    );
    let ghost mark = out@;
    out.append(shown_id(m.id.as_str()).as_str());
    out.append("  ");
    assert(out@ =~= mark + short_id(m.id@) + "  "@);
    out.append(format_time(m.timestamp.as_str()).as_str());
    out.append("  ");
    assert(out@ =~= mark + short_id(m.id@) + "  "@ + shown_time(m.timestamp@) + "  "@);
    push_decimal(&mut out, m.message_count);
    out.append(" messages");
    let ghost counted = out@;
    assert(counted =~= mark + short_id(m.id@) + "  "@ + shown_time(m.timestamp@) + "  "@ + decimal(
        m.message_count as nat,
    ) + " messages"@);
    match &m.name {
        Some(n) => {
            out.append("  ");
            out.append(n.as_str());
            assert(out@ =~= counted + ("  "@ + n@));
        },
        None => {
            assert(out@ =~= counted + Seq::<char>::empty());
        },
    }
    out.append("\n");
    out
}

fn push_row(out: &mut String, m: &SessionMeta, selected: bool)
    ensures
        final(out)@ == old(out)@ + row_text(m@, selected),
{
    out.append(row(m, selected).as_str());
}

} // verus!
