//! Themes: the schema, the two built-in themes, validation, and the rules by
//! which theme files are found and chosen.
//!
//! Files are read by the caller. This module is handed directory listings
//! and file contents, and decides.

use crate::error::{Error, ErrorV};
use crate::json::{parsed_json, Json, JsonV};
use crate::model::opt_text;
use crate::session_file::{as_text, at, read_text};
use crate::text::{
    chars_le, chars_of, eq_ignore_ascii_case, hex_digit, is_hex_digit, lemma_lex_total, lex_le,
    same_ignoring_ascii_case, string_of, trim_chars, trimmed,
};
use vstd::prelude::*;

verus! {

/// The colours of the interface.
#[derive(Debug, Clone)]
pub struct ThemeColors {
    pub foreground: String,
    pub background: String,
    pub accent: String,
    pub success: String,
    pub warning: String,
    pub error: String,
    pub muted: String,
}

/// The colours of highlighted code.
#[derive(Debug, Clone)]
pub struct SyntaxColors {
    pub keyword: String,
    pub string: String,
    pub number: String,
    pub comment: String,
    pub function: String,
}

/// The colours of borders, selection and cursor.
#[derive(Debug, Clone)]
pub struct UiColors {
    pub border: String,
    pub selection: String,
    pub cursor: String,
}

/// A colour theme: a name, a version and fifteen colours.
#[derive(Debug, Clone)]
pub struct Theme {
    pub name: String,
    pub version: String,
    pub colors: ThemeColors,
    pub syntax: SyntaxColors,
    pub ui: UiColors,
}

/// Explicit roots for theme discovery.
#[derive(Debug, Clone)]
pub struct ThemeRoots {
    pub global_dir: String,
    pub project_dir: String,
}

/// The path that `std::path::Path::join` makes of a base and a name, as
/// text. It is made of the two texts alone; how they are put together is
/// the business of the platform that the library is built for.
pub uninterp spec fn joined_path(base: Seq<char>, name: Seq<char>) -> Seq<char>;

/// Calls `std::path::Path::join` on the base with the name and gives the
/// path that it makes as text, which is the path that `joined_path` names.
#[verifier::external_body]
fn join_path(base: &str, name: &str) -> (r: String)
    ensures
        r@ == joined_path(base@, name@),
{
    std::path::Path::new(base).join(name).to_string_lossy().into_owned()
}

impl ThemeRoots {
    /// The roots for a working directory: the given global directory, and
    /// `.pi` under the working directory.
    pub fn from_cwd(cwd: &str, global_dir: &str) -> (r: Self)
        ensures
            r.global_dir@ == global_dir@,
            r.project_dir@ == joined_path(cwd@, ".pi"@),
    {
        ThemeRoots { global_dir: String::from_str(global_dir), project_dir: join_path(cwd, ".pi") }
    }

    /// The two directories that hold theme files: `themes` under the global
    /// root, then `themes` under the project's root.
    pub fn theme_dirs(&self) -> (r: (String, String))
        ensures
            r.0@ == joined_path(self.global_dir@, "themes"@),
            r.1@ == joined_path(self.project_dir@, "themes"@),
    {
        (join_path(self.global_dir.as_str(), "themes"), join_path(self.project_dir.as_str(), "themes"))
    }
}

/// One entry of a directory listing.
#[derive(Debug, Clone)]
pub struct DirEntry {
    /// The path of the entry.
    pub path: String,
    /// Whether the entry is a regular file.
    pub is_file: bool,
    /// The extension of the file name, without the dot, where it has one.
    pub extension: Option<String>,
}

/// The listings of the global and the project theme directory. A directory
/// that is missing or cannot be read has an empty listing.
#[derive(Debug, Clone)]
pub struct ThemeListing {
    pub global: Vec<DirEntry>,
    pub project: Vec<DirEntry>,
}

/// Whether an entry is a theme file: a regular file whose extension is
/// `json` in any letter case.
pub open spec fn is_theme_file(entry: DirEntry) -> bool {
    entry.is_file && entry.extension is Some && same_ignoring_ascii_case(
        entry.extension->Some_0@,
        "json"@,
    )
}

/// The paths of the theme files of a listing, in the order of the listing.
pub open spec fn theme_paths(entries: Seq<DirEntry>) -> Seq<Seq<char>>
    decreases entries.len(),
{
    if entries.len() == 0 {
        Seq::empty()
    } else if is_theme_file(entries.last()) {
        theme_paths(entries.drop_last()).push(entries.last().path@)
    } else {
        theme_paths(entries.drop_last())
    }
}

/// Whether each text comes before the next or equals it, in the order of
/// `str`.
pub open spec fn in_order(texts: Seq<Seq<char>>) -> bool {
    forall|i: int| 0 <= i < texts.len() - 1 ==> lex_le(#[trigger] texts[i], texts[i + 1])
}

/// The paths of the theme files of a listing, in the order of the listing.
pub fn glob_json(entries: &[DirEntry]) -> (r: Vec<String>)
    ensures
        crate::error::texts_view(r@) == theme_paths(entries@),
{
    let json = chars_of("json");
    let mut out: Vec<String> = Vec::new();
    let mut i: usize = 0;
    assert(crate::error::texts_view(out@) =~= theme_paths(entries@.take(0)));
    while i < entries.len()
        invariant
            i <= entries.len(),
            json@ == "json"@,
            crate::error::texts_view(out@) == theme_paths(entries@.take(i as int)),
        decreases entries.len() - i,
    {
        proof {
            assert(entries@.take(i + 1).drop_last() =~= entries@.take(i as int));
            assert(entries@.take(i + 1).last() == entries@[i as int]);
        }
        let entry = &entries[i];
        let wanted = entry.is_file && match &entry.extension {
            Some(ext) => {
                let e = chars_of(ext.as_str());
                eq_ignore_ascii_case(e.as_slice(), json.as_slice())
            },
            None => false,
        };
        if wanted {
            out.push(entry.path.clone());
            assert(crate::error::texts_view(out@) =~= theme_paths(entries@.take(i + 1)));
        }
        i += 1;
    }
    assert(entries@.take(i as int) =~= entries@);
    out
}

/// Whether a path comes before the key or equals it, in the order of `str`.
fn comes_first(path: &String, key: &[char]) -> (r: bool)
    ensures
        r == lex_le(path@, key@),
{
    let here = chars_of(path.as_str());
    chars_le(here.as_slice(), key)
}

/// Puts `path` into a list that is in order, at the place that keeps it in
/// order: after everything that does not come after it.
fn insert_in_order(sorted: &mut Vec<String>, path: String)
    requires
        in_order(crate::error::texts_view(old(sorted)@)),
    ensures
        in_order(crate::error::texts_view(final(sorted)@)),
        crate::error::texts_view(final(sorted)@).to_multiset() == crate::error::texts_view(
            old(sorted)@,
        ).to_multiset().insert(path@),
{
    let key = chars_of(path.as_str());
    let mut at: usize = 0;
    while at < sorted.len() && comes_first(&sorted[at], key.as_slice())
        invariant
            at <= sorted.len(),
            key@ == path@,
            *sorted == *old(sorted),
            forall|k: int| 0 <= k < at ==> lex_le((#[trigger] sorted@[k])@, key@),
        decreases sorted.len() - at,
    {
        at += 1;
    }
    proof {
        if at < sorted.len() {
            lemma_lex_total(sorted@[at as int]@, key@);
        }
    }
    let ghost before = crate::error::texts_view(sorted@);
    sorted.insert(at, path);
    proof {
        let after = crate::error::texts_view(sorted@);
        assert(after =~= before.insert(at as int, path@));
        vstd::seq_lib::to_multiset_insert(before, at as int, path@);
        assert forall|i: int| 0 <= i < after.len() - 1 implies lex_le(
            #[trigger] after[i],
            after[i + 1],
        ) by {
            if i + 1 < at {
                assert(after[i] == before[i] && after[i + 1] == before[i + 1]);
            } else if i + 1 == at {
                assert(after[i] == before[i]);
                assert(before[i] == old(sorted)@[i]@);
            } else if i == at {
                assert(after[i + 1] == before[i]);
                assert(before[i] == old(sorted)@[i]@);
            } else {
                assert(after[i] == before[i - 1] && after[i + 1] == before[i]);
            }
        }
    }
}

impl Theme {
    /// The theme files of a listing: see `discover_themes_with_roots`.
    pub fn discover_themes(listing: &ThemeListing) -> (r: Vec<String>)
        ensures
            in_order(crate::error::texts_view(r@)),
            crate::error::texts_view(r@).to_multiset() == (theme_paths(listing.global@)
                + theme_paths(listing.project@)).to_multiset(),
    {
        Theme::discover_themes_with_roots(listing.global.as_slice(), listing.project.as_slice())
    }

    /// The paths of the theme files of the global and of the project
    /// directory, put in the order of `str`: every theme file of either
    /// listing, as often as it is listed.
    pub fn discover_themes_with_roots(global: &[DirEntry], project: &[DirEntry]) -> (r: Vec<
        String,
    >)
        ensures
            in_order(crate::error::texts_view(r@)),
            crate::error::texts_view(r@).to_multiset() == (theme_paths(global@) + theme_paths(
                project@,
            )).to_multiset(),
    {
        let mut found = glob_json(global);
        let mut more = glob_json(project);
        found.append(&mut more);
        let ghost all = theme_paths(global@) + theme_paths(project@);
        assert(crate::error::texts_view(found@) =~= all);
        let mut sorted: Vec<String> = Vec::new();
        let mut i: usize = 0;
        assert(all.take(0) =~= Seq::<Seq<char>>::empty());
        assert(crate::error::texts_view(sorted@) =~= Seq::<Seq<char>>::empty());
        while i < found.len()
            invariant
                i <= found.len(),
                crate::error::texts_view(found@) == all,
                in_order(crate::error::texts_view(sorted@)),
                crate::error::texts_view(sorted@).to_multiset() == all.take(i as int).to_multiset(),
            decreases found.len() - i,
        {
            proof {
                assert(all.take(i + 1) =~= all.take(i as int).push(all[i as int]));
                vstd::seq_lib::to_multiset_build(all.take(i as int), all[i as int]);
            }
            insert_in_order(&mut sorted, found[i].clone());
            i += 1;
        }
        assert(all.take(i as int) =~= all);
        sorted
    }
}

/// A theme as plain data: its name, its version, and its colours in the
/// order of the schema, each under the name of its field.
pub struct ThemeV {
    pub name: Seq<char>,
    pub version: Seq<char>,
    pub colors: Seq<(Seq<char>, Seq<char>)>,
}

impl View for Theme {
    type V = ThemeV;

    open spec fn view(&self) -> ThemeV {
        ThemeV {
            name: self.name@,
            version: self.version@,
            colors: seq![
                ("colors.foreground"@, self.colors.foreground@),
                ("colors.background"@, self.colors.background@),
                ("colors.accent"@, self.colors.accent@),
                ("colors.success"@, self.colors.success@),
                ("colors.warning"@, self.colors.warning@),
                ("colors.error"@, self.colors.error@),
                ("colors.muted"@, self.colors.muted@),
                ("syntax.keyword"@, self.syntax.keyword@),
                ("syntax.string"@, self.syntax.string@),
                ("syntax.number"@, self.syntax.number@),
                ("syntax.comment"@, self.syntax.comment@),
                ("syntax.function"@, self.syntax.function@),
                ("ui.border"@, self.ui.border@),
                ("ui.selection"@, self.ui.selection@),
                ("ui.cursor"@, self.ui.cursor@),
            ],
        }
    }
}

/// Whether a text is a colour: `#` and six hexadecimal digits, with or
/// without white space round them.
pub open spec fn valid_color(value: Seq<char>) -> bool {
    let t = trimmed(value);
    t.len() == 7 && t[0] == '#' && forall|i: int| 1 <= i < 7 ==> is_hex_digit(#[trigger] t[i])
}

/// The message for a field that holds no colour.
pub open spec fn color_error(field: Seq<char>, value: Seq<char>) -> Seq<char> {
    "Invalid color for "@ + field + ": "@ + trimmed(value)
}

/// The message for the first field that holds no colour, if there is one.
pub open spec fn first_bad_color(colors: Seq<(Seq<char>, Seq<char>)>) -> Option<Seq<char>>
    decreases colors.len(),
{
    if colors.len() == 0 {
        None
    } else if !valid_color(colors[0].1) {
        Some(color_error(colors[0].0, colors[0].1))
    } else {
        first_bad_color(colors.drop_first())
    }
}

impl ThemeV {
    /// What is wrong with the theme, if anything: an empty name, an empty
    /// version, or the first field that holds no colour.
    pub open spec fn problem(self) -> Option<ErrorV> {
        if trimmed(self.name).len() == 0 {
            Some(ErrorV::Validation("Theme name is empty"@))
        } else if trimmed(self.version).len() == 0 {
            Some(ErrorV::Validation("Theme version is empty"@))
        } else {
            match first_bad_color(self.colors) {
                Some(message) => Some(ErrorV::Validation(message)),
                None => None,
            }
        }
    }
}

/// The result of a check: `Ok` where nothing is wrong, else the error.
pub open spec fn checked(r: Result<(), Error>, problem: Option<ErrorV>) -> bool {
    match problem {
        Some(e) => r is Err && r->Err_0@ == e,
        None => r is Ok,
    }
}

impl Theme {
    /// Checks that a field holds a colour.
    pub fn validate_color(field: &str, value: &str) -> (r: Result<(), Error>)
        ensures
            checked(
                r,
                if valid_color(value@) {
                    None
                } else {
                    Some(ErrorV::Validation(color_error(field@, value@)))
                },
            ),
    {
        let v = chars_of(value);
        let t = trim_chars(v.as_slice());
        let mut ok = t.len() == 7 && t[0] == '#';
        if ok {
            let mut i: usize = 1;
            while i < 7
                invariant
                    1 <= i <= 7,
                    t@.len() == 7,
                    ok == forall|k: int| 1 <= k < i ==> is_hex_digit(#[trigger] t@[k]),
                decreases 7 - i,
            {
                if !hex_digit(t[i]) {
                    ok = false;
                }
                i += 1;
            }
        }
        if ok {
            Ok(())
        } else {
            let shown = string_of(t.as_slice());
            let message = String::from_str("Invalid color for ").concat(field).concat(": ").concat(
                shown.as_str(),
            );
            assert(message@ =~= color_error(field@, value@));
            Err(Error::Validation(message))
        }
    }

    /// Checks the theme: name and version must not be empty, and every
    /// colour must be `#` and six hexadecimal digits. The first thing that
    /// is wrong decides the error.
    pub fn validate(&self) -> (r: Result<(), Error>)
        ensures
            checked(r, self@.problem()),
    {
        if crate::text::is_blank(self.name.as_str()) {
            return Err(Error::validation("Theme name is empty"));
        }
        if crate::text::is_blank(self.version.as_str()) {
            return Err(Error::validation("Theme version is empty"));
        }
        let colors: Vec<(&str, &str)> = vec![
            ("colors.foreground", self.colors.foreground.as_str()),
            ("colors.background", self.colors.background.as_str()),
            ("colors.accent", self.colors.accent.as_str()),
            ("colors.success", self.colors.success.as_str()),
            ("colors.warning", self.colors.warning.as_str()),
            ("colors.error", self.colors.error.as_str()),
            ("colors.muted", self.colors.muted.as_str()),
            ("syntax.keyword", self.syntax.keyword.as_str()),
            ("syntax.string", self.syntax.string.as_str()),
            ("syntax.number", self.syntax.number.as_str()),
            ("syntax.comment", self.syntax.comment.as_str()),
            ("syntax.function", self.syntax.function.as_str()),
            ("ui.border", self.ui.border.as_str()),
            ("ui.selection", self.ui.selection.as_str()),
            ("ui.cursor", self.ui.cursor.as_str()),
        ];
        let ghost all = self@.colors;
        assert(colors@.map_values(|p: (&str, &str)| (p.0@, p.1@)) =~= all);
        let mut i: usize = 0;
        assert(all.skip(0) =~= all);
        while i < colors.len()
            invariant
                i <= colors.len(),
                trimmed(self.name@).len() != 0,
                trimmed(self.version@).len() != 0,
                all == self@.colors,
                colors@.map_values(|p: (&str, &str)| (p.0@, p.1@)) == all,
                first_bad_color(all) == first_bad_color(all.skip(i as int)),
            decreases colors.len() - i,
        {
            proof {
                assert(all.skip(i as int)[0] == all[i as int]);
                assert(all.skip(i as int).drop_first() =~= all.skip(i + 1));
                assert(all[i as int] == (colors@[i as int].0@, colors@[i as int].1@));
            }
            match Theme::validate_color(colors[i].0, colors[i].1) {
                Ok(_) => {},
                Err(e) => {
                    return Err(e);
                },
            }
            i += 1;
        }
        Ok(())
    }

    /// Default dark theme.
    pub fn dark() -> (r: Self)
        ensures
            r@ == (ThemeV {
                name: "dark"@,
                version: "1.0"@,
                colors: seq![
                    ("colors.foreground"@, "#d4d4d4"@),
                    ("colors.background"@, "#1e1e1e"@),
                    ("colors.accent"@, "#007acc"@),
                    ("colors.success"@, "#4ec9b0"@),
                    ("colors.warning"@, "#ce9178"@),
                    ("colors.error"@, "#f44747"@),
                    ("colors.muted"@, "#6a6a6a"@),
                    ("syntax.keyword"@, "#569cd6"@),
                    ("syntax.string"@, "#ce9178"@),
                    ("syntax.number"@, "#b5cea8"@),
                    ("syntax.comment"@, "#6a9955"@),
                    ("syntax.function"@, "#dcdcaa"@),
                    ("ui.border"@, "#3c3c3c"@),
                    ("ui.selection"@, "#264f78"@),
                    ("ui.cursor"@, "#aeafad"@),
                ],
            }),
    {
        Theme {
            name: String::from_str("dark"),
            version: String::from_str("1.0"),
            colors: ThemeColors {
                foreground: String::from_str("#d4d4d4"),
                background: String::from_str("#1e1e1e"),
                accent: String::from_str("#007acc"),
                success: String::from_str("#4ec9b0"),
                warning: String::from_str("#ce9178"),
                error: String::from_str("#f44747"),
                muted: String::from_str("#6a6a6a"),
            },
            syntax: SyntaxColors {
                keyword: String::from_str("#569cd6"),
                string: String::from_str("#ce9178"),
                number: String::from_str("#b5cea8"),
                comment: String::from_str("#6a9955"),
                function: String::from_str("#dcdcaa"),
            },
            ui: UiColors {
                border: String::from_str("#3c3c3c"),
                selection: String::from_str("#264f78"),
                cursor: String::from_str("#aeafad"),
            },
        }
    }

    /// Default light theme.
    pub fn light() -> (r: Self)
        ensures
            r@ == (ThemeV {
                name: "light"@,
                version: "1.0"@,
                colors: seq![
                    ("colors.foreground"@, "#2d2d2d"@),
                    ("colors.background"@, "#ffffff"@),
                    ("colors.accent"@, "#0066bf"@),
                    ("colors.success"@, "#2e8b57"@),
                    ("colors.warning"@, "#b36200"@),
                    ("colors.error"@, "#c62828"@),
                    ("colors.muted"@, "#7a7a7a"@),
                    ("syntax.keyword"@, "#0000ff"@),
                    ("syntax.string"@, "#a31515"@),
                    ("syntax.number"@, "#098658"@),
                    ("syntax.comment"@, "#008000"@),
                    ("syntax.function"@, "#795e26"@),
                    ("ui.border"@, "#c8c8c8"@),
                    ("ui.selection"@, "#cce7ff"@),
                    ("ui.cursor"@, "#000000"@),
                ],
            }),
    {
        Theme {
            name: String::from_str("light"),
            version: String::from_str("1.0"),
            colors: ThemeColors {
                foreground: String::from_str("#2d2d2d"),
                background: String::from_str("#ffffff"),
                accent: String::from_str("#0066bf"),
                success: String::from_str("#2e8b57"),
                warning: String::from_str("#b36200"),
                error: String::from_str("#c62828"),
                muted: String::from_str("#7a7a7a"),
            },
            syntax: SyntaxColors {
                keyword: String::from_str("#0000ff"),
                string: String::from_str("#a31515"),
                number: String::from_str("#098658"),
                comment: String::from_str("#008000"),
                function: String::from_str("#795e26"),
            },
            ui: UiColors {
                border: String::from_str("#c8c8c8"),
                selection: String::from_str("#cce7ff"),
                cursor: String::from_str("#000000"),
            },
        }
    }

}

/// The position of the first theme that is sound and whose name is the
/// wanted one but for the case of ASCII letters.
pub open spec fn first_named(themes: Seq<ThemeV>, name: Seq<char>) -> Option<int>
    decreases themes.len(),
{
    if themes.len() == 0 {
        None
    } else if themes[0].problem().is_none() && same_ignoring_ascii_case(themes[0].name, name) {
        Some(0)
    } else {
        match first_named(themes.drop_first(), name) {
            Some(i) => Some(i + 1),
            None => None,
        }
    }
}

/// The views of a sequence of themes.
pub open spec fn themes_view(themes: Seq<Theme>) -> Seq<ThemeV> {
    themes.map_values(|t: Theme| t@)
}

/// What choosing a theme by name comes to.
pub open spec fn chosen(r: Result<Theme, Error>, name: Seq<char>, themes: Seq<ThemeV>) -> bool {
    let wanted = trimmed(name);
    if wanted.len() == 0 {
        r is Err && r->Err_0@ == ErrorV::Validation("Theme name is empty"@)
    } else {
        match first_named(themes, wanted) {
            Some(i) => r is Ok && r->Ok_0@ == themes[i],
            None => r is Err && r->Err_0@ == ErrorV::Config("Theme not found: "@ + wanted),
        }
    }
}

impl Theme {
    /// Chooses a theme by name among the themes that were read, in the order
    /// in which their files were found: see `load_by_name_with_roots`.
    pub fn load_by_name(name: &str, candidates: Vec<Theme>) -> (r: Result<Theme, Error>)
        ensures
            chosen(r, name@, themes_view(candidates@)),
    {
        Theme::load_by_name_with_roots(name, candidates)
    }

    /// Chooses a theme by name. White space round the name does not count,
    /// nor the case of ASCII letters. The first candidate that passes
    /// `validate` and has the name is returned. An empty name is a
    /// validation error; no such candidate, a configuration error.
    pub fn load_by_name_with_roots(name: &str, candidates: Vec<Theme>) -> (r: Result<Theme, Error>)
        ensures
            chosen(r, name@, themes_view(candidates@)),
    {
        let n = chars_of(name);
        let wanted = trim_chars(n.as_slice());
        if wanted.len() == 0 {
            return Err(Error::validation("Theme name is empty"));
        }
        let mut pool = candidates;
        let ghost all = themes_view(candidates@);
        assert(themes_view(pool@) == all);
        let mut at: usize = 0;
        assert(all.skip(0) =~= all);
        while at < pool.len()
            invariant
                at <= pool.len(),
                wanted@ == trimmed(name@),
                themes_view(pool@) == all,
                all == themes_view(candidates@),
                match first_named(all.skip(at as int), wanted@) {
                    Some(i) => first_named(all, wanted@) == Some(i + at),
                    None => first_named(all, wanted@).is_none(),
                },
            decreases pool.len() - at,
        {
            proof {
                let rest = all.skip(at as int);
                assert(rest[0] == pool@[at as int]@);
                assert(rest.drop_first() =~= all.skip(at + 1));
            }
            let sound = pool[at].validate().is_ok();
            if sound {
                let given = chars_of(pool[at].name.as_str());
                if eq_ignore_ascii_case(given.as_slice(), wanted.as_slice()) {
                    proof {
                        assert(all[at as int] == pool@[at as int]@);
                        assert(first_named(all.skip(at as int), wanted@) == Some(0int));
                    }
                    let theme = pool.swap_remove(at);
                    assert(theme@ == all[at as int]);
                    assert(first_named(all, wanted@) == Some(at as int));
                    assert(wanted@.len() != 0);
                    return Ok(theme);
                }
            }
            at += 1;
        }
        proof {
            assert(all.skip(at as int) =~= Seq::<ThemeV>::empty());
        }
        let shown = string_of(wanted.as_slice());
        Err(Error::Config(String::from_str("Theme not found: ").concat(shown.as_str())))
    }
}

/// Where a theme file holds each colour: the section, the field in it,
/// and the name by which both are spoken of, in the order of the schema.
pub open spec fn schema() -> Seq<(Seq<char>, Seq<char>, Seq<char>)> {
    seq![
        ("colors"@, "foreground"@, "colors.foreground"@),
        ("colors"@, "background"@, "colors.background"@),
        ("colors"@, "accent"@, "colors.accent"@),
        ("colors"@, "success"@, "colors.success"@),
        ("colors"@, "warning"@, "colors.warning"@),
        ("colors"@, "error"@, "colors.error"@),
        ("colors"@, "muted"@, "colors.muted"@),
        ("syntax"@, "keyword"@, "syntax.keyword"@),
        ("syntax"@, "string"@, "syntax.string"@),
        ("syntax"@, "number"@, "syntax.number"@),
        ("syntax"@, "comment"@, "syntax.comment"@),
        ("syntax"@, "function"@, "syntax.function"@),
        ("ui"@, "border"@, "ui.border"@),
        ("ui"@, "selection"@, "ui.selection"@),
        ("ui"@, "cursor"@, "ui.cursor"@),
    ]
}

/// The text that a theme file holds at place `k` of the schema.
pub open spec fn color_at(doc: JsonV, k: int) -> Option<Seq<char>> {
    as_text(at(at(doc, schema()[k].0), schema()[k].1))
}

/// The first of the first `limit` places of the schema at which a theme
/// file holds no text.
pub open spec fn first_missing(doc: JsonV, limit: int) -> Option<int>
    decreases limit,
{
    if limit <= 0 || limit > schema().len() {
        None
    } else {
        match first_missing(doc, limit - 1) {
            Some(i) => Some(i),
            None => if color_at(doc, limit - 1) is None {
                Some(limit - 1)
            } else {
                None
            },
        }
    }
}

/// The error for a theme file that lacks a text.
pub open spec fn theme_needs(name: Seq<char>) -> ErrorV {
    ErrorV::Json("theme needs the string `"@ + name + "`"@)
}

/// The theme that a document holds: its name, its version and its fifteen
/// colours must be strings. The first that is missing decides the error.
pub open spec fn theme_read(doc: JsonV) -> Result<ThemeV, ErrorV> {
    match (as_text(at(doc, "name"@)), as_text(at(doc, "version"@))) {
        (None, _) => Err(theme_needs("name"@)),
        (Some(_), None) => Err(theme_needs("version"@)),
        (Some(name), Some(version)) => match first_missing(doc, schema().len() as int) {
            Some(i) => Err(theme_needs(schema()[i].2)),
            None => Ok(
                ThemeV {
                    name,
                    version,
                    colors: Seq::new(
                        schema().len(),
                        |k: int| (schema()[k].2, color_at(doc, k)->Some_0),
                    ),
                },
            ),
        },
    }
}

/// The theme that the text of a file holds: the text must be JSON, the
/// document a theme, and the theme valid.
pub open spec fn theme_loaded(text: Seq<char>) -> Result<ThemeV, ErrorV> {
    match parsed_json(text) {
        Err(message) => Err(ErrorV::Json(message)),
        Ok(doc) => match theme_read(doc) {
            Err(e) => Err(e),
            Ok(theme) => match theme.problem() {
                Some(e) => Err(e),
                None => Ok(theme),
            },
        },
    }
}

/// The result of reading a theme, as plain data.
pub open spec fn theme_result(r: Result<Theme, Error>) -> Result<ThemeV, ErrorV> {
    match r {
        Ok(t) => Ok(t@),
        Err(e) => Err(e@),
    }
}

fn schema_keys() -> (r: Vec<(&'static str, &'static str, &'static str)>)
    ensures
        r@.map_values(|p: (&'static str, &'static str, &'static str)| (p.0@, p.1@, p.2@))
            == schema(),
{
    let r: Vec<(&'static str, &'static str, &'static str)> = vec![
        ("colors", "foreground", "colors.foreground"),
        ("colors", "background", "colors.background"),
        ("colors", "accent", "colors.accent"),
        ("colors", "success", "colors.success"),
        ("colors", "warning", "colors.warning"),
        ("colors", "error", "colors.error"),
        ("colors", "muted", "colors.muted"),
        ("syntax", "keyword", "syntax.keyword"),
        ("syntax", "string", "syntax.string"),
        ("syntax", "number", "syntax.number"),
        ("syntax", "comment", "syntax.comment"),
        ("syntax", "function", "syntax.function"),
        ("ui", "border", "ui.border"),
        ("ui", "selection", "ui.selection"),
        ("ui", "cursor", "ui.cursor"),
    ];
    assert(r@.map_values(|p: (&'static str, &'static str, &'static str)| (p.0@, p.1@, p.2@))
        =~= schema());
    r
}

fn needs(name: &str) -> (r: Error)
    ensures
        r@ == theme_needs(name@),
{
    Error::Json(String::from_str("theme needs the string `").concat(name).concat("`"))
}

fn text_under(doc: &Json, section: &str, field: &str) -> (r: Option<String>)
    ensures
        opt_text(r) == as_text(at(at(doc@, section@), field@)),
{
    match doc.get(section) {
        Some(inner) => read_text(inner, field),
        None => None,
    }
}

/// Once a place is found missing, it stays the first one.
proof fn lemma_first_missing_stays(doc: JsonV, found: int, limit: int)
    requires
        first_missing(doc, found) is Some,
        found <= limit <= schema().len(),
    ensures
        first_missing(doc, limit) == first_missing(doc, found),
    decreases limit - found,
{
    if found < limit {
        lemma_first_missing_stays(doc, found, limit - 1);
    }
}

impl Theme {
    /// Reads a theme from a document.
    pub fn read(doc: &Json) -> (r: Result<Theme, Error>)
        ensures
            theme_result(r) == theme_read(doc@),
    {
        let name = match read_text(doc, "name") {
            Some(name) => name,
            None => {
                return Err(needs("name"));
            },
        };
        let version = match read_text(doc, "version") {
            Some(version) => version,
            None => {
                return Err(needs("version"));
            },
        };
        let keys = schema_keys();
        let mut values: Vec<String> = Vec::new();
        let mut k: usize = 0;
        while k < keys.len()
            invariant
                k <= keys.len(),
                keys@.len() == schema().len(),
                keys@.map_values(|p: (&'static str, &'static str, &'static str)| (p.0@, p.1@, p.2@))
                    == schema(),
                values@.len() == k,
                first_missing(doc@, k as int) is None,
                forall|j: int| 0 <= j < k ==> color_at(doc@, j) == Some((#[trigger] values@[j])@),
                as_text(at(doc@, "name"@)) == Some(name@),
                as_text(at(doc@, "version"@)) == Some(version@),
            decreases keys.len() - k,
        {
            assert(schema()[k as int] == (keys@[k as int].0@, keys@[k as int].1@, keys@[k as int].2@));
            match text_under(doc, keys[k].0, keys[k].1) {
                Some(v) => {
                    values.push(v);
                },
                None => {
                    proof {
                        assert(first_missing(doc@, k + 1) == Some(k as int));
                        lemma_first_missing_stays(doc@, k + 1, schema().len() as int);
                    }
                    return Err(needs(keys[k].2));
                },
            }
            k += 1;
        }
        let theme = Theme {
            name,
            version,
            colors: ThemeColors {
                foreground: values[0].clone(),
                background: values[1].clone(),
                accent: values[2].clone(),
                success: values[3].clone(),
                warning: values[4].clone(),
                error: values[5].clone(),
                muted: values[6].clone(),
            },
            syntax: SyntaxColors {
                keyword: values[7].clone(),
                string: values[8].clone(),
                number: values[9].clone(),
                comment: values[10].clone(),
                function: values[11].clone(),
            },
            ui: UiColors {
                border: values[12].clone(),
                selection: values[13].clone(),
                cursor: values[14].clone(),
            },
        };
        proof {
            let want = Seq::new(
                schema().len(),
                |j: int| (schema()[j].2, color_at(doc@, j)->Some_0),
            );
            assert(theme@.colors =~= want);
        }
        Ok(theme)
    }

    /// Loads a theme from the text of its file: reads it and checks it.
    pub fn from_json(text: &str) -> (r: Result<Theme, Error>)
        ensures
            theme_result(r) == theme_loaded(text@),
    {
        let doc = match Json::parse(text) {
            Ok(doc) => doc,
            Err(message) => {
                return Err(Error::Json(message));
            },
        };
        let theme = match Theme::read(&doc) {
            Ok(theme) => theme,
            Err(e) => {
                return Err(e);
            },
        };
        match theme.validate() {
            Ok(_) => Ok(theme),
            Err(e) => Err(e),
        }
    }
}

} // verus!
