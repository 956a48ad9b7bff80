//! What the console prints, as text: markup for a terminal, plain lines
//! for anything else. Printing itself is left to the caller.

use crate::text::{chars_of, decimal, decimal_string, push_char, string_of};
use vstd::prelude::*;

verus! {

/// The text without its markup tags: what stands from `[` to the next `]`
/// is left out, and a `[` that is never closed takes the rest with it.
pub open spec fn without_markup(text: Seq<char>, in_tag: bool) -> Seq<char>
    decreases text.len(),
{
    if text.len() == 0 {
        Seq::empty()
    } else if text[0] == '[' {
        without_markup(text.drop_first(), true)
    } else if text[0] == ']' && in_tag {
        without_markup(text.drop_first(), false)
    } else if !in_tag {
        seq![text[0]] + without_markup(text.drop_first(), false)
    } else {
        without_markup(text.drop_first(), true)
    }
}

/// Strip rich markup tags from text.
pub fn strip_markup(text: &str) -> (r: String)
    ensures
        r@ == without_markup(text@, false),
{
    let v = chars_of(text);
    let mut out: Vec<char> = Vec::new();
    let mut in_tag = false;
    let mut i: usize = 0;
    proof {
        assert(v@.skip(0) =~= v@);
    }
    while i < v.len()
        invariant
            i <= v.len(),
            v@ == text@,
            without_markup(text@, false) == out@ + without_markup(v@.skip(i as int), in_tag),
        decreases v.len() - i,
    {
        let c = v[i];
        let ghost rest = v@.skip(i as int);
        let ghost before = out@;
        proof {
            assert(rest[0] == c);
            assert(rest.drop_first() =~= v@.skip(i + 1));
        }
        if c == '[' {
            in_tag = true;
        } else if c == ']' && in_tag {
            in_tag = false;
        } else if !in_tag {
            out.push(c);
            assert(out@ + without_markup(v@.skip(i + 1), false) =~= before + (seq![c]
                + without_markup(v@.skip(i + 1), false)));
        }
        i += 1;
    }
    assert(out@ + without_markup(v@.skip(i as int), in_tag) =~= out@);
    string_of(out.as_slice())
}

/// Spinner styles for different operations.
#[derive(Debug, Clone, Copy, PartialEq, Eq, Structural)]
pub enum SpinnerStyle {
    /// Default dots spinner for general operations.
    Dots,
    /// Line spinner for file operations.
    Line,
    /// Simple ASCII spinner for compatibility.
    Simple,
}

impl SpinnerStyle {
    /// The frames of the style, in the order in which they are shown.
    pub open spec fn frames_of(self) -> Seq<&'static str> {
        match self {
            SpinnerStyle::Dots => seq!["⠋", "⠙", "⠹", "⠸", "⠼", "⠴", "⠦", "⠧", "⠇", "⠏"],
            SpinnerStyle::Line => seq!["⎺", "⎻", "⎼", "⎽", "⎼", "⎻"],
            SpinnerStyle::Simple => seq!["|", "/", "-", "\\"],
        }
    }

    /// Get the spinner frames for this style.
    pub fn frames(&self) -> (r: Vec<&'static str>)
        ensures
            r@ == self.frames_of(),
    {
        match self {
            SpinnerStyle::Dots => vec!["⠋", "⠙", "⠹", "⠸", "⠼", "⠴", "⠦", "⠧", "⠇", "⠏"],
            SpinnerStyle::Line => vec!["⎺", "⎻", "⎼", "⎽", "⎼", "⎻"],
            SpinnerStyle::Simple => vec!["|", "/", "-", "\\"],
        }
    }

    /// Get the frame interval in milliseconds.
    pub fn interval_ms(&self) -> (r: u64)
        ensures
            r == match self {
                SpinnerStyle::Dots => 80u64,
                SpinnerStyle::Line => 100u64,
                SpinnerStyle::Simple => 100u64,
            },
    {
        match self {
            SpinnerStyle::Dots => 80,
            SpinnerStyle::Line => 100,
            SpinnerStyle::Simple => 100,
        }
    }
}

/// Something that a terminal draws and anything else gets as plain lines.
#[allow(inconsistent_fields)]
#[derive(Debug)]
pub enum Widget {
    Panel { content: String, title: String },
    Table { headers: Vec<String>, rows: Vec<Vec<String>> },
    Rule { title: Option<String> },
}

/// What is to be printed.
#[derive(Debug)]
pub enum ConsoleOutput {
    /// Nothing.
    Nothing,
    /// Markup, to be rendered by the terminal console.
    Markup(String),
    /// Text for standard output, as it is.
    Plain(String),
    /// Text for standard error, as it is.
    Stderr(String),
    /// A widget, to be drawn by the terminal console.
    Draw(Widget),
}

/// The text of an output.
pub open spec fn shown(o: ConsoleOutput) -> Option<Seq<char>> {
    match o {
        ConsoleOutput::Markup(s) => Some(s@),
        ConsoleOutput::Plain(s) => Some(s@),
        ConsoleOutput::Stderr(s) => Some(s@),
        _ => None,
    }
}

/// The texts, with the separator between each two of them.
pub open spec fn joined(items: Seq<Seq<char>>, separator: char) -> Seq<char>
    decreases items.len(),
{
    if items.len() == 0 {
        Seq::empty()
    } else if items.len() == 1 {
        items[0]
    } else {
        joined(items.drop_last(), separator).push(separator) + items.last()
    }
}

/// The texts, with the separator between each two of them.
pub fn join(items: &[String], separator: char) -> (r: String)
    ensures
        r@ == joined(crate::error::texts_view(items@), separator),
{
    let mut out = String::new();
    let ghost all = crate::error::texts_view(items@);
    let mut i: usize = 0;
    assert(all.take(0) =~= Seq::<Seq<char>>::empty());
    while i < items.len()
        invariant
            i <= items.len(),
            all == crate::error::texts_view(items@),
            out@ == joined(all.take(i as int), separator),
        decreases items.len() - i,
    {
        proof {
            assert(all.take(i + 1).drop_last() =~= all.take(i as int));
            assert(all.take(i + 1).last() == items@[i as int]@);
            if i == 0 {
                assert(all.take(1)[0] == items@[0]@);
            }
        }
        if i > 0 {
            push_char(&mut out, separator);
        }
        out.append(items[i].as_str());
        assert(out@ =~= joined(all.take(i + 1), separator));
        i += 1;
    }
    assert(all.take(i as int) =~= all);
    out
}

/// A table as plain lines: the headers, then each row, cells parted by
/// tabs, every line ended by a line feed.
pub open spec fn plain_table(headers: Seq<Seq<char>>, rows: Seq<Seq<Seq<char>>>) -> Seq<char>
    decreases rows.len(),
{
    if rows.len() == 0 {
        joined(headers, '\t').push('\n')
    } else {
        plain_table(headers, rows.drop_last()) + joined(rows.last(), '\t').push('\n')
    }
}

/// The views of the rows of a table.
pub open spec fn rows_view(rows: Seq<Vec<String>>) -> Seq<Seq<Seq<char>>> {
    rows.map_values(|r: Vec<String>| crate::error::texts_view(r@))
}

/// Pi's console: it knows whether it writes to a terminal, and says what
/// is to be printed.
#[derive(Debug, Clone, Copy, PartialEq, Eq, Structural)]
pub struct PiConsole {
    pub is_tty: bool,
}

impl PiConsole {
    /// A console that writes to a terminal or not, as told.
    pub fn new(is_tty: bool) -> (r: Self)
        ensures
            r.is_tty == is_tty,
    {
        PiConsole { is_tty }
    }

    /// A console that writes markup whatever it writes to.
    pub fn with_color() -> (r: Self)
        ensures
            r.is_tty,
    {
        PiConsole { is_tty: true }
    }

    /// Check if we're running in a terminal.
    pub fn is_terminal(&self) -> (r: bool)
        ensures
            r == self.is_tty,
    {
        self.is_tty
    }

    /// Print plain text without any styling.
    pub fn print_plain(&self, text: &str) -> (r: ConsoleOutput)
        ensures
            r is Plain,
            shown(r) == Some(text@),
    {
        ConsoleOutput::Plain(String::from_str(text))
    }

    /// Print text with rich markup: as markup on a terminal, else without
    /// its tags.
    pub fn print_markup(&self, markup: &str) -> (r: ConsoleOutput)
        ensures
            self.is_tty ==> r is Markup && shown(r) == Some(markup@),
            !self.is_tty ==> r is Plain && shown(r) == Some(without_markup(markup@, false)),
    {
        if self.is_tty {
            ConsoleOutput::Markup(String::from_str(markup))
        } else {
            ConsoleOutput::Plain(strip_markup(markup))
        }
    }

    /// Print a newline.
    pub fn newline(&self) -> (r: ConsoleOutput)
        ensures
            r is Plain,
            shown(r) == Some("\n"@),
    {
        ConsoleOutput::Plain(String::from_str("\n"))
    }

    /// Render streaming text from the assistant.
    pub fn render_text_delta(&self, text: &str) -> (r: ConsoleOutput)
        ensures
            r is Plain,
            shown(r) == Some(text@),
    {
        ConsoleOutput::Plain(String::from_str(text))
    }

    /// Render streaming thinking text: dimmed on a terminal.
    pub fn render_thinking_delta(&self, text: &str) -> (r: ConsoleOutput)
        ensures
            r is Plain,
            shown(r) == Some(
                if self.is_tty {
                    "\u{1b}[2m"@ + text@ + "\u{1b}[0m"@
                } else {
                    text@
                },
            ),
    {
        if self.is_tty {
            ConsoleOutput::Plain(String::from_str("\u{1b}[2m").concat(text).concat("\u{1b}[0m"))
        } else {
            ConsoleOutput::Plain(String::from_str(text))
        }
    }

    /// Render the start of a thinking block.
    pub fn render_thinking_start(&self) -> (r: ConsoleOutput)
        ensures
            self.is_tty ==> r is Markup && shown(r) == Some("\n[dim italic]Thinking...[/]\n"@),
            !self.is_tty ==> r is Nothing,
    {
        if self.is_tty {
            let text = String::from_str("\n[dim italic]Thinking...[/]\n");
            assert(text@ =~= "\n[dim italic]Thinking...[/]\n"@);
            ConsoleOutput::Markup(text)
        } else {
            ConsoleOutput::Nothing
        }
    }

    /// Render the end of a thinking block.
    pub fn render_thinking_end(&self) -> (r: ConsoleOutput)
        ensures
            self.is_tty ==> r is Markup && shown(r) == Some("[/dim]\n"@),
            !self.is_tty ==> r is Nothing,
    {
        if self.is_tty {
            let text = String::from_str("[/dim]\n");
            assert(text@ =~= "[/dim]\n"@);
            ConsoleOutput::Markup(text)
        } else {
            ConsoleOutput::Nothing
        }
    }

    /// Render tool execution start.
    pub fn render_tool_start(&self, name: &str, _input: &str) -> (r: ConsoleOutput)
        ensures
            self.is_tty ==> r is Markup && shown(r) == Some("\n[bold yellow][[Running "@ + name@ + "...]][/]\n"@),
            !self.is_tty ==> r is Nothing,
    {
        if self.is_tty {
            let text = String::from_str("\n[bold yellow][[Running ").concat(name).concat("...]][/]\n");
            assert(text@ =~= "\n[bold yellow][[Running "@ + name@ + "...]][/]\n"@);
            ConsoleOutput::Markup(text)
        } else {
            ConsoleOutput::Nothing
        }
    }

    /// Render an error message.
    pub fn render_error(&self, error: &str) -> (r: ConsoleOutput)
        ensures
            self.is_tty ==> r is Markup && shown(r) == Some("\n[bold red]Error:[/] "@ + error@ + "\n"@),
            !self.is_tty ==> r is Stderr && shown(r) == Some("\nError: "@ + error@ + "\n"@),
    {
        if self.is_tty {
            let text = String::from_str("\n[bold red]Error:[/] ").concat(error).concat("\n");
            assert(text@ =~= "\n[bold red]Error:[/] "@ + error@ + "\n"@);
            ConsoleOutput::Markup(text)
        } else {
            let text = String::from_str("\nError: ").concat(error).concat("\n");
            assert(text@ =~= "\nError: "@ + error@ + "\n"@);
            ConsoleOutput::Stderr(text)
        }
    }

    /// Render a warning message.
    pub fn render_warning(&self, warning: &str) -> (r: ConsoleOutput)
        ensures
            self.is_tty ==> r is Markup && shown(r) == Some("[bold yellow]Warning:[/] "@ + warning@ + "\n"@),
            !self.is_tty ==> r is Stderr && shown(r) == Some("Warning: "@ + warning@ + "\n"@),
    {
        if self.is_tty {
            let text = String::from_str("[bold yellow]Warning:[/] ").concat(warning).concat("\n");
            assert(text@ =~= "[bold yellow]Warning:[/] "@ + warning@ + "\n"@);
            ConsoleOutput::Markup(text)
        } else {
            let text = String::from_str("Warning: ").concat(warning).concat("\n");
            assert(text@ =~= "Warning: "@ + warning@ + "\n"@);
            ConsoleOutput::Stderr(text)
        }
    }

    /// Render a success message.
    pub fn render_success(&self, message: &str) -> (r: ConsoleOutput)
        ensures
            self.is_tty ==> r is Markup && shown(r) == Some("[bold green]"@ + message@ + "[/]\n"@),
            !self.is_tty ==> r is Plain && shown(r) == Some(message@ + "\n"@),
    {
        if self.is_tty {
            let text = String::from_str("[bold green]").concat(message).concat("[/]\n");
            assert(text@ =~= "[bold green]"@ + message@ + "[/]\n"@);
            ConsoleOutput::Markup(text)
        } else {
            let text = String::from_str(message).concat("\n");
            assert(text@ =~= message@ + "\n"@);
            ConsoleOutput::Plain(text)
        }
    }

    /// Render an info message.
    pub fn render_info(&self, message: &str) -> (r: ConsoleOutput)
        ensures
            self.is_tty ==> r is Markup && shown(r) == Some("[bold blue]"@ + message@ + "[/]\n"@),
            !self.is_tty ==> r is Plain && shown(r) == Some(message@ + "\n"@),
    {
        if self.is_tty {
            let text = String::from_str("[bold blue]").concat(message).concat("[/]\n");
            assert(text@ =~= "[bold blue]"@ + message@ + "[/]\n"@);
            ConsoleOutput::Markup(text)
        } else {
            let text = String::from_str(message).concat("\n");
            assert(text@ =~= message@ + "\n"@);
            ConsoleOutput::Plain(text)
        }
    }

    /// Render the input prompt.
    pub fn render_prompt(&self) -> (r: ConsoleOutput)
        ensures
            self.is_tty ==> r is Markup && shown(r) == Some("[bold cyan]>[/] "@),
            !self.is_tty ==> r is Plain && shown(r) == Some("> "@),
    {
        if self.is_tty {
            let text = String::from_str("[bold cyan]>[/] ");
            assert(text@ =~= "[bold cyan]>[/] "@);
            ConsoleOutput::Markup(text)
        } else {
            let text = String::from_str("> ");
            assert(text@ =~= "> "@);
            ConsoleOutput::Plain(text)
        }
    }

    /// Render a user message echo.
    pub fn render_user_message(&self, message: &str) -> (r: ConsoleOutput)
        ensures
            self.is_tty ==> r is Markup && shown(r) == Some("[bold]You:[/] "@ + message@ + "\n\n"@),
            !self.is_tty ==> r is Plain && shown(r) == Some("You: "@ + message@ + "\n\n"@),
    {
        if self.is_tty {
            let text = String::from_str("[bold]You:[/] ").concat(message).concat("\n\n");
            assert(text@ =~= "[bold]You:[/] "@ + message@ + "\n\n"@);
            ConsoleOutput::Markup(text)
        } else {
            let text = String::from_str("You: ").concat(message).concat("\n\n");
            assert(text@ =~= "You: "@ + message@ + "\n\n"@);
            ConsoleOutput::Plain(text)
        }
    }

    /// Render assistant message start.
    pub fn render_assistant_start(&self) -> (r: ConsoleOutput)
        ensures
            self.is_tty ==> r is Markup && shown(r) == Some("[bold]Assistant:[/] "@),
            !self.is_tty ==> r is Plain && shown(r) == Some("Assistant: "@),
    {
        if self.is_tty {
            let text = String::from_str("[bold]Assistant:[/] ");
            assert(text@ =~= "[bold]Assistant:[/] "@);
            ConsoleOutput::Markup(text)
        } else {
            let text = String::from_str("Assistant: ");
            assert(text@ =~= "Assistant: "@);
            ConsoleOutput::Plain(text)
        }
    }

    /// Render tool execution end.
    pub fn render_tool_end(&self, name: &str, is_error: bool) -> (r: ConsoleOutput)
        ensures
            self.is_tty ==> r is Markup && shown(r) == Some(
                if is_error {
                    "[bold red][["@ + name@ + " failed]][/]\n\n"@
                } else {
                    "[bold green][["@ + name@ + " done]][/]\n\n"@
                },
            ),
            !self.is_tty ==> r is Nothing,
    {
        if !self.is_tty {
            ConsoleOutput::Nothing
        } else if is_error {
            ConsoleOutput::Markup(
                String::from_str("[bold red][[").concat(name).concat(" failed]][/]\n\n"),
            )
        } else {
            ConsoleOutput::Markup(
                String::from_str("[bold green][[").concat(name).concat(" done]][/]\n\n"),
            )
        }
    }

    /// Render a panel with a title.
    pub fn render_panel(&self, content: &str, title: &str) -> (r: ConsoleOutput)
        ensures
            self.is_tty ==> (r matches ConsoleOutput::Draw(Widget::Panel { content: c, title: t })
                && c@ == content@ && t@ == title@),
            !self.is_tty ==> r is Plain && shown(r) == Some(
                "--- "@ + title@ + " ---\n"@ + content@ + "\n---\n"@,
            ),
    {
        if self.is_tty {
            ConsoleOutput::Draw(
                Widget::Panel { content: String::from_str(content), title: String::from_str(title) },
            )
        } else {
            ConsoleOutput::Plain(
                String::from_str("--- ").concat(title).concat(" ---\n").concat(content).concat(
                    "\n---\n",
                ),
            )
        }
    }

    /// Render a table.
    pub fn render_table(&self, headers: Vec<String>, rows: Vec<Vec<String>>) -> (r: ConsoleOutput)
        ensures
            self.is_tty ==> (r matches ConsoleOutput::Draw(Widget::Table { headers: h, rows: w })
                && h == headers && w == rows),
            !self.is_tty ==> r is Plain && shown(r) == Some(
                plain_table(crate::error::texts_view(headers@), rows_view(rows@)),
            ),
    {
        if self.is_tty {
            return ConsoleOutput::Draw(Widget::Table { headers, rows });
        }
        let ghost all = rows_view(rows@);
        let ghost heads = crate::error::texts_view(headers@);
        let mut out = join(headers.as_slice(), '\t');
        push_char(&mut out, '\n');
        let mut i: usize = 0;
        assert(all.take(0) =~= Seq::<Seq<Seq<char>>>::empty());
        while i < rows.len()
            invariant
                i <= rows.len(),
                all == rows_view(rows@),
                out@ == plain_table(heads, all.take(i as int)),
            decreases rows.len() - i,
        {
            proof {
                assert(all.take(i + 1).drop_last() =~= all.take(i as int));
                assert(all.take(i + 1).last() == crate::error::texts_view(rows@[i as int]@));
            }
            out.append(join(rows[i].as_slice(), '\t').as_str());
            push_char(&mut out, '\n');
            assert(out@ =~= plain_table(heads, all.take(i + 1)));
            i += 1;
        }
        assert(all.take(i as int) =~= all);
        ConsoleOutput::Plain(out)
    }

    /// Render a horizontal rule.
    pub fn render_rule(&self, title: Option<&str>) -> (r: ConsoleOutput)
        ensures
            self.is_tty ==> (r matches ConsoleOutput::Draw(Widget::Rule { title: t })
                && crate::model::opt_text(t) == (match title {
                Some(x) => Some(x@),
                None => None,
            })),
            !self.is_tty ==> r is Plain && shown(r) == Some(
                match title {
                    Some(x) => "--- "@ + x@ + " ---\n"@,
                    None => "---\n"@,
                },
            ),
    {
        if self.is_tty {
            ConsoleOutput::Draw(
                Widget::Rule {
                    title: match title {
                        Some(t) => Some(String::from_str(t)),
                        None => None,
                    },
                },
            )
        } else {
            match title {
                Some(t) => ConsoleOutput::Plain(
                    String::from_str("--- ").concat(t).concat(" ---\n"),
                ),
                None => ConsoleOutput::Plain(String::from_str("---\n")),
            }
        }
    }

    /// Render token usage statistics. The cost comes as text, with the
    /// digits that are to be shown.
    pub fn render_usage(&self, input_tokens: u32, output_tokens: u32, cost: Option<&str>) -> (r:
        ConsoleOutput)
        ensures
            self.is_tty ==> r is Markup && shown(r) == Some(
                "[dim]Tokens: "@ + decimal(input_tokens as nat) + " in / "@ + decimal(
                    output_tokens as nat,
                ) + " out"@ + (match cost {
                    Some(c) => " [dim]($"@ + c@ + ")[/]"@,
                    None => Seq::empty(),
                }) + "[/]\n"@,
            ),
            !self.is_tty ==> r is Nothing,
    {
        if !self.is_tty {
            return ConsoleOutput::Nothing;
        }
        let mut text = String::from_str("[dim]Tokens: ");
        text.append(decimal_string(input_tokens as u64).as_str());
        text.append(" in / ");
        text.append(decimal_string(output_tokens as u64).as_str());
        text.append(" out");
        match cost {
            Some(c) => {
                text.append(" [dim]($");
                text.append(c);
                text.append(")[/]");
            },
            None => {},
        }
        text.append("[/]\n");
        assert(text@ =~= "[dim]Tokens: "@ + decimal(input_tokens as nat) + " in / "@ + decimal(
            output_tokens as nat,
        ) + " out"@ + (match cost {
            Some(c) => " [dim]($"@ + c@ + ")[/]"@,
            None => Seq::empty(),
        }) + "[/]\n"@);
        ConsoleOutput::Markup(text)
    }

    /// Render session info.
    pub fn render_session_info(&self, session_path: &str, message_count: usize) -> (r:
        ConsoleOutput)
        ensures
            self.is_tty ==> r is Markup && shown(r) == Some(
                "[dim]Session: "@ + session_path@ + " ("@ + decimal(message_count as nat)
                    + " messages)[/]\n"@,
            ),
            !self.is_tty ==> r is Nothing,
    {
        if !self.is_tty {
            return ConsoleOutput::Nothing;
        }
        ConsoleOutput::Markup(
            String::from_str("[dim]Session: ").concat(session_path).concat(" (").concat(
                decimal_string(message_count as u64).as_str(),
            ).concat(" messages)[/]\n"),
        )
    }

    /// Render model info.
    pub fn render_model_info(&self, model: &str, thinking_level: Option<&str>) -> (r:
        ConsoleOutput)
        ensures
            self.is_tty ==> r is Markup && shown(r) == Some(
                "[dim]Model: "@ + model@ + (match thinking_level {
                    Some(t) => " [dim](thinking: "@ + t@ + ")[/]"@,
                    None => Seq::empty(),
                }) + "[/]\n"@,
            ),
            !self.is_tty ==> r is Nothing,
    {
        if !self.is_tty {
            return ConsoleOutput::Nothing;
        }
        let mut text = String::from_str("[dim]Model: ");
        text.append(model);
        match thinking_level {
            Some(t) => {
                text.append(" [dim](thinking: ");
                text.append(t);
                text.append(")[/]");
            },
            None => {},
        }
        text.append("[/]\n");
        assert(text@ =~= "[dim]Model: "@ + model@ + (match thinking_level {
            Some(t) => " [dim](thinking: "@ + t@ + ")[/]"@,
            None => Seq::empty(),
        }) + "[/]\n"@);
        ConsoleOutput::Markup(text)
    }

    /// Clear the current line (for progress updates).
    pub fn clear_line(&self) -> (r: ConsoleOutput)
        ensures
            self.is_tty ==> r is Plain && shown(r) == Some("\r\u{1b}[K"@),
            !self.is_tty ==> r is Nothing,
    {
        if self.is_tty {
            ConsoleOutput::Plain(String::from_str("\r\u{1b}[K"))
        } else {
            ConsoleOutput::Nothing
        }
    }

    /// Move cursor up N lines.
    pub fn cursor_up(&self, n: usize) -> (r: ConsoleOutput)
        ensures
            self.is_tty ==> r is Plain && shown(r) == Some(
                "\u{1b}["@ + decimal(n as nat) + "A"@,
            ),
            !self.is_tty ==> r is Nothing,
    {
        if self.is_tty {
            ConsoleOutput::Plain(
                String::from_str("\u{1b}[").concat(decimal_string(n as u64).as_str()).concat("A"),
            )
        } else {
            ConsoleOutput::Nothing
        }
    }
}

} // verus!
