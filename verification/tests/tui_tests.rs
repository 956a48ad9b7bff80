use pi::tui::{strip_markup, ConsoleOutput, PiConsole, SpinnerStyle, Widget};

fn text_of(output: ConsoleOutput) -> (char, String) {
    match output {
        ConsoleOutput::Markup(s) => ('m', s),
        ConsoleOutput::Plain(s) => ('p', s),
        ConsoleOutput::Stderr(s) => ('e', s),
        ConsoleOutput::Nothing => ('n', String::new()),
        ConsoleOutput::Draw(_) => ('d', String::new()),
    }
}

#[test]
fn test_strip_markup() {
    assert_eq!(strip_markup("[bold]Hello[/]"), "Hello");
    assert_eq!(strip_markup("[red]A[/] [blue]B[/]"), "A B");
    assert_eq!(strip_markup("No markup"), "No markup");
    assert_eq!(strip_markup("[bold red on blue]Text[/]"), "Text");
    assert_eq!(strip_markup("a ] b [never closed"), "a ] b ");
}

#[test]
fn test_spinner_frames() {
    let dots = SpinnerStyle::Dots;
    assert_eq!(dots.frames().len(), 10);
    assert_eq!(dots.interval_ms(), 80);

    let simple = SpinnerStyle::Simple;
    assert_eq!(simple.frames().len(), 4);
    assert_eq!(simple.frames(), vec!["|", "/", "-", "\\"]);
    assert_eq!(SpinnerStyle::Line.frames().len(), 6);
    assert_eq!(SpinnerStyle::Line.interval_ms(), 100);
}

#[test]
fn test_console_creation() {
    let console = PiConsole::with_color();
    assert!(console.is_terminal());
    assert!(!PiConsole::new(false).is_terminal());
}

#[test]
fn a_terminal_gets_markup_and_anything_else_plain_text() {
    let tty = PiConsole::with_color();
    let pipe = PiConsole::new(false);
    assert_eq!(text_of(tty.render_error("boom")), ('m', "\n[bold red]Error:[/] boom\n".to_string()));
    assert_eq!(text_of(pipe.render_error("boom")), ('e', "\nError: boom\n".to_string()));
    assert_eq!(text_of(tty.render_warning("w")), ('m', "[bold yellow]Warning:[/] w\n".to_string()));
    assert_eq!(text_of(pipe.render_warning("w")), ('e', "Warning: w\n".to_string()));
    assert_eq!(text_of(tty.render_success("ok")), ('m', "[bold green]ok[/]\n".to_string()));
    assert_eq!(text_of(pipe.render_info("i")), ('p', "i\n".to_string()));
    assert_eq!(text_of(tty.render_tool_start("read", "{}")), ('m', "\n[bold yellow][[Running read...]][/]\n".to_string()));
    assert_eq!(text_of(pipe.render_tool_start("read", "{}")).0, 'n');
    assert_eq!(text_of(tty.render_tool_end("read", true)), ('m', "[bold red][[read failed]][/]\n\n".to_string()));
    assert_eq!(text_of(tty.render_tool_end("read", false)), ('m', "[bold green][[read done]][/]\n\n".to_string()));
    assert_eq!(text_of(tty.render_thinking_delta("hm")), ('p', "\u{1b}[2mhm\u{1b}[0m".to_string()));
    assert_eq!(text_of(pipe.render_thinking_delta("hm")), ('p', "hm".to_string()));
    assert_eq!(text_of(pipe.print_markup("[bold]x[/]")), ('p', "x".to_string()));
    assert_eq!(text_of(tty.print_markup("[bold]x[/]")), ('m', "[bold]x[/]".to_string()));
    assert_eq!(text_of(tty.render_usage(12, 345, Some("0.0100"))), ('m', "[dim]Tokens: 12 in / 345 out [dim]($0.0100)[/][/]\n".to_string()));
    assert_eq!(text_of(tty.render_usage(0, 0, None)), ('m', "[dim]Tokens: 0 in / 0 out[/]\n".to_string()));
    assert_eq!(text_of(tty.render_session_info("/s.jsonl", 3)), ('m', "[dim]Session: /s.jsonl (3 messages)[/]\n".to_string()));
    assert_eq!(text_of(tty.render_model_info("m", Some("high"))), ('m', "[dim]Model: m [dim](thinking: high)[/][/]\n".to_string()));
    assert_eq!(text_of(tty.cursor_up(12)), ('p', "\u{1b}[12A".to_string()));
    assert_eq!(text_of(tty.clear_line()), ('p', "\r\u{1b}[K".to_string()));
    assert_eq!(text_of(pipe.render_user_message("hi")), ('p', "You: hi\n\n".to_string()));
    assert_eq!(text_of(pipe.render_prompt()), ('p', "> ".to_string()));
    assert_eq!(text_of(pipe.render_assistant_start()), ('p', "Assistant: ".to_string()));
}

#[test]
fn widgets_are_drawn_on_a_terminal_and_written_out_elsewhere() {
    let tty = PiConsole::with_color();
    let pipe = PiConsole::new(false);
    assert!(matches!(tty.render_panel("c", "t"), ConsoleOutput::Draw(Widget::Panel { .. })));
    assert_eq!(text_of(pipe.render_panel("c", "t")), ('p', "--- t ---\nc\n---\n".to_string()));
    assert_eq!(text_of(pipe.render_rule(Some("t"))), ('p', "--- t ---\n".to_string()));
    assert_eq!(text_of(pipe.render_rule(None)), ('p', "---\n".to_string()));
    let headers = vec!["a".to_string(), "b".to_string()];
    let rows = vec![vec!["1".to_string(), "2".to_string()], vec!["3".to_string()]];
    assert_eq!(text_of(pipe.render_table(headers.clone(), rows.clone())), ('p', "a\tb\n1\t2\n3\n".to_string()));
    assert!(matches!(tty.render_table(headers, rows), ConsoleOutput::Draw(Widget::Table { .. })));
}
