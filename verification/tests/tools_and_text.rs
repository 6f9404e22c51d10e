use ssmtui::strings::{
    chars_of, concat3, contains_chars, i64_to_string, lower_chars, push_chars, same_text,
    string_of_chars, trim, u64_to_string, usize_to_string,
};
use ssmtui::tools::{
    Cleanup, ClipboardTool, CliCommand, Editor, after_cleanup, after_resume, choose_editor, edited_value, editor_candidate,
    editor_shell_command, parse_args, select_clipboard_tool, shell_quote, temp_edit_path,
};

fn args(v: &[&str]) -> Vec<String> {
    v.iter().map(|s| s.to_string()).collect()
}

#[test]
fn shell_quote_wraps_and_escapes_quotes() {
    assert_eq!(shell_quote("a b"), "'a b'");
    assert_eq!(shell_quote("it's"), "'it'\\''s'");
    assert_eq!(shell_quote(""), "''");
}

#[test]
fn editor_command_appends_quoted_path() {
    assert_eq!(editor_shell_command("code -w", "/tmp/x y.txt"), "code -w '/tmp/x y.txt'");
}

#[test]
fn editor_candidate_trims_and_takes_first_word() {
    assert_eq!(
        editor_candidate(Some("  nvim -f  ".to_string())),
        Some(("nvim -f".to_string(), "nvim".to_string()))
    );
    assert_eq!(
        editor_candidate(Some("vim".to_string())),
        Some(("vim".to_string(), "vim".to_string()))
    );
    assert_eq!(editor_candidate(Some(" \t ".to_string())), None);
    assert_eq!(editor_candidate(None), None);
}

#[test]
fn editor_choice_order() {
    assert!(matches!(
        choose_editor(Some("nano".to_string()), true, true),
        Some(Editor::EnvCommand(c)) if c == "nano"
    ));
    assert!(matches!(choose_editor(None, true, true), Some(Editor::Binary("vim"))));
    assert!(matches!(choose_editor(None, false, true), Some(Editor::Binary("vi"))));
    assert!(choose_editor(None, false, false).is_none());
}

#[test]
fn edited_value_reports_only_changes() {
    assert_eq!(edited_value("same", "same".to_string()), None);
    assert_eq!(edited_value("old", "new".to_string()), Some("new".to_string()));
    assert_eq!(edited_value("x", "x\n".to_string()), Some("x\n".to_string()));
}

#[test]
fn temp_path_from_time_and_pid() {
    assert_eq!(temp_edit_path(17, 5, 42), "/tmp/epochtime-17-5-42.txt");
    assert_eq!(temp_edit_path(0, 0, 0), "/tmp/epochtime-0-0-0.txt");
}

#[test]
fn clipboard_tool_preference() {
    match select_clipboard_tool(true, true, true, true) {
        Some(ClipboardTool::Binary(bin, a)) => {
            assert_eq!(bin, "pbcopy");
            assert!(a.is_empty());
        }
        None => panic!("expected a tool"),
    }
    match select_clipboard_tool(false, true, true, true) {
        Some(ClipboardTool::Binary(bin, a)) => {
            assert_eq!(bin, "wl-copy");
            assert!(a.is_empty());
        }
        None => panic!("expected a tool"),
    }
    match select_clipboard_tool(false, false, true, true) {
        Some(ClipboardTool::Binary(bin, a)) => {
            assert_eq!(bin, "xclip");
            assert_eq!(a, vec!["-selection", "clipboard"]);
        }
        None => panic!("expected a tool"),
    }
    match select_clipboard_tool(false, false, false, true) {
        Some(ClipboardTool::Binary(bin, a)) => {
            assert_eq!(bin, "xsel");
            assert_eq!(a, vec!["--clipboard", "--input"]);
        }
        None => panic!("expected a tool"),
    }
    assert!(select_clipboard_tool(false, false, false, false).is_none());
}

#[test]
fn first_argument_decides_the_command() {
    assert!(matches!(parse_args(&args(&[])), CliCommand::Run));
    assert!(matches!(parse_args(&args(&["-h"])), CliCommand::Help));
    assert!(matches!(parse_args(&args(&["--help", "x"])), CliCommand::Help));
    assert!(matches!(parse_args(&args(&["-v"])), CliCommand::Version));
    assert!(matches!(parse_args(&args(&["--version"])), CliCommand::Version));
    assert!(matches!(parse_args(&args(&["update"])), CliCommand::Update));
    assert!(matches!(parse_args(&args(&["--bogus", "-h"])), CliCommand::Unknown(a) if a == "--bogus"));
}

#[test]
fn trim_strips_surrounding_whitespace() {
    assert_eq!(trim("  a b \t\n"), "a b");
    assert_eq!(trim("   "), "");
    assert_eq!(trim(""), "");
    assert_eq!(trim("x"), "x");
}

#[test]
fn lower_and_contains() {
    let lowered = lower_chars(&chars_of("AbC-É"));
    assert_eq!(string_of_chars(&lowered), "abc-É");
    assert!(contains_chars(&chars_of("hello"), &chars_of("ll")));
    assert!(contains_chars(&chars_of("hello"), &chars_of("")));
    assert!(!contains_chars(&chars_of("hello"), &chars_of("lo!")));
    assert!(!contains_chars(&chars_of("hi"), &chars_of("high")));
}

#[test]
fn text_helpers() {
    assert!(same_text("é", "é"));
    assert!(!same_text("a", "ab"));
    assert_eq!(ssmtui::strings::concat("ab", "cd"), "abcd");
    assert_eq!(concat3("a", "", "c"), "ac");
    let mut out = String::from(">");
    push_chars(&mut out, &chars_of("hello"), 1, 4);
    assert_eq!(out, ">ell");
    assert_eq!(chars_of("hé"), vec!['h', 'é']);
}

#[test]
fn decimal_formatting_matches_to_string() {
    assert_eq!(usize_to_string(0), "0");
    assert_eq!(usize_to_string(1234), "1234");
    assert_eq!(u64_to_string(u64::MAX), u64::MAX.to_string());
    assert_eq!(i64_to_string(-42), "-42");
    assert_eq!(i64_to_string(0), "0");
    assert_eq!(i64_to_string(i64::MIN), i64::MIN.to_string());
    assert_eq!(i64_to_string(i64::MAX), i64::MAX.to_string());
}

#[test]
fn cleanup_outcome_combination() {
    let ok = || Ok(Some("new".to_string()));
    let err = || Err("editor died".to_string());
    assert_eq!(after_cleanup(ok(), Cleanup::Removed, "/tmp/f"), Ok(Some("new".to_string())));
    assert_eq!(after_cleanup(ok(), Cleanup::AlreadyGone, "/tmp/f"), Ok(Some("new".to_string())));
    assert_eq!(
        after_cleanup(ok(), Cleanup::Failed("busy".to_string()), "/tmp/f"),
        Err("busy".to_string())
    );
    assert_eq!(after_cleanup(err(), Cleanup::AlreadyGone, "/tmp/f"), Err("editor died".to_string()));
    assert_eq!(
        after_cleanup(err(), Cleanup::Failed("busy".to_string()), "/tmp/f"),
        Err("editor died; cleanup failed for /tmp/f: busy".to_string())
    );
    assert_eq!(after_cleanup(Ok(None), Cleanup::Removed, "/tmp/f"), Ok(None));
}

#[test]
fn resume_outcome_combination() {
    assert_eq!(after_resume(Ok(None), Ok(())), Ok(None));
    assert_eq!(after_resume(Ok(Some("x".to_string())), Err("tty".to_string())), Err("tty".to_string()));
    assert_eq!(after_resume(Err("e".to_string()), Ok(())), Err("e".to_string()));
    assert_eq!(
        after_resume(Err("e".to_string()), Err("tty".to_string())),
        Err("editor error: e; terminal restore error: tty".to_string())
    );
}
