//! Decisions around the external editor, the clipboard and the command line:
//! which program to run, how to quote its argument, what the edit changed.
use vstd::prelude::*;
use crate::strings;
use crate::strings::{chars_of, concat, concat3, push_chars, same_text, trim, u64_to_string};

verus! {

/// `s` with every `'` written as `'\''`, the way a single-quoted shell word
/// continues around a quote.
pub open spec fn escape_quotes(s: Seq<char>) -> Seq<char>
    decreases s.len(),
{
    if s.len() == 0 {
        s
    } else {
        escape_quotes(s.drop_last()) + if s.last() == '\'' {
            seq!['\'', '\\', '\'', '\'']
        } else {
            seq![s.last()]
        }
    }
}

/// `s` as one single-quoted shell word.
pub open spec fn shell_quoted(s: Seq<char>) -> Seq<char> {
    seq!['\''] + escape_quotes(s) + seq!['\'']
}

/// Quotes `input` as one word for `sh`.
pub fn shell_quote(input: &str) -> (r: String)
    ensures
        r@ == shell_quoted(input@),
{
    let cs = chars_of(input);
    let mut out = String::new();
    out.push('\'');
    let mut i: usize = 0;
    while i < cs.len()
        invariant
            i <= cs@.len(),
            out@ == seq!['\''] + escape_quotes(cs@.take(i as int)),
        decreases cs@.len() - i,
    {
        let c = cs[i];
        if c == '\'' {
            out.push('\'');
            out.push('\\');
            out.push('\'');
            out.push('\'');
        } else {
            out.push(c);
        }
        proof {
            assert(cs@.take(i + 1).drop_last() =~= cs@.take(i as int));
            assert(cs@.take(i + 1).last() == c);
            assert(out@ =~= seq!['\''] + escape_quotes(cs@.take(i + 1)));
        }
        i = i + 1;
    }
    out.push('\'');
    assert(cs@.take(cs@.len() as int) =~= cs@);
    out
}

/// The shell command that opens `path` with the editor command `cmd`.
pub fn editor_shell_command(cmd: &str, path: &str) -> (r: String)
    ensures
        r@ == cmd@ + " "@ + shell_quoted(path@),
{
    let quoted = shell_quote(path);
    concat3(cmd, " ", quoted.as_str())
}

/// Index of the first whitespace character of `s`, or its length.
pub open spec fn first_ws(s: Seq<char>, i: int) -> int
    decreases s.len() - i,
{
    if i < 0 || i >= s.len() {
        s.len() as int
    } else if strings::is_ws(s[i]) {
        i
    } else {
        first_ws(s, i + 1)
    }
}

/// The first whitespace-separated word of `s` (empty when there is none).
pub open spec fn first_word(s: Seq<char>) -> Seq<char> {
    let t = strings::trim_start(s);
    t.take(first_ws(t, 0))
}

/// The editor the `EDITOR` variable names: its trimmed command and the program
/// (its first word) that must exist; nothing when unset or blank.
pub open spec fn editor_candidate_spec(raw: Option<Seq<char>>) -> Option<(Seq<char>, Seq<char>)> {
    match raw {
        Some(r) => {
            let t = strings::trimmed(r);
            if t.len() == 0 {
                None
            } else {
                Some((t, first_word(t)))
            }
        },
        None => None,
    }
}

proof fn lemma_trim_start_of_trimmed(s: Seq<char>)
    requires
        s.len() == 0 || !strings::is_ws(s[0]),
    ensures
        strings::trim_start(s) == s,
{
}

/// The command and program of the `EDITOR` setting `raw`.
pub fn editor_candidate(raw: Option<String>) -> (r: Option<(String, String)>)
    ensures
        match r {
            Some((c, b)) => editor_candidate_spec(crate::models::opt_text(raw)) == Some((c@, b@)),
            None => editor_candidate_spec(crate::models::opt_text(raw)) is None,
        },
{
    let raw = match raw {
        Some(r) => r,
        None => return None,
    };
    let t = trim(raw.as_str());
    let cs = chars_of(t.as_str());
    if cs.len() == 0 {
        return None;
    }
    proof {
        lemma_trimmed_starts_clean(raw@);
        lemma_trim_start_of_trimmed(cs@);
    }
    let mut i: usize = 0;
    while i < cs.len() && !is_space(cs[i])
        invariant
            i <= cs@.len(),
            first_ws(cs@, 0) == first_ws(cs@, i as int),
        decreases cs@.len() - i,
    {
        i = i + 1;
    }
    let mut word = String::new();
    push_chars(&mut word, &cs, 0, i);
    assert(cs@.subrange(0, i as int) =~= cs@.take(i as int));
    Some((t, word))
}

proof fn lemma_trimmed_starts_clean(s: Seq<char>)
    ensures
        strings::trimmed(s).len() == 0 || !strings::is_ws(strings::trimmed(s)[0]),
{
    lemma_trim_start_clean(s);
    lemma_trim_end_prefix(strings::trim_start(s));
}

proof fn lemma_trim_start_clean(s: Seq<char>)
    ensures
        strings::trim_start(s).len() == 0 || !strings::is_ws(strings::trim_start(s)[0]),
    decreases s.len(),
{
    if s.len() > 0 && strings::is_ws(s[0]) {
        lemma_trim_start_clean(s.drop_first());
    }
}

proof fn lemma_trim_end_prefix(s: Seq<char>)
    ensures
        strings::trim_end(s).len() <= s.len(),
        forall|i: int| 0 <= i < strings::trim_end(s).len() ==> strings::trim_end(s)[i] == s[i],
    decreases s.len(),
{
    if s.len() > 0 && strings::is_ws(s.last()) {
        lemma_trim_end_prefix(s.drop_last());
        assert forall|i: int| 0 <= i < strings::trim_end(s).len() implies strings::trim_end(s)[i]
            == s[i] by {
            assert(s.drop_last()[i] == s[i]);
        }
    }
}

fn is_space(c: char) -> (r: bool)
    ensures
        r == strings::is_ws(c),
{
    let v = c as u32;
    (0x09 <= v && v <= 0x0D) || v == 0x20 || v == 0x85 || v == 0xA0 || v == 0x1680 || (0x2000 <= v
        && v <= 0x200A) || v == 0x2028 || v == 0x2029 || v == 0x202F || v == 0x205F || v == 0x3000
}

/// An editor to run: the `EDITOR` command through the shell, or a program.
pub enum Editor {
    EnvCommand(String),
    Binary(&'static str),
}

/// The editor chosen: the `EDITOR` command when its program exists, else
/// `vim`, else `vi`, else none.
pub open spec fn editor_choice(env_command: Option<Seq<char>>, has_vim: bool, has_vi: bool) -> Option<Seq<char>> {
    match env_command {
        Some(c) => Some(c),
        None => if has_vim {
            Some("vim"@)
        } else if has_vi {
            Some("vi"@)
        } else {
            None
        },
    }
}

/// What an editor choice runs.
pub open spec fn editor_view(e: Option<Editor>) -> Option<Seq<char>> {
    match e {
        Some(Editor::EnvCommand(c)) => Some(c@),
        Some(Editor::Binary(b)) => Some(b@),
        None => None,
    }
}

/// Chooses the editor; `env_command` is the `EDITOR` command when its program exists.
pub fn choose_editor(env_command: Option<String>, has_vim: bool, has_vi: bool) -> (r: Option<Editor>)
    ensures
        editor_view(r) == editor_choice(crate::models::opt_text(env_command), has_vim, has_vi),
        env_command is Some ==> r matches Some(Editor::EnvCommand(_)),
{
    match env_command {
        Some(c) => Some(Editor::EnvCommand(c)),
        None => {
            if has_vim {
                Some(Editor::Binary("vim"))
            } else if has_vi {
                Some(Editor::Binary("vi"))
            } else {
                None
            }
        },
    }
}

/// The edited text, when it differs from the original.
pub fn edited_value(original: &str, edited: String) -> (r: Option<String>)
    ensures
        match r {
            Some(e) => e@ == edited@ && edited@ != original@,
            None => edited@ == original@,
        },
{
    if same_text(edited.as_str(), original) {
        None
    } else {
        Some(edited)
    }
}

/// How removing the editor's file went.
pub enum Cleanup {
    /// The file was removed.
    Removed,
    /// The file was already gone.
    AlreadyGone,
    /// Removing it failed with this error.
    Failed(String),
}

/// The texts of an edit's outcome: the edited text (if it changed) or the error.
pub open spec fn outcome_view(r: Result<Option<String>, String>) -> Result<Option<Seq<char>>, Seq<char>> {
    match r {
        Ok(Some(t)) => Ok(Some(t@)),
        Ok(None) => Ok(None),
        Err(e) => Err(e@),
    }
}

/// An edit's outcome once its file at `path` was cleaned up: a missing file
/// does not matter, another removal error replaces a success and is appended
/// to an edit error.
pub open spec fn after_cleanup_spec(
    edit: Result<Option<Seq<char>>, Seq<char>>,
    cleanup: Cleanup,
    path: Seq<char>,
) -> Result<Option<Seq<char>>, Seq<char>> {
    match cleanup {
        Cleanup::Removed | Cleanup::AlreadyGone => edit,
        Cleanup::Failed(c) => match edit {
            Ok(_) => Err(c@),
            Err(e) => Err(e + "; cleanup failed for "@ + path + ": "@ + c@),
        },
    }
}

/// Combines the outcome of an edit with that of removing its file at `path`.
pub fn after_cleanup(edit: Result<Option<String>, String>, cleanup: Cleanup, path: &str) -> (r: Result<
    Option<String>,
    String,
>)
    ensures
        outcome_view(r) == after_cleanup_spec(outcome_view(edit), cleanup, path@),
{
    match cleanup {
        Cleanup::Removed | Cleanup::AlreadyGone => edit,
        Cleanup::Failed(c) => match edit {
            Ok(_) => Err(c),
            Err(e) => {
                let head = concat3(e.as_str(), "; cleanup failed for ", path);
                Err(concat3(head.as_str(), ": ", c.as_str()))
            },
        },
    }
}

/// An edit's outcome once the terminal was restored: a restore error replaces
/// a success and is reported together with an edit error.
pub open spec fn after_resume_spec(
    edit: Result<Option<Seq<char>>, Seq<char>>,
    resume: Result<(), Seq<char>>,
) -> Result<Option<Seq<char>>, Seq<char>> {
    match resume {
        Ok(()) => edit,
        Err(t) => match edit {
            Ok(_) => Err(t),
            Err(e) => Err("editor error: "@ + e + "; terminal restore error: "@ + t),
        },
    }
}

/// Combines the outcome of an edit with that of restoring the terminal.
pub fn after_resume(edit: Result<Option<String>, String>, resume: Result<(), String>) -> (r: Result<
    Option<String>,
    String,
>)
    ensures
        outcome_view(r) == after_resume_spec(
            outcome_view(edit),
            match resume {
                Ok(()) => Ok(()),
                Err(t) => Err(t@),
            },
        ),
{
    match resume {
        Ok(()) => edit,
        Err(t) => match edit {
            Ok(_) => Err(t),
            Err(e) => {
                let head = concat3("editor error: ", e.as_str(), "; terminal restore error: ");
                Err(concat(head.as_str(), t.as_str()))
            },
        },
    }
}

/// The file the editor works on: named by the time (seconds and nanoseconds)
/// and the process id, in `/tmp`.
pub fn temp_edit_path(secs: u64, nanos: u32, pid: u32) -> (r: String)
    ensures
        r@ == "/tmp/epochtime-"@ + strings::decimal(secs as nat) + "-"@ + strings::decimal(
            nanos as nat,
        ) + "-"@ + strings::decimal(pid as nat) + ".txt"@,
{
    let a = u64_to_string(secs);
    let b = u64_to_string(nanos as u64);
    let c = u64_to_string(pid as u64);
    let head = concat3("/tmp/epochtime-", a.as_str(), "-");
    let mid = concat3(head.as_str(), b.as_str(), "-");
    concat3(mid.as_str(), c.as_str(), ".txt")
}

/// A clipboard program and its arguments.
pub enum ClipboardTool {
    Binary(&'static str, Vec<&'static str>),
}

/// The program and arguments of a clipboard tool.
pub open spec fn tool_view(t: Option<ClipboardTool>) -> Option<(Seq<char>, Seq<Seq<char>>)> {
    match t {
        Some(ClipboardTool::Binary(b, args)) => Some((b@, args@.map_values(|a: &str| a@))),
        None => None,
    }
}

/// The first clipboard program that exists, in the order `pbcopy`, `wl-copy`,
/// `xclip -selection clipboard`, `xsel --clipboard --input`.
pub open spec fn clipboard_choice(has_pbcopy: bool, has_wl_copy: bool, has_xclip: bool, has_xsel: bool) -> Option<
    (Seq<char>, Seq<Seq<char>>),
> {
    if has_pbcopy {
        Some(("pbcopy"@, Seq::empty()))
    } else if has_wl_copy {
        Some(("wl-copy"@, Seq::empty()))
    } else if has_xclip {
        Some(("xclip"@, seq!["-selection"@, "clipboard"@]))
    } else if has_xsel {
        Some(("xsel"@, seq!["--clipboard"@, "--input"@]))
    } else {
        None
    }
}

/// Chooses the clipboard program from which of them exist.
pub fn select_clipboard_tool(has_pbcopy: bool, has_wl_copy: bool, has_xclip: bool, has_xsel: bool) -> (r:
    Option<ClipboardTool>)
    ensures
        tool_view(r) == clipboard_choice(has_pbcopy, has_wl_copy, has_xclip, has_xsel),
{
    if has_pbcopy {
        let args: Vec<&'static str> = Vec::new();
        assert(args@.map_values(|a: &str| a@) =~= Seq::<Seq<char>>::empty());
        return Some(ClipboardTool::Binary("pbcopy", args));
    }
    if has_wl_copy {
        let args: Vec<&'static str> = Vec::new();
        assert(args@.map_values(|a: &str| a@) =~= Seq::<Seq<char>>::empty());
        return Some(ClipboardTool::Binary("wl-copy", args));
    }
    if has_xclip {
        let mut args: Vec<&'static str> = Vec::new();
        args.push("-selection");
        args.push("clipboard");
        assert(args@.map_values(|a: &str| a@) =~= seq!["-selection"@, "clipboard"@]);
        return Some(ClipboardTool::Binary("xclip", args));
    }
    if has_xsel {
        let mut args: Vec<&'static str> = Vec::new();
        args.push("--clipboard");
        args.push("--input");
        assert(args@.map_values(|a: &str| a@) =~= seq!["--clipboard"@, "--input"@]);
        return Some(ClipboardTool::Binary("xsel", args));
    }
    None
}

/// What the command line asks for.
pub enum CliCommand {
    /// Start the interface.
    Run,
    /// Print the help text.
    Help,
    /// Print the version.
    Version,
    /// Reinstall the latest release.
    Update,
    /// An argument that is not understood.
    Unknown(String),
}

/// The first argument decides: `-h`/`--help`, `-v`/`--version`, `update`, or
/// an error; without arguments the interface starts.
pub open spec fn cli_spec(args: Seq<Seq<char>>) -> (u8, Seq<char>) {
    if args.len() == 0 {
        (0, Seq::empty())
    } else if args[0] == "-h"@ || args[0] == "--help"@ {
        (1, Seq::empty())
    } else if args[0] == "-v"@ || args[0] == "--version"@ {
        (2, Seq::empty())
    } else if args[0] == "update"@ {
        (3, Seq::empty())
    } else {
        (4, args[0])
    }
}

pub open spec fn cli_view(c: CliCommand) -> (u8, Seq<char>) {
    match c {
        CliCommand::Run => (0, Seq::empty()),
        CliCommand::Help => (1, Seq::empty()),
        CliCommand::Version => (2, Seq::empty()),
        CliCommand::Update => (3, Seq::empty()),
        CliCommand::Unknown(a) => (4, a@),
    }
}

/// Reads the command line (without the program name).
pub fn parse_args(args: &Vec<String>) -> (c: CliCommand)
    ensures
        cli_view(c) == cli_spec(crate::app::texts(args@)),
{
    if args.len() == 0 {
        return CliCommand::Run;
    }
    let a = args[0].as_str();
    assert(crate::app::texts(args@)[0] == args@[0]@);
    if same_text(a, "-h") || same_text(a, "--help") {
        CliCommand::Help
    } else if same_text(a, "-v") || same_text(a, "--version") {
        CliCommand::Version
    } else if same_text(a, "update") {
        CliCommand::Update
    } else {
        CliCommand::Unknown(args[0].clone())
    }
}

} // verus!
