//! The command line: which action its arguments ask for.
use vstd::prelude::*;

use crate::error::{outcome, Error};
use crate::pieces::{join_from, joined};
use crate::quote::{debug_quoted, debug_text};
use crate::text::{is_blank, is_whitespace, lemma_trimmed_parts, text_eq, texts, trim};

verus! {

/// A shell that commands are generated for.
#[derive(Clone, Copy, Debug, PartialEq, Eq, Structural)]
pub enum Shell {
    Bash,
    Zsh,
    Pwsh,
    Cmd,
}

/// The shell of a name.
pub open spec fn shell_named(name: Seq<char>) -> Option<Shell> {
    if name == "bash"@ {
        Some(Shell::Bash)
    } else if name == "zsh"@ {
        Some(Shell::Zsh)
    } else if name == "powershell"@ {
        Some(Shell::Pwsh)
    } else if name == "cmd"@ {
        Some(Shell::Cmd)
    } else {
        None
    }
}

/// How a name that belongs to no shell is reported.
pub open spec fn unsupported_shell(name: Seq<char>) -> Seq<char> {
    "unsupported shell "@ + debug_text(name)
        + "; expected bash, zsh, powershell, or cmd"@
}

/// The shell whose name is `name`, or how the name is refused.
pub open spec fn parsed_shell(name: Seq<char>) -> Result<Shell, Seq<char>> {
    match shell_named(name) {
        Some(shell) => Ok(shell),
        None => Err(unsupported_shell(name)),
    }
}

/// The shell whose edit buffer is to be integrated, or how the name is refused.
pub open spec fn parsed_integration(name: Seq<char>) -> Result<Shell, Seq<char>> {
    match parsed_shell(name) {
        Ok(Shell::Cmd) => Err(
            "cmd.exe does not expose programmable edit-buffer integration; use `ai --shell cmd -- <description>`"@,
        ),
        other => other,
    }
}

impl Shell {
    /// The name of the shell.
    pub open spec fn name(self) -> Seq<char> {
        match self {
            Shell::Bash => "bash"@,
            Shell::Zsh => "zsh"@,
            Shell::Pwsh => "powershell"@,
            Shell::Cmd => "cmd"@,
        }
    }

    /// What a model is told about the syntax of the shell.
    pub open spec fn guidance(self) -> Seq<char> {
        match self {
            Shell::Bash | Shell::Zsh => "Do not mix syntax from another shell."@,
            Shell::Pwsh => "Use PowerShell syntax supported by both Windows PowerShell 5.1 and PowerShell 7 unless the user requests a version-specific feature. Do not emit cmd.exe, Bash, or Zsh syntax."@,
            Shell::Cmd => "Use cmd.exe built-ins and command syntax, not PowerShell, Bash, or Zsh syntax."@,
        }
    }

    /// The name of the shell.
    pub fn as_str(self) -> (r: &'static str)
        ensures
            r@ == self.name(),
    {
        match self {
            Shell::Bash => "bash",
            Shell::Zsh => "zsh",
            Shell::Pwsh => "powershell",
            Shell::Cmd => "cmd",
        }
    }

    /// What a model is told about the syntax of the shell.
    pub fn generation_guidance(self) -> (r: &'static str)
        ensures
            r@ == self.guidance(),
    {
        match self {
            Shell::Bash | Shell::Zsh => "Do not mix syntax from another shell.",
            Shell::Pwsh => "Use PowerShell syntax supported by both Windows PowerShell 5.1 and PowerShell 7 unless the user requests a version-specific feature. Do not emit cmd.exe, Bash, or Zsh syntax.",
            Shell::Cmd => "Use cmd.exe built-ins and command syntax, not PowerShell, Bash, or Zsh syntax.",
        }
    }

    /// The shell whose name is `value`.
    pub fn parse(value: &str) -> (r: Result<Self, Error>)
        ensures
            outcome(r) == parsed_shell(value@),
    {
        if text_eq(value, "bash") {
            Ok(Shell::Bash)
        } else if text_eq(value, "zsh") {
            Ok(Shell::Zsh)
        } else if text_eq(value, "powershell") {
            Ok(Shell::Pwsh)
        } else if text_eq(value, "cmd") {
            Ok(Shell::Cmd)
        } else {
            let mut message = "unsupported shell ".to_owned();
            message.push_str(debug_quoted(value).as_str());
            message.push_str("; expected bash, zsh, powershell, or cmd");
            Err(Error::new(message))
        }
    }

    /// The shell whose edit buffer is to be integrated. cmd.exe has none.
    pub fn parse_integration(value: &str) -> (r: Result<Self, Error>)
        ensures
            outcome(r) == parsed_integration(value@),
    {
        match Self::parse(value) {
            Ok(shell) => {
                if shell == Shell::Cmd {
                    Err(
                        Error::of(
                            "cmd.exe does not expose programmable edit-buffer integration; use `ai --shell cmd -- <description>`",
                        ),
                    )
                } else {
                    Ok(shell)
                }
            },
            Err(error) => Err(error),
        }
    }
}

/// Where the description of the wanted command comes from.
#[derive(Clone, Debug, PartialEq, Eq)]
pub enum PromptSource {
    Interactive,
    Argument(String),
    Stdin,
}

/// What the program is asked to do.
#[derive(Clone, Debug, PartialEq, Eq)]
pub enum Action {
    Generate { shell: Option<Shell>, prompt: PromptSource },
    Setup,
    ConfigPath,
    ConfigShow,
    ConfigCheck,
    ContextPath,
    ContextShow,
    ContextClear,
    Logs,
    Init(Shell),
    Help,
    Version,
}

/// A prompt source with its text taken as characters.
pub enum PromptView {
    Interactive,
    Argument(Seq<char>),
    Stdin,
}

/// An action with its texts taken as characters.
pub enum ActionView {
    Generate { shell: Option<Shell>, prompt: PromptView },
    Setup,
    ConfigPath,
    ConfigShow,
    ConfigCheck,
    ContextPath,
    ContextShow,
    ContextClear,
    Logs,
    Init(Shell),
    Help,
    Version,
}

impl View for PromptSource {
    type V = PromptView;

    open spec fn view(&self) -> PromptView {
        match *self {
            PromptSource::Interactive => PromptView::Interactive,
            PromptSource::Argument(prompt) => PromptView::Argument(prompt@),
            PromptSource::Stdin => PromptView::Stdin,
        }
    }
}

impl View for Action {
    type V = ActionView;

    open spec fn view(&self) -> ActionView {
        match *self {
            Action::Generate { shell, prompt } => ActionView::Generate { shell, prompt: prompt@ },
            Action::Setup => ActionView::Setup,
            Action::ConfigPath => ActionView::ConfigPath,
            Action::ConfigShow => ActionView::ConfigShow,
            Action::ConfigCheck => ActionView::ConfigCheck,
            Action::ContextPath => ActionView::ContextPath,
            Action::ContextShow => ActionView::ContextShow,
            Action::ContextClear => ActionView::ContextClear,
            Action::Logs => ActionView::Logs,
            Action::Init(shell) => ActionView::Init(shell),
            Action::Help => ActionView::Help,
            Action::Version => ActionView::Version,
        }
    }
}

/// The result of reading the command line, with its texts taken as characters.
pub open spec fn parse_view(r: Result<Action, Error>) -> Result<ActionView, Seq<char>> {
    match r {
        Ok(action) => Ok(action@),
        Err(error) => Err(error@),
    }
}

/// The management command that the arguments spell out exactly, if any, or how
/// the shell that is to be integrated is refused.
pub open spec fn management(a: Seq<Seq<char>>) -> Option<Result<ActionView, Seq<char>>> {
    if a == seq!["--help"@] || a == seq!["-h"@] {
        Some(Ok(ActionView::Help))
    } else if a == seq!["--version"@] || a == seq!["-V"@] {
        Some(Ok(ActionView::Version))
    } else if a == seq!["setup"@] {
        Some(Ok(ActionView::Setup))
    } else if a == seq!["logs"@] {
        Some(Ok(ActionView::Logs))
    } else if a.len() == 2 && a[0] == "init"@ {
        match parsed_integration(a[1]) {
            Ok(shell) => Some(Ok(ActionView::Init(shell))),
            Err(message) => Some(Err(message)),
        }
    } else if a == seq!["config"@, "path"@] {
        Some(Ok(ActionView::ConfigPath))
    } else if a == seq!["config"@, "show"@] {
        Some(Ok(ActionView::ConfigShow))
    } else if a == seq!["config"@, "check"@] {
        Some(Ok(ActionView::ConfigCheck))
    } else if a == seq!["context"@, "path"@] {
        Some(Ok(ActionView::ContextPath))
    } else if a == seq!["context"@, "show"@] {
        Some(Ok(ActionView::ContextShow))
    } else if a == seq!["context"@, "clear"@] {
        Some(Ok(ActionView::ContextClear))
    } else {
        None
    }
}

/// The words of a description: what follows a leading `--`, or everything.
pub open spec fn description(rest: Seq<Seq<char>>) -> Seq<Seq<char>> {
    if rest.len() > 0 && rest[0] == "--"@ {
        rest.skip(1)
    } else {
        rest
    }
}

/// The generation that the arguments behind the shell option ask for.
pub open spec fn generation(shell: Option<Shell>, rest: Seq<Seq<char>>) -> Result<
    ActionView,
    Seq<char>,
> {
    if rest == seq!["--stdin"@] {
        Ok(ActionView::Generate { shell, prompt: PromptView::Stdin })
    } else {
        let words = description(rest);
        if words.len() == 0 {
            Ok(ActionView::Generate { shell, prompt: PromptView::Interactive })
        } else if trim(joined(words, " "@)).len() == 0 {
            Err("the command description cannot be empty"@)
        } else {
            Ok(
                ActionView::Generate {
                    shell,
                    prompt: PromptView::Argument(joined(words, " "@)),
                },
            )
        }
    }
}

/// What arguments that are valid Unicode ask for.
pub open spec fn requested(a: Seq<Seq<char>>) -> Result<ActionView, Seq<char>> {
    match management(a) {
        Some(result) => result,
        None => if a.len() >= 2 && a[0] == "--shell"@ {
            match parsed_shell(a[1]) {
                Ok(shell) => generation(Some(shell), a.skip(2)),
                Err(message) => Err(message),
            }
        } else {
            generation(None, a)
        },
    }
}

/// Whether every argument is valid Unicode.
pub open spec fn all_unicode(args: Seq<Option<String>>) -> bool {
    forall|i: int| 0 <= i < args.len() ==> (#[trigger] args[i]) is Some
}

/// The arguments as texts.
pub open spec fn argument_texts(args: Seq<Option<String>>) -> Seq<Seq<char>> {
    args.map_values(|a: Option<String>| a->0@)
}

/// What the command line asks for. An argument that is `None` was not valid
/// Unicode.
pub open spec fn parsed(args: Seq<Option<String>>) -> Result<ActionView, Seq<char>> {
    if all_unicode(args) {
        requested(argument_texts(args))
    } else {
        Err("arguments must be valid UTF-8"@)
    }
}

/// Whether the list holds exactly one text, and which.
fn is_one(args: &Vec<String>, only: &str) -> (r: bool)
    ensures
        r == (texts(args@) == seq![only@]),
{
    let r = args.len() == 1 && text_eq(args[0].as_str(), only);
    proof {
        if r {
            assert(texts(args@) =~= seq![only@]);
        } else if texts(args@) == seq![only@] {
            assert(texts(args@).len() == 1);
            assert(texts(args@)[0] == only@);
        }
    }
    r
}

/// Whether the list holds exactly two texts, and which.
fn is_two(args: &Vec<String>, first: &str, second: &str) -> (r: bool)
    ensures
        r == (texts(args@) == seq![first@, second@]),
{
    let r = args.len() == 2 && text_eq(args[0].as_str(), first) && text_eq(
        args[1].as_str(),
        second,
    );
    proof {
        if r {
            assert(texts(args@) =~= seq![first@, second@]);
        } else if texts(args@) == seq![first@, second@] {
            assert(texts(args@).len() == 2);
            assert(texts(args@)[0] == first@);
            assert(texts(args@)[1] == second@);
        }
    }
    r
}

/// The management command that the arguments spell out exactly.
fn parse_management(args: &Vec<String>) -> (r: Option<Result<Action, Error>>)
    ensures
        match r {
            Some(result) => management(texts(args@)) == Some(parse_view(result)),
            None => management(texts(args@)) is None,
        },
{
    if is_one(args, "--help") || is_one(args, "-h") {
        Some(Ok(Action::Help))
    } else if is_one(args, "--version") || is_one(args, "-V") {
        Some(Ok(Action::Version))
    } else if is_one(args, "setup") {
        Some(Ok(Action::Setup))
    } else if is_one(args, "logs") {
        Some(Ok(Action::Logs))
    } else if args.len() == 2 && text_eq(args[0].as_str(), "init") {
        match Shell::parse_integration(args[1].as_str()) {
            Ok(shell) => Some(Ok(Action::Init(shell))),
            Err(error) => Some(Err(error)),
        }
    } else if is_two(args, "config", "path") {
        Some(Ok(Action::ConfigPath))
    } else if is_two(args, "config", "show") {
        Some(Ok(Action::ConfigShow))
    } else if is_two(args, "config", "check") {
        Some(Ok(Action::ConfigCheck))
    } else if is_two(args, "context", "path") {
        Some(Ok(Action::ContextPath))
    } else if is_two(args, "context", "show") {
        Some(Ok(Action::ContextShow))
    } else if is_two(args, "context", "clear") {
        Some(Ok(Action::ContextClear))
    } else {
        None
    }
}

/// The generation that the arguments from `from` on ask for.
fn parse_generation(shell: Option<Shell>, args: &Vec<String>, from: usize) -> (r: Result<
    Action,
    Error,
>)
    requires
        from <= args@.len(),
    ensures
        parse_view(r) == generation(shell, texts(args@).skip(from as int)),
{
    let ghost rest = texts(args@).skip(from as int);
    let only_stdin = args.len() - from == 1 && text_eq(args[from].as_str(), "--stdin");
    proof {
        if only_stdin {
            assert(rest =~= seq!["--stdin"@]);
        } else if rest == seq!["--stdin"@] {
            assert(rest.len() == 1);
            assert(rest[0] == "--stdin"@);
        }
    }
    if only_stdin {
        return Ok(Action::Generate { shell, prompt: PromptSource::Stdin });
    }
    let mut start: usize = from;
    if from < args.len() && text_eq(args[from].as_str(), "--") {
        start = from + 1;
    }
    proof {
        if from < args@.len() {
            assert(rest[0] == args@[from as int]@);
        }
        assert(texts(args@).skip(start as int) =~= description(rest));
    }
    if start == args.len() {
        return Ok(Action::Generate { shell, prompt: PromptSource::Interactive });
    }
    let prompt = join_from(args, start, " ");
    if is_blank(prompt.as_str()) {
        return Err(Error::of("the command description cannot be empty"));
    }
    Ok(Action::Generate { shell, prompt: PromptSource::Argument(prompt) })
}

/// What the command line asks for. An argument that is `None` was not valid
/// Unicode.
pub fn parse(args: Vec<Option<String>>) -> (r: Result<Action, Error>)
    ensures
        parse_view(r) == parsed(args@),
{
    let mut unicode: Vec<String> = Vec::new();
    let mut i: usize = 0;
    while i < args.len()
        invariant
            i <= args@.len(),
            forall|k: int| 0 <= k < i ==> (#[trigger] args@[k]) is Some,
            texts(unicode@) == argument_texts(args@).take(i as int),
        decreases args@.len() - i,
    {
        match &args[i] {
            Some(argument) => {
                let ghost before = unicode@;
                unicode.push(argument.clone());
                assert(texts(unicode@) =~= texts(before).push(argument@));
                assert(argument_texts(args@).take(i + 1) =~= argument_texts(args@).take(
                    i as int,
                ).push(argument@));
            },
            None => {
                assert(!(args@[i as int] is Some));
                return Err(Error::of("arguments must be valid UTF-8"));
            },
        }
        i = i + 1;
    }
    assert(argument_texts(args@).take(args@.len() as int) =~= argument_texts(args@));
    let ghost a = texts(unicode@);
    match parse_management(&unicode) {
        Some(result) => return result,
        None => {},
    }
    if unicode.len() >= 2 && text_eq(unicode[0].as_str(), "--shell") {
        match Shell::parse(unicode[1].as_str()) {
            Ok(shell) => parse_generation(Some(shell), &unicode, 2),
            Err(error) => Err(error),
        }
    } else {
        assert(a.skip(0) =~= a);
        parse_generation(None, &unicode, 0)
    }
}

// ---------------------------------------------------------------------------
// Laws.

/// A description behind `--` is taken as it is, even where it spells a
/// management command or an option.
pub proof fn separator_protects_the_description(words: Seq<Seq<char>>)
    requires
        words.len() > 0,
        trim(joined(words, " "@)).len() > 0,
    ensures
        requested(seq!["--"@] + words) == Ok::<ActionView, Seq<char>>(
            ActionView::Generate {
                shell: None,
                prompt: PromptView::Argument(joined(words, " "@)),
            },
        ),
{
    let a = seq!["--"@] + words;
    reveal_strlit("--");
    reveal_strlit("--help");
    reveal_strlit("-h");
    reveal_strlit("--version");
    reveal_strlit("-V");
    reveal_strlit("setup");
    reveal_strlit("logs");
    reveal_strlit("init");
    reveal_strlit("config");
    reveal_strlit("context");
    reveal_strlit("--shell");
    reveal_strlit("--stdin");
    assert(a[0] == "--"@);
    assert(a.len() >= 2);
    assert("--"@.len() == 2);
    assert("--"@ != "init"@ && "--"@ != "config"@ && "--"@ != "context"@ && "--"@ != "--shell"@);
    assert(a != seq!["config"@, "path"@]) by {
        assert(seq!["config"@, "path"@][0] == "config"@);
    }
    assert(a != seq!["config"@, "show"@]) by {
        assert(seq!["config"@, "show"@][0] == "config"@);
    }
    assert(a != seq!["config"@, "check"@]) by {
        assert(seq!["config"@, "check"@][0] == "config"@);
    }
    assert(a != seq!["context"@, "path"@]) by {
        assert(seq!["context"@, "path"@][0] == "context"@);
    }
    assert(a != seq!["context"@, "show"@]) by {
        assert(seq!["context"@, "show"@][0] == "context"@);
    }
    assert(a != seq!["context"@, "clear"@]) by {
        assert(seq!["context"@, "clear"@][0] == "context"@);
    }
    assert(management(a) is None);
    assert(a.skip(1) =~= words);
    assert(a != seq!["--stdin"@]);
    assert(a.skip(0) =~= a);
}

/// Only a command line that is exactly a management command is taken as one:
/// with more than two arguments everything is a description or an option.
pub proof fn longer_command_lines_are_descriptions(a: Seq<Seq<char>>)
    requires
        a.len() > 2,
        a[0] != "--shell"@,
    ensures
        requested(a) == generation(None, a),
{
    assert(management(a) is None);
}

/// The name of every shell is read back as that shell.
pub proof fn shell_names_round_trip(shell: Shell)
    ensures
        parsed_shell(shell.name()) == Ok::<Shell, Seq<char>>(shell),
{
    reveal_strlit("bash");
    reveal_strlit("zsh");
    reveal_strlit("powershell");
    reveal_strlit("cmd");
    assert("bash"@.len() == 4 && "zsh"@.len() == 3 && "powershell"@.len() == 10 && "cmd"@.len()
        == 3);
    assert("zsh"@[0] == 'z' && "cmd"@[0] == 'c');
}

/// The words with a meaning on the command line differ from each other.
proof fn lemma_words_differ()
    ensures
        "--help"@.len() == 6 && "--help"@[0] == '-',
        "-h"@.len() == 2 && "-h"@[1] == 'h',
        "--version"@.len() == 9,
        "-V"@.len() == 2 && "-V"@[1] == 'V',
        "setup"@.len() == 5,
        "logs"@.len() == 4 && "logs"@[0] == 'l',
        "init"@.len() == 4 && "init"@[0] == 'i',
        "config"@.len() == 6 && "config"@[0] == 'c',
        "context"@.len() == 7 && "context"@[0] == 'c',
        "path"@.len() == 4 && "path"@[0] == 'p',
        "show"@.len() == 4 && "show"@[0] == 's',
        "check"@.len() == 5 && "check"@[1] == 'h',
        "clear"@.len() == 5 && "clear"@[1] == 'l',
        "--shell"@.len() == 7 && "--shell"@[2] == 's' && "--shell"@[0] == '-',
        "--stdin"@.len() == 7 && "--stdin"@[3] == 't' && "--shell"@[3] == 'h',
        "--"@.len() == 2 && "--"@[1] == '-',
        "bash"@.len() == 4 && "bash"@[0] == 'b',
        "zsh"@.len() == 3 && "zsh"@[0] == 'z',
        "powershell"@.len() == 10,
        "cmd"@.len() == 3 && "cmd"@[0] == 'c',
{
    reveal_strlit("--help");
    reveal_strlit("-h");
    reveal_strlit("--version");
    reveal_strlit("-V");
    reveal_strlit("setup");
    reveal_strlit("logs");
    reveal_strlit("init");
    reveal_strlit("config");
    reveal_strlit("context");
    reveal_strlit("path");
    reveal_strlit("show");
    reveal_strlit("check");
    reveal_strlit("clear");
    reveal_strlit("--shell");
    reveal_strlit("--stdin");
    reveal_strlit("--");
    reveal_strlit("bash");
    reveal_strlit("zsh");
    reveal_strlit("powershell");
    reveal_strlit("cmd");
}

/// Lists of one or two words are equal only where their words are.
proof fn lemma_short_lists(a: Seq<Seq<char>>)
    ensures
        forall|x: Seq<char>| (a == #[trigger] seq![x]) == (a.len() == 1 && a[0] == x),
        forall|x: Seq<char>, y: Seq<char>|
            (a == #[trigger] seq![x, y]) == (a.len() == 2 && a[0] == x && a[1] == y),
{
    assert forall|x: Seq<char>| (a == #[trigger] seq![x]) == (a.len() == 1 && a[0] == x) by {
        assert(seq![x].len() == 1 && seq![x][0] == x);
        if a.len() == 1 && a[0] == x {
            assert(a =~= seq![x]);
        }
    }
    assert forall|x: Seq<char>, y: Seq<char>|
        (a == #[trigger] seq![x, y]) == (a.len() == 2 && a[0] == x && a[1] == y) by {
        assert(seq![x, y].len() == 2 && seq![x, y][0] == x && seq![x, y][1] == y);
        if a.len() == 2 && a[0] == x && a[1] == y {
            assert(a =~= seq![x, y]);
        }
    }
}

/// Each management action is asked for by its own words and by no others.
pub proof fn management_commands_are_exact(a: Seq<Seq<char>>)
    ensures
        requested(a) == Ok::<ActionView, Seq<char>>(ActionView::Help) <==> a == seq!["--help"@] || a
            == seq!["-h"@],
        requested(a) == Ok::<ActionView, Seq<char>>(ActionView::Version) <==> a
            == seq!["--version"@] || a == seq!["-V"@],
        requested(a) == Ok::<ActionView, Seq<char>>(ActionView::Setup) <==> a == seq!["setup"@],
        requested(a) == Ok::<ActionView, Seq<char>>(ActionView::Logs) <==> a == seq!["logs"@],
        requested(a) == Ok::<ActionView, Seq<char>>(ActionView::ConfigPath) <==> a
            == seq!["config"@, "path"@],
        requested(a) == Ok::<ActionView, Seq<char>>(ActionView::ConfigShow) <==> a
            == seq!["config"@, "show"@],
        requested(a) == Ok::<ActionView, Seq<char>>(ActionView::ConfigCheck) <==> a
            == seq!["config"@, "check"@],
        requested(a) == Ok::<ActionView, Seq<char>>(ActionView::ContextPath) <==> a
            == seq!["context"@, "path"@],
        requested(a) == Ok::<ActionView, Seq<char>>(ActionView::ContextShow) <==> a
            == seq!["context"@, "show"@],
        requested(a) == Ok::<ActionView, Seq<char>>(ActionView::ContextClear) <==> a
            == seq!["context"@, "clear"@],
        requested(a) == Ok::<ActionView, Seq<char>>(ActionView::Init(Shell::Bash)) <==> a
            == seq!["init"@, "bash"@],
        requested(a) == Ok::<ActionView, Seq<char>>(ActionView::Init(Shell::Zsh)) <==> a
            == seq!["init"@, "zsh"@],
        requested(a) == Ok::<ActionView, Seq<char>>(ActionView::Init(Shell::Pwsh)) <==> a
            == seq!["init"@, "powershell"@],
        requested(a) != Ok::<ActionView, Seq<char>>(ActionView::Init(Shell::Cmd)),
{
    lemma_words_differ();
    lemma_short_lists(a);
}

/// Every shell with an edit buffer is integrated under its own name: `init` and
/// the name of a shell other than cmd.exe is read as the integration of that
/// shell.
pub proof fn shells_are_integrated_by_name(shell: Shell)
    ensures
        shell != Shell::Cmd ==> requested(seq!["init"@, shell.name()]) == Ok::<
            ActionView,
            Seq<char>,
        >(ActionView::Init(shell)),
        requested(seq!["init"@, Shell::Cmd.name()]) == Err::<ActionView, Seq<char>>(
            "cmd.exe does not expose programmable edit-buffer integration; use `ai --shell cmd -- <description>`"@,
        ),
{
    let a = seq!["init"@, shell.name()];
    let c = seq!["init"@, Shell::Cmd.name()];
    lemma_words_differ();
    lemma_short_lists(a);
    lemma_short_lists(c);
    shell_names_round_trip(shell);
    shell_names_round_trip(Shell::Cmd);
    assert(a[0] == "init"@ && a[1] == shell.name());
    assert(c[0] == "init"@ && c[1] == "cmd"@);
}

/// A shell is known by one name alone: the four names and nothing else name the
/// shells, and every other name is refused and quoted.
pub proof fn only_four_shells_are_known(name: Seq<char>)
    ensures
        parsed_shell(name) == Ok::<Shell, Seq<char>>(Shell::Bash) <==> name == "bash"@,
        parsed_shell(name) == Ok::<Shell, Seq<char>>(Shell::Zsh) <==> name == "zsh"@,
        parsed_shell(name) == Ok::<Shell, Seq<char>>(Shell::Pwsh) <==> name == "powershell"@,
        parsed_shell(name) == Ok::<Shell, Seq<char>>(Shell::Cmd) <==> name == "cmd"@,
        parsed_shell(name) matches Err(message) ==> message == "unsupported shell "@ + debug_text(
            name,
        ) + "; expected bash, zsh, powershell, or cmd"@,
{
    lemma_words_differ();
}

/// The shell option selects the shell and changes nothing else: behind it the
/// same words ask for the same prompt as without it.
pub proof fn shell_options_only_select_the_shell(shell: Shell, rest: Seq<Seq<char>>)
    requires
        management(rest) is None,
        rest.len() >= 2 ==> rest[0] != "--shell"@,
    ensures
        match requested(rest) {
            Ok(ActionView::Generate { shell: chosen, prompt }) => chosen is None && requested(
                seq!["--shell"@, shell.name()] + rest,
            ) == Ok::<ActionView, Seq<char>>(
                ActionView::Generate { shell: Some(shell), prompt },
            ),
            Ok(_) => false,
            Err(message) => requested(seq!["--shell"@, shell.name()] + rest) == Err::<
                ActionView,
                Seq<char>,
            >(message),
        },
{
    let a = seq!["--shell"@, shell.name()] + rest;
    lemma_words_differ();
    lemma_short_lists(a);
    shell_names_round_trip(shell);
    assert(a[0] == "--shell"@ && a[1] == shell.name());
    assert(management(a) is None);
    assert(a.skip(2) =~= rest);
}

/// Without words the prompt is asked for, `--stdin` alone reads it from the
/// standard input, and every other description is its words with single spaces
/// between them, unless they are all blank.
pub proof fn descriptions_are_their_words(words: Seq<Seq<char>>)
    requires
        management(words) is None,
        words.len() > 0 ==> words[0] != "--"@,
        words.len() >= 2 ==> words[0] != "--shell"@,
    ensures
        words.len() == 0 ==> requested(words) == Ok::<ActionView, Seq<char>>(
            ActionView::Generate { shell: None, prompt: PromptView::Interactive },
        ),
        words.len() > 0 ==> (requested(words) == Ok::<ActionView, Seq<char>>(
            ActionView::Generate { shell: None, prompt: PromptView::Stdin },
        ) <==> words == seq!["--stdin"@]),
        words.len() > 0 && words != seq!["--stdin"@] ==> match requested(words) {
            Ok(action) => action == (ActionView::Generate {
                shell: None,
                prompt: PromptView::Argument(joined(words, " "@)),
            }),
            Err(message) => message == "the command description cannot be empty"@,
        },
        words.len() > 0 && words != seq!["--stdin"@] ==> (requested(words) is Err <==> forall|i: int|
            0 <= i < joined(words, " "@).len() ==> is_whitespace(
                #[trigger] joined(words, " "@)[i],
            )),
{
    lemma_short_lists(words);
    if words.len() > 0 && words != seq!["--stdin"@] {
        let prompt = joined(words, " "@);
        let start = lemma_trimmed_parts(prompt);
        if trim(prompt).len() > 0 {
            assert(trim(prompt)[0] == prompt[start]);
        }
    }
}

/// An argument that is not valid Unicode is refused, whatever stands around it.
pub proof fn arguments_must_be_unicode(args: Seq<Option<String>>, i: int)
    requires
        0 <= i < args.len(),
        args[i] is None,
    ensures
        parsed(args) == Err::<ActionView, Seq<char>>("arguments must be valid UTF-8"@),
{
    assert(!(args[i] is Some));
}

/// What `ai --help` prints.
pub const HELP: &'static str = r#"Generate a shell command from a natural-language description.

Usage:
  ai [description...]
  ai [--shell bash|zsh|powershell|cmd] --stdin
  ai setup
  ai config path|show|check
  ai context path|show|clear
  ai logs
  ai init bash|zsh|powershell

Shell integration:
  source <(ai init bash)
  source <(ai init zsh)
  ai init powershell | Out-String | Invoke-Expression

Supported integration shells: Bash, Zsh, and PowerShell. cmd.exe can generate
commands with `--shell cmd`, but its built-in editor cannot provide Tab or
edit-buffer integration.
Supported AI providers: OpenRouter, OpenAI, llama.cpp, and vLLM.

Tab behavior after installing the integration:
  empty command line  open the `🤖 AI Prompt ›` prompt
  active AI prompt   submit the request, like Enter
  any other text     run normal shell completion

A generated command replaces the AI request in the same editable line but is
not executed. Review or edit it, then press Enter to execute it normally.
Clarifying questions and general answers are displayed without inserting an
executable line. The direct `ai [description...]` CLI prints its result because
only an installed shell integration can replace its parent shell's edit buffer.

Command risk:
  safe      light green; read-only with no meaningful side effects
  moderate  light yellow; bounded, normally recoverable changes
  high      light red; destructive, broad, secret-exposing, or difficult-to-reverse changes

Every generated command must have an exact risk classification. The color-coded
message appears immediately with no countdown. Setting `risk_warning = false`
in the `[safety]` config section hides the message but does not disable
classification or validation.

The integration keeps a bounded command-generation context in one private state
database. Use `ai context show` to inspect the current context or `clear` to
forget it.
"#;

} // verus!
