//! What one call of the program reads and shows.
use vstd::prelude::*;
use vstd::utf8::encode_utf8;

use crate::bytes::{decode_or_explain, utf8_complaint, utf8_text};
use crate::cli::{Action, ActionView, Shell, HELP};
use crate::context::{turn_views, ContextResponse, ContextTurn, ResponseView, TurnView};
use crate::error::{caused, text_outcome, Error};
use crate::number::{decimal, signed_decimal, size_to_decimal, to_decimal, to_signed_decimal};
use crate::paths::Platform;
use crate::provider::{
    provider_message, DestructiveRisk, GeneratedOutput, OutputView, Provider, ProviderError,
};
use crate::reply::{generated_output, outputs_are_single_lines};
use crate::shell::{init_script, integration};
use crate::text::{is_control, join2, join3, opt_text, text_eq, trim, trimmed};
use crate::ui;

verus! {

/// A description from the standard input takes at most this many bytes.
pub const MAX_PROMPT_BYTES: u64 = 16384;

// ---------------------------------------------------------------------------
// Descriptions.

/// What came of asking for a description.
#[derive(Clone, Debug, PartialEq, Eq)]
pub enum AskedPrompt {
    /// The question could not be shown, for a reason.
    NotShown(String),
    /// The answer could not be read, for a reason.
    NotRead(String),
    /// The input ended.
    Ended,
    /// The line that was entered.
    Line(String),
}

/// The description that was asked for, or why there is none.
pub open spec fn asked_description(asked: AskedPrompt) -> Result<Seq<char>, Seq<char>> {
    match asked {
        AskedPrompt::NotShown(reason) => Err(
            caused("could not display the command prompt"@, reason@),
        ),
        AskedPrompt::NotRead(reason) => Err(
            caused("could not read the command description"@, reason@),
        ),
        AskedPrompt::Ended => Err("no command description was provided"@),
        AskedPrompt::Line(line) => if trim(line@).len() == 0 {
            Err("the command description cannot be empty"@)
        } else {
            Ok(trim(line@))
        },
    }
}

/// The description that was asked for.
pub fn read_interactive_prompt(asked: AskedPrompt) -> (r: Result<String, Error>)
    ensures
        text_outcome(r) == asked_description(asked),
{
    match asked {
        AskedPrompt::NotShown(reason) => Err(
            Error::caused("could not display the command prompt", reason.as_str()),
        ),
        AskedPrompt::NotRead(reason) => Err(
            Error::caused("could not read the command description", reason.as_str()),
        ),
        AskedPrompt::Ended => Err(Error::of("no command description was provided")),
        AskedPrompt::Line(line) => {
            let prompt = trimmed(line.as_str());
            if prompt.as_str().is_empty() {
                return Err(Error::of("the command description cannot be empty"));
            }
            Ok(prompt)
        },
    }
}

/// The description that was decoded from the standard input, or why there is none.
/// The text is the reason where the bytes are no text.
pub open spec fn decoded_description(decoded: Result<Seq<char>, Seq<char>>) -> Result<
    Seq<char>,
    Seq<char>,
> {
    match decoded {
        Err(complaint) => Err(
            caused("the command description from stdin must be valid UTF-8"@, complaint),
        ),
        Ok(text) => if trim(text).len() == 0 {
            Err("the command description from stdin cannot be empty"@)
        } else {
            Ok(trim(text))
        },
    }
}

/// The description on the standard input, of which up to one byte more than the
/// limit was read, or why there is none.
pub open spec fn given_description(bytes: Seq<u8>) -> Result<Seq<char>, Seq<char>> {
    if bytes.len() > MAX_PROMPT_BYTES {
        Err(
            "the command description from stdin exceeds "@ + decimal(MAX_PROMPT_BYTES as nat)
                + " bytes"@,
        )
    } else {
        match utf8_text(bytes) {
            None => decoded_description(Err(utf8_complaint(bytes))),
            Some(text) => decoded_description(Ok(text)),
        }
    }
}

/// The description that was decoded from the standard input.
pub fn accept_description(decoded: Result<String, String>) -> (r: Result<String, Error>)
    ensures
        text_outcome(r) == decoded_description(
            match decoded {
                Ok(text) => Ok(text@),
                Err(complaint) => Err(complaint@),
            },
        ),
{
    match decoded {
        Err(complaint) => Err(
            Error::caused(
                "the command description from stdin must be valid UTF-8",
                complaint.as_str(),
            ),
        ),
        Ok(text) => {
            let prompt = trimmed(text.as_str());
            if prompt.as_str().is_empty() {
                return Err(Error::of("the command description from stdin cannot be empty"));
            }
            Ok(prompt)
        },
    }
}

/// The description on the standard input. The bytes are the reason where they
/// could not be read.
pub fn read_stdin_prompt(read: Result<Vec<u8>, String>) -> (r: Result<String, Error>)
    ensures
        text_outcome(r) == (match read {
            Err(reason) => Err(
                caused("could not read the command description from stdin"@, reason@),
            ),
            Ok(bytes) => given_description(bytes@),
        }),
{
    match read {
        Err(reason) => Err(
            Error::caused("could not read the command description from stdin", reason.as_str()),
        ),
        Ok(bytes) => {
            if bytes.len() as u64 > MAX_PROMPT_BYTES {
                return Err(
                    Error::new(
                        join3(
                            "the command description from stdin exceeds ",
                            to_decimal(MAX_PROMPT_BYTES).as_str(),
                            " bytes",
                        ),
                    ),
                );
            }
            accept_description(decode_or_explain(bytes))
        },
    }
}

/// The shell whose syntax is used where none is asked for.
pub open spec fn default_shell(platform: Platform) -> Shell {
    match platform {
        Platform::Unix => Shell::Bash,
        Platform::Windows => Shell::Pwsh,
    }
}

/// The shell that the file name of the user's shell stands for.
pub open spec fn detected_shell(name: Option<Seq<char>>, platform: Platform) -> Shell {
    if name == Some("zsh"@) {
        Shell::Zsh
    } else if name == Some("bash"@) {
        Shell::Bash
    } else {
        default_shell(platform)
    }
}

/// The shell that the file name of the user's shell stands for.
pub fn detect_shell(name: Option<String>, platform: Platform) -> (r: Shell)
    ensures
        r == detected_shell(opt_text(name), platform),
{
    match name {
        Some(name) => {
            if text_eq(name.as_str(), "zsh") {
                return Shell::Zsh;
            }
            if text_eq(name.as_str(), "bash") {
                return Shell::Bash;
            }
        },
        None => {},
    }
    match platform {
        Platform::Unix => Shell::Bash,
        Platform::Windows => Shell::Pwsh,
    }
}

// ---------------------------------------------------------------------------
// Context.

/// What came of opening the context.
#[derive(Debug, PartialEq, Eq)]
pub enum OpenedContext {
    /// No context is kept.
    Disabled,
    Unavailable(Error),
    Unreadable(Error),
    Loaded(Vec<ContextTurn>),
}

/// What is remembered.
#[derive(Debug, PartialEq, Eq)]
pub struct Memory {
    /// Whether the turn is to be saved.
    pub is_kept: bool,
    pub history: Vec<ContextTurn>,
    /// What is to be said about a context that cannot be used.
    pub warning: Option<String>,
}

/// A warning about the context.
pub open spec fn context_warning(what: Seq<char>, error: Seq<char>) -> Seq<char> {
    ui::WARNING@ + " Context "@ + what + " · "@ + error
}

fn warn_about_context(what: &str, error: &Error) -> (r: String)
    ensures
        r@ == context_warning(what@, error@),
{
    let mut out = join3(ui::WARNING, " Context ", what);
    out.push_str(" · ");
    out.push_str(error.message());
    out
}

/// What is remembered: whether the turn is to be saved, the earlier turns, and what
/// is to be said.
pub open spec fn recalled(opened: OpenedContext) -> (bool, Seq<TurnView>, Option<Seq<char>>) {
    match opened {
        OpenedContext::Disabled => (false, seq![], None),
        OpenedContext::Unavailable(error) => (
            false,
            seq![],
            Some(context_warning("is unavailable"@, error@)),
        ),
        OpenedContext::Unreadable(error) => (
            false,
            seq![],
            Some(context_warning("could not be loaded"@, error@)),
        ),
        OpenedContext::Loaded(history) => (true, turn_views(history@), None),
    }
}

/// What is remembered. A context that cannot be used is not: the request is made
/// without it, and a warning says so.
pub fn recall(opened: OpenedContext) -> (r: Memory)
    ensures
        (r.is_kept, turn_views(r.history@), opt_text(r.warning)) == recalled(opened),
        match opened {
            OpenedContext::Disabled => !r.is_kept && r.history@.len() == 0 && r.warning is None,
            OpenedContext::Unavailable(error) => {
                &&& !r.is_kept
                &&& r.history@.len() == 0
                &&& opt_text(r.warning) == Some(context_warning("is unavailable"@, error@))
            },
            OpenedContext::Unreadable(error) => {
                &&& !r.is_kept
                &&& r.history@.len() == 0
                &&& opt_text(r.warning) == Some(context_warning("could not be loaded"@, error@))
            },
            OpenedContext::Loaded(history) => r.is_kept && r.history == history && r.warning
                is None,
        },
{
    proof {
        assert forall|none: Seq<ContextTurn>| none.len() == 0 implies #[trigger] turn_views(none)
            == Seq::<TurnView>::empty() by {
            assert(turn_views(none) =~= Seq::<TurnView>::empty());
        }
    }
    match opened {
        OpenedContext::Disabled => Memory { is_kept: false, history: Vec::new(), warning: None },
        OpenedContext::Unavailable(error) => Memory {
            is_kept: false,
            history: Vec::new(),
            warning: Some(warn_about_context("is unavailable", &error)),
        },
        OpenedContext::Unreadable(error) => Memory {
            is_kept: false,
            history: Vec::new(),
            warning: Some(warn_about_context("could not be loaded", &error)),
        },
        OpenedContext::Loaded(history) => Memory { is_kept: true, history, warning: None },
    }
}

/// What is said where a turn could not be saved.
pub fn unsaved_warning(error: &Error) -> (r: String)
    ensures
        r@ == context_warning("could not be saved"@, error@),
{
    warn_about_context("could not be saved", error)
}

/// The directory that a request is made from: that of the context, or the current
/// one, or words for one that is not known.
pub open spec fn asked_from(context: Option<Seq<char>>, current: Option<Seq<char>>) -> Seq<char> {
    match (context, current) {
        (Some(directory), _) => directory,
        (None, Some(directory)) => directory,
        (None, None) => "<unknown>"@,
    }
}

/// The directory that a request is made from: that of the context, or the current
/// one, or words for one that is not known.
pub fn request_directory(context: Option<String>, current: Option<String>) -> (r: String)
    ensures
        r@ == asked_from(opt_text(context), opt_text(current)),
        r@ == (match (context, current) {
            (Some(directory), _) => directory@,
            (None, Some(directory)) => directory@,
            (None, None) => "<unknown>"@,
        }),
{
    match (context, current) {
        (Some(directory), _) => directory,
        (None, Some(directory)) => directory,
        (None, None) => "<unknown>".to_owned(),
    }
}

/// What is saved of an output.
pub open spec fn saved_response(output: OutputView) -> ResponseView {
    match output {
        OutputView::Command { command, .. } => ResponseView::Command(command),
        OutputView::Clarification(question) => ResponseView::Clarification(question),
        OutputView::Answer(answer) => ResponseView::Answer(answer),
    }
}

/// What is saved of an output.
pub fn response_of(output: &GeneratedOutput) -> (r: ContextResponse)
    ensures
        r@ == saved_response(output@),
{
    match output {
        GeneratedOutput::Command { command, .. } => ContextResponse::Command(command.clone()),
        GeneratedOutput::Clarification(question) => ContextResponse::Clarification(
            question.clone(),
        ),
        GeneratedOutput::Answer(answer) => ContextResponse::Answer(answer.clone()),
    }
}

// ---------------------------------------------------------------------------
// Output.

/// What a level of risk means.
pub open spec fn consequence(risk: DestructiveRisk) -> Seq<char> {
    match risk {
        DestructiveRisk::Safe => "is unlikely to cause damage, but review it carefully."@,
        DestructiveRisk::Moderate => "may modify your system or data. Review it carefully."@,
        DestructiveRisk::High =>
            "may cause destructive or difficult-to-reverse changes. Review it carefully."@,
    }
}

/// The line that is shown before a command.
pub open spec fn risk_line(risk: DestructiveRisk) -> Seq<char> {
    risk.color() + ui::WARNING@ + "  · Command "@ + consequence(risk) + " "@ + ui::RESET_COLOR@
        + "\n"@
}

/// The line that is shown before a command.
pub fn warn_before_command_with(risk: DestructiveRisk) -> (r: String)
    ensures
        r@ == risk_line(risk),
{
    let consequence = match risk {
        DestructiveRisk::Safe => "is unlikely to cause damage, but review it carefully.",
        DestructiveRisk::Moderate => "may modify your system or data. Review it carefully.",
        DestructiveRisk::High =>
            "may cause destructive or difficult-to-reverse changes. Review it carefully.",
    };
    let mut out = join3(risk.message_color(), ui::WARNING, "  · Command ");
    out.push_str(consequence);
    out.push_str(" ");
    out.push_str(ui::RESET_COLOR);
    out.push_str("\n");
    out
}

/// What is written to the two outputs, to the standard error first.
#[derive(Clone, Debug, PartialEq, Eq)]
pub struct Printed {
    pub stderr: String,
    pub stdout: String,
}

/// What is written to the standard error for an output.
pub open spec fn shown_aside(output: OutputView, risk_warning: bool) -> Seq<char> {
    match output {
        OutputView::Command { risk, .. } => if risk_warning {
            risk_line(risk)
        } else {
            ""@
        },
        OutputView::Clarification(question) => ui::AI@ + " "@ + question + "\n"@,
        OutputView::Answer(answer) => ui::AI@ + " "@ + answer + "\n"@,
    }
}

/// What is written to the standard output for an output.
pub open spec fn handed_out(output: OutputView) -> Seq<char> {
    match output {
        OutputView::Command { command, .. } => command + "\n"@,
        _ => ""@,
    }
}

fn aside_line(text: &str) -> (r: String)
    ensures
        r@ == ui::AI@ + " "@ + text@ + "\n"@,
{
    let mut out = join3(ui::AI, " ", text);
    out.push_str("\n");
    out
}

/// What is written for an output. Only a command goes to the standard output.
pub fn render(output: &GeneratedOutput, risk_warning: bool) -> (r: Printed)
    ensures
        r.stderr@ == shown_aside(output@, risk_warning),
        r.stdout@ == handed_out(output@),
{
    match output {
        GeneratedOutput::Command { command, risk } => Printed {
            stderr: if risk_warning {
                warn_before_command_with(*risk)
            } else {
                "".to_owned()
            },
            stdout: join2(command.as_str(), "\n"),
        },
        GeneratedOutput::Clarification(question) => Printed {
            stderr: aside_line(question.as_str()),
            stdout: "".to_owned(),
        },
        GeneratedOutput::Answer(answer) => Printed {
            stderr: aside_line(answer.as_str()),
            stdout: "".to_owned(),
        },
    }
}

/// What came of a conversation, and what is to be saved of it.
#[derive(Clone, Debug, PartialEq, Eq)]
pub struct Conclusion {
    pub output: GeneratedOutput,
    /// What is to be saved, where turns are kept.
    pub to_save: Option<ContextResponse>,
}

/// What is to be saved of an output, where turns are kept.
pub open spec fn to_be_saved(output: OutputView, is_kept: bool) -> Option<ResponseView> {
    if is_kept {
        Some(saved_response(output))
    } else {
        None
    }
}

/// What came of a conversation. A conversation that failed is reported, and nothing
/// is saved of it.
pub fn conclude(result: Result<GeneratedOutput, ProviderError>, is_kept: bool) -> (r: Result<
    Conclusion,
    Error,
>)
    ensures
        match result {
            Ok(output) => r matches Ok(conclusion) && conclusion.output == output && (
            match conclusion.to_save {
                Some(response) => is_kept && response@ == saved_response(output@),
                None => !is_kept,
            }),
            Err(error) => r matches Err(e) && e@ == provider_message(error@),
        },
        r matches Ok(conclusion) ==> to_be_saved(conclusion.output@, is_kept) == (
        match conclusion.to_save {
            Some(response) => Some(response@),
            None => None,
        }),
{
    match result {
        Ok(output) => {
            let to_save = if is_kept {
                Some(response_of(&output))
            } else {
                None
            };
            Ok(Conclusion { output, to_save })
        },
        Err(error) => Err(Error::new(error.message())),
    }
}

/// What is written to the standard error once a turn was saved, where one was to
/// be.
pub open spec fn saving_report(saved: Option<Result<(), Error>>) -> Seq<char> {
    match saved {
        Some(Err(error)) => context_warning("could not be saved"@, error@) + "\n"@,
        _ => ""@,
    }
}

/// What is written at the end of a conversation. An output is handed out whether
/// or not it could be saved.
pub fn publish(output: &GeneratedOutput, saved: Option<Result<(), Error>>, risk_warning: bool) -> (r:
    Printed)
    ensures
        r.stderr@ == saving_report(saved) + shown_aside(output@, risk_warning),
        r.stdout@ == handed_out(output@),
{
    let printed = render(output, risk_warning);
    let report = match saved {
        Some(Err(error)) => join2(unsaved_warning(&error).as_str(), "\n"),
        _ => "".to_owned(),
    };
    Printed { stderr: join2(report.as_str(), printed.stderr.as_str()), stdout: printed.stdout }
}

/// How a response is shown.
pub open spec fn shown_response(response: ResponseView) -> Seq<char> {
    match response {
        ResponseView::Command(command) => ui::COMMAND@ + " Command · "@ + command
            + "  (execution unconfirmed)\n"@,
        ResponseView::Clarification(question) => ui::AI@ + " Question · "@ + question + "\n"@,
        ResponseView::Answer(answer) => ui::AI@ + " Answer · "@ + answer + "\n"@,
    }
}

/// How a turn is shown.
pub open spec fn shown_turn(turn: TurnView, number: nat) -> Seq<char> {
    "\n─ "@ + decimal(number) + " · "@ + signed_decimal(turn.created_at as int) + " · "@
        + turn.working_directory + "\n"@ + ui::REQUEST@ + " You · "@ + turn.request + "\n"@
        + shown_response(turn.response)
}

/// How turns are shown.
pub open spec fn shown_turns(turns: Seq<TurnView>) -> Seq<char>
    decreases turns.len(),
{
    if turns.len() == 0 {
        ""@
    } else {
        shown_turns(turns.drop_last()) + shown_turn(turns.last(), turns.len())
    }
}

/// How a context is shown.
pub open spec fn shown_context(
    turns: Seq<TurnView>,
    description: Seq<char>,
    database: Seq<char>,
) -> Seq<char> {
    ui::CONTEXT@ + " Context · "@ + description + "\n"@ + ui::DATABASE@ + " Database · "@ + database
        + "\n"@ + if turns.len() == 0 {
        ui::EMPTY@ + " No saved turns yet.\n"@
    } else {
        shown_turns(turns)
    }
}

fn show_response(response: &ContextResponse) -> (r: String)
    ensures
        r@ == shown_response(response@),
{
    match response {
        ContextResponse::Command(command) => {
            let mut out = join3(ui::COMMAND, " Command · ", command.as_str());
            out.push_str("  (execution unconfirmed)\n");
            out
        },
        ContextResponse::Clarification(question) => {
            let mut out = join3(ui::AI, " Question · ", question.as_str());
            out.push_str("\n");
            out
        },
        ContextResponse::Answer(answer) => {
            let mut out = join3(ui::AI, " Answer · ", answer.as_str());
            out.push_str("\n");
            out
        },
    }
}

fn show_turn(turn: &ContextTurn, number: usize) -> (r: String)
    ensures
        r@ == shown_turn(turn@, number as nat),
{
    let mut out = join3("\n─ ", size_to_decimal(number).as_str(), " · ");
    out.push_str(to_signed_decimal(turn.created_at).as_str());
    out.push_str(" · ");
    out.push_str(turn.working_directory.as_str());
    out.push_str("\n");
    out.push_str(ui::REQUEST);
    out.push_str(" You · ");
    out.push_str(turn.request.as_str());
    out.push_str("\n");
    out.push_str(show_response(&turn.response).as_str());
    out
}

/// How a context is shown.
pub fn show_context(turns: &Vec<ContextTurn>, description: &str, database: &str) -> (r: String)
    ensures
        r@ == shown_context(turn_views(turns@), description@, database@),
{
    let mut out = join3(ui::CONTEXT, " Context · ", description);
    out.push_str("\n");
    out.push_str(ui::DATABASE);
    out.push_str(" Database · ");
    out.push_str(database);
    out.push_str("\n");
    let ghost all = turn_views(turns@);
    if turns.len() == 0 {
        let ghost before = out@;
        out.push_str(ui::EMPTY);
        out.push_str(" No saved turns yet.\n");
        assert(out@ =~= before + (ui::EMPTY@ + " No saved turns yet.\n"@));
        return out;
    }
    let ghost head = out@;
    let mut body = "".to_owned();
    let mut i: usize = 0;
    let n: usize = turns.len();
    assert(all.take(0) =~= seq![]);
    while i < n
        invariant
            all == turn_views(turns@),
            n == turns@.len(),
            i <= n,
            body@ == shown_turns(all.take(i as int)),
        decreases n - i,
    {
        assert(all.take(i + 1).drop_last() =~= all.take(i as int));
        assert(all.take(i + 1).last() == turns@[i as int]@);
        body.push_str(show_turn(&turns[i], i + 1).as_str());
        i = i + 1;
    }
    assert(all.take(n as int) =~= all);
    out.push_str(body.as_str());
    out
}

/// What is said after the context was cleared.
pub open spec fn cleared_context(cleared: bool, description: Seq<char>) -> Seq<char> {
    if cleared {
        ui::SUCCESS@ + " Context cleared · "@ + description + "\n"@
    } else {
        ui::EMPTY@ + " Nothing to clear · "@ + description + "\n"@
    }
}

/// What is said after the context was cleared, which removed a number of rows.
pub fn clear_context(removed: usize, description: &str) -> (r: String)
    ensures
        r@ == cleared_context(removed != 0, description@),
{
    let mut out = if removed != 0 {
        join3(ui::SUCCESS, " Context cleared · ", description)
    } else {
        join3(ui::EMPTY, " Nothing to clear · ", description)
    };
    out.push_str("\n");
    out
}

/// What is said after the configuration was found to work.
pub fn check_config(provider: Provider, model: &str) -> (r: String)
    ensures
        r@ == ui::SUCCESS@ + " "@ + provider.facts().display_name + " ready · "@ + model@ + "\n"@,
{
    let mut out = join3(ui::SUCCESS, " ", provider.display_name());
    out.push_str(" ready · ");
    out.push_str(model);
    out.push_str("\n");
    out
}

/// What is said after the configuration was saved.
pub fn saved_config(path: &str) -> (r: String)
    ensures
        r@ == ui::SUCCESS@ + " Configuration saved · "@ + path@ + "\n"@,
{
    let mut out = join3(ui::SUCCESS, " Configuration saved · ", path);
    out.push_str("\n");
    out
}

/// What an action shows that needs nothing but itself, or why it shows nothing.
/// `None` where an action needs more.
pub open spec fn shown_at_once(action: ActionView, version: Seq<char>) -> Option<
    Result<Seq<char>, Seq<char>>,
> {
    match action {
        ActionView::Init(shell) => Some(integration(shell)),
        ActionView::Help => Some(Ok(HELP@)),
        ActionView::Version => Some(Ok("ai "@ + version + "\n"@)),
        _ => None,
    }
}

/// What an action shows that needs nothing but itself.
pub fn show_at_once(action: &Action, version: &str) -> (r: Option<Result<String, Error>>)
    ensures
        match r {
            Some(shown) => shown_at_once(action@, version@) == Some(text_outcome(shown)),
            None => shown_at_once(action@, version@) is None,
        },
{
    match action {
        Action::Init(shell) => Some(init_script(*shell)),
        Action::Help => Some(Ok(HELP.to_owned())),
        Action::Version => Some(Ok(join3("ai ", version, "\n"))),
        _ => None,
    }
}

/// How a failure is reported.
pub fn error_line(error: &str) -> (r: String)
    ensures
        r@ == ui::ERROR@ + " ai · "@ + error@ + "\n"@,
{
    let mut out = join3(ui::ERROR, " ai · ", error);
    out.push_str("\n");
    out
}

// ---------------------------------------------------------------------------
// Laws.

/// The standard output holds a command and nothing else: what is handed out for a
/// question or an answer is empty, and a warning changes nothing of it.
pub proof fn only_commands_are_handed_out(output: OutputView)
    ensures
        handed_out(output).len() > 0 ==> (output matches OutputView::Command { command, .. }
            && handed_out(output) == command + "\n"@),
        output is Command ==> handed_out(output).len() > 0,
{
    reveal_strlit("");
    reveal_strlit("\n");
    assert(""@.len() == 0);
    assert("\n"@.len() == 1);
}

/// What a model generates is handed out on one line: whatever it replied, the
/// standard output holds at most one line, and its end is the only control
/// character on it.
pub proof fn commands_are_handed_out_on_one_line(content: Seq<char>)
    ensures
        generated_output(content) matches Ok(output) ==> {
            let text = handed_out(output);
            &&& text.len() > 0 ==> text.last() == '\n'
            &&& forall|i: int| 0 <= i < text.len() - 1 ==> !is_control(#[trigger] text[i])
        },
{
    reveal_strlit("");
    reveal_strlit("\n");
    if generated_output(content) is Ok {
        let output = generated_output(content)->Ok_0;
        outputs_are_single_lines(content);
        match output {
            OutputView::Command { command, .. } => {
                let text = handed_out(output);
                assert(text.last() == '\n');
                assert forall|i: int| 0 <= i < text.len() - 1 implies !is_control(
                    #[trigger] text[i],
                ) by {
                    assert(text[i] == command[i]);
                }
            },
            _ => {},
        }
    }
}

/// The line before a command is in the color of its risk, and ends with the color
/// reset.
pub proof fn risk_lines_are_in_their_color(risk: DestructiveRisk)
    ensures
        crate::text::begins(risk_line(risk), risk.color()),
        crate::text::ends(risk_line(risk), ui::RESET_COLOR@ + "\n"@),
{
    let line = risk_line(risk);
    assert(line.take(risk.color().len() as int) =~= risk.color());
    let end = ui::RESET_COLOR@ + "\n"@;
    assert(line.skip(line.len() - end.len()) =~= end);
}

/// A description is taken without the white space around it, whether it is typed
/// or read from the standard input, and one that is blank is refused. No more than
/// 16384 bytes are taken from the standard input.
pub proof fn descriptions_are_trimmed(line: String, text: Seq<char>)
    ensures
        trim(line@).len() > 0 ==> asked_description(AskedPrompt::Line(line)) == Ok::<
            Seq<char>,
            Seq<char>,
        >(trim(line@)),
        trim(line@).len() == 0 ==> asked_description(AskedPrompt::Line(line)) == Err::<
            Seq<char>,
            Seq<char>,
        >("the command description cannot be empty"@),
        encode_utf8(text).len() <= 16384 && trim(text).len() > 0 ==> given_description(
            encode_utf8(text),
        ) == Ok::<Seq<char>, Seq<char>>(trim(text)),
        encode_utf8(text).len() <= 16384 && trim(text).len() == 0 ==> given_description(
            encode_utf8(text),
        ) == Err::<Seq<char>, Seq<char>>("the command description from stdin cannot be empty"@),
        encode_utf8(text).len() > 16384 ==> given_description(encode_utf8(text)) == Err::<
            Seq<char>,
            Seq<char>,
        >("the command description from stdin exceeds "@ + "16384"@ + " bytes"@),
{
    vstd::utf8::encode_utf8_valid_utf8(text);
    vstd::utf8::encode_utf8_decode_utf8(text);
    reveal_strlit("16384");
    reveal_with_fuel(crate::number::digits, 5);
    assert(decimal(16384) =~= "16384"@);
}

/// Commands are written for the shell of the user where that is Bash or Zsh, and
/// otherwise for the usual shell of the system.
pub proof fn commands_are_for_the_shell_of_the_user(name: Option<Seq<char>>, platform: Platform)
    ensures
        name == Some("zsh"@) ==> detected_shell(name, platform) == Shell::Zsh,
        name == Some("bash"@) ==> detected_shell(name, platform) == Shell::Bash,
        name != Some("zsh"@) && name != Some("bash"@) && platform == Platform::Unix
            ==> detected_shell(name, platform) == Shell::Bash,
        name != Some("zsh"@) && name != Some("bash"@) && platform == Platform::Windows
            ==> detected_shell(name, platform) == Shell::Pwsh,
{
    reveal_strlit("zsh");
    reveal_strlit("bash");
    assert("zsh"@.len() == 3 && "bash"@.len() == 4);
}

/// What is remembered of an output is its whole text, under the word for what it
/// is.
pub proof fn outputs_are_remembered_as_they_are(output: OutputView)
    ensures
        saved_response(output).content() == crate::reply::output_text(output),
        saved_response(output).kind() == (match output {
            OutputView::Command { .. } => "command"@,
            OutputView::Clarification(_) => "clarification"@,
            OutputView::Answer(_) => "answer"@,
        }),
{
}

/// Beside a command only its risk is told, in words that fit the level, and
/// nothing where that is switched off. A question or an answer is told in full,
/// whatever is switched off.
pub proof fn asides_tell_the_risk_or_the_text(
    command: Seq<char>,
    risk: DestructiveRisk,
    text: Seq<char>,
    risk_warning: bool,
)
    ensures
        shown_aside(OutputView::Command { command, risk }, false) == Seq::<char>::empty(),
        shown_aside(OutputView::Command { command, risk }, true) == risk.color() + ui::WARNING@
            + "  · Command "@ + (match risk {
            DestructiveRisk::Safe => "is unlikely to cause damage, but review it carefully."@,
            DestructiveRisk::Moderate => "may modify your system or data. Review it carefully."@,
            DestructiveRisk::High => {
                "may cause destructive or difficult-to-reverse changes. Review it carefully."@
            },
        }) + " "@ + ui::RESET_COLOR@ + "\n"@,
        shown_aside(OutputView::Clarification(text), risk_warning) == ui::AI@ + " "@ + text + "\n"@,
        shown_aside(OutputView::Answer(text), risk_warning) == ui::AI@ + " "@ + text + "\n"@,
{
    reveal_strlit("");
    assert(""@ =~= Seq::<char>::empty());
}

/// Only a turn that was to be saved and could not be is reported, with the reason.
pub proof fn only_failed_saves_are_reported(saved: Option<Result<(), Error>>)
    ensures
        saving_report(saved) == (match saved {
            Some(Err(error)) => ui::WARNING@ + " Context "@ + "could not be saved"@ + " · "@ + error@
                + "\n"@,
            _ => Seq::<char>::empty(),
        }),
{
    reveal_strlit("");
    assert(""@ =~= Seq::<char>::empty());
}

/// A context is shown with its turns in their order, numbered from one, each with
/// its time, its directory, its request and its response. Of a command it is said
/// that nobody knows whether it was run.
pub proof fn contexts_are_shown_turn_by_turn(
    turns: Seq<TurnView>,
    turn: TurnView,
    description: Seq<char>,
    database: Seq<char>,
)
    ensures
        shown_turns(turns.push(turn)) == shown_turns(turns) + ("\n─ "@ + decimal(turns.len() + 1)
            + " · "@ + signed_decimal(turn.created_at as int) + " · "@ + turn.working_directory
            + "\n"@ + ui::REQUEST@ + " You · "@ + turn.request + "\n"@ + (match turn.response {
            ResponseView::Command(command) => ui::COMMAND@ + " Command · "@ + command
                + "  (execution unconfirmed)\n"@,
            ResponseView::Clarification(question) => ui::AI@ + " Question · "@ + question + "\n"@,
            ResponseView::Answer(answer) => ui::AI@ + " Answer · "@ + answer + "\n"@,
        })),
        shown_context(turns.push(turn), description, database) == ui::CONTEXT@ + " Context · "@
            + description + "\n"@ + ui::DATABASE@ + " Database · "@ + database + "\n"@
            + shown_turns(turns.push(turn)),
        shown_context(Seq::<TurnView>::empty(), description, database) == ui::CONTEXT@
            + " Context · "@ + description + "\n"@ + ui::DATABASE@ + " Database · "@ + database
            + "\n"@ + (ui::EMPTY@ + " No saved turns yet.\n"@),
{
    assert(turns.push(turn).drop_last() =~= turns);
}

/// A context is said to be cleared exactly where something was removed.
pub proof fn clears_say_whether_there_was_anything(description: Seq<char>)
    ensures
        cleared_context(true, description) == ui::SUCCESS@ + " Context cleared · "@ + description
            + "\n"@,
        cleared_context(false, description) == ui::EMPTY@ + " Nothing to clear · "@ + description
            + "\n"@,
{
}

/// The help, the version and the integration of a shell are shown at once, and
/// every other action needs more than itself.
pub proof fn some_actions_are_shown_at_once(action: ActionView, version: Seq<char>)
    ensures
        shown_at_once(ActionView::Help, version) == Some(Ok::<Seq<char>, Seq<char>>(HELP@)),
        shown_at_once(ActionView::Version, version) == Some(
            Ok::<Seq<char>, Seq<char>>("ai "@ + version + "\n"@),
        ),
        action matches ActionView::Init(shell) ==> shown_at_once(action, version) == Some(
            integration(shell),
        ),
        shown_at_once(action, version) is Some <==> action is Help || action is Version
            || action is Init,
{
}

/// A context that was loaded is used whole, and its next turn saved in it. One that
/// is switched off or cannot be used is not: the request is made without a history,
/// nothing is saved, and a failure is warned of.
pub proof fn only_loaded_contexts_are_used(opened: OpenedContext)
    ensures
        ({
            let (is_kept, history, warning) = recalled(opened);
            &&& is_kept <==> opened is Loaded
            &&& (opened matches OpenedContext::Loaded(turns) ==> history.len() == turns@.len()
                && forall|i: int| 0 <= i < turns@.len() ==> #[trigger] history[i] == turns@[i]@)
            &&& !(opened is Loaded) ==> history.len() == 0
            &&& opened is Loaded || opened is Disabled ==> warning is None
            &&& (opened matches OpenedContext::Unavailable(error) ==> warning == Some(
                ui::WARNING@ + " Context "@ + "is unavailable"@ + " · "@ + error@,
            ))
            &&& (opened matches OpenedContext::Unreadable(error) ==> warning == Some(
                ui::WARNING@ + " Context "@ + "could not be loaded"@ + " · "@ + error@,
            ))
        }),
{
}

/// A request is made from the directory of its context where there is one, whatever
/// the current directory is, and from the current directory otherwise.
pub proof fn requests_are_made_from_the_context(
    directory: Seq<char>,
    current: Option<Seq<char>>,
)
    ensures
        asked_from(Some(directory), current) == directory,
        asked_from(None, Some(directory)) == directory,
        asked_from(None, None) == "<unknown>"@,
{
}

/// An output is saved exactly where turns are kept.
pub proof fn outputs_are_saved_where_turns_are_kept(output: OutputView, is_kept: bool)
    ensures
        to_be_saved(output, is_kept) is Some <==> is_kept,
        to_be_saved(output, is_kept) matches Some(response) ==> response.content()
            == crate::reply::output_text(output) && (response is Command <==> output is Command) && (
        response is Clarification <==> output is Clarification),
{
}

} // verus!
