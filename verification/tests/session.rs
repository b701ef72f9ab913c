//! What is read and shown.
use aishell::cli::{Action, Shell, HELP};
use aishell::context::{ContextResponse, ContextTurn};
use aishell::error::Error;
use aishell::paths::Platform;
use aishell::provider::{DestructiveRisk, GeneratedOutput, Provider, ProviderError};
use aishell::session::{
    accept_description, check_config, clear_context, conclude, detect_shell, error_line, publish,
    read_interactive_prompt, read_stdin_prompt, recall, render, request_directory, response_of,
    saved_config, show_at_once, show_context, unsaved_warning, warn_before_command_with,
    AskedPrompt, OpenedContext, Printed,
};
use aishell::shell::init_script;

#[test]
fn risk_messages_use_their_assigned_light_color_without_a_countdown() {
    for risk in [DestructiveRisk::Safe, DestructiveRisk::Moderate, DestructiveRisk::High] {
        let warning = warn_before_command_with(risk);
        assert!(warning.starts_with(risk.message_color()));
        assert!(warning.ends_with("\x1b[0m\n"));
        assert!(!warning.contains("Command available in"));
    }
}

#[test]
fn risk_messages_are_exact() {
    assert_eq!(
        warn_before_command_with(DestructiveRisk::Moderate),
        "\x1b[93m⚠  · Command may modify your system or data. Review it carefully. \x1b[0m\n"
    );
    assert!(warn_before_command_with(DestructiveRisk::Safe).contains("unlikely to cause damage"));
    assert!(warn_before_command_with(DestructiveRisk::High).contains("difficult-to-reverse"));
}

#[test]
fn only_commands_reach_the_standard_output() {
    let command = GeneratedOutput::Command { command: "ls".into(), risk: DestructiveRisk::Safe };
    let printed = render(&command, true);
    assert_eq!(printed.stdout, "ls\n");
    assert_eq!(printed.stderr, warn_before_command_with(DestructiveRisk::Safe));
    let quiet = render(&command, false);
    assert_eq!(quiet.stdout, "ls\n");
    assert_eq!(quiet.stderr, "");
    let question = render(&GeneratedOutput::Clarification("which?".into()), true);
    assert_eq!(question.stdout, "");
    assert_eq!(question.stderr, "🤖 which?\n");
    let answer = render(&GeneratedOutput::Answer("yes".into()), true);
    assert_eq!(answer.stdout, "");
    assert_eq!(answer.stderr, "🤖 yes\n");
}

#[test]
fn descriptions_are_asked_for() {
    assert_eq!(read_interactive_prompt(AskedPrompt::Line(" list files\n".into())).unwrap(), "list files");
    assert_eq!(
        read_interactive_prompt(AskedPrompt::Line(" \n".into())).unwrap_err().message(),
        "the command description cannot be empty"
    );
    assert_eq!(
        read_interactive_prompt(AskedPrompt::Ended).unwrap_err().message(),
        "no command description was provided"
    );
    assert_eq!(
        read_interactive_prompt(AskedPrompt::NotShown("closed".into())).unwrap_err().message(),
        "could not display the command prompt: closed"
    );
    assert_eq!(
        read_interactive_prompt(AskedPrompt::NotRead("closed".into())).unwrap_err().message(),
        "could not read the command description: closed"
    );
}

#[test]
fn descriptions_on_the_standard_input_are_bounded_texts() {
    assert_eq!(read_stdin_prompt(Ok(b" list\n".to_vec())).unwrap(), "list");
    assert_eq!(read_stdin_prompt(Ok(vec![b'a'; 16384])).unwrap().len(), 16384);
    assert_eq!(
        read_stdin_prompt(Ok(vec![b'a'; 16385])).unwrap_err().message(),
        "the command description from stdin exceeds 16384 bytes"
    );
    assert_eq!(
        read_stdin_prompt(Ok(vec![b'a', 0xff])).unwrap_err().message(),
        "the command description from stdin must be valid UTF-8: invalid utf-8 sequence of 1 bytes from index 1"
    );
    assert_eq!(
        read_stdin_prompt(Ok(b" \n".to_vec())).unwrap_err().message(),
        "the command description from stdin cannot be empty"
    );
    assert_eq!(
        read_stdin_prompt(Err("closed".into())).unwrap_err().message(),
        "could not read the command description from stdin: closed"
    );
}

#[test]
fn shells_are_detected() {
    assert_eq!(detect_shell(Some("zsh".into()), Platform::Windows), Shell::Zsh);
    assert_eq!(detect_shell(Some("bash".into()), Platform::Windows), Shell::Bash);
    assert_eq!(detect_shell(Some("fish".into()), Platform::Unix), Shell::Bash);
    assert_eq!(detect_shell(None, Platform::Unix), Shell::Bash);
    assert_eq!(detect_shell(None, Platform::Windows), Shell::Pwsh);
}

fn turn(response: ContextResponse) -> ContextTurn {
    ContextTurn {
        created_at: -5,
        working_directory: "/w".into(),
        request: "list".into(),
        response,
    }
}

#[test]
fn contexts_are_shown_turn_by_turn() {
    assert_eq!(
        show_context(&vec![], "directory /w", "/s/history.sqlite3"),
        "🧠 Context · directory /w\n🗄 Database · /s/history.sqlite3\n○ No saved turns yet.\n"
    );
    let turns = vec![
        turn(ContextResponse::Command("ls".into())),
        turn(ContextResponse::Clarification("which?".into())),
        turn(ContextResponse::Answer("yes".into())),
    ];
    assert_eq!(
        show_context(&turns, "directory /w", "/s/history.sqlite3"),
        "🧠 Context · directory /w\n🗄 Database · /s/history.sqlite3\n\
         \n─ 1 · -5 · /w\n💬 You · list\n❯ Command · ls  (execution unconfirmed)\n\
         \n─ 2 · -5 · /w\n💬 You · list\n🤖 Question · which?\n\
         \n─ 3 · -5 · /w\n💬 You · list\n🤖 Answer · yes\n"
    );
}

#[test]
fn contexts_that_cannot_be_used_are_left_out() {
    let loaded = recall(OpenedContext::Loaded(vec![turn(ContextResponse::Answer("yes".into()))]));
    assert!(loaded.is_kept);
    assert_eq!(loaded.history.len(), 1);
    assert_eq!(loaded.warning, None);
    let unavailable = recall(OpenedContext::Unavailable(Error::of("no home")));
    assert!(!unavailable.is_kept);
    assert!(unavailable.history.is_empty());
    assert_eq!(unavailable.warning.as_deref(), Some("⚠ Context is unavailable · no home"));
    let unreadable = recall(OpenedContext::Unreadable(Error::of("locked")));
    assert!(!unreadable.is_kept);
    assert_eq!(unreadable.warning.as_deref(), Some("⚠ Context could not be loaded · locked"));
    let disabled = recall(OpenedContext::Disabled);
    assert!(!disabled.is_kept);
    assert_eq!(disabled.warning, None);
    assert_eq!(
        unsaved_warning(&Error::of("locked")),
        "⚠ Context could not be saved · locked"
    );
}

#[test]
fn requests_are_made_from_a_directory() {
    assert_eq!(request_directory(Some("/c".into()), Some("/d".into())), "/c");
    assert_eq!(request_directory(None, Some("/d".into())), "/d");
    assert_eq!(request_directory(None, None), "<unknown>");
}

#[test]
fn outputs_are_saved_without_their_risk() {
    let command = GeneratedOutput::Command { command: "ls".into(), risk: DestructiveRisk::High };
    assert_eq!(response_of(&command), ContextResponse::Command("ls".into()));
    assert_eq!(
        response_of(&GeneratedOutput::Clarification("which?".into())),
        ContextResponse::Clarification("which?".into())
    );
    assert_eq!(
        response_of(&GeneratedOutput::Answer("yes".into())),
        ContextResponse::Answer("yes".into())
    );
}

#[test]
fn reports_are_exact() {
    assert_eq!(clear_context(1, "directory /w"), "✓ Context cleared · directory /w\n");
    assert_eq!(clear_context(0, "directory /w"), "○ Nothing to clear · directory /w\n");
    assert_eq!(check_config(Provider::OpenAi, "gpt"), "✓ OpenAI ready · gpt\n");
    assert_eq!(saved_config("/c"), "✓ Configuration saved · /c\n");
    assert_eq!(error_line("broken"), "✗ ai · broken\n");
}

#[test]
fn decoded_descriptions_are_trimmed() {
    assert_eq!(accept_description(Ok("\tlist files \n".into())).unwrap(), "list files");
    assert_eq!(
        accept_description(Ok("\n".into())).unwrap_err().message(),
        "the command description from stdin cannot be empty"
    );
    assert_eq!(
        accept_description(Err("bad byte".into())).unwrap_err().message(),
        "the command description from stdin must be valid UTF-8: bad byte"
    );
}

#[test]
fn turns_are_saved_only_where_they_are_kept() {
    let output = GeneratedOutput::Command { command: "ls".into(), risk: DestructiveRisk::Safe };
    let kept = conclude(Ok(output.clone()), true).unwrap();
    assert_eq!(kept.output, output);
    assert_eq!(kept.to_save, Some(ContextResponse::Command("ls".into())));
    let dropped = conclude(Ok(output.clone()), false).unwrap();
    assert_eq!(dropped.output, output);
    assert_eq!(dropped.to_save, None);
    let error = ProviderError::ToolLimitExceeded;
    assert_eq!(conclude(Err(error.clone()), true).unwrap_err().message(), error.message());
}

#[test]
fn outputs_are_handed_out_whether_or_not_they_are_saved() {
    let output = GeneratedOutput::Command { command: "ls".into(), risk: DestructiveRisk::Safe };
    let warning = warn_before_command_with(DestructiveRisk::Safe);
    assert_eq!(
        publish(&output, Some(Ok(())), true),
        Printed { stderr: warning.clone(), stdout: "ls\n".into() }
    );
    assert_eq!(publish(&output, None, true), publish(&output, Some(Ok(())), true));
    assert_eq!(
        publish(&output, Some(Err(Error::of("locked"))), true),
        Printed {
            stderr: format!("⚠ Context could not be saved · locked\n{warning}"),
            stdout: "ls\n".into(),
        }
    );
}

#[test]
fn some_actions_need_nothing_else() {
    assert_eq!(show_at_once(&Action::Help, "1.2.3").unwrap().unwrap(), HELP);
    assert_eq!(show_at_once(&Action::Version, "1.2.3").unwrap().unwrap(), "ai 1.2.3\n");
    assert_eq!(
        show_at_once(&Action::Init(Shell::Zsh), "1.2.3").unwrap().unwrap(),
        init_script(Shell::Zsh).unwrap()
    );
    assert!(show_at_once(&Action::Init(Shell::Cmd), "1.2.3").unwrap().is_err());
    assert!(show_at_once(&Action::Setup, "1.2.3").is_none());
    assert!(show_at_once(&Action::ContextShow, "1.2.3").is_none());
}
