//! The command line.
use aishell::cli::{parse, Action, PromptSource, Shell, HELP};

fn args(values: &[&str]) -> Vec<Option<String>> {
    values.iter().map(|value| Some((*value).to_owned())).collect()
}

#[test]
fn parses_a_plain_prompt() {
    assert_eq!(
        parse(args(&["run", "qemu", "with", "disk.vdi"])).unwrap(),
        Action::Generate {
            shell: None,
            prompt: PromptSource::Argument("run qemu with disk.vdi".into()),
        }
    );
}

#[test]
fn parses_the_shell_widget_form() {
    assert_eq!(
        parse(args(&["--shell", "zsh", "--", "show files"])).unwrap(),
        Action::Generate {
            shell: Some(Shell::Zsh),
            prompt: PromptSource::Argument("show files".into()),
        }
    );
}

#[test]
fn only_exact_management_commands_are_reserved() {
    assert_eq!(
        parse(args(&["setup", "a", "development", "environment"])).unwrap(),
        Action::Generate {
            shell: None,
            prompt: PromptSource::Argument("setup a development environment".into()),
        }
    );
}

#[test]
fn requests_an_interactive_prompt_when_no_description_is_given() {
    assert_eq!(
        parse(args(&[])).unwrap(),
        Action::Generate { shell: None, prompt: PromptSource::Interactive }
    );
    assert_eq!(
        parse(args(&["--shell", "bash"])).unwrap(),
        Action::Generate { shell: Some(Shell::Bash), prompt: PromptSource::Interactive }
    );
}

#[test]
fn parses_windows_shells_and_stdin_prompts() {
    assert_eq!(parse(args(&["init", "powershell"])).unwrap(), Action::Init(Shell::Pwsh));
    assert_eq!(
        parse(args(&["--shell", "powershell", "--stdin"])).unwrap(),
        Action::Generate { shell: Some(Shell::Pwsh), prompt: PromptSource::Stdin }
    );
    assert_eq!(
        parse(args(&["--shell", "cmd", "--", "show", "files"])).unwrap(),
        Action::Generate {
            shell: Some(Shell::Cmd),
            prompt: PromptSource::Argument("show files".into()),
        }
    );
    assert_eq!(
        parse(args(&["--", "--stdin"])).unwrap(),
        Action::Generate {
            shell: None,
            prompt: PromptSource::Argument("--stdin".into()),
        }
    );
}

#[test]
fn cmd_does_not_claim_native_edit_buffer_integration() {
    let error = parse(args(&["init", "cmd"])).unwrap_err();
    assert!(error.message().contains("does not expose programmable edit-buffer integration"));
}

#[test]
fn parses_context_management_commands() {
    assert_eq!(parse(args(&["context", "path"])).unwrap(), Action::ContextPath);
    assert_eq!(parse(args(&["context", "show"])).unwrap(), Action::ContextShow);
    assert_eq!(parse(args(&["context", "clear"])).unwrap(), Action::ContextClear);
}

#[test]
fn parses_the_other_management_commands() {
    assert_eq!(parse(args(&["setup"])).unwrap(), Action::Setup);
    assert_eq!(parse(args(&["config", "path"])).unwrap(), Action::ConfigPath);
    assert_eq!(parse(args(&["config", "show"])).unwrap(), Action::ConfigShow);
    assert_eq!(parse(args(&["config", "check"])).unwrap(), Action::ConfigCheck);
    assert_eq!(parse(args(&["logs"])).unwrap(), Action::Logs);
    assert_eq!(parse(args(&["--help"])).unwrap(), Action::Help);
    assert_eq!(parse(args(&["--version"])).unwrap(), Action::Version);
}

#[test]
fn a_separator_protects_management_commands() {
    assert_eq!(
        parse(args(&["--", "setup"])).unwrap(),
        Action::Generate { shell: None, prompt: PromptSource::Argument("setup".into()) }
    );
    assert_eq!(
        parse(args(&["--", "logs"])).unwrap(),
        Action::Generate { shell: None, prompt: PromptSource::Argument("logs".into()) }
    );
}

#[test]
fn refuses_arguments_that_are_no_text() {
    assert!(parse(vec![Some("show".to_owned()), None]).is_err());
}

#[test]
fn refuses_unknown_shells() {
    assert!(parse(args(&["--shell", "fish", "--", "show files"])).is_err());
    assert!(parse(args(&["init", "fish"])).is_err());
    assert_eq!(
        Shell::parse("fi\"sh").unwrap_err().message(),
        "unsupported shell \"fi\\\"sh\"; expected bash, zsh, powershell, or cmd"
    );
}

#[test]
fn a_flag_without_a_value_is_a_description() {
    assert_eq!(
        parse(args(&["--shell"])).unwrap(),
        Action::Generate { shell: None, prompt: PromptSource::Argument("--shell".into()) }
    );
    assert!(parse(args(&["--", " "])).is_err());
}

#[test]
fn shell_names_are_read_back() {
    for shell in [Shell::Bash, Shell::Zsh, Shell::Pwsh, Shell::Cmd] {
        assert_eq!(Shell::parse(shell.as_str()).unwrap(), shell);
    }
}

#[test]
fn help_names_every_management_command() {
    for usage in ["ai setup", "ai config path|show|check", "ai context path|show|clear", "ai logs"] {
        assert!(HELP.contains(usage));
    }
}
