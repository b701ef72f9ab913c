//! The shell integrations.
use aishell::cli::Shell;
use aishell::shell::{init_script, powershell_string_expression};

#[test]
fn bash_uses_ai_only_for_an_empty_buffer() {
    let script = init_script(Shell::Bash).unwrap();
    assert!(script.contains("__aishell_prompt_prefix='# 🤖 AI Prompt › '"));
    assert!(script.contains("if [[ -n $line ]]"));
    assert!(script.contains("__aishell_bind_tab_fallback complete"));
    assert!(script.contains("command ai --shell bash -- \"$request\" >\"$output_file\""));
    assert!(script.contains("READLINE_LINE=$generated"));
    assert!(script.contains("READLINE_POINT=${#READLINE_LINE}"));
    assert!(script.contains("__aishell_accept_or_generate"));
    assert!(script.contains("✨ Crafting command…"));
    assert!(script.contains("spinner_frames=( ⠋ ⠙ ⠹ ⠸ ⠼ ⠴ ⠦ ⠧ ⠇ ⠏ )"));
    assert!(script.contains("command sleep 0.08"));
    assert!(script.contains("exec {diagnostic_fd}<\"$error_file\""));
    assert!(script.contains("read -r diagnostic_line <&\"$diagnostic_fd\""));
    assert!(script.contains("aishell.bash.output.XXXXXXXX"));
    assert!(script.contains("aishell.bash.error.XXXXXXXX"));
    assert!(!script.contains("{{"));
    assert!(script.contains("AISHELL_SESSION_ID=\"bash-$$-$RANDOM-$RANDOM\""));
    assert!(!script.contains("compgen"));
    assert!(!script.contains("command stty"));
}

#[test]
fn zsh_uses_ai_only_for_an_empty_buffer() {
    let script = init_script(Shell::Zsh).unwrap();
    assert!(script.contains("if [[ -n $BUFFER ]]"));
    assert!(script.contains("zle expand-or-complete"));
    assert!(script.contains("PROMPT='🤖 AI Prompt › '"));
    assert!(script.contains("zle recursive-edit"));
    assert!(script.contains("zle .send-break"));
    assert!(script.contains("zle -A accept-line __aishell_saved_accept_line"));
    assert!(script.contains("zle -A __aishell_saved_accept_line accept-line"));
    assert!(script.contains("command ai --shell zsh -- \"$request\" >\"$output_file\""));
    assert!(script.contains("BUFFER=$generated"));
    assert!(script.contains("CURSOR=${#BUFFER}"));
    assert!(script.contains("BUFFER=\"${spinner_frames[spinner_index]} ✨ Crafting command…\""));
    assert!(script.contains("command sleep 0.08"));
    assert!(script.contains("exec {diagnostic_fd}<\"$error_file\""));
    assert!(script.contains("read -r diagnostic_line <&\"$diagnostic_fd\""));
    assert!(script.contains("unsetopt MONITOR NOTIFY"));
    assert!(script.contains("aishell.zsh.output.XXXXXXXX"));
    assert!(script.contains("aishell.zsh.error.XXXXXXXX"));
    assert!(script.contains("AISHELL_SESSION_ID=\"zsh-$$-$RANDOM-$RANDOM\""));
    assert!(script.contains("bindkey -M $__aishell_keymap '^I' __aishell_tab"));
    assert!(!script.contains("${(k)commands}"));
    assert!(!script.contains("zle -R '✨ Crafting command…'"));
    assert!(!script.contains("\n    POSTDISPLAY="));
    assert!(!script.contains("{{"));
}

#[test]
fn powershell_uses_psreadline_without_executing_generated_commands() {
    let script = init_script(Shell::Pwsh).unwrap();
    assert!(script.contains("Import-Module PSReadLine -MinimumVersion 2.0"));
    assert!(script.is_ascii());
    assert!(script.contains("[char]::ConvertFromUtf32(0x1F916)"));
    assert!(script.contains("[char]0x203A"));
    assert!(script.contains("$global:__AishellPromptPrefix = '# ' + ("));
    assert!(script.contains("$global:__AishellThinking = ([char]0x2728)"));
    assert!(script.contains("$global:__AishellError = ([char]0x2717)"));
    assert!(script.contains("GetBufferState([ref]$line, [ref]$cursor)"));
    assert!(script.contains("::Replace(0, $line.Length, $Text)"));
    assert!(script.contains("::TabCompleteNext()"));
    assert!(script.contains("::ViTabCompleteNext()"));
    assert!(script.contains("::AcceptLine()"));
    assert!(script.contains("--shell powershell --stdin"));
    assert!(script.contains("RedirectStandardInput = $true"));
    assert!(script.contains("$process.StandardInput.BaseStream.Write($requestBytes"));
    assert!(script.contains("$process.WaitForExit(80)"));
    assert!(script.contains("$process.StandardError.ReadLineAsync()"));
    assert!(script.contains("Write-AishellErrorLine $diagnosticLine"));
    assert!(script.contains("::Insert($generated)"));
    assert!(script.contains("[Console]::OutputEncoding = $global:__AishellUtf8Encoding"));
    assert!(script.contains("[Console]::OutputEncoding = $previousEncoding"));
    assert!(script.contains("function global:Write-AishellErrorLine"));
    assert!(script.contains("$PSVersionTable.PSEdition -eq 'Desktop'"));
    assert!(script.contains("[Microsoft.PowerShell.PSConsoleReadLine]::InvokePrompt()"));
    assert!(!script.contains("Invoke-Expression"));
    assert!(!script.contains(
        "::AcceptLine()\n        [Microsoft.PowerShell.PSConsoleReadLine]::Insert($generated)"
    ));
    assert!(script.contains("([char]0x280B), ([char]0x2819), ([char]0x2839)"));
    assert!(script.contains("AISHELL_SESSION_ID = \"powershell-$PID-"));
    assert!(!script.contains("{{"));
}

#[test]
fn cmd_has_no_native_init_script() {
    assert!(init_script(Shell::Cmd).is_err());
    assert_eq!(
        init_script(Shell::Cmd).unwrap_err().message(),
        "cmd.exe does not support programmable edit-buffer integration"
    );
}

#[test]
fn powershell_expressions_put_texts_together_from_ascii() {
    assert_eq!(powershell_string_expression(""), "''");
    assert_eq!(powershell_string_expression("it's"), "'it''s'");
    assert_eq!(powershell_string_expression("é"), "([char]0x00E9)");
    assert_eq!(
        powershell_string_expression("🤖 AI ›"),
        "([char]::ConvertFromUtf32(0x1F916)) + ' AI ' + ([char]0x203A)"
    );
    assert!(powershell_string_expression("naïve 🗄 'text'").is_ascii());
    assert_eq!(powershell_string_expression("'"), "''''");
    assert_ne!(powershell_string_expression("+"), powershell_string_expression(" + "));
}
