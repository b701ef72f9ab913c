//! The shell code that `ai init` prints.
use vstd::prelude::*;

use crate::cli::Shell;
use crate::error::{text_outcome, Error};
use crate::number::{digit, digits, in_base, pad_zeros, zero_padded};
use crate::pieces::{
    join_all, joined, lemma_word_length, occurrences_are_replaced, replace, replaced, separates,
    word_length, words, words_of, Separator,
};
use crate::text::{begins, chars_of, is_ascii_char, join3, stands_at, string_of, texts};
use crate::ui;

verus! {

// ---------------------------------------------------------------------------
// Templates.

// Bash cannot invoke its normal completion or accept-line widgets from a
// `bind -x` function. The key macros therefore run the AI hook first, followed
// by a dynamically selected built-in/no-op binding.
/// The integration of Bash, with placeholders for the labels.
pub const BASH_INIT: &'static str = r#"# Keep related requests in one private conversation without writing into the
# working directory. A newly started interactive shell receives a new ID.
if [[ ${AISHELL_SESSION_OWNER_PID-} != "$$" ]]; then
    AISHELL_SESSION_OWNER_PID=$$
    AISHELL_SESSION_ID="bash-$$-$RANDOM-$RANDOM"
    export AISHELL_SESSION_OWNER_PID AISHELL_SESSION_ID
fi

__aishell_prompt_prefix='# {{AI_PROMPT}}'

__aishell_bind_tab_fallback() {
    local binding=$1
    if [[ $binding == complete ]]; then
        bind -m emacs-standard '"\C-x\C-z": complete'
        bind -m vi-insert '"\C-x\C-z": complete'
    else
        bind -m emacs-standard '"\C-x\C-z": ""'
        bind -m vi-insert '"\C-x\C-z": ""'
    fi
}

__aishell_bind_accept_fallback() {
    local binding=$1
    if [[ $binding == accept ]]; then
        bind -m emacs-standard '"\C-x\C-y": accept-line'
        bind -m vi-insert '"\C-x\C-y": accept-line'
    else
        bind -m emacs-standard '"\C-x\C-y": ""'
        bind -m vi-insert '"\C-x\C-y": ""'
    fi
}

__aishell_generate() {
    local request=${READLINE_LINE#"$__aishell_prompt_prefix"}
    local generated output_file error_file
    local -a spinner_frames=( {{SPINNER_FRAMES}} )
    local -i generation_status spinner_index=0

    # Keep the safe comment prompt in place until there is a real request.
    if [[ -z ${request//[[:space:]]/} ]]; then
        return
    fi

    if ! output_file=$(mktemp "${TMPDIR:-/tmp}/aishell.bash.output.XXXXXXXX"); then
        printf '\r\033[2K{{ERROR}} Could not create a temporary diagnostics file\n' >&2
        return
    fi
    if ! error_file=$(mktemp "${TMPDIR:-/tmp}/aishell.bash.error.XXXXXXXX"); then
        command rm -f -- "$output_file"
        printf '\r\033[2K{{ERROR}} Could not create a temporary diagnostics file\n' >&2
        return
    fi

    # Keep stdout isolated for the editable command. Stream complete stderr
    # lines so the risk message remains visible above the generated command.
    # The foreground subshell owns the background request, keeping Bash job
    # notices hidden and ensuring an interrupt also terminates the generator.
    (
        local generation_pid diagnostic_fd diagnostic_line
        local -i diagnostics_visible=0
        trap 'kill "$generation_pid" 2>/dev/null; wait "$generation_pid" 2>/dev/null; exit 130' INT TERM HUP
        exec {diagnostic_fd}<"$error_file"
        command ai --shell bash -- "$request" >"$output_file" 2>"$error_file" &
        generation_pid=$!
        while kill -0 "$generation_pid" 2>/dev/null; do
            while IFS= read -r diagnostic_line <&"$diagnostic_fd"; do
                if (( diagnostics_visible == 0 )); then
                    printf '\r\033[2K' >&2
                fi
                printf '%s\n' "$diagnostic_line" >&2
                diagnostics_visible=1
            done
            if (( diagnostics_visible == 0 )); then
                printf '\r\033[2K%s {{THINKING}}' "${spinner_frames[spinner_index]}" >&2
                (( spinner_index = (spinner_index + 1) % ${#spinner_frames[@]} ))
            fi
            command sleep 0.08
        done
        wait "$generation_pid"
        generation_status=$?
        while IFS= read -r diagnostic_line <&"$diagnostic_fd"; do
            if (( diagnostics_visible == 0 )); then
                printf '\r\033[2K' >&2
            fi
            printf '%s\n' "$diagnostic_line" >&2
            diagnostics_visible=1
        done
        exec {diagnostic_fd}<&-
        exit "$generation_status"
    )
    generation_status=$?
    generated=$(<"$output_file")
    command rm -f -- "$output_file" "$error_file"
    printf '\r\033[2K' >&2

    if (( generation_status == 0 )); then
        if [[ -n $generated ]]; then
            READLINE_LINE=$generated
            READLINE_POINT=${#READLINE_LINE}
        else
            READLINE_LINE=
            READLINE_POINT=0
        fi
    else
        printf '{{ERROR}} Generation failed; request kept for editing\n' >&2
    fi
}

__aishell_tab() {
    local line=${READLINE_LINE-}

    if [[ $line == "$__aishell_prompt_prefix"* ]]; then
        __aishell_generate
        __aishell_bind_tab_fallback noop
        return
    fi

    # Any other content belongs to the shell, with no command-vs-language
    # guessing. Only a completely empty line enters the AI prompt.
    if [[ -n $line ]]; then
        __aishell_bind_tab_fallback complete
        return
    fi

    # The prefix is a shell comment, so it remains harmless even if another
    # Readline customization bypasses the accept hook below.
    READLINE_LINE=$__aishell_prompt_prefix
    READLINE_POINT=${#READLINE_LINE}
    __aishell_bind_tab_fallback noop
}

__aishell_accept_or_generate() {
    if [[ ${READLINE_LINE-} == "$__aishell_prompt_prefix"* ]]; then
        __aishell_generate
        # Leave the generated command in Readline for review.
        __aishell_bind_accept_fallback noop
    else
        __aishell_bind_accept_fallback accept
    fi
}

bind -m emacs-standard -x '"\C-x\C-a":__aishell_tab'
bind -m vi-insert -x '"\C-x\C-a":__aishell_tab'
bind -m emacs-standard '"\C-i":"\C-x\C-a\C-x\C-z"'
bind -m vi-insert '"\C-i":"\C-x\C-a\C-x\C-z"'
bind -m emacs-standard -x '"\C-x\C-e":__aishell_accept_or_generate'
bind -m vi-insert -x '"\C-x\C-e":__aishell_accept_or_generate'
bind -m emacs-standard '"\C-m":"\C-x\C-e\C-x\C-y"'
bind -m vi-insert '"\C-m":"\C-x\C-e\C-x\C-y"'
bind -m emacs-standard '"\C-j":"\C-x\C-e\C-x\C-y"'
bind -m vi-insert '"\C-j":"\C-x\C-e\C-x\C-y"'
"#;

/// The integration of Zsh, with placeholders for the labels.
pub const ZSH_INIT: &'static str = r#"# Re-sourcing the integration keeps this shell's context; a child shell gets a
# distinct conversation even though it inherits the environment.
if [[ ${AISHELL_SESSION_OWNER_PID-} != $$ ]]; then
    typeset -gx AISHELL_SESSION_OWNER_PID=$$
    typeset -gx AISHELL_SESSION_ID="zsh-$$-$RANDOM-$RANDOM"
fi

__aishell_submit_prompt() {
    typeset -g __aishell_prompt_submitted=1
    # Leave the recursive editor without accepting a shell command or adding a
    # new terminal line. The outer widget owns the request and final buffer.
    zle .send-break
}

__aishell_tab() {
    emulate -L zsh
    # Background generation is private widget work, not a user-visible job.
    unsetopt MONITOR NOTIFY
    setopt LOCAL_TRAPS
    local generated request output_file error_file generation_pid diagnostic_fd diagnostic_line
    local original_prompt=$PROMPT
    local original_rprompt=$RPROMPT
    local -a spinner_frames=( {{SPINNER_FRAMES}} )
    local -i generation_status spinner_index=1 diagnostics_visible=0

    # During the recursive prompt, Tab must not recursively open another one.
    if (( __aishell_prompt_active )); then
        __aishell_submit_prompt
        return
    fi

    # Any content belongs to ZLE, with no command-vs-language guessing.
    if [[ -n $BUFFER ]]; then
        zle expand-or-complete
        return
    fi

    # A recursive edit gives the request its own prompt without executing the
    # natural-language buffer when Enter is pressed.
    PROMPT='{{AI_PROMPT}}'
    RPROMPT=
    typeset -g __aishell_prompt_active=1
    typeset -g __aishell_prompt_submitted=0
    # Enter should submit the recursive AI editor without accepting its text as
    # a shell command. Preserve any existing themed accept-line widget.
    zle -A accept-line __aishell_saved_accept_line
    zle -N accept-line __aishell_submit_prompt
    zle reset-prompt
    zle recursive-edit
    zle -A __aishell_saved_accept_line accept-line
    zle -D __aishell_saved_accept_line
    typeset -g __aishell_prompt_active=0
    request=$BUFFER
    BUFFER=
    CURSOR=0

    if (( ! __aishell_prompt_submitted )) || [[ -z ${request//[[:space:]]/} ]]; then
        PROMPT=$original_prompt
        RPROMPT=$original_rprompt
        zle reset-prompt
        return
    fi

    # Put the status in ZLE's real buffer so its cursor sits after the text;
    # POSTDISPLAY would leave the cursor blinking underneath the emoji.
    PROMPT=
    RPROMPT=
    zle reset-prompt
    if ! output_file=$(mktemp "${TMPDIR:-/tmp}/aishell.zsh.output.XXXXXXXX"); then
        BUFFER=
        CURSOR=0
        PROMPT=$original_prompt
        RPROMPT=$original_rprompt
        zle reset-prompt
        zle -M '{{ERROR}} Could not create a temporary diagnostics file'
        return
    fi
    if ! error_file=$(mktemp "${TMPDIR:-/tmp}/aishell.zsh.error.XXXXXXXX"); then
        command rm -f -- "$output_file"
        BUFFER=
        CURSOR=0
        PROMPT=$original_prompt
        RPROMPT=$original_rprompt
        zle reset-prompt
        zle -M '{{ERROR}} Could not create a temporary diagnostics file'
        return
    fi

    exec {diagnostic_fd}<"$error_file"
    command ai --shell zsh -- "$request" >"$output_file" 2>"$error_file" &
    generation_pid=$!
    trap 'kill "$generation_pid" 2>/dev/null' INT TERM HUP
    while kill -0 "$generation_pid" 2>/dev/null; do
        while IFS= read -r diagnostic_line <&"$diagnostic_fd"; do
            if (( diagnostics_visible == 0 )); then
                BUFFER=
                CURSOR=0
                zle -R
            fi
            printf '%s\n' "$diagnostic_line" >&2
            diagnostics_visible=1
        done
        if (( diagnostics_visible == 0 )); then
            BUFFER="${spinner_frames[spinner_index]} {{THINKING}}"
            CURSOR=${#BUFFER}
            zle -R
            (( spinner_index = spinner_index % ${#spinner_frames} + 1 ))
        fi
        command sleep 0.08
    done
    wait "$generation_pid"
    generation_status=$?
    while IFS= read -r diagnostic_line <&"$diagnostic_fd"; do
        if (( diagnostics_visible == 0 )); then
            BUFFER=
            CURSOR=0
            zle -R
        fi
        printf '%s\n' "$diagnostic_line" >&2
        diagnostics_visible=1
    done
    exec {diagnostic_fd}<&-
    generated=$(<"$output_file")
    command rm -f -- "$output_file" "$error_file"

    BUFFER=
    CURSOR=0
    if (( generation_status == 0 )); then
        if [[ -n $generated ]]; then
            BUFFER=$generated
            CURSOR=${#BUFFER}
        fi
    fi
    PROMPT=$original_prompt
    RPROMPT=$original_rprompt
    zle reset-prompt
    if (( generation_status != 0 )); then
        zle -M '{{ERROR}} Generation failed'
    fi
}

typeset -gi __aishell_prompt_active=0
typeset -gi __aishell_prompt_submitted=0
zle -N __aishell_tab
zle -N __aishell_submit_prompt
for __aishell_keymap in emacs viins; do
    bindkey -M $__aishell_keymap '^I' __aishell_tab
done
unset __aishell_keymap
"#;

/// The integration of PowerShell, with placeholders for the labels.
pub const POWERSHELL_INIT: &'static str = r#"# Keep related requests in one private conversation without writing into the
# working directory. A newly started PowerShell process receives a new ID.
if ($env:AISHELL_SESSION_OWNER_PID -ne [string]$PID) {
    $env:AISHELL_SESSION_OWNER_PID = [string]$PID
    $env:AISHELL_SESSION_ID = "powershell-$PID-$([Guid]::NewGuid().ToString('N'))"
}

Import-Module PSReadLine -MinimumVersion 2.0 -ErrorAction Stop

$global:__AishellPromptPrefix = '# ' + ({{POWERSHELL_AI_PROMPT}})
$global:__AishellThinking = {{POWERSHELL_THINKING}}
$global:__AishellError = {{POWERSHELL_ERROR}}
$global:__AishellSpinnerFrames = @({{POWERSHELL_SPINNER_FRAMES}})
$global:__AishellUtf8Encoding = New-Object System.Text.UTF8Encoding -ArgumentList $false

function global:Invoke-AishellUtf8Console {
    param([scriptblock]$Action)

    if ($PSVersionTable.PSEdition -ne 'Desktop') {
        & $Action
        return
    }

    $previousEncoding = [Console]::OutputEncoding
    try {
        [Console]::OutputEncoding = $global:__AishellUtf8Encoding
        & $Action
    }
    finally {
        [Console]::OutputEncoding = $previousEncoding
    }
}

function global:Set-AishellBuffer {
    param([string]$Text = '')

    $line = $null
    [int]$cursor = 0
    [Microsoft.PowerShell.PSConsoleReadLine]::GetBufferState([ref]$line, [ref]$cursor)
    Invoke-AishellUtf8Console {
        [Microsoft.PowerShell.PSConsoleReadLine]::Replace(0, $line.Length, $Text)
    }
}

function global:Write-AishellErrorLine {
    param([AllowEmptyString()][string]$Message = '')

    Invoke-AishellUtf8Console {
        [Console]::Error.WriteLine($Message)
    }
}

function global:Write-AishellDiagnostics {
    param([string]$Message)

    if ([string]::IsNullOrWhiteSpace($Message)) {
        return
    }
    Write-AishellErrorLine
    Write-AishellErrorLine ($Message.TrimEnd([char[]]@("`r", "`n")))
    [Microsoft.PowerShell.PSConsoleReadLine]::InvokePrompt()
}

function global:Invoke-AishellGeneration {
    param([string]$Line)

    $request = $Line.Substring($global:__AishellPromptPrefix.Length)
    if ([string]::IsNullOrWhiteSpace($request)) {
        return
    }

    $process = $null
    $started = $false
    $generated = ''
    $diagnostics = ''
    $diagnosticsVisible = $false
    [int]$generationStatus = 1

    try {
        $aiCommand = Get-Command ai -CommandType Application -ErrorAction Stop | Select-Object -First 1
        $location = Get-Location
        if ($location.Provider.Name -ne 'FileSystem') {
            throw 'aishell requires a filesystem working directory'
        }

        $utf8 = New-Object System.Text.UTF8Encoding -ArgumentList $false
        $startInfo = New-Object System.Diagnostics.ProcessStartInfo
        $startInfo.FileName = $aiCommand.Path
        $startInfo.Arguments = '--shell powershell --stdin'
        $startInfo.WorkingDirectory = $location.ProviderPath
        $startInfo.UseShellExecute = $false
        $startInfo.CreateNoWindow = $true
        $startInfo.RedirectStandardInput = $true
        $startInfo.RedirectStandardOutput = $true
        $startInfo.RedirectStandardError = $true
        $startInfo.StandardOutputEncoding = $utf8
        $startInfo.StandardErrorEncoding = $utf8

        $process = New-Object System.Diagnostics.Process
        $process.StartInfo = $startInfo
        if (-not $process.Start()) {
            throw 'could not start ai.exe'
        }
        $started = $true
        $stdoutTask = $process.StandardOutput.ReadToEndAsync()
        $stderrLineTask = $process.StandardError.ReadLineAsync()
        $requestBytes = $utf8.GetBytes($request)
        $process.StandardInput.BaseStream.Write($requestBytes, 0, $requestBytes.Length)
        $process.StandardInput.BaseStream.Flush()
        $process.StandardInput.Close()

        [int]$spinnerIndex = 0
        do {
            while ($stderrLineTask.IsCompleted) {
                $diagnosticLine = $stderrLineTask.Result
                if ($null -eq $diagnosticLine) {
                    break
                }
                if (-not $diagnosticsVisible) {
                    Set-AishellBuffer
                    Write-AishellErrorLine
                }
                Write-AishellErrorLine $diagnosticLine
                $diagnosticsVisible = $true
                $stderrLineTask = $process.StandardError.ReadLineAsync()
            }
            if (-not $diagnosticsVisible) {
                Set-AishellBuffer ("{0} {1}" -f $global:__AishellSpinnerFrames[$spinnerIndex], $global:__AishellThinking)
                $spinnerIndex = ($spinnerIndex + 1) % $global:__AishellSpinnerFrames.Count
            }
            $finished = $process.WaitForExit(80)
        } while (-not $finished)

        $process.WaitForExit()
        while ($null -ne $stderrLineTask) {
            $diagnosticLine = $stderrLineTask.Result
            if ($null -eq $diagnosticLine) {
                break
            }
            if (-not $diagnosticsVisible) {
                Set-AishellBuffer
                Write-AishellErrorLine
            }
            Write-AishellErrorLine $diagnosticLine
            $diagnosticsVisible = $true
            $stderrLineTask = $process.StandardError.ReadLineAsync()
        }
        $generated = $stdoutTask.Result.TrimEnd([char[]]@("`r", "`n"))
        $generationStatus = $process.ExitCode
    }
    catch {
        $diagnostics = $_.Exception.Message
    }
    finally {
        if ($started -and -not $process.HasExited) {
            try {
                $process.Kill()
                $process.WaitForExit()
            }
            catch {
            }
        }
        if ($null -ne $process) {
            $process.Dispose()
        }
    }

    [Microsoft.PowerShell.PSConsoleReadLine]::RevertLine()
    if ($generationStatus -eq 0) {
        if (-not [string]::IsNullOrEmpty($generated)) {
            [Microsoft.PowerShell.PSConsoleReadLine]::Insert($generated)
        }
    }
    else {
        [Microsoft.PowerShell.PSConsoleReadLine]::Insert($Line)
        if ($diagnosticsVisible) {
            $diagnostics = $global:__AishellError + ' Generation failed; request kept for editing'
        }
        elseif (-not [string]::IsNullOrWhiteSpace($diagnostics)) {
            $diagnostics += "`n"
            $diagnostics += $global:__AishellError + ' Generation failed; request kept for editing'
        }
        else {
            $diagnostics = $global:__AishellError + ' Generation failed; request kept for editing'
        }
    }
    Write-AishellDiagnostics $diagnostics
}

$global:__AishellTabHandler = {
    param($key, $arg)

    $line = $null
    [int]$cursor = 0
    [Microsoft.PowerShell.PSConsoleReadLine]::GetBufferState([ref]$line, [ref]$cursor)
    if ($line.StartsWith($global:__AishellPromptPrefix, [StringComparison]::Ordinal)) {
        Invoke-AishellGeneration $line
        return
    }
    if ($line.Length -ne 0) {
        if ((Get-PSReadLineOption).EditMode -eq 'Vi') {
            [Microsoft.PowerShell.PSConsoleReadLine]::ViTabCompleteNext()
        }
        else {
            [Microsoft.PowerShell.PSConsoleReadLine]::TabCompleteNext()
        }
        return
    }
    Invoke-AishellUtf8Console {
        [Microsoft.PowerShell.PSConsoleReadLine]::Insert($global:__AishellPromptPrefix)
        # Windows PowerShell 5.1 / PSReadLine 2.0 can render programmatically
        # inserted Unicode as fallback characters until the next keypress
        # forces a complete redraw. InvokePrompt performs it immediately.
        if ($PSVersionTable.PSEdition -eq 'Desktop') {
            [Microsoft.PowerShell.PSConsoleReadLine]::InvokePrompt()
        }
    }
}

$global:__AishellEnterHandler = {
    param($key, $arg)

    $line = $null
    [int]$cursor = 0
    [Microsoft.PowerShell.PSConsoleReadLine]::GetBufferState([ref]$line, [ref]$cursor)
    if ($line.StartsWith($global:__AishellPromptPrefix, [StringComparison]::Ordinal)) {
        Invoke-AishellGeneration $line
    }
    else {
        [Microsoft.PowerShell.PSConsoleReadLine]::AcceptLine()
    }
}

$editMode = (Get-PSReadLineOption).EditMode
if ($editMode -eq 'Vi') {
    Set-PSReadLineKeyHandler -Chord Tab -ViMode Insert -BriefDescription Aishell `
        -Description 'Open or submit the aishell prompt, otherwise complete input' `
        -ScriptBlock $global:__AishellTabHandler
    Set-PSReadLineKeyHandler -Chord Enter -ViMode Insert -BriefDescription AishellAccept `
        -Description 'Submit the aishell prompt, otherwise accept input' `
        -ScriptBlock $global:__AishellEnterHandler
}
else {
    Set-PSReadLineKeyHandler -Chord Tab -BriefDescription Aishell `
        -Description 'Open or submit the aishell prompt, otherwise complete input' `
        -ScriptBlock $global:__AishellTabHandler
    Set-PSReadLineKeyHandler -Chord Enter -BriefDescription AishellAccept `
        -Description 'Submit the aishell prompt, otherwise accept input' `
        -ScriptBlock $global:__AishellEnterHandler
}
Remove-Variable editMode
"#;

// ---------------------------------------------------------------------------
// PowerShell expressions.

/// The number of ASCII characters at the beginning.
pub open spec fn ascii_run(s: Seq<char>) -> nat
    decreases s.len(),
{
    if s.len() == 0 || !is_ascii_char(s[0]) {
        0
    } else {
        1 + ascii_run(s.drop_first())
    }
}

pub proof fn lemma_ascii_run(s: Seq<char>)
    ensures
        ascii_run(s) <= s.len(),
        forall|i: int| 0 <= i < ascii_run(s) ==> is_ascii_char(#[trigger] s[i]),
        s.len() > 0 && is_ascii_char(s[0]) ==> ascii_run(s) > 0,
    decreases s.len(),
{
    if s.len() > 0 && is_ascii_char(s[0]) {
        lemma_ascii_run(s.drop_first());
        assert forall|i: int| 0 <= i < ascii_run(s) implies is_ascii_char(#[trigger] s[i]) by {
            if i > 0 {
                assert(s[i] == s.drop_first()[i - 1]);
            }
        }
    }
}

/// A text in the quotation marks of PowerShell.
pub open spec fn single_quoted(s: Seq<char>) -> Seq<char> {
    "'"@ + replaced(s, "'"@, "''"@) + "'"@
}

/// A character by its number.
pub open spec fn numbered(c: char) -> Seq<char> {
    if c as int <= 0xffff {
        "([char]0x"@ + zero_padded(digits(c as nat, 16), 4) + ")"@
    } else {
        "([char]::ConvertFromUtf32(0x"@ + digits(c as nat, 16) + "))"@
    }
}

/// The parts that a text is put together from: runs of ASCII in quotation marks,
/// and each other character by its number.
pub open spec fn expression_parts(s: Seq<char>) -> Seq<Seq<char>>
    decreases s.len(),
{
    if s.len() == 0 {
        seq![]
    } else if is_ascii_char(s[0]) {
        let n = ascii_run(s) as int;
        proof {
            lemma_ascii_run(s);
        }
        seq![single_quoted(s.take(n))] + expression_parts(s.skip(n))
    } else {
        seq![numbered(s[0])] + expression_parts(s.drop_first())
    }
}

/// A PowerShell expression for a text.
pub open spec fn expression(s: Seq<char>) -> Seq<char> {
    if s.len() == 0 {
        "''"@
    } else {
        joined(expression_parts(s), " + "@)
    }
}

fn is_ascii_code(c: char) -> (r: bool)
    ensures
        r == is_ascii_char(c),
{
    c <= '\u{7f}'
}

fn quote_single(text: &str) -> (r: String)
    ensures
        r@ == single_quoted(text@),
{
    proof {
        reveal_strlit("'");
    }
    join3("'", replace(text, "'", "''").as_str(), "'")
}

fn number_char(c: char) -> (r: String)
    ensures
        r@ == numbered(c),
{
    let code: u32 = c as u32;
    if code <= 0xffff {
        join3("([char]0x", pad_zeros(in_base(code as u128, 16), 4).as_str(), ")")
    } else {
        join3("([char]::ConvertFromUtf32(0x", in_base(code as u128, 16).as_str(), "))")
    }
}

/// A PowerShell expression for a text, in ASCII only. Windows PowerShell may
/// decode the output of a program with another code page, so that a label that
/// stands in the script as it is would be corrupted.
pub fn powershell_string_expression(value: &str) -> (r: String)
    ensures
        r@ == expression(value@),
{
    let chars = chars_of(value);
    let n: usize = chars.len();
    if n == 0 {
        return "''".to_owned();
    }
    let mut parts: Vec<String> = Vec::new();
    let mut start: usize = 0;
    assert(value@.skip(0) =~= value@);
    assert(texts(parts@) + expression_parts(value@) =~= expression_parts(value@));
    while start < n
        invariant
            chars@ == value@,
            n == chars@.len(),
            start <= n,
            expression_parts(value@) == texts(parts@) + expression_parts(
                value@.skip(start as int),
            ),
        decreases n - start,
    {
        let ghost rest = value@.skip(start as int);
        let ghost before = parts@;
        if is_ascii_code(chars[start]) {
            let mut end: usize = start + 1;
            assert(rest.drop_first() =~= value@.skip(end as int));
            while end < n && is_ascii_code(chars[end])
                invariant
                    chars@ == value@,
                    n == chars@.len(),
                    start < end <= n,
                    ascii_run(rest) == (end - start) + ascii_run(value@.skip(end as int)),
                decreases n - end,
            {
                assert(value@.skip(end as int).drop_first() =~= value@.skip(end + 1));
                end = end + 1;
            }
            let run = string_of(&chars, start, end);
            let part = quote_single(run.as_str());
            proof {
                let k = end - start;
                assert(ascii_run(rest) == k);
                assert(run@ =~= rest.take(k));
                assert(rest.skip(k) =~= value@.skip(end as int));
                let tail = expression_parts(value@.skip(end as int));
                assert(texts(before.push(part)) =~= texts(before).push(part@));
                assert(texts(before) + (seq![part@] + tail) =~= texts(before.push(part)) + tail);
            }
            parts.push(part);
            start = end;
        } else {
            let part = number_char(chars[start]);
            proof {
                assert(rest.drop_first() =~= value@.skip(start + 1));
                let tail = expression_parts(value@.skip(start + 1));
                assert(texts(before.push(part)) =~= texts(before).push(part@));
                assert(texts(before) + (seq![part@] + tail) =~= texts(before.push(part)) + tail);
            }
            parts.push(part);
            start = start + 1;
        }
    }
    assert(value@.skip(n as int) =~= seq![]);
    assert(texts(parts@) + expression_parts(value@.skip(n as int)) =~= texts(parts@));
    join_all(&parts, " + ")
}

// ---------------------------------------------------------------------------
// Scripts.

/// PowerShell expressions for the texts of a list.
pub open spec fn expressions(values: Seq<Seq<char>>) -> Seq<Seq<char>> {
    values.map_values(|value: Seq<char>| expression(value))
}

/// A PowerShell list of the frames of the spinner.
pub open spec fn frame_list() -> Seq<char> {
    joined(expressions(words(ui::SPINNER_FRAMES@, Separator::Whitespace)), ", "@)
}

/// A template with the labels in place of the placeholders.
pub open spec fn labelled(template: Seq<char>) -> Seq<char> {
    let s = replaced(template, "{{AI_PROMPT}}"@, ui::AI_PROMPT@);
    let s = replaced(s, "{{THINKING}}"@, ui::THINKING@);
    let s = replaced(s, "{{SPINNER_FRAMES}}"@, ui::SPINNER_FRAMES@);
    let s = replaced(s, "{{POWERSHELL_SPINNER_FRAMES}}"@, frame_list());
    let s = replaced(s, "{{POWERSHELL_AI_PROMPT}}"@, expression(ui::AI_PROMPT@));
    let s = replaced(s, "{{POWERSHELL_THINKING}}"@, expression(ui::THINKING@));
    let s = replaced(s, "{{POWERSHELL_ERROR}}"@, expression(ui::ERROR@));
    replaced(s, "{{ERROR}}"@, ui::ERROR@)
}

/// The shell code of a shell, or why there is none.
pub open spec fn integration(shell: Shell) -> Result<Seq<char>, Seq<char>> {
    match shell {
        Shell::Bash => Ok(labelled(BASH_INIT@)),
        Shell::Zsh => Ok(labelled(ZSH_INIT@)),
        Shell::Pwsh => Ok(labelled(POWERSHELL_INIT@)),
        Shell::Cmd => Err("cmd.exe does not support programmable edit-buffer integration"@),
    }
}

fn list_frames() -> (r: String)
    ensures
        r@ == frame_list(),
{
    let frames = words_of(ui::SPINNER_FRAMES, Separator::Whitespace);
    let ghost all = texts(frames@);
    let mut out: Vec<String> = Vec::new();
    let mut i: usize = 0;
    assert(texts(out@) =~= expressions(all).take(0));
    while i < frames.len()
        invariant
            all == texts(frames@),
            i <= frames@.len(),
            texts(out@) == expressions(all).take(i as int),
        decreases frames@.len() - i,
    {
        let ghost before = out@;
        let part = powershell_string_expression(frames[i].as_str());
        out.push(part);
        assert(texts(out@) =~= texts(before).push(part@));
        assert(expressions(all).take(i + 1) =~= expressions(all).take(i as int).push(
            expressions(all)[i as int],
        ));
        i = i + 1;
    }
    assert(expressions(all).take(all.len() as int) =~= expressions(all));
    join_all(&out, ", ")
}

fn label(template: &str) -> (r: String)
    ensures
        r@ == labelled(template@),
{
    proof {
        reveal_strlit("{{AI_PROMPT}}");
        reveal_strlit("{{THINKING}}");
        reveal_strlit("{{SPINNER_FRAMES}}");
        reveal_strlit("{{POWERSHELL_SPINNER_FRAMES}}");
        reveal_strlit("{{POWERSHELL_AI_PROMPT}}");
        reveal_strlit("{{POWERSHELL_THINKING}}");
        reveal_strlit("{{POWERSHELL_ERROR}}");
        reveal_strlit("{{ERROR}}");
    }
    let s = replace(template, "{{AI_PROMPT}}", ui::AI_PROMPT);
    let s = replace(s.as_str(), "{{THINKING}}", ui::THINKING);
    let s = replace(s.as_str(), "{{SPINNER_FRAMES}}", ui::SPINNER_FRAMES);
    let s = replace(s.as_str(), "{{POWERSHELL_SPINNER_FRAMES}}", list_frames().as_str());
    let s = replace(
        s.as_str(),
        "{{POWERSHELL_AI_PROMPT}}",
        powershell_string_expression(ui::AI_PROMPT).as_str(),
    );
    let s = replace(
        s.as_str(),
        "{{POWERSHELL_THINKING}}",
        powershell_string_expression(ui::THINKING).as_str(),
    );
    let s = replace(
        s.as_str(),
        "{{POWERSHELL_ERROR}}",
        powershell_string_expression(ui::ERROR).as_str(),
    );
    replace(s.as_str(), "{{ERROR}}", ui::ERROR)
}

/// The shell code of a shell.
pub fn init_script(shell: Shell) -> (r: Result<String, Error>)
    ensures
        text_outcome(r) == integration(shell),
{
    match shell {
        Shell::Bash => Ok(label(BASH_INIT)),
        Shell::Zsh => Ok(label(ZSH_INIT)),
        Shell::Pwsh => Ok(label(POWERSHELL_INIT)),
        Shell::Cmd => Err(
            Error::of("cmd.exe does not support programmable edit-buffer integration"),
        ),
    }
}

// ---------------------------------------------------------------------------
// Laws.

/// Whether a text is ASCII.
pub open spec fn is_ascii(s: Seq<char>) -> bool {
    forall|i: int| 0 <= i < s.len() ==> is_ascii_char(#[trigger] s[i])
}

proof fn lemma_ascii_concat(a: Seq<char>, b: Seq<char>)
    requires
        is_ascii(a),
        is_ascii(b),
    ensures
        is_ascii(a + b),
{
    assert forall|i: int| 0 <= i < (a + b).len() implies is_ascii_char(#[trigger] (a + b)[i]) by {
        if i < a.len() {
            assert((a + b)[i] == a[i]);
        } else {
            assert((a + b)[i] == b[i - a.len()]);
        }
    }
}

proof fn lemma_ascii_replaced(s: Seq<char>, from: Seq<char>, to: Seq<char>)
    requires
        is_ascii(s),
        is_ascii(to),
    ensures
        is_ascii(replaced(s, from, to)),
    decreases s.len(),
{
    if s.len() == 0 || from.len() == 0 {
    } else if begins(s, from) {
        lemma_ascii_replaced(s.skip(from.len() as int), from, to);
        lemma_ascii_concat(to, replaced(s.skip(from.len() as int), from, to));
    } else {
        lemma_ascii_replaced(s.drop_first(), from, to);
        lemma_ascii_concat(seq![s[0]], replaced(s.drop_first(), from, to));
    }
}

proof fn lemma_ascii_digits(n: nat)
    ensures
        is_ascii(digits(n, 16)),
    decreases n,
{
    if n >= 16 {
        lemma_ascii_digits(n / 16);
        assert(is_ascii_char(digit((n % 16) as int)));
    }
}

proof fn lemma_ascii_numbered(c: char)
    ensures
        is_ascii(numbered(c)),
{
    let number = digits(c as nat, 16);
    lemma_ascii_digits(c as nat);
    assert(is_ascii(zero_padded(number, 4)));
    reveal_strlit("([char]0x");
    reveal_strlit(")");
    reveal_strlit("([char]::ConvertFromUtf32(0x");
    reveal_strlit("))");
    lemma_ascii_concat("([char]0x"@, zero_padded(number, 4));
    lemma_ascii_concat("([char]0x"@ + zero_padded(number, 4), ")"@);
    lemma_ascii_concat("([char]::ConvertFromUtf32(0x"@, number);
    lemma_ascii_concat("([char]::ConvertFromUtf32(0x"@ + number, "))"@);
}

proof fn lemma_ascii_quoted(s: Seq<char>)
    requires
        is_ascii(s),
    ensures
        is_ascii(single_quoted(s)),
{
    reveal_strlit("'");
    reveal_strlit("''");
    lemma_ascii_replaced(s, "'"@, "''"@);
    lemma_ascii_concat("'"@, replaced(s, "'"@, "''"@));
    lemma_ascii_concat("'"@ + replaced(s, "'"@, "''"@), "'"@);
}

proof fn lemma_ascii_parts(s: Seq<char>)
    ensures
        forall|i: int| 0 <= i < expression_parts(s).len() ==> is_ascii(#[trigger] expression_parts(s)[i]),
    decreases s.len(),
{
    if s.len() == 0 {
    } else if is_ascii_char(s[0]) {
        let n = ascii_run(s) as int;
        lemma_ascii_run(s);
        let run = s.take(n);
        assert forall|i: int| 0 <= i < run.len() implies is_ascii_char(#[trigger] run[i]) by {
            assert(run[i] == s[i]);
        }
        lemma_ascii_quoted(run);
        lemma_ascii_parts(s.skip(n));
        assert forall|i: int| 0 <= i < expression_parts(s).len() implies is_ascii(
            #[trigger] expression_parts(s)[i],
        ) by {
            if i > 0 {
                assert(expression_parts(s)[i] == expression_parts(s.skip(n))[i - 1]);
            }
        }
    } else {
        lemma_ascii_numbered(s[0]);
        lemma_ascii_parts(s.drop_first());
        assert forall|i: int| 0 <= i < expression_parts(s).len() implies is_ascii(
            #[trigger] expression_parts(s)[i],
        ) by {
            if i > 0 {
                assert(expression_parts(s)[i] == expression_parts(s.drop_first())[i - 1]);
            }
        }
    }
}

proof fn lemma_ascii_joined(parts: Seq<Seq<char>>, separator: Seq<char>)
    requires
        forall|i: int| 0 <= i < parts.len() ==> is_ascii(#[trigger] parts[i]),
        is_ascii(separator),
    ensures
        is_ascii(joined(parts, separator)),
    decreases parts.len(),
{
    if parts.len() > 1 {
        lemma_ascii_joined(parts.drop_last(), separator);
        lemma_ascii_concat(joined(parts.drop_last(), separator), separator);
        lemma_ascii_concat(joined(parts.drop_last(), separator) + separator, parts.last());
    }
}

/// The labels of the PowerShell integration are ASCII, whatever they hold.
pub proof fn powershell_expressions_are_ascii(s: Seq<char>)
    ensures
        is_ascii(expression(s)),
{
    reveal_strlit("''");
    reveal_strlit(" + ");
    lemma_ascii_parts(s);
    if s.len() > 0 {
        lemma_ascii_joined(expression_parts(s), " + "@);
    }
}

/// The value of a hexadecimal digit, in upper case.
pub open spec fn hex_digit_value(c: char) -> Option<int> {
    if '0' <= c <= '9' {
        Some(c as int - 48)
    } else if 'A' <= c <= 'F' {
        Some(c as int - 55)
    } else {
        None
    }
}

/// The number of hexadecimal digits at the beginning.
pub open spec fn hex_run(s: Seq<char>) -> nat
    decreases s.len(),
{
    if s.len() == 0 || hex_digit_value(s[0]) is None {
        0
    } else {
        1 + hex_run(s.drop_first())
    }
}

/// The number that hexadecimal digits write.
pub open spec fn hex_number(s: Seq<char>) -> int
    decreases s.len(),
{
    if s.len() == 0 {
        0
    } else {
        16 * hex_number(s.drop_last()) + hex_digit_value(s.last())->0
    }
}

/// What PowerShell reads behind the opening mark of a text in single quotation
/// marks: the text, in which two marks stand for one, and the number of characters
/// up to the closing mark and with it. `None` where no mark closes the text.
pub open spec fn quoted_value(s: Seq<char>) -> Option<(Seq<char>, int)>
    decreases s.len(),
{
    if s.len() == 0 {
        None
    } else if s[0] != '\'' {
        match quoted_value(s.skip(1)) {
            Some((rest, n)) => Some((seq![s[0]] + rest, n + 1)),
            None => None,
        }
    } else if s.len() > 1 && s[1] == '\'' {
        match quoted_value(s.skip(2)) {
            Some((rest, n)) => Some((seq!['\''] + rest, n + 2)),
            None => None,
        }
    } else {
        Some((seq![], 1))
    }
}

/// What PowerShell reads of a hexadecimal number between two texts: the character
/// of that number, and the number of characters in all. `None` where something
/// else stands there.
pub open spec fn numbered_value(s: Seq<char>, opening: Seq<char>, closing: Seq<char>) -> Option<
    (Seq<char>, int),
> {
    if begins(s, opening) {
        let number = s.skip(opening.len() as int);
        let n = hex_run(number) as int;
        if n > 0 && begins(number.skip(n), closing) {
            Some((seq![hex_number(number.take(n)) as char], opening.len() + n + closing.len()))
        } else {
            None
        }
    } else {
        None
    }
}

/// What PowerShell reads at the beginning of an expression: the value of a text in
/// single quotation marks, of a character by its number, or of a call of
/// `ConvertFromUtf32`, and the number of characters that it takes.
pub open spec fn term_value(s: Seq<char>) -> Option<(Seq<char>, int)> {
    if s.len() > 0 && s[0] == '\'' {
        match quoted_value(s.skip(1)) {
            Some((value, n)) => Some((value, n + 1)),
            None => None,
        }
    } else if numbered_value(s, "([char]0x"@, ")"@) is Some {
        numbered_value(s, "([char]0x"@, ")"@)
    } else {
        numbered_value(s, "([char]::ConvertFromUtf32(0x"@, "))"@)
    }
}

/// What PowerShell evaluates a sum of texts and characters to. `None` where
/// something else stands there.
pub open spec fn evaluated(s: Seq<char>) -> Option<Seq<char>>
    decreases s.len(),
{
    match term_value(s) {
        None => None,
        Some((value, n)) => if !(0 < n <= s.len()) {
            None
        } else if n == s.len() {
            Some(value)
        } else if begins(s.skip(n), " + "@) && n + 3 <= s.len() {
            match evaluated(s.skip(n + 3)) {
                Some(rest) => Some(value + rest),
                None => None,
            }
        } else {
            None
        },
    }
}

proof fn lemma_quoted_value(text: Seq<char>, tail: Seq<char>)
    requires
        tail.len() > 0 ==> tail[0] != '\'',
    ensures
        quoted_value(replaced(text, "'"@, "''"@) + "'"@ + tail) == Some(
            (text, replaced(text, "'"@, "''"@).len() as int + 1),
        ),
    decreases text.len(),
{
    reveal_strlit("'");
    reveal_strlit("''");
    let s = replaced(text, "'"@, "''"@) + "'"@ + tail;
    if text.len() == 0 {
        assert(s[0] == '\'');
        assert(s.len() > 1 ==> s[1] == tail[0]);
        assert(text =~= seq![]);
    } else {
        let rest = text.drop_first();
        lemma_quoted_value(rest, tail);
        let behind = replaced(rest, "'"@, "''"@) + "'"@ + tail;
        if begins(text, "'"@) {
            assert(text.take(1)[0] == text[0]);
            assert(text.skip(1) =~= rest);
            assert(s[0] == '\'' && s[1] == '\'');
            assert(s.skip(2) =~= behind);
            assert(seq!['\''] + rest =~= text);
        } else {
            if text[0] == '\'' {
                assert(text.take(1) =~= "'"@);
            }
            assert(s[0] == text[0]);
            assert(s.skip(1) =~= behind);
            assert(seq![text[0]] + rest =~= text);
        }
    }
}

proof fn lemma_hex_run(number: Seq<char>, tail: Seq<char>)
    requires
        forall|i: int| 0 <= i < number.len() ==> hex_digit_value(#[trigger] number[i]) is Some,
        tail.len() > 0 ==> hex_digit_value(tail[0]) is None,
    ensures
        hex_run(number + tail) == number.len(),
    decreases number.len(),
{
    if number.len() > 0 {
        let rest = number.drop_first();
        assert forall|i: int| 0 <= i < rest.len() implies hex_digit_value(
            #[trigger] rest[i],
        ) is Some by {
            assert(rest[i] == number[i + 1]);
        }
        lemma_hex_run(rest, tail);
        assert((number + tail).drop_first() =~= rest + tail);
    } else {
        assert(number + tail =~= tail);
    }
}

proof fn lemma_hex_digits(n: nat)
    ensures
        digits(n, 16).len() > 0,
        forall|i: int|
            0 <= i < digits(n, 16).len() ==> hex_digit_value(#[trigger] digits(n, 16)[i]) is Some,
        hex_number(digits(n, 16)) == n,
    decreases n,
{
    let written = digits(n, 16);
    if n < 16 {
        assert(hex_digit_value(digit(n as int)) == Some(n as int));
        assert(written.drop_last() =~= seq![]);
        assert(hex_number(written.drop_last()) == 0);
    } else {
        lemma_hex_digits(n / 16);
        let front = digits(n / 16, 16);
        let d = (n % 16) as int;
        assert(hex_digit_value(digit(d)) == Some(d));
        assert(written.drop_last() =~= front);
        assert forall|i: int| 0 <= i < written.len() implies hex_digit_value(
            #[trigger] written[i],
        ) is Some by {
            if i < front.len() {
                assert(written[i] == front[i]);
            }
        }
    }
}

proof fn lemma_leading_zeros(zeros: Seq<char>, number: Seq<char>)
    requires
        forall|i: int| 0 <= i < zeros.len() ==> #[trigger] zeros[i] == '0',
    ensures
        hex_number(zeros + number) == hex_number(number),
    decreases zeros.len() + number.len(),
{
    let s = zeros + number;
    if number.len() > 0 {
        lemma_leading_zeros(zeros, number.drop_last());
        assert(s.drop_last() =~= zeros + number.drop_last());
    } else if zeros.len() > 0 {
        lemma_leading_zeros(zeros.drop_last(), number);
        assert(s.drop_last() =~= zeros.drop_last() + number);
    }
}

proof fn lemma_padded_digits(n: nat, width: nat)
    ensures
        zero_padded(digits(n, 16), width).len() > 0,
        forall|i: int|
            0 <= i < zero_padded(digits(n, 16), width).len() ==> hex_digit_value(
                #[trigger] zero_padded(digits(n, 16), width)[i],
            ) is Some,
        hex_number(zero_padded(digits(n, 16), width)) == n,
{
    lemma_hex_digits(n);
    let written = digits(n, 16);
    if written.len() < width {
        let zeros = Seq::new((width - written.len()) as nat, |i: int| '0');
        lemma_leading_zeros(zeros, written);
        assert forall|i: int| 0 <= i < (zeros + written).len() implies hex_digit_value(
            #[trigger] (zeros + written)[i],
        ) is Some by {
            if i >= zeros.len() {
                assert((zeros + written)[i] == written[i - zeros.len()]);
            }
        }
    }
}

proof fn lemma_numbered_value(
    number: Seq<char>,
    c: char,
    opening: Seq<char>,
    closing: Seq<char>,
    tail: Seq<char>,
)
    requires
        number.len() > 0,
        forall|i: int| 0 <= i < number.len() ==> hex_digit_value(#[trigger] number[i]) is Some,
        hex_number(number) == c as int,
        closing.len() > 0,
        closing[0] == ')',
    ensures
        numbered_value(opening + number + closing + tail, opening, closing) == Some(
            (seq![c], (opening + number + closing).len() as int),
        ),
{
    let s = opening + number + closing + tail;
    assert(s.take(opening.len() as int) =~= opening);
    let behind = s.skip(opening.len() as int);
    assert(behind =~= number + (closing + tail));
    lemma_hex_run(number, closing + tail);
    let n = number.len() as int;
    assert(behind.take(n) =~= number);
    assert(behind.skip(n).take(closing.len() as int) =~= closing);
}

/// A part of an expression is read back, whatever follows it.
proof fn lemma_numbered_term(c: char, tail: Seq<char>)
    ensures
        term_value(numbered(c) + tail) == Some((seq![c], numbered(c).len() as int)),
        numbered(c).len() > 0,
{
    reveal_strlit("([char]0x");
    reveal_strlit(")");
    reveal_strlit("([char]::ConvertFromUtf32(0x");
    reveal_strlit("))");
    let s = numbered(c) + tail;
    assert(s[0] == '(');
    if c as int <= 0xffff {
        lemma_padded_digits(c as nat, 4);
        lemma_numbered_value(zero_padded(digits(c as nat, 16), 4), c, "([char]0x"@, ")"@, tail);
    } else {
        lemma_hex_digits(c as nat);
        lemma_numbered_value(
            digits(c as nat, 16),
            c,
            "([char]::ConvertFromUtf32(0x"@,
            "))"@,
            tail,
        );
        assert(s[7] == ':');
        if begins(s, "([char]0x"@) {
            assert(s.take(9)[7] == s[7]);
            assert("([char]0x"@[7] == '0');
        }
    }
}

proof fn lemma_quoted_term(text: Seq<char>, tail: Seq<char>)
    requires
        tail.len() > 0 ==> tail[0] != '\'',
    ensures
        term_value(single_quoted(text) + tail) == Some((text, single_quoted(text).len() as int)),
        single_quoted(text).len() > 0,
{
    reveal_strlit("'");
    let s = single_quoted(text) + tail;
    lemma_quoted_value(text, tail);
    assert(s.skip(1) =~= replaced(text, "'"@, "''"@) + "'"@ + tail);
}

proof fn lemma_joined_front(first: Seq<char>, rest: Seq<Seq<char>>, separator: Seq<char>)
    requires
        rest.len() > 0,
    ensures
        joined(seq![first] + rest, separator) == first + separator + joined(rest, separator),
    decreases rest.len(),
{
    let all = seq![first] + rest;
    assert(all.drop_last() =~= seq![first] + rest.drop_last());
    if rest.len() == 1 {
        assert(all.drop_last() =~= seq![first]);
        assert(joined(all.drop_last(), separator) == first);
    } else {
        lemma_joined_front(first, rest.drop_last(), separator);
        assert(joined(all, separator) =~= first + separator + joined(rest, separator));
    }
}

/// A sum is read back from the value of its first part and from the rest.
proof fn lemma_evaluated(first: Seq<char>, value: Seq<char>, rest: Seq<char>)
    requires
        first.len() > 0,
        term_value(first + " + "@ + rest) == Some((value, first.len() as int)),
        evaluated(rest) is Some,
    ensures
        evaluated(first + " + "@ + rest) == Some(value + evaluated(rest)->0),
{
    reveal_strlit(" + ");
    let s = first + " + "@ + rest;
    assert(s.skip(first.len() as int).take(3) =~= " + "@);
    assert(s.skip(first.len() as int + 3) =~= rest);
}

proof fn lemma_expression_is_evaluated(s: Seq<char>)
    requires
        s.len() > 0,
    ensures
        expression_parts(s).len() > 0,
        evaluated(joined(expression_parts(s), " + "@)) == Some(s),
    decreases s.len(),
{
    reveal_strlit(" + ");
    lemma_ascii_run(s);
    let quoted = is_ascii_char(s[0]);
    let n: int = if quoted {
        ascii_run(s) as int
    } else {
        1
    };
    let value = s.take(n);
    let rest = s.skip(n);
    let first = if quoted {
        single_quoted(value)
    } else {
        numbered(s[0])
    };
    if !quoted {
        assert(value =~= seq![s[0]]);
        assert(rest =~= s.drop_first());
    }
    let parts = expression_parts(rest);
    assert(expression_parts(s) == seq![first] + parts);
    assert(value + rest =~= s);
    if rest.len() == 0 {
        assert(seq![first] + parts =~= seq![first]);
        let none = Seq::<char>::empty();
        if quoted {
            lemma_quoted_term(value, none);
        } else {
            lemma_numbered_term(s[0], none);
        }
        assert(first + none =~= first);
        assert(value =~= s);
    } else {
        lemma_expression_is_evaluated(rest);
        lemma_joined_front(first, parts, " + "@);
        let behind = joined(parts, " + "@);
        let tail = " + "@ + behind;
        assert(tail[0] == ' ');
        if quoted {
            lemma_quoted_term(value, tail);
        } else {
            lemma_numbered_term(s[0], tail);
        }
        assert(first + tail =~= first + " + "@ + behind);
        lemma_evaluated(first, value, behind);
    }
}

/// The expression for a text is evaluated to that text, whatever it holds.
pub proof fn powershell_expressions_are_evaluated(s: Seq<char>)
    ensures
        expression(s).len() > 0,
        evaluated(expression(s)) == Some(s),
{
    if s.len() == 0 {
        reveal_strlit("''");
        let e = "''"@;
        assert(e.skip(1)[0] == '\'');
        assert(quoted_value(e.skip(1)) == Some((Seq::<char>::empty(), 1int)));
        assert(s =~= seq![]);
    } else {
        lemma_expression_is_evaluated(s);
        if expression(s).len() == 0 {
            reveal_strlit("([char]0x");
            reveal_strlit("([char]::ConvertFromUtf32(0x");
            assert(term_value(expression(s)) is None);
        }
    }
}

/// Different texts have different expressions.
pub proof fn powershell_expressions_are_distinct(a: Seq<char>, b: Seq<char>)
    requires
        expression(a) == expression(b),
    ensures
        a == b,
{
    powershell_expressions_are_evaluated(a);
    powershell_expressions_are_evaluated(b);
}

/// CMD has no integration, and every other shell has one.
pub proof fn only_cmd_has_no_integration(shell: Shell)
    ensures
        integration(shell) is Err <==> shell == Shell::Cmd,
{
}

/// Every shell gets its own code, with the labels in it.
pub proof fn shells_get_their_own_code(shell: Shell)
    ensures
        shell == Shell::Bash ==> integration(shell) == Ok::<Seq<char>, Seq<char>>(
            labelled(BASH_INIT@),
        ),
        shell == Shell::Zsh ==> integration(shell) == Ok::<Seq<char>, Seq<char>>(
            labelled(ZSH_INIT@),
        ),
        shell == Shell::Pwsh ==> integration(shell) == Ok::<Seq<char>, Seq<char>>(
            labelled(POWERSHELL_INIT@),
        ),
        shell == Shell::Cmd ==> integration(shell) == Err::<Seq<char>, Seq<char>>(
            "cmd.exe does not support programmable edit-buffer integration"@,
        ),
{
}

/// A text that stands nowhere in another is not replaced in it.
proof fn lemma_not_replaced(s: Seq<char>, from: Seq<char>, to: Seq<char>)
    requires
        forall|i: int| !#[trigger] stands_at(s, from, i),
    ensures
        replaced(s, from, to) == s,
    decreases s.len(),
{
    if s.len() > 0 && from.len() > 0 {
        if begins(s, from) {
            assert(s.subrange(0, from.len() as int) =~= s.take(from.len() as int));
            assert(stands_at(s, from, 0));
        }
        let t = s.drop_first();
        assert forall|i: int| !#[trigger] stands_at(t, from, i) by {
            if stands_at(t, from, i) {
                assert(s.subrange(i + 1, i + 1 + from.len()) =~= t.subrange(i, i + from.len()));
                assert(stands_at(s, from, i + 1));
            }
        }
        lemma_not_replaced(t, from, to);
        assert(seq![s[0]] + t =~= s);
    }
}

/// A placeholder: two braces, and behind them no other.
spec fn is_placeholder(p: Seq<char>) -> bool {
    &&& p.len() > 3
    &&& p[0] == '{'
    &&& p[1] == '{'
    &&& forall|i: int| 2 <= i < p.len() ==> #[trigger] p[i] != '{'
}

/// Whether one placeholder begins another.
spec fn differs(p: Seq<char>, q: Seq<char>) -> bool {
    exists|i: int| 2 <= i < p.len() && i < q.len() && #[trigger] p[i] != q[i]
}

/// Another placeholder is not replaced in code that holds one.
proof fn lemma_other_placeholder(
    front: Seq<char>,
    p: Seq<char>,
    rest: Seq<char>,
    q: Seq<char>,
    to: Seq<char>,
)
    requires
        forall|i: int| 0 <= i < front.len() ==> #[trigger] front[i] != '{',
        forall|i: int| 0 <= i < rest.len() ==> #[trigger] rest[i] != '{',
        is_placeholder(p),
        is_placeholder(q),
        differs(p, q),
    ensures
        replaced(front + p + rest, q, to) == front + p + rest,
{
    let s = front + p + rest;
    let k = front.len() as int;
    assert forall|i: int| !#[trigger] stands_at(s, q, i) by {
        if stands_at(s, q, i) {
            let part = s.subrange(i, i + q.len());
            assert(part[0] == s[i] && part[1] == s[i + 1]);
            if i < k {
                assert(s[i] == front[i]);
            } else if i >= k + p.len() {
                assert(s[i] == rest[i - k - p.len()]);
            } else if i > k {
                assert(s[i] == p[i - k]);
                if i == k + 1 {
                    assert(s[i + 1] == p[2]);
                }
            } else {
                let x = choose|x: int| 2 <= x < p.len() && x < q.len() && #[trigger] p[x] != q[x];
                assert(part[x] == s[k + x]);
                assert(s[k + x] == p[x]);
            }
        }
    }
    lemma_not_replaced(s, q, to);
}

/// Code without braces is not changed by any label.
proof fn lemma_plain_code(code: Seq<char>, q: Seq<char>, to: Seq<char>)
    requires
        forall|i: int| 0 <= i < code.len() ==> #[trigger] code[i] != '{',
        is_placeholder(q),
    ensures
        replaced(code, q, to) == code,
{
    assert forall|i: int| !#[trigger] stands_at(code, q, i) by {
        if stands_at(code, q, i) {
            assert(code.subrange(i, i + q.len())[0] == code[i]);
        }
    }
    lemma_not_replaced(code, q, to);
}

proof fn lemma_placeholders()
    ensures
        is_placeholder("{{AI_PROMPT}}"@) && "{{AI_PROMPT}}"@[2] == 'A',
        is_placeholder("{{THINKING}}"@) && "{{THINKING}}"@[2] == 'T',
        is_placeholder("{{SPINNER_FRAMES}}"@) && "{{SPINNER_FRAMES}}"@[2] == 'S',
        is_placeholder("{{POWERSHELL_SPINNER_FRAMES}}"@) && "{{POWERSHELL_SPINNER_FRAMES}}"@[2]
            == 'P',
        is_placeholder("{{POWERSHELL_AI_PROMPT}}"@) && "{{POWERSHELL_AI_PROMPT}}"@[2] == 'P',
        is_placeholder("{{POWERSHELL_THINKING}}"@) && "{{POWERSHELL_THINKING}}"@[2] == 'P',
        is_placeholder("{{POWERSHELL_ERROR}}"@) && "{{POWERSHELL_ERROR}}"@[2] == 'P',
        is_placeholder("{{ERROR}}"@) && "{{ERROR}}"@[2] == 'E',
        "{{POWERSHELL_SPINNER_FRAMES}}"@[13] == 'S' && "{{POWERSHELL_AI_PROMPT}}"@[13] == 'A',
        "{{POWERSHELL_THINKING}}"@[13] == 'T' && "{{POWERSHELL_ERROR}}"@[13] == 'E',
        "{{POWERSHELL_SPINNER_FRAMES}}"@.len() == 29 && "{{POWERSHELL_AI_PROMPT}}"@.len() == 24,
        "{{POWERSHELL_THINKING}}"@.len() == 23 && "{{POWERSHELL_ERROR}}"@.len() == 20,
{
    reveal_strlit("{{AI_PROMPT}}");
    reveal_strlit("{{THINKING}}");
    reveal_strlit("{{SPINNER_FRAMES}}");
    reveal_strlit("{{POWERSHELL_SPINNER_FRAMES}}");
    reveal_strlit("{{POWERSHELL_AI_PROMPT}}");
    reveal_strlit("{{POWERSHELL_THINKING}}");
    reveal_strlit("{{POWERSHELL_ERROR}}");
    reveal_strlit("{{ERROR}}");
}

proof fn lemma_labels_hold_no_braces()
    ensures
        forall|i: int| 0 <= i < ui::AI_PROMPT@.len() ==> #[trigger] ui::AI_PROMPT@[i] != '{',
        forall|i: int| 0 <= i < ui::THINKING@.len() ==> #[trigger] ui::THINKING@[i] != '{',
        forall|i: int|
            0 <= i < ui::SPINNER_FRAMES@.len() ==> #[trigger] ui::SPINNER_FRAMES@[i] != '{',
        forall|i: int| 0 <= i < ui::ERROR@.len() ==> #[trigger] ui::ERROR@[i] != '{',
{
    reveal_strlit("🤖 AI Prompt › ");
    reveal_strlit("✨ Crafting command…");
    reveal_strlit("⠋ ⠙ ⠹ ⠸ ⠼ ⠴ ⠦ ⠧ ⠇ ⠏");
    reveal_strlit("✗");
}

/// Code with a label in place of a placeholder holds no braces where the code
/// around it holds none.
proof fn lemma_labelled_code(
    front: Seq<char>,
    p: Seq<char>,
    rest: Seq<char>,
    label: Seq<char>,
)
    requires
        forall|i: int| 0 <= i < front.len() ==> #[trigger] front[i] != '{',
        forall|i: int| 0 <= i < rest.len() ==> #[trigger] rest[i] != '{',
        forall|i: int| 0 <= i < label.len() ==> #[trigger] label[i] != '{',
        is_placeholder(p),
    ensures
        replaced(front + p + rest, p, label) == front + label + rest,
        forall|i: int|
            0 <= i < (front + label + rest).len() ==> #[trigger] (front + label + rest)[i] != '{',
{
    occurrences_are_replaced(front, p, label, rest);
    lemma_plain_code(rest, p, label);
    let s = front + label + rest;
    assert forall|i: int| 0 <= i < s.len() implies #[trigger] s[i] != '{' by {
        if i < front.len() {
            assert(s[i] == front[i]);
        } else if i < front.len() + label.len() {
            assert(s[i] == label[i - front.len()]);
        } else {
            assert(s[i] == rest[i - front.len() - label.len()]);
        }
    }
}

/// The shell code shows the labels of the program: each of the plain placeholders
/// gives way to its own label, and code without placeholders stays as it is.
pub proof fn placeholders_give_way_to_their_labels(front: Seq<char>, rest: Seq<char>)
    requires
        forall|i: int| 0 <= i < front.len() ==> #[trigger] front[i] != '{',
        forall|i: int| 0 <= i < rest.len() ==> #[trigger] rest[i] != '{',
    ensures
        labelled(front) == front,
        labelled(front + "{{AI_PROMPT}}"@ + rest) == front + "🤖 AI Prompt › "@ + rest,
        labelled(front + "{{THINKING}}"@ + rest) == front + "✨ Crafting command…"@ + rest,
        labelled(front + "{{ERROR}}"@ + rest) == front + "✗"@ + rest,
{
    lemma_placeholders();
    lemma_labels_hold_no_braces();
    lemma_all_plain(front);
    let prompt = "{{AI_PROMPT}}"@;
    let thinking = "{{THINKING}}"@;
    let error = "{{ERROR}}"@;
    lemma_labelled_code(front, prompt, rest, ui::AI_PROMPT@);
    lemma_all_plain(front + ui::AI_PROMPT@ + rest);
    lemma_labelled_code(front, thinking, rest, ui::THINKING@);
    lemma_all_plain(front + ui::THINKING@ + rest);
    assert(differs(thinking, prompt)) by {
        assert(thinking[2] != prompt[2]);
    }
    lemma_other_placeholder(front, thinking, rest, prompt, ui::AI_PROMPT@);
    lemma_labelled_code(front, error, rest, ui::ERROR@);
    lemma_error_comes_last(front, rest);
}

/// No label changes code without braces.
proof fn lemma_all_plain(code: Seq<char>)
    requires
        forall|i: int| 0 <= i < code.len() ==> #[trigger] code[i] != '{',
    ensures
        labelled(code) == code,
        replaced(code, "{{AI_PROMPT}}"@, ui::AI_PROMPT@) == code,
        replaced(code, "{{THINKING}}"@, ui::THINKING@) == code,
{
    lemma_placeholders();
    lemma_plain_code(code, "{{AI_PROMPT}}"@, ui::AI_PROMPT@);
    lemma_plain_code(code, "{{THINKING}}"@, ui::THINKING@);
    lemma_plain_code(code, "{{SPINNER_FRAMES}}"@, ui::SPINNER_FRAMES@);
    lemma_plain_code(code, "{{POWERSHELL_SPINNER_FRAMES}}"@, frame_list());
    lemma_plain_code(code, "{{POWERSHELL_AI_PROMPT}}"@, expression(ui::AI_PROMPT@));
    lemma_plain_code(code, "{{POWERSHELL_THINKING}}"@, expression(ui::THINKING@));
    lemma_plain_code(code, "{{POWERSHELL_ERROR}}"@, expression(ui::ERROR@));
    lemma_plain_code(code, "{{ERROR}}"@, ui::ERROR@);
}

proof fn lemma_error_comes_last(front: Seq<char>, rest: Seq<char>)
    requires
        forall|i: int| 0 <= i < front.len() ==> #[trigger] front[i] != '{',
        forall|i: int| 0 <= i < rest.len() ==> #[trigger] rest[i] != '{',
    ensures
        labelled(front + "{{ERROR}}"@ + rest) == replaced(
            front + "{{ERROR}}"@ + rest,
            "{{ERROR}}"@,
            ui::ERROR@,
        ),
{
    lemma_placeholders();
    let error = "{{ERROR}}"@;
    assert(differs(error, "{{AI_PROMPT}}"@)) by {
        assert(error[2] != "{{AI_PROMPT}}"@[2]);
    }
    assert(differs(error, "{{THINKING}}"@)) by {
        assert(error[2] != "{{THINKING}}"@[2]);
    }
    assert(differs(error, "{{SPINNER_FRAMES}}"@)) by {
        assert(error[2] != "{{SPINNER_FRAMES}}"@[2]);
    }
    assert(differs(error, "{{POWERSHELL_SPINNER_FRAMES}}"@)) by {
        assert(error[2] != "{{POWERSHELL_SPINNER_FRAMES}}"@[2]);
    }
    assert(differs(error, "{{POWERSHELL_AI_PROMPT}}"@)) by {
        assert(error[2] != "{{POWERSHELL_AI_PROMPT}}"@[2]);
    }
    assert(differs(error, "{{POWERSHELL_THINKING}}"@)) by {
        assert(error[2] != "{{POWERSHELL_THINKING}}"@[2]);
    }
    assert(differs(error, "{{POWERSHELL_ERROR}}"@)) by {
        assert(error[2] != "{{POWERSHELL_ERROR}}"@[2]);
    }
    lemma_other_placeholder(front, error, rest, "{{AI_PROMPT}}"@, ui::AI_PROMPT@);
    lemma_other_placeholder(front, error, rest, "{{THINKING}}"@, ui::THINKING@);
    lemma_other_placeholder(front, error, rest, "{{SPINNER_FRAMES}}"@, ui::SPINNER_FRAMES@);
    lemma_other_placeholder(front, error, rest, "{{POWERSHELL_SPINNER_FRAMES}}"@, frame_list());
    lemma_other_placeholder(
        front,
        error,
        rest,
        "{{POWERSHELL_AI_PROMPT}}"@,
        expression(ui::AI_PROMPT@),
    );
    lemma_other_placeholder(
        front,
        error,
        rest,
        "{{POWERSHELL_THINKING}}"@,
        expression(ui::THINKING@),
    );
    lemma_other_placeholder(front, error, rest, "{{POWERSHELL_ERROR}}"@, expression(ui::ERROR@));
}

/// Whether a text holds no opening brace.
spec fn is_plain(s: Seq<char>) -> bool {
    forall|i: int| 0 <= i < s.len() ==> #[trigger] s[i] != '{'
}

proof fn lemma_plain_concat(a: Seq<char>, b: Seq<char>)
    requires
        is_plain(a),
        is_plain(b),
    ensures
        is_plain(a + b),
{
    assert forall|i: int| 0 <= i < (a + b).len() implies #[trigger] (a + b)[i] != '{' by {
        if i < a.len() {
            assert((a + b)[i] == a[i]);
        } else {
            assert((a + b)[i] == b[i - a.len()]);
        }
    }
}

proof fn lemma_plain_replaced(s: Seq<char>, from: Seq<char>, to: Seq<char>)
    requires
        is_plain(s),
        is_plain(to),
    ensures
        is_plain(replaced(s, from, to)),
    decreases s.len(),
{
    if s.len() == 0 || from.len() == 0 {
    } else if begins(s, from) {
        lemma_plain_replaced(s.skip(from.len() as int), from, to);
        lemma_plain_concat(to, replaced(s.skip(from.len() as int), from, to));
    } else {
        lemma_plain_replaced(s.drop_first(), from, to);
        lemma_plain_concat(seq![s[0]], replaced(s.drop_first(), from, to));
    }
}

proof fn lemma_plain_digits(n: nat)
    ensures
        is_plain(digits(n, 16)),
    decreases n,
{
    if n >= 16 {
        lemma_plain_digits(n / 16);
        assert(digit((n % 16) as int) != '{');
    }
}

proof fn lemma_plain_numbered(c: char)
    ensures
        is_plain(numbered(c)),
{
    let number = digits(c as nat, 16);
    lemma_plain_digits(c as nat);
    assert(is_plain(zero_padded(number, 4)));
    reveal_strlit("([char]0x");
    reveal_strlit(")");
    reveal_strlit("([char]::ConvertFromUtf32(0x");
    reveal_strlit("))");
    lemma_plain_concat("([char]0x"@, zero_padded(number, 4));
    lemma_plain_concat("([char]0x"@ + zero_padded(number, 4), ")"@);
    lemma_plain_concat("([char]::ConvertFromUtf32(0x"@, number);
    lemma_plain_concat("([char]::ConvertFromUtf32(0x"@ + number, "))"@);
}

proof fn lemma_plain_quoted(s: Seq<char>)
    requires
        is_plain(s),
    ensures
        is_plain(single_quoted(s)),
{
    reveal_strlit("'");
    reveal_strlit("''");
    lemma_plain_replaced(s, "'"@, "''"@);
    lemma_plain_concat("'"@, replaced(s, "'"@, "''"@));
    lemma_plain_concat("'"@ + replaced(s, "'"@, "''"@), "'"@);
}

proof fn lemma_plain_parts(s: Seq<char>)
    requires
        is_plain(s),
    ensures
        forall|i: int|
            0 <= i < expression_parts(s).len() ==> is_plain(#[trigger] expression_parts(s)[i]),
    decreases s.len(),
{
    if s.len() == 0 {
    } else if is_ascii_char(s[0]) {
        let n = ascii_run(s) as int;
        lemma_ascii_run(s);
        assert(is_plain(s.take(n)) && is_plain(s.skip(n)));
        lemma_plain_quoted(s.take(n));
        lemma_plain_parts(s.skip(n));
        assert forall|i: int| 0 <= i < expression_parts(s).len() implies is_plain(
            #[trigger] expression_parts(s)[i],
        ) by {
            if i > 0 {
                assert(expression_parts(s)[i] == expression_parts(s.skip(n))[i - 1]);
            }
        }
    } else {
        lemma_plain_numbered(s[0]);
        assert(is_plain(s.drop_first()));
        lemma_plain_parts(s.drop_first());
        assert forall|i: int| 0 <= i < expression_parts(s).len() implies is_plain(
            #[trigger] expression_parts(s)[i],
        ) by {
            if i > 0 {
                assert(expression_parts(s)[i] == expression_parts(s.drop_first())[i - 1]);
            }
        }
    }
}

proof fn lemma_plain_joined(parts: Seq<Seq<char>>, separator: Seq<char>)
    requires
        forall|i: int| 0 <= i < parts.len() ==> is_plain(#[trigger] parts[i]),
        is_plain(separator),
    ensures
        is_plain(joined(parts, separator)),
    decreases parts.len(),
{
    if parts.len() > 1 {
        lemma_plain_joined(parts.drop_last(), separator);
        lemma_plain_concat(joined(parts.drop_last(), separator), separator);
        lemma_plain_concat(joined(parts.drop_last(), separator) + separator, parts.last());
    }
}

proof fn lemma_plain_expression(s: Seq<char>)
    requires
        is_plain(s),
    ensures
        is_plain(expression(s)),
{
    reveal_strlit("''");
    reveal_strlit(" + ");
    lemma_plain_parts(s);
    if s.len() > 0 {
        lemma_plain_joined(expression_parts(s), " + "@);
    }
}

proof fn lemma_plain_words(s: Seq<char>, by: Separator)
    requires
        is_plain(s),
    ensures
        forall|i: int| 0 <= i < words(s, by).len() ==> is_plain(#[trigger] words(s, by)[i]),
    decreases s.len(),
{
    if s.len() == 0 {
    } else if separates(s[0], by) {
        assert(is_plain(s.drop_first()));
        lemma_plain_words(s.drop_first(), by);
        assert(words(s, by) == words(s.drop_first(), by));
    } else {
        let n = word_length(s, by) as int;
        lemma_word_length(s, by);
        assert(is_plain(s.take(n)) && is_plain(s.skip(n)));
        lemma_plain_words(s.skip(n), by);
        assert forall|i: int| 0 <= i < words(s, by).len() implies is_plain(
            #[trigger] words(s, by)[i],
        ) by {
            if i > 0 {
                assert(words(s, by)[i] == words(s.skip(n), by)[i - 1]);
            }
        }
    }
}

proof fn lemma_plain_frames()
    ensures
        is_plain(frame_list()),
{
    lemma_labels_hold_no_braces();
    reveal_strlit(", ");
    let frames = words(ui::SPINNER_FRAMES@, Separator::Whitespace);
    lemma_plain_words(ui::SPINNER_FRAMES@, Separator::Whitespace);
    let parts = expressions(frames);
    assert forall|i: int| 0 <= i < parts.len() implies is_plain(#[trigger] parts[i]) by {
        assert(is_plain(frames[i]));
        lemma_plain_expression(frames[i]);
    }
    lemma_plain_joined(parts, ", "@);
}

proof fn lemma_frames(front: Seq<char>, rest: Seq<char>)
    requires
        is_plain(front),
        is_plain(rest),
        is_plain(ui::SPINNER_FRAMES@),
    ensures
        labelled(front + "{{SPINNER_FRAMES}}"@ + rest) == front + ui::SPINNER_FRAMES@ + rest,
{
    lemma_placeholders();
    lemma_labels_hold_no_braces();
    let p = "{{SPINNER_FRAMES}}"@;
    assert(differs(p, "{{AI_PROMPT}}"@)) by {
        assert(p[2] != "{{AI_PROMPT}}"@[2]);
    }
    lemma_other_placeholder(front, p, rest, "{{AI_PROMPT}}"@, ui::AI_PROMPT@);
    assert(differs(p, "{{THINKING}}"@)) by {
        assert(p[2] != "{{THINKING}}"@[2]);
    }
    lemma_other_placeholder(front, p, rest, "{{THINKING}}"@, ui::THINKING@);
    lemma_labelled_code(front, p, rest, ui::SPINNER_FRAMES@);
    let code = front + ui::SPINNER_FRAMES@ + rest;
    lemma_plain_code(code, "{{POWERSHELL_SPINNER_FRAMES}}"@, frame_list());
    lemma_plain_code(code, "{{POWERSHELL_AI_PROMPT}}"@, expression(ui::AI_PROMPT@));
    lemma_plain_code(code, "{{POWERSHELL_THINKING}}"@, expression(ui::THINKING@));
    lemma_plain_code(code, "{{POWERSHELL_ERROR}}"@, expression(ui::ERROR@));
    lemma_plain_code(code, "{{ERROR}}"@, ui::ERROR@);
}

proof fn lemma_powershell_frames(front: Seq<char>, rest: Seq<char>)
    requires
        is_plain(front),
        is_plain(rest),
        is_plain(frame_list()),
    ensures
        labelled(front + "{{POWERSHELL_SPINNER_FRAMES}}"@ + rest) == front + frame_list() + rest,
{
    lemma_placeholders();
    lemma_labels_hold_no_braces();
    let p = "{{POWERSHELL_SPINNER_FRAMES}}"@;
    assert(differs(p, "{{AI_PROMPT}}"@)) by {
        assert(p[2] != "{{AI_PROMPT}}"@[2]);
    }
    lemma_other_placeholder(front, p, rest, "{{AI_PROMPT}}"@, ui::AI_PROMPT@);
    assert(differs(p, "{{THINKING}}"@)) by {
        assert(p[2] != "{{THINKING}}"@[2]);
    }
    lemma_other_placeholder(front, p, rest, "{{THINKING}}"@, ui::THINKING@);
    assert(differs(p, "{{SPINNER_FRAMES}}"@)) by {
        assert(p[2] != "{{SPINNER_FRAMES}}"@[2]);
    }
    lemma_other_placeholder(front, p, rest, "{{SPINNER_FRAMES}}"@, ui::SPINNER_FRAMES@);
    lemma_labelled_code(front, p, rest, frame_list());
    let code = front + frame_list() + rest;
    lemma_plain_code(code, "{{POWERSHELL_AI_PROMPT}}"@, expression(ui::AI_PROMPT@));
    lemma_plain_code(code, "{{POWERSHELL_THINKING}}"@, expression(ui::THINKING@));
    lemma_plain_code(code, "{{POWERSHELL_ERROR}}"@, expression(ui::ERROR@));
    lemma_plain_code(code, "{{ERROR}}"@, ui::ERROR@);
}

proof fn lemma_powershell_prompt(front: Seq<char>, rest: Seq<char>)
    requires
        is_plain(front),
        is_plain(rest),
        is_plain(expression(ui::AI_PROMPT@)),
    ensures
        labelled(front + "{{POWERSHELL_AI_PROMPT}}"@ + rest) == front + expression(ui::AI_PROMPT@) + rest,
{
    lemma_placeholders();
    lemma_labels_hold_no_braces();
    let p = "{{POWERSHELL_AI_PROMPT}}"@;
    assert(differs(p, "{{AI_PROMPT}}"@)) by {
        assert(p[2] != "{{AI_PROMPT}}"@[2]);
    }
    lemma_other_placeholder(front, p, rest, "{{AI_PROMPT}}"@, ui::AI_PROMPT@);
    assert(differs(p, "{{THINKING}}"@)) by {
        assert(p[2] != "{{THINKING}}"@[2]);
    }
    lemma_other_placeholder(front, p, rest, "{{THINKING}}"@, ui::THINKING@);
    assert(differs(p, "{{SPINNER_FRAMES}}"@)) by {
        assert(p[2] != "{{SPINNER_FRAMES}}"@[2]);
    }
    lemma_other_placeholder(front, p, rest, "{{SPINNER_FRAMES}}"@, ui::SPINNER_FRAMES@);
    assert(differs(p, "{{POWERSHELL_SPINNER_FRAMES}}"@)) by {
        assert(p[13] != "{{POWERSHELL_SPINNER_FRAMES}}"@[13]);
    }
    lemma_other_placeholder(front, p, rest, "{{POWERSHELL_SPINNER_FRAMES}}"@, frame_list());
    lemma_labelled_code(front, p, rest, expression(ui::AI_PROMPT@));
    let code = front + expression(ui::AI_PROMPT@) + rest;
    lemma_plain_code(code, "{{POWERSHELL_THINKING}}"@, expression(ui::THINKING@));
    lemma_plain_code(code, "{{POWERSHELL_ERROR}}"@, expression(ui::ERROR@));
    lemma_plain_code(code, "{{ERROR}}"@, ui::ERROR@);
}

proof fn lemma_powershell_thinking(front: Seq<char>, rest: Seq<char>)
    requires
        is_plain(front),
        is_plain(rest),
        is_plain(expression(ui::THINKING@)),
    ensures
        labelled(front + "{{POWERSHELL_THINKING}}"@ + rest) == front + expression(ui::THINKING@) + rest,
{
    lemma_placeholders();
    lemma_labels_hold_no_braces();
    let p = "{{POWERSHELL_THINKING}}"@;
    assert(differs(p, "{{AI_PROMPT}}"@)) by {
        assert(p[2] != "{{AI_PROMPT}}"@[2]);
    }
    lemma_other_placeholder(front, p, rest, "{{AI_PROMPT}}"@, ui::AI_PROMPT@);
    assert(differs(p, "{{THINKING}}"@)) by {
        assert(p[2] != "{{THINKING}}"@[2]);
    }
    lemma_other_placeholder(front, p, rest, "{{THINKING}}"@, ui::THINKING@);
    assert(differs(p, "{{SPINNER_FRAMES}}"@)) by {
        assert(p[2] != "{{SPINNER_FRAMES}}"@[2]);
    }
    lemma_other_placeholder(front, p, rest, "{{SPINNER_FRAMES}}"@, ui::SPINNER_FRAMES@);
    assert(differs(p, "{{POWERSHELL_SPINNER_FRAMES}}"@)) by {
        assert(p[13] != "{{POWERSHELL_SPINNER_FRAMES}}"@[13]);
    }
    lemma_other_placeholder(front, p, rest, "{{POWERSHELL_SPINNER_FRAMES}}"@, frame_list());
    assert(differs(p, "{{POWERSHELL_AI_PROMPT}}"@)) by {
        assert(p[13] != "{{POWERSHELL_AI_PROMPT}}"@[13]);
    }
    lemma_other_placeholder(
        front,
        p,
        rest,
        "{{POWERSHELL_AI_PROMPT}}"@,
        expression(ui::AI_PROMPT@),
    );
    lemma_labelled_code(front, p, rest, expression(ui::THINKING@));
    let code = front + expression(ui::THINKING@) + rest;
    lemma_plain_code(code, "{{POWERSHELL_ERROR}}"@, expression(ui::ERROR@));
    lemma_plain_code(code, "{{ERROR}}"@, ui::ERROR@);
}

proof fn lemma_powershell_error(front: Seq<char>, rest: Seq<char>)
    requires
        is_plain(front),
        is_plain(rest),
        is_plain(expression(ui::ERROR@)),
    ensures
        labelled(front + "{{POWERSHELL_ERROR}}"@ + rest) == front + expression(ui::ERROR@) + rest,
{
    lemma_placeholders();
    lemma_labels_hold_no_braces();
    let p = "{{POWERSHELL_ERROR}}"@;
    assert(differs(p, "{{AI_PROMPT}}"@)) by {
        assert(p[2] != "{{AI_PROMPT}}"@[2]);
    }
    lemma_other_placeholder(front, p, rest, "{{AI_PROMPT}}"@, ui::AI_PROMPT@);
    assert(differs(p, "{{THINKING}}"@)) by {
        assert(p[2] != "{{THINKING}}"@[2]);
    }
    lemma_other_placeholder(front, p, rest, "{{THINKING}}"@, ui::THINKING@);
    assert(differs(p, "{{SPINNER_FRAMES}}"@)) by {
        assert(p[2] != "{{SPINNER_FRAMES}}"@[2]);
    }
    lemma_other_placeholder(front, p, rest, "{{SPINNER_FRAMES}}"@, ui::SPINNER_FRAMES@);
    assert(differs(p, "{{POWERSHELL_SPINNER_FRAMES}}"@)) by {
        assert(p[13] != "{{POWERSHELL_SPINNER_FRAMES}}"@[13]);
    }
    lemma_other_placeholder(front, p, rest, "{{POWERSHELL_SPINNER_FRAMES}}"@, frame_list());
    assert(differs(p, "{{POWERSHELL_AI_PROMPT}}"@)) by {
        assert(p[13] != "{{POWERSHELL_AI_PROMPT}}"@[13]);
    }
    lemma_other_placeholder(
        front,
        p,
        rest,
        "{{POWERSHELL_AI_PROMPT}}"@,
        expression(ui::AI_PROMPT@),
    );
    assert(differs(p, "{{POWERSHELL_THINKING}}"@)) by {
        assert(p[13] != "{{POWERSHELL_THINKING}}"@[13]);
    }
    lemma_other_placeholder(front, p, rest, "{{POWERSHELL_THINKING}}"@, expression(ui::THINKING@));
    lemma_labelled_code(front, p, rest, expression(ui::ERROR@));
    let code = front + expression(ui::ERROR@) + rest;
    lemma_plain_code(code, "{{ERROR}}"@, ui::ERROR@);
}

/// The frames of the spinner are shown as they are, and in PowerShell every label is
/// shown by an expression that comes to that label.
pub proof fn powershell_placeholders_give_way_to_expressions(front: Seq<char>, rest: Seq<char>)
    requires
        forall|i: int| 0 <= i < front.len() ==> #[trigger] front[i] != '{',
        forall|i: int| 0 <= i < rest.len() ==> #[trigger] rest[i] != '{',
    ensures
        labelled(front + "{{SPINNER_FRAMES}}"@ + rest) == front + "⠋ ⠙ ⠹ ⠸ ⠼ ⠴ ⠦ ⠧ ⠇ ⠏"@
            + rest,
        labelled(front + "{{POWERSHELL_SPINNER_FRAMES}}"@ + rest) == front + frame_list() + rest,
        labelled(front + "{{POWERSHELL_AI_PROMPT}}"@ + rest) == front + expression(
            "🤖 AI Prompt › "@,
        ) + rest,
        labelled(front + "{{POWERSHELL_THINKING}}"@ + rest) == front + expression(
            "✨ Crafting command…"@,
        ) + rest,
        labelled(front + "{{POWERSHELL_ERROR}}"@ + rest) == front + expression("✗"@) + rest,
        frame_list() == joined(
            expressions(words("⠋ ⠙ ⠹ ⠸ ⠼ ⠴ ⠦ ⠧ ⠇ ⠏"@, Separator::Whitespace)),
            ", "@,
        ),
{
    lemma_labels_hold_no_braces();
    lemma_plain_expression(ui::AI_PROMPT@);
    lemma_plain_expression(ui::THINKING@);
    lemma_plain_expression(ui::ERROR@);
    lemma_plain_frames();
    lemma_frames(front, rest);
    lemma_powershell_frames(front, rest);
    lemma_powershell_prompt(front, rest);
    lemma_powershell_thinking(front, rest);
    lemma_powershell_error(front, rest);
}

} // verus!
