//! What a model's reply says: a command with its risk, a question or an answer.
use vstd::prelude::*;

use crate::number::{decimal, size_to_decimal};
use crate::pieces::{
    first_position, join_all, joined, joined_words_are_found_again, lemma_first_position,
    lemma_words_have_no_separators, lines, lines_end_with_line_feeds, lines_of, separates,
    without_return, words, words_of, Separator,
};
use crate::provider::{
    reply_view, text_view, DestructiveRisk, GeneratedOutput, OutputView, ProviderError,
    ProviderErrorView, MAX_ANSWER_BYTES, MAX_CLARIFICATION_BYTES, MAX_COMMAND_BYTES,
};
use crate::text::{
    after_prefix, begins, byte_length, chars_of, contains_control, ends, ends_with, has_control,
    is_control, is_whitespace, last_position, lemma_last_position, lemma_trim_fixed, lemma_trim_is,
    lemma_trim_space, lemma_trimmed_ends, lemma_trimmed_parts, opt_text, rfind, stands_at,
    starts_with, string_of, strip_prefix, text_bytes, text_eq, texts, trim, trimmed,
};

verus! {

// ---------------------------------------------------------------------------
// A single line.

/// The one line that a text holds once trimmed, or what is wrong with it.
pub open spec fn single_line(content: Seq<char>, max_bytes: nat) -> Result<Seq<char>, Seq<char>> {
    let line = trim(content);
    if line.len() == 0 {
        Err("the response was empty"@)
    } else if byte_length(line) > max_bytes {
        Err("the response exceeded "@ + decimal(max_bytes) + " bytes"@)
    } else if has_control(line) {
        Err("the response contained multiple lines or control characters"@)
    } else {
        Ok(line)
    }
}

/// A result of two texts, taken as characters.
pub open spec fn line_view(r: Result<String, String>) -> Result<Seq<char>, Seq<char>> {
    match r {
        Ok(line) => Ok(line@),
        Err(reason) => Err(reason@),
    }
}

/// The one line that a text holds once trimmed.
pub fn validate_single_line(content: &str, max_bytes: usize) -> (r: Result<String, String>)
    ensures
        line_view(r) == single_line(content@, max_bytes as nat),
{
    let line = trimmed(content);
    if line.as_str().is_empty() {
        return Err("the response was empty".to_owned());
    }
    if text_bytes(line.as_str()) > max_bytes {
        let mut reason = "the response exceeded ".to_owned();
        reason.push_str(size_to_decimal(max_bytes).as_str());
        reason.push_str(" bytes");
        return Err(reason);
    }
    if contains_control(line.as_str()) {
        return Err("the response contained multiple lines or control characters".to_owned());
    }
    Ok(line)
}

// ---------------------------------------------------------------------------
// Commands, questions and answers.

/// Whether a Markdown code fence opens or closes a line.
pub open spec fn is_fenced(line: Seq<char>) -> bool {
    begins(line, "```"@) || ends(line, "```"@)
}

/// The command that a text holds, or what is wrong with it.
pub open spec fn valid_command(content: Seq<char>) -> Result<Seq<char>, ProviderErrorView> {
    match single_line(content, MAX_COMMAND_BYTES as nat) {
        Err(reason) => Err(ProviderErrorView::InvalidCommand(reason)),
        Ok(line) => if is_fenced(line) {
            Err(
                ProviderErrorView::InvalidCommand("the response contained a Markdown code fence"@),
            )
        } else {
            Ok(line)
        },
    }
}

/// The line of a question or an answer, or what is wrong with it.
pub open spec fn valid_information(content: Seq<char>, max_bytes: nat, kind: Seq<char>) -> Result<
    Seq<char>,
    ProviderErrorView,
> {
    match single_line(content, max_bytes) {
        Ok(line) => Ok(line),
        Err(reason) => Err(
            ProviderErrorView::InvalidResponse("invalid "@ + kind + ": "@ + reason),
        ),
    }
}

/// The command that a text holds.
pub fn validate_command(content: &str) -> (r: Result<String, ProviderError>)
    ensures
        text_view(r) == valid_command(content@),
{
    match validate_single_line(content, MAX_COMMAND_BYTES) {
        Err(reason) => Err(ProviderError::InvalidCommand(reason)),
        Ok(command) => {
            if starts_with(command.as_str(), "```") || ends_with(command.as_str(), "```") {
                Err(
                    ProviderError::InvalidCommand(
                        "the response contained a Markdown code fence".to_owned(),
                    ),
                )
            } else {
                Ok(command)
            }
        },
    }
}

/// The line of a question or an answer.
pub fn validate_informational_output(content: &str, max_bytes: usize, kind: &str) -> (r: Result<
    String,
    ProviderError,
>)
    ensures
        text_view(r) == valid_information(content@, max_bytes as nat, kind@),
{
    match validate_single_line(content, max_bytes) {
        Ok(line) => Ok(line),
        Err(error) => {
            let mut reason = "invalid ".to_owned();
            reason.push_str(kind);
            reason.push_str(": ");
            reason.push_str(error.as_str());
            Err(ProviderError::InvalidResponse(reason))
        },
    }
}

/// The clarifying question that a text holds.
pub fn validate_clarification(content: &str) -> (r: Result<String, ProviderError>)
    ensures
        text_view(r) == valid_information(
            content@,
            MAX_CLARIFICATION_BYTES as nat,
            "clarification"@,
        ),
{
    validate_informational_output(content, MAX_CLARIFICATION_BYTES, "clarification")
}

/// The answer that a text holds.
pub fn validate_answer(content: &str) -> (r: Result<String, ProviderError>)
    ensures
        text_view(r) == valid_information(content@, MAX_ANSWER_BYTES as nat, "answer"@),
{
    validate_informational_output(content, MAX_ANSWER_BYTES, "answer")
}

// ---------------------------------------------------------------------------
// The marked forms of a reply.

/// The level of a name.
pub open spec fn risk_named(name: Seq<char>) -> Option<DestructiveRisk> {
    if name == "safe"@ {
        Some(DestructiveRisk::Safe)
    } else if name == "moderate"@ {
        Some(DestructiveRisk::Moderate)
    } else if name == "high"@ {
        Some(DestructiveRisk::High)
    } else {
        None
    }
}

/// The level that the first line of a reply marks.
pub open spec fn marked_risk(output: Seq<Seq<char>>) -> Option<DestructiveRisk> {
    if output.len() == 0 {
        None
    } else {
        match after_prefix(output[0], "RISK:"@) {
            Some(name) => risk_named(trim(name)),
            None => None,
        }
    }
}

/// The command that the second line of a reply marks.
pub open spec fn marked_command(output: Seq<Seq<char>>) -> Option<Seq<char>> {
    if output.len() < 2 {
        None
    } else {
        after_prefix(output[1], "COMMAND:"@)
    }
}

/// The command of a reply that consists of the given lines.
pub open spec fn command_of_lines(output: Seq<Seq<char>>) -> Result<
    OutputView,
    ProviderErrorView,
> {
    match marked_risk(output) {
        None => Err(
            ProviderErrorView::InvalidResponse(
                "the command risk must be marked as safe, moderate, or high"@,
            ),
        ),
        Some(risk) => match marked_command(output) {
            None => Err(
                ProviderErrorView::InvalidResponse(
                    "the risk marker must be followed by exactly one COMMAND line"@,
                ),
            ),
            Some(command) => if output.len() > 2 {
                Err(
                    ProviderErrorView::InvalidResponse(
                        "the command response contained more than two lines"@,
                    ),
                )
            } else {
                match valid_command(command) {
                    Ok(command) => Ok(OutputView::Command { command, risk }),
                    Err(error) => Err(error),
                }
            },
        },
    }
}

/// What a marked reply says. `None` where the text bears no mark.
pub open spec fn typed_output(output: Seq<char>) -> Option<Result<OutputView, ProviderErrorView>> {
    if begins(output, "RISK:"@) {
        Some(command_of_lines(lines(output)))
    } else if begins(output, "QUESTION:"@) {
        Some(
            match valid_information(
                output.skip("QUESTION:"@.len() as int),
                MAX_CLARIFICATION_BYTES as nat,
                "clarification"@,
            ) {
                Ok(question) => Ok(OutputView::Clarification(question)),
                Err(error) => Err(error),
            },
        )
    } else if begins(output, "ANSWER:"@) {
        Some(
            match valid_information(
                output.skip("ANSWER:"@.len() as int),
                MAX_ANSWER_BYTES as nat,
                "answer"@,
            ) {
                Ok(answer) => Ok(OutputView::Answer(answer)),
                Err(error) => Err(error),
            },
        )
    } else {
        None
    }
}

/// What follows the last mark that ends a model's reasoning. `None` where no
/// such mark stands in the text.
pub open spec fn after_reasoning(output: Seq<char>) -> Option<Seq<char>> {
    let end = last_position(output, "<|end|>"@);
    let think = last_position(output, "</think>"@);
    if end < 0 && think < 0 {
        None
    } else if end > think {
        Some(output.skip(end + "<|end|>"@.len()))
    } else {
        Some(output.skip(think + "</think>"@.len()))
    }
}

/// How a reply without a mark is refused.
pub open spec fn unmarked() -> Result<OutputView, ProviderErrorView> {
    Err(
        ProviderErrorView::InvalidResponse(
            "the response was not marked as RISK/COMMAND, QUESTION, or ANSWER"@,
        ),
    )
}

/// What a reply says, with or without reasoning in front.
pub open spec fn generated_output(content: Seq<char>) -> Result<OutputView, ProviderErrorView> {
    let output = trim(content);
    match typed_output(output) {
        Some(result) => result,
        None => match after_reasoning(output) {
            Some(rest) => match typed_output(trim(rest)) {
                Some(result) => result,
                None => unmarked(),
            },
            None => unmarked(),
        },
    }
}

/// The level of a name.
fn parse_risk(name: &str) -> (r: Option<DestructiveRisk>)
    ensures
        r == risk_named(name@),
{
    if text_eq(name, "safe") {
        Some(DestructiveRisk::Safe)
    } else if text_eq(name, "moderate") {
        Some(DestructiveRisk::Moderate)
    } else if text_eq(name, "high") {
        Some(DestructiveRisk::High)
    } else {
        None
    }
}

/// The level that the first line of a reply marks.
fn parse_marked_risk(output: &Vec<String>) -> (r: Option<DestructiveRisk>)
    ensures
        r == marked_risk(texts(output@)),
{
    if output.len() == 0 {
        return None;
    }
    match strip_prefix(output[0].as_str(), "RISK:") {
        Some(name) => parse_risk(trimmed(name.as_str()).as_str()),
        None => None,
    }
}

/// The command of a reply that marks a risk.
pub fn parse_command_output(output: &str) -> (r: Result<GeneratedOutput, ProviderError>)
    ensures
        reply_view(r) == command_of_lines(lines(output@)),
{
    let lines = lines_of(output);
    let risk = match parse_marked_risk(&lines) {
        Some(risk) => risk,
        None => {
            return Err(
                ProviderError::InvalidResponse(
                    "the command risk must be marked as safe, moderate, or high".to_owned(),
                ),
            );
        },
    };
    let marked = if lines.len() < 2 {
        None
    } else {
        strip_prefix(lines[1].as_str(), "COMMAND:")
    };
    assert(opt_text(marked) == marked_command(texts(lines@)));
    let command = match marked {
        Some(command) => command,
        None => {
            return Err(
                ProviderError::InvalidResponse(
                    "the risk marker must be followed by exactly one COMMAND line".to_owned(),
                ),
            );
        },
    };
    if lines.len() > 2 {
        return Err(
            ProviderError::InvalidResponse(
                "the command response contained more than two lines".to_owned(),
            ),
        );
    }
    match validate_command(command.as_str()) {
        Ok(command) => Ok(GeneratedOutput::Command { command, risk }),
        Err(error) => Err(error),
    }
}

/// What a marked reply says. `None` where the text bears no mark.
pub fn parse_typed_output(output: &str) -> (r: Option<Result<GeneratedOutput, ProviderError>>)
    ensures
        match r {
            Some(result) => typed_output(output@) == Some(reply_view(result)),
            None => typed_output(output@) is None,
        },
{
    if starts_with(output, "RISK:") {
        return Some(parse_command_output(output));
    }
    match strip_prefix(output, "QUESTION:") {
        Some(question) => {
            return Some(
                match validate_clarification(question.as_str()) {
                    Ok(question) => Ok(GeneratedOutput::Clarification(question)),
                    Err(error) => Err(error),
                },
            );
        },
        None => {},
    }
    match strip_prefix(output, "ANSWER:") {
        Some(answer) => Some(
            match validate_answer(answer.as_str()) {
                Ok(answer) => Ok(GeneratedOutput::Answer(answer)),
                Err(error) => Err(error),
            },
        ),
        None => None,
    }
}

/// What follows the last mark that ends a model's reasoning.
fn strip_reasoning(output: &str) -> (r: Option<String>)
    ensures
        opt_text(r) == after_reasoning(output@),
{
    let chars = chars_of(output);
    let n: usize = chars.len();
    let end_mark = chars_of("<|end|>");
    let think_mark = chars_of("</think>");
    let end = rfind(&chars, &end_mark);
    let think = rfind(&chars, &think_mark);
    let from: usize = match (end, think) {
        (None, None) => {
            return None;
        },
        (Some(e), None) => e + end_mark.len(),
        (None, Some(t)) => t + think_mark.len(),
        (Some(e), Some(t)) => if e > t {
            e + end_mark.len()
        } else {
            t + think_mark.len()
        },
    };
    let rest = string_of(&chars, from, n);
    assert(rest@ =~= output@.skip(from as int));
    Some(rest)
}

/// What a reply says, with or without reasoning in front.
pub fn parse_generated_output(content: &str) -> (r: Result<GeneratedOutput, ProviderError>)
    ensures
        reply_view(r) == generated_output(content@),
{
    let output = trimmed(content);
    match parse_typed_output(output.as_str()) {
        Some(parsed) => {
            return parsed;
        },
        None => {},
    }
    match strip_reasoning(output.as_str()) {
        Some(rest) => {
            match parse_typed_output(trimmed(rest.as_str()).as_str()) {
                Some(parsed) => {
                    return parsed;
                },
                None => {},
            }
        },
        None => {},
    }
    Err(
        ProviderError::InvalidResponse(
            "the response was not marked as RISK/COMMAND, QUESTION, or ANSWER".to_owned(),
        ),
    )
}

// ---------------------------------------------------------------------------
// Messages of remote errors.

/// A message from a server on one line: its words with single spaces between,
/// cut off after 300 characters.
pub open spec fn sanitized(message: Seq<char>) -> Seq<char> {
    let line = joined(words(message, Separator::Whitespace), " "@);
    if line.len() <= 300 {
        line
    } else {
        line.take(300)
    }
}

/// A message from a server on one line.
pub fn sanitize_error(message: &str) -> (r: String)
    ensures
        r@ == sanitized(message@),
{
    let parts = words_of(message, Separator::Whitespace);
    let line = join_all(&parts, " ");
    let chars = chars_of(line.as_str());
    if chars.len() <= 300 {
        line
    } else {
        assert(line@.subrange(0, 300) =~= line@.take(300));
        string_of(&chars, 0, 300)
    }
}

// ---------------------------------------------------------------------------
// Laws.

/// The part of a reply that bears the mark.
pub open spec fn marked_part(content: Seq<char>) -> Seq<char> {
    let output = trim(content);
    match typed_output(output) {
        Some(_) => output,
        None => match after_reasoning(output) {
            Some(rest) => trim(rest),
            None => output,
        },
    }
}

/// No command comes out of a reply that does not classify it: the marked part
/// of the reply is a risk line with one of the three levels and a command line,
/// and nothing else.
pub proof fn commands_are_classified(content: Seq<char>, command: Seq<char>, risk: DestructiveRisk)
    requires
        generated_output(content) == Ok::<OutputView, ProviderErrorView>(
            OutputView::Command { command, risk },
        ),
    ensures
        lines(marked_part(content)).len() == 2,
        after_prefix(lines(marked_part(content))[0], "RISK:"@) is Some,
        trim(after_prefix(lines(marked_part(content))[0], "RISK:"@)->0) == risk.name(),
        after_prefix(lines(marked_part(content))[1], "COMMAND:"@) is Some,
        trim(after_prefix(lines(marked_part(content))[1], "COMMAND:"@)->0) == command,
{
    let output = lines(marked_part(content));
    assert(command_of_lines(output) == Ok::<OutputView, ProviderErrorView>(
        OutputView::Command { command, risk },
    ));
}

/// The text of an output.
pub open spec fn output_text(output: OutputView) -> Seq<char> {
    match output {
        OutputView::Command { command, risk: _ } => command,
        OutputView::Clarification(question) => question,
        OutputView::Answer(answer) => answer,
    }
}

/// How many bytes the text of an output may take.
pub open spec fn output_limit(output: OutputView) -> nat {
    match output {
        OutputView::Command { .. } => MAX_COMMAND_BYTES as nat,
        OutputView::Clarification(_) => MAX_CLARIFICATION_BYTES as nat,
        OutputView::Answer(_) => MAX_ANSWER_BYTES as nat,
    }
}

/// Every output is one non-empty line within its limit, without control
/// characters, and no command is a Markdown code fence.
pub proof fn outputs_are_single_lines(content: Seq<char>)
    ensures
        generated_output(content) matches Ok(output) ==> {
            &&& output_text(output).len() > 0
            &&& byte_length(output_text(output)) <= output_limit(output)
            &&& !has_control(output_text(output))
            &&& output is Command ==> !is_fenced(output_text(output))
        },
{
}

/// A command reply in the form that models are asked for.
pub open spec fn command_reply(command: Seq<char>, risk: DestructiveRisk) -> Seq<char> {
    "RISK: "@ + risk.name() + "\nCOMMAND: "@ + command
}

/// A text that can be the line of an output: trimmed, not empty, short enough
/// and free of control characters.
pub open spec fn is_clean_line(line: Seq<char>, max_bytes: nat) -> bool {
    trim(line) == line && line.len() > 0 && byte_length(line) <= max_bytes && !has_control(line)
}

/// A reply in the form that models are asked for gives its command and risk.
pub proof fn command_replies_are_read_back(command: Seq<char>, risk: DestructiveRisk)
    requires
        is_clean_line(command, MAX_COMMAND_BYTES as nat),
        !is_fenced(command),
    ensures
        generated_output(command_reply(command, risk)) == Ok::<OutputView, ProviderErrorView>(
            OutputView::Command { command, risk },
        ),
{
    let content = command_reply(command, risk);
    let name = risk.name();
    reveal_strlit("RISK: ");
    reveal_strlit("RISK:");
    reveal_strlit("\nCOMMAND: ");
    reveal_strlit("COMMAND:");
    reveal_strlit("safe");
    reveal_strlit("moderate");
    reveal_strlit("high");
    lemma_trimmed_ends(command);
    assert(content.last() == command.last());
    assert(content[0] == 'R');
    lemma_trim_fixed(content);
    assert(content.take(5) =~= "RISK:"@);
    // The first line.
    let first = "RISK: "@ + name;
    let second = content.skip(first.len() as int + 1);
    lemma_trimmed_ends(name);
    assert(forall|k: int| 0 <= k < first.len() ==> content[k] == first[k]);
    assert(forall|k: int| 0 <= k < first.len() ==> first[k] != '\n');
    assert(content[first.len() as int] == '\n');
    lemma_first_position(content, '\n');
    assert(first_position(content, '\n') == first.len());
    assert(content.take(first.len() as int) =~= first);
    assert(first.last() == name.last());
    assert(without_return(first) == first);
    // The second line.
    assert(second =~= "COMMAND: "@ + command) by {
        reveal_strlit("COMMAND: ");
    }
    reveal_strlit("COMMAND: ");
    assert forall|k: int| 0 <= k < second.len() implies second[k] != '\n' by {
        if k >= 9 {
            assert(second[k] == command[k - 9]);
        }
    }
    lemma_first_position(second, '\n');
    assert(lines(second) =~= seq![second]);
    assert(lines(content) =~= seq![first, second]);
    // The marks.
    assert(first.take(5) =~= "RISK:"@);
    assert(first.skip(5) =~= seq![' '] + name);
    lemma_trim_space(name);
    assert(second.take(8) =~= "COMMAND:"@);
    assert(second.skip(8) =~= seq![' '] + command);
    lemma_trim_space(command);
    assert("safe"@.len() == 4 && "moderate"@.len() == 8 && "high"@.len() == 4);
    assert("safe"@[0] == 's' && "high"@[0] == 'h');
}

/// A question or an answer in the form that models are asked for is read back.
pub proof fn information_replies_are_read_back(line: Seq<char>)
    ensures
        is_clean_line(line, MAX_CLARIFICATION_BYTES as nat) ==> generated_output(
            "QUESTION: "@ + line,
        ) == Ok::<OutputView, ProviderErrorView>(OutputView::Clarification(line)),
        is_clean_line(line, MAX_ANSWER_BYTES as nat) ==> generated_output("ANSWER: "@ + line)
            == Ok::<OutputView, ProviderErrorView>(OutputView::Answer(line)),
{
    reveal_strlit("QUESTION: ");
    reveal_strlit("QUESTION:");
    reveal_strlit("ANSWER: ");
    reveal_strlit("ANSWER:");
    reveal_strlit("RISK:");
    if line.len() > 0 && trim(line) == line {
        lemma_trimmed_ends(line);
        lemma_trim_space(line);
        let question = "QUESTION: "@ + line;
        assert(question.last() == line.last());
        lemma_trim_fixed(question);
        assert(question.take(9) =~= "QUESTION:"@);
        assert(question[0] == 'Q');
        assert(question.take(5)[0] == 'Q');
        assert(question.skip(9) =~= seq![' '] + line);
        let answer = "ANSWER: "@ + line;
        assert(answer.last() == line.last());
        lemma_trim_fixed(answer);
        assert(answer.take(7) =~= "ANSWER:"@);
        assert(answer[0] == 'A');
        assert(answer.take(5)[0] == 'A');
        assert(answer.len() >= 9 ==> answer.take(9)[0] == 'A');
        assert(answer.skip(7) =~= seq![' '] + line);
    }
}

/// Whether the only white space in a text are spaces.
pub open spec fn is_spaced(s: Seq<char>) -> bool {
    forall|i: int| 0 <= i < s.len() ==> (is_whitespace(#[trigger] s[i]) ==> s[i] == ' ')
}

proof fn lemma_spaced_concat(a: Seq<char>, b: Seq<char>)
    requires
        is_spaced(a),
        is_spaced(b),
    ensures
        is_spaced(a + b),
{
    assert forall|i: int| 0 <= i < (a + b).len() implies (is_whitespace(#[trigger] (a + b)[i]) ==> (a
        + b)[i] == ' ') by {
        if i < a.len() {
            assert((a + b)[i] == a[i]);
        } else {
            assert((a + b)[i] == b[i - a.len()]);
        }
    }
}

proof fn lemma_joined_is_spaced(parts: Seq<Seq<char>>)
    requires
        forall|i: int| 0 <= i < parts.len() ==> is_spaced(#[trigger] parts[i]),
    ensures
        is_spaced(joined(parts, " "@)),
    decreases parts.len(),
{
    reveal_strlit(" ");
    if parts.len() > 1 {
        lemma_joined_is_spaced(parts.drop_last());
        lemma_spaced_concat(joined(parts.drop_last(), " "@), " "@);
        lemma_spaced_concat(joined(parts.drop_last(), " "@) + " "@, parts.last());
    }
}

/// Messages of a server are reported on one short line: no more than 300
/// characters, and no white space but spaces.
pub proof fn remote_messages_are_one_short_line(message: Seq<char>)
    ensures
        sanitized(message).len() <= 300,
        is_spaced(sanitized(message)),
{
    let parts = words(message, Separator::Whitespace);
    assert forall|k: int| 0 <= k < parts.len() implies is_spaced(#[trigger] parts[k]) by {
        lemma_words_have_no_separators(message, Separator::Whitespace, k);
        assert forall|i: int| 0 <= i < parts[k].len() implies (is_whitespace(
            #[trigger] parts[k][i],
        ) ==> parts[k][i] == ' ') by {
            assert(!separates(parts[k][i], Separator::Whitespace));
        }
    }
    lemma_joined_is_spaced(parts);
    let line = joined(parts, " "@);
    assert forall|i: int| 0 <= i < sanitized(message).len() implies (is_whitespace(
        #[trigger] sanitized(message)[i],
    ) ==> sanitized(message)[i] == ' ') by {
        assert(sanitized(message)[i] == line[i]);
    }
}

/// Whether a text begins with one of the marks that say what a reply is.
pub open spec fn bears_mark(output: Seq<char>) -> bool {
    begins(output, "RISK:"@) || begins(output, "QUESTION:"@) || begins(output, "ANSWER:"@)
}

/// A mark that begins a text with white space around it begins the trimmed text.
proof fn lemma_mark_in_front(text: Seq<char>, start: int, rest: Seq<char>, mark: Seq<char>)
    requires
        0 <= start <= text.len(),
        forall|i: int| 0 <= i < start ==> is_whitespace(#[trigger] text[i]),
        rest.len() > 0,
        rest[0] == '<',
        forall|i: int|
            0 <= i < mark.len() ==> !is_whitespace(#[trigger] mark[i]) && mark[i] != '<',
        begins(text.skip(start) + rest, mark),
        mark.len() > 0,
    ensures
        begins(trim(text), mark),
{
    let front = text.skip(start);
    let all = front + rest;
    let n = mark.len() as int;
    assert forall|i: int| 0 <= i < n implies all[i] == #[trigger] mark[i] by {
        assert(all.take(n)[i] == mark[i]);
    }
    if front.len() < n {
        assert(all[front.len() as int] == mark[front.len() as int]);
    }
    assert forall|i: int| 0 <= i < n implies text[start + i] == #[trigger] mark[i] by {
        assert(front[i] == all[i]);
    }
    let first = lemma_trimmed_parts(text);
    assert(text[start] == mark[0] && text[start + n - 1] == mark[n - 1]);
    assert(trim(text)[0] == text[first]);
    assert(first == start);
    assert(trim(text).take(n) =~= mark) by {
        assert forall|i: int| 0 <= i < n implies trim(text).take(n)[i] == mark[i] by {
            assert(trim(text)[i] == text[start + i]);
        }
    }
}

/// Trimming two texts with visible text between them trims the start of the one
/// and the end of the other.
proof fn lemma_trim_around(before: Seq<char>, visible: Seq<char>, behind: Seq<char>) -> (r: (
    int,
    int,
))
    requires
        visible.len() > 0,
        !is_whitespace(visible[0]),
        !is_whitespace(visible.last()),
    ensures
        0 <= r.0 <= before.len(),
        0 <= r.1 <= behind.len(),
        trim(before + visible + behind) == before.skip(r.0) + visible + behind.take(r.1),
        forall|i: int| 0 <= i < r.0 ==> is_whitespace(#[trigger] before[i]),
        trim(behind.take(r.1)) == trim(behind),
{
    let content = before + visible + behind;
    let output = trim(content);
    let b = before.len() as int;
    let n = visible.len() as int;
    let start = lemma_trimmed_parts(content);
    let stop = start + output.len();
    assert(content[b] == visible[0] && content[b + n - 1] == visible.last());
    assert(start <= b && b + n <= stop);
    let m = stop - (b + n);
    let back = behind.take(m);
    assert(output =~= before.skip(start) + visible + back);
    assert forall|i: int| 0 <= i < start implies is_whitespace(#[trigger] before[i]) by {
        assert(before[i] == content[i]);
    }
    let first = lemma_trimmed_parts(behind);
    let l = trim(behind).len() as int;
    assert forall|i: int| m <= i < behind.len() implies is_whitespace(#[trigger] behind[i]) by {
        assert(content[b + n + i] == behind[i]);
    }
    if m > 0 {
        assert(output.last() == content[stop - 1]);
        assert(content[stop - 1] == behind[m - 1]);
    }
    if l > 0 {
        assert(trim(behind)[0] == behind[first]);
        assert(trim(behind).last() == behind[first + l - 1]);
        assert(first + l == m);
        assert forall|i: int| 0 <= i < first implies is_whitespace(#[trigger] back[i]) by {
            assert(back[i] == behind[i]);
        }
        lemma_trim_is(back, first, l);
        assert(back.subrange(first, first + l) =~= trim(behind));
    } else {
        assert(m == 0);
        lemma_trim_is(back, 0, 0);
        assert(trim(back) =~= trim(behind));
    }
    (start, m)
}

/// Whether no terminator of a model's reasoning stands in a text.
pub open spec fn ends_no_reasoning(text: Seq<char>) -> bool {
    forall|i: int|
        !(#[trigger] stands_at(text, "<|end|>"@, i)) && !stands_at(text, "</think>"@, i)
}

proof fn lemma_part_ends_no_reasoning(text: Seq<char>, from: int, to: int)
    requires
        0 <= from <= to <= text.len(),
        ends_no_reasoning(text),
    ensures
        ends_no_reasoning(text.subrange(from, to)),
        after_reasoning(text.subrange(from, to)) is None,
{
    let part = text.subrange(from, to);
    let end = "<|end|>"@;
    let think = "</think>"@;
    assert forall|i: int| !(#[trigger] stands_at(part, end, i)) && !stands_at(part, think, i) by {
        if stands_at(part, end, i) {
            assert(text.subrange(from + i, from + i + end.len()) =~= part.subrange(
                i,
                i + end.len(),
            ));
            assert(stands_at(text, end, from + i));
        }
        if stands_at(part, think, i) {
            assert(text.subrange(from + i, from + i + think.len()) =~= part.subrange(
                i,
                i + think.len(),
            ));
            assert(!stands_at(text, end, from + i));
            assert(stands_at(text, think, from + i));
        }
    }
    lemma_last_position(part, end);
    lemma_last_position(part, think);
    assert(!stands_at(part, end, last_position(part, end)));
    assert(!stands_at(part, end, last_position(part, think)));
}

/// A terminator does not stand further behind one than in the text that follows.
proof fn lemma_no_later_terminator(
    front: Seq<char>,
    terminator: Seq<char>,
    back: Seq<char>,
    p: Seq<char>,
    j: int,
)
    requires
        terminator.len() > 0,
        forall|i: int| 0 < i < terminator.len() ==> #[trigger] terminator[i] != '<',
        p.len() > 1,
        p[0] == '<',
        forall|i: int| !#[trigger] stands_at(back, p, i),
        j > front.len(),
    ensures
        !stands_at(front + terminator + back, p, j),
{
    let output = front + terminator + back;
    let k = front.len() as int;
    let n = terminator.len() as int;
    if stands_at(output, p, j) {
        let part = output.subrange(j, j + p.len());
        assert(part[0] == output[j]);
        if j < k + n {
            assert(output[j] == terminator[j - k]);
        } else {
            let i = j - (k + n);
            assert(back.subrange(i, i + p.len()) =~= part);
            assert(stands_at(back, p, i));
        }
    }
}

proof fn lemma_terminators()
    ensures
        "<|end|>"@.len() == 7,
        "<|end|>"@[0] == '<' && "<|end|>"@[1] == '|' && "<|end|>"@[6] == '>',
        forall|i: int| 0 < i < 7 ==> #[trigger] "<|end|>"@[i] != '<',
        "</think>"@.len() == 8,
        "</think>"@[0] == '<' && "</think>"@[1] == '/' && "</think>"@[7] == '>',
        forall|i: int| 0 < i < 8 ==> #[trigger] "</think>"@[i] != '<',
{
    reveal_strlit("<|end|>");
    reveal_strlit("</think>");
}

/// One terminator does not stand where the other does.
proof fn lemma_one_terminator(output: Seq<char>, p: Seq<char>, q: Seq<char>, k: int)
    requires
        p.len() > 1,
        q.len() > 1,
        p[1] != q[1],
        stands_at(output, p, k),
    ensures
        !stands_at(output, q, k),
{
    assert(output.subrange(k, k + p.len())[1] == output[k + 1]);
    if stands_at(output, q, k) {
        assert(output.subrange(k, k + q.len())[1] == output[k + 1]);
    }
}

/// What is behind a terminator, and holds none, is what follows the reasoning.
proof fn lemma_behind_terminator(front: Seq<char>, terminator: Seq<char>, back: Seq<char>)
    requires
        terminator == "<|end|>"@ || terminator == "</think>"@,
        ends_no_reasoning(back),
    ensures
        after_reasoning(front + terminator + back) == Some(back),
{
    let end = "<|end|>"@;
    let think = "</think>"@;
    lemma_terminators();
    let output = front + terminator + back;
    let k = front.len() as int;
    let n = terminator.len() as int;
    assert forall|i: int| !#[trigger] stands_at(back, think, i) by {
        assert(!stands_at(back, end, i));
    }
    assert(output.subrange(k, k + n) =~= terminator);
    assert(stands_at(output, terminator, k));
    lemma_last_position(output, end);
    lemma_last_position(output, think);
    let e = last_position(output, end);
    let t = last_position(output, think);
    if e > k {
        lemma_no_later_terminator(front, terminator, back, end, e);
    }
    if t > k {
        lemma_no_later_terminator(front, terminator, back, think, t);
    }
    if terminator == end {
        lemma_one_terminator(output, end, think, k);
        assert(e == k && t < k);
    } else {
        lemma_one_terminator(output, think, end, k);
        assert(t == k && e < k);
    }
    assert(output.skip(k + n) =~= back);
}

/// Reasoning in front of a reply plays no part: a reply that follows the end of a
/// model's reasoning, under either of the two terminators, gives what the reply
/// alone gives, whatever the reasoning says, as long as it is not itself marked as
/// the reply.
pub proof fn reasoning_plays_no_part(
    reasoning: Seq<char>,
    terminator: Seq<char>,
    reply: Seq<char>,
)
    requires
        terminator == "<|end|>"@ || terminator == "</think>"@,
        !bears_mark(trim(reasoning)),
        ends_no_reasoning(reply),
    ensures
        generated_output(reasoning + terminator + reply) == generated_output(reply),
{
    reveal_strlit("<|end|>");
    reveal_strlit("</think>");
    reveal_strlit("RISK:");
    reveal_strlit("QUESTION:");
    reveal_strlit("ANSWER:");
    let output = trim(reasoning + terminator + reply);
    let (start, m) = lemma_trim_around(reasoning, terminator, reply);
    let back = reply.take(m);
    let rest = terminator + back;
    assert(output =~= reasoning.skip(start) + rest);
    if begins(output, "RISK:"@) {
        lemma_mark_in_front(reasoning, start, rest, "RISK:"@);
    }
    if begins(output, "QUESTION:"@) {
        lemma_mark_in_front(reasoning, start, rest, "QUESTION:"@);
    }
    if begins(output, "ANSWER:"@) {
        lemma_mark_in_front(reasoning, start, rest, "ANSWER:"@);
    }
    assert(typed_output(output) is None);
    lemma_part_ends_no_reasoning(reply, 0, m);
    assert(reply.subrange(0, m) =~= back);
    lemma_behind_terminator(reasoning.skip(start), terminator, back);
    let first = lemma_trimmed_parts(reply);
    lemma_part_ends_no_reasoning(reply, first, first + trim(reply).len());
}

/// White space around a reply plays no part.
pub proof fn white_space_around_a_reply_plays_no_part(content: Seq<char>)
    ensures
        generated_output(trim(content)) == generated_output(content),
{
    lemma_trimmed_ends(content);
    lemma_trim_fixed(trim(content));
}

/// A reply without a mark is refused, unless reasoning ends in it.
pub proof fn unmarked_replies_are_refused(content: Seq<char>)
    requires
        !bears_mark(trim(content)),
        ends_no_reasoning(content),
    ensures
        generated_output(content) == Err::<OutputView, ProviderErrorView>(
            ProviderErrorView::InvalidResponse(
                "the response was not marked as RISK/COMMAND, QUESTION, or ANSWER"@,
            ),
        ),
{
    let first = lemma_trimmed_parts(content);
    lemma_part_ends_no_reasoning(content, first, first + trim(content).len());
}

/// Each level of risk has its word: a command comes with the level that the risk
/// line names.
pub proof fn risk_words_name_the_levels(command: Seq<char>)
    requires
        is_clean_line(command, 8192),
        !is_fenced(command),
    ensures
        generated_output("RISK: "@ + "safe"@ + "\nCOMMAND: "@ + command) == Ok::<
            OutputView,
            ProviderErrorView,
        >(OutputView::Command { command, risk: DestructiveRisk::Safe }),
        generated_output("RISK: "@ + "moderate"@ + "\nCOMMAND: "@ + command) == Ok::<
            OutputView,
            ProviderErrorView,
        >(OutputView::Command { command, risk: DestructiveRisk::Moderate }),
        generated_output("RISK: "@ + "high"@ + "\nCOMMAND: "@ + command) == Ok::<
            OutputView,
            ProviderErrorView,
        >(OutputView::Command { command, risk: DestructiveRisk::High }),
{
    command_replies_are_read_back(command, DestructiveRisk::Safe);
    command_replies_are_read_back(command, DestructiveRisk::Moderate);
    command_replies_are_read_back(command, DestructiveRisk::High);
}

/// A risk line and a command line, of which the first holds no line break and does
/// not end with a carriage return, are read as two lines.
proof fn lemma_two_lines(name: Seq<char>, command: Seq<char>)
    requires
        forall|i: int| 0 <= i < name.len() ==> #[trigger] name[i] != '\n',
        name.len() > 0 ==> name.last() != '\r',
        forall|i: int| 0 <= i < command.len() ==> #[trigger] command[i] != '\n',
        command.len() > 0,
        !is_whitespace(command.last()),
    ensures
        ({
            let content = "RISK: "@ + name + "\nCOMMAND: "@ + command;
            let output = lines(content);
            &&& trim(content) == content
            &&& begins(content, "RISK:"@)
            &&& output == seq!["RISK: "@ + name, "COMMAND: "@ + command]
            &&& after_prefix(output[0], "RISK:"@) is Some
            &&& trim(after_prefix(output[0], "RISK:"@)->0) == trim(name)
            &&& after_prefix(output[1], "COMMAND:"@) is Some
            &&& trim(after_prefix(output[1], "COMMAND:"@)->0) == trim(command)
        }),
{
    reveal_strlit("RISK: ");
    reveal_strlit("RISK:");
    reveal_strlit("\nCOMMAND: ");
    reveal_strlit("COMMAND: ");
    reveal_strlit("COMMAND:");
    let first = "RISK: "@ + name;
    let second = "COMMAND: "@ + command;
    let content = "RISK: "@ + name + "\nCOMMAND: "@ + command;
    assert(content[0] == 'R');
    assert(content.last() == command.last());
    lemma_trim_fixed(content);
    assert(content.take(5) =~= "RISK:"@);
    assert forall|i: int| 0 <= i < first.len() implies #[trigger] first[i] != '\n' by {
        if i >= 6 {
            assert(first[i] == name[i - 6]);
        }
    }
    assert(first.last() != '\r') by {
        if name.len() > 0 {
            assert(first.last() == name.last());
        }
    }
    assert forall|i: int| 0 <= i < second.len() implies #[trigger] second[i] != '\n' by {
        if i >= 9 {
            assert(second[i] == command[i - 9]);
        }
    }
    assert(second.last() == command.last());
    lines_end_with_line_feeds(first, second);
    lines_end_with_line_feeds(second, seq![]);
    assert(content =~= first + seq!['\n'] + second);
    assert(seq![first] + seq![second] =~= seq![first, second]);
    assert(first.take(5) =~= "RISK:"@);
    assert(first.skip(5) =~= seq![' '] + name);
    lemma_trim_space(name);
    assert(second.take(8) =~= "COMMAND:"@);
    assert(second.skip(8) =~= seq![' '] + command);
    lemma_trim_space(command);
}

/// A command under any other word than the three for its risk is refused: none is
/// ever taken as safe by default.
pub proof fn unknown_risks_are_refused(name: Seq<char>, command: Seq<char>)
    requires
        forall|i: int| 0 <= i < name.len() ==> #[trigger] name[i] != '\n',
        name.len() > 0 ==> name.last() != '\r',
        trim(name) != "safe"@,
        trim(name) != "moderate"@,
        trim(name) != "high"@,
        is_clean_line(command, 8192),
    ensures
        generated_output("RISK: "@ + name + "\nCOMMAND: "@ + command) == Err::<
            OutputView,
            ProviderErrorView,
        >(
            ProviderErrorView::InvalidResponse(
                "the command risk must be marked as safe, moderate, or high"@,
            ),
        ),
{
    lemma_clean_line(command);
    lemma_two_lines(name, command);
}

proof fn lemma_clean_line(line: Seq<char>)
    requires
        trim(line) == line,
        line.len() > 0,
    ensures
        !is_whitespace(line[0]) && !is_whitespace(line.last()),
        !has_control(line) ==> forall|i: int| 0 <= i < line.len() ==> #[trigger] line[i] != '\n',
{
    lemma_trimmed_ends(line);
    if !has_control(line) {
        assert forall|i: int| 0 <= i < line.len() implies #[trigger] line[i] != '\n' by {
            assert(!is_control(line[i]));
        }
    }
}

/// A command is refused, and never altered to fit, where it takes more than 8192
/// bytes, holds a control character or stands in a Markdown code fence.
pub proof fn unfit_commands_are_refused(command: Seq<char>)
    requires
        trim(command) == command,
        command.len() > 0,
        forall|i: int| 0 <= i < command.len() ==> #[trigger] command[i] != '\n',
    ensures
        generated_output("RISK: "@ + "safe"@ + "\nCOMMAND: "@ + command) == (if byte_length(command)
            > 8192 {
            Err(
                ProviderErrorView::InvalidCommand(
                    "the response exceeded "@ + "8192"@ + " bytes"@,
                ),
            )
        } else if exists|i: int| 0 <= i < command.len() && is_control(#[trigger] command[i]) {
            Err(
                ProviderErrorView::InvalidCommand(
                    "the response contained multiple lines or control characters"@,
                ),
            )
        } else if begins(command, "```"@) || ends(command, "```"@) {
            Err(
                ProviderErrorView::InvalidCommand("the response contained a Markdown code fence"@),
            )
        } else {
            Ok(OutputView::Command { command, risk: DestructiveRisk::Safe })
        }),
{
    reveal_strlit("safe");
    reveal_strlit("8192");
    reveal_with_fuel(crate::number::digits, 4);
    assert(decimal(8192) =~= "8192"@);
    lemma_clean_line(command);
    lemma_two_lines("safe"@, command);
    lemma_trim_fixed("safe"@);
}

/// A question is refused where it takes more than 1024 bytes, and an answer where
/// it takes more than 4096, and each where it holds a control character. Anything
/// else is given as it is.
pub proof fn unfit_information_is_refused(line: Seq<char>)
    requires
        trim(line) == line,
        line.len() > 0,
    ensures
        generated_output("QUESTION: "@ + line) == (if byte_length(line) > 1024 {
            Err(
                ProviderErrorView::InvalidResponse(
                    "invalid "@ + "clarification"@ + ": "@ + ("the response exceeded "@ + "1024"@
                        + " bytes"@),
                ),
            )
        } else if exists|i: int| 0 <= i < line.len() && is_control(#[trigger] line[i]) {
            Err(
                ProviderErrorView::InvalidResponse(
                    "invalid "@ + "clarification"@ + ": "@
                        + "the response contained multiple lines or control characters"@,
                ),
            )
        } else {
            Ok(OutputView::Clarification(line))
        }),
        generated_output("ANSWER: "@ + line) == (if byte_length(line) > 4096 {
            Err(
                ProviderErrorView::InvalidResponse(
                    "invalid "@ + "answer"@ + ": "@ + ("the response exceeded "@ + "4096"@
                        + " bytes"@),
                ),
            )
        } else if exists|i: int| 0 <= i < line.len() && is_control(#[trigger] line[i]) {
            Err(
                ProviderErrorView::InvalidResponse(
                    "invalid "@ + "answer"@ + ": "@
                        + "the response contained multiple lines or control characters"@,
                ),
            )
        } else {
            Ok(OutputView::Answer(line))
        }),
{
    reveal_strlit("1024");
    reveal_strlit("4096");
    reveal_with_fuel(crate::number::digits, 4);
    assert(decimal(1024) =~= "1024"@);
    assert(decimal(4096) =~= "4096"@);
    lemma_information(line);
}

proof fn lemma_information(line: Seq<char>)
    requires
        trim(line) == line,
        line.len() > 0,
    ensures
        ({
            let question = "QUESTION: "@ + line;
            let answer = "ANSWER: "@ + line;
            &&& trim(question) == question
            &&& !begins(question, "RISK:"@)
            &&& begins(question, "QUESTION:"@)
            &&& trim(question.skip("QUESTION:"@.len() as int)) == line
            &&& trim(answer) == answer
            &&& !begins(answer, "RISK:"@)
            &&& !begins(answer, "QUESTION:"@)
            &&& begins(answer, "ANSWER:"@)
            &&& trim(answer.skip("ANSWER:"@.len() as int)) == line
        }),
{
    reveal_strlit("QUESTION: ");
    reveal_strlit("QUESTION:");
    reveal_strlit("ANSWER: ");
    reveal_strlit("ANSWER:");
    reveal_strlit("RISK:");
    lemma_trimmed_ends(line);
    lemma_trim_space(line);
    let question = "QUESTION: "@ + line;
    assert(question.last() == line.last());
    assert(question[0] == 'Q');
    lemma_trim_fixed(question);
    assert(question.take(9) =~= "QUESTION:"@);
    assert(question.take(5)[0] == 'Q');
    assert(question.skip(9) =~= seq![' '] + line);
    let answer = "ANSWER: "@ + line;
    assert(answer.last() == line.last());
    assert(answer[0] == 'A');
    lemma_trim_fixed(answer);
    assert(answer.take(7) =~= "ANSWER:"@);
    assert(answer.take(5)[0] == 'A');
    assert(answer.len() >= 9 ==> answer.take(9)[0] == 'A');
    assert(answer.skip(7) =~= seq![' '] + line);
}

/// A command line that anything follows is refused: a reply holds one command.
pub proof fn one_reply_holds_one_command(
    command: Seq<char>,
    risk: DestructiveRisk,
    more: Seq<char>,
)
    requires
        is_clean_line(command, 8192),
        more.len() > 0,
        !is_whitespace(more.last()),
    ensures
        generated_output(command_reply(command, risk) + "\n"@ + more) == Err::<
            OutputView,
            ProviderErrorView,
        >(
            ProviderErrorView::InvalidResponse(
                "the command response contained more than two lines"@,
            ),
        ),
{
    reveal_strlit("\n");
    reveal_strlit("\nCOMMAND: ");
    reveal_strlit("safe");
    reveal_strlit("moderate");
    reveal_strlit("high");
    reveal_strlit("RISK: ");
    reveal_strlit("RISK:");
    reveal_strlit("COMMAND: ");
    reveal_strlit("COMMAND:");
    let name = risk.name();
    let first = "RISK: "@ + name;
    let second = "COMMAND: "@ + command;
    let content = command_reply(command, risk) + "\n"@ + more;
    lemma_clean_line(command);
    lemma_two_lines(name, command);
    assert(content[0] == 'R');
    assert(content.last() == more.last());
    lemma_trim_fixed(content);
    assert(content.take(5) =~= "RISK:"@);
    assert forall|i: int| 0 <= i < first.len() implies #[trigger] first[i] != '\n' by {
        if i >= 6 {
            assert(first[i] == name[i - 6]);
        }
    }
    assert(first.last() == name.last());
    assert forall|i: int| 0 <= i < second.len() implies #[trigger] second[i] != '\n' by {
        if i >= 9 {
            assert(second[i] == command[i - 9]);
        }
    }
    assert(second.last() == command.last());
    let rest = second + seq!['\n'] + more;
    lines_end_with_line_feeds(first, rest);
    lines_end_with_line_feeds(second, more);
    assert(content =~= first + seq!['\n'] + rest);
    let output = lines(content);
    assert(output[0] == first);
    assert(output[1] == second);
    lemma_some_line(more);
    assert(output.len() > 2);
    lemma_trim_fixed(name);
}

proof fn lemma_some_line(text: Seq<char>)
    requires
        text.len() > 0,
    ensures
        lines(text).len() > 0,
{
    lemma_first_position(text, '\n');
}

/// A message whose words stand with single spaces between them is reported as it
/// is, up to its first 300 characters.
pub proof fn short_messages_are_reported_whole(parts: Seq<Seq<char>>)
    requires
        forall|k: int| 0 <= k < parts.len() ==> (#[trigger] parts[k]).len() > 0,
        forall|k: int, i: int|
            0 <= k < parts.len() && 0 <= i < parts[k].len() ==> !is_whitespace(
                #[trigger] parts[k][i],
            ),
    ensures
        joined(parts, " "@).len() <= 300 ==> sanitized(joined(parts, " "@)) == joined(parts, " "@),
        joined(parts, " "@).len() > 300 ==> sanitized(joined(parts, " "@)) == joined(
            parts,
            " "@,
        ).take(300),
{
    reveal_strlit(" ");
    assert(" "@ =~= seq![' ']);
    assert forall|k: int, i: int|
        0 <= k < parts.len() && 0 <= i < parts[k].len() implies !separates(
        #[trigger] parts[k][i],
        Separator::Whitespace,
    ) by {
        assert(!is_whitespace(parts[k][i]));
    }
    joined_words_are_found_again(parts, ' ', Separator::Whitespace);
}

} // verus!
