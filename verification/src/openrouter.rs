//! The client that speaks to OpenRouter alone and only generates commands and
//! questions.
use vstd::prelude::*;
use vstd::utf8::encode_utf8;

use crate::bytes::{decode, utf8_text};
use crate::chat::{plain_message, ChatRequest, Message, ReasoningConfig, RequestView};
use crate::cli::Shell;
use crate::client::{strip_slashes, without_slashes, ChatResponse};
use crate::number::{decimal, to_decimal};
use crate::provider::{
    describe_status, reported_status, MAX_CLARIFICATION_BYTES, MAX_COMMAND_BYTES,
    MAX_RESPONSE_BYTES,
};
use crate::reply::{
    is_clean_line, is_fenced, sanitize_error, sanitized, single_line, validate_single_line,
};
use crate::text::{
    after_prefix, begins, byte_length, ends_with, join2, join3, lemma_trim_fixed, lemma_trim_space,
    lemma_trimmed_ends, opt_text, starts_with, strip_prefix, text_eq, trim, trimmed,
};

verus! {

// ---------------------------------------------------------------------------
// Outputs and errors.

/// What a model generated.
#[derive(Clone, Debug, PartialEq, Eq)]
pub enum GeneratedOutput {
    Command(String),
    Clarification(String),
}

/// What a model generated, with its text taken as characters.
pub enum GeneratedView {
    Command(Seq<char>),
    Clarification(Seq<char>),
}

impl View for GeneratedOutput {
    type V = GeneratedView;

    open spec fn view(&self) -> GeneratedView {
        match *self {
            GeneratedOutput::Command(command) => GeneratedView::Command(command@),
            GeneratedOutput::Clarification(question) => GeneratedView::Clarification(question@),
        }
    }
}

/// Why OpenRouter gave no usable output.
#[derive(Clone, Debug, PartialEq, Eq)]
pub enum OpenRouterError {
    Transport(String),
    Io(String),
    Api { status: u16, message: String },
    ResponseTooLarge,
    InvalidUtf8,
    InvalidResponse(String),
    InvalidCommand(String),
}

/// An error of OpenRouter, with its texts taken as characters.
pub enum OpenRouterErrorView {
    Transport(Seq<char>),
    Io(Seq<char>),
    Api { status: u16, message: Seq<char> },
    ResponseTooLarge,
    InvalidUtf8,
    InvalidResponse(Seq<char>),
    InvalidCommand(Seq<char>),
}

impl View for OpenRouterError {
    type V = OpenRouterErrorView;

    open spec fn view(&self) -> OpenRouterErrorView {
        match *self {
            OpenRouterError::Transport(source) => OpenRouterErrorView::Transport(source@),
            OpenRouterError::Io(source) => OpenRouterErrorView::Io(source@),
            OpenRouterError::Api { status, message } => OpenRouterErrorView::Api {
                status,
                message: message@,
            },
            OpenRouterError::ResponseTooLarge => OpenRouterErrorView::ResponseTooLarge,
            OpenRouterError::InvalidUtf8 => OpenRouterErrorView::InvalidUtf8,
            OpenRouterError::InvalidResponse(reason) => OpenRouterErrorView::InvalidResponse(
                reason@,
            ),
            OpenRouterError::InvalidCommand(reason) => OpenRouterErrorView::InvalidCommand(reason@),
        }
    }
}

/// How an error of OpenRouter is reported.
pub open spec fn openrouter_message(error: OpenRouterErrorView) -> Seq<char> {
    match error {
        OpenRouterErrorView::Transport(source) => "OpenRouter request failed: "@ + source,
        OpenRouterErrorView::Io(source) => "could not read the OpenRouter response: "@ + source,
        OpenRouterErrorView::Api { status, message } => "OpenRouter returned HTTP "@
            + reported_status(status) + ": "@ + message,
        OpenRouterErrorView::ResponseTooLarge => "OpenRouter returned more than "@ + decimal(
            MAX_RESPONSE_BYTES as nat,
        ) + " bytes"@,
        OpenRouterErrorView::InvalidUtf8 => "OpenRouter returned a non-UTF-8 response"@,
        OpenRouterErrorView::InvalidResponse(reason) =>
            "OpenRouter returned an invalid response: "@ + reason,
        OpenRouterErrorView::InvalidCommand(reason) => "the generated command is invalid: "@
            + reason,
    }
}

impl OpenRouterError {
    /// The words in which the error is reported.
    pub fn message(&self) -> (r: String)
        ensures
            r@ == openrouter_message(self@),
    {
        match self {
            OpenRouterError::Transport(source) => join2(
                "OpenRouter request failed: ",
                source.as_str(),
            ),
            OpenRouterError::Io(source) => join2(
                "could not read the OpenRouter response: ",
                source.as_str(),
            ),
            OpenRouterError::Api { status, message } => {
                let mut out = "OpenRouter returned HTTP ".to_owned();
                out.push_str(describe_status(*status).as_str());
                out.push_str(": ");
                out.push_str(message.as_str());
                out
            },
            OpenRouterError::ResponseTooLarge => join3(
                "OpenRouter returned more than ",
                to_decimal(MAX_RESPONSE_BYTES).as_str(),
                " bytes",
            ),
            OpenRouterError::InvalidUtf8 => "OpenRouter returned a non-UTF-8 response".to_owned(),
            OpenRouterError::InvalidResponse(reason) => join2(
                "OpenRouter returned an invalid response: ",
                reason.as_str(),
            ),
            OpenRouterError::InvalidCommand(reason) => join2(
                "the generated command is invalid: ",
                reason.as_str(),
            ),
        }
    }
}

/// An output with its parts taken by their views.
pub open spec fn output_view(r: Result<GeneratedOutput, OpenRouterError>) -> Result<
    GeneratedView,
    OpenRouterErrorView,
> {
    match r {
        Ok(output) => Ok(output@),
        Err(error) => Err(error@),
    }
}

/// A text with its error taken by its view.
pub open spec fn body_view(r: Result<String, OpenRouterError>) -> Result<
    Seq<char>,
    OpenRouterErrorView,
> {
    match r {
        Ok(text) => Ok(text@),
        Err(error) => Err(error@),
    }
}

/// A result with its error taken by its view.
pub open spec fn done_view(r: Result<(), OpenRouterError>) -> Result<(), OpenRouterErrorView> {
    match r {
        Ok(_) => Ok(()),
        Err(error) => Err(error@),
    }
}

// ---------------------------------------------------------------------------
// Requests.

/// The system prompt up to the first name of the shell.
pub const COMMAND_PROMPT_START: &'static str =
    "Translate the user's request into a shell command only when it identifies a concrete shell \
     operation. The user may write in any language. Output exactly one line using one of these \
     forms: COMMAND: <one executable ";

/// The system prompt between the two names of the shell.
pub const COMMAND_PROMPT_RULES: &'static str =
    " command line> or QUESTION: <one concise clarifying question>. Use QUESTION when the \
     request is vague, ambiguous, incomplete, unrelated to a shell operation, or cannot safely \
     become a concrete command. For example, 'um tabaco' requires a QUESTION asking what the \
     user wants to do with tobacco. Never use echo, printf, or another command to print a \
     clarification, refusal, or explanation. Do not use Markdown, a prompt marker, commentary, \
     or explanation outside the prefixed line. Do not add sudo unless the user explicitly \
     requests it. Quote concrete paths and values safely for ";

/// The end of the system prompt.
pub const COMMAND_PROMPT_END: &'static str =
    ". Do not invent placeholders when the user supplied concrete values. A command will be \
     shown for review and must not be described as already executed.";

/// The system prompt.
pub open spec fn command_instructions(shell: Shell) -> Seq<char> {
    COMMAND_PROMPT_START@ + shell.name() + COMMAND_PROMPT_RULES@ + shell.name()
        + COMMAND_PROMPT_END@
}

/// The system prompt.
pub fn system_prompt(shell: Shell) -> (r: String)
    ensures
        r@ == command_instructions(shell),
{
    let mut out = join3(COMMAND_PROMPT_START, shell.as_str(), COMMAND_PROMPT_RULES);
    out.push_str(shell.as_str());
    out.push_str(COMMAND_PROMPT_END);
    out
}

/// How a request is put to the model.
pub open spec fn command_question(
    os: Seq<char>,
    architecture: Seq<char>,
    request: Seq<char>,
) -> Seq<char> {
    "Operating system: "@ + os + "\nArchitecture: "@ + architecture + "\nRequest:\n"@ + request
}

/// How a request is put to the model.
pub fn user_prompt(os: &str, architecture: &str, request: &str) -> (r: String)
    ensures
        r@ == command_question(os@, architecture@, request@),
{
    let mut out = join3("Operating system: ", os, "\nArchitecture: ");
    out.push_str(architecture);
    out.push_str("\nRequest:\n");
    out.push_str(request);
    out
}

/// How OpenRouter is reached.
#[derive(Clone, PartialEq, Eq)]
pub struct OpenRouterConfig {
    pub api_key: String,
    pub model: String,
    pub base_url: String,
    pub timeout_seconds: u64,
    pub max_output_tokens: u32,
}

/// A client of OpenRouter.
#[derive(Clone, PartialEq, Eq)]
pub struct OpenRouterClient {
    api_key: String,
    model: String,
    base_url: String,
    timeout_seconds: u64,
    max_output_tokens: u32,
}

/// A client, with its texts taken as characters.
pub struct OpenRouterView {
    pub api_key: Seq<char>,
    pub model: Seq<char>,
    pub base_url: Seq<char>,
    pub timeout_seconds: u64,
    pub max_output_tokens: u32,
}

impl View for OpenRouterClient {
    type V = OpenRouterView;

    closed spec fn view(&self) -> OpenRouterView {
        OpenRouterView {
            api_key: self.api_key@,
            model: self.model@,
            base_url: self.base_url@,
            timeout_seconds: self.timeout_seconds,
            max_output_tokens: self.max_output_tokens,
        }
    }
}

impl OpenRouterView {
    /// The request for a command.
    pub open spec fn request(
        self,
        request: Seq<char>,
        shell: Shell,
        os: Seq<char>,
        architecture: Seq<char>,
    ) -> RequestView {
        RequestView {
            model: self.model,
            messages: seq![
                plain_message("system"@, command_instructions(shell)),
                plain_message("user"@, command_question(os, architecture, request)),
            ],
            max_tokens: Some(self.max_output_tokens),
            max_completion_tokens: None,
            stream: false,
            reasoning: Some(ReasoningConfig { enabled: false }),
            reasoning_effort: None,
            reasoning_format: None,
            chat_template_kwargs: None,
            tools: None,
            parallel_tool_calls: None,
        }
    }
}

impl OpenRouterClient {
    /// The client of a configuration.
    pub fn new(config: &OpenRouterConfig) -> (r: Self)
        ensures
            r@ == (OpenRouterView {
                api_key: trim(config.api_key@),
                model: trim(config.model@),
                base_url: without_slashes(trim(config.base_url@)),
                timeout_seconds: config.timeout_seconds,
                max_output_tokens: config.max_output_tokens,
            }),
    {
        OpenRouterClient {
            api_key: trimmed(config.api_key.as_str()),
            model: trimmed(config.model.as_str()),
            base_url: strip_slashes(trimmed(config.base_url.as_str()).as_str()),
            timeout_seconds: config.timeout_seconds,
            max_output_tokens: config.max_output_tokens,
        }
    }

    /// The key that is sent.
    pub fn api_key(&self) -> (r: &str)
        ensures
            r@ == self@.api_key,
    {
        self.api_key.as_str()
    }

    /// The title that every request carries.
    pub fn title(&self) -> (r: &'static str)
        ensures
            r@ == "aishell"@,
    {
        "aishell"
    }

    /// How long a request may take, in seconds.
    pub fn timeout_seconds(&self) -> (r: u64)
        ensures
            r == self@.timeout_seconds,
    {
        self.timeout_seconds
    }

    /// Where requests for a command go.
    pub fn chat_endpoint(&self) -> (r: String)
        ensures
            r@ == self@.base_url + "/chat/completions"@,
    {
        join2(self.base_url.as_str(), "/chat/completions")
    }

    /// Where the key is checked.
    pub fn check_key(&self) -> (r: String)
        ensures
            r@ == self@.base_url + "/key"@,
    {
        join2(self.base_url.as_str(), "/key")
    }

    /// The request for a command.
    pub fn generate(&self, request: &str, shell: Shell, os: &str, architecture: &str) -> (r:
        ChatRequest)
        ensures
            r@ == self@.request(request@, shell, os@, architecture@),
    {
        let mut messages: Vec<Message> = Vec::new();
        messages.push(Message::system(system_prompt(shell)));
        messages.push(Message::user(user_prompt(os, architecture, request)));
        let r = ChatRequest {
            model: self.model.clone(),
            messages,
            max_tokens: Some(self.max_output_tokens),
            max_completion_tokens: None,
            stream: false,
            reasoning: Some(ReasoningConfig { enabled: false }),
            reasoning_effort: None,
            reasoning_format: None,
            chat_template_kwargs: None,
            tools: None,
            parallel_tool_calls: None,
        };
        assert(r@ =~= self@.request(request@, shell, os@, architecture@));
        r
    }
}

// ---------------------------------------------------------------------------
// Responses.

/// The text of a response.
pub open spec fn openrouter_text(read: Result<Vec<u8>, String>) -> Result<
    Seq<char>,
    OpenRouterErrorView,
> {
    match read {
        Err(reason) => Err(OpenRouterErrorView::Io(reason@)),
        Ok(bytes) => if bytes@.len() > MAX_RESPONSE_BYTES {
            Err(OpenRouterErrorView::ResponseTooLarge)
        } else {
            match utf8_text(bytes@) {
                Some(body) => Ok(body),
                None => Err(OpenRouterErrorView::InvalidUtf8),
            }
        },
    }
}

/// The text of a response. The bytes are the reason where they could not be read,
/// and one more than the limit where there are more.
pub fn read_response(read: Result<Vec<u8>, String>) -> (r: Result<String, OpenRouterError>)
    ensures
        body_view(r) == openrouter_text(read),
{
    match read {
        Err(reason) => Err(OpenRouterError::Io(reason)),
        Ok(bytes) => {
            if bytes.len() as u64 > MAX_RESPONSE_BYTES {
                return Err(OpenRouterError::ResponseTooLarge);
            }
            match decode(bytes.as_slice()) {
                Some(body) => Ok(body),
                None => Err(OpenRouterError::InvalidUtf8),
            }
        },
    }
}

/// Whether a status is that of a success, or the error that it stands for.
pub open spec fn openrouter_status(status: u16, message: Option<Seq<char>>) -> Result<
    (),
    OpenRouterErrorView,
> {
    if 200 <= status < 300 {
        Ok(())
    } else {
        Err(
            OpenRouterErrorView::Api {
                status,
                message: match message {
                    Some(message) => sanitized(message),
                    None => "request failed without a readable error message"@,
                },
            },
        )
    }
}

/// Whether a status is that of a success. The message is what the response tells
/// of the error, if anything.
pub fn check_status(status: u16, message: Option<String>) -> (r: Result<(), OpenRouterError>)
    ensures
        done_view(r) == openrouter_status(status, opt_text(message)),
{
    if 200 <= status && status < 300 {
        return Ok(());
    }
    let message = match message {
        Some(message) => sanitize_error(message.as_str()),
        None => "request failed without a readable error message".to_owned(),
    };
    Err(OpenRouterError::Api { status, message })
}

/// The command that a text holds, or what is wrong with it.
pub open spec fn openrouter_command(content: Seq<char>) -> Result<Seq<char>, OpenRouterErrorView> {
    match single_line(content, MAX_COMMAND_BYTES as nat) {
        Err(reason) => Err(OpenRouterErrorView::InvalidCommand(reason)),
        Ok(line) => if is_fenced(line) {
            Err(
                OpenRouterErrorView::InvalidCommand(
                    "the response contained a Markdown code fence"@,
                ),
            )
        } else {
            Ok(line)
        },
    }
}

/// The command that a text holds.
pub fn validate_command(content: &str) -> (r: Result<String, OpenRouterError>)
    ensures
        body_view(r) == openrouter_command(content@),
{
    match validate_single_line(content, MAX_COMMAND_BYTES) {
        Err(reason) => Err(OpenRouterError::InvalidCommand(reason)),
        Ok(command) => {
            if starts_with(command.as_str(), "```") || ends_with(command.as_str(), "```") {
                Err(
                    OpenRouterError::InvalidCommand(
                        "the response contained a Markdown code fence".to_owned(),
                    ),
                )
            } else {
                Ok(command)
            }
        },
    }
}

/// The question that a text holds, or what is wrong with it.
pub open spec fn openrouter_question(content: Seq<char>) -> Result<
    Seq<char>,
    OpenRouterErrorView,
> {
    match single_line(content, MAX_CLARIFICATION_BYTES as nat) {
        Ok(line) => Ok(line),
        Err(reason) => Err(
            OpenRouterErrorView::InvalidResponse("invalid clarification: "@ + reason),
        ),
    }
}

/// The question that a text holds.
pub fn validate_clarification(content: &str) -> (r: Result<String, OpenRouterError>)
    ensures
        body_view(r) == openrouter_question(content@),
{
    match validate_single_line(content, MAX_CLARIFICATION_BYTES) {
        Ok(line) => Ok(line),
        Err(reason) => Err(
            OpenRouterError::InvalidResponse(join2("invalid clarification: ", reason.as_str())),
        ),
    }
}

/// The output that a text is marked as.
pub open spec fn openrouter_output(content: Seq<char>) -> Result<
    GeneratedView,
    OpenRouterErrorView,
> {
    let output = trim(content);
    match after_prefix(output, "COMMAND:"@) {
        Some(command) => match openrouter_command(command) {
            Ok(command) => Ok(GeneratedView::Command(command)),
            Err(error) => Err(error),
        },
        None => match after_prefix(output, "QUESTION:"@) {
            Some(question) => match openrouter_question(question) {
                Ok(question) => Ok(GeneratedView::Clarification(question)),
                Err(error) => Err(error),
            },
            None => Err(
                OpenRouterErrorView::InvalidResponse(
                    "the response was not marked as COMMAND or QUESTION"@,
                ),
            ),
        },
    }
}

/// The output that a text is marked as.
pub fn parse_generated_output(content: &str) -> (r: Result<GeneratedOutput, OpenRouterError>)
    ensures
        output_view(r) == openrouter_output(content@),
{
    let output = trimmed(content);
    match strip_prefix(output.as_str(), "COMMAND:") {
        Some(command) => {
            return match validate_command(command.as_str()) {
                Ok(command) => Ok(GeneratedOutput::Command(command)),
                Err(error) => Err(error),
            };
        },
        None => {},
    }
    match strip_prefix(output.as_str(), "QUESTION:") {
        Some(question) => {
            return match validate_clarification(question.as_str()) {
                Ok(question) => Ok(GeneratedOutput::Clarification(question)),
                Err(error) => Err(error),
            };
        },
        None => {},
    }
    Err(
        OpenRouterError::InvalidResponse(
            "the response was not marked as COMMAND or QUESTION".to_owned(),
        ),
    )
}

/// The output of a response.
pub open spec fn openrouter_reply(response: Result<ChatResponse, String>) -> Result<
    GeneratedView,
    OpenRouterErrorView,
> {
    match response {
        Err(reason) => Err(OpenRouterErrorView::InvalidResponse(reason@)),
        Ok(response) => if response.choices@.len() == 0 {
            Err(OpenRouterErrorView::InvalidResponse("no choice was returned"@))
        } else {
            let choice = response.choices@[0]@;
            match choice.content {
                Some(content) => openrouter_output(content),
                None => Err(
                    OpenRouterErrorView::InvalidResponse(
                        if choice.finish_reason == Some("length"@) {
                            "the output token limit was reached before text was returned"@
                        } else {
                            "no text choice was returned"@
                        },
                    ),
                ),
            }
        },
    }
}

/// The output of a response, which is the reason where it could not be parsed.
pub fn parse_chat_response(response: Result<ChatResponse, String>) -> (r: Result<
    GeneratedOutput,
    OpenRouterError,
>)
    ensures
        output_view(r) == openrouter_reply(response),
{
    let response = match response {
        Err(reason) => {
            return Err(OpenRouterError::InvalidResponse(reason));
        },
        Ok(response) => response,
    };
    if response.choices.len() == 0 {
        return Err(OpenRouterError::InvalidResponse("no choice was returned".to_owned()));
    }
    let choice = &response.choices[0];
    match &choice.message.content {
        Some(content) => parse_generated_output(content.as_str()),
        None => {
            let cut_off = match &choice.finish_reason {
                Some(reason) => text_eq(reason.as_str(), "length"),
                None => false,
            };
            let reason = if cut_off {
                "the output token limit was reached before text was returned"
            } else {
                "no text choice was returned"
            };
            Err(OpenRouterError::InvalidResponse(reason.to_owned()))
        },
    }
}

// ---------------------------------------------------------------------------
// Laws.

/// A clean line behind its mark is read back as what it is marked, and nothing
/// else is taken from a reply.
pub proof fn marked_lines_are_read_back(line: Seq<char>)
    ensures
        is_clean_line(line, 8192) && !is_fenced(line) ==> openrouter_output("COMMAND: "@ + line)
            == Ok::<GeneratedView, OpenRouterErrorView>(GeneratedView::Command(line)),
        is_clean_line(line, 1024) ==> openrouter_output("QUESTION: "@ + line) == Ok::<
            GeneratedView,
            OpenRouterErrorView,
        >(GeneratedView::Clarification(line)),
        trim(line) == line && byte_length(line) > 8192 ==> openrouter_output("COMMAND: "@ + line)
            == Err::<GeneratedView, OpenRouterErrorView>(
            OpenRouterErrorView::InvalidCommand("the response exceeded "@ + "8192"@ + " bytes"@),
        ),
        trim(line) == line && byte_length(line) > 1024 ==> openrouter_output("QUESTION: "@ + line)
            == Err::<GeneratedView, OpenRouterErrorView>(
            OpenRouterErrorView::InvalidResponse(
                "invalid clarification: "@ + ("the response exceeded "@ + "1024"@ + " bytes"@),
            ),
        ),
{
    reveal_strlit("8192");
    reveal_strlit("1024");
    reveal_with_fuel(crate::number::digits, 4);
    assert(decimal(8192) =~= "8192"@);
    assert(decimal(1024) =~= "1024"@);
    if trim(line) == line && line.len() > 0 {
        lemma_marks(line);
    } else if line.len() == 0 {
        assert(encode_utf8(line) =~= seq![]);
    }
}

proof fn lemma_marks(line: Seq<char>)
    requires
        trim(line) == line,
        line.len() > 0,
    ensures
        ({
            let command = "COMMAND: "@ + line;
            let question = "QUESTION: "@ + line;
            &&& trim(command) == command
            &&& (after_prefix(command, "COMMAND:"@) matches Some(rest) && trim(rest) == line)
            &&& trim(question) == question
            &&& after_prefix(question, "COMMAND:"@) is None
            &&& (after_prefix(question, "QUESTION:"@) matches Some(rest) && trim(rest) == line)
        }),
{
    reveal_strlit("COMMAND: ");
    reveal_strlit("COMMAND:");
    reveal_strlit("QUESTION: ");
    reveal_strlit("QUESTION:");
    lemma_trimmed_ends(line);
    lemma_trim_space(line);
    let command = "COMMAND: "@ + line;
    assert(command[0] == 'C' && command.last() == line.last());
    lemma_trim_fixed(command);
    assert(command.take(8) =~= "COMMAND:"@);
    assert(command.skip(8) =~= seq![' '] + line);
    let question = "QUESTION: "@ + line;
    assert(question[0] == 'Q' && question.last() == line.last());
    lemma_trim_fixed(question);
    assert(question.take(8)[0] == 'Q');
    assert(question.take(9) =~= "QUESTION:"@);
    assert(question.skip(9) =~= seq![' '] + line);
}

/// A reply that bears neither mark is refused.
pub proof fn unmarked_texts_are_refused(content: Seq<char>)
    requires
        !begins(trim(content), "COMMAND:"@),
        !begins(trim(content), "QUESTION:"@),
    ensures
        openrouter_output(content) == Err::<GeneratedView, OpenRouterErrorView>(
            OpenRouterErrorView::InvalidResponse(
                "the response was not marked as COMMAND or QUESTION"@,
            ),
        ),
{
}

/// A request tells the model the shell and the host, then the request itself, and
/// switches reasoning off.
pub proof fn requests_tell_the_shell_and_the_host(
    client: OpenRouterView,
    request: Seq<char>,
    shell: Shell,
    os: Seq<char>,
    architecture: Seq<char>,
)
    ensures
        ({
            let sent = client.request(request, shell, os, architecture);
            let name = match shell {
                Shell::Bash => "bash"@,
                Shell::Zsh => "zsh"@,
                Shell::Pwsh => "powershell"@,
                Shell::Cmd => "cmd"@,
            };
            &&& sent.model == client.model
            &&& sent.max_tokens == Some(client.max_output_tokens)
            &&& sent.max_completion_tokens is None
            &&& !sent.stream
            &&& sent.reasoning == Some(ReasoningConfig { enabled: false })
            &&& sent.tools is None
            &&& sent.messages.len() == 2
            &&& sent.messages[0].role == "system"@
            &&& sent.messages[0].content == Some(
                COMMAND_PROMPT_START@ + name + COMMAND_PROMPT_RULES@ + name + COMMAND_PROMPT_END@,
            )
            &&& sent.messages[1].role == "user"@
            &&& sent.messages[1].content == Some(
                "Operating system: "@ + os + "\nArchitecture: "@ + architecture + "\nRequest:\n"@
                    + request,
            )
        }),
{
}

/// A response is taken exactly where its status is one of success, is text, and
/// takes no more than 1048576 bytes. Every other is reported as what it is.
pub proof fn responses_are_checked(
    status: u16,
    message: Option<Seq<char>>,
    bytes: Vec<u8>,
    reason: String,
)
    ensures
        openrouter_status(status, message) matches Ok(_) <==> 200 <= status <= 299,
        openrouter_status(status, message) matches Err(error) ==> error == (
        OpenRouterErrorView::Api {
            status,
            message: match message {
                Some(text) => sanitized(text),
                None => "request failed without a readable error message"@,
            },
        }),
        bytes@.len() > 1048576 ==> openrouter_text(Ok(bytes)) == Err::<
            Seq<char>,
            OpenRouterErrorView,
        >(OpenRouterErrorView::ResponseTooLarge),
        bytes@.len() <= 1048576 ==> match openrouter_text(Ok(bytes)) {
            Ok(text) => encode_utf8(text) == bytes@,
            Err(error) => error == OpenRouterErrorView::InvalidUtf8 && !vstd::utf8::valid_utf8(
                bytes@,
            ),
        },
        openrouter_text(Err(reason)) == Err::<Seq<char>, OpenRouterErrorView>(
            OpenRouterErrorView::Io(reason@),
        ),
{
    if vstd::utf8::valid_utf8(bytes@) {
        vstd::utf8::decode_utf8_encode_utf8(bytes@);
    }
}

/// The first choice of a response counts, and where it has no text the reason is
/// told.
pub proof fn first_choices_count(response: ChatResponse)
    ensures
        response.choices@.len() == 0 ==> openrouter_reply(Ok(response)) == Err::<
            GeneratedView,
            OpenRouterErrorView,
        >(OpenRouterErrorView::InvalidResponse("no choice was returned"@)),
        response.choices@.len() > 0 ==> match opt_text(response.choices@[0].message.content) {
            Some(text) => openrouter_reply(Ok(response)) == openrouter_output(text),
            None => openrouter_reply(Ok(response)) == Err::<GeneratedView, OpenRouterErrorView>(
                OpenRouterErrorView::InvalidResponse(
                    if opt_text(response.choices@[0].finish_reason) == Some("length"@) {
                        "the output token limit was reached before text was returned"@
                    } else {
                        "no text choice was returned"@
                    },
                ),
            ),
        },
{
}

/// Every error names the provider or the command, and gives its reason in full.
pub proof fn failures_are_reported_in_full(status: u16, text: Seq<char>)
    ensures
        openrouter_message(OpenRouterErrorView::Transport(text)) == "OpenRouter request failed: "@
            + text,
        openrouter_message(OpenRouterErrorView::Io(text))
            == "could not read the OpenRouter response: "@ + text,
        openrouter_message(OpenRouterErrorView::Api { status, message: text })
            == "OpenRouter returned HTTP "@ + reported_status(status) + ": "@ + text,
        openrouter_message(OpenRouterErrorView::ResponseTooLarge)
            == "OpenRouter returned more than "@ + "1048576"@ + " bytes"@,
        openrouter_message(OpenRouterErrorView::InvalidUtf8)
            == "OpenRouter returned a non-UTF-8 response"@,
        openrouter_message(OpenRouterErrorView::InvalidResponse(text))
            == "OpenRouter returned an invalid response: "@ + text,
        openrouter_message(OpenRouterErrorView::InvalidCommand(text))
            == "the generated command is invalid: "@ + text,
{
    reveal_strlit("1048576");
    reveal_with_fuel(crate::number::digits, 7);
    assert(decimal(1048576) =~= "1048576"@);
}

} // verus!
