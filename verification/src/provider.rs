//! The AI providers, their outputs and their errors.
use vstd::prelude::*;

use crate::number::{decimal, size_to_decimal, to_decimal};
use crate::quote::{debug_quoted, debug_text};
use crate::text::{begins, lower, opt_text, text_eq, to_lower, trim, trimmed};
use crate::ui;

verus! {

/// More bytes than this are not read from a response.
pub const MAX_RESPONSE_BYTES: u64 = 1048576;

/// A generated command takes at most this many bytes.
pub const MAX_COMMAND_BYTES: usize = 8192;

/// A clarifying question takes at most this many bytes.
pub const MAX_CLARIFICATION_BYTES: usize = 1024;

/// An answer takes at most this many bytes.
pub const MAX_ANSWER_BYTES: usize = 4096;

/// How often an invalid response is asked for again.
pub const INVALID_RESPONSE_RETRIES: usize = 3;

/// How many file tool calls a model may make for one request.
pub const MAX_FILE_TOOL_CALLS: usize = 8;

/// A server that generates text.
#[derive(Clone, Copy, Debug, PartialEq, Eq, Structural)]
pub enum Provider {
    OpenRouter,
    OpenAi,
    LlamaCpp,
    Vllm,
}

/// The dialect in which a chat request is written.
#[derive(Clone, Copy, Debug, PartialEq, Eq, Structural)]
pub enum RequestStyle {
    Router,
    Official,
    Compatible,
}

/// The endpoint that a configuration is checked against.
#[derive(Clone, Copy, Debug, PartialEq, Eq, Structural)]
pub enum CheckStyle {
    Key,
    Model,
    Catalog,
}

/// What is known of a provider.
#[derive(Clone, Copy, Debug)]
pub struct ProviderProfile {
    pub id: &'static str,
    pub display_name: &'static str,
    pub default_model: Option<&'static str>,
    pub default_base_url: &'static str,
    pub requires_api_key: bool,
    pub request_style: RequestStyle,
    pub check_style: CheckStyle,
}

/// What is known of a provider, with its texts taken as characters.
pub struct ProfileView {
    pub id: Seq<char>,
    pub display_name: Seq<char>,
    pub default_model: Option<Seq<char>>,
    pub default_base_url: Seq<char>,
    pub requires_api_key: bool,
    pub request_style: RequestStyle,
    pub check_style: CheckStyle,
}

impl View for ProviderProfile {
    type V = ProfileView;

    open spec fn view(&self) -> ProfileView {
        ProfileView {
            id: self.id@,
            display_name: self.display_name@,
            default_model: match self.default_model {
                Some(model) => Some(model@),
                None => None,
            },
            default_base_url: self.default_base_url@,
            requires_api_key: self.requires_api_key,
            request_style: self.request_style,
            check_style: self.check_style,
        }
    }
}

impl Provider {
    /// What is known of the provider.
    pub open spec fn facts(self) -> ProfileView {
        match self {
            Provider::OpenRouter => ProfileView {
                id: "openrouter"@,
                display_name: "OpenRouter"@,
                default_model: Some("openrouter/auto"@),
                default_base_url: "https://openrouter.ai/api/v1"@,
                requires_api_key: true,
                request_style: RequestStyle::Router,
                check_style: CheckStyle::Key,
            },
            Provider::OpenAi => ProfileView {
                id: "openai"@,
                display_name: "OpenAI"@,
                default_model: Some("gpt-5.6-luna"@),
                default_base_url: "https://api.openai.com/v1"@,
                requires_api_key: true,
                request_style: RequestStyle::Official,
                check_style: CheckStyle::Model,
            },
            Provider::LlamaCpp => ProfileView {
                id: "llamacpp"@,
                display_name: "llama.cpp"@,
                default_model: None,
                default_base_url: "http://127.0.0.1:8080/v1"@,
                requires_api_key: false,
                request_style: RequestStyle::Compatible,
                check_style: CheckStyle::Catalog,
            },
            Provider::Vllm => ProfileView {
                id: "vllm"@,
                display_name: "vLLM"@,
                default_model: None,
                default_base_url: "http://127.0.0.1:8000/v1"@,
                requires_api_key: false,
                request_style: RequestStyle::Compatible,
                check_style: CheckStyle::Catalog,
            },
        }
    }

    /// Whether a trimmed, lower-case text selects the provider in the setup.
    pub open spec fn chosen_by(self, choice: Seq<char>) -> bool {
        match self {
            Provider::OpenRouter => choice == "1"@ || choice == "openrouter"@,
            Provider::OpenAi => choice == "2"@ || choice == "openai"@,
            Provider::LlamaCpp => choice == "3"@ || choice == "llamacpp"@ || choice == "llama.cpp"@
                || choice == "llama-cpp"@,
            Provider::Vllm => choice == "4"@ || choice == "vllm"@,
        }
    }

    /// What is known of the provider.
    pub fn profile(self) -> (r: ProviderProfile)
        ensures
            r@ == self.facts(),
    {
        match self {
            Provider::OpenRouter => ProviderProfile {
                id: "openrouter",
                display_name: "OpenRouter",
                default_model: Some("openrouter/auto"),
                default_base_url: "https://openrouter.ai/api/v1",
                requires_api_key: true,
                request_style: RequestStyle::Router,
                check_style: CheckStyle::Key,
            },
            Provider::OpenAi => ProviderProfile {
                id: "openai",
                display_name: "OpenAI",
                default_model: Some("gpt-5.6-luna"),
                default_base_url: "https://api.openai.com/v1",
                requires_api_key: true,
                request_style: RequestStyle::Official,
                check_style: CheckStyle::Model,
            },
            Provider::LlamaCpp => ProviderProfile {
                id: "llamacpp",
                display_name: "llama.cpp",
                default_model: None,
                default_base_url: "http://127.0.0.1:8080/v1",
                requires_api_key: false,
                request_style: RequestStyle::Compatible,
                check_style: CheckStyle::Catalog,
            },
            Provider::Vllm => ProviderProfile {
                id: "vllm",
                display_name: "vLLM",
                default_model: None,
                default_base_url: "http://127.0.0.1:8000/v1",
                requires_api_key: false,
                request_style: RequestStyle::Compatible,
                check_style: CheckStyle::Catalog,
            },
        }
    }

    /// The name under which the provider is configured.
    pub fn as_str(self) -> (r: &'static str)
        ensures
            r@ == self.facts().id,
    {
        self.profile().id
    }

    /// The name under which the provider is shown.
    pub fn display_name(self) -> (r: &'static str)
        ensures
            r@ == self.facts().display_name,
    {
        self.profile().display_name
    }

    /// The model that the setup proposes.
    pub fn default_model(self) -> (r: Option<&'static str>)
        ensures
            r is Some == self.facts().default_model is Some,
            r is Some ==> r->0@ == self.facts().default_model->0,
    {
        self.profile().default_model
    }

    /// The endpoint that the setup proposes.
    pub fn default_base_url(self) -> (r: &'static str)
        ensures
            r@ == self.facts().default_base_url,
    {
        self.profile().default_base_url
    }

    /// Whether the provider cannot be used without a key.
    pub fn requires_api_key(self) -> (r: bool)
        ensures
            r == self.facts().requires_api_key,
    {
        self.profile().requires_api_key
    }

    fn is_chosen_by(self, choice: &str) -> (r: bool)
        ensures
            r == self.chosen_by(choice@),
    {
        match self {
            Provider::OpenRouter => text_eq(choice, "1") || text_eq(choice, "openrouter"),
            Provider::OpenAi => text_eq(choice, "2") || text_eq(choice, "openai"),
            Provider::LlamaCpp => text_eq(choice, "3") || text_eq(choice, "llamacpp") || text_eq(
                choice,
                "llama.cpp",
            ) || text_eq(choice, "llama-cpp"),
            Provider::Vllm => text_eq(choice, "4") || text_eq(choice, "vllm"),
        }
    }

    /// The provider that an answer in the setup selects.
    pub fn from_str(value: &str) -> (r: Result<Self, ProviderParseError>)
        ensures
            match r {
                Ok(provider) => parsed_provider(value@) == Some(provider),
                Err(error) => parsed_provider(value@) is None && error@ == value@,
            },
    {
        let choice = to_lower(trimmed(value).as_str());
        if Provider::OpenRouter.is_chosen_by(choice.as_str()) {
            Ok(Provider::OpenRouter)
        } else if Provider::OpenAi.is_chosen_by(choice.as_str()) {
            Ok(Provider::OpenAi)
        } else if Provider::LlamaCpp.is_chosen_by(choice.as_str()) {
            Ok(Provider::LlamaCpp)
        } else if Provider::Vllm.is_chosen_by(choice.as_str()) {
            Ok(Provider::Vllm)
        } else {
            Err(ProviderParseError(value.to_owned()))
        }
    }
}

/// The provider that an answer in the setup selects, whatever the case of its
/// letters and the white space around it.
pub open spec fn parsed_provider(value: Seq<char>) -> Option<Provider> {
    let choice = lower(trim(value));
    if Provider::OpenRouter.chosen_by(choice) {
        Some(Provider::OpenRouter)
    } else if Provider::OpenAi.chosen_by(choice) {
        Some(Provider::OpenAi)
    } else if Provider::LlamaCpp.chosen_by(choice) {
        Some(Provider::LlamaCpp)
    } else if Provider::Vllm.chosen_by(choice) {
        Some(Provider::Vllm)
    } else {
        None
    }
}

/// An answer that selects no provider.
#[derive(Clone, Debug, PartialEq, Eq)]
pub struct ProviderParseError(pub String);

impl View for ProviderParseError {
    type V = Seq<char>;

    open spec fn view(&self) -> Seq<char> {
        self.0@
    }
}

impl ProviderParseError {
    /// The words in which the failure is reported.
    pub fn message(&self) -> (r: String)
        ensures
            r@ == unsupported_provider(self@),
    {
        let mut out = "unsupported provider ".to_owned();
        out.push_str(debug_quoted(self.0.as_str()).as_str());
        out.push_str("; expected OpenRouter, OpenAI, llama.cpp, or vLLM");
        out
    }
}

/// How an answer that selects no provider is reported.
pub open spec fn unsupported_provider(value: Seq<char>) -> Seq<char> {
    "unsupported provider "@ + debug_text(value)
        + "; expected OpenRouter, OpenAI, llama.cpp, or vLLM"@
}

// ---------------------------------------------------------------------------
// Outputs.

/// How destructive a command can be.
#[derive(Clone, Copy, Debug, PartialEq, Eq, Structural)]
pub enum DestructiveRisk {
    Safe,
    Moderate,
    High,
}

impl DestructiveRisk {
    /// The name that a model gives the level.
    pub open spec fn name(self) -> Seq<char> {
        match self {
            DestructiveRisk::Safe => "safe"@,
            DestructiveRisk::Moderate => "moderate"@,
            DestructiveRisk::High => "high"@,
        }
    }

    /// The color of the message that goes with the level.
    pub open spec fn color(self) -> Seq<char> {
        match self {
            DestructiveRisk::Safe => ui::LIGHT_GREEN@,
            DestructiveRisk::Moderate => ui::LIGHT_YELLOW@,
            DestructiveRisk::High => ui::LIGHT_RED@,
        }
    }

    /// The color of the message that goes with the level.
    pub fn message_color(self) -> (r: &'static str)
        ensures
            r@ == self.color(),
    {
        match self {
            DestructiveRisk::Safe => ui::LIGHT_GREEN,
            DestructiveRisk::Moderate => ui::LIGHT_YELLOW,
            DestructiveRisk::High => ui::LIGHT_RED,
        }
    }
}

/// What a model generated.
#[derive(Clone, Debug, PartialEq, Eq)]
pub enum GeneratedOutput {
    Command { command: String, risk: DestructiveRisk },
    Clarification(String),
    Answer(String),
}

/// What a model generated, with its texts taken as characters.
pub enum OutputView {
    Command { command: Seq<char>, risk: DestructiveRisk },
    Clarification(Seq<char>),
    Answer(Seq<char>),
}

impl View for GeneratedOutput {
    type V = OutputView;

    open spec fn view(&self) -> OutputView {
        match *self {
            GeneratedOutput::Command { command, risk } => OutputView::Command {
                command: command@,
                risk,
            },
            GeneratedOutput::Clarification(question) => OutputView::Clarification(question@),
            GeneratedOutput::Answer(answer) => OutputView::Answer(answer@),
        }
    }
}

// ---------------------------------------------------------------------------
// Errors.

/// Why a provider gave no usable output.
#[derive(Clone, Debug, PartialEq, Eq)]
pub enum ProviderError {
    Transport { provider: Provider, source: String },
    Io { provider: Provider, source: String },
    Api { provider: Provider, status: u16, message: String },
    ResponseTooLarge { provider: Provider },
    InvalidUtf8 { provider: Provider },
    ModelUnavailable { provider: Provider, model: String },
    FileTools(String),
    FileAudit(String),
    ToolLimitExceeded,
    InvalidResponse(String),
    InvalidCommand(String),
}

/// A provider's error, with its texts taken as characters.
pub enum ProviderErrorView {
    Transport { provider: Provider, source: Seq<char> },
    Io { provider: Provider, source: Seq<char> },
    Api { provider: Provider, status: u16, message: Seq<char> },
    ResponseTooLarge { provider: Provider },
    InvalidUtf8 { provider: Provider },
    ModelUnavailable { provider: Provider, model: Seq<char> },
    FileTools(Seq<char>),
    FileAudit(Seq<char>),
    ToolLimitExceeded,
    InvalidResponse(Seq<char>),
    InvalidCommand(Seq<char>),
}

impl View for ProviderError {
    type V = ProviderErrorView;

    open spec fn view(&self) -> ProviderErrorView {
        match *self {
            ProviderError::Transport { provider, source } => ProviderErrorView::Transport {
                provider,
                source: source@,
            },
            ProviderError::Io { provider, source } => ProviderErrorView::Io {
                provider,
                source: source@,
            },
            ProviderError::Api { provider, status, message } => ProviderErrorView::Api {
                provider,
                status,
                message: message@,
            },
            ProviderError::ResponseTooLarge { provider } => ProviderErrorView::ResponseTooLarge {
                provider,
            },
            ProviderError::InvalidUtf8 { provider } => ProviderErrorView::InvalidUtf8 { provider },
            ProviderError::ModelUnavailable { provider, model } => {
                ProviderErrorView::ModelUnavailable { provider, model: model@ }
            },
            ProviderError::FileTools(reason) => ProviderErrorView::FileTools(reason@),
            ProviderError::FileAudit(reason) => ProviderErrorView::FileAudit(reason@),
            ProviderError::ToolLimitExceeded => ProviderErrorView::ToolLimitExceeded,
            ProviderError::InvalidResponse(reason) => ProviderErrorView::InvalidResponse(reason@),
            ProviderError::InvalidCommand(reason) => ProviderErrorView::InvalidCommand(reason@),
        }
    }
}

/// A result with its parts taken by their views.
pub open spec fn reply_view(r: Result<GeneratedOutput, ProviderError>) -> Result<
    OutputView,
    ProviderErrorView,
> {
    match r {
        Ok(output) => Ok(output@),
        Err(error) => Err(error@),
    }
}

/// A result of a text with its parts taken by their views.
pub open spec fn text_view(r: Result<String, ProviderError>) -> Result<
    Seq<char>,
    ProviderErrorView,
> {
    match r {
        Ok(text) => Ok(text@),
        Err(error) => Err(error@),
    }
}

/// A result without a value with its error taken by its view.
pub open spec fn unit_view(r: Result<(), ProviderError>) -> Result<(), ProviderErrorView> {
    match r {
        Ok(()) => Ok(()),
        Err(error) => Err(error@),
    }
}

/// How an HTTP status is shown: its code and its canonical reason. `None` where
/// the number is no status code.
pub uninterp spec fn status_text(status: u16) -> Option<Seq<char>>;

/// Shows an HTTP status with `reqwest::StatusCode::from_u16` and its `Display`.
/// A number of three digits is a status code, and is shown with the code and a
/// space in front. Nothing is claimed of the reason phrase behind them; the same
/// number always comes out the same.
#[verifier::external_body]
fn shown_status(status: u16) -> (r: Option<String>)
    ensures
        opt_text(r) == status_text(status),
        r is Some <==> 100 <= status < 1000,
        r matches Some(text) ==> begins(text@, decimal(status as nat) + " "@),
{
    reqwest::StatusCode::from_u16(status).ok().map(|status| status.to_string())
}

/// How an HTTP status is reported: as it is shown, or by its number alone.
pub open spec fn reported_status(status: u16) -> Seq<char> {
    status_or_number(status_text(status), status)
}

/// What a status is shown as, or its number where it is not shown.
pub open spec fn status_or_number(shown: Option<Seq<char>>, status: u16) -> Seq<char> {
    match shown {
        Some(text) => text,
        None => decimal(status as nat),
    }
}

/// What a status is shown as, or its number where it is not shown.
pub fn report_status(shown: Option<String>, status: u16) -> (r: String)
    ensures
        r@ == status_or_number(opt_text(shown), status),
{
    match shown {
        Some(text) => text,
        None => to_decimal(status as u64),
    }
}

/// How an HTTP status is reported. Its number stands in front.
pub fn describe_status(status: u16) -> (r: String)
    ensures
        r@ == reported_status(status),
        begins(r@, decimal(status as nat)),
{
    let shown = shown_status(status);
    proof {
        let number = decimal(status as nat);
        let start = number + " "@;
        assert(start.take(number.len() as int) =~= number);
        assert(number.take(number.len() as int) =~= number);
        match opt_text(shown) {
            Some(text) => {
                assert(text.take(number.len() as int) =~= text.take(start.len() as int).take(
                    number.len() as int,
                ));
            },
            None => {},
        }
    }
    report_status(shown, status)
}

/// How a provider's error is reported.
pub open spec fn provider_message(error: ProviderErrorView) -> Seq<char> {
    match error {
        ProviderErrorView::Transport { provider, source } => provider.facts().display_name
            + " request failed: "@ + source,
        ProviderErrorView::Io { provider, source } => "could not read the "@
            + provider.facts().display_name + " response: "@ + source,
        ProviderErrorView::Api { provider, status, message } => provider.facts().display_name
            + " returned HTTP "@ + reported_status(status) + ": "@ + message,
        ProviderErrorView::ResponseTooLarge { provider } => provider.facts().display_name
            + " returned more than "@ + decimal(MAX_RESPONSE_BYTES as nat) + " bytes"@,
        ProviderErrorView::InvalidUtf8 { provider } => provider.facts().display_name
            + " returned a non-UTF-8 response"@,
        ProviderErrorView::ModelUnavailable { provider, model } => "the configured model "@
            + debug_text(model) + " is not served by "@ + provider.facts().display_name,
        ProviderErrorView::FileTools(reason) => "file tools are unavailable: "@ + reason,
        ProviderErrorView::FileAudit(reason) => "could not save the file I/O audit log: "@ + reason,
        ProviderErrorView::ToolLimitExceeded => "the model exceeded the limit of "@ + decimal(
            MAX_FILE_TOOL_CALLS as nat,
        ) + " file tool calls"@,
        ProviderErrorView::InvalidResponse(reason) =>
            "the AI provider returned an invalid response: "@ + reason,
        ProviderErrorView::InvalidCommand(reason) => "the generated command is invalid: "@ + reason,
    }
}

impl ProviderError {
    /// The words in which the error is reported.
    pub fn message(&self) -> (r: String)
        ensures
            r@ == provider_message(self@),
    {
        match self {
            ProviderError::Transport { provider, source } => {
                let mut out = provider.display_name().to_owned();
                out.push_str(" request failed: ");
                out.push_str(source.as_str());
                out
            },
            ProviderError::Io { provider, source } => {
                let mut out = "could not read the ".to_owned();
                out.push_str(provider.display_name());
                out.push_str(" response: ");
                out.push_str(source.as_str());
                out
            },
            ProviderError::Api { provider, status, message } => {
                let mut out = provider.display_name().to_owned();
                out.push_str(" returned HTTP ");
                out.push_str(describe_status(*status).as_str());
                out.push_str(": ");
                out.push_str(message.as_str());
                out
            },
            ProviderError::ResponseTooLarge { provider } => {
                let mut out = provider.display_name().to_owned();
                out.push_str(" returned more than ");
                out.push_str(to_decimal(MAX_RESPONSE_BYTES).as_str());
                out.push_str(" bytes");
                out
            },
            ProviderError::InvalidUtf8 { provider } => {
                let mut out = provider.display_name().to_owned();
                out.push_str(" returned a non-UTF-8 response");
                out
            },
            ProviderError::ModelUnavailable { provider, model } => {
                let mut out = "the configured model ".to_owned();
                out.push_str(debug_quoted(model.as_str()).as_str());
                out.push_str(" is not served by ");
                out.push_str(provider.display_name());
                out
            },
            ProviderError::FileTools(reason) => {
                let mut out = "file tools are unavailable: ".to_owned();
                out.push_str(reason.as_str());
                out
            },
            ProviderError::FileAudit(reason) => {
                let mut out = "could not save the file I/O audit log: ".to_owned();
                out.push_str(reason.as_str());
                out
            },
            ProviderError::ToolLimitExceeded => {
                let mut out = "the model exceeded the limit of ".to_owned();
                out.push_str(size_to_decimal(MAX_FILE_TOOL_CALLS).as_str());
                out.push_str(" file tool calls");
                out
            },
            ProviderError::InvalidResponse(reason) => {
                let mut out = "the AI provider returned an invalid response: ".to_owned();
                out.push_str(reason.as_str());
                out
            },
            ProviderError::InvalidCommand(reason) => {
                let mut out = "the generated command is invalid: ".to_owned();
                out.push_str(reason.as_str());
                out
            },
        }
    }
}

// ---------------------------------------------------------------------------
// Laws.

/// The name under which a provider is configured selects it in the setup.
pub proof fn provider_names_round_trip(provider: Provider)
    ensures
        parsed_provider(provider.facts().id) == Some(provider),
{
    reveal_strlit("1");
    reveal_strlit("2");
    reveal_strlit("3");
    reveal_strlit("4");
    reveal_strlit("openrouter");
    reveal_strlit("openai");
    reveal_strlit("llamacpp");
    reveal_strlit("llama.cpp");
    reveal_strlit("llama-cpp");
    reveal_strlit("vllm");
    let id = provider.facts().id;
    assert(id.len() > 1);
    assert(trim(id) =~= id) by {
        reveal_with_fuel(crate::text::trim_start, 2);
        reveal_with_fuel(crate::text::trim_end, 2);
        assert(!crate::text::is_whitespace(id[0]));
        assert(!crate::text::is_whitespace(id.last()));
    }
    assert(lower(id) =~= id);
    assert("openrouter"@.len() == 10 && "openai"@.len() == 6 && "llamacpp"@.len() == 8
        && "llama.cpp"@.len() == 9 && "llama-cpp"@.len() == 9 && "vllm"@.len() == 4);
}

proof fn lemma_choices_differ()
    ensures
        "1"@.len() == 1 && "1"@[0] == '1',
        "2"@.len() == 1 && "2"@[0] == '2',
        "3"@.len() == 1 && "3"@[0] == '3',
        "4"@.len() == 1 && "4"@[0] == '4',
        "openrouter"@.len() == 10,
        "openai"@.len() == 6,
        "llamacpp"@.len() == 8,
        "llama.cpp"@.len() == 9,
        "llama-cpp"@.len() == 9,
        "vllm"@.len() == 4,
{
    reveal_strlit("1");
    reveal_strlit("2");
    reveal_strlit("3");
    reveal_strlit("4");
    reveal_strlit("openrouter");
    reveal_strlit("openai");
    reveal_strlit("llamacpp");
    reveal_strlit("llama.cpp");
    reveal_strlit("llama-cpp");
    reveal_strlit("vllm");
}

/// Each provider is selected by its number and by its names alone, in letters of
/// either case and with any white space around them. Every other answer selects
/// none.
pub proof fn providers_are_selected_by_number_or_name(value: Seq<char>)
    ensures
        ({
            let choice = lower(trim(value));
            &&& parsed_provider(value) == Some(Provider::OpenRouter) <==> choice == "1"@ || choice
                == "openrouter"@
            &&& parsed_provider(value) == Some(Provider::OpenAi) <==> choice == "2"@ || choice
                == "openai"@
            &&& parsed_provider(value) == Some(Provider::LlamaCpp) <==> choice == "3"@ || choice
                == "llamacpp"@ || choice == "llama.cpp"@ || choice == "llama-cpp"@
            &&& parsed_provider(value) == Some(Provider::Vllm) <==> choice == "4"@ || choice
                == "vllm"@
        }),
{
    lemma_choices_differ();
}

/// The case of letters and the white space around an answer play no part in which
/// provider it selects.
pub proof fn answers_are_taken_whatever_their_case(value: Seq<char>)
    ensures
        parsed_provider(trim(value)) == parsed_provider(value),
        parsed_provider(lower(trim(value))) == parsed_provider(value),
{
    crate::text::lemma_trimmed_ends(value);
    crate::text::lemma_trim_fixed(trim(value));
    let t = trim(value);
    crate::text::lower_case_is_kept(t);
    if t.len() > 0 {
        assert(lower(t)[0] == crate::text::lower_char(t[0]));
        assert(lower(t).last() == crate::text::lower_char(t.last()));
    }
    crate::text::lemma_trim_fixed(lower(t));
}

/// The two hosted providers cannot be used without a key and are reached by
/// encrypted connections. The two that are run locally need no key and no model in
/// advance, and are reached on this machine.
pub proof fn hosted_providers_need_a_key(provider: Provider)
    ensures
        ({
            let facts = provider.facts();
            let hosted = provider == Provider::OpenRouter || provider == Provider::OpenAi;
            &&& facts.requires_api_key <==> hosted
            &&& facts.default_model is Some <==> hosted
            &&& begins(facts.default_base_url, "https://"@) <==> hosted
            &&& begins(facts.default_base_url, "http://127.0.0.1:"@) <==> !hosted
        }),
{
    reveal_strlit("https://");
    reveal_strlit("http://127.0.0.1:");
    reveal_strlit("https://openrouter.ai/api/v1");
    reveal_strlit("https://api.openai.com/v1");
    reveal_strlit("http://127.0.0.1:8080/v1");
    reveal_strlit("http://127.0.0.1:8000/v1");
    let url = provider.facts().default_base_url;
    let secure = "https://"@;
    let local = "http://127.0.0.1:"@;
    assert(url.take(8)[4] == url[4]);
    assert(url.take(17)[4] == url[4]);
    match provider {
        Provider::OpenRouter | Provider::OpenAi => {
            assert(url.take(8) =~= secure);
            assert(url[4] == 's');
        },
        Provider::LlamaCpp | Provider::Vllm => {
            assert(url.take(17) =~= local);
            assert(url[4] == ':');
        },
    }
}

/// Each provider is shown, proposed and asked in its own way.
pub proof fn providers_have_their_own_ways(provider: Provider)
    ensures
        match provider {
            Provider::OpenRouter => {
                &&& provider.facts().id == "openrouter"@
                &&& provider.facts().display_name == "OpenRouter"@
                &&& provider.facts().default_model == Some("openrouter/auto"@)
                &&& provider.facts().default_base_url == "https://openrouter.ai/api/v1"@
                &&& provider.facts().request_style == RequestStyle::Router
                &&& provider.facts().check_style == CheckStyle::Key
            },
            Provider::OpenAi => {
                &&& provider.facts().id == "openai"@
                &&& provider.facts().display_name == "OpenAI"@
                &&& provider.facts().default_model == Some("gpt-5.6-luna"@)
                &&& provider.facts().default_base_url == "https://api.openai.com/v1"@
                &&& provider.facts().request_style == RequestStyle::Official
                &&& provider.facts().check_style == CheckStyle::Model
            },
            Provider::LlamaCpp => {
                &&& provider.facts().id == "llamacpp"@
                &&& provider.facts().display_name == "llama.cpp"@
                &&& provider.facts().default_base_url == "http://127.0.0.1:8080/v1"@
                &&& provider.facts().request_style == RequestStyle::Compatible
                &&& provider.facts().check_style == CheckStyle::Catalog
            },
            Provider::Vllm => {
                &&& provider.facts().id == "vllm"@
                &&& provider.facts().display_name == "vLLM"@
                &&& provider.facts().default_base_url == "http://127.0.0.1:8000/v1"@
                &&& provider.facts().request_style == RequestStyle::Compatible
                &&& provider.facts().check_style == CheckStyle::Catalog
            },
        },
{
}

/// Every error that a provider is to blame for names that provider, and every
/// error that has a reason gives it in full.
pub proof fn errors_name_the_provider_and_the_reason(
    provider: Provider,
    status: u16,
    text: Seq<char>,
)
    ensures
        ({
            let name = provider.facts().display_name;
            &&& provider_message(ProviderErrorView::Transport { provider, source: text }) == name
                + " request failed: "@ + text
            &&& provider_message(ProviderErrorView::Io { provider, source: text })
                == "could not read the "@ + name + " response: "@ + text
            &&& provider_message(ProviderErrorView::Api { provider, status, message: text }) == name
                + " returned HTTP "@ + reported_status(status) + ": "@ + text
            &&& provider_message(ProviderErrorView::ResponseTooLarge { provider }) == name
                + " returned more than "@ + "1048576"@ + " bytes"@
            &&& provider_message(ProviderErrorView::InvalidUtf8 { provider }) == name
                + " returned a non-UTF-8 response"@
            &&& provider_message(ProviderErrorView::ModelUnavailable { provider, model: text })
                == "the configured model "@ + debug_text(text) + " is not served by "@ + name
            &&& provider_message(ProviderErrorView::FileTools(text))
                == "file tools are unavailable: "@ + text
            &&& provider_message(ProviderErrorView::FileAudit(text))
                == "could not save the file I/O audit log: "@ + text
            &&& provider_message(ProviderErrorView::ToolLimitExceeded)
                == "the model exceeded the limit of "@ + "8"@ + " file tool calls"@
            &&& provider_message(ProviderErrorView::InvalidResponse(text))
                == "the AI provider returned an invalid response: "@ + text
            &&& provider_message(ProviderErrorView::InvalidCommand(text))
                == "the generated command is invalid: "@ + text
        }),
{
    reveal_strlit("1048576");
    reveal_strlit("8");
    reveal_with_fuel(crate::number::digits, 7);
    assert(decimal(1048576) =~= "1048576"@);
    assert(decimal(8) =~= "8"@);
}

/// The message of a command is green where it is safe, yellow where its changes
/// can be undone, and red where they cannot.
pub proof fn risks_are_told_apart_by_color(risk: DestructiveRisk)
    ensures
        risk == DestructiveRisk::Safe <==> risk.color() == "\x1b[92m"@,
        risk == DestructiveRisk::Moderate <==> risk.color() == "\x1b[93m"@,
        risk == DestructiveRisk::High <==> risk.color() == "\x1b[91m"@,
        risk.name() == (match risk {
            DestructiveRisk::Safe => "safe"@,
            DestructiveRisk::Moderate => "moderate"@,
            DestructiveRisk::High => "high"@,
        }),
{
    reveal_strlit("\x1b[92m");
    reveal_strlit("\x1b[93m");
    reveal_strlit("\x1b[91m");
    assert("\x1b[92m"@[3] == '2' && "\x1b[93m"@[3] == '3' && "\x1b[91m"@[3] == '1');
}

} // verus!
