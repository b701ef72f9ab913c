//! The questions of `ai setup`, from the provider to the configuration that is
//! saved.
//!
//! A `Setup` says what to ask next, is told what was entered, and ends with a
//! valid configuration or with an error.
use vstd::prelude::*;

use crate::config::{
    loaded_config, parsed_url, valid_config, Config, ConfigView, ContextConfig, GenerationConfig,
    ProviderConfig, ReadConfig, SafetyConfig, ToolsConfig, DEFAULT_CONTEXT_MAX_TURNS,
    DEFAULT_MAX_OUTPUT_TOKENS, DEFAULT_TIMEOUT_SECONDS,
};
use crate::error::{caused, outcome, Error};
use crate::provider::{
    hosted_providers_need_a_key, parsed_provider, provider_names_round_trip, unsupported_provider,
    Provider,
};
use crate::quote::debug_text;
use crate::secure_fs::{private_file, Metadata};
use crate::text::{clone_opt, join3, lemma_trimmed_ends, opt_text, text_eq, trim, trimmed};
use crate::ui;

verus! {

/// Refuses to ask where nobody can answer.
pub fn require_terminal(is_terminal: bool) -> (r: Result<(), Error>)
    ensures
        outcome(r) == (if is_terminal {
            Ok(())
        } else {
            Err("`ai setup` must be run from an interactive terminal"@)
        }),
{
    if !is_terminal {
        return Err(Error::of("`ai setup` must be run from an interactive terminal"));
    }
    Ok(())
}

// ---------------------------------------------------------------------------
// Answers.

/// What came of a question.
#[derive(Clone, PartialEq, Eq)]
pub enum Input {
    /// What was entered.
    Entered(String),
    /// The question could not be shown, for a reason.
    NotShown(String),
    /// The answer could not be read, for a reason.
    NotRead(String),
}

/// What an answer stands for: itself, or a default where it is blank.
pub open spec fn answer_or(entered: Seq<char>, default: Seq<char>) -> Seq<char> {
    if trim(entered).len() == 0 {
        default
    } else {
        trim(entered)
    }
}

/// What was answered to a question that has a default.
pub open spec fn answered(input: Input, default: Seq<char>) -> Result<Seq<char>, Seq<char>> {
    match input {
        Input::Entered(entered) => Ok(answer_or(entered@, default)),
        Input::NotShown(reason) => Err(caused("could not display setup prompt"@, reason@)),
        Input::NotRead(reason) => Err(caused("could not read setup input"@, reason@)),
    }
}

/// What was answered to a question that has a default.
pub fn prompt_value(input: Input, default: &str) -> (r: Result<String, Error>)
    ensures
        match r {
            Ok(text) => answered(input, default@) == Ok::<Seq<char>, Seq<char>>(text@),
            Err(error) => answered(input, default@) == Err::<Seq<char>, Seq<char>>(error@),
        },
{
    match input {
        Input::Entered(entered) => {
            let value = trimmed(entered.as_str());
            if value.as_str().is_empty() {
                Ok(default.to_owned())
            } else {
                Ok(value)
            }
        },
        Input::NotShown(reason) => Err(
            Error::caused("could not display setup prompt", reason.as_str()),
        ),
        Input::NotRead(reason) => Err(
            Error::caused("could not read setup input", reason.as_str()),
        ),
    }
}

// ---------------------------------------------------------------------------
// The key.

/// The key that an answer chooses. A blank answer keeps the key that there is,
/// and a hyphen drops it where the provider needs none.
pub open spec fn chosen_key(
    provider: Provider,
    entered: Seq<char>,
    existing: Option<ConfigView>,
) -> Result<Option<Seq<char>>, Seq<char>> {
    let value = trim(entered);
    let required = provider.facts().requires_api_key;
    if value == "-"@ && !required {
        Ok(None)
    } else if value.len() > 0 {
        Ok(Some(value))
    } else {
        match existing {
            Some(config) => Ok(config.api_key),
            None => if required {
                Err("a "@ + provider.facts().display_name + " API key is required"@)
            } else {
                Ok(None)
            },
        }
    }
}

/// The question for a key.
pub open spec fn key_question(provider: Provider, has_existing: bool) -> Seq<char> {
    "🔑 "@ + provider.facts().display_name + (if provider.facts().requires_api_key {
        if has_existing {
            " API key (Enter keeps the current key) › "@
        } else {
            " API key › "@
        }
    } else {
        if has_existing {
            " API key (optional; Enter keeps it, - clears it) › "@
        } else {
            " API key (optional) › "@
        }
    })
}

// ---------------------------------------------------------------------------
// The dialog.

/// What is to be done next.
#[derive(Clone, PartialEq, Eq)]
pub enum SetupPhase {
    /// Ask for the provider.
    ChooseProvider,
    /// Ask for the API key, without echo.
    EnterKey { provider: Provider },
    /// Ask for the model.
    EnterModel { provider: Provider, api_key: Option<String> },
    /// Ask for the base URL.
    EnterUrl { provider: Provider, api_key: Option<String>, model: String },
    /// Save the configuration.
    Save(Config),
    /// Report the error.
    Failed(Error),
}

/// What is to be done next, with its texts taken as characters.
pub enum SetupPhaseView {
    ChooseProvider,
    EnterKey { provider: Provider },
    EnterModel { provider: Provider, api_key: Option<Seq<char>> },
    EnterUrl { provider: Provider, api_key: Option<Seq<char>>, model: Seq<char> },
    Save(ConfigView),
    Failed(Seq<char>),
}

impl View for SetupPhase {
    type V = SetupPhaseView;

    open spec fn view(&self) -> SetupPhaseView {
        match *self {
            SetupPhase::ChooseProvider => SetupPhaseView::ChooseProvider,
            SetupPhase::EnterKey { provider } => SetupPhaseView::EnterKey { provider },
            SetupPhase::EnterModel { provider, api_key } => SetupPhaseView::EnterModel {
                provider,
                api_key: opt_text(api_key),
            },
            SetupPhase::EnterUrl { provider, api_key, model } => SetupPhaseView::EnterUrl {
                provider,
                api_key: opt_text(api_key),
                model: model@,
            },
            SetupPhase::Save(config) => SetupPhaseView::Save(config@),
            SetupPhase::Failed(error) => SetupPhaseView::Failed(error@),
        }
    }
}

/// A dialog that asks for a configuration.
#[derive(Clone, PartialEq, Eq)]
pub struct Setup {
    existing: Option<Config>,
    phase: SetupPhase,
}

/// A dialog, with its texts taken as characters.
pub struct SetupView {
    pub existing: Option<ConfigView>,
    pub phase: SetupPhaseView,
}

/// An optional configuration with its texts taken as characters.
pub open spec fn existing_view(config: Option<Config>) -> Option<ConfigView> {
    match config {
        Some(config) => Some(config@),
        None => None,
    }
}

impl View for Setup {
    type V = SetupView;

    closed spec fn view(&self) -> SetupView {
        SetupView { existing: existing_view(self.existing), phase: self.phase@ }
    }
}

/// The warning that an existing configuration will be replaced.
pub open spec fn replacement_warning(error: Seq<char>) -> Seq<char> {
    ui::WARNING@
        + " Existing configuration is invalid and will be replaced if setup completes · "@ + error
}

/// The list of the providers.
pub const PROVIDER_CHOICES: &'static str =
    "  1) OpenRouter\n  2) OpenAI\n  3) llama.cpp\n  4) vLLM\n";

/// The list of the providers with its title.
pub open spec fn provider_menu() -> Seq<char> {
    ui::AI@ + " AI provider\n"@ + PROVIDER_CHOICES@
}

/// The list of the providers with its title.
pub fn menu() -> (r: String)
    ensures
        r@ == provider_menu(),
{
    join3(ui::AI, " AI provider\n", PROVIDER_CHOICES)
}

impl SetupView {
    /// The existing configuration where it is for the given provider.
    pub open spec fn existing_for(self, provider: Provider) -> Option<ConfigView> {
        match self.existing {
            Some(config) => if config.kind == provider {
                Some(config)
            } else {
                None
            },
            None => None,
        }
    }

    /// The provider that is proposed.
    pub open spec fn proposed_provider(self) -> Provider {
        match self.existing {
            Some(config) => config.kind,
            None => Provider::OpenRouter,
        }
    }

    /// The model that is proposed, if any.
    pub open spec fn proposed_model(self, provider: Provider) -> Option<Seq<char>> {
        match self.existing_for(provider) {
            Some(config) => Some(config.model),
            None => provider.facts().default_model,
        }
    }

    /// The base URL that is proposed.
    pub open spec fn proposed_url(self, provider: Provider) -> Seq<char> {
        match self.existing_for(provider) {
            Some(config) => config.base_url,
            None => provider.facts().default_base_url,
        }
    }

    /// The question that is to be asked.
    pub open spec fn question(self) -> Seq<char> {
        match self.phase {
            SetupPhaseView::ChooseProvider => "Select provider ["@
                + self.proposed_provider().facts().id + "] › "@,
            SetupPhaseView::EnterKey { provider } => key_question(
                provider,
                self.existing_for(provider) is Some,
            ),
            SetupPhaseView::EnterModel { provider, .. } => match self.proposed_model(provider) {
                Some(model) => ui::AI@ + " "@ + provider.facts().display_name + " model ["@ + model
                    + "] › "@,
                None => ui::AI@ + " "@ + provider.facts().display_name + " served model › "@,
            },
            SetupPhaseView::EnterUrl { provider, .. } => provider.facts().display_name
                + " API base URL ["@ + self.proposed_url(provider) + "] › "@,
            _ => ""@,
        }
    }

    /// The configuration that the answers make, with the settings that are not
    /// asked for as they were or as they are by default.
    pub open spec fn assembled(
        self,
        provider: Provider,
        api_key: Option<Seq<char>>,
        model: Seq<char>,
        base_url: Seq<char>,
    ) -> ConfigView {
        match self.existing {
            Some(config) => ConfigView {
                kind: provider,
                api_key,
                model,
                base_url,
                generation: config.generation,
                context: config.context,
                tools: config.tools,
                safety: config.safety,
            },
            None => ConfigView {
                kind: provider,
                api_key,
                model,
                base_url,
                generation: GenerationConfig {
                    timeout_seconds: DEFAULT_TIMEOUT_SECONDS,
                    max_output_tokens: DEFAULT_MAX_OUTPUT_TOKENS,
                },
                context: ContextConfig { enabled: true, max_turns: DEFAULT_CONTEXT_MAX_TURNS },
                tools: ToolsConfig { file_io: false },
                safety: SafetyConfig { risk_warning: true },
            },
        }
    }

    /// What comes after the provider was chosen.
    pub open spec fn after_provider(self, input: Input) -> SetupPhaseView {
        match answered(input, self.proposed_provider().facts().id) {
            Err(error) => SetupPhaseView::Failed(error),
            Ok(choice) => match parsed_provider(choice) {
                Some(provider) => SetupPhaseView::EnterKey { provider },
                None => SetupPhaseView::Failed(unsupported_provider(choice)),
            },
        }
    }

    /// What comes after the key was entered.
    pub open spec fn after_key(self, provider: Provider, input: Input) -> SetupPhaseView {
        match input {
            Input::Entered(entered) => match chosen_key(
                provider,
                entered@,
                self.existing_for(provider),
            ) {
                Ok(api_key) => SetupPhaseView::EnterModel { provider, api_key },
                Err(error) => SetupPhaseView::Failed(error),
            },
            Input::NotShown(reason) | Input::NotRead(reason) => SetupPhaseView::Failed(
                caused("could not read the API key"@, reason@),
            ),
        }
    }

    /// What comes after the model was entered.
    pub open spec fn after_model(
        self,
        provider: Provider,
        api_key: Option<Seq<char>>,
        input: Input,
    ) -> SetupPhaseView {
        let default = match self.proposed_model(provider) {
            Some(model) => model,
            None => ""@,
        };
        match answered(input, default) {
            Err(error) => SetupPhaseView::Failed(error),
            Ok(model) => if model.len() == 0 {
                SetupPhaseView::Failed(
                    "a "@ + provider.facts().display_name + " model identifier is required"@,
                )
            } else {
                SetupPhaseView::EnterUrl { provider, api_key, model }
            },
        }
    }

    /// What comes after the base URL was entered.
    pub open spec fn after_url(
        self,
        provider: Provider,
        api_key: Option<Seq<char>>,
        model: Seq<char>,
        input: Input,
    ) -> SetupPhaseView {
        match answered(input, self.proposed_url(provider)) {
            Err(error) => SetupPhaseView::Failed(error),
            Ok(base_url) => {
                let config = self.assembled(provider, api_key, model, base_url);
                match valid_config(config, parsed_url(trim(base_url))) {
                    Ok(_) => SetupPhaseView::Save(config),
                    Err(error) => SetupPhaseView::Failed(error),
                }
            },
        }
    }

    /// What is to be done after an answer.
    pub open spec fn next(self, input: Input) -> SetupPhaseView {
        match self.phase {
            SetupPhaseView::ChooseProvider => self.after_provider(input),
            SetupPhaseView::EnterKey { provider } => self.after_key(provider, input),
            SetupPhaseView::EnterModel { provider, api_key } => self.after_model(
                provider,
                api_key,
                input,
            ),
            SetupPhaseView::EnterUrl { provider, api_key, model } => self.after_url(
                provider,
                api_key,
                model,
                input,
            ),
            _ => self.phase,
        }
    }

    /// The dialog after an answer.
    pub open spec fn after(self, input: Input) -> SetupView {
        SetupView { existing: self.existing, phase: self.next(input) }
    }
}

/// How the dialog begins: with the configuration that is taken up and the warning
/// that is given, or with the error.
pub open spec fn begun(path: Seq<char>, existing: Option<(Metadata, ReadConfig)>) -> Result<
    (Option<ConfigView>, Option<Seq<char>>),
    Seq<char>,
> {
    match existing {
        None => Ok((None, None)),
        Some((found, read)) => match loaded_config(path, found, read) {
            Ok(_) => Ok((Some(read->Parsed_0@), None)),
            Err(error) => if read is Unread || private_file(path, "configuration"@, found) is Err {
                Err(error)
            } else {
                Ok((None, Some(replacement_warning(error))))
            },
        },
    }
}

impl Setup {
    /// Begins the dialog. A configuration that exists at the path is taken up where
    /// it is valid; where it is not, a warning says that it will be replaced. One
    /// that is not private or cannot be read is an error.
    pub fn begin(path: &str, existing: Option<(Metadata, ReadConfig)>) -> (r: Result<
        (Self, Option<String>),
        Error,
    >)
        ensures
            match existing {
                None => r matches Ok((setup, warning)) && warning is None && setup@ == (SetupView {
                    existing: None,
                    phase: SetupPhaseView::ChooseProvider,
                }),
                Some((found, read)) => match loaded_config(path@, found, read) {
                    Ok(_) => r matches Ok((setup, warning)) && warning is None && setup@
                        == (SetupView {
                        existing: Some(read->Parsed_0@),
                        phase: SetupPhaseView::ChooseProvider,
                    }),
                    Err(error) => if read is Unread || private_file(
                        path@,
                        "configuration"@,
                        found,
                    ) is Err {
                        r matches Err(e) && e@ == error
                    } else {
                        r matches Ok((setup, warning)) && opt_text(warning) == Some(
                            replacement_warning(error),
                        ) && setup@ == (SetupView {
                            existing: None,
                            phase: SetupPhaseView::ChooseProvider,
                        })
                    },
                },
            },
            match r {
                Ok((setup, warning)) => {
                    &&& setup@.phase == SetupPhaseView::ChooseProvider
                    &&& begun(path@, existing) == Ok::<
                        (Option<ConfigView>, Option<Seq<char>>),
                        Seq<char>,
                    >((setup@.existing, opt_text(warning)))
                },
                Err(error) => begun(path@, existing) == Err::<
                    (Option<ConfigView>, Option<Seq<char>>),
                    Seq<char>,
                >(error@),
            },
    {
        let (found, read) = match existing {
            None => {
                return Ok(
                    (Setup { existing: None, phase: SetupPhase::ChooseProvider }, None),
                );
            },
            Some(existing) => existing,
        };
        let unread = matches!(read, ReadConfig::Unread(_)) || Config::read_from(
            path,
            &found,
        ).is_err();
        match Config::load_from(path, &found, read) {
            Ok(config) => Ok(
                (Setup { existing: Some(config), phase: SetupPhase::ChooseProvider }, None),
            ),
            Err(error) => {
                if unread {
                    return Err(error);
                }
                let warning = join3(
                    ui::WARNING,
                    " Existing configuration is invalid and will be replaced if setup completes · ",
                    error.message(),
                );
                Ok((Setup { existing: None, phase: SetupPhase::ChooseProvider }, Some(warning)))
            },
        }
    }

    /// What is to be done next.
    pub fn phase(&self) -> (r: &SetupPhase)
        ensures
            r@ == self@.phase,
    {
        &self.phase
    }

    /// The existing configuration where it is for the given provider.
    fn existing_for(&self, provider: Provider) -> (r: Option<&Config>)
        ensures
            match r {
                Some(config) => self@.existing_for(provider) == Some(config@),
                None => self@.existing_for(provider) is None,
            },
    {
        match &self.existing {
            Some(config) => if config.provider.kind == provider {
                Some(config)
            } else {
                None
            },
            None => None,
        }
    }

    /// The provider that is proposed.
    fn proposed_provider(&self) -> (r: Provider)
        ensures
            r == self@.proposed_provider(),
    {
        match &self.existing {
            Some(config) => config.provider.kind,
            None => Provider::OpenRouter,
        }
    }

    /// The model that is proposed, if any.
    fn proposed_model(&self, provider: Provider) -> (r: Option<String>)
        ensures
            opt_text(r) == self@.proposed_model(provider),
    {
        match self.existing_for(provider) {
            Some(config) => Some(config.provider.model.clone()),
            None => match provider.default_model() {
                Some(model) => Some(model.to_owned()),
                None => None,
            },
        }
    }

    /// The base URL that is proposed.
    fn proposed_url(&self, provider: Provider) -> (r: String)
        ensures
            r@ == self@.proposed_url(provider),
    {
        match self.existing_for(provider) {
            Some(config) => config.provider.base_url.clone(),
            None => provider.default_base_url().to_owned(),
        }
    }

    /// The question that is to be asked.
    pub fn question(&self) -> (r: String)
        ensures
            r@ == self@.question(),
    {
        match &self.phase {
            SetupPhase::ChooseProvider => join3(
                "Select provider [",
                self.proposed_provider().as_str(),
                "] › ",
            ),
            SetupPhase::EnterKey { provider } => {
                let kept = self.existing_for(*provider).is_some();
                let end = if provider.requires_api_key() {
                    if kept {
                        " API key (Enter keeps the current key) › "
                    } else {
                        " API key › "
                    }
                } else {
                    if kept {
                        " API key (optional; Enter keeps it, - clears it) › "
                    } else {
                        " API key (optional) › "
                    }
                };
                join3("🔑 ", provider.display_name(), end)
            },
            SetupPhase::EnterModel { provider, .. } => {
                let mut out = join3(ui::AI, " ", provider.display_name());
                match self.proposed_model(*provider) {
                    Some(model) => {
                        out.push_str(" model [");
                        out.push_str(model.as_str());
                        out.push_str("] › ");
                    },
                    None => {
                        out.push_str(" served model › ");
                    },
                }
                out
            },
            SetupPhase::EnterUrl { provider, .. } => {
                let mut out = join3(
                    provider.display_name(),
                    " API base URL [",
                    self.proposed_url(*provider).as_str(),
                );
                out.push_str("] › ");
                out
            },
            _ => "".to_owned(),
        }
    }

    /// The configuration that the answers make.
    fn assembled(
        &self,
        provider: Provider,
        api_key: Option<String>,
        model: String,
        base_url: String,
    ) -> (r: Config)
        ensures
            r@ == self@.assembled(provider, opt_text(api_key), model@, base_url@),
            r.provider.base_url@ == base_url@,
    {
        let provider = ProviderConfig { kind: provider, api_key, model, base_url };
        match &self.existing {
            Some(config) => Config {
                provider,
                generation: config.generation,
                context: config.context,
                tools: config.tools,
                safety: config.safety,
            },
            None => Config {
                provider,
                generation: GenerationConfig::default(),
                context: ContextConfig::default(),
                tools: ToolsConfig::default(),
                safety: SafetyConfig::default(),
            },
        }
    }

    /// What comes after the provider was chosen.
    fn after_provider(&self, input: Input) -> (r: SetupPhase)
        ensures
            r@ == self@.after_provider(input),
    {
        match prompt_value(input, self.proposed_provider().as_str()) {
            Err(error) => SetupPhase::Failed(error),
            Ok(choice) => match Provider::from_str(choice.as_str()) {
                Ok(provider) => SetupPhase::EnterKey { provider },
                Err(error) => SetupPhase::Failed(Error::new(error.message())),
            },
        }
    }

    /// What comes after the key was entered.
    fn after_key(&self, provider: Provider, input: Input) -> (r: SetupPhase)
        ensures
            r@ == self@.after_key(provider, input),
    {
        let entered = match input {
            Input::Entered(entered) => entered,
            Input::NotShown(reason) => {
                return SetupPhase::Failed(
                    Error::caused("could not read the API key", reason.as_str()),
                );
            },
            Input::NotRead(reason) => {
                return SetupPhase::Failed(
                    Error::caused("could not read the API key", reason.as_str()),
                );
            },
        };
        let value = trimmed(entered.as_str());
        if text_eq(value.as_str(), "-") && !provider.requires_api_key() {
            return SetupPhase::EnterModel { provider, api_key: None };
        }
        if !value.as_str().is_empty() {
            return SetupPhase::EnterModel { provider, api_key: Some(value) };
        }
        match self.existing_for(provider) {
            Some(config) => SetupPhase::EnterModel {
                provider,
                api_key: clone_opt(&config.provider.api_key),
            },
            None => if provider.requires_api_key() {
                SetupPhase::Failed(
                    Error::new(join3("a ", provider.display_name(), " API key is required")),
                )
            } else {
                SetupPhase::EnterModel { provider, api_key: None }
            },
        }
    }

    /// What comes after the model was entered.
    fn after_model(&self, provider: Provider, api_key: Option<String>, input: Input) -> (r:
        SetupPhase)
        ensures
            r@ == self@.after_model(provider, opt_text(api_key), input),
    {
        let default = match self.proposed_model(provider) {
            Some(model) => model,
            None => "".to_owned(),
        };
        match prompt_value(input, default.as_str()) {
            Err(error) => SetupPhase::Failed(error),
            Ok(model) => if model.as_str().is_empty() {
                SetupPhase::Failed(
                    Error::new(
                        join3("a ", provider.display_name(), " model identifier is required"),
                    ),
                )
            } else {
                SetupPhase::EnterUrl { provider, api_key, model }
            },
        }
    }

    /// What comes after the base URL was entered.
    fn after_url(
        &self,
        provider: Provider,
        api_key: Option<String>,
        model: String,
        input: Input,
    ) -> (r: SetupPhase)
        ensures
            r@ == self@.after_url(provider, opt_text(api_key), model@, input),
    {
        match prompt_value(input, self.proposed_url(provider).as_str()) {
            Err(error) => SetupPhase::Failed(error),
            Ok(base_url) => {
                let config = self.assembled(provider, api_key, model, base_url);
                match config.validate() {
                    Ok(_) => SetupPhase::Save(config),
                    Err(error) => SetupPhase::Failed(error),
                }
            },
        }
    }

    /// Takes note of an answer.
    pub fn answer(self, input: Input) -> (r: Self)
        ensures
            r@ == self@.after(input),
    {
        let phase = match &self.phase {
            SetupPhase::ChooseProvider => self.after_provider(input),
            SetupPhase::EnterKey { provider } => self.after_key(*provider, input),
            SetupPhase::EnterModel { provider, api_key } => self.after_model(
                *provider,
                clone_opt(api_key),
                input,
            ),
            SetupPhase::EnterUrl { provider, api_key, model } => self.after_url(
                *provider,
                clone_opt(api_key),
                model.clone(),
                input,
            ),
            _ => {
                return self;
            },
        };
        Setup { existing: self.existing, phase }
    }
}

// ---------------------------------------------------------------------------
// Laws.

impl SetupView {
    /// Whether a dialog can be under way: what it would save is valid.
    pub open spec fn is_valid(self) -> bool {
        self.phase matches SetupPhaseView::Save(config) ==> valid_config(
            config,
            parsed_url(trim(config.base_url)),
        ) is Ok
    }

    /// How many questions are left at most.
    pub open spec fn questions_left(self) -> int {
        match self.phase {
            SetupPhaseView::ChooseProvider => 4,
            SetupPhaseView::EnterKey { .. } => 3,
            SetupPhaseView::EnterModel { .. } => 2,
            SetupPhaseView::EnterUrl { .. } => 1,
            _ => 0,
        }
    }
}

/// Only valid configurations are saved, and the dialog ends after at most four
/// questions.
pub proof fn only_valid_configurations_are_saved(setup: SetupView, input: Input)
    requires
        setup.is_valid(),
    ensures
        setup.after(input).is_valid(),
        setup.questions_left() > 0 ==> setup.after(input).questions_left() < setup.questions_left(),
{
}

/// Blank answers keep an existing configuration: where it was valid, it is saved
/// as it was.
pub proof fn blank_answers_keep_the_configuration(config: ConfigView, blank: Input)
    requires
        valid_config(config, parsed_url(trim(config.base_url))) is Ok,
        blank matches Input::Entered(entered) && trim(entered@).len() == 0,
    ensures
        (SetupView { existing: Some(config), phase: SetupPhaseView::ChooseProvider }).after(
            blank,
        ).after(blank).after(blank).after(blank).phase == SetupPhaseView::Save(config),
{
    let start = SetupView { existing: Some(config), phase: SetupPhaseView::ChooseProvider };
    provider_names_round_trip(config.kind);
    let keyed = start.after(blank);
    assert(keyed.phase == SetupPhaseView::EnterKey { provider: config.kind });
    let named = keyed.after(blank);
    reveal_strlit("-");
    assert("-"@.len() == 1);
    assert(named.phase == SetupPhaseView::EnterModel {
        provider: config.kind,
        api_key: config.api_key,
    });
    let reached = named.after(blank);
    assert(trim(config.model).len() > 0);
    lemma_trimmed_ends(config.model);
    assert(reached.phase == SetupPhaseView::EnterUrl {
        provider: config.kind,
        api_key: config.api_key,
        model: config.model,
    });
    assert(reached.after(blank).phase == SetupPhaseView::Save(config));
}

/// What is entered is what is saved: a configuration with the provider that was
/// chosen and the key, the model and the base URL that were entered, without the
/// white space around them. What is not asked for stays as it was, or is as the
/// program comes: twenty seconds, 256 tokens, six turns that are remembered, no
/// file access and a warning before commands. It is saved exactly where it is
/// valid.
pub proof fn answers_are_what_is_saved(
    existing: Option<ConfigView>,
    provider: Provider,
    choice: String,
    key: String,
    model: String,
    url: String,
)
    requires
        trim(choice@).len() > 0,
        parsed_provider(trim(choice@)) == Some(provider),
        trim(key@).len() > 0,
        trim(key@) != "-"@,
        trim(model@).len() > 0,
        trim(url@).len() > 0,
    ensures
        ({
            let start = SetupView { existing, phase: SetupPhaseView::ChooseProvider };
            let end = start.after(Input::Entered(choice)).after(Input::Entered(key)).after(
                Input::Entered(model),
            ).after(Input::Entered(url)).phase;
            let wanted = ConfigView {
                kind: provider,
                api_key: Some(trim(key@)),
                model: trim(model@),
                base_url: trim(url@),
                generation: match existing {
                    Some(config) => config.generation,
                    None => GenerationConfig { timeout_seconds: 20, max_output_tokens: 256 },
                },
                context: match existing {
                    Some(config) => config.context,
                    None => ContextConfig { enabled: true, max_turns: 6 },
                },
                tools: match existing {
                    Some(config) => config.tools,
                    None => ToolsConfig { file_io: false },
                },
                safety: match existing {
                    Some(config) => config.safety,
                    None => SafetyConfig { risk_warning: true },
                },
            };
            match valid_config(wanted, parsed_url(trim(url@))) {
                Ok(_) => end == SetupPhaseView::Save(wanted),
                Err(error) => end == SetupPhaseView::Failed(error),
            }
        }),
{
    let start = SetupView { existing, phase: SetupPhaseView::ChooseProvider };
    let keyed = start.after(Input::Entered(choice));
    assert(keyed.phase == SetupPhaseView::EnterKey { provider });
    let named = keyed.after(Input::Entered(key));
    assert(named.phase == SetupPhaseView::EnterModel { provider, api_key: Some(trim(key@)) });
    let reached = named.after(Input::Entered(model));
    assert(reached.phase == SetupPhaseView::EnterUrl {
        provider,
        api_key: Some(trim(key@)),
        model: trim(model@),
    });
    lemma_trimmed_ends(url@);
    crate::text::lemma_trim_fixed(trim(url@));
}

/// A hyphen drops the key of a provider that needs none. Without a key a hosted
/// provider is refused, and a local one is used without.
pub proof fn keys_are_required_or_dropped(
    existing: Option<ConfigView>,
    provider: Provider,
    hyphen: String,
    blank: String,
)
    requires
        trim(hyphen@) == "-"@,
        trim(blank@).len() == 0,
    ensures
        ({
            let setup = SetupView { existing, phase: SetupPhaseView::EnterKey { provider } };
            let hosted = provider == Provider::OpenRouter || provider == Provider::OpenAi;
            &&& !hosted ==> setup.next(Input::Entered(hyphen)) == (SetupPhaseView::EnterModel {
                provider,
                api_key: None,
            })
            &&& hosted ==> setup.next(Input::Entered(hyphen)) == (SetupPhaseView::EnterModel {
                provider,
                api_key: Some("-"@),
            })
            &&& existing matches Some(config) ==> config.kind == provider ==> setup.next(
                Input::Entered(blank),
            ) == (SetupPhaseView::EnterModel { provider, api_key: config.api_key })
            &&& (existing is None || existing->0.kind != provider) && !hosted ==> setup.next(
                Input::Entered(blank),
            ) == (SetupPhaseView::EnterModel { provider, api_key: None })
            &&& (existing is None || existing->0.kind != provider) && hosted ==> setup.next(
                Input::Entered(blank),
            ) == SetupPhaseView::Failed(
                "a "@ + provider.facts().display_name + " API key is required"@,
            )
        }),
{
    reveal_strlit("-");
    assert("-"@.len() == 1);
    hosted_providers_need_a_key(provider);
}

/// What is proposed is what there is for the provider already, and otherwise what
/// the program proposes for it. The settings of one provider are never proposed
/// for another.
pub proof fn proposals_are_for_the_provider(
    existing: Option<ConfigView>,
    provider: Provider,
    api_key: Option<Seq<char>>,
    model: Seq<char>,
    blank: String,
)
    requires
        trim(blank@).len() == 0,
    ensures
        ({
            let known = existing matches Some(config) && config.kind == provider;
            let asked = SetupView {
                existing,
                phase: SetupPhaseView::EnterModel { provider, api_key },
            };
            let next = asked.next(Input::Entered(blank));
            &&& known && existing->0.model.len() > 0 ==> next == (SetupPhaseView::EnterUrl {
                provider,
                api_key,
                model: existing->0.model,
            })
            &&& !known && provider == Provider::OpenRouter ==> next == (SetupPhaseView::EnterUrl {
                provider,
                api_key,
                model: "openrouter/auto"@,
            })
            &&& !known && provider == Provider::OpenAi ==> next == (SetupPhaseView::EnterUrl {
                provider,
                api_key,
                model: "gpt-5.6-luna"@,
            })
            &&& !known && (provider == Provider::LlamaCpp || provider == Provider::Vllm) ==> next
                == SetupPhaseView::Failed(
                "a "@ + provider.facts().display_name + " model identifier is required"@,
            )
            &&& asked.proposed_url(provider) == (if known {
                existing->0.base_url
            } else {
                provider.facts().default_base_url
            })
            &&& existing is None ==> asked.proposed_provider() == Provider::OpenRouter
            &&& existing is Some ==> asked.proposed_provider() == existing->0.kind
        }),
{
    reveal_strlit("");
    reveal_strlit("openrouter/auto");
    reveal_strlit("gpt-5.6-luna");
    assert(""@.len() == 0 && "openrouter/auto"@.len() == 15 && "gpt-5.6-luna"@.len() == 12);
}

/// A question that could not be asked ends the dialog with the reason, and so does
/// an answer that names no provider.
pub proof fn failed_questions_end_the_dialog(setup: SetupView, reason: String, choice: String)
    ensures
        setup.questions_left() > 0 && !(setup.phase is EnterKey) ==> setup.next(
            Input::NotShown(reason),
        ) == SetupPhaseView::Failed("could not display setup prompt"@ + ": "@ + reason@),
        setup.questions_left() > 0 && !(setup.phase is EnterKey) ==> setup.next(
            Input::NotRead(reason),
        ) == SetupPhaseView::Failed("could not read setup input"@ + ": "@ + reason@),
        setup.phase is EnterKey ==> setup.next(Input::NotRead(reason)) == SetupPhaseView::Failed(
            "could not read the API key"@ + ": "@ + reason@,
        ),
        setup.phase is ChooseProvider && trim(choice@).len() > 0 && parsed_provider(
            trim(choice@),
        ) is None ==> setup.next(Input::Entered(choice)) == SetupPhaseView::Failed(
            "unsupported provider "@ + debug_text(trim(choice@))
                + "; expected OpenRouter, OpenAI, llama.cpp, or vLLM"@,
        ),
        setup.questions_left() == 0 ==> setup.next(Input::Entered(choice)) == setup.phase,
{
}

/// Each question names what a blank answer stands for, and a key is never shown.
pub proof fn questions_name_the_proposal(
    setup: SetupView,
    provider: Provider,
    key: Option<Seq<char>>,
    other_key: Option<Seq<char>>,
    model: Seq<char>,
)
    ensures
        (SetupView { phase: SetupPhaseView::ChooseProvider, ..setup }).question()
            == "Select provider ["@ + setup.proposed_provider().facts().id + "] › "@,
        (SetupView { phase: SetupPhaseView::EnterModel { provider, api_key: key }, ..setup })
            .question() == (SetupView {
            phase: SetupPhaseView::EnterModel { provider, api_key: other_key },
            ..setup
        }).question(),
        setup.proposed_model(provider) matches Some(proposed) ==> (SetupView {
            phase: SetupPhaseView::EnterModel { provider, api_key: key },
            ..setup
        }).question() == ui::AI@ + " "@ + provider.facts().display_name + " model ["@ + proposed
            + "] › "@,
        (SetupView { phase: SetupPhaseView::EnterUrl { provider, api_key: key, model }, ..setup })
            .question() == provider.facts().display_name + " API base URL ["@ + setup.proposed_url(
            provider,
        ) + "] › "@,
        key_question(provider, true) == "🔑 "@ + provider.facts().display_name + (if provider
            == Provider::OpenRouter || provider == Provider::OpenAi {
            " API key (Enter keeps the current key) › "@
        } else {
            " API key (optional; Enter keeps it, - clears it) › "@
        }),
        key_question(provider, false) == "🔑 "@ + provider.facts().display_name + (if provider
            == Provider::OpenRouter || provider == Provider::OpenAi {
            " API key › "@
        } else {
            " API key (optional) › "@
        }),
{
    hosted_providers_need_a_key(provider);
}

/// The dialog takes up a valid configuration that is kept in private. An invalid
/// one is replaced with a warning, and one that is not private or cannot be read
/// stops the dialog before it begins.
pub proof fn only_valid_configurations_are_taken_up(
    path: Seq<char>,
    found: Metadata,
    config: Config,
    reason: String,
)
    ensures
        ({
            let valid = valid_config(config@, parsed_url(trim(config.provider.base_url@)));
            let read = ReadConfig::Parsed(config);
            &&& begun(path, None) == Ok::<(Option<ConfigView>, Option<Seq<char>>), Seq<char>>(
                (None, None),
            )
            &&& private_file(path, "configuration"@, found) is Ok && valid is Ok ==> begun(
                path,
                Some((found, read)),
            ) == Ok::<(Option<ConfigView>, Option<Seq<char>>), Seq<char>>((Some(config@), None))
            &&& private_file(path, "configuration"@, found) is Ok ==> (valid matches Err(error)
                ==> begun(path, Some((found, read))) == Ok::<
                (Option<ConfigView>, Option<Seq<char>>),
                Seq<char>,
            >(
                (
                    None,
                    Some(
                        ui::WARNING@
                            + " Existing configuration is invalid and will be replaced if setup completes · "@
                            + error,
                    ),
                ),
            ))
            &&& (private_file(path, "configuration"@, found) matches Err(error) ==> begun(
                path,
                Some((found, read)),
            ) == Err::<(Option<ConfigView>, Option<Seq<char>>), Seq<char>>(error))
            &&& begun(path, Some((found, ReadConfig::Unread(reason)))) is Err
            &&& private_file(path, "configuration"@, found) is Ok ==> (begun(
                path,
                Some((found, ReadConfig::Malformed(reason))),
            ) matches Ok((None, Some(_))))
        }),
{
}

} // verus!
