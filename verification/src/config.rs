//! The configuration.
use vstd::prelude::*;

use crate::error::{caused, outcome, text_outcome, Error};
use crate::loopback::{is_loopback, is_loopback_host};
use crate::number::{decimal, size_to_decimal, to_decimal};
use crate::paths::{
    config_base, config_file, in_program_directory, path_view, Environment, PrivatePath,
};
use crate::provider::Provider;
use crate::quote::{debug_quoted, debug_text};
use crate::secure_fs::{
    only_private_files_are_accepted, private_file, shown_mode, verify_private_file, Metadata,
};
use crate::text::{
    begins, contains_control, contains_whitespace, has_control, has_whitespace, is_one_line, join2,
    join3, opt_text, text_eq, trim, trimmed, truth, truth_text,
};

verus! {

/// How long a request may take, in seconds, where nothing else is configured.
pub const DEFAULT_TIMEOUT_SECONDS: u64 = 20;

/// How many tokens are generated at most where nothing else is configured.
pub const DEFAULT_MAX_OUTPUT_TOKENS: u32 = 256;

/// How many turns are remembered where nothing else is configured.
pub const DEFAULT_CONTEXT_MAX_TURNS: usize = 6;

/// The provider, its model and how it is reached.
#[derive(Clone, PartialEq, Eq)]
pub struct ProviderConfig {
    pub kind: Provider,
    pub api_key: Option<String>,
    pub model: String,
    pub base_url: String,
}

/// Limits of a request.
#[derive(Clone, Copy, Debug, PartialEq, Eq, Structural)]
pub struct GenerationConfig {
    pub timeout_seconds: u64,
    pub max_output_tokens: u32,
}

/// What is remembered.
#[derive(Clone, Copy, Debug, PartialEq, Eq, Structural)]
pub struct ContextConfig {
    pub enabled: bool,
    pub max_turns: usize,
}

/// What a model may do by itself.
#[derive(Clone, Copy, Debug, PartialEq, Eq, Structural)]
pub struct ToolsConfig {
    pub file_io: bool,
}

/// What is shown before a command.
#[derive(Clone, Copy, Debug, PartialEq, Eq, Structural)]
pub struct SafetyConfig {
    pub risk_warning: bool,
}

/// The configuration.
#[derive(Clone, PartialEq, Eq)]
pub struct Config {
    pub provider: ProviderConfig,
    pub generation: GenerationConfig,
    pub context: ContextConfig,
    pub tools: ToolsConfig,
    pub safety: SafetyConfig,
}

/// The configuration, with its texts taken as characters.
pub struct ConfigView {
    pub kind: Provider,
    pub api_key: Option<Seq<char>>,
    pub model: Seq<char>,
    pub base_url: Seq<char>,
    pub generation: GenerationConfig,
    pub context: ContextConfig,
    pub tools: ToolsConfig,
    pub safety: SafetyConfig,
}

impl View for Config {
    type V = ConfigView;

    open spec fn view(&self) -> ConfigView {
        ConfigView {
            kind: self.provider.kind,
            api_key: opt_text(self.provider.api_key),
            model: self.provider.model@,
            base_url: self.provider.base_url@,
            generation: self.generation,
            context: self.context,
            tools: self.tools,
            safety: self.safety,
        }
    }
}

impl Default for GenerationConfig {
    fn default() -> (r: Self)
        ensures
            r == (GenerationConfig {
                timeout_seconds: DEFAULT_TIMEOUT_SECONDS,
                max_output_tokens: DEFAULT_MAX_OUTPUT_TOKENS,
            }),
    {
        GenerationConfig {
            timeout_seconds: DEFAULT_TIMEOUT_SECONDS,
            max_output_tokens: DEFAULT_MAX_OUTPUT_TOKENS,
        }
    }
}

impl Default for ContextConfig {
    fn default() -> (r: Self)
        ensures
            r == (ContextConfig { enabled: true, max_turns: DEFAULT_CONTEXT_MAX_TURNS }),
    {
        ContextConfig { enabled: true, max_turns: DEFAULT_CONTEXT_MAX_TURNS }
    }
}

impl Default for ToolsConfig {
    fn default() -> (r: Self)
        ensures
            r == (ToolsConfig { file_io: false }),
    {
        ToolsConfig { file_io: false }
    }
}

impl Default for SafetyConfig {
    fn default() -> (r: Self)
        ensures
            r == (SafetyConfig { risk_warning: true }),
    {
        SafetyConfig { risk_warning: true }
    }
}

// ---------------------------------------------------------------------------
// URLs.

/// The parts of a URL.
#[derive(Clone, Debug, PartialEq, Eq)]
pub struct UrlParts {
    /// The whole URL as it is written.
    pub text: String,
    pub path: String,
    pub scheme: String,
    pub host: Option<String>,
    pub username: String,
    pub password: Option<String>,
    pub query: Option<String>,
    pub fragment: Option<String>,
}

/// The parts of a URL, as characters.
pub struct UrlView {
    pub text: Seq<char>,
    pub path: Seq<char>,
    pub scheme: Seq<char>,
    pub host: Option<Seq<char>>,
    pub username: Seq<char>,
    pub password: Option<Seq<char>>,
    pub query: Option<Seq<char>>,
    pub fragment: Option<Seq<char>>,
}

impl View for UrlParts {
    type V = UrlView;

    open spec fn view(&self) -> UrlView {
        UrlView {
            text: self.text@,
            path: self.path@,
            scheme: self.scheme@,
            host: opt_text(self.host),
            username: self.username@,
            password: opt_text(self.password),
            query: opt_text(self.query),
            fragment: opt_text(self.fragment),
        }
    }
}

/// What `Url::parse` makes of a text: the parts of a URL, or the words in which
/// the text is refused.
pub uninterp spec fn parsed_url(text: Seq<char>) -> Result<UrlView, Seq<char>>;

/// The parts of a URL, or why there are none, by their views.
pub open spec fn url_view(r: Result<UrlParts, String>) -> Result<UrlView, Seq<char>> {
    match r {
        Ok(parts) => Ok(parts@),
        Err(reason) => Err(reason@),
    }
}

/// Parses a URL with `reqwest::Url::parse` and hands out its parts, with the whole
/// as `Url::as_str` writes it. They depend on the text alone.
#[verifier::external_body]
pub(crate) fn parse_url(text: &str) -> (r: Result<UrlParts, String>)
    ensures
        url_view(r) == parsed_url(text@),
{
    match reqwest::Url::parse(text) {
        Ok(url) => Ok(UrlParts {
            text: url.as_str().to_owned(),
            path: url.path().to_owned(),
            scheme: url.scheme().to_owned(),
            host: url.host_str().map(str::to_owned),
            username: url.username().to_owned(),
            password: url.password().map(str::to_owned),
            query: url.query().map(str::to_owned),
            fragment: url.fragment().map(str::to_owned),
        }),
        Err(error) => Err(error.to_string()),
    }
}

// ---------------------------------------------------------------------------
// Validation.

/// Whether a URL is encrypted, or leads no further than to the computer itself.
pub open spec fn is_protected(url: UrlView) -> bool {
    url.scheme == "https"@ || (url.scheme == "http"@ && (url.host matches Some(host)
        && is_loopback(host)))
}

/// Whether a URL is a host and a path alone.
pub open spec fn is_plain(url: UrlView) -> bool {
    url.host is Some && url.username.len() == 0 && url.password is None && url.query is None
        && url.fragment is None
}

/// Whether an API key is accepted, or why not.
pub open spec fn valid_key(kind: Provider, api_key: Option<Seq<char>>) -> Result<(), Seq<char>> {
    match api_key {
        None => if kind.facts().requires_api_key {
            Err("provider.api_key is required for "@ + kind.facts().display_name)
        } else {
            Ok(())
        },
        Some(key) => if trim(key).len() == 0 {
            Err("provider.api_key cannot be empty"@)
        } else if has_control(trim(key)) {
            Err("provider.api_key cannot contain control characters"@)
        } else {
            Ok(())
        },
    }
}

/// Whether a base URL is accepted, or why not.
pub open spec fn valid_url(url: Result<UrlView, Seq<char>>) -> Result<(), Seq<char>> {
    match url {
        Err(reason) => Err(caused("provider.base_url is not a valid URL"@, reason)),
        Ok(url) => if !is_protected(url) {
            Err("provider.base_url must use HTTPS, except for loopback HTTP servers"@)
        } else if !is_plain(url) {
            Err(
                "provider.base_url must be an HTTP(S) origin and path without credentials or query parameters"@,
            )
        } else {
            Ok(())
        },
    }
}

/// Whether limits are accepted, or why not.
pub open spec fn valid_limits(generation: GenerationConfig, context: ContextConfig) -> Result<
    (),
    Seq<char>,
> {
    if !(1 <= generation.timeout_seconds <= 120) {
        Err("generation.timeout_seconds must be between 1 and 120"@)
    } else if !(16 <= generation.max_output_tokens <= 2048) {
        Err("generation.max_output_tokens must be between 16 and 2048"@)
    } else if !(1 <= context.max_turns <= 20) {
        Err("context.max_turns must be between 1 and 20"@)
    } else {
        Ok(())
    }
}

/// Whether a configuration with the given base URL is accepted, or the first
/// reason why not.
pub open spec fn valid_config(config: ConfigView, url: Result<UrlView, Seq<char>>) -> Result<
    (),
    Seq<char>,
> {
    if valid_key(config.kind, config.api_key) is Err {
        valid_key(config.kind, config.api_key)
    } else if trim(config.model).len() == 0 || has_whitespace(trim(config.model)) {
        Err(
            "provider.model must be a nonempty "@ + config.kind.facts().display_name
                + " model identifier"@,
        )
    } else if valid_url(url) is Err {
        valid_url(url)
    } else {
        valid_limits(config.generation, config.context)
    }
}

fn check_key(kind: Provider, api_key: &Option<String>) -> (r: Result<(), Error>)
    ensures
        outcome(r) == valid_key(kind, opt_text(*api_key)),
{
    match api_key {
        None => {
            if kind.requires_api_key() {
                return Err(
                    Error::new(join2("provider.api_key is required for ", kind.display_name())),
                );
            }
        },
        Some(key) => {
            let key = trimmed(key.as_str());
            if key.as_str().is_empty() {
                return Err(Error::of("provider.api_key cannot be empty"));
            }
            if contains_control(key.as_str()) {
                return Err(Error::of("provider.api_key cannot contain control characters"));
            }
        },
    }
    Ok(())
}

fn url_is_protected(url: &UrlParts) -> (r: bool)
    ensures
        r == is_protected(url@),
{
    if text_eq(url.scheme.as_str(), "https") {
        return true;
    }
    if !text_eq(url.scheme.as_str(), "http") {
        return false;
    }
    match &url.host {
        Some(host) => is_loopback_host(host.as_str()),
        None => false,
    }
}

fn check_url(url: Result<UrlParts, String>) -> (r: Result<(), Error>)
    ensures
        outcome(r) == valid_url(url_view(url)),
{
    match url {
        Err(reason) => Err(
            Error::caused("provider.base_url is not a valid URL", reason.as_str()),
        ),
        Ok(url) => {
            if !url_is_protected(&url) {
                return Err(
                    Error::of(
                        "provider.base_url must use HTTPS, except for loopback HTTP servers",
                    ),
                );
            }
            if url.host.is_none() || !url.username.as_str().is_empty() || url.password.is_some()
                || url.query.is_some() || url.fragment.is_some() {
                return Err(
                    Error::of(
                        "provider.base_url must be an HTTP(S) origin and path without credentials or query parameters",
                    ),
                );
            }
            Ok(())
        },
    }
}

fn check_limits(generation: GenerationConfig, context: ContextConfig) -> (r: Result<(), Error>)
    ensures
        outcome(r) == valid_limits(generation, context),
{
    if generation.timeout_seconds < 1 || generation.timeout_seconds > 120 {
        return Err(Error::of("generation.timeout_seconds must be between 1 and 120"));
    }
    if generation.max_output_tokens < 16 || generation.max_output_tokens > 2048 {
        return Err(Error::of("generation.max_output_tokens must be between 16 and 2048"));
    }
    if context.max_turns < 1 || context.max_turns > 20 {
        return Err(Error::of("context.max_turns must be between 1 and 20"));
    }
    Ok(())
}

/// What came of reading a configuration.
#[derive(Clone, PartialEq, Eq)]
pub enum ReadConfig {
    /// The file could not be read, for a reason.
    Unread(String),
    /// What the file holds is no configuration, for a reason.
    Malformed(String),
    Parsed(Config),
}

/// Whether what was read from a path is accepted as a configuration, or why not.
pub open spec fn read_config(path: Seq<char>, read: ReadConfig) -> Result<(), Seq<char>> {
    match read {
        ReadConfig::Unread(reason) => Err(
            caused("could not read "@ + path + "; run `ai setup` to create it"@, reason@),
        ),
        ReadConfig::Malformed(reason) => Err(
            caused("invalid configuration in "@ + path, reason@),
        ),
        ReadConfig::Parsed(config) => valid_config(
            config@,
            parsed_url(trim(config.provider.base_url@)),
        ),
    }
}

/// Whether the configuration at a path is accepted, or why not: what stands there
/// has to be a private file, and what was read from it a valid configuration.
pub open spec fn loaded_config(path: Seq<char>, found: Metadata, read: ReadConfig) -> Result<
    (),
    Seq<char>,
> {
    match private_file(path, "configuration"@, found) {
        Err(error) => Err(error),
        Ok(_) => read_config(path, read),
    }
}

/// What is shown of a configuration in front of the key.
pub open spec fn shown_before_key(kind: Seq<char>) -> Seq<char> {
    "[provider]\ntype = "@ + kind + "\n"@
}

/// The line that stands for a key.
pub open spec fn key_line() -> Seq<char> {
    "api_key = \"<redacted>\"\n"@
}

/// What is shown of a configuration behind the key.
pub open spec fn shown_after_key(config: ConfigView, model: Seq<char>, base_url: Seq<char>) -> Seq<
    char,
> {
    "model = "@ + model + "\nbase_url = "@ + base_url + "\n\n[generation]\ntimeout_seconds = "@
        + decimal(config.generation.timeout_seconds as nat) + "\nmax_output_tokens = "@ + decimal(
        config.generation.max_output_tokens as nat,
    ) + "\n\n[context]\nenabled = "@ + truth(config.context.enabled) + "\nmax_turns = "@ + decimal(
        config.context.max_turns as nat,
    ) + "\n\n[safety]\nrisk_warning = "@ + truth(config.safety.risk_warning) + "\n"@
}

/// The configuration as it is shown, without the API key. The texts are given as
/// they are quoted.
pub open spec fn redacted_with(
    config: ConfigView,
    kind: Seq<char>,
    model: Seq<char>,
    base_url: Seq<char>,
) -> Seq<char> {
    shown_before_key(kind) + (if config.api_key is Some {
        key_line()
    } else {
        ""@
    }) + shown_after_key(config, model, base_url)
}

/// The configuration as it is shown, without the API key.
pub open spec fn redacted(config: ConfigView) -> Seq<char> {
    redacted_with(
        config,
        debug_text(config.kind.facts().id),
        debug_text(config.model),
        debug_text(config.base_url),
    )
}

/// What is to be written where a configuration is saved, from whether it is
/// accepted and from what it was serialized to.
pub open spec fn text_to_save(
    accepted: Result<(), Seq<char>>,
    serialized: Result<String, String>,
) -> Result<Seq<char>, Seq<char>> {
    match (accepted, serialized) {
        (Err(error), _) => Err(error),
        (Ok(_), Ok(contents)) => Ok(contents@),
        (Ok(_), Err(reason)) => Err(caused("could not serialize configuration"@, reason@)),
    }
}

impl Config {
    /// The path of the configuration.
    pub fn path(environment: Environment) -> (r: Result<PrivatePath, Error>)
        ensures
            path_view(r) == in_program_directory(config_base(environment), "config.toml"@),
    {
        config_file(environment)
    }

    /// Whether the configuration at a path may be read, from what stands there.
    pub fn read_from(path: &str, found: &Metadata) -> (r: Result<(), Error>)
        ensures
            outcome(r) == private_file(path@, "configuration"@, *found),
    {
        verify_private_file(path, "configuration", found)
    }

    /// Accepts what was read from a path as a configuration.
    fn parse_from(path: &str, read: ReadConfig) -> (r: Result<Self, Error>)
        ensures
            match r {
                Ok(config) => read == ReadConfig::Parsed(config) && read_config(path@, read) is Ok,
                Err(error) => read_config(path@, read) == Err::<(), Seq<char>>(error@),
            },
    {
        match read {
            ReadConfig::Unread(reason) => {
                let step = join3("could not read ", path, "; run `ai setup` to create it");
                Err(Error::caused(step.as_str(), reason.as_str()))
            },
            ReadConfig::Malformed(reason) => Err(
                Error::caused(join2("invalid configuration in ", path).as_str(), reason.as_str()),
            ),
            ReadConfig::Parsed(config) => match config.validate() {
                Ok(_) => Ok(config),
                Err(error) => Err(error),
            },
        }
    }

    /// Accepts what was read from a path as a configuration, where a private file
    /// stands there.
    pub fn load_from(path: &str, found: &Metadata, read: ReadConfig) -> (r: Result<Self, Error>)
        ensures
            match r {
                Ok(config) => read == ReadConfig::Parsed(config) && loaded_config(
                    path@,
                    *found,
                    read,
                ) is Ok,
                Err(error) => loaded_config(path@, *found, read) == Err::<(), Seq<char>>(error@),
            },
    {
        match Config::read_from(path, found) {
            Err(error) => Err(error),
            Ok(_) => Config::parse_from(path, read),
        }
    }

    /// Accepts what was read from the path of the configuration, if there is one.
    pub fn load(path: Result<String, Error>, found: &Metadata, read: ReadConfig) -> (r: Result<
        Self,
        Error,
    >)
        ensures
            match (path, r) {
                (Err(error), r) => r matches Err(e) && e@ == error@,
                (Ok(path), Ok(config)) => read == ReadConfig::Parsed(config) && loaded_config(
                    path@,
                    *found,
                    read,
                ) is Ok,
                (Ok(path), Err(error)) => loaded_config(path@, *found, read) == Err::<
                    (),
                    Seq<char>,
                >(error@),
            },
    {
        match path {
            Ok(path) => Config::load_from(path.as_str(), found, read),
            Err(error) => Err(error),
        }
    }

    /// What is to be written where the configuration is saved: what it was
    /// serialized to, which is the reason where that failed. An invalid
    /// configuration is not written.
    pub fn save_to(&self, serialized: Result<String, String>) -> (r: Result<String, Error>)
        ensures
            text_outcome(r) == (match valid_config(
                self@,
                parsed_url(trim(self.provider.base_url@)),
            ) {
                Err(error) => Err(error),
                Ok(_) => match serialized {
                    Ok(contents) => Ok(contents@),
                    Err(reason) => Err(caused("could not serialize configuration"@, reason@)),
                },
            }),
            text_outcome(r) == text_to_save(
                valid_config(self@, parsed_url(trim(self.provider.base_url@))),
                serialized,
            ),
    {
        match self.validate() {
            Err(error) => {
                return Err(error);
            },
            Ok(_) => {},
        }
        match serialized {
            Ok(contents) => Ok(contents),
            Err(reason) => Err(
                Error::caused("could not serialize configuration", reason.as_str()),
            ),
        }
    }

    /// Whether the configuration is accepted.
    pub fn validate(&self) -> (r: Result<(), Error>)
        ensures
            outcome(r) == valid_config(self@, parsed_url(trim(self.provider.base_url@))),
    {
        self.validate_with(parse_url(trimmed(self.provider.base_url.as_str()).as_str()))
    }

    /// Whether the configuration is accepted with what its base URL was parsed to.
    pub fn validate_with(&self, url: Result<UrlParts, String>) -> (r: Result<(), Error>)
        ensures
            outcome(r) == valid_config(self@, url_view(url)),
    {
        match check_key(self.provider.kind, &self.provider.api_key) {
            Err(error) => {
                return Err(error);
            },
            Ok(_) => {},
        }
        let model = trimmed(self.provider.model.as_str());
        if model.as_str().is_empty() || contains_whitespace(model.as_str()) {
            return Err(
                Error::new(
                    join3(
                        "provider.model must be a nonempty ",
                        self.provider.kind.display_name(),
                        " model identifier",
                    ),
                ),
            );
        }
        match check_url(url) {
            Err(error) => {
                return Err(error);
            },
            Ok(_) => {},
        }
        check_limits(self.generation, self.context)
    }

    /// The configuration as it is shown, without the API key. Where there is no key,
    /// no line names one.
    pub fn redacted_toml(&self) -> (r: String)
        ensures
            r@ == redacted(self@),
            self@.api_key is None ==> names_no_key(r@),
    {
        let kind = debug_quoted(self.provider.kind.as_str());
        let model = debug_quoted(self.provider.model.as_str());
        let base_url = debug_quoted(self.provider.base_url.as_str());
        proof {
            if self@.api_key is None {
                missing_keys_are_not_named(self@, kind@, model@, base_url@);
            }
        }
        self.redacted_toml_with(kind.as_str(), model.as_str(), base_url.as_str())
    }

    /// The configuration as it is shown, without the API key. The texts are given
    /// as they are quoted.
    pub fn redacted_toml_with(&self, kind: &str, model: &str, base_url: &str) -> (r: String)
        ensures
            r@ == redacted_with(self@, kind@, model@, base_url@),
    {
        let mut out = join3("[provider]\ntype = ", kind, "\n");
        out.push_str(if self.provider.api_key.is_some() {
            "api_key = \"<redacted>\"\n"
        } else {
            ""
        });
        out.push_str(self.show_after_key(model, base_url).as_str());
        out
    }

    /// What is shown of the configuration behind the key.
    fn show_after_key(&self, model: &str, base_url: &str) -> (r: String)
        ensures
            r@ == shown_after_key(self@, model@, base_url@),
    {
        let mut out = join3("model = ", model, "\nbase_url = ");
        out.push_str(base_url);
        out.push_str("\n\n[generation]\ntimeout_seconds = ");
        out.push_str(to_decimal(self.generation.timeout_seconds).as_str());
        out.push_str("\nmax_output_tokens = ");
        out.push_str(to_decimal(self.generation.max_output_tokens as u64).as_str());
        out.push_str("\n\n[context]\nenabled = ");
        out.push_str(truth_text(self.context.enabled));
        out.push_str("\nmax_turns = ");
        out.push_str(size_to_decimal(self.context.max_turns).as_str());
        out.push_str("\n\n[safety]\nrisk_warning = ");
        out.push_str(truth_text(self.safety.risk_warning));
        out.push_str("\n");
        out
    }
}

/// How long a request may take where nothing else is configured.
pub fn default_timeout_seconds() -> (r: u64)
    ensures
        r == DEFAULT_TIMEOUT_SECONDS,
{
    DEFAULT_TIMEOUT_SECONDS
}

/// How many tokens are generated at most where nothing else is configured.
pub fn default_max_output_tokens() -> (r: u32)
    ensures
        r == DEFAULT_MAX_OUTPUT_TOKENS,
{
    DEFAULT_MAX_OUTPUT_TOKENS
}

/// Whether turns are remembered where nothing else is configured.
pub fn default_context_enabled() -> (r: bool)
    ensures
        r,
{
    true
}

/// How many turns are remembered where nothing else is configured.
pub fn default_context_max_turns() -> (r: usize)
    ensures
        r == DEFAULT_CONTEXT_MAX_TURNS,
{
    DEFAULT_CONTEXT_MAX_TURNS
}

// ---------------------------------------------------------------------------
// Laws.

/// The configuration is shown without the API key: whatever the key is, the same
/// comes out.
pub proof fn keys_are_never_shown(config: ConfigView, key: Seq<char>, other_key: Seq<char>)
    ensures
        redacted(ConfigView { api_key: Some(key), ..config }) == redacted(
            ConfigView { api_key: Some(other_key), ..config },
        ),
{
}

/// A key shows as one line that tells nothing of it, and in nothing else: where
/// there is no key, that line is left out, and all the rest is the same.
pub proof fn keys_show_as_one_line(config: ConfigView, key: Seq<char>)
    ensures
        ({
            let before = shown_before_key(debug_text(config.kind.facts().id));
            let after = shown_after_key(
                config,
                debug_text(config.model),
                debug_text(config.base_url),
            );
            &&& redacted(ConfigView { api_key: Some(key), ..config }) == before + key_line() + after
            &&& redacted(ConfigView { api_key: None, ..config }) == before + after
        }),
{
    let before = shown_before_key(debug_text(config.kind.facts().id));
    reveal_strlit("");
    assert(before + ""@ =~= before);
}

/// Whether no line of a text but perhaps the first begins with the character that
/// the name of the key begins with.
spec fn lines_begin_otherwise(s: Seq<char>) -> bool {
    forall|i: int| 0 < i < s.len() && s[i - 1] == '\n' ==> #[trigger] s[i] != 'a'
}

proof fn lemma_lines_begin_otherwise(s: Seq<char>, t: Seq<char>)
    requires
        lines_begin_otherwise(s),
        lines_begin_otherwise(t),
        s.len() > 0 && s.last() == '\n' && t.len() > 0 ==> t[0] != 'a',
    ensures
        lines_begin_otherwise(s + t),
{
    let u = s + t;
    assert forall|i: int| 0 < i < u.len() && u[i - 1] == '\n' implies #[trigger] u[i] != 'a' by {
        if i < s.len() {
            assert(u[i] == s[i] && u[i - 1] == s[i - 1]);
        } else if i == s.len() {
            assert(u[i] == t[0] && u[i - 1] == s.last());
        } else {
            assert(u[i] == t[i - s.len()] && u[i - 1] == t[i - s.len() - 1]);
        }
    }
}

proof fn lemma_decimals_are_one_line(n: nat)
    ensures
        is_one_line(decimal(n)),
    decreases n,
{
    if n >= 10 {
        lemma_decimals_are_one_line(n / 10);
    }
}

/// A piece of the shown configuration: a label and the value behind it, where the
/// label begins no line with the character in question.
proof fn lemma_labelled(shown: Seq<char>, label: Seq<char>, value: Seq<char>)
    requires
        lines_begin_otherwise(shown),
        lines_begin_otherwise(label),
        label.len() > 0 && label[0] != 'a' && label.last() != '\n',
        is_one_line(value),
    ensures
        lines_begin_otherwise(shown + label + value),
{
    lemma_lines_begin_otherwise(shown, label);
    assert((shown + label).last() == label.last());
    lemma_lines_begin_otherwise(shown + label, value);
}

/// Whether no line of a text begins with the name of the key.
pub open spec fn names_no_key(shown: Seq<char>) -> bool {
    forall|i: int|
        0 <= i < shown.len() && (i == 0 || shown[i - 1] == '\n') ==> !begins(
            #[trigger] shown.skip(i),
            "api_key"@,
        )
}

/// Where there is no key, no line of what is shown names one. The quoted texts stand
/// on one line each, which `redacted_toml` makes sure of.
pub proof fn missing_keys_are_not_named(
    config: ConfigView,
    kind: Seq<char>,
    model: Seq<char>,
    base_url: Seq<char>,
)
    requires
        config.api_key is None,
        is_one_line(kind),
        is_one_line(model),
        is_one_line(base_url),
    ensures
        names_no_key(redacted_with(config, kind, model, base_url)),
{
    reveal_strlit("[provider]\ntype = ");
    reveal_strlit("\n");
    reveal_strlit("");
    reveal_strlit("model = ");
    reveal_strlit("\nbase_url = ");
    reveal_strlit("\n\n[generation]\ntimeout_seconds = ");
    reveal_strlit("\nmax_output_tokens = ");
    reveal_strlit("\n\n[context]\nenabled = ");
    reveal_strlit("\nmax_turns = ");
    reveal_strlit("\n\n[safety]\nrisk_warning = ");
    reveal_strlit("true");
    reveal_strlit("false");
    reveal_strlit("api_key");
    let timeout = decimal(config.generation.timeout_seconds as nat);
    let tokens = decimal(config.generation.max_output_tokens as nat);
    let turns = decimal(config.context.max_turns as nat);
    lemma_decimals_are_one_line(config.generation.timeout_seconds as nat);
    lemma_decimals_are_one_line(config.generation.max_output_tokens as nat);
    lemma_decimals_are_one_line(config.context.max_turns as nat);
    let empty = Seq::<char>::empty();
    lemma_labelled(empty, "[provider]\ntype = "@, kind);
    assert(empty + "[provider]\ntype = "@ =~= "[provider]\ntype = "@);
    let before = shown_before_key(kind);
    lemma_lines_begin_otherwise("[provider]\ntype = "@ + kind, "\n"@);
    lemma_labelled(empty, "model = "@, model);
    assert(empty + "model = "@ =~= "model = "@);
    let s1 = "model = "@ + model;
    lemma_labelled(s1, "\nbase_url = "@, base_url);
    let s2 = s1 + "\nbase_url = "@ + base_url;
    lemma_labelled(s2, "\n\n[generation]\ntimeout_seconds = "@, timeout);
    let s3 = s2 + "\n\n[generation]\ntimeout_seconds = "@ + timeout;
    lemma_labelled(s3, "\nmax_output_tokens = "@, tokens);
    let s4 = s3 + "\nmax_output_tokens = "@ + tokens;
    lemma_labelled(s4, "\n\n[context]\nenabled = "@, truth(config.context.enabled));
    let s5 = s4 + "\n\n[context]\nenabled = "@ + truth(config.context.enabled);
    lemma_labelled(s5, "\nmax_turns = "@, turns);
    let s6 = s5 + "\nmax_turns = "@ + turns;
    lemma_labelled(s6, "\n\n[safety]\nrisk_warning = "@, truth(config.safety.risk_warning));
    let s7 = s6 + "\n\n[safety]\nrisk_warning = "@ + truth(config.safety.risk_warning);
    lemma_lines_begin_otherwise(s7, "\n"@);
    let after = shown_after_key(config, model, base_url);
    assert(after[0] == 'm');
    lemma_lines_begin_otherwise(before, after);
    let shown = redacted_with(config, kind, model, base_url);
    assert(before + ""@ =~= before);
    assert(shown == before + after);
    assert forall|i: int|
        0 <= i < shown.len() && (i == 0 || shown[i - 1] == '\n') implies !begins(
        #[trigger] shown.skip(i),
        "api_key"@,
    ) by {
        let rest = shown.skip(i);
        assert(rest[0] == shown[i]);
        assert(shown[0] == '[');
        if begins(rest, "api_key"@) {
            assert(rest.take("api_key"@.len() as int)[0] == rest[0]);
        }
    }
}

/// What is saved can be loaded: a configuration that is accepted to be saved is
/// accepted where it is read back from a private file.
pub proof fn saved_configurations_are_loaded(path: Seq<char>, found: Metadata, config: Config)
    requires
        valid_config(config@, parsed_url(trim(config.provider.base_url@))) is Ok,
        private_file(path, "configuration"@, found) is Ok,
    ensures
        loaded_config(path, found, ReadConfig::Parsed(config)) is Ok,
{
}

/// A configuration is never loaded through a link, nor from a file that others can
/// read or write, whatever it holds; and what is loaded is valid.
pub proof fn only_private_configurations_are_loaded(
    path: Seq<char>,
    found: Metadata,
    read: ReadConfig,
)
    ensures
        loaded_config(path, found, read) is Ok ==> {
            &&& (match found {
                Metadata::File { mode: Some(mode) } => mode & 0o077 == 0,
                Metadata::File { mode: None } => true,
                _ => false,
            })
            &&& (read matches ReadConfig::Parsed(config) && valid_config(
                config@,
                parsed_url(trim(config.provider.base_url@)),
            ) is Ok)
        },
        found matches Metadata::File { mode: Some(mode) } && mode & 0o077 != 0
            ==> loaded_config(path, found, read) == Err::<(), Seq<char>>(
            "configuration"@ + " "@ + path + " has insecure permissions "@ + shown_mode(
                found->mode->0,
            ) + "; run `chmod 600 "@ + path + "`"@,
        ),
{
    only_private_files_are_accepted(path, "configuration"@, found);
    match found {
        Metadata::File { mode: Some(mode) } => {
            assert(mode & 0o077 == mode % 64) by (bit_vector);
        },
        _ => {},
    }
}

/// An accepted configuration reaches its provider over HTTPS, or on the computer
/// itself, and names a key where the provider requires one. Its limits are within
/// their bounds.
pub proof fn accepted_configurations_are_protected(
    config: ConfigView,
    url: Result<UrlView, Seq<char>>,
)
    ensures
        valid_config(config, url) is Ok ==> {
            &&& url matches Ok(url) && is_protected(url) && is_plain(url)
            &&& config.kind.facts().requires_api_key ==> config.api_key is Some
            &&& config.api_key matches Some(key) ==> trim(key).len() > 0 && !has_control(trim(key))
            &&& trim(config.model).len() > 0 && !has_whitespace(trim(config.model))
            &&& 1 <= config.generation.timeout_seconds <= 120
            &&& 16 <= config.generation.max_output_tokens <= 2048
            &&& 1 <= config.context.max_turns <= 20
        },
{
}

/// Plain HTTP to another computer is refused.
pub proof fn remote_servers_need_encryption(config: ConfigView, url: UrlView)
    requires
        url.scheme == "http"@,
        url.host matches Some(host) ==> !is_loopback(host),
    ensures
        valid_config(config, Ok(url)) is Err,
{
    reveal_strlit("http");
    reveal_strlit("https");
    assert("http"@.len() == 4 && "https"@.len() == 5);
}

/// Whether a provider is one that cannot be used without a key.
pub open spec fn needs_key(kind: Provider) -> bool {
    kind == Provider::OpenRouter || kind == Provider::OpenAi
}

/// A configuration is accepted exactly where all of it is in order: the key, the
/// model, the base URL and the limits. Nothing else is asked of it.
pub proof fn configurations_in_order_are_accepted(
    config: ConfigView,
    url: Result<UrlView, Seq<char>>,
)
    ensures
        valid_config(config, url) is Ok <==> {
            &&& (match config.api_key {
                None => config.kind == Provider::LlamaCpp || config.kind == Provider::Vllm,
                Some(key) => trim(key).len() > 0 && !has_control(trim(key)),
            })
            &&& trim(config.model).len() > 0
            &&& !has_whitespace(trim(config.model))
            &&& (url matches Ok(url) && {
                &&& url.host is Some
                &&& url.scheme == "https"@ || (url.scheme == "http"@ && is_loopback(url.host->0))
                &&& url.username.len() == 0
                &&& url.password is None
                &&& url.query is None
                &&& url.fragment is None
            })
            &&& 1 <= config.generation.timeout_seconds <= 120
            &&& 16 <= config.generation.max_output_tokens <= 2048
            &&& 1 <= config.context.max_turns <= 20
        },
{
    crate::provider::hosted_providers_need_a_key(config.kind);
}

/// A configuration is refused for the first thing that is wrong with it: the key,
/// then the model, then the base URL, then the limits.
pub proof fn configurations_are_refused_for_the_first_reason(
    config: ConfigView,
    url: Result<UrlView, Seq<char>>,
)
    ensures
        ({
            let result = valid_config(config, url);
            let keyed = match config.api_key {
                None => !needs_key(config.kind),
                Some(key) => trim(key).len() > 0 && !has_control(trim(key)),
            };
            let named = trim(config.model).len() > 0 && !has_whitespace(trim(config.model));
            &&& config.api_key is None && needs_key(config.kind) ==> result == Err::<
                (),
                Seq<char>,
            >("provider.api_key is required for "@ + config.kind.facts().display_name)
            &&& (config.api_key matches Some(key) ==> {
                &&& trim(key).len() == 0 ==> result == Err::<(), Seq<char>>(
                    "provider.api_key cannot be empty"@,
                )
                &&& trim(key).len() > 0 && has_control(trim(key)) ==> result == Err::<
                    (),
                    Seq<char>,
                >("provider.api_key cannot contain control characters"@)
            })
            &&& keyed && !named ==> result == Err::<(), Seq<char>>(
                "provider.model must be a nonempty "@ + config.kind.facts().display_name
                    + " model identifier"@,
            )
            &&& keyed && named ==> {
                &&& (url matches Err(reason) ==> result == Err::<(), Seq<char>>(
                    "provider.base_url is not a valid URL"@ + ": "@ + reason,
                ))
                &&& (url matches Ok(url) ==> {
                    &&& !is_protected(url) ==> result == Err::<(), Seq<char>>(
                        "provider.base_url must use HTTPS, except for loopback HTTP servers"@,
                    )
                    &&& is_protected(url) && !is_plain(url) ==> result == Err::<(), Seq<char>>(
                        "provider.base_url must be an HTTP(S) origin and path without credentials or query parameters"@,
                    )
                })
            }
            &&& keyed && named && valid_url(url) is Ok ==> {
                let seconds = config.generation.timeout_seconds;
                let tokens = config.generation.max_output_tokens;
                let turns = config.context.max_turns;
                &&& seconds < 1 || seconds > 120 ==> result == Err::<(), Seq<char>>(
                    "generation.timeout_seconds must be between 1 and 120"@,
                )
                &&& 1 <= seconds <= 120 && (tokens < 16 || tokens > 2048) ==> result == Err::<
                    (),
                    Seq<char>,
                >("generation.max_output_tokens must be between 16 and 2048"@)
                &&& 1 <= seconds <= 120 && 16 <= tokens <= 2048 && (turns < 1 || turns > 20)
                    ==> result == Err::<(), Seq<char>>("context.max_turns must be between 1 and 20"@)
            }
        }),
{
    crate::provider::hosted_providers_need_a_key(config.kind);
}

/// A configuration that could not be read, or makes no sense, is reported with its
/// path and the reason. One that does not exist yet is to be created by the setup.
pub proof fn unusable_files_are_reported(path: Seq<char>, reason: String)
    ensures
        read_config(path, ReadConfig::Unread(reason)) == Err::<(), Seq<char>>(
            "could not read "@ + path + "; run `ai setup` to create it"@ + ": "@ + reason@,
        ),
        read_config(path, ReadConfig::Malformed(reason)) == Err::<(), Seq<char>>(
            "invalid configuration in "@ + path + ": "@ + reason@,
        ),
{
}

/// What is shown of a configuration are its own settings, each under its name.
pub proof fn settings_are_shown_under_their_names(
    config: ConfigView,
    kind: Seq<char>,
    model: Seq<char>,
    base_url: Seq<char>,
)
    ensures
        key_line() == "api_key = \"<redacted>\"\n"@,
        shown_before_key(kind) == "[provider]\ntype = "@ + kind + "\n"@,
        shown_after_key(config, model, base_url) == "model = "@ + model + "\nbase_url = "@ + base_url
            + "\n\n[generation]\ntimeout_seconds = "@ + decimal(
            config.generation.timeout_seconds as nat,
        ) + "\nmax_output_tokens = "@ + decimal(config.generation.max_output_tokens as nat)
            + "\n\n[context]\nenabled = "@ + (if config.context.enabled {
            "true"@
        } else {
            "false"@
        }) + "\nmax_turns = "@ + decimal(config.context.max_turns as nat)
            + "\n\n[safety]\nrisk_warning = "@ + (if config.safety.risk_warning {
            "true"@
        } else {
            "false"@
        }) + "\n"@,
        redacted(config) == redacted_with(
            config,
            debug_text(config.kind.facts().id),
            debug_text(config.model),
            debug_text(config.base_url),
        ),
{
}

/// What is written of an accepted configuration is what it was serialized to, and
/// nothing is written of any other.
pub proof fn only_accepted_configurations_are_written(
    accepted: Result<(), Seq<char>>,
    contents: String,
    reason: String,
)
    ensures
        accepted is Ok ==> text_to_save(accepted, Ok(contents)) == Ok::<Seq<char>, Seq<char>>(
            contents@,
        ),
        accepted is Ok ==> text_to_save(accepted, Err(reason)) == Err::<Seq<char>, Seq<char>>(
            "could not serialize configuration"@ + ": "@ + reason@,
        ),
        accepted matches Err(error) ==> text_to_save(accepted, Ok(contents)) == Err::<
            Seq<char>,
            Seq<char>,
        >(error),
{
}

} // verus!
