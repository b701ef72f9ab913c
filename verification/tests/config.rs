//! The configuration.
use aishell::config::{
    default_context_enabled, default_context_max_turns, default_max_output_tokens,
    default_timeout_seconds, Config, ContextConfig, GenerationConfig, ProviderConfig, ReadConfig,
    SafetyConfig, ToolsConfig, UrlParts,
};
use aishell::error::Error;
use aishell::provider::Provider;
use aishell::secure_fs::Metadata;

fn config() -> Config {
    Config {
        provider: ProviderConfig {
            kind: Provider::OpenRouter,
            api_key: Some("secret-value".into()),
            model: "openrouter/auto".into(),
            base_url: "https://openrouter.ai/api/v1".into(),
        },
        generation: GenerationConfig::default(),
        context: ContextConfig::default(),
        tools: ToolsConfig::default(),
        safety: SafetyConfig::default(),
    }
}

fn private() -> Metadata {
    Metadata::File { mode: Some(0o100600) }
}

fn refusal(config: &Config) -> String {
    config.validate().unwrap_err().message().to_owned()
}

#[test]
fn redaction_never_displays_the_api_key() {
    let shown = config().redacted_toml();
    assert!(!shown.contains("secret-value"));
    assert!(shown.contains("<redacted>"));
}

#[test]
fn redaction_shows_the_safety_setting() {
    let mut config = config();
    config.safety.risk_warning = false;
    assert!(config.redacted_toml().contains("[safety]\nrisk_warning = false"));
}

#[test]
fn redaction_shows_everything_but_the_key() {
    assert_eq!(
        config().redacted_toml(),
        "[provider]\ntype = \"openrouter\"\napi_key = \"<redacted>\"\nmodel = \"openrouter/auto\"\nbase_url = \"https://openrouter.ai/api/v1\"\n\n[generation]\ntimeout_seconds = 20\nmax_output_tokens = 256\n\n[context]\nenabled = true\nmax_turns = 6\n\n[safety]\nrisk_warning = true\n"
    );
    let mut other = config();
    other.provider.api_key = Some("another-secret".into());
    assert_eq!(other.redacted_toml(), config().redacted_toml());
    other.provider.api_key = None;
    assert!(!other.redacted_toml().contains("api_key"));
    other.provider.model = "a \"quoted\" model".into();
    assert!(other.redacted_toml().contains("model = \"a \\\"quoted\\\" model\""));
}

#[test]
fn parses_interactive_provider_choices() {
    assert_eq!(Provider::from_str("1").unwrap(), Provider::OpenRouter);
    assert_eq!(Provider::from_str("openrouter").unwrap(), Provider::OpenRouter);
    assert_eq!(Provider::from_str("2").unwrap(), Provider::OpenAi);
    assert_eq!(Provider::from_str("OpenAI").unwrap(), Provider::OpenAi);
    assert_eq!(Provider::from_str("3").unwrap(), Provider::LlamaCpp);
    assert_eq!(Provider::from_str("llama.cpp").unwrap(), Provider::LlamaCpp);
    assert_eq!(Provider::from_str("4").unwrap(), Provider::Vllm);
    assert!(Provider::from_str("other").is_err());
}

#[test]
fn unsupported_providers_are_quoted() {
    assert_eq!(
        Provider::from_str("ot\"her").unwrap_err().message(),
        "unsupported provider \"ot\\\"her\"; expected OpenRouter, OpenAI, llama.cpp, or vLLM"
    );
}

#[test]
fn redacted_openai_configuration_uses_the_selected_provider() {
    let mut config = config();
    config.provider = ProviderConfig {
        kind: Provider::OpenAi,
        api_key: Some("openai-secret".into()),
        model: "gpt-5.6-luna".into(),
        base_url: "https://api.openai.com/v1".into(),
    };

    let shown = config.redacted_toml();
    assert!(shown.contains("type = \"openai\""));
    assert!(shown.contains("model = \"gpt-5.6-luna\""));
    assert!(!shown.contains("openai-secret"));
}

#[test]
fn accepts_keyless_loopback_servers() {
    for (kind, base_url) in [
        (Provider::LlamaCpp, "http://127.0.0.1:8080/v1"),
        (Provider::Vllm, "http://[::1]:8000/v1"),
    ] {
        let mut config = config();
        config.provider = ProviderConfig {
            kind,
            api_key: None,
            model: "local-model".into(),
            base_url: base_url.into(),
        };
        config.validate().unwrap();
    }
}

#[test]
fn rejects_unencrypted_remote_servers() {
    let mut config = config();
    config.provider = ProviderConfig {
        kind: Provider::Vllm,
        api_key: None,
        model: "local-model".into(),
        base_url: "http://inference.example/v1".into(),
    };

    assert!(config.validate().is_err());
    assert_eq!(
        refusal(&config),
        "provider.base_url must use HTTPS, except for loopback HTTP servers"
    );
}

#[test]
fn the_default_configuration_is_valid() {
    config().validate().unwrap();
    assert_eq!(default_timeout_seconds(), 20);
    assert_eq!(default_max_output_tokens(), 256);
    assert!(default_context_enabled());
    assert_eq!(default_context_max_turns(), 6);
    assert!(!ToolsConfig::default().file_io);
    assert!(SafetyConfig::default().risk_warning);
}

#[test]
fn keys_are_checked() {
    let mut config = config();
    config.provider.api_key = Some("  ".into());
    assert_eq!(refusal(&config), "provider.api_key cannot be empty");
    config.provider.api_key = Some("a\u{7}b".into());
    assert_eq!(refusal(&config), "provider.api_key cannot contain control characters");
    config.provider.api_key = None;
    assert_eq!(refusal(&config), "provider.api_key is required for OpenRouter");
}

#[test]
fn models_are_checked() {
    let mut config = config();
    config.provider.model = "two words".into();
    assert_eq!(
        refusal(&config),
        "provider.model must be a nonempty OpenRouter model identifier"
    );
    config.provider.model = " openrouter/auto ".into();
    config.validate().unwrap();
}

#[test]
fn urls_are_checked() {
    let mut config = config();
    config.provider.base_url = "not a url".into();
    assert_eq!(
        refusal(&config),
        "provider.base_url is not a valid URL: relative URL without a base"
    );
    config.provider.base_url = "https://user@openrouter.ai/api/v1".into();
    assert_eq!(
        refusal(&config),
        "provider.base_url must be an HTTP(S) origin and path without credentials or query parameters"
    );
    for base_url in [
        "https://openrouter.ai/api/v1?key=value",
        "https://openrouter.ai/api/v1#part",
        "https://:secret@openrouter.ai/api/v1",
    ] {
        config.provider.base_url = base_url.into();
        assert!(config.validate().is_err());
    }
    config.provider.base_url = "ftp://openrouter.ai/api/v1".into();
    assert_eq!(
        refusal(&config),
        "provider.base_url must use HTTPS, except for loopback HTTP servers"
    );
    config.provider.base_url = " HTTPS://OpenRouter.ai/api/v1 ".into();
    config.validate().unwrap();
}

#[test]
fn parts_of_urls_are_checked() {
    let parts = UrlParts {
        text: "http://localhost/".into(),
        path: "/".into(),
        scheme: "http".into(),
        host: Some("LOCALHOST".into()),
        username: "".into(),
        password: None,
        query: None,
        fragment: None,
    };
    config().validate_with(Ok(parts.clone())).unwrap();
    let remote = UrlParts { host: Some("128.0.0.1".into()), ..parts.clone() };
    assert!(config().validate_with(Ok(remote)).is_err());
    let hostless = UrlParts { scheme: "https".into(), host: None, ..parts };
    assert!(config().validate_with(Ok(hostless)).is_err());
    assert_eq!(
        config().validate_with(Err("a reason".into())).unwrap_err().message(),
        "provider.base_url is not a valid URL: a reason"
    );
}

#[test]
fn limits_are_checked() {
    let mut config = config();
    config.generation.timeout_seconds = 0;
    assert_eq!(refusal(&config), "generation.timeout_seconds must be between 1 and 120");
    config.generation.timeout_seconds = 121;
    assert!(config.validate().is_err());
    config.generation.timeout_seconds = 120;
    config.generation.max_output_tokens = 15;
    assert_eq!(refusal(&config), "generation.max_output_tokens must be between 16 and 2048");
    config.generation.max_output_tokens = 2048;
    config.context.max_turns = 21;
    assert_eq!(refusal(&config), "context.max_turns must be between 1 and 20");
    config.context.max_turns = 20;
    config.validate().unwrap();
}

#[test]
fn loading_reports_what_went_wrong() {
    let path = "/home/user/.config/aishell/config.toml";
    let load = |read: ReadConfig| Config::load_from(path, &private(), read);
    let unread = load(ReadConfig::Unread("permission denied".into()));
    assert_eq!(
        unread.err().unwrap().message(),
        "could not read /home/user/.config/aishell/config.toml; run `ai setup` to create it: permission denied"
    );
    let malformed = load(ReadConfig::Malformed("missing field".into()));
    assert_eq!(
        malformed.err().unwrap().message(),
        "invalid configuration in /home/user/.config/aishell/config.toml: missing field"
    );
    let loaded = load(ReadConfig::Parsed(config()));
    assert!(loaded.ok().unwrap() == config());
    let mut invalid = config();
    invalid.provider.api_key = None;
    let refused = load(ReadConfig::Parsed(invalid));
    assert_eq!(
        refused.err().unwrap().message(),
        "provider.api_key is required for OpenRouter"
    );
}

#[test]
fn only_valid_configurations_are_written() {
    assert_eq!(config().save_to(Ok("[provider]\n".into())).unwrap(), "[provider]\n");
    assert_eq!(
        config().save_to(Err("too deep".into())).unwrap_err().message(),
        "could not serialize configuration: too deep"
    );
    let mut invalid = config();
    invalid.context.max_turns = 0;
    assert_eq!(
        invalid.save_to(Ok("[provider]\n".into())).unwrap_err().message(),
        "context.max_turns must be between 1 and 20"
    );
}

#[test]
fn configurations_are_loaded_from_their_path() {
    let read = ReadConfig::Parsed(config());
    let load = |path: Result<String, Error>, read: ReadConfig| {
        Config::load(path, &private(), read).map_err(|error| error.message().to_owned())
    };
    assert!(load(Ok("/c".into()), read.clone()).is_ok_and(|loaded| loaded == config()));
    assert_eq!(load(Err(Error::of("no home")), read).err().as_deref(), Some("no home"));
    assert_eq!(
        load(Ok("/c".into()), ReadConfig::Unread("gone".into())).err().as_deref(),
        Some("could not read /c; run `ai setup` to create it: gone")
    );
    assert_eq!(
        load(Ok("/c".into()), ReadConfig::Malformed("bad key".into())).err().as_deref(),
        Some("invalid configuration in /c: bad key")
    );
}

#[test]
fn quoted_texts_are_shown_as_they_are() {
    let mut config = config();
    config.provider.api_key = None;
    config.tools.file_io = true;
    assert_eq!(
        config.redacted_toml_with("'k'", "'m'", "'u'"),
        "[provider]\ntype = 'k'\nmodel = 'm'\nbase_url = 'u'\n\n[generation]\ntimeout_seconds = 20\nmax_output_tokens = 256\n\n[context]\nenabled = true\nmax_turns = 6\n\n[safety]\nrisk_warning = true\n"
    );
}

#[test]
fn rejects_a_group_readable_config() {
    let found = Metadata::File { mode: Some(0o100640) };
    let error = Config::load_from("/c", &found, ReadConfig::Parsed(config())).err().unwrap();
    assert!(error.message().contains("insecure permissions"));
    assert_eq!(
        error.message(),
        "configuration /c has insecure permissions 640; run `chmod 600 /c`"
    );
}

#[test]
fn links_are_not_read_as_configurations() {
    let refused = |found: Metadata| {
        let read = ReadConfig::Parsed(config());
        Config::load_from("/c", &found, read).err().unwrap().message().to_owned()
    };
    assert_eq!(
        refused(Metadata::Link),
        "refusing to read configuration through a link or reparse point at /c"
    );
    assert_eq!(refused(Metadata::Directory), "configuration /c is not a regular file");
    assert_eq!(
        refused(Metadata::Missing("no such file".into())),
        "could not inspect configuration at /c: no such file"
    );
    assert!(Config::read_from("/c", &Metadata::Link).is_err());
    assert!(Config::read_from("/c", &private()).is_ok());
}

#[test]
fn a_missing_key_leaves_out_one_line() {
    let with_key = config().redacted_toml();
    let mut other = config();
    other.provider.api_key = None;
    let without_key = other.redacted_toml();
    assert_eq!(with_key.replace("api_key = \"<redacted>\"\n", ""), without_key);
    assert!(!without_key.lines().any(|line| line.starts_with("api_key")));
}

#[test]
fn quoted_line_breaks_begin_no_line() {
    let mut config = config();
    config.provider.api_key = None;
    config.provider.model = "m\napi_key = \"x\"".into();
    let shown = config.redacted_toml();
    assert!(!shown.lines().any(|line| line.starts_with("api_key")));
    assert!(shown.contains("model = \"m\\napi_key = \\\"x\\\"\"\n"));
}
