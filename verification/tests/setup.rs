//! The setup dialog.
use aishell::config::{
    Config, ContextConfig, GenerationConfig, ProviderConfig, ReadConfig, SafetyConfig, ToolsConfig,
};
use aishell::provider::Provider;
use aishell::secure_fs::Metadata;
use aishell::setup::{menu, prompt_value, require_terminal, Input, Setup, SetupPhase};

fn entered(text: &str) -> Input {
    Input::Entered(text.to_owned())
}

fn existing() -> Config {
    Config {
        provider: ProviderConfig {
            kind: Provider::Vllm,
            api_key: Some("old-key".into()),
            model: "Qwen".into(),
            base_url: "http://127.0.0.1:9000/v1".into(),
        },
        generation: GenerationConfig { timeout_seconds: 60, max_output_tokens: 512 },
        context: ContextConfig { enabled: false, max_turns: 3 },
        tools: ToolsConfig { file_io: true },
        safety: SafetyConfig { risk_warning: false },
    }
}

fn private() -> Metadata {
    Metadata::File { mode: Some(0o100600) }
}

fn fresh() -> Setup {
    Setup::begin("/c", None).ok().unwrap().0
}

fn resumed() -> Setup {
    Setup::begin("/c", Some((private(), ReadConfig::Parsed(existing())))).ok().unwrap().0
}

fn saved(setup: &Setup) -> Config {
    match setup.phase() {
        SetupPhase::Save(config) => config.clone(),
        _ => panic!("nothing is saved"),
    }
}

fn failure(setup: &Setup) -> String {
    match setup.phase() {
        SetupPhase::Failed(error) => error.message().to_owned(),
        _ => panic!("the dialog has not failed"),
    }
}

#[test]
fn a_fresh_setup_asks_four_questions() {
    assert_eq!(
        menu(),
        "🤖 AI provider\n  1) OpenRouter\n  2) OpenAI\n  3) llama.cpp\n  4) vLLM\n"
    );
    let setup = fresh();
    assert_eq!(setup.question(), "Select provider [openrouter] › ");
    let setup = setup.answer(entered("2\n"));
    assert_eq!(setup.question(), "🔑 OpenAI API key › ");
    let setup = setup.answer(entered(" sk-secret \n"));
    assert_eq!(setup.question(), "🤖 OpenAI model [gpt-5.6-luna] › ");
    let setup = setup.answer(entered("\n"));
    assert_eq!(setup.question(), "OpenAI API base URL [https://api.openai.com/v1] › ");
    let setup = setup.answer(entered("\n"));
    let config = saved(&setup);
    assert_eq!(config.provider.kind, Provider::OpenAi);
    assert_eq!(config.provider.api_key.as_deref(), Some("sk-secret"));
    assert_eq!(config.provider.model, "gpt-5.6-luna");
    assert_eq!(config.provider.base_url, "https://api.openai.com/v1");
    assert_eq!(config.generation, GenerationConfig::default());
    assert_eq!(config.context, ContextConfig::default());
    assert_eq!(config.safety, SafetyConfig::default());
}

#[test]
fn blank_answers_keep_an_existing_configuration() {
    let setup = resumed();
    assert_eq!(setup.question(), "Select provider [vllm] › ");
    let setup = setup.answer(entered(""));
    assert_eq!(setup.question(), "🔑 vLLM API key (optional; Enter keeps it, - clears it) › ");
    let setup = setup.answer(entered(""));
    assert_eq!(setup.question(), "🤖 vLLM model [Qwen] › ");
    let setup = setup.answer(entered(" "));
    assert_eq!(setup.question(), "vLLM API base URL [http://127.0.0.1:9000/v1] › ");
    let setup = setup.answer(entered("\n"));
    assert!(saved(&setup) == existing());
}

#[test]
fn another_provider_keeps_only_the_other_settings() {
    let setup = resumed().answer(entered("llama.cpp"));
    assert_eq!(setup.question(), "🔑 llama.cpp API key (optional) › ");
    let setup = setup.answer(entered(""));
    assert_eq!(setup.question(), "🤖 llama.cpp served model › ");
    let setup = setup.answer(entered("local")).answer(entered(""));
    let config = saved(&setup);
    assert_eq!(config.provider.kind, Provider::LlamaCpp);
    assert_eq!(config.provider.api_key, None);
    assert_eq!(config.provider.base_url, "http://127.0.0.1:8080/v1");
    assert_eq!(config.generation.timeout_seconds, 60);
    assert!(config.tools.file_io);
    assert!(!config.safety.risk_warning);
}

#[test]
fn a_hyphen_clears_an_optional_key() {
    let setup = resumed().answer(entered("")).answer(entered("-")).answer(entered(""));
    let config = saved(&setup.answer(entered("")));
    assert_eq!(config.provider.api_key, None);
    let required = fresh().answer(entered("1")).answer(entered("-")).answer(entered(""));
    assert_eq!(saved(&required.answer(entered(""))).provider.api_key.as_deref(), Some("-"));
}

#[test]
fn missing_answers_are_reported() {
    assert_eq!(
        failure(&fresh().answer(entered("1")).answer(entered(""))),
        "a OpenRouter API key is required"
    );
    assert_eq!(
        failure(&fresh().answer(entered("3")).answer(entered("")).answer(entered(""))),
        "a llama.cpp model identifier is required"
    );
    assert_eq!(
        failure(&fresh().answer(entered("other"))),
        "unsupported provider \"other\"; expected OpenRouter, OpenAI, llama.cpp, or vLLM"
    );
}

#[test]
fn invalid_configurations_are_not_saved() {
    let setup = fresh()
        .answer(entered("4"))
        .answer(entered(""))
        .answer(entered("model"))
        .answer(entered("http://inference.example/v1"));
    assert_eq!(
        failure(&setup),
        "provider.base_url must use HTTPS, except for loopback HTTP servers"
    );
}

#[test]
fn input_failures_are_reported() {
    assert_eq!(
        failure(&fresh().answer(Input::NotShown("closed".into()))),
        "could not display setup prompt: closed"
    );
    assert_eq!(
        failure(&fresh().answer(Input::NotRead("closed".into()))),
        "could not read setup input: closed"
    );
    assert_eq!(
        failure(&fresh().answer(entered("1")).answer(Input::NotRead("closed".into()))),
        "could not read the API key: closed"
    );
    assert_eq!(prompt_value(entered(" x "), "d").unwrap(), "x");
    assert_eq!(prompt_value(entered(" "), "d").unwrap(), "d");
}

#[test]
fn an_invalid_configuration_is_replaced_with_a_warning() {
    let mut invalid = existing();
    invalid.context.max_turns = 0;
    let begin = |read: ReadConfig| Setup::begin("/c", Some((private(), read)));
    let (setup, warning) = begin(ReadConfig::Parsed(invalid)).ok().unwrap();
    assert_eq!(
        warning.as_deref(),
        Some("⚠ Existing configuration is invalid and will be replaced if setup completes · context.max_turns must be between 1 and 20")
    );
    assert_eq!(setup.question(), "Select provider [openrouter] › ");
    let malformed = begin(ReadConfig::Malformed("odd".into())).ok().unwrap();
    assert!(malformed.1.unwrap().ends_with("invalid configuration in /c: odd"));
    let unread = begin(ReadConfig::Unread("denied".into()));
    assert_eq!(
        unread.err().unwrap().message(),
        "could not read /c; run `ai setup` to create it: denied"
    );
    let open = Metadata::File { mode: Some(0o644) };
    let exposed = Setup::begin("/c", Some((open, ReadConfig::Parsed(existing()))));
    assert!(exposed.err().unwrap().message().contains("insecure permissions 644"));
}

#[test]
fn setup_needs_a_terminal() {
    assert!(require_terminal(true).is_ok());
    assert_eq!(
        require_terminal(false).unwrap_err().message(),
        "`ai setup` must be run from an interactive terminal"
    );
}
