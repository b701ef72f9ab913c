//! Providers, requests and responses.
use aishell::chat::{
    chat_messages, deserialize_tool_arguments, file_tool_definitions, normalize_tool_call_ids,
    ArgumentsValue, ChatRequest, ChatTemplateConfig, FunctionCall, Message, ReasoningConfig,
    ToolCall,
};
use aishell::cli::Shell;
use aishell::client::{
    check_status, parse_chat_response, read_response, segment_bytes, verify_model_available,
    AiClient, ChatResponse, Choice, EndpointError, ResponseMessage,
};
use aishell::config::{
    Config, ContextConfig, GenerationConfig, ProviderConfig, SafetyConfig, ToolsConfig,
};
use aishell::context::{ContextResponse, ContextTurn};
use aishell::provider::{
    describe_status, report_status, DestructiveRisk, GeneratedOutput, Provider, ProviderError,
    MAX_RESPONSE_BYTES,
};
use aishell::reply::{sanitize_error, validate_command};
use aishell::system_info::SystemInfo;
use serde_json::Value;

fn text(value: &Value) -> Option<String> {
    value.as_str().map(str::to_owned)
}

fn response(body: &str) -> Result<ChatResponse, String> {
    let value = serde_json::from_str::<Value>(body).map_err(|error| error.to_string())?;
    let mut choices = Vec::new();
    for choice in value["choices"].as_array().ok_or("no choices")? {
        choices.push(Choice {
            message: ResponseMessage {
                content: text(&choice["message"]["content"]),
                tool_calls: Vec::new(),
            },
            finish_reason: text(&choice["finish_reason"]),
        });
    }
    Ok(ChatResponse { choices })
}

fn generated(body: &str) -> Result<GeneratedOutput, ProviderError> {
    parse_chat_response(response(body))
}

fn request(provider: Provider, model: &str) -> ChatRequest {
    ChatRequest::new(provider, model, vec![Message::user("test".into())], 256, false)
}

fn content(message: &Message) -> &str {
    message.content.as_deref().unwrap()
}

fn system() -> SystemInfo {
    SystemInfo { os: "linux", architecture: "x86_64", distribution: None }
}

fn client(kind: Provider, model: &str, base_url: &str) -> AiClient {
    AiClient::new(&Config {
        provider: ProviderConfig {
            kind,
            api_key: Some(" secret ".into()),
            model: model.into(),
            base_url: base_url.into(),
        },
        generation: GenerationConfig::default(),
        context: ContextConfig::default(),
        tools: ToolsConfig::default(),
        safety: SafetyConfig::default(),
    })
}

#[test]
fn uses_provider_specific_chat_parameters() {
    let openrouter = request(Provider::OpenRouter, "openrouter/auto");
    assert_eq!(openrouter.max_tokens, Some(256));
    assert_eq!(openrouter.reasoning, Some(ReasoningConfig { enabled: false }));
    assert!(openrouter.max_completion_tokens.is_none());

    let openai = request(Provider::OpenAi, "gpt-5.6-luna");
    assert_eq!(openai.max_completion_tokens, Some(256));
    assert_eq!(openai.reasoning_effort, Some("none"));
    assert!(openai.max_tokens.is_none());
    assert!(openai.reasoning.is_none());
    assert!(openai.reasoning_format.is_none());
    assert!(openai.chat_template_kwargs.is_none());

    let llama_cpp = request(Provider::LlamaCpp, "local-model");
    assert_eq!(llama_cpp.max_tokens, Some(256));
    assert_eq!(llama_cpp.reasoning_effort, Some("none"));
    assert_eq!(llama_cpp.reasoning_format, Some("deepseek"));
    assert_eq!(
        llama_cpp.chat_template_kwargs,
        Some(ChatTemplateConfig { enable_thinking: false })
    );
    assert!(llama_cpp.max_completion_tokens.is_none());
    assert!(llama_cpp.reasoning.is_none());

    let vllm = request(Provider::Vllm, "local-model");
    assert_eq!(vllm.max_tokens, Some(256));
    assert!(vllm.max_completion_tokens.is_none());
    assert!(vllm.reasoning.is_none());
    assert!(vllm.reasoning_effort.is_none());
    assert!(vllm.reasoning_format.is_none());
    assert!(vllm.chat_template_kwargs.is_none());
}

#[test]
fn omits_reasoning_effort_for_non_reasoning_openai_models() {
    assert!(request(Provider::OpenAi, "gpt-4.1-mini").reasoning_effort.is_none());
}

#[test]
fn tools_are_offered_only_where_they_are_switched_on() {
    let without = request(Provider::OpenAi, "gpt-5.6-luna");
    assert!(without.tools.is_none());
    assert!(without.parallel_tool_calls.is_none());
    let with = ChatRequest::new(Provider::Vllm, "m", Vec::new(), 64, true);
    assert_eq!(with.tools.unwrap().len(), 2);
    assert_eq!(with.parallel_tool_calls, Some(false));
    assert!(!with.stream);
}

#[test]
fn file_tools_are_described_with_json_schemas() {
    let tools = file_tool_definitions();
    assert_eq!(tools[0].function.name, "read_file");
    assert_eq!(tools[1].function.name, "write_file");
    assert_eq!(tools[0].kind, "function");
    assert!(tools[0].function.description.contains("32768 bytes per call"));
    assert!(tools[1].function.description.contains("limited to 65536 bytes"));
    let read = serde_json::from_str::<Value>(tools[0].function.parameters).unwrap();
    assert_eq!(read["type"], "object");
    assert_eq!(read["properties"]["offset"]["minimum"], 0);
    assert_eq!(read["properties"]["max_bytes"]["maximum"], 32768);
    assert_eq!(read["properties"]["max_bytes"]["minimum"], 1);
    assert_eq!(read["required"][0], "path");
    assert_eq!(read["required"].as_array().unwrap().len(), 1);
    assert_eq!(read["additionalProperties"], false);
    let write = serde_json::from_str::<Value>(tools[1].function.parameters).unwrap();
    assert_eq!(write["required"][1], "content");
    assert_eq!(write["properties"].as_object().unwrap().len(), 2);
    assert_eq!(
        write["properties"]["content"]["description"],
        "Complete replacement contents of the file"
    );
}

#[test]
fn sends_bounded_history_before_the_current_request() {
    let history = vec![ContextTurn {
        created_at: 1,
        working_directory: "/tmp/images".into(),
        request: "create a 50 meg file named disk.img".into(),
        response: ContextResponse::Command("truncate -s 50M disk.img".into()),
    }];
    let system_info = system();
    let messages = chat_messages(
        Shell::Bash,
        &history,
        "/tmp/images",
        &system_info,
        "create a filesystem on it",
        false,
    );

    assert_eq!(messages.len(), 4);
    assert_eq!(messages[1].role, "user");
    assert!(content(&messages[1]).contains("create a 50 meg file"));
    assert_eq!(messages[2].role, "assistant");
    assert_eq!(content(&messages[2]), "COMMAND: truncate -s 50M disk.img");
    assert!(content(&messages[3]).contains("create a filesystem on it"));
    assert!(content(&messages[3]).contains(&system_info.model_context()));
    assert!(content(&messages[0]).contains("may have been changed or never executed"));
    assert!(content(&messages[0]).contains("ANSWER:"));
    assert!(content(&messages[0]).contains("RISK:"));
    assert!(content(&messages[0]).contains("what can you do?"));
    assert!(content(&messages[0]).contains("distribution family"));
}

#[test]
fn prompts_are_exact() {
    let history = vec![ContextTurn {
        created_at: 1,
        working_directory: "/w".into(),
        request: "list".into(),
        response: ContextResponse::Answer("yes".into()),
    }];
    let messages = chat_messages(Shell::Zsh, &history, "/now", &system(), "again", true);
    assert_eq!(content(&messages[1]), "Working directory at the time: /w\nPrior request:\nlist");
    assert_eq!(content(&messages[2]), "ANSWER: yes");
    assert_eq!(
        content(&messages[3]),
        "Host system metadata: {\"os\":\"linux\",\"architecture\":\"x86_64\"}\nCurrent working directory: /now\nCurrent request:\nagain"
    );
    assert!(content(&messages[0]).contains("Use write_file only when the current request"));
    assert!(content(&messages[0]).ends_with("must not be described as already executed."));
    let plain = chat_messages(Shell::Zsh, &history, "/now", &system(), "again", false);
    assert!(!content(&plain[0]).contains("write_file"));
}

#[test]
fn gives_windows_shells_distinct_syntax_contracts() {
    let system_info = system();
    let powershell =
        chat_messages(Shell::Pwsh, &vec![], "C:\\work", &system_info, "show files", false);
    assert!(content(&powershell[0]).contains("executable powershell command line"));
    assert!(content(&powershell[0]).contains("Windows PowerShell 5.1 and PowerShell 7"));

    let cmd = chat_messages(Shell::Cmd, &vec![], "C:\\work", &system_info, "show files", false);
    assert!(content(&cmd[0]).contains("executable cmd command line"));
    assert!(content(&cmd[0]).contains("Use cmd.exe built-ins"));
}

#[test]
fn provider_extracts_a_single_command() {
    let response = r#"{
            "choices": [{
                "message": {"content": "  RISK: safe\nCOMMAND: qemu-system-x86_64 -drive file=xyz.vdi,format=vdi\n"},
                "finish_reason": "stop"
            }]
        }"#;
    assert_eq!(
        generated(response).unwrap(),
        GeneratedOutput::Command {
            command: "qemu-system-x86_64 -drive file=xyz.vdi,format=vdi".into(),
            risk: DestructiveRisk::Safe,
        }
    );
}

#[test]
fn provider_extracts_a_clarifying_question() {
    let response = r#"{
            "choices": [{
                "message": {"content": "QUESTION: What would you like to do with the archive?"},
                "finish_reason": "stop"
            }]
        }"#;
    assert_eq!(
        generated(response).unwrap(),
        GeneratedOutput::Clarification("What would you like to do with the archive?".into())
    );
}

#[test]
fn extracts_a_command_after_llama_cpp_reasoning() {
    let response = r#"{
            "choices": [{
                "message": {
                    "content": "<|channel|>analysis<|message|>The user wants a file listing.\n<|end|>RISK: safe\nCOMMAND: ls -la\n\n"
                },
                "finish_reason": "stop"
            }]
        }"#;
    assert_eq!(
        generated(response).unwrap(),
        GeneratedOutput::Command { command: "ls -la".into(), risk: DestructiveRisk::Safe }
    );
}

#[test]
fn the_last_end_of_reasoning_counts() {
    let response = r#"{"choices":[{"message":{"content":"<|end|> thinking </think> ANSWER: forty-two"}}]}"#;
    assert_eq!(generated(response).unwrap(), GeneratedOutput::Answer("forty-two".into()));
    let other = r#"{"choices":[{"message":{"content":"a </think> b <|end|> QUESTION: which?"}}]}"#;
    assert_eq!(generated(other).unwrap(), GeneratedOutput::Clarification("which?".into()));
}

#[test]
fn extracts_each_destructive_risk_level() {
    for (risk, expected) in [
        ("safe", DestructiveRisk::Safe),
        ("moderate", DestructiveRisk::Moderate),
        ("high", DestructiveRisk::High),
    ] {
        let response = format!(
            r#"{{"choices":[{{"message":{{"content":"RISK: {risk}\nCOMMAND: touch example"}},"finish_reason":"stop"}}]}}"#
        );
        assert_eq!(
            generated(&response).unwrap(),
            GeneratedOutput::Command { command: "touch example".into(), risk: expected }
        );
    }
}

#[test]
fn rejects_commands_without_exact_risk_metadata() {
    for content in [
        "COMMAND: rm -rf build",
        "RISK: unknown\nCOMMAND: rm -rf build",
        "RISK: high\nCOMMAND: rm -rf build\nEXPLANATION: dangerous",
    ] {
        let response = format!(
            r#"{{"choices":[{{"message":{{"content":{}}},"finish_reason":"stop"}}]}}"#,
            serde_json::to_string(content).unwrap()
        );
        assert!(generated(&response).is_err());
    }
}

#[test]
fn extracts_a_conversational_answer() {
    let response = r#"{
            "choices": [{
                "message": {"content": "ANSWER: I can answer questions and generate shell commands for you to review."},
                "finish_reason": "stop"
            }]
        }"#;
    assert_eq!(
        generated(response).unwrap(),
        GeneratedOutput::Answer(
            "I can answer questions and generate shell commands for you to review.".into()
        )
    );
}

#[test]
fn provider_explains_an_output_limit_without_text() {
    let response = r#"{
            "choices": [{"message": {"content": null}, "finish_reason": "length"}]
        }"#;
    let error = generated(response).unwrap_err();
    assert!(matches!(
        error,
        ProviderError::InvalidResponse(ref message)
            if message.contains("output token limit")
    ));
}

#[test]
fn provider_rejects_an_untyped_model_response() {
    let response = r#"{
            "choices": [{"message": {"content": "echo ambiguous"}, "finish_reason": "stop"}]
        }"#;
    assert!(generated(response).is_err());
}

#[test]
fn responses_without_a_choice_are_invalid() {
    assert_eq!(
        generated(r#"{"choices":[]}"#).unwrap_err(),
        ProviderError::InvalidResponse("no choice was returned".into())
    );
    assert_eq!(
        parse_chat_response(Err("expected value".into())).unwrap_err(),
        ProviderError::InvalidResponse("expected value".into())
    );
    assert_eq!(
        generated(r#"{"choices":[{"message":{"content":null},"finish_reason":"stop"}]}"#)
            .unwrap_err(),
        ProviderError::InvalidResponse("no text choice was returned".into())
    );
}

#[test]
fn provider_rejects_multiline_output() {
    let error = validate_command("echo first\necho second").unwrap_err();
    assert!(matches!(error, ProviderError::InvalidCommand(_)));
}

#[test]
fn provider_rejects_markdown_fences() {
    assert!(validate_command("```sh").is_err());
}

#[test]
fn outputs_are_bounded() {
    let long = "a".repeat(8193);
    assert_eq!(
        validate_command(&long).unwrap_err(),
        ProviderError::InvalidCommand("the response exceeded 8192 bytes".into())
    );
    assert_eq!(validate_command(&long[1..]).unwrap().len(), 8192);
    assert_eq!(
        validate_command("  ").unwrap_err(),
        ProviderError::InvalidCommand("the response was empty".into())
    );
    let question = format!(
        r#"{{"choices":[{{"message":{{"content":"QUESTION: {}"}}}}]}}"#,
        "é".repeat(513)
    );
    assert_eq!(
        generated(&question).unwrap_err(),
        ProviderError::InvalidResponse(
            "invalid clarification: the response exceeded 1024 bytes".into()
        )
    );
}

#[test]
fn checks_local_model_catalogs() {
    let body = r#"{"object":"list","data":[{"id":"Qwen/Qwen3-8B"}]}"#;
    let models = || {
        let value = serde_json::from_str::<Value>(body).unwrap();
        let mut ids = Vec::new();
        for model in value["data"].as_array().unwrap() {
            ids.push(text(&model["id"]).unwrap());
        }
        Ok(ids)
    };
    verify_model_available(models(), Provider::Vllm, "Qwen/Qwen3-8B").unwrap();
    assert!(verify_model_available(models(), Provider::LlamaCpp, "other").is_err());
    assert_eq!(
        verify_model_available(models(), Provider::LlamaCpp, "other").unwrap_err().message(),
        "the configured model \"other\" is not served by llama.cpp"
    );
    assert_eq!(
        verify_model_available(Err("no list".into()), Provider::Vllm, "m").unwrap_err(),
        ProviderError::InvalidResponse("no list".into())
    );
}

#[test]
fn provider_sanitizes_remote_errors() {
    assert_eq!(sanitize_error("invalid\n  request\tvalue"), "invalid request value");
}

#[test]
fn remote_errors_are_cut_off() {
    assert_eq!(sanitize_error(&"x".repeat(400)).len(), 300);
    assert_eq!(sanitize_error("  "), "");
}

#[test]
fn provider_preserves_the_http_status_and_safe_api_message() {
    let body = r#"{"error":{"code":401,"message":"invalid\ncredentials"}}"#;
    let value = serde_json::from_str::<Value>(body).unwrap();
    let error = check_status(Provider::OpenAi, 401, text(&value["error"]["message"])).unwrap_err();

    assert!(matches!(
        error,
        ProviderError::Api {
            provider: Provider::OpenAi,
            status: 401,
            ref message,
        } if message == "invalid credentials"
    ));
}

#[test]
fn statuses_outside_of_success_are_errors() {
    check_status(Provider::Vllm, 200, None).unwrap();
    check_status(Provider::Vllm, 299, None).unwrap();
    assert!(check_status(Provider::Vllm, 199, None).is_err());
    assert_eq!(
        check_status(Provider::Vllm, 300, None).unwrap_err(),
        ProviderError::Api {
            provider: Provider::Vllm,
            status: 300,
            message: "request failed without a readable error message".into(),
        }
    );
}

#[test]
fn errors_are_reported_in_words() {
    let api = ProviderError::Api {
        provider: Provider::OpenAi,
        status: 404,
        message: "no such model".into(),
    };
    assert_eq!(api.message(), "OpenAI returned HTTP 404 Not Found: no such model");
    let odd = ProviderError::Api { provider: Provider::Vllm, status: 42, message: "odd".into() };
    assert_eq!(odd.message(), "vLLM returned HTTP 42: odd");
    let transport =
        ProviderError::Transport { provider: Provider::LlamaCpp, source: "refused".into() };
    assert_eq!(transport.message(), "llama.cpp request failed: refused");
    let io = ProviderError::Io { provider: Provider::OpenRouter, source: "reset".into() };
    assert_eq!(io.message(), "could not read the OpenRouter response: reset");
    assert_eq!(
        ProviderError::ResponseTooLarge { provider: Provider::Vllm }.message(),
        "vLLM returned more than 1048576 bytes"
    );
    assert_eq!(
        ProviderError::InvalidUtf8 { provider: Provider::Vllm }.message(),
        "vLLM returned a non-UTF-8 response"
    );
    assert_eq!(
        ProviderError::FileTools("no directory".into()).message(),
        "file tools are unavailable: no directory"
    );
    assert_eq!(
        ProviderError::FileAudit("disk full".into()).message(),
        "could not save the file I/O audit log: disk full"
    );
    assert_eq!(
        ProviderError::ToolLimitExceeded.message(),
        "the model exceeded the limit of 8 file tool calls"
    );
    assert_eq!(
        ProviderError::InvalidResponse("odd".into()).message(),
        "the AI provider returned an invalid response: odd"
    );
    assert_eq!(
        ProviderError::InvalidCommand("empty".into()).message(),
        "the generated command is invalid: empty"
    );
}

#[test]
fn responses_are_bounded_texts() {
    assert_eq!(read_response(Provider::Vllm, Ok(b"caf\xc3\xa9".to_vec())).unwrap(), "café");
    assert_eq!(
        read_response(Provider::Vllm, Ok(vec![0xff])).unwrap_err(),
        ProviderError::InvalidUtf8 { provider: Provider::Vllm }
    );
    assert_eq!(
        read_response(Provider::Vllm, Ok(vec![b'a'; MAX_RESPONSE_BYTES as usize + 1])).unwrap_err(),
        ProviderError::ResponseTooLarge { provider: Provider::Vllm }
    );
    assert_eq!(
        read_response(Provider::Vllm, Err("reset".into())).unwrap_err(),
        ProviderError::Io { provider: Provider::Vllm, source: "reset".into() }
    );
}

#[test]
fn clients_reach_their_endpoints() {
    let openrouter = client(Provider::OpenRouter, " openrouter/auto ", " https://o.ai/api/v1// ");
    assert_eq!(openrouter.endpoint("chat/completions"), "https://o.ai/api/v1/chat/completions");
    assert_eq!(openrouter.model(), "openrouter/auto");
    assert_eq!(openrouter.timeout_seconds(), 20);
    let check = openrouter.check();
    assert_eq!(check.endpoint.as_deref(), Ok("https://o.ai/api/v1/key"));
    assert!(!check.lists_models);
    let credentials = openrouter.authenticated();
    assert_eq!(credentials.bearer.as_deref(), Some("secret"));
    assert_eq!(credentials.title, Some("aishell"));

    let openai = client(Provider::OpenAi, "org/a model", "https://api.openai.com/v1/");
    assert_eq!(
        openai.check().endpoint.as_deref(),
        Ok("https://api.openai.com/v1/models/org%2Fa%20model")
    );
    assert_eq!(
        openai.model_endpoint().as_deref(),
        Some("https://api.openai.com/v1/models/org%2Fa%20model")
    );
    assert_eq!(openai.authenticated().title, None);
    for base_url in ["no url", "mailto:a@b.c"] {
        assert_eq!(
            client(Provider::OpenAi, "m", base_url).check().endpoint,
            Err(EndpointError::NotExtendable)
        );
    }

    let vllm = client(Provider::Vllm, "m", "http://127.0.0.1:8000/v1");
    let check = vllm.check();
    assert_eq!(check.endpoint.as_deref(), Ok("http://127.0.0.1:8000/v1/models"));
    assert!(check.lists_models);
}

#[test]
fn tool_calls_get_identifiers() {
    let call = |id: &str| ToolCall {
        id: id.into(),
        kind: "function".into(),
        function: FunctionCall { name: "read_file".into(), arguments: "{}".into() },
    };
    let calls = normalize_tool_call_ids(vec![call("call-1"), call(" "), call("")], 3);
    assert_eq!(calls[0].id, "call-1");
    assert_eq!(calls[1].id, "aishell-tool-5");
    assert_eq!(calls[2].id, "aishell-tool-6");
    assert_eq!(calls[2].function.name, "read_file");
}

#[test]
fn tool_arguments_are_texts_or_objects() {
    assert_eq!(
        deserialize_tool_arguments(ArgumentsValue::Text("{\"path\":1}".into())).unwrap(),
        "{\"path\":1}"
    );
    assert_eq!(deserialize_tool_arguments(ArgumentsValue::Object("{}".into())).unwrap(), "{}");
    assert_eq!(
        deserialize_tool_arguments(ArgumentsValue::Other).unwrap_err(),
        "tool arguments must be a JSON string or object"
    );
}

#[test]
fn providers_have_defaults() {
    assert_eq!(Provider::OpenRouter.default_model(), Some("openrouter/auto"));
    assert_eq!(Provider::OpenAi.default_model(), Some("gpt-5.6-luna"));
    assert_eq!(Provider::LlamaCpp.default_model(), None);
    assert_eq!(Provider::OpenRouter.default_base_url(), "https://openrouter.ai/api/v1");
    assert_eq!(Provider::OpenAi.default_base_url(), "https://api.openai.com/v1");
    assert_eq!(Provider::LlamaCpp.default_base_url(), "http://127.0.0.1:8080/v1");
    assert_eq!(Provider::Vllm.default_base_url(), "http://127.0.0.1:8000/v1");
    assert!(Provider::OpenAi.requires_api_key());
    assert!(!Provider::Vllm.requires_api_key());
    assert_eq!(Provider::LlamaCpp.display_name(), "llama.cpp");
    assert_eq!(Provider::LlamaCpp.as_str(), "llamacpp");
}

#[test]
fn statuses_are_reported_with_their_reason() {
    assert_eq!(describe_status(404), "404 Not Found");
    assert_eq!(describe_status(299), "299 <unknown status code>");
    assert_eq!(describe_status(1000), "1000");
    assert_eq!(report_status(Some("404 Missing".into()), 404), "404 Missing");
    assert_eq!(report_status(None, 99), "99");
}

#[test]
fn checks_look_for_the_model_only_in_catalogs() {
    let models = || Ok(vec!["first".to_owned(), "second".to_owned()]);
    let catalog = client(Provider::Vllm, "second", "http://127.0.0.1:8000/v1");
    assert_eq!(catalog.checked(Ok(()), models()), Ok(()));
    let missing = client(Provider::Vllm, "third", "http://127.0.0.1:8000/v1");
    assert_eq!(
        missing.checked(Ok(()), models()),
        Err(ProviderError::ModelUnavailable { provider: Provider::Vllm, model: "third".into() })
    );
    assert!(missing.checked(Ok(()), Err("no list".into())).is_err());
    let keyed = client(Provider::OpenRouter, "third", "https://openrouter.ai/api/v1");
    assert_eq!(keyed.checked(Ok(()), models()), Ok(()));
    let refused = ProviderError::Api {
        provider: Provider::OpenRouter,
        status: 401,
        message: "no".into(),
    };
    assert_eq!(keyed.checked(Err(refused.clone()), models()), Err(refused));
}

#[test]
fn segments_take_the_bytes_that_are_counted() {
    let ascii = (0u8..128).map(char::from);
    for c in ascii.chain(['\u{80}', 'é', '\u{7ff}', '›', '\u{ffff}', '🤖']) {
        let model = format!("m{c}m");
        for (base_url, special) in [("https://h/v1", true), ("odd://h/v1", false)] {
            let url = client(Provider::OpenAi, &model, base_url).model_endpoint().unwrap();
            let written = url.strip_prefix(base_url).unwrap().strip_prefix("/models/").unwrap();
            assert_eq!(segment_bytes(&model, special), written.len() as i128, "{c:?}");
        }
    }
    assert_eq!(segment_bytes("", true), 0);
    assert_eq!(segment_bytes("a/b c", true), 9);
}
