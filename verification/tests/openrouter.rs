//! The client of OpenRouter.
use aishell::cli::Shell;
use aishell::client::{ChatResponse, Choice, ResponseMessage};
use aishell::openrouter::{
    check_status, parse_chat_response, read_response, validate_command, GeneratedOutput,
    OpenRouterClient, OpenRouterConfig, OpenRouterError,
};
use aishell::reply::sanitize_error;
use serde_json::Value;

fn text(value: &Value) -> Option<String> {
    value.as_str().map(str::to_owned)
}

fn generated(body: &str) -> Result<GeneratedOutput, OpenRouterError> {
    let value = serde_json::from_str::<Value>(body).unwrap();
    let mut choices = Vec::new();
    for choice in value["choices"].as_array().unwrap() {
        choices.push(Choice {
            message: ResponseMessage {
                content: text(&choice["message"]["content"]),
                tool_calls: Vec::new(),
            },
            finish_reason: text(&choice["finish_reason"]),
        });
    }
    parse_chat_response(Ok(ChatResponse { choices }))
}

#[test]
fn openrouter_extracts_a_single_command() {
    let response = r#"{
            "choices": [{
                "message": {"content": "  COMMAND: qemu-system-x86_64 -drive file=xyz.vdi,format=vdi\n"},
                "finish_reason": "stop"
            }]
        }"#;
    assert_eq!(
        generated(response).unwrap(),
        GeneratedOutput::Command("qemu-system-x86_64 -drive file=xyz.vdi,format=vdi".into())
    );
}

#[test]
fn openrouter_extracts_a_clarifying_question() {
    let response = r#"{
            "choices": [{
                "message": {"content": "QUESTION: What would you like to do with tobacco?"},
                "finish_reason": "stop"
            }]
        }"#;
    assert_eq!(
        generated(response).unwrap(),
        GeneratedOutput::Clarification("What would you like to do with tobacco?".into())
    );
}

#[test]
fn openrouter_explains_an_output_limit_without_text() {
    let response = r#"{
            "choices": [{"message": {"content": null}, "finish_reason": "length"}]
        }"#;
    let error = generated(response).unwrap_err();
    assert!(matches!(
        error,
        OpenRouterError::InvalidResponse(ref message)
            if message.contains("output token limit")
    ));
}

#[test]
fn openrouter_rejects_an_untyped_model_response() {
    let response = r#"{
            "choices": [{"message": {"content": "echo ambiguous"}, "finish_reason": "stop"}]
        }"#;
    assert!(generated(response).is_err());
}

#[test]
fn openrouter_rejects_multiline_output() {
    let error = validate_command("echo first\necho second").unwrap_err();
    assert!(matches!(error, OpenRouterError::InvalidCommand(_)));
}

#[test]
fn openrouter_rejects_markdown_fences() {
    assert!(validate_command("```sh").is_err());
}

#[test]
fn openrouter_sanitizes_remote_errors() {
    assert_eq!(sanitize_error("invalid\n  request\tvalue"), "invalid request value");
}

#[test]
fn openrouter_preserves_the_http_status_and_safe_api_message() {
    let body = r#"{"error":{"code":401,"message":"invalid\ncredentials"}}"#;
    let value = serde_json::from_str::<Value>(body).unwrap();
    let error = check_status(401, text(&value["error"]["message"])).unwrap_err();

    assert!(matches!(
        error,
        OpenRouterError::Api { status: 401, ref message } if message == "invalid credentials"
    ));
}

#[test]
fn openrouter_errors_are_reported_in_words() {
    assert_eq!(
        check_status(503, None).unwrap_err().message(),
        "OpenRouter returned HTTP 503 Service Unavailable: request failed without a readable error message"
    );
    assert_eq!(
        OpenRouterError::Transport("refused".into()).message(),
        "OpenRouter request failed: refused"
    );
    assert_eq!(
        read_response(Err("reset".into())).unwrap_err().message(),
        "could not read the OpenRouter response: reset"
    );
    assert_eq!(
        read_response(Ok(vec![0xff])).unwrap_err().message(),
        "OpenRouter returned a non-UTF-8 response"
    );
    assert_eq!(
        read_response(Ok(vec![b' '; 1_048_577])).unwrap_err().message(),
        "OpenRouter returned more than 1048576 bytes"
    );
    assert_eq!(read_response(Ok(b"{}".to_vec())).unwrap(), "{}");
    assert_eq!(
        parse_chat_response(Err("expected value".into())).unwrap_err().message(),
        "OpenRouter returned an invalid response: expected value"
    );
    assert_eq!(
        validate_command("").unwrap_err().message(),
        "the generated command is invalid: the response was empty"
    );
    assert_eq!(
        generated(r#"{"choices":[{"message":{"content":"QUESTION:"}}]}"#).unwrap_err(),
        OpenRouterError::InvalidResponse("invalid clarification: the response was empty".into())
    );
}

#[test]
fn openrouter_requests_hold_the_prompt_and_the_question() {
    let client = OpenRouterClient::new(&OpenRouterConfig {
        api_key: " secret ".into(),
        model: " openrouter/auto ".into(),
        base_url: "https://openrouter.ai/api/v1/ ".into(),
        timeout_seconds: 20,
        max_output_tokens: 256,
    });
    assert_eq!(client.api_key(), "secret");
    assert_eq!(client.title(), "aishell");
    assert_eq!(client.timeout_seconds(), 20);
    assert_eq!(client.chat_endpoint(), "https://openrouter.ai/api/v1/chat/completions");
    assert_eq!(client.check_key(), "https://openrouter.ai/api/v1/key");
    let request = client.generate("list files", Shell::Bash, "linux", "x86_64");
    assert_eq!(request.model, "openrouter/auto");
    assert_eq!(request.max_tokens, Some(256));
    assert_eq!(request.reasoning.map(|reasoning| reasoning.enabled), Some(false));
    assert_eq!(request.messages.len(), 2);
    assert!(request.messages[0].content.as_deref().unwrap().contains("executable bash command line"));
    assert_eq!(
        request.messages[1].content.as_deref(),
        Some("Operating system: linux\nArchitecture: x86_64\nRequest:\nlist files")
    );
}
