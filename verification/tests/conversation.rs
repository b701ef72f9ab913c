//! Conversations with a model.
use aishell::chat::{FunctionCall, ToolCall};
use aishell::cli::Shell;
use aishell::client::{AiClient, Choice, ResponseMessage};
use aishell::config::{
    Config, ContextConfig, GenerationConfig, ProviderConfig, SafetyConfig, ToolsConfig,
};
use aishell::conversation::{ChatEvent, Conversation, Turn};
use aishell::file_tools::{FileIoEvent, FileIoOperation, FileIoOutcome, FileToolExecution};
use aishell::provider::{DestructiveRisk, GeneratedOutput, Provider, ProviderError};
use aishell::system_info::SystemInfo;

fn client(file_io: bool) -> AiClient {
    AiClient::new(&Config {
        provider: ProviderConfig {
            kind: Provider::Vllm,
            api_key: None,
            model: "model".into(),
            base_url: "http://127.0.0.1:8000/v1".into(),
        },
        generation: GenerationConfig::default(),
        context: ContextConfig::default(),
        tools: ToolsConfig { file_io },
        safety: SafetyConfig::default(),
    })
}

fn system() -> SystemInfo {
    SystemInfo { os: "linux", architecture: "x86_64", distribution: None }
}

fn begin(file_io: bool) -> Conversation {
    client(file_io)
        .generate("list files", Shell::Bash, &vec![], "/w", &system(), Ok(()))
        .unwrap()
}

fn said(content: &str) -> ChatEvent {
    ChatEvent::Replied(Ok(Choice {
        message: ResponseMessage { content: Some(content.into()), tool_calls: Vec::new() },
        finish_reason: Some("stop".into()),
    }))
}

fn called(ids: &[&str]) -> ChatEvent {
    let tool_calls = ids
        .iter()
        .map(|id| ToolCall {
            id: (*id).to_owned(),
            kind: "function".into(),
            function: FunctionCall { name: "read_file".into(), arguments: "{}".into() },
        })
        .collect();
    ChatEvent::Replied(Ok(Choice {
        message: ResponseMessage { content: None, tool_calls },
        finish_reason: Some("tool_calls".into()),
    }))
}

fn executed(audit: Option<FileIoEvent>) -> ChatEvent {
    ChatEvent::Executed(FileToolExecution { response: "{\"ok\":true}".into(), audit })
}

fn access() -> FileIoEvent {
    FileIoEvent {
        operation: FileIoOperation::Read,
        path: Some("a".into()),
        offset: Some(0),
        outcome: FileIoOutcome::Succeeded { content: "x".into() },
    }
}

fn result(conversation: &Conversation) -> &Result<GeneratedOutput, ProviderError> {
    match conversation.turn() {
        Turn::Finished(result) => result,
        _ => panic!("the conversation has not ended"),
    }
}

fn last_message(conversation: &Conversation) -> String {
    conversation.messages().last().unwrap().content.clone().unwrap()
}

#[test]
fn retries_invalid_responses_three_times() {
    let mut attempts = 0;
    let mut conversation = begin(false);
    while let Turn::Asking = conversation.turn() {
        attempts += 1;
        let asked_again = last_message(&conversation).contains("was invalid: the response was not marked");
        assert_eq!(asked_again, attempts > 1);
        conversation = if attempts <= 3 {
            conversation.step(said("invalid format"))
        } else {
            conversation.step(said("ANSWER: valid output"))
        };
    }

    assert_eq!(*result(&conversation), Ok(GeneratedOutput::Answer("valid output".into())));
    assert_eq!(attempts, 4);
}

#[test]
fn returns_the_last_invalid_response_after_retries() {
    let mut attempts = 0;
    let mut conversation = begin(false);
    while let Turn::Asking = conversation.turn() {
        attempts += 1;
        conversation = conversation.step(ChatEvent::Replied(Ok(Choice {
            message: ResponseMessage { content: None, tool_calls: Vec::new() },
            finish_reason: if attempts == 4 { Some("length".into()) } else { None },
        })));
    }

    assert_eq!(attempts, 4);
    assert!(matches!(
        result(&conversation),
        Err(ProviderError::InvalidResponse(message)) if message.contains("output token limit")
    ));
}

#[test]
fn does_not_retry_non_response_errors() {
    let conversation = begin(false).step(said("RISK: safe\nCOMMAND:"));
    assert!(matches!(result(&conversation), Err(ProviderError::InvalidCommand(_))));
    let failure = ProviderError::ResponseTooLarge { provider: Provider::Vllm };
    let conversation = begin(false).step(ChatEvent::Replied(Err(failure.clone())));
    assert_eq!(*result(&conversation), Err(failure));
    let invalid = ProviderError::InvalidResponse("no choice was returned".into());
    let conversation = begin(false).step(ChatEvent::Replied(Err(invalid.clone())));
    assert_eq!(*result(&conversation), Err(invalid));
}

#[test]
fn corrections_follow_what_was_said() {
    let conversation = begin(false);
    assert_eq!(conversation.messages().len(), 2);
    let conversation = conversation.step(said("ls"));
    assert_eq!(conversation.messages().len(), 4);
    assert_eq!(conversation.messages()[2].role, "assistant");
    assert_eq!(conversation.messages()[2].content.as_deref(), Some("ls"));
    assert_eq!(
        last_message(&conversation),
        "Your previous response was invalid: the response was not marked as RISK/COMMAND, QUESTION, or ANSWER. Try again and follow the required output format exactly, without commentary."
    );
    let conversation = conversation.step(said("RISK: high\nCOMMAND: rm -rf build"));
    assert_eq!(
        *result(&conversation),
        Ok(GeneratedOutput::Command {
            command: "rm -rf build".into(),
            risk: DestructiveRisk::High,
        })
    );
}

#[test]
fn requests_hold_the_messages_so_far() {
    let conversation = begin(true);
    let request = conversation.request();
    assert_eq!(request.model, "model");
    assert_eq!(request.max_tokens, Some(256));
    assert_eq!(request.messages, *conversation.messages());
    assert_eq!(request.tools.map(|tools| tools.len()), Some(2));
}

#[test]
fn tools_need_to_be_switched_on() {
    let conversation = begin(false).step(called(&["1"]));
    assert_eq!(
        *result(&conversation),
        Err(ProviderError::InvalidResponse(
            "the model requested a tool when no tools were available".into()
        ))
    );
    let refused =
        client(true).generate("r", Shell::Bash, &vec![], "/w", &system(), Err("no root".into()));
    assert_eq!(refused.unwrap_err(), ProviderError::FileTools("no root".into()));
    assert!(client(false)
        .generate("r", Shell::Bash, &vec![], "/w", &system(), Err("no root".into()))
        .is_ok());
}

#[test]
fn tool_calls_are_executed_recorded_and_answered_in_order() {
    let conversation = begin(true).step(called(&["first", ""]));
    assert!(matches!(conversation.turn(), Turn::Calling { next: 0, .. }));
    let call = conversation.messages().last().unwrap();
    assert_eq!(call.role, "assistant");
    assert_eq!(call.tool_calls.as_ref().unwrap()[1].id, "aishell-tool-2");
    let conversation = conversation.step(executed(Some(access())));
    let Turn::Recording { event, .. } = conversation.turn() else {
        panic!("the access is not recorded");
    };
    assert_eq!(*event, access());
    assert_eq!(conversation.messages().len(), 3);
    let conversation = conversation.step(ChatEvent::Recorded(Ok(())));
    assert_eq!(conversation.messages().len(), 4);
    assert_eq!(conversation.messages()[3].role, "tool");
    assert_eq!(conversation.messages()[3].tool_call_id.as_deref(), Some("first"));
    assert!(matches!(conversation.turn(), Turn::Calling { next: 1, .. }));
    let conversation = conversation.step(executed(None));
    assert_eq!(conversation.messages()[4].tool_call_id.as_deref(), Some("aishell-tool-2"));
    assert!(matches!(conversation.turn(), Turn::Asking));
    let conversation = conversation.step(said("ANSWER: done"));
    assert_eq!(*result(&conversation), Ok(GeneratedOutput::Answer("done".into())));
}

#[test]
fn accesses_that_cannot_be_recorded_end_the_conversation() {
    let conversation = begin(true)
        .step(called(&["1"]))
        .step(executed(Some(access())))
        .step(ChatEvent::Recorded(Err("disk full".into())));
    assert_eq!(*result(&conversation), Err(ProviderError::FileAudit("disk full".into())));
    assert_eq!(conversation.messages().len(), 3);
}

#[test]
fn tool_calls_are_limited() {
    let mut conversation = begin(true);
    for _ in 0..8 {
        conversation = conversation.step(called(&["1"])).step(executed(None));
    }
    assert!(matches!(conversation.turn(), Turn::Asking));
    conversation = conversation.step(called(&["1"]));
    assert_eq!(*result(&conversation), Err(ProviderError::ToolLimitExceeded));
    let at_once = begin(true).step(called(&["1", "2", "3", "4", "5", "6", "7", "8", "9"]));
    assert_eq!(*result(&at_once), Err(ProviderError::ToolLimitExceeded));
}

#[test]
fn conversations_end_after_twelve_requests() {
    let mut conversation = begin(true);
    let mut requests = 0;
    while let Turn::Asking = conversation.turn() {
        requests += 1;
        conversation = if requests <= 8 {
            conversation.step(called(&["1"])).step(executed(None))
        } else {
            conversation.step(said("nonsense"))
        };
    }
    assert_eq!(requests, 12);
}

#[test]
fn events_out_of_turn_change_nothing() {
    let conversation = begin(true).step(executed(None)).step(ChatEvent::Recorded(Ok(())));
    assert!(matches!(conversation.turn(), Turn::Asking));
    assert_eq!(conversation.messages().len(), 2);
}
