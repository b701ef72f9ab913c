//! A conversation with a model, from a request to the output that comes of it.
//!
//! A `Conversation` says what is to be done next, is told what came of that, and
//! ends with an output or with an error. The model may call file tools in
//! between, and is asked again where its output cannot be used.
use vstd::prelude::*;

use crate::chat::{
    all_identified, call_message, call_views, chat_messages, chat_request, copy_calls,
    copy_messages, lemma_messages_push, message_views, normalize_tool_call_ids, opening_messages,
    plain_message, system_text, tool_calls_are_identified, tool_message, ChatRequest, Message,
    MessageView, RequestView, ToolCall, ToolCallView,
};
use crate::cli::Shell;
use crate::client::{
    choice_output, choice_view, parse_choice_output, AiClient, Choice, ChoiceView, ClientView,
};
use crate::context::{turn_views, ContextTurn};
use crate::file_tools::{EventView, ExecutionView, FileIoEvent, FileToolExecution};
use crate::provider::{
    reply_view, GeneratedOutput, OutputView, Provider, ProviderError, ProviderErrorView,
    INVALID_RESPONSE_RETRIES, MAX_FILE_TOOL_CALLS,
};
use crate::reply::generated_output;
use crate::system_info::SystemInfo;
use crate::text::{join3, opt_text, trim};

verus! {

// ---------------------------------------------------------------------------
// Conversations.

/// What is to be done next.
#[derive(Debug, PartialEq, Eq)]
pub enum Turn {
    /// Send the request to the provider.
    Asking,
    /// Execute the tool call of the given number.
    Calling { calls: Vec<ToolCall>, next: usize },
    /// Record the file access of the tool call of the given number, which was
    /// answered.
    Recording { calls: Vec<ToolCall>, next: usize, response: String, event: FileIoEvent },
    /// Nothing.
    Finished(Result<GeneratedOutput, ProviderError>),
}

/// What is to be done next, with its texts taken as characters.
pub enum TurnView {
    Asking,
    Calling { calls: Seq<ToolCallView>, next: int },
    Recording { calls: Seq<ToolCallView>, next: int, response: Seq<char>, event: EventView },
    Finished(Result<OutputView, ProviderErrorView>),
}

impl View for Turn {
    type V = TurnView;

    open spec fn view(&self) -> TurnView {
        match *self {
            Turn::Asking => TurnView::Asking,
            Turn::Calling { calls, next } => TurnView::Calling {
                calls: call_views(calls@),
                next: next as int,
            },
            Turn::Recording { calls, next, response, event } => TurnView::Recording {
                calls: call_views(calls@),
                next: next as int,
                response: response@,
                event: event@,
            },
            Turn::Finished(result) => TurnView::Finished(reply_view(result)),
        }
    }
}

/// What came of what was to be done.
#[derive(Debug, PartialEq, Eq)]
pub enum ChatEvent {
    /// The choice of the model, or why there is none.
    Replied(Result<Choice, ProviderError>),
    /// What the tool call came to.
    Executed(FileToolExecution),
    /// The file access was recorded, or could not be for a reason.
    Recorded(Result<(), String>),
}

/// A conversation with a model.
#[derive(Debug, PartialEq, Eq)]
pub struct Conversation {
    provider: Provider,
    model: String,
    max_output_tokens: u32,
    file_io: bool,
    messages: Vec<Message>,
    invalid_retries: usize,
    tool_call_count: usize,
    turn: Turn,
}

/// A conversation, with its texts taken as characters.
#[verifier::ext_equal]
pub struct ConversationView {
    pub provider: Provider,
    pub model: Seq<char>,
    pub max_output_tokens: u32,
    pub file_io: bool,
    pub messages: Seq<MessageView>,
    pub invalid_retries: int,
    pub tool_call_count: int,
    pub turn: TurnView,
}

impl View for Conversation {
    type V = ConversationView;

    closed spec fn view(&self) -> ConversationView {
        ConversationView {
            provider: self.provider,
            model: self.model@,
            max_output_tokens: self.max_output_tokens,
            file_io: self.file_io,
            messages: message_views(self.messages@),
            invalid_retries: self.invalid_retries as int,
            tool_call_count: self.tool_call_count as int,
            turn: self.turn@,
        }
    }
}

/// How a model is asked again.
pub open spec fn correction(error: Seq<char>) -> Seq<char> {
    "Your previous response was invalid: "@ + error
        + ". Try again and follow the required output format exactly, without commentary."@
}

/// The messages after an output that cannot be used, if there was any text.
pub open spec fn corrected(
    messages: Seq<MessageView>,
    content: Option<Seq<char>>,
    error: Seq<char>,
) -> Seq<MessageView> {
    (match content {
        Some(content) => messages.push(plain_message("assistant"@, content)),
        None => messages,
    }).push(plain_message("user"@, correction(error)))
}

impl ConversationView {
    /// The request that is to be sent.
    pub open spec fn request(self) -> RequestView {
        chat_request(
            self.provider,
            self.model,
            self.messages,
            self.max_output_tokens,
            self.file_io,
        )
    }

    /// The conversation at its end.
    pub open spec fn ending(self, result: Result<OutputView, ProviderErrorView>) -> Self {
        ConversationView { turn: TurnView::Finished(result), ..self }
    }

    /// The conversation after the model called tools.
    pub open spec fn after_calls(self, choice: ChoiceView) -> Self {
        let calls = all_identified(choice.tool_calls, self.tool_call_count as nat);
        if !self.file_io {
            self.ending(
                Err(
                    ProviderErrorView::InvalidResponse(
                        "the model requested a tool when no tools were available"@,
                    ),
                ),
            )
        } else if self.tool_call_count + calls.len() > MAX_FILE_TOOL_CALLS {
            self.ending(Err(ProviderErrorView::ToolLimitExceeded))
        } else {
            ConversationView {
                messages: self.messages.push(call_message(choice.content, calls)),
                tool_call_count: self.tool_call_count + calls.len(),
                turn: TurnView::Calling { calls, next: 0 },
                ..self
            }
        }
    }

    /// The conversation after the model gave an output. An output of the wrong form
    /// is asked for again as long as there are retries.
    pub open spec fn after_output(self, choice: ChoiceView) -> Self {
        match choice_output(choice) {
            Err(ProviderErrorView::InvalidResponse(error)) => if self.invalid_retries
                < INVALID_RESPONSE_RETRIES {
                ConversationView {
                    messages: corrected(self.messages, choice.content, error),
                    invalid_retries: self.invalid_retries + 1,
                    turn: TurnView::Asking,
                    ..self
                }
            } else {
                self.ending(Err(ProviderErrorView::InvalidResponse(error)))
            },
            result => self.ending(result),
        }
    }

    /// The conversation after a reply.
    pub open spec fn after_reply(self, reply: Result<ChoiceView, ProviderErrorView>) -> Self {
        match reply {
            Err(error) => self.ending(Err(error)),
            Ok(choice) => if choice.tool_calls.len() > 0 {
                self.after_calls(choice)
            } else {
                self.after_output(choice)
            },
        }
    }

    /// The conversation after the model was answered a tool call.
    pub open spec fn after_answer(
        self,
        calls: Seq<ToolCallView>,
        next: int,
        response: Seq<char>,
    ) -> Self {
        ConversationView {
            messages: self.messages.push(tool_message(calls[next].id, response)),
            turn: if next + 1 < calls.len() {
                TurnView::Calling { calls, next: next + 1 }
            } else {
                TurnView::Asking
            },
            ..self
        }
    }

    /// The conversation after a tool call was executed. What is to be recorded is
    /// recorded before the model learns the answer.
    pub open spec fn after_execution(
        self,
        calls: Seq<ToolCallView>,
        next: int,
        execution: ExecutionView,
    ) -> Self {
        match execution.audit {
            Some(event) => ConversationView {
                turn: TurnView::Recording { calls, next, response: execution.response, event },
                ..self
            },
            None => self.after_answer(calls, next, execution.response),
        }
    }

    /// The conversation after an event. An event that was not asked for changes
    /// nothing.
    pub open spec fn after(self, event: ChatEvent) -> Self {
        match (self.turn, event) {
            (TurnView::Asking, ChatEvent::Replied(reply)) => self.after_reply(choice_view(reply)),
            (
                TurnView::Calling { calls, next },
                ChatEvent::Executed(execution),
            ) => self.after_execution(calls, next, execution@),
            (
                TurnView::Recording { calls, next, response, .. },
                ChatEvent::Recorded(recorded),
            ) => match recorded {
                Ok(_) => self.after_answer(calls, next, response),
                Err(reason) => self.ending(Err(ProviderErrorView::FileAudit(reason@))),
            },
            _ => self,
        }
    }

    /// Whether a conversation can be under way.
    pub open spec fn is_valid(self) -> bool {
        &&& 0 <= self.invalid_retries <= INVALID_RESPONSE_RETRIES
        &&& 0 <= self.tool_call_count <= MAX_FILE_TOOL_CALLS
        &&& self.turn matches TurnView::Calling { calls, next } ==> 0 <= next < calls.len()
        &&& self.turn matches TurnView::Recording { calls, next, .. } ==> 0 <= next < calls.len()
        &&& !self.file_io ==> self.turn is Asking || self.turn is Finished
    }
}

/// A conversation as it starts.
pub open spec fn opened(client: ClientView, messages: Seq<MessageView>) -> ConversationView {
    ConversationView {
        provider: client.provider,
        model: client.model,
        max_output_tokens: client.max_output_tokens,
        file_io: client.file_io,
        messages,
        invalid_retries: 0,
        tool_call_count: 0,
        turn: TurnView::Asking,
    }
}

impl AiClient {
    /// Begins a conversation on a request. The workspace of the file tools is the
    /// reason where they are to be used and are unavailable.
    pub fn generate(
        &self,
        request: &str,
        shell: Shell,
        history: &Vec<ContextTurn>,
        working_directory: &str,
        system_info: &SystemInfo,
        workspace: Result<(), String>,
    ) -> (r: Result<Conversation, ProviderError>)
        ensures
            match r {
                Ok(conversation) => {
                    &&& self@.file_io ==> workspace is Ok
                    &&& conversation@ == opened(
                        self@,
                        opening_messages(
                            shell,
                            turn_views(history@),
                            working_directory@,
                            system_text(*system_info),
                            request@,
                            self@.file_io,
                        ),
                    )
                    &&& conversation@.is_valid()
                },
                Err(error) => {
                    &&& self@.file_io
                    &&& (workspace matches Err(reason) && error@ == ProviderErrorView::FileTools(
                        reason@,
                    ))
                },
            },
    {
        if self.file_io() {
            match workspace {
                Err(reason) => {
                    return Err(ProviderError::FileTools(reason));
                },
                Ok(_) => {},
            }
        }
        let messages = chat_messages(
            shell,
            history,
            working_directory,
            system_info,
            request,
            self.file_io(),
        );
        Ok(
            Conversation {
                provider: self.provider(),
                model: self.model().to_owned(),
                max_output_tokens: self.max_output_tokens(),
                file_io: self.file_io(),
                messages,
                invalid_retries: 0,
                tool_call_count: 0,
                turn: Turn::Asking,
            },
        )
    }
}

impl Conversation {
    /// What is to be done next.
    pub fn turn(&self) -> (r: &Turn)
        ensures
            r@ == self@.turn,
    {
        &self.turn
    }

    /// The messages so far.
    pub fn messages(&self) -> (r: &Vec<Message>)
        ensures
            message_views(r@) == self@.messages,
    {
        &self.messages
    }

    /// The request that is to be sent.
    pub fn request(&self) -> (r: ChatRequest)
        ensures
            r@ == self@.request(),
    {
        ChatRequest::new(
            self.provider,
            self.model.as_str(),
            copy_messages(&self.messages),
            self.max_output_tokens,
            self.file_io,
        )
    }

    /// The conversation after the model called tools.
    fn after_calls(self, choice: Choice) -> (r: Self)
        requires
            self@.is_valid(),
        ensures
            r@ == self@.after_calls(choice@),
    {
        let mut conversation = self;
        if !conversation.file_io {
            conversation.turn =
            Turn::Finished(
                Err(
                    ProviderError::InvalidResponse(
                        "the model requested a tool when no tools were available".to_owned(),
                    ),
                ),
            );
            return conversation;
        }
        let count: usize = conversation.tool_call_count;
        let n: usize = choice.message.tool_calls.len();
        assert(choice@.tool_calls.len() == n);
        if n > MAX_FILE_TOOL_CALLS - count {
            conversation.turn = Turn::Finished(Err(ProviderError::ToolLimitExceeded));
            return conversation;
        }
        let calls = normalize_tool_call_ids(choice.message.tool_calls, count);
        conversation.tool_call_count = count + n;
        let message = Message::assistant_tool_calls(choice.message.content, copy_calls(&calls));
        proof {
            lemma_messages_push(conversation.messages@, message);
        }
        conversation.messages.push(message);
        conversation.turn = Turn::Calling { calls, next: 0 };
        conversation
    }

    /// The conversation after the model gave an output.
    fn after_output(self, choice: Choice) -> (r: Self)
        requires
            self@.is_valid(),
        ensures
            r@ == self@.after_output(choice@),
    {
        let mut conversation = self;
        match parse_choice_output(&choice) {
            Err(ProviderError::InvalidResponse(error)) => {
                if conversation.invalid_retries < INVALID_RESPONSE_RETRIES {
                    conversation.invalid_retries = conversation.invalid_retries + 1;
                    match choice.message.content {
                        Some(content) => {
                            let message = Message::assistant(content);
                            proof {
                                lemma_messages_push(conversation.messages@, message);
                            }
                            conversation.messages.push(message);
                        },
                        None => {},
                    }
                    let text = join3(
                        "Your previous response was invalid: ",
                        error.as_str(),
                        ". Try again and follow the required output format exactly, without commentary.",
                    );
                    let message = Message::user(text);
                    proof {
                        lemma_messages_push(conversation.messages@, message);
                    }
                    conversation.messages.push(message);
                    conversation.turn = Turn::Asking;
                } else {
                    conversation.turn = Turn::Finished(Err(ProviderError::InvalidResponse(error)));
                }
            },
            result => {
                conversation.turn = Turn::Finished(result);
            },
        }
        conversation
    }

    /// The conversation after the model was answered a tool call.
    fn after_answer(self, calls: Vec<ToolCall>, next: usize, response: String) -> (r: Self)
        requires
            next < calls@.len(),
        ensures
            r@ == self@.after_answer(call_views(calls@), next as int, response@),
    {
        let mut conversation = self;
        let message = Message::tool(calls[next].id.clone(), response);
        assert(call_views(calls@)[next as int].id == calls@[next as int].id@);
        proof {
            lemma_messages_push(conversation.messages@, message);
        }
        conversation.messages.push(message);
        let n: usize = calls.len();
        conversation.turn = if next + 1 < n {
            Turn::Calling { calls, next: next + 1 }
        } else {
            Turn::Asking
        };
        conversation
    }

    /// Takes note of what came of what was to be done. An event that was not asked
    /// for changes nothing.
    pub fn step(self, event: ChatEvent) -> (r: Self)
        requires
            self@.is_valid(),
        ensures
            r@ == self@.after(event),
            r@.is_valid(),
    {
        proof {
            conversations_stay_valid(self@, event);
        }
        let mut conversation = self;
        let mut turn = Turn::Asking;
        std::mem::swap(&mut conversation.turn, &mut turn);
        let ghost given = self@;
        assert(conversation@ =~= ConversationView { turn: TurnView::Asking, ..given });
        match (turn, event) {
            (Turn::Asking, ChatEvent::Replied(reply)) => {
                assert(conversation@ =~= given);
                match reply {
                    Err(error) => {
                        conversation.turn = Turn::Finished(Err(error));
                        assert(conversation@ =~= given.ending(Err(error@)));
                        conversation
                    },
                    Ok(choice) => {
                        assert(choice@.tool_calls.len() == choice.message.tool_calls@.len());
                        if choice.message.tool_calls.len() > 0 {
                            conversation.after_calls(choice)
                        } else {
                            conversation.after_output(choice)
                        }
                    },
                }
            },
            (Turn::Calling { calls, next }, ChatEvent::Executed(execution)) => {
                match execution.audit {
                    Some(event) => {
                        conversation.turn =
                        Turn::Recording { calls, next, response: execution.response, event };
                        conversation
                    },
                    None => conversation.after_answer(calls, next, execution.response),
                }
            },
            (
                Turn::Recording { calls, next, response, event: _ },
                ChatEvent::Recorded(recorded),
            ) => match recorded {
                Ok(_) => conversation.after_answer(calls, next, response),
                Err(reason) => {
                    conversation.turn = Turn::Finished(Err(ProviderError::FileAudit(reason)));
                    conversation
                },
            },
            (turn, _) => {
                conversation.turn = turn;
                assert(conversation@ =~= given);
                conversation
            },
        }
    }
}

// ---------------------------------------------------------------------------
// Laws.

/// Every valid conversation stays valid: no more than the allowed number of
/// retries and of tool calls are ever made, and none at all of the latter where
/// the file tools are switched off.
pub proof fn conversations_stay_valid(conversation: ConversationView, event: ChatEvent)
    requires
        conversation.is_valid(),
    ensures
        conversation.after(event).is_valid(),
{
}

impl ConversationView {
    /// The conversation after a list of events.
    pub open spec fn after_all(self, events: Seq<ChatEvent>) -> Self
        decreases events.len(),
    {
        if events.len() == 0 {
            self
        } else {
            self.after_all(events.drop_last()).after(events.last())
        }
    }

    /// How many requests the events answer.
    pub open spec fn requests_answered(self, events: Seq<ChatEvent>) -> int
        decreases events.len(),
    {
        if events.len() == 0 {
            0
        } else {
            self.requests_answered(events.drop_last()) + if self.after_all(events.drop_last()).turn
                is Asking && events.last() is Replied {
                1int
            } else {
                0
            }
        }
    }

    /// How many more replies can leave the conversation open.
    pub open spec fn replies_left(self) -> int {
        (INVALID_RESPONSE_RETRIES - self.invalid_retries) + (MAX_FILE_TOOL_CALLS
            - self.tool_call_count)
    }
}

proof fn lemma_requests_are_bounded(conversation: ConversationView, events: Seq<ChatEvent>)
    requires
        conversation.is_valid(),
    ensures
        conversation.after_all(events).is_valid(),
        !(conversation.after_all(events).turn is Finished) ==> conversation.requests_answered(
            events,
        ) + conversation.after_all(events).replies_left() <= conversation.replies_left(),
        conversation.requests_answered(events) <= conversation.replies_left() + 1,
    decreases events.len(),
{
    if events.len() > 0 {
        let front = events.drop_last();
        lemma_requests_are_bounded(conversation, front);
        conversations_stay_valid(conversation.after_all(front), events.last());
    }
}

/// Every conversation comes to an end: however the model replies, no more than
/// twelve requests are answered before it does.
pub proof fn requests_are_bounded(conversation: ConversationView, events: Seq<ChatEvent>)
    requires
        conversation.is_valid(),
    ensures
        conversation.requests_answered(events) <= 1 + INVALID_RESPONSE_RETRIES
            + MAX_FILE_TOOL_CALLS,
{
    lemma_requests_are_bounded(conversation, events);
}

/// Whether a list begins with another.
pub open spec fn extends<T>(longer: Seq<T>, shorter: Seq<T>) -> bool {
    shorter.len() <= longer.len() && longer.take(shorter.len() as int) == shorter
}

/// Nothing that was said is changed: messages are only added to a conversation.
pub proof fn messages_are_only_added(conversation: ConversationView, events: Seq<ChatEvent>)
    ensures
        extends(conversation.after_all(events).messages, conversation.messages),
    decreases events.len(),
{
    if events.len() == 0 {
        assert(conversation.messages.take(conversation.messages.len() as int)
            =~= conversation.messages);
    } else {
        let front = events.drop_last();
        messages_are_only_added(conversation, front);
        let before = conversation.after_all(front);
        let after = before.after(events.last());
        assert(extends(after.messages, before.messages)) by {
            assert(after.messages.len() >= before.messages.len());
            assert(after.messages.take(before.messages.len() as int) =~= before.messages);
        }
        assert(after.messages.take(conversation.messages.len() as int)
            =~= before.messages.take(conversation.messages.len() as int));
    }
}

/// A file access is recorded before the model learns of it: an answer to a tool
/// call whose access is to be recorded is added only once that was done, and the
/// conversation ends where it could not be.
pub proof fn accesses_are_recorded_first(
    conversation: ConversationView,
    execution: FileToolExecution,
    event: ChatEvent,
)
    requires
        conversation.is_valid(),
        conversation.turn is Calling,
        execution.audit is Some,
    ensures
        ({
            let executed = conversation.after(ChatEvent::Executed(execution));
            &&& executed.messages == conversation.messages
            &&& (executed.turn matches TurnView::Recording { event: recorded, .. } && Some(recorded)
                == execution@.audit)
            &&& executed.after(event).messages != executed.messages ==> (event matches
                ChatEvent::Recorded(Ok(_)))
            &&& (event matches ChatEvent::Recorded(Err(reason)) ==> executed.after(event).turn
                == TurnView::Finished(Err(ProviderErrorView::FileAudit(reason@))))
        }),
{
}

/// Only outputs of the wrong form are asked for again: every other failure ends
/// the conversation at once.
pub proof fn only_invalid_outputs_are_retried(
    conversation: ConversationView,
    reply: Result<Choice, ProviderError>,
)
    requires
        conversation.is_valid(),
        conversation.turn is Asking,
    ensures
        ({
            let after = conversation.after(ChatEvent::Replied(reply));
            &&& after.invalid_retries > conversation.invalid_retries ==> {
                &&& reply is Ok
                &&& choice_output(reply->Ok_0@) is Err
                &&& choice_output(reply->Ok_0@)->Err_0 is InvalidResponse
                &&& after.turn is Asking
            }
            &&& (reply matches Err(error) ==> after.turn == TurnView::Finished(Err(error@)))
            &&& conversation.invalid_retries == INVALID_RESPONSE_RETRIES ==> after.invalid_retries
                == conversation.invalid_retries
        }),
{
}

/// The model is answered what the tool call came to: once a call was executed,
/// and its access recorded where there is one to record, the messages are the
/// earlier ones and exactly one more, which carries the identifier of that very
/// call and the response to it. The calls are executed one after the other, and
/// the model is asked again after the last.
pub proof fn answers_carry_the_response(
    conversation: ConversationView,
    calls: Seq<ToolCallView>,
    next: int,
    execution: FileToolExecution,
    recorded: ChatEvent,
)
    requires
        conversation.is_valid(),
        conversation.turn == (TurnView::Calling { calls, next }),
        recorded matches ChatEvent::Recorded(Ok(_)),
    ensures
        ({
            let executed = conversation.after(ChatEvent::Executed(execution));
            let answered = if execution.audit is Some {
                executed.after(recorded)
            } else {
                executed
            };
            &&& answered.messages.len() == conversation.messages.len() + 1
            &&& answered.messages.drop_last() == conversation.messages
            &&& answered.messages.last().role == "tool"@
            &&& answered.messages.last().tool_call_id == Some(calls[next].id)
            &&& answered.messages.last().content == Some(execution.response@)
            &&& answered.messages.last().tool_calls is None
            &&& next + 1 < calls.len() ==> answered.turn == (TurnView::Calling {
                calls,
                next: next + 1,
            })
            &&& next + 1 == calls.len() ==> answered.turn == TurnView::Asking
            &&& answered.tool_call_count == conversation.tool_call_count
            &&& answered.invalid_retries == conversation.invalid_retries
        }),
{
    let executed = conversation.after(ChatEvent::Executed(execution));
    let answered = if execution.audit is Some {
        executed.after(recorded)
    } else {
        executed
    };
    assert(answered.messages.drop_last() =~= conversation.messages);
}

/// A response to an access that could not be recorded is never shown to the
/// model: the conversation ends with the reason.
pub proof fn unrecorded_accesses_end_the_conversation(
    conversation: ConversationView,
    execution: FileToolExecution,
    reason: String,
)
    requires
        conversation.is_valid(),
        conversation.turn is Calling,
        execution.audit is Some,
    ensures
        ({
            let ended = conversation.after(ChatEvent::Executed(execution)).after(
                ChatEvent::Recorded(Err(reason)),
            );
            &&& ended.messages == conversation.messages
            &&& ended.turn == TurnView::Finished(
                Err::<OutputView, ProviderErrorView>(ProviderErrorView::FileAudit(reason@)),
            )
        }),
{
}

/// An output that can be used is what the conversation ends with, and nothing is
/// said after it.
pub proof fn usable_outputs_end_the_conversation(
    conversation: ConversationView,
    choice: Choice,
    content: String,
)
    requires
        conversation.turn is Asking,
        choice.message.tool_calls@.len() == 0,
        choice.message.content == Some(content),
    ensures
        ({
            let after = conversation.after(ChatEvent::Replied(Ok(choice)));
            generated_output(content@) matches Ok(output) ==> after.turn == TurnView::Finished(
                Ok::<OutputView, ProviderErrorView>(output),
            ) && after.messages == conversation.messages
        }),
{
}

/// An output of the wrong form is asked for again at most three times: the model
/// sees its own words and after them what was wrong with them. After the third
/// time the conversation ends with what is wrong.
pub proof fn wrong_outputs_are_corrected(
    conversation: ConversationView,
    choice: Choice,
    content: String,
    error: Seq<char>,
)
    requires
        conversation.is_valid(),
        conversation.turn is Asking,
        choice.message.tool_calls@.len() == 0,
        choice.message.content == Some(content),
        generated_output(content@) == Err::<OutputView, ProviderErrorView>(
            ProviderErrorView::InvalidResponse(error),
        ),
    ensures
        ({
            let n = conversation.messages.len() as int;
            let after = conversation.after(ChatEvent::Replied(Ok(choice)));
            &&& conversation.invalid_retries < 3 ==> {
                &&& after.turn == TurnView::Asking
                &&& after.invalid_retries == conversation.invalid_retries + 1
                &&& after.messages.len() == n + 2
                &&& after.messages.take(n) == conversation.messages
                &&& after.messages[n].role == "assistant"@
                &&& after.messages[n].content == Some(content@)
                &&& after.messages[n].tool_calls is None
                &&& after.messages[n + 1].role == "user"@
                &&& after.messages[n + 1].content == Some(
                    "Your previous response was invalid: "@ + error
                        + ". Try again and follow the required output format exactly, without commentary."@,
                )
                &&& after.messages[n + 1].tool_calls is None
            }
            &&& conversation.invalid_retries == 3 ==> {
                &&& after.turn == TurnView::Finished(
                    Err::<OutputView, ProviderErrorView>(ProviderErrorView::InvalidResponse(error)),
                )
                &&& after.messages == conversation.messages
            }
        }),
{
    let n = conversation.messages.len() as int;
    let after = conversation.after(ChatEvent::Replied(Ok(choice)));
    assert(after.messages.len() == n + 2 ==> after.messages.take(n) =~= conversation.messages);
}

/// A refused command is reported at once: the model is not asked again.
pub proof fn refused_commands_end_the_conversation(
    conversation: ConversationView,
    choice: Choice,
    content: String,
    error: Seq<char>,
)
    requires
        conversation.turn is Asking,
        choice.message.tool_calls@.len() == 0,
        choice.message.content == Some(content),
        generated_output(content@) == Err::<OutputView, ProviderErrorView>(
            ProviderErrorView::InvalidCommand(error),
        ),
    ensures
        conversation.after(ChatEvent::Replied(Ok(choice))).turn == TurnView::Finished(
            Err::<OutputView, ProviderErrorView>(ProviderErrorView::InvalidCommand(error)),
        ),
{
}

/// Tool calls are taken up only where file access is allowed, and only as long as
/// no more than eight are made for one request. They are then remembered as the
/// model made them, in one message, and executed from the first on.
pub proof fn tool_calls_are_taken_up_in_order(conversation: ConversationView, choice: Choice)
    requires
        conversation.is_valid(),
        conversation.turn is Asking,
        choice.message.tool_calls@.len() > 0,
    ensures
        ({
            let n = choice.message.tool_calls@.len();
            let after = conversation.after(ChatEvent::Replied(Ok(choice)));
            &&& !conversation.file_io ==> after.turn == TurnView::Finished(
                Err::<OutputView, ProviderErrorView>(
                    ProviderErrorView::InvalidResponse(
                        "the model requested a tool when no tools were available"@,
                    ),
                ),
            ) && after.messages == conversation.messages
            &&& conversation.file_io && conversation.tool_call_count + n > 8 ==> after.turn
                == TurnView::Finished(
                Err::<OutputView, ProviderErrorView>(ProviderErrorView::ToolLimitExceeded),
            ) && after.messages == conversation.messages
            &&& conversation.file_io && conversation.tool_call_count + n <= 8 ==> {
                &&& after.tool_call_count == conversation.tool_call_count + n
                &&& after.messages.len() == conversation.messages.len() + 1
                &&& after.messages.drop_last() == conversation.messages
                &&& after.messages.last().role == "assistant"@
                &&& after.messages.last().content == opt_text(choice.message.content)
                &&& (after.turn matches TurnView::Calling { calls, next } && {
                    &&& next == 0
                    &&& after.messages.last().tool_calls == Some(calls)
                    &&& calls.len() == n
                    &&& forall|i: int|
                        0 <= i < n ==> {
                            &&& (#[trigger] calls[i]).name
                                == choice.message.tool_calls@[i].function.name@
                            &&& calls[i].arguments
                                == choice.message.tool_calls@[i].function.arguments@
                            &&& calls[i].kind == choice.message.tool_calls@[i].kind@
                            &&& trim(choice.message.tool_calls@[i].id@).len() > 0 ==> calls[i].id
                                == choice.message.tool_calls@[i].id@
                        }
                })
            }
        }),
{
    let n = choice.message.tool_calls@.len();
    let given = choice@.tool_calls;
    let after = conversation.after(ChatEvent::Replied(Ok(choice)));
    if conversation.file_io && conversation.tool_call_count + n <= 8 {
        assert(after.messages.drop_last() =~= conversation.messages);
        assert forall|i: int| 0 <= i < n implies {
            let call = #[trigger] all_identified(given, conversation.tool_call_count as nat)[i];
            &&& call.name == given[i].name
            &&& call.arguments == given[i].arguments
            &&& call.kind == given[i].kind
            &&& trim(given[i].id).len() > 0 ==> call.id == given[i].id
        } by {
            tool_calls_are_identified(given, conversation.tool_call_count as nat, i);
        }
    }
}

/// An event that was not asked for changes nothing, and nothing changes a
/// conversation that has ended.
pub proof fn unasked_events_change_nothing(conversation: ConversationView, event: ChatEvent)
    ensures
        conversation.turn is Finished ==> conversation.after(event) == conversation,
        conversation.turn is Asking && !(event is Replied) ==> conversation.after(event)
            == conversation,
        conversation.turn is Calling && !(event is Executed) ==> conversation.after(event)
            == conversation,
        conversation.turn is Recording && !(event is Recorded) ==> conversation.after(event)
            == conversation,
{
}

/// The whole conversation is sent with every request, to the model that it
/// started with and under the same settings: no event changes those.
pub proof fn requests_hold_the_whole_conversation(conversation: ConversationView, event: ChatEvent)
    ensures
        conversation.request().messages == conversation.messages,
        conversation.request().model == conversation.model,
        conversation.request().tools is Some <==> conversation.file_io,
        conversation.after(event).model == conversation.model,
        conversation.after(event).provider == conversation.provider,
        conversation.after(event).max_output_tokens == conversation.max_output_tokens,
        conversation.after(event).file_io == conversation.file_io,
{
}

/// A conversation starts with the request to be sent, under the settings of the
/// client, before anything was retried or called.
pub proof fn conversations_start_by_asking(client: ClientView, messages: Seq<MessageView>)
    ensures
        opened(client, messages).turn is Asking,
        opened(client, messages).messages == messages,
        opened(client, messages).model == client.model,
        opened(client, messages).provider == client.provider,
        opened(client, messages).max_output_tokens == client.max_output_tokens,
        opened(client, messages).file_io == client.file_io,
        opened(client, messages).invalid_retries == 0,
        opened(client, messages).tool_call_count == 0,
        opened(client, messages).is_valid(),
{
}

/// A reply without any text is asked for again as well. The model then only sees
/// what was wrong, as it said nothing itself.
pub proof fn missing_outputs_are_asked_for_again(conversation: ConversationView, choice: Choice)
    requires
        conversation.is_valid(),
        conversation.turn is Asking,
        conversation.invalid_retries < 3,
        choice.message.tool_calls@.len() == 0,
        choice.message.content is None,
    ensures
        ({
            let after = conversation.after(ChatEvent::Replied(Ok(choice)));
            let error = if opt_text(choice.finish_reason) == Some("length"@) {
                "the output token limit was reached before text was returned"@
            } else {
                "no text choice was returned"@
            };
            &&& after.turn == TurnView::Asking
            &&& after.invalid_retries == conversation.invalid_retries + 1
            &&& after.messages.len() == conversation.messages.len() + 1
            &&& after.messages.drop_last() == conversation.messages
            &&& after.messages.last().role == "user"@
            &&& after.messages.last().content == Some(
                "Your previous response was invalid: "@ + error
                    + ". Try again and follow the required output format exactly, without commentary."@,
            )
        }),
{
    let after = conversation.after(ChatEvent::Replied(Ok(choice)));
    assert(after.messages.drop_last() =~= conversation.messages);
}

} // verus!
