use crate::SocketCompletionResponse;
use vstd::prelude::*;
use vstd::string::StringExecFns;

verus! {

/// How long the caller waits on a completion handle before giving up, in
/// seconds.
pub const COMPLETION_TIMEOUT_SECS: u64 = 120;

/// One role-tagged entry of a chat request.
pub struct ChatMessage {
    pub role: String,
    pub content: String,
    pub name: Option<String>,
}

/// A caller's request: a model name and an ordered sequence of messages.
/// Dispatch requires at least one message.
pub struct ChatRequest {
    pub model: String,
    pub messages: Vec<ChatMessage>,
}

/// The answer part of a successful response.
pub struct ChatCompletionMessage {
    pub content: String,
    pub role: String,
}

/// One choice of a successful response; this server always produces
/// exactly one.
pub struct ChatCompletionChoice {
    pub finish_reason: String,
    pub index: i32,
    pub message: ChatCompletionMessage,
}

/// The error part of a failed response.
pub struct ChatResponseError {
    pub message: String,
}

/// The body of a response: either one successful choice or an error, never
/// both.
pub struct ChatCompletion {
    pub choices: Option<Vec<ChatCompletionChoice>>,
    pub error: Option<ChatResponseError>,
}

/// The transport-level status a response is surfaced with.
#[derive(Clone, Copy, Debug, PartialEq, Eq, Structural)]
pub enum ResponseStatus {
    Success,
    BadRequest,
    ServerError,
    RequestTimeout,
}

/// What the wait on a completion handle came back with: a completion, a
/// broken signal (the producer vanished without resolving, with a
/// description of the fault), or nothing within the configured bound.
pub enum WaitOutcome {
    Completed(SocketCompletionResponse),
    SignalFailed(String),
    TimedOut,
}

/// An error-only response body carrying the given message.
pub fn response_error(err_msg: String) -> (r: ChatCompletion)
    ensures
        r.choices is None,
        r.error matches Some(e) && e.message == err_msg,
{
    ChatCompletion { choices: None, error: Some(ChatResponseError { message: err_msg }) }
}

/// Boundary validation: a request with no messages is rejected before any
/// dispatch is attempted, with a bad-request status and the reason "need
/// at least one message"; any other request passes.
pub fn validate_request(request: &ChatRequest) -> (r: Option<(ResponseStatus, ChatCompletion)>)
    ensures
        r is Some <==> request.messages@.len() == 0,
        r matches Some(p) ==> ({
            &&& p.0 == ResponseStatus::BadRequest
            &&& p.1.choices is None
            &&& p.1.error matches Some(e) && e.message@ == "need at least one message"@
        }),
{
    if request.messages.len() == 0 {
        Some(
            (
                ResponseStatus::BadRequest,
                response_error(String::from_str("need at least one message")),
            ),
        )
    } else {
        None
    }
}

/// Maps what the wait on the completion handle came back with to the
/// response surfaced to the caller: a successful completion becomes the
/// answer, with role "assistant" and finish reason "stop"; a failed
/// completion and a broken signal become server errors naming the reason;
/// an expired wait becomes a timeout response.
pub fn completion_response(outcome: WaitOutcome) -> (r: (ResponseStatus, ChatCompletion))
    ensures
        match outcome {
            WaitOutcome::Completed(c) => if c.succeeded {
                &&& r.0 == ResponseStatus::Success
                &&& r.1.error is None
                &&& r.1.choices matches Some(cs) && cs@.len() == 1 && cs@[0].index == 0
                    && cs@[0].finish_reason@ == "stop"@ && cs@[0].message.role@ == "assistant"@
                    && cs@[0].message.content == c.message
            } else {
                &&& r.0 == ResponseStatus::ServerError
                &&& r.1.choices is None
                &&& r.1.error matches Some(e) && e.message@ == "socket disconnected: "@
                    + c.message@
            },
            WaitOutcome::SignalFailed(fault) => {
                &&& r.0 == ResponseStatus::ServerError
                &&& r.1.choices is None
                &&& r.1.error matches Some(e) && e.message@ == "internal failure: "@ + fault@
            },
            WaitOutcome::TimedOut => {
                &&& r.0 == ResponseStatus::RequestTimeout
                &&& r.1.choices is None
                &&& r.1.error matches Some(e) && e.message@ == "chat completion took too long"@
            },
        },
{
    match outcome {
        WaitOutcome::Completed(c) => {
            if c.succeeded {
                let choice = ChatCompletionChoice {
                    finish_reason: String::from_str("stop"),
                    index: 0,
                    message: ChatCompletionMessage {
                        content: c.message,
                        role: String::from_str("assistant"),
                    },
                };
                let mut choices: Vec<ChatCompletionChoice> = Vec::new();
                choices.push(choice);
                (
                    ResponseStatus::Success,
                    ChatCompletion { choices: Some(choices), error: None },
                )
            } else {
                (
                    ResponseStatus::ServerError,
                    response_error(
                        String::from_str("socket disconnected: ").concat(c.message.as_str()),
                    ),
                )
            }
        },
        WaitOutcome::SignalFailed(fault) => (
            ResponseStatus::ServerError,
            response_error(String::from_str("internal failure: ").concat(fault.as_str())),
        ),
        WaitOutcome::TimedOut => (
            ResponseStatus::RequestTimeout,
            response_error(String::from_str("chat completion took too long")),
        ),
    }
}

} // verus!
