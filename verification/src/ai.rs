//! The OpenAI-compatible chat-completion provider used by the automation:
//! request and response shapes, how a failed response becomes an error,
//! and the URL and `Authorization` header the client sends.
use vstd::prelude::*;

use crate::kindroid::{endpoint_url, endpoint_url_spec};
use crate::text::{concat2, decimal, push_str, str_trim, string_of, to_owned_string, trim, u64_to_string, chars_of};

verus! {

/// Errors of the AI provider. `retry_after` is in milliseconds.
#[derive(Debug, Clone, PartialEq, Eq)]
pub enum AiError {
    Auth { status: u16, body: String },
    BadRequest { status: u16, body: String },
    RateLimited { status: u16, body: String, retry_after: Option<u64> },
    Server { status: u16, body: String },
    Network { message: String },
    Decode { message: String },
}

/// The text of a provider error.
pub open spec fn ai_error_text(e: AiError) -> Seq<char> {
    match e {
        AiError::Auth { body, .. } => "auth failed: "@ + body@,
        AiError::BadRequest { body, .. } => "bad request: "@ + body@,
        AiError::RateLimited { body, .. } => "rate limited: "@ + body@,
        AiError::Server { status, body } => "server error "@ + decimal(status as nat) + ": "@
            + body@,
        AiError::Network { message } => "(network) "@ + message@,
        AiError::Decode { message } => "decode error: "@ + message@,
    }
}

impl AiError {
    /// The text of the error.
    pub fn message(&self) -> (res: String)
        ensures
            res@ == ai_error_text(*self),
    {
        match self {
            AiError::Auth { body, .. } => concat2("auth failed: ", body.as_str()),
            AiError::BadRequest { body, .. } => concat2("bad request: ", body.as_str()),
            AiError::RateLimited { body, .. } => concat2("rate limited: ", body.as_str()),
            AiError::Server { status, body } => {
                let mut out = chars_of("server error ");
                let s = u64_to_string(*status as u64);
                push_str(&mut out, s.as_str());
                push_str(&mut out, ": ");
                push_str(&mut out, body.as_str());
                string_of(out.as_slice())
            },
            AiError::Network { message } => concat2("(network) ", message.as_str()),
            AiError::Decode { message } => concat2("decode error: ", message.as_str()),
        }
    }
}

/// One chat message sent to the provider.
#[derive(Debug, Clone, PartialEq, Eq)]
pub struct AiMessage {
    pub role: String,
    pub content: String,
}

/// Asks the provider for a particular output format; `kind` is sent as
/// the JSON field `type`.
#[derive(Debug, Clone, PartialEq, Eq)]
pub struct ResponseFormat {
    pub kind: String,
}

/// A chat-completion request.
#[derive(Debug)]
pub struct ChatCompletionRequest {
    pub model: Option<String>,
    pub messages: Vec<AiMessage>,
    pub response_format: Option<ResponseFormat>,
    pub stream: bool,
}

/// The first choice of a chat completion, and the model that answered.
#[derive(Debug, Clone, PartialEq, Eq)]
pub struct ChatCompletionResponse {
    pub content: String,
    pub model: Option<String>,
}

/// How a non-2xx provider status becomes an error: 401/403 auth, 429 rate
/// limited (with the parsed `Retry-After`), any other 4xx a bad request,
/// everything else a server error.
pub open spec fn ai_status_error(status: u16, body: String, retry_after: Option<u64>) -> AiError {
    if status == 401 || status == 403 {
        AiError::Auth { status, body }
    } else if status == 429 {
        AiError::RateLimited { status, body, retry_after }
    } else if 400 <= status <= 499 {
        AiError::BadRequest { status, body }
    } else {
        AiError::Server { status, body }
    }
}

/// Classify a failed provider response.
pub fn map_error(status: u16, body: String, retry_after: Option<u64>) -> (res: AiError)
    ensures
        res == ai_status_error(status, body, retry_after),
{
    if status == 401 || status == 403 {
        AiError::Auth { status, body }
    } else if status == 429 {
        AiError::RateLimited { status, body, retry_after }
    } else if 400 <= status && status <= 499 {
        AiError::BadRequest { status, body }
    } else {
        AiError::Server { status, body }
    }
}

/// The chat-completions endpoint under `base_url`.
pub fn chat_completions_url(base_url: &str) -> (res: String)
    ensures
        res@ == endpoint_url_spec(base_url@, "chat/completions"@),
{
    endpoint_url(base_url, "chat/completions")
}

/// The `Authorization` header value for a bearer token: present only for
/// a token that is not blank, and then `Bearer ` followed by the trimmed
/// token.
pub open spec fn bearer_header_value(token: Option<Seq<char>>) -> Option<Seq<char>> {
    match token {
        Some(t) => if trim(t).len() > 0 {
            Some("Bearer "@ + trim(t))
        } else {
            None
        },
        None => None,
    }
}

/// The `Authorization` header the client sends, if any.
pub fn bearer_header(token: Option<&str>) -> (res: Option<String>)
    ensures
        res matches Some(v) ==> bearer_header_value(
            match token {
                Some(t) => Some(t@),
                None => None,
            },
        ) == Some(v@),
        res is None <==> bearer_header_value(
            match token {
                Some(t) => Some(t@),
                None => None,
            },
        ) is None,
{
    match token {
        Some(t) => {
            let trimmed = str_trim(t);
            if trimmed.is_empty() {
                None
            } else {
                Some(concat2("Bearer ", trimmed))
            }
        },
        None => None,
    }
}

/// Take the first choice of a decoded completion body.
pub fn first_choice(model: Option<String>, choices: Vec<String>) -> (res: Result<
    ChatCompletionResponse,
    AiError,
>)
    ensures
        choices@.len() == 0 ==> (res matches Err(AiError::Decode { message }) && message@
            == "missing choices"@),
        choices@.len() > 0 ==> res == Ok::<ChatCompletionResponse, AiError>(
            ChatCompletionResponse { content: choices@[0], model },
        ),
{
    let mut choices = choices;
    if choices.len() == 0 {
        Err(AiError::Decode { message: to_owned_string("missing choices") })
    } else {
        let content = choices.remove(0);
        Ok(ChatCompletionResponse { content, model })
    }
}

/// The answer of the provider: a 2xx body for decoding, any other status
/// as the error `ai_status_error` gives.
pub fn completion_outcome(status: u16, body: String, retry_after: Option<u64>) -> (res: Result<String, AiError>)
    ensures
        200 <= status < 300 ==> (res matches Ok(b) && b@ == body@),
        !(200 <= status < 300) ==> res == Err::<String, AiError>(ai_status_error(status, body, retry_after)),
{
    if 200 <= status && status < 300 {
        Ok(body)
    } else {
        Err(map_error(status, body, retry_after))
    }
}

} // verus!
