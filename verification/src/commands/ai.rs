//! The AI-provider settings, its bearer token, and the requests the app
//! sends for a connection test and a raw chat completion.
use vstd::prelude::*;

use crate::ai::{AiError, AiMessage, ChatCompletionRequest, ChatCompletionResponse, ResponseFormat};
use crate::error::{is_invalid_with, AppError};
use crate::commands::settings::token_to_store;
use crate::security::{SecretStoreError, Secrets, AI_TOKEN_KEY};
use crate::text::{
    chars_of, concat2, decimal, has_prefix, push_str, starts_with, str_trim, string_of,
    to_owned_string, trim, u64_to_string,
};

verus! {

/// Setting key of the provider's base URL.
pub const SETTING_AI_BASE_URL: &'static str = "ai_base_url";

/// Setting key of the provider's model.
pub const SETTING_AI_MODEL: &'static str = "ai_model";

/// The base URL used until the user sets one.
pub const DEFAULT_AI_BASE_URL: &'static str = "https://api.openai.com/v1";

/// The provider settings as the UI shows them.
#[derive(Debug)]
pub struct AiSettingsDto {
    pub base_url: String,
    pub model: String,
    pub token_configured: bool,
}

/// New provider settings.
#[derive(Debug)]
pub struct SetAiSettingsInput {
    pub base_url: String,
    pub model: String,
}

/// A connection test; `bearer_token` overrides the stored token.
#[derive(Debug)]
pub struct TestAiRequest {
    pub base_url: String,
    pub model: String,
    pub bearer_token: Option<String>,
}

/// The outcome of a connection test.
#[derive(Debug, Clone, PartialEq, Eq)]
pub struct TestAiResult {
    pub ok: bool,
    pub status: u16,
    pub message: String,
}

/// A raw chat completion requested by the UI.
#[derive(Debug)]
pub struct AiChatCompletionRequest {
    pub base_url: String,
    pub model: String,
    pub system: Option<String>,
    pub user: String,
    pub json_mode: bool,
    pub bearer_token: Option<String>,
}

/// The answer of a raw chat completion.
#[derive(Debug, Clone, PartialEq, Eq)]
pub struct AiChatCompletionResponse {
    pub content: String,
    pub model: Option<String>,
}

/// The provider settings shown to the user: the stored values, or the
/// default base URL and an empty model.
pub fn ai_settings_dto(base_url: Option<String>, model: Option<String>, token_configured: bool) -> (res: AiSettingsDto)
    ensures
        res.base_url@ == (match base_url {
            Some(b) => b@,
            None => DEFAULT_AI_BASE_URL@,
        }),
        res.model@ == (match model {
            Some(m) => m@,
            None => Seq::<char>::empty(),
        }),
        res.token_configured == token_configured,
{
    let base_url = match base_url {
        Some(b) => b,
        None => to_owned_string(DEFAULT_AI_BASE_URL),
    };
    let model = match model {
        Some(m) => m,
        None => String::new(),
    };
    AiSettingsDto { base_url, model, token_configured }
}

/// Validate new provider settings: the trimmed base URL must start with
/// `http://` or `https://`. On success, the trimmed URL and model to store.
pub fn validate_ai_settings(input: &SetAiSettingsInput) -> (res: Result<(String, String), AppError>)
    ensures
        (starts_with(trim(input.base_url@), "http://"@) || starts_with(
            trim(input.base_url@),
            "https://"@,
        )) ==> (res matches Ok((u, m)) && u@ == trim(input.base_url@) && m@ == trim(
            input.model@,
        )),
        !(starts_with(trim(input.base_url@), "http://"@) || starts_with(
            trim(input.base_url@),
            "https://"@,
        )) ==> (res matches Err(e) && is_invalid_with(
            e,
            "base_url must start with http:// or https://"@,
        )),
{
    let url = str_trim(input.base_url.as_str());
    if !has_prefix(url, "http://") && !has_prefix(url, "https://") {
        return Err(AppError::invalid("base_url must start with http:// or https://"));
    }
    let model = str_trim(input.model.as_str());
    Ok((to_owned_string(url), to_owned_string(model)))
}

/// Store the AI provider's bearer token: the text of `token_to_store`
/// goes to the keychain under `AI_TOKEN_KEY`. A blank token is refused; a
/// keychain failure is reported as a secret-store error.
pub fn set_ai_token(token: String) -> (res: Result<(), AppError>)
    ensures
        trim(token@).len() == 0 ==> (res matches Err(e) && is_invalid_with(
            e,
            "token is required"@,
        )),
        trim(token@).len() > 0 ==> (res is Ok || res matches Err(AppError::Secret(_))),
{
    let stored = token_to_store(token.as_str())?;
    match Secrets::set(AI_TOKEN_KEY, stored.as_str()) {
        Ok(()) => Ok(()),
        Err(e) => Err(AppError::Secret(e)),
    }
}

/// Delete the AI provider's bearer token.
pub fn clear_ai_token() -> (res: Result<(), AppError>)
    ensures
        res is Ok || res matches Err(AppError::Secret(_)),
{
    match Secrets::clear(AI_TOKEN_KEY) {
        Ok(()) => Ok(()),
        Err(e) => Err(AppError::Secret(e)),
    }
}

/// How a keychain read becomes a bearer: a stored token is used, a
/// missing one is `None`, any other failure is reported.
pub open spec fn keychain_result(r: Result<String, SecretStoreError>) -> Result<
    Option<String>,
    AppError,
> {
    match r {
        Ok(t) => Ok(Some(t)),
        Err(SecretStoreError::NotFound) => Ok(None),
        Err(e) => Err(AppError::Secret(e)),
    }
}

/// Interpret a keychain read of the AI token.
pub fn keychain_bearer(r: Result<String, SecretStoreError>) -> (res: Result<Option<String>, AppError>)
    ensures
        res == keychain_result(r),
{
    match r {
        Ok(t) => Ok(Some(t)),
        Err(SecretStoreError::NotFound) => Ok(None),
        Err(e) => Err(AppError::Secret(e)),
    }
}

/// Read the AI token from the keychain: `Ok(None)` when none is stored.
pub fn keychain_token() -> (res: Result<Option<String>, AppError>)
    ensures
        res is Err ==> res matches Err(AppError::Secret(_)),
{
    let r = Secrets::get(AI_TOKEN_KEY);
    let res = keychain_bearer(r);
    proof {
        assert(res is Err ==> res matches Err(AppError::Secret(_)));
    }
    res
}

/// An inline bearer decides by itself when present: a non-blank one is
/// used trimmed, a blank one means "send no token".
pub open spec fn inline_bearer(s: Seq<char>) -> Option<Seq<char>> {
    if trim(s).len() > 0 {
        Some(trim(s))
    } else {
        None
    }
}

/// Does `res` hold exactly the bearer an inline value decides?
pub open spec fn is_inline_bearer(res: Result<Option<String>, AppError>, s: Seq<char>) -> bool {
    match inline_bearer(s) {
        Some(t) => res matches Ok(Some(v)) && v@ == t,
        None => res == Ok::<Option<String>, AppError>(None),
    }
}

fn inline_bearer_exec(s: &str) -> (res: Result<Option<String>, AppError>)
    ensures
        is_inline_bearer(res, s@),
{
    let trimmed = str_trim(s);
    if !trimmed.is_empty() {
        Ok(Some(to_owned_string(trimmed)))
    } else {
        Ok(None)
    }
}

/// The bearer for a connection test: the inline value when given,
/// otherwise whatever the keychain lookup returns (no token at all is
/// fine: servers without auth can be probed).
pub fn resolve_bearer_for_test<F: FnOnce() -> Result<Option<String>, AppError>>(
    inline: Option<&str>,
    keychain_lookup: F,
) -> (res: Result<Option<String>, AppError>)
    requires
        inline is None ==> call_requires(keychain_lookup, ()),
    ensures
        inline matches Some(s) ==> is_inline_bearer(res, s@),
        inline is None ==> call_ensures(keychain_lookup, (), res),
{
    match inline {
        Some(s) => inline_bearer_exec(s),
        None => keychain_lookup(),
    }
}

/// What a chat completion does with the keychain's answer: a token is
/// used, no token is refused with `TokenMissing`, a failure is passed on.
pub open spec fn chat_bearer(r: Result<Option<String>, AppError>) -> Result<Option<String>, AppError> {
    match r {
        Ok(Some(t)) => Ok(Some(t)),
        Ok(None) => Err(AppError::TokenMissing),
        Err(e) => Err(e),
    }
}

/// The bearer for a chat completion: the inline value when given,
/// otherwise the stored token, which must exist.
pub fn resolve_bearer_for_chat<F: FnOnce() -> Result<Option<String>, AppError>>(
    inline: Option<&str>,
    keychain_lookup: F,
) -> (res: Result<Option<String>, AppError>)
    requires
        inline is None ==> call_requires(keychain_lookup, ()),
    ensures
        inline matches Some(s) ==> is_inline_bearer(res, s@),
        inline is None ==> exists|r: Result<Option<String>, AppError>|
            call_ensures(keychain_lookup, (), r) && res == chat_bearer(r),
{
    match inline {
        Some(s) => inline_bearer_exec(s),
        None => {
            let r = keychain_lookup();
            let ghost witness = r;
            let res = match r {
                Ok(Some(t)) => Ok(Some(t)),
                Ok(None) => Err(AppError::TokenMissing),
                Err(e) => Err(e),
            };
            proof {
                assert(call_ensures(keychain_lookup, (), witness) && res == chat_bearer(witness));
            }
            res
        },
    }
}

/// The model sent on the wire: the trimmed name, or none for a blank one.
pub open spec fn wire_model(model: Seq<char>) -> Option<Seq<char>> {
    if trim(model).len() > 0 {
        Some(trim(model))
    } else {
        None
    }
}

/// The view of an optional string.
pub open spec fn opt_chars(o: Option<String>) -> Option<Seq<char>> {
    match o {
        Some(s) => Some(s@),
        None => None,
    }
}

/// The role and content of each message.
pub open spec fn message_pairs(ms: Seq<AiMessage>) -> Seq<(Seq<char>, Seq<char>)> {
    ms.map_values(|m: AiMessage| (m.role@, m.content@))
}

/// The system prompt actually sent: a given one, trimmed, unless blank.
pub open spec fn system_prompt(system: Option<Seq<char>>) -> Option<Seq<char>> {
    match system {
        Some(s) => if trim(s).len() > 0 {
            Some(trim(s))
        } else {
            None
        },
        None => None,
    }
}

/// The messages of a raw chat completion. In JSON mode a system message
/// always leads and ends with the instruction to respond with JSON;
/// otherwise a system message leads only when one was given. The user
/// message comes last.
pub open spec fn chat_messages(system: Option<Seq<char>>, user: Seq<char>, json_mode: bool) -> Seq<
    (Seq<char>, Seq<char>),
> {
    let head: Seq<(Seq<char>, Seq<char>)> = if json_mode {
        match system_prompt(system) {
            Some(s) => seq![("system"@, s + "\n\nRespond with JSON."@)],
            None => seq![("system"@, "Respond with JSON."@)],
        }
    } else {
        match system_prompt(system) {
            Some(s) => seq![("system"@, s)],
            None => Seq::empty(),
        }
    };
    head.push(("user"@, user))
}

fn message(role: &str, content: String) -> (m: AiMessage)
    ensures
        m.role@ == role@,
        m.content@ == content@,
{
    AiMessage { role: to_owned_string(role), content }
}

fn model_on_wire(model: &str) -> (res: Option<String>)
    ensures
        opt_chars(res) == wire_model(model@),
{
    let trimmed = str_trim(model);
    if trimmed.is_empty() {
        None
    } else {
        Some(to_owned_string(trimmed))
    }
}

/// The request of a raw chat completion: the model as on the wire, the
/// messages of `chat_messages`, a `json_object` response format in JSON
/// mode, no streaming.
pub fn chat_completion_request(model: &str, system: Option<&str>, user: String, json_mode: bool) -> (res: ChatCompletionRequest)
    ensures
        opt_chars(res.model) == wire_model(model@),
        message_pairs(res.messages@) == chat_messages(
            match system {
                Some(s) => Some(s@),
                None => None,
            },
            user@,
            json_mode,
        ),
        json_mode ==> (res.response_format matches Some(f) && f.kind@ == "json_object"@),
        !json_mode ==> res.response_format is None,
        !res.stream,
{
    let ghost sys = match system {
        Some(s) => Some(s@),
        None => None,
    };
    let trimmed: Option<&str> = match system {
        Some(s) => {
            let t = str_trim(s);
            if t.is_empty() {
                None
            } else {
                Some(t)
            }
        },
        None => None,
    };
    proof {
        assert(match trimmed {
            Some(t) => system_prompt(sys) == Some(t@),
            None => system_prompt(sys) is None,
        });
    }
    let mut messages: Vec<AiMessage> = Vec::new();
    if json_mode {
        match trimmed {
            Some(s) => messages.push(message("system", concat2(s, "\n\nRespond with JSON."))),
            None => messages.push(message("system", to_owned_string("Respond with JSON."))),
        }
    } else {
        match trimmed {
            Some(s) => messages.push(message("system", to_owned_string(s))),
            None => {},
        }
    }
    let ghost before = messages@;
    messages.push(message("user", user));
    proof {
        assert(message_pairs(messages@) =~= chat_messages(sys, user@, json_mode));
    }
    let response_format = if json_mode {
        Some(ResponseFormat { kind: to_owned_string("json_object") })
    } else {
        None
    };
    ChatCompletionRequest { model: model_on_wire(model), messages, response_format, stream: false }
}

/// The request of a connection test: the model as on the wire and one
/// user message `ping`.
pub fn test_completion_request(model: &str) -> (res: ChatCompletionRequest)
    ensures
        opt_chars(res.model) == wire_model(model@),
        message_pairs(res.messages@) == seq![("user"@, "ping"@)],
        res.response_format is None,
        !res.stream,
{
    let mut messages: Vec<AiMessage> = Vec::new();
    messages.push(message("user", to_owned_string("ping")));
    proof {
        assert(message_pairs(messages@) =~= seq![("user"@, "ping"@)]);
    }
    ChatCompletionRequest { model: model_on_wire(model), messages, response_format: None, stream: false }
}

/// The request of an automation step: the model as on the wire, the
/// system prompt as given, then the user prompt, asking for a JSON object.
pub fn automation_completion_request(model: &str, system: String, user: String) -> (res: ChatCompletionRequest)
    ensures
        opt_chars(res.model) == wire_model(model@),
        message_pairs(res.messages@) == seq![("system"@, system@), ("user"@, user@)],
        res.response_format matches Some(f) && f.kind@ == "json_object"@,
        !res.stream,
{
    let ghost s = system@;
    let ghost u = user@;
    let mut messages: Vec<AiMessage> = Vec::new();
    messages.push(message("system", system));
    messages.push(message("user", user));
    proof {
        assert(message_pairs(messages@) =~= seq![("system"@, s), ("user"@, u)]);
    }
    ChatCompletionRequest {
        model: model_on_wire(model),
        messages,
        response_format: Some(ResponseFormat { kind: to_owned_string("json_object") }),
        stream: false,
    }
}

/// The status reported for an error that is not handled by name: the
/// HTTP status, or `0` for a network or decode failure.
pub open spec fn ai_error_status(e: AiError) -> u16 {
    match e {
        AiError::Auth { status, .. } => status,
        AiError::BadRequest { status, .. } => status,
        AiError::RateLimited { status, .. } => status,
        AiError::Server { status, .. } => status,
        AiError::Network { .. } => 0,
        AiError::Decode { .. } => 0,
    }
}

fn other_status(err: &AiError) -> (res: u16)
    ensures
        res == ai_error_status(*err),
{
    match err {
        AiError::Auth { status, .. } => *status,
        AiError::BadRequest { status, .. } => *status,
        AiError::RateLimited { status, .. } => *status,
        AiError::Server { status, .. } => *status,
        AiError::Network { .. } => 0,
        AiError::Decode { .. } => 0,
    }
}

/// The message of a connection test's outcome.
pub open spec fn test_result_message(result: Result<ChatCompletionResponse, AiError>, base_url: Seq<char>) -> Seq<char> {
    match result {
        Ok(resp) => "OK — reached "@ + base_url + match resp.model {
            Some(m) => " (model "@ + m@ + ")"@,
            None => Seq::empty(),
        },
        Err(AiError::Auth { .. }) => "Invalid or missing API key"@,
        Err(AiError::RateLimited { status, retry_after, .. }) => "Rate limited (status "@
            + decimal(status as nat) + match retry_after {
            Some(ms) => ", retry in "@ + decimal((ms / 1000) as nat) + "s"@,
            None => Seq::empty(),
        } + ")"@,
        Err(AiError::Network { message }) => "(network) "@ + message@,
        Err(e) => "Server error: "@ + crate::ai::ai_error_text(e),
    }
}

/// Turn the outcome of a connection test into what the UI shows: success
/// is status 200, an auth or rate-limit failure keeps its status, a
/// network failure has status 0.
pub fn map_test_result(result: Result<ChatCompletionResponse, AiError>, base_url: &str) -> (res: TestAiResult)
    ensures
        res.ok == result is Ok,
        res.status == (match result {
            Ok(_) => 200u16,
            Err(AiError::Network { .. }) => 0u16,
            Err(e) => ai_error_status(e),
        }),
        res.message@ == test_result_message(result, base_url@),
{
    match result {
        Ok(resp) => {
            let mut msg = chars_of("OK — reached ");
            push_str(&mut msg, base_url);
            match resp.model {
                Some(m) => {
                    push_str(&mut msg, " (model ");
                    push_str(&mut msg, m.as_str());
                    push_str(&mut msg, ")");
                },
                None => {},
            }
            TestAiResult { ok: true, status: 200, message: string_of(msg.as_slice()) }
        },
        Err(AiError::Auth { status, .. }) => TestAiResult {
            ok: false,
            status,
            message: to_owned_string("Invalid or missing API key"),
        },
        Err(AiError::RateLimited { status, retry_after, .. }) => {
            let mut msg = chars_of("Rate limited (status ");
            let s = u64_to_string(status as u64);
            push_str(&mut msg, s.as_str());
            match retry_after {
                Some(ms) => {
                    push_str(&mut msg, ", retry in ");
                    let d = u64_to_string(ms / 1000);
                    push_str(&mut msg, d.as_str());
                    push_str(&mut msg, "s");
                },
                None => {},
            }
            push_str(&mut msg, ")");
            TestAiResult { ok: false, status, message: string_of(msg.as_slice()) }
        },
        Err(AiError::Network { message }) => TestAiResult {
            ok: false,
            status: 0,
            message: concat2("(network) ", message.as_str()),
        },
        Err(other) => {
            let status = other_status(&other);
            let text = other.message();
            TestAiResult { ok: false, status, message: concat2("Server error: ", text.as_str()) }
        },
    }
}

} // verus!
