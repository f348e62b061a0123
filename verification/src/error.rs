//! The errors surfaced to the UI, and the per-step outcome of a push.
use vstd::prelude::*;

use crate::ai::{ai_error_text, AiError};
use crate::kindroid::{kindroid_error_text, KindroidError};
use crate::security::{secret_error_text, SecretStoreError};
use crate::storage::StorageError;
use crate::text::{concat2, to_owned_string};

verus! {

/// Every error a command can report.
#[derive(Debug, Clone, PartialEq, Eq)]
pub enum AppError {
    NotFound,
    Invalid { message: String },
    NothingToPush,
    MissingGreeting,
    TokenMissing,
    ShareCode { message: String },
    Database { message: String },
    Internal { message: String },
    Secret(SecretStoreError),
    Kindroid(KindroidError),
    Ai(AiError),
}

/// The user-facing text of an error.
pub open spec fn app_error_text(e: AppError) -> Seq<char> {
    match e {
        AppError::NotFound => "not found"@,
        AppError::Invalid { message } => "invalid input: "@ + message@,
        AppError::NothingToPush => "nothing to push"@,
        AppError::MissingGreeting => "missing greeting"@,
        AppError::TokenMissing => "no token stored"@,
        AppError::ShareCode { message } => "invalid share code: "@ + message@,
        AppError::Database { message } => "database: "@ + message@,
        AppError::Internal { message } => "internal: "@ + message@,
        AppError::Secret(s) => secret_error_text(s),
        AppError::Kindroid(k) => kindroid_error_text(k),
        AppError::Ai(a) => ai_error_text(a),
    }
}

/// Is `e` the `Invalid` error with exactly this message?
pub open spec fn is_invalid_with(e: AppError, message: Seq<char>) -> bool {
    e matches AppError::Invalid { message: m } && m@ == message
}

impl AppError {
    /// An `Invalid` error with `msg`.
    pub fn invalid(msg: &str) -> (res: Self)
        ensures
            is_invalid_with(res, msg@),
    {
        AppError::Invalid { message: to_owned_string(msg) }
    }

    /// A `ShareCode` error with `msg`.
    pub fn share(msg: &str) -> (res: Self)
        ensures
            res matches AppError::ShareCode { message } && message@ == msg@,
    {
        AppError::ShareCode { message: to_owned_string(msg) }
    }

    /// A `Database` error with `msg`.
    pub fn database(msg: &str) -> (res: Self)
        ensures
            res matches AppError::Database { message } && message@ == msg@,
    {
        AppError::Database { message: to_owned_string(msg) }
    }

    /// An `Internal` error with `msg`.
    pub fn internal(msg: &str) -> (res: Self)
        ensures
            res matches AppError::Internal { message } && message@ == msg@,
    {
        AppError::Internal { message: to_owned_string(msg) }
    }

    /// The user-facing text of the error.
    pub fn message(&self) -> (res: String)
        ensures
            res@ == app_error_text(*self),
    {
        match self {
            AppError::NotFound => to_owned_string("not found"),
            AppError::Invalid { message } => concat2("invalid input: ", message.as_str()),
            AppError::NothingToPush => to_owned_string("nothing to push"),
            AppError::MissingGreeting => to_owned_string("missing greeting"),
            AppError::TokenMissing => to_owned_string("no token stored"),
            AppError::ShareCode { message } => concat2("invalid share code: ", message.as_str()),
            AppError::Database { message } => concat2("database: ", message.as_str()),
            AppError::Internal { message } => concat2("internal: ", message.as_str()),
            AppError::Secret(s) => s.message(),
            AppError::Kindroid(k) => k.message(),
            AppError::Ai(a) => a.message(),
        }
    }
}

/// How a storage error is reported: its kind is kept, its text moves
/// into the message.
pub open spec fn from_storage(e: StorageError) -> AppError {
    match e {
        StorageError::NotFound => AppError::NotFound,
        StorageError::Invalid(s) => AppError::Invalid { message: s },
        StorageError::Database(s) => AppError::Database { message: s },
    }
}

impl From<StorageError> for AppError {
    fn from(value: StorageError) -> (res: Self) {
        match value {
            StorageError::NotFound => AppError::NotFound,
            StorageError::Invalid(s) => AppError::Invalid { message: s },
            StorageError::Database(s) => AppError::Database { message: s },
        }
    }
}

impl vstd::std_specs::convert::FromSpecImpl<StorageError> for AppError {
    open spec fn obeys_from_spec() -> bool {
        true
    }

    open spec fn from_spec(v: StorageError) -> AppError {
        from_storage(v)
    }
}

impl From<SecretStoreError> for AppError {
    fn from(value: SecretStoreError) -> (res: Self) {
        AppError::Secret(value)
    }
}

impl vstd::std_specs::convert::FromSpecImpl<SecretStoreError> for AppError {
    open spec fn obeys_from_spec() -> bool {
        true
    }

    open spec fn from_spec(v: SecretStoreError) -> AppError {
        AppError::Secret(v)
    }
}

impl From<KindroidError> for AppError {
    fn from(value: KindroidError) -> (res: Self) {
        AppError::Kindroid(value)
    }
}

impl vstd::std_specs::convert::FromSpecImpl<KindroidError> for AppError {
    open spec fn obeys_from_spec() -> bool {
        true
    }

    open spec fn from_spec(v: KindroidError) -> AppError {
        AppError::Kindroid(v)
    }
}

impl From<AiError> for AppError {
    fn from(value: AiError) -> (res: Self) {
        AppError::Ai(value)
    }
}

impl vstd::std_specs::convert::FromSpecImpl<AiError> for AppError {
    open spec fn obeys_from_spec() -> bool {
        true
    }

    open spec fn from_spec(v: AiError) -> AppError {
        AppError::Ai(v)
    }
}

/// The outcome of one request of a push, as shown to the user.
#[derive(Debug, Clone, PartialEq, Eq)]
pub struct StepResult {
    pub status: u16,
    pub ok: bool,
    pub message: String,
}

/// The message shown for a response with `status` and `body`.
pub open spec fn friendly_message(status: u16, body: Seq<char>) -> Seq<char> {
    if 200 <= status <= 299 {
        "OK"@
    } else if 400 <= status <= 499 {
        "Kindroid rejected the request: "@ + body
    } else {
        "Server error: "@ + body
    }
}

fn friendly_message_for_status(status: u16, body: &str) -> (res: String)
    ensures
        res@ == friendly_message(status, body@),
{
    if 200 <= status && status <= 299 {
        to_owned_string("OK")
    } else if 400 <= status && status <= 499 {
        concat2("Kindroid rejected the request: ", body)
    } else {
        concat2("Server error: ", body)
    }
}

impl StepResult {
    /// The step outcome of a response: ok for a 2xx status.
    pub fn from_response(status: u16, body: &str) -> (res: Self)
        ensures
            res.status == status,
            res.ok == (200 <= status < 300),
            res.message@ == friendly_message(status, body@),
    {
        StepResult {
            status,
            ok: 200 <= status && status < 300,
            message: friendly_message_for_status(status, body),
        }
    }
}

} // verus!
