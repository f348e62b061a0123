//! API tokens in the operating system's keychain (through the `keyring`
//! crate), and how the keychain's failures are reported.
use vstd::prelude::*;

use crate::text::{concat2, to_owned_string};

verus! {

/// The keychain service every token is stored under.
pub const SERVICE: &'static str = "KindroidManager";

/// The keychain entry of the Kindroid API token.
pub const API_TOKEN_KEY: &'static str = "api_token";

/// The keychain entry of the bearer token for the AI provider.
pub const AI_TOKEN_KEY: &'static str = "ai_token";

/// A failure of the secret store, as the UI sees it.
#[derive(Debug, Clone, PartialEq, Eq)]
pub enum SecretStoreError {
    Unavailable,
    AccessDenied,
    NotFound,
    Other(String),
}

/// The text of a secret-store error.
pub open spec fn secret_error_text(e: SecretStoreError) -> Seq<char> {
    match e {
        SecretStoreError::Unavailable => "OS keychain is not available"@,
        SecretStoreError::AccessDenied => "keychain denied access"@,
        SecretStoreError::NotFound => "no token stored"@,
        SecretStoreError::Other(s) => "keychain error: "@ + s@,
    }
}

impl SecretStoreError {
    /// The text of the error.
    pub fn message(&self) -> (res: String)
        ensures
            res@ == secret_error_text(*self),
    {
        match self {
            SecretStoreError::Unavailable => to_owned_string("OS keychain is not available"),
            SecretStoreError::AccessDenied => to_owned_string("keychain denied access"),
            SecretStoreError::NotFound => to_owned_string("no token stored"),
            SecretStoreError::Other(s) => concat2("keychain error: ", s.as_str()),
        }
    }
}

/// Which kind of failure the keychain reported; `Other` carries the
/// keychain's own text for the kinds not named here.
#[derive(Debug, Clone, PartialEq, Eq)]
pub enum KeyringFailure {
    NoEntry,
    PlatformFailure,
    NoStorageAccess,
    Ambiguous,
    Invalid,
    Other(String),
}

/// How a keychain failure is reported: a missing entry is "not found",
/// a platform or storage failure means the keychain is unavailable, an
/// ambiguous or invalid entry is a denied access, anything else keeps
/// its text.
pub open spec fn secret_store_error(f: KeyringFailure) -> SecretStoreError {
    match f {
        KeyringFailure::NoEntry => SecretStoreError::NotFound,
        KeyringFailure::PlatformFailure => SecretStoreError::Unavailable,
        KeyringFailure::NoStorageAccess => SecretStoreError::Unavailable,
        KeyringFailure::Ambiguous => SecretStoreError::AccessDenied,
        KeyringFailure::Invalid => SecretStoreError::AccessDenied,
        KeyringFailure::Other(s) => SecretStoreError::Other(s),
    }
}

/// Map a keychain failure to the error the UI sees.
pub fn secret_error(f: KeyringFailure) -> (e: SecretStoreError)
    ensures
        e == secret_store_error(f),
{
    match f {
        KeyringFailure::NoEntry => SecretStoreError::NotFound,
        KeyringFailure::PlatformFailure => SecretStoreError::Unavailable,
        KeyringFailure::NoStorageAccess => SecretStoreError::Unavailable,
        KeyringFailure::Ambiguous => SecretStoreError::AccessDenied,
        KeyringFailure::Invalid => SecretStoreError::AccessDenied,
        KeyringFailure::Other(s) => SecretStoreError::Other(s),
    }
}

/// The result of deleting a credential: deleting one that does not exist
/// is a success, any other failure is reported.
pub open spec fn deletion_result(r: Result<(), KeyringFailure>) -> Result<(), SecretStoreError> {
    match r {
        Ok(()) => Ok(()),
        Err(KeyringFailure::NoEntry) => Ok(()),
        Err(f) => Err(secret_store_error(f)),
    }
}

/// Interpret the outcome of deleting a credential.
pub fn deletion_outcome(r: Result<(), KeyringFailure>) -> (res: Result<(), SecretStoreError>)
    ensures
        res == deletion_result(r),
{
    match r {
        Ok(()) => Ok(()),
        Err(KeyringFailure::NoEntry) => Ok(()),
        Err(f) => Err(secret_error(f)),
    }
}

/// Was a token found: a read of the keychain that succeeded, whatever
/// text it gave; any failure (a missing entry among them) means none.
pub fn found(r: &Result<String, SecretStoreError>) -> (res: bool)
    ensures
        res == (r is Ok),
{
    r.is_ok()
}

/// A keychain entry of the `keyring` crate.
#[verifier::external_type_specification]
#[verifier::external_body]
pub struct ExKeyringEntry(keyring::Entry);

/// An error of the `keyring` crate.
#[verifier::external_type_specification]
#[verifier::external_body]
pub struct ExKeyringError(keyring::Error);

/// `keyring::Entry::new(service, user)`. Whether the platform accepts the
/// entry depends on the machine; nothing is promised of the outcome.
#[verifier::external_body]
fn keyring_entry(service: &str, user: &str) -> (res: Result<keyring::Entry, keyring::Error>) {
    keyring::Entry::new(service, user)
}

/// `keyring::Entry::set_password`. The outcome depends on the keychain.
#[verifier::external_body]
fn keyring_set_password(entry: &keyring::Entry, password: &str) -> (res: Result<(), keyring::Error>) {
    entry.set_password(password)
}

/// `keyring::Entry::get_password`. The stored text depends on the keychain.
#[verifier::external_body]
fn keyring_get_password(entry: &keyring::Entry) -> (res: Result<String, keyring::Error>) {
    entry.get_password()
}

/// `keyring::Entry::delete_credential`. The outcome depends on the keychain.
#[verifier::external_body]
fn keyring_delete_credential(entry: &keyring::Entry) -> (res: Result<(), keyring::Error>) {
    entry.delete_credential()
}

/// Tell the variants of a `keyring::Error` apart; a variant not named by
/// `KeyringFailure` keeps the error's own text. Nothing is stated of the
/// result: the error is opaque to the verifier.
#[verifier::external_body]
fn keyring_failure(e: keyring::Error) -> (res: KeyringFailure) {
    match e {
        keyring::Error::NoEntry => KeyringFailure::NoEntry,
        keyring::Error::PlatformFailure(_) => KeyringFailure::PlatformFailure,
        keyring::Error::NoStorageAccess(_) => KeyringFailure::NoStorageAccess,
        keyring::Error::Ambiguous(_) => KeyringFailure::Ambiguous,
        keyring::Error::Invalid(_, _) => KeyringFailure::Invalid,
        other => KeyringFailure::Other(other.to_string()),
    }
}

/// The token store: one keychain entry per key under `SERVICE`.
pub struct Secrets;

impl Secrets {
    fn entry(key: &str) -> (res: Result<keyring::Entry, SecretStoreError>)
        ensures
            res matches Err(e) ==> exists|f: KeyringFailure| e == secret_store_error(f),
    {
        match keyring_entry(SERVICE, key) {
            Ok(e) => Ok(e),
            Err(e) => {
                let f = keyring_failure(e);
                Err(secret_error(f))
            },
        }
    }

    /// Store `token` under `key`. Whether the keychain accepts it depends
    /// on the machine; a failure is one of the keychain's, reported as
    /// `secret_error` maps it.
    pub fn set(key: &str, token: &str) -> (res: Result<(), SecretStoreError>)
        ensures
            res matches Err(e) ==> exists|f: KeyringFailure| e == secret_store_error(f),
    {
        let entry = Self::entry(key)?;
        match keyring_set_password(&entry, token) {
            Ok(()) => Ok(()),
            Err(e) => {
                let f = keyring_failure(e);
                Err(secret_error(f))
            },
        }
    }

    /// Whether a token can be read under `key`: the answer of `found` for
    /// the outcome of `Secrets::get(key)`. What the keychain holds depends
    /// on the machine.
    pub fn contains(key: &str) -> (res: bool) {
        let r = Self::get(key);
        found(&r)
    }

    /// The token stored under `key`; a failure is one of the keychain's,
    /// reported as `secret_error` maps it (a missing entry is `NotFound`).
    pub fn get(key: &str) -> (res: Result<String, SecretStoreError>)
        ensures
            res matches Err(e) ==> exists|f: KeyringFailure| e == secret_store_error(f),
    {
        let entry = Self::entry(key)?;
        match keyring_get_password(&entry) {
            Ok(t) => Ok(t),
            Err(e) => {
                let f = keyring_failure(e);
                Err(secret_error(f))
            },
        }
    }

    /// Delete the token under `key`; deleting a missing token succeeds
    /// (`deletion_outcome`). A failure is one of the keychain's, reported
    /// as `secret_error` maps it. Which failures `keyring::Entry::new` can
    /// give depends on the platform's credential builder, so a `NotFound`
    /// from building the entry is not ruled out.
    pub fn clear(key: &str) -> (res: Result<(), SecretStoreError>)
        ensures
            res matches Err(e) ==> exists|f: KeyringFailure| e == secret_store_error(f),
    {
        let entry = Self::entry(key)?;
        let outcome = match keyring_delete_credential(&entry) {
            Ok(()) => Ok(()),
            Err(e) => Err(keyring_failure(e)),
        };
        deletion_outcome(outcome)
    }
}

} // verus!
