//! App settings: the Kindroid base URL, the API token, the debug toggle,
//! and what a token test reports.
use vstd::prelude::*;

use crate::commands::push::DEFAULT_BASE_URL;
use crate::error::{is_invalid_with, AppError};
use crate::kindroid::{HttpResponse, KindroidError};
use crate::security::{Secrets, API_TOKEN_KEY};
use crate::text::{
    chars_of, decimal, push_str, str_trim, string_of, text_eq, to_owned_string, trim,
    u64_to_string,
};

verus! {

/// Setting key of the debug toggle that keeps the AI's raw replies.
pub const SETTING_DEBUG_SHOW_AUTOMATION_RESPONSE: &'static str = "debug_show_automation_response";

/// The settings as the UI shows them.
#[derive(Debug, Clone)]
pub struct SettingsDto {
    pub base_url: String,
    pub token_configured: bool,
    pub debug_show_automation_response: bool,
}

/// A new Kindroid base URL.
#[derive(Debug, Clone)]
pub struct SetSettingsInput {
    pub base_url: String,
}

/// Whether an API token is stored.
#[derive(Debug, Clone, Copy, PartialEq, Eq)]
pub struct TokenStatus {
    pub configured: bool,
}

/// New debug toggles.
#[derive(Debug, Clone, Copy)]
pub struct SetDebugFlagsInput {
    pub debug_show_automation_response: bool,
}

/// What a token test reports.
#[derive(Debug, Clone, PartialEq, Eq)]
pub struct TestTokenResult {
    pub ok: bool,
    pub rate_limited: bool,
    pub message: String,
    pub status: u16,
}

/// ASCII lower case of a character.
pub open spec fn ascii_lower(c: char) -> char {
    if 'A' <= c && c <= 'Z' {
        ((c as u32) + 32) as char
    } else {
        c
    }
}

/// ASCII lower case of a text.
pub open spec fn ascii_lower_text(s: Seq<char>) -> Seq<char> {
    s.map_values(|c: char| ascii_lower(c))
}

fn to_ascii_lowercase(s: &str) -> (res: Vec<char>)
    ensures
        res@ == ascii_lower_text(s@),
{
    let cs = chars_of(s);
    let mut out: Vec<char> = Vec::new();
    let mut i: usize = 0;
    while i < cs.len()
        invariant
            i <= cs.len(),
            cs@ == s@,
            out@ == ascii_lower_text(cs@.take(i as int)),
        decreases cs.len() - i,
    {
        let c = cs[i];
        let l = if 'A' <= c && c <= 'Z' {
            ((c as u32) + 32) as u8 as char
        } else {
            c
        };
        proof {
            if 'A' <= c && c <= 'Z' {
                assert(((c as u32) + 32) as u8 as char == ascii_lower(c));
            }
        }
        out.push(l);
        proof {
            assert(ascii_lower_text(cs@.take(i + 1)) == ascii_lower_text(cs@.take(i as int)).push(
                ascii_lower(c),
            ));
        }
        i = i + 1;
    }
    proof {
        assert(cs@.take(cs@.len() as int) == cs@);
    }
    out
}

/// Does a stored toggle value mean "on"? `1`, `true`, `yes` or `on`,
/// ignoring surrounding whitespace and ASCII case.
pub open spec fn flag_on(v: Option<Seq<char>>) -> bool {
    match v {
        Some(s) => {
            let l = ascii_lower_text(trim(s));
            l == "1"@ || l == "true"@ || l == "yes"@ || l == "on"@
        },
        None => false,
    }
}

/// Read a stored toggle.
pub fn parse_debug_flag(value: Option<&str>) -> (res: bool)
    ensures
        res == flag_on(
            match value {
                Some(v) => Some(v@),
                None => None,
            },
        ),
{
    match value {
        Some(v) => {
            let l = to_ascii_lowercase(str_trim(v));
            let s = string_of(l.as_slice());
            text_eq(s.as_str(), "1") || text_eq(s.as_str(), "true") || text_eq(s.as_str(), "yes")
                || text_eq(s.as_str(), "on")
        },
        None => false,
    }
}

/// The stored value of a toggle.
pub fn debug_flag_value(on: bool) -> (res: &'static str)
    ensures
        on ==> res@ == "true"@,
        !on ==> res@ == "false"@,
{
    if on {
        "true"
    } else {
        "false"
    }
}

/// The settings shown to the user: the stored base URL or the default,
/// whether a token is stored, and the debug toggle.
pub fn settings_dto(base_url: Option<String>, token_configured: bool, debug_value: Option<&str>) -> (res: SettingsDto)
    ensures
        res.base_url@ == (match base_url {
            Some(b) => b@,
            None => DEFAULT_BASE_URL@,
        }),
        res.token_configured == token_configured,
        res.debug_show_automation_response == flag_on(
            match debug_value {
                Some(v) => Some(v@),
                None => None,
            },
        ),
{
    let base_url = match base_url {
        Some(b) => b,
        None => to_owned_string(DEFAULT_BASE_URL),
    };
    SettingsDto {
        base_url,
        token_configured,
        debug_show_automation_response: parse_debug_flag(debug_value),
    }
}

/// A base URL as stored: trimmed, without trailing `/`.
pub open spec fn stored_base_url(s: Seq<char>) -> Seq<char> {
    crate::kindroid::trim_slashes(trim(s))
}

/// Normalise a new base URL; a blank one is refused.
pub fn normalize_base_url(input: &SetSettingsInput) -> (res: Result<String, AppError>)
    ensures
        stored_base_url(input.base_url@).len() > 0 ==> (res matches Ok(u) && u@ == stored_base_url(
            input.base_url@,
        )),
        stored_base_url(input.base_url@).len() == 0 ==> (res matches Err(e) && is_invalid_with(
            e,
            "base_url is required"@,
        )),
{
    let t = str_trim(input.base_url.as_str());
    let cs = crate::kindroid::trim_trailing_slashes(t);
    if cs.len() == 0 {
        return Err(AppError::invalid("base_url is required"));
    }
    Ok(string_of(cs.as_slice()))
}

/// The token status for the outcome of the keychain check: configured
/// exactly when a token was found.
pub fn token_status_of(found: bool) -> (res: TokenStatus)
    ensures
        res.configured == found,
{
    TokenStatus { configured: found }
}

/// Whether the Kindroid API token is stored: `token_status_of` the
/// keychain check `Secrets::contains(API_TOKEN_KEY)`, whose answer depends
/// on the machine.
pub fn token_status() -> (res: TokenStatus) {
    let present = Secrets::contains(API_TOKEN_KEY);
    token_status_of(present)
}

/// The text stored for a token the user typed: the token trimmed. A blank
/// token is refused.
pub fn token_to_store(token: &str) -> (res: Result<String, AppError>)
    ensures
        trim(token@).len() == 0 ==> (res matches Err(e) && is_invalid_with(
            e,
            "token is required"@,
        )),
        trim(token@).len() > 0 ==> (res matches Ok(t) && t@ == trim(token@)),
{
    let trimmed = str_trim(token);
    if trimmed.is_empty() {
        return Err(AppError::invalid("token is required"));
    }
    Ok(to_owned_string(trimmed))
}

/// Store the Kindroid API token: the text of `token_to_store` goes to
/// the keychain under `API_TOKEN_KEY`. A blank token is refused; a
/// keychain failure is reported as a secret-store error.
pub fn set_token(token: String) -> (res: Result<(), AppError>)
    ensures
        trim(token@).len() == 0 ==> (res matches Err(e) && is_invalid_with(
            e,
            "token is required"@,
        )),
        trim(token@).len() > 0 ==> (res is Ok || res matches Err(AppError::Secret(_))),
{
    let stored = token_to_store(token.as_str())?;
    match Secrets::set(API_TOKEN_KEY, stored.as_str()) {
        Ok(()) => Ok(()),
        Err(e) => Err(AppError::Secret(e)),
    }
}

/// Delete the Kindroid API token.
pub fn clear_token() -> (res: Result<(), AppError>)
    ensures
        res is Ok || res matches Err(AppError::Secret(_)),
{
    match Secrets::clear(API_TOKEN_KEY) {
        Ok(()) => Ok(()),
        Err(e) => Err(AppError::Secret(e)),
    }
}

/// What a token test reports for the server's answer to an empty update:
/// any answer, or a refusal of the request itself, proves the token
/// reached the server; a rate limit does too; an auth failure, a 404, a
/// server error or a network failure does not.
pub open spec fn token_test_report(r: Result<HttpResponse, KindroidError>) -> (bool, bool, Seq<char>, u16) {
    match r {
        Ok(h) => (true, false, "OK (status "@ + decimal(h.status as nat) + ")"@, h.status),
        Err(KindroidError::Auth { status, .. }) => (
            false,
            false,
            "Invalid token (status "@ + decimal(status as nat) + ")"@,
            status,
        ),
        Err(KindroidError::RateLimited { status, retry_after, .. }) => (
            true,
            true,
            "Rate limited; auth reached (status "@ + decimal(status as nat) + match retry_after {
                Some(ms) => ", retry in "@ + decimal((ms / 1000) as nat) + "s"@,
                None => Seq::empty(),
            } + ")"@,
            status,
        ),
        Err(KindroidError::BadRequest { status, .. }) => (
            true,
            false,
            "OK (status "@ + decimal(status as nat) + ", auth reached)"@,
            status,
        ),
        Err(KindroidError::NotFound { status, .. }) => (
            false,
            false,
            "Unexpected 404 from server (status "@ + decimal(status as nat) + ")"@,
            status,
        ),
        Err(KindroidError::Server { status, body }) => (
            false,
            false,
            "Server error "@ + decimal(status as nat) + ": "@ + body@,
            status,
        ),
        Err(KindroidError::Network { message }) => (false, false, "(network) "@ + message@, 0),
    }
}

fn status_text(head: &str, status: u16, tail: &str) -> (res: Vec<char>)
    ensures
        res@ == head@ + decimal(status as nat) + tail@,
{
    let mut out = chars_of(head);
    let s = u64_to_string(status as u64);
    push_str(&mut out, s.as_str());
    push_str(&mut out, tail);
    out
}

/// Turn the server's answer to a token test into the report.
pub fn test_token_result(r: Result<HttpResponse, KindroidError>) -> (res: TestTokenResult)
    ensures
        (res.ok, res.rate_limited, res.message@, res.status) == token_test_report(r),
{
    match r {
        Ok(h) => {
            let m = status_text("OK (status ", h.status, ")");
            TestTokenResult { ok: true, rate_limited: false, message: string_of(m.as_slice()), status: h.status }
        },
        Err(KindroidError::Auth { status, .. }) => {
            let m = status_text("Invalid token (status ", status, ")");
            TestTokenResult { ok: false, rate_limited: false, message: string_of(m.as_slice()), status }
        },
        Err(KindroidError::RateLimited { status, retry_after, .. }) => {
            let mut m = status_text("Rate limited; auth reached (status ", status, "");
            match retry_after {
                Some(ms) => {
                    push_str(&mut m, ", retry in ");
                    let d = u64_to_string(ms / 1000);
                    push_str(&mut m, d.as_str());
                    push_str(&mut m, "s");
                },
                None => {},
            }
            push_str(&mut m, ")");
            proof {
                reveal_strlit("");
                assert(m@ =~= token_test_report(r).2);
            }
            TestTokenResult { ok: true, rate_limited: true, message: string_of(m.as_slice()), status }
        },
        Err(KindroidError::BadRequest { status, .. }) => {
            let m = status_text("OK (status ", status, ", auth reached)");
            TestTokenResult { ok: true, rate_limited: false, message: string_of(m.as_slice()), status }
        },
        Err(KindroidError::NotFound { status, .. }) => {
            let m = status_text("Unexpected 404 from server (status ", status, ")");
            TestTokenResult { ok: false, rate_limited: false, message: string_of(m.as_slice()), status }
        },
        Err(KindroidError::Server { status, body }) => {
            let mut m = status_text("Server error ", status, ": ");
            push_str(&mut m, body.as_str());
            proof {
                assert(m@ =~= token_test_report(r).2);
            }
            TestTokenResult { ok: false, rate_limited: false, message: string_of(m.as_slice()), status }
        },
        Err(KindroidError::Network { message }) => TestTokenResult {
            ok: false,
            rate_limited: false,
            message: crate::text::concat2("(network) ", message.as_str()),
            status: 0,
        },
    }
}

} // verus!
