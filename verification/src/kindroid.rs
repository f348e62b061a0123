//! The Kindroid API as plain values: request and response shapes, how a
//! status code becomes an error, the `Retry-After` header, and the URLs the
//! client calls. Sending the requests is done outside this crate.
use vstd::prelude::*;
use vstd::utf8::encode_utf8;

use crate::text::{
    chars_of, concat2, decimal, push_all, push_str, signed_decimal, string_of, u64_to_string,
};

verus! {

/// `POST /chat-break` body.
#[derive(Debug)]
pub struct ChatBreakRequest {
    pub ai_id: String,
    pub greeting: String,
    pub wipe_cascaded: bool,
}

/// `POST /toggle-message-pin` body.
#[derive(Debug)]
pub struct ToggleMessagePinRequest {
    pub ai_id: String,
    pub message_id: String,
}

/// `POST /journal-create` body.
#[derive(Debug)]
pub struct JournalCreateRequest<'a> {
    pub ai_id: &'a str,
    pub entry: &'a str,
    pub keyphrases: &'a [String],
}

/// The canonical pin state returned by `POST /toggle-message-pin`.
#[derive(Debug, Clone, Copy, PartialEq, Eq)]
pub struct ToggleMessagePinResponse {
    pub is_pinned: bool,
}

/// A successful HTTP exchange: status and body text.
#[derive(Debug)]
pub struct HttpResponse {
    pub status: u16,
    pub ok: bool,
    pub body: String,
}

/// Query of `GET /get-chat-messages`.
#[derive(Debug)]
pub struct ListChatMessagesRequest {
    pub ai_id: String,
    pub limit: u32,
    pub start_after_timestamp: Option<i64>,
}

/// One message as the chat-history endpoint returns it.
#[derive(Debug)]
pub struct RawChatMessage {
    pub id: String,
    pub sender: String,
    pub display_name: Option<String>,
    pub timestamp: i64,
    pub message: Option<String>,
    pub image_urls: Option<Vec<String>>,
    pub image_description: Option<String>,
    pub video_description: Option<String>,
    pub internet_response: Option<String>,
    pub link_url: Option<String>,
    pub link_description: Option<String>,
}

/// One page of chat history.
#[derive(Debug)]
pub struct ChatMessagesPage {
    pub messages: Vec<RawChatMessage>,
    pub has_more: bool,
    pub limit: u32,
    /// The cursor from `pagination.lastTimestamp`, when the server sent one.
    pub pagination_last_timestamp: Option<i64>,
}

/// Errors of the Kindroid API. `retry_after` is in milliseconds.
#[derive(Debug, Clone, PartialEq, Eq)]
pub enum KindroidError {
    Auth { status: u16, body: String },
    RateLimited { status: u16, body: String, retry_after: Option<u64> },
    BadRequest { status: u16, body: String },
    NotFound { status: u16, body: String },
    Server { status: u16, body: String },
    Network { message: String },
}

/// The user-facing text of a Kindroid error.
pub open spec fn kindroid_error_text(e: KindroidError) -> Seq<char> {
    match e {
        KindroidError::Auth { .. } => "invalid or missing API key"@,
        KindroidError::RateLimited { .. } => "rate limited"@,
        KindroidError::BadRequest { body, .. } => "bad request: "@ + body@,
        KindroidError::NotFound { .. } => "not found"@,
        KindroidError::Server { .. } => "server error"@,
        KindroidError::Network { message } => "(network) "@ + message@,
    }
}

/// The HTTP status carried by an error; `0` for a network failure.
pub open spec fn kindroid_error_status(e: KindroidError) -> u16 {
    match e {
        KindroidError::Auth { status, .. } => status,
        KindroidError::RateLimited { status, .. } => status,
        KindroidError::BadRequest { status, .. } => status,
        KindroidError::NotFound { status, .. } => status,
        KindroidError::Server { status, .. } => status,
        KindroidError::Network { .. } => 0,
    }
}

/// The body carried by an error; the message for a network failure.
pub open spec fn kindroid_error_body(e: KindroidError) -> Seq<char> {
    match e {
        KindroidError::Auth { body, .. } => body@,
        KindroidError::RateLimited { body, .. } => body@,
        KindroidError::BadRequest { body, .. } => body@,
        KindroidError::NotFound { body, .. } => body@,
        KindroidError::Server { body, .. } => body@,
        KindroidError::Network { message } => message@,
    }
}

impl KindroidError {
    /// The user-facing text of the error.
    pub fn message(&self) -> (res: String)
        ensures
            res@ == kindroid_error_text(*self),
    {
        match self {
            KindroidError::Auth { .. } => crate::text::to_owned_string("invalid or missing API key"),
            KindroidError::RateLimited { .. } => crate::text::to_owned_string("rate limited"),
            KindroidError::BadRequest { body, .. } => concat2("bad request: ", body.as_str()),
            KindroidError::NotFound { .. } => crate::text::to_owned_string("not found"),
            KindroidError::Server { .. } => crate::text::to_owned_string("server error"),
            KindroidError::Network { message } => concat2("(network) ", message.as_str()),
        }
    }

    /// The HTTP status of the error; `0` for a network failure.
    pub fn status(&self) -> (res: u16)
        ensures
            res == kindroid_error_status(*self),
    {
        match self {
            KindroidError::Auth { status, .. } => *status,
            KindroidError::RateLimited { status, .. } => *status,
            KindroidError::BadRequest { status, .. } => *status,
            KindroidError::NotFound { status, .. } => *status,
            KindroidError::Server { status, .. } => *status,
            KindroidError::Network { .. } => 0,
        }
    }

    /// The response body of the error; the message for a network failure.
    pub fn body(&self) -> (res: String)
        ensures
            res@ == kindroid_error_body(*self),
    {
        match self {
            KindroidError::Auth { body, .. } => crate::text::to_owned_string(body.as_str()),
            KindroidError::RateLimited { body, .. } => crate::text::to_owned_string(body.as_str()),
            KindroidError::BadRequest { body, .. } => crate::text::to_owned_string(body.as_str()),
            KindroidError::NotFound { body, .. } => crate::text::to_owned_string(body.as_str()),
            KindroidError::Server { body, .. } => crate::text::to_owned_string(body.as_str()),
            KindroidError::Network { message } => crate::text::to_owned_string(message.as_str()),
        }
    }
}

/// How a non-2xx status becomes an error: 401/403 auth, 404 not found,
/// 429 rate limited (with the parsed `Retry-After`), any other 4xx a bad
/// request, everything else a server error.
pub open spec fn status_error(status: u16, body: String, retry_after: Option<u64>) -> KindroidError {
    if status == 401 || status == 403 {
        KindroidError::Auth { status, body }
    } else if status == 404 {
        KindroidError::NotFound { status, body }
    } else if status == 429 {
        KindroidError::RateLimited { status, body, retry_after }
    } else if 400 <= status <= 499 {
        KindroidError::BadRequest { status, body }
    } else {
        KindroidError::Server { status, body }
    }
}

/// Classify a failed response. `retry_after` is the already parsed
/// `Retry-After` header; it is kept only for a 429.
pub fn map_error(status: u16, body: String, retry_after: Option<u64>) -> (res: KindroidError)
    ensures
        res == status_error(status, body, retry_after),
{
    if status == 401 || status == 403 {
        KindroidError::Auth { status, body }
    } else if status == 404 {
        KindroidError::NotFound { status, body }
    } else if status == 429 {
        KindroidError::RateLimited { status, body, retry_after }
    } else if 400 <= status && status <= 499 {
        KindroidError::BadRequest { status, body }
    } else {
        KindroidError::Server { status, body }
    }
}

/// Is `c` an ASCII digit?
pub open spec fn is_digit(c: char) -> bool {
    '0' <= c && c <= '9'
}

/// The value of a run of ASCII digits.
pub open spec fn digits_value(s: Seq<char>) -> nat
    decreases s.len(),
{
    if s.len() == 0 {
        0
    } else {
        digits_value(s.drop_last()) * 10 + ((s.last() as nat) - ('0' as nat)) as nat
    }
}

/// `s` without one leading `+`.
pub open spec fn unsigned_digits(s: Seq<char>) -> Seq<char> {
    if s.len() > 0 && s[0] == '+' {
        s.drop_first()
    } else {
        s
    }
}

/// What `u64::from_str` accepts: an optional `+` and then one or more
/// ASCII digits whose value fits in a `u64`.
pub open spec fn parse_u64(s: Seq<char>) -> Option<u64> {
    let digits = unsigned_digits(s);
    if digits.len() > 0 && (forall|i: int| 0 <= i < digits.len() ==> is_digit(#[trigger] digits[i]))
        && digits_value(digits) <= u64::MAX {
        Some(digits_value(digits) as u64)
    } else {
        None
    }
}

/// Parse a decimal `u64` the way `str::parse::<u64>` does.
pub fn parse_decimal_u64(s: &[char]) -> (res: Option<u64>)
    ensures
        res == parse_u64(s@),
{
    let mut start: usize = 0;
    if s.len() > 0 && s[0] == '+' {
        start = 1;
    }
    let ghost digits = unsigned_digits(s@);
    proof {
        assert(digits == s@.skip(start as int));
    }
    if start == s.len() {
        return None;
    }
    let mut value: u64 = 0;
    let mut i = start;
    while i < s.len()
        invariant
            start <= i <= s.len(),
            digits == unsigned_digits(s@),
            digits == s@.skip(start as int),
            forall|k: int| start <= k < i ==> is_digit(s@[k]),
            value as nat == digits_value(s@.subrange(start as int, i as int)),
        decreases s.len() - i,
    {
        let c = s[i];
        if !('0' <= c && c <= '9') {
            proof {
                assert(digits[i - start] == c);
                assert(!is_digit(digits[i - start]));
            }
            return None;
        }
        let d = (c as u32 - '0' as u32) as u64;
        proof {
            let t = s@.subrange(start as int, i + 1);
            assert(t.drop_last() == s@.subrange(start as int, i as int));
            assert(t.last() == c);
            assert(d == (c as nat) - ('0' as nat));
            assert(digits_value(t) == value * 10 + d);
        }
        if value > (u64::MAX - d) / 10 {
            proof {
                lemma_digits_value_monotone(digits, i + 1 - start);
                assert(digits.take(i + 1 - start) == s@.subrange(start as int, i + 1));
                assert(value * 10 + d > u64::MAX) by (nonlinear_arith)
                    requires
                        value > (u64::MAX - d) / 10,
                        d <= 9,
                ;
                assert(digits_value(digits) > u64::MAX);
            }
            return None;
        }
        value = value * 10 + d;
        i = i + 1;
    }
    proof {
        assert(s@.subrange(start as int, s@.len() as int) == digits);
        assert forall|k: int| 0 <= k < digits.len() implies is_digit(#[trigger] digits[k]) by {
            assert(digits[k] == s@[start + k]);
        }
    }
    Some(value)
}

proof fn lemma_digits_value_monotone(s: Seq<char>, m: int)
    requires
        0 <= m <= s.len(),
    ensures
        digits_value(s.take(m)) <= digits_value(s),
    decreases s.len() - m,
{
    if m < s.len() {
        lemma_digits_value_monotone(s, m + 1);
        let t = s.take(m + 1);
        assert(t.drop_last() == s.take(m));
        assert(digits_value(t) >= digits_value(s.take(m)) * 10) by (nonlinear_arith)
            requires
                digits_value(t) == digits_value(t.drop_last()) * 10 + ((t.last() as nat) - (
                '0' as nat)) as nat,
                t.drop_last() == s.take(m),
        ;
        assert(digits_value(s.take(m)) <= digits_value(s.take(m)) * 10) by (nonlinear_arith);
    } else {
        assert(s.take(m) == s);
    }
}

/// The unix time, in seconds, that `chrono` reads from an RFC 2822 date;
/// `None` when the text is not such a date.
pub uninterp spec fn rfc2822_unix_seconds(s: Seq<char>) -> Option<i64>;

/// `chrono::DateTime::parse_from_rfc2822(s)`, as unix seconds.
#[verifier::external_body]
fn parse_rfc2822(s: &str) -> (res: Option<i64>)
    ensures
        res == rfc2822_unix_seconds(s@),
{
    chrono::DateTime::parse_from_rfc2822(s).ok().map(|d| d.timestamp())
}

/// The system clock as unix milliseconds, read through
/// `std::time::SystemTime::now()`: `None` when it reads before 1970 or
/// past what an `i64` of milliseconds holds. Nothing is known of the time
/// it reads.
#[verifier::external_body]
fn now_unix_millis() -> (res: Option<i64>) {
    let since = std::time::SystemTime::now().duration_since(std::time::UNIX_EPOCH).ok()?;
    i64::try_from(since.as_millis()).ok()
}

/// A number of milliseconds as a `u64`, the largest `u64` when it does not
/// fit (none is negative here).
pub open spec fn saturated_millis(ms: int) -> u64 {
    if ms <= u64::MAX {
        ms as u64
    } else {
        u64::MAX
    }
}

/// What a `Retry-After` value means at unix time `now_ms` (milliseconds):
/// a delay in milliseconds (RFC 7231 §7.1.3), either written as an
/// integer number of seconds or as an HTTP date still in the future.
pub open spec fn retry_after_at(value: Seq<char>, now_ms: i64) -> Option<u64> {
    match parse_u64(crate::text::trim(value)) {
        Some(secs) => Some(saturated_millis(secs * 1000)),
        None => match rfc2822_unix_seconds(value) {
            Some(t) => if t * 1000 > now_ms {
                Some(saturated_millis(t * 1000 - now_ms))
            } else {
                None
            },
            None => None,
        },
    }
}

/// The delay, in milliseconds, that a `Retry-After` value asks for, given
/// the current time in unix milliseconds.
pub fn retry_after_from(value: &str, now_ms: i64) -> (res: Option<u64>)
    ensures
        res == retry_after_at(value@, now_ms),
        parse_u64(crate::text::trim(value@)) matches Some(secs) ==> (secs * 1000 <= u64::MAX
            ==> res == Some((secs * 1000) as u64)),
        parse_u64(crate::text::trim(value@)) is None ==> match rfc2822_unix_seconds(value@) {
            None => res is None,
            Some(t) => {
                &&& t * 1000 <= now_ms ==> res is None
                &&& t * 1000 > now_ms ==> (res matches Some(d) && 0 < d && (t * 1000 - now_ms
                    <= u64::MAX ==> now_ms + d == t * 1000))
            },
        },
{
    let trimmed = crate::text::str_trim(value);
    let cs = chars_of(trimmed);
    match parse_decimal_u64(cs.as_slice()) {
        Some(secs) => if secs <= u64::MAX / 1000 {
            Some(secs * 1000)
        } else {
            Some(u64::MAX)
        },
        None => match parse_rfc2822(value) {
            Some(t) => {
                let due: i128 = t as i128 * 1000;
                if due > now_ms as i128 {
                    let d: i128 = due - now_ms as i128;
                    if d <= u64::MAX as i128 {
                        Some(d as u64)
                    } else {
                        Some(u64::MAX)
                    }
                } else {
                    None
                }
            },
            None => None,
        },
    }
}

/// Parse a `Retry-After` header into a delay in milliseconds: an integer
/// number of seconds, or an HTTP date measured from the current time.
/// When the clock cannot be read, a date gives no delay.
pub fn parse_retry_after(value: &str) -> (res: Option<u64>)
    ensures
        parse_u64(crate::text::trim(value@)) matches Some(secs) ==> res == Some(
            saturated_millis(secs * 1000),
        ),
        parse_u64(crate::text::trim(value@)) is None && rfc2822_unix_seconds(value@) is None
            ==> res is None,
        parse_u64(crate::text::trim(value@)) is None ==> (res matches Some(d) ==> (
        rfc2822_unix_seconds(value@) matches Some(t) && 0 < d && d <= saturated_millis(t * 1000))),
        parse_u64(crate::text::trim(value@)) is None ==> (res is None || exists|now: i64|
            0 <= now && res == #[trigger] retry_after_at(value@, now)),
{
    match parse_decimal_u64(chars_of(crate::text::str_trim(value)).as_slice()) {
        Some(_) => retry_after_from(value, 0),
        None => match now_unix_millis() {
            Some(now) => if now >= 0 {
                let r = retry_after_from(value, now);
                proof {
                    assert(r == retry_after_at(value@, now));
                }
                r
            } else {
                None
            },
            None => None,
        },
    }
}

/// Is `b` passed through unescaped in a query value?
pub open spec fn is_unreserved(b: u8) -> bool {
    (0x30 <= b <= 0x39) || (0x41 <= b <= 0x5A) || (0x61 <= b <= 0x7A) || b == 0x2D || b == 0x2E
        || b == 0x5F || b == 0x7E
}

/// The upper-case hexadecimal digit for `d < 16`.
pub open spec fn hex_digit(d: u8) -> char {
    if d < 10 {
        ((d + 0x30) as u8) as char
    } else {
        ((d + 0x37) as u8) as char
    }
}

/// Percent-encoding of UTF-8 bytes: unreserved bytes pass through, every
/// other byte becomes `%XX`.
pub open spec fn percent_encode(bytes: Seq<u8>) -> Seq<char>
    decreases bytes.len(),
{
    if bytes.len() == 0 {
        Seq::empty()
    } else {
        let b = bytes.last();
        let tail = if is_unreserved(b) {
            seq![b as char]
        } else {
            seq!['%', hex_digit(b / 16), hex_digit(b % 16)]
        };
        percent_encode(bytes.drop_last()) + tail
    }
}

fn hex(d: u8) -> (c: char)
    requires
        d < 16,
    ensures
        c == hex_digit(d),
{
    if d < 10 {
        (d + 0x30) as char
    } else {
        (d + 0x37) as char
    }
}

/// Percent-encode a query-string value: only ASCII letters, digits and
/// `-` `_` `.` `~` pass through.
pub fn urlencoding(s: &str) -> (res: String)
    ensures
        res@ == percent_encode(encode_utf8(s@)),
{
    let bytes = s.as_bytes();
    let mut out: Vec<char> = Vec::new();
    let mut i: usize = 0;
    while i < bytes.len()
        invariant
            i <= bytes.len(),
            out@ == percent_encode(bytes@.take(i as int)),
        decreases bytes.len() - i,
    {
        let b = bytes[i];
        let ghost before = out@;
        if (0x30 <= b && b <= 0x39) || (0x41 <= b && b <= 0x5A) || (0x61 <= b && b <= 0x7A) || b
            == 0x2D || b == 0x2E || b == 0x5F || b == 0x7E {
            out.push(b as char);
        } else {
            out.push('%');
            out.push(hex(b / 16));
            out.push(hex(b % 16));
        }
        proof {
            let t = bytes@.take(i + 1);
            assert(t.drop_last() == bytes@.take(i as int));
            assert(t.last() == b);
        }
        i = i + 1;
    }
    proof {
        assert(bytes@.take(bytes@.len() as int) == bytes@);
    }
    string_of(out.as_slice())
}

/// `s` without trailing `/` characters, as `trim_end_matches('/')`.
pub open spec fn trim_slashes(s: Seq<char>) -> Seq<char>
    decreases s.len(),
{
    if s.len() > 0 && s.last() == '/' {
        trim_slashes(s.drop_last())
    } else {
        s
    }
}

/// The characters of `s` without trailing `/`.
pub fn trim_trailing_slashes(s: &str) -> (res: Vec<char>)
    ensures
        res@ == trim_slashes(s@),
{
    let mut cs = chars_of(s);
    while cs.len() > 0 && cs[cs.len() - 1] == '/'
        invariant
            trim_slashes(cs@) == trim_slashes(s@),
        decreases cs.len(),
    {
        proof {
            assert(cs@.drop_last() == cs@.subrange(0, cs@.len() - 1));
        }
        cs.pop();
    }
    cs
}

/// The URL of `endpoint` under `base_url`: the base without trailing `/`,
/// then `/`, then the endpoint.
pub open spec fn endpoint_url_spec(base_url: Seq<char>, endpoint: Seq<char>) -> Seq<char> {
    trim_slashes(base_url) + seq!['/'] + endpoint
}

/// The URL of `endpoint` under `base_url`.
pub fn endpoint_url(base_url: &str, endpoint: &str) -> (res: String)
    ensures
        res@ == endpoint_url_spec(base_url@, endpoint@),
{
    let mut out = trim_trailing_slashes(base_url);
    out.push('/');
    push_str(&mut out, endpoint);
    string_of(out.as_slice())
}

/// The page size actually requested: between 1 and 100.
pub open spec fn clamp_limit(limit: u32) -> u32 {
    if limit < 1 {
        1
    } else if limit > 100 {
        100
    } else {
        limit
    }
}

/// The chat-history URL for a request: `ai_id` percent-encoded, the
/// clamped limit, and the cursor whenever there is one (also `0`).
pub open spec fn chat_messages_url(base_url: Seq<char>, ai_id: Seq<u8>, limit: u32, start_after: Option<
    i64,
>) -> Seq<char> {
    let head = endpoint_url_spec(base_url, "get-chat-messages?ai_id="@) + percent_encode(ai_id)
        + "&limit="@ + decimal(clamp_limit(limit) as nat);
    match start_after {
        Some(ts) => head + "&start_after_timestamp="@ + signed_decimal(ts as int),
        None => head,
    }
}

/// Build the `GET /get-chat-messages` URL for `req`.
pub fn list_chat_messages_url(base_url: &str, req: &ListChatMessagesRequest) -> (res: String)
    ensures
        res@ == chat_messages_url(
            base_url@,
            encode_utf8(req.ai_id@),
            req.limit,
            req.start_after_timestamp,
        ),
{
    let limit = if req.limit < 1 {
        1
    } else if req.limit > 100 {
        100
    } else {
        req.limit
    };
    let base = endpoint_url(base_url, "get-chat-messages?ai_id=");
    let mut out = chars_of(base.as_str());
    let enc = urlencoding(req.ai_id.as_str());
    push_str(&mut out, enc.as_str());
    push_str(&mut out, "&limit=");
    let lim = u64_to_string(limit as u64);
    push_str(&mut out, lim.as_str());
    match req.start_after_timestamp {
        Some(ts) => {
            push_str(&mut out, "&start_after_timestamp=");
            let t = crate::text::i64_chars(ts);
            push_all(&mut out, t.as_slice());
        },
        None => {},
    }
    string_of(out.as_slice())
}

/// Whether more pages follow: the server's `hasMore` when it sent one,
/// otherwise a full page is taken to mean there is more.
pub fn page_has_more(server_has_more: Option<bool>, received: usize, limit: u32) -> (res: bool)
    ensures
        res == match server_has_more {
            Some(h) => h,
            None => received >= limit,
        },
{
    match server_has_more {
        Some(h) => h,
        None => received >= limit as usize,
    }
}

/// The answer to a request: a 2xx response as it came, any other status
/// as the error `status_error` gives.
pub open spec fn response_result(status: u16, body: String, retry_after: Option<u64>) -> Result<
    HttpResponse,
    KindroidError,
> {
    if 200 <= status < 300 {
        Ok(HttpResponse { status, ok: true, body })
    } else {
        Err(status_error(status, body, retry_after))
    }
}

/// Interpret a response of the Kindroid API. `retry_after` is the parsed
/// `Retry-After` header, used for a 429.
pub fn response_outcome(status: u16, body: String, retry_after: Option<u64>) -> (res: Result<
    HttpResponse,
    KindroidError,
>)
    ensures
        res == response_result(status, body, retry_after),
{
    if 200 <= status && status < 300 {
        Ok(HttpResponse { status, ok: true, body })
    } else {
        Err(map_error(status, body, retry_after))
    }
}

/// The `Authorization` header value for the API token.
pub fn bearer_value(token: &str) -> (res: String)
    ensures
        res@ == "Bearer "@ + token@,
{
    concat2("Bearer ", token)
}

/// A page of chat history as the client returns it: the page size that
/// was asked for (clamped), and whether more follows (the server's
/// `hasMore`, else a full page).
pub fn chat_messages_page(
    messages: Vec<RawChatMessage>,
    server_has_more: Option<bool>,
    last_timestamp: Option<i64>,
    requested_limit: u32,
) -> (res: ChatMessagesPage)
    ensures
        res.messages@ == messages@,
        res.limit == clamp_limit(requested_limit),
        res.has_more == match server_has_more {
            Some(h) => h,
            None => messages@.len() >= clamp_limit(requested_limit),
        },
        res.pagination_last_timestamp == last_timestamp,
{
    let limit = if requested_limit < 1 {
        1
    } else if requested_limit > 100 {
        100
    } else {
        requested_limit
    };
    let has_more = page_has_more(server_has_more, messages.len(), limit);
    ChatMessagesPage { messages, has_more, limit, pagination_last_timestamp: last_timestamp }
}

/// A response body that is not the JSON expected of `what` is reported
/// as a server error with the decoder's message.
pub fn invalid_json_error(status: u16, what: &str, detail: &str) -> (res: KindroidError)
    ensures
        res matches KindroidError::Server { status: s, body } && s == status && body@
            == "invalid "@ + what@ + " JSON: "@ + detail@,
{
    let mut out = chars_of("invalid ");
    push_str(&mut out, what);
    push_str(&mut out, " JSON: ");
    push_str(&mut out, detail);
    KindroidError::Server { status, body: string_of(out.as_slice()) }
}

} // verus!
