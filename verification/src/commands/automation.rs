//! Chat automation: automatic journal entries and a rolling summary
//! written by an AI provider from the stable chat history. Here are the
//! rules of a cycle, the prompts, and how the provider's reply is read.
use vstd::prelude::*;
use vstd::string::StrSliceExecFns;

use crate::domain::chat_automation::{
    backend_limit, AutoJournalEntry, AutoJournalEntryStatus, AutoJournalRun,
    AutoJournalRunStatus, ChatAutomationState, StableMessageCursor, SummaryBackend,
    SummaryBootstrapMode,
};
use crate::domain::character::opt_view;
use crate::domain::target::Target;
use crate::error::{is_invalid_with, AppError};
use crate::commands::prompts::SummaryMode;
use crate::kindroid::{kindroid_error_status, kindroid_error_text, HttpResponse, KindroidError};
use crate::security::SecretStoreError;
use crate::text::{
    chars_of, find_chars, first_from, push_all, push_str, str_trim, string_of, to_owned_string,
    trim,
};

verus! {

/// Whether a text is one JSON value, as `serde_json` parses it.
pub uninterp spec fn is_json_text(s: Seq<char>) -> bool;

/// `serde_json::from_str::<serde_json::Value>(s).is_ok()`.
#[verifier::external_body]
fn is_json(s: &str) -> (res: bool)
    ensures
        res == is_json_text(s@),
{
    serde_json::from_str::<serde_json::Value>(s).is_ok()
}

/// The code fence of Markdown.
pub open spec fn fence() -> Seq<char> {
    seq!['`', '`', '`']
}

/// Is `c` an ASCII letter or digit?
pub open spec fn is_ascii_alnum(c: char) -> bool {
    ('0' <= c && c <= '9') || ('a' <= c && c <= 'z') || ('A' <= c && c <= 'Z')
}

/// The first position, from `i` on, of a character that is not an ASCII
/// letter or digit.
pub open spec fn first_non_alnum(s: Seq<char>, i: nat) -> Option<int>
    decreases s.len() - i,
{
    if i >= s.len() {
        None
    } else if !is_ascii_alnum(s[i as int]) {
        Some(i as int)
    } else {
        first_non_alnum(s, i + 1)
    }
}

/// The inside of the first fenced code block of `s`, without its info
/// line: after the opening fence, up to the next fence; then everything
/// after the first line break, or else from the first character that is
/// not a letter or digit (the language tag is dropped). Without a closed
/// fence, `s` itself.
pub open spec fn fenced_body(s: Seq<char>) -> Seq<char> {
    match first_from(s, fence(), 0) {
        None => s,
        Some(start) => {
            let after = s.skip(start + 3);
            match first_from(after, fence(), 0) {
                None => s,
                Some(end_rel) => {
                    let inner = after.take(end_rel);
                    match first_from(inner, seq!['\n'], 0) {
                        Some(nl) => inner.skip(nl + 1),
                        None => match first_non_alnum(inner, 0) {
                            Some(k) => inner.skip(k),
                            None => inner,
                        },
                    }
                },
            }
        },
    }
}

fn first_non_alnum_exec(cs: &Vec<char>) -> (res: Option<usize>)
    ensures
        match res {
            Some(k) => first_non_alnum(cs@, 0) == Some(k as int) && k < cs@.len(),
            None => first_non_alnum(cs@, 0) is None,
        },
{
    let mut i: usize = 0;
    while i < cs.len()
        invariant
            i <= cs.len(),
            first_non_alnum(cs@, 0) == first_non_alnum(cs@, i as nat),
        decreases cs.len() - i,
    {
        let c = cs[i];
        if !(('0' <= c && c <= '9') || ('a' <= c && c <= 'z') || ('A' <= c && c <= 'Z')) {
            return Some(i);
        }
        i = i + 1;
    }
    None
}

fn skip_chars(cs: &Vec<char>, from: usize) -> (res: Vec<char>)
    requires
        from <= cs@.len(),
    ensures
        res@ == cs@.skip(from as int),
{
    let mut out: Vec<char> = Vec::new();
    let mut i = from;
    while i < cs.len()
        invariant
            from <= i <= cs.len(),
            out@ == cs@.subrange(from as int, i as int),
        decreases cs.len() - i,
    {
        out.push(cs[i]);
        proof {
            assert(cs@.subrange(from as int, i + 1) == cs@.subrange(from as int, i as int).push(
                cs@[i as int],
            ));
        }
        i = i + 1;
    }
    proof {
        assert(cs@.subrange(from as int, cs@.len() as int) == cs@.skip(from as int));
    }
    out
}

fn take_chars(cs: &Vec<char>, n: usize) -> (res: Vec<char>)
    requires
        n <= cs@.len(),
    ensures
        res@ == cs@.take(n as int),
{
    let mut out: Vec<char> = Vec::new();
    let mut i: usize = 0;
    while i < n
        invariant
            n <= cs@.len(),
            i <= n,
            out@ == cs@.take(i as int),
        decreases n - i,
    {
        out.push(cs[i]);
        proof {
            assert(cs@.take(i + 1) == cs@.take(i as int).push(cs@[i as int]));
        }
        i = i + 1;
    }
    out
}

/// Take the inside of the first fenced code block of a reply.
pub fn strip_fenced(s: &str) -> (res: String)
    ensures
        res@ == fenced_body(s@),
{
    let cs = chars_of(s);
    let f = chars_of("```");
    proof {
        reveal_strlit("```");
        assert(f@ == fence());
    }
    let n = cs.len();
    match find_chars(&cs, &f) {
        None => string_of(cs.as_slice()),
        Some(start) => {
            proof {
                crate::text::lemma_first_from_occurs(cs@, f@, 0);
                assert(start + 3 <= cs@.len());
                assert(start + 3 <= n);
            }
            let after = skip_chars(&cs, start + 3);
            match find_chars(&after, &f) {
                None => string_of(cs.as_slice()),
                Some(end_rel) => {
                    proof {
                        crate::text::lemma_first_from_occurs(after@, f@, 0);
                        assert(end_rel + 3 <= after@.len());
                    }
                    let inner = take_chars(&after, end_rel);
                    let mut nl: Vec<char> = Vec::new();
                    nl.push('\n');
                    proof {
                        assert(nl@ == seq!['\n']);
                    }
                    match find_chars(&inner, &nl) {
                        Some(k) => {
                            proof {
                                crate::text::lemma_first_from_occurs(inner@, nl@, 0);
                                assert(k + 1 <= inner@.len());
                            }
                            let rest = skip_chars(&inner, k + 1);
                            string_of(rest.as_slice())
                        },
                        None => match first_non_alnum_exec(&inner) {
                            Some(k) => {
                                let rest = skip_chars(&inner, k);
                                string_of(rest.as_slice())
                            },
                            None => string_of(inner.as_slice()),
                        },
                    }
                },
            }
        },
    }
}

/// Where the brace opened at the start of the scan closes: scanning from
/// `i` with `depth` braces open, the position of the `}` that brings the
/// depth back to zero.
pub open spec fn close_from(s: Seq<char>, i: nat, depth: int) -> Option<int>
    decreases s.len() - i,
{
    if i >= s.len() {
        None
    } else if s[i as int] == '{' {
        close_from(s, i + 1, depth + 1)
    } else if s[i as int] == '}' {
        if depth - 1 == 0 {
            Some(i as int)
        } else {
            close_from(s, i + 1, depth - 1)
        }
    } else {
        close_from(s, i + 1, depth)
    }
}

/// The first balanced `{...}` of `s`: from the first `{` to the brace
/// that closes it; empty when there is none.
pub open spec fn first_object(s: Seq<char>) -> Seq<char> {
    match first_from(s, seq!['{'], 0) {
        None => Seq::empty(),
        Some(open) => match close_from(s, open as nat, 0) {
            Some(close) => s.subrange(open, close + 1),
            None => Seq::empty(),
        },
    }
}

proof fn lemma_close_from_bounds(s: Seq<char>, i: nat, depth: int)
    ensures
        close_from(s, i, depth) matches Some(c) ==> i <= c < s.len(),
    decreases s.len() - i,
{
    if i < s.len() {
        lemma_close_from_bounds(s, i + 1, depth + 1);
        lemma_close_from_bounds(s, i + 1, depth - 1);
        lemma_close_from_bounds(s, i + 1, depth);
    }
}

fn subrange_chars(cs: &Vec<char>, from: usize, to: usize) -> (res: Vec<char>)
    requires
        from <= to <= cs@.len(),
    ensures
        res@ == cs@.subrange(from as int, to as int),
{
    let mut out: Vec<char> = Vec::new();
    let mut i = from;
    while i < to
        invariant
            from <= i <= to,
            to <= cs@.len(),
            out@ == cs@.subrange(from as int, i as int),
        decreases to - i,
    {
        out.push(cs[i]);
        proof {
            assert(cs@.subrange(from as int, i + 1) == cs@.subrange(from as int, i as int).push(
                cs@[i as int],
            ));
        }
        i = i + 1;
    }
    out
}

/// Take the first balanced `{...}` of a reply.
pub fn slice_first_object(s: &str) -> (res: String)
    ensures
        res@ == first_object(s@),
{
    let cs = chars_of(s);
    let mut open_brace: Vec<char> = Vec::new();
    open_brace.push('{');
    proof {
        assert(open_brace@ == seq!['{']);
    }
    let open = match find_chars(&cs, &open_brace) {
        Some(o) => o,
        None => {
            return String::new();
        },
    };
    proof {
        crate::text::lemma_first_from_occurs(cs@, open_brace@, 0);
        assert(cs@.subrange(open as int, open + 1)[0] == cs@[open as int]);
    }
    let mut depth: usize = 0;
    let mut i = open;
    while i < cs.len()
        invariant
            open <= i <= cs.len(),
            open < cs.len(),
            cs@[open as int] == '{',
            depth <= i - open,
            cs@ == s@,
            first_from(s@, seq!['{'], 0) == Some(open as int),
            i == open ==> depth == 0,
            i > open ==> depth >= 1,
            close_from(cs@, open as nat, 0) == close_from(cs@, i as nat, depth as int),
        decreases cs.len() - i,
    {
        let c = cs[i];
        if c == '{' {
            depth = depth + 1;
        } else if c == '}' {
            if depth == 1 {
                let out = subrange_chars(&cs, open, i + 1);
                return string_of(out.as_slice());
            }
            proof {
                assert(i > open ==> depth >= 2);
                if i == open {
                    assert(cs@[open as int] == '{');
                }
            }
            depth = depth - 1;
        }
        i = i + 1;
    }
    String::new()
}

/// Where `needle` occurs first in `haystack`, that part of `haystack`.
pub fn find_in<'a>(haystack: &'a str, needle: &str) -> (res: Option<&'a str>)
    ensures
        match first_from(haystack@, needle@, 0) {
            Some(i) => res matches Some(r) && r@ == haystack@.subrange(i, i + needle@.len()),
            None => res is None,
        },
{
    let h = chars_of(haystack);
    let n = chars_of(needle);
    match find_chars(&h, &n) {
        Some(i) => {
            let hl = h.len();
            proof {
                crate::text::lemma_first_from_occurs(h@, n@, 0);
                assert(i + n@.len() <= hl);
            }
            let end = i + n.len();
            Some(haystack.substring_char(i, end))
        },
        None => None,
    }
}

/// The JSON object of an AI reply: the trimmed reply when it is JSON;
/// otherwise the inside of its first fenced block when that is JSON;
/// otherwise its first balanced `{...}` when that is non-empty JSON.
/// The last two are taken from the trimmed reply where they first occur.
pub open spec fn json_candidate(raw: Seq<char>) -> Option<Seq<char>> {
    let t = trim(raw);
    if is_json_text(t) {
        Some(t)
    } else if is_json_text(fenced_body(t)) {
        match first_from(t, fenced_body(t), 0) {
            Some(i) => Some(t.subrange(i, i + fenced_body(t).len())),
            None => None,
        }
    } else if first_object(t).len() > 0 && is_json_text(first_object(t)) {
        match first_from(t, first_object(t), 0) {
            Some(i) => Some(t.subrange(i, i + first_object(t).len())),
            None => None,
        }
    } else {
        None
    }
}

/// Find the JSON object in an AI reply; the result is part of `raw`.
pub fn extract_json_object(raw: &str) -> (res: Option<&str>)
    ensures
        match json_candidate(raw@) {
            Some(c) => res matches Some(r) && r@ == c,
            None => res is None,
        },
{
    let trimmed = str_trim(raw);
    if is_json(trimmed) {
        return Some(trimmed);
    }
    let fenced = strip_fenced(trimmed);
    if is_json(fenced.as_str()) {
        return find_in(trimmed, fenced.as_str());
    }
    let sliced = slice_first_object(trimmed);
    if !sliced.as_str().is_empty() && is_json(sliced.as_str()) {
        return find_in(trimmed, sliced.as_str());
    }
    None
}

/// The first 160 characters of a reply, quoted in errors.
pub open spec fn snippet(raw: Seq<char>) -> Seq<char> {
    if raw.len() <= 160 {
        raw
    } else {
        raw.take(160)
    }
}

/// Find the JSON of a `label` reply of the AI; when there is none, the
/// error quotes the start of the reply. Decoding the JSON into the
/// expected shape is up to the caller.
pub fn parse_json_response<'a>(raw: &'a str, label: &str) -> (res: Result<&'a str, AppError>)
    ensures
        match json_candidate(raw@) {
            Some(c) => res matches Ok(r) && r@ == c,
            None => res matches Err(e) && is_invalid_with(
                e,
                "AI returned non-JSON "@ + label@ + " response: "@ + snippet(raw@),
            ),
        },
{
    match extract_json_object(raw) {
        Some(c) => Ok(c),
        None => {
            let cs = chars_of(raw);
            let n = if cs.len() <= 160 {
                cs.len()
            } else {
                160
            };
            let head = take_chars(&cs, n);
            proof {
                if cs@.len() <= 160 {
                    assert(head@ == cs@);
                }
            }
            let mut msg = chars_of("AI returned non-JSON ");
            push_str(&mut msg, label);
            push_str(&mut msg, " response: ");
            push_all(&mut msg, head.as_slice());
            let text = string_of(msg.as_slice());
            Err(AppError::invalid(text.as_str()))
        },
    }
}

/// A journal entry body with the date line in front; the body's leading
/// whitespace is dropped.
pub fn prepend_date(body: String, prefix: &str) -> (res: String)
    ensures
        res@ == prefix@ + crate::text::trim_start(body@),
{
    let trimmed = crate::text::str_trim_start(body.as_str());
    crate::text::concat2(prefix, trimmed)
}

/// A user's instruction template with `{ai_name}` replaced by the AI's
/// name and, when a user name is known, `{user_name}` by it. Other
/// `{...}` tokens stay as written.
pub open spec fn expanded(input: Seq<char>, ai_name: Seq<char>, user_name: Option<Seq<char>>) -> Seq<char> {
    let s = crate::text::replaced(input, "{ai_name}"@, ai_name);
    match user_name {
        Some(u) => crate::text::replaced(s, "{user_name}"@, u),
        None => s,
    }
}

/// Expand the placeholders of an instruction template.
pub fn expand_placeholders(input: &str, ai_name: &str, user_name: Option<&str>) -> (res: String)
    ensures
        res@ == expanded(
            input@,
            ai_name@,
            match user_name {
                Some(u) => Some(u@),
                None => None,
            },
        ),
{
    proof {
        reveal_strlit("{ai_name}");
        reveal_strlit("{user_name}");
    }
    let out = crate::text::replace_all(input, "{ai_name}", ai_name);
    match user_name {
        Some(u) => crate::text::replace_all(out.as_str(), "{user_name}", u),
        None => out,
    }
}

/// Setting key of the user's journal instructions.
pub const AUTO_JOURNAL_INSTRUCTIONS_KEY: &'static str = "auto_journal_user_instructions";

/// Setting key of the user's summary instructions.
pub const AUTO_SUMMARY_INSTRUCTIONS_KEY: &'static str = "auto_summary_user_instructions";

/// The newest messages are not stable yet: this many are left out.
pub const EXCLUDE_NEWEST_N: u32 = 10;

/// The longest instruction text, in characters.
pub const MAX_INSTRUCTIONS_CHARS: usize = 4000;

/// The journal instructions used when none are set.
pub const DEFAULT_JOURNAL_INSTRUCTIONS: &'static str = "Extract durable facts, preferences, relationships, and important events from the recent conversation. Create concise journal entries that will help this AI remember what matters. Each entry must be a third-person, declarative memory sentence (or 2-3 short sentences) composed of facts the AI would still want to be told later. Never quote roleplay dialogue verbatim. Prefer specific names, places, and concrete details over generalities.";

/// The summary instructions used when none are set.
pub const DEFAULT_SUMMARY_INSTRUCTIONS: &'static str = "Maintain a concise, useful summary of the conversation. Preserve important facts, preferences, relationships, goals, and unresolved threads while removing obsolete detail.";

/// New automation settings for a chat.
#[derive(Debug, Clone)]
pub struct SetChatAutomationSettingsInput {
    pub ai_id: String,
    pub auto_journal_enabled: bool,
    pub auto_summary_enabled: bool,
    pub interval: u32,
    pub journal_cap: u32,
    pub summary_backend: SummaryBackend,
    pub bootstrap_mode: SummaryBootstrapMode,
    pub journal_instructions_override: Option<String>,
    pub summary_instructions_override: Option<String>,
}

/// Forget a chat's summary.
#[derive(Debug, Clone)]
pub struct ResetChatSummaryInput {
    pub ai_id: String,
}

/// Remove a chat's journal runs that never finished.
#[derive(Debug, Clone)]
pub struct ClearStuckAutoJournalRunsInput {
    pub ai_id: String,
}

/// How many stuck runs were removed.
#[derive(Debug, Clone, Copy, PartialEq, Eq)]
pub struct ClearStuckAutoJournalRunsResult {
    pub removed: usize,
}

/// Run a summary cycle now.
#[derive(Debug, Clone)]
pub struct RunSummaryNowInput {
    pub ai_id: String,
}

/// New global instructions.
#[derive(Debug, Clone)]
pub struct SetAutomationInstructionsInput {
    pub journal: String,
    pub summary: String,
}

/// The built-in instructions.
#[derive(Debug, Clone)]
pub struct AutomationInstructionsDefaults {
    pub journal: String,
    pub summary: String,
}

/// Whether a manual summary run did anything, and what to tell the user.
#[derive(Debug, Clone)]
pub struct RunSummaryNowResult {
    pub ran: bool,
    pub message: String,
}

/// The built-in instructions.
pub fn automation_instructions_defaults() -> (res: AutomationInstructionsDefaults)
    ensures
        res.journal@ == DEFAULT_JOURNAL_INSTRUCTIONS@,
        res.summary@ == DEFAULT_SUMMARY_INSTRUCTIONS@,
{
    AutomationInstructionsDefaults {
        journal: to_owned_string(DEFAULT_JOURNAL_INSTRUCTIONS),
        summary: to_owned_string(DEFAULT_SUMMARY_INSTRUCTIONS),
    }
}

/// A chat is named by its trimmed `ai_id`, which must not be blank.
pub fn validate_ai_id(ai_id: &str) -> (res: Result<String, AppError>)
    ensures
        trim(ai_id@).len() == 0 ==> (res matches Err(e) && is_invalid_with(e, "ai_id is required"@)),
        trim(ai_id@).len() > 0 ==> (res matches Ok(id) && id@ == trim(ai_id@)),
{
    let t = str_trim(ai_id);
    if t.is_empty() {
        Err(AppError::invalid("ai_id is required"))
    } else {
        Ok(to_owned_string(t))
    }
}

/// Does `s` contain `pat`?
pub open spec fn contains_text(s: Seq<char>, pat: Seq<char>) -> bool {
    first_from(s, pat, 0) is Some
}

/// What is wrong with instruction text, if anything: more than
/// `MAX_INSTRUCTIONS_CHARS` characters, or `{{` / `}}` in it.
pub open spec fn instructions_problem(v: Seq<char>) -> Option<Seq<char>> {
    if v.len() > MAX_INSTRUCTIONS_CHARS {
        Some("instructions are too long"@)
    } else if contains_text(v, "{{"@) || contains_text(v, "}}"@) {
        Some("instructions must not contain placeholder syntax"@)
    } else {
        None
    }
}

/// The outcome of a check that reports an `Invalid` message.
pub open spec fn invalid_outcome(r: Result<(), AppError>, problem: Option<Seq<char>>) -> bool {
    match problem {
        Some(m) => r matches Err(e) && is_invalid_with(e, m),
        None => r is Ok,
    }
}

fn text_contains(s: &str, pat: &str) -> (res: bool)
    ensures
        res == contains_text(s@, pat@),
{
    let cs = chars_of(s);
    let p = chars_of(pat);
    find_chars(&cs, &p).is_some()
}

/// Check instruction text.
pub fn validate_instructions(value: &str) -> (res: Result<(), AppError>)
    ensures
        invalid_outcome(res, instructions_problem(value@)),
{
    if crate::text::char_len(value) > MAX_INSTRUCTIONS_CHARS {
        return Err(AppError::invalid("instructions are too long"));
    }
    if text_contains(value, "{{") || text_contains(value, "}}") {
        return Err(AppError::invalid("instructions must not contain placeholder syntax"));
    }
    Ok(())
}

/// Check optional instruction text.
pub fn validate_instructions_option(value: Option<&str>) -> (res: Result<(), AppError>)
    ensures
        invalid_outcome(
            res,
            match value {
                Some(v) => instructions_problem(v@),
                None => None,
            },
        ),
{
    match value {
        Some(v) => validate_instructions(v),
        None => Ok(()),
    }
}

/// What is wrong with new automation settings, checked in this order: an
/// interval under 2 messages, a journal cap outside 1 to 3, then the two
/// instruction overrides.
pub open spec fn configuration_problem(input: SetChatAutomationSettingsInput) -> Option<Seq<char>> {
    if input.interval < 2 {
        Some("interval must be at least 2"@)
    } else if !(1 <= input.journal_cap <= 3) {
        Some("journal cap must be between 1 and 3"@)
    } else {
        match input.journal_instructions_override {
            Some(v) if instructions_problem(v@) is Some => instructions_problem(v@),
            _ => match input.summary_instructions_override {
                Some(v) => instructions_problem(v@),
                None => None,
            },
        }
    }
}

/// Check new automation settings.
pub fn validate_configuration(input: &SetChatAutomationSettingsInput) -> (res: Result<(), AppError>)
    ensures
        invalid_outcome(res, configuration_problem(*input)),
{
    if input.interval < 2 {
        return Err(AppError::invalid("interval must be at least 2"));
    }
    if !(1 <= input.journal_cap && input.journal_cap <= 3) {
        return Err(AppError::invalid("journal cap must be between 1 and 3"));
    }
    let j = match &input.journal_instructions_override {
        Some(v) => Some(v.as_str()),
        None => None,
    };
    validate_instructions_option(j)?;
    let s = match &input.summary_instructions_override {
        Some(v) => Some(v.as_str()),
        None => None,
    };
    validate_instructions_option(s)
}

/// An instruction override as stored: trimmed, absent when blank.
pub open spec fn override_value(v: Option<Seq<char>>) -> Option<Seq<char>> {
    match v {
        Some(s) => if trim(s).len() == 0 {
            None
        } else {
            Some(trim(s))
        },
        None => None,
    }
}

/// Check and normalise an instruction override.
pub fn normalize_override(value: Option<String>) -> (res: Result<Option<String>, AppError>)
    ensures
        match opt_view(value) {
            Some(v) if instructions_problem(v) is Some => res matches Err(e) && is_invalid_with(
                e,
                instructions_problem(v)->0,
            ),
            _ => res matches Ok(o) && opt_view(o) == override_value(opt_view(value)),
        },
{
    match value {
        Some(v) => {
            validate_instructions(v.as_str())?;
            let t = str_trim(v.as_str());
            if t.is_empty() {
                Ok(None)
            } else {
                Ok(Some(to_owned_string(t)))
            }
        },
        None => Ok(None),
    }
}

/// The instructions in force: the chat's override, else the global
/// setting, else the default; blank values do not count, and the chosen
/// one is trimmed (the default is used as written).
pub open spec fn resolved_instructions(
    override_value: Option<Seq<char>>,
    global: Option<Seq<char>>,
    default: Seq<char>,
) -> Seq<char> {
    match override_value {
        Some(o) if trim(o).len() > 0 => trim(o),
        _ => match global {
            Some(g) if trim(g).len() > 0 => trim(g),
            _ => default,
        },
    }
}

/// Pick the instructions in force.
pub fn resolve_instructions(override_value: Option<&str>, global: Option<&str>, default: &str) -> (res: String)
    ensures
        res@ == resolved_instructions(
            match override_value {
                Some(o) => Some(o@),
                None => None,
            },
            match global {
                Some(g) => Some(g@),
                None => None,
            },
            default@,
        ),
{
    match override_value {
        Some(o) => {
            let t = str_trim(o);
            if !t.is_empty() {
                return to_owned_string(t);
            }
        },
        None => {},
    }
    match global {
        Some(g) => {
            let t = str_trim(g);
            if !t.is_empty() {
                return to_owned_string(t);
            }
        },
        None => {},
    }
    to_owned_string(default)
}

/// Does changing the summary field require rewriting the current summary?
/// Only when there is a summary, the field changed and the summary is
/// longer than the new field allows.
pub open spec fn reformat_needed(summary: Option<Seq<char>>, was: SummaryBackend, now: SummaryBackend) -> bool {
    match summary {
        Some(s) => was != now && s.len() > backend_limit(now),
        None => false,
    }
}

/// The state after applying new settings: every setting is taken from the
/// input (overrides normalised), and a pending rewrite of the summary is
/// flagged when the new field is too small for it; everything else stays.
pub fn apply_automation_settings(state: ChatAutomationState, ai_id: String, input: SetChatAutomationSettingsInput) -> (res: Result<ChatAutomationState, AppError>)
    requires
        configuration_problem(input) is None,
    ensures
        res matches Ok(s) && {
            &&& s.ai_id@ == ai_id@
            &&& s.auto_journal_enabled == input.auto_journal_enabled
            &&& s.auto_summary_enabled == input.auto_summary_enabled
            &&& s.interval == input.interval
            &&& s.journal_cap == input.journal_cap
            &&& s.summary_backend == input.summary_backend
            &&& s.bootstrap_mode == input.bootstrap_mode
            &&& opt_view(s.journal_instructions_override) == override_value(
                opt_view(input.journal_instructions_override),
            )
            &&& opt_view(s.summary_instructions_override) == override_value(
                opt_view(input.summary_instructions_override),
            )
            &&& s.pending_reformat == (state.pending_reformat || reformat_needed(
                opt_view(state.summary),
                state.summary_backend,
                input.summary_backend,
            ))
            &&& opt_view(s.summary) == opt_view(state.summary)
            &&& s.summary_cursor == state.summary_cursor
            &&& s.journal_cursor == state.journal_cursor
            &&& s.journal_initialised == state.journal_initialised
            &&& s.summary_backend_stored == state.summary_backend_stored
            &&& s.pending_summary_candidate == state.pending_summary_candidate
            &&& s.pending_summary_backend == state.pending_summary_backend
            &&& s.pending_summary_created_at == state.pending_summary_created_at
            &&& s.pending_summary_cursor == state.pending_summary_cursor
            &&& s.journal_last_error == state.journal_last_error
            &&& s.summary_last_error == state.summary_last_error
            &&& s.journal_last_run_at == state.journal_last_run_at
            &&& s.summary_last_run_at == state.summary_last_run_at
        },
{
    let mut state = state;
    let was = state.summary_backend;
    state.ai_id = ai_id;
    state.auto_journal_enabled = input.auto_journal_enabled;
    state.auto_summary_enabled = input.auto_summary_enabled;
    state.interval = input.interval;
    state.journal_cap = input.journal_cap;
    state.summary_backend = input.summary_backend;
    state.bootstrap_mode = input.bootstrap_mode;
    state.journal_instructions_override = normalize_override(input.journal_instructions_override)?;
    state.summary_instructions_override = normalize_override(input.summary_instructions_override)?;
    let too_long = match &state.summary {
        Some(s) => was != state.summary_backend && crate::text::char_len(s.as_str())
            > state.summary_backend.limit(),
        None => false,
    };
    if too_long {
        state.pending_reformat = true;
    }
    Ok(state)
}

/// The name the AI goes by in prompts: the label of its target when that
/// is not blank, otherwise its `ai_id`.
pub open spec fn ai_label_of(targets: Seq<Target>, ai_id: Seq<char>) -> Seq<char>
    decreases targets.len(),
{
    if targets.len() == 0 {
        ai_id
    } else if targets[0].ai_id@ == ai_id {
        if trim(targets[0].label@).len() > 0 {
            targets[0].label@
        } else {
            ai_id
        }
    } else {
        ai_label_of(targets.drop_first(), ai_id)
    }
}

/// The name the AI goes by in prompts.
pub fn ai_label(targets: &[Target], ai_id: &str) -> (res: String)
    ensures
        res@ == ai_label_of(targets@, ai_id@),
{
    let mut i: usize = 0;
    proof {
        assert(targets@.skip(0) == targets@);
    }
    while i < targets.len()
        invariant
            i <= targets.len(),
            ai_label_of(targets@, ai_id@) == ai_label_of(targets@.skip(i as int), ai_id@),
        decreases targets.len() - i,
    {
        proof {
            assert(targets@.skip(i as int)[0] == targets@[i as int]);
            assert(targets@.skip(i as int).drop_first() == targets@.skip(i + 1));
        }
        if crate::text::text_eq(targets[i].ai_id.as_str(), ai_id) {
            if !str_trim(targets[i].label.as_str()).is_empty() {
                return targets[i].label.clone();
            } else {
                return to_owned_string(ai_id);
            }
        }
        i = i + 1;
    }
    to_owned_string(ai_id)
}

/// Automation is only configured for chats that have a target.
pub fn ensure_target(targets: &[Target], ai_id: &str) -> (res: Result<(), AppError>)
    ensures
        (exists|k: int| 0 <= k < targets@.len() && #[trigger] targets@[k].ai_id@ == ai_id@) <==> res is Ok,
        res is Err ==> (res matches Err(e) && is_invalid_with(
            e,
            "target with ai_id '"@ + ai_id@ + "' not found"@,
        )),
{
    let mut i: usize = 0;
    while i < targets.len()
        invariant
            i <= targets.len(),
            forall|k: int| 0 <= k < i ==> #[trigger] targets@[k].ai_id@ != ai_id@,
        decreases targets.len() - i,
    {
        if crate::text::text_eq(targets[i].ai_id.as_str(), ai_id) {
            return Ok(());
        }
        i = i + 1;
    }
    let mut msg = chars_of("target with ai_id '");
    push_str(&mut msg, ai_id);
    push_str(&mut msg, "' not found");
    let text = string_of(msg.as_slice());
    Err(AppError::invalid(text.as_str()))
}

/// The Kindroid token for automation: a missing token is reported as
/// `TokenMissing`, any other keychain failure as itself.
pub open spec fn automation_token(r: Result<String, SecretStoreError>) -> Result<String, AppError> {
    match r {
        Ok(t) => Ok(t),
        Err(SecretStoreError::NotFound) => Err(AppError::TokenMissing),
        Err(e) => Err(AppError::Secret(e)),
    }
}

/// Interpret the keychain's answer for the Kindroid token.
pub fn api_token_for_automation(r: Result<String, SecretStoreError>) -> (res: Result<String, AppError>)
    ensures
        res == automation_token(r),
{
    match r {
        Ok(t) => Ok(t),
        Err(SecretStoreError::NotFound) => Err(AppError::TokenMissing),
        Err(e) => Err(AppError::Secret(e)),
    }
}

/// The AI bearer used by automation: a missing token means none (an
/// empty token, so no auth header is sent), any other keychain failure
/// is reported.
pub fn ai_bearer_for_automation(r: Result<String, SecretStoreError>) -> (res: Result<String, AppError>)
    ensures
        match r {
            Ok(t) => res matches Ok(b) && b@ == t@,
            Err(SecretStoreError::NotFound) => res matches Ok(b) && b@.len() == 0,
            Err(e) => res == Err::<String, AppError>(AppError::Secret(e)),
        },
{
    match r {
        Ok(t) => Ok(t),
        Err(SecretStoreError::NotFound) => Ok(String::new()),
        Err(e) => Err(AppError::Secret(e)),
    }
}

} // verus!
